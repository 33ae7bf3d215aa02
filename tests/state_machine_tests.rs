use poulpe_ethercat::drive::{
    expected_state, mode_change_complete, mode_change_decision, setup_step, torque_decision,
    turn_on_step, wait_for_status_bit, DriveError, SetupStep, TurnOnStep, WaitOutcome,
};
use poulpe_ethercat::register::{BoardStatus, PdoRegister};
use poulpe_ethercat::state_machine::{
    decode_status_word, parse_homing_error_flags, parse_motor_error_flags,
    parse_state_from_status_bits, parse_state_from_status_word, parse_status_word, CiA402State,
    ControlWord, HomingErrorFlag, MotorErrorFlag, StateError, StatusBit,
};

#[test]
fn control_words_have_their_values() {
    assert_eq!(ControlWord::Shutdown.to_u16(), 0x06);
    assert_eq!(ControlWord::SwitchOn.to_u16(), 0x07);
    assert_eq!(ControlWord::DisableOperation.to_u16(), 0x07);
    assert_eq!(ControlWord::EnableOperation.to_u16(), 0x0F);
    assert_eq!(ControlWord::QuickStop.to_u16(), 0x02);
    assert_eq!(ControlWord::FaultReset.to_u16(), 0x80);
    assert_eq!(ControlWord::DisableVoltage.to_u16(), 0x00);
}

#[test]
fn status_word_bits_are_listed_lowest_first() {
    let bits = parse_status_word(0b1000_0010_0010_0001);
    assert_eq!(
        bits,
        vec![
            StatusBit::ReadyToSwitchOn,
            StatusBit::QuickStop,
            StatusBit::Remote,
            StatusBit::PositionReferencedToHomePosition
        ]
    );
    assert!(parse_status_word(0).is_empty());
    assert_eq!(parse_status_word(0xFFFF).len(), 16);
}

#[test]
fn every_state_decodes_from_its_pattern() {
    let states = [
        (0x00u16, CiA402State::NotReadyToSwitchOn),
        (0x40, CiA402State::SwitchOnDisabled),
        (0x21, CiA402State::ReadyToSwitchOn),
        (0x23, CiA402State::SwitchedOn),
        (0x37, CiA402State::OperationEnabled),
        (0x07, CiA402State::QuickStopActive),
        (0x1F, CiA402State::FaultReactionActive),
        (0x08, CiA402State::Fault),
    ];
    for (w, s) in states {
        assert_eq!(decode_status_word(w), Some(s));
        assert_eq!(s.to_u16(), w);
        assert_eq!(parse_state_from_status_word(w), Some(s));
        // warning, manufacturer and watchdog bits do not change the state
        assert_eq!(decode_status_word(w | 0xC180), Some(s));
        assert_eq!(parse_state_from_status_bits(parse_status_word(w | 0x4100)), Ok(s));
    }
}

#[test]
fn unknown_status_pattern_is_rejected() {
    assert_eq!(decode_status_word(0x0002), None);
    assert_eq!(parse_state_from_status_word(0x0237), None);
    assert_eq!(
        parse_state_from_status_bits(vec![StatusBit::SwitchedOn]),
        Err(StateError::InvalidState)
    );
    // the remote bit is a state bit, so it makes the pattern unknown
    assert_eq!(decode_status_word(0x0237), None);
}

#[test]
fn error_flags_are_decoded_from_little_endian_words() {
    assert_eq!(
        parse_motor_error_flags([0b1010_0100, 0]),
        vec![
            MotorErrorFlag::HighTemperatureWarning,
            MotorErrorFlag::OverCurrent,
            MotorErrorFlag::DriverFault
        ]
    );
    assert_eq!(parse_motor_error_flags([0, 0xFF]), vec![]);
    assert_eq!(
        parse_homing_error_flags([0b0001_1001, 0]),
        vec![
            HomingErrorFlag::AxisSensorReadFail,
            HomingErrorFlag::ZeroingFail,
            HomingErrorFlag::IndexSearchFail
        ]
    );
    assert_eq!(parse_homing_error_flags([0b1100_0000, 0]), vec![]);
}

#[test]
fn turn_on_sequence_goes_through_the_documented_states() {
    let mut s = CiA402State::SwitchOnDisabled;
    let mut seen = vec![];
    for _ in 0..4 {
        match turn_on_step(s).unwrap() {
            TurnOnStep::Issue(c) => {
                s = expected_state(s, c);
                seen.push(s);
            }
            TurnOnStep::Done => break,
            TurnOnStep::Wait => panic!("no wait expected"),
        }
    }
    assert_eq!(
        seen,
        vec![
            CiA402State::ReadyToSwitchOn,
            CiA402State::SwitchedOn,
            CiA402State::OperationEnabled
        ]
    );
    assert_eq!(turn_on_step(CiA402State::OperationEnabled), Ok(TurnOnStep::Done));
    assert_eq!(turn_on_step(CiA402State::NotReadyToSwitchOn), Ok(TurnOnStep::Wait));
    // turn-on refuses a faulted drive until an explicit FaultReset
    assert_eq!(turn_on_step(CiA402State::Fault), Err(DriveError::SlaveFault));
}

#[test]
fn shutdown_twice_stays_ready_to_switch_on() {
    let once = expected_state(CiA402State::OperationEnabled, ControlWord::Shutdown);
    let twice = expected_state(once, ControlWord::Shutdown);
    assert_eq!(once, CiA402State::ReadyToSwitchOn);
    assert_eq!(twice, CiA402State::ReadyToSwitchOn);
    assert_eq!(
        expected_state(CiA402State::OperationEnabled, ControlWord::EnableOperation),
        CiA402State::OperationEnabled
    );
    assert_eq!(
        expected_state(CiA402State::QuickStopActive, ControlWord::SwitchOn),
        CiA402State::OperationEnabled
    );
}

#[test]
fn torque_requests_follow_the_status_word() {
    // already on: nothing to write
    assert_eq!(torque_decision(0x0237, true), Ok(None));
    // switched on, torque requested
    assert_eq!(
        torque_decision(0x0223, true),
        Ok(Some(ControlWord::EnableOperation))
    );
    // on, torque off requested
    assert_eq!(
        torque_decision(0x0237, false),
        Ok(Some(ControlWord::DisableOperation))
    );
    assert_eq!(torque_decision(0x0208, true), Err(DriveError::SlaveFault));
    assert_eq!(
        torque_decision(0x0240, true),
        Err(DriveError::SwitchedOnDisabled)
    );
    assert_eq!(torque_decision(0x0240, false), Ok(None));
    // OperationEnabled with no fault: EnableOperation is a no-op whatever bit 6 says
    assert_eq!(torque_decision(0x0277, true), Ok(None));
    assert_eq!(torque_decision(0x0004, true), Ok(None));
}

#[test]
fn mode_change_is_refused_while_enabled() {
    assert_eq!(
        mode_change_decision(0x0237, 8, 9),
        Err(DriveError::SafetyReject)
    );
    assert_eq!(mode_change_decision(0x0223, 8, 9), Ok(true));
    assert_eq!(mode_change_decision(0x0237, 9, 9), Ok(false));
}

#[test]
fn bounded_wait_for_a_status_bit() {
    assert_eq!(
        wait_for_status_bit(0x0221, StatusBit::ReadyToSwitchOn, 10, 1_000_000),
        WaitOutcome::Reached
    );
    assert_eq!(
        wait_for_status_bit(0x0240, StatusBit::ReadyToSwitchOn, 10, 1_000_000),
        WaitOutcome::KeepWaiting
    );
    assert_eq!(
        wait_for_status_bit(0x0240, StatusBit::ReadyToSwitchOn, 1_000_001, 1_000_000),
        WaitOutcome::Failed(DriveError::Timeout)
    );
    assert_eq!(
        wait_for_status_bit(0x0208, StatusBit::ReadyToSwitchOn, 0, 1_000_000),
        WaitOutcome::Failed(DriveError::SlaveFault)
    );
}

#[test]
fn board_status_summarises_state_and_flags() {
    let op = 0x37u32;
    let fault = 0x08u32;
    assert_eq!(
        BoardStatus::from_cia402_to_board_status(op, vec![0, 0, 0]),
        Ok(BoardStatus::NoError)
    );
    assert_eq!(
        BoardStatus::from_cia402_to_board_status(op, vec![0, 0b100]),
        Ok(BoardStatus::HighTemperatureState)
    );
    assert_eq!(
        BoardStatus::from_cia402_to_board_status(0x00, vec![0]),
        Ok(BoardStatus::Init)
    );
    assert_eq!(
        BoardStatus::from_cia402_to_board_status(fault, vec![0, 0b1000]),
        Ok(BoardStatus::OverTemperatureError)
    );
    assert_eq!(
        BoardStatus::from_cia402_to_board_status(fault, vec![0, 0, 0b10_0000]),
        Ok(BoardStatus::OverCurrentError)
    );
    assert_eq!(
        BoardStatus::from_cia402_to_board_status(fault, vec![0, 0b1000_0000]),
        Ok(BoardStatus::BusVoltageError)
    );
    assert_eq!(
        BoardStatus::from_cia402_to_board_status(fault, vec![0b1_0000, 0]),
        Ok(BoardStatus::IndexError)
    );
    assert_eq!(
        BoardStatus::from_cia402_to_board_status(fault, vec![0b1000, 0]),
        Ok(BoardStatus::ZeroingError)
    );
    assert_eq!(
        BoardStatus::from_cia402_to_board_status(0x1F, vec![0b1, 0]),
        Ok(BoardStatus::SensorError)
    );
    assert_eq!(
        BoardStatus::from_cia402_to_board_status(fault, vec![0, 0]),
        Ok(BoardStatus::InitError)
    );
    assert_eq!(BoardStatus::from_cia402_to_board_status(0x99, vec![]), Err(()));
    assert_eq!(BoardStatus::HighTemperatureState.to_u8(), 100);
    assert_eq!(PdoRegister::StatusWord.name(), "statusword");
    assert_eq!(PdoRegister::AxisZeroPosition.name(), "axis_position_zero_offset");
}

#[test]
fn setup_waits_for_remote_clears_faults_and_sets_the_mode() {
    // no Remote bit yet
    assert_eq!(setup_step(0x0040, 8, 0, 0), Ok(SetupStep::WaitRemote));
    // remote and faulted
    assert_eq!(setup_step(0x0208, 8, 0, 0), Ok(SetupStep::ResetFault));
    // remote, switch-on disabled, mode not yet set
    assert_eq!(setup_step(0x0240, 8, 0, 0), Ok(SetupStep::WriteMode(8)));
    assert_eq!(setup_step(0x0240, 8, 8, 0), Ok(SetupStep::WaitMode));
    assert_eq!(setup_step(0x0240, 8, 8, 8), Ok(SetupStep::Done));
    // a drive in OperationEnabled keeps its mode
    assert_eq!(setup_step(0x0237, 8, 9, 9), Err(DriveError::SafetyReject));
    assert!(mode_change_complete(9, 9, 9));
    assert!(!mode_change_complete(9, 9, 8));
    assert!(!mode_change_complete(9, 8, 9));
}
