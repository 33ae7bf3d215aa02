use poulpe_ethercat::client::{
    check_ids_available, check_state_age, ClientCommand, ClientError, CommandBuffer,
};
use poulpe_ethercat::command::{
    check_if_too_old, plan_command, take_last, turn_on_writes, Command, CommandError, RegisterWrite,
};
use poulpe_ethercat::config::{
    check_network, get_orbita_type, get_slave_id, get_slave_ids, get_slave_name, ConfigError,
    PoulpeKind, SlaveConfig,
};
use poulpe_ethercat::controller::{get_error_codes, get_error_flags};
use poulpe_ethercat::drive::{expected_state, turn_on_step, DriveError, TurnOnStep};
use poulpe_ethercat::state_machine::{CiA402State, HomingErrorFlag, MotorErrorFlag};
use poulpe_ethercat::engine::{PendingWrite, AL_STATE_OP};
use poulpe_ethercat::epos::{epos_register_range, EposRegister, Slave};
use poulpe_ethercat::layout::{ByteRange, PdoEntry, PdoOffsets, SlaveOffsets, SyncManagerKind};
use poulpe_ethercat::register::PdoRegister;
use poulpe_ethercat::server::{handle_command_batch, to_pending_writes};
use poulpe_ethercat::state::{get_state_for_id, keep_last_known, poule_empty_state};

fn command(published_us: Option<u64>) -> Command {
    Command {
        id: 0,
        emergency_stop: None,
        compliancy: None,
        mode_of_operation: 0,
        target_position: vec![],
        target_velocity: vec![],
        target_torque: vec![],
        velocity_limit: vec![],
        torque_limit: vec![],
        published_us,
    }
}

fn view(ws: &[RegisterWrite]) -> Vec<(PdoRegister, usize, Vec<u8>)> {
    ws.iter().map(|w| (w.register, w.index, w.bytes.clone())).collect()
}

#[test]
fn freshness_bound_is_strict() {
    assert!(!check_if_too_old(5000, 5000));
    assert!(check_if_too_old(5001, 5000));
    assert!(check_if_too_old(8000, 5000));
}

#[test]
fn coalescing_keeps_the_last_axis_values() {
    assert_eq!(take_last(&vec![1, 2, 3, 4, 5], 2), Some(vec![4, 5]));
    assert_eq!(take_last(&vec![1, 2], 2), Some(vec![1, 2]));
    assert_eq!(take_last(&vec![1], 2), None);
    assert_eq!(take_last(&vec![], 0), Some(vec![]));
}

#[test]
fn stale_command_plans_nothing() {
    let mut c = command(Some(0));
    c.target_position = vec![1, 2];
    let r = plan_command(&c, 8_000, 5_000, 2, Some(0x0237), 8, &vec![]);
    assert_eq!(r.err(), Some(CommandError::Stale));
    let r = plan_command(&command(None), 8_000, 5_000, 2, Some(0x0237), 8, &vec![]);
    assert_eq!(r.err(), Some(CommandError::MissingTimestamp));
}

#[test]
fn fresh_command_writes_targets_as_little_endian_words() {
    let mut c = command(Some(7_000));
    c.target_position = vec![0x1111_1111, 0x0403_0201, 0x0807_0605];
    let r = plan_command(&c, 8_000, 5_000, 2, Some(0x0237), 8, &vec![]).unwrap();
    assert_eq!(
        view(&r),
        vec![
            (PdoRegister::TargetPosition, 0, vec![1, 2, 3, 4]),
            (PdoRegister::TargetPosition, 1, vec![5, 6, 7, 8]),
        ]
    );
    c.velocity_limit = vec![1];
    let r = plan_command(&c, 8_000, 5_000, 2, Some(0x0237), 8, &vec![]);
    assert_eq!(r.err(), Some(CommandError::SafetyReject));
}

#[test]
fn mode_change_while_enabled_is_rejected() {
    let mut c = command(Some(8_000));
    c.mode_of_operation = 9;
    let r = plan_command(&c, 8_000, 5_000, 1, Some(0x0237), 8, &vec![]);
    assert_eq!(r.err(), Some(CommandError::SafetyReject));
    let r = plan_command(&c, 8_000, 5_000, 1, Some(0x0223), 8, &vec![]).unwrap();
    assert_eq!(view(&r), vec![(PdoRegister::ModeOfOperation, 0, vec![9])]);
    let r = plan_command(&c, 8_000, 5_000, 1, Some(0x0223), 9, &vec![]).unwrap();
    assert!(r.is_empty());
    let r = plan_command(&c, 8_000, 5_000, 1, None, 9, &vec![]);
    assert_eq!(r.err(), Some(CommandError::Unreadable));
}

#[test]
fn turning_on_holds_the_actual_position_first() {
    let mut c = command(Some(8_000));
    c.compliancy = Some(false);
    let actual = vec![vec![9, 9, 9, 9]];
    let r = plan_command(&c, 8_000, 5_000, 1, Some(0x0223), 8, &actual).unwrap();
    assert_eq!(
        view(&r),
        vec![
            (PdoRegister::TargetPosition, 0, vec![9, 9, 9, 9]),
            (PdoRegister::ControlWord, 0, vec![0x0F, 0]),
        ]
    );
    // already enabled: nothing to write
    let r = plan_command(&c, 8_000, 5_000, 1, Some(0x0237), 8, &actual).unwrap();
    assert!(r.is_empty());
    // compliant: disable operation
    c.compliancy = Some(true);
    let r = plan_command(&c, 8_000, 5_000, 1, Some(0x0237), 8, &actual).unwrap();
    assert_eq!(view(&r), vec![(PdoRegister::ControlWord, 0, vec![0x07, 0])]);
    // emergency stop wins over compliancy
    c.emergency_stop = Some(true);
    let r = plan_command(&c, 8_000, 5_000, 1, Some(0x0237), 8, &actual).unwrap();
    assert_eq!(view(&r), vec![(PdoRegister::ControlWord, 0, vec![0x02, 0])]);
    // a faulted drive refuses torque
    c.emergency_stop = None;
    c.compliancy = Some(false);
    let r = plan_command(&c, 8_000, 5_000, 1, Some(0x0208), 8, &actual);
    assert_eq!(r.err(), Some(CommandError::Drive(DriveError::SlaveFault)));
}

fn poulpe_layout() -> SlaveOffsets {
    let mut s = PdoOffsets::new();
    s = s.register_entry("controlword".to_string(), PdoEntry { bit_len: 16, byte_offset: 0 });
    s = s.register_entry("mode_of_operation".to_string(), PdoEntry { bit_len: 8, byte_offset: 2 });
    s = s.register_entry("target_position".to_string(), PdoEntry { bit_len: 32, byte_offset: 3 });
    s = s.register_entry("statusword".to_string(), PdoEntry { bit_len: 16, byte_offset: 7 });
    s = s.register_entry(
        "mode_of_operation_display".to_string(),
        PdoEntry { bit_len: 8, byte_offset: 9 },
    );
    s = s.register_entry("actual_position".to_string(), PdoEntry { bit_len: 32, byte_offset: 10 });
    SlaveOffsets { slaves: vec![s] }
}

fn poulpe_config() -> Vec<SlaveConfig> {
    vec![SlaveConfig::Poulpe(PoulpeKind { id: 0, orbita_type: 1, name: "left".to_string() })]
}

#[test]
fn stale_and_fresh_commands_in_one_batch() {
    let offsets = poulpe_layout();
    let mut snapshot = vec![0u8; 14];
    snapshot[7] = 0x37;
    snapshot[8] = 0x02;
    snapshot[9] = 8;
    let mut stale = command(Some(0));
    stale.target_position = vec![0x0101_0101];
    let mut fresh = command(Some(7_000));
    fresh.target_position = vec![0x0403_0201];
    let writes = handle_command_batch(
        &poulpe_config(),
        &offsets,
        &snapshot,
        &vec![AL_STATE_OP],
        &vec![stale, fresh],
        8_000,
        5_000,
    );
    let expected = vec![PendingWrite { range: ByteRange { start: 3, end: 7 }, bytes: vec![1, 2, 3, 4] }];
    assert_eq!(writes.len(), 1);
    assert_eq!(writes[0].range, expected[0].range);
    assert_eq!(writes[0].bytes, expected[0].bytes);
    // the slave is not ready: the batch is dropped
    let writes = handle_command_batch(
        &poulpe_config(),
        &offsets,
        &snapshot,
        &vec![0],
        &vec![command(Some(8_000))],
        8_000,
        5_000,
    );
    assert!(writes.is_empty());
}

#[test]
fn client_buffer_coalesces_per_slave() {
    let mut buf = CommandBuffer::new();
    assert!(buf.extract_commands(10).is_none());
    buf.push_command(3, ClientCommand::TargetPosition(vec![1, 2]));
    buf.push_command(1, ClientCommand::Compliancy(true));
    buf.push_command(3, ClientCommand::TargetPosition(vec![5, 6]));
    buf.push_command(3, ClientCommand::ModeOfOperation(9));
    buf.push_command(1, ClientCommand::Compliancy(false));
    buf.push_command(1, ClientCommand::EmergencyStop(true));
    let cmds = buf.extract_commands(42).unwrap();
    assert!(buf.pending.is_empty());
    assert_eq!(cmds.len(), 2);
    assert_eq!(cmds[0].id, 3);
    assert_eq!(cmds[0].target_position, vec![1, 2, 5, 6]);
    assert_eq!(take_last(&cmds[0].target_position, 2), Some(vec![5, 6]));
    assert_eq!(cmds[0].mode_of_operation, 9);
    assert_eq!(cmds[0].compliancy, None);
    assert_eq!(cmds[1].id, 1);
    assert_eq!(cmds[1].compliancy, Some(false));
    assert_eq!(cmds[1].emergency_stop, Some(true));
    assert_eq!(cmds[1].published_us, Some(42));
    assert!(buf.extract_commands(43).is_none());
}

#[test]
fn client_state_older_than_a_second_is_stale() {
    assert_eq!(check_state_age(2_000_000, Some(1_000_000)), Ok(()));
    assert_eq!(check_state_age(2_000_001, Some(1_000_000)), Err(ClientError::Stale));
    assert_eq!(check_state_age(5, None), Ok(()));
}

#[test]
fn network_is_checked_against_the_configuration() {
    let cfg = poulpe_config();
    assert_eq!(get_orbita_type(&cfg, 0), Some(1));
    assert_eq!(get_orbita_type(&cfg, 1), None);
    assert_eq!(get_slave_name(&cfg, 0), Some("left".to_string()));
    assert_eq!(check_network(&cfg, &vec!["left".to_string()]), Ok(()));
    assert_eq!(
        check_network(&cfg, &vec!["right".to_string()]),
        Err(ConfigError::NameMismatch(0))
    );
    assert_eq!(
        check_network(&cfg, &vec!["left".to_string(), "x".to_string()]),
        Err(ConfigError::SlaveNotInConfig(1))
    );
    assert_eq!(check_network(&cfg, &vec![]), Err(ConfigError::SlaveMissing(0)));
}

#[test]
fn subscription_keeps_the_last_known_state() {
    let offsets = poulpe_layout();
    let mut snapshot = vec![0u8; 14];
    snapshot[7] = 0x37;
    snapshot[8] = 0x02;
    snapshot[9] = 8;
    snapshot[10..14].copy_from_slice(&[1, 0, 0, 0]);
    // registers the layout lacks make the record unreadable
    assert!(get_state_for_id(&offsets, &snapshot, &vec![AL_STATE_OP], 0, 5).is_none());
    let empty = poule_empty_state();
    assert_eq!(empty.id, 0);
    assert!(empty.actual_position.is_empty());
    let mut last = vec![poule_empty_state(), poule_empty_state()];
    let mut fresh_state = poule_empty_state();
    fresh_state.id = 7;
    keep_last_known(vec![Some(fresh_state), None], &mut last);
    assert_eq!(last[0].id, 7);
    assert_eq!(last[1].id, 0);
    keep_last_known(vec![None, None], &mut last);
    assert_eq!(last[0].id, 7);
}

#[test]
fn epos_registers_sit_in_fixed_blocks() {
    assert_eq!(Slave::Id2.offset(), 2);
    let r = epos_register_range(Slave::Id1, EposRegister::PositionActualValue);
    assert_eq!(r, ByteRange { start: 44, end: 48 });
    assert_eq!(EposRegister::ErrorCode.addr(), 26);
    assert_eq!(EposRegister::TargetPosition.length(), 4);
}

#[test]
fn configured_ids_and_names_are_looked_up() {
    let cfg = vec![
        SlaveConfig::Poulpe(PoulpeKind { id: 2, orbita_type: 3, name: "neck".to_string() }),
        SlaveConfig::Unknown,
        SlaveConfig::Poulpe(PoulpeKind { id: 0, orbita_type: 2, name: "left".to_string() }),
    ];
    assert_eq!(get_slave_ids(&cfg), vec![2, 0]);
    assert_eq!(get_slave_id(&cfg, &"left".to_string()), Some(0));
    assert_eq!(get_slave_id(&cfg, &"right".to_string()), None);
    assert_eq!(get_orbita_type(&cfg, 2), Some(3));
}

#[test]
fn error_flags_are_read_from_the_snapshot() {
    let mut s = PdoOffsets::new();
    for k in 0..3usize {
        s = s.register_entry("error_code".to_string(), PdoEntry { bit_len: 16, byte_offset: 2 * k });
    }
    let offsets = SlaveOffsets { slaves: vec![s] };
    let snapshot = vec![0b1_0000, 0, 0b10_0000, 0, 0b1000_0100, 0x01];
    let flags = get_error_flags(&offsets, &snapshot, 0).unwrap();
    assert_eq!(flags.homing_error_flags, vec![HomingErrorFlag::IndexSearchFail]);
    assert_eq!(
        flags.motor_error_flags,
        vec![
            vec![MotorErrorFlag::OverCurrent],
            vec![MotorErrorFlag::HighTemperatureWarning, MotorErrorFlag::DriverFault]
        ]
    );
    assert_eq!(get_error_codes(&offsets, &snapshot, 0), Some(vec![0x10, 0x20, 0x0184]));
    assert!(get_error_flags(&offsets, &snapshot, 1).is_none());
}

#[test]
fn turn_on_from_cold_keeps_the_actual_position() {
    // the drive finishes booting into SwitchOnDisabled
    let mut s = CiA402State::NotReadyToSwitchOn;
    assert_eq!(turn_on_step(s), Ok(TurnOnStep::Wait));
    s = CiA402State::SwitchOnDisabled;
    let mut ticks = 0;
    while let Ok(TurnOnStep::Issue(c)) = turn_on_step(s) {
        s = expected_state(s, c);
        ticks += 1;
    }
    assert_eq!(s, CiA402State::OperationEnabled);
    assert!(ticks <= 4);
    // enabling writes the actual position (12345) as target first
    let actual = vec![12345i32.to_le_bytes().to_vec()];
    let mut c = command(Some(8_000));
    c.compliancy = Some(false);
    let r = plan_command(&c, 8_000, 5_000, 1, Some(0x0223), 8, &actual).unwrap();
    assert_eq!(r[0].register, PdoRegister::TargetPosition);
    assert_eq!(i32::from_le_bytes([r[0].bytes[0], r[0].bytes[1], r[0].bytes[2], r[0].bytes[3]]), 12345);
}

#[test]
fn commands_for_slaves_not_ready_are_dropped_one_by_one() {
    let offsets = poulpe_layout();
    let mut snapshot = vec![0u8; 14];
    snapshot[7] = 0x37;
    snapshot[8] = 0x02;
    snapshot[9] = 8;
    let mut other = command(Some(8_000));
    other.id = 1;
    other.target_position = vec![9];
    let mut fresh = command(Some(8_000));
    fresh.target_position = vec![0x0403_0201];
    let writes = handle_command_batch(
        &poulpe_config(),
        &offsets,
        &snapshot,
        &vec![AL_STATE_OP, 0],
        &vec![other, fresh],
        8_000,
        5_000,
    );
    assert_eq!(writes.len(), 1);
    assert_eq!(writes[0].range, ByteRange { start: 3, end: 7 });
    assert_eq!(writes[0].bytes, vec![1, 2, 3, 4]);
}

#[test]
fn writes_that_do_not_fit_their_range_are_refused_before_queueing() {
    let offsets = poulpe_layout();
    let good = RegisterWrite { register: PdoRegister::TargetPosition, index: 0, bytes: vec![1, 2, 3, 4] };
    let short = RegisterWrite { register: PdoRegister::ControlWord, index: 0, bytes: vec![1] };
    let missing = RegisterWrite { register: PdoRegister::TorqueLimit, index: 0, bytes: vec![1] };
    let ok = to_pending_writes(&offsets, 0, &vec![good.clone(), missing.clone()]).unwrap();
    assert_eq!(ok.len(), 1);
    assert_eq!(ok[0].range, ByteRange { start: 3, end: 7 });
    assert!(to_pending_writes(&offsets, 0, &vec![good, short, missing]).is_none());
}

#[test]
fn turn_on_step_writes_hold_every_replica_before_enabling() {
    let actual = vec![vec![1, 1, 1, 1], vec![2, 2, 2, 2]];
    let ws = turn_on_writes(CiA402State::SwitchedOn, &actual).unwrap();
    assert_eq!(
        view(&ws),
        vec![
            (PdoRegister::TargetPosition, 0, vec![1, 1, 1, 1]),
            (PdoRegister::TargetPosition, 1, vec![2, 2, 2, 2]),
            (PdoRegister::ControlWord, 0, vec![0x0F, 0]),
        ]
    );
    let ws = turn_on_writes(CiA402State::SwitchOnDisabled, &actual).unwrap();
    assert_eq!(view(&ws), vec![(PdoRegister::ControlWord, 0, vec![0x06, 0])]);
    assert!(turn_on_writes(CiA402State::OperationEnabled, &actual).unwrap().is_empty());
    assert_eq!(turn_on_writes(CiA402State::Fault, &actual).err(), Some(DriveError::SlaveFault));
}

#[test]
fn requested_ids_must_all_be_offered() {
    assert!(check_ids_available(&vec![0, 2], &vec![2, 1, 0]));
    assert!(!check_ids_available(&vec![0, 3], &vec![2, 1, 0]));
    assert!(check_ids_available(&vec![], &vec![]));
}

#[test]
fn sync_managers_are_classified_by_control_bits() {
    let k = SyncManagerKind::from_control_register(0b0010);
    assert!(k.mailbox && !k.output && k.holds_mailbox_inputs());
    let k = SyncManagerKind::from_control_register(0b0110);
    assert!(k.mailbox && k.output && !k.holds_mailbox_inputs());
    assert!(!SyncManagerKind::from_control_register(0b0000).holds_mailbox_inputs());
}

#[test]
fn a_ready_slave_with_readable_registers_gets_a_state_record() {
    let names = [
        ("mode_of_operation_display", 8u8),
        ("actual_position", 32),
        ("actual_velocity", 32),
        ("actual_torque", 32),
        ("actual_axis_position", 32),
        ("axis_position_zero_offset", 32),
        ("board_temperatures", 32),
        ("motor_temperatures", 32),
        ("target_position", 32),
        ("velocity_limit", 32),
        ("torque_limit", 32),
        ("statusword", 16),
        ("error_code", 16),
        ("error_code", 16),
    ];
    let mut s = PdoOffsets::new();
    let mut at = 0usize;
    for (name, bits) in names {
        s = s.register_entry(name.to_string(), PdoEntry { bit_len: bits, byte_offset: at });
        at += bits as usize / 8;
    }
    let offsets = SlaveOffsets { slaves: vec![s] };
    let mut snapshot = vec![0u8; at];
    snapshot[0] = 8; // mode display
    snapshot[1] = 7; // actual position, replica 0
    snapshot[41] = 0x37; // status word: OperationEnabled
    snapshot[45] = 0x20; // second error word: over-current
    let st = get_state_for_id(&offsets, &snapshot, &vec![AL_STATE_OP], 0, 99).unwrap();
    assert_eq!(st.id, 0);
    assert_eq!(st.mode_of_operation, 8);
    assert_eq!(st.actual_position, vec![7]);
    assert_eq!(st.state, 0x37);
    assert!(st.compliant);
    assert_eq!(st.error_codes, vec![0, 0x20]);
    assert_eq!(st.published_us, Some(99));
    assert!(get_state_for_id(&offsets, &snapshot, &vec![0], 0, 99).is_none());
    // an undecodable status word gives no record
    snapshot[41] = 0x02;
    assert!(get_state_for_id(&offsets, &snapshot, &vec![AL_STATE_OP], 0, 99).is_none());
    assert!(get_error_flags(&offsets, &snapshot, 0).is_some());
}
