use vstd::prelude::*;

use crate::state_machine::{
    bit_set, decode_status, decode_status_word, status_bit_index, status_bit_to_index, CiA402State,
    ControlWord, StatusBit, STATE_MASK,
};

verus! {

/// How a CiA 402 drive answers a control word, by its state.
/// A drive in QuickStopActive re-enters OperationEnabled on SwitchOn.
pub open spec fn cia402_next(s: CiA402State, c: ControlWord) -> CiA402State {
    match c {
        ControlWord::Shutdown => match s {
            CiA402State::SwitchOnDisabled | CiA402State::ReadyToSwitchOn
            | CiA402State::SwitchedOn | CiA402State::OperationEnabled => CiA402State::ReadyToSwitchOn,
            _ => s,
        },
        ControlWord::SwitchOn | ControlWord::DisableOperation => match s {
            CiA402State::ReadyToSwitchOn | CiA402State::SwitchedOn
            | CiA402State::OperationEnabled => CiA402State::SwitchedOn,
            CiA402State::QuickStopActive => CiA402State::OperationEnabled,
            _ => s,
        },
        ControlWord::EnableOperation => match s {
            CiA402State::SwitchedOn | CiA402State::OperationEnabled
            | CiA402State::QuickStopActive => CiA402State::OperationEnabled,
            _ => s,
        },
        ControlWord::QuickStop => match s {
            CiA402State::OperationEnabled => CiA402State::QuickStopActive,
            CiA402State::ReadyToSwitchOn | CiA402State::SwitchedOn => CiA402State::SwitchOnDisabled,
            _ => s,
        },
        ControlWord::DisableVoltage => match s {
            CiA402State::ReadyToSwitchOn | CiA402State::SwitchedOn
            | CiA402State::OperationEnabled => CiA402State::SwitchOnDisabled,
            _ => s,
        },
        ControlWord::FaultReset => match s {
            CiA402State::Fault => CiA402State::SwitchOnDisabled,
            _ => s,
        },
        ControlWord::Unknown => s,
    }
}

/// Errors of the drive-level decisions.
#[derive(Debug, Clone, Copy, PartialEq, Eq, Structural)]
pub enum DriveError {
    /// The drive reports Fault.
    SlaveFault,
    /// Torque was requested while the drive is in SwitchOnDisabled.
    SwitchedOnDisabled,
    /// The command would break a safety policy.
    SafetyReject,
    /// A wait exceeded its bound.
    Timeout,
    /// The status word matches no CiA 402 state.
    InvalidState,
}

/// What to do next while bringing a drive into OperationEnabled.
#[derive(Debug, Clone, Copy, PartialEq, Eq, Structural)]
pub enum TurnOnStep {
    /// Write this control word, then wait for the state it leads to.
    Issue(ControlWord),
    /// The drive is initialising: wait without writing.
    Wait,
    /// The drive is in OperationEnabled.
    Done,
}

/// The control word of the turn-on sequence for each state.
pub open spec fn turn_on_command(s: CiA402State) -> Option<ControlWord> {
    match s {
        CiA402State::SwitchOnDisabled => Some(ControlWord::Shutdown),
        CiA402State::ReadyToSwitchOn => Some(ControlWord::SwitchOn),
        CiA402State::SwitchedOn => Some(ControlWord::EnableOperation),
        CiA402State::QuickStopActive => Some(ControlWord::SwitchOn),
        _ => None,
    }
}

/// Next step of the turn-on sequence: Shutdown, SwitchOn, EnableOperation,
/// with SwitchOn out of QuickStopActive. A drive in Fault is refused: turn-on
/// waits for an explicit FaultReset.
pub fn turn_on_step(s: CiA402State) -> (r: Result<TurnOnStep, DriveError>)
    ensures
        s == CiA402State::Fault <==> r == Err::<TurnOnStep, DriveError>(DriveError::SlaveFault),
        s == CiA402State::OperationEnabled <==> r == Ok::<TurnOnStep, DriveError>(TurnOnStep::Done),
        (s == CiA402State::NotReadyToSwitchOn || s == CiA402State::FaultReactionActive) <==> r
            == Ok::<TurnOnStep, DriveError>(TurnOnStep::Wait),
        forall|c: ControlWord|
            r == Ok::<TurnOnStep, DriveError>(TurnOnStep::Issue(c)) <==> turn_on_command(s) == Some(c),
{
    match s {
        CiA402State::SwitchOnDisabled => Ok(TurnOnStep::Issue(ControlWord::Shutdown)),
        CiA402State::ReadyToSwitchOn => Ok(TurnOnStep::Issue(ControlWord::SwitchOn)),
        CiA402State::SwitchedOn => Ok(TurnOnStep::Issue(ControlWord::EnableOperation)),
        CiA402State::QuickStopActive => Ok(TurnOnStep::Issue(ControlWord::SwitchOn)),
        CiA402State::Fault => Err(DriveError::SlaveFault),
        CiA402State::OperationEnabled => Ok(TurnOnStep::Done),
        CiA402State::NotReadyToSwitchOn | CiA402State::FaultReactionActive => Ok(TurnOnStep::Wait),
    }
}

/// The state that the control word of a turn-on step leads to.
pub fn expected_state(s: CiA402State, c: ControlWord) -> (r: CiA402State)
    ensures
        r == cia402_next(s, c),
{
    match c {
        ControlWord::Shutdown => match s {
            CiA402State::SwitchOnDisabled | CiA402State::ReadyToSwitchOn
            | CiA402State::SwitchedOn | CiA402State::OperationEnabled => CiA402State::ReadyToSwitchOn,
            _ => s,
        },
        ControlWord::SwitchOn | ControlWord::DisableOperation => match s {
            CiA402State::ReadyToSwitchOn | CiA402State::SwitchedOn
            | CiA402State::OperationEnabled => CiA402State::SwitchedOn,
            CiA402State::QuickStopActive => CiA402State::OperationEnabled,
            _ => s,
        },
        ControlWord::EnableOperation => match s {
            CiA402State::SwitchedOn | CiA402State::OperationEnabled
            | CiA402State::QuickStopActive => CiA402State::OperationEnabled,
            _ => s,
        },
        ControlWord::QuickStop => match s {
            CiA402State::OperationEnabled => CiA402State::QuickStopActive,
            CiA402State::ReadyToSwitchOn | CiA402State::SwitchedOn => CiA402State::SwitchOnDisabled,
            _ => s,
        },
        ControlWord::DisableVoltage => match s {
            CiA402State::ReadyToSwitchOn | CiA402State::SwitchedOn
            | CiA402State::OperationEnabled => CiA402State::SwitchOnDisabled,
            _ => s,
        },
        ControlWord::FaultReset => match s {
            CiA402State::Fault => CiA402State::SwitchOnDisabled,
            _ => s,
        },
        ControlWord::Unknown => s,
    }
}

/// What a bounded wait for a status bit has come to.
#[derive(Debug, Clone, Copy, PartialEq, Eq, Structural)]
pub enum WaitOutcome {
    Reached,
    KeepWaiting,
    Failed(DriveError),
}

/// One look at the status word while waiting for `bit`: a Fault bit ends the
/// wait with an error, the bit ends it with success, and once `elapsed_us`
/// exceeds `timeout_us` the wait fails with `Timeout`.
pub fn wait_for_status_bit(status: u16, bit: StatusBit, elapsed_us: u64, timeout_us: u64) -> (r:
    WaitOutcome)
    ensures
        bit_set(status, 3) ==> r == WaitOutcome::Failed(DriveError::SlaveFault),
        !bit_set(status, 3) && bit_set(status, status_bit_index(bit)) ==> r == WaitOutcome::Reached,
        !bit_set(status, 3) && !bit_set(status, status_bit_index(bit)) ==> r == (if elapsed_us
            > timeout_us {
            WaitOutcome::Failed(DriveError::Timeout)
        } else {
            WaitOutcome::KeepWaiting
        }),
{
    let pos = status_bit_to_index(bit);
    if status & (1u16 << 3u16) != 0 {
        WaitOutcome::Failed(DriveError::SlaveFault)
    } else if status & (1u16 << pos) != 0 {
        WaitOutcome::Reached
    } else if elapsed_us > timeout_us {
        WaitOutcome::Failed(DriveError::Timeout)
    } else {
        WaitOutcome::KeepWaiting
    }
}

/// Whether the status word reports torque on (the OperationEnabled bit).
pub fn is_torque_on(status: u16) -> (r: bool)
    ensures
        r == bit_set(status, 2),
{
    status & (1u16 << 2u16) != 0
}

/// The control word that moves a drive to the requested torque state, or
/// `None` when it is already there. A drive in Fault refuses, and so does a
/// drive in SwitchOnDisabled asked for torque.
pub open spec fn torque_command(status: u16, requested: bool) -> Result<Option<ControlWord>, DriveError> {
    if bit_set(status, 3) {
        Err(DriveError::SlaveFault)
    } else if bit_set(status, 2) == requested {
        Ok(None)
    } else if bit_set(status, 6) && requested {
        Err(DriveError::SwitchedOnDisabled)
    } else if requested {
        Ok(Some(ControlWord::EnableOperation))
    } else {
        Ok(Some(ControlWord::DisableOperation))
    }
}

/// Decides the torque change; see `torque_command`.
pub fn torque_decision(status: u16, requested: bool) -> (r: Result<Option<ControlWord>, DriveError>)
    ensures
        r == torque_command(status, requested),
{
    if status & (1u16 << 3u16) != 0 {
        return Err(DriveError::SlaveFault);
    }
    let actual = is_torque_on(status);
    if actual == requested {
        Ok(None)
    } else if status & (1u16 << 6u16) != 0 && requested {
        Err(DriveError::SwitchedOnDisabled)
    } else if requested {
        Ok(Some(ControlWord::EnableOperation))
    } else {
        Ok(Some(ControlWord::DisableOperation))
    }
}

/// Whether a mode-of-operation change must be written: not when the drive
/// already runs in that mode, and refused while torque is on.
pub fn mode_change_decision(status: u16, mode_display: u8, requested: u8) -> (r: Result<
    bool,
    DriveError,
>)
    ensures
        mode_display == requested ==> r == Ok::<bool, DriveError>(false),
        mode_display != requested && bit_set(status, 2) ==> r == Err::<bool, DriveError>(
            DriveError::SafetyReject,
        ),
        mode_display != requested && !bit_set(status, 2) ==> r == Ok::<bool, DriveError>(true),
{
    if mode_display == requested {
        Ok(false)
    } else if is_torque_on(status) {
        Err(DriveError::SafetyReject)
    } else {
        Ok(true)
    }
}

/// The state of a drive from its status word, or `InvalidState`.
pub fn drive_state(status: u16) -> (r: Result<CiA402State, DriveError>)
    ensures
        r == (match decode_status(status) {
            Some(s) => Ok::<CiA402State, DriveError>(s),
            None => Err(DriveError::InvalidState),
        }),
{
    match decode_status_word(status) {
        Some(s) => Ok(s),
        None => Err(DriveError::InvalidState),
    }
}

/// A mode change is complete once the requested mode and the displayed mode
/// both equal the mode asked for.
pub fn mode_change_complete(target: u8, mode: u8, mode_display: u8) -> (r: bool)
    ensures
        r == (mode == target && mode_display == target),
{
    mode == target && mode_display == target
}

/// What to do next while setting a drive up.
#[derive(Debug, Clone, Copy, PartialEq, Eq, Structural)]
pub enum SetupStep {
    /// The drive does not yet report Remote: wait.
    WaitRemote,
    /// Write FaultReset, then wait (bounded) for SwitchOnDisabled.
    ResetFault,
    /// Write this mode of operation.
    WriteMode(u8),
    /// The mode was written: wait until the drive displays it.
    WaitMode,
    /// The drive is set up.
    Done,
}

/// The setup step for what the snapshot shows: wait for Remote; clear a
/// fault; then set the default mode and wait until the drive displays it.
/// Changing the mode of a drive in OperationEnabled is refused.
pub open spec fn setup_action(status: u16, default_mode: u8, mode: u8, mode_display: u8) -> Result<SetupStep, DriveError> {
    if !bit_set(status, 9) {
        Ok(SetupStep::WaitRemote)
    } else if bit_set(status, 3) {
        Ok(SetupStep::ResetFault)
    } else if mode != default_mode {
        if bit_set(status, 2) {
            Err(DriveError::SafetyReject)
        } else {
            Ok(SetupStep::WriteMode(default_mode))
        }
    } else if mode_display != default_mode {
        Ok(SetupStep::WaitMode)
    } else {
        Ok(SetupStep::Done)
    }
}

/// Decides the next setup step; see `setup_action`.
pub fn setup_step(status: u16, default_mode: u8, mode: u8, mode_display: u8) -> (r: Result<SetupStep, DriveError>)
    ensures
        r == setup_action(status, default_mode, mode, mode_display),
{
    if status & (1u16 << 9u16) == 0 {
        Ok(SetupStep::WaitRemote)
    } else if status & (1u16 << 3u16) != 0 {
        Ok(SetupStep::ResetFault)
    } else if mode != default_mode {
        if is_torque_on(status) {
            Err(DriveError::SafetyReject)
        } else {
            Ok(SetupStep::WriteMode(default_mode))
        }
    } else if !mode_change_complete(default_mode, mode, mode_display) {
        Ok(SetupStep::WaitMode)
    } else {
        Ok(SetupStep::Done)
    }
}

/// Following the turn-on sequence from SwitchOnDisabled passes through
/// ReadyToSwitchOn and SwitchedOn and ends in OperationEnabled.
pub proof fn lemma_turn_on_sequence()
    ensures
        ({
            let s1 = cia402_next(CiA402State::SwitchOnDisabled, turn_on_command(CiA402State::SwitchOnDisabled).unwrap());
            let s2 = cia402_next(s1, turn_on_command(s1).unwrap());
            let s3 = cia402_next(s2, turn_on_command(s2).unwrap());
            s1 == CiA402State::ReadyToSwitchOn && s2 == CiA402State::SwitchedOn && s3
                == CiA402State::OperationEnabled
        }),
{
}

/// Shutdown issued twice leaves a powered drive in ReadyToSwitchOn, and
/// EnableOperation changes nothing on a drive in OperationEnabled.
pub proof fn lemma_shutdown_and_enable_idempotent(s: CiA402State)
    requires
        s == CiA402State::SwitchOnDisabled || s == CiA402State::ReadyToSwitchOn || s
            == CiA402State::SwitchedOn || s == CiA402State::OperationEnabled,
    ensures
        cia402_next(s, ControlWord::Shutdown) == CiA402State::ReadyToSwitchOn,
        cia402_next(cia402_next(s, ControlWord::Shutdown), ControlWord::Shutdown)
            == CiA402State::ReadyToSwitchOn,
        cia402_next(CiA402State::OperationEnabled, ControlWord::EnableOperation)
            == CiA402State::OperationEnabled,
{
}

/// EnableOperation asked of a drive that reports OperationEnabled (its
/// operation-enabled bit set, no fault) is a no-op: no control word is written.
pub proof fn lemma_enable_when_enabled_writes_nothing(status: u16)
    requires
        bit_set(status, 2),
        !bit_set(status, 3),
    ensures
        torque_command(status, true) == Ok::<Option<ControlWord>, DriveError>(None),
{
}

/// A status word that decodes to OperationEnabled has the operation-enabled
/// bit set and no fault bit.
pub proof fn lemma_operation_enabled_bits(status: u16)
    requires
        decode_status(status) == Some(CiA402State::OperationEnabled),
    ensures
        bit_set(status, 2),
        !bit_set(status, 3),
{
    assert(status & STATE_MASK == 0x37);
    assert(status & STATE_MASK == 0x37 ==> (status & (1u16 << 3u16) == 0 && status & (1u16 << 2u16)
        != 0)) by (bit_vector);
}

} // verus!
