use vstd::prelude::*;

use crate::drive::{
    mode_change_decision, torque_command, torque_decision, turn_on_command, turn_on_step, DriveError,
    TurnOnStep,
};
use crate::state_machine::CiA402State;
use crate::image::copy_bytes;
use crate::register::PdoRegister;
use crate::state_machine::{bit_set, control_word_value, ControlWord};

verus! {

/// A command record as the server receives it. Vector values are the bit
/// patterns of the wire's 32-bit floats, which the image stores as they are.
#[derive(Debug, Clone)]
pub struct Command {
    pub id: i32,
    pub emergency_stop: Option<bool>,
    pub compliancy: Option<bool>,
    /// Zero asks for no change.
    pub mode_of_operation: i32,
    pub target_position: Vec<u32>,
    pub target_velocity: Vec<u32>,
    pub target_torque: Vec<u32>,
    pub velocity_limit: Vec<u32>,
    pub torque_limit: Vec<u32>,
    /// Publish time in microseconds on the clock the server reads.
    pub published_us: Option<u64>,
}

/// One register write: `bytes` into replica `index` of `register`.
#[derive(Debug, Clone)]
pub struct RegisterWrite {
    pub register: PdoRegister,
    pub index: usize,
    pub bytes: Vec<u8>,
}

/// A register write as a plain value.
pub open spec fn write_view(w: RegisterWrite) -> (PdoRegister, usize, Seq<u8>) {
    (w.register, w.index, w.bytes@)
}

pub open spec fn writes_view(ws: Seq<RegisterWrite>) -> Seq<(PdoRegister, usize, Seq<u8>)> {
    ws.map_values(|w: RegisterWrite| write_view(w))
}

/// Why a command is dropped.
#[derive(Debug, Clone, Copy, PartialEq, Eq, Structural)]
pub enum CommandError {
    /// The command carries no publish time.
    MissingTimestamp,
    /// The command is older than the drop time.
    Stale,
    /// A vector is shorter than the axis count, or the mode change is refused.
    SafetyReject,
    /// The drive refuses the torque change.
    Drive(DriveError),
    /// The slave's status could not be read.
    Unreadable,
}

/// Age of a command in microseconds, zero if it comes from the future.
pub open spec fn command_age(now_us: u64, published_us: u64) -> u64 {
    if now_us >= published_us {
        (now_us - published_us) as u64
    } else {
        0
    }
}

/// The command carries a publish time older than the drop time.
pub open spec fn is_stale(cmd: Command, now_us: u64, drop_us: u32) -> bool {
    match cmd.published_us {
        Some(t) => command_age(now_us, t) > drop_us as u64,
        None => false,
    }
}

/// Whether a command of this age must be dropped.
pub fn check_if_too_old(elapsed_us: u64, command_drop_time_us: u32) -> (r: bool)
    ensures
        r == (elapsed_us > command_drop_time_us as u64),
{
    elapsed_us > command_drop_time_us as u64
}

/// The last `n` values of a vector, or `None` when it holds fewer.
pub open spec fn last_n(v: Seq<u32>, n: nat) -> Option<Seq<u32>> {
    if v.len() >= n {
        Some(v.subrange(v.len() - n, v.len() as int))
    } else {
        None
    }
}

/// Keeps the last `n` values of a vector, the values that a coalesced
/// vector last received.
pub fn take_last(v: &Vec<u32>, n: usize) -> (r: Option<Vec<u32>>)
    ensures
        r matches Some(out) ==> last_n(v@, n as nat) == Some(out@),
        r is None <==> last_n(v@, n as nat) is None,
{
    if v.len() < n {
        return None;
    }
    let mut out: Vec<u32> = Vec::new();
    let mut k: usize = v.len() - n;
    while k < v.len()
        invariant
            v@.len() >= n,
            v@.len() - n <= k <= v@.len(),
            out@ == v@.subrange(v@.len() - n, k as int),
        decreases v@.len() - k,
    {
        out.push(v[k]);
        proof {
            assert(v@.subrange(v@.len() - n, k + 1) =~= v@.subrange(v@.len() - n, k as int).push(
                v@[k as int],
            ));
        }
        k = k + 1;
    }
    Some(out)
}

/// The four little-endian bytes of a 32-bit value.
pub open spec fn le_bytes_u32(x: u32) -> Seq<u8> {
    seq![
        (x % 256) as u8,
        ((x / 256) % 256) as u8,
        ((x / 65536) % 256) as u8,
        (x / 16777216) as u8,
    ]
}

/// The two little-endian bytes of a 16-bit value.
pub open spec fn le_bytes_u16(x: u16) -> Seq<u8> {
    seq![(x % 256) as u8, (x / 256) as u8]
}

fn u32_to_le(x: u32) -> (r: Vec<u8>)
    ensures
        r@ == le_bytes_u32(x),
{
    let mut r: Vec<u8> = Vec::new();
    r.push((x % 256) as u8);
    r.push(((x / 256) % 256) as u8);
    r.push(((x / 65536) % 256) as u8);
    r.push((x / 16777216) as u8);
    proof {
        assert(r@ =~= le_bytes_u32(x));
    }
    r
}

fn u16_to_le(x: u16) -> (r: Vec<u8>)
    ensures
        r@ == le_bytes_u16(x),
{
    let mut r: Vec<u8> = Vec::new();
    r.push((x % 256) as u8);
    r.push((x / 256) as u8);
    proof {
        assert(r@ =~= le_bytes_u16(x));
    }
    r
}

/// One write per value, into replicas 0, 1, ... of the register.
pub open spec fn value_writes(reg: PdoRegister, vals: Seq<u32>) -> Seq<(PdoRegister, usize, Seq<u8>)> {
    Seq::new(vals.len(), |k: int| (reg, k as usize, le_bytes_u32(vals[k])))
}

/// The writes of one vector field: none for an empty vector, else its last
/// `n` values.
pub open spec fn field_writes(reg: PdoRegister, v: Seq<u32>, n: nat) -> Seq<(PdoRegister, usize, Seq<u8>)> {
    if v.len() == 0 {
        seq![]
    } else {
        value_writes(reg, v.subrange(v.len() - n, v.len() as int))
    }
}

/// Every vector field is empty or holds at least `n` values.
pub open spec fn fields_coalesce(cmd: Command, n: nat) -> bool {
    &&& (cmd.target_position@.len() == 0 || cmd.target_position@.len() >= n)
    &&& (cmd.velocity_limit@.len() == 0 || cmd.velocity_limit@.len() >= n)
    &&& (cmd.torque_limit@.len() == 0 || cmd.torque_limit@.len() >= n)
    &&& (cmd.target_velocity@.len() == 0 || cmd.target_velocity@.len() >= n)
    &&& (cmd.target_torque@.len() == 0 || cmd.target_torque@.len() >= n)
}

/// The writes of all vector fields, in the order the server applies them.
pub open spec fn vector_writes(cmd: Command, n: nat) -> Seq<(PdoRegister, usize, Seq<u8>)> {
    field_writes(PdoRegister::TargetPosition, cmd.target_position@, n) + field_writes(
        PdoRegister::VelocityLimit,
        cmd.velocity_limit@,
        n,
    ) + field_writes(PdoRegister::TorqueLimit, cmd.torque_limit@, n) + field_writes(
        PdoRegister::TargetVelocity,
        cmd.target_velocity@,
        n,
    ) + field_writes(PdoRegister::TargetTorque, cmd.target_torque@, n)
}

/// The control-word write of one control word.
pub open spec fn control_write(c: ControlWord) -> (PdoRegister, usize, Seq<u8>) {
    (PdoRegister::ControlWord, 0usize, le_bytes_u16(control_word_value(c)))
}

/// The raw bytes of the actual-position replicas, written back as targets
/// before torque is enabled.
pub open spec fn position_hold_writes(actual: Seq<Seq<u8>>) -> Seq<(PdoRegister, usize, Seq<u8>)> {
    Seq::new(actual.len(), |k: int| (PdoRegister::TargetPosition, k as usize, actual[k]))
}

/// What a command's emergency-stop and compliancy fields write: QuickStop on
/// an emergency stop; otherwise the torque change that compliancy asks for,
/// preceded by holding the actual position when torque is enabled.
pub open spec fn intent_writes(cmd: Command, status: u16, actual: Seq<Seq<u8>>) -> Result<
    Seq<(PdoRegister, usize, Seq<u8>)>,
    CommandError,
> {
    if cmd.emergency_stop == Some(true) {
        Ok(seq![control_write(ControlWord::QuickStop)])
    } else {
        match cmd.compliancy {
            None => Ok(seq![]),
            Some(compliant) => match torque_command(status, !compliant) {
                Err(e) => Err(CommandError::Drive(e)),
                Ok(None) => Ok(seq![]),
                Ok(Some(c)) => if c == ControlWord::EnableOperation {
                    Ok(position_hold_writes(actual) + seq![control_write(c)])
                } else {
                    Ok(seq![control_write(c)])
                },
            },
        }
    }
}

/// The command needs the slave's status word.
pub open spec fn needs_status(cmd: Command) -> bool {
    cmd.mode_of_operation != 0 || cmd.emergency_stop != Some(true) && cmd.compliancy is Some
}

/// What a command writes, or why it is dropped. A command is applied
/// whole or not at all.
///
/// `n` is the slave's axis count, `status` and `mode_display` what the
/// snapshot shows of it, `actual` its actual-position replicas.
pub open spec fn command_plan(
    cmd: Command,
    now_us: u64,
    drop_us: u32,
    n: nat,
    status: Option<u16>,
    mode_display: u8,
    actual: Seq<Seq<u8>>,
) -> Result<Seq<(PdoRegister, usize, Seq<u8>)>, CommandError> {
    match cmd.published_us {
        None => Err(CommandError::MissingTimestamp),
        Some(t) => if command_age(now_us, t) > drop_us as u64 {
            Err(CommandError::Stale)
        } else if !fields_coalesce(cmd, n) {
            Err(CommandError::SafetyReject)
        } else if needs_status(cmd) && status is None {
            Err(CommandError::Unreadable)
        } else {
            let w = status.unwrap_or(0);
            let mode = cmd.mode_of_operation;
            let mode_part: Result<Seq<(PdoRegister, usize, Seq<u8>)>, CommandError> = if mode == 0 {
                Ok(seq![])
            } else if mode < 0 || mode > 255 {
                Err(CommandError::SafetyReject)
            } else if mode_display == mode as u8 {
                Ok(seq![])
            } else if bit_set(w, 2) {
                Err(CommandError::SafetyReject)
            } else {
                Ok(seq![(PdoRegister::ModeOfOperation, 0usize, seq![mode as u8])])
            };
            match mode_part {
                Err(e) => Err(e),
                Ok(m) => match intent_writes(cmd, w, actual) {
                    Err(e) => Err(e),
                    Ok(i) => Ok(m + vector_writes(cmd, n) + i),
                },
            }
        },
    }
}

fn push_field(out: &mut Vec<RegisterWrite>, reg: PdoRegister, v: &Vec<u32>, n: usize)
    requires
        v@.len() == 0 || v@.len() >= n,
    ensures
        writes_view(final(out)@) == writes_view(old(out)@) + field_writes(reg, v@, n as nat),
{
    if v.len() == 0 {
        proof {
            assert(writes_view(out@) =~= writes_view(out@) + field_writes(reg, v@, n as nat));
        }
        return ;
    }
    let vals = match take_last(v, n) {
        Some(vals) => vals,
        None => {
            return ;
        },
    };
    let ghost start = out@;
    let mut k: usize = 0;
    while k < vals.len()
        invariant
            k <= vals@.len(),
            vals@ == v@.subrange(v@.len() - n, v@.len() as int),
            writes_view(out@) == writes_view(start) + value_writes(reg, vals@.subrange(0, k as int)),
        decreases vals@.len() - k,
    {
        let bytes = u32_to_le(vals[k]);
        let ghost before = out@;
        out.push(RegisterWrite { register: reg, index: k, bytes });
        proof {
            assert(writes_view(out@) =~= writes_view(before).push((reg, k, le_bytes_u32(vals@[k as int]))));
            assert(value_writes(reg, vals@.subrange(0, k + 1)) =~= value_writes(
                reg,
                vals@.subrange(0, k as int),
            ).push((reg, k, le_bytes_u32(vals@[k as int]))));
            assert(writes_view(out@) =~= writes_view(start) + value_writes(
                reg,
                vals@.subrange(0, k + 1),
            ));
        }
        k = k + 1;
    }
    proof {
        assert(vals@.subrange(0, k as int) =~= vals@);
    }
}

fn push_control(out: &mut Vec<RegisterWrite>, c: ControlWord)
    ensures
        writes_view(final(out)@) == writes_view(old(out)@).push(control_write(c)),
{
    let ghost before = out@;
    out.push(RegisterWrite { register: PdoRegister::ControlWord, index: 0, bytes: u16_to_le(c.to_u16()) });
    proof {
        assert(writes_view(out@) =~= writes_view(before).push(control_write(c)));
    }
}

fn push_vector_writes(out: &mut Vec<RegisterWrite>, cmd: &Command, n: usize)
    requires
        fields_coalesce(*cmd, n as nat),
    ensures
        writes_view(final(out)@) == writes_view(old(out)@) + vector_writes(*cmd, n as nat),
{
    let ghost start = writes_view(out@);
    push_field(out, PdoRegister::TargetPosition, &cmd.target_position, n);
    push_field(out, PdoRegister::VelocityLimit, &cmd.velocity_limit, n);
    push_field(out, PdoRegister::TorqueLimit, &cmd.torque_limit, n);
    push_field(out, PdoRegister::TargetVelocity, &cmd.target_velocity, n);
    push_field(out, PdoRegister::TargetTorque, &cmd.target_torque, n);
    proof {
        assert(writes_view(out@) =~= start + vector_writes(*cmd, n as nat));
    }
}

fn push_position_hold(out: &mut Vec<RegisterWrite>, actual_position: &Vec<Vec<u8>>)
    ensures
        writes_view(final(out)@) == writes_view(old(out)@) + position_hold_writes(
            actual_position@.map_values(|b: Vec<u8>| b@),
        ),
{
    let ghost actual = actual_position@.map_values(|b: Vec<u8>| b@);
    let ghost start = writes_view(out@);
    let mut k: usize = 0;
    while k < actual_position.len()
        invariant
            k <= actual_position@.len(),
            actual == actual_position@.map_values(|b: Vec<u8>| b@),
            writes_view(out@) == start + position_hold_writes(actual.subrange(0, k as int)),
        decreases actual_position@.len() - k,
    {
        let ghost before = out@;
        out.push(
            RegisterWrite {
                register: PdoRegister::TargetPosition,
                index: k,
                bytes: copy_bytes(&actual_position[k]),
            },
        );
        proof {
            assert(writes_view(out@) =~= writes_view(before).push(
                (PdoRegister::TargetPosition, k, actual[k as int]),
            ));
            assert(position_hold_writes(actual.subrange(0, k + 1)) =~= position_hold_writes(
                actual.subrange(0, k as int),
            ).push((PdoRegister::TargetPosition, k, actual[k as int])));
        }
        k = k + 1;
    }
    proof {
        assert(actual.subrange(0, k as int) =~= actual);
    }
}

fn intent_plan(cmd: &Command, status: u16, actual_position: &Vec<Vec<u8>>) -> (r: Result<
    Vec<RegisterWrite>,
    CommandError,
>)
    ensures
        r matches Ok(ws) ==> intent_writes(
            *cmd,
            status,
            actual_position@.map_values(|b: Vec<u8>| b@),
        ) == Ok::<Seq<(PdoRegister, usize, Seq<u8>)>, CommandError>(writes_view(ws@)),
        r matches Err(e) ==> intent_writes(
            *cmd,
            status,
            actual_position@.map_values(|b: Vec<u8>| b@),
        ) == Err::<Seq<(PdoRegister, usize, Seq<u8>)>, CommandError>(e),
{
    let mut out: Vec<RegisterWrite> = Vec::new();
    proof {
        assert(writes_view(out@) =~= Seq::<(PdoRegister, usize, Seq<u8>)>::empty());
    }
    if matches!(cmd.emergency_stop, Some(true)) {
        push_control(&mut out, ControlWord::QuickStop);
        proof {
            assert(writes_view(out@) =~= seq![control_write(ControlWord::QuickStop)]);
        }
        return Ok(out);
    }
    match cmd.compliancy {
        None => Ok(out),
        Some(compliant) => match torque_decision(status, !compliant) {
            Err(e) => Err(CommandError::Drive(e)),
            Ok(None) => Ok(out),
            Ok(Some(c)) => {
                if matches!(c, ControlWord::EnableOperation) {
                    push_position_hold(&mut out, actual_position);
                }
                push_control(&mut out, c);
                proof {
                    if c == ControlWord::EnableOperation {
                        assert(writes_view(out@) =~= position_hold_writes(
                            actual_position@.map_values(|b: Vec<u8>| b@),
                        ) + seq![control_write(c)]);
                    } else {
                        assert(writes_view(out@) =~= seq![control_write(c)]);
                    }
                }
                Ok(out)
            },
        },
    }
}

/// Plans a command: the register writes it makes, in order, or why it is
/// dropped; see `command_plan`.
pub fn plan_command(
    cmd: &Command,
    now_us: u64,
    command_drop_time_us: u32,
    axis_count: usize,
    status: Option<u16>,
    mode_display: u8,
    actual_position: &Vec<Vec<u8>>,
) -> (r: Result<Vec<RegisterWrite>, CommandError>)
    ensures
        r matches Ok(ws) ==> command_plan(
            *cmd,
            now_us,
            command_drop_time_us,
            axis_count as nat,
            status,
            mode_display,
            actual_position@.map_values(|b: Vec<u8>| b@),
        ) == Ok::<Seq<(PdoRegister, usize, Seq<u8>)>, CommandError>(writes_view(ws@)),
        r matches Err(e) ==> command_plan(
            *cmd,
            now_us,
            command_drop_time_us,
            axis_count as nat,
            status,
            mode_display,
            actual_position@.map_values(|b: Vec<u8>| b@),
        ) == Err::<Seq<(PdoRegister, usize, Seq<u8>)>, CommandError>(e),
{
    let t = match cmd.published_us {
        None => {
            return Err(CommandError::MissingTimestamp);
        },
        Some(t) => t,
    };
    let age = if now_us >= t {
        now_us - t
    } else {
        0
    };
    if check_if_too_old(age, command_drop_time_us) {
        return Err(CommandError::Stale);
    }
    let n = axis_count;
    if !((cmd.target_position.len() == 0 || cmd.target_position.len() >= n) && (
    cmd.velocity_limit.len() == 0 || cmd.velocity_limit.len() >= n) && (cmd.torque_limit.len()
        == 0 || cmd.torque_limit.len() >= n) && (cmd.target_velocity.len() == 0
        || cmd.target_velocity.len() >= n) && (cmd.target_torque.len() == 0
        || cmd.target_torque.len() >= n)) {
        return Err(CommandError::SafetyReject);
    }
    let needs = cmd.mode_of_operation != 0 || (!matches!(cmd.emergency_stop, Some(true))
        && cmd.compliancy.is_some());
    if needs && status.is_none() {
        return Err(CommandError::Unreadable);
    }
    let w: u16 = match status {
        Some(w) => w,
        None => 0,
    };
    let mut out: Vec<RegisterWrite> = Vec::new();
    let mode = cmd.mode_of_operation;
    if mode != 0 {
        if mode < 0 || mode > 255 {
            return Err(CommandError::SafetyReject);
        }
        match mode_change_decision(w, mode_display, mode as u8) {
            Err(_) => {
                return Err(CommandError::SafetyReject);
            },
            Ok(false) => {},
            Ok(true) => {
                let mut b: Vec<u8> = Vec::new();
                b.push(mode as u8);
                out.push(RegisterWrite { register: PdoRegister::ModeOfOperation, index: 0, bytes: b });
            },
        }
    }
    let ghost mode_part = writes_view(out@);
    proof {
        if mode == 0 || mode_display == mode as u8 {
            assert(mode_part =~= Seq::<(PdoRegister, usize, Seq<u8>)>::empty());
        } else {
            assert(mode_part =~= seq![(PdoRegister::ModeOfOperation, 0usize, seq![mode as u8])]);
        }
    }
    let intent = intent_plan(cmd, w, actual_position);
    let mut tail = match intent {
        Err(e) => {
            return Err(e);
        },
        Ok(t) => t,
    };
    push_vector_writes(&mut out, cmd, n);
    let ghost before_tail = writes_view(out@);
    let ghost tail_view = writes_view(tail@);
    out.append(&mut tail);
    proof {
        assert(writes_view(out@) =~= before_tail + tail_view);
    }
    Ok(out)
}

/// A command older than the drop time on arrival writes nothing: it is
/// dropped as stale whatever else it carries.
pub proof fn lemma_stale_command_writes_nothing(
    cmd: Command,
    now_us: u64,
    drop_us: u32,
    n: nat,
    status: Option<u16>,
    mode_display: u8,
    actual: Seq<Seq<u8>>,
)
    requires
        is_stale(cmd, now_us, drop_us),
    ensures
        command_plan(cmd, now_us, drop_us, n, status, mode_display, actual) == Err::<
            Seq<(PdoRegister, usize, Seq<u8>)>,
            CommandError,
        >(CommandError::Stale),
{
}

/// The writes of one turn-on step from state `s`: none while the drive
/// initialises or once it is in OperationEnabled; else the step's control
/// word, preceded, before EnableOperation, by the actual position of every
/// replica written as its target. A drive in Fault is refused.
pub open spec fn turn_on_plan(s: CiA402State, actual: Seq<Seq<u8>>) -> Result<
    Seq<(PdoRegister, usize, Seq<u8>)>,
    DriveError,
> {
    if s == CiA402State::Fault {
        Err(DriveError::SlaveFault)
    } else {
        match turn_on_command(s) {
            None => Ok(seq![]),
            Some(c) => if c == ControlWord::EnableOperation {
                Ok(position_hold_writes(actual) + seq![control_write(c)])
            } else {
                Ok(seq![control_write(c)])
            },
        }
    }
}

/// Plans the writes of one turn-on step; see `turn_on_plan`.
pub fn turn_on_writes(s: CiA402State, actual_position: &Vec<Vec<u8>>) -> (r: Result<
    Vec<RegisterWrite>,
    DriveError,
>)
    ensures
        r matches Ok(ws) ==> turn_on_plan(s, actual_position@.map_values(|b: Vec<u8>| b@)) == Ok::<
            Seq<(PdoRegister, usize, Seq<u8>)>,
            DriveError,
        >(writes_view(ws@)),
        r matches Err(e) ==> turn_on_plan(s, actual_position@.map_values(|b: Vec<u8>| b@)) == Err::<
            Seq<(PdoRegister, usize, Seq<u8>)>,
            DriveError,
        >(e),
{
    let mut out: Vec<RegisterWrite> = Vec::new();
    proof {
        assert(writes_view(out@) =~= Seq::<(PdoRegister, usize, Seq<u8>)>::empty());
    }
    match turn_on_step(s) {
        Err(e) => Err(e),
        Ok(TurnOnStep::Wait) | Ok(TurnOnStep::Done) => Ok(out),
        Ok(TurnOnStep::Issue(c)) => {
            if matches!(c, ControlWord::EnableOperation) {
                push_position_hold(&mut out, actual_position);
            }
            push_control(&mut out, c);
            proof {
                if c == ControlWord::EnableOperation {
                    assert(writes_view(out@) =~= position_hold_writes(
                        actual_position@.map_values(|b: Vec<u8>| b@),
                    ) + seq![control_write(c)]);
                } else {
                    assert(writes_view(out@) =~= seq![control_write(c)]);
                }
            }
            Ok(out)
        },
    }
}

/// Turning torque on for a drive that already reports it (operation-enabled
/// bit set, no fault) writes nothing.
pub proof fn lemma_turn_on_when_enabled_writes_nothing(cmd: Command, status: u16, actual: Seq<Seq<u8>>)
    requires
        cmd.emergency_stop != Some(true),
        cmd.compliancy == Some(false),
        bit_set(status, 2),
        !bit_set(status, 3),
    ensures
        intent_writes(cmd, status, actual) == Ok::<Seq<(PdoRegister, usize, Seq<u8>)>, CommandError>(
            seq![],
        ),
{
}

} // verus!
