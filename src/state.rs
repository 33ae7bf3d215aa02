use vstd::prelude::*;

use crate::controller::{
    byte_register_of, get_byte_register, get_error_codes, get_register_values, get_status,
    error_words_readable, get_torque_on, register_values_of, status_word_of,
};
use crate::engine::{is_slave_ready, AL_STATE_OP};
use crate::controller::register_bytes;
use crate::layout::SlaveOffsets;
use crate::register::{register_name, PdoRegister};
use crate::state_machine::{bit_set, cia402_code, decode_status, le_u16};

verus! {

/// The state record that subscribers receive for one slave. Vector values
/// are the bit patterns of 32-bit floats.
#[derive(Debug, Clone)]
pub struct SlaveState {
    pub id: i32,
    pub mode_of_operation: i32,
    pub actual_position: Vec<u32>,
    pub actual_velocity: Vec<u32>,
    pub actual_torque: Vec<u32>,
    pub axis_sensors: Vec<u32>,
    pub axis_sensor_zeros: Vec<u32>,
    pub motor_temperatures: Vec<u32>,
    pub board_temperatures: Vec<u32>,
    pub requested_target_position: Vec<u32>,
    pub requested_velocity_limit: Vec<u32>,
    pub requested_torque_limit: Vec<u32>,
    /// The CiA 402 state, as its canonical status pattern.
    pub state: u32,
    pub error_codes: Vec<i32>,
    pub compliant: bool,
    pub published_us: Option<u64>,
}

/// The record sent for a slave of which nothing is known yet.
pub fn poule_empty_state() -> (r: SlaveState)
    ensures
        r.id == 0 && r.mode_of_operation == 0 && r.state == 0 && !r.compliant && r.published_us
            is None,
        r.actual_position@.len() == 0 && r.actual_velocity@.len() == 0 && r.actual_torque@.len()
            == 0 && r.axis_sensors@.len() == 0 && r.axis_sensor_zeros@.len() == 0
            && r.motor_temperatures@.len() == 0 && r.board_temperatures@.len() == 0
            && r.requested_target_position@.len() == 0 && r.requested_velocity_limit@.len() == 0
            && r.requested_torque_limit@.len() == 0 && r.error_codes@.len() == 0,
{
    SlaveState {
        id: 0,
        mode_of_operation: 0,
        actual_position: Vec::new(),
        actual_velocity: Vec::new(),
        actual_torque: Vec::new(),
        axis_sensors: Vec::new(),
        axis_sensor_zeros: Vec::new(),
        motor_temperatures: Vec::new(),
        board_temperatures: Vec::new(),
        requested_target_position: Vec::new(),
        requested_velocity_limit: Vec::new(),
        requested_torque_limit: Vec::new(),
        state: 0,
        error_codes: Vec::new(),
        compliant: false,
        published_us: None,
    }
}

/// The 32-bit values of a register, as they stand in a snapshot.
pub open spec fn values_are(v: Vec<u32>, offsets: &SlaveOffsets, snapshot: Seq<u8>, slave: int, reg: PdoRegister) -> bool {
    register_values_of(offsets, snapshot, slave, reg) == Some(v@)
}

/// `s` is what the snapshot shows of slave `slave`, stamped `now_us`.
pub open spec fn state_matches(s: SlaveState, offsets: &SlaveOffsets, snapshot: Seq<u8>, slave: int, now_us: u64) -> bool {
    &&& s.id == slave as i32
    &&& byte_register_of(offsets, snapshot, slave, PdoRegister::ModeOfOperationDisplay) == Some(
        s.mode_of_operation as u8,
    ) && 0 <= s.mode_of_operation < 256
    &&& values_are(s.actual_position, offsets, snapshot, slave, PdoRegister::PositionActualValue)
    &&& values_are(s.actual_velocity, offsets, snapshot, slave, PdoRegister::VelocityActualValue)
    &&& values_are(s.actual_torque, offsets, snapshot, slave, PdoRegister::TorqueActualValue)
    &&& values_are(s.axis_sensors, offsets, snapshot, slave, PdoRegister::AxisSensorActualValue)
    &&& values_are(s.axis_sensor_zeros, offsets, snapshot, slave, PdoRegister::AxisZeroPosition)
    &&& values_are(s.board_temperatures, offsets, snapshot, slave, PdoRegister::BoardTemperature)
    &&& values_are(s.motor_temperatures, offsets, snapshot, slave, PdoRegister::MotorTemperature)
    &&& values_are(s.requested_target_position, offsets, snapshot, slave, PdoRegister::TargetPosition)
    &&& values_are(s.requested_velocity_limit, offsets, snapshot, slave, PdoRegister::VelocityLimit)
    &&& values_are(s.requested_torque_limit, offsets, snapshot, slave, PdoRegister::TorqueLimit)
    &&& status_word_of(offsets, snapshot, slave) matches Some(w) && decode_status(w) matches Some(
        st,
    ) && s.state == cia402_code(st) as u32 && s.compliant == bit_set(w, 2)
    &&& s.error_codes@.len() == offsets.entries(slave, register_name(PdoRegister::ErrorCode)).len()
    &&& forall|k: int|
        0 <= k < s.error_codes@.len() ==> (match #[trigger] register_bytes(
            offsets,
            snapshot,
            slave,
            PdoRegister::ErrorCode,
            k,
        ) {
            Some(b) => b.len() >= 2 && s.error_codes@[k] == le_u16(b[0], b[1]) as i32,
            None => false,
        })
    &&& s.published_us == Some(now_us)
}

/// The published states say that slave `id` is operational.
pub open spec fn slave_ready(slave_states: Seq<u8>, id: i32) -> bool {
    0 <= id <= u16::MAX && id < slave_states.len() && slave_states[id as int] == AL_STATE_OP
}

/// Every register that a state record is built from can be read: the
/// displayed mode, the ten 32-bit vector registers, a status word that
/// decodes to a CiA 402 state, and every error-code replica.
pub open spec fn state_readable(offsets: &SlaveOffsets, snapshot: Seq<u8>, slave: int) -> bool {
    &&& byte_register_of(offsets, snapshot, slave, PdoRegister::ModeOfOperationDisplay) is Some
    &&& register_values_of(offsets, snapshot, slave, PdoRegister::PositionActualValue) is Some
    &&& register_values_of(offsets, snapshot, slave, PdoRegister::VelocityActualValue) is Some
    &&& register_values_of(offsets, snapshot, slave, PdoRegister::TorqueActualValue) is Some
    &&& register_values_of(offsets, snapshot, slave, PdoRegister::AxisSensorActualValue) is Some
    &&& register_values_of(offsets, snapshot, slave, PdoRegister::AxisZeroPosition) is Some
    &&& register_values_of(offsets, snapshot, slave, PdoRegister::BoardTemperature) is Some
    &&& register_values_of(offsets, snapshot, slave, PdoRegister::MotorTemperature) is Some
    &&& register_values_of(offsets, snapshot, slave, PdoRegister::TargetPosition) is Some
    &&& register_values_of(offsets, snapshot, slave, PdoRegister::VelocityLimit) is Some
    &&& register_values_of(offsets, snapshot, slave, PdoRegister::TorqueLimit) is Some
    &&& match status_word_of(offsets, snapshot, slave) {
        Some(w) => decode_status(w) is Some,
        None => false,
    }
    &&& error_words_readable(offsets, snapshot, slave)
}

fn read_values(offsets: &SlaveOffsets, snapshot: &Vec<u8>, slave: u16, reg: PdoRegister) -> (r: Option<Vec<u32>>)
    requires
        offsets.wf(),
    ensures
        r matches Some(v) ==> values_are(v, offsets, snapshot@, slave as int, reg),
        r is None ==> register_values_of(offsets, snapshot@, slave as int, reg) is None,
{
    get_register_values(offsets, snapshot, slave, reg)
}

/// The state record of a slave read from the latest snapshot, or `None`
/// when the slave is not ready or one of its registers cannot be read.
pub fn get_state_for_id(
    offsets: &SlaveOffsets,
    snapshot: &Vec<u8>,
    slave_states: &Vec<u8>,
    id: i32,
    now_us: u64,
) -> (r: Option<SlaveState>)
    requires
        offsets.wf(),
    ensures
        r is Some <==> slave_ready(slave_states@, id) && state_readable(offsets, snapshot@, id as int),
        r matches Some(s) ==> state_matches(s, offsets, snapshot@, id as int, now_us),
{
    if id < 0 || id > 65535 {
        return None;
    }
    let slave = id as u16;
    if !is_slave_ready(slave_states, slave) {
        return None;
    }
    let mode = match get_byte_register(offsets, snapshot, slave, PdoRegister::ModeOfOperationDisplay) {
        Some(m) => m,
        None => {
            return None;
        },
    };
    let actual_position = match read_values(offsets, snapshot, slave, PdoRegister::PositionActualValue) {
        Some(v) => v,
        None => {
            return None;
        },
    };
    let actual_velocity = match read_values(offsets, snapshot, slave, PdoRegister::VelocityActualValue) {
        Some(v) => v,
        None => {
            return None;
        },
    };
    let actual_torque = match read_values(offsets, snapshot, slave, PdoRegister::TorqueActualValue) {
        Some(v) => v,
        None => {
            return None;
        },
    };
    let axis_sensors = match read_values(offsets, snapshot, slave, PdoRegister::AxisSensorActualValue) {
        Some(v) => v,
        None => {
            return None;
        },
    };
    let axis_sensor_zeros = match read_values(offsets, snapshot, slave, PdoRegister::AxisZeroPosition) {
        Some(v) => v,
        None => {
            return None;
        },
    };
    let board_temperatures = match read_values(offsets, snapshot, slave, PdoRegister::BoardTemperature) {
        Some(v) => v,
        None => {
            return None;
        },
    };
    let motor_temperatures = match read_values(offsets, snapshot, slave, PdoRegister::MotorTemperature) {
        Some(v) => v,
        None => {
            return None;
        },
    };
    let requested_target_position = match read_values(offsets, snapshot, slave, PdoRegister::TargetPosition) {
        Some(v) => v,
        None => {
            return None;
        },
    };
    let requested_velocity_limit = match read_values(offsets, snapshot, slave, PdoRegister::VelocityLimit) {
        Some(v) => v,
        None => {
            return None;
        },
    };
    let requested_torque_limit = match read_values(offsets, snapshot, slave, PdoRegister::TorqueLimit) {
        Some(v) => v,
        None => {
            return None;
        },
    };
    let state = match get_status(offsets, snapshot, slave) {
        Ok(s) => s.to_u16() as u32,
        Err(_) => {
            return None;
        },
    };
    let codes = match get_error_codes(offsets, snapshot, slave) {
        Some(c) => c,
        None => {
            return None;
        },
    };
    let compliant = match get_torque_on(offsets, snapshot, slave) {
        Some(b) => b,
        None => {
            return None;
        },
    };
    let mut error_codes: Vec<i32> = Vec::new();
    let mut k: usize = 0;
    while k < codes.len()
        invariant
            k <= codes@.len(),
            error_codes@.len() == k,
            codes@.len() == offsets.entries(slave as int, register_name(PdoRegister::ErrorCode)).len(),
            forall|j: int|
                0 <= j < codes@.len() ==> (match #[trigger] register_bytes(
                    offsets,
                    snapshot@,
                    slave as int,
                    PdoRegister::ErrorCode,
                    j,
                ) {
                    Some(b) => b.len() >= 2 && codes@[j] == le_u16(b[0], b[1]) as u32,
                    None => false,
                }),
            forall|j: int|
                0 <= j < k ==> (match #[trigger] register_bytes(
                    offsets,
                    snapshot@,
                    slave as int,
                    PdoRegister::ErrorCode,
                    j,
                ) {
                    Some(b) => b.len() >= 2 && error_codes@[j] == le_u16(b[0], b[1]) as i32,
                    None => false,
                }),
        decreases codes@.len() - k,
    {
        let ghost kk = k as int;
        assert(match register_bytes(offsets, snapshot@, slave as int, PdoRegister::ErrorCode, kk) {
            Some(b) => b.len() >= 2 && codes@[kk] == le_u16(b[0], b[1]) as u32,
            None => false,
        });
        error_codes.push(codes[k] as i32);
        k = k + 1;
    }
    Some(
        SlaveState {
            id,
            mode_of_operation: mode as i32,
            actual_position,
            actual_velocity,
            actual_torque,
            axis_sensors,
            axis_sensor_zeros,
            motor_temperatures,
            board_temperatures,
            requested_target_position,
            requested_velocity_limit,
            requested_torque_limit,
            state,
            error_codes,
            compliant,
            published_us: Some(now_us),
        },
    )
}

/// One tick of a subscription: each requested slave's record is replaced by
/// the freshly read one when there is one, and otherwise keeps the last
/// known record, so that a subscriber never sees a gap.
pub fn keep_last_known(fresh: Vec<Option<SlaveState>>, last: &mut Vec<SlaveState>)
    requires
        fresh@.len() == old(last)@.len(),
    ensures
        final(last)@.len() == old(last)@.len(),
        forall|k: int|
            0 <= k < fresh@.len() ==> #[trigger] final(last)@[k] == match fresh@[k] {
                Some(s) => s,
                None => old(last)@[k],
            },
{
    let ghost old_last = last@;
    let ghost fresh_view = fresh@;
    let mut fresh = fresh;
    let mut k: usize = fresh.len();
    while k > 0
        invariant
            k <= fresh_view.len(),
            fresh@ == fresh_view.subrange(0, k as int),
            last@.len() == old_last.len(),
            fresh_view.len() == old_last.len(),
            forall|j: int|
                0 <= j < k ==> #[trigger] last@[j] == old_last[j],
            forall|j: int|
                k <= j < fresh_view.len() ==> #[trigger] last@[j] == match fresh_view[j] {
                    Some(s) => s,
                    None => old_last[j],
                },
        decreases k,
    {
        let ghost before = fresh@;
        let item = fresh.pop();
        k = k - 1;
        proof {
            assert(before.len() == k + 1);
            assert(item == Some(fresh_view[k as int]));
            assert(fresh@ =~= fresh_view.subrange(0, k as int));
        }
        match item {
            Some(Some(s)) => {
                last.set(k, s);
            },
            _ => {},
        }
    }
}

} // verus!
