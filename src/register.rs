use vstd::prelude::*;

use crate::state_machine::{cia402_from_code, CiA402State};

verus! {

/// The process-data registers of a Poulpe board, by their entry names.
#[derive(Debug, Clone, Copy, PartialEq, Eq, Structural)]
pub enum PdoRegister {
    ErrorCode,
    ActuatorType,
    AxisZeroPosition,
    BoardTemperature,
    MotorTemperature,
    ControlWord,
    ModeOfOperation,
    TargetPosition,
    TargetVelocity,
    TargetTorque,
    VelocityLimit,
    TorqueLimit,
    StatusWord,
    ModeOfOperationDisplay,
    PositionActualValue,
    VelocityActualValue,
    TorqueActualValue,
    AxisSensorActualValue,
}

/// The entry name under which the bus scan lists each register.
pub open spec fn register_name(r: PdoRegister) -> Seq<char> {
    match r {
        PdoRegister::ErrorCode => "error_code"@,
        PdoRegister::ActuatorType => "actuator_type"@,
        PdoRegister::AxisZeroPosition => "axis_position_zero_offset"@,
        PdoRegister::BoardTemperature => "board_temperatures"@,
        PdoRegister::MotorTemperature => "motor_temperatures"@,
        PdoRegister::ControlWord => "controlword"@,
        PdoRegister::ModeOfOperation => "mode_of_operation"@,
        PdoRegister::TargetPosition => "target_position"@,
        PdoRegister::TargetVelocity => "target_velocity"@,
        PdoRegister::TargetTorque => "target_torque"@,
        PdoRegister::VelocityLimit => "velocity_limit"@,
        PdoRegister::TorqueLimit => "torque_limit"@,
        PdoRegister::StatusWord => "statusword"@,
        PdoRegister::ModeOfOperationDisplay => "mode_of_operation_display"@,
        PdoRegister::PositionActualValue => "actual_position"@,
        PdoRegister::VelocityActualValue => "actual_velocity"@,
        PdoRegister::TorqueActualValue => "actual_torque"@,
        PdoRegister::AxisSensorActualValue => "actual_axis_position"@,
    }
}

impl PdoRegister {
    /// The entry name of the register.
    pub fn name(&self) -> (r: &'static str)
        ensures
            r@ == register_name(*self),
    {
        match *self {
            PdoRegister::ErrorCode => "error_code",
            PdoRegister::ActuatorType => "actuator_type",
            PdoRegister::AxisZeroPosition => "axis_position_zero_offset",
            PdoRegister::BoardTemperature => "board_temperatures",
            PdoRegister::MotorTemperature => "motor_temperatures",
            PdoRegister::ControlWord => "controlword",
            PdoRegister::ModeOfOperation => "mode_of_operation",
            PdoRegister::TargetPosition => "target_position",
            PdoRegister::TargetVelocity => "target_velocity",
            PdoRegister::TargetTorque => "target_torque",
            PdoRegister::VelocityLimit => "velocity_limit",
            PdoRegister::TorqueLimit => "torque_limit",
            PdoRegister::StatusWord => "statusword",
            PdoRegister::ModeOfOperationDisplay => "mode_of_operation_display",
            PdoRegister::PositionActualValue => "actual_position",
            PdoRegister::VelocityActualValue => "actual_velocity",
            PdoRegister::TorqueActualValue => "actual_torque",
            PdoRegister::AxisSensorActualValue => "actual_axis_position",
        }
    }
}

/// The coarse status of a Poulpe board, as its firmware numbers it.
#[derive(Debug, Clone, Copy, PartialEq, Eq, Structural)]
pub enum BoardStatus {
    NoError,
    InitError,
    SensorError,
    IndexError,
    ZeroingError,
    OverTemperatureError,
    OverCurrentError,
    BusVoltageError,
    Init,
    HighTemperatureState,
    Unknown,
}

/// The firmware's number for each board status.
pub open spec fn board_status_code(b: BoardStatus) -> u8 {
    match b {
        BoardStatus::NoError => 0,
        BoardStatus::InitError => 1,
        BoardStatus::SensorError => 2,
        BoardStatus::IndexError => 3,
        BoardStatus::ZeroingError => 4,
        BoardStatus::OverTemperatureError => 5,
        BoardStatus::OverCurrentError => 6,
        BoardStatus::BusVoltageError => 7,
        BoardStatus::Init => 20,
        BoardStatus::HighTemperatureState => 100,
        BoardStatus::Unknown => 255,
    }
}

/// Motor flag bits: high-temperature warning, over-temperature (motor or
/// board), over-current, and low bus voltage or driver fault.
pub const MOTOR_HIGH_TEMPERATURE: u16 = 0x04;
pub const MOTOR_OVER_TEMPERATURE: u16 = 0x18;
pub const MOTOR_OVER_CURRENT: u16 = 0x20;
pub const MOTOR_BUS_VOLTAGE: u16 = 0xC0;

/// Homing flag bits: index search, zeroing and axis-sensor read failures.
pub const HOMING_INDEX_SEARCH: u16 = 0x10;
pub const HOMING_ZEROING: u16 = 0x08;
pub const HOMING_SENSOR_READ: u16 = 0x01;

/// Whether some motor error word (every entry after the first) has a bit of `mask`.
pub open spec fn any_motor_flag(codes: Seq<i32>, mask: u16) -> bool {
    exists|k: int| 1 <= k < codes.len() && #[trigger] (codes[k] as u16) & mask != 0
}

/// Whether the homing error word (the first entry) has a bit of `mask`.
pub open spec fn homing_flag(codes: Seq<i32>, mask: u16) -> bool {
    codes.len() > 0 && (codes[0] as u16) & mask != 0
}

/// The board status summarising a CiA 402 state and the error codes.
pub open spec fn board_status_of(state: u32, codes: Seq<i32>) -> Result<BoardStatus, ()> {
    if state > 0xFFFF {
        Err(())
    } else {
        match cia402_from_code(state as u16) {
            None => Err(()),
            Some(CiA402State::NotReadyToSwitchOn) => Ok(BoardStatus::Init),
            Some(CiA402State::Fault) | Some(CiA402State::FaultReactionActive) => {
                if any_motor_flag(codes, MOTOR_OVER_TEMPERATURE) {
                    Ok(BoardStatus::OverTemperatureError)
                } else if any_motor_flag(codes, MOTOR_OVER_CURRENT) {
                    Ok(BoardStatus::OverCurrentError)
                } else if any_motor_flag(codes, MOTOR_BUS_VOLTAGE) {
                    Ok(BoardStatus::BusVoltageError)
                } else if homing_flag(codes, HOMING_INDEX_SEARCH) {
                    Ok(BoardStatus::IndexError)
                } else if homing_flag(codes, HOMING_ZEROING) {
                    Ok(BoardStatus::ZeroingError)
                } else if homing_flag(codes, HOMING_SENSOR_READ) {
                    Ok(BoardStatus::SensorError)
                } else {
                    Ok(BoardStatus::InitError)
                }
            },
            Some(_) => {
                if any_motor_flag(codes, MOTOR_HIGH_TEMPERATURE) {
                    Ok(BoardStatus::HighTemperatureState)
                } else {
                    Ok(BoardStatus::NoError)
                }
            },
        }
    }
}

fn has_motor_flag(codes: &Vec<i32>, mask: u16) -> (r: bool)
    ensures
        r == any_motor_flag(codes@, mask),
{
    let mut k: usize = 1;
    while k < codes.len()
        invariant
            1 <= k,
            k <= codes@.len() || codes@.len() == 0,
            forall|j: int| 1 <= j < k && j < codes@.len() ==> #[trigger] (codes@[j] as u16) & mask
                == 0,
        decreases codes@.len() - k,
    {
        if (codes[k] as u16) & mask != 0 {
            return true;
        }
        k = k + 1;
    }
    false
}

fn has_homing_flag(codes: &Vec<i32>, mask: u16) -> (r: bool)
    ensures
        r == homing_flag(codes@, mask),
{
    codes.len() > 0 && (codes[0] as u16) & mask != 0
}

impl BoardStatus {
    /// The firmware's number for the status.
    pub fn to_u8(&self) -> (r: u8)
        ensures
            r == board_status_code(*self),
    {
        match self {
            BoardStatus::NoError => 0,
            BoardStatus::InitError => 1,
            BoardStatus::SensorError => 2,
            BoardStatus::IndexError => 3,
            BoardStatus::ZeroingError => 4,
            BoardStatus::OverTemperatureError => 5,
            BoardStatus::OverCurrentError => 6,
            BoardStatus::BusVoltageError => 7,
            BoardStatus::Init => 20,
            BoardStatus::HighTemperatureState => 100,
            BoardStatus::Unknown => 255,
        }
    }

    /// Summarises a CiA 402 state number and the error codes of a slave
    /// (homing word first, then one word per motor) as a board status;
    /// `Err(())` when the number is no CiA 402 state.
    pub fn from_cia402_to_board_status(state: u32, flags: Vec<i32>) -> (r: Result<BoardStatus, ()>)
        ensures
            r == board_status_of(state, flags@),
    {
        if state > 0xFFFF {
            return Err(());
        }
        match CiA402State::from_u16(state as u16) {
            None => Err(()),
            Some(CiA402State::NotReadyToSwitchOn) => Ok(BoardStatus::Init),
            Some(CiA402State::Fault) | Some(CiA402State::FaultReactionActive) => {
                if has_motor_flag(&flags, MOTOR_OVER_TEMPERATURE) {
                    Ok(BoardStatus::OverTemperatureError)
                } else if has_motor_flag(&flags, MOTOR_OVER_CURRENT) {
                    Ok(BoardStatus::OverCurrentError)
                } else if has_motor_flag(&flags, MOTOR_BUS_VOLTAGE) {
                    Ok(BoardStatus::BusVoltageError)
                } else if has_homing_flag(&flags, HOMING_INDEX_SEARCH) {
                    Ok(BoardStatus::IndexError)
                } else if has_homing_flag(&flags, HOMING_ZEROING) {
                    Ok(BoardStatus::ZeroingError)
                } else if has_homing_flag(&flags, HOMING_SENSOR_READ) {
                    Ok(BoardStatus::SensorError)
                } else {
                    Ok(BoardStatus::InitError)
                }
            },
            Some(_) => {
                if has_motor_flag(&flags, MOTOR_HIGH_TEMPERATURE) {
                    Ok(BoardStatus::HighTemperatureState)
                } else {
                    Ok(BoardStatus::NoError)
                }
            },
        }
    }
}

} // verus!
