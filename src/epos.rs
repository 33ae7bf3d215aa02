use vstd::prelude::*;

use crate::layout::ByteRange;

verus! {

/// The EPOS drives of the fixed three-slave test bench, by bus position.
#[derive(Debug, Clone, Copy, PartialEq, Eq, Structural)]
pub enum Slave {
    Id0,
    Id1,
    Id2,
}

pub open spec fn slave_index(s: Slave) -> usize {
    match s {
        Slave::Id0 => 0,
        Slave::Id1 => 1,
        Slave::Id2 => 2,
    }
}

impl Slave {
    /// The slave's bus position.
    pub fn offset(&self) -> (r: usize)
        ensures
            r == slave_index(*self),
    {
        match *self {
            Slave::Id0 => 0,
            Slave::Id1 => 1,
            Slave::Id2 => 2,
        }
    }
}

/// The registers of an EPOS drive in its fixed process-data layout.
#[derive(Debug, Clone, Copy, PartialEq, Eq, Structural)]
pub enum EposRegister {
    ControlWord,
    ModeOfOperation,
    TargetPosition,
    VelocityOffset,
    TargetTorque,
    StatusWord,
    ModeOfOperationDisplay,
    PositionActualValue,
    VelocityActualValue,
    TorqueActualValue,
    ErrorCode,
}

/// Bytes of process data per EPOS drive.
pub const EPOS_SLAVE_STRIDE: usize = 28;

/// Byte address and length of each register within a drive's process data.
pub open spec fn epos_register_place(r: EposRegister) -> (usize, usize) {
    match r {
        EposRegister::ControlWord => (0, 2),
        EposRegister::ModeOfOperation => (2, 1),
        EposRegister::TargetPosition => (3, 4),
        EposRegister::VelocityOffset => (7, 4),
        EposRegister::TargetTorque => (11, 2),
        EposRegister::StatusWord => (13, 2),
        EposRegister::ModeOfOperationDisplay => (15, 1),
        EposRegister::PositionActualValue => (16, 4),
        EposRegister::VelocityActualValue => (20, 4),
        EposRegister::TorqueActualValue => (24, 2),
        EposRegister::ErrorCode => (26, 2),
    }
}

impl EposRegister {
    /// Byte address of the register within a drive's process data.
    pub fn addr(&self) -> (r: usize)
        ensures
            r == epos_register_place(*self).0,
    {
        match *self {
            EposRegister::ControlWord => 0,
            EposRegister::ModeOfOperation => 2,
            EposRegister::TargetPosition => 3,
            EposRegister::VelocityOffset => 7,
            EposRegister::TargetTorque => 11,
            EposRegister::StatusWord => 13,
            EposRegister::ModeOfOperationDisplay => 15,
            EposRegister::PositionActualValue => 16,
            EposRegister::VelocityActualValue => 20,
            EposRegister::TorqueActualValue => 24,
            EposRegister::ErrorCode => 26,
        }
    }

    /// Length of the register in bytes.
    pub fn length(&self) -> (r: usize)
        ensures
            r == epos_register_place(*self).1,
    {
        match *self {
            EposRegister::ControlWord => 2,
            EposRegister::ModeOfOperation => 1,
            EposRegister::TargetPosition => 4,
            EposRegister::VelocityOffset => 4,
            EposRegister::TargetTorque => 2,
            EposRegister::StatusWord => 2,
            EposRegister::ModeOfOperationDisplay => 1,
            EposRegister::PositionActualValue => 4,
            EposRegister::VelocityActualValue => 4,
            EposRegister::TorqueActualValue => 2,
            EposRegister::ErrorCode => 2,
        }
    }
}

/// The image bytes of a register of a drive: the drive's block of
/// `EPOS_SLAVE_STRIDE` bytes, then the register's place within it.
pub fn epos_register_range(slave: Slave, reg: EposRegister) -> (r: ByteRange)
    ensures
        r.start == slave_index(slave) * EPOS_SLAVE_STRIDE + epos_register_place(reg).0,
        r.end == r.start + epos_register_place(reg).1,
        r.end <= 3 * EPOS_SLAVE_STRIDE,
{
    let start = slave.offset() * EPOS_SLAVE_STRIDE + reg.addr();
    ByteRange { start, end: start + reg.length() }
}

} // verus!
