use vstd::prelude::*;

use crate::drive::{drive_state, is_torque_on, DriveError};
use crate::image::{range_bytes, range_fits, read_range};
use crate::layout::{entry_range, get_reg_addr_range, get_reg_addr_ranges, SlaveOffsets};
use crate::register::{register_name, PdoRegister};
use crate::state_machine::{
    decode_status, homing_flags_of, le_u16, motor_flags_of, parse_homing_error_flags,
    parse_motor_error_flags, u16_from_le, CiA402State, ErrorFlags,
};

verus! {

/// The bytes of replica `index` of `reg` on slave `slave` in a snapshot, if
/// the register exists and lies inside the snapshot.
pub open spec fn register_bytes(
    offsets: &SlaveOffsets,
    snapshot: Seq<u8>,
    slave: int,
    reg: PdoRegister,
    index: int,
) -> Option<Seq<u8>> {
    let entries = offsets.entries(slave, register_name(reg));
    if 0 <= index < entries.len() && range_fits(entry_range(entries[index]), snapshot.len()) {
        Some(range_bytes(snapshot, entry_range(entries[index])))
    } else {
        None
    }
}

/// Reads replica `index` of a register of a slave out of a snapshot.
pub fn get_pdo_register(
    offsets: &SlaveOffsets,
    snapshot: &Vec<u8>,
    slave_id: u16,
    reg: PdoRegister,
    index: usize,
) -> (r: Option<Vec<u8>>)
    requires
        offsets.wf(),
    ensures
        r matches Some(b) ==> register_bytes(offsets, snapshot@, slave_id as int, reg, index as int)
            == Some(b@),
        r is None ==> register_bytes(offsets, snapshot@, slave_id as int, reg, index as int) is None,
{
    let name = reg.name().to_owned();
    match get_reg_addr_range(offsets, slave_id, &name, index) {
        None => None,
        Some(range) => {
            if range.start <= range.end && range.end <= snapshot.len() {
                Some(read_range(snapshot, range))
            } else {
                None
            }
        },
    }
}

/// Reads every replica of a register of a slave out of a snapshot, or
/// `None` if one of them lies outside the snapshot.
pub fn get_pdo_registers(offsets: &SlaveOffsets, snapshot: &Vec<u8>, slave_id: u16, reg: PdoRegister) -> (r:
    Option<Vec<Vec<u8>>>)
    requires
        offsets.wf(),
    ensures
        r matches Some(v) ==> v@.len() == offsets.entries(slave_id as int, register_name(reg)).len()
            && forall|k: int|
            0 <= k < v@.len() ==> register_bytes(offsets, snapshot@, slave_id as int, reg, k) == Some(
                (#[trigger] v@[k])@,
            ),
        r is None ==> exists|k: int|
            0 <= k < offsets.entries(slave_id as int, register_name(reg)).len() && (
            #[trigger] register_bytes(offsets, snapshot@, slave_id as int, reg, k)) is None,
{
    let name = reg.name().to_owned();
    let ranges = get_reg_addr_ranges(offsets, slave_id, &name);
    let ghost entries = offsets.entries(slave_id as int, register_name(reg));
    let mut out: Vec<Vec<u8>> = Vec::new();
    let mut k: usize = 0;
    while k < ranges.len()
        invariant
            ranges@ == entries.map_values(|e| entry_range(e)),
            entries == offsets.entries(slave_id as int, register_name(reg)),
            k <= ranges@.len(),
            out@.len() == k,
            forall|j: int|
                0 <= j < k ==> register_bytes(offsets, snapshot@, slave_id as int, reg, j) == Some(
                    (#[trigger] out@[j])@,
                ),
        decreases ranges@.len() - k,
    {
        let range = ranges[k];
        assert(range == entry_range(entries[k as int]));
        if range.start <= range.end && range.end <= snapshot.len() {
            out.push(read_range(snapshot, range));
        } else {
            assert(register_bytes(offsets, snapshot@, slave_id as int, reg, k as int) is None);
            return None;
        }
        k = k + 1;
    }
    Some(out)
}

/// The status word of a slave in a snapshot, if its register is readable
/// and two bytes long.
pub open spec fn status_word_of(offsets: &SlaveOffsets, snapshot: Seq<u8>, slave: int) -> Option<u16> {
    match register_bytes(offsets, snapshot, slave, PdoRegister::StatusWord, 0) {
        Some(b) => if b.len() >= 2 {
            Some(le_u16(b[0], b[1]))
        } else {
            None
        },
        None => None,
    }
}

/// Reads the status word of a slave.
pub fn get_status_word(offsets: &SlaveOffsets, snapshot: &Vec<u8>, slave_id: u16) -> (r: Option<u16>)
    requires
        offsets.wf(),
    ensures
        r == status_word_of(offsets, snapshot@, slave_id as int),
{
    match get_pdo_register(offsets, snapshot, slave_id, PdoRegister::StatusWord, 0) {
        Some(b) => if b.len() >= 2 {
            Some(u16_from_le(b[0], b[1]))
        } else {
            None
        },
        None => None,
    }
}

/// Errors of reading a slave's registers.
#[derive(Debug, Clone, Copy, PartialEq, Eq, Structural)]
pub enum ReadError {
    /// The register is missing or lies outside the snapshot.
    Unreadable,
    /// The drive reports something that is no CiA 402 state.
    Drive(DriveError),
}

/// The CiA 402 state of a slave.
pub fn get_status(offsets: &SlaveOffsets, snapshot: &Vec<u8>, slave_id: u16) -> (r: Result<
    CiA402State,
    ReadError,
>)
    requires
        offsets.wf(),
    ensures
        r == (match status_word_of(offsets, snapshot@, slave_id as int) {
            None => Err(ReadError::Unreadable),
            Some(w) => match decode_status(w) {
                Some(s) => Ok(s),
                None => Err(ReadError::Drive(DriveError::InvalidState)),
            },
        }),
{
    match get_status_word(offsets, snapshot, slave_id) {
        None => Err(ReadError::Unreadable),
        Some(w) => match drive_state(w) {
            Ok(s) => Ok(s),
            Err(e) => Err(ReadError::Drive(e)),
        },
    }
}

/// Whether a slave's drive has torque on (its status word reports OperationEnabled).
pub fn get_torque_on(offsets: &SlaveOffsets, snapshot: &Vec<u8>, slave_id: u16) -> (r: Option<bool>)
    requires
        offsets.wf(),
    ensures
        r == (match status_word_of(offsets, snapshot@, slave_id as int) {
            None => None,
            Some(w) => Some(crate::state_machine::bit_set(w, 2)),
        }),
{
    match get_status_word(offsets, snapshot, slave_id) {
        None => None,
        Some(w) => Some(is_torque_on(w)),
    }
}

/// The first byte of a one-byte register, such as a mode of operation.
pub open spec fn byte_register_of(offsets: &SlaveOffsets, snapshot: Seq<u8>, slave: int, reg: PdoRegister) -> Option<u8> {
    match register_bytes(offsets, snapshot, slave, reg, 0) {
        Some(b) => if b.len() >= 1 {
            Some(b[0])
        } else {
            None
        },
        None => None,
    }
}

/// Reads the first byte of a register: the requested mode of operation,
/// the mode displayed, or the actuator type.
pub fn get_byte_register(offsets: &SlaveOffsets, snapshot: &Vec<u8>, slave_id: u16, reg: PdoRegister) -> (r: Option<u8>)
    requires
        offsets.wf(),
    ensures
        r == byte_register_of(offsets, snapshot@, slave_id as int, reg),
{
    match get_pdo_register(offsets, snapshot, slave_id, reg, 0) {
        Some(b) => if b.len() >= 1 {
            Some(b[0])
        } else {
            None
        },
        None => None,
    }
}

/// The error codes of a slave: the little-endian 16-bit value at the start
/// of each error-code replica (the homing word first, then one per motor).
pub fn get_error_codes(offsets: &SlaveOffsets, snapshot: &Vec<u8>, slave_id: u16) -> (r: Option<Vec<u32>>)
    requires
        offsets.wf(),
    ensures
        r matches Some(v) ==> v@.len() == offsets.entries(slave_id as int, register_name(PdoRegister::ErrorCode)).len()
            && forall|k: int|
            0 <= k < v@.len() ==> (match #[trigger] register_bytes(
                offsets,
                snapshot@,
                slave_id as int,
                PdoRegister::ErrorCode,
                k,
            ) {
                Some(b) => b.len() >= 2 && v@[k] == le_u16(b[0], b[1]) as u32,
                None => false,
            }),
        r is Some <==> error_words_readable(offsets, snapshot@, slave_id as int),
{
    let words = match get_pdo_registers(offsets, snapshot, slave_id, PdoRegister::ErrorCode) {
        Some(w) => w,
        None => {
            proof {
                let n = offsets.entries(slave_id as int, register_name(PdoRegister::ErrorCode)).len();
                let k = choose|k: int|
                    0 <= k < n && (#[trigger] register_bytes(
                        offsets,
                        snapshot@,
                        slave_id as int,
                        PdoRegister::ErrorCode,
                        k,
                    )) is None;
                assert(!word_readable(offsets, snapshot@, slave_id as int, PdoRegister::ErrorCode, k));
            }
            return None;
        },
    };
    let mut codes: Vec<u32> = Vec::new();
    let mut k: usize = 0;
    while k < words.len()
        invariant
            k <= words@.len(),
            codes@.len() == k,
            words@.len() == offsets.entries(slave_id as int, register_name(PdoRegister::ErrorCode)).len(),
            forall|j: int|
                0 <= j < words@.len() ==> register_bytes(
                    offsets,
                    snapshot@,
                    slave_id as int,
                    PdoRegister::ErrorCode,
                    j,
                ) == Some((#[trigger] words@[j])@),
            forall|j: int|
                0 <= j < k ==> (match #[trigger] register_bytes(
                    offsets,
                    snapshot@,
                    slave_id as int,
                    PdoRegister::ErrorCode,
                    j,
                ) {
                    Some(b) => b.len() >= 2 && codes@[j] == le_u16(b[0], b[1]) as u32,
                    None => false,
                }),
        decreases words@.len() - k,
    {
        let w = &words[k];
        assert(register_bytes(offsets, snapshot@, slave_id as int, PdoRegister::ErrorCode, k as int)
            == Some(words@[k as int]@));
        if w.len() < 2 {
            assert(!word_readable(offsets, snapshot@, slave_id as int, PdoRegister::ErrorCode, k as int));
            return None;
        }
        codes.push(u16_from_le(w[0], w[1]) as u32);
        k = k + 1;
    }
    proof {
        assert forall|j: int|
            0 <= j < words@.len() implies #[trigger] word_readable(
            offsets,
            snapshot@,
            slave_id as int,
            PdoRegister::ErrorCode,
            j,
        ) by {
            assert(match register_bytes(offsets, snapshot@, slave_id as int, PdoRegister::ErrorCode, j) {
                Some(b) => b.len() >= 2 && codes@[j] == le_u16(b[0], b[1]) as u32,
                None => false,
            });
        }
    }
    Some(codes)
}

/// The little-endian 32-bit value of the first four bytes.
pub open spec fn le_u32(b: Seq<u8>) -> u32 {
    (b[0] as int + 256 * b[1] as int + 65536 * b[2] as int + 16777216 * b[3] as int) as u32
}

/// The 32-bit value of every replica of a register (float registers give
/// their bit patterns), if every replica is readable and four bytes long.
pub open spec fn register_values_of(offsets: &SlaveOffsets, snapshot: Seq<u8>, slave: int, reg: PdoRegister) -> Option<Seq<u32>> {
    let n = offsets.entries(slave, register_name(reg)).len();
    if forall|k: int|
        0 <= k < n ==> (#[trigger] register_bytes(offsets, snapshot, slave, reg, k) matches Some(b)
            && b.len() >= 4) {
        Some(Seq::new(n, |k: int| le_u32(register_bytes(offsets, snapshot, slave, reg, k).unwrap())))
    } else {
        None
    }
}

/// Reads every replica of a 32-bit register of a slave.
pub fn get_register_values(offsets: &SlaveOffsets, snapshot: &Vec<u8>, slave_id: u16, reg: PdoRegister) -> (r: Option<Vec<u32>>)
    requires
        offsets.wf(),
    ensures
        r matches Some(v) ==> register_values_of(offsets, snapshot@, slave_id as int, reg) == Some(v@),
        r is None ==> register_values_of(offsets, snapshot@, slave_id as int, reg) is None,
{
    let ghost n = offsets.entries(slave_id as int, register_name(reg)).len();
    let words = match get_pdo_registers(offsets, snapshot, slave_id, reg) {
        Some(w) => w,
        None => {
            proof {
                let k = choose|k: int| 0 <= k < n && (#[trigger] register_bytes(offsets, snapshot@, slave_id as int, reg, k)) is None;
                assert(!(register_bytes(offsets, snapshot@, slave_id as int, reg, k) matches Some(b) && b.len() >= 4));
            }
            return None;
        },
    };
    let mut values: Vec<u32> = Vec::new();
    let mut k: usize = 0;
    while k < words.len()
        invariant
            k <= words@.len(),
            words@.len() == n,
            n == offsets.entries(slave_id as int, register_name(reg)).len(),
            values@.len() == k,
            forall|j: int|
                0 <= j < words@.len() ==> register_bytes(offsets, snapshot@, slave_id as int, reg, j)
                    == Some((#[trigger] words@[j])@),
            forall|j: int| 0 <= j < k ==> (#[trigger] words@[j])@.len() >= 4 && values@[j] == le_u32(words@[j]@),
        decreases words@.len() - k,
    {
        let w = &words[k];
        if w.len() < 4 {
            proof {
                assert(register_bytes(offsets, snapshot@, slave_id as int, reg, k as int) == Some(words@[k as int]@));
                assert(!(register_bytes(offsets, snapshot@, slave_id as int, reg, k as int) matches Some(b) && b.len() >= 4));
            }
            return None;
        }
        let v: u32 = w[0] as u32 + 256 * (w[1] as u32) + 65536 * (w[2] as u32) + 16777216 * (w[3] as u32);
        values.push(v);
        k = k + 1;
    }
    proof {
        assert forall|j: int| 0 <= j < n implies (#[trigger] register_bytes(offsets, snapshot@, slave_id as int, reg, j) matches Some(b)
            && b.len() >= 4) by {
            assert(register_bytes(offsets, snapshot@, slave_id as int, reg, j) == Some(words@[j]@));
            assert(words@[j]@.len() >= 4);
        }
        assert forall|j: int| 0 <= j < n implies values@[j] == le_u32(
            #[trigger] register_bytes(offsets, snapshot@, slave_id as int, reg, j).unwrap(),
        ) by {
            assert(register_bytes(offsets, snapshot@, slave_id as int, reg, j) == Some(words@[j]@));
        }
        assert(values@ =~= Seq::new(n, |j: int| le_u32(register_bytes(offsets, snapshot@, slave_id as int, reg, j).unwrap())));
    }
    Some(values)
}

/// Replica `k` of `reg` is readable and at least two bytes long.
pub open spec fn word_readable(offsets: &SlaveOffsets, snapshot: Seq<u8>, slave: int, reg: PdoRegister, k: int) -> bool {
    match register_bytes(offsets, snapshot, slave, reg, k) {
        Some(b) => b.len() >= 2,
        None => false,
    }
}

/// Every error-code replica of a slave is readable and two bytes long.
pub open spec fn error_words_readable(offsets: &SlaveOffsets, snapshot: Seq<u8>, slave: int) -> bool {
    forall|k: int|
        0 <= k < offsets.entries(slave, register_name(PdoRegister::ErrorCode)).len()
            ==> #[trigger] word_readable(offsets, snapshot, slave, PdoRegister::ErrorCode, k)
}

/// The decoded error flags of a slave: homing flags from the first
/// error-code replica, then one list of motor flags per further replica;
/// `None` when a replica is unreadable or shorter than two bytes, or there is none.
pub fn get_error_flags(offsets: &SlaveOffsets, snapshot: &Vec<u8>, slave_id: u16) -> (r: Option<ErrorFlags>)
    requires
        offsets.wf(),
    ensures
        r is Some <==> offsets.entries(slave_id as int, register_name(PdoRegister::ErrorCode)).len() > 0
            && error_words_readable(offsets, snapshot@, slave_id as int),
        r matches Some(f) ==> {
            let n = offsets.entries(slave_id as int, register_name(PdoRegister::ErrorCode)).len();
            &&& n > 0
            &&& f.motor_error_flags@.len() == n - 1
            &&& register_bytes(offsets, snapshot@, slave_id as int, PdoRegister::ErrorCode, 0) matches Some(b)
                && b.len() >= 2 && f.homing_error_flags@ == homing_flags_of(le_u16(b[0], b[1]))
            &&& forall|k: int|
                0 <= k < n - 1 ==> (#[trigger] register_bytes(
                    offsets,
                    snapshot@,
                    slave_id as int,
                    PdoRegister::ErrorCode,
                    k + 1,
                ) matches Some(b) && b.len() >= 2 && f.motor_error_flags@[k]@ == motor_flags_of(
                    le_u16(b[0], b[1]),
                ))
        },
{
    let words = match get_pdo_registers(offsets, snapshot, slave_id, PdoRegister::ErrorCode) {
        Some(w) => w,
        None => {
            proof {
                let n = offsets.entries(slave_id as int, register_name(PdoRegister::ErrorCode)).len();
                let k = choose|k: int|
                    0 <= k < n && (#[trigger] register_bytes(
                        offsets,
                        snapshot@,
                        slave_id as int,
                        PdoRegister::ErrorCode,
                        k,
                    )) is None;
                assert(!word_readable(offsets, snapshot@, slave_id as int, PdoRegister::ErrorCode, k));
            }
            return None;
        },
    };
    if words.len() == 0 {
        return None;
    }
    if words[0].len() < 2 {
        proof {
            assert(register_bytes(offsets, snapshot@, slave_id as int, PdoRegister::ErrorCode, 0) == Some(words@[0]@));
            assert(!word_readable(offsets, snapshot@, slave_id as int, PdoRegister::ErrorCode, 0));
        }
        return None;
    }
    assert(register_bytes(offsets, snapshot@, slave_id as int, PdoRegister::ErrorCode, 0) == Some(words@[0]@));
    let homing_error_flags = parse_homing_error_flags([words[0][0], words[0][1]]);
    let mut motor_error_flags: Vec<Vec<crate::state_machine::MotorErrorFlag>> = Vec::new();
    let mut k: usize = 1;
    while k < words.len()
        invariant
            1 <= k <= words@.len(),
            motor_error_flags@.len() == k - 1,
            forall|j: int|
                0 <= j < words@.len() ==> register_bytes(offsets, snapshot@, slave_id as int, PdoRegister::ErrorCode, j)
                    == Some((#[trigger] words@[j])@),
            forall|j: int|
                0 <= j < k - 1 ==> (#[trigger] register_bytes(
                    offsets,
                    snapshot@,
                    slave_id as int,
                    PdoRegister::ErrorCode,
                    j + 1,
                ) matches Some(b) && b.len() >= 2 && motor_error_flags@[j]@ == motor_flags_of(
                    le_u16(b[0], b[1]),
                )),
        decreases words@.len() - k,
    {
        let w = &words[k];
        assert(register_bytes(offsets, snapshot@, slave_id as int, PdoRegister::ErrorCode, k as int) == Some(words@[k as int]@));
        if w.len() < 2 {
            assert(!word_readable(offsets, snapshot@, slave_id as int, PdoRegister::ErrorCode, k as int));
            return None;
        }
        motor_error_flags.push(parse_motor_error_flags([w[0], w[1]]));
        k = k + 1;
    }
    proof {
        assert forall|j: int|
            0 <= j < words@.len() implies #[trigger] word_readable(
            offsets,
            snapshot@,
            slave_id as int,
            PdoRegister::ErrorCode,
            j,
        ) by {
            if j > 0 {
                assert(register_bytes(offsets, snapshot@, slave_id as int, PdoRegister::ErrorCode, (j - 1) + 1) matches Some(b) && b.len() >= 2);
            }
        }
    }
    Some(ErrorFlags { motor_error_flags, homing_error_flags })
}

} // verus!
