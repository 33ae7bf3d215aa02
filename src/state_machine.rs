use vstd::prelude::*;

verus! {

/// Mask that keeps the state bits of a status word: it clears the warning
/// bit (7) and the manufacturer bits (8, 14 and 15).
pub const STATE_MASK: u16 = 0x3E7F;

/// Bits of a status word that carry no CiA 402 state: warning and manufacturer bits.
pub const NON_STATE_BITS: u16 = 0xC180;

/// The sixteen bits of a CiA 402 status word.
#[derive(Debug, Clone, Copy, PartialEq, Eq, Structural)]
pub enum StatusBit {
    ReadyToSwitchOn,
    SwitchedOn,
    OperationEnabled,
    Fault,
    VoltageEnabled,
    QuickStop,
    SwitchedOnDisabled,
    Warning,
    Reserved8,
    Remote,
    OperatingModeSpecific10,
    InternalLimitActive,
    OperatingModeSpecific12,
    OperatingModeSpecific13,
    Reserved14,
    PositionReferencedToHomePosition,
}

/// Position of a status bit in the status word.
pub open spec fn status_bit_index(b: StatusBit) -> u16 {
    match b {
        StatusBit::ReadyToSwitchOn => 0,
        StatusBit::SwitchedOn => 1,
        StatusBit::OperationEnabled => 2,
        StatusBit::Fault => 3,
        StatusBit::VoltageEnabled => 4,
        StatusBit::QuickStop => 5,
        StatusBit::SwitchedOnDisabled => 6,
        StatusBit::Warning => 7,
        StatusBit::Reserved8 => 8,
        StatusBit::Remote => 9,
        StatusBit::OperatingModeSpecific10 => 10,
        StatusBit::InternalLimitActive => 11,
        StatusBit::OperatingModeSpecific12 => 12,
        StatusBit::OperatingModeSpecific13 => 13,
        StatusBit::Reserved14 => 14,
        StatusBit::PositionReferencedToHomePosition => 15,
    }
}

/// The status bit at a position below 16.
pub open spec fn status_bit_at(i: u16) -> StatusBit {
    if i == 0 {
        StatusBit::ReadyToSwitchOn
    } else if i == 1 {
        StatusBit::SwitchedOn
    } else if i == 2 {
        StatusBit::OperationEnabled
    } else if i == 3 {
        StatusBit::Fault
    } else if i == 4 {
        StatusBit::VoltageEnabled
    } else if i == 5 {
        StatusBit::QuickStop
    } else if i == 6 {
        StatusBit::SwitchedOnDisabled
    } else if i == 7 {
        StatusBit::Warning
    } else if i == 8 {
        StatusBit::Reserved8
    } else if i == 9 {
        StatusBit::Remote
    } else if i == 10 {
        StatusBit::OperatingModeSpecific10
    } else if i == 11 {
        StatusBit::InternalLimitActive
    } else if i == 12 {
        StatusBit::OperatingModeSpecific12
    } else if i == 13 {
        StatusBit::OperatingModeSpecific13
    } else if i == 14 {
        StatusBit::Reserved14
    } else {
        StatusBit::PositionReferencedToHomePosition
    }
}

/// Whether bit `i` of `w` is set.
pub open spec fn bit_set(w: u16, i: u16) -> bool {
    w & (1u16 << i) != 0
}

/// The status bits set in `w` among the positions below `n`, lowest first.
pub open spec fn status_bits_below(w: u16, n: nat) -> Seq<StatusBit>
    decreases n,
{
    if n == 0 {
        seq![]
    } else {
        let prev = status_bits_below(w, (n - 1) as nat);
        if bit_set(w, (n - 1) as u16) {
            prev.push(status_bit_at((n - 1) as u16))
        } else {
            prev
        }
    }
}

/// The status word in which exactly the given bits are set.
pub open spec fn word_of_bits(bits: Seq<StatusBit>) -> u16
    decreases bits.len(),
{
    if bits.len() == 0 {
        0
    } else {
        word_of_bits(bits.drop_last()) | (1u16 << status_bit_index(bits.last()))
    }
}

fn status_bit_from_index(i: u16) -> (r: StatusBit)
    requires
        i < 16,
    ensures
        r == status_bit_at(i),
        status_bit_index(r) == i,
{
    if i == 0 {
        StatusBit::ReadyToSwitchOn
    } else if i == 1 {
        StatusBit::SwitchedOn
    } else if i == 2 {
        StatusBit::OperationEnabled
    } else if i == 3 {
        StatusBit::Fault
    } else if i == 4 {
        StatusBit::VoltageEnabled
    } else if i == 5 {
        StatusBit::QuickStop
    } else if i == 6 {
        StatusBit::SwitchedOnDisabled
    } else if i == 7 {
        StatusBit::Warning
    } else if i == 8 {
        StatusBit::Reserved8
    } else if i == 9 {
        StatusBit::Remote
    } else if i == 10 {
        StatusBit::OperatingModeSpecific10
    } else if i == 11 {
        StatusBit::InternalLimitActive
    } else if i == 12 {
        StatusBit::OperatingModeSpecific12
    } else if i == 13 {
        StatusBit::OperatingModeSpecific13
    } else if i == 14 {
        StatusBit::Reserved14
    } else {
        StatusBit::PositionReferencedToHomePosition
    }
}

/// Position of a status bit in the status word.
pub fn status_bit_to_index(b: StatusBit) -> (r: u16)
    ensures
        r == status_bit_index(b),
        r < 16,
{
    match b {
        StatusBit::ReadyToSwitchOn => 0,
        StatusBit::SwitchedOn => 1,
        StatusBit::OperationEnabled => 2,
        StatusBit::Fault => 3,
        StatusBit::VoltageEnabled => 4,
        StatusBit::QuickStop => 5,
        StatusBit::SwitchedOnDisabled => 6,
        StatusBit::Warning => 7,
        StatusBit::Reserved8 => 8,
        StatusBit::Remote => 9,
        StatusBit::OperatingModeSpecific10 => 10,
        StatusBit::InternalLimitActive => 11,
        StatusBit::OperatingModeSpecific12 => 12,
        StatusBit::OperatingModeSpecific13 => 13,
        StatusBit::Reserved14 => 14,
        StatusBit::PositionReferencedToHomePosition => 15,
    }
}

/// Control words understood by a CiA 402 drive.
#[derive(Debug, Clone, Copy, PartialEq, Eq, Structural)]
pub enum ControlWord {
    Shutdown,
    SwitchOn,
    DisableVoltage,
    EnableOperation,
    DisableOperation,
    QuickStop,
    FaultReset,
    Unknown,
}

/// The value written to the control word for each command.
pub open spec fn control_word_value(c: ControlWord) -> u16 {
    match c {
        ControlWord::Shutdown => 0x06,
        ControlWord::SwitchOn => 0x07,
        ControlWord::DisableVoltage => 0x00,
        ControlWord::EnableOperation => 0x0F,
        ControlWord::DisableOperation => 0x07,
        ControlWord::QuickStop => 0x02,
        ControlWord::FaultReset => 0x80,
        ControlWord::Unknown => 0x00,
    }
}

impl ControlWord {
    pub fn to_u16(&self) -> (r: u16)
        ensures
            r == control_word_value(*self),
    {
        match self {
            ControlWord::Shutdown => 0x06,
            ControlWord::SwitchOn => 0x07,
            ControlWord::DisableVoltage => 0x00,
            ControlWord::EnableOperation => 0x0F,
            ControlWord::DisableOperation => 0x07,
            ControlWord::QuickStop => 0x02,
            ControlWord::FaultReset => 0x80,
            ControlWord::Unknown => 0x00,
        }
    }
}

/// Per-motor fault flags; flag `k` is bit `k` of the motor's error word.
#[derive(Debug, Clone, Copy, PartialEq, Eq, Structural)]
pub enum MotorErrorFlag {
    ConfigFail,
    MotorAlignFail,
    HighTemperatureWarning,
    OverTemperatureMotor,
    OverTemperatureBoard,
    OverCurrent,
    LowBusVoltage,
    DriverFault,
}

/// Homing fault flags; flag `k` is bit `k` of the homing error word.
#[derive(Debug, Clone, Copy, PartialEq, Eq, Structural)]
pub enum HomingErrorFlag {
    AxisSensorReadFail,
    MotorMovementCheckFail,
    AxisSensorAlignFail,
    ZeroingFail,
    IndexSearchFail,
    CommunicationFail,
}

pub open spec fn motor_flag_at(i: u16) -> MotorErrorFlag {
    if i == 0 {
        MotorErrorFlag::ConfigFail
    } else if i == 1 {
        MotorErrorFlag::MotorAlignFail
    } else if i == 2 {
        MotorErrorFlag::HighTemperatureWarning
    } else if i == 3 {
        MotorErrorFlag::OverTemperatureMotor
    } else if i == 4 {
        MotorErrorFlag::OverTemperatureBoard
    } else if i == 5 {
        MotorErrorFlag::OverCurrent
    } else if i == 6 {
        MotorErrorFlag::LowBusVoltage
    } else {
        MotorErrorFlag::DriverFault
    }
}

pub open spec fn homing_flag_at(i: u16) -> HomingErrorFlag {
    if i == 0 {
        HomingErrorFlag::AxisSensorReadFail
    } else if i == 1 {
        HomingErrorFlag::MotorMovementCheckFail
    } else if i == 2 {
        HomingErrorFlag::AxisSensorAlignFail
    } else if i == 3 {
        HomingErrorFlag::ZeroingFail
    } else if i == 4 {
        HomingErrorFlag::IndexSearchFail
    } else {
        HomingErrorFlag::CommunicationFail
    }
}

/// The motor flags set in `w` among the positions below `n`, lowest first.
pub open spec fn motor_flags_below(w: u16, n: nat) -> Seq<MotorErrorFlag>
    decreases n,
{
    if n == 0 {
        seq![]
    } else {
        let prev = motor_flags_below(w, (n - 1) as nat);
        if bit_set(w, (n - 1) as u16) {
            prev.push(motor_flag_at((n - 1) as u16))
        } else {
            prev
        }
    }
}

/// The homing flags set in `w` among the positions below `n`, lowest first.
pub open spec fn homing_flags_below(w: u16, n: nat) -> Seq<HomingErrorFlag>
    decreases n,
{
    if n == 0 {
        seq![]
    } else {
        let prev = homing_flags_below(w, (n - 1) as nat);
        if bit_set(w, (n - 1) as u16) {
            prev.push(homing_flag_at((n - 1) as u16))
        } else {
            prev
        }
    }
}

/// Number of defined motor flags.
pub const MOTOR_FLAG_COUNT: u16 = 8;

/// Number of defined homing flags.
pub const HOMING_FLAG_COUNT: u16 = 6;

/// The motor flags of an error word: every defined flag whose bit is set.
pub open spec fn motor_flags_of(w: u16) -> Seq<MotorErrorFlag> {
    motor_flags_below(w, MOTOR_FLAG_COUNT as nat)
}

/// The homing flags of an error word: every defined flag whose bit is set.
pub open spec fn homing_flags_of(w: u16) -> Seq<HomingErrorFlag> {
    homing_flags_below(w, HOMING_FLAG_COUNT as nat)
}

/// The little-endian 16-bit value of two bytes.
pub open spec fn le_u16(lo: u8, hi: u8) -> u16 {
    (lo as int + 256 * hi as int) as u16
}

/// Reads a little-endian 16-bit value.
pub fn u16_from_le(lo: u8, hi: u8) -> (r: u16)
    ensures
        r == le_u16(lo, hi),
{
    lo as u16 + (hi as u16) * 256
}

fn motor_flag_from_index(i: u16) -> (r: MotorErrorFlag)
    requires
        i < MOTOR_FLAG_COUNT,
    ensures
        r == motor_flag_at(i),
{
    if i == 0 {
        MotorErrorFlag::ConfigFail
    } else if i == 1 {
        MotorErrorFlag::MotorAlignFail
    } else if i == 2 {
        MotorErrorFlag::HighTemperatureWarning
    } else if i == 3 {
        MotorErrorFlag::OverTemperatureMotor
    } else if i == 4 {
        MotorErrorFlag::OverTemperatureBoard
    } else if i == 5 {
        MotorErrorFlag::OverCurrent
    } else if i == 6 {
        MotorErrorFlag::LowBusVoltage
    } else {
        MotorErrorFlag::DriverFault
    }
}

fn homing_flag_from_index(i: u16) -> (r: HomingErrorFlag)
    requires
        i < HOMING_FLAG_COUNT,
    ensures
        r == homing_flag_at(i),
{
    if i == 0 {
        HomingErrorFlag::AxisSensorReadFail
    } else if i == 1 {
        HomingErrorFlag::MotorMovementCheckFail
    } else if i == 2 {
        HomingErrorFlag::AxisSensorAlignFail
    } else if i == 3 {
        HomingErrorFlag::ZeroingFail
    } else if i == 4 {
        HomingErrorFlag::IndexSearchFail
    } else {
        HomingErrorFlag::CommunicationFail
    }
}

/// The CiA 402 states of a drive.
#[derive(Debug, Clone, Copy, PartialEq, Eq, Structural)]
pub enum CiA402State {
    NotReadyToSwitchOn,
    SwitchOnDisabled,
    ReadyToSwitchOn,
    SwitchedOn,
    OperationEnabled,
    QuickStopActive,
    FaultReactionActive,
    Fault,
}

/// The canonical status-word pattern of each state.
pub open spec fn cia402_code(s: CiA402State) -> u16 {
    match s {
        CiA402State::NotReadyToSwitchOn => 0x00,
        CiA402State::SwitchOnDisabled => 0x40,
        CiA402State::ReadyToSwitchOn => 0x21,
        CiA402State::SwitchedOn => 0x23,
        CiA402State::OperationEnabled => 0x37,
        CiA402State::QuickStopActive => 0x07,
        CiA402State::FaultReactionActive => 0x1F,
        CiA402State::Fault => 0x08,
    }
}

/// The state whose canonical pattern is `w`, if any.
pub open spec fn cia402_from_code(w: u16) -> Option<CiA402State> {
    if w == 0x00 {
        Some(CiA402State::NotReadyToSwitchOn)
    } else if w == 0x40 {
        Some(CiA402State::SwitchOnDisabled)
    } else if w == 0x21 {
        Some(CiA402State::ReadyToSwitchOn)
    } else if w == 0x23 {
        Some(CiA402State::SwitchedOn)
    } else if w == 0x37 {
        Some(CiA402State::OperationEnabled)
    } else if w == 0x07 {
        Some(CiA402State::QuickStopActive)
    } else if w == 0x1F {
        Some(CiA402State::FaultReactionActive)
    } else if w == 0x08 {
        Some(CiA402State::Fault)
    } else {
        None
    }
}

/// The state that a status word reports: its state bits against the eight patterns.
pub open spec fn decode_status(w: u16) -> Option<CiA402State> {
    cia402_from_code(w & STATE_MASK)
}

impl CiA402State {
    /// The canonical status-word pattern of the state.
    pub fn to_u16(&self) -> (r: u16)
        ensures
            r == cia402_code(*self),
    {
        match self {
            CiA402State::NotReadyToSwitchOn => 0x00,
            CiA402State::SwitchOnDisabled => 0x40,
            CiA402State::ReadyToSwitchOn => 0x21,
            CiA402State::SwitchedOn => 0x23,
            CiA402State::OperationEnabled => 0x37,
            CiA402State::QuickStopActive => 0x07,
            CiA402State::FaultReactionActive => 0x1F,
            CiA402State::Fault => 0x08,
        }
    }

    /// The state whose canonical pattern is `w`.
    pub fn from_u16(w: u16) -> (r: Option<CiA402State>)
        ensures
            r == cia402_from_code(w),
    {
        if w == 0x00 {
            Some(CiA402State::NotReadyToSwitchOn)
        } else if w == 0x40 {
            Some(CiA402State::SwitchOnDisabled)
        } else if w == 0x21 {
            Some(CiA402State::ReadyToSwitchOn)
        } else if w == 0x23 {
            Some(CiA402State::SwitchedOn)
        } else if w == 0x37 {
            Some(CiA402State::OperationEnabled)
        } else if w == 0x07 {
            Some(CiA402State::QuickStopActive)
        } else if w == 0x1F {
            Some(CiA402State::FaultReactionActive)
        } else if w == 0x08 {
            Some(CiA402State::Fault)
        } else {
            None
        }
    }
}

/// Decoded error flags of a slave: homing flags, then one list per motor.
#[derive(Debug, Clone)]
pub struct ErrorFlags {
    pub motor_error_flags: Vec<Vec<MotorErrorFlag>>,
    pub homing_error_flags: Vec<HomingErrorFlag>,
}

/// A status word whose state bits match none of the eight patterns.
#[derive(Debug, Clone, Copy, PartialEq, Eq, Structural)]
pub enum StateError {
    InvalidState,
}

/// Lists the bits set in a status word, lowest first.
pub fn parse_status_word(status: u16) -> (r: Vec<StatusBit>)
    ensures
        r@ == status_bits_below(status, 16),
{
    let mut bits: Vec<StatusBit> = Vec::new();
    let mut i: u16 = 0;
    while i < 16
        invariant
            i <= 16,
            bits@ == status_bits_below(status, i as nat),
        decreases 16 - i,
    {
        if status & (1u16 << i) != 0 {
            bits.push(status_bit_from_index(i));
        }
        i = i + 1;
    }
    bits
}

/// Lists the motor flags set in a little-endian error word.
pub fn parse_motor_error_flags(error: [u8; 2]) -> (r: Vec<MotorErrorFlag>)
    ensures
        r@ == motor_flags_of(le_u16(error@[0], error@[1])),
{
    let w = u16_from_le(error[0], error[1]);
    let mut flags: Vec<MotorErrorFlag> = Vec::new();
    let mut i: u16 = 0;
    while i < MOTOR_FLAG_COUNT
        invariant
            i <= MOTOR_FLAG_COUNT,
            w == le_u16(error@[0], error@[1]),
            flags@ == motor_flags_below(w, i as nat),
        decreases MOTOR_FLAG_COUNT - i,
    {
        if w & (1u16 << i) != 0 {
            flags.push(motor_flag_from_index(i));
        }
        i = i + 1;
    }
    flags
}

/// Lists the homing flags set in a little-endian error word.
pub fn parse_homing_error_flags(error: [u8; 2]) -> (r: Vec<HomingErrorFlag>)
    ensures
        r@ == homing_flags_of(le_u16(error@[0], error@[1])),
{
    let w = u16_from_le(error[0], error[1]);
    let mut flags: Vec<HomingErrorFlag> = Vec::new();
    let mut i: u16 = 0;
    while i < HOMING_FLAG_COUNT
        invariant
            i <= HOMING_FLAG_COUNT,
            w == le_u16(error@[0], error@[1]),
            flags@ == homing_flags_below(w, i as nat),
        decreases HOMING_FLAG_COUNT - i,
    {
        if w & (1u16 << i) != 0 {
            flags.push(homing_flag_from_index(i));
        }
        i = i + 1;
    }
    flags
}

/// The state whose canonical pattern is exactly `status`.
pub fn parse_state_from_status_word(status: u16) -> (r: Option<CiA402State>)
    ensures
        r == cia402_from_code(status),
{
    CiA402State::from_u16(status)
}

/// Decodes the state that a status word reports, ignoring the warning and
/// manufacturer bits.
pub fn decode_status_word(status: u16) -> (r: Option<CiA402State>)
    ensures
        r == decode_status(status),
{
    CiA402State::from_u16(status & STATE_MASK)
}

/// Rebuilds the status word from its set bits and decodes its state.
pub fn parse_state_from_status_bits(status_bits: Vec<StatusBit>) -> (r: Result<
    CiA402State,
    StateError,
>)
    ensures
        r == (match decode_status(word_of_bits(status_bits@)) {
            Some(s) => Ok(s),
            None => Err(StateError::InvalidState),
        }),
{
    let mut state: u16 = 0;
    let mut j: usize = 0;
    while j < status_bits.len()
        invariant
            j <= status_bits@.len(),
            state == word_of_bits(status_bits@.subrange(0, j as int)),
        decreases status_bits@.len() - j,
    {
        let idx = status_bit_to_index(status_bits[j]);
        proof {
            let pre = status_bits@.subrange(0, j as int);
            let next = status_bits@.subrange(0, j + 1);
            assert(next.drop_last() =~= pre);
            assert(next.last() == status_bits@[j as int]);
        }
        state = state | (1u16 << idx);
        j = j + 1;
    }
    proof {
        assert(status_bits@.subrange(0, status_bits@.len() as int) =~= status_bits@);
    }
    match decode_status_word(state) {
        Some(s) => Ok(s),
        None => Err(StateError::InvalidState),
    }
}

proof fn lemma_state_bits_kept(c: u16, extra: u16)
    by (bit_vector)
    requires
        c & NON_STATE_BITS == 0,
        c & STATE_MASK == c,
    ensures
        (c | (extra & NON_STATE_BITS)) & STATE_MASK == c,
{
}

proof fn lemma_codes_are_state_bits()
    by (bit_vector)
    ensures
        0x00u16 & NON_STATE_BITS == 0 && 0x00u16 & STATE_MASK == 0x00u16,
        0x40u16 & NON_STATE_BITS == 0 && 0x40u16 & STATE_MASK == 0x40u16,
        0x21u16 & NON_STATE_BITS == 0 && 0x21u16 & STATE_MASK == 0x21u16,
        0x23u16 & NON_STATE_BITS == 0 && 0x23u16 & STATE_MASK == 0x23u16,
        0x37u16 & NON_STATE_BITS == 0 && 0x37u16 & STATE_MASK == 0x37u16,
        0x07u16 & NON_STATE_BITS == 0 && 0x07u16 & STATE_MASK == 0x07u16,
        0x1Fu16 & NON_STATE_BITS == 0 && 0x1Fu16 & STATE_MASK == 0x1Fu16,
        0x08u16 & NON_STATE_BITS == 0 && 0x08u16 & STATE_MASK == 0x08u16,
{
}

/// Every state's status word decodes back to that state, whatever the drive
/// sets in the warning and manufacturer bits.
pub proof fn lemma_status_round_trip(s: CiA402State, extra: u16)
    ensures
        decode_status(cia402_code(s) | (extra & NON_STATE_BITS)) == Some(s),
{
    lemma_codes_are_state_bits();
    lemma_state_bits_kept(cia402_code(s), extra);
}

/// The low `n` bits set, for `n` at most 16.
pub open spec fn low_mask(n: u16) -> u16 {
    (0xFFFFu32 >> ((16 - n) as u32)) as u16
}

proof fn lemma_low_mask_step(w: u16, n: u16)
    by (bit_vector)
    requires
        n < 16,
    ensures
        w & (1u16 << n) != 0 ==> (w & low_mask(n)) | (1u16 << n) == w & low_mask((n + 1) as u16),
        w & (1u16 << n) == 0 ==> w & low_mask(n) == w & low_mask((n + 1) as u16),
        w & low_mask(0) == 0,
        w & low_mask(16) == w,
{
}

proof fn lemma_word_of_bits_below(w: u16, n: u16)
    requires
        n <= 16,
    ensures
        word_of_bits(status_bits_below(w, n as nat)) == w & low_mask(n),
    decreases n,
{
    if n == 0 {
        lemma_low_mask_step(w, 0);
    } else {
        let m = (n - 1) as u16;
        lemma_word_of_bits_below(w, m);
        lemma_low_mask_step(w, m);
        let prev = status_bits_below(w, m as nat);
        if bit_set(w, m) {
            let cur = prev.push(status_bit_at(m));
            assert(cur.drop_last() =~= prev);
            assert(status_bit_index(status_bit_at(m)) == m);
        }
    }
}

/// Listing the bits of a status word and rebuilding the word from them gives
/// the word back, so both ways of decoding a status word agree.
pub proof fn lemma_status_bits_round_trip(w: u16)
    ensures
        word_of_bits(status_bits_below(w, 16)) == w,
        decode_status(word_of_bits(status_bits_below(w, 16))) == decode_status(w),
{
    lemma_word_of_bits_below(w, 16);
    lemma_low_mask_step(w, 0);
}

} // verus!
