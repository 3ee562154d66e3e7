//! The virtual meter: its register tables, the read queries it answers and
//! the measurement updates it takes in.

use crate::words::{high_word, low_word, split_words};
use std::collections::HashMap;
use vstd::prelude::*;

verus! {

broadcast use vstd::std_specs::hash::group_hash_axioms;

/// Why a query was turned down.
#[derive(Debug, Clone, Copy, PartialEq, Eq, Structural)]
pub enum Exception {
    /// The query asks for something other than reading registers.
    IllegalFunction,
    /// The query reaches an address that the table does not hold.
    IllegalDataAddress,
}

/// The table holds the address `a`. No table holds an address outside the
/// 16-bit range.
pub open spec fn holds(registers: Map<u16, u16>, a: int) -> bool {
    0 <= a <= u16::MAX && registers.contains_key(a as u16)
}

/// Every address from `addr` on, `cnt` of them, is held by `registers`.
pub open spec fn all_present(registers: Map<u16, u16>, addr: u16, cnt: u16) -> bool {
    forall|a: int| addr <= a < addr + cnt ==> #[trigger] holds(registers, a)
}

/// The values of `cnt` consecutive registers from `addr` on.
pub open spec fn values_at(registers: Map<u16, u16>, addr: u16, cnt: u16) -> Seq<u16> {
    Seq::new(cnt as nat, |i: int| registers[(addr + i) as u16])
}

/// Reads `cnt` consecutive registers from `addr` on.
///
/// The read succeeds exactly when the table holds every one of the addresses;
/// an address past the last 16-bit address is held by no table.
pub fn register_read(registers: &HashMap<u16, u16>, addr: u16, cnt: u16) -> (res: Result<
    Vec<u16>,
    Exception,
>)
    ensures
        res is Ok <==> all_present(registers@, addr, cnt),
        res matches Ok(values) ==> values@ == values_at(registers@, addr, cnt),
        res matches Err(e) ==> e == Exception::IllegalDataAddress,
{
    let mut response_values: Vec<u16> = Vec::new();
    let mut i: u16 = 0;
    while i < cnt
        invariant
            i <= cnt,
            response_values@.len() == i,
            forall|a: int| addr <= a < addr + i ==> #[trigger] holds(registers@, a),
            forall|j: int|
                0 <= j < i ==> #[trigger] response_values@[j] == registers@[(addr + j) as u16],
        decreases cnt - i,
    {
        if i > u16::MAX - addr {
            assert(!holds(registers@, addr + i));
            return Err(Exception::IllegalDataAddress);
        }
        let reg_addr: u16 = addr + i;
        match registers.get(&reg_addr) {
            Some(r) => {
                response_values.push(*r);
            },
            None => {
                assert(!holds(registers@, addr + i));
                return Err(Exception::IllegalDataAddress);
            },
        }
        i = i + 1;
    }
    assert(response_values@ =~= values_at(registers@, addr, cnt));
    Ok(response_values)
}

/// The table after `value` is written to `register`: a register that the
/// table holds takes the value, and a table that does not hold it stays as
/// it is.
pub open spec fn write_word(registers: Map<u16, u16>, register: u16, value: u16) -> Map<u16, u16> {
    if registers.contains_key(register) {
        registers.insert(register, value)
    } else {
        registers
    }
}

/// The table after the two words of `bits` are written at `base` and the
/// address after it, the high word first.
pub open spec fn write_pattern(registers: Map<u16, u16>, base: u16, bits: u32) -> Map<u16, u16> {
    write_word(write_word(registers, base, high_word(bits)), (base + 1) as u16, low_word(bits))
}

/// Writes `value` to `register` if the table holds that register.
pub fn set_holding_reg(holding_registers: &mut HashMap<u16, u16>, register: u16, value: u16)
    ensures
        final(holding_registers)@ == write_word(old(holding_registers)@, register, value),
{
    if holding_registers.contains_key(&register) {
        holding_registers.insert(register, value);
    }
}

/// Writes a 32-bit pattern to the two registers at `register_base_number`,
/// the high word at the lower address. The base leaves room for the second
/// register: it is not the last address.
pub fn set_holding_reg_f32(
    holding_registers: &mut HashMap<u16, u16>,
    register_base_number: u16,
    value: u32,
)
    requires
        register_base_number < u16::MAX,
    ensures
        final(holding_registers)@ == write_pattern(
            old(holding_registers)@,
            register_base_number,
            value,
        ),
{
    let (high, low) = split_words(value);
    set_holding_reg(holding_registers, register_base_number, high);
    set_holding_reg(holding_registers, register_base_number + 1, low);
}

/// One measurement: the quantity it is, and its value as an IEEE-754
/// binary32 bit pattern.
#[derive(Debug, Clone, Copy, PartialEq, Eq, Structural)]
pub enum Readings {
    /// Net AC current.
    NetACCurrent(u32),
    /// Average phase-to-neutral voltage.
    AveragePhaseVoltage(u32),
    /// Average line-to-line voltage.
    AverageLLVoltage(u32),
    /// Current of phase A.
    PhaseACurrent(u32),
    /// Current of phase B.
    PhaseBCurrent(u32),
    /// Current of phase C.
    PhaseCCurrent(u32),
    /// Voltage of phase A to neutral.
    PhaseAVoltage(u32),
    /// Voltage of phase B to neutral.
    PhaseBVoltage(u32),
    /// Voltage of phase C to neutral.
    PhaseCVoltage(u32),
    /// Real power of phase A.
    PhaseAWatts(u32),
    /// Real power of phase B.
    PhaseBWatts(u32),
    /// Real power of phase C.
    PhaseCWatts(u32),
    /// Voltage between phases A and B.
    PhaseABVoltage(u32),
    /// Voltage between phases B and C.
    PhaseBCVoltage(u32),
    /// Voltage between phases C and A.
    PhaseCAVoltage(u32),
    /// Line frequency.
    Frequency(u32),
    /// Total real power.
    TotalRealPower(u32),
    /// Total apparent power.
    ApparentPower(u32),
    /// Apparent power of phase A.
    PhaseAVA(u32),
    /// Apparent power of phase B.
    PhaseBVA(u32),
    /// Apparent power of phase C.
    PhaseCVA(u32),
    /// Total reactive power.
    ReactivePower(u32),
    /// Reactive power of phase A.
    PhaseAVAR(u32),
    /// Reactive power of phase B.
    PhaseBVAR(u32),
    /// Reactive power of phase C.
    PhaseCVAR(u32),
    /// Total power factor.
    PowerFactorTotal(u32),
    /// Power factor of phase A.
    PhaseAPF(u32),
    /// Power factor of phase B.
    PhaseBPF(u32),
    /// Power factor of phase C.
    PhaseCPF(u32),
}

impl Readings {
    /// The lower of the two registers that hold this quantity.
    ///
    /// The slot of the apparent power of phase C lies far below the others.
    pub open spec fn base_register(self) -> u16 {
        match self {
            Readings::NetACCurrent(_) => 40071,
            Readings::AveragePhaseVoltage(_) => 40079,
            Readings::AverageLLVoltage(_) => 40087,
            Readings::PhaseACurrent(_) => 40073,
            Readings::PhaseBCurrent(_) => 40075,
            Readings::PhaseCCurrent(_) => 40077,
            Readings::PhaseAVoltage(_) => 40081,
            Readings::PhaseBVoltage(_) => 40083,
            Readings::PhaseCVoltage(_) => 40085,
            Readings::PhaseAWatts(_) => 40099,
            Readings::PhaseBWatts(_) => 40101,
            Readings::PhaseCWatts(_) => 40103,
            Readings::PhaseABVoltage(_) => 40089,
            Readings::PhaseBCVoltage(_) => 40091,
            Readings::PhaseCAVoltage(_) => 40093,
            Readings::Frequency(_) => 40095,
            Readings::TotalRealPower(_) => 40097,
            Readings::ApparentPower(_) => 40105,
            Readings::PhaseAVA(_) => 40107,
            Readings::PhaseBVA(_) => 40109,
            Readings::PhaseCVA(_) => 4011,
            Readings::ReactivePower(_) => 40113,
            Readings::PhaseAVAR(_) => 40115,
            Readings::PhaseBVAR(_) => 40117,
            Readings::PhaseCVAR(_) => 40119,
            Readings::PowerFactorTotal(_) => 40121,
            Readings::PhaseAPF(_) => 40123,
            Readings::PhaseBPF(_) => 40125,
            Readings::PhaseCPF(_) => 40127,
        }
    }

    /// The bit pattern of the value.
    pub open spec fn pattern(self) -> u32 {
        match self {
            Readings::NetACCurrent(bits)
            | Readings::AveragePhaseVoltage(bits)
            | Readings::AverageLLVoltage(bits)
            | Readings::PhaseACurrent(bits)
            | Readings::PhaseBCurrent(bits)
            | Readings::PhaseCCurrent(bits)
            | Readings::PhaseAVoltage(bits)
            | Readings::PhaseBVoltage(bits)
            | Readings::PhaseCVoltage(bits)
            | Readings::PhaseAWatts(bits)
            | Readings::PhaseBWatts(bits)
            | Readings::PhaseCWatts(bits)
            | Readings::PhaseABVoltage(bits)
            | Readings::PhaseBCVoltage(bits)
            | Readings::PhaseCAVoltage(bits)
            | Readings::Frequency(bits)
            | Readings::TotalRealPower(bits)
            | Readings::ApparentPower(bits)
            | Readings::PhaseAVA(bits)
            | Readings::PhaseBVA(bits)
            | Readings::PhaseCVA(bits)
            | Readings::ReactivePower(bits)
            | Readings::PhaseAVAR(bits)
            | Readings::PhaseBVAR(bits)
            | Readings::PhaseCVAR(bits)
            | Readings::PowerFactorTotal(bits)
            | Readings::PhaseAPF(bits)
            | Readings::PhaseBPF(bits)
            | Readings::PhaseCPF(bits) => bits,
        }
    }

    /// The lower of the two registers that hold this quantity.
    pub fn register(&self) -> (base: u16)
        ensures
            base == self.base_register(),
            base < u16::MAX,
    {
        match self {
            Readings::NetACCurrent(_) => 40071,
            Readings::AveragePhaseVoltage(_) => 40079,
            Readings::AverageLLVoltage(_) => 40087,
            Readings::PhaseACurrent(_) => 40073,
            Readings::PhaseBCurrent(_) => 40075,
            Readings::PhaseCCurrent(_) => 40077,
            Readings::PhaseAVoltage(_) => 40081,
            Readings::PhaseBVoltage(_) => 40083,
            Readings::PhaseCVoltage(_) => 40085,
            Readings::PhaseAWatts(_) => 40099,
            Readings::PhaseBWatts(_) => 40101,
            Readings::PhaseCWatts(_) => 40103,
            Readings::PhaseABVoltage(_) => 40089,
            Readings::PhaseBCVoltage(_) => 40091,
            Readings::PhaseCAVoltage(_) => 40093,
            Readings::Frequency(_) => 40095,
            Readings::TotalRealPower(_) => 40097,
            Readings::ApparentPower(_) => 40105,
            Readings::PhaseAVA(_) => 40107,
            Readings::PhaseBVA(_) => 40109,
            Readings::PhaseCVA(_) => 4011,
            Readings::ReactivePower(_) => 40113,
            Readings::PhaseAVAR(_) => 40115,
            Readings::PhaseBVAR(_) => 40117,
            Readings::PhaseCVAR(_) => 40119,
            Readings::PowerFactorTotal(_) => 40121,
            Readings::PhaseAPF(_) => 40123,
            Readings::PhaseBPF(_) => 40125,
            Readings::PhaseCPF(_) => 40127,
        }
    }

    /// The bit pattern of the value.
    pub fn bits(&self) -> (bits: u32)
        ensures
            bits == self.pattern(),
    {
        match self {
            Readings::NetACCurrent(bits)
            | Readings::AveragePhaseVoltage(bits)
            | Readings::AverageLLVoltage(bits)
            | Readings::PhaseACurrent(bits)
            | Readings::PhaseBCurrent(bits)
            | Readings::PhaseCCurrent(bits)
            | Readings::PhaseAVoltage(bits)
            | Readings::PhaseBVoltage(bits)
            | Readings::PhaseCVoltage(bits)
            | Readings::PhaseAWatts(bits)
            | Readings::PhaseBWatts(bits)
            | Readings::PhaseCWatts(bits)
            | Readings::PhaseABVoltage(bits)
            | Readings::PhaseBCVoltage(bits)
            | Readings::PhaseCAVoltage(bits)
            | Readings::Frequency(bits)
            | Readings::TotalRealPower(bits)
            | Readings::ApparentPower(bits)
            | Readings::PhaseAVA(bits)
            | Readings::PhaseBVA(bits)
            | Readings::PhaseCVA(bits)
            | Readings::ReactivePower(bits)
            | Readings::PhaseAVAR(bits)
            | Readings::PhaseBVAR(bits)
            | Readings::PhaseCVAR(bits)
            | Readings::PowerFactorTotal(bits)
            | Readings::PhaseAPF(bits)
            | Readings::PhaseBPF(bits)
            | Readings::PhaseCPF(bits) => *bits,
        }
    }
}

/// The table after one measurement has been written to its two registers.
pub open spec fn apply_reading(registers: Map<u16, u16>, reading: Readings) -> Map<u16, u16> {
    write_pattern(registers, reading.base_register(), reading.pattern())
}

/// The table after the measurements of `events` have been written, first to
/// last, so that the last write to a register stands.
pub open spec fn apply_all(registers: Map<u16, u16>, events: Seq<Readings>) -> Map<u16, u16>
    decreases events.len(),
{
    if events.len() == 0 {
        registers
    } else {
        apply_reading(apply_all(registers, events.drop_last()), events.last())
    }
}

/// A query put to the meter.
#[derive(Debug, Clone, Copy, PartialEq, Eq, Structural)]
pub enum Request {
    /// Read `count` input registers from `address` on.
    ReadInputRegisters(u16, u16),
    /// Read `count` holding registers from `address` on.
    ReadHoldingRegisters(u16, u16),
    /// Any other operation.
    Unsupported,
}

/// The answer to a query that was served.
#[derive(Debug, PartialEq, Eq)]
pub enum Response {
    /// The values of the input registers asked for.
    ReadInputRegisters(Vec<u16>),
    /// The values of the holding registers asked for.
    ReadHoldingRegisters(Vec<u16>),
}

/// The word at `index` of a text field: the code of its character there, and
/// zero past the end of the text.
pub open spec fn text_word(text: Seq<char>, index: int) -> u16 {
    if 0 <= index < text.len() {
        text[index] as u16
    } else {
        0
    }
}

/// The word at `index` of the identification block: the marker, the common
/// model with one character of its texts to a register, the device address,
/// the header of the meter model, and zeros after it.
pub open spec fn identification_word(index: int) -> u16 {
    if index == 0 {
        0x5375
    } else if index == 1 {
        0x6e53
    } else if index == 2 {
        1
    } else if index == 3 {
        65
    } else if 4 <= index < 20 {
        text_word("Fronius"@, index - 4)
    } else if 20 <= index < 36 {
        text_word("Smart Meter 63A"@, index - 20)
    } else if 52 <= index < 68 {
        text_word("00000001"@, index - 52)
    } else if index == 68 {
        240
    } else if index == 69 {
        213
    } else if index == 70 {
        124
    } else {
        0
    }
}

/// The first register of the measurement block.
pub const MEASUREMENTS_FIRST: u16 = 40071;

/// The last register of the measurement block.
pub const MEASUREMENTS_LAST: u16 = 40128;

/// What a new meter holds at holding register `a`, if it holds that register.
///
/// The block from 40000 to 40196 is whole: the identification words, the
/// measurement block at zero, the rest of the meter model at zero, the end
/// marker and a zero after it. Apart from it a new meter holds the two
/// registers of the apparent power of phase C, at zero, and eight registers
/// that tell it from devices of other kinds.
pub open spec fn seeded_word(a: u16) -> Option<u16> {
    if 40000 <= a < MEASUREMENTS_FIRST {
        Some(identification_word(a - 40000))
    } else if MEASUREMENTS_FIRST <= a <= MEASUREMENTS_LAST {
        Some(0)
    } else if MEASUREMENTS_LAST < a <= 40194 {
        Some(0)
    } else if a == 40195 {
        Some(0xFFFF)
    } else if a == 40196 {
        Some(0)
    } else if a == 4011 || a == 4012 {
        Some(0)
    } else if a == 0 {
        Some(1)
    } else if a == 1 || a == 11 || a == 12 || a == 768 || a == 1706 || a == 50000 || a == 50001 {
        Some(0)
    } else {
        None
    }
}

/// The holding registers of a new meter.
pub open spec fn initial_holding_registers() -> Map<u16, u16> {
    Map::new(|a: u16| seeded_word(a) is Some, |a: u16| seeded_word(a).unwrap())
}

/// The input registers of a new meter.
pub open spec fn initial_input_registers() -> Map<u16, u16> {
    Map::empty().insert(0u16, 1234u16).insert(1u16, 5678u16)
}

/// The first `filled` words of the block that starts at `first`, each taken
/// from `seeded_word`, added to `registers`.
pub open spec fn with_block(registers: Map<u16, u16>, first: u16, filled: int) -> Map<u16, u16> {
    Map::new(
        |a: u16| registers.contains_key(a) || first <= a < first + filled,
        |a: u16|
            if first <= a < first + filled {
                seeded_word(a).unwrap()
            } else {
                registers[a]
            },
    )
}

/// The words of the identification block, in order of address.
fn identification_block() -> (block: [u16; 101])
    ensures
        forall|i: int| 0 <= i < 101 ==> #[trigger] block@[i] == identification_word(i),
{
    let block: [u16; 101] = [
        0x5375, 0x6e53,
        1, 65,
        70, 114, 111, 110, 105, 117, 115, 0, 0, 0, 0, 0, 0, 0, 0, 0,
        83, 109, 97, 114, 116, 32, 77, 101, 116, 101, 114, 32, 54, 51, 65, 0,
        0, 0, 0, 0, 0, 0, 0, 0, 0, 0, 0, 0, 0, 0, 0, 0,
        48, 48, 48, 48, 48, 48, 48, 49, 0, 0, 0, 0, 0, 0, 0, 0,
        240,
        213,
        124,
        0, 0, 0, 0, 0, 0, 0, 0, 0, 0, 0, 0, 0, 0, 0, 0, 0, 0, 0, 0, 0, 0, 0, 0, 0, 0, 0, 0, 0, 0,
    ];
    proof {
        reveal_strlit("Fronius");
        reveal_strlit("Smart Meter 63A");
        reveal_strlit("00000001");
    }
    block
}

/// The virtual meter: a table of input registers and a table of holding
/// registers.
pub struct SmartMeterEmulator {
    input_registers: HashMap<u16, u16>,
    holding_registers: HashMap<u16, u16>,
}

/// An answer as a mathematical value: the table that was read and the
/// values read from it.
pub ghost enum Served {
    /// Values of input registers.
    InputRegisters(Seq<u16>),
    /// Values of holding registers.
    HoldingRegisters(Seq<u16>),
}

impl View for Response {
    type V = Served;

    open spec fn view(&self) -> Served {
        match self {
            Response::ReadInputRegisters(values) => Served::InputRegisters(values@),
            Response::ReadHoldingRegisters(values) => Served::HoldingRegisters(values@),
        }
    }
}

/// What a meter with the tables `input` and `holding` answers to `req`.
pub open spec fn answer(input: Map<u16, u16>, holding: Map<u16, u16>, req: Request) -> Result<
    Served,
    Exception,
> {
    match req {
        Request::ReadInputRegisters(addr, cnt) => if all_present(input, addr, cnt) {
            Ok(Served::InputRegisters(values_at(input, addr, cnt)))
        } else {
            Err(Exception::IllegalDataAddress)
        },
        Request::ReadHoldingRegisters(addr, cnt) => if all_present(holding, addr, cnt) {
            Ok(Served::HoldingRegisters(values_at(holding, addr, cnt)))
        } else {
            Err(Exception::IllegalDataAddress)
        },
        Request::Unsupported => Err(Exception::IllegalFunction),
    }
}

/// The result of a query as a mathematical value.
pub open spec fn outcome(res: Result<Response, Exception>) -> Result<Served, Exception> {
    match res {
        Ok(response) => Ok(response@),
        Err(e) => Err(e),
    }
}

impl SmartMeterEmulator {
    /// The input registers, by address.
    pub closed spec fn input(&self) -> Map<u16, u16> {
        self.input_registers@
    }

    /// The holding registers, by address.
    pub closed spec fn holding(&self) -> Map<u16, u16> {
        self.holding_registers@
    }

    /// A meter with the identification block in place and the two registers
    /// of every quantity at zero.
    pub fn new() -> (meter: Self)
        ensures
            meter.input() == initial_input_registers(),
            meter.holding() == initial_holding_registers(),
    {
        let mut input_registers: HashMap<u16, u16> = HashMap::new();
        input_registers.insert(0, 1234);
        input_registers.insert(1, 5678);
        let mut holding_registers: HashMap<u16, u16> = HashMap::new();
        let block = identification_block();
        let mut index: u16 = 0;
        while index < 101
            invariant
                index <= 101,
                holding_registers@ == with_block(Map::empty(), 40000, index as int),
                forall|i: int| 0 <= i < 101 ==> #[trigger] block@[i] == identification_word(i),
            decreases 101 - index,
        {
            holding_registers.insert(40000 + index, block[index as usize]);
            index = index + 1;
        }
        let ghost identified = holding_registers@;
        let mut index: u16 = 0;
        while index < 94
            invariant
                index <= 94,
                holding_registers@ == with_block(identified, 40101, index as int),
            decreases 94 - index,
        {
            holding_registers.insert(40101 + index, 0);
            index = index + 1;
        }
        holding_registers.insert(40195, 0xFFFF);
        holding_registers.insert(40196, 0);
        holding_registers.insert(4011, 0);
        holding_registers.insert(4012, 0);
        holding_registers.insert(0, 1);
        holding_registers.insert(1, 0);
        holding_registers.insert(11, 0);
        holding_registers.insert(12, 0);
        holding_registers.insert(768, 0);
        holding_registers.insert(1706, 0);
        holding_registers.insert(50000, 0);
        holding_registers.insert(50001, 0);
        assert(holding_registers@ =~= initial_holding_registers());
        Self { input_registers, holding_registers }
    }

    /// Answers a query: a read of input or holding registers is served from
    /// the table it names, and anything else is an illegal function.
    pub fn call(&self, req: Request) -> (res: Result<Response, Exception>)
        ensures
            outcome(res) == answer(self.input(), self.holding(), req),
    {
        match req {
            Request::ReadInputRegisters(addr, cnt) => {
                match register_read(&self.input_registers, addr, cnt) {
                    Ok(values) => Ok(Response::ReadInputRegisters(values)),
                    Err(e) => Err(e),
                }
            },
            Request::ReadHoldingRegisters(addr, cnt) => {
                match register_read(&self.holding_registers, addr, cnt) {
                    Ok(values) => Ok(Response::ReadHoldingRegisters(values)),
                    Err(e) => Err(e),
                }
            },
            Request::Unsupported => Err(Exception::IllegalFunction),
        }
    }

    /// Writes one measurement to the two holding registers of its quantity.
    pub fn update(&mut self, reading: Readings)
        ensures
            final(self).holding() == apply_reading(old(self).holding(), reading),
            final(self).input() == old(self).input(),
    {
        set_holding_reg_f32(&mut self.holding_registers, reading.register(), reading.bits());
    }

    /// Writes the measurements of `events` in the order in which they came.
    pub fn handle_incoming_register_events(&mut self, events: &Vec<Readings>)
        ensures
            final(self).holding() == apply_all(old(self).holding(), events@),
            final(self).input() == old(self).input(),
    {
        let mut done: usize = 0;
        while done < events.len()
            invariant
                done <= events.len(),
                self.holding() == apply_all(old(self).holding(), events@.take(done as int)),
                self.input() == old(self).input(),
            decreases events.len() - done,
        {
            assert(events@.take(done + 1).drop_last() =~= events@.take(done as int));
            self.update(events[done]);
            done = done + 1;
        }
        assert(events@.take(done as int) =~= events@);
    }
}

/// A write never adds a register to the table nor takes one away.
pub proof fn lemma_write_keeps_addresses(registers: Map<u16, u16>, base: u16, bits: u32)
    ensures
        write_pattern(registers, base, bits).dom() == registers.dom(),
{
    let high = write_word(registers, base, high_word(bits));
    assert(high.dom() =~= registers.dom());
    assert(write_pattern(registers, base, bits).dom() =~= high.dom());
}

/// A write leaves every register but the two it is aimed at as it was.
pub proof fn lemma_write_leaves_others(registers: Map<u16, u16>, base: u16, bits: u32, a: u16)
    requires
        a != base,
        a != (base + 1) as u16,
        registers.contains_key(a),
    ensures
        write_pattern(registers, base, bits)[a] == registers[a],
{
}

/// Where the table holds both registers of a pattern, a read of the two
/// after the write returns the high word, then the low word, and joining
/// them gives the pattern back bit for bit.
pub proof fn lemma_write_then_read(registers: Map<u16, u16>, base: u16, bits: u32)
    requires
        base < u16::MAX,
        registers.contains_key(base),
        registers.contains_key((base + 1) as u16),
    ensures
        all_present(write_pattern(registers, base, bits), base, 2),
        values_at(write_pattern(registers, base, bits), base, 2) == seq![
            high_word(bits),
            low_word(bits),
        ],
        crate::words::join_words(
            values_at(write_pattern(registers, base, bits), base, 2)[0],
            values_at(write_pattern(registers, base, bits), base, 2)[1],
        ) == bits,
{
    let written = write_pattern(registers, base, bits);
    assert forall|a: int| base <= a < base + 2 implies #[trigger] holds(written, a) by {
        assert(a == base || a == base + 1);
    }
    assert(values_at(written, base, 2) =~= seq![high_word(bits), low_word(bits)]);
    crate::words::lemma_split_then_join(bits);
}

/// A read of an address that the table does not hold is turned down,
/// whatever else the query covers.
pub proof fn lemma_unmapped_address_is_refused(
    registers: Map<u16, u16>,
    addr: u16,
    cnt: u16,
    a: int,
)
    requires
        addr <= a < addr + cnt,
        !holds(registers, a),
    ensures
        !all_present(registers, addr, cnt),
{
}

/// Two measurements are written either to the same two registers or to
/// registers that they do not share: no quantity begins in the middle of
/// another.
pub proof fn lemma_quantities_do_not_overlap(a: Readings, b: Readings)
    ensures
        a.base_register() < u16::MAX,
        a.base_register() == b.base_register() || a.base_register() + 1 < b.base_register()
            || b.base_register() + 1 < a.base_register(),
{
    assert(a.base_register() % 2 == 1);
    assert(b.base_register() % 2 == 1);
}

/// A measurement leaves the registers of every quantity that is stored
/// elsewhere as they were.
pub proof fn lemma_update_leaves_other_quantities(
    registers: Map<u16, u16>,
    written: Readings,
    other: Readings,
)
    requires
        written.base_register() != other.base_register(),
        registers.contains_key(other.base_register()),
        registers.contains_key((other.base_register() + 1) as u16),
    ensures
        all_present(apply_reading(registers, written), other.base_register(), 2),
        values_at(apply_reading(registers, written), other.base_register(), 2) == values_at(
            registers,
            other.base_register(),
            2,
        ),
{
    lemma_quantities_do_not_overlap(written, other);
    lemma_quantities_do_not_overlap(other, written);
    let base = other.base_register();
    let after = apply_reading(registers, written);
    lemma_write_keeps_addresses(registers, written.base_register(), written.pattern());
    assert(after.dom().contains(base));
    assert(after.dom().contains((base + 1) as u16));
    assert forall|a: int| base <= a < base + 2 implies #[trigger] holds(after, a) by {
        assert(a == base || a == base + 1);
    }
    lemma_write_leaves_others(registers, written.base_register(), written.pattern(), base);
    lemma_write_leaves_others(
        registers,
        written.base_register(),
        written.pattern(),
        (base + 1) as u16,
    );
    assert(values_at(after, base, 2) =~= values_at(registers, base, 2));
}

/// Measurements never add a register to the table nor take one away.
pub proof fn lemma_updates_keep_addresses(registers: Map<u16, u16>, events: Seq<Readings>)
    ensures
        apply_all(registers, events).dom() == registers.dom(),
    decreases events.len(),
{
    if events.len() > 0 {
        lemma_updates_keep_addresses(registers, events.drop_last());
        lemma_write_keeps_addresses(
            apply_all(registers, events.drop_last()),
            events.last().base_register(),
            events.last().pattern(),
        );
    }
}

/// The last measurement written is the one that a read of its two registers
/// returns, where the table holds them.
pub proof fn lemma_last_write_stands(registers: Map<u16, u16>, events: Seq<Readings>)
    requires
        events.len() > 0,
        registers.contains_key(events.last().base_register()),
        registers.contains_key((events.last().base_register() + 1) as u16),
    ensures
        all_present(apply_all(registers, events), events.last().base_register(), 2),
        values_at(apply_all(registers, events), events.last().base_register(), 2) == seq![
            high_word(events.last().pattern()),
            low_word(events.last().pattern()),
        ],
{
    let before = apply_all(registers, events.drop_last());
    lemma_updates_keep_addresses(registers, events.drop_last());
    assert(before.dom().contains(events.last().base_register()));
    assert(before.dom().contains((events.last().base_register() + 1) as u16));
    lemma_write_then_read(before, events.last().base_register(), events.last().pattern());
}

/// A new meter holds the two registers of every quantity, at zero.
pub proof fn lemma_new_meter_holds_every_quantity(reading: Readings)
    ensures
        initial_holding_registers().contains_key(reading.base_register()),
        initial_holding_registers().contains_key((reading.base_register() + 1) as u16),
        all_present(initial_holding_registers(), reading.base_register(), 2),
        values_at(initial_holding_registers(), reading.base_register(), 2) == seq![0u16, 0u16],
{
    let base = reading.base_register();
    assert(seeded_word(base) == Some(0u16));
    assert(seeded_word((base + 1) as u16) == Some(0u16));
    assert forall|a: int| base <= a < base + 2 implies #[trigger] holds(
        initial_holding_registers(),
        a,
    ) by {
        assert(a == base || a == base + 1);
    }
    assert(values_at(initial_holding_registers(), base, 2) =~= seq![0u16, 0u16]);
}

/// On a meter that began as a new one, every measurement lands: whatever
/// was written before, a read of the two registers of the measurement
/// written last returns its high word, then its low word.
pub proof fn lemma_every_measurement_lands(events: Seq<Readings>)
    requires
        events.len() > 0,
    ensures
        all_present(
            apply_all(initial_holding_registers(), events),
            events.last().base_register(),
            2,
        ),
        values_at(
            apply_all(initial_holding_registers(), events),
            events.last().base_register(),
            2,
        ) == seq![high_word(events.last().pattern()), low_word(events.last().pattern())],
        apply_all(initial_holding_registers(), events).dom() == initial_holding_registers().dom(),
{
    lemma_new_meter_holds_every_quantity(events.last());
    lemma_last_write_stands(initial_holding_registers(), events);
    lemma_updates_keep_addresses(initial_holding_registers(), events);
}

} // verus!
