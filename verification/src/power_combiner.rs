//! The combiner: the latest value of each of the two sources, and the rule
//! that says when a combined figure goes out and into which quantities.
//!
//! Values are IEEE-754 binary32 bit patterns. The combiner decides whether
//! to emit and hands out the two operands; their sum is formed by the caller
//! and comes back through `send_readings`.

use crate::smart_meter_emulator::Readings;
use vstd::prelude::*;

verus! {

/// A sample from one of the two sources.
#[derive(Debug, Clone, Copy, PartialEq, Eq, Structural)]
pub enum Sample {
    /// A power sample of the primary source.
    Shelly(u32),
    /// An offset sample of the secondary source.
    HomeAssistant(u32),
}

/// The state of a combiner as a mathematical value.
pub ghost struct CombinerState {
    /// The last power sample of the primary source, zero before the first.
    pub shelly_power: u32,
    /// The last offset sample of the secondary source, zero before the first.
    pub ha_offset: u32,
    /// The primary source has sent a sample.
    pub has_shelly_data: bool,
    /// The secondary source has sent a sample.
    pub has_ha_data: bool,
}

impl CombinerState {
    /// The state before any sample.
    pub open spec fn initial() -> CombinerState {
        CombinerState { shelly_power: 0, ha_offset: 0, has_shelly_data: false, has_ha_data: false }
    }

    /// The state after `sample` has come in.
    pub open spec fn receive(self, sample: Sample) -> CombinerState {
        match sample {
            Sample::Shelly(power) => CombinerState {
                shelly_power: power,
                has_shelly_data: true,
                ..self
            },
            Sample::HomeAssistant(offset) => CombinerState {
                ha_offset: offset,
                has_ha_data: true,
                ..self
            },
        }
    }

    /// The power and the offset to add up, once both sources have been
    /// heard from; nothing before that.
    pub open spec fn operands(self) -> Option<(u32, u32)> {
        if self.has_shelly_data && self.has_ha_data {
            Some((self.shelly_power, self.ha_offset))
        } else {
            None
        }
    }

    /// The state after the samples of `samples` have come in, first to last.
    pub open spec fn after(samples: Seq<Sample>) -> CombinerState
        decreases samples.len(),
    {
        if samples.len() == 0 {
            CombinerState::initial()
        } else {
            CombinerState::after(samples.drop_last()).receive(samples.last())
        }
    }
}

/// The three measurements that carry one combined figure, in the order in
/// which they go out.
pub open spec fn combined_readings(power: u32) -> Seq<Readings> {
    seq![
        Readings::TotalRealPower(power),
        Readings::ReactivePower(power),
        Readings::NetACCurrent(power),
    ]
}

/// Holds the latest sample of each source and whether each has sent one.
#[derive(Debug)]
pub struct PowerCombiner {
    shelly_power: u32,
    ha_offset: u32,
    has_shelly_data: bool,
    has_ha_data: bool,
}

impl View for PowerCombiner {
    type V = CombinerState;

    closed spec fn view(&self) -> CombinerState {
        CombinerState {
            shelly_power: self.shelly_power,
            ha_offset: self.ha_offset,
            has_shelly_data: self.has_shelly_data,
            has_ha_data: self.has_ha_data,
        }
    }
}

impl PowerCombiner {
    /// A combiner that has heard from neither source.
    pub fn new() -> (combiner: Self)
        ensures
            combiner@ == CombinerState::initial(),
    {
        Self { shelly_power: 0, ha_offset: 0, has_shelly_data: false, has_ha_data: false }
    }

    /// Takes a power sample of the primary source and says what to add up,
    /// if a combined figure is due.
    pub fn update_shelly_power(&mut self, power: u32) -> (emit: Option<(u32, u32)>)
        ensures
            final(self)@ == old(self)@.receive(Sample::Shelly(power)),
            emit == final(self)@.operands(),
    {
        self.shelly_power = power;
        self.has_shelly_data = true;
        self.send_combined_power()
    }

    /// Takes an offset sample of the secondary source and says what to add
    /// up, if a combined figure is due.
    pub fn update_ha_offset(&mut self, offset: u32) -> (emit: Option<(u32, u32)>)
        ensures
            final(self)@ == old(self)@.receive(Sample::HomeAssistant(offset)),
            emit == final(self)@.operands(),
    {
        self.ha_offset = offset;
        self.has_ha_data = true;
        self.send_combined_power()
    }

    /// Takes a sample of either source.
    pub fn update(&mut self, sample: Sample) -> (emit: Option<(u32, u32)>)
        ensures
            final(self)@ == old(self)@.receive(sample),
            emit == final(self)@.operands(),
    {
        match sample {
            Sample::Shelly(power) => self.update_shelly_power(power),
            Sample::HomeAssistant(offset) => self.update_ha_offset(offset),
        }
    }

    /// The power and the offset to add up: nothing until both sources have
    /// sent a sample, and the latest of each from then on.
    pub fn send_combined_power(&self) -> (emit: Option<(u32, u32)>)
        ensures
            emit == self@.operands(),
    {
        if !self.has_shelly_data || !self.has_ha_data {
            return None;
        }
        Some((self.shelly_power, self.ha_offset))
    }

    /// The measurements that carry the combined figure `power`: the same
    /// value as total real power, as reactive power and as net current.
    pub fn send_readings(power: u32) -> (readings: Vec<Readings>)
        ensures
            readings@ == combined_readings(power),
    {
        let mut readings: Vec<Readings> = Vec::new();
        readings.push(Readings::TotalRealPower(power));
        readings.push(Readings::ReactivePower(power));
        readings.push(Readings::NetACCurrent(power));
        assert(readings@ =~= combined_readings(power));
        readings
    }
}

/// The value of the last sample of the primary source in `samples`.
pub open spec fn last_shelly(samples: Seq<Sample>) -> Option<u32>
    decreases samples.len(),
{
    if samples.len() == 0 {
        None
    } else {
        match samples.last() {
            Sample::Shelly(power) => Some(power),
            Sample::HomeAssistant(_) => last_shelly(samples.drop_last()),
        }
    }
}

/// The value of the last sample of the secondary source in `samples`.
pub open spec fn last_home_assistant(samples: Seq<Sample>) -> Option<u32>
    decreases samples.len(),
{
    if samples.len() == 0 {
        None
    } else {
        match samples.last() {
            Sample::HomeAssistant(offset) => Some(offset),
            Sample::Shelly(_) => last_home_assistant(samples.drop_last()),
        }
    }
}

/// A source has a last sample exactly when it has sent one.
pub proof fn lemma_last_sample_exists(samples: Seq<Sample>)
    ensures
        last_shelly(samples) is Some <==> exists|i: int|
            0 <= i < samples.len() && #[trigger] samples[i] is Shelly,
        last_home_assistant(samples) is Some <==> exists|i: int|
            0 <= i < samples.len() && #[trigger] samples[i] is HomeAssistant,
    decreases samples.len(),
{
    if samples.len() > 0 {
        let front = samples.drop_last();
        lemma_last_sample_exists(front);
        let n = samples.len() - 1;
        if exists|i: int| 0 <= i < front.len() && #[trigger] front[i] is Shelly {
            let i = choose|i: int| 0 <= i < front.len() && #[trigger] front[i] is Shelly;
            assert(samples[i] is Shelly);
        }
        if exists|i: int| 0 <= i < front.len() && #[trigger] front[i] is HomeAssistant {
            let i = choose|i: int| 0 <= i < front.len() && #[trigger] front[i] is HomeAssistant;
            assert(samples[i] is HomeAssistant);
        }
        if exists|i: int| 0 <= i < samples.len() && #[trigger] samples[i] is Shelly {
            let i = choose|i: int| 0 <= i < samples.len() && #[trigger] samples[i] is Shelly;
            if i < n {
                assert(front[i] is Shelly);
            }
        }
        if exists|i: int| 0 <= i < samples.len() && #[trigger] samples[i] is HomeAssistant {
            let i = choose|i: int|
                0 <= i < samples.len() && #[trigger] samples[i] is HomeAssistant;
            if i < n {
                assert(front[i] is HomeAssistant);
            }
        }
        assert(samples[n] == samples.last());
    }
}

/// After any samples, the combiner holds the last sample of each source.
pub proof fn lemma_state_holds_latest(samples: Seq<Sample>)
    ensures
        CombinerState::after(samples).has_shelly_data == (last_shelly(samples) is Some),
        CombinerState::after(samples).has_ha_data == (last_home_assistant(samples) is Some),
        last_shelly(samples) matches Some(power) ==> CombinerState::after(samples).shelly_power
            == power,
        last_home_assistant(samples) matches Some(offset) ==> CombinerState::after(
            samples,
        ).ha_offset == offset,
    decreases samples.len(),
{
    if samples.len() > 0 {
        lemma_state_holds_latest(samples.drop_last());
    }
}

/// Nothing is emitted until a sample has come from each source; from then on
/// every sample emits, and what is emitted is the latest sample of each
/// source.
pub proof fn lemma_emits_once_both_heard(samples: Seq<Sample>)
    ensures
        CombinerState::after(samples).operands() is Some <==> (exists|i: int|
            0 <= i < samples.len() && #[trigger] samples[i] is Shelly) && (exists|j: int|
            0 <= j < samples.len() && #[trigger] samples[j] is HomeAssistant),
        CombinerState::after(samples).operands() matches Some(pair) ==> last_shelly(samples)
            == Some(pair.0) && last_home_assistant(samples) == Some(pair.1),
{
    lemma_last_sample_exists(samples);
    lemma_state_holds_latest(samples);
}

} // verus!
