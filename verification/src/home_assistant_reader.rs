//! The reader of the secondary source: which sensors it reads, how often it
//! tries, what it sends when a read fails and what it does when no sensor is
//! configured.
//!
//! The reader here makes no request itself. It is told what the sensors
//! answered, as bit patterns, and says what follows from it.

use crate::rolling_average::{leaving, reported, slide, RollingAverage, SumStep};
use vstd::prelude::*;
use vstd::string::StrSliceExecFns;

verus! {

/// The time between two read cycles, in milliseconds.
pub const READ_INTERVAL_MS: u64 = 1000;

/// The number of times that one cycle tries to read the sensors.
pub const MAX_RETRIES: u32 = 3;

/// The wait after a failed attempt is its number times this many
/// milliseconds.
pub const RETRY_DELAY_MS: u64 = 200;

/// The offset sent when no offset could be had: the pattern of positive zero.
pub const ZERO_OFFSET: u32 = 0;

/// The text spells `true`, in upper or lower case letters or a mix of them.
pub open spec fn spells_true(text: Seq<char>) -> bool {
    &&& text.len() == 4
    &&& (text[0] == 't' || text[0] == 'T')
    &&& (text[1] == 'r' || text[1] == 'R')
    &&& (text[2] == 'u' || text[2] == 'U')
    &&& (text[3] == 'e' || text[3] == 'E')
}

/// The value of an optional switch: on where the text spells `true`, and off
/// for any other text and for none.
pub open spec fn switch_value(val: Option<String>) -> bool {
    match val {
        Some(text) => spells_true(text@),
        None => false,
    }
}

/// Safely parses a boolean from an optional string, defaulting to false.
pub fn parse_bool_safe(val: Option<String>) -> (on: bool)
    ensures
        on == switch_value(val),
{
    match val {
        None => false,
        Some(text) => {
            let text = text.as_str();
            if text.unicode_len() != 4 {
                return false;
            }
            let c0 = text.get_char(0);
            let c1 = text.get_char(1);
            let c2 = text.get_char(2);
            let c3 = text.get_char(3);
            (c0 == 't' || c0 == 'T') && (c1 == 'r' || c1 == 'R') && (c2 == 'u' || c2 == 'U') && (c3
                == 'e' || c3 == 'E')
        },
    }
}

/// The text of an optional setting, empty where there is none.
pub open spec fn setting_text(val: Option<String>) -> Seq<char> {
    match val {
        Some(text) => text@,
        None => Seq::empty(),
    }
}

/// Why a sensor gave no value.
#[derive(Debug, Clone, Copy, PartialEq, Eq, Structural)]
pub enum SensorError {
    /// The sensor could not be read.
    ReadFailed,
    /// The state of the sensor is not a number.
    NotNumeric,
}

/// What follows one attempt to read the offset.
#[derive(Debug, Clone, Copy, PartialEq, Eq, Structural)]
pub enum RetryStep {
    /// The attempt gave this offset.
    Done(u32),
    /// The attempt failed: wait this many milliseconds, then try again.
    RetryAfterMs(u64),
    /// The attempt failed with this error and was the last of its cycle.
    GiveUp(SensorError),
}

/// What follows the attempt number `attempt`, counted from 1, that ended
/// with `outcome`.
pub open spec fn retry_step(attempt: u32, outcome: Result<u32, SensorError>) -> RetryStep {
    match outcome {
        Ok(offset) => RetryStep::Done(offset),
        Err(e) => if attempt < MAX_RETRIES {
            RetryStep::RetryAfterMs((RETRY_DELAY_MS * attempt) as u64)
        } else {
            RetryStep::GiveUp(e)
        },
    }
}

/// The sample that a cycle sends: the offset that was read, and the zero
/// offset where none could be read.
pub open spec fn sample_of(outcome: Result<u32, SensorError>) -> u32 {
    match outcome {
        Ok(offset) => offset,
        Err(_) => ZERO_OFFSET,
    }
}

/// What the reader does next.
#[derive(Debug, Clone, Copy, PartialEq, Eq, Structural)]
pub enum RunPlan {
    /// Send this one sample and read nothing.
    SendOnce(u32),
    /// Read the sensors cycle after cycle.
    Poll,
    /// Do nothing more.
    Finished,
}

impl RunPlan {
    /// A sample that the consumer does not take is fatal.
    ///
    /// The one sample of a reader without a sensor may be lost. A polling
    /// reader must not lose one: the combiner waits for both sources.
    pub open spec fn loss_is_fatal(self) -> bool {
        self is Poll
    }

    /// Whether a sample that the consumer does not take is fatal.
    pub fn send_failure_is_fatal(&self) -> (fatal: bool)
        ensures
            fatal == self.loss_is_fatal(),
    {
        match self {
            RunPlan::Poll => true,
            RunPlan::SendOnce(_) => false,
            RunPlan::Finished => false,
        }
    }
}

/// What is to be done with a raw offset.
#[derive(Debug, Clone, Copy, PartialEq, Eq, Structural)]
pub enum Offset {
    /// Send it as it is.
    Raw(u32),
    /// It has entered the filter: change the running sum by this step.
    Smoothed(SumStep),
}

/// The reader of the secondary source.
#[derive(Debug)]
pub struct HomeAssistantReader {
    import_sensor: String,
    export_sensor: String,
    should_smooth: bool,
    filtered_offset: RollingAverage,
    finished: bool,
}

impl HomeAssistantReader {
    /// The name of the import sensor, empty where none is configured.
    pub closed spec fn import_name(&self) -> Seq<char> {
        self.import_sensor@
    }

    /// The name of the export sensor, empty where none is configured.
    pub closed spec fn export_name(&self) -> Seq<char> {
        self.export_sensor@
    }

    /// Offsets go through the filter.
    pub closed spec fn smooths(&self) -> bool {
        self.should_smooth
    }

    /// The window of the filter.
    pub closed spec fn window(&self) -> Seq<u32> {
        self.filtered_offset@
    }

    /// The reader has sent its one sample and does nothing more.
    pub closed spec fn finished(&self) -> bool {
        self.finished
    }

    /// At least one sensor is configured.
    pub open spec fn configured(&self) -> bool {
        self.import_name().len() > 0 || self.export_name().len() > 0
    }

    /// A reader of the two sensors named, either of which may be missing,
    /// that smooths its offsets where `smooth` spells `true`.
    pub fn new(
        import_sensor: Option<String>,
        export_sensor: Option<String>,
        smooth: Option<String>,
    ) -> (reader: Self)
        ensures
            reader.import_name() == setting_text(import_sensor),
            reader.export_name() == setting_text(export_sensor),
            reader.smooths() == switch_value(smooth),
            reader.window() == Seq::<u32>::empty(),
            !reader.finished(),
    {
        let import_sensor = match import_sensor {
            Some(name) => name,
            None => String::new(),
        };
        let export_sensor = match export_sensor {
            Some(name) => name,
            None => String::new(),
        };
        let should_smooth = parse_bool_safe(smooth);
        Self {
            import_sensor,
            export_sensor,
            should_smooth,
            filtered_offset: RollingAverage::default(),
            finished: false,
        }
    }

    /// The name of the import sensor.
    pub fn import_sensor(&self) -> (name: &String)
        ensures
            name@ == self.import_name(),
    {
        &self.import_sensor
    }

    /// The name of the export sensor.
    pub fn export_sensor(&self) -> (name: &String)
        ensures
            name@ == self.export_name(),
    {
        &self.export_sensor
    }

    /// Whether offsets go through the filter.
    pub fn should_smooth(&self) -> (on: bool)
        ensures
            on == self.smooths(),
    {
        self.should_smooth
    }

    /// The number of values in the filter's window.
    pub fn window_len(&self) -> (n: usize)
        ensures
            n == self.window().len(),
    {
        self.filtered_offset.len()
    }

    /// Says what the reader does next. With no sensor configured it sends
    /// one zero offset, once, and is finished from then on; with a sensor
    /// configured it polls.
    pub fn run(&mut self) -> (plan: RunPlan)
        ensures
            plan == run_plan(old(self).configured(), old(self).finished()),
            final(self).finished() == (old(self).finished() || !old(self).configured()),
            final(self).import_name() == old(self).import_name(),
            final(self).export_name() == old(self).export_name(),
            final(self).smooths() == old(self).smooths(),
            final(self).window() == old(self).window(),
    {
        if self.import_sensor.as_str().is_empty() && self.export_sensor.as_str().is_empty() {
            if self.finished {
                RunPlan::Finished
            } else {
                self.finished = true;
                RunPlan::SendOnce(ZERO_OFFSET)
            }
        } else {
            RunPlan::Poll
        }
    }

    /// The sample that a cycle sends.
    pub fn sample(outcome: Result<u32, SensorError>) -> (offset: u32)
        ensures
            offset == sample_of(outcome),
    {
        match outcome {
            Ok(offset) => offset,
            Err(_) => ZERO_OFFSET,
        }
    }

    /// What follows the attempt number `attempt` of a cycle, counted from 1.
    pub fn read_offset_with_retry(attempt: u32, outcome: Result<u32, SensorError>) -> (step:
        RetryStep)
        ensures
            step == retry_step(attempt, outcome),
    {
        match outcome {
            Ok(offset) => RetryStep::Done(offset),
            Err(e) => {
                if attempt < MAX_RETRIES {
                    RetryStep::RetryAfterMs(RETRY_DELAY_MS * (attempt as u64))
                } else {
                    RetryStep::GiveUp(e)
                }
            },
        }
    }

    /// The value of a sensor that needs no request: zero for a sensor
    /// without a name, and nothing for a sensor that has to be asked.
    pub fn read_sensor_value(sensor_name: &str) -> (value: Option<u32>)
        ensures
            value == if sensor_name@.len() == 0 {
                Some(ZERO_OFFSET)
            } else {
                None
            },
    {
        if sensor_name.is_empty() {
            Some(ZERO_OFFSET)
        } else {
            None
        }
    }

    /// Takes the raw offset of a cycle, import less export: it is sent as it
    /// is, or enters the filter where offsets are smoothed.
    pub fn read_offset(&mut self, raw_offset: u32) -> (offset: Offset)
        ensures
            offset == if old(self).smooths() {
                Offset::Smoothed(
                    SumStep { evicted: leaving(old(self).window()), added: raw_offset },
                )
            } else {
                Offset::Raw(raw_offset)
            },
            final(self).window() == if old(self).smooths() {
                slide(old(self).window(), raw_offset)
            } else {
                old(self).window()
            },
            final(self).import_name() == old(self).import_name(),
            final(self).export_name() == old(self).export_name(),
            final(self).smooths() == old(self).smooths(),
            final(self).finished() == old(self).finished(),
    {
        if self.should_smooth {
            Offset::Smoothed(self.filtered_offset.add(raw_offset))
        } else {
            Offset::Raw(raw_offset)
        }
    }

    /// The smoothed offset to send, where `mean` is the running sum divided
    /// by the size of the window.
    pub fn smoothed_offset(&self, mean: u32) -> (offset: u32)
        ensures
            offset == reported(self.window(), mean),
    {
        self.filtered_offset.average(mean)
    }
}

/// What a reader does next, given whether a sensor is configured and whether
/// it has finished.
pub open spec fn run_plan(configured: bool, finished: bool) -> RunPlan {
    if configured {
        RunPlan::Poll
    } else if finished {
        RunPlan::Finished
    } else {
        RunPlan::SendOnce(ZERO_OFFSET)
    }
}

/// Whether a new reader has finished after it was asked `n` times what to
/// do next.
pub open spec fn finished_after(configured: bool, n: nat) -> bool
    decreases n,
{
    if n == 0 {
        false
    } else {
        finished_after(configured, (n - 1) as nat) || !configured
    }
}

/// What a new reader answers when it is asked `n` times in a row what to do
/// next.
pub open spec fn plans(configured: bool, n: nat) -> Seq<RunPlan>
    decreases n,
{
    if n == 0 {
        Seq::empty()
    } else {
        plans(configured, (n - 1) as nat).push(
            run_plan(configured, finished_after(configured, (n - 1) as nat)),
        )
    }
}

/// A reader without a sensor sends exactly one zero offset, the first time
/// it is asked, and nothing ever after; it never polls.
pub proof fn lemma_unconfigured_sends_one_zero(n: nat)
    ensures
        plans(false, n).len() == n,
        forall|i: int|
            0 <= i < n ==> #[trigger] plans(false, n)[i] == if i == 0 {
                RunPlan::SendOnce(ZERO_OFFSET)
            } else {
                RunPlan::Finished
            },
        ZERO_OFFSET == 0,
    decreases n,
{
    if n > 0 {
        lemma_unconfigured_sends_one_zero((n - 1) as nat);
        if n > 1 {
            assert(finished_after(false, (n - 1) as nat));
        }
    }
}

/// A reader with a sensor polls whenever it is asked and never finishes.
pub proof fn lemma_configured_polls(n: nat)
    ensures
        !finished_after(true, n),
        plans(true, n).len() == n,
        forall|i: int| 0 <= i < n ==> #[trigger] plans(true, n)[i] == RunPlan::Poll,
    decreases n,
{
    if n > 0 {
        lemma_configured_polls((n - 1) as nat);
    }
}

} // verus!
