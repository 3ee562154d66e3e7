//! The reader of the primary source: what it asks of the meter device, how
//! it decodes the answer, when it reconnects and when it gives up.
//!
//! The reader here makes no connection itself. It is told what the
//! transport did and says what follows from it.

use crate::words::{join_words, merge_words};
use vstd::prelude::*;
use vstd::string::StringExecFns;

verus! {

/// The first of the input registers that hold the total active power.
pub const TOTAL_POWER_REGISTER: u16 = 1013;

/// The number of registers that hold the total active power.
pub const TOTAL_POWER_WORDS: u16 = 2;

/// The time between two read cycles, in milliseconds.
pub const READ_INTERVAL_MS: u64 = 500;

/// The number of failed read cycles in a row at which a reader stops, unless
/// it was made with another.
pub const MAX_CONSECUTIVE_ERRORS: u32 = 10;

/// The number of connection attempts in one reconnect cycle.
pub const MAX_RETRIES: u32 = 3;

/// Converts two u16 values into one pattern, the first being the lower half.
pub fn merge_u16_f32(low: u16, high: u16) -> (bits: u32)
    ensures
        bits == join_words(high, low),
{
    merge_words(high, low)
}

/// How the transport failed to deliver registers.
#[derive(Debug, Clone, Copy, PartialEq, Eq, Structural)]
pub enum TransportError {
    /// The device answered with an exception.
    Exception,
    /// The request or its answer was lost on the way.
    Io,
}

/// Why a read cycle gave no power sample.
#[derive(Debug, Clone, Copy, PartialEq, Eq, Structural)]
pub enum ReadError {
    /// No connection could be made.
    NoConnection,
    /// The device answered with too few registers.
    NoData,
    /// The read failed on the transport.
    ReadFailed(TransportError),
}

impl ReadError {
    /// The text that describes the error.
    pub open spec fn text(self) -> Seq<char> {
        match self {
            ReadError::NoConnection => "No connection available"@,
            ReadError::NoData => "No power data received"@,
            ReadError::ReadFailed(TransportError::Exception) =>
                "Modbus read failed: Modbus exception"@,
            ReadError::ReadFailed(TransportError::Io) => "Modbus read failed: IO error"@,
        }
    }

    /// The text that describes the error.
    pub fn message(&self) -> (text: String)
        ensures
            text@ == self.text(),
    {
        match self {
            ReadError::NoConnection => String::from_str("No connection available"),
            ReadError::NoData => String::from_str("No power data received"),
            ReadError::ReadFailed(TransportError::Exception) => String::from_str(
                "Modbus read failed: Modbus exception",
            ),
            ReadError::ReadFailed(TransportError::Io) => String::from_str(
                "Modbus read failed: IO error",
            ),
        }
    }
}

/// What follows one connection attempt.
#[derive(Debug, Clone, Copy, PartialEq, Eq, Structural)]
pub enum ConnectStep {
    /// The attempt succeeded.
    Connected,
    /// The attempt failed: wait this many seconds, then try again.
    RetryAfterSecs(u64),
    /// The attempt failed and was the last of its cycle.
    GiveUp,
}

/// The wait after the failed attempt number `attempt`, counted from 1: one
/// second after the first and twice the wait before after each later one.
pub open spec fn backoff_secs(attempt: nat) -> nat
    decreases attempt,
{
    if attempt <= 1 {
        1
    } else {
        2 * backoff_secs((attempt - 1) as nat)
    }
}

/// What follows the attempt number `attempt`, counted from 1.
pub open spec fn connect_step(attempt: u32, succeeded: bool) -> ConnectStep {
    if succeeded {
        ConnectStep::Connected
    } else if attempt < MAX_RETRIES {
        ConnectStep::RetryAfterSecs(backoff_secs(attempt as nat) as u64)
    } else {
        ConnectStep::GiveUp
    }
}

/// The power sample in the registers that the device sent: their first two
/// words, the low word first, or nothing where there are fewer than two.
pub open spec fn decode_total_power(registers: Seq<u16>) -> Option<u32> {
    if registers.len() >= 2 {
        Some(join_words(registers[1], registers[0]))
    } else {
        None
    }
}

/// The outcome of a read cycle, given what the transport delivered; `None`
/// stands for a cycle in which no connection could be made.
pub open spec fn read_outcome(reply: Option<Result<Seq<u16>, TransportError>>) -> Result<
    u32,
    ReadError,
> {
    match reply {
        None => Err(ReadError::NoConnection),
        Some(Err(e)) => Err(ReadError::ReadFailed(e)),
        Some(Ok(registers)) => match decode_total_power(registers) {
            Some(power) => Ok(power),
            None => Err(ReadError::NoData),
        },
    }
}

/// What the reader does at the end of a read cycle.
#[derive(Debug, Clone, Copy, PartialEq, Eq, Structural)]
pub enum RunStep {
    /// Send this power sample on.
    Send(u32),
    /// Send nothing and go on with the next cycle.
    Continue,
    /// Stop reading for good.
    Stop,
}

/// The state of a reader as a mathematical value.
pub ghost struct ReaderState {
    /// A connection is held.
    pub connected: bool,
    /// The number of read cycles that have failed in a row.
    pub consecutive_errors: nat,
    /// The number of failed read cycles in a row at which the reader stops.
    pub ceiling: nat,
    /// The reader has stopped for good.
    pub stopped: bool,
}

impl ReaderState {
    /// The state of a new reader that stops at `ceiling` failures in a row.
    pub open spec fn initial(ceiling: nat) -> ReaderState {
        ReaderState { connected: false, consecutive_errors: 0, ceiling, stopped: false }
    }

    /// The state after a read cycle in which the transport delivered `reply`.
    pub open spec fn after_read(
        self,
        reply: Option<Result<Seq<u16>, TransportError>>,
    ) -> ReaderState {
        ReaderState { connected: reply matches Some(Ok(_)), ..self }
    }

    /// The state after a read cycle has ended with `outcome`.
    pub open spec fn after_cycle(self, outcome: Result<u32, ReadError>) -> ReaderState {
        if self.stopped {
            self
        } else if outcome is Ok {
            ReaderState { consecutive_errors: 0, ..self }
        } else if self.consecutive_errors + 1 >= self.ceiling {
            ReaderState { consecutive_errors: self.consecutive_errors + 1, stopped: true, ..self }
        } else {
            ReaderState {
                consecutive_errors: self.consecutive_errors + 1,
                connected: false,
                ..self
            }
        }
    }

    /// What the reader does at the end of a read cycle that has brought it
    /// to this state with `outcome`.
    pub open spec fn step(self, outcome: Result<u32, ReadError>) -> RunStep {
        if self.stopped {
            RunStep::Stop
        } else {
            match outcome {
                Ok(power) => RunStep::Send(power),
                Err(_) => RunStep::Continue,
            }
        }
    }

    /// The state after a sample was handed to the consumer, `delivered`
    /// saying whether the consumer took it.
    pub open spec fn after_send(self, delivered: bool) -> ReaderState {
        if delivered {
            self
        } else {
            ReaderState { stopped: true, ..self }
        }
    }
}

/// The reader of the primary source.
#[derive(Debug)]
pub struct ShellyReader {
    connected: bool,
    consecutive_errors: u32,
    max_consecutive_errors: u32,
    stopped: bool,
}

impl View for ShellyReader {
    type V = ReaderState;

    closed spec fn view(&self) -> ReaderState {
        ReaderState {
            connected: self.connected,
            consecutive_errors: self.consecutive_errors as nat,
            ceiling: self.max_consecutive_errors as nat,
            stopped: self.stopped,
        }
    }
}

impl ShellyReader {
    #[verifier::type_invariant]
    spec fn well_formed(&self) -> bool {
        !self.stopped ==> self.consecutive_errors == 0 || self.consecutive_errors
            < self.max_consecutive_errors
    }

    /// A reader that holds no connection, has seen no failure, and stops at
    /// `MAX_CONSECUTIVE_ERRORS` failures in a row.
    pub fn new() -> (reader: Self)
        ensures
            reader@ == ReaderState::initial(MAX_CONSECUTIVE_ERRORS as nat),
    {
        Self::with_ceiling(MAX_CONSECUTIVE_ERRORS)
    }

    /// A reader that holds no connection, has seen no failure, and stops at
    /// `max_consecutive_errors` failures in a row.
    pub fn with_ceiling(max_consecutive_errors: u32) -> (reader: Self)
        ensures
            reader@ == ReaderState::initial(max_consecutive_errors as nat),
    {
        Self { connected: false, consecutive_errors: 0, max_consecutive_errors, stopped: false }
    }

    /// Whether a connection has to be made before the next read.
    pub fn needs_connection(&self) -> (needed: bool)
        ensures
            needed == !self@.connected,
    {
        !self.connected
    }

    /// Whether the reader has stopped for good.
    pub fn is_stopped(&self) -> (stopped: bool)
        ensures
            stopped == self@.stopped,
    {
        self.stopped
    }

    /// The number of read cycles that have failed in a row.
    pub fn consecutive_errors(&self) -> (n: u32)
        ensures
            n == self@.consecutive_errors,
    {
        self.consecutive_errors
    }

    /// What follows the connection attempt number `attempt` of a reconnect
    /// cycle, counted from 1.
    pub fn connect_with_retry(attempt: u32, succeeded: bool) -> (step: ConnectStep)
        requires
            attempt >= 1,
        ensures
            step == connect_step(attempt, succeeded),
    {
        if succeeded {
            ConnectStep::Connected
        } else if attempt < MAX_RETRIES {
            let shift: u32 = attempt - 1;
            let delay: u64 = 1u64 << shift;
            assert(delay == backoff_secs(attempt as nat)) by {
                assert(1u64 << 0u32 == 1) by (bit_vector);
                assert(1u64 << 1u32 == 2) by (bit_vector);
                reveal_with_fuel(backoff_secs, 3);
            }
            ConnectStep::RetryAfterSecs(delay)
        } else {
            ConnectStep::GiveUp
        }
    }

    /// Decodes what the transport delivered for the read of the total power.
    pub fn read_total_power(reply: Result<Vec<u16>, TransportError>) -> (res: Result<
        Option<u32>,
        TransportError,
    >)
        ensures
            res == match reply {
                Ok(registers) => Ok(decode_total_power(registers@)),
                Err(e) => Err(e),
            },
    {
        match reply {
            Ok(total_readings) => {
                if total_readings.len() >= 2 {
                    Ok(Some(merge_u16_f32(total_readings[0], total_readings[1])))
                } else {
                    Ok(None)
                }
            },
            Err(e) => Err(e),
        }
    }

    /// Ends the read of one cycle: `reply` is what the transport delivered,
    /// or `None` where no connection could be made. A failed transport costs
    /// the connection.
    pub fn read_power_with_retry(&mut self, reply: Option<Result<Vec<u16>, TransportError>>) -> (res:
        Result<u32, ReadError>)
        ensures
            res == read_outcome(reply_view(reply)),
            final(self)@ == old(self)@.after_read(reply_view(reply)),
    {
        proof {
            use_type_invariant(&*self);
        }
        match reply {
            None => {
                self.connected = false;
                Err(ReadError::NoConnection)
            },
            Some(reply) => {
                self.connected = reply.is_ok();
                match Self::read_total_power(reply) {
                    Ok(Some(power)) => Ok(power),
                    Ok(None) => Err(ReadError::NoData),
                    Err(e) => Err(ReadError::ReadFailed(e)),
                }
            },
        }
    }

    /// Ends one read cycle: a sample is sent on and clears the count of
    /// failures; a failure is counted, costs the connection, and stops the
    /// reader when it is the last that the reader bears in a row.
    pub fn run(&mut self, outcome: Result<u32, ReadError>) -> (step: RunStep)
        ensures
            final(self)@ == old(self)@.after_cycle(outcome),
            step == final(self)@.step(outcome),
    {
        proof {
            use_type_invariant(&*self);
        }
        if self.stopped {
            return RunStep::Stop;
        }
        match outcome {
            Ok(power) => {
                self.consecutive_errors = 0;
                RunStep::Send(power)
            },
            Err(_) => {
                if self.consecutive_errors + 1 >= self.max_consecutive_errors {
                    self.stopped = true;
                    self.consecutive_errors = self.consecutive_errors + 1;
                    RunStep::Stop
                } else {
                    self.consecutive_errors = self.consecutive_errors + 1;
                    self.connected = false;
                    RunStep::Continue
                }
            },
        }
    }

    /// Records whether the consumer took the sample that was sent: a
    /// consumer that is gone stops the reader.
    pub fn sent(&mut self, delivered: bool) -> (step: RunStep)
        ensures
            final(self)@ == old(self)@.after_send(delivered),
            step == if final(self)@.stopped {
                RunStep::Stop
            } else {
                RunStep::Continue
            },
    {
        proof {
            use_type_invariant(&*self);
        }
        if !delivered {
            self.stopped = true;
        }
        if self.stopped {
            RunStep::Stop
        } else {
            RunStep::Continue
        }
    }
}

/// The state of a new reader with the ceiling `ceiling` after the read
/// cycles of `outcomes`, first to last, every sample having been taken by
/// the consumer.
pub open spec fn after_cycles(ceiling: nat, outcomes: Seq<Result<u32, ReadError>>) -> ReaderState
    decreases outcomes.len(),
{
    if outcomes.len() == 0 {
        ReaderState::initial(ceiling)
    } else {
        after_cycles(ceiling, outcomes.drop_last()).after_cycle(outcomes.last())
    }
}

/// The number of failures at the end of `outcomes` with no success after
/// them.
pub open spec fn trailing_failures(outcomes: Seq<Result<u32, ReadError>>) -> nat
    decreases outcomes.len(),
{
    if outcomes.len() == 0 || outcomes.last() is Ok {
        0
    } else {
        1 + trailing_failures(outcomes.drop_last())
    }
}

/// Some run of `ceiling` failures in a row, and at least one failure, ends
/// within `outcomes`.
pub open spec fn ceiling_reached(ceiling: nat, outcomes: Seq<Result<u32, ReadError>>) -> bool {
    exists|k: int|
        0 <= k <= outcomes.len() && 0 < #[trigger] trailing_failures(outcomes.take(k))
            && trailing_failures(outcomes.take(k)) >= ceiling
}

/// A reader whose samples are all taken stops exactly when as many read
/// cycles as its ceiling have failed in a row; until then it counts the
/// failures since the last success, and its ceiling stays what it was.
pub proof fn lemma_stops_at_failure_ceiling(ceiling: nat, outcomes: Seq<Result<u32, ReadError>>)
    ensures
        after_cycles(ceiling, outcomes).stopped <==> ceiling_reached(ceiling, outcomes),
        !after_cycles(ceiling, outcomes).stopped ==> after_cycles(
            ceiling,
            outcomes,
        ).consecutive_errors == trailing_failures(outcomes),
        after_cycles(ceiling, outcomes).ceiling == ceiling,
    decreases outcomes.len(),
{
    if outcomes.len() == 0 {
        assert forall|k: int| 0 <= k <= outcomes.len() implies #[trigger] trailing_failures(
            outcomes.take(k),
        ) == 0 by {
            assert(outcomes.take(k).len() == 0);
        }
    } else {
        let front = outcomes.drop_last();
        lemma_stops_at_failure_ceiling(ceiling, front);
        assert(outcomes.take(outcomes.len() as int) =~= outcomes);
        assert(front.take(front.len() as int) =~= front);
        assert forall|k: int| 0 <= k <= front.len() implies #[trigger] outcomes.take(k)
            == front.take(k) by {
            assert(outcomes.take(k) =~= front.take(k));
        }
        if ceiling_reached(ceiling, front) {
            let k = choose|k: int|
                0 <= k <= front.len() && 0 < #[trigger] trailing_failures(front.take(k))
                    && trailing_failures(front.take(k)) >= ceiling;
            assert(trailing_failures(outcomes.take(k)) >= ceiling);
        } else {
            assert(!(0 < trailing_failures(front.take(front.len() as int))
                && trailing_failures(front.take(front.len() as int)) >= ceiling));
        }
        if after_cycles(ceiling, outcomes).stopped && !after_cycles(ceiling, front).stopped {
            assert(trailing_failures(outcomes.take(outcomes.len() as int)) >= ceiling);
        }
        if ceiling_reached(ceiling, outcomes) && !ceiling_reached(ceiling, front) {
            let k = choose|k: int|
                0 <= k <= outcomes.len() && 0 < #[trigger] trailing_failures(outcomes.take(k))
                    && trailing_failures(outcomes.take(k)) >= ceiling;
            if k <= front.len() {
                assert(trailing_failures(front.take(k)) >= ceiling);
            }
        }
    }
}

/// What the transport delivered as a mathematical value.
pub open spec fn reply_view(reply: Option<Result<Vec<u16>, TransportError>>) -> Option<
    Result<Seq<u16>, TransportError>,
> {
    match reply {
        None => None,
        Some(Ok(registers)) => Some(Ok(registers@)),
        Some(Err(e)) => Some(Err(e)),
    }
}

} // verus!
