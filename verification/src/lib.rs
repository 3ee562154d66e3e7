//! A virtual energy meter: two power sources merged into one register table.
//!
//! A primary source reports the power at a meter device, a secondary source
//! reports an offset from two sensors. The combiner keeps the latest sample
//! of each and, once both have been heard from, puts their sum into the
//! register table of a virtual meter, which answers read queries from it.
//!
//! Every measurement is handled as the IEEE-754 binary32 bit pattern of its
//! value. The library moves, stores, splits and joins these patterns and
//! decides what is read, sent, retried and given up; it does no arithmetic
//! on the values and performs no input or output.

pub mod home_assistant;
pub mod home_assistant_reader;
pub mod power_combiner;
pub mod rolling_average;
pub mod shelly_reader;
pub mod smart_meter_emulator;
pub mod words;

pub use home_assistant_reader::HomeAssistantReader;
pub use power_combiner::PowerCombiner;
pub use shelly_reader::ShellyReader;
pub use smart_meter_emulator::{Readings, SmartMeterEmulator};
