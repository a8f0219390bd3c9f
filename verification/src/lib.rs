//! Timed key-delivery engine for sending keystrokes to a named running
//! process on a configured schedule.
//!
//! The library holds the verified core: key-identifier resolution, the
//! schedule model with its validation rules, and the state machines that
//! drive delivery — bounded-retry process acquisition, the ordered
//! sequence loop, the independent per-key timers, and the single-flight
//! handle refresh that serialises re-acquisition after a lost target.
//! Process enumeration goes through the `sysinfo` crate behind a narrow
//! trusted boundary; everything that decides or computes is verified.
//!
//! The surrounding binary performs the outside work the machines ask
//! for — sleeping, injecting keys, reading the pause signal — and feeds
//! the results back in as events.

pub mod acquire;
pub mod config;
pub mod error;
pub mod independent;
pub mod key_sender;
pub mod keys;
pub mod process_finder;
pub mod refresh;
pub mod sequence;

pub use config::Config;
pub use error::PksError;
pub use key_sender::KeySender;
pub use process_finder::ProcessFinder;
