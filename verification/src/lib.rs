//! Streaming search for a fixed byte sequence, reporting every occurrence
//! together with a bounded window of the bytes around it.
//!
//! The window over the stream is a [`WindowBuffer`]. A scan is driven by a
//! [`ScanDriver`], which is fed the stream in arrival order and never holds
//! more of it than the window; [`scan`] runs one over a stream that is wholly
//! in memory. What a scan reports is stated in [`occurrence`], and what holds
//! of every scan is proved in [`laws`].

pub mod config;
pub mod deque;
pub mod driver;
pub mod error;
pub mod laws;
pub mod matching;
pub mod number;
pub mod occurrence;
pub mod pattern;
pub mod report;
pub mod scan;
pub mod streaming;
pub mod window;

pub use crate::config::{Arguments, Config};
pub use crate::driver::ScanDriver;
pub use crate::error::{ConfigurationFault, ScanError};
pub use crate::occurrence::MatchRecord;
pub use crate::scan::scan;
pub use crate::window::WindowBuffer;
