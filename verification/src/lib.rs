//! Blitz-Load: the decision and statistics core of an HTTP load tester.
//!
//! The engine fires a capped number of requests with a capped number in
//! flight, tallies every outcome, and reports latency percentiles and the
//! spread of request start times. The network, timers and channels live in
//! the application around this crate; everything they decide with lives here.

pub mod stats;
pub mod json;
pub mod ident;
pub mod engine;
pub mod tally;
pub mod text;
pub mod request;
