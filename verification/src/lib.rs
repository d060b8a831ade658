//! Verified core of a descriptive-statistics library.
//!
//! Three engines — incremental (`incr`), batch (`batch`) and cached
//! (`cached`) — compute count, extrema and moment statistics over
//! IEEE-754 binary64 samples.  This crate holds everything about them
//! that can be verified: samples are handled as their raw 64-bit
//! encodings (`f64::to_bits`), which makes validation, ordering,
//! counting and every availability decision (`avail`, `error`) exact
//! integer logic; and the central-moment recurrences the incremental
//! engine runs are proved equivalent to the batch textbook formulas in
//! exact arithmetic (`moments`).  The floating-point evaluation of the
//! moment formulas themselves lives in the unverified application
//! layer, which consults this core for every decision.

pub mod avail;
pub mod batch;
pub mod bits;
pub mod cached;
pub mod error;
pub mod incr;
pub mod moments;
