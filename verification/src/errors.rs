//! Error values of the pipeline.
//!
//! Every stage fails fast: the first error ends the render cycle, and no
//! partial frame is ever produced. Reading the log files and presenting the
//! frame happen outside this crate, so their failures (unreadable file,
//! failed drawing surface) are reported there; the errors here cover the
//! stages this crate computes.

use vstd::prelude::*;

verus! {

/// A malformed log line: fewer than three tab-separated fields, or a
/// first or second field that is not a number the entry model can hold.
#[derive(Clone, Copy, PartialEq, Eq, Structural, Debug)]
pub struct ParseError;

/// A required series, or the last value of one, was empty at the point it
/// was needed.
#[derive(Clone, Copy, PartialEq, Eq, Structural, Debug)]
pub struct NoDataError;

/// No file name matched one of the two per-device history patterns.
#[derive(Clone, Copy, PartialEq, Eq, Structural, Debug)]
pub enum LookupError {
    /// No name carried the charge-history prefix for the device.
    ChargeMissing,
    /// No name carried the rate-history prefix for the device.
    RateMissing,
}

/// A malformed color string: fewer than six digits after the leading hash
/// signs, or a non-hexadecimal digit among the first six.
#[derive(Clone, Copy, PartialEq, Eq, Structural, Debug)]
pub struct ColorError;

} // verus!
