//! Fixed-point model of a telemetry sample's value.
//!
//! Log values are decimal numbers ("42.5" percentage points or watts). The
//! pipeline only ever rounds them to whole numbers, takes their ceiling,
//! compares them, and prints them, so they are held exactly in thousandths
//! of a unit, which keeps every one of those operations on plain integers.

use vstd::prelude::*;

verus! {

/// The smallest whole number of units not below a value of `m` thousandths:
/// under flooring division, the ceiling of `m / 1000` is `-((-m) / 1000)`.
pub open spec fn spec_ceil_milli(m: int) -> int {
    -((-m) / 1000)
}

/// A decimal value held in thousandths of a unit.
///
/// A well-formed value never holds `i64::MIN`, so its magnitude always fits
/// in an `i64` and in a `u64`.
#[derive(Clone, Copy, PartialEq, Eq, Structural, Debug)]
pub struct Milli {
    pub milli: i64,
}

impl Milli {
    /// Well-formedness: the magnitude of the value fits in `i64`.
    pub open spec fn wf(self) -> bool {
        self.milli != i64::MIN
    }

    /// The value rounded to the nearest whole unit, halves away from zero.
    pub open spec fn spec_round(self) -> int {
        if self.milli >= 0 {
            (self.milli + 500) / 1000
        } else {
            -((-self.milli + 500) / 1000)
        }
    }

    /// The smallest whole number of units not below the value.
    pub open spec fn spec_ceil(self) -> int {
        spec_ceil_milli(self.milli as int)
    }

    /// Rounds to the nearest whole unit, halves away from zero.
    pub fn round(&self) -> (r: i64)
        requires
            self.wf(),
        ensures
            r == self.spec_round(),
    {
        if self.milli >= 0 {
            let mag: u64 = self.milli as u64;
            ((mag + 500) / 1000) as i64
        } else {
            let mag: u64 = (-self.milli) as u64;
            -(((mag + 500) / 1000) as i64)
        }
    }

    /// The smallest whole number of units not below the value.
    pub fn ceil(&self) -> (r: i64)
        requires
            self.wf(),
        ensures
            r == self.spec_ceil(),
    {
        if self.milli >= 0 {
            let mag: u64 = self.milli as u64;
            let r = ((mag + 999) / 1000) as i64;
            proof {
                lemma_ceil_as_offset_div(self.milli as int);
            }
            r
        } else {
            let mag: u64 = (-self.milli) as u64;
            -((mag / 1000) as i64)
        }
    }
}

/// For a non-negative `m`, the ceiling of `m / 1000` equals
/// `(m + 999) / 1000` under flooring division.
proof fn lemma_ceil_as_offset_div(m: int)
    requires
        m >= 0,
    ensures
        -((-m) / 1000) == (m + 999) / 1000,
{
    let q = m / 1000;
    let r = m % 1000;
    assert(m == 1000 * q + r);
    if r == 0 {
        assert((-m) / 1000 == -q) by {
            assert(-m == 1000 * (-q));
        }
        assert((m + 999) / 1000 == q);
    } else {
        assert((-m) / 1000 == -q - 1) by {
            assert(-m == 1000 * (-q - 1) + (1000 - r));
        }
        assert((m + 999) / 1000 == q + 1) by {
            assert(m + 999 == 1000 * (q + 1) + (r - 1));
        }
    }
}

} // verus!
