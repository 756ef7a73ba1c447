//! Measurements as integers.
//!
//! A measured quantity (°C, m/s, mm, %) is a finite double-precision number.
//! The library never computes with it, it only compares, so it is carried as
//! the integer that orders like it: the bit pattern of the number for numbers
//! from zero up, and the negated bit pattern of its magnitude below zero.
use vstd::prelude::*;

verus! {

pub type Reading = i64;

/// A reading together with the text under which reports print it.
#[derive(Debug, PartialEq, Eq)]
pub struct Measured {
    pub reading: Reading,
    pub text: String,
}

impl Measured {
    /// The same reading and text.
    pub fn copied(&self) -> (copy: Measured)
        ensures
            copy.reading == self.reading,
            copy.text@ == self.text@,
    {
        Measured { reading: self.reading, text: self.text.clone() }
    }
}

/// The reading of 0.
pub const ZERO: Reading = 0;

/// The larger of two readings.
pub open spec fn larger(a: Reading, b: Reading) -> Reading {
    if a < b {
        b
    } else {
        a
    }
}

} // verus!
