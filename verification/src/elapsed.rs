//! Elapsed time, as the analyser records it.

use vstd::prelude::*;

verus! {

/// A span of time in whole nanoseconds.
#[derive(Clone, Copy, Debug, PartialEq, Eq, Structural)]
pub struct Elapsed {
    /// The length of the span.
    pub nanos: u128,
}

impl View for Elapsed {
    type V = nat;

    open spec fn view(&self) -> nat {
        self.nanos as nat
    }
}

impl Elapsed {
    /// The span of `nanos` nanoseconds.
    pub fn from_nanos(nanos: u128) -> (span: Elapsed)
        ensures
            span@ == nanos,
    {
        Elapsed { nanos }
    }

    /// The empty span.
    pub fn zero() -> (span: Elapsed)
        ensures
            span@ == 0,
    {
        Elapsed { nanos: 0 }
    }

    /// The length of the span in nanoseconds.
    pub fn as_nanos(&self) -> (nanos: u128)
        ensures
            nanos == self@,
    {
        self.nanos
    }

    /// Whole seconds of the span.
    pub fn as_secs(&self) -> (secs: u128)
        ensures
            secs == self@ / 1_000_000_000,
    {
        self.nanos / 1_000_000_000
    }

    /// What the span holds beyond its whole seconds, in nanoseconds.
    pub fn subsec_nanos(&self) -> (nanos: u32)
        ensures
            nanos == self@ % 1_000_000_000,
    {
        (self.nanos % 1_000_000_000) as u32
    }

    /// The two spans laid end to end, or `None` where that is more than a
    /// span can hold.
    pub fn checked_add(self, other: Elapsed) -> (sum: Option<Elapsed>)
        ensures
            sum is Some <==> self@ + other@ <= u128::MAX,
            sum matches Some(total) ==> total@ == self@ + other@,
    {
        match self.nanos.checked_add(other.nanos) {
            Some(nanos) => Some(Elapsed { nanos }),
            None => None,
        }
    }

    /// The span cut into `parts` equal parts, rounded down to the
    /// nanosecond, or `None` where `parts` is 0.
    pub fn checked_div(self, parts: usize) -> (part: Option<Elapsed>)
        ensures
            part is Some <==> parts > 0,
            part matches Some(share) ==> share@ == self@ / (parts as nat),
    {
        if parts == 0 {
            None
        } else {
            Some(Elapsed { nanos: self.nanos / (parts as u128) })
        }
    }
}

} // verus!
