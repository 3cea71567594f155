//! The element type of the 32-element finite field GF(32).

use vstd::prelude::*;

verus! {

/// A single element of GF(32): an integer value in `[0, 31]`, the atomic
/// symbol of the checksum computation.
#[derive(Clone, Copy, Debug, PartialEq, Eq, Structural)]
pub struct Fe32 {
    value: u8,
}

impl Fe32 {
    /// The numeric value of this field element.
    pub closed spec fn spec_value(self) -> u8 {
        self.value
    }

    /// Every field element holds a value below 32.
    #[verifier::type_invariant]
    pub open spec fn inv(self) -> bool {
        self.spec_value() < 32
    }

    /// Builds the field element with the given numeric value; `None` for
    /// values outside the field's domain `[0, 31]`.
    pub fn new(value: u8) -> (r: Option<Fe32>)
        ensures
            r is Some <==> value < 32,
            r is Some ==> r.unwrap().spec_value() == value,
    {
        if value < 32 {
            Some(Fe32 { value })
        } else {
            None
        }
    }

    /// Builds a field element from a value already known to be in range.
    pub(crate) fn from_checked(value: u8) -> (r: Fe32)
        requires
            value < 32,
        ensures
            r.spec_value() == value,
    {
        Fe32 { value }
    }

    /// The distinguished separator element, of numeric value 0, used by the
    /// prefix sequencer to delimit the two passes over the prefix bytes.
    pub fn q() -> (r: Fe32)
        ensures
            r.spec_value() == 0,
    {
        Fe32 { value: 0 }
    }

    /// Returns the numeric value of this field element, always below 32.
    pub fn value(&self) -> (r: u8)
        ensures
            r == self.spec_value(),
            r < 32,
    {
        proof {
            use_type_invariant(self);
        }
        self.value
    }
}

} // verus!
