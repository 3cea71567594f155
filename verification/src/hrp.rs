//! The contextual prefix and its field-element sequencer.
//!
//! A checksum binds an optional human-readable prefix into the residue by
//! feeding a fixed sequence of field elements derived from the prefix's
//! lower-cased bytes: first every byte's top three bits, then one
//! separator element, then every byte's bottom five bits.

use vstd::prelude::*;

use crate::field::Fe32;

verus! {

/// A contextual prefix: a byte string, already lower-cased by its owner.
///
/// The checksum core performs no case folding of its own; it trusts the
/// caller to hand over the lower-cased bytes of the prefix.
pub struct Hrp {
    bytes: Vec<u8>,
}

impl View for Hrp {
    type V = Seq<u8>;

    closed spec fn view(&self) -> Seq<u8> {
        self.bytes@
    }
}

impl Hrp {
    /// The sequencer walks the prefix twice and yields one separator, so
    /// twice the byte count plus one must fit the machine word.
    #[verifier::type_invariant]
    pub open spec fn inv(self) -> bool {
        2 * self@.len() + 1 <= usize::MAX
    }

    /// Wraps the given lower-cased bytes as a prefix; `None` when the byte
    /// count is so large that the sequencer's element count, twice the
    /// byte count plus one, would not fit the machine word.
    pub fn new(bytes: Vec<u8>) -> (r: Option<Hrp>)
        ensures
            r is Some <==> 2 * bytes@.len() + 1 <= usize::MAX,
            r is Some ==> r.unwrap()@ == bytes@,
    {
        if bytes.len() <= (usize::MAX - 1) / 2 {
            Some(Hrp { bytes })
        } else {
            None
        }
    }

    /// The number of bytes in the prefix.
    pub fn len(&self) -> (r: usize)
        ensures
            r == self@.len(),
    {
        self.bytes.len()
    }

    /// The prefix byte at position `i`.
    pub fn byte_at(&self, i: usize) -> (r: u8)
        requires
            i < self@.len(),
        ensures
            r == self@[i as int],
    {
        self.bytes[i]
    }
}

/// The field-element values that a prefix feeds into a checksum, in order:
/// the top three bits of each byte, one separator (value 0), then the
/// bottom five bits of each byte. The length is twice the byte count
/// plus one.
pub open spec fn hrp_fes(bytes: Seq<u8>) -> Seq<u8> {
    Seq::new(
        2 * bytes.len() + 1,
        |i: int|
            if i < bytes.len() {
                bytes[i] >> 5u8
            } else if i == bytes.len() {
                0u8
            } else {
                bytes[i - bytes.len() - 1] & 0x1f
            },
    )
}

/// Sequencer law: for a prefix of n bytes the sequence has exactly 2n + 1
/// elements; the first n are the bytes' top three bits in order, element n
/// is the separator, and the last n are the bytes' bottom five bits in
/// order.
pub proof fn lemma_hrp_fes_shape(bytes: Seq<u8>)
    ensures
        hrp_fes(bytes).len() == 2 * bytes.len() + 1,
        forall|i: int| 0 <= i < bytes.len() ==> hrp_fes(bytes)[i] == bytes[i] >> 5u8,
        hrp_fes(bytes)[bytes.len() as int] == 0,
        forall|i: int|
            0 <= i < bytes.len() ==> hrp_fes(bytes)[bytes.len() + 1 + i] == (bytes[i] & 0x1f),
{
}

/// Yields, on demand, the field elements that a prefix feeds into a
/// checksum, in the order given by [`hrp_fes`]. Restartable by
/// constructing a fresh sequencer over the same prefix.
pub struct HrpFe32Iter<'hrp> {
    hrp: &'hrp Hrp,
    pos: usize,
}

impl<'hrp> HrpFe32Iter<'hrp> {
    /// The bytes of the prefix this sequencer walks.
    pub closed spec fn spec_hrp(self) -> Seq<u8> {
        self.hrp@
    }

    /// The position never runs past the end of the sequence.
    #[verifier::type_invariant]
    pub open spec fn inv(self) -> bool {
        self.spec_pos() <= 2 * self.spec_hrp().len() + 1
    }

    /// How many elements have been yielded so far.
    pub closed spec fn spec_pos(self) -> usize {
        self.pos
    }

    /// Starts the sequence of field elements of `hrp` as they are fed into
    /// the checksum algorithm.
    pub fn new(hrp: &'hrp Hrp) -> (r: Self)
        ensures
            r.spec_hrp() == hrp@,
            r.spec_pos() == 0,
    {
        HrpFe32Iter { hrp, pos: 0 }
    }

    /// Yields the next field element of the sequence, or `None` once all
    /// `2n + 1` elements are out.
    pub fn next(&mut self) -> (r: Option<Fe32>)
        ensures
            final(self).spec_hrp() == old(self).spec_hrp(),
            old(self).spec_pos() < hrp_fes(old(self).spec_hrp()).len() ==> {
                &&& r is Some
                &&& r.unwrap().spec_value() == hrp_fes(old(self).spec_hrp())[old(
                    self,
                ).spec_pos() as int]
                &&& final(self).spec_pos() == old(self).spec_pos() + 1
            },
            old(self).spec_pos() >= hrp_fes(old(self).spec_hrp()).len() ==> {
                &&& r is None
                &&& final(self).spec_pos() == old(self).spec_pos()
            },
    {
        proof {
            use_type_invariant(&*self);
            use_type_invariant(&*self.hrp);
        }
        let n = self.hrp.len();
        if self.pos < n {
            let b = self.hrp.byte_at(self.pos);
            self.pos = self.pos + 1;
            proof {
                assert(b >> 5u8 < 32) by (bit_vector);
            }
            Some(Fe32::from_checked(b >> 5))
        } else if self.pos == n {
            self.pos = self.pos + 1;
            Some(Fe32::q())
        } else if self.pos - n - 1 < n {
            let b = self.hrp.byte_at(self.pos - n - 1);
            self.pos = self.pos + 1;
            proof {
                assert(b & 0x1f < 32) by (bit_vector);
            }
            Some(Fe32::from_checked(b & 0x1f))
        } else {
            None
        }
    }

    /// The exact number of field elements still to come: the prefix length
    /// is always known, so this is a precise count, letting callers
    /// pre-size buffers.
    pub fn remaining(&self) -> (r: usize)
        ensures
            r == hrp_fes(self.spec_hrp()).len() - self.spec_pos(),
    {
        proof {
            use_type_invariant(self);
            use_type_invariant(&*self.hrp);
        }
        let n = self.hrp.len();
        2 * n + 1 - self.pos
    }
}

} // verus!
