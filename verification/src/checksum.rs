//! The immutable configuration of one concrete checksum: its lengths, its
//! precomputed shifted-generator table and its target residue, together
//! with the authoring-time consistency check of those constants.

use vstd::prelude::*;

use crate::packed::PackedFe32;

verus! {

/// Doubling of a field element in GF(32).
///
/// GF(32) is GF(2) extended by a root of `x^5 + x^3 + 1`; written as bit
/// coefficients that defining relation is 41 = 0. Doubling is therefore a
/// left shift by one bit, XORed with 41 whenever the shift overflows the
/// five-bit slot.
pub open spec fn spec_double(v: u8) -> u8 {
    (v << 1u8) ^ (if v & 0x10 == 0x10 {
        41u8
    } else {
        0u8
    })
}

/// The constants defining one concrete checksum.
///
/// An instance is authored once per checksum variant and passed unchanged
/// to every engine computing that checksum. `sanity_check` validates the
/// precomputed table at authoring time; the engine itself never re-checks.
#[derive(Clone, Copy)]
pub struct Checksum<P: PackedFe32> {
    /// Maximum total codeword length (payload plus checksum) for which the
    /// code's error-detection guarantees hold. Not consulted by the engine.
    pub code_length: usize,
    /// Number of trailing checksum symbols: the degree of the generator
    /// polynomial.
    pub checksum_length: usize,
    /// The generator polynomial without its leading monic term, packed
    /// big-endian, followed by its four doublings in the field: the
    /// generator times 1, 2, 4, 8 and 16.
    pub generator_sh: [P; 5],
    /// The residue, modulo the generator, that a valid codeword leaves.
    pub target_residue: P,
}

impl<P: PackedFe32> Checksum<P> {
    /// The configuration fits its packed representation: the checksum
    /// occupies at most the available slots, and a positive-width
    /// representation carries at least one checksum symbol.
    pub open spec fn wf(self) -> bool {
        &&& self.checksum_length <= P::spec_width()
        &&& (P::spec_width() == 0 || 1 <= self.checksum_length)
    }

    /// The stored shifted-generator table is internally consistent: each
    /// entry is the previous one doubled slot-wise in the field.
    pub open spec fn spec_sanity(self) -> bool {
        &&& self.wf()
        &&& forall|i: int, j: usize|
            1 <= i < 5 && j < P::spec_width() ==> #[trigger] self.generator_sh[i].spec_unpack(j)
                == spec_double(self.generator_sh[i - 1].spec_unpack(j))
    }

    /// Checks that the constants of this configuration are consistent with
    /// each other: the checksum fits the packed width, and each entry of
    /// the shifted-generator table doubles the previous one.
    ///
    /// This is an authoring-time validation, meant to run once per concrete
    /// configuration (for instance from that configuration's test suite),
    /// never on the per-message path.
    pub fn sanity_check(&self) -> (r: bool)
        ensures
            r == self.spec_sanity(),
    {
        let w = P::width();
        if self.checksum_length > w {
            return false;
        }
        if w > 0 && self.checksum_length == 0 {
            return false;
        }
        let mut i: usize = 1;
        while i < 5
            invariant
                1 <= i <= 5,
                w == P::spec_width(),
                self.wf(),
                forall|k: int, j: usize|
                    1 <= k < i && j < P::spec_width() ==> #[trigger] self.generator_sh[k].spec_unpack(
                        j,
                    ) == spec_double(self.generator_sh[k - 1].spec_unpack(j)),
            decreases 5 - i,
        {
            let mut j: usize = 0;
            while j < w
                invariant
                    1 <= i < 5,
                    j <= w,
                    w == P::spec_width(),
                    forall|jj: usize|
                        jj < j ==> #[trigger] self.generator_sh[i as int].spec_unpack(jj)
                            == spec_double(self.generator_sh[i - 1].spec_unpack(jj)),
                decreases w - j,
            {
                let last = self.generator_sh[i - 1].unpack(j);
                let curr = self.generator_sh[i].unpack(j);
                let doubled = (last << 1u8) ^ (if last & 0x10 == 0x10 {
                    41u8
                } else {
                    0u8
                });
                if curr != doubled {
                    return false;
                }
                j += 1;
            }
            i += 1;
        }
        true
    }
}

} // verus!
