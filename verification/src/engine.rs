//! The checksum engine: polynomial long division over GF(32), one field
//! element at a time.
//!
//! The engine holds one packed residue, starts it at the packed value 1,
//! and folds every fed field element into it. Each step multiplies the
//! residue by the indeterminate, injects the new symbol into the vacated
//! constant slot, and reduces by the generator polynomial — the reduction
//! done as five conditional XORs against the precomputed shifted
//! generators, one per bit of the dropped top coefficient.

use vstd::prelude::*;

use crate::checksum::Checksum;
use crate::field::Fe32;
use crate::hrp::{hrp_fes, Hrp, HrpFe32Iter};
use crate::packed::{PackedFe32, PackedNull};

verus! {

/// The residue after folding one field element of value `e` into residue
/// `r` under configuration `ck`: one round of polynomial long division
/// modulo the generator.
pub open spec fn checksum_step<P: PackedFe32>(ck: Checksum<P>, r: P, e: u8) -> P {
    let dropped = if ck.checksum_length == 0 {
        0u8
    } else {
        r.spec_unpack((ck.checksum_length - 1) as usize)
    };
    let s0 = r.spec_mul_x_add(ck.checksum_length, e);
    let s1 = if dropped & 1 != 0 {
        s0.spec_xor(ck.generator_sh[0])
    } else {
        s0
    };
    let s2 = if dropped & 2 != 0 {
        s1.spec_xor(ck.generator_sh[1])
    } else {
        s1
    };
    let s3 = if dropped & 4 != 0 {
        s2.spec_xor(ck.generator_sh[2])
    } else {
        s2
    };
    let s4 = if dropped & 8 != 0 {
        s3.spec_xor(ck.generator_sh[3])
    } else {
        s3
    };
    if dropped & 16 != 0 {
        s4.spec_xor(ck.generator_sh[4])
    } else {
        s4
    }
}

/// The residue after folding a whole sequence of field-element values
/// into residue `r`, first element first.
pub open spec fn checksum_fold<P: PackedFe32>(ck: Checksum<P>, r: P, s: Seq<u8>) -> P
    decreases s.len(),
{
    if s.len() == 0 {
        r
    } else {
        checksum_fold(ck, checksum_step(ck, r, s[0]), s.subrange(1, s.len() as int))
    }
}

/// The field-element values fed by `input_target_residue`: the target
/// residue unpacked from its highest-degree slot down to slot 0.
pub open spec fn target_residue_fes<P: PackedFe32>(ck: Checksum<P>) -> Seq<u8> {
    Seq::new(
        ck.checksum_length as nat,
        |i: int| ck.target_residue.spec_unpack((ck.checksum_length - 1 - i) as usize),
    )
}

/// A checksum engine, which can be used to compute or verify a checksum.
///
/// Feed it the data to be checksummed with the `input_*` methods, then
/// read the result with `residue`. A complete symbol sequence is a valid
/// codeword exactly when feeding all of it — prefix contribution, payload
/// and trailing checksum symbols — leaves the residue equal to the
/// configuration's target residue; that final comparison belongs to the
/// caller.
pub struct Engine<P: PackedFe32> {
    ck: Checksum<P>,
    residue: P,
}

impl<P: PackedFe32> Engine<P> {
    /// An engine only ever runs over a well-formed configuration.
    #[verifier::type_invariant]
    pub open spec fn inv(self) -> bool {
        self.spec_ck().wf()
    }

    /// The configuration this engine computes under.
    pub closed spec fn spec_ck(self) -> Checksum<P> {
        self.ck
    }

    /// The running residue.
    pub closed spec fn spec_residue(self) -> P {
        self.residue
    }

    /// Constructs a new checksum engine with no data input: its residue is
    /// the packed value 1.
    pub fn new(ck: Checksum<P>) -> (r: Self)
        requires
            ck.wf(),
        ensures
            r.spec_ck() == ck,
            r.spec_residue() == P::spec_one(),
    {
        Engine { ck, residue: P::one() }
    }

    /// Folds a single field element into the residue: one round of the
    /// division, using the five precomputed shifted generators in place of
    /// a runtime field multiplication.
    pub fn input_fe(&mut self, e: Fe32)
        ensures
            final(self).spec_ck() == old(self).spec_ck(),
            final(self).spec_residue() == checksum_step(
                old(self).spec_ck(),
                old(self).spec_residue(),
                e.spec_value(),
            ),
    {
        proof {
            use_type_invariant(&*self);
            use_type_invariant(e);
        }
        let mut res = self.residue;
        let xn = res.mul_by_x_then_add(self.ck.checksum_length, e.value());
        self.residue = res;
        if xn & 1 != 0 {
            self.residue = self.residue.xor(self.ck.generator_sh[0]);
        }
        if xn & 2 != 0 {
            self.residue = self.residue.xor(self.ck.generator_sh[1]);
        }
        if xn & 4 != 0 {
            self.residue = self.residue.xor(self.ck.generator_sh[2]);
        }
        if xn & 8 != 0 {
            self.residue = self.residue.xor(self.ck.generator_sh[3]);
        }
        if xn & 16 != 0 {
            self.residue = self.residue.xor(self.ck.generator_sh[4]);
        }
    }

    /// Feeds the whole prefix contribution of `hrp` into the engine, in
    /// the order the sequencer yields it.
    pub fn input_hrp(&mut self, hrp: &Hrp)
        ensures
            final(self).spec_ck() == old(self).spec_ck(),
            final(self).spec_residue() == checksum_fold(
                old(self).spec_ck(),
                old(self).spec_residue(),
                hrp_fes(hrp@),
            ),
    {
        let ghost ck = self.spec_ck();
        let ghost r0 = self.spec_residue();
        let ghost fes = hrp_fes(hrp@);
        let mut iter = HrpFe32Iter::new(hrp);
        loop
            invariant
                iter.spec_hrp() == hrp@,
                iter.spec_pos() <= fes.len(),
                fes == hrp_fes(hrp@),
                self.spec_ck() == ck,
                self.spec_residue() == checksum_fold(ck, r0, fes.take(iter.spec_pos() as int)),
            ensures
                self.spec_ck() == ck,
                self.spec_residue() == checksum_fold(ck, r0, fes),
            decreases fes.len() - iter.spec_pos(),
        {
            let ghost pos0 = iter.spec_pos();
            match iter.next() {
                Some(fe) => {
                    proof {
                        lemma_fold_take_step(ck, r0, fes, pos0 as int);
                    }
                    self.input_fe(fe);
                },
                None => {
                    proof {
                        assert(pos0 == fes.len());
                        assert(fes.take(pos0 as int) =~= fes);
                    }
                    break ;
                },
            }
        }
    }

    /// Feeds exactly `checksum_length` field elements, unpacked from the
    /// target residue highest-degree slot first.
    ///
    /// Checksums of this family are generated by appending placeholder
    /// symbols equal to the target residue to the message and then
    /// replacing them with the computed trailing symbols; this method
    /// reproduces the placeholders' contribution without building them.
    pub fn input_target_residue(&mut self)
        ensures
            final(self).spec_ck() == old(self).spec_ck(),
            final(self).spec_residue() == checksum_fold(
                old(self).spec_ck(),
                old(self).spec_residue(),
                target_residue_fes(old(self).spec_ck()),
            ),
    {
        let ghost ck = self.spec_ck();
        let ghost r0 = self.spec_residue();
        let ghost fes = target_residue_fes(ck);
        let len = self.ck_checksum_length();
        let mut i: usize = 0;
        while i < len
            invariant
                i <= len,
                self.spec_ck() == ck,
                len == ck.checksum_length,
                fes == target_residue_fes(ck),
                self.spec_residue() == checksum_fold(ck, r0, fes.take(i as int)),
            decreases len - i,
        {
            proof {
                use_type_invariant(&*self);
            }
            let v = self.ck_target_unpack(len - 1 - i);
            let fe = Fe32::from_checked(v);
            proof {
                lemma_fold_take_step(ck, r0, fes, i as int);
            }
            self.input_fe(fe);
            i += 1;
        }
        proof {
            assert(fes.take(len as int) =~= fes);
        }
    }

    /// Returns the current checksum residue, read-only.
    pub fn residue(&self) -> (r: &P)
        ensures
            *r == self.spec_residue(),
    {
        &self.residue
    }

    /// The configured checksum length.
    fn ck_checksum_length(&self) -> (r: usize)
        ensures
            r == self.spec_ck().checksum_length,
    {
        self.ck.checksum_length
    }

    /// One slot of the configured target residue.
    fn ck_target_unpack(&self, n: usize) -> (r: u8)
        requires
            n < self.spec_ck().checksum_length,
        ensures
            r == self.spec_ck().target_residue.spec_unpack(n),
            r < 32,
    {
        proof {
            use_type_invariant(&*self);
        }
        self.ck.target_residue.unpack(n)
    }
}

/// Folding one more element after a prefix of `s` is one step on the fold
/// of that prefix.
pub proof fn lemma_fold_take_step<P: PackedFe32>(ck: Checksum<P>, r: P, s: Seq<u8>, i: int)
    requires
        0 <= i < s.len(),
    ensures
        checksum_fold(ck, r, s.take(i + 1)) == checksum_step(
            ck,
            checksum_fold(ck, r, s.take(i)),
            s[i],
        ),
{
    assert(s.take(i + 1) =~= s.take(i).push(s[i]));
    lemma_fold_snoc(ck, r, s.take(i), s[i]);
}

/// Appending one element to a sequence folds as one extra step.
pub proof fn lemma_fold_snoc<P: PackedFe32>(ck: Checksum<P>, r: P, s: Seq<u8>, e: u8)
    ensures
        checksum_fold(ck, r, s.push(e)) == checksum_step(ck, checksum_fold(ck, r, s), e),
    decreases s.len(),
{
    let t = s.push(e);
    if s.len() == 0 {
        assert(t[0] == e);
        assert(t.subrange(1, 1) =~= Seq::<u8>::empty());
        assert(checksum_fold(ck, r, t) == checksum_fold(
            ck,
            checksum_step(ck, r, e),
            t.subrange(1, 1),
        ));
        assert(checksum_fold(ck, checksum_step(ck, r, e), Seq::<u8>::empty()) == checksum_step(
            ck,
            r,
            e,
        ));
    } else {
        assert(t[0] == s[0]);
        assert(t.subrange(1, s.len() as int + 1) =~= s.subrange(1, s.len() as int).push(e));
        assert(checksum_fold(ck, r, t) == checksum_fold(
            ck,
            checksum_step(ck, r, s[0]),
            t.subrange(1, s.len() as int + 1),
        ));
        lemma_fold_snoc(ck, checksum_step(ck, r, s[0]), s.subrange(1, s.len() as int), e);
        assert(checksum_fold(ck, r, s) == checksum_fold(
            ck,
            checksum_step(ck, r, s[0]),
            s.subrange(1, s.len() as int),
        ));
    }
}

/// Determinism: the residue is a function of the configuration and the
/// fed sequence alone, so feeding the same sequence into two fresh
/// engines over the same configuration leaves identical residues.
pub proof fn lemma_determinism<P: PackedFe32>(ck: Checksum<P>, s: Seq<u8>)
    ensures
        checksum_fold(ck, P::spec_one(), s) == checksum_fold(ck, P::spec_one(), s),
{
}

/// Fold-splitting invariance: feeding a sequence in two consecutive parts
/// leaves the same residue as feeding it in one piece. Splitting into any
/// number of consecutive parts follows by applying this repeatedly.
pub proof fn lemma_fold_split<P: PackedFe32>(ck: Checksum<P>, r: P, s1: Seq<u8>, s2: Seq<u8>)
    ensures
        checksum_fold(ck, r, s1 + s2) == checksum_fold(ck, checksum_fold(ck, r, s1), s2),
    decreases s1.len(),
{
    if s1.len() == 0 {
        assert(s1 + s2 =~= s2);
    } else {
        assert((s1 + s2)[0] == s1[0]);
        assert((s1 + s2).subrange(1, (s1 + s2).len() as int) =~= s1.subrange(1, s1.len() as int)
            + s2);
        lemma_fold_split(ck, checksum_step(ck, r, s1[0]), s1.subrange(1, s1.len() as int), s2);
    }
}

/// The checksum symbols packed in a `u32` residue of a width-filling
/// (six-symbol) checksum, highest-degree slot first: the order in which
/// they are appended to an encoded identifier, and the order in which
/// `input_target_residue` feeds the target residue.
pub open spec fn residue_syms(x: u32) -> Seq<u8> {
    Seq::new(6, |i: int| x.spec_unpack((5 - i) as usize))
}

/// One division round of a width-filling `u32` checksum, written over the
/// raw bit pattern of the residue and the five shifted generators.
#[verifier::opaque]
spec fn step_raw(g0: u32, g1: u32, g2: u32, g3: u32, g4: u32, r: u32, e: u8) -> u32 {
    let dropped = (((r >> 25u32) & 0x1f) as u8);
    let s0 = ((r & !(0x1fu32 << 25u32)) << 5u32) | (e as u32);
    let s1 = if dropped & 1 != 0 {
        s0 ^ g0
    } else {
        s0
    };
    let s2 = if dropped & 2 != 0 {
        s1 ^ g1
    } else {
        s1
    };
    let s3 = if dropped & 4 != 0 {
        s2 ^ g2
    } else {
        s2
    };
    let s4 = if dropped & 8 != 0 {
        s3 ^ g3
    } else {
        s3
    };
    if dropped & 16 != 0 {
        s4 ^ g4
    } else {
        s4
    }
}

/// Six division rounds feeding the slots of `x`, highest first.
#[verifier::opaque]
spec fn fold_syms_raw(g0: u32, g1: u32, g2: u32, g3: u32, g4: u32, r: u32, x: u32) -> u32 {
    let r0 = step_raw(g0, g1, g2, g3, g4, r, (((x >> 25u32) & 0x1f) as u8));
    let r1 = step_raw(g0, g1, g2, g3, g4, r0, (((x >> 20u32) & 0x1f) as u8));
    let r2 = step_raw(g0, g1, g2, g3, g4, r1, (((x >> 15u32) & 0x1f) as u8));
    let r3 = step_raw(g0, g1, g2, g3, g4, r2, (((x >> 10u32) & 0x1f) as u8));
    let r4 = step_raw(g0, g1, g2, g3, g4, r3, (((x >> 5u32) & 0x1f) as u8));
    step_raw(g0, g1, g2, g3, g4, r4, ((x & 0x1f) as u8))
}

/// A step of a width-filling `u32` checksum is `step_raw` on the raw bits.
proof fn lemma_step_raw(ck: Checksum<u32>, r: u32, e: u8)
    requires
        ck.checksum_length == 6,
    ensures
        checksum_step(ck, r, e) == step_raw(
            ck.generator_sh[0],
            ck.generator_sh[1],
            ck.generator_sh[2],
            ck.generator_sh[3],
            ck.generator_sh[4],
            r,
            e,
        ),
{
    reveal(step_raw);
}

/// Folding the six packed symbols of `x` is `fold_syms_raw` on the raw bits.
proof fn lemma_fold_syms_raw(ck: Checksum<u32>, r: u32, x: u32)
    requires
        ck.checksum_length == 6,
    ensures
        checksum_fold(ck, r, residue_syms(x)) == fold_syms_raw(
            ck.generator_sh[0],
            ck.generator_sh[1],
            ck.generator_sh[2],
            ck.generator_sh[3],
            ck.generator_sh[4],
            r,
            x,
        ),
{
    reveal(fold_syms_raw);
    let s = residue_syms(x);
    assert(s.take(0) =~= Seq::<u8>::empty());
    assert(checksum_fold(ck, r, s.take(0)) == r);
    lemma_fold_take_step(ck, r, s, 0);
    lemma_fold_take_step(ck, r, s, 1);
    lemma_fold_take_step(ck, r, s, 2);
    lemma_fold_take_step(ck, r, s, 3);
    lemma_fold_take_step(ck, r, s, 4);
    lemma_fold_take_step(ck, r, s, 5);
    assert(s.take(6) =~= s);
    assert(s[0] == (((x >> 25u32) & 0x1f) as u8));
    assert(s[1] == (((x >> 20u32) & 0x1f) as u8));
    assert(s[2] == (((x >> 15u32) & 0x1f) as u8));
    assert(s[3] == (((x >> 10u32) & 0x1f) as u8));
    assert(s[4] == (((x >> 5u32) & 0x1f) as u8));
    assert(((x >> 0u32) & 0x1f) as u8 == ((x & 0x1f) as u8)) by (bit_vector);
    assert(s[5] == ((x & 0x1f) as u8));
    let w0 = checksum_step(ck, r, s[0]);
    let w1 = checksum_step(ck, w0, s[1]);
    let w2 = checksum_step(ck, w1, s[2]);
    let w3 = checksum_step(ck, w2, s[3]);
    let w4 = checksum_step(ck, w3, s[4]);
    lemma_step_raw(ck, r, s[0]);
    lemma_step_raw(ck, w0, s[1]);
    lemma_step_raw(ck, w1, s[2]);
    lemma_step_raw(ck, w2, s[3]);
    lemma_step_raw(ck, w3, s[4]);
    lemma_step_raw(ck, w4, s[5]);
}

/// Round-trip law for a width-filling (six-symbol) `u32` checksum whose
/// shifted generators and target residue use only the six packed slots:
/// from any residue `w` left by a message, feeding the six packed symbols
/// of the target residue yields a residue whose own six packed symbols,
/// fed to a fresh run of the same message, leave exactly the target
/// residue. In engine terms: generate a checksum with
/// `input_target_residue`, append the symbols it packs, and verification
/// of the completed codeword lands on the target residue.
pub proof fn lemma_round_trip(ck: Checksum<u32>, w: u32)
    requires
        ck.checksum_length == 6,
        ck.target_residue >> 30u32 == 0,
        forall|i: int| 0 <= i < 5 ==> #[trigger] (ck.generator_sh[i] >> 30u32) == 0,
    ensures
        checksum_fold(ck, w, residue_syms(checksum_fold(ck, w, target_residue_fes(ck))))
            == ck.target_residue,
{
    let g0 = ck.generator_sh[0];
    let g1 = ck.generator_sh[1];
    let g2 = ck.generator_sh[2];
    let g3 = ck.generator_sh[3];
    let g4 = ck.generator_sh[4];
    let t = ck.target_residue;
    assert(g0 >> 30u32 == 0);
    assert(g1 >> 30u32 == 0);
    assert(g2 >> 30u32 == 0);
    assert(g3 >> 30u32 == 0);
    assert(g4 >> 30u32 == 0);
    assert(target_residue_fes(ck) =~= residue_syms(t));
    lemma_fold_syms_raw(ck, w, t);
    let r1 = checksum_fold(ck, w, residue_syms(t));
    lemma_fold_syms_raw(ck, w, r1);

    // The fold is GF(2)-linear in (starting residue, fed value), so both
    // runs decompose into a message part Z and a symbol part.
    let z = fold_syms_raw(g0, g1, g2, g3, g4, w, 0);
    lemma_fold_linear(g0, g1, g2, g3, g4, w, 0, 0, t);
    assert(w ^ 0 == w && 0 ^ t == t) by (bit_vector);
    assert(r1 == z ^ fold_syms_raw(g0, g1, g2, g3, g4, 0, t));
    lemma_fold_linear(g0, g1, g2, g3, g4, w, 0, 0, r1);
    let r2 = fold_syms_raw(g0, g1, g2, g3, g4, w, r1);
    assert(0 ^ r1 == r1) by (bit_vector);
    assert(r2 == z ^ fold_syms_raw(g0, g1, g2, g3, g4, 0, r1));

    // From residue 0 the six symbols of a value pass through unreduced,
    // rebuilding the value's low thirty bits.
    lemma_fold_from_zero(g0, g1, g2, g3, g4, t);
    lemma_fold_from_zero(g0, g1, g2, g3, g4, r1);

    // The message part Z is confined to the six slots, so it cancels.
    lemma_fold_clean(g0, g1, g2, g3, g4, w, 0);
    assert(z ^ (z ^ (t & 0x3fffffffu32)) & 0x3fffffffu32 == t) by (bit_vector)
        requires
            z >> 30u32 == 0,
            t >> 30u32 == 0,
    ;
}

/// One division round is GF(2)-linear in the residue and the fed element.
proof fn lemma_step_linear(g0: u32, g1: u32, g2: u32, g3: u32, g4: u32, x: u32, y: u32, e: u8, f: u8)
    requires
        e < 32,
        f < 32,
    ensures
        step_raw(g0, g1, g2, g3, g4, x ^ y, e ^ f) == step_raw(g0, g1, g2, g3, g4, x, e) ^ step_raw(
            g0,
            g1,
            g2,
            g3,
            g4,
            y,
            f,
        ),
{
    reveal(step_raw);
    let dx = (((x >> 25u32) & 0x1f) as u8);
    let dy = (((y >> 25u32) & 0x1f) as u8);
    assert((((x ^ y) >> 25u32) & 0x1f) as u8 == ((((x >> 25u32) & 0x1f) as u8) ^ (((y >> 25u32)
        & 0x1f) as u8))) by (bit_vector);
    let sx = ((x & !(0x1fu32 << 25u32)) << 5u32) | (e as u32);
    let sy = ((y & !(0x1fu32 << 25u32)) << 5u32) | (f as u32);
    assert((((x ^ y) & !(0x1fu32 << 25u32)) << 5u32) | ((e ^ f) as u32) == ((((x & !(0x1fu32
        << 25u32)) << 5u32) | (e as u32)) ^ (((y & !(0x1fu32 << 25u32)) << 5u32) | (f
        as u32)))) by (bit_vector)
        requires
            e < 32,
            f < 32,
    ;
    let t1x = if dx & 1 != 0 {
        sx ^ g0
    } else {
        sx
    };
    let t1y = if dy & 1 != 0 {
        sy ^ g0
    } else {
        sy
    };
    lemma_level_linear(g0, 1, dx, dy, sx, sy);
    let t2x = if dx & 2 != 0 {
        t1x ^ g1
    } else {
        t1x
    };
    let t2y = if dy & 2 != 0 {
        t1y ^ g1
    } else {
        t1y
    };
    lemma_level_linear(g1, 2, dx, dy, t1x, t1y);
    let t3x = if dx & 4 != 0 {
        t2x ^ g2
    } else {
        t2x
    };
    let t3y = if dy & 4 != 0 {
        t2y ^ g2
    } else {
        t2y
    };
    lemma_level_linear(g2, 4, dx, dy, t2x, t2y);
    let t4x = if dx & 8 != 0 {
        t3x ^ g3
    } else {
        t3x
    };
    let t4y = if dy & 8 != 0 {
        t3y ^ g3
    } else {
        t3y
    };
    lemma_level_linear(g3, 8, dx, dy, t3x, t3y);
    lemma_level_linear(g4, 16, dx, dy, t4x, t4y);
}

/// One conditional-XOR level of the reduction cascade is GF(2)-linear,
/// for a single-bit mask.
proof fn lemma_level_linear(g: u32, m: u8, d1: u8, d2: u8, s1: u32, s2: u32)
    requires
        m == 1 || m == 2 || m == 4 || m == 8 || m == 16,
    ensures
        (if ((d1 ^ d2) & m) != 0 {
            (s1 ^ s2) ^ g
        } else {
            s1 ^ s2
        }) == ((if (d1 & m) != 0 {
            s1 ^ g
        } else {
            s1
        }) ^ (if (d2 & m) != 0 {
            s2 ^ g
        } else {
            s2
        })),
{
    assert((if ((d1 ^ d2) & m) != 0 {
        (s1 ^ s2) ^ g
    } else {
        s1 ^ s2
    }) == ((if (d1 & m) != 0 {
        s1 ^ g
    } else {
        s1
    }) ^ (if (d2 & m) != 0 {
        s2 ^ g
    } else {
        s2
    }))) by (bit_vector)
        requires
            m == 1 || m == 2 || m == 4 || m == 8 || m == 16,
    ;
}

/// One division round leaves a residue confined to the six slots whenever
/// the shifted generators are.
proof fn lemma_step_clean(g0: u32, g1: u32, g2: u32, g3: u32, g4: u32, r: u32, e: u8)
    requires
        g0 >> 30u32 == 0,
        g1 >> 30u32 == 0,
        g2 >> 30u32 == 0,
        g3 >> 30u32 == 0,
        g4 >> 30u32 == 0,
        e < 32,
    ensures
        step_raw(g0, g1, g2, g3, g4, r, e) >> 30u32 == 0,
{
    assert(step_raw(g0, g1, g2, g3, g4, r, e) >> 30u32 == 0) by (bit_vector)
        requires
            g0 >> 30u32 == 0,
            g1 >> 30u32 == 0,
            g2 >> 30u32 == 0,
            g3 >> 30u32 == 0,
            g4 >> 30u32 == 0,
            e < 32,
    ;
}

/// Six rounds leave a residue confined to the six slots whenever the
/// shifted generators are.
proof fn lemma_fold_clean(g0: u32, g1: u32, g2: u32, g3: u32, g4: u32, r: u32, x: u32)
    requires
        g0 >> 30u32 == 0,
        g1 >> 30u32 == 0,
        g2 >> 30u32 == 0,
        g3 >> 30u32 == 0,
        g4 >> 30u32 == 0,
    ensures
        fold_syms_raw(g0, g1, g2, g3, g4, r, x) >> 30u32 == 0,
{
    reveal(fold_syms_raw);
    let r0 = step_raw(g0, g1, g2, g3, g4, r, (((x >> 25u32) & 0x1f) as u8));
    let r1 = step_raw(g0, g1, g2, g3, g4, r0, (((x >> 20u32) & 0x1f) as u8));
    let r2 = step_raw(g0, g1, g2, g3, g4, r1, (((x >> 15u32) & 0x1f) as u8));
    let r3 = step_raw(g0, g1, g2, g3, g4, r2, (((x >> 10u32) & 0x1f) as u8));
    let r4 = step_raw(g0, g1, g2, g3, g4, r3, (((x >> 5u32) & 0x1f) as u8));
    assert(((x & 0x1f) as u8) < 32) by (bit_vector);
    lemma_step_clean(g0, g1, g2, g3, g4, r4, ((x & 0x1f) as u8));
}

/// Six rounds are GF(2)-linear in the starting residue and the value whose
/// symbols are fed.
proof fn lemma_fold_linear(g0: u32, g1: u32, g2: u32, g3: u32, g4: u32, wa: u32, wb: u32, xa: u32, xb: u32)
    ensures
        fold_syms_raw(g0, g1, g2, g3, g4, wa ^ wb, xa ^ xb) == fold_syms_raw(
            g0,
            g1,
            g2,
            g3,
            g4,
            wa,
            xa,
        ) ^ fold_syms_raw(g0, g1, g2, g3, g4, wb, xb),
{
    reveal(fold_syms_raw);
    let ea5 = (((xa >> 25u32) & 0x1f) as u8);
    let eb5 = (((xb >> 25u32) & 0x1f) as u8);
    let ea4 = (((xa >> 20u32) & 0x1f) as u8);
    let eb4 = (((xb >> 20u32) & 0x1f) as u8);
    let ea3 = (((xa >> 15u32) & 0x1f) as u8);
    let eb3 = (((xb >> 15u32) & 0x1f) as u8);
    let ea2 = (((xa >> 10u32) & 0x1f) as u8);
    let eb2 = (((xb >> 10u32) & 0x1f) as u8);
    let ea1 = (((xa >> 5u32) & 0x1f) as u8);
    let eb1 = (((xb >> 5u32) & 0x1f) as u8);
    let ea0 = ((xa & 0x1f) as u8);
    let eb0 = ((xb & 0x1f) as u8);
    assert((((xa ^ xb) >> 25u32) & 0x1f) as u8 == ((((xa >> 25u32) & 0x1f) as u8) ^ (((xb
        >> 25u32) & 0x1f) as u8)) && ((((xa >> 25u32) & 0x1f) as u8) < 32) && ((((xb >> 25u32)
        & 0x1f) as u8) < 32)) by (bit_vector);
    assert((((xa ^ xb) >> 20u32) & 0x1f) as u8 == ((((xa >> 20u32) & 0x1f) as u8) ^ (((xb
        >> 20u32) & 0x1f) as u8)) && ((((xa >> 20u32) & 0x1f) as u8) < 32) && ((((xb >> 20u32)
        & 0x1f) as u8) < 32)) by (bit_vector);
    assert((((xa ^ xb) >> 15u32) & 0x1f) as u8 == ((((xa >> 15u32) & 0x1f) as u8) ^ (((xb
        >> 15u32) & 0x1f) as u8)) && ((((xa >> 15u32) & 0x1f) as u8) < 32) && ((((xb >> 15u32)
        & 0x1f) as u8) < 32)) by (bit_vector);
    assert((((xa ^ xb) >> 10u32) & 0x1f) as u8 == ((((xa >> 10u32) & 0x1f) as u8) ^ (((xb
        >> 10u32) & 0x1f) as u8)) && ((((xa >> 10u32) & 0x1f) as u8) < 32) && ((((xb >> 10u32)
        & 0x1f) as u8) < 32)) by (bit_vector);
    assert((((xa ^ xb) >> 5u32) & 0x1f) as u8 == ((((xa >> 5u32) & 0x1f) as u8) ^ (((xb >> 5u32)
        & 0x1f) as u8)) && ((((xa >> 5u32) & 0x1f) as u8) < 32) && ((((xb >> 5u32) & 0x1f) as u8)
        < 32)) by (bit_vector);
    assert(((xa ^ xb) & 0x1f) as u8 == (((xa & 0x1f) as u8) ^ ((xb & 0x1f) as u8)) && (((xa
        & 0x1f) as u8) < 32) && (((xb & 0x1f) as u8) < 32)) by (bit_vector);
    let a0 = step_raw(g0, g1, g2, g3, g4, wa, ea5);
    let b0 = step_raw(g0, g1, g2, g3, g4, wb, eb5);
    let a1 = step_raw(g0, g1, g2, g3, g4, a0, ea4);
    let b1 = step_raw(g0, g1, g2, g3, g4, b0, eb4);
    let a2 = step_raw(g0, g1, g2, g3, g4, a1, ea3);
    let b2 = step_raw(g0, g1, g2, g3, g4, b1, eb3);
    let a3 = step_raw(g0, g1, g2, g3, g4, a2, ea2);
    let b3 = step_raw(g0, g1, g2, g3, g4, b2, eb2);
    let a4 = step_raw(g0, g1, g2, g3, g4, a3, ea1);
    let b4 = step_raw(g0, g1, g2, g3, g4, b3, eb1);
    lemma_step_linear(g0, g1, g2, g3, g4, wa, wb, ea5, eb5);
    lemma_step_linear(g0, g1, g2, g3, g4, a0, b0, ea4, eb4);
    lemma_step_linear(g0, g1, g2, g3, g4, a1, b1, ea3, eb3);
    lemma_step_linear(g0, g1, g2, g3, g4, a2, b2, ea2, eb2);
    lemma_step_linear(g0, g1, g2, g3, g4, a3, b3, ea1, eb1);
    lemma_step_linear(g0, g1, g2, g3, g4, a4, b4, ea0, eb0);
}

/// From residue 0 the six symbols of `x` pass through with no reduction,
/// leaving exactly the low thirty bits of `x`.
proof fn lemma_fold_from_zero(g0: u32, g1: u32, g2: u32, g3: u32, g4: u32, x: u32)
    ensures
        fold_syms_raw(g0, g1, g2, g3, g4, 0, x) == x & 0x3fffffffu32,
{
    reveal(fold_syms_raw);
    // The residue after each round is the growing top-slot prefix of `x`;
    // it stays below the dropped slot, so no reduction ever fires.
    let p1 = (x >> 25u32) & 0x1f;
    let p2 = (x >> 20u32) & 0x3ff;
    let p3 = (x >> 15u32) & 0x7fff;
    let p4 = (x >> 10u32) & 0xfffff;
    let p5 = (x >> 5u32) & 0x1ffffff;
    assert(step_raw(g0, g1, g2, g3, g4, 0u32, (((x >> 25u32) & 0x1f) as u8)) == (x >> 25u32)
        & 0x1f) by (bit_vector);
    assert(step_raw(g0, g1, g2, g3, g4, p1, (((x >> 20u32) & 0x1f) as u8)) == (x >> 20u32)
        & 0x3ff) by (bit_vector)
        requires
            p1 == (x >> 25u32) & 0x1f,
    ;
    assert(step_raw(g0, g1, g2, g3, g4, p2, (((x >> 15u32) & 0x1f) as u8)) == (x >> 15u32)
        & 0x7fff) by (bit_vector)
        requires
            p2 == (x >> 20u32) & 0x3ff,
    ;
    assert(step_raw(g0, g1, g2, g3, g4, p3, (((x >> 10u32) & 0x1f) as u8)) == (x >> 10u32)
        & 0xfffff) by (bit_vector)
        requires
            p3 == (x >> 15u32) & 0x7fff,
    ;
    assert(step_raw(g0, g1, g2, g3, g4, p4, (((x >> 5u32) & 0x1f) as u8)) == (x >> 5u32)
        & 0x1ffffff) by (bit_vector)
        requires
            p4 == (x >> 10u32) & 0xfffff,
    ;
    assert(step_raw(g0, g1, g2, g3, g4, p5, ((x & 0x1f) as u8)) == x & 0x3fffffff) by (bit_vector)
        requires
            p5 == (x >> 5u32) & 0x1ffffff,
    ;
}


/// Null-checksum degeneracy: over the zero-width packed vector the
/// accumulator never changes, whatever sequence is fed.
pub proof fn lemma_null_degenerate(ck: Checksum<PackedNull>, r: PackedNull, s: Seq<u8>)
    ensures
        checksum_fold(ck, r, s) == r,
    decreases s.len(),
{
    if s.len() > 0 {
        lemma_null_degenerate(ck, checksum_step(ck, r, s[0]), s.subrange(1, s.len() as int));
    }
}

} // verus!
