//! Packed vectors of field elements: several GF(32) coefficients packed
//! five bits apiece into one fixed-width unsigned integer.
//!
//! Packing turns the two primitive operations of polynomial long division
//! into cheap bit manipulation: multiplying by the indeterminate is a
//! left shift by five bits, and adding two polynomials is a bitwise XOR.

use vstd::prelude::*;

verus! {

/// An unsigned integer treated as a packed sequence of GF(32) coefficients,
/// least-significant slot holding the lowest polynomial degree.
///
/// The slot count is `floor(bit width / 5)`; every slot value is below 32.
pub trait PackedFe32: Copy + Sized {
    /// How many field elements fit: `floor(bit width / 5)`.
    spec fn spec_width() -> usize;

    /// The packed value representing the polynomial constant 1.
    spec fn spec_one() -> Self;

    /// The coefficient stored at slot `n`.
    spec fn spec_unpack(self, n: usize) -> u8;

    /// The packed value after a multiply-by-x-then-add step: the coefficient
    /// at slot `degree - 1` is zeroed, the bit pattern shifts up one slot,
    /// and `add` lands in slot 0.
    spec fn spec_mul_x_add(self, degree: usize, add: u8) -> Self;

    /// The slot-wise GF(32) sum (bitwise XOR) of two packed vectors.
    spec fn spec_xor(self, other: Self) -> Self;

    /// The number of field elements that fit into this type.
    fn width() -> (w: usize)
        ensures
            w == Self::spec_width(),
    ;

    /// The multiplicative identity: field element 1 in slot 0, all other
    /// slots 0. This is the required initial state of a checksum engine.
    fn one() -> (r: Self)
        ensures
            r == Self::spec_one(),
            Self::spec_width() > 0 ==> r.spec_unpack(0) == 1,
            forall|j: usize| 1 <= j && j < Self::spec_width() ==> #[trigger] r.spec_unpack(j) == 0,
    ;

    /// Extracts the coefficient of `x^n` from the packed polynomial.
    fn unpack(&self, n: usize) -> (r: u8)
        requires
            n < Self::spec_width() || Self::spec_width() == 0,
        ensures
            r == self.spec_unpack(n),
            r < 32,
    ;

    /// Multiplies the polynomial by x, drops and returns its coefficient of
    /// degree `degree - 1`, and writes `add` into the vacated slot 0.
    ///
    /// A width-0 implementation performs this contract trivially: it leaves
    /// the value unchanged and returns 0.
    fn mul_by_x_then_add(&mut self, degree: usize, add: u8) -> (r: u8)
        requires
            Self::spec_width() == 0 || (1 <= degree && degree <= Self::spec_width() && add < 32),
        ensures
            *final(self) == old(self).spec_mul_x_add(degree, add),
            r == (if Self::spec_width() == 0 {
                0u8
            } else {
                old(self).spec_unpack((degree - 1) as usize)
            }),
            r < 32,
            Self::spec_width() > 0 ==> final(self).spec_unpack(0) == add,
            forall|j: usize|
                1 <= j && j < Self::spec_width() ==> #[trigger] final(self).spec_unpack(j) == (if j
                    == degree {
                    0u8
                } else {
                    old(self).spec_unpack((j - 1) as usize)
                }),
    ;

    /// Adds two packed polynomials coefficient-wise in GF(32).
    fn xor(self, other: Self) -> (r: Self)
        ensures
            r == self.spec_xor(other),
            forall|j: usize|
                j < Self::spec_width() ==> #[trigger] r.spec_unpack(j) == (self.spec_unpack(j)
                    ^ other.spec_unpack(j)),
    ;
}

impl PackedFe32 for u32 {
    open spec fn spec_width() -> usize {
        6
    }

    open spec fn spec_one() -> Self {
        1u32
    }

    open spec fn spec_unpack(self, n: usize) -> u8 {
        (((self >> ((n * 5) as u32)) & 0x1f) as u8)
    }

    open spec fn spec_mul_x_add(self, degree: usize, add: u8) -> Self {
        (((self & !(0x1fu32 << (((degree - 1) * 5) as u32))) << 5u32) | (add as u32))
    }

    open spec fn spec_xor(self, other: Self) -> Self {
        self ^ other
    }

    fn width() -> (w: usize) {
        6
    }

    fn one() -> (r: Self) {
        proof {
            assert((((1u32 >> ((0 * 5) as u32)) & 0x1f) as u8) == 1) by (bit_vector);
            assert forall|j: usize| 1 <= j && j < 6 implies #[trigger] 1u32.spec_unpack(j)
                == 0 by {
                assert(((1u32 >> ((j * 5) as u32)) & 0x1f) as u8 == 0) by (bit_vector)
                    requires
                        1 <= j && j < 6,
                ;
            }
        }
        1
    }

    fn unpack(&self, n: usize) -> (r: u8) {
        let sh: u32 = (n as u32) * 5;
        proof {
            assert((((*self >> sh) & 0x1f) as u8) < 32) by (bit_vector);
        }
        (((*self >> sh) & 0x1f) as u8)
    }

    fn mul_by_x_then_add(&mut self, degree: usize, add: u8) -> (r: u8) {
        let ret = self.unpack(degree - 1);
        let mask: u32 = !(0x1fu32 << (((degree - 1) * 5) as u32));
        *self = ((*self & mask) << 5u32) | (add as u32);
        proof {
            lemma_mul_slots_u32(*old(self), degree, add);
        }
        ret
    }

    fn xor(self, other: Self) -> (r: Self) {
        proof {
            assert forall|j: usize| j < 6 implies #[trigger] (self ^ other).spec_unpack(j) == (
            self.spec_unpack(j) ^ other.spec_unpack(j)) by {
                lemma_xor_slot_u32(self, other, j);
            }
        }
        self ^ other
    }
}

impl PackedFe32 for u64 {
    open spec fn spec_width() -> usize {
        12
    }

    open spec fn spec_one() -> Self {
        1u64
    }

    open spec fn spec_unpack(self, n: usize) -> u8 {
        (((self >> ((n * 5) as u64)) & 0x1f) as u8)
    }

    open spec fn spec_mul_x_add(self, degree: usize, add: u8) -> Self {
        (((self & !(0x1fu64 << (((degree - 1) * 5) as u64))) << 5u64) | (add as u64))
    }

    open spec fn spec_xor(self, other: Self) -> Self {
        self ^ other
    }

    fn width() -> (w: usize) {
        12
    }

    fn one() -> (r: Self) {
        proof {
            assert((((1u64 >> ((0 * 5) as u64)) & 0x1f) as u8) == 1) by (bit_vector);
            assert forall|j: usize| 1 <= j && j < 12 implies #[trigger] 1u64.spec_unpack(j)
                == 0 by {
                assert(((1u64 >> ((j * 5) as u64)) & 0x1f) as u8 == 0) by (bit_vector)
                    requires
                        1 <= j && j < 12,
                ;
            }
        }
        1
    }

    fn unpack(&self, n: usize) -> (r: u8) {
        let sh: u64 = (n as u64) * 5;
        proof {
            assert((((*self >> sh) & 0x1f) as u8) < 32) by (bit_vector);
        }
        (((*self >> sh) & 0x1f) as u8)
    }

    fn mul_by_x_then_add(&mut self, degree: usize, add: u8) -> (r: u8) {
        let ret = self.unpack(degree - 1);
        let mask: u64 = !(0x1fu64 << (((degree - 1) * 5) as u64));
        *self = ((*self & mask) << 5u64) | (add as u64);
        proof {
            lemma_mul_slots_u64(*old(self), degree, add);
        }
        ret
    }

    fn xor(self, other: Self) -> (r: Self) {
        proof {
            assert forall|j: usize| j < 12 implies #[trigger] (self ^ other).spec_unpack(j) == (
            self.spec_unpack(j) ^ other.spec_unpack(j)) by {
                lemma_xor_slot_u64(self, other, j);
            }
        }
        self ^ other
    }
}

impl PackedFe32 for u128 {
    open spec fn spec_width() -> usize {
        25
    }

    open spec fn spec_one() -> Self {
        1u128
    }

    open spec fn spec_unpack(self, n: usize) -> u8 {
        (((self >> ((n * 5) as u128)) & 0x1f) as u8)
    }

    open spec fn spec_mul_x_add(self, degree: usize, add: u8) -> Self {
        (((self & !(0x1fu128 << (((degree - 1) * 5) as u128))) << 5u128) | (add as u128))
    }

    open spec fn spec_xor(self, other: Self) -> Self {
        self ^ other
    }

    fn width() -> (w: usize) {
        25
    }

    fn one() -> (r: Self) {
        proof {
            assert((((1u128 >> ((0 * 5) as u128)) & 0x1f) as u8) == 1) by (bit_vector);
            assert forall|j: usize| 1 <= j && j < 25 implies #[trigger] 1u128.spec_unpack(j)
                == 0 by {
                assert(((1u128 >> ((j * 5) as u128)) & 0x1f) as u8 == 0) by (bit_vector)
                    requires
                        1 <= j && j < 25,
                ;
            }
        }
        1
    }

    fn unpack(&self, n: usize) -> (r: u8) {
        let sh: u128 = (n as u128) * 5;
        proof {
            assert((((*self >> sh) & 0x1f) as u8) < 32) by (bit_vector);
        }
        (((*self >> sh) & 0x1f) as u8)
    }

    fn mul_by_x_then_add(&mut self, degree: usize, add: u8) -> (r: u8) {
        let ret = self.unpack(degree - 1);
        let mask: u128 = !(0x1fu128 << (((degree - 1) * 5) as u128));
        *self = ((*self & mask) << 5u128) | (add as u128);
        proof {
            lemma_mul_slots_u128(*old(self), degree, add);
        }
        ret
    }

    fn xor(self, other: Self) -> (r: Self) {
        proof {
            assert forall|j: usize| j < 25 implies #[trigger] (self ^ other).spec_unpack(j) == (
            self.spec_unpack(j) ^ other.spec_unpack(j)) by {
                lemma_xor_slot_u128(self, other, j);
            }
        }
        self ^ other
    }
}

/// The zero-width packed vector, modeling an absent (length-0) checksum.
///
/// It meets the packed-vector contract trivially: unpacking always yields 0
/// and a multiply-by-x-then-add step is a no-op returning 0, so an engine
/// running over it never changes state.
#[derive(Clone, Copy, Debug, PartialEq, Eq, Structural)]
pub struct PackedNull;

impl PackedFe32 for PackedNull {
    open spec fn spec_width() -> usize {
        0
    }

    open spec fn spec_one() -> Self {
        PackedNull
    }

    open spec fn spec_unpack(self, n: usize) -> u8 {
        0
    }

    open spec fn spec_mul_x_add(self, degree: usize, add: u8) -> Self {
        self
    }

    open spec fn spec_xor(self, other: Self) -> Self {
        self
    }

    fn width() -> (w: usize) {
        0
    }

    fn one() -> (r: Self) {
        PackedNull
    }

    fn unpack(&self, n: usize) -> (r: u8) {
        0
    }

    fn mul_by_x_then_add(&mut self, degree: usize, add: u8) -> (r: u8) {
        0
    }

    fn xor(self, other: Self) -> (r: Self) {
        self
    }
}

/// Slot-level reading of one multiply-by-x-then-add step on a `u32`.
proof fn lemma_mul_slots_u32(x: u32, degree: usize, add: u8)
    requires
        1 <= degree && degree <= 6,
        add < 32,
    ensures
        x.spec_mul_x_add(degree, add).spec_unpack(0) == add,
        forall|j: usize|
            1 <= j && j < 6 ==> #[trigger] x.spec_mul_x_add(degree, add).spec_unpack(j) == (if j
                == degree {
                0u8
            } else {
                x.spec_unpack((j - 1) as usize)
            }),
{
    let y = x.spec_mul_x_add(degree, add);
    assert(y == ((x & !(0x1fu32 << (((degree - 1) * 5) as u32))) << 5u32) | (add as u32));
    assert((((y >> ((0 * 5) as u32)) & 0x1f) as u8) == add) by (bit_vector)
        requires
            y == ((x & !(0x1fu32 << (((degree - 1) * 5) as u32))) << 5u32) | (add as u32),
            1 <= degree && degree <= 6,
            add < 32,
    ;
    assert forall|j: usize| 1 <= j && j < 6 implies #[trigger] y.spec_unpack(j) == (if j == degree {
        0u8
    } else {
        x.spec_unpack((j - 1) as usize)
    }) by {
        assert((((y >> ((j * 5) as u32)) & 0x1f) as u8) == (if j == degree {
            0u8
        } else {
            (((x >> ((((j - 1) as usize) * 5) as u32)) & 0x1f) as u8)
        })) by (bit_vector)
            requires
                y == ((x & !(0x1fu32 << (((degree - 1) * 5) as u32))) << 5u32) | (add as u32),
                1 <= degree && degree <= 6,
                add < 32,
                1 <= j && j < 6,
        ;
    }
}

/// XOR of packed `u32` vectors acts slot-wise.
proof fn lemma_xor_slot_u32(a: u32, b: u32, j: usize)
    requires
        j < 6,
    ensures
        (a ^ b).spec_unpack(j) == (a.spec_unpack(j) ^ b.spec_unpack(j)),
{
    assert(((((a ^ b) >> ((j * 5) as u32)) & 0x1f) as u8) == ((((a >> ((j * 5) as u32)) & 0x1f)
        as u8) ^ (((b >> ((j * 5) as u32)) & 0x1f) as u8))) by (bit_vector)
        requires
            j < 6,
    ;
}

/// Slot-level reading of one multiply-by-x-then-add step on a `u64`.
proof fn lemma_mul_slots_u64(x: u64, degree: usize, add: u8)
    requires
        1 <= degree && degree <= 12,
        add < 32,
    ensures
        x.spec_mul_x_add(degree, add).spec_unpack(0) == add,
        forall|j: usize|
            1 <= j && j < 12 ==> #[trigger] x.spec_mul_x_add(degree, add).spec_unpack(j) == (if j
                == degree {
                0u8
            } else {
                x.spec_unpack((j - 1) as usize)
            }),
{
    let y = x.spec_mul_x_add(degree, add);
    assert(y == ((x & !(0x1fu64 << (((degree - 1) * 5) as u64))) << 5u64) | (add as u64));
    assert((((y >> ((0 * 5) as u64)) & 0x1f) as u8) == add) by (bit_vector)
        requires
            y == ((x & !(0x1fu64 << (((degree - 1) * 5) as u64))) << 5u64) | (add as u64),
            1 <= degree && degree <= 12,
            add < 32,
    ;
    assert forall|j: usize| 1 <= j && j < 12 implies #[trigger] y.spec_unpack(j) == (if j == degree {
        0u8
    } else {
        x.spec_unpack((j - 1) as usize)
    }) by {
        assert((((y >> ((j * 5) as u64)) & 0x1f) as u8) == (if j == degree {
            0u8
        } else {
            (((x >> ((((j - 1) as usize) * 5) as u64)) & 0x1f) as u8)
        })) by (bit_vector)
            requires
                y == ((x & !(0x1fu64 << (((degree - 1) * 5) as u64))) << 5u64) | (add as u64),
                1 <= degree && degree <= 12,
                add < 32,
                1 <= j && j < 12,
        ;
    }
}

/// XOR of packed `u64` vectors acts slot-wise.
proof fn lemma_xor_slot_u64(a: u64, b: u64, j: usize)
    requires
        j < 12,
    ensures
        (a ^ b).spec_unpack(j) == (a.spec_unpack(j) ^ b.spec_unpack(j)),
{
    assert(((((a ^ b) >> ((j * 5) as u64)) & 0x1f) as u8) == ((((a >> ((j * 5) as u64)) & 0x1f)
        as u8) ^ (((b >> ((j * 5) as u64)) & 0x1f) as u8))) by (bit_vector)
        requires
            j < 12,
    ;
}

/// Slot-level reading of one multiply-by-x-then-add step on a `u128`.
proof fn lemma_mul_slots_u128(x: u128, degree: usize, add: u8)
    requires
        1 <= degree && degree <= 25,
        add < 32,
    ensures
        x.spec_mul_x_add(degree, add).spec_unpack(0) == add,
        forall|j: usize|
            1 <= j && j < 25 ==> #[trigger] x.spec_mul_x_add(degree, add).spec_unpack(j) == (if j
                == degree {
                0u8
            } else {
                x.spec_unpack((j - 1) as usize)
            }),
{
    let y = x.spec_mul_x_add(degree, add);
    assert(y == ((x & !(0x1fu128 << (((degree - 1) * 5) as u128))) << 5u128) | (add as u128));
    assert((((y >> ((0 * 5) as u128)) & 0x1f) as u8) == add) by (bit_vector)
        requires
            y == ((x & !(0x1fu128 << (((degree - 1) * 5) as u128))) << 5u128) | (add as u128),
            1 <= degree && degree <= 25,
            add < 32,
    ;
    assert forall|j: usize| 1 <= j && j < 25 implies #[trigger] y.spec_unpack(j) == (if j == degree {
        0u8
    } else {
        x.spec_unpack((j - 1) as usize)
    }) by {
        assert((((y >> ((j * 5) as u128)) & 0x1f) as u8) == (if j == degree {
            0u8
        } else {
            (((x >> ((((j - 1) as usize) * 5) as u128)) & 0x1f) as u8)
        })) by (bit_vector)
            requires
                y == ((x & !(0x1fu128 << (((degree - 1) * 5) as u128))) << 5u128) | (add as u128),
                1 <= degree && degree <= 25,
                add < 32,
                1 <= j && j < 25,
        ;
    }
}

/// XOR of packed `u128` vectors acts slot-wise.
proof fn lemma_xor_slot_u128(a: u128, b: u128, j: usize)
    requires
        j < 25,
    ensures
        (a ^ b).spec_unpack(j) == (a.spec_unpack(j) ^ b.spec_unpack(j)),
{
    assert(((((a ^ b) >> ((j * 5) as u128)) & 0x1f) as u8) == ((((a >> ((j * 5) as u128)) & 0x1f)
        as u8) ^ (((b >> ((j * 5) as u128)) & 0x1f) as u8))) by (bit_vector)
        requires
            j < 25,
    ;
}

} // verus!
