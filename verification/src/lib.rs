//! Degree-2 BCH code checksum over the 32-element finite field.
//!
//! The checksum engine performs polynomial long division over GF(32),
//! one field element at a time, on a residue packed five bits per
//! coefficient into a fixed-width unsigned integer.

pub mod checksum;
pub mod engine;
pub mod field;
pub mod hrp;
pub mod packed;

pub use checksum::Checksum;
pub use engine::Engine;
pub use field::Fe32;
pub use hrp::{Hrp, HrpFe32Iter};
pub use packed::{PackedFe32, PackedNull};
