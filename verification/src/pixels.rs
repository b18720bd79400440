//! Packed pixel units: eight colour encodings with a fixed bit width
//! each, a stream adaptor per encoding that walks a byte buffer unit by
//! unit, and conversions between encodings by fixed bit-expansion rules.

use vstd::prelude::*;

pub mod ci4;
pub mod ci8;
pub mod color_i8;
pub mod i4;
pub mod ia16;
pub mod ia4;
pub mod ia8;
pub mod rgba16;
pub mod rgba32;

pub use ci4::CI4;
pub use ci4::CI4Adaptor;
pub use ci8::CI8;
pub use ci8::CI8Adaptor;
pub use color_i8::I8;
pub use color_i8::I8Adaptor;
pub use i4::I4;
pub use i4::I4Adaptor;
pub use ia16::IA16;
pub use ia16::IA16Adaptor;
pub use ia4::IA4;
pub use ia4::IA4Adaptor;
pub use ia8::IA8;
pub use ia8::IA8Adaptor;
pub use rgba16::RGBA16;
pub use rgba16::RGBA16Adaptor;
pub use rgba32::RGBA32;
pub use rgba32::RGBA32Adaptor;

verus! {

/// Expansion of a 4-bit channel to 8 bits: the nibble is repeated.
pub open spec fn expand_4_to_8(v: u8) -> u8 {
    (v << 4) | v
}

/// Expansion of a 5-bit channel to 8 bits.
pub open spec fn expand_5_to_8(v: u8) -> u8 {
    (v << 3) | (v >> 2)
}

/// Expansion of a 3-bit channel to 8 bits.
pub open spec fn expand_3_to_8(v: u8) -> u8 {
    (v << 5) | (v << 2) | (v >> 1)
}

/// Expansion of a 1-bit alpha to 8 bits: 0 stays 0, 1 becomes 0xFF.
pub open spec fn expand_1_to_8(a: u8) -> u8 {
    if a == 0 {
        0u8
    } else {
        0xFFu8
    }
}

/// Contraction of an 8-bit channel to 1-bit alpha: 0 stays 0, anything
/// else becomes 1.
pub open spec fn contract_8_to_1(a: u8) -> u8 {
    if a == 0 {
        0u8
    } else {
        1u8
    }
}

} // verus!
