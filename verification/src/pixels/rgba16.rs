//! 16-bit RGBA units: 5 bits per colour channel and 1 alpha bit,
//! packed big-endian, plus conversions into this encoding.

use crate::bebytes::spec_u16_bytes;
use crate::pixels::color_i8::I8;
use crate::pixels::contract_8_to_1;
use crate::pixels::i4::I4;
use crate::pixels::ia4::IA4;
use crate::pixels::ia8::IA8;
use crate::pixels::ia16::IA16;
use crate::pixels::rgba32::RGBA32;
use vstd::prelude::*;

verus! {

/// One 16-bit RGBA unit: channels hold 5 significant bits, alpha 1.
#[derive(PartialEq, Eq, Structural, Debug, Copy, Clone)]
pub struct RGBA16 {
    pub r: u8,
    pub g: u8,
    pub b: u8,
    pub a: u8,
}

/// The channels unpacked from a 16-bit pattern.
pub open spec fn rgba16_from_bits(bits: u16) -> RGBA16 {
    RGBA16 {
        r: (bits / 0x800 % 0x20) as u8,
        g: (bits / 0x40 % 0x20) as u8,
        b: (bits / 2 % 0x20) as u8,
        a: (bits % 2) as u8,
    }
}

/// The 16-bit pattern written for a unit: 5 bits per channel at bits
/// 11, 6 and 1, and the alpha bit at bit 0 -- the exact inverse of
/// `rgba16_from_bits`.
pub open spec fn rgba16_bits(p: RGBA16) -> u16 {
    (((p.r & 0x1F) as u16) << 11) | (((p.g & 0x1F) as u16) << 6) | (((p.b & 0x1F) as u16) << 1) | (
    (p.a as u16) & 1)
}

/// Packing the channels unpacked from a pattern restores the pattern:
/// the four fields tile the 16 bits.
pub proof fn lemma_rgba16_bits_roundtrip(bits: u16)
    ensures
        rgba16_bits(rgba16_from_bits(bits)) == bits,
{
    let r = (bits / 0x800 % 0x20) as u8;
    let g = (bits / 0x40 % 0x20) as u8;
    let b = (bits / 2 % 0x20) as u8;
    let a = (bits % 2) as u8;
    assert(r == (bits / 0x800 % 0x20) as u8 && g == (bits / 0x40 % 0x20) as u8 && b == (bits / 2
        % 0x20) as u8 && a == (bits % 2) as u8 ==> ((((r & 0x1F) as u16) << 11) | (((g
        & 0x1F) as u16) << 6) | (((b & 0x1F) as u16) << 1) | ((a as u16) & 1)) == bits)
        by (bit_vector);
}

/// The `k`-th 16-bit RGBA unit of a byte stream.
pub open spec fn rgba16_unit_at(b: Seq<u8>, k: int) -> RGBA16 {
    rgba16_from_bits((((b[2 * k] as int) * 0x100 + (b[2 * k + 1] as int)) as u16))
}

impl RGBA16 {
    pub fn from_be_bytes(bytes: [u8; 2]) -> (r: Self)
        ensures
            r == rgba16_from_bits((((bytes[0] as int) * 0x100 + (bytes[1] as int)) as u16)),
    {
        let bits: u16 = (bytes[0] as u16) * 0x100 + (bytes[1] as u16);
        RGBA16 {
            r: (bits / 0x800 % 0x20) as u8,
            g: (bits / 0x40 % 0x20) as u8,
            b: (bits / 2 % 0x20) as u8,
            a: (bits % 2) as u8,
        }
    }

    pub fn to_be_bytes(&self) -> (r: [u8; 2])
        ensures
            r@ =~= spec_u16_bytes(rgba16_bits(*self)),
    {
        let bits: u16 = (((self.r & 0x1F) as u16) << 11) | (((self.g & 0x1F) as u16) << 6) | (((
        self.b & 0x1F) as u16) << 1) | ((self.a as u16) & 1);
        proof {
            assert(bits as int / 0x100 < 0x100 && bits as int % 0x100 < 0x100) by (nonlinear_arith)
                requires
                    0 <= bits < 0x10000,
            ;
        }
        [(bits / 0x100) as u8, (bits % 0x100) as u8]
    }

    /// A 4-bit intensity feeds all three channels; alpha is opaque.
    pub fn from_i4(p: I4) -> (r: Self)
        ensures
            r.r == ((p.i << 2) | (p.i >> 1)) && r.g == r.r && r.b == r.r,
            r.a == 1,
    {
        let i: u8 = (p.i << 2) | (p.i >> 1);
        RGBA16 { r: i, g: i, b: i, a: 1 }
    }

    /// An 8-bit intensity feeds all three channels; alpha is opaque.
    pub fn from_i8(p: I8) -> (r: Self)
        ensures
            r.r == ((p.i << 1) | (p.i >> 3)) && r.g == r.r && r.b == r.r,
            r.a == 1,
    {
        let i: u8 = (p.i << 1) | (p.i >> 3);
        RGBA16 { r: i, g: i, b: i, a: 1 }
    }

    /// The 3 intensity bits feed all channels; the alpha bit is kept.
    pub fn from_ia4(p: IA4) -> (r: Self)
        ensures
            r.r == ((p.i << 2) | (p.i >> 1)) && r.g == r.r && r.b == r.r,
            r.a == p.a,
    {
        let i: u8 = (p.i << 2) | (p.i >> 1);
        RGBA16 { r: i, g: i, b: i, a: p.a }
    }

    /// The 4 intensity bits feed all channels; alpha contracts to 1 bit.
    pub fn from_ia8(p: IA8) -> (r: Self)
        ensures
            r.r == ((p.i << 1) | (p.i >> 3)) && r.g == r.r && r.b == r.r,
            r.a == contract_8_to_1(p.a),
    {
        let i: u8 = (p.i << 1) | (p.i >> 3);
        let a: u8 = if p.a == 0 {
            0
        } else {
            1
        };
        RGBA16 { r: i, g: i, b: i, a }
    }

    /// The intensity contracts to 5 bits; alpha contracts to 1 bit.
    pub fn from_ia16(p: IA16) -> (r: Self)
        ensures
            r.r == (p.i >> 3) && r.g == r.r && r.b == r.r,
            r.a == contract_8_to_1(p.a),
    {
        let i: u8 = p.i >> 3;
        let a: u8 = if p.a == 0 {
            0
        } else {
            1
        };
        RGBA16 { r: i, g: i, b: i, a }
    }

    /// Channels contract to 5 bits; alpha contracts to 1 bit.
    pub fn from_rgba32(p: RGBA32) -> (r: Self)
        ensures
            r.r == (p.r >> 3),
            r.g == (p.g >> 3),
            r.b == (p.b >> 3),
            r.a == contract_8_to_1(p.a),
    {
        let a: u8 = if p.a == 0 {
            0
        } else {
            1
        };
        RGBA16 { r: p.r >> 3, g: p.g >> 3, b: p.b >> 3, a }
    }
}

/// Walks a byte buffer and hands out one 16-bit RGBA unit per call.
pub struct RGBA16Adaptor {
    bytes: Vec<u8>,
    pos: usize,
}

impl RGBA16Adaptor {
    /// The bytes this adaptor draws from.
    pub closed spec fn stream(self) -> Seq<u8> {
        self.bytes@
    }

    /// How many units have been produced so far.
    pub closed spec fn units_read(self) -> int {
        self.pos as int / 2
    }

    pub closed spec fn wf(self) -> bool {
        self.pos <= self.bytes@.len() && self.pos % 2 == 0
    }

    pub fn new(bytes: Vec<u8>) -> (r: Self)
        ensures
            r.stream() == bytes@,
            r.units_read() == 0,
            r.wf(),
    {
        RGBA16Adaptor { bytes, pos: 0 }
    }

    /// Produces the next unit, or `None` once fewer than two bytes remain.
    pub fn next(&mut self) -> (r: Option<RGBA16>)
        requires
            old(self).wf(),
        ensures
            final (self).wf(),
            final (self).stream() == old(self).stream(),
            2 * old(self).units_read() + 2 <= old(self).stream().len() ==> r == Some(
                rgba16_unit_at(old(self).stream(), old(self).units_read()),
            ) && final (self).units_read() == old(self).units_read() + 1,
            2 * old(self).units_read() + 2 > old(self).stream().len() ==> r == None::<RGBA16>
                && final (self).units_read() == old(self).units_read(),
    {
        if self.bytes.len() - self.pos >= 2 {
            let b0: u8 = self.bytes[self.pos];
            let b1: u8 = self.bytes[self.pos + 1];
            self.pos = self.pos + 2;
            Some(RGBA16::from_be_bytes([b0, b1]))
        } else {
            None
        }
    }
}

} // verus!
