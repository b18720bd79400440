//! 32-bit RGBA units: one byte per channel, plus conversions into
//! this encoding from the packed ones.

use crate::pixels::color_i8::I8;
use crate::pixels::expand_1_to_8;
use crate::pixels::expand_3_to_8;
use crate::pixels::expand_4_to_8;
use crate::pixels::expand_5_to_8;
use crate::pixels::i4::I4;
use crate::pixels::ia4::IA4;
use crate::pixels::ia8::IA8;
use crate::pixels::ia16::IA16;
use crate::pixels::rgba16::RGBA16;
use vstd::prelude::*;

verus! {

/// One 32-bit RGBA unit: 8 bits per channel.
#[derive(PartialEq, Eq, Structural, Debug, Clone, Copy)]
pub struct RGBA32 {
    pub r: u8,
    pub g: u8,
    pub b: u8,
    pub a: u8,
}

/// The `k`-th 32-bit RGBA unit of a byte stream.
pub open spec fn rgba32_unit_at(b: Seq<u8>, k: int) -> RGBA32 {
    RGBA32 { r: b[4 * k], g: b[4 * k + 1], b: b[4 * k + 2], a: b[4 * k + 3] }
}

impl RGBA32 {
    /// The four bytes of this unit, channel order r, g, b, a.
    pub open spec fn spec_bytes(self) -> Seq<u8> {
        seq![self.r, self.g, self.b, self.a]
    }

    pub fn from_be_bytes(bytes: [u8; 4]) -> (r: Self)
        ensures
            r == (RGBA32 { r: bytes[0], g: bytes[1], b: bytes[2], a: bytes[3] }),
    {
        RGBA32 { r: bytes[0], g: bytes[1], b: bytes[2], a: bytes[3] }
    }

    pub fn to_be_bytes(&self) -> (r: [u8; 4])
        ensures
            r@ =~= self.spec_bytes(),
    {
        [self.r, self.g, self.b, self.a]
    }

    /// A 4-bit intensity expands to 8 bits on every channel.
    pub fn from_i4(p: I4) -> (r: Self)
        ensures
            r.r == expand_4_to_8(p.i) && r.g == r.r && r.b == r.r,
            r.a == 0xFF,
    {
        let i: u8 = (p.i << 4) | p.i;
        RGBA32 { r: i, g: i, b: i, a: 0xFF }
    }

    /// An 8-bit intensity feeds every channel; alpha is opaque.
    pub fn from_i8(p: I8) -> (r: Self)
        ensures
            r.r == p.i && r.g == p.i && r.b == p.i,
            r.a == 0xFF,
    {
        RGBA32 { r: p.i, g: p.i, b: p.i, a: 0xFF }
    }

    /// The 3 intensity bits expand to 8; the alpha bit becomes 0 or 0xFF.
    pub fn from_ia4(p: IA4) -> (r: Self)
        ensures
            r.r == expand_3_to_8(p.i) && r.g == r.r && r.b == r.r,
            r.a == expand_1_to_8(p.a),
    {
        let i: u8 = (p.i << 5) | (p.i << 2) | (p.i >> 1);
        let a: u8 = if p.a == 0 {
            0
        } else {
            0xFF
        };
        RGBA32 { r: i, g: i, b: i, a }
    }

    /// Both 4-bit channels expand to 8 bits.
    pub fn from_ia8(p: IA8) -> (r: Self)
        ensures
            r.r == expand_4_to_8(p.i) && r.g == r.r && r.b == r.r,
            r.a == expand_4_to_8(p.a),
    {
        let i: u8 = (p.i << 4) | p.i;
        RGBA32 { r: i, g: i, b: i, a: (p.a << 4) | p.a }
    }

    /// The intensity feeds every channel; the alpha byte is kept.
    pub fn from_ia16(p: IA16) -> (r: Self)
        ensures
            r.r == p.i && r.g == p.i && r.b == p.i,
            r.a == p.a,
    {
        RGBA32 { r: p.i, g: p.i, b: p.i, a: p.a }
    }

    /// Each 5-bit channel expands to 8 bits; the alpha bit to 0 or 0xFF.
    pub open spec fn spec_from_rgba16(p: RGBA16) -> RGBA32 {
        RGBA32 {
            r: expand_5_to_8(p.r),
            g: expand_5_to_8(p.g),
            b: expand_5_to_8(p.b),
            a: expand_1_to_8(p.a),
        }
    }

    pub fn from_rgba16(p: RGBA16) -> (r: Self)
        ensures
            r == RGBA32::spec_from_rgba16(p),
    {
        let a: u8 = if p.a == 0 {
            0
        } else {
            0xFF
        };
        RGBA32 { r: (p.r << 3) | (p.r >> 2), g: (p.g << 3) | (p.g >> 2), b: (p.b << 3) | (p.b >> 2), a }
    }
}

/// Walks a byte buffer and hands out one 32-bit RGBA unit per call.
pub struct RGBA32Adaptor {
    bytes: Vec<u8>,
    pos: usize,
}

impl RGBA32Adaptor {
    /// The bytes this adaptor draws from.
    pub closed spec fn stream(self) -> Seq<u8> {
        self.bytes@
    }

    /// How many units have been produced so far.
    pub closed spec fn units_read(self) -> int {
        self.pos as int / 4
    }

    pub closed spec fn wf(self) -> bool {
        self.pos <= self.bytes@.len() && self.pos % 4 == 0
    }

    pub fn new(bytes: Vec<u8>) -> (r: Self)
        ensures
            r.stream() == bytes@,
            r.units_read() == 0,
            r.wf(),
    {
        RGBA32Adaptor { bytes, pos: 0 }
    }

    /// Produces the next unit, or `None` once fewer than four bytes remain.
    pub fn next(&mut self) -> (r: Option<RGBA32>)
        requires
            old(self).wf(),
        ensures
            final (self).wf(),
            final (self).stream() == old(self).stream(),
            4 * old(self).units_read() + 4 <= old(self).stream().len() ==> r == Some(
                rgba32_unit_at(old(self).stream(), old(self).units_read()),
            ) && final (self).units_read() == old(self).units_read() + 1,
            4 * old(self).units_read() + 4 > old(self).stream().len() ==> r == None::<RGBA32>
                && final (self).units_read() == old(self).units_read(),
    {
        if self.bytes.len() - self.pos >= 4 {
            let r: u8 = self.bytes[self.pos];
            let g: u8 = self.bytes[self.pos + 1];
            let b: u8 = self.bytes[self.pos + 2];
            let a: u8 = self.bytes[self.pos + 3];
            self.pos = self.pos + 4;
            Some(RGBA32 { r, g, b, a })
        } else {
            None
        }
    }
}

} // verus!
