//! 16-bit intensity+alpha units: one intensity byte followed by one
//! alpha byte, plus conversions into this encoding from the others.

use crate::pixels::color_i8::I8;
use crate::pixels::expand_1_to_8;
use crate::pixels::expand_3_to_8;
use crate::pixels::expand_4_to_8;
use crate::pixels::i4::I4;
use crate::pixels::ia4::IA4;
use crate::pixels::ia8::IA8;
use crate::pixels::rgba16::RGBA16;
use crate::pixels::rgba32::RGBA32;
use vstd::prelude::*;

verus! {

/// One 16-bit intensity+alpha unit: 8 intensity bits, 8 alpha bits.
#[derive(PartialEq, Eq, Structural, Debug, Clone, Copy)]
pub struct IA16 {
    pub i: u8,
    pub a: u8,
}

/// The `k`-th 16-bit intensity+alpha unit of a byte stream.
pub open spec fn ia16_unit_at(b: Seq<u8>, k: int) -> IA16 {
    IA16 { i: b[2 * k], a: b[2 * k + 1] }
}

impl IA16 {
    /// The two big-endian bytes of this unit.
    pub open spec fn spec_bytes(self) -> Seq<u8> {
        seq![self.i, self.a]
    }

    pub fn from_be_bytes(bytes: &[u8; 2]) -> (r: Self)
        ensures
            r == (IA16 { i: bytes[0], a: bytes[1] }),
    {
        IA16 { i: bytes[0], a: bytes[1] }
    }

    pub fn to_be_bytes(&self) -> (r: [u8; 2])
        ensures
            r@ =~= self.spec_bytes(),
    {
        [self.i, self.a]
    }

    /// A 4-bit intensity expands to 8 bits; the missing alpha is opaque.
    pub fn from_i4(p: I4) -> (r: Self)
        ensures
            r.i == expand_4_to_8(p.i),
            r.a == 0xFF,
    {
        IA16 { i: (p.i << 4) | p.i, a: 0xFF }
    }

    /// An 8-bit intensity is kept; the missing alpha is opaque.
    pub fn from_i8(p: I8) -> (r: Self)
        ensures
            r.i == p.i,
            r.a == 0xFF,
    {
        IA16 { i: p.i, a: 0xFF }
    }

    /// The 3 intensity bits expand to 8; the 1-bit alpha becomes 0 or 0xFF.
    pub fn from_ia4(p: IA4) -> (r: Self)
        ensures
            r.i == expand_3_to_8(p.i),
            r.a == expand_1_to_8(p.a),
    {
        let a: u8 = if p.a == 0 {
            0
        } else {
            0xFF
        };
        IA16 { i: (p.i << 5) | (p.i << 2) | (p.i >> 1), a }
    }

    /// Both 4-bit channels expand to 8 bits.
    pub fn from_ia8(p: IA8) -> (r: Self)
        ensures
            r.i == expand_4_to_8(p.i),
            r.a == expand_4_to_8(p.a),
    {
        IA16 { i: (p.i << 4) | p.i, a: (p.a << 4) | p.a }
    }

    /// Channels expand to 8 bits first, then average to an intensity.
    pub fn from_rgba16(p: RGBA16) -> (r: Self)
        ensures
            r == IA16::spec_from_rgba32(RGBA32::spec_from_rgba16(p)),
    {
        IA16::from_rgba32(RGBA32::from_rgba16(p))
    }

    /// The intensity is the unweighted average of the three channels.
    pub open spec fn spec_from_rgba32(p: RGBA32) -> IA16 {
        IA16 { i: (((p.r as int) + (p.g as int) + (p.b as int)) / 3) as u8, a: p.a }
    }

    pub fn from_rgba32(p: RGBA32) -> (r: Self)
        ensures
            r == IA16::spec_from_rgba32(p),
    {
        IA16 { i: (((p.r as u16) + (p.g as u16) + (p.b as u16)) / 3) as u8, a: p.a }
    }
}

/// Walks a byte buffer and hands out one 16-bit intensity+alpha unit
/// per call.
pub struct IA16Adaptor {
    bytes: Vec<u8>,
    pos: usize,
}

impl IA16Adaptor {
    /// The bytes this adaptor draws from.
    pub closed spec fn stream(self) -> Seq<u8> {
        self.bytes@
    }

    /// How many units have been produced so far.
    pub closed spec fn units_read(self) -> int {
        self.pos as int / 2
    }

    pub closed spec fn wf(self) -> bool {
        self.pos <= self.bytes@.len() && self.pos % 2 == 0
    }

    pub fn new(bytes: Vec<u8>) -> (r: Self)
        ensures
            r.stream() == bytes@,
            r.units_read() == 0,
            r.wf(),
    {
        IA16Adaptor { bytes, pos: 0 }
    }

    /// Produces the next unit, or `None` once fewer than two bytes remain.
    pub fn next(&mut self) -> (r: Option<IA16>)
        requires
            old(self).wf(),
        ensures
            final (self).wf(),
            final (self).stream() == old(self).stream(),
            2 * old(self).units_read() + 2 <= old(self).stream().len() ==> r == Some(
                ia16_unit_at(old(self).stream(), old(self).units_read()),
            ) && final (self).units_read() == old(self).units_read() + 1,
            2 * old(self).units_read() + 2 > old(self).stream().len() ==> r == None::<IA16>
                && final (self).units_read() == old(self).units_read(),
    {
        if self.bytes.len() - self.pos >= 2 {
            let i: u8 = self.bytes[self.pos];
            let a: u8 = self.bytes[self.pos + 1];
            self.pos = self.pos + 2;
            Some(IA16 { i, a })
        } else {
            None
        }
    }
}

} // verus!
