//! 4-bit intensity units: each input byte carries two intensity
//! samples, most significant nibble first.

use vstd::prelude::*;

verus! {

/// One 4-bit intensity unit.
#[derive(PartialEq, Eq, Structural, Debug, Clone, Copy)]
pub struct I4 {
    pub i: u8,
}

/// The `k`-th 4-bit intensity unit of a byte stream.
pub open spec fn i4_unit_at(b: Seq<u8>, k: int) -> I4 {
    if k % 2 == 0 {
        I4 { i: (b[k / 2] >> 4) & 0x0F }
    } else {
        I4 { i: b[k / 2] & 0x0F }
    }
}

/// Walks a byte buffer and hands out one 4-bit intensity per call.
pub struct I4Adaptor {
    bytes: Vec<u8>,
    pos: usize,
    low_next: bool,
}

impl I4Adaptor {
    /// The bytes this adaptor draws from.
    pub closed spec fn stream(self) -> Seq<u8> {
        self.bytes@
    }

    /// How many units have been produced so far.
    pub closed spec fn units_read(self) -> int {
        2 * (self.pos as int) + if self.low_next {
            1int
        } else {
            0int
        }
    }

    pub closed spec fn wf(self) -> bool {
        &&& self.pos <= self.bytes@.len()
        &&& (self.low_next ==> self.pos < self.bytes@.len())
    }

    pub fn new(bytes: Vec<u8>) -> (r: Self)
        ensures
            r.stream() == bytes@,
            r.units_read() == 0,
            r.wf(),
    {
        I4Adaptor { bytes, pos: 0, low_next: false }
    }

    /// Produces the next unit, or `None` once the stream is exhausted.
    pub fn next(&mut self) -> (r: Option<I4>)
        requires
            old(self).wf(),
        ensures
            final (self).wf(),
            final (self).stream() == old(self).stream(),
            old(self).units_read() < 2 * old(self).stream().len() ==> r == Some(
                i4_unit_at(old(self).stream(), old(self).units_read()),
            ) && final (self).units_read() == old(self).units_read() + 1,
            old(self).units_read() >= 2 * old(self).stream().len() ==> r == None::<I4> && final (
            self).units_read() == old(self).units_read(),
    {
        let n: usize = self.bytes.len();
        if self.low_next {
            let v: u8 = self.bytes[self.pos] & 0x0F;
            self.low_next = false;
            self.pos = self.pos + 1;
            Some(I4 { i: v })
        } else if self.pos < n {
            let v: u8 = (self.bytes[self.pos] >> 4) & 0x0F;
            self.low_next = true;
            Some(I4 { i: v })
        } else {
            None
        }
    }
}

} // verus!
