//! 8-bit intensity units: one intensity sample per input byte.

use vstd::prelude::*;

verus! {

/// One 8-bit intensity unit.
#[derive(PartialEq, Eq, Structural, Debug, Clone, Copy)]
pub struct I8 {
    pub i: u8,
}

/// The `k`-th 8-bit intensity unit of a byte stream.
pub open spec fn i8_unit_at(b: Seq<u8>, k: int) -> I8 {
    I8 { i: b[k] }
}

/// Walks a byte buffer and hands out one 8-bit intensity per call.
pub struct I8Adaptor {
    bytes: Vec<u8>,
    pos: usize,
}

impl I8Adaptor {
    /// The bytes this adaptor draws from.
    pub closed spec fn stream(self) -> Seq<u8> {
        self.bytes@
    }

    /// How many units have been produced so far.
    pub closed spec fn units_read(self) -> int {
        self.pos as int
    }

    pub closed spec fn wf(self) -> bool {
        self.pos <= self.bytes@.len()
    }

    pub fn new(bytes: Vec<u8>) -> (r: Self)
        ensures
            r.stream() == bytes@,
            r.units_read() == 0,
            r.wf(),
    {
        I8Adaptor { bytes, pos: 0 }
    }

    /// Produces the next unit, or `None` once the stream is exhausted.
    pub fn next(&mut self) -> (r: Option<I8>)
        requires
            old(self).wf(),
        ensures
            final (self).wf(),
            final (self).stream() == old(self).stream(),
            old(self).units_read() < old(self).stream().len() ==> r == Some(
                i8_unit_at(old(self).stream(), old(self).units_read()),
            ) && final (self).units_read() == old(self).units_read() + 1,
            old(self).units_read() >= old(self).stream().len() ==> r == None::<I8> && final (
            self).units_read() == old(self).units_read(),
    {
        if self.pos < self.bytes.len() {
            let v: u8 = self.bytes[self.pos];
            self.pos = self.pos + 1;
            Some(I8 { i: v })
        } else {
            None
        }
    }
}

} // verus!
