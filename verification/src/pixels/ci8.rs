//! 8-bit colour-index units: one palette index per input byte.

use vstd::prelude::*;

verus! {

/// One 8-bit colour-index unit.
#[derive(PartialEq, Eq, Structural, Debug, Clone, Copy)]
pub struct CI8(pub usize);

/// The `k`-th 8-bit colour-index unit of a byte stream.
pub open spec fn ci8_unit_at(b: Seq<u8>, k: int) -> usize {
    b[k] as usize
}

/// Walks a byte buffer and hands out one 8-bit colour index per call.
pub struct CI8Adaptor {
    bytes: Vec<u8>,
    pos: usize,
}

impl CI8Adaptor {
    /// The bytes this adaptor draws from.
    pub closed spec fn stream(self) -> Seq<u8> {
        self.bytes@
    }

    /// How many units have been produced so far.
    pub closed spec fn units_read(self) -> int {
        self.pos as int
    }

    pub closed spec fn wf(self) -> bool {
        self.pos <= self.bytes@.len()
    }

    pub fn new(bytes: Vec<u8>) -> (r: Self)
        ensures
            r.stream() == bytes@,
            r.units_read() == 0,
            r.wf(),
    {
        CI8Adaptor { bytes, pos: 0 }
    }

    /// Produces the next unit, or `None` once the stream is exhausted.
    pub fn next(&mut self) -> (r: Option<CI8>)
        requires
            old(self).wf(),
        ensures
            final (self).wf(),
            final (self).stream() == old(self).stream(),
            old(self).units_read() < old(self).stream().len() ==> r == Some(
                CI8(ci8_unit_at(old(self).stream(), old(self).units_read())),
            ) && final (self).units_read() == old(self).units_read() + 1,
            old(self).units_read() >= old(self).stream().len() ==> r == None::<CI8> && final (
            self).units_read() == old(self).units_read(),
    {
        if self.pos < self.bytes.len() {
            let v: u8 = self.bytes[self.pos];
            self.pos = self.pos + 1;
            Some(CI8(v as usize))
        } else {
            None
        }
    }
}

} // verus!
