//! 8-bit intensity+alpha units: 4 intensity bits in the high nibble,
//! 4 alpha bits in the low nibble of each input byte.

use vstd::prelude::*;

verus! {

/// One 8-bit intensity+alpha unit: 4 intensity bits, 4 alpha bits.
#[derive(PartialEq, Eq, Structural, Debug, Clone, Copy)]
pub struct IA8 {
    pub i: u8,
    pub a: u8,
}

/// The `k`-th 8-bit intensity+alpha unit of a byte stream.
pub open spec fn ia8_unit_at(b: Seq<u8>, k: int) -> IA8 {
    IA8 { i: (b[k] >> 4) & 0x0F, a: b[k] & 0x0F }
}

/// Walks a byte buffer and hands out one 8-bit intensity+alpha unit
/// per call.
pub struct IA8Adaptor {
    bytes: Vec<u8>,
    pos: usize,
}

impl IA8Adaptor {
    /// The bytes this adaptor draws from.
    pub closed spec fn stream(self) -> Seq<u8> {
        self.bytes@
    }

    /// How many units have been produced so far.
    pub closed spec fn units_read(self) -> int {
        self.pos as int
    }

    pub closed spec fn wf(self) -> bool {
        self.pos <= self.bytes@.len()
    }

    pub fn new(bytes: Vec<u8>) -> (r: Self)
        ensures
            r.stream() == bytes@,
            r.units_read() == 0,
            r.wf(),
    {
        IA8Adaptor { bytes, pos: 0 }
    }

    /// Produces the next unit, or `None` once the stream is exhausted.
    pub fn next(&mut self) -> (r: Option<IA8>)
        requires
            old(self).wf(),
        ensures
            final (self).wf(),
            final (self).stream() == old(self).stream(),
            old(self).units_read() < old(self).stream().len() ==> r == Some(
                ia8_unit_at(old(self).stream(), old(self).units_read()),
            ) && final (self).units_read() == old(self).units_read() + 1,
            old(self).units_read() >= old(self).stream().len() ==> r == None::<IA8> && final (
            self).units_read() == old(self).units_read(),
    {
        if self.pos < self.bytes.len() {
            let bits: u8 = self.bytes[self.pos];
            self.pos = self.pos + 1;
            Some(IA8 { i: (bits >> 4) & 0x0F, a: bits & 0x0F })
        } else {
            None
        }
    }
}

} // verus!
