//! 4-bit intensity+alpha units: each nibble holds 3 intensity bits and
//! 1 alpha bit; a byte carries two units, most significant nibble first.

use vstd::prelude::*;

verus! {

/// One 4-bit intensity+alpha unit: 3 intensity bits, 1 alpha bit.
#[derive(PartialEq, Eq, Structural, Debug, Clone, Copy)]
pub struct IA4 {
    pub i: u8,
    pub a: u8,
}

/// The `k`-th 4-bit intensity+alpha unit of a byte stream.
pub open spec fn ia4_unit_at(b: Seq<u8>, k: int) -> IA4 {
    let bits = if k % 2 == 0 {
        (b[k / 2] >> 4) & 0x0F
    } else {
        b[k / 2] & 0x0F
    };
    IA4 { i: (bits >> 1) & 0x7, a: bits & 1 }
}

/// Walks a byte buffer and hands out one 4-bit intensity+alpha unit
/// per call.
pub struct IA4Adaptor {
    bytes: Vec<u8>,
    pos: usize,
    low_next: bool,
}

impl IA4Adaptor {
    /// The bytes this adaptor draws from.
    pub closed spec fn stream(self) -> Seq<u8> {
        self.bytes@
    }

    /// How many units have been produced so far.
    pub closed spec fn units_read(self) -> int {
        2 * (self.pos as int) + if self.low_next {
            1int
        } else {
            0int
        }
    }

    pub closed spec fn wf(self) -> bool {
        &&& self.pos <= self.bytes@.len()
        &&& (self.low_next ==> self.pos < self.bytes@.len())
    }

    pub fn new(bytes: Vec<u8>) -> (r: Self)
        ensures
            r.stream() == bytes@,
            r.units_read() == 0,
            r.wf(),
    {
        IA4Adaptor { bytes, pos: 0, low_next: false }
    }

    /// Produces the next unit, or `None` once the stream is exhausted.
    pub fn next(&mut self) -> (r: Option<IA4>)
        requires
            old(self).wf(),
        ensures
            final (self).wf(),
            final (self).stream() == old(self).stream(),
            old(self).units_read() < 2 * old(self).stream().len() ==> r == Some(
                ia4_unit_at(old(self).stream(), old(self).units_read()),
            ) && final (self).units_read() == old(self).units_read() + 1,
            old(self).units_read() >= 2 * old(self).stream().len() ==> r == None::<IA4> && final (
            self).units_read() == old(self).units_read(),
    {
        let n: usize = self.bytes.len();
        if self.low_next {
            let bits: u8 = self.bytes[self.pos] & 0x0F;
            self.low_next = false;
            self.pos = self.pos + 1;
            Some(IA4 { i: (bits >> 1) & 0x7, a: bits & 1 })
        } else if self.pos < n {
            let bits: u8 = (self.bytes[self.pos] >> 4) & 0x0F;
            self.low_next = true;
            Some(IA4 { i: (bits >> 1) & 0x7, a: bits & 1 })
        } else {
            None
        }
    }
}

} // verus!
