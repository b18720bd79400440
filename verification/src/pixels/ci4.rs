//! 4-bit colour-index units: each input byte carries two palette
//! indices, most significant nibble first.

use vstd::prelude::*;

verus! {

/// One 4-bit colour-index unit.
#[derive(PartialEq, Eq, Structural, Debug, Clone, Copy)]
pub struct CI4(pub usize);

/// The `k`-th 4-bit unit of a byte stream: the high nibble of byte
/// `k / 2` when `k` is even, the low nibble when `k` is odd.
pub open spec fn ci4_unit_at(b: Seq<u8>, k: int) -> usize {
    if k % 2 == 0 {
        ((b[k / 2] >> 4) & 0x0F) as usize
    } else {
        (b[k / 2] & 0x0F) as usize
    }
}

/// Walks a byte buffer and hands out one 4-bit colour index per call.
pub struct CI4Adaptor {
    bytes: Vec<u8>,
    pos: usize,
    low_next: bool,
}

impl CI4Adaptor {
    /// The bytes this adaptor draws from.
    pub closed spec fn stream(self) -> Seq<u8> {
        self.bytes@
    }

    /// How many units have been produced so far.
    pub closed spec fn units_read(self) -> int {
        2 * (self.pos as int) + if self.low_next {
            1int
        } else {
            0int
        }
    }

    pub closed spec fn wf(self) -> bool {
        &&& self.pos <= self.bytes@.len()
        &&& (self.low_next ==> self.pos < self.bytes@.len())
    }

    pub fn new(bytes: Vec<u8>) -> (r: Self)
        ensures
            r.stream() == bytes@,
            r.units_read() == 0,
            r.wf(),
    {
        CI4Adaptor { bytes, pos: 0, low_next: false }
    }

    /// Produces the next unit, or `None` once the stream is exhausted.
    pub fn next(&mut self) -> (r: Option<CI4>)
        requires
            old(self).wf(),
        ensures
            final (self).wf(),
            final (self).stream() == old(self).stream(),
            old(self).units_read() < 2 * old(self).stream().len() ==> r == Some(
                CI4(ci4_unit_at(old(self).stream(), old(self).units_read())),
            ) && final (self).units_read() == old(self).units_read() + 1,
            old(self).units_read() >= 2 * old(self).stream().len() ==> r == None::<CI4> && final (
            self).units_read() == old(self).units_read(),
    {
        let n: usize = self.bytes.len();
        if self.low_next {
            let v: u8 = self.bytes[self.pos] & 0x0F;
            self.low_next = false;
            self.pos = self.pos + 1;
            Some(CI4(v as usize))
        } else if self.pos < n {
            let v: u8 = (self.bytes[self.pos] >> 4) & 0x0F;
            self.low_next = true;
            Some(CI4(v as usize))
        } else {
            None
        }
    }
}

} // verus!
