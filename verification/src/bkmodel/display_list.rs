//! The graphics-command section: a 32-bit command count, four filler
//! bytes preserved verbatim, then `count` fixed 8-byte commands. The
//! commands are carried as opaque 64-bit words; the codec does not
//! interpret their opcodes. This section is never padded: its size is
//! already a multiple of 8.

use crate::bebytes::be_u32_at;
use crate::bebytes::be_u64_at;
use crate::bebytes::concat_map;
use crate::bebytes::copy_range;
use crate::bebytes::lemma_concat_map_fixed_len;
use crate::bebytes::lemma_concat_map_push;
use crate::bebytes::lemma_u32_bytes_at;
use crate::bebytes::lemma_u64_bytes_at;
use crate::bebytes::push_all;
use crate::bebytes::push_u32;
use crate::bebytes::push_u64;
use crate::bebytes::read_u32;
use crate::bebytes::read_u64;
use crate::bebytes::spec_u32_bytes;
use crate::bebytes::spec_u64_bytes;
use crate::bebytes::zeros;
use crate::error::TryFromBEBytesError;
use vstd::prelude::*;

verus! {

/// The encoding function of one 8-byte command word.
pub open spec fn gfx_elem_bytes() -> spec_fn(u64) -> Seq<u8> {
    |g: u64| spec_u64_bytes(g)
}

/// The graphics-command list.
#[derive(Debug)]
pub struct BKGfxList {
    /// The command words, in order.
    pub gfx: Vec<u64>,
    /// The four bytes after the count, preserved for re-encoding;
    /// `None` writes four zero bytes.
    pub header_filler: Option<Vec<u8>>,
}

impl BKGfxList {
    /// The count fits its 32-bit field and a kept filler has its
    /// on-disk width.
    pub open spec fn wf(self) -> bool {
        &&& self.gfx@.len() <= 0xFFFFFFFF
        &&& match self.header_filler {
            Option::Some(f) => f@.len() == 4,
            Option::None => true,
        }
    }

    /// The four bytes written after the count.
    pub open spec fn spec_filler(self) -> Seq<u8> {
        match self.header_filler {
            Option::Some(f) => f@,
            Option::None => zeros(4),
        }
    }

    /// Encoded size: count, filler, and the 8-byte commands.
    pub open spec fn spec_size(self) -> int {
        8 + (self.gfx@.len() as int) * 8
    }

    /// The bytes written for the whole section.
    pub open spec fn spec_bytes(self) -> Seq<u8> {
        spec_u32_bytes((self.gfx@.len() as int) as u32) + self.spec_filler() + concat_map(
            self.gfx@,
            gfx_elem_bytes(),
        )
    }

    /// The section's encoded length is a multiple of 8 and matches
    /// `spec_size`.
    pub proof fn lemma_size(self)
        requires
            self.wf(),
        ensures
            self.spec_size() % 8 == 0,
            self.spec_bytes().len() == self.spec_size(),
            self.spec_size() >= 8,
    {
        lemma_concat_map_fixed_len(self.gfx@, gfx_elem_bytes(), 8);
    }

    /// Decodes the section. Fails with `Truncated` exactly when the
    /// buffer is shorter than its 32-bit count declares. Every byte
    /// consumed is preserved, so decoding always writes back its
    /// input prefix.
    #[verifier::rlimit(100)]
    pub fn try_from_be_bytes(bytes: &[u8]) -> (r: Result<BKGfxList, TryFromBEBytesError>)
        ensures
            r.is_ok() <==> bytes@.len() >= 8 && 8 + (be_u32_at(bytes@, 0) as int) * 8
                <= bytes@.len(),
            r matches Err(e) ==> e == TryFromBEBytesError::Truncated,
            r matches Ok(list) ==> {
                &&& list.wf()
                &&& list.gfx@.len() == be_u32_at(bytes@, 0) as int
                &&& list.header_filler matches Some(f) && f@ == bytes@.subrange(4, 8)
                &&& list.spec_size() == 8 + (be_u32_at(bytes@, 0) as int) * 8
                &&& forall|j: int|
                    0 <= j < list.gfx@.len() ==> (#[trigger] list.gfx@[j]) == be_u64_at(
                        bytes@,
                        8 + j * 8,
                    )
                &&& list.spec_bytes() =~= bytes@.subrange(0, list.spec_size())
            },
    {
        let blen: usize = bytes.len();
        if blen < 8 {
            return Err(TryFromBEBytesError::Truncated);
        }
        let count_u32: u32 = read_u32(bytes, 0);
        let count: usize = count_u32 as usize;
        if (blen - 8) / 8 < count {
            proof {
                assert((blen - 8) / 8 < count ==> 8 + count * 8 > blen) by (nonlinear_arith);
            }
            return Err(TryFromBEBytesError::Truncated);
        }
        proof {
            assert((blen - 8) / 8 >= count ==> 8 + count * 8 <= blen) by (nonlinear_arith);
        }
        let ghost gb = bytes@;
        let mut gfx: Vec<u64> = Vec::new();
        let mut j: usize = 0;
        while j < count
            invariant
                j <= count,
                gb == bytes@,
                8 + count * 8 <= gb.len() <= usize::MAX,
                gfx@.len() == j,
                forall|x: int| 0 <= x < j ==> (#[trigger] gfx@[x]) == be_u64_at(gb, 8 + x * 8),
                concat_map(gfx@, gfx_elem_bytes()) =~= gb.subrange(8, 8 + j * 8),
            decreases count - j,
        {
            proof {
                assert(j * 8 + 8 <= count * 8) by (nonlinear_arith)
                    requires
                        j < count,
                ;
            }
            let g: u64 = read_u64(bytes, 8 + j * 8);
            proof {
                lemma_u64_bytes_at(gb, 8 + (j as int) * 8);
                lemma_concat_map_push(gfx@, gfx_elem_bytes(), g);
                assert(gb.subrange(8, 8 + (j + 1) * 8) =~= gb.subrange(8, 8 + (j as int) * 8)
                    + gb.subrange(8 + (j as int) * 8, 8 + ((j as int) + 1) * 8));
            }
            gfx.push(g);
            j = j + 1;
        }
        let list = BKGfxList { gfx, header_filler: Some(copy_range(bytes, 4, 8)) };
        proof {
            lemma_u32_bytes_at(gb, 0);
            assert(list.spec_bytes() =~= gb.subrange(0, list.spec_size()));
        }
        Ok(list)
    }

    /// Writes the section with the preserved filler bytes.
    #[verifier::rlimit(100)]
    pub fn to_be_bytes(&self) -> (r: Vec<u8>)
        requires
            self.wf(),
        ensures
            r@ =~= self.spec_bytes(),
    {
        let mut out: Vec<u8> = Vec::new();
        push_u32(&mut out, self.gfx.len() as u32);
        match &self.header_filler {
            Option::Some(f) => push_all(&mut out, f),
            Option::None => {
                out.push(0u8);
                out.push(0u8);
                out.push(0u8);
                out.push(0u8);
                proof {
                    assert(out@.subrange(4, 8) =~= zeros(4));
                }
            },
        }
        proof {
            assert(out@ =~= spec_u32_bytes((self.gfx@.len() as int) as u32) + self.spec_filler());
        }
        let ghost hdr = out@;
        let mut j: usize = 0;
        while j < self.gfx.len()
            invariant
                j <= self.gfx@.len(),
                out@ =~= hdr + concat_map(self.gfx@.subrange(0, j as int), gfx_elem_bytes()),
            decreases self.gfx@.len() - j,
        {
            push_u64(&mut out, self.gfx[j]);
            proof {
                lemma_concat_map_push(
                    self.gfx@.subrange(0, j as int),
                    gfx_elem_bytes(),
                    self.gfx@[j as int],
                );
                assert(self.gfx@.subrange(0, j as int + 1) =~= self.gfx@.subrange(0, j as int).push(
                    self.gfx@[j as int],
                ));
            }
            j = j + 1;
        }
        proof {
            assert(self.gfx@.subrange(0, self.gfx@.len() as int) =~= self.gfx@);
            assert(out@ =~= self.spec_bytes());
        }
        out
    }

    /// Writes the section with four zero filler bytes, regardless of
    /// what was decoded.
    pub fn to_bytes(&self) -> (r: Vec<u8>)
        requires
            self.wf(),
        ensures
            r@ =~= spec_u32_bytes((self.gfx@.len() as int) as u32) + zeros(4) + concat_map(
                self.gfx@,
                gfx_elem_bytes(),
            ),
    {
        let zeroed = BKGfxList { gfx: self.copy_gfx(), header_filler: None };
        zeroed.to_be_bytes()
    }

    /// A copy of the command words.
    fn copy_gfx(&self) -> (r: Vec<u64>)
        ensures
            r@ == self.gfx@,
    {
        let mut r: Vec<u64> = Vec::new();
        let mut j: usize = 0;
        while j < self.gfx.len()
            invariant
                j <= self.gfx@.len(),
                r@ =~= self.gfx@.subrange(0, j as int),
            decreases self.gfx@.len() - j,
        {
            r.push(self.gfx[j]);
            proof {
                assert(r@ =~= self.gfx@.subrange(0, j as int + 1));
            }
            j = j + 1;
        }
        proof {
            assert(self.gfx@.subrange(0, self.gfx@.len() as int) =~= self.gfx@);
        }
        r
    }

    /// Encoded size in bytes, always a multiple of 8.
    pub fn size(&self) -> (r: usize)
        requires
            self.wf(),
            self.spec_size() <= usize::MAX,
        ensures
            r == self.spec_size(),
    {
        proof {
            assert((self.gfx@.len() as int) * 8 == self.gfx@.len() * 8) by (nonlinear_arith);
        }
        8 + self.gfx.len() * 8
    }
}

} // verus!
