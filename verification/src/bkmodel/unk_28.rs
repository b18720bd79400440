//! An auxiliary section of variable-length records: a 16-bit record
//! count and two reserved bytes, then records each holding a signed
//! triple, a signed byte, an index count byte, and that many 16-bit
//! vertex indices. The section is zero-padded to a multiple of 8.

use crate::bebytes::be_i16_at;
use crate::bebytes::be_u16_at;
use crate::bebytes::concat_map;
use crate::bebytes::i8_as_u8;
use crate::bebytes::lemma_align8;
use crate::bebytes::lemma_concat_map_fixed_len;
use crate::bebytes::lemma_concat_map_push;
use crate::bebytes::lemma_i16_bytes_at;
use crate::bebytes::lemma_u16_bytes_at;
use crate::bebytes::pad_to;
use crate::bebytes::push_i16;
use crate::bebytes::push_u16;
use crate::bebytes::read_i16;
use crate::bebytes::read_u16;
use crate::bebytes::spec_align8;
use crate::bebytes::spec_i16_bytes;
use crate::bebytes::spec_u16_bytes;
use crate::bebytes::u8_as_i8;
use crate::bebytes::zeros;
use crate::error::TryFromBEBytesError;
use vstd::prelude::*;

verus! {

/// The encoding function of one 16-bit vertex index.
pub open spec fn unk28_idx_bytes() -> spec_fn(u16) -> Seq<u8> {
    |v: u16| spec_u16_bytes(v)
}

/// One variable-length record: a coordinate, an animation index, and
/// a list of vertex indices whose count is stored in one byte.
#[derive(Debug)]
pub struct BKModelUnk28 {
    pub coord: [i16; 3],
    pub anim_indx: i8,
    pub vtx_index_list: Vec<u16>,
}

impl BKModelUnk28 {
    /// The index count fits its one-byte field.
    pub open spec fn wf(self) -> bool {
        self.vtx_index_list@.len() <= 0xFF
    }

    /// Encoded size: the 8-byte record head plus the indices.
    pub open spec fn spec_size(self) -> int {
        8 + (self.vtx_index_list@.len() as int) * 2
    }

    /// The bytes written for this record. The count is re-derived
    /// from the live index list.
    pub open spec fn spec_bytes(self) -> Seq<u8> {
        spec_i16_bytes(self.coord[0]) + spec_i16_bytes(self.coord[1]) + spec_i16_bytes(
            self.coord[2],
        ) + seq![i8_as_u8(self.anim_indx), (self.vtx_index_list@.len() as int) as u8] + concat_map(
            self.vtx_index_list@,
            unk28_idx_bytes(),
        )
    }

    pub proof fn lemma_size(self)
        ensures
            self.spec_bytes().len() == self.spec_size(),
    {
        lemma_concat_map_fixed_len(self.vtx_index_list@, unk28_idx_bytes(), 2);
    }

    /// Decodes one record. Fails with `Truncated` exactly when the
    /// buffer is shorter than the record's own index count declares.
    /// Every byte consumed is preserved, so decoding always writes
    /// back its input prefix.
    #[verifier::rlimit(100)]
    pub fn try_from_be_bytes(bytes: &[u8]) -> (r: Result<BKModelUnk28, TryFromBEBytesError>)
        ensures
            r.is_ok() <==> bytes@.len() >= 8 && 8 + (bytes@[7] as int) * 2 <= bytes@.len(),
            r matches Err(e) ==> e == TryFromBEBytesError::Truncated,
            r matches Ok(m) ==> {
                &&& m.wf()
                &&& m.coord[0] == be_i16_at(bytes@, 0) && m.coord[1] == be_i16_at(bytes@, 2)
                    && m.coord[2] == be_i16_at(bytes@, 4)
                &&& m.anim_indx == crate::bebytes::u8_as_i8(bytes@[6])
                &&& m.vtx_index_list@.len() == bytes@[7] as int
                &&& m.spec_size() == 8 + (bytes@[7] as int) * 2
                &&& m.spec_bytes() =~= bytes@.subrange(0, m.spec_size())
            },
    {
        let blen: usize = bytes.len();
        if blen < 8 {
            return Err(TryFromBEBytesError::Truncated);
        }
        let count: usize = bytes[7] as usize;
        if (blen - 8) / 2 < count {
            proof {
                assert((blen - 8) / 2 < count ==> 8 + count * 2 > blen) by (nonlinear_arith);
            }
            return Err(TryFromBEBytesError::Truncated);
        }
        proof {
            assert((blen - 8) / 2 >= count ==> 8 + count * 2 <= blen) by (nonlinear_arith);
        }
        let ghost gb = bytes@;
        let mut vtx_index_list: Vec<u16> = Vec::new();
        let mut j: usize = 0;
        while j < count
            invariant
                j <= count,
                gb == bytes@,
                8 + count * 2 <= gb.len() <= usize::MAX,
                vtx_index_list@.len() == j,
                concat_map(vtx_index_list@, unk28_idx_bytes()) =~= gb.subrange(8, 8 + j * 2),
            decreases count - j,
        {
            let v: u16 = read_u16(bytes, 8 + j * 2);
            proof {
                lemma_u16_bytes_at(gb, 8 + (j as int) * 2);
                lemma_concat_map_push(vtx_index_list@, unk28_idx_bytes(), v);
                assert(gb.subrange(8, 8 + (j + 1) * 2) =~= gb.subrange(8, 8 + (j as int) * 2)
                    + gb.subrange(8 + (j as int) * 2, 8 + ((j as int) + 1) * 2));
            }
            vtx_index_list.push(v);
            j = j + 1;
        }
        let u: u8 = bytes[6];
        let anim_indx: i8 = if u < 0x80 {
            u as i8
        } else {
            ((u as i16) - 0x100) as i8
        };
        let m = BKModelUnk28 {
            coord: [read_i16(bytes, 0), read_i16(bytes, 2), read_i16(bytes, 4)],
            anim_indx,
            vtx_index_list,
        };
        proof {
            lemma_i16_bytes_at(gb, 0);
            lemma_i16_bytes_at(gb, 2);
            lemma_i16_bytes_at(gb, 4);
            assert(m.spec_bytes() =~= gb.subrange(0, m.spec_size()));
        }
        Ok(m)
    }

    #[verifier::rlimit(100)]
    pub fn to_be_bytes(&self) -> (r: Vec<u8>)
        requires
            self.wf(),
        ensures
            r@ =~= self.spec_bytes(),
    {
        let mut out: Vec<u8> = Vec::new();
        push_i16(&mut out, self.coord[0]);
        push_i16(&mut out, self.coord[1]);
        push_i16(&mut out, self.coord[2]);
        let v: i8 = self.anim_indx;
        let uv: u8 = if v >= 0 {
            v as u8
        } else {
            ((v as i16) + 0x100) as u8
        };
        out.push(uv);
        out.push(self.vtx_index_list.len() as u8);
        let ghost hdr = out@;
        let mut j: usize = 0;
        while j < self.vtx_index_list.len()
            invariant
                j <= self.vtx_index_list@.len(),
                out@ =~= hdr + concat_map(
                    self.vtx_index_list@.subrange(0, j as int),
                    unk28_idx_bytes(),
                ),
            decreases self.vtx_index_list@.len() - j,
        {
            push_u16(&mut out, self.vtx_index_list[j]);
            proof {
                lemma_concat_map_push(
                    self.vtx_index_list@.subrange(0, j as int),
                    unk28_idx_bytes(),
                    self.vtx_index_list@[j as int],
                );
                assert(self.vtx_index_list@.subrange(0, j as int + 1)
                    =~= self.vtx_index_list@.subrange(0, j as int).push(
                    self.vtx_index_list@[j as int],
                ));
            }
            j = j + 1;
        }
        proof {
            assert(self.vtx_index_list@.subrange(0, self.vtx_index_list@.len() as int)
                =~= self.vtx_index_list@);
            assert(out@ =~= self.spec_bytes());
        }
        out
    }

    /// Encoded size of this record in bytes.
    pub fn size(&self) -> (r: usize)
        requires
            self.wf(),
        ensures
            r == self.spec_size(),
    {
        8 + self.vtx_index_list.len() * 2
    }
}

/// The encoding function of one record.
pub open spec fn unk28_bytes() -> spec_fn(BKModelUnk28) -> Seq<u8> {
    |m: BKModelUnk28| m.spec_bytes()
}

/// Walks `n` records starting at `off` and yields the offset just
/// past the last one, or `None` where a record overruns `b`.
pub open spec fn unk28_walk(b: Seq<u8>, off: int, n: int) -> Option<int>
    decreases n,
{
    if n <= 0 {
        Some(off)
    } else if off + 8 > b.len() {
        None
    } else if off + 8 + (b[off + 7] as int) * 2 > b.len() {
        None
    } else {
        unk28_walk(b, off + 8 + (b[off + 7] as int) * 2, n - 1)
    }
}

/// The variable-record auxiliary section.
#[derive(Debug)]
pub struct BKModelUnk28List {
    pub list: Vec<BKModelUnk28>,
}

impl BKModelUnk28List {
    /// Unpadded size: the 4-byte sub-header plus every record.
    pub open spec fn spec_raw(self) -> int {
        4 + concat_map(self.list@, unk28_bytes()).len() as int
    }

    /// The record count fits its 16-bit field, every record is
    /// well-formed, and the section size stays within its 32-bit
    /// world.
    pub open spec fn wf(self) -> bool {
        &&& self.list@.len() <= 0xFFFF
        &&& forall|j: int| 0 <= j < self.list@.len() ==> (#[trigger] self.list@[j]).wf()
        &&& spec_align8(self.spec_raw()) <= usize::MAX
    }

    /// Encoded size: the records padded to a multiple of 8.
    pub open spec fn spec_size(self) -> int {
        spec_align8(self.spec_raw())
    }

    /// The bytes written for the whole section.
    pub open spec fn spec_bytes(self) -> Seq<u8> {
        spec_u16_bytes((self.list@.len() as int) as u16) + seq![0u8, 0u8] + concat_map(
            self.list@,
            unk28_bytes(),
        ) + zeros(self.spec_size() - self.spec_raw())
    }

    /// The section's encoded length is a multiple of 8 and matches
    /// `spec_size`.
    pub proof fn lemma_size(self)
        ensures
            self.spec_size() % 8 == 0,
            self.spec_bytes().len() == self.spec_size(),
            self.spec_size() >= 4,
    {
        lemma_align8(self.spec_raw());
    }

    /// True when the reserved bytes and the padding bytes are zero,
    /// which is what re-encoding writes there.
    pub open spec fn pad_exact(self, b: Seq<u8>) -> bool {
        &&& b[2] == 0
        &&& b[3] == 0
        &&& forall|k: int| self.spec_raw() <= k < self.spec_size() ==> #[trigger] b[k] == 0
    }

    /// Decodes the section, walking the records sequentially. Fails
    /// with `Truncated` exactly when a record overruns the buffer or
    /// the padded end does.
    #[verifier::rlimit(100)]
    pub fn try_from_be_bytes(bytes: &[u8]) -> (r: Result<BKModelUnk28List, TryFromBEBytesError>)
        ensures
            r.is_ok() <==> bytes@.len() >= 4 && (unk28_walk(
                bytes@,
                4,
                be_u16_at(bytes@, 0) as int,
            ) matches Some(raw) && spec_align8(raw) <= bytes@.len()),
            r matches Err(e) ==> e == TryFromBEBytesError::Truncated,
            r matches Ok(list) ==> {
                &&& list.wf()
                &&& list.list@.len() == be_u16_at(bytes@, 0) as int
                &&& unk28_walk(bytes@, 4, be_u16_at(bytes@, 0) as int) == Some(list.spec_raw())
                &&& (list.pad_exact(bytes@) ==> list.spec_bytes() =~= bytes@.subrange(
                    0,
                    list.spec_size(),
                ))
            },
    {
        let blen: usize = bytes.len();
        if blen < 4 {
            return Err(TryFromBEBytesError::Truncated);
        }
        let count: usize = read_u16(bytes, 0) as usize;
        let ghost gb = bytes@;
        let mut list: Vec<BKModelUnk28> = Vec::new();
        let mut off: usize = 4;
        let mut i: usize = 0;
        while i < count
            invariant
                i <= count,
                gb == bytes@,
                gb.len() == blen,
                count == be_u16_at(gb, 0),
                4 <= off <= gb.len() <= usize::MAX,
                list@.len() == i,
                forall|j: int| 0 <= j < i ==> (#[trigger] list@[j]).wf(),
                unk28_walk(gb, 4, count as int) == unk28_walk(gb, off as int, (count - i) as int),
                concat_map(list@, unk28_bytes()) =~= gb.subrange(4, off as int),
            decreases count - i,
        {
            let rest: &[u8] = vstd::slice::slice_subrange(bytes, off, blen);
            let m = match BKModelUnk28::try_from_be_bytes(rest) {
                Ok(m) => m,
                Err(e) => {
                    proof {
                        assert(rest@.len() == gb.len() - off);
                        if off + 8 <= gb.len() {
                            assert(rest@[7] == gb[off + 7]);
                        }
                        assert(unk28_walk(gb, off as int, (count - i) as int) is None);
                    }
                    return Err(TryFromBEBytesError::Truncated);
                },
            };
            proof {
                assert(rest@.len() == gb.len() - off);
                assert(off + 8 <= gb.len());
                assert(rest@[7] == gb[off + 7]);
                assert(off + m.spec_size() <= gb.len());
                assert(unk28_walk(gb, off as int, (count - i) as int) == unk28_walk(
                    gb,
                    off + m.spec_size(),
                    (count - i - 1) as int,
                ));
                lemma_concat_map_push(list@, unk28_bytes(), m);
                assert(rest@.subrange(0, m.spec_size()) =~= gb.subrange(
                    off as int,
                    off + m.spec_size(),
                ));
                assert(gb.subrange(4, off + m.spec_size()) =~= gb.subrange(4, off as int)
                    + gb.subrange(off as int, off + m.spec_size()));
            }
            let msize: usize = m.size();
            list.push(m);
            off = off + msize;
            i = i + 1;
        }
        proof {
            lemma_align8(off as int);
            crate::bebytes::lemma_align8_pad(off as int);
        }
        let rem: usize = off % 8;
        let pad: usize = if rem == 0 {
            0
        } else {
            8 - rem
        };
        if blen - off < pad {
            return Err(TryFromBEBytesError::Truncated);
        }
        let r = BKModelUnk28List { list };
        proof {
            assert(r.spec_raw() == off as int);
            lemma_u16_bytes_at(gb, 0);
            if r.pad_exact(gb) {
                r.lemma_size();
                assert(r.spec_bytes() =~= gb.subrange(0, r.spec_size()));
            }
        }
        Ok(r)
    }

    #[verifier::rlimit(100)]
    pub fn to_be_bytes(&self) -> (r: Vec<u8>)
        requires
            self.wf(),
        ensures
            r@ =~= self.spec_bytes(),
    {
        let mut out: Vec<u8> = Vec::new();
        push_u16(&mut out, self.list.len() as u16);
        out.push(0u8);
        out.push(0u8);
        let ghost hdr = out@;
        let mut j: usize = 0;
        while j < self.list.len()
            invariant
                j <= self.list@.len(),
                self.wf(),
                out@ =~= hdr + concat_map(self.list@.subrange(0, j as int), unk28_bytes()),
            decreases self.list@.len() - j,
        {
            let mut eb: Vec<u8> = self.list[j].to_be_bytes();
            out.append(&mut eb);
            proof {
                lemma_concat_map_push(
                    self.list@.subrange(0, j as int),
                    unk28_bytes(),
                    self.list@[j as int],
                );
                assert(self.list@.subrange(0, j as int + 1) =~= self.list@.subrange(0, j as int).push(
                    self.list@[j as int],
                ));
            }
            j = j + 1;
        }
        proof {
            assert(self.list@.subrange(0, self.list@.len() as int) =~= self.list@);
            self.lemma_size();
        }
        let target: usize = self.size();
        pad_to(&mut out, target);
        proof {
            assert(out@ =~= self.spec_bytes());
        }
        out
    }

    /// The unpadded size: the sub-header plus every record.
    fn raw_size(&self) -> (r: usize)
        requires
            self.wf(),
        ensures
            r == self.spec_raw(),
    {
        let mut sum: usize = 4;
        let mut j: usize = 0;
        while j < self.list.len()
            invariant
                j <= self.list@.len(),
                self.wf(),
                sum == 4 + concat_map(self.list@.subrange(0, j as int), unk28_bytes()).len(),
            decreases self.list@.len() - j,
        {
            proof {
                crate::bebytes::lemma_concat_map_split(self.list@, unk28_bytes(), j as int + 1);
                lemma_concat_map_push(
                    self.list@.subrange(0, j as int),
                    unk28_bytes(),
                    self.list@[j as int],
                );
                assert(self.list@.subrange(0, j as int + 1) =~= self.list@.subrange(0, j as int).push(
                    self.list@[j as int],
                ));
                assert(self.list@.subrange(0, j as int + 1).subrange(0, j as int)
                    =~= self.list@.subrange(0, j as int));
                self.list@[j as int].lemma_size();
            }
            let msize: usize = self.list[j].size();
            sum = sum + msize;
            j = j + 1;
        }
        proof {
            assert(self.list@.subrange(0, self.list@.len() as int) =~= self.list@);
        }
        sum
    }

    /// Encoded size in bytes, always a multiple of 8.
    pub fn size(&self) -> (r: usize)
        requires
            self.wf(),
        ensures
            r == self.spec_size(),
    {
        proof {
            self.lemma_size();
            crate::bebytes::lemma_align8_pad(self.spec_raw());
        }
        let raw: usize = self.raw_size();
        let rem: usize = raw % 8;
        if rem == 0 {
            raw
        } else {
            raw + (8 - rem)
        }
    }
}

} // verus!
