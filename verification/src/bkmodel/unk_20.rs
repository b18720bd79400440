//! An auxiliary record table: a one-byte count, a reserved byte, then
//! `count` fixed 14-byte records, zero-padded to a multiple of 8.

use crate::bebytes::be_i16_at;
use crate::bebytes::concat_map;
use crate::bebytes::lemma_align8;
use crate::bebytes::lemma_concat_map_fixed_len;
use crate::bebytes::lemma_concat_map_push;
use crate::bebytes::lemma_i16_bytes_at;
use crate::bebytes::pad_to;
use crate::bebytes::push_i16;
use crate::bebytes::read_i16;
use crate::bebytes::spec_align8;
use crate::bebytes::spec_i16_bytes;
use crate::bebytes::zeros;
use crate::error::TryFromBEBytesError;
use vstd::prelude::*;

verus! {

/// The two-byte sub-header of the table: a record count and one
/// reserved byte.
pub struct BKModelUnk20ListHeader {
    pub count: u8,
    pub pad_1: u8,
}

impl BKModelUnk20ListHeader {
    /// The two bytes written for this sub-header.
    pub open spec fn spec_bytes(self) -> Seq<u8> {
        seq![self.count, self.pad_1]
    }

    /// Number of records the sub-header declares.
    pub open spec fn spec_count(self) -> u8 {
        self.count
    }

    pub fn from_be_bytes(bytes: [u8; 2]) -> (r: Self)
        ensures
            r.count == bytes[0],
            r.pad_1 == bytes[1],
            r.spec_bytes() =~= bytes@,
    {
        BKModelUnk20ListHeader { count: bytes[0], pad_1: bytes[1] }
    }

    #[verifier::rlimit(100)]
    pub fn to_be_bytes(&self) -> (r: [u8; 2])
        ensures
            r@ =~= self.spec_bytes(),
    {
        [self.count, self.pad_1]
    }
}

/// One fixed 14-byte record: two signed 16-bit triples, one byte, and
/// a reserved byte that is written back as zero.
#[derive(Debug)]
pub struct BKModelUnk20Element {
    pub unk_0: [i16; 3],
    pub unk_6: [i16; 3],
    pub unk_c: u8,
}

impl BKModelUnk20Element {
    /// The 14 bytes written for this record.
    pub open spec fn spec_bytes(self) -> Seq<u8> {
        spec_i16_bytes(self.unk_0[0]) + spec_i16_bytes(self.unk_0[1]) + spec_i16_bytes(
            self.unk_0[2],
        ) + spec_i16_bytes(self.unk_6[0]) + spec_i16_bytes(self.unk_6[1]) + spec_i16_bytes(
            self.unk_6[2],
        ) + seq![self.unk_c, 0u8]
    }

    /// The fields hold exactly what the first 14 bytes of `b` store.
    pub open spec fn parses_from(self, b: Seq<u8>) -> bool {
        &&& self.unk_0[0] == be_i16_at(b, 0)
        &&& self.unk_0[1] == be_i16_at(b, 2)
        &&& self.unk_0[2] == be_i16_at(b, 4)
        &&& self.unk_6[0] == be_i16_at(b, 6)
        &&& self.unk_6[1] == be_i16_at(b, 8)
        &&& self.unk_6[2] == be_i16_at(b, 10)
        &&& self.unk_c == b[0xC]
    }

    /// A record read from `b` writes `b` back, provided the reserved
    /// byte was zero.
    pub proof fn lemma_roundtrip(self, b: Seq<u8>)
        requires
            b.len() >= 0xE,
            self.parses_from(b),
            b[0xD] == 0,
        ensures
            self.spec_bytes() =~= b.subrange(0, 0xE),
    {
        lemma_i16_bytes_at(b, 0);
        lemma_i16_bytes_at(b, 2);
        lemma_i16_bytes_at(b, 4);
        lemma_i16_bytes_at(b, 6);
        lemma_i16_bytes_at(b, 8);
        lemma_i16_bytes_at(b, 10);
    }

    pub fn from_be_bytes(bytes: &[u8]) -> (r: Self)
        requires
            bytes@.len() >= 0xE,
        ensures
            r.parses_from(bytes@),
    {
        BKModelUnk20Element {
            unk_0: [read_i16(bytes, 0), read_i16(bytes, 2), read_i16(bytes, 4)],
            unk_6: [read_i16(bytes, 6), read_i16(bytes, 8), read_i16(bytes, 10)],
            unk_c: bytes[0xC],
        }
    }

    #[verifier::rlimit(100)]
    pub fn to_be_bytes(&self) -> (r: Vec<u8>)
        ensures
            r@ =~= self.spec_bytes(),
    {
        let mut out: Vec<u8> = Vec::new();
        push_i16(&mut out, self.unk_0[0]);
        push_i16(&mut out, self.unk_0[1]);
        push_i16(&mut out, self.unk_0[2]);
        push_i16(&mut out, self.unk_6[0]);
        push_i16(&mut out, self.unk_6[1]);
        push_i16(&mut out, self.unk_6[2]);
        out.push(self.unk_c);
        out.push(0u8);
        proof {
            assert(out@ =~= self.spec_bytes());
        }
        out
    }
}

/// The encoding function of one record, as passed to `concat_map`.
pub open spec fn unk20_elem_bytes() -> spec_fn(BKModelUnk20Element) -> Seq<u8> {
    |e: BKModelUnk20Element| e.spec_bytes()
}

/// True when the reserved and padding bytes of an encoded table are
/// zero, which is what re-encoding writes there.
pub open spec fn unk20_exact(b: Seq<u8>) -> bool {
    let count = b[0] as int;
    let raw = 2 + count * 0xE;
    &&& b[1] == 0
    &&& forall|j: int| 0 <= j < count ==> #[trigger] b[2 + j * 0xE + 0xD] == 0
    &&& forall|k: int| raw <= k < spec_align8(raw) ==> #[trigger] b[k] == 0
}

/// The auxiliary record table section.
#[derive(Debug)]
pub struct BKModelUnk20List {
    pub unk_20_list: Vec<BKModelUnk20Element>,
}

impl BKModelUnk20List {
    /// The records of the table.
    pub open spec fn elems(self) -> Seq<BKModelUnk20Element> {
        self.unk_20_list@
    }

    /// The record count fits its one-byte field.
    pub open spec fn wf(self) -> bool {
        self.elems().len() <= 0xFF
    }

    /// Encoded size: sub-header plus records, padded to a multiple of 8.
    pub open spec fn spec_size(self) -> int {
        spec_align8(2 + (self.elems().len() as int) * 0xE)
    }

    /// The bytes written for the whole section.
    pub open spec fn spec_bytes(self) -> Seq<u8> {
        let raw = 2 + (self.elems().len() as int) * 0xE;
        seq![(self.elems().len() as int) as u8, 0u8] + concat_map(self.elems(), unk20_elem_bytes()) + zeros(
            self.spec_size() - raw,
        )
    }

    /// The section's encoded length is a multiple of 8 and matches
    /// `spec_size`.
    pub proof fn lemma_size(self)
        ensures
            self.spec_size() % 8 == 0,
            self.spec_bytes().len() == self.spec_size(),
            self.spec_size() >= 2,
    {
        let raw = 2 + (self.elems().len() as int) * 0xE;
        lemma_align8(raw as int);
        lemma_concat_map_fixed_len(self.elems(), unk20_elem_bytes(), 0xE);
    }

    /// Decodes the table. Fails with `Truncated` exactly when the
    /// buffer is shorter than the padded size its count byte declares.
    #[verifier::rlimit(100)]
    pub fn try_from_be_bytes(bytes: &[u8]) -> (r: Result<Self, TryFromBEBytesError>)
        ensures
            r.is_ok() <==> bytes@.len() >= 2 && spec_align8(2 + (bytes@[0] as int) * 0xE)
                <= bytes@.len(),
            r matches Err(e) ==> e == TryFromBEBytesError::Truncated,
            r matches Ok(list) ==> {
                &&& list.wf()
                &&& list.elems().len() == bytes@[0] as int
                &&& list.spec_size() == spec_align8(2 + (bytes@[0] as int) * 0xE)
                &&& forall|j: int|
                    0 <= j < list.elems().len() ==> (#[trigger] list.elems()[j]).parses_from(
                        bytes@.subrange(2 + j * 0xE, 2 + (j + 1) * 0xE),
                    )
                &&& (unk20_exact(bytes@) ==> list.spec_bytes() =~= bytes@.subrange(
                    0,
                    list.spec_size(),
                ))
            },
    {
        let blen: usize = bytes.len();
        if blen < 2 {
            return Err(TryFromBEBytesError::Truncated);
        }
        let count: usize = bytes[0] as usize;
        proof {
            lemma_align8(2 + (count as int) * 0xE);
        }
        if (blen - 2) / 0xE < count || crate::bebytes::align8(2 + count * 0xE) > blen {
            proof {
                assert((blen - 2) / 0xE < count ==> 2 + count * 0xE > blen) by (nonlinear_arith);
            }
            return Err(TryFromBEBytesError::Truncated);
        }
        proof {
            assert((blen - 2) / 0xE >= count ==> 2 + count * 0xE <= blen) by (nonlinear_arith);
        }
        let ghost gb = bytes@;
        let mut elems: Vec<BKModelUnk20Element> = Vec::new();
        let mut j: usize = 0;
        while j < count
            invariant
                j <= count,
                gb == bytes@,
                2 + count * 0xE <= gb.len() <= usize::MAX,
                elems@.len() == j,
                forall|x: int|
                    0 <= x < j ==> (#[trigger] elems@[x]).parses_from(
                        gb.subrange(2 + x * 0xE, 2 + (x + 1) * 0xE),
                    ),
                unk20_exact(gb) && count == gb[0] ==> concat_map(elems@, unk20_elem_bytes())
                    =~= gb.subrange(2, 2 + j * 0xE),
            decreases count - j,
        {
            proof {
                assert(2 + j * 0xE + 0xE <= 2 + count * 0xE) by (nonlinear_arith)
                    requires
                        j < count,
                ;
            }
            let chunk: &[u8] = vstd::slice::slice_subrange(bytes, 2 + j * 0xE, 2 + j * 0xE + 0xE);
            let e = BKModelUnk20Element::from_be_bytes(chunk);
            proof {
                assert(chunk@ =~= gb.subrange(2 + j * 0xE, 2 + (j + 1) * 0xE));
                if unk20_exact(gb) && count == gb[0] {
                    assert(gb[2 + (j as int) * 0xE + 0xD] == 0);
                    e.lemma_roundtrip(chunk@);
                    lemma_concat_map_push(elems@, unk20_elem_bytes(), e);
                    assert(gb.subrange(2, 2 + (j + 1) * 0xE) =~= gb.subrange(2, 2 + (j as int)
                        * 0xE) + gb.subrange(2 + (j as int) * 0xE, 2 + ((j as int) + 1) * 0xE));
                }
            }
            elems.push(e);
            j = j + 1;
        }
        let list = BKModelUnk20List { unk_20_list: elems };
        proof {
            if unk20_exact(gb) {
                list.lemma_size();
                assert(list.spec_bytes() =~= gb.subrange(0, list.spec_size()));
            }
        }
        Ok(list)
    }

    #[verifier::rlimit(100)]
    pub fn to_be_bytes(&self) -> (r: Vec<u8>)
        requires
            self.wf(),
        ensures
            r@ =~= self.spec_bytes(),
    {
        let mut out: Vec<u8> = Vec::new();
        out.push(self.unk_20_list.len() as u8);
        out.push(0u8);
        let mut j: usize = 0;
        while j < self.unk_20_list.len()
            invariant
                j <= self.unk_20_list@.len() <= 0xFF,
                out@ =~= seq![(self.unk_20_list@.len() as int) as u8, 0u8] + concat_map(
                    self.unk_20_list@.subrange(0, j as int),
                    unk20_elem_bytes(),
                ),
            decreases self.unk_20_list@.len() - j,
        {
            let mut eb: Vec<u8> = self.unk_20_list[j].to_be_bytes();
            out.append(&mut eb);
            proof {
                lemma_concat_map_push(
                    self.unk_20_list@.subrange(0, j as int),
                    unk20_elem_bytes(),
                    self.unk_20_list@[j as int],
                );
                assert(self.unk_20_list@.subrange(0, j as int + 1) =~= self.unk_20_list@.subrange(
                    0,
                    j as int,
                ).push(self.unk_20_list@[j as int]));
            }
            j = j + 1;
        }
        proof {
            assert(self.unk_20_list@.subrange(0, self.unk_20_list@.len() as int)
                =~= self.unk_20_list@);
            self.lemma_size();
            lemma_concat_map_fixed_len(self.elems(), unk20_elem_bytes(), 0xE);
        }
        let target: usize = crate::bebytes::align8(2 + self.unk_20_list.len() * 0xE);
        pad_to(&mut out, target);
        proof {
            assert(out@ =~= self.spec_bytes());
        }
        out
    }

    /// Encoded size in bytes, always a multiple of 8.
    pub fn size(&self) -> (r: usize)
        requires
            self.wf(),
        ensures
            r == self.spec_size(),
    {
        crate::bebytes::align8(2 + self.unk_20_list.len() * 0xE)
    }
}

} // verus!
