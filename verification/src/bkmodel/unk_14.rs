//! An auxiliary section of three independently counted record arrays
//! of widths 0x18, 0x10 and 0xC bytes, behind an 8-byte sub-header,
//! zero-padded to a multiple of 8.

use crate::bebytes::be_i16_at;
use crate::bebytes::be_u16_at;
use crate::bebytes::concat_map;
use crate::bebytes::copy_range;
use crate::bebytes::i8_as_u8;
use crate::bebytes::lemma_align8;
use crate::bebytes::lemma_concat_map_fixed_len;
use crate::bebytes::lemma_concat_map_push;
use crate::bebytes::lemma_i16_bytes_at;
use crate::bebytes::lemma_u16_bytes_at;
use crate::bebytes::pad_to;
use crate::bebytes::push_all;
use crate::bebytes::push_i16;
use crate::bebytes::push_u16;
use crate::bebytes::read_i16;
use crate::bebytes::read_u16;
use crate::bebytes::spec_align8;
use crate::bebytes::spec_i16_bytes;
use crate::bebytes::spec_u16_bytes;
use crate::bebytes::u8_as_i8;
use crate::bebytes::zeros;
use crate::error::TryFromBEBytesError;
use vstd::prelude::*;

verus! {

/// The 8-byte sub-header: three record counts and one signed field.
#[derive(Debug)]
pub struct BKModelUnk14ListHeader {
    pub type_0_count: u16,
    pub type_1_count: u16,
    pub type_2_count: u16,
    pub unk_6: i16,
}

impl BKModelUnk14ListHeader {
    /// The 8 bytes written for this sub-header.
    pub open spec fn spec_bytes(self) -> Seq<u8> {
        spec_u16_bytes(self.type_0_count) + spec_u16_bytes(self.type_1_count) + spec_u16_bytes(
            self.type_2_count,
        ) + spec_i16_bytes(self.unk_6)
    }

    pub fn from_be_bytes(bytes: [u8; 8]) -> (r: Self)
        ensures
            r.type_0_count == be_u16_at(bytes@, 0),
            r.type_1_count == be_u16_at(bytes@, 2),
            r.type_2_count == be_u16_at(bytes@, 4),
            r.unk_6 == be_i16_at(bytes@, 6),
            r.spec_bytes() =~= bytes@,
    {
        let b0: u16 = (bytes[0] as u16) * 0x100 + (bytes[1] as u16);
        let b1: u16 = (bytes[2] as u16) * 0x100 + (bytes[3] as u16);
        let b2: u16 = (bytes[4] as u16) * 0x100 + (bytes[5] as u16);
        let u: u16 = (bytes[6] as u16) * 0x100 + (bytes[7] as u16);
        let unk_6: i16 = if u < 0x8000 {
            u as i16
        } else {
            ((u as i32) - 0x10000) as i16
        };
        let r = BKModelUnk14ListHeader {
            type_0_count: b0,
            type_1_count: b1,
            type_2_count: b2,
            unk_6,
        };
        proof {
            lemma_u16_bytes_at(bytes@, 0);
            lemma_u16_bytes_at(bytes@, 2);
            lemma_u16_bytes_at(bytes@, 4);
            lemma_i16_bytes_at(bytes@, 6);
            assert(r.spec_bytes() =~= bytes@);
        }
        r
    }

    #[verifier::rlimit(100)]
    pub fn to_be_bytes(&self) -> (r: Vec<u8>)
        ensures
            r@ =~= self.spec_bytes(),
    {
        let mut out: Vec<u8> = Vec::new();
        push_u16(&mut out, self.type_0_count);
        push_u16(&mut out, self.type_1_count);
        push_u16(&mut out, self.type_2_count);
        push_i16(&mut out, self.unk_6);
        proof {
            assert(out@ =~= self.spec_bytes());
        }
        out
    }
}

/// One 0x18-byte record: three signed triples, three raw bytes, an
/// unsigned byte, a signed byte, and a reserved byte written as zero.
#[derive(Debug)]
pub struct BKModelUnk14Type0 {
    pub unk_0: [i16; 3],
    pub unk_6: [i16; 3],
    pub unk_c: [i16; 3],
    pub unk_12: [u8; 3],
    pub unk_15: u8,
    pub unk_16: i8,
}

impl BKModelUnk14Type0 {
    /// The 0x18 bytes written for this record.
    pub open spec fn spec_bytes(self) -> Seq<u8> {
        spec_i16_bytes(self.unk_0[0]) + spec_i16_bytes(self.unk_0[1]) + spec_i16_bytes(
            self.unk_0[2],
        ) + spec_i16_bytes(self.unk_6[0]) + spec_i16_bytes(self.unk_6[1]) + spec_i16_bytes(
            self.unk_6[2],
        ) + spec_i16_bytes(self.unk_c[0]) + spec_i16_bytes(self.unk_c[1]) + spec_i16_bytes(
            self.unk_c[2],
        ) + seq![self.unk_12[0], self.unk_12[1], self.unk_12[2], self.unk_15, i8_as_u8(
            self.unk_16,
        ), 0u8]
    }

    /// The fields hold exactly what the first 0x18 bytes of `b` store.
    pub open spec fn parses_from(self, b: Seq<u8>) -> bool {
        &&& self.unk_0[0] == be_i16_at(b, 0)
        &&& self.unk_0[1] == be_i16_at(b, 2)
        &&& self.unk_0[2] == be_i16_at(b, 4)
        &&& self.unk_6[0] == be_i16_at(b, 6)
        &&& self.unk_6[1] == be_i16_at(b, 8)
        &&& self.unk_6[2] == be_i16_at(b, 10)
        &&& self.unk_c[0] == be_i16_at(b, 0xC)
        &&& self.unk_c[1] == be_i16_at(b, 0xE)
        &&& self.unk_c[2] == be_i16_at(b, 0x10)
        &&& self.unk_12[0] == b[0x12]
        &&& self.unk_12[1] == b[0x13]
        &&& self.unk_12[2] == b[0x14]
        &&& self.unk_15 == b[0x15]
        &&& self.unk_16 == u8_as_i8(b[0x16])
    }

    /// A record read from `b` writes `b` back, provided the reserved
    /// byte was zero.
    pub proof fn lemma_roundtrip(self, b: Seq<u8>)
        requires
            b.len() >= 0x18,
            self.parses_from(b),
            b[0x17] == 0,
        ensures
            self.spec_bytes() =~= b.subrange(0, 0x18),
    {
        lemma_i16_bytes_at(b, 0);
        lemma_i16_bytes_at(b, 2);
        lemma_i16_bytes_at(b, 4);
        lemma_i16_bytes_at(b, 6);
        lemma_i16_bytes_at(b, 8);
        lemma_i16_bytes_at(b, 10);
        lemma_i16_bytes_at(b, 0xC);
        lemma_i16_bytes_at(b, 0xE);
        lemma_i16_bytes_at(b, 0x10);
    }

    pub fn from_be_bytes(bytes: &[u8]) -> (r: Self)
        requires
            bytes@.len() >= 0x18,
        ensures
            r.parses_from(bytes@),
    {
        let u: u8 = bytes[0x16];
        let unk_16: i8 = if u < 0x80 {
            u as i8
        } else {
            ((u as i16) - 0x100) as i8
        };
        BKModelUnk14Type0 {
            unk_0: [read_i16(bytes, 0), read_i16(bytes, 2), read_i16(bytes, 4)],
            unk_6: [read_i16(bytes, 6), read_i16(bytes, 8), read_i16(bytes, 10)],
            unk_c: [read_i16(bytes, 0xC), read_i16(bytes, 0xE), read_i16(bytes, 0x10)],
            unk_12: [bytes[0x12], bytes[0x13], bytes[0x14]],
            unk_15: bytes[0x15],
            unk_16,
        }
    }

    #[verifier::rlimit(100)]
    pub fn to_be_bytes(&self) -> (r: Vec<u8>)
        ensures
            r@ =~= self.spec_bytes(),
    {
        let mut out: Vec<u8> = Vec::new();
        push_i16(&mut out, self.unk_0[0]);
        push_i16(&mut out, self.unk_0[1]);
        push_i16(&mut out, self.unk_0[2]);
        push_i16(&mut out, self.unk_6[0]);
        push_i16(&mut out, self.unk_6[1]);
        push_i16(&mut out, self.unk_6[2]);
        push_i16(&mut out, self.unk_c[0]);
        push_i16(&mut out, self.unk_c[1]);
        push_i16(&mut out, self.unk_c[2]);
        out.push(self.unk_12[0]);
        out.push(self.unk_12[1]);
        out.push(self.unk_12[2]);
        out.push(self.unk_15);
        let v: i8 = self.unk_16;
        let uv: u8 = if v >= 0 {
            v as u8
        } else {
            ((v as i16) + 0x100) as u8
        };
        out.push(uv);
        out.push(0u8);
        proof {
            assert(out@ =~= self.spec_bytes());
        }
        out
    }
}

/// One 0x10-byte record, carried as raw bytes.
#[derive(Debug)]
pub struct BKModelUnk14Type1 {
    pub raw_bytes: Vec<u8>,
}

impl BKModelUnk14Type1 {
    pub open spec fn wf(self) -> bool {
        self.raw_bytes@.len() == 0x10
    }

    /// The 0x10 bytes written for this record.
    pub open spec fn spec_bytes(self) -> Seq<u8> {
        self.raw_bytes@
    }

    pub fn from_be_bytes(bytes: &[u8]) -> (r: Self)
        requires
            bytes@.len() >= 0x10,
        ensures
            r.wf(),
            r.spec_bytes() =~= bytes@.subrange(0, 0x10),
    {
        BKModelUnk14Type1 { raw_bytes: copy_range(bytes, 0, 0x10) }
    }

    #[verifier::rlimit(100)]
    pub fn to_be_bytes(&self) -> (r: Vec<u8>)
        ensures
            r@ =~= self.spec_bytes(),
    {
        let mut out: Vec<u8> = Vec::new();
        push_all(&mut out, &self.raw_bytes);
        proof {
            assert(out@ =~= self.spec_bytes());
        }
        out
    }
}

/// One 0xC-byte record, carried as raw bytes.
#[derive(Debug)]
pub struct BKModelUnk14Type2 {
    pub raw_bytes: Vec<u8>,
}

impl BKModelUnk14Type2 {
    pub open spec fn wf(self) -> bool {
        self.raw_bytes@.len() == 0xC
    }

    /// The 0xC bytes written for this record.
    pub open spec fn spec_bytes(self) -> Seq<u8> {
        self.raw_bytes@
    }

    pub fn from_be_bytes(bytes: &[u8]) -> (r: Self)
        requires
            bytes@.len() >= 0xC,
        ensures
            r.wf(),
            r.spec_bytes() =~= bytes@.subrange(0, 0xC),
    {
        BKModelUnk14Type2 { raw_bytes: copy_range(bytes, 0, 0xC) }
    }

    #[verifier::rlimit(100)]
    pub fn to_be_bytes(&self) -> (r: Vec<u8>)
        ensures
            r@ =~= self.spec_bytes(),
    {
        let mut out: Vec<u8> = Vec::new();
        push_all(&mut out, &self.raw_bytes);
        proof {
            assert(out@ =~= self.spec_bytes());
        }
        out
    }
}

/// Encoding functions of the three record kinds.
pub open spec fn unk14_t0_bytes() -> spec_fn(BKModelUnk14Type0) -> Seq<u8> {
    |e: BKModelUnk14Type0| e.spec_bytes()
}

pub open spec fn unk14_t1_bytes() -> spec_fn(BKModelUnk14Type1) -> Seq<u8> {
    |e: BKModelUnk14Type1| e.spec_bytes()
}

pub open spec fn unk14_t2_bytes() -> spec_fn(BKModelUnk14Type2) -> Seq<u8> {
    |e: BKModelUnk14Type2| e.spec_bytes()
}

/// True when the reserved and padding bytes of an encoded section are
/// zero, which is what re-encoding writes there.
pub open spec fn unk14_exact(b: Seq<u8>) -> bool {
    let c0 = be_u16_at(b, 0) as int;
    let c1 = be_u16_at(b, 2) as int;
    let c2 = be_u16_at(b, 4) as int;
    let raw = 8 + c0 * 0x18 + c1 * 0x10 + c2 * 0xC;
    &&& forall|j: int| 0 <= j < c0 ==> #[trigger] b[8 + j * 0x18 + 0x17] == 0
    &&& forall|k: int| raw <= k < spec_align8(raw) ==> #[trigger] b[k] == 0
}

/// The three-array auxiliary section.
#[derive(Debug)]
pub struct BKModelUnk14List {
    pub scale: i16,
    pub type_0_list: Vec<BKModelUnk14Type0>,
    pub type_1_list: Vec<BKModelUnk14Type1>,
    pub type_2_list: Vec<BKModelUnk14Type2>,
}

impl BKModelUnk14List {
    /// Counts fit their 16-bit fields and raw records have their
    /// on-disk widths.
    pub open spec fn wf(self) -> bool {
        &&& self.type_0_list@.len() <= 0xFFFF
        &&& self.type_1_list@.len() <= 0xFFFF
        &&& self.type_2_list@.len() <= 0xFFFF
        &&& forall|j: int|
            0 <= j < self.type_1_list@.len() ==> (#[trigger] self.type_1_list@[j]).wf()
        &&& forall|j: int|
            0 <= j < self.type_2_list@.len() ==> (#[trigger] self.type_2_list@[j]).wf()
    }

    /// Encoded size: sub-header plus the three runs, padded to a
    /// multiple of 8.
    pub open spec fn spec_size(self) -> int {
        spec_align8(
            8 + (self.type_0_list@.len() as int) * 0x18 + (self.type_1_list@.len() as int) * 0x10
                + (self.type_2_list@.len() as int) * 0xC,
        )
    }

    /// The sub-header re-derived from the live lists.
    pub open spec fn spec_header(self) -> BKModelUnk14ListHeader {
        BKModelUnk14ListHeader {
            type_0_count: (self.type_0_list@.len() as int) as u16,
            type_1_count: (self.type_1_list@.len() as int) as u16,
            type_2_count: (self.type_2_list@.len() as int) as u16,
            unk_6: self.scale,
        }
    }

    /// The bytes written for the whole section.
    pub open spec fn spec_bytes(self) -> Seq<u8> {
        let raw = 8 + (self.type_0_list@.len() as int) * 0x18 + (self.type_1_list@.len() as int)
            * 0x10 + (self.type_2_list@.len() as int) * 0xC;
        self.spec_header().spec_bytes() + concat_map(self.type_0_list@, unk14_t0_bytes())
            + concat_map(self.type_1_list@, unk14_t1_bytes()) + concat_map(
            self.type_2_list@,
            unk14_t2_bytes(),
        ) + zeros(self.spec_size() - raw)
    }

    /// The section's encoded length is a multiple of 8 and matches
    /// `spec_size`.
    pub proof fn lemma_size(self)
        requires
            self.wf(),
        ensures
            self.spec_size() % 8 == 0,
            self.spec_bytes().len() == self.spec_size(),
            self.spec_size() >= 8,
    {
        let raw = 8 + (self.type_0_list@.len() as int) * 0x18 + (self.type_1_list@.len() as int)
            * 0x10 + (self.type_2_list@.len() as int) * 0xC;
        lemma_align8(raw);
        lemma_concat_map_fixed_len(self.type_0_list@, unk14_t0_bytes(), 0x18);
        lemma_concat_map_fixed_len(self.type_1_list@, unk14_t1_bytes(), 0x10);
        lemma_concat_map_fixed_len(self.type_2_list@, unk14_t2_bytes(), 0xC);
    }

    /// Live record counts and the preserved scale, as a sub-header.
    pub fn get_header(&self) -> (r: BKModelUnk14ListHeader)
        requires
            self.wf(),
        ensures
            r == self.spec_header(),
    {
        BKModelUnk14ListHeader {
            type_0_count: self.type_0_list.len() as u16,
            type_1_count: self.type_1_list.len() as u16,
            type_2_count: self.type_2_list.len() as u16,
            unk_6: self.scale,
        }
    }

    /// Decodes the section. Fails with `Truncated` exactly when the
    /// buffer is shorter than the padded size its counts declare.
    #[verifier::rlimit(100)]
    pub fn try_from_be_bytes(bytes: &[u8]) -> (r: Result<BKModelUnk14List, TryFromBEBytesError>)
        ensures
            r.is_ok() <==> bytes@.len() >= 8 && spec_align8(
                8 + (be_u16_at(bytes@, 0) as int) * 0x18 + (be_u16_at(bytes@, 2) as int) * 0x10 + (
                be_u16_at(bytes@, 4) as int) * 0xC,
            ) <= bytes@.len(),
            r matches Err(e) ==> e == TryFromBEBytesError::Truncated,
            r matches Ok(list) ==> {
                &&& list.wf()
                &&& list.type_0_list@.len() == be_u16_at(bytes@, 0) as int
                &&& list.type_1_list@.len() == be_u16_at(bytes@, 2) as int
                &&& list.type_2_list@.len() == be_u16_at(bytes@, 4) as int
                &&& list.scale == be_i16_at(bytes@, 6)
                &&& list.spec_size() == spec_align8(
                    8 + (be_u16_at(bytes@, 0) as int) * 0x18 + (be_u16_at(bytes@, 2) as int) * 0x10
                        + (be_u16_at(bytes@, 4) as int) * 0xC,
                )
                &&& (unk14_exact(bytes@) ==> list.spec_bytes() =~= bytes@.subrange(
                    0,
                    list.spec_size(),
                ))
            },
    {
        let blen: usize = bytes.len();
        if blen < 8 {
            return Err(TryFromBEBytesError::Truncated);
        }
        let c0: usize = read_u16(bytes, 0) as usize;
        let c1: usize = read_u16(bytes, 2) as usize;
        let c2: usize = read_u16(bytes, 4) as usize;
        let o1: usize = 8 + c0 * 0x18;
        let o2: usize = o1 + c1 * 0x10;
        let raw: usize = o2 + c2 * 0xC;
        proof {
            lemma_align8(raw as int);
        }
        if crate::bebytes::align8(raw) > blen {
            return Err(TryFromBEBytesError::Truncated);
        }
        let ghost gb = bytes@;
        let mut type_0_list: Vec<BKModelUnk14Type0> = Vec::new();
        let mut j: usize = 0;
        while j < c0
            invariant
                j <= c0,
                gb == bytes@,
                8 + c0 * 0x18 <= gb.len() <= usize::MAX,
                type_0_list@.len() == j,
                unk14_exact(gb) && c0 == be_u16_at(gb, 0) ==> concat_map(
                    type_0_list@,
                    unk14_t0_bytes(),
                ) =~= gb.subrange(8, 8 + j * 0x18),
            decreases c0 - j,
        {
            proof {
                assert(8 + j * 0x18 + 0x18 <= 8 + c0 * 0x18) by (nonlinear_arith)
                    requires
                        j < c0,
                ;
            }
            let chunk: &[u8] = vstd::slice::slice_subrange(
                bytes,
                8 + j * 0x18,
                8 + j * 0x18 + 0x18,
            );
            let e = BKModelUnk14Type0::from_be_bytes(chunk);
            proof {
                if unk14_exact(gb) && c0 == be_u16_at(gb, 0) {
                    assert(gb[8 + (j as int) * 0x18 + 0x17] == 0);
                    e.lemma_roundtrip(chunk@);
                    lemma_concat_map_push(type_0_list@, unk14_t0_bytes(), e);
                    assert(gb.subrange(8, 8 + (j + 1) * 0x18) =~= gb.subrange(8, 8 + (j as int)
                        * 0x18) + gb.subrange(8 + (j as int) * 0x18, 8 + ((j as int) + 1) * 0x18));
                }
            }
            type_0_list.push(e);
            j = j + 1;
        }
        let mut type_1_list: Vec<BKModelUnk14Type1> = Vec::new();
        let mut t: usize = 0;
        while t < c1
            invariant
                t <= c1,
                gb == bytes@,
                o1 == 8 + c0 * 0x18,
                o1 + c1 * 0x10 <= gb.len() <= usize::MAX,
                type_1_list@.len() == t,
                forall|x: int|
                    0 <= x < t ==> (#[trigger] type_1_list@[x]).wf(),
                concat_map(type_1_list@, unk14_t1_bytes()) =~= gb.subrange(
                    o1 as int,
                    o1 + t * 0x10,
                ),
            decreases c1 - t,
        {
            proof {
                assert(t * 0x10 + 0x10 <= c1 * 0x10) by (nonlinear_arith)
                    requires
                        t < c1,
                ;
            }
            let chunk: &[u8] = vstd::slice::slice_subrange(
                bytes,
                o1 + t * 0x10,
                o1 + t * 0x10 + 0x10,
            );
            let e = BKModelUnk14Type1::from_be_bytes(chunk);
            proof {
                lemma_concat_map_push(type_1_list@, unk14_t1_bytes(), e);
                assert(gb.subrange(o1 as int, o1 + (t + 1) * 0x10) =~= gb.subrange(
                    o1 as int,
                    o1 + (t as int) * 0x10,
                ) + gb.subrange(o1 + (t as int) * 0x10, o1 + ((t as int) + 1) * 0x10));
                assert(chunk@.subrange(0, 0x10) =~= chunk@);
            }
            type_1_list.push(e);
            t = t + 1;
        }
        let mut type_2_list: Vec<BKModelUnk14Type2> = Vec::new();
        let mut w: usize = 0;
        while w < c2
            invariant
                w <= c2,
                gb == bytes@,
                o2 == 8 + c0 * 0x18 + c1 * 0x10,
                o2 + c2 * 0xC <= gb.len() <= usize::MAX,
                type_2_list@.len() == w,
                forall|x: int|
                    0 <= x < w ==> (#[trigger] type_2_list@[x]).wf(),
                concat_map(type_2_list@, unk14_t2_bytes()) =~= gb.subrange(
                    o2 as int,
                    o2 + w * 0xC,
                ),
            decreases c2 - w,
        {
            proof {
                assert(w * 0xC + 0xC <= c2 * 0xC) by (nonlinear_arith)
                    requires
                        w < c2,
                ;
            }
            let chunk: &[u8] = vstd::slice::slice_subrange(bytes, o2 + w * 0xC, o2 + w * 0xC + 0xC);
            let e = BKModelUnk14Type2::from_be_bytes(chunk);
            proof {
                lemma_concat_map_push(type_2_list@, unk14_t2_bytes(), e);
                assert(gb.subrange(o2 as int, o2 + (w + 1) * 0xC) =~= gb.subrange(
                    o2 as int,
                    o2 + (w as int) * 0xC,
                ) + gb.subrange(o2 + (w as int) * 0xC, o2 + ((w as int) + 1) * 0xC));
                assert(chunk@.subrange(0, 0xC) =~= chunk@);
            }
            type_2_list.push(e);
            w = w + 1;
        }
        let list = BKModelUnk14List {
            scale: read_i16(bytes, 6),
            type_0_list,
            type_1_list,
            type_2_list,
        };
        proof {
            if unk14_exact(gb) {
                list.lemma_size();
                lemma_u16_bytes_at(gb, 0);
                lemma_u16_bytes_at(gb, 2);
                lemma_u16_bytes_at(gb, 4);
                lemma_i16_bytes_at(gb, 6);
                assert(list.spec_header().spec_bytes() =~= gb.subrange(0, 8));
                assert(list.spec_bytes() =~= gb.subrange(0, list.spec_size()));
            }
        }
        Ok(list)
    }

    #[verifier::rlimit(100)]
    pub fn to_be_bytes(&self) -> (r: Vec<u8>)
        requires
            self.wf(),
        ensures
            r@ =~= self.spec_bytes(),
    {
        let mut out: Vec<u8> = self.get_header().to_be_bytes();
        let ghost hdr = out@;
        let mut j: usize = 0;
        while j < self.type_0_list.len()
            invariant
                j <= self.type_0_list@.len(),
                out@ =~= hdr + concat_map(self.type_0_list@.subrange(0, j as int), unk14_t0_bytes()),
            decreases self.type_0_list@.len() - j,
        {
            let mut eb: Vec<u8> = self.type_0_list[j].to_be_bytes();
            out.append(&mut eb);
            proof {
                lemma_concat_map_push(
                    self.type_0_list@.subrange(0, j as int),
                    unk14_t0_bytes(),
                    self.type_0_list@[j as int],
                );
                assert(self.type_0_list@.subrange(0, j as int + 1) =~= self.type_0_list@.subrange(
                    0,
                    j as int,
                ).push(self.type_0_list@[j as int]));
            }
            j = j + 1;
        }
        let ghost mid1 = out@;
        let mut t: usize = 0;
        while t < self.type_1_list.len()
            invariant
                t <= self.type_1_list@.len(),
                out@ =~= mid1 + concat_map(
                    self.type_1_list@.subrange(0, t as int),
                    unk14_t1_bytes(),
                ),
            decreases self.type_1_list@.len() - t,
        {
            let mut eb: Vec<u8> = self.type_1_list[t].to_be_bytes();
            out.append(&mut eb);
            proof {
                lemma_concat_map_push(
                    self.type_1_list@.subrange(0, t as int),
                    unk14_t1_bytes(),
                    self.type_1_list@[t as int],
                );
                assert(self.type_1_list@.subrange(0, t as int + 1) =~= self.type_1_list@.subrange(
                    0,
                    t as int,
                ).push(self.type_1_list@[t as int]));
            }
            t = t + 1;
        }
        let ghost mid2 = out@;
        let mut w: usize = 0;
        while w < self.type_2_list.len()
            invariant
                w <= self.type_2_list@.len(),
                out@ =~= mid2 + concat_map(
                    self.type_2_list@.subrange(0, w as int),
                    unk14_t2_bytes(),
                ),
            decreases self.type_2_list@.len() - w,
        {
            let mut eb: Vec<u8> = self.type_2_list[w].to_be_bytes();
            out.append(&mut eb);
            proof {
                lemma_concat_map_push(
                    self.type_2_list@.subrange(0, w as int),
                    unk14_t2_bytes(),
                    self.type_2_list@[w as int],
                );
                assert(self.type_2_list@.subrange(0, w as int + 1) =~= self.type_2_list@.subrange(
                    0,
                    w as int,
                ).push(self.type_2_list@[w as int]));
            }
            w = w + 1;
        }
        proof {
            assert(self.type_0_list@.subrange(0, self.type_0_list@.len() as int)
                =~= self.type_0_list@);
            assert(self.type_1_list@.subrange(0, self.type_1_list@.len() as int)
                =~= self.type_1_list@);
            assert(self.type_2_list@.subrange(0, self.type_2_list@.len() as int)
                =~= self.type_2_list@);
            self.lemma_size();
            lemma_concat_map_fixed_len(self.type_0_list@, unk14_t0_bytes(), 0x18);
            lemma_concat_map_fixed_len(self.type_1_list@, unk14_t1_bytes(), 0x10);
            lemma_concat_map_fixed_len(self.type_2_list@, unk14_t2_bytes(), 0xC);
        }
        let target: usize = crate::bebytes::align8(
            8 + self.type_0_list.len() * 0x18 + self.type_1_list.len() * 0x10
                + self.type_2_list.len() * 0xC,
        );
        pad_to(&mut out, target);
        proof {
            assert(out@ =~= self.spec_bytes());
        }
        out
    }

    /// Encoded size in bytes, always a multiple of 8.
    pub fn size(&self) -> (r: usize)
        requires
            self.wf(),
        ensures
            r == self.spec_size(),
    {
        crate::bebytes::align8(
            8 + self.type_0_list.len() * 0x18 + self.type_1_list.len() * 0x10
                + self.type_2_list.len() * 0xC,
        )
    }
}

} // verus!
