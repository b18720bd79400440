//! The collision section: a 0x18-byte sub-header (bounds, strides, two
//! element counts, a scale), then `geo_cnt` fixed 4-byte mesh records
//! and `tri_cnt` fixed 12-byte triangle records, zero-padded to a
//! multiple of 8.

use crate::bebytes::be_i16_at;
use crate::bebytes::be_u16_at;
use crate::bebytes::be_u32_at;
use crate::bebytes::concat_map;
use crate::bebytes::lemma_align8;
use crate::bebytes::lemma_concat_map_fixed_len;
use crate::bebytes::lemma_concat_map_push;
use crate::bebytes::lemma_i16_bytes_at;
use crate::bebytes::lemma_u16_bytes_at;
use crate::bebytes::lemma_u32_bytes_at;
use crate::bebytes::pad_to;
use crate::bebytes::push_i16;
use crate::bebytes::push_u16;
use crate::bebytes::push_u32;
use crate::bebytes::read_i16;
use crate::bebytes::read_u16;
use crate::bebytes::read_u32;
use crate::bebytes::spec_align8;
use crate::bebytes::spec_i16_bytes;
use crate::bebytes::spec_u16_bytes;
use crate::bebytes::spec_u32_bytes;
use crate::bebytes::zeros;
use crate::error::TryFromBEBytesError;
use vstd::prelude::*;

verus! {

/// One 12-byte collision triangle: three vertex indices, one signed
/// field, and a 32-bit flag word. Every byte is kept, so a triangle
/// always writes back its source bytes.
#[derive(Debug)]
pub struct BKCollisionTri {
    pub vtx: [i16; 3],
    pub unk_6: i16,
    pub flags: u32,
}

impl BKCollisionTri {
    /// The 12 bytes written for this record.
    pub open spec fn spec_bytes(self) -> Seq<u8> {
        spec_i16_bytes(self.vtx[0]) + spec_i16_bytes(self.vtx[1]) + spec_i16_bytes(self.vtx[2])
            + spec_i16_bytes(self.unk_6) + spec_u32_bytes(self.flags)
    }

    /// The fields hold exactly what the first 12 bytes of `b` store.
    pub open spec fn parses_from(self, b: Seq<u8>) -> bool {
        &&& self.vtx[0] == be_i16_at(b, 0)
        &&& self.vtx[1] == be_i16_at(b, 2)
        &&& self.vtx[2] == be_i16_at(b, 4)
        &&& self.unk_6 == be_i16_at(b, 6)
        &&& self.flags == be_u32_at(b, 8)
    }

    /// A triangle read from `b` writes `b` back.
    pub proof fn lemma_roundtrip(self, b: Seq<u8>)
        requires
            b.len() >= 0xC,
            self.parses_from(b),
        ensures
            self.spec_bytes() =~= b.subrange(0, 0xC),
    {
        lemma_i16_bytes_at(b, 0);
        lemma_i16_bytes_at(b, 2);
        lemma_i16_bytes_at(b, 4);
        lemma_i16_bytes_at(b, 6);
        lemma_u32_bytes_at(b, 8);
    }

    pub fn from_be_bytes(bytes: &[u8]) -> (r: Self)
        requires
            bytes@.len() >= 0xC,
        ensures
            r.parses_from(bytes@),
    {
        BKCollisionTri {
            vtx: [read_i16(bytes, 0), read_i16(bytes, 2), read_i16(bytes, 4)],
            unk_6: read_i16(bytes, 6),
            flags: read_u32(bytes, 8),
        }
    }

    #[verifier::rlimit(100)]
    pub fn to_be_bytes(&self) -> (r: Vec<u8>)
        ensures
            r@ =~= self.spec_bytes(),
    {
        let mut out: Vec<u8> = Vec::new();
        push_i16(&mut out, self.vtx[0]);
        push_i16(&mut out, self.vtx[1]);
        push_i16(&mut out, self.vtx[2]);
        push_i16(&mut out, self.unk_6);
        push_u32(&mut out, self.flags);
        proof {
            assert(out@ =~= self.spec_bytes());
        }
        out
    }
}

/// One 4-byte collision mesh record: a starting triangle and a length.
#[derive(Debug)]
pub struct BKCollisionMesh {
    pub tri_start: i16,
    pub size: i16,
}

impl BKCollisionMesh {
    /// The 4 bytes written for this record.
    pub open spec fn spec_bytes(self) -> Seq<u8> {
        spec_i16_bytes(self.tri_start) + spec_i16_bytes(self.size)
    }

    /// The fields hold exactly what the first 4 bytes of `b` store.
    pub open spec fn parses_from(self, b: Seq<u8>) -> bool {
        self.tri_start == be_i16_at(b, 0) && self.size == be_i16_at(b, 2)
    }

    /// A mesh record read from `b` writes `b` back.
    pub proof fn lemma_roundtrip(self, b: Seq<u8>)
        requires
            b.len() >= 4,
            self.parses_from(b),
        ensures
            self.spec_bytes() =~= b.subrange(0, 4),
    {
        lemma_i16_bytes_at(b, 0);
        lemma_i16_bytes_at(b, 2);
    }

    pub fn from_be_bytes(bytes: &[u8]) -> (r: Self)
        requires
            bytes@.len() >= 4,
        ensures
            r.parses_from(bytes@),
    {
        BKCollisionMesh { tri_start: read_i16(bytes, 0), size: read_i16(bytes, 2) }
    }

    #[verifier::rlimit(100)]
    pub fn to_be_bytes(&self) -> (r: Vec<u8>)
        ensures
            r@ =~= self.spec_bytes(),
    {
        let mut out: Vec<u8> = Vec::new();
        push_i16(&mut out, self.tri_start);
        push_i16(&mut out, self.size);
        proof {
            assert(out@ =~= self.spec_bytes());
        }
        out
    }
}

/// The encoding function of one mesh record.
pub open spec fn coll_mesh_bytes() -> spec_fn(BKCollisionMesh) -> Seq<u8> {
    |e: BKCollisionMesh| e.spec_bytes()
}

/// The encoding function of one triangle record.
pub open spec fn coll_tri_bytes() -> spec_fn(BKCollisionTri) -> Seq<u8> {
    |e: BKCollisionTri| e.spec_bytes()
}

/// True when the reserved and padding bytes of an encoded collision
/// section are zero, which is what re-encoding writes there.
pub open spec fn collision_exact(b: Seq<u8>) -> bool {
    let geo_cnt = be_u16_at(b, 0x10) as int;
    let tri_cnt = be_u16_at(b, 0x14) as int;
    let raw = 0x18 + geo_cnt * 4 + tri_cnt * 0xC;
    &&& b[0x16] == 0
    &&& b[0x17] == 0
    &&& forall|k: int| raw <= k < spec_align8(raw) ==> #[trigger] b[k] == 0
}

/// The collision section: bounds, strides, a scale, mesh records and
/// triangle records.
#[derive(Debug)]
pub struct BKCollisionList {
    pub unk_0: [i16; 3],
    pub unk_6: [i16; 3],
    pub unk_c: i16,
    pub unk_e: i16,
    pub unk_12: i16,
    pub geo: Vec<BKCollisionMesh>,
    pub tri: Vec<BKCollisionTri>,
}

impl BKCollisionList {
    /// Both counts fit their 16-bit fields.
    pub open spec fn wf(self) -> bool {
        self.geo@.len() <= 0xFFFF && self.tri@.len() <= 0xFFFF
    }

    /// Encoded size: sub-header plus both runs, padded to a multiple
    /// of 8.
    pub open spec fn spec_size(self) -> int {
        spec_align8(0x18 + (self.geo@.len() as int) * 4 + (self.tri@.len() as int) * 0xC)
    }

    /// The bytes written for the whole section. The two counts are
    /// re-derived from the live lists.
    pub open spec fn spec_bytes(self) -> Seq<u8> {
        let raw = 0x18 + (self.geo@.len() as int) * 4 + (self.tri@.len() as int) * 0xC;
        spec_i16_bytes(self.unk_0[0]) + spec_i16_bytes(self.unk_0[1]) + spec_i16_bytes(
            self.unk_0[2],
        ) + spec_i16_bytes(self.unk_6[0]) + spec_i16_bytes(self.unk_6[1]) + spec_i16_bytes(
            self.unk_6[2],
        ) + spec_i16_bytes(self.unk_c) + spec_i16_bytes(self.unk_e) + spec_u16_bytes(
            (self.geo@.len() as int) as u16,
        ) + spec_i16_bytes(self.unk_12) + spec_u16_bytes((self.tri@.len() as int) as u16) + seq![
            0u8,
            0u8,
        ] + concat_map(self.geo@, coll_mesh_bytes()) + concat_map(self.tri@, coll_tri_bytes())
            + zeros(self.spec_size() - raw)
    }

    /// The section's encoded length is a multiple of 8 and matches
    /// `spec_size`.
    pub proof fn lemma_size(self)
        ensures
            self.spec_size() % 8 == 0,
            self.spec_bytes().len() == self.spec_size(),
            self.spec_size() >= 0x18,
    {
        let raw = 0x18 + (self.geo@.len() as int) * 4 + (self.tri@.len() as int) * 0xC;
        lemma_align8(raw);
        lemma_concat_map_fixed_len(self.geo@, coll_mesh_bytes(), 4);
        lemma_concat_map_fixed_len(self.tri@, coll_tri_bytes(), 0xC);
    }

    /// Decodes the section. Fails with `Truncated` exactly when the
    /// buffer is shorter than the padded size its two counts declare.
    #[verifier::rlimit(100)]
    pub fn try_from_be_bytes(bytes: &[u8]) -> (r: Result<BKCollisionList, TryFromBEBytesError>)
        ensures
            r.is_ok() <==> bytes@.len() >= 0x18 && spec_align8(
                0x18 + (be_u16_at(bytes@, 0x10) as int) * 4 + (be_u16_at(bytes@, 0x14) as int)
                    * 0xC,
            ) <= bytes@.len(),
            r matches Err(e) ==> e == TryFromBEBytesError::Truncated,
            r matches Ok(list) ==> {
                &&& list.wf()
                &&& list.geo@.len() == be_u16_at(bytes@, 0x10) as int
                &&& list.tri@.len() == be_u16_at(bytes@, 0x14) as int
                &&& list.unk_0[0] == be_i16_at(bytes@, 0) && list.unk_0[1] == be_i16_at(bytes@, 2)
                    && list.unk_0[2] == be_i16_at(bytes@, 4)
                &&& list.unk_6[0] == be_i16_at(bytes@, 6) && list.unk_6[1] == be_i16_at(bytes@, 8)
                    && list.unk_6[2] == be_i16_at(bytes@, 10)
                &&& list.unk_c == be_i16_at(bytes@, 0xC) && list.unk_e == be_i16_at(bytes@, 0xE)
                    && list.unk_12 == be_i16_at(bytes@, 0x12)
                &&& list.spec_size() == spec_align8(
                    0x18 + (be_u16_at(bytes@, 0x10) as int) * 4 + (be_u16_at(bytes@, 0x14) as int)
                        * 0xC,
                )
                &&& (collision_exact(bytes@) ==> list.spec_bytes() =~= bytes@.subrange(
                    0,
                    list.spec_size(),
                ))
            },
    {
        let blen: usize = bytes.len();
        if blen < 0x18 {
            return Err(TryFromBEBytesError::Truncated);
        }
        let geo_cnt: usize = read_u16(bytes, 0x10) as usize;
        let tri_cnt: usize = read_u16(bytes, 0x14) as usize;
        let raw: usize = 0x18 + geo_cnt * 4 + tri_cnt * 0xC;
        proof {
            lemma_align8(raw as int);
        }
        if crate::bebytes::align8(raw) > blen {
            return Err(TryFromBEBytesError::Truncated);
        }
        let ghost gb = bytes@;
        let mut geo: Vec<BKCollisionMesh> = Vec::new();
        let mut j: usize = 0;
        while j < geo_cnt
            invariant
                j <= geo_cnt,
                gb == bytes@,
                0x18 + geo_cnt * 4 + tri_cnt * 0xC <= gb.len() <= usize::MAX,
                geo@.len() == j,
                concat_map(geo@, coll_mesh_bytes()) =~= gb.subrange(0x18, 0x18 + j * 4),
            decreases geo_cnt - j,
        {
            proof {
                assert(0x18 + j * 4 + 4 <= 0x18 + geo_cnt * 4) by (nonlinear_arith)
                    requires
                        j < geo_cnt,
                ;
            }
            let chunk: &[u8] = vstd::slice::slice_subrange(bytes, 0x18 + j * 4, 0x18 + j * 4 + 4);
            let e = BKCollisionMesh::from_be_bytes(chunk);
            proof {
                e.lemma_roundtrip(chunk@);
                lemma_concat_map_push(geo@, coll_mesh_bytes(), e);
                assert(gb.subrange(0x18, 0x18 + (j + 1) * 4) =~= gb.subrange(0x18, 0x18 + (
                j as int) * 4) + gb.subrange(0x18 + (j as int) * 4, 0x18 + ((j as int) + 1) * 4));
                assert(chunk@.subrange(0, 4) =~= chunk@);
            }
            geo.push(e);
            j = j + 1;
        }
        let tri_base: usize = 0x18 + geo_cnt * 4;
        let mut tri: Vec<BKCollisionTri> = Vec::new();
        let mut t: usize = 0;
        while t < tri_cnt
            invariant
                t <= tri_cnt,
                gb == bytes@,
                tri_base == 0x18 + geo_cnt * 4,
                tri_base + tri_cnt * 0xC <= gb.len() <= usize::MAX,
                tri@.len() == t,
                concat_map(tri@, coll_tri_bytes()) =~= gb.subrange(
                    tri_base as int,
                    tri_base + t * 0xC,
                ),
            decreases tri_cnt - t,
        {
            proof {
                assert(t * 0xC + 0xC <= tri_cnt * 0xC) by (nonlinear_arith)
                    requires
                        t < tri_cnt,
                ;
            }
            let chunk: &[u8] = vstd::slice::slice_subrange(
                bytes,
                tri_base + t * 0xC,
                tri_base + t * 0xC + 0xC,
            );
            let e = BKCollisionTri::from_be_bytes(chunk);
            proof {
                e.lemma_roundtrip(chunk@);
                lemma_concat_map_push(tri@, coll_tri_bytes(), e);
                assert(gb.subrange(tri_base as int, tri_base + (t + 1) * 0xC) =~= gb.subrange(
                    tri_base as int,
                    tri_base + (t as int) * 0xC,
                ) + gb.subrange(
                    tri_base + (t as int) * 0xC,
                    tri_base + ((t as int) + 1) * 0xC,
                ));
                assert(chunk@.subrange(0, 0xC) =~= chunk@);
            }
            tri.push(e);
            t = t + 1;
        }
        let list = BKCollisionList {
            unk_0: [read_i16(bytes, 0), read_i16(bytes, 2), read_i16(bytes, 4)],
            unk_6: [read_i16(bytes, 6), read_i16(bytes, 8), read_i16(bytes, 10)],
            unk_c: read_i16(bytes, 0xC),
            unk_e: read_i16(bytes, 0xE),
            unk_12: read_i16(bytes, 0x12),
            geo,
            tri,
        };
        proof {
            if collision_exact(gb) {
                list.lemma_size();
                lemma_i16_bytes_at(gb, 0);
                lemma_i16_bytes_at(gb, 2);
                lemma_i16_bytes_at(gb, 4);
                lemma_i16_bytes_at(gb, 6);
                lemma_i16_bytes_at(gb, 8);
                lemma_i16_bytes_at(gb, 10);
                lemma_i16_bytes_at(gb, 0xC);
                lemma_i16_bytes_at(gb, 0xE);
                lemma_u16_bytes_at(gb, 0x10);
                lemma_i16_bytes_at(gb, 0x12);
                lemma_u16_bytes_at(gb, 0x14);
                assert(list.spec_bytes() =~= gb.subrange(0, list.spec_size()));
            }
        }
        Ok(list)
    }

    #[verifier::rlimit(100)]
    pub fn to_be_bytes(&self) -> (r: Vec<u8>)
        requires
            self.wf(),
        ensures
            r@ =~= self.spec_bytes(),
    {
        let mut out: Vec<u8> = Vec::new();
        push_i16(&mut out, self.unk_0[0]);
        push_i16(&mut out, self.unk_0[1]);
        push_i16(&mut out, self.unk_0[2]);
        push_i16(&mut out, self.unk_6[0]);
        push_i16(&mut out, self.unk_6[1]);
        push_i16(&mut out, self.unk_6[2]);
        push_i16(&mut out, self.unk_c);
        push_i16(&mut out, self.unk_e);
        push_u16(&mut out, self.geo.len() as u16);
        push_i16(&mut out, self.unk_12);
        push_u16(&mut out, self.tri.len() as u16);
        out.push(0u8);
        out.push(0u8);
        let ghost hdr = out@;
        let mut j: usize = 0;
        while j < self.geo.len()
            invariant
                j <= self.geo@.len(),
                out@ =~= hdr + concat_map(self.geo@.subrange(0, j as int), coll_mesh_bytes()),
            decreases self.geo@.len() - j,
        {
            let mut eb: Vec<u8> = self.geo[j].to_be_bytes();
            out.append(&mut eb);
            proof {
                lemma_concat_map_push(
                    self.geo@.subrange(0, j as int),
                    coll_mesh_bytes(),
                    self.geo@[j as int],
                );
                assert(self.geo@.subrange(0, j as int + 1) =~= self.geo@.subrange(0, j as int).push(
                    self.geo@[j as int],
                ));
            }
            j = j + 1;
        }
        let ghost mid = out@;
        let mut t: usize = 0;
        while t < self.tri.len()
            invariant
                t <= self.tri@.len(),
                out@ =~= mid + concat_map(self.tri@.subrange(0, t as int), coll_tri_bytes()),
            decreases self.tri@.len() - t,
        {
            let mut eb: Vec<u8> = self.tri[t].to_be_bytes();
            out.append(&mut eb);
            proof {
                lemma_concat_map_push(
                    self.tri@.subrange(0, t as int),
                    coll_tri_bytes(),
                    self.tri@[t as int],
                );
                assert(self.tri@.subrange(0, t as int + 1) =~= self.tri@.subrange(0, t as int).push(
                    self.tri@[t as int],
                ));
            }
            t = t + 1;
        }
        proof {
            assert(self.geo@.subrange(0, self.geo@.len() as int) =~= self.geo@);
            assert(self.tri@.subrange(0, self.tri@.len() as int) =~= self.tri@);
            self.lemma_size();
            lemma_concat_map_fixed_len(self.geo@, coll_mesh_bytes(), 4);
            lemma_concat_map_fixed_len(self.tri@, coll_tri_bytes(), 0xC);
        }
        let target: usize = crate::bebytes::align8(0x18 + self.geo.len() * 4 + self.tri.len() * 0xC);
        pad_to(&mut out, target);
        proof {
            assert(out@ =~= self.spec_bytes());
        }
        out
    }

    /// Encoded size in bytes, always a multiple of 8.
    pub fn size(&self) -> (r: usize)
        requires
            self.wf(),
        ensures
            r == self.spec_size(),
    {
        crate::bebytes::align8(0x18 + self.geo.len() * 4 + self.tri.len() * 0xC)
    }
}

} // verus!
