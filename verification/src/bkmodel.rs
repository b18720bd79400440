//! The model container: a fixed 0x38-byte header whose offset table
//! addresses up to eleven optional sections, followed by the sections
//! themselves and an opaque trailing blob. Decoding follows the
//! header's offsets; encoding lays the present sections out again in
//! a fixed packing order and recomputes every offset.

use vstd::prelude::*;

pub mod animated_texture;
pub mod animation;
pub mod collision;
pub mod display_list;
pub mod meshes;
pub mod texture;
pub mod unk_14;
pub mod unk_20;
pub mod unk_28;
pub mod vertex;

pub use animated_texture::BKAnimatedTexture;
pub use animated_texture::BKAnimatedTextureList;
pub use animation::BKAnimation;
pub use animation::BKAnimationList;
pub use collision::BKCollisionList;
pub use collision::BKCollisionMesh;
pub use collision::BKCollisionTri;
pub use display_list::BKGfxList;
pub use meshes::BKMesh;
pub use meshes::BKMeshList;
pub use texture::BKTextureList;
pub use unk_14::BKModelUnk14List;
pub use unk_14::BKModelUnk14ListHeader;
pub use unk_14::BKModelUnk14Type0;
pub use unk_14::BKModelUnk14Type1;
pub use unk_14::BKModelUnk14Type2;
pub use unk_20::BKModelUnk20Element;
pub use unk_20::BKModelUnk20List;
pub use unk_20::BKModelUnk20ListHeader;
pub use unk_28::BKModelUnk28;
pub use unk_28::BKModelUnk28List;
pub use vertex::BKVertexList;
pub use vertex::BKVertexListHeader;
pub use vertex::Vtx;

use crate::bebytes::be_u16_at;
use crate::bebytes::be_u32_at;
use crate::bebytes::copy_range;
use crate::bebytes::lemma_u16_bytes_at;
use crate::bebytes::lemma_u32_bytes_at;
use crate::bebytes::push_all;
use crate::bebytes::push_u16;
use crate::bebytes::push_u32;
use crate::bebytes::read_u16;
use crate::bebytes::read_u32;
use crate::bebytes::spec_align8;
use crate::bebytes::spec_u16_bytes;
use crate::bebytes::spec_u32_bytes;
use crate::error::TryFromBEBytesError;

verus! {

/// The first four bytes of every model file.
pub open spec fn magic_ok(b: Seq<u8>) -> bool {
    b[0] == 0 && b[1] == 0 && b[2] == 0 && b[3] == 0x0B
}

/// The fixed 0x38-byte container header: a magic tag, eleven section
/// offsets (0 marks an absent section), and three fields whose
/// meaning is unknown and which are round-tripped verbatim.
#[derive(Debug, PartialEq, Eq, Structural)]
pub struct BKModelHeader {
    pub geo_list_offset: u32,
    pub texture_list_offset: u16,
    pub unk_a: u16,
    pub gfx_list_offset: u32,
    pub vtx_list_offset: u32,
    pub unk_14_offset: u32,
    pub unk_18_offset: u32,
    pub collision_list_offset: u32,
    pub unk_20_offset: u32,
    pub unk_24_offset: u32,
    pub unk_28_offset: u32,
    pub unk_2c_offset: u32,
    pub unk_30: u16,
    pub unk_32: u16,
    /// Bit pattern of the last header word, carried opaquely.
    pub unk_34: u32,
}

impl BKModelHeader {
    /// The 0x38 bytes written for this header.
    pub open spec fn spec_bytes(self) -> Seq<u8> {
        seq![0u8, 0u8, 0u8, 0x0Bu8] + spec_u32_bytes(self.geo_list_offset) + spec_u16_bytes(
            self.texture_list_offset,
        ) + spec_u16_bytes(self.unk_a) + spec_u32_bytes(self.gfx_list_offset) + spec_u32_bytes(
            self.vtx_list_offset,
        ) + spec_u32_bytes(self.unk_14_offset) + spec_u32_bytes(self.unk_18_offset)
            + spec_u32_bytes(self.collision_list_offset) + spec_u32_bytes(self.unk_20_offset)
            + spec_u32_bytes(self.unk_24_offset) + spec_u32_bytes(self.unk_28_offset)
            + spec_u32_bytes(self.unk_2c_offset) + spec_u16_bytes(self.unk_30) + spec_u16_bytes(
            self.unk_32,
        ) + spec_u32_bytes(self.unk_34)
    }

    /// The header stored at the start of `b`.
    pub open spec fn spec_parse(b: Seq<u8>) -> BKModelHeader {
        BKModelHeader {
            geo_list_offset: be_u32_at(b, 4),
            texture_list_offset: be_u16_at(b, 8),
            unk_a: be_u16_at(b, 0xA),
            gfx_list_offset: be_u32_at(b, 0xC),
            vtx_list_offset: be_u32_at(b, 0x10),
            unk_14_offset: be_u32_at(b, 0x14),
            unk_18_offset: be_u32_at(b, 0x18),
            collision_list_offset: be_u32_at(b, 0x1C),
            unk_20_offset: be_u32_at(b, 0x20),
            unk_24_offset: be_u32_at(b, 0x24),
            unk_28_offset: be_u32_at(b, 0x28),
            unk_2c_offset: be_u32_at(b, 0x2C),
            unk_30: be_u16_at(b, 0x30),
            unk_32: be_u16_at(b, 0x32),
            unk_34: be_u32_at(b, 0x34),
        }
    }

    /// A header read from `b` writes `b` back.
    pub proof fn lemma_roundtrip(self, b: Seq<u8>)
        requires
            b.len() >= 0x38,
            magic_ok(b),
            self == BKModelHeader::spec_parse(b),
        ensures
            self.spec_bytes() =~= b.subrange(0, 0x38),
    {
        lemma_u32_bytes_at(b, 4);
        lemma_u16_bytes_at(b, 8);
        lemma_u16_bytes_at(b, 0xA);
        lemma_u32_bytes_at(b, 0xC);
        lemma_u32_bytes_at(b, 0x10);
        lemma_u32_bytes_at(b, 0x14);
        lemma_u32_bytes_at(b, 0x18);
        lemma_u32_bytes_at(b, 0x1C);
        lemma_u32_bytes_at(b, 0x20);
        lemma_u32_bytes_at(b, 0x24);
        lemma_u32_bytes_at(b, 0x28);
        lemma_u32_bytes_at(b, 0x2C);
        lemma_u16_bytes_at(b, 0x30);
        lemma_u16_bytes_at(b, 0x32);
        lemma_u32_bytes_at(b, 0x34);
    }

    /// Reads the header of a buffer whose magic tag has been checked.
    pub fn from_be_bytes(in_bytes: &[u8]) -> (r: BKModelHeader)
        requires
            in_bytes@.len() >= 0x38,
            magic_ok(in_bytes@),
        ensures
            r == BKModelHeader::spec_parse(in_bytes@),
            r.spec_bytes() =~= in_bytes@.subrange(0, 0x38),
    {
        let r = BKModelHeader {
            geo_list_offset: read_u32(in_bytes, 4),
            texture_list_offset: read_u16(in_bytes, 8),
            unk_a: read_u16(in_bytes, 0xA),
            gfx_list_offset: read_u32(in_bytes, 0xC),
            vtx_list_offset: read_u32(in_bytes, 0x10),
            unk_14_offset: read_u32(in_bytes, 0x14),
            unk_18_offset: read_u32(in_bytes, 0x18),
            collision_list_offset: read_u32(in_bytes, 0x1C),
            unk_20_offset: read_u32(in_bytes, 0x20),
            unk_24_offset: read_u32(in_bytes, 0x24),
            unk_28_offset: read_u32(in_bytes, 0x28),
            unk_2c_offset: read_u32(in_bytes, 0x2C),
            unk_30: read_u16(in_bytes, 0x30),
            unk_32: read_u16(in_bytes, 0x32),
            unk_34: read_u32(in_bytes, 0x34),
        };
        proof {
            r.lemma_roundtrip(in_bytes@);
        }
        r
    }

    #[verifier::rlimit(100)]
    pub fn to_be_bytes(&self) -> (r: Vec<u8>)
        ensures
            r@ =~= self.spec_bytes(),
    {
        let mut out: Vec<u8> = Vec::new();
        out.push(0u8);
        out.push(0u8);
        out.push(0u8);
        out.push(0x0Bu8);
        push_u32(&mut out, self.geo_list_offset);
        push_u16(&mut out, self.texture_list_offset);
        push_u16(&mut out, self.unk_a);
        push_u32(&mut out, self.gfx_list_offset);
        push_u32(&mut out, self.vtx_list_offset);
        push_u32(&mut out, self.unk_14_offset);
        push_u32(&mut out, self.unk_18_offset);
        push_u32(&mut out, self.collision_list_offset);
        push_u32(&mut out, self.unk_20_offset);
        push_u32(&mut out, self.unk_24_offset);
        push_u32(&mut out, self.unk_28_offset);
        push_u32(&mut out, self.unk_2c_offset);
        push_u16(&mut out, self.unk_30);
        push_u16(&mut out, self.unk_32);
        push_u32(&mut out, self.unk_34);
        proof {
            assert(out@ =~= self.spec_bytes());
        }
        out
    }
}

/// A decoded model: the preserved header, one optional value per
/// section kind, and the trailing bytes after the last recognized
/// section (they carry the legacy geometry tree, among other things).
#[derive(Debug)]
pub struct BKModel {
    pub header: BKModelHeader,
    pub texture_list: Option<BKTextureList>,
    pub display_list: Option<BKGfxList>,
    pub vertices: Option<BKVertexList>,
    pub unk_14_list: Option<BKModelUnk14List>,
    pub animation_list: Option<BKAnimationList>,
    pub collision_list: Option<BKCollisionList>,
    pub unk_20_list: Option<BKModelUnk20List>,
    pub mesh_list: Option<BKMeshList>,
    pub unk_28_list: Option<BKModelUnk28List>,
    pub animated_texture_list: Option<BKAnimatedTextureList>,
    pub data: Vec<u8>,
}

// Sizes of the optional sections (0 when absent) and the cumulative
// offsets of the fixed packing order: texture, graphics commands,
// vertices, the first auxiliary table, collision, meshes, the second
// and third auxiliary tables, animation, animated textures.

pub open spec fn sz_tex(m: BKModel) -> int {
    match m.texture_list {
        Option::Some(s) => s.spec_size(),
        Option::None => 0,
    }
}

pub open spec fn sz_gfx(m: BKModel) -> int {
    match m.display_list {
        Option::Some(s) => s.spec_size(),
        Option::None => 0,
    }
}

pub open spec fn sz_vtx(m: BKModel) -> int {
    match m.vertices {
        Option::Some(s) => s.spec_size(),
        Option::None => 0,
    }
}

pub open spec fn sz_unk14(m: BKModel) -> int {
    match m.unk_14_list {
        Option::Some(s) => s.spec_size(),
        Option::None => 0,
    }
}

pub open spec fn sz_coll(m: BKModel) -> int {
    match m.collision_list {
        Option::Some(s) => s.spec_size(),
        Option::None => 0,
    }
}

pub open spec fn sz_mesh(m: BKModel) -> int {
    match m.mesh_list {
        Option::Some(s) => s.spec_size(),
        Option::None => 0,
    }
}

pub open spec fn sz_unk20(m: BKModel) -> int {
    match m.unk_20_list {
        Option::Some(s) => s.spec_size(),
        Option::None => 0,
    }
}

pub open spec fn sz_unk28(m: BKModel) -> int {
    match m.unk_28_list {
        Option::Some(s) => s.spec_size(),
        Option::None => 0,
    }
}

pub open spec fn sz_anim(m: BKModel) -> int {
    match m.animation_list {
        Option::Some(s) => s.spec_size(),
        Option::None => 0,
    }
}

pub open spec fn sz_atex(m: BKModel) -> int {
    match m.animated_texture_list {
        Option::Some(s) => s.spec_size(),
        Option::None => 0,
    }
}

pub open spec fn off_tex(m: BKModel) -> int {
    0x38
}

pub open spec fn off_gfx(m: BKModel) -> int {
    off_tex(m) + sz_tex(m)
}

pub open spec fn off_vtx(m: BKModel) -> int {
    off_gfx(m) + sz_gfx(m)
}

pub open spec fn off_unk14(m: BKModel) -> int {
    off_vtx(m) + sz_vtx(m)
}

pub open spec fn off_coll(m: BKModel) -> int {
    off_unk14(m) + sz_unk14(m)
}

pub open spec fn off_mesh(m: BKModel) -> int {
    off_coll(m) + sz_coll(m)
}

pub open spec fn off_unk20(m: BKModel) -> int {
    off_mesh(m) + sz_mesh(m)
}

pub open spec fn off_unk28(m: BKModel) -> int {
    off_unk20(m) + sz_unk20(m)
}

pub open spec fn off_anim(m: BKModel) -> int {
    off_unk28(m) + sz_unk28(m)
}

pub open spec fn off_atex(m: BKModel) -> int {
    off_anim(m) + sz_anim(m)
}

/// Offset just past the last packed section: where the trailing data
/// begins, and what the legacy geometry pointer is set to on encode.
pub open spec fn off_end(m: BKModel) -> int {
    off_atex(m) + sz_atex(m)
}

/// The offset written to a header field: the section's packing
/// offset when present, 0 when absent.
pub open spec fn field_off<S>(o: Option<S>, off: int) -> int {
    match o {
        Option::Some(s) => off,
        Option::None => 0,
    }
}

// The bytes of each optional section: empty when absent.

pub open spec fn opt_tex_bytes(o: Option<BKTextureList>) -> Seq<u8> {
    match o {
        Option::Some(s) => s.spec_bytes(),
        Option::None => Seq::empty(),
    }
}

pub open spec fn opt_gfx_bytes(o: Option<BKGfxList>) -> Seq<u8> {
    match o {
        Option::Some(s) => s.spec_bytes(),
        Option::None => Seq::empty(),
    }
}

pub open spec fn opt_vtx_bytes(o: Option<BKVertexList>) -> Seq<u8> {
    match o {
        Option::Some(s) => s.spec_bytes(),
        Option::None => Seq::empty(),
    }
}

pub open spec fn opt_unk14_bytes(o: Option<BKModelUnk14List>) -> Seq<u8> {
    match o {
        Option::Some(s) => s.spec_bytes(),
        Option::None => Seq::empty(),
    }
}

pub open spec fn opt_coll_bytes(o: Option<BKCollisionList>) -> Seq<u8> {
    match o {
        Option::Some(s) => s.spec_bytes(),
        Option::None => Seq::empty(),
    }
}

pub open spec fn opt_mesh_bytes(o: Option<BKMeshList>) -> Seq<u8> {
    match o {
        Option::Some(s) => s.spec_bytes(),
        Option::None => Seq::empty(),
    }
}

pub open spec fn opt_unk20_bytes(o: Option<BKModelUnk20List>) -> Seq<u8> {
    match o {
        Option::Some(s) => s.spec_bytes(),
        Option::None => Seq::empty(),
    }
}

pub open spec fn opt_unk28_bytes(o: Option<BKModelUnk28List>) -> Seq<u8> {
    match o {
        Option::Some(s) => s.spec_bytes(),
        Option::None => Seq::empty(),
    }
}

pub open spec fn opt_anim_bytes(o: Option<BKAnimationList>) -> Seq<u8> {
    match o {
        Option::Some(s) => s.spec_bytes(),
        Option::None => Seq::empty(),
    }
}

pub open spec fn opt_atex_bytes(o: Option<BKAnimatedTextureList>) -> Seq<u8> {
    match o {
        Option::Some(s) => s.spec_bytes(),
        Option::None => Seq::empty(),
    }
}

/// True when a buffer decodes to a model: the magic tag and header
/// fit, every section addressed by a non-zero offset decodes, and
/// the packed sections fit in front of the trailing data.
pub open spec fn model_ok(b: Seq<u8>) -> bool {
    &&& b.len() >= 4
    &&& magic_ok(b)
    &&& b.len() >= 0x38
    &&& b.len() <= 0xFFFFFFFF
    &&& sections_ok(b)
    &&& model_end(b) <= b.len()
}

/// True when every section addressed by a non-zero header offset
/// decodes from its slice.
pub open spec fn sections_ok(b: Seq<u8>) -> bool {
    &&& {
        let off = be_u16_at(b, 8) as int;
        off != 0 ==> off <= b.len() && crate::bkmodel::tex_ok(b.subrange(off, b.len() as int))
    }
    &&& {
        let off = be_u32_at(b, 0xC) as int;
        off != 0 ==> off <= b.len() && gfx_ok(b.subrange(off, b.len() as int))
    }
    &&& {
        let off = be_u32_at(b, 0x10) as int;
        off != 0 ==> off <= b.len() && vtx_ok(b.subrange(off, b.len() as int))
    }
    &&& {
        let off = be_u32_at(b, 0x14) as int;
        off != 0 ==> off <= b.len() && unk14_ok(b.subrange(off, b.len() as int))
    }
    &&& {
        let off = be_u32_at(b, 0x18) as int;
        off != 0 ==> off <= b.len() && anim_ok(b.subrange(off, b.len() as int))
    }
    &&& {
        let off = be_u32_at(b, 0x1C) as int;
        off != 0 ==> off <= b.len() && coll_ok(b.subrange(off, b.len() as int))
    }
    &&& {
        let off = be_u32_at(b, 0x20) as int;
        off != 0 ==> off <= b.len() && unk20_ok(b.subrange(off, b.len() as int))
    }
    &&& {
        let off = be_u32_at(b, 0x24) as int;
        off != 0 ==> off <= b.len() && mesh_ok(b.subrange(off, b.len() as int))
    }
    &&& {
        let off = be_u32_at(b, 0x28) as int;
        off != 0 ==> off <= b.len() && unk28_ok(b.subrange(off, b.len() as int))
    }
    &&& {
        let off = be_u32_at(b, 0x2C) as int;
        off != 0 ==> off <= b.len() && atex_ok(b.subrange(off, b.len() as int))
    }
}

// Decodability and encoded size of each section kind, read off the
// raw bytes of its slice. These restate the per-section decode
// contracts at the container level.

pub open spec fn tex_ok(sb: Seq<u8>) -> bool {
    sb.len() >= 8 && 8 + (be_u16_at(sb, 4) as int) * 0x10 <= be_u32_at(sb, 0) as int && be_u32_at(
        sb,
        0,
    ) as int <= sb.len()
}

pub open spec fn tex_size(sb: Seq<u8>) -> int {
    be_u32_at(sb, 0) as int
}

pub open spec fn gfx_ok(sb: Seq<u8>) -> bool {
    sb.len() >= 8 && 8 + (be_u32_at(sb, 0) as int) * 8 <= sb.len()
}

pub open spec fn gfx_size(sb: Seq<u8>) -> int {
    8 + (be_u32_at(sb, 0) as int) * 8
}

pub open spec fn vtx_ok(sb: Seq<u8>) -> bool {
    sb.len() >= 0x18 && 0x18 + (be_u16_at(sb, 0x14) as int) * 0x10 <= sb.len()
}

pub open spec fn vtx_size(sb: Seq<u8>) -> int {
    0x18 + (be_u16_at(sb, 0x14) as int) * 0x10
}

pub open spec fn unk14_ok(sb: Seq<u8>) -> bool {
    sb.len() >= 8 && unk14_size(sb) <= sb.len()
}

pub open spec fn unk14_size(sb: Seq<u8>) -> int {
    spec_align8(
        8 + (be_u16_at(sb, 0) as int) * 0x18 + (be_u16_at(sb, 2) as int) * 0x10 + (be_u16_at(
            sb,
            4,
        ) as int) * 0xC,
    )
}

pub open spec fn anim_ok(sb: Seq<u8>) -> bool {
    sb.len() >= 8 && anim_size(sb) <= sb.len()
}

pub open spec fn anim_size(sb: Seq<u8>) -> int {
    spec_align8(8 + (be_u16_at(sb, 4) as int) * 0x10)
}

pub open spec fn coll_ok(sb: Seq<u8>) -> bool {
    sb.len() >= 0x18 && coll_size(sb) <= sb.len()
}

pub open spec fn coll_size(sb: Seq<u8>) -> int {
    spec_align8(0x18 + (be_u16_at(sb, 0x10) as int) * 4 + (be_u16_at(sb, 0x14) as int) * 0xC)
}

pub open spec fn unk20_ok(sb: Seq<u8>) -> bool {
    sb.len() >= 2 && unk20_size(sb) <= sb.len()
}

pub open spec fn unk20_size(sb: Seq<u8>) -> int {
    spec_align8(2 + (sb[0] as int) * 0xE)
}

pub open spec fn mesh_ok(sb: Seq<u8>) -> bool {
    sb.len() >= 2 && (crate::bkmodel::meshes::mesh_walk(sb, 2, be_u16_at(sb, 0) as int) matches Some(
        raw,
    ) && spec_align8(raw) <= sb.len())
}

pub open spec fn mesh_size(sb: Seq<u8>) -> int {
    match crate::bkmodel::meshes::mesh_walk(sb, 2, be_u16_at(sb, 0) as int) {
        Option::Some(raw) => spec_align8(raw),
        Option::None => 0,
    }
}

pub open spec fn unk28_ok(sb: Seq<u8>) -> bool {
    sb.len() >= 4 && (crate::bkmodel::unk_28::unk28_walk(sb, 4, be_u16_at(sb, 0) as int) matches Some(
        raw,
    ) && spec_align8(raw) <= sb.len())
}

pub open spec fn unk28_size(sb: Seq<u8>) -> int {
    match crate::bkmodel::unk_28::unk28_walk(sb, 4, be_u16_at(sb, 0) as int) {
        Option::Some(raw) => spec_align8(raw),
        Option::None => 0,
    }
}

pub open spec fn atex_ok(sb: Seq<u8>) -> bool {
    sb.len() >= 0x20
}

/// The end of the packed sections of a decodable buffer: header size
/// plus the size of every present section.
pub open spec fn model_end(b: Seq<u8>) -> int {
    let blen = b.len() as int;
    0x38 + (if be_u16_at(b, 8) != 0 {
        tex_size(b.subrange(be_u16_at(b, 8) as int, blen))
    } else {
        0
    }) + (if be_u32_at(b, 0xC) != 0 {
        gfx_size(b.subrange(be_u32_at(b, 0xC) as int, blen))
    } else {
        0
    }) + (if be_u32_at(b, 0x10) != 0 {
        vtx_size(b.subrange(be_u32_at(b, 0x10) as int, blen))
    } else {
        0
    }) + (if be_u32_at(b, 0x14) != 0 {
        unk14_size(b.subrange(be_u32_at(b, 0x14) as int, blen))
    } else {
        0
    }) + (if be_u32_at(b, 0x1C) != 0 {
        coll_size(b.subrange(be_u32_at(b, 0x1C) as int, blen))
    } else {
        0
    }) + (if be_u32_at(b, 0x24) != 0 {
        mesh_size(b.subrange(be_u32_at(b, 0x24) as int, blen))
    } else {
        0
    }) + (if be_u32_at(b, 0x20) != 0 {
        unk20_size(b.subrange(be_u32_at(b, 0x20) as int, blen))
    } else {
        0
    }) + (if be_u32_at(b, 0x28) != 0 {
        unk28_size(b.subrange(be_u32_at(b, 0x28) as int, blen))
    } else {
        0
    }) + (if be_u32_at(b, 0x18) != 0 {
        anim_size(b.subrange(be_u32_at(b, 0x18) as int, blen))
    } else {
        0
    }) + (if be_u32_at(b, 0x2C) != 0 {
        0x20int
    } else {
        0
    })
}

/// True when a decoded model re-encodes to its source buffer: the
/// stored offsets already follow the packing order, and every present
/// section's reserved and padding bytes hold what re-encoding writes.
pub open spec fn model_exact(m: BKModel, b: Seq<u8>) -> bool {
    let blen = b.len() as int;
    &&& be_u32_at(b, 4) as int == off_end(m)
    &&& (m.texture_list matches Option::Some(s) ==> be_u16_at(b, 8) as int == off_tex(m)
        && crate::bkmodel::texture::texlist_exact(b.subrange(off_tex(m), blen)))
    &&& (m.display_list matches Option::Some(s) ==> be_u32_at(b, 0xC) as int == off_gfx(m))
    &&& (m.vertices matches Option::Some(s) ==> be_u32_at(b, 0x10) as int == off_vtx(m)
        && crate::bkmodel::vertex::vertex_stats_exact(s, b.subrange(off_vtx(m), blen)))
    &&& (m.unk_14_list matches Option::Some(s) ==> be_u32_at(b, 0x14) as int == off_unk14(m)
        && crate::bkmodel::unk_14::unk14_exact(b.subrange(off_unk14(m), blen)))
    &&& (m.animation_list matches Option::Some(s) ==> be_u32_at(b, 0x18) as int == off_anim(m)
        && crate::bkmodel::animation::animation_exact(b.subrange(off_anim(m), blen)))
    &&& (m.collision_list matches Option::Some(s) ==> be_u32_at(b, 0x1C) as int == off_coll(m)
        && crate::bkmodel::collision::collision_exact(b.subrange(off_coll(m), blen)))
    &&& (m.unk_20_list matches Option::Some(s) ==> be_u32_at(b, 0x20) as int == off_unk20(m)
        && crate::bkmodel::unk_20::unk20_exact(b.subrange(off_unk20(m), blen)))
    &&& (m.mesh_list matches Option::Some(s) ==> be_u32_at(b, 0x24) as int == off_mesh(m)
        && s.pad_exact(b.subrange(off_mesh(m), blen)))
    &&& (m.unk_28_list matches Option::Some(s) ==> be_u32_at(b, 0x28) as int == off_unk28(m)
        && s.pad_exact(b.subrange(off_unk28(m), blen)))
    &&& (m.animated_texture_list matches Option::Some(s) ==> be_u32_at(b, 0x2C) as int == off_atex(
        m,
    ) && crate::bkmodel::animated_texture::anim_tex_exact(b.subrange(off_atex(m), blen)))
}

/// A decoded model whose stored layout is already canonical writes
/// its whole source buffer back.
#[verifier::rlimit(100)]
pub proof fn lemma_model_roundtrip(m: BKModel, b: Seq<u8>)
    requires
        m.wf(),
        0x38 <= b.len() <= 0xFFFFFFFF,
        magic_ok(b),
        m.header == BKModelHeader::spec_parse(b),
        m.texture_list is Some <==> be_u16_at(b, 8) != 0,
        m.display_list is Some <==> be_u32_at(b, 0xC) != 0,
        m.vertices is Some <==> be_u32_at(b, 0x10) != 0,
        m.unk_14_list is Some <==> be_u32_at(b, 0x14) != 0,
        m.animation_list is Some <==> be_u32_at(b, 0x18) != 0,
        m.collision_list is Some <==> be_u32_at(b, 0x1C) != 0,
        m.unk_20_list is Some <==> be_u32_at(b, 0x20) != 0,
        m.mesh_list is Some <==> be_u32_at(b, 0x24) != 0,
        m.unk_28_list is Some <==> be_u32_at(b, 0x28) != 0,
        m.animated_texture_list is Some <==> be_u32_at(b, 0x2C) != 0,
        off_end(m) <= b.len(),
        m.data@ == b.subrange(off_end(m), b.len() as int),
        opt_tex_bytes(m.texture_list) == b.subrange(off_tex(m), off_gfx(m)),
        opt_gfx_bytes(m.display_list) == b.subrange(off_gfx(m), off_vtx(m)),
        opt_vtx_bytes(m.vertices) == b.subrange(off_vtx(m), off_unk14(m)),
        opt_unk14_bytes(m.unk_14_list) == b.subrange(off_unk14(m), off_coll(m)),
        opt_coll_bytes(m.collision_list) == b.subrange(off_coll(m), off_mesh(m)),
        opt_mesh_bytes(m.mesh_list) == b.subrange(off_mesh(m), off_unk20(m)),
        opt_unk20_bytes(m.unk_20_list) == b.subrange(off_unk20(m), off_unk28(m)),
        opt_unk28_bytes(m.unk_28_list) == b.subrange(off_unk28(m), off_anim(m)),
        opt_anim_bytes(m.animation_list) == b.subrange(off_anim(m), off_atex(m)),
        opt_atex_bytes(m.animated_texture_list) == b.subrange(off_atex(m), off_end(m)),
        model_exact(m, b),
    ensures
        m.spec_bytes() =~= b,
{
    m.lemma_offsets_ordered();
    let hdr = m.create_header_spec();
    assert(hdr == BKModelHeader::spec_parse(b));
    hdr.lemma_roundtrip(b);
    let blen = b.len() as int;
    crate::bebytes::lemma_subrange_cat(b, 0, 0x38, off_gfx(m));
    assert(hdr.spec_bytes() + opt_tex_bytes(m.texture_list) == b.subrange(0, off_gfx(m)));
    crate::bebytes::lemma_subrange_cat(b, 0, off_gfx(m), off_vtx(m));
    assert(b.subrange(0, off_gfx(m)) + opt_gfx_bytes(m.display_list) == b.subrange(
        0,
        off_vtx(m),
    ));
    crate::bebytes::lemma_subrange_cat(b, 0, off_vtx(m), off_unk14(m));
    assert(b.subrange(0, off_vtx(m)) + opt_vtx_bytes(m.vertices) == b.subrange(
        0,
        off_unk14(m),
    ));
    crate::bebytes::lemma_subrange_cat(b, 0, off_unk14(m), off_coll(m));
    assert(b.subrange(0, off_unk14(m)) + opt_unk14_bytes(m.unk_14_list) == b.subrange(
        0,
        off_coll(m),
    ));
    crate::bebytes::lemma_subrange_cat(b, 0, off_coll(m), off_mesh(m));
    assert(b.subrange(0, off_coll(m)) + opt_coll_bytes(m.collision_list) == b.subrange(
        0,
        off_mesh(m),
    ));
    crate::bebytes::lemma_subrange_cat(b, 0, off_mesh(m), off_unk20(m));
    assert(b.subrange(0, off_mesh(m)) + opt_mesh_bytes(m.mesh_list) == b.subrange(
        0,
        off_unk20(m),
    ));
    crate::bebytes::lemma_subrange_cat(b, 0, off_unk20(m), off_unk28(m));
    assert(b.subrange(0, off_unk20(m)) + opt_unk20_bytes(m.unk_20_list) == b.subrange(
        0,
        off_unk28(m),
    ));
    crate::bebytes::lemma_subrange_cat(b, 0, off_unk28(m), off_anim(m));
    assert(b.subrange(0, off_unk28(m)) + opt_unk28_bytes(m.unk_28_list) == b.subrange(
        0,
        off_anim(m),
    ));
    crate::bebytes::lemma_subrange_cat(b, 0, off_anim(m), off_atex(m));
    assert(b.subrange(0, off_anim(m)) + opt_anim_bytes(m.animation_list) == b.subrange(
        0,
        off_atex(m),
    ));
    crate::bebytes::lemma_subrange_cat(b, 0, off_atex(m), off_end(m));
    assert(b.subrange(0, off_atex(m)) + opt_atex_bytes(m.animated_texture_list) == b.subrange(
        0,
        off_end(m),
    ));
    crate::bebytes::lemma_subrange_cat(b, 0, off_end(m), blen);
    assert(b.subrange(0, off_end(m)) + m.data@ == b.subrange(0, blen));
    assert(b.subrange(0, blen) =~= b);
    assert(m.spec_bytes() == b);
}

/// Everything section decoding guarantees about a model built from
/// buffer `b` under header `h`: presence follows the offsets, each
/// present section is well-formed, its size matches what its slice
/// declares, and it re-encodes its slice when the slice is exact.
pub open spec fn decoded_sections(m: BKModel, b: Seq<u8>, h: BKModelHeader) -> bool {
    &&& (m.texture_list is Some <==> h.texture_list_offset != 0)
    &&& (m.display_list is Some <==> h.gfx_list_offset != 0)
    &&& (m.vertices is Some <==> h.vtx_list_offset != 0)
    &&& (m.unk_14_list is Some <==> h.unk_14_offset != 0)
    &&& (m.animation_list is Some <==> h.unk_18_offset != 0)
    &&& (m.collision_list is Some <==> h.collision_list_offset != 0)
    &&& (m.unk_20_list is Some <==> h.unk_20_offset != 0)
    &&& (m.mesh_list is Some <==> h.unk_24_offset != 0)
    &&& (m.unk_28_list is Some <==> h.unk_28_offset != 0)
    &&& (m.animated_texture_list is Some <==> h.unk_2c_offset != 0)
    &&& (m.texture_list matches Option::Some(s) ==> {
        let sl = b.subrange(
            h.texture_list_offset as int,
            b.len() as int,
        );
        s.wf() && s.spec_size() == tex_size(sl) && (
        crate::bkmodel::texture::texlist_exact(sl) ==> s.spec_bytes() == sl.subrange(
            0,
            s.spec_size(),
        ))
    })
    &&& (m.display_list matches Option::Some(s) ==> {
        let sl = b.subrange(
            h.gfx_list_offset as int,
            b.len() as int,
        );
        s.wf() && s.spec_size() == gfx_size(sl) && s.spec_bytes() == sl.subrange(
            0,
            s.spec_size(),
        )
    })
    &&& (m.vertices matches Option::Some(s) ==> {
        let sl = b.subrange(
            h.vtx_list_offset as int,
            b.len() as int,
        );
        s.wf() && s.spec_size() == vtx_size(sl) && (
        crate::bkmodel::vertex::vertex_stats_exact(s, sl) ==> s.spec_bytes()
            == sl.subrange(0, s.spec_size()))
    })
    &&& (m.unk_14_list matches Option::Some(s) ==> {
        let sl = b.subrange(
            h.unk_14_offset as int,
            b.len() as int,
        );
        s.wf() && s.spec_size() == unk14_size(sl) && (
        crate::bkmodel::unk_14::unk14_exact(sl) ==> s.spec_bytes() == sl.subrange(
            0,
            s.spec_size(),
        ))
    })
    &&& (m.animation_list matches Option::Some(s) ==> {
        let sl = b.subrange(
            h.unk_18_offset as int,
            b.len() as int,
        );
        s.wf() && s.spec_size() == anim_size(sl) && (
        crate::bkmodel::animation::animation_exact(sl) ==> s.spec_bytes()
            == sl.subrange(0, s.spec_size()))
    })
    &&& (m.collision_list matches Option::Some(s) ==> {
        let sl = b.subrange(
            h.collision_list_offset as int,
            b.len() as int,
        );
        s.wf() && s.spec_size() == coll_size(sl) && (
        crate::bkmodel::collision::collision_exact(sl) ==> s.spec_bytes()
            == sl.subrange(0, s.spec_size()))
    })
    &&& (m.unk_20_list matches Option::Some(s) ==> {
        let sl = b.subrange(
            h.unk_20_offset as int,
            b.len() as int,
        );
        s.wf() && s.spec_size() == unk20_size(sl) && (
        crate::bkmodel::unk_20::unk20_exact(sl) ==> s.spec_bytes() == sl.subrange(
            0,
            s.spec_size(),
        ))
    })
    &&& (m.mesh_list matches Option::Some(s) ==> {
        let sl = b.subrange(
            h.unk_24_offset as int,
            b.len() as int,
        );
        s.wf() && s.spec_size() == mesh_size(sl) && (s.pad_exact(sl)
            ==> s.spec_bytes() == sl.subrange(0, s.spec_size()))
    })
    &&& (m.unk_28_list matches Option::Some(s) ==> {
        let sl = b.subrange(
            h.unk_28_offset as int,
            b.len() as int,
        );
        s.wf() && s.spec_size() == unk28_size(sl) && (s.pad_exact(sl)
            ==> s.spec_bytes() == sl.subrange(0, s.spec_size()))
    })
    &&& (m.animated_texture_list matches Option::Some(s) ==> {
        let sl = b.subrange(
            h.unk_2c_offset as int,
            b.len() as int,
        );
        s.spec_size() == 0x20 && (
        crate::bkmodel::animated_texture::anim_tex_exact(sl) ==> s.spec_bytes()
            == sl.subrange(0, 0x20))
    })
}

impl BKModel {
    /// Every present section is well-formed and the packed layout
    /// fits the 32-bit offset fields.
    pub open spec fn wf(self) -> bool {
        &&& (self.texture_list matches Option::Some(s) ==> s.wf())
        &&& (self.display_list matches Option::Some(s) ==> s.wf())
        &&& (self.vertices matches Option::Some(s) ==> s.wf())
        &&& (self.unk_14_list matches Option::Some(s) ==> s.wf())
        &&& (self.collision_list matches Option::Some(s) ==> s.wf())
        &&& (self.mesh_list matches Option::Some(s) ==> s.wf())
        &&& (self.unk_20_list matches Option::Some(s) ==> s.wf())
        &&& (self.unk_28_list matches Option::Some(s) ==> s.wf())
        &&& (self.animation_list matches Option::Some(s) ==> s.wf())
        &&& off_end(self) <= 0xFFFFFFFF
    }

    /// The header that encoding writes: offsets recomputed from the
    /// live sections in packing order, opaque fields preserved, and
    /// the legacy geometry pointer set to the end of the packed
    /// sections.
    pub open spec fn create_header_spec(self) -> BKModelHeader {
        BKModelHeader {
            geo_list_offset: off_end(self) as u32,
            texture_list_offset: field_off(self.texture_list, off_tex(self)) as u16,
            unk_a: self.header.unk_a,
            gfx_list_offset: field_off(self.display_list, off_gfx(self)) as u32,
            vtx_list_offset: field_off(self.vertices, off_vtx(self)) as u32,
            unk_14_offset: field_off(self.unk_14_list, off_unk14(self)) as u32,
            unk_18_offset: field_off(self.animation_list, off_anim(self)) as u32,
            collision_list_offset: field_off(self.collision_list, off_coll(self)) as u32,
            unk_20_offset: field_off(self.unk_20_list, off_unk20(self)) as u32,
            unk_24_offset: field_off(self.mesh_list, off_mesh(self)) as u32,
            unk_28_offset: field_off(self.unk_28_list, off_unk28(self)) as u32,
            unk_2c_offset: field_off(self.animated_texture_list, off_atex(self)) as u32,
            unk_30: self.header.unk_30,
            unk_32: self.header.unk_32,
            unk_34: self.header.unk_34,
        }
    }

    /// The bytes written for the whole model: recomputed header, the
    /// present sections in packing order, then the trailing data.
    pub open spec fn spec_bytes(self) -> Seq<u8> {
        self.create_header_spec().spec_bytes() + opt_tex_bytes(self.texture_list) + opt_gfx_bytes(
            self.display_list,
        ) + opt_vtx_bytes(self.vertices) + opt_unk14_bytes(self.unk_14_list) + opt_coll_bytes(
            self.collision_list,
        ) + opt_mesh_bytes(self.mesh_list) + opt_unk20_bytes(self.unk_20_list) + opt_unk28_bytes(
            self.unk_28_list,
        ) + opt_anim_bytes(self.animation_list) + opt_atex_bytes(self.animated_texture_list)
            + self.data@
    }

    /// Every present section's sizes are non-negative, so the packing
    /// offsets are ordered.
    pub proof fn lemma_offsets_ordered(self)
        requires
            self.wf(),
        ensures
            0x38 <= off_gfx(self) <= off_vtx(self) <= off_unk14(self) <= off_coll(self)
                <= off_mesh(self) <= off_unk20(self) <= off_unk28(self) <= off_anim(self)
                <= off_atex(self) <= off_end(self),
            sz_tex(self) >= 0 && sz_gfx(self) >= 0 && sz_vtx(self) >= 0 && sz_unk14(self) >= 0
                && sz_coll(self) >= 0 && sz_mesh(self) >= 0 && sz_unk20(self) >= 0 && sz_unk28(
                self,
            ) >= 0 && sz_anim(self) >= 0 && sz_atex(self) >= 0,
    {
        if let Option::Some(s) = self.texture_list {
            s.lemma_size();
        }
        if let Option::Some(s) = self.display_list {
            s.lemma_size();
        }
        if let Option::Some(s) = self.vertices {
            s.lemma_size();
        }
        if let Option::Some(s) = self.unk_14_list {
            s.lemma_size();
        }
        if let Option::Some(s) = self.collision_list {
            s.lemma_size();
        }
        if let Option::Some(s) = self.mesh_list {
            s.lemma_size();
        }
        if let Option::Some(s) = self.unk_20_list {
            s.lemma_size();
        }
        if let Option::Some(s) = self.unk_28_list {
            s.lemma_size();
        }
        if let Option::Some(s) = self.animation_list {
            s.lemma_size();
        }
        if let Option::Some(s) = self.animated_texture_list {
            s.lemma_size();
        }
    }

    /// Recomputes the header from the live sections, walking them in
    /// packing order.
    #[verifier::rlimit(100)]
    pub fn create_header(&self) -> (r: BKModelHeader)
        requires
            self.wf(),
        ensures
            r == self.create_header_spec(),
    {
        proof {
            self.lemma_offsets_ordered();
        }
        let s_tex: usize = match &self.texture_list {
            Some(s) => s.size(),
            None => 0,
        };
        let s_gfx: usize = match &self.display_list {
            Some(s) => s.size(),
            None => 0,
        };
        let s_vtx: usize = match &self.vertices {
            Some(s) => s.size(),
            None => 0,
        };
        let s_u14: usize = match &self.unk_14_list {
            Some(s) => s.size(),
            None => 0,
        };
        let s_col: usize = match &self.collision_list {
            Some(s) => s.size(),
            None => 0,
        };
        let s_msh: usize = match &self.mesh_list {
            Some(s) => s.size(),
            None => 0,
        };
        let s_u20: usize = match &self.unk_20_list {
            Some(s) => s.size(),
            None => 0,
        };
        let s_u28: usize = match &self.unk_28_list {
            Some(s) => s.size(),
            None => 0,
        };
        let s_anm: usize = match &self.animation_list {
            Some(s) => s.size(),
            None => 0,
        };
        let s_atx: usize = match &self.animated_texture_list {
            Some(s) => s.size(),
            None => 0,
        };
        let o_gfx: usize = 0x38 + s_tex;
        let o_vtx: usize = o_gfx + s_gfx;
        let o_u14: usize = o_vtx + s_vtx;
        let o_col: usize = o_u14 + s_u14;
        let o_msh: usize = o_col + s_col;
        let o_u20: usize = o_msh + s_msh;
        let o_u28: usize = o_u20 + s_u20;
        let o_anm: usize = o_u28 + s_u28;
        let o_atx: usize = o_anm + s_anm;
        let o_end: usize = o_atx + s_atx;
        BKModelHeader {
            geo_list_offset: o_end as u32,
            texture_list_offset: if self.texture_list.is_some() {
                0x38
            } else {
                0
            },
            unk_a: self.header.unk_a,
            gfx_list_offset: if self.display_list.is_some() {
                o_gfx as u32
            } else {
                0
            },
            vtx_list_offset: if self.vertices.is_some() {
                o_vtx as u32
            } else {
                0
            },
            unk_14_offset: if self.unk_14_list.is_some() {
                o_u14 as u32
            } else {
                0
            },
            unk_18_offset: if self.animation_list.is_some() {
                o_anm as u32
            } else {
                0
            },
            collision_list_offset: if self.collision_list.is_some() {
                o_col as u32
            } else {
                0
            },
            unk_20_offset: if self.unk_20_list.is_some() {
                o_u20 as u32
            } else {
                0
            },
            unk_24_offset: if self.mesh_list.is_some() {
                o_msh as u32
            } else {
                0
            },
            unk_28_offset: if self.unk_28_list.is_some() {
                o_u28 as u32
            } else {
                0
            },
            unk_2c_offset: if self.animated_texture_list.is_some() {
                o_atx as u32
            } else {
                0
            },
            unk_30: self.header.unk_30,
            unk_32: self.header.unk_32,
            unk_34: self.header.unk_34,
        }
    }

    /// Serializes the model: header, present sections in packing
    /// order, trailing data. Encoding is total on well-formed models.
    pub fn to_be_bytes(&self) -> (r: Vec<u8>)
        requires
            self.wf(),
        ensures
            r@ =~= self.spec_bytes(),
    {
        proof {
            self.lemma_offsets_ordered();
        }
        let hdr = self.create_header();
        let mut out: Vec<u8> = hdr.to_be_bytes();
        let ghost p0 = out@;
        if let Some(s) = &self.texture_list {
            let mut eb: Vec<u8> = s.to_be_bytes();
            out.append(&mut eb);
        }
        proof {
            assert(out@ =~= p0 + opt_tex_bytes(self.texture_list));
        }
        let ghost p1 = out@;
        if let Some(s) = &self.display_list {
            let mut eb: Vec<u8> = s.to_be_bytes();
            out.append(&mut eb);
        }
        proof {
            assert(out@ =~= p1 + opt_gfx_bytes(self.display_list));
        }
        let ghost p2 = out@;
        if let Some(s) = &self.vertices {
            let mut eb: Vec<u8> = s.to_be_bytes();
            out.append(&mut eb);
        }
        proof {
            assert(out@ =~= p2 + opt_vtx_bytes(self.vertices));
        }
        let ghost p3 = out@;
        if let Some(s) = &self.unk_14_list {
            let mut eb: Vec<u8> = s.to_be_bytes();
            out.append(&mut eb);
        }
        proof {
            assert(out@ =~= p3 + opt_unk14_bytes(self.unk_14_list));
        }
        let ghost p4 = out@;
        if let Some(s) = &self.collision_list {
            let mut eb: Vec<u8> = s.to_be_bytes();
            out.append(&mut eb);
        }
        proof {
            assert(out@ =~= p4 + opt_coll_bytes(self.collision_list));
        }
        let ghost p5 = out@;
        if let Some(s) = &self.mesh_list {
            let mut eb: Vec<u8> = s.to_be_bytes();
            out.append(&mut eb);
        }
        proof {
            assert(out@ =~= p5 + opt_mesh_bytes(self.mesh_list));
        }
        let ghost p6 = out@;
        if let Some(s) = &self.unk_20_list {
            let mut eb: Vec<u8> = s.to_be_bytes();
            out.append(&mut eb);
        }
        proof {
            assert(out@ =~= p6 + opt_unk20_bytes(self.unk_20_list));
        }
        let ghost p7 = out@;
        if let Some(s) = &self.unk_28_list {
            let mut eb: Vec<u8> = s.to_be_bytes();
            out.append(&mut eb);
        }
        proof {
            assert(out@ =~= p7 + opt_unk28_bytes(self.unk_28_list));
        }
        let ghost p8 = out@;
        if let Some(s) = &self.animation_list {
            let mut eb: Vec<u8> = s.to_be_bytes();
            out.append(&mut eb);
        }
        proof {
            assert(out@ =~= p8 + opt_anim_bytes(self.animation_list));
        }
        let ghost p9 = out@;
        if let Some(s) = &self.animated_texture_list {
            let mut eb: Vec<u8> = s.to_be_bytes();
            out.append(&mut eb);
        }
        proof {
            assert(out@ =~= p9 + opt_atex_bytes(self.animated_texture_list));
        }
        push_all(&mut out, &self.data);
        proof {
            assert(out@ =~= self.spec_bytes());
        }
        out
    }

    /// Decodes the section a non-zero offset addresses, or yields
    /// `None` for offset 0.
    #[verifier::rlimit(100)]
    #[verifier::spinoff_prover]
    fn decode_tex_section(in_bytes: &[u8], off_field: u16) -> (r: Result<
        (Option<BKTextureList>, u64),
        TryFromBEBytesError,
    >)
        requires
            in_bytes@.len() <= 0xFFFFFFFF,
        ensures
            r.is_ok() <==> (off_field == 0 || (off_field as int <= in_bytes@.len() && tex_ok(
                in_bytes@.subrange(off_field as int, in_bytes@.len() as int),
            ))),
            r matches Err(e) ==> e == TryFromBEBytesError::Truncated,
            r matches Ok(o) ==> {
                &&& (o.0 is Some <==> off_field != 0)
                &&& o.1 as int == (match o.0 {
                    Option::Some(s) => s.spec_size(),
                    Option::None => 0,
                })
                &&& o.1 <= 0xFFFFFFFF
                &&& (o.0 matches Some(s) ==> {
                    let sl = in_bytes@.subrange(off_field as int, in_bytes@.len() as int);
                    &&& s.wf()
                    &&& s.spec_size() == tex_size(sl)
                    &&& (crate::bkmodel::texture::texlist_exact(sl) ==> s.spec_bytes() == sl.subrange(0, s.spec_size()))
                })
            },
    {
        if off_field == 0 {
            return Ok((None, 0));
        }
        let blen: usize = in_bytes.len();
        let off: usize = off_field as usize;
        if off > blen {
            return Err(TryFromBEBytesError::Truncated);
        }
        match BKTextureList::try_from_be_bytes(vstd::slice::slice_subrange(in_bytes, off, blen)) {
            Ok(s) => {
                let sz: u64 = s.size() as u64;
                Ok((Some(s), sz))
            },
            Err(e) => Err(TryFromBEBytesError::Truncated),
        }
    }

    /// Decodes the section a non-zero offset addresses, or yields
    /// `None` for offset 0.
    #[verifier::rlimit(100)]
    #[verifier::spinoff_prover]
    fn decode_gfx_section(in_bytes: &[u8], off_field: u32) -> (r: Result<
        (Option<BKGfxList>, u64),
        TryFromBEBytesError,
    >)
        requires
            in_bytes@.len() <= 0xFFFFFFFF,
        ensures
            r.is_ok() <==> (off_field == 0 || (off_field as int <= in_bytes@.len() && gfx_ok(
                in_bytes@.subrange(off_field as int, in_bytes@.len() as int),
            ))),
            r matches Err(e) ==> e == TryFromBEBytesError::Truncated,
            r matches Ok(o) ==> {
                &&& (o.0 is Some <==> off_field != 0)
                &&& o.1 as int == (match o.0 {
                    Option::Some(s) => s.spec_size(),
                    Option::None => 0,
                })
                &&& o.1 <= 0xFFFFFFFF
                &&& (o.0 matches Some(s) ==> {
                    let sl = in_bytes@.subrange(off_field as int, in_bytes@.len() as int);
                    &&& s.wf()
                    &&& s.spec_size() == gfx_size(sl)
                    &&& (s.spec_bytes() == sl.subrange(0, s.spec_size()))
                })
            },
    {
        if off_field == 0 {
            return Ok((None, 0));
        }
        let blen: usize = in_bytes.len();
        let off: usize = off_field as usize;
        if off > blen {
            return Err(TryFromBEBytesError::Truncated);
        }
        match BKGfxList::try_from_be_bytes(vstd::slice::slice_subrange(in_bytes, off, blen)) {
            Ok(s) => {
                let sz: u64 = s.size() as u64;
                Ok((Some(s), sz))
            },
            Err(e) => Err(TryFromBEBytesError::Truncated),
        }
    }

    /// Decodes the section a non-zero offset addresses, or yields
    /// `None` for offset 0.
    #[verifier::rlimit(100)]
    #[verifier::spinoff_prover]
    fn decode_vtx_section(in_bytes: &[u8], off_field: u32) -> (r: Result<
        (Option<BKVertexList>, u64),
        TryFromBEBytesError,
    >)
        requires
            in_bytes@.len() <= 0xFFFFFFFF,
        ensures
            r.is_ok() <==> (off_field == 0 || (off_field as int <= in_bytes@.len() && vtx_ok(
                in_bytes@.subrange(off_field as int, in_bytes@.len() as int),
            ))),
            r matches Err(e) ==> e == TryFromBEBytesError::Truncated,
            r matches Ok(o) ==> {
                &&& (o.0 is Some <==> off_field != 0)
                &&& o.1 as int == (match o.0 {
                    Option::Some(s) => s.spec_size(),
                    Option::None => 0,
                })
                &&& o.1 <= 0xFFFFFFFF
                &&& (o.0 matches Some(s) ==> {
                    let sl = in_bytes@.subrange(off_field as int, in_bytes@.len() as int);
                    &&& s.wf()
                    &&& s.spec_size() == vtx_size(sl)
                    &&& (crate::bkmodel::vertex::vertex_stats_exact(s, sl) ==> s.spec_bytes() == sl.subrange(0, s.spec_size()))
                })
            },
    {
        if off_field == 0 {
            return Ok((None, 0));
        }
        let blen: usize = in_bytes.len();
        let off: usize = off_field as usize;
        if off > blen {
            return Err(TryFromBEBytesError::Truncated);
        }
        match BKVertexList::try_from_be_bytes(vstd::slice::slice_subrange(in_bytes, off, blen)) {
            Ok(s) => {
                let sz: u64 = s.size() as u64;
                Ok((Some(s), sz))
            },
            Err(e) => Err(TryFromBEBytesError::Truncated),
        }
    }

    /// Decodes the section a non-zero offset addresses, or yields
    /// `None` for offset 0.
    #[verifier::rlimit(100)]
    #[verifier::spinoff_prover]
    fn decode_unk14_section(in_bytes: &[u8], off_field: u32) -> (r: Result<
        (Option<BKModelUnk14List>, u64),
        TryFromBEBytesError,
    >)
        requires
            in_bytes@.len() <= 0xFFFFFFFF,
        ensures
            r.is_ok() <==> (off_field == 0 || (off_field as int <= in_bytes@.len() && unk14_ok(
                in_bytes@.subrange(off_field as int, in_bytes@.len() as int),
            ))),
            r matches Err(e) ==> e == TryFromBEBytesError::Truncated,
            r matches Ok(o) ==> {
                &&& (o.0 is Some <==> off_field != 0)
                &&& o.1 as int == (match o.0 {
                    Option::Some(s) => s.spec_size(),
                    Option::None => 0,
                })
                &&& o.1 <= 0xFFFFFFFF
                &&& (o.0 matches Some(s) ==> {
                    let sl = in_bytes@.subrange(off_field as int, in_bytes@.len() as int);
                    &&& s.wf()
                    &&& s.spec_size() == unk14_size(sl)
                    &&& (crate::bkmodel::unk_14::unk14_exact(sl) ==> s.spec_bytes() == sl.subrange(0, s.spec_size()))
                })
            },
    {
        if off_field == 0 {
            return Ok((None, 0));
        }
        let blen: usize = in_bytes.len();
        let off: usize = off_field as usize;
        if off > blen {
            return Err(TryFromBEBytesError::Truncated);
        }
        match BKModelUnk14List::try_from_be_bytes(vstd::slice::slice_subrange(in_bytes, off, blen)) {
            Ok(s) => {
                let sz: u64 = s.size() as u64;
                Ok((Some(s), sz))
            },
            Err(e) => Err(TryFromBEBytesError::Truncated),
        }
    }

    /// Decodes the section a non-zero offset addresses, or yields
    /// `None` for offset 0.
    #[verifier::rlimit(100)]
    #[verifier::spinoff_prover]
    fn decode_anim_section(in_bytes: &[u8], off_field: u32) -> (r: Result<
        (Option<BKAnimationList>, u64),
        TryFromBEBytesError,
    >)
        requires
            in_bytes@.len() <= 0xFFFFFFFF,
        ensures
            r.is_ok() <==> (off_field == 0 || (off_field as int <= in_bytes@.len() && anim_ok(
                in_bytes@.subrange(off_field as int, in_bytes@.len() as int),
            ))),
            r matches Err(e) ==> e == TryFromBEBytesError::Truncated,
            r matches Ok(o) ==> {
                &&& (o.0 is Some <==> off_field != 0)
                &&& o.1 as int == (match o.0 {
                    Option::Some(s) => s.spec_size(),
                    Option::None => 0,
                })
                &&& o.1 <= 0xFFFFFFFF
                &&& (o.0 matches Some(s) ==> {
                    let sl = in_bytes@.subrange(off_field as int, in_bytes@.len() as int);
                    &&& s.wf()
                    &&& s.spec_size() == anim_size(sl)
                    &&& (crate::bkmodel::animation::animation_exact(sl) ==> s.spec_bytes() == sl.subrange(0, s.spec_size()))
                })
            },
    {
        if off_field == 0 {
            return Ok((None, 0));
        }
        let blen: usize = in_bytes.len();
        let off: usize = off_field as usize;
        if off > blen {
            return Err(TryFromBEBytesError::Truncated);
        }
        match BKAnimationList::try_from_be_bytes(vstd::slice::slice_subrange(in_bytes, off, blen)) {
            Ok(s) => {
                let sz: u64 = s.size() as u64;
                Ok((Some(s), sz))
            },
            Err(e) => Err(TryFromBEBytesError::Truncated),
        }
    }

    /// Decodes the section a non-zero offset addresses, or yields
    /// `None` for offset 0.
    #[verifier::rlimit(100)]
    #[verifier::spinoff_prover]
    fn decode_coll_section(in_bytes: &[u8], off_field: u32) -> (r: Result<
        (Option<BKCollisionList>, u64),
        TryFromBEBytesError,
    >)
        requires
            in_bytes@.len() <= 0xFFFFFFFF,
        ensures
            r.is_ok() <==> (off_field == 0 || (off_field as int <= in_bytes@.len() && coll_ok(
                in_bytes@.subrange(off_field as int, in_bytes@.len() as int),
            ))),
            r matches Err(e) ==> e == TryFromBEBytesError::Truncated,
            r matches Ok(o) ==> {
                &&& (o.0 is Some <==> off_field != 0)
                &&& o.1 as int == (match o.0 {
                    Option::Some(s) => s.spec_size(),
                    Option::None => 0,
                })
                &&& o.1 <= 0xFFFFFFFF
                &&& (o.0 matches Some(s) ==> {
                    let sl = in_bytes@.subrange(off_field as int, in_bytes@.len() as int);
                    &&& s.wf()
                    &&& s.spec_size() == coll_size(sl)
                    &&& (crate::bkmodel::collision::collision_exact(sl) ==> s.spec_bytes() == sl.subrange(0, s.spec_size()))
                })
            },
    {
        if off_field == 0 {
            return Ok((None, 0));
        }
        let blen: usize = in_bytes.len();
        let off: usize = off_field as usize;
        if off > blen {
            return Err(TryFromBEBytesError::Truncated);
        }
        match BKCollisionList::try_from_be_bytes(vstd::slice::slice_subrange(in_bytes, off, blen)) {
            Ok(s) => {
                let sz: u64 = s.size() as u64;
                Ok((Some(s), sz))
            },
            Err(e) => Err(TryFromBEBytesError::Truncated),
        }
    }

    /// Decodes the section a non-zero offset addresses, or yields
    /// `None` for offset 0.
    #[verifier::rlimit(100)]
    #[verifier::spinoff_prover]
    fn decode_unk20_section(in_bytes: &[u8], off_field: u32) -> (r: Result<
        (Option<BKModelUnk20List>, u64),
        TryFromBEBytesError,
    >)
        requires
            in_bytes@.len() <= 0xFFFFFFFF,
        ensures
            r.is_ok() <==> (off_field == 0 || (off_field as int <= in_bytes@.len() && unk20_ok(
                in_bytes@.subrange(off_field as int, in_bytes@.len() as int),
            ))),
            r matches Err(e) ==> e == TryFromBEBytesError::Truncated,
            r matches Ok(o) ==> {
                &&& (o.0 is Some <==> off_field != 0)
                &&& o.1 as int == (match o.0 {
                    Option::Some(s) => s.spec_size(),
                    Option::None => 0,
                })
                &&& o.1 <= 0xFFFFFFFF
                &&& (o.0 matches Some(s) ==> {
                    let sl = in_bytes@.subrange(off_field as int, in_bytes@.len() as int);
                    &&& s.wf()
                    &&& s.spec_size() == unk20_size(sl)
                    &&& (crate::bkmodel::unk_20::unk20_exact(sl) ==> s.spec_bytes() == sl.subrange(0, s.spec_size()))
                })
            },
    {
        if off_field == 0 {
            return Ok((None, 0));
        }
        let blen: usize = in_bytes.len();
        let off: usize = off_field as usize;
        if off > blen {
            return Err(TryFromBEBytesError::Truncated);
        }
        match BKModelUnk20List::try_from_be_bytes(vstd::slice::slice_subrange(in_bytes, off, blen)) {
            Ok(s) => {
                let sz: u64 = s.size() as u64;
                Ok((Some(s), sz))
            },
            Err(e) => Err(TryFromBEBytesError::Truncated),
        }
    }

    /// Decodes the section a non-zero offset addresses, or yields
    /// `None` for offset 0.
    #[verifier::rlimit(100)]
    #[verifier::spinoff_prover]
    fn decode_mesh_section(in_bytes: &[u8], off_field: u32) -> (r: Result<
        (Option<BKMeshList>, u64),
        TryFromBEBytesError,
    >)
        requires
            in_bytes@.len() <= 0xFFFFFFFF,
        ensures
            r.is_ok() <==> (off_field == 0 || (off_field as int <= in_bytes@.len() && mesh_ok(
                in_bytes@.subrange(off_field as int, in_bytes@.len() as int),
            ))),
            r matches Err(e) ==> e == TryFromBEBytesError::Truncated,
            r matches Ok(o) ==> {
                &&& (o.0 is Some <==> off_field != 0)
                &&& o.1 as int == (match o.0 {
                    Option::Some(s) => s.spec_size(),
                    Option::None => 0,
                })
                &&& o.1 <= 0xFFFFFFFF
                &&& (o.0 matches Some(s) ==> {
                    let sl = in_bytes@.subrange(off_field as int, in_bytes@.len() as int);
                    &&& s.wf()
                    &&& s.spec_size() == mesh_size(sl)
                    &&& (s.pad_exact(sl) ==> s.spec_bytes() == sl.subrange(0, s.spec_size()))
                })
            },
    {
        if off_field == 0 {
            return Ok((None, 0));
        }
        let blen: usize = in_bytes.len();
        let off: usize = off_field as usize;
        if off > blen {
            return Err(TryFromBEBytesError::Truncated);
        }
        match BKMeshList::try_from_be_bytes(vstd::slice::slice_subrange(in_bytes, off, blen)) {
            Ok(s) => {
                let sz: u64 = s.size() as u64;
                Ok((Some(s), sz))
            },
            Err(e) => Err(TryFromBEBytesError::Truncated),
        }
    }

    /// Decodes the section a non-zero offset addresses, or yields
    /// `None` for offset 0.
    #[verifier::rlimit(100)]
    #[verifier::spinoff_prover]
    fn decode_unk28_section(in_bytes: &[u8], off_field: u32) -> (r: Result<
        (Option<BKModelUnk28List>, u64),
        TryFromBEBytesError,
    >)
        requires
            in_bytes@.len() <= 0xFFFFFFFF,
        ensures
            r.is_ok() <==> (off_field == 0 || (off_field as int <= in_bytes@.len() && unk28_ok(
                in_bytes@.subrange(off_field as int, in_bytes@.len() as int),
            ))),
            r matches Err(e) ==> e == TryFromBEBytesError::Truncated,
            r matches Ok(o) ==> {
                &&& (o.0 is Some <==> off_field != 0)
                &&& o.1 as int == (match o.0 {
                    Option::Some(s) => s.spec_size(),
                    Option::None => 0,
                })
                &&& o.1 <= 0xFFFFFFFF
                &&& (o.0 matches Some(s) ==> {
                    let sl = in_bytes@.subrange(off_field as int, in_bytes@.len() as int);
                    &&& s.wf()
                    &&& s.spec_size() == unk28_size(sl)
                    &&& (s.pad_exact(sl) ==> s.spec_bytes() == sl.subrange(0, s.spec_size()))
                })
            },
    {
        if off_field == 0 {
            return Ok((None, 0));
        }
        let blen: usize = in_bytes.len();
        let off: usize = off_field as usize;
        if off > blen {
            return Err(TryFromBEBytesError::Truncated);
        }
        match BKModelUnk28List::try_from_be_bytes(vstd::slice::slice_subrange(in_bytes, off, blen)) {
            Ok(s) => {
                let sz: u64 = s.size() as u64;
                Ok((Some(s), sz))
            },
            Err(e) => Err(TryFromBEBytesError::Truncated),
        }
    }

    /// Decodes the fixed-size animated-texture table, or yields
    /// `None` for offset 0.
    #[verifier::rlimit(100)]
    #[verifier::spinoff_prover]
    fn decode_atex_section(in_bytes: &[u8], off_field: u32) -> (r: Result<
        (Option<BKAnimatedTextureList>, u64),
        TryFromBEBytesError,
    >)
        requires
            in_bytes@.len() <= 0xFFFFFFFF,
        ensures
            r.is_ok() <==> (off_field == 0 || (off_field as int <= in_bytes@.len() && atex_ok(
                in_bytes@.subrange(off_field as int, in_bytes@.len() as int),
            ))),
            r matches Err(e) ==> e == TryFromBEBytesError::Truncated,
            r matches Ok(o) ==> {
                &&& (o.0 is Some <==> off_field != 0)
                &&& o.1 as int == (match o.0 {
                    Option::Some(s) => s.spec_size(),
                    Option::None => 0,
                })
                &&& o.1 <= 0xFFFFFFFF
                &&& (o.0 matches Some(s) ==> {
                    let sl = in_bytes@.subrange(off_field as int, in_bytes@.len() as int);
                    &&& s.spec_size() == 0x20
                    &&& (crate::bkmodel::animated_texture::anim_tex_exact(sl) ==> s.spec_bytes()
                        == sl.subrange(0, 0x20))
                })
            },
    {
        if off_field == 0 {
            return Ok((None, 0));
        }
        let blen: usize = in_bytes.len();
        let off: usize = off_field as usize;
        if off > blen || blen - off < 0x20 {
            return Err(TryFromBEBytesError::Truncated);
        }
        Ok(
            (
                Some(
                    BKAnimatedTextureList::from_be_bytes(
                        vstd::slice::slice_subrange(in_bytes, off, blen),
                    ),
                ),
                0x20,
            ),
        )
    }

    /// Decodes every section the header addresses, leaving the
    /// trailing data empty for the caller to fill.
    #[verifier::rlimit(100)]
    #[verifier::spinoff_prover]
    fn decode_all_sections(in_bytes: &[u8], header: &BKModelHeader) -> (r: Result<
        (BKModel, u64),
        TryFromBEBytesError,
    >)
        requires
            0x38 <= in_bytes@.len() <= 0xFFFFFFFF,
            magic_ok(in_bytes@),
            *header == BKModelHeader::spec_parse(in_bytes@),
        ensures
            r.is_ok() <==> sections_ok(in_bytes@),
            r matches Err(e) ==> e == TryFromBEBytesError::Truncated,
            r matches Ok(p) ==> p.0.header == *header && p.0.data@ == Seq::<u8>::empty()
                && decoded_sections(p.0, in_bytes@, *header) && p.1 as int == off_end(p.0),
    {
        let (texture_list, sz_texture_list): (Option<BKTextureList>, u64) = match Self::decode_tex_section(
            in_bytes,
            header.texture_list_offset,
        ) {
            Ok(o) => o,
            Err(e) => {
                return Err(e);
            },
        };
        let (display_list, sz_display_list): (Option<BKGfxList>, u64) = match Self::decode_gfx_section(
            in_bytes,
            header.gfx_list_offset,
        ) {
            Ok(o) => o,
            Err(e) => {
                return Err(e);
            },
        };
        let (vertices, sz_vertices): (Option<BKVertexList>, u64) = match Self::decode_vtx_section(
            in_bytes,
            header.vtx_list_offset,
        ) {
            Ok(o) => o,
            Err(e) => {
                return Err(e);
            },
        };
        let (unk_14_list, sz_unk_14_list): (Option<BKModelUnk14List>, u64) = match Self::decode_unk14_section(
            in_bytes,
            header.unk_14_offset,
        ) {
            Ok(o) => o,
            Err(e) => {
                return Err(e);
            },
        };
        let (animation_list, sz_animation_list): (Option<BKAnimationList>, u64) = match Self::decode_anim_section(
            in_bytes,
            header.unk_18_offset,
        ) {
            Ok(o) => o,
            Err(e) => {
                return Err(e);
            },
        };
        let (collision_list, sz_collision_list): (Option<BKCollisionList>, u64) = match Self::decode_coll_section(
            in_bytes,
            header.collision_list_offset,
        ) {
            Ok(o) => o,
            Err(e) => {
                return Err(e);
            },
        };
        let (unk_20_list, sz_unk_20_list): (Option<BKModelUnk20List>, u64) = match Self::decode_unk20_section(
            in_bytes,
            header.unk_20_offset,
        ) {
            Ok(o) => o,
            Err(e) => {
                return Err(e);
            },
        };
        let (mesh_list, sz_mesh_list): (Option<BKMeshList>, u64) = match Self::decode_mesh_section(
            in_bytes,
            header.unk_24_offset,
        ) {
            Ok(o) => o,
            Err(e) => {
                return Err(e);
            },
        };
        let (unk_28_list, sz_unk_28_list): (Option<BKModelUnk28List>, u64) = match Self::decode_unk28_section(
            in_bytes,
            header.unk_28_offset,
        ) {
            Ok(o) => o,
            Err(e) => {
                return Err(e);
            },
        };
        let (animated_texture_list, sz_animated_texture_list): (Option<BKAnimatedTextureList>, u64) = match Self::decode_atex_section(
            in_bytes,
            header.unk_2c_offset,
        ) {
            Ok(o) => o,
            Err(e) => {
                return Err(e);
            },
        };
        let end64: u64 = 0x38 + sz_texture_list + sz_display_list + sz_vertices
            + sz_unk_14_list + sz_collision_list + sz_mesh_list + sz_unk_20_list + sz_unk_28_list
            + sz_animation_list + sz_animated_texture_list;
        Ok(
            (
                BKModel {
                    header: BKModelHeader { ..*header },
                    texture_list,
                    display_list,
                    vertices,
                    unk_14_list,
                    animation_list,
                    collision_list,
                    unk_20_list,
                    mesh_list,
                    unk_28_list,
                    animated_texture_list,
                    data: Vec::new(),
                },
                end64,
            ),
        )
    }

    /// The packed end offset of a decoded model equals the end
    /// offset read off its source buffer.
    #[verifier::rlimit(100)]
    #[verifier::spinoff_prover]
    proof fn lemma_end_eq(m: BKModel, b: Seq<u8>)
        requires
            b.len() >= 0x38,
            m.header == BKModelHeader::spec_parse(b),
            decoded_sections(m, b, m.header),
        ensures
            model_end(b) == off_end(m),
    {
    }

    /// Applies the per-section round trips of a freshly decoded model
    /// and chains them into the whole-buffer round trip.
    #[verifier::rlimit(100)]
    #[verifier::spinoff_prover]
    proof fn lemma_decode_roundtrip(m: BKModel, b: Seq<u8>)
        requires
            m.wf(),
            0x38 <= b.len() <= 0xFFFFFFFF,
            magic_ok(b),
            m.header == BKModelHeader::spec_parse(b),
            decoded_sections(m, b, m.header),
            off_end(m) <= b.len(),
            m.data@ == b.subrange(off_end(m), b.len() as int),
            model_exact(m, b),
        ensures
            m.spec_bytes() =~= b,
    {
        m.lemma_offsets_ordered();
        assert(m.texture_list is Some <==> be_u16_at(b, 8) != 0);
        assert(m.display_list is Some <==> be_u32_at(b, 0xC) != 0);
        assert(m.vertices is Some <==> be_u32_at(b, 0x10) != 0);
        assert(m.unk_14_list is Some <==> be_u32_at(b, 0x14) != 0);
        assert(m.animation_list is Some <==> be_u32_at(b, 0x18) != 0);
        assert(m.collision_list is Some <==> be_u32_at(b, 0x1C) != 0);
        assert(m.unk_20_list is Some <==> be_u32_at(b, 0x20) != 0);
        assert(m.mesh_list is Some <==> be_u32_at(b, 0x24) != 0);
        assert(m.unk_28_list is Some <==> be_u32_at(b, 0x28) != 0);
        assert(m.animated_texture_list is Some <==> be_u32_at(b, 0x2C) != 0);
    match &m.texture_list {
            Option::Some(s) => {
                let sl = b.subrange(off_tex(m), b.len() as int);
                assert(be_u16_at(b, 8) as int == off_tex(m));
                assert(s.spec_bytes() == sl.subrange(0, s.spec_size()));
                crate::bebytes::lemma_subrange_of_subrange(b, off_tex(m), b.len() as int, s.spec_size());
                assert(opt_tex_bytes(m.texture_list) == b.subrange(off_tex(m), off_gfx(m)));
            },
            Option::None => {
                assert(opt_tex_bytes(m.texture_list) =~= b.subrange(off_tex(m), off_gfx(m)));
            },
        }
        match &m.display_list {
            Option::Some(s) => {
                let sl = b.subrange(off_gfx(m), b.len() as int);
                assert(be_u32_at(b, 0xC) as int == off_gfx(m));
                assert(s.spec_bytes() == sl.subrange(0, s.spec_size()));
                crate::bebytes::lemma_subrange_of_subrange(b, off_gfx(m), b.len() as int, s.spec_size());
                assert(opt_gfx_bytes(m.display_list) == b.subrange(off_gfx(m), off_vtx(m)));
            },
            Option::None => {
                assert(opt_gfx_bytes(m.display_list) =~= b.subrange(off_gfx(m), off_vtx(m)));
            },
        }
        match &m.vertices {
            Option::Some(s) => {
                let sl = b.subrange(off_vtx(m), b.len() as int);
                assert(be_u32_at(b, 0x10) as int == off_vtx(m));
                assert(s.spec_bytes() == sl.subrange(0, s.spec_size()));
                crate::bebytes::lemma_subrange_of_subrange(b, off_vtx(m), b.len() as int, s.spec_size());
                assert(opt_vtx_bytes(m.vertices) == b.subrange(off_vtx(m), off_unk14(m)));
            },
            Option::None => {
                assert(opt_vtx_bytes(m.vertices) =~= b.subrange(off_vtx(m), off_unk14(m)));
            },
        }
        match &m.unk_14_list {
            Option::Some(s) => {
                let sl = b.subrange(off_unk14(m), b.len() as int);
                assert(be_u32_at(b, 0x14) as int == off_unk14(m));
                assert(s.spec_bytes() == sl.subrange(0, s.spec_size()));
                crate::bebytes::lemma_subrange_of_subrange(b, off_unk14(m), b.len() as int, s.spec_size());
                assert(opt_unk14_bytes(m.unk_14_list) == b.subrange(off_unk14(m), off_coll(m)));
            },
            Option::None => {
                assert(opt_unk14_bytes(m.unk_14_list) =~= b.subrange(off_unk14(m), off_coll(m)));
            },
        }
        match &m.collision_list {
            Option::Some(s) => {
                let sl = b.subrange(off_coll(m), b.len() as int);
                assert(be_u32_at(b, 0x1C) as int == off_coll(m));
                assert(s.spec_bytes() == sl.subrange(0, s.spec_size()));
                crate::bebytes::lemma_subrange_of_subrange(b, off_coll(m), b.len() as int, s.spec_size());
                assert(opt_coll_bytes(m.collision_list) == b.subrange(off_coll(m), off_mesh(m)));
            },
            Option::None => {
                assert(opt_coll_bytes(m.collision_list) =~= b.subrange(off_coll(m), off_mesh(m)));
            },
        }
        match &m.mesh_list {
            Option::Some(s) => {
                let sl = b.subrange(off_mesh(m), b.len() as int);
                assert(be_u32_at(b, 0x24) as int == off_mesh(m));
                assert(s.spec_bytes() == sl.subrange(0, s.spec_size()));
                crate::bebytes::lemma_subrange_of_subrange(b, off_mesh(m), b.len() as int, s.spec_size());
                assert(opt_mesh_bytes(m.mesh_list) == b.subrange(off_mesh(m), off_unk20(m)));
            },
            Option::None => {
                assert(opt_mesh_bytes(m.mesh_list) =~= b.subrange(off_mesh(m), off_unk20(m)));
            },
        }
        match &m.unk_20_list {
            Option::Some(s) => {
                let sl = b.subrange(off_unk20(m), b.len() as int);
                assert(be_u32_at(b, 0x20) as int == off_unk20(m));
                assert(s.spec_bytes() == sl.subrange(0, s.spec_size()));
                crate::bebytes::lemma_subrange_of_subrange(b, off_unk20(m), b.len() as int, s.spec_size());
                assert(opt_unk20_bytes(m.unk_20_list) == b.subrange(off_unk20(m), off_unk28(m)));
            },
            Option::None => {
                assert(opt_unk20_bytes(m.unk_20_list) =~= b.subrange(off_unk20(m), off_unk28(m)));
            },
        }
        match &m.unk_28_list {
            Option::Some(s) => {
                let sl = b.subrange(off_unk28(m), b.len() as int);
                assert(be_u32_at(b, 0x28) as int == off_unk28(m));
                assert(s.spec_bytes() == sl.subrange(0, s.spec_size()));
                crate::bebytes::lemma_subrange_of_subrange(b, off_unk28(m), b.len() as int, s.spec_size());
                assert(opt_unk28_bytes(m.unk_28_list) == b.subrange(off_unk28(m), off_anim(m)));
            },
            Option::None => {
                assert(opt_unk28_bytes(m.unk_28_list) =~= b.subrange(off_unk28(m), off_anim(m)));
            },
        }
        match &m.animation_list {
            Option::Some(s) => {
                let sl = b.subrange(off_anim(m), b.len() as int);
                assert(be_u32_at(b, 0x18) as int == off_anim(m));
                assert(s.spec_bytes() == sl.subrange(0, s.spec_size()));
                crate::bebytes::lemma_subrange_of_subrange(b, off_anim(m), b.len() as int, s.spec_size());
                assert(opt_anim_bytes(m.animation_list) == b.subrange(off_anim(m), off_atex(m)));
            },
            Option::None => {
                assert(opt_anim_bytes(m.animation_list) =~= b.subrange(off_anim(m), off_atex(m)));
            },
        }
        match &m.animated_texture_list {
            Option::Some(s) => {
                let sl = b.subrange(off_atex(m), b.len() as int);
                assert(be_u32_at(b, 0x2C) as int == off_atex(m));
                assert(s.spec_bytes() == sl.subrange(0, s.spec_size()));
                crate::bebytes::lemma_subrange_of_subrange(b, off_atex(m), b.len() as int, s.spec_size());
                assert(opt_atex_bytes(m.animated_texture_list) == b.subrange(off_atex(m), off_end(m)));
            },
            Option::None => {
                assert(opt_atex_bytes(m.animated_texture_list) =~= b.subrange(off_atex(m), off_end(m)));
            },
        }
        lemma_model_roundtrip(m, b);
    }

    /// Every present section's size fits the 32-bit world of its
    /// source buffer.
    #[verifier::rlimit(100)]
    #[verifier::spinoff_prover]
    proof fn lemma_section_size_bounds(m: BKModel, b: Seq<u8>)
        requires
            0x38 <= b.len() <= 0xFFFFFFFF,
            m.header == BKModelHeader::spec_parse(b),
            sections_ok(b),
            decoded_sections(m, b, m.header),
        ensures
            m.texture_list matches Option::Some(s) ==> s.wf() && s.spec_size() <= 0xFFFFFFFF,
            m.display_list matches Option::Some(s) ==> s.wf() && s.spec_size() <= 0xFFFFFFFF,
            m.vertices matches Option::Some(s) ==> s.wf() && s.spec_size() <= 0xFFFFFFFF,
            m.unk_14_list matches Option::Some(s) ==> s.wf() && s.spec_size() <= 0xFFFFFFFF,
            m.animation_list matches Option::Some(s) ==> s.wf() && s.spec_size() <= 0xFFFFFFFF,
            m.collision_list matches Option::Some(s) ==> s.wf() && s.spec_size() <= 0xFFFFFFFF,
            m.unk_20_list matches Option::Some(s) ==> s.wf() && s.spec_size() <= 0xFFFFFFFF,
            m.unk_28_list matches Option::Some(s) ==> s.wf() && s.spec_size() <= 0xFFFFFFFF,
            m.mesh_list matches Option::Some(s) ==> s.wf() && s.spec_size() <= 0xFFFFFFFF,
            m.animated_texture_list matches Option::Some(s) ==> s.spec_size() == 0x20,
    {
    }

    /// Everything the finished model guarantees, given a successful
    /// layout check.
    #[verifier::rlimit(100)]
    #[verifier::spinoff_prover]
    proof fn lemma_finish(m2: BKModel, b: Seq<u8>)
        requires
            0x38 <= b.len() <= 0xFFFFFFFF,
            magic_ok(b),
            m2.header == BKModelHeader::spec_parse(b),
            sections_ok(b),
            decoded_sections(m2, b, m2.header),
            off_end(m2) <= b.len(),
            m2.data@ == b.subrange(off_end(m2), b.len() as int),
        ensures
            m2.wf(),
            m2.texture_list is Some <==> be_u16_at(b, 8) != 0,
            m2.display_list is Some <==> be_u32_at(b, 0xC) != 0,
            m2.vertices is Some <==> be_u32_at(b, 0x10) != 0,
            m2.unk_14_list is Some <==> be_u32_at(b, 0x14) != 0,
            m2.animation_list is Some <==> be_u32_at(b, 0x18) != 0,
            m2.collision_list is Some <==> be_u32_at(b, 0x1C) != 0,
            m2.unk_20_list is Some <==> be_u32_at(b, 0x20) != 0,
            m2.mesh_list is Some <==> be_u32_at(b, 0x24) != 0,
            m2.unk_28_list is Some <==> be_u32_at(b, 0x28) != 0,
            m2.animated_texture_list is Some <==> be_u32_at(b, 0x2C) != 0,
            off_end(m2) == model_end(b),
            model_exact(m2, b) ==> m2.spec_bytes() =~= b,
    {
        Self::lemma_end_eq(m2, b);
        if model_exact(m2, b) {
            Self::lemma_decode_roundtrip(m2, b);
        }
    }

    /// Checks that the packed sections fit and attaches the trailing
    /// data.
    #[verifier::rlimit(100)]
    #[verifier::spinoff_prover]
    fn finish_model(in_bytes: &[u8], m: BKModel, end64: u64) -> (r: Result<
        BKModel,
        TryFromBEBytesError,
    >)
        requires
            0x38 <= in_bytes@.len() <= 0xFFFFFFFF,
            magic_ok(in_bytes@),
            m.header == BKModelHeader::spec_parse(in_bytes@),
            m.data@ == Seq::<u8>::empty(),
            sections_ok(in_bytes@),
            decoded_sections(m, in_bytes@, m.header),
            end64 as int == off_end(m),
        ensures
            r.is_ok() <==> model_end(in_bytes@) <= in_bytes@.len(),
            r matches Err(e) ==> e == TryFromBEBytesError::Truncated,
            r matches Ok(m2) ==> {
                &&& m2.wf()
                &&& m2.header == BKModelHeader::spec_parse(in_bytes@)
                &&& (m2.texture_list is Some <==> be_u16_at(in_bytes@, 8) != 0)
                &&& (m2.display_list is Some <==> be_u32_at(in_bytes@, 0xC) != 0)
                &&& (m2.vertices is Some <==> be_u32_at(in_bytes@, 0x10) != 0)
                &&& (m2.unk_14_list is Some <==> be_u32_at(in_bytes@, 0x14) != 0)
                &&& (m2.animation_list is Some <==> be_u32_at(in_bytes@, 0x18) != 0)
                &&& (m2.collision_list is Some <==> be_u32_at(in_bytes@, 0x1C) != 0)
                &&& (m2.unk_20_list is Some <==> be_u32_at(in_bytes@, 0x20) != 0)
                &&& (m2.mesh_list is Some <==> be_u32_at(in_bytes@, 0x24) != 0)
                &&& (m2.unk_28_list is Some <==> be_u32_at(in_bytes@, 0x28) != 0)
                &&& (m2.animated_texture_list is Some <==> be_u32_at(in_bytes@, 0x2C) != 0)
                &&& off_end(m2) == model_end(in_bytes@) <= in_bytes@.len()
                &&& m2.data@ == in_bytes@.subrange(model_end(in_bytes@), in_bytes@.len() as int)
                &&& (model_exact(m2, in_bytes@) ==> m2.spec_bytes() =~= in_bytes@)
            },
    {
        let blen: usize = in_bytes.len();
        let ghost gb = in_bytes@;
        let mut m = m;
        proof {
            Self::lemma_end_eq(m, gb);
        }
        if end64 > blen as u64 {
            return Err(TryFromBEBytesError::Truncated);
        }
        let end: usize = end64 as usize;
        let data: Vec<u8> = copy_range(in_bytes, end, blen);
        m.data = data;
        proof {
            assert(decoded_sections(m, gb, m.header));
            Self::lemma_finish(m, gb);
        }
        Ok(m)
    }

    /// Decodes a model buffer. `BadMagic` reports a wrong tag;
    /// `Truncated` reports a buffer too short for its header, for a
    /// section a non-zero offset addresses, or for the packed layout.
    /// On files whose stored layout is canonical (`model_exact`),
    /// re-encoding the result reproduces the input byte for byte.
    #[verifier::rlimit(100)]
    #[verifier::spinoff_prover]
    pub fn try_from_be_bytes(in_bytes: &[u8]) -> (r: Result<BKModel, TryFromBEBytesError>)
        ensures
            r.is_ok() <==> model_ok(in_bytes@),
            r matches Err(e) ==> (e == TryFromBEBytesError::BadMagic <==> in_bytes@.len() >= 4
                && !magic_ok(in_bytes@)),
            r matches Ok(m) ==> {
                &&& m.wf()
                &&& m.header == BKModelHeader::spec_parse(in_bytes@)
                &&& (m.texture_list is Some <==> be_u16_at(in_bytes@, 8) != 0)
                &&& (m.display_list is Some <==> be_u32_at(in_bytes@, 0xC) != 0)
                &&& (m.vertices is Some <==> be_u32_at(in_bytes@, 0x10) != 0)
                &&& (m.unk_14_list is Some <==> be_u32_at(in_bytes@, 0x14) != 0)
                &&& (m.animation_list is Some <==> be_u32_at(in_bytes@, 0x18) != 0)
                &&& (m.collision_list is Some <==> be_u32_at(in_bytes@, 0x1C) != 0)
                &&& (m.unk_20_list is Some <==> be_u32_at(in_bytes@, 0x20) != 0)
                &&& (m.mesh_list is Some <==> be_u32_at(in_bytes@, 0x24) != 0)
                &&& (m.unk_28_list is Some <==> be_u32_at(in_bytes@, 0x28) != 0)
                &&& (m.animated_texture_list is Some <==> be_u32_at(in_bytes@, 0x2C) != 0)
                &&& off_end(m) == model_end(in_bytes@) <= in_bytes@.len()
                &&& m.data@ == in_bytes@.subrange(model_end(in_bytes@), in_bytes@.len() as int)
                &&& (model_exact(m, in_bytes@) ==> m.spec_bytes() =~= in_bytes@)
            },
    {
        let blen: usize = in_bytes.len();
        if blen < 4 {
            return Err(TryFromBEBytesError::Truncated);
        }
        if !(in_bytes[0] == 0 && in_bytes[1] == 0 && in_bytes[2] == 0 && in_bytes[3] == 0x0B) {
            return Err(TryFromBEBytesError::BadMagic);
        }
        if blen < 0x38 {
            return Err(TryFromBEBytesError::Truncated);
        }
        if blen as u64 > 0xFFFFFFFFu64 {
            return Err(TryFromBEBytesError::Truncated);
        }
        let ghost gb = in_bytes@;
        let header = BKModelHeader::from_be_bytes(in_bytes);
        let (mut m, end64): (BKModel, u64) = match Self::decode_all_sections(in_bytes, &header) {
            Ok(p) => p,
            Err(e) => {
                return Err(e);
            },
        };
        Self::finish_model(in_bytes, m, end64)
    }
}

} // verus!
