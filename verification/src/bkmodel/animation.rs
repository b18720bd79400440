//! The skeletal animation section: a leading 32-bit word carried
//! opaquely, a 16-bit record count, two reserved bytes, then `count`
//! fixed 0x10-byte bone records, zero-padded to a multiple of 8.

use crate::bebytes::be_i16_at;
use crate::bebytes::be_u16_at;
use crate::bebytes::be_u32_at;
use crate::bebytes::concat_map;
use crate::bebytes::lemma_align8;
use crate::bebytes::lemma_concat_map_fixed_len;
use crate::bebytes::lemma_concat_map_push;
use crate::bebytes::lemma_i16_bytes_at;
use crate::bebytes::lemma_u16_bytes_at;
use crate::bebytes::lemma_u32_bytes_at;
use crate::bebytes::pad_to;
use crate::bebytes::push_i16;
use crate::bebytes::push_u16;
use crate::bebytes::push_u32;
use crate::bebytes::read_i16;
use crate::bebytes::read_u16;
use crate::bebytes::read_u32;
use crate::bebytes::spec_align8;
use crate::bebytes::spec_i16_bytes;
use crate::bebytes::spec_u16_bytes;
use crate::bebytes::spec_u32_bytes;
use crate::bebytes::zeros;
use crate::error::TryFromBEBytesError;
use vstd::prelude::*;

verus! {

/// One 0x10-byte bone record: three 32-bit words carried as opaque
/// bit patterns (the engine reads them as a position), a bone id and
/// a parent transform id. Every byte is kept.
#[derive(Debug)]
pub struct BKAnimation {
    pub unk_0: [u32; 3],
    pub bone_id: i16,
    pub mtx_id: i16,
}

impl BKAnimation {
    /// The 0x10 bytes written for this record.
    pub open spec fn spec_bytes(self) -> Seq<u8> {
        spec_u32_bytes(self.unk_0[0]) + spec_u32_bytes(self.unk_0[1]) + spec_u32_bytes(
            self.unk_0[2],
        ) + spec_i16_bytes(self.bone_id) + spec_i16_bytes(self.mtx_id)
    }

    /// The fields hold exactly what the first 0x10 bytes of `b` store.
    pub open spec fn parses_from(self, b: Seq<u8>) -> bool {
        &&& self.unk_0[0] == be_u32_at(b, 0)
        &&& self.unk_0[1] == be_u32_at(b, 4)
        &&& self.unk_0[2] == be_u32_at(b, 8)
        &&& self.bone_id == be_i16_at(b, 0xC)
        &&& self.mtx_id == be_i16_at(b, 0xE)
    }

    /// A record read from `b` writes `b` back.
    pub proof fn lemma_roundtrip(self, b: Seq<u8>)
        requires
            b.len() >= 0x10,
            self.parses_from(b),
        ensures
            self.spec_bytes() =~= b.subrange(0, 0x10),
    {
        lemma_u32_bytes_at(b, 0);
        lemma_u32_bytes_at(b, 4);
        lemma_u32_bytes_at(b, 8);
        lemma_i16_bytes_at(b, 0xC);
        lemma_i16_bytes_at(b, 0xE);
    }

    pub fn from_be_bytes(bytes: &[u8]) -> (r: Self)
        requires
            bytes@.len() >= 0x10,
        ensures
            r.parses_from(bytes@),
    {
        BKAnimation {
            unk_0: [read_u32(bytes, 0), read_u32(bytes, 4), read_u32(bytes, 8)],
            bone_id: read_i16(bytes, 0xC),
            mtx_id: read_i16(bytes, 0xE),
        }
    }

    #[verifier::rlimit(100)]
    pub fn to_be_bytes(&self) -> (r: Vec<u8>)
        ensures
            r@ =~= self.spec_bytes(),
    {
        let mut out: Vec<u8> = Vec::new();
        push_u32(&mut out, self.unk_0[0]);
        push_u32(&mut out, self.unk_0[1]);
        push_u32(&mut out, self.unk_0[2]);
        push_i16(&mut out, self.bone_id);
        push_i16(&mut out, self.mtx_id);
        proof {
            assert(out@ =~= self.spec_bytes());
        }
        out
    }
}

/// The encoding function of one bone record.
pub open spec fn anim_elem_bytes() -> spec_fn(BKAnimation) -> Seq<u8> {
    |e: BKAnimation| e.spec_bytes()
}

/// True when the reserved and padding bytes of an encoded animation
/// section are zero, which is what re-encoding writes there.
pub open spec fn animation_exact(b: Seq<u8>) -> bool {
    let count = be_u16_at(b, 4) as int;
    let raw = 8 + count * 0x10;
    &&& b[6] == 0
    &&& b[7] == 0
    &&& forall|k: int| raw <= k < spec_align8(raw) ==> #[trigger] b[k] == 0
}

/// The animation section.
#[derive(Debug)]
pub struct BKAnimationList {
    /// The leading 32-bit word, carried as an opaque bit pattern.
    pub unk_0: u32,
    pub animations: Vec<BKAnimation>,
}

impl BKAnimationList {
    /// The record count fits its 16-bit field.
    pub open spec fn wf(self) -> bool {
        self.animations@.len() <= 0xFFFF
    }

    /// Encoded size: sub-header plus records, padded to a multiple of 8.
    pub open spec fn spec_size(self) -> int {
        spec_align8(8 + (self.animations@.len() as int) * 0x10)
    }

    /// The bytes written for the whole section.
    pub open spec fn spec_bytes(self) -> Seq<u8> {
        let raw = 8 + (self.animations@.len() as int) * 0x10;
        spec_u32_bytes(self.unk_0) + spec_u16_bytes((self.animations@.len() as int) as u16) + seq![
            0u8,
            0u8,
        ] + concat_map(self.animations@, anim_elem_bytes()) + zeros(self.spec_size() - raw)
    }

    /// The section's encoded length is a multiple of 8 and matches
    /// `spec_size`.
    pub proof fn lemma_size(self)
        ensures
            self.spec_size() % 8 == 0,
            self.spec_bytes().len() == self.spec_size(),
            self.spec_size() >= 8,
    {
        lemma_align8(8 + (self.animations@.len() as int) * 0x10);
        lemma_concat_map_fixed_len(self.animations@, anim_elem_bytes(), 0x10);
    }

    /// Decodes the section. Fails with `Truncated` exactly when the
    /// buffer is shorter than the padded size its count declares.
    #[verifier::rlimit(100)]
    pub fn try_from_be_bytes(bytes: &[u8]) -> (r: Result<BKAnimationList, TryFromBEBytesError>)
        ensures
            r.is_ok() <==> bytes@.len() >= 8 && spec_align8(
                8 + (be_u16_at(bytes@, 4) as int) * 0x10,
            ) <= bytes@.len(),
            r matches Err(e) ==> e == TryFromBEBytesError::Truncated,
            r matches Ok(list) ==> {
                &&& list.wf()
                &&& list.animations@.len() == be_u16_at(bytes@, 4) as int
                &&& list.unk_0 == be_u32_at(bytes@, 0)
                &&& list.spec_size() == spec_align8(8 + (be_u16_at(bytes@, 4) as int) * 0x10)
                &&& forall|j: int|
                    0 <= j < list.animations@.len() ==> (#[trigger] list.animations@[j]).parses_from(
                        bytes@.subrange(8 + j * 0x10, 8 + (j + 1) * 0x10),
                    )
                &&& (animation_exact(bytes@) ==> list.spec_bytes() =~= bytes@.subrange(
                    0,
                    list.spec_size(),
                ))
            },
    {
        let blen: usize = bytes.len();
        if blen < 8 {
            return Err(TryFromBEBytesError::Truncated);
        }
        let count: usize = read_u16(bytes, 4) as usize;
        let raw: usize = 8 + count * 0x10;
        proof {
            lemma_align8(raw as int);
        }
        if crate::bebytes::align8(raw) > blen {
            return Err(TryFromBEBytesError::Truncated);
        }
        let ghost gb = bytes@;
        let mut animations: Vec<BKAnimation> = Vec::new();
        let mut j: usize = 0;
        while j < count
            invariant
                j <= count,
                gb == bytes@,
                8 + count * 0x10 <= gb.len() <= usize::MAX,
                animations@.len() == j,
                forall|x: int|
                    0 <= x < j ==> (#[trigger] animations@[x]).parses_from(
                        gb.subrange(8 + x * 0x10, 8 + (x + 1) * 0x10),
                    ),
                concat_map(animations@, anim_elem_bytes()) =~= gb.subrange(8, 8 + j * 0x10),
            decreases count - j,
        {
            proof {
                assert(j * 0x10 + 0x10 <= count * 0x10) by (nonlinear_arith)
                    requires
                        j < count,
                ;
            }
            let chunk: &[u8] = vstd::slice::slice_subrange(
                bytes,
                8 + j * 0x10,
                8 + j * 0x10 + 0x10,
            );
            let e = BKAnimation::from_be_bytes(chunk);
            proof {
                e.lemma_roundtrip(chunk@);
                lemma_concat_map_push(animations@, anim_elem_bytes(), e);
                assert(gb.subrange(8, 8 + (j + 1) * 0x10) =~= gb.subrange(8, 8 + (j as int) * 0x10)
                    + gb.subrange(8 + (j as int) * 0x10, 8 + ((j as int) + 1) * 0x10));
                assert(chunk@ =~= gb.subrange(8 + (j as int) * 0x10, 8 + ((j as int) + 1) * 0x10));
            }
            animations.push(e);
            j = j + 1;
        }
        let list = BKAnimationList { unk_0: read_u32(bytes, 0), animations };
        proof {
            if animation_exact(gb) {
                list.lemma_size();
                lemma_u32_bytes_at(gb, 0);
                lemma_u16_bytes_at(gb, 4);
                assert(list.spec_bytes() =~= gb.subrange(0, list.spec_size()));
            }
        }
        Ok(list)
    }

    #[verifier::rlimit(100)]
    pub fn to_be_bytes(&self) -> (r: Vec<u8>)
        requires
            self.wf(),
        ensures
            r@ =~= self.spec_bytes(),
    {
        let mut out: Vec<u8> = Vec::new();
        push_u32(&mut out, self.unk_0);
        push_u16(&mut out, self.animations.len() as u16);
        out.push(0u8);
        out.push(0u8);
        let ghost hdr = out@;
        let mut j: usize = 0;
        while j < self.animations.len()
            invariant
                j <= self.animations@.len(),
                out@ =~= hdr + concat_map(
                    self.animations@.subrange(0, j as int),
                    anim_elem_bytes(),
                ),
            decreases self.animations@.len() - j,
        {
            let mut eb: Vec<u8> = self.animations[j].to_be_bytes();
            out.append(&mut eb);
            proof {
                lemma_concat_map_push(
                    self.animations@.subrange(0, j as int),
                    anim_elem_bytes(),
                    self.animations@[j as int],
                );
                assert(self.animations@.subrange(0, j as int + 1) =~= self.animations@.subrange(
                    0,
                    j as int,
                ).push(self.animations@[j as int]));
            }
            j = j + 1;
        }
        proof {
            assert(self.animations@.subrange(0, self.animations@.len() as int)
                =~= self.animations@);
            self.lemma_size();
            lemma_concat_map_fixed_len(self.animations@, anim_elem_bytes(), 0x10);
        }
        let target: usize = crate::bebytes::align8(8 + self.animations.len() * 0x10);
        pad_to(&mut out, target);
        proof {
            assert(out@ =~= self.spec_bytes());
        }
        out
    }

    /// Encoded size in bytes, always a multiple of 8.
    pub fn size(&self) -> (r: usize)
        requires
            self.wf(),
        ensures
            r == self.spec_size(),
    {
        crate::bebytes::align8(8 + self.animations.len() * 0x10)
    }
}

} // verus!
