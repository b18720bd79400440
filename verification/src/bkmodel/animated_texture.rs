//! The animated-texture slot table: a fixed array of four 8-byte
//! slots with no count header. A slot whose leading 16-bit field is
//! zero is empty on decode and is written back as 8 zero bytes.

use crate::bebytes::be_i16_at;
use crate::bebytes::be_u32_at;
use crate::bebytes::lemma_i16_bytes_at;
use crate::bebytes::lemma_u32_bytes_at;
use crate::bebytes::push_i16;
use crate::bebytes::push_u32;
use crate::bebytes::spec_i16_bytes;
use crate::bebytes::spec_u32_bytes;
use crate::bebytes::zeros;
use vstd::prelude::*;

verus! {

/// One occupied slot: a frame size, a frame count, and a 32-bit word
/// carried as an opaque bit pattern (the engine reads it as a frame
/// rate).
#[derive(Debug, Clone, Copy)]
pub struct BKAnimatedTexture {
    pub frame_size: i16,
    pub frame_count: i16,
    pub framerate_bits: u32,
}

impl Default for BKAnimatedTexture {
    /// The all-zero slot, which is what an empty slot writes.
    fn default() -> (r: Self)
        ensures
            r.frame_size == 0 && r.frame_count == 0 && r.framerate_bits == 0,
    {
        BKAnimatedTexture { frame_size: 0, frame_count: 0, framerate_bits: 0 }
    }
}

impl BKAnimatedTexture {
    /// The 8 bytes written for this slot.
    pub open spec fn spec_bytes(self) -> Seq<u8> {
        spec_i16_bytes(self.frame_size) + spec_i16_bytes(self.frame_count) + spec_u32_bytes(
            self.framerate_bits,
        )
    }

    /// The fields hold exactly what the first 8 bytes of `b` store.
    pub open spec fn parses_from(self, b: Seq<u8>) -> bool {
        &&& self.frame_size == be_i16_at(b, 0)
        &&& self.frame_count == be_i16_at(b, 2)
        &&& self.framerate_bits == be_u32_at(b, 4)
    }

    /// A slot read from `b` writes `b` back.
    pub proof fn lemma_roundtrip(self, b: Seq<u8>)
        requires
            b.len() >= 8,
            self.parses_from(b),
        ensures
            self.spec_bytes() =~= b.subrange(0, 8),
    {
        lemma_i16_bytes_at(b, 0);
        lemma_i16_bytes_at(b, 2);
        lemma_u32_bytes_at(b, 4);
    }

    pub fn from_be_bytes(bytes: &[u8]) -> (r: Self)
        requires
            bytes@.len() >= 8,
        ensures
            r.parses_from(bytes@),
    {
        BKAnimatedTexture {
            frame_size: crate::bebytes::read_i16(bytes, 0),
            frame_count: crate::bebytes::read_i16(bytes, 2),
            framerate_bits: crate::bebytes::read_u32(bytes, 4),
        }
    }

    #[verifier::rlimit(100)]
    pub fn to_be_bytes(&self) -> (r: Vec<u8>)
        ensures
            r@ =~= self.spec_bytes(),
    {
        let mut out: Vec<u8> = Vec::new();
        push_i16(&mut out, self.frame_size);
        push_i16(&mut out, self.frame_count);
        push_u32(&mut out, self.framerate_bits);
        proof {
            assert(out@ =~= self.spec_bytes());
        }
        out
    }
}

/// The slot read from the 8 bytes at `8 * j`: empty exactly when its
/// leading field is zero.
pub open spec fn anim_tex_slot_at(b: Seq<u8>, j: int) -> Option<BKAnimatedTexture> {
    if be_i16_at(b, 8 * j) == 0 {
        None
    } else {
        Some(
            BKAnimatedTexture {
                frame_size: be_i16_at(b, 8 * j),
                frame_count: be_i16_at(b, 8 * j + 2),
                framerate_bits: be_u32_at(b, 8 * j + 4),
            },
        )
    }
}

/// The 8 bytes written for one slot: an empty slot becomes zeros.
pub open spec fn anim_tex_slot_bytes(s: Option<BKAnimatedTexture>) -> Seq<u8> {
    match s {
        Option::None => zeros(8),
        Option::Some(t) => t.spec_bytes(),
    }
}

/// True when every empty slot of an encoded table is all zero, which
/// is what re-encoding writes there.
pub open spec fn anim_tex_exact(b: Seq<u8>) -> bool {
    forall|j: int|
        0 <= j < 4 && be_i16_at(b, 8 * j) == 0 ==> #[trigger] b.subrange(8 * j, 8 * j + 8) =~= zeros(
            8,
        )
}

/// The four-slot animated-texture table.
#[derive(Debug)]
pub struct BKAnimatedTextureList {
    pub values: [Option<BKAnimatedTexture>; 4],
}

impl BKAnimatedTextureList {
    /// The 0x20 bytes written for the whole table.
    pub open spec fn spec_bytes(self) -> Seq<u8> {
        anim_tex_slot_bytes(self.values[0]) + anim_tex_slot_bytes(self.values[1])
            + anim_tex_slot_bytes(self.values[2]) + anim_tex_slot_bytes(self.values[3])
    }

    /// The table always occupies 0x20 bytes.
    pub open spec fn spec_size(self) -> int {
        0x20
    }

    pub proof fn lemma_size(self)
        ensures
            self.spec_bytes().len() == 0x20,
            self.spec_size() % 8 == 0,
    {
    }

    pub fn from_be_bytes(bytes: &[u8]) -> (r: Self)
        requires
            bytes@.len() >= 0x20,
        ensures
            r.values[0] == anim_tex_slot_at(bytes@, 0),
            r.values[1] == anim_tex_slot_at(bytes@, 1),
            r.values[2] == anim_tex_slot_at(bytes@, 2),
            r.values[3] == anim_tex_slot_at(bytes@, 3),
            anim_tex_exact(bytes@) ==> r.spec_bytes() =~= bytes@.subrange(0, 0x20),
    {
        let s0 = Self::read_slot(bytes, 0);
        let s1 = Self::read_slot(bytes, 1);
        let s2 = Self::read_slot(bytes, 2);
        let s3 = Self::read_slot(bytes, 3);
        let r = BKAnimatedTextureList { values: [s0, s1, s2, s3] };
        proof {
            if anim_tex_exact(bytes@) {
                Self::lemma_slot_roundtrip(bytes@, 0);
                Self::lemma_slot_roundtrip(bytes@, 1);
                Self::lemma_slot_roundtrip(bytes@, 2);
                Self::lemma_slot_roundtrip(bytes@, 3);
                assert(r.spec_bytes() =~= bytes@.subrange(0, 0x20));
            }
        }
        r
    }

    /// One slot of an exactly encoded table writes its 8 bytes back.
    proof fn lemma_slot_roundtrip(b: Seq<u8>, j: int)
        requires
            b.len() >= 0x20,
            0 <= j < 4,
            anim_tex_exact(b),
        ensures
            anim_tex_slot_bytes(anim_tex_slot_at(b, j)) =~= b.subrange(8 * j, 8 * j + 8),
    {
        if be_i16_at(b, 8 * j) == 0 {
            assert(b.subrange(8 * j, 8 * j + 8) =~= zeros(8));
        } else {
            let t = BKAnimatedTexture {
                frame_size: be_i16_at(b, 8 * j),
                frame_count: be_i16_at(b, 8 * j + 2),
                framerate_bits: be_u32_at(b, 8 * j + 4),
            };
            let sub = b.subrange(8 * j, 8 * j + 8);
            assert(be_i16_at(sub, 0) == be_i16_at(b, 8 * j));
            assert(be_i16_at(sub, 2) == be_i16_at(b, 8 * j + 2));
            assert(sub[4] == b[8 * j + 4] && sub[5] == b[8 * j + 5] && sub[6] == b[8 * j + 6]
                && sub[7] == b[8 * j + 7]);
            assert(t.parses_from(sub));
            t.lemma_roundtrip(sub);
            assert(sub.subrange(0, 8) =~= sub);
        }
    }

    fn read_slot(bytes: &[u8], j: usize) -> (r: Option<BKAnimatedTexture>)
        requires
            j < 4,
            bytes@.len() >= 0x20,
        ensures
            r == anim_tex_slot_at(bytes@, j as int),
    {
        let t = BKAnimatedTexture {
            frame_size: crate::bebytes::read_i16(bytes, 8 * j),
            frame_count: crate::bebytes::read_i16(bytes, 8 * j + 2),
            framerate_bits: crate::bebytes::read_u32(bytes, 8 * j + 4),
        };
        if t.frame_size == 0 {
            None
        } else {
            Some(t)
        }
    }

    #[verifier::rlimit(100)]
    pub fn to_be_bytes(&self) -> (r: Vec<u8>)
        ensures
            r@ =~= self.spec_bytes(),
    {
        let mut out: Vec<u8> = Vec::new();
        let mut j: usize = 0;
        while j < 4
            invariant
                j <= 4,
                out@.len() == 8 * j,
                j >= 1 ==> out@.subrange(0, 8) =~= anim_tex_slot_bytes(self.values[0]),
                j >= 2 ==> out@.subrange(8, 16) =~= anim_tex_slot_bytes(self.values[1]),
                j >= 3 ==> out@.subrange(16, 24) =~= anim_tex_slot_bytes(self.values[2]),
                j >= 4 ==> out@.subrange(24, 32) =~= anim_tex_slot_bytes(self.values[3]),
            decreases 4 - j,
        {
            let ghost before = out@;
            match &self.values[j] {
                Option::Some(t) => {
                    let mut eb: Vec<u8> = t.to_be_bytes();
                    out.append(&mut eb);
                },
                Option::None => {
                    let mut k: usize = 0;
                    while k < 8
                        invariant
                            k <= 8,
                            out@ =~= before + zeros(k as int),
                        decreases 8 - k,
                    {
                        out.push(0u8);
                        k = k + 1;
                        proof {
                            assert(out@ =~= before + zeros(k as int));
                        }
                    }
                },
            }
            proof {
                assert(out@ =~= before + anim_tex_slot_bytes(self.values[j as int]));
                assert(out@.subrange(8 * (j as int), 8 * (j as int) + 8) =~= anim_tex_slot_bytes(
                    self.values[j as int],
                ));
                assert forall|x: int| 0 <= x < 8 * j implies out@[x] == before[x] by {}
            }
            j = j + 1;
        }
        proof {
            assert(out@ =~= self.spec_bytes());
        }
        out
    }

    /// Encoded size in bytes, always 0x20.
    pub fn size(&self) -> (r: usize)
        ensures
            r == self.spec_size(),
    {
        0x20
    }
}

} // verus!
