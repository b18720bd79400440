//! The texture section: a 32-bit total byte count, a 16-bit texture
//! count, two reserved bytes, `count` 16-byte texture header records,
//! and a shared pixel-data blob that fills the rest of the declared
//! byte count. The blob is carried verbatim; the per-texture pixel
//! codecs interpret it elsewhere.

use crate::bebytes::be_u16_at;
use crate::bebytes::be_u32_at;
use crate::bebytes::concat_map;
use crate::bebytes::copy_range;
use crate::bebytes::lemma_concat_map_fixed_len;
use crate::bebytes::lemma_concat_map_push;
use crate::bebytes::lemma_u16_bytes_at;
use crate::bebytes::lemma_u32_bytes_at;
use crate::bebytes::push_all;
use crate::bebytes::push_u16;
use crate::bebytes::push_u32;
use crate::bebytes::read_u16;
use crate::bebytes::read_u32;
use crate::bebytes::spec_u16_bytes;
use crate::bebytes::spec_u32_bytes;
use crate::bktexture::BKTextureHeader;
use crate::error::TryFromBEBytesError;
use vstd::prelude::*;

verus! {

/// The encoding function of one texture header record.
pub open spec fn tex_hdr_bytes() -> spec_fn(BKTextureHeader) -> Seq<u8> {
    |h: BKTextureHeader| h.spec_bytes()
}

/// True when the two reserved bytes of an encoded texture section are
/// zero, which is what re-encoding writes there. Everything else in
/// the section is preserved or re-derived.
pub open spec fn texlist_exact(b: Seq<u8>) -> bool {
    b[6] == 0 && b[7] == 0
}

/// The texture section.
#[derive(Debug)]
pub struct BKTextureList {
    pub texture_headers: Vec<BKTextureHeader>,
    pub texture_data: Vec<u8>,
}

impl BKTextureList {
    /// The count fits its 16-bit field, every header record is
    /// well-formed, and the total byte count fits its 32-bit field.
    pub open spec fn wf(self) -> bool {
        &&& self.texture_headers@.len() <= 0xFFFF
        &&& forall|j: int|
            0 <= j < self.texture_headers@.len() ==> (#[trigger] self.texture_headers@[j]).wf()
        &&& self.spec_size() <= 0xFFFFFFFF
    }

    /// Encoded size: prefix, header records, and the pixel blob. This
    /// section carries no alignment padding of its own.
    pub open spec fn spec_size(self) -> int {
        8 + (self.texture_headers@.len() as int) * 0x10 + self.texture_data@.len() as int
    }

    /// The bytes written for the whole section. The byte count and
    /// texture count are re-derived from the live lists.
    pub open spec fn spec_bytes(self) -> Seq<u8> {
        spec_u32_bytes(self.spec_size() as u32) + spec_u16_bytes(
            (self.texture_headers@.len() as int) as u16,
        ) + seq![0u8, 0u8] + concat_map(self.texture_headers@, tex_hdr_bytes())
            + self.texture_data@
    }

    /// The section's encoded length matches `spec_size`.
    pub proof fn lemma_size(self)
        requires
            self.wf(),
        ensures
            self.spec_bytes().len() == self.spec_size(),
            self.spec_size() >= 8,
    {
        assert forall|i: int| 0 <= i < self.texture_headers@.len() implies (#[trigger] tex_hdr_bytes()(
            self.texture_headers@[i],
        )).len() == 0x10 by {
            assert(self.texture_headers@[i].wf());
        }
        lemma_concat_map_fixed_len(self.texture_headers@, tex_hdr_bytes(), 0x10);
    }

    /// A section whose pixel blob is a multiple of 8 bytes long has a
    /// size that is a multiple of 8. The format keeps blobs aligned;
    /// the length itself is carried, not enforced.
    pub proof fn lemma_size_aligned(self)
        requires
            self.texture_data@.len() % 8 == 0,
        ensures
            self.spec_size() % 8 == 0,
    {
        assert((8 + (self.texture_headers@.len() as int) * 0x10 + self.texture_data@.len() as int)
            % 8 == 0) by (nonlinear_arith)
            requires
                self.texture_data@.len() as int % 8 == 0,
        ;
    }

    /// Decodes the section. Fails with `Truncated` exactly when the
    /// declared byte count cannot hold the header table or overruns
    /// the buffer.
    #[verifier::rlimit(100)]
    pub fn try_from_be_bytes(bytes: &[u8]) -> (r: Result<BKTextureList, TryFromBEBytesError>)
        ensures
            r.is_ok() <==> bytes@.len() >= 8 && 8 + (be_u16_at(bytes@, 4) as int) * 0x10 <= (
            be_u32_at(bytes@, 0) as int) && be_u32_at(bytes@, 0) as int <= bytes@.len(),
            r matches Err(e) ==> e == TryFromBEBytesError::Truncated,
            r matches Ok(list) ==> {
                &&& list.wf()
                &&& list.texture_headers@.len() == be_u16_at(bytes@, 4) as int
                &&& list.texture_data@ == bytes@.subrange(
                    8 + (be_u16_at(bytes@, 4) as int) * 0x10,
                    be_u32_at(bytes@, 0) as int,
                )
                &&& list.spec_size() == be_u32_at(bytes@, 0) as int
                &&& (texlist_exact(bytes@) ==> list.spec_bytes() =~= bytes@.subrange(
                    0,
                    list.spec_size(),
                ))
            },
    {
        let blen: usize = bytes.len();
        if blen < 8 {
            return Err(TryFromBEBytesError::Truncated);
        }
        let byte_count_u32: u32 = read_u32(bytes, 0);
        let count: usize = read_u16(bytes, 4) as usize;
        if byte_count_u32 as u64 > blen as u64 {
            return Err(TryFromBEBytesError::Truncated);
        }
        let byte_count: usize = byte_count_u32 as usize;
        if byte_count < 8 || (byte_count - 8) / 0x10 < count {
            proof {
                assert((byte_count - 8) / 0x10 < count ==> 8 + count * 0x10 > byte_count)
                    by (nonlinear_arith);
            }
            return Err(TryFromBEBytesError::Truncated);
        }
        proof {
            assert((byte_count - 8) / 0x10 >= count ==> 8 + count * 0x10 <= byte_count)
                by (nonlinear_arith);
        }
        let ghost gb = bytes@;
        let mut texture_headers: Vec<BKTextureHeader> = Vec::new();
        let mut j: usize = 0;
        while j < count
            invariant
                j <= count,
                gb == bytes@,
                8 + count * 0x10 <= byte_count <= gb.len() <= usize::MAX,
                texture_headers@.len() == j,
                forall|x: int| 0 <= x < j ==> (#[trigger] texture_headers@[x]).wf(),
                concat_map(texture_headers@, tex_hdr_bytes()) =~= gb.subrange(8, 8 + j * 0x10),
            decreases count - j,
        {
            proof {
                assert(j * 0x10 + 0x10 <= count * 0x10) by (nonlinear_arith)
                    requires
                        j < count,
                ;
            }
            let chunk: &[u8] = vstd::slice::slice_subrange(
                bytes,
                8 + j * 0x10,
                8 + j * 0x10 + 0x10,
            );
            let h = BKTextureHeader::from_be_bytes(chunk);
            proof {
                lemma_concat_map_push(texture_headers@, tex_hdr_bytes(), h);
                assert(gb.subrange(8, 8 + (j + 1) * 0x10) =~= gb.subrange(8, 8 + (j as int) * 0x10)
                    + gb.subrange(8 + (j as int) * 0x10, 8 + ((j as int) + 1) * 0x10));
                assert(chunk@.subrange(0, 0x10) =~= chunk@);
            }
            texture_headers.push(h);
            j = j + 1;
        }
        let texture_data: Vec<u8> = copy_range(bytes, 8 + count * 0x10, byte_count);
        let list = BKTextureList { texture_headers, texture_data };
        proof {
            if texlist_exact(gb) {
                list.lemma_size();
                lemma_u32_bytes_at(gb, 0);
                lemma_u16_bytes_at(gb, 4);
                assert(list.spec_bytes() =~= gb.subrange(0, list.spec_size()));
            }
        }
        Ok(list)
    }

    /// Decodes a section from a buffer already known to satisfy its
    /// declared byte count.
    pub fn from_be_bytes(bytes: &[u8]) -> (r: BKTextureList)
        requires
            bytes@.len() >= 8,
            8 + (be_u16_at(bytes@, 4) as int) * 0x10 <= be_u32_at(bytes@, 0) as int,
            be_u32_at(bytes@, 0) as int <= bytes@.len(),
        ensures
            r.wf(),
            r.texture_headers@.len() == be_u16_at(bytes@, 4) as int,
            r.texture_data@ == bytes@.subrange(
                8 + (be_u16_at(bytes@, 4) as int) * 0x10,
                be_u32_at(bytes@, 0) as int,
            ),
            r.spec_size() == be_u32_at(bytes@, 0) as int,
            texlist_exact(bytes@) ==> r.spec_bytes() =~= bytes@.subrange(0, r.spec_size()),
    {
        match BKTextureList::try_from_be_bytes(bytes) {
            Ok(list) => list,
            Err(e) => vstd::pervasive::unreached(),
        }
    }

    #[verifier::rlimit(100)]
    pub fn to_be_bytes(&self) -> (r: Vec<u8>)
        requires
            self.wf(),
        ensures
            r@ =~= self.spec_bytes(),
    {
        let mut out: Vec<u8> = Vec::new();
        push_u32(&mut out, self.size() as u32);
        push_u16(&mut out, self.texture_headers.len() as u16);
        out.push(0u8);
        out.push(0u8);
        let ghost hdr = out@;
        let mut j: usize = 0;
        while j < self.texture_headers.len()
            invariant
                j <= self.texture_headers@.len(),
                out@ =~= hdr + concat_map(
                    self.texture_headers@.subrange(0, j as int),
                    tex_hdr_bytes(),
                ),
            decreases self.texture_headers@.len() - j,
        {
            let mut eb: Vec<u8> = self.texture_headers[j].to_be_bytes();
            out.append(&mut eb);
            proof {
                lemma_concat_map_push(
                    self.texture_headers@.subrange(0, j as int),
                    tex_hdr_bytes(),
                    self.texture_headers@[j as int],
                );
                assert(self.texture_headers@.subrange(0, j as int + 1)
                    =~= self.texture_headers@.subrange(0, j as int).push(
                    self.texture_headers@[j as int],
                ));
            }
            j = j + 1;
        }
        push_all(&mut out, &self.texture_data);
        proof {
            assert(self.texture_headers@.subrange(0, self.texture_headers@.len() as int)
                =~= self.texture_headers@);
            assert(out@ =~= self.spec_bytes());
        }
        out
    }

    /// Encoded size in bytes.
    pub fn size(&self) -> (r: usize)
        requires
            self.wf(),
        ensures
            r == self.spec_size(),
    {
        proof {
            assert((self.texture_headers@.len() as int) * 0x10 == self.texture_headers@.len()
                * 0x10) by (nonlinear_arith);
        }
        8 + self.texture_headers.len() * 0x10 + self.texture_data.len()
    }
}

} // verus!
