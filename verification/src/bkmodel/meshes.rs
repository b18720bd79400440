//! The mesh/index-list section: a 16-bit mesh count, then that many
//! variable-length records. Each record holds a 16-bit mesh id, a
//! 16-bit index count, and that many 16-bit vertex indices, so the
//! section must be walked sequentially. The whole section is
//! zero-padded to a multiple of 8.

use crate::bebytes::be_u16_at;
use crate::bebytes::concat_map;
use crate::bebytes::lemma_align8;
use crate::bebytes::lemma_concat_map_fixed_len;
use crate::bebytes::lemma_concat_map_push;
use crate::bebytes::lemma_u16_bytes_at;
use crate::bebytes::pad_to;
use crate::bebytes::push_u16;
use crate::bebytes::read_u16;
use crate::bebytes::spec_align8;
use crate::bebytes::spec_u16_bytes;
use crate::bebytes::zeros;
use crate::error::TryFromBEBytesError;
use vstd::prelude::*;

verus! {

/// The encoding function of one 16-bit vertex index.
pub open spec fn mesh_idx_bytes() -> spec_fn(u16) -> Seq<u8> {
    |v: u16| spec_u16_bytes(v)
}

/// One variable-length mesh record.
#[derive(Debug)]
pub struct BKMesh {
    pub uid: u16,
    pub vtx_indices: Vec<u16>,
}

impl BKMesh {
    /// The index count fits its 16-bit field.
    pub open spec fn wf(self) -> bool {
        self.vtx_indices@.len() <= 0xFFFF
    }

    /// Encoded size: id, count, and the 16-bit indices.
    pub open spec fn spec_size(self) -> int {
        4 + (self.vtx_indices@.len() as int) * 2
    }

    /// The bytes written for this record. The count is re-derived
    /// from the live index list.
    pub open spec fn spec_bytes(self) -> Seq<u8> {
        spec_u16_bytes(self.uid) + spec_u16_bytes((self.vtx_indices@.len() as int) as u16)
            + concat_map(self.vtx_indices@, mesh_idx_bytes())
    }

    pub proof fn lemma_size(self)
        ensures
            self.spec_bytes().len() == self.spec_size(),
    {
        lemma_concat_map_fixed_len(self.vtx_indices@, mesh_idx_bytes(), 2);
    }

    /// Decodes one record. Fails with `Truncated` exactly when the
    /// buffer is shorter than the record's own index count declares.
    /// Every byte consumed is preserved, so decoding always writes
    /// back its input prefix.
    #[verifier::rlimit(100)]
    pub fn try_from_be_bytes(bytes: &[u8]) -> (r: Result<BKMesh, TryFromBEBytesError>)
        ensures
            r.is_ok() <==> bytes@.len() >= 4 && 4 + (be_u16_at(bytes@, 2) as int) * 2
                <= bytes@.len(),
            r matches Err(e) ==> e == TryFromBEBytesError::Truncated,
            r matches Ok(m) ==> {
                &&& m.wf()
                &&& m.uid == be_u16_at(bytes@, 0)
                &&& m.vtx_indices@.len() == be_u16_at(bytes@, 2) as int
                &&& m.spec_size() == 4 + (be_u16_at(bytes@, 2) as int) * 2
                &&& m.spec_bytes() =~= bytes@.subrange(0, m.spec_size())
            },
    {
        let blen: usize = bytes.len();
        if blen < 4 {
            return Err(TryFromBEBytesError::Truncated);
        }
        let count: usize = read_u16(bytes, 2) as usize;
        if (blen - 4) / 2 < count {
            proof {
                assert((blen - 4) / 2 < count ==> 4 + count * 2 > blen) by (nonlinear_arith);
            }
            return Err(TryFromBEBytesError::Truncated);
        }
        proof {
            assert((blen - 4) / 2 >= count ==> 4 + count * 2 <= blen) by (nonlinear_arith);
        }
        let ghost gb = bytes@;
        let mut vtx_indices: Vec<u16> = Vec::new();
        let mut j: usize = 0;
        while j < count
            invariant
                j <= count,
                gb == bytes@,
                4 + count * 2 <= gb.len() <= usize::MAX,
                vtx_indices@.len() == j,
                concat_map(vtx_indices@, mesh_idx_bytes()) =~= gb.subrange(4, 4 + j * 2),
            decreases count - j,
        {
            let v: u16 = read_u16(bytes, 4 + j * 2);
            proof {
                lemma_u16_bytes_at(gb, 4 + (j as int) * 2);
                lemma_concat_map_push(vtx_indices@, mesh_idx_bytes(), v);
                assert(gb.subrange(4, 4 + (j + 1) * 2) =~= gb.subrange(4, 4 + (j as int) * 2)
                    + gb.subrange(4 + (j as int) * 2, 4 + ((j as int) + 1) * 2));
            }
            vtx_indices.push(v);
            j = j + 1;
        }
        let m = BKMesh { uid: read_u16(bytes, 0), vtx_indices };
        proof {
            lemma_u16_bytes_at(gb, 0);
            lemma_u16_bytes_at(gb, 2);
            assert(m.spec_bytes() =~= gb.subrange(0, m.spec_size()));
        }
        Ok(m)
    }

    #[verifier::rlimit(100)]
    pub fn to_be_bytes(&self) -> (r: Vec<u8>)
        requires
            self.wf(),
        ensures
            r@ =~= self.spec_bytes(),
    {
        let mut out: Vec<u8> = Vec::new();
        push_u16(&mut out, self.uid);
        push_u16(&mut out, self.vtx_indices.len() as u16);
        let ghost hdr = out@;
        let mut j: usize = 0;
        while j < self.vtx_indices.len()
            invariant
                j <= self.vtx_indices@.len(),
                out@ =~= hdr + concat_map(
                    self.vtx_indices@.subrange(0, j as int),
                    mesh_idx_bytes(),
                ),
            decreases self.vtx_indices@.len() - j,
        {
            push_u16(&mut out, self.vtx_indices[j]);
            proof {
                lemma_concat_map_push(
                    self.vtx_indices@.subrange(0, j as int),
                    mesh_idx_bytes(),
                    self.vtx_indices@[j as int],
                );
                assert(self.vtx_indices@.subrange(0, j as int + 1) =~= self.vtx_indices@.subrange(
                    0,
                    j as int,
                ).push(self.vtx_indices@[j as int]));
            }
            j = j + 1;
        }
        proof {
            assert(self.vtx_indices@.subrange(0, self.vtx_indices@.len() as int)
                =~= self.vtx_indices@);
            assert(out@ =~= self.spec_bytes());
        }
        out
    }

    /// Encoded size of this record in bytes.
    pub fn size(&self) -> (r: usize)
        requires
            self.wf(),
        ensures
            r == self.spec_size(),
    {
        4 + self.vtx_indices.len() * 2
    }
}

/// The encoding function of one mesh record.
pub open spec fn mesh_bytes() -> spec_fn(BKMesh) -> Seq<u8> {
    |m: BKMesh| m.spec_bytes()
}

/// Walks `n` mesh records starting at `off` and yields the offset
/// just past the last one, or `None` where a record overruns `b`.
pub open spec fn mesh_walk(b: Seq<u8>, off: int, n: int) -> Option<int>
    decreases n,
{
    if n <= 0 {
        Some(off)
    } else if off + 4 > b.len() {
        None
    } else if off + 4 + (be_u16_at(b, off + 2) as int) * 2 > b.len() {
        None
    } else {
        mesh_walk(b, off + 4 + (be_u16_at(b, off + 2) as int) * 2, n - 1)
    }
}

/// The mesh-list section.
#[derive(Debug)]
pub struct BKMeshList {
    pub meshes: Vec<BKMesh>,
}

impl BKMeshList {
    /// Unpadded size: the count field plus every record.
    pub open spec fn spec_raw(self) -> int {
        2 + concat_map(self.meshes@, mesh_bytes()).len() as int
    }

    /// The mesh count fits its 16-bit field, every record is
    /// well-formed, and the section size stays within its 32-bit
    /// world.
    pub open spec fn wf(self) -> bool {
        &&& self.meshes@.len() <= 0xFFFF
        &&& forall|j: int| 0 <= j < self.meshes@.len() ==> (#[trigger] self.meshes@[j]).wf()
        &&& spec_align8(self.spec_raw()) <= usize::MAX
    }

    /// Encoded size: the records padded to a multiple of 8.
    pub open spec fn spec_size(self) -> int {
        spec_align8(self.spec_raw())
    }

    /// The bytes written for the whole section.
    pub open spec fn spec_bytes(self) -> Seq<u8> {
        spec_u16_bytes((self.meshes@.len() as int) as u16) + concat_map(self.meshes@, mesh_bytes())
            + zeros(self.spec_size() - self.spec_raw())
    }

    /// The section's encoded length is a multiple of 8 and matches
    /// `spec_size`.
    pub proof fn lemma_size(self)
        ensures
            self.spec_size() % 8 == 0,
            self.spec_bytes().len() == self.spec_size(),
            self.spec_size() >= 2,
    {
        lemma_align8(self.spec_raw());
    }

    /// True when the padding bytes after the records are zero, which
    /// is what re-encoding writes there.
    pub open spec fn pad_exact(self, b: Seq<u8>) -> bool {
        forall|k: int| self.spec_raw() <= k < self.spec_size() ==> #[trigger] b[k] == 0
    }

    /// Decodes the section, walking the records sequentially. Fails
    /// with `Truncated` exactly when a record overruns the buffer or
    /// the padded end does.
    #[verifier::rlimit(100)]
    pub fn try_from_be_bytes(bytes: &[u8]) -> (r: Result<BKMeshList, TryFromBEBytesError>)
        ensures
            r.is_ok() <==> bytes@.len() >= 2 && (mesh_walk(
                bytes@,
                2,
                be_u16_at(bytes@, 0) as int,
            ) matches Some(raw) && spec_align8(raw) <= bytes@.len()),
            r matches Err(e) ==> e == TryFromBEBytesError::Truncated,
            r matches Ok(list) ==> {
                &&& list.wf()
                &&& list.meshes@.len() == be_u16_at(bytes@, 0) as int
                &&& mesh_walk(bytes@, 2, be_u16_at(bytes@, 0) as int) == Some(list.spec_raw())
                &&& (list.pad_exact(bytes@) ==> list.spec_bytes() =~= bytes@.subrange(
                    0,
                    list.spec_size(),
                ))
            },
    {
        let blen: usize = bytes.len();
        if blen < 2 {
            return Err(TryFromBEBytesError::Truncated);
        }
        let count: usize = read_u16(bytes, 0) as usize;
        let ghost gb = bytes@;
        let mut meshes: Vec<BKMesh> = Vec::new();
        let mut off: usize = 2;
        let mut i: usize = 0;
        while i < count
            invariant
                i <= count,
                gb == bytes@,
                gb.len() == blen,
                count == be_u16_at(gb, 0),
                2 <= off <= gb.len() <= usize::MAX,
                meshes@.len() == i,
                forall|j: int| 0 <= j < i ==> (#[trigger] meshes@[j]).wf(),
                mesh_walk(gb, 2, count as int) == mesh_walk(gb, off as int, (count - i) as int),
                concat_map(meshes@, mesh_bytes()) =~= gb.subrange(2, off as int),
            decreases count - i,
        {
            let rest: &[u8] = vstd::slice::slice_subrange(bytes, off, blen);
            let m = match BKMesh::try_from_be_bytes(rest) {
                Ok(m) => m,
                Err(e) => {
                    proof {
                        assert(rest@.len() == gb.len() - off);
                        if off + 4 <= gb.len() {
                            assert(rest@[2] == gb[off + 2] && rest@[3] == gb[off + 3]);
                            assert(be_u16_at(rest@, 2) == be_u16_at(gb, off + 2));
                        }
                        assert(mesh_walk(gb, off as int, (count - i) as int) is None);
                    }
                    return Err(TryFromBEBytesError::Truncated);
                },
            };
            proof {
                assert(rest@.len() == gb.len() - off);
                assert(off + 4 <= gb.len());
                assert(rest@[2] == gb[off + 2] && rest@[3] == gb[off + 3]);
                assert(be_u16_at(rest@, 2) == be_u16_at(gb, off + 2));
                assert(off + m.spec_size() <= gb.len());
                assert(mesh_walk(gb, off as int, (count - i) as int) == mesh_walk(
                    gb,
                    off + m.spec_size(),
                    (count - i - 1) as int,
                ));
                lemma_concat_map_push(meshes@, mesh_bytes(), m);
                assert(rest@.subrange(0, m.spec_size()) =~= gb.subrange(
                    off as int,
                    off + m.spec_size(),
                ));
                assert(gb.subrange(2, off + m.spec_size()) =~= gb.subrange(2, off as int)
                    + gb.subrange(off as int, off + m.spec_size()));
            }
            let msize: usize = m.size();
            meshes.push(m);
            off = off + msize;
            i = i + 1;
        }
        proof {
            lemma_align8(off as int);
            crate::bebytes::lemma_align8_pad(off as int);
        }
        let rem: usize = off % 8;
        let pad: usize = if rem == 0 {
            0
        } else {
            8 - rem
        };
        if blen - off < pad {
            return Err(TryFromBEBytesError::Truncated);
        }
        let list = BKMeshList { meshes };
        proof {
            assert(list.spec_raw() == off as int);
            lemma_u16_bytes_at(gb, 0);
            if list.pad_exact(gb) {
                list.lemma_size();
                assert(list.spec_bytes() =~= gb.subrange(0, list.spec_size()));
            }
        }
        Ok(list)
    }

    #[verifier::rlimit(100)]
    pub fn to_be_bytes(&self) -> (r: Vec<u8>)
        requires
            self.wf(),
        ensures
            r@ =~= self.spec_bytes(),
    {
        let mut out: Vec<u8> = Vec::new();
        push_u16(&mut out, self.meshes.len() as u16);
        let ghost hdr = out@;
        let mut j: usize = 0;
        while j < self.meshes.len()
            invariant
                j <= self.meshes@.len(),
                self.wf(),
                out@ =~= hdr + concat_map(self.meshes@.subrange(0, j as int), mesh_bytes()),
            decreases self.meshes@.len() - j,
        {
            let mut eb: Vec<u8> = self.meshes[j].to_be_bytes();
            out.append(&mut eb);
            proof {
                lemma_concat_map_push(
                    self.meshes@.subrange(0, j as int),
                    mesh_bytes(),
                    self.meshes@[j as int],
                );
                assert(self.meshes@.subrange(0, j as int + 1) =~= self.meshes@.subrange(
                    0,
                    j as int,
                ).push(self.meshes@[j as int]));
            }
            j = j + 1;
        }
        proof {
            assert(self.meshes@.subrange(0, self.meshes@.len() as int) =~= self.meshes@);
            self.lemma_size();
        }
        let target: usize = self.size();
        pad_to(&mut out, target);
        proof {
            assert(out@ =~= self.spec_bytes());
        }
        out
    }

    /// The unpadded size: the count field plus every record.
    fn raw_size(&self) -> (r: usize)
        requires
            self.wf(),
        ensures
            r == self.spec_raw(),
    {
        let mut sum: usize = 2;
        let mut j: usize = 0;
        while j < self.meshes.len()
            invariant
                j <= self.meshes@.len(),
                self.wf(),
                sum == 2 + concat_map(self.meshes@.subrange(0, j as int), mesh_bytes()).len(),
            decreases self.meshes@.len() - j,
        {
            proof {
                crate::bebytes::lemma_concat_map_split(self.meshes@, mesh_bytes(), j as int + 1);
                crate::bebytes::lemma_concat_map_split(
                    self.meshes@.subrange(0, j as int + 1),
                    mesh_bytes(),
                    j as int,
                );
                assert(self.meshes@.subrange(0, j as int + 1).subrange(0, j as int)
                    =~= self.meshes@.subrange(0, j as int));
                lemma_concat_map_push(
                    self.meshes@.subrange(0, j as int),
                    mesh_bytes(),
                    self.meshes@[j as int],
                );
                assert(self.meshes@.subrange(0, j as int + 1) =~= self.meshes@.subrange(
                    0,
                    j as int,
                ).push(self.meshes@[j as int]));
                self.meshes@[j as int].lemma_size();
            }
            let msize: usize = self.meshes[j].size();
            sum = sum + msize;
            j = j + 1;
        }
        proof {
            assert(self.meshes@.subrange(0, self.meshes@.len() as int) =~= self.meshes@);
        }
        sum
    }

    /// Encoded size in bytes, always a multiple of 8.
    pub fn size(&self) -> (r: usize)
        requires
            self.wf(),
        ensures
            r == self.spec_size(),
    {
        proof {
            self.lemma_size();
            crate::bebytes::lemma_align8_pad(self.spec_raw());
        }
        let raw: usize = self.raw_size();
        let rem: usize = raw % 8;
        if rem == 0 {
            raw
        } else {
            raw + (8 - rem)
        }
    }
}

} // verus!
