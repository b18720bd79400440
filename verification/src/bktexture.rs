//! Per-texture header records and width x height pixel grids. A
//! texture header carries the byte offset of the pixel data inside the
//! texture section's shared blob, a format tag, and the declared
//! dimensions; unknown tags are preserved verbatim so re-encoding
//! still reproduces the input.

use crate::bebytes::be_u16_at;
use crate::bebytes::be_u32_at;
use crate::bebytes::concat_map;
use crate::bebytes::copy_range;
use crate::bebytes::lemma_concat_map_push;
use crate::bebytes::lemma_u16_bytes_at;
use crate::bebytes::lemma_u32_bytes_at;
use crate::bebytes::push_all;
use crate::bebytes::push_u16;
use crate::bebytes::push_u32;
use crate::bebytes::spec_u16_bytes;
use crate::bebytes::spec_u32_bytes;
use crate::pixels::ia16::ia16_unit_at;
use crate::pixels::ia16::IA16;
use crate::pixels::rgba16::lemma_rgba16_bits_roundtrip;
use crate::pixels::rgba16::rgba16_bits;
use crate::pixels::rgba16::rgba16_unit_at;
use crate::pixels::rgba16::RGBA16;
use crate::pixels::rgba32::rgba32_unit_at;
use crate::pixels::rgba32::RGBA32;
use vstd::prelude::*;

verus! {

/// Format tag of one texture, as stored in its header record.
#[derive(PartialEq, Eq, Structural, Debug, Copy, Clone)]
pub enum BKTextureFormat {
    CI4,
    CI8,
    I4,
    I8,
    IA4,
    IA8,
    IA16,
    RGBA16,
    RGBA32,
    Unknown(u16),
}

/// The 16-bit tag written for a format.
pub open spec fn fmt_tag(f: BKTextureFormat) -> u16 {
    match f {
        BKTextureFormat::CI4 => 0x001,
        BKTextureFormat::CI8 => 0x004,
        BKTextureFormat::I4 => 0x020,
        BKTextureFormat::I8 => 0x040,
        BKTextureFormat::IA4 => 0x080,
        BKTextureFormat::IA8 => 0x100,
        BKTextureFormat::IA16 => 0x200,
        BKTextureFormat::RGBA16 => 0x400,
        BKTextureFormat::RGBA32 => 0x800,
        BKTextureFormat::Unknown(x) => x,
    }
}

/// The format read from a 16-bit tag. A tag outside the known set is
/// carried as `Unknown`, so that re-encoding reproduces it.
pub open spec fn fmt_of_tag(t: u16) -> BKTextureFormat {
    if t == 0x001 {
        BKTextureFormat::CI4
    } else if t == 0x004 {
        BKTextureFormat::CI8
    } else if t == 0x020 {
        BKTextureFormat::I4
    } else if t == 0x040 {
        BKTextureFormat::I8
    } else if t == 0x080 {
        BKTextureFormat::IA4
    } else if t == 0x100 {
        BKTextureFormat::IA8
    } else if t == 0x400 {
        BKTextureFormat::RGBA16
    } else if t == 0x800 {
        BKTextureFormat::RGBA32
    } else {
        BKTextureFormat::Unknown(t)
    }
}

/// Reading a tag and writing it back reproduces it, for every tag.
pub proof fn lemma_fmt_tag_roundtrip(t: u16)
    ensures
        fmt_tag(fmt_of_tag(t)) == t,
{
}

/// One 16-byte texture header record.
#[derive(Debug)]
pub struct BKTextureHeader {
    /// Offset of this texture's pixel data within the section blob.
    pub offset: u32,
    pub format: BKTextureFormat,
    pub unk_6: Vec<u8>,
    pub width: u8,
    pub height: u8,
    pub unk_a: Vec<u8>,
}

impl BKTextureHeader {
    /// The reserved runs have their on-disk widths.
    pub open spec fn wf(self) -> bool {
        self.unk_6@.len() == 2 && self.unk_a@.len() == 6
    }

    /// The 16 bytes written for this record.
    pub open spec fn spec_bytes(self) -> Seq<u8> {
        spec_u32_bytes(self.offset) + spec_u16_bytes(fmt_tag(self.format)) + self.unk_6@ + seq![
            self.width,
            self.height,
        ] + self.unk_a@
    }

    pub fn from_be_bytes(in_bytes: &[u8]) -> (r: BKTextureHeader)
        requires
            in_bytes@.len() >= 0x10,
        ensures
            r.wf(),
            r.offset == be_u32_at(in_bytes@, 0),
            r.format == fmt_of_tag(be_u16_at(in_bytes@, 4)),
            r.unk_6@ == in_bytes@.subrange(6, 8),
            r.width == in_bytes@[8],
            r.height == in_bytes@[9],
            r.unk_a@ == in_bytes@.subrange(0xA, 0x10),
            r.spec_bytes() =~= in_bytes@.subrange(0, 0x10),
    {
        let offset: u32 = crate::bebytes::read_u32(in_bytes, 0);
        let fmt_u16: u16 = crate::bebytes::read_u16(in_bytes, 4);
        let format: BKTextureFormat = if fmt_u16 == 0x001 {
            BKTextureFormat::CI4
        } else if fmt_u16 == 0x004 {
            BKTextureFormat::CI8
        } else if fmt_u16 == 0x020 {
            BKTextureFormat::I4
        } else if fmt_u16 == 0x040 {
            BKTextureFormat::I8
        } else if fmt_u16 == 0x080 {
            BKTextureFormat::IA4
        } else if fmt_u16 == 0x100 {
            BKTextureFormat::IA8
        } else if fmt_u16 == 0x400 {
            BKTextureFormat::RGBA16
        } else if fmt_u16 == 0x800 {
            BKTextureFormat::RGBA32
        } else {
            BKTextureFormat::Unknown(fmt_u16)
        };
        let r = BKTextureHeader {
            offset,
            format,
            unk_6: copy_range(in_bytes, 6, 8),
            width: in_bytes[8],
            height: in_bytes[9],
            unk_a: copy_range(in_bytes, 0xA, 0x10),
        };
        proof {
            lemma_u32_bytes_at(in_bytes@, 0);
            lemma_fmt_tag_roundtrip(be_u16_at(in_bytes@, 4));
            lemma_u16_bytes_at(in_bytes@, 4);
            assert(r.spec_bytes() =~= in_bytes@.subrange(0, 0x10));
        }
        r
    }

    #[verifier::rlimit(100)]
    pub fn to_be_bytes(&self) -> (r: Vec<u8>)
        ensures
            r@ =~= self.spec_bytes(),
    {
        let mut out: Vec<u8> = Vec::new();
        push_u32(&mut out, self.offset);
        let tag: u16 = match self.format {
            BKTextureFormat::CI4 => 0x001,
            BKTextureFormat::CI8 => 0x004,
            BKTextureFormat::I4 => 0x020,
            BKTextureFormat::I8 => 0x040,
            BKTextureFormat::IA4 => 0x080,
            BKTextureFormat::IA8 => 0x100,
            BKTextureFormat::IA16 => 0x200,
            BKTextureFormat::RGBA16 => 0x400,
            BKTextureFormat::RGBA32 => 0x800,
            BKTextureFormat::Unknown(x) => x,
        };
        push_u16(&mut out, tag);
        push_all(&mut out, &self.unk_6);
        out.push(self.width);
        out.push(self.height);
        push_all(&mut out, &self.unk_a);
        proof {
            assert(out@ =~= self.spec_bytes());
        }
        out
    }
}


/// Encoding functions of one pixel and one row of each grid kind.
pub open spec fn ia16_pix_bytes() -> spec_fn(IA16) -> Seq<u8> {
    |p: IA16| p.spec_bytes()
}

pub open spec fn ia16_row_bytes() -> spec_fn(Vec<IA16>) -> Seq<u8> {
    |row: Vec<IA16>| concat_map(row@, ia16_pix_bytes())
}

pub open spec fn rgba16_pix_bytes() -> spec_fn(RGBA16) -> Seq<u8> {
    |p: RGBA16| spec_u16_bytes(rgba16_bits(p))
}

pub open spec fn rgba16_row_bytes() -> spec_fn(Vec<RGBA16>) -> Seq<u8> {
    |row: Vec<RGBA16>| concat_map(row@, rgba16_pix_bytes())
}

pub open spec fn rgba32_pix_bytes() -> spec_fn(RGBA32) -> Seq<u8> {
    |p: RGBA32| p.spec_bytes()
}

pub open spec fn rgba32_row_bytes() -> spec_fn(Vec<RGBA32>) -> Seq<u8> {
    |row: Vec<RGBA32>| concat_map(row@, rgba32_pix_bytes())
}

/// Marker for pixel grids that can stand in for a decoded texture.
pub trait Texture {

}

/// A width x height grid of decoded pixel units.
#[derive(Debug, Clone)]
pub struct BKTexture<T> {
    pub tmem: Vec<Vec<T>>,
}

impl BKTexture<IA16> {
    /// The bytes written for the grid, row after row.
    pub open spec fn grid_bytes(self) -> Seq<u8> {
        concat_map(self.tmem@, ia16_row_bytes())
    }

    pub fn from_be_bytes(width: usize, height: usize, bytes: &[u8]) -> (r: Self)
        requires
            (width as int) * (height as int) * 2 <= bytes@.len(),
        ensures
            r.tmem@.len() == height,
            forall|j: int| 0 <= j < height ==> (#[trigger] r.tmem@[j])@.len() == width,
            forall|j: int, c: int|
                0 <= j < height && 0 <= c < width ==> (#[trigger] r.tmem@[j]@[c]) == ia16_unit_at(
                    bytes@,
                    j * width + c,
                ),
    {
        let blen: usize = bytes.len();
        let mut tmem: Vec<Vec<IA16>> = Vec::new();
        let mut j: usize = 0;
        while j < height
            invariant
                j <= height,
                (width as int) * (height as int) * 2 <= bytes@.len(),
                bytes@.len() <= usize::MAX,
                tmem@.len() == j,
                forall|x: int| 0 <= x < j ==> (#[trigger] tmem@[x])@.len() == width,
                forall|x: int, c: int|
                    0 <= x < j && 0 <= c < width ==> (#[trigger] tmem@[x]@[c]) == ia16_unit_at(
                        bytes@,
                        x * width + c,
                    ),
            decreases height - j,
        {
            let mut row: Vec<IA16> = Vec::new();
            let mut c: usize = 0;
            while c < width
                invariant
                    c <= width,
                    j < height,
                    (width as int) * (height as int) * 2 <= bytes@.len(),
                    bytes@.len() <= usize::MAX,
                    row@.len() == c,
                    forall|y: int|
                        0 <= y < c ==> (#[trigger] row@[y]) == ia16_unit_at(
                            bytes@,
                            j * width + y,
                        ),
                decreases width - c,
            {
                proof {
                    assert((j * width + c) * 2 + 2 <= bytes@.len()) by (nonlinear_arith)
                        requires
                            0 <= j < height,
                            0 <= c < width,
                            (width as int) * (height as int) * 2 <= bytes@.len(),
                    ;
                }
                let k: usize = j * width + c;
                let p = IA16 { i: bytes[2 * k], a: bytes[2 * k + 1] };
                row.push(p);
                c = c + 1;
            }
            tmem.push(row);
            j = j + 1;
        }
        BKTexture::<IA16> { tmem }
    }

    #[verifier::rlimit(100)]
    pub fn to_be_bytes(&self) -> (r: Vec<u8>)
        ensures
            r@ =~= self.grid_bytes(),
    {
        let ghost rowf = ia16_row_bytes();
        let ghost pixf = ia16_pix_bytes();
        let mut out: Vec<u8> = Vec::new();
        let mut j: usize = 0;
        while j < self.tmem.len()
            invariant
                j <= self.tmem@.len(),
                rowf == ia16_row_bytes(),
                pixf == ia16_pix_bytes(),
                out@ =~= concat_map(self.tmem@.subrange(0, j as int), rowf),
            decreases self.tmem@.len() - j,
        {
            let row: &Vec<IA16> = &self.tmem[j];
            let ghost row_start = out@;
            let mut c: usize = 0;
            while c < row.len()
                invariant
                    c <= row@.len(),
                    pixf == ia16_pix_bytes(),
                    out@ =~= row_start + concat_map(row@.subrange(0, c as int), pixf),
                decreases row@.len() - c,
            {
                out.push(row[c].i);
                out.push(row[c].a);
                proof {
                    lemma_concat_map_push(row@.subrange(0, c as int), pixf, row@[c as int]);
                    assert(row@.subrange(0, c as int + 1) =~= row@.subrange(0, c as int).push(
                        row@[c as int],
                    ));
                    assert(out@ =~= row_start + concat_map(row@.subrange(0, c as int + 1), pixf));
                }
                c = c + 1;
            }
            proof {
                assert(row@.subrange(0, row@.len() as int) =~= row@);
                lemma_concat_map_push(self.tmem@.subrange(0, j as int), rowf, self.tmem@[j as int]);
                assert(self.tmem@.subrange(0, j as int + 1) =~= self.tmem@.subrange(
                    0,
                    j as int,
                ).push(self.tmem@[j as int]));
            }
            j = j + 1;
        }
        proof {
            assert(self.tmem@.subrange(0, self.tmem@.len() as int) =~= self.tmem@);
        }
        out
    }
}

impl BKTexture<RGBA16> {
    /// The bytes written for the grid, row after row.
    pub open spec fn grid_bytes(self) -> Seq<u8> {
        concat_map(self.tmem@, rgba16_row_bytes())
    }

    pub fn from_be_bytes(width: usize, height: usize, bytes: &[u8]) -> (r: Self)
        requires
            (width as int) * (height as int) * 2 <= bytes@.len(),
        ensures
            r.tmem@.len() == height,
            forall|j: int| 0 <= j < height ==> (#[trigger] r.tmem@[j])@.len() == width,
            forall|j: int, c: int|
                0 <= j < height && 0 <= c < width ==> (#[trigger] r.tmem@[j]@[c]) == rgba16_unit_at(
                    bytes@,
                    j * width + c,
                ),
    {
        let blen: usize = bytes.len();
        let mut tmem: Vec<Vec<RGBA16>> = Vec::new();
        let mut j: usize = 0;
        while j < height
            invariant
                j <= height,
                (width as int) * (height as int) * 2 <= bytes@.len(),
                bytes@.len() <= usize::MAX,
                tmem@.len() == j,
                forall|x: int| 0 <= x < j ==> (#[trigger] tmem@[x])@.len() == width,
                forall|x: int, c: int|
                    0 <= x < j && 0 <= c < width ==> (#[trigger] tmem@[x]@[c]) == rgba16_unit_at(
                        bytes@,
                        x * width + c,
                    ),
            decreases height - j,
        {
            let mut row: Vec<RGBA16> = Vec::new();
            let mut c: usize = 0;
            while c < width
                invariant
                    c <= width,
                    j < height,
                    (width as int) * (height as int) * 2 <= bytes@.len(),
                    bytes@.len() <= usize::MAX,
                    row@.len() == c,
                    forall|y: int|
                        0 <= y < c ==> (#[trigger] row@[y]) == rgba16_unit_at(
                            bytes@,
                            j * width + y,
                        ),
                decreases width - c,
            {
                proof {
                    assert((j * width + c) * 2 + 2 <= bytes@.len()) by (nonlinear_arith)
                        requires
                            0 <= j < height,
                            0 <= c < width,
                            (width as int) * (height as int) * 2 <= bytes@.len(),
                    ;
                }
                let k: usize = j * width + c;
                let p = RGBA16::from_be_bytes([bytes[2 * k], bytes[2 * k + 1]]);
                row.push(p);
                c = c + 1;
            }
            tmem.push(row);
            j = j + 1;
        }
        BKTexture::<RGBA16> { tmem }
    }

    #[verifier::rlimit(100)]
    pub fn to_be_bytes(&self) -> (r: Vec<u8>)
        ensures
            r@ =~= self.grid_bytes(),
    {
        let ghost rowf = rgba16_row_bytes();
        let ghost pixf = rgba16_pix_bytes();
        let mut out: Vec<u8> = Vec::new();
        let mut j: usize = 0;
        while j < self.tmem.len()
            invariant
                j <= self.tmem@.len(),
                rowf == rgba16_row_bytes(),
                pixf == rgba16_pix_bytes(),
                out@ =~= concat_map(self.tmem@.subrange(0, j as int), rowf),
            decreases self.tmem@.len() - j,
        {
            let row: &Vec<RGBA16> = &self.tmem[j];
            let ghost row_start = out@;
            let mut c: usize = 0;
            while c < row.len()
                invariant
                    c <= row@.len(),
                    pixf == rgba16_pix_bytes(),
                    out@ =~= row_start + concat_map(row@.subrange(0, c as int), pixf),
                decreases row@.len() - c,
            {
                let two: [u8; 2] = row[c].to_be_bytes();
                out.push(two[0]);
                out.push(two[1]);
                proof {
                    lemma_concat_map_push(row@.subrange(0, c as int), pixf, row@[c as int]);
                    assert(row@.subrange(0, c as int + 1) =~= row@.subrange(0, c as int).push(
                        row@[c as int],
                    ));
                    assert(out@ =~= row_start + concat_map(row@.subrange(0, c as int + 1), pixf));
                }
                c = c + 1;
            }
            proof {
                assert(row@.subrange(0, row@.len() as int) =~= row@);
                lemma_concat_map_push(self.tmem@.subrange(0, j as int), rowf, self.tmem@[j as int]);
                assert(self.tmem@.subrange(0, j as int + 1) =~= self.tmem@.subrange(
                    0,
                    j as int,
                ).push(self.tmem@[j as int]));
            }
            j = j + 1;
        }
        proof {
            assert(self.tmem@.subrange(0, self.tmem@.len() as int) =~= self.tmem@);
        }
        out
    }
}

impl BKTexture<RGBA32> {
    /// The bytes written for the grid, row after row.
    pub open spec fn grid_bytes(self) -> Seq<u8> {
        concat_map(self.tmem@, rgba32_row_bytes())
    }

    pub fn from_be_bytes(width: usize, height: usize, bytes: &[u8]) -> (r: Self)
        requires
            (width as int) * (height as int) * 4 <= bytes@.len(),
        ensures
            r.tmem@.len() == height,
            forall|j: int| 0 <= j < height ==> (#[trigger] r.tmem@[j])@.len() == width,
            forall|j: int, c: int|
                0 <= j < height && 0 <= c < width ==> (#[trigger] r.tmem@[j]@[c]) == rgba32_unit_at(
                    bytes@,
                    j * width + c,
                ),
    {
        let blen: usize = bytes.len();
        let mut tmem: Vec<Vec<RGBA32>> = Vec::new();
        let mut j: usize = 0;
        while j < height
            invariant
                j <= height,
                (width as int) * (height as int) * 4 <= bytes@.len(),
                bytes@.len() <= usize::MAX,
                tmem@.len() == j,
                forall|x: int| 0 <= x < j ==> (#[trigger] tmem@[x])@.len() == width,
                forall|x: int, c: int|
                    0 <= x < j && 0 <= c < width ==> (#[trigger] tmem@[x]@[c]) == rgba32_unit_at(
                        bytes@,
                        x * width + c,
                    ),
            decreases height - j,
        {
            let mut row: Vec<RGBA32> = Vec::new();
            let mut c: usize = 0;
            while c < width
                invariant
                    c <= width,
                    j < height,
                    (width as int) * (height as int) * 4 <= bytes@.len(),
                    bytes@.len() <= usize::MAX,
                    row@.len() == c,
                    forall|y: int|
                        0 <= y < c ==> (#[trigger] row@[y]) == rgba32_unit_at(
                            bytes@,
                            j * width + y,
                        ),
                decreases width - c,
            {
                proof {
                    assert((j * width + c) * 4 + 4 <= bytes@.len()) by (nonlinear_arith)
                        requires
                            0 <= j < height,
                            0 <= c < width,
                            (width as int) * (height as int) * 4 <= bytes@.len(),
                    ;
                }
                let k: usize = j * width + c;
                let p = RGBA32 {
                    r: bytes[4 * k],
                    g: bytes[4 * k + 1],
                    b: bytes[4 * k + 2],
                    a: bytes[4 * k + 3],
                };
                row.push(p);
                c = c + 1;
            }
            tmem.push(row);
            j = j + 1;
        }
        BKTexture::<RGBA32> { tmem }
    }

    #[verifier::rlimit(100)]
    pub fn to_be_bytes(&self) -> (r: Vec<u8>)
        ensures
            r@ =~= self.grid_bytes(),
    {
        let ghost rowf = rgba32_row_bytes();
        let ghost pixf = rgba32_pix_bytes();
        let mut out: Vec<u8> = Vec::new();
        let mut j: usize = 0;
        while j < self.tmem.len()
            invariant
                j <= self.tmem@.len(),
                rowf == rgba32_row_bytes(),
                pixf == rgba32_pix_bytes(),
                out@ =~= concat_map(self.tmem@.subrange(0, j as int), rowf),
            decreases self.tmem@.len() - j,
        {
            let row: &Vec<RGBA32> = &self.tmem[j];
            let ghost row_start = out@;
            let mut c: usize = 0;
            while c < row.len()
                invariant
                    c <= row@.len(),
                    pixf == rgba32_pix_bytes(),
                    out@ =~= row_start + concat_map(row@.subrange(0, c as int), pixf),
                decreases row@.len() - c,
            {
                out.push(row[c].r);
                out.push(row[c].g);
                out.push(row[c].b);
                out.push(row[c].a);
                proof {
                    lemma_concat_map_push(row@.subrange(0, c as int), pixf, row@[c as int]);
                    assert(row@.subrange(0, c as int + 1) =~= row@.subrange(0, c as int).push(
                        row@[c as int],
                    ));
                    assert(out@ =~= row_start + concat_map(row@.subrange(0, c as int + 1), pixf));
                }
                c = c + 1;
            }
            proof {
                assert(row@.subrange(0, row@.len() as int) =~= row@);
                lemma_concat_map_push(self.tmem@.subrange(0, j as int), rowf, self.tmem@[j as int]);
                assert(self.tmem@.subrange(0, j as int + 1) =~= self.tmem@.subrange(
                    0,
                    j as int,
                ).push(self.tmem@[j as int]));
            }
            j = j + 1;
        }
        proof {
            assert(self.tmem@.subrange(0, self.tmem@.len() as int) =~= self.tmem@);
        }
        out
    }
}


// ---------------------------------------------------------------
// grid round trips: decoding a grid and re-encoding it reproduces
// the consumed prefix of the pixel blob
// ---------------------------------------------------------------

/// One row of IA16 units read from unit offset `k0` writes its bytes
/// back.
proof fn lemma_ia16_row_roundtrip(row: Seq<IA16>, b: Seq<u8>, k0: int)
    requires
        0 <= k0,
        2 * (k0 + row.len()) <= b.len(),
        forall|y: int| 0 <= y < row.len() ==> (#[trigger] row[y]) == ia16_unit_at(b, k0 + y),
    ensures
        concat_map(row, ia16_pix_bytes()) =~= b.subrange(2 * k0, 2 * (k0 + row.len())),
    decreases row.len(),
{
    if row.len() == 0 {
    } else {
        lemma_ia16_row_roundtrip(row.drop_last(), b, k0);
        lemma_concat_map_push(row.drop_last(), ia16_pix_bytes(), row.last());
        assert(row.drop_last().push(row.last()) =~= row);
        let y = row.len() - 1;
        assert(ia16_pix_bytes()(row.last()) =~= b.subrange(2 * (k0 + y), 2 * (k0 + y) + 2));
        assert(concat_map(row, ia16_pix_bytes()) =~= b.subrange(2 * k0, 2 * (k0 + row.len())));
    }
}

/// The rows of an IA16 grid, stacked `width` units apart, write the
/// whole prefix back.
proof fn lemma_ia16_rows_roundtrip(rows: Seq<Vec<IA16>>, b: Seq<u8>, width: int)
    requires
        0 <= width,
        2 * width * rows.len() <= b.len(),
        forall|j: int| 0 <= j < rows.len() ==> (#[trigger] rows[j])@.len() == width,
        forall|j: int, c: int|
            0 <= j < rows.len() && 0 <= c < width ==> (#[trigger] rows[j]@[c]) == ia16_unit_at(
                b,
                j * width + c,
            ),
    ensures
        concat_map(rows, ia16_row_bytes()) =~= b.subrange(0, 2 * width * rows.len()),
    decreases rows.len(),
{
    if rows.len() == 0 {
    } else {
        let n = rows.len() as int;
        assert(2 * width * (n - 1) + 2 * width == 2 * width * n) by (nonlinear_arith);
        assert(forall|j: int, c: int|
            0 <= j < n - 1 && 0 <= c < width ==> (#[trigger] rows.drop_last()[j]@[c])
                == ia16_unit_at(b, j * width + c));
        lemma_ia16_rows_roundtrip(rows.drop_last(), b, width);
        let last = rows.last();
        assert(forall|c: int| 0 <= c < width ==> (#[trigger] last@[c]) == ia16_unit_at(b, (n - 1)
            * width + c));
        assert((n - 1) * width == width * (n - 1)) by (nonlinear_arith);
        assert(forall|y: int|
            0 <= y < last@.len() ==> (#[trigger] last@[y]) == ia16_unit_at(b, width * (n - 1) + y));
        assert(2 * (width * (n - 1) + last@.len()) == 2 * width * n) by (nonlinear_arith)
            requires
                last@.len() == width,
        ;
        assert(2 * (width * (n - 1)) == 2 * width * (n - 1)) by (nonlinear_arith);
        lemma_ia16_row_roundtrip(last@, b, width * (n - 1));
        lemma_concat_map_push(rows.drop_last(), ia16_row_bytes(), last);
        assert(rows.drop_last().push(last) =~= rows);
        assert(ia16_row_bytes()(last) == concat_map(last@, ia16_pix_bytes()));
        assert(concat_map(rows, ia16_row_bytes()) =~= b.subrange(0, 2 * width * n));
    }
}

/// A grid decoded from a blob re-encodes to the bytes it consumed.
pub proof fn lemma_ia16_grid_roundtrip(t: BKTexture<IA16>, b: Seq<u8>, width: int)
    requires
        0 <= width,
        2 * width * t.tmem@.len() <= b.len(),
        forall|j: int| 0 <= j < t.tmem@.len() ==> (#[trigger] t.tmem@[j])@.len() == width,
        forall|j: int, c: int|
            0 <= j < t.tmem@.len() && 0 <= c < width ==> (#[trigger] t.tmem@[j]@[c])
                == ia16_unit_at(b, j * width + c),
    ensures
        t.grid_bytes() =~= b.subrange(0, 2 * width * t.tmem@.len()),
{
    lemma_ia16_rows_roundtrip(t.tmem@, b, width);
}

/// One row of RGBA16 units read from unit offset `k0` writes its
/// bytes back: packing the unpacked channels restores each 16-bit
/// pattern.
proof fn lemma_rgba16_row_roundtrip(row: Seq<RGBA16>, b: Seq<u8>, k0: int)
    requires
        0 <= k0,
        2 * (k0 + row.len()) <= b.len(),
        forall|y: int| 0 <= y < row.len() ==> (#[trigger] row[y]) == rgba16_unit_at(b, k0 + y),
    ensures
        concat_map(row, rgba16_pix_bytes()) =~= b.subrange(2 * k0, 2 * (k0 + row.len())),
    decreases row.len(),
{
    if row.len() == 0 {
    } else {
        lemma_rgba16_row_roundtrip(row.drop_last(), b, k0);
        lemma_concat_map_push(row.drop_last(), rgba16_pix_bytes(), row.last());
        assert(row.drop_last().push(row.last()) =~= row);
        let y = row.len() - 1;
        lemma_rgba16_bits_roundtrip(be_u16_at(b, 2 * (k0 + y)));
        lemma_u16_bytes_at(b, 2 * (k0 + y));
        assert(rgba16_pix_bytes()(row.last()) =~= b.subrange(2 * (k0 + y), 2 * (k0 + y) + 2));
        assert(concat_map(row, rgba16_pix_bytes()) =~= b.subrange(2 * k0, 2 * (k0 + row.len())));
    }
}

proof fn lemma_rgba16_rows_roundtrip(rows: Seq<Vec<RGBA16>>, b: Seq<u8>, width: int)
    requires
        0 <= width,
        2 * width * rows.len() <= b.len(),
        forall|j: int| 0 <= j < rows.len() ==> (#[trigger] rows[j])@.len() == width,
        forall|j: int, c: int|
            0 <= j < rows.len() && 0 <= c < width ==> (#[trigger] rows[j]@[c]) == rgba16_unit_at(
                b,
                j * width + c,
            ),
    ensures
        concat_map(rows, rgba16_row_bytes()) =~= b.subrange(0, 2 * width * rows.len()),
    decreases rows.len(),
{
    if rows.len() == 0 {
    } else {
        let n = rows.len() as int;
        assert(2 * width * (n - 1) + 2 * width == 2 * width * n) by (nonlinear_arith);
        assert(forall|j: int, c: int|
            0 <= j < n - 1 && 0 <= c < width ==> (#[trigger] rows.drop_last()[j]@[c])
                == rgba16_unit_at(b, j * width + c));
        lemma_rgba16_rows_roundtrip(rows.drop_last(), b, width);
        let last = rows.last();
        assert(forall|c: int| 0 <= c < width ==> (#[trigger] last@[c]) == rgba16_unit_at(b, (n - 1)
            * width + c));
        assert((n - 1) * width == width * (n - 1)) by (nonlinear_arith);
        assert(forall|y: int|
            0 <= y < last@.len() ==> (#[trigger] last@[y]) == rgba16_unit_at(
                b,
                width * (n - 1) + y,
            ));
        assert(2 * (width * (n - 1) + last@.len()) == 2 * width * n) by (nonlinear_arith)
            requires
                last@.len() == width,
        ;
        assert(2 * (width * (n - 1)) == 2 * width * (n - 1)) by (nonlinear_arith);
        lemma_rgba16_row_roundtrip(last@, b, width * (n - 1));
        lemma_concat_map_push(rows.drop_last(), rgba16_row_bytes(), last);
        assert(rows.drop_last().push(last) =~= rows);
        assert(rgba16_row_bytes()(last) == concat_map(last@, rgba16_pix_bytes()));
        assert(concat_map(rows, rgba16_row_bytes()) =~= b.subrange(0, 2 * width * n));
    }
}

/// A grid decoded from a blob re-encodes to the bytes it consumed.
pub proof fn lemma_rgba16_grid_roundtrip(t: BKTexture<RGBA16>, b: Seq<u8>, width: int)
    requires
        0 <= width,
        2 * width * t.tmem@.len() <= b.len(),
        forall|j: int| 0 <= j < t.tmem@.len() ==> (#[trigger] t.tmem@[j])@.len() == width,
        forall|j: int, c: int|
            0 <= j < t.tmem@.len() && 0 <= c < width ==> (#[trigger] t.tmem@[j]@[c])
                == rgba16_unit_at(b, j * width + c),
    ensures
        t.grid_bytes() =~= b.subrange(0, 2 * width * t.tmem@.len()),
{
    lemma_rgba16_rows_roundtrip(t.tmem@, b, width);
}

/// One row of RGBA32 units read from unit offset `k0` writes its
/// bytes back.
proof fn lemma_rgba32_row_roundtrip(row: Seq<RGBA32>, b: Seq<u8>, k0: int)
    requires
        0 <= k0,
        4 * (k0 + row.len()) <= b.len(),
        forall|y: int| 0 <= y < row.len() ==> (#[trigger] row[y]) == rgba32_unit_at(b, k0 + y),
    ensures
        concat_map(row, rgba32_pix_bytes()) =~= b.subrange(4 * k0, 4 * (k0 + row.len())),
    decreases row.len(),
{
    if row.len() == 0 {
    } else {
        lemma_rgba32_row_roundtrip(row.drop_last(), b, k0);
        lemma_concat_map_push(row.drop_last(), rgba32_pix_bytes(), row.last());
        assert(row.drop_last().push(row.last()) =~= row);
        let y = row.len() - 1;
        assert(rgba32_pix_bytes()(row.last()) =~= b.subrange(4 * (k0 + y), 4 * (k0 + y) + 4));
        assert(concat_map(row, rgba32_pix_bytes()) =~= b.subrange(4 * k0, 4 * (k0 + row.len())));
    }
}

proof fn lemma_rgba32_rows_roundtrip(rows: Seq<Vec<RGBA32>>, b: Seq<u8>, width: int)
    requires
        0 <= width,
        4 * width * rows.len() <= b.len(),
        forall|j: int| 0 <= j < rows.len() ==> (#[trigger] rows[j])@.len() == width,
        forall|j: int, c: int|
            0 <= j < rows.len() && 0 <= c < width ==> (#[trigger] rows[j]@[c]) == rgba32_unit_at(
                b,
                j * width + c,
            ),
    ensures
        concat_map(rows, rgba32_row_bytes()) =~= b.subrange(0, 4 * width * rows.len()),
    decreases rows.len(),
{
    if rows.len() == 0 {
    } else {
        let n = rows.len() as int;
        assert(4 * width * (n - 1) + 4 * width == 4 * width * n) by (nonlinear_arith);
        assert(forall|j: int, c: int|
            0 <= j < n - 1 && 0 <= c < width ==> (#[trigger] rows.drop_last()[j]@[c])
                == rgba32_unit_at(b, j * width + c));
        lemma_rgba32_rows_roundtrip(rows.drop_last(), b, width);
        let last = rows.last();
        assert(forall|c: int| 0 <= c < width ==> (#[trigger] last@[c]) == rgba32_unit_at(b, (n - 1)
            * width + c));
        assert((n - 1) * width == width * (n - 1)) by (nonlinear_arith);
        assert(forall|y: int|
            0 <= y < last@.len() ==> (#[trigger] last@[y]) == rgba32_unit_at(
                b,
                width * (n - 1) + y,
            ));
        assert(4 * (width * (n - 1) + last@.len()) == 4 * width * n) by (nonlinear_arith)
            requires
                last@.len() == width,
        ;
        assert(4 * (width * (n - 1)) == 4 * width * (n - 1)) by (nonlinear_arith);
        lemma_rgba32_row_roundtrip(last@, b, width * (n - 1));
        lemma_concat_map_push(rows.drop_last(), rgba32_row_bytes(), last);
        assert(rows.drop_last().push(last) =~= rows);
        assert(rgba32_row_bytes()(last) == concat_map(last@, rgba32_pix_bytes()));
        assert(concat_map(rows, rgba32_row_bytes()) =~= b.subrange(0, 4 * width * n));
    }
}

/// A grid decoded from a blob re-encodes to the bytes it consumed.
pub proof fn lemma_rgba32_grid_roundtrip(t: BKTexture<RGBA32>, b: Seq<u8>, width: int)
    requires
        0 <= width,
        4 * width * t.tmem@.len() <= b.len(),
        forall|j: int| 0 <= j < t.tmem@.len() ==> (#[trigger] t.tmem@[j])@.len() == width,
        forall|j: int, c: int|
            0 <= j < t.tmem@.len() && 0 <= c < width ==> (#[trigger] t.tmem@[j]@[c])
                == rgba32_unit_at(b, j * width + c),
    ensures
        t.grid_bytes() =~= b.subrange(0, 4 * width * t.tmem@.len()),
{
    lemma_rgba32_rows_roundtrip(t.tmem@, b, width);
}


} // verus!
