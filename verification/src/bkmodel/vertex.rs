//! The vertex section: a 0x18-byte statistics header followed by
//! fixed 0x10-byte vertex records. The statistics are caches over the
//! vertex positions and are recomputed on encode, with one exception:
//! a stored `global_norm` that disagrees with the recomputed value is
//! preserved verbatim, so re-encoding stays byte-exact on files that
//! carry a stale value.

use crate::bebytes::be_i16_at;
use crate::bebytes::be_u16_at;
use crate::bebytes::concat_map;
use crate::bebytes::copy_range;
use crate::bebytes::i16_as_u16;
use crate::bebytes::lemma_concat_map_fixed_len;
use crate::bebytes::lemma_concat_map_push;
use crate::bebytes::lemma_i16_bytes_at;
use crate::bebytes::lemma_i16_u16_roundtrip;
use crate::bebytes::lemma_u16_bytes_at;
use crate::bebytes::push_all;
use crate::bebytes::push_i16;
use crate::bebytes::push_u16;
use crate::bebytes::read_i16;
use crate::bebytes::read_u16;
use crate::bebytes::spec_i16_bytes;
use crate::bebytes::spec_u16_bytes;
use crate::bebytes::u16_as_i16;
use crate::error::TryFromBEBytesError;
use vstd::prelude::*;

verus! {

/// One 0x10-byte vertex record: a position, a flag word, texture
/// coordinates, and a colour-or-normal word. The codec transports the
/// payload; only the position feeds the statistics.
#[derive(Debug)]
pub struct Vtx {
    pub ob: [i16; 3],
    pub flag: u16,
    pub tc: [i16; 2],
    pub cn: Vec<u8>,
}

impl Vtx {
    /// The colour-or-normal run has its on-disk width.
    pub open spec fn wf(self) -> bool {
        self.cn@.len() == 4
    }

    /// The 0x10 bytes written for this record.
    pub open spec fn spec_bytes(self) -> Seq<u8> {
        spec_i16_bytes(self.ob[0]) + spec_i16_bytes(self.ob[1]) + spec_i16_bytes(self.ob[2])
            + spec_u16_bytes(self.flag) + spec_i16_bytes(self.tc[0]) + spec_i16_bytes(self.tc[1])
            + self.cn@
    }

    /// The fields hold exactly what the first 0x10 bytes of `b` store.
    pub open spec fn parses_from(self, b: Seq<u8>) -> bool {
        &&& self.ob[0] == be_i16_at(b, 0)
        &&& self.ob[1] == be_i16_at(b, 2)
        &&& self.ob[2] == be_i16_at(b, 4)
        &&& self.flag == be_u16_at(b, 6)
        &&& self.tc[0] == be_i16_at(b, 8)
        &&& self.tc[1] == be_i16_at(b, 10)
        &&& self.cn@ == b.subrange(0xC, 0x10)
    }

    /// A record read from `b` writes `b` back.
    pub proof fn lemma_roundtrip(self, b: Seq<u8>)
        requires
            b.len() >= 0x10,
            self.parses_from(b),
        ensures
            self.spec_bytes() =~= b.subrange(0, 0x10),
    {
        lemma_i16_bytes_at(b, 0);
        lemma_i16_bytes_at(b, 2);
        lemma_i16_bytes_at(b, 4);
        lemma_u16_bytes_at(b, 6);
        lemma_i16_bytes_at(b, 8);
        lemma_i16_bytes_at(b, 10);
    }

    pub fn from_be_bytes(bytes: &[u8]) -> (r: Self)
        requires
            bytes@.len() >= 0x10,
        ensures
            r.parses_from(bytes@),
            r.wf(),
    {
        Vtx {
            ob: [read_i16(bytes, 0), read_i16(bytes, 2), read_i16(bytes, 4)],
            flag: read_u16(bytes, 6),
            tc: [read_i16(bytes, 8), read_i16(bytes, 10)],
            cn: copy_range(bytes, 0xC, 0x10),
        }
    }

    #[verifier::rlimit(100)]
    pub fn to_be_bytes(&self) -> (r: Vec<u8>)
        ensures
            r@ =~= self.spec_bytes(),
    {
        let mut out: Vec<u8> = Vec::new();
        push_i16(&mut out, self.ob[0]);
        push_i16(&mut out, self.ob[1]);
        push_i16(&mut out, self.ob[2]);
        push_u16(&mut out, self.flag);
        push_i16(&mut out, self.tc[0]);
        push_i16(&mut out, self.tc[1]);
        push_all(&mut out, &self.cn);
        proof {
            assert(out@ =~= self.spec_bytes());
        }
        out
    }
}

/// The encoding function of one vertex record.
pub open spec fn vtx_bytes() -> spec_fn(Vtx) -> Seq<u8> {
    |v: Vtx| v.spec_bytes()
}

// ---------------------------------------------------------------
// statistics over the vertex positions
// ---------------------------------------------------------------

pub open spec fn min_i16(a: i16, b: i16) -> i16 {
    if b < a {
        b
    } else {
        a
    }
}

pub open spec fn max_i16(a: i16, b: i16) -> i16 {
    if b > a {
        b
    } else {
        a
    }
}

/// Component-wise minimum of the positions; 0 with no vertices.
pub open spec fn spec_min_axis(s: Seq<Vtx>, k: int) -> i16
    decreases s.len(),
{
    if s.len() == 0 {
        0i16
    } else if s.len() == 1 {
        s[0].ob[k]
    } else {
        min_i16(spec_min_axis(s.drop_last(), k), s.last().ob[k])
    }
}

/// Component-wise maximum of the positions; 0 with no vertices.
pub open spec fn spec_max_axis(s: Seq<Vtx>, k: int) -> i16
    decreases s.len(),
{
    if s.len() == 0 {
        0i16
    } else if s.len() == 1 {
        s[0].ob[k]
    } else {
        max_i16(spec_max_axis(s.drop_last(), k), s.last().ob[k])
    }
}

/// Signed average of the extremes, rounding toward zero as a signed
/// integer division does.
pub open spec fn avg_trunc(a: int, b: int) -> int {
    let s = a + b;
    if s >= 0 {
        s / 2
    } else {
        -((-s) / 2)
    }
}

/// Component `k` of the centre: the truncating average of maximum
/// and minimum.
pub open spec fn spec_center_axis(s: Seq<Vtx>, k: int) -> i16 {
    avg_trunc(spec_max_axis(s, k) as int, spec_min_axis(s, k) as int) as i16
}

pub open spec fn sq(x: int) -> int {
    x * x
}

/// Squared distance of a position from the origin.
pub open spec fn norm_sq(v: Vtx) -> int {
    sq(v.ob[0] as int) + sq(v.ob[1] as int) + sq(v.ob[2] as int)
}

/// Squared distance of a position from the point `(c0, c1, c2)`.
pub open spec fn dist_sq(v: Vtx, c0: int, c1: int, c2: int) -> int {
    sq(v.ob[0] - c0) + sq(v.ob[1] - c1) + sq(v.ob[2] - c2)
}

/// Largest squared distance from the origin; 0 with no vertices.
pub open spec fn spec_max_norm_sq(s: Seq<Vtx>) -> int
    decreases s.len(),
{
    if s.len() == 0 {
        0int
    } else if s.len() == 1 {
        norm_sq(s[0])
    } else {
        let rest = spec_max_norm_sq(s.drop_last());
        let last = norm_sq(s.last());
        if last > rest {
            last
        } else {
            rest
        }
    }
}

/// Largest squared distance from the centre; 0 with no vertices.
pub open spec fn spec_max_dist_sq(s: Seq<Vtx>, c0: int, c1: int, c2: int) -> int
    decreases s.len(),
{
    if s.len() == 0 {
        0int
    } else if s.len() == 1 {
        dist_sq(s[0], c0, c1, c2)
    } else {
        let rest = spec_max_dist_sq(s.drop_last(), c0, c1, c2);
        let last = dist_sq(s.last(), c0, c1, c2);
        if last > rest {
            last
        } else {
            rest
        }
    }
}

/// `r` is the integer square root of `n`.
pub open spec fn is_isqrt(n: int, r: int) -> bool {
    0 <= r && r * r <= n && n < (r + 1) * (r + 1)
}

/// The integer square root of a non-negative `n`.
pub open spec fn spec_isqrt(n: int) -> int {
    choose|r: int| is_isqrt(n, r)
}

/// A non-negative number has an integer square root, and `spec_isqrt`
/// denotes it.
pub proof fn lemma_isqrt_exists(n: int)
    requires
        n >= 0,
    ensures
        is_isqrt(n, spec_isqrt(n)),
    decreases n,
{
    if n == 0 {
        assert(is_isqrt(0, 0));
    } else {
        lemma_isqrt_exists(n - 1);
        let r0 = spec_isqrt(n - 1);
        if (r0 + 1) * (r0 + 1) <= n {
            assert(n - 1 < (r0 + 1) * (r0 + 1));
            assert(n == (r0 + 1) * (r0 + 1));
            assert((r0 + 1) * (r0 + 1) < (r0 + 2) * (r0 + 2)) by (nonlinear_arith)
                requires
                    r0 >= 0,
            ;
            assert(is_isqrt(n, r0 + 1));
        } else {
            assert(is_isqrt(n, r0));
        }
    }
    assert(exists|r: int| is_isqrt(n, r));
}

/// The integer square root is unique.
pub proof fn lemma_isqrt_unique(n: int, a: int, b: int)
    requires
        is_isqrt(n, a),
        is_isqrt(n, b),
    ensures
        a == b,
{
    if a < b {
        assert((a + 1) * (a + 1) <= b * b) by (nonlinear_arith)
            requires
                0 <= a,
                a + 1 <= b,
        ;
    }
    if b < a {
        assert((b + 1) * (b + 1) <= a * a) by (nonlinear_arith)
            requires
                0 <= b,
                b + 1 <= a,
        ;
    }
}

/// Saturates a non-negative value into a signed 16-bit result, as a
/// float-to-integer cast does.
pub open spec fn sat_i16(x: int) -> i16 {
    if x > 0x7FFF {
        0x7FFFi16
    } else {
        x as i16
    }
}

/// The stored local norm: the truncated root of the largest squared
/// distance from the centre.
pub open spec fn spec_local_norm(s: Seq<Vtx>) -> i16 {
    sat_i16(
        spec_isqrt(
            spec_max_dist_sq(
                s,
                spec_center_axis(s, 0) as int,
                spec_center_axis(s, 1) as int,
                spec_center_axis(s, 2) as int,
            ),
        ),
    )
}

/// The recomputed global norm: the truncated root of the largest
/// squared distance from the origin.
pub open spec fn spec_global_norm(s: Seq<Vtx>) -> i16 {
    sat_i16(spec_isqrt(spec_max_norm_sq(s)))
}

/// Binary search for the integer square root of a 64-bit value.
fn isqrt64(n: u64) -> (r: u64)
    ensures
        is_isqrt(n as int, r as int),
{
    let mut lo: u64 = 0;
    let mut hi: u64 = if n < 0xFFFFFFFF {
        n
    } else {
        0xFFFFFFFF
    };
    proof {
        assert((n as int + 1) * (n as int + 1) > n) by (nonlinear_arith)
            requires
                n >= 0,
        ;
        assert(0x100000000int * 0x100000000int > n) by (nonlinear_arith)
            requires
                n <= 0xFFFFFFFFFFFFFFFF,
        ;
    }
    while lo < hi
        invariant
            lo <= hi <= 0xFFFFFFFF,
            (lo as int) * (lo as int) <= n,
            (hi as int + 1) * (hi as int + 1) > n,
        decreases hi - lo,
    {
        let mid: u64 = lo + (hi - lo + 1) / 2;
        proof {
            assert(lo < mid <= hi);
        }
        if mid <= n / mid {
            proof {
                vstd::arithmetic::div_mod::lemma_fundamental_div_mod(n as int, mid as int);
                assert(mid as int <= n as int / mid as int ==> (mid as int) * (mid as int)
                    <= n as int) by (nonlinear_arith)
                    requires
                        mid >= 1,
                        n as int == (n as int / mid as int) * (mid as int) + (n as int
                            % mid as int),
                        (n as int % mid as int) >= 0,
                ;
            }
            lo = mid;
        } else {
            proof {
                vstd::arithmetic::div_mod::lemma_fundamental_div_mod(n as int, mid as int);
                assert(mid as int > n as int / mid as int ==> (mid as int) * (mid as int)
                    > n as int) by (nonlinear_arith)
                    requires
                        mid >= 1,
                        n as int == (n as int / mid as int) * (mid as int) + (n as int
                            % mid as int),
                        (n as int % mid as int) < (mid as int),
                ;
            }
            hi = mid - 1;
        }
    }
    lo
}

/// The decoded 0x18-byte statistics header.
#[derive(Debug)]
pub struct BKVertexListHeader {
    pub min: [i16; 3],
    pub max: [i16; 3],
    pub center: [i16; 3],
    pub local_norm: i16,
    pub len: i16,
    pub global_norm: i16,
}

impl BKVertexListHeader {
    /// The 0x18 bytes written for this header.
    pub open spec fn spec_bytes(self) -> Seq<u8> {
        spec_i16_bytes(self.min[0]) + spec_i16_bytes(self.min[1]) + spec_i16_bytes(self.min[2])
            + spec_i16_bytes(self.max[0]) + spec_i16_bytes(self.max[1]) + spec_i16_bytes(
            self.max[2],
        ) + spec_i16_bytes(self.center[0]) + spec_i16_bytes(self.center[1]) + spec_i16_bytes(
            self.center[2],
        ) + spec_i16_bytes(self.local_norm) + spec_i16_bytes(self.len) + spec_i16_bytes(
            self.global_norm,
        )
    }

    /// The fields hold exactly what the first 0x18 bytes of `b` store.
    pub open spec fn parses_from(self, b: Seq<u8>) -> bool {
        &&& self.min[0] == be_i16_at(b, 0) && self.min[1] == be_i16_at(b, 2) && self.min[2]
            == be_i16_at(b, 4)
        &&& self.max[0] == be_i16_at(b, 6) && self.max[1] == be_i16_at(b, 8) && self.max[2]
            == be_i16_at(b, 10)
        &&& self.center[0] == be_i16_at(b, 0xC) && self.center[1] == be_i16_at(b, 0xE)
            && self.center[2] == be_i16_at(b, 0x10)
        &&& self.local_norm == be_i16_at(b, 0x12)
        &&& self.len == be_i16_at(b, 0x14)
        &&& self.global_norm == be_i16_at(b, 0x16)
    }

    /// A header read from `b` writes `b` back.
    pub proof fn lemma_roundtrip(self, b: Seq<u8>)
        requires
            b.len() >= 0x18,
            self.parses_from(b),
        ensures
            self.spec_bytes() =~= b.subrange(0, 0x18),
    {
        lemma_i16_bytes_at(b, 0);
        lemma_i16_bytes_at(b, 2);
        lemma_i16_bytes_at(b, 4);
        lemma_i16_bytes_at(b, 6);
        lemma_i16_bytes_at(b, 8);
        lemma_i16_bytes_at(b, 10);
        lemma_i16_bytes_at(b, 0xC);
        lemma_i16_bytes_at(b, 0xE);
        lemma_i16_bytes_at(b, 0x10);
        lemma_i16_bytes_at(b, 0x12);
        lemma_i16_bytes_at(b, 0x14);
        lemma_i16_bytes_at(b, 0x16);
    }

    pub fn from_be_bytes(bytes: &[u8]) -> (r: BKVertexListHeader)
        requires
            bytes@.len() >= 0x18,
        ensures
            r.parses_from(bytes@),
            r.spec_bytes() =~= bytes@.subrange(0, 0x18),
    {
        let r = BKVertexListHeader {
            min: [read_i16(bytes, 0), read_i16(bytes, 2), read_i16(bytes, 4)],
            max: [read_i16(bytes, 6), read_i16(bytes, 8), read_i16(bytes, 10)],
            center: [read_i16(bytes, 0xC), read_i16(bytes, 0xE), read_i16(bytes, 0x10)],
            local_norm: read_i16(bytes, 0x12),
            len: read_i16(bytes, 0x14),
            global_norm: read_i16(bytes, 0x16),
        };
        proof {
            r.lemma_roundtrip(bytes@);
        }
        r
    }

    #[verifier::rlimit(100)]
    pub fn to_be_bytes(&self) -> (r: Vec<u8>)
        ensures
            r@ =~= self.spec_bytes(),
    {
        let mut out: Vec<u8> = Vec::new();
        push_i16(&mut out, self.min[0]);
        push_i16(&mut out, self.min[1]);
        push_i16(&mut out, self.min[2]);
        push_i16(&mut out, self.max[0]);
        push_i16(&mut out, self.max[1]);
        push_i16(&mut out, self.max[2]);
        push_i16(&mut out, self.center[0]);
        push_i16(&mut out, self.center[1]);
        push_i16(&mut out, self.center[2]);
        push_i16(&mut out, self.local_norm);
        push_i16(&mut out, self.len);
        push_i16(&mut out, self.global_norm);
        proof {
            assert(out@ =~= self.spec_bytes());
        }
        out
    }
}

/// True when the stored recomputable statistics of an encoded vertex
/// section agree with the values recomputed from its vertices, which
/// is what re-encoding writes there. The stored global norm needs no
/// such condition: a disagreeing value is preserved and re-emitted.
pub open spec fn vertex_stats_exact(list: BKVertexList, b: Seq<u8>) -> bool {
    &&& be_i16_at(b, 0) == spec_min_axis(list.vertex@, 0)
    &&& be_i16_at(b, 2) == spec_min_axis(list.vertex@, 1)
    &&& be_i16_at(b, 4) == spec_min_axis(list.vertex@, 2)
    &&& be_i16_at(b, 6) == spec_max_axis(list.vertex@, 0)
    &&& be_i16_at(b, 8) == spec_max_axis(list.vertex@, 1)
    &&& be_i16_at(b, 10) == spec_max_axis(list.vertex@, 2)
    &&& be_i16_at(b, 0xC) == spec_center_axis(list.vertex@, 0)
    &&& be_i16_at(b, 0xE) == spec_center_axis(list.vertex@, 1)
    &&& be_i16_at(b, 0x10) == spec_center_axis(list.vertex@, 2)
    &&& be_i16_at(b, 0x12) == spec_local_norm(list.vertex@)
}

/// A decoded section whose stored statistics agree with the
/// recomputed ones writes its source bytes back.
    #[verifier::rlimit(100)]
pub proof fn lemma_vertex_list_roundtrip(list: BKVertexList, b: Seq<u8>)
    requires
        list.wf(),
        b.len() >= 0x18,
        list.vertex@.len() == be_u16_at(b, 0x14),
        0x18 + (list.vertex@.len() as int) * 0x10 <= b.len(),
        concat_map(list.vertex@, vtx_bytes()) == b.subrange(
            0x18,
            0x18 + (list.vertex@.len() as int) * 0x10,
        ),
        list.spec_emitted_global_norm() == be_i16_at(b, 0x16),
        vertex_stats_exact(list, b),
    ensures
        list.spec_bytes() =~= b.subrange(0, list.spec_size()),
{
    list.lemma_size();
    lemma_i16_bytes_at(b, 0);
    lemma_i16_bytes_at(b, 2);
    lemma_i16_bytes_at(b, 4);
    lemma_i16_bytes_at(b, 6);
    lemma_i16_bytes_at(b, 8);
    lemma_i16_bytes_at(b, 10);
    lemma_i16_bytes_at(b, 0xC);
    lemma_i16_bytes_at(b, 0xE);
    lemma_i16_bytes_at(b, 0x10);
    lemma_i16_bytes_at(b, 0x12);
    lemma_u16_bytes_at(b, 0x14);
    lemma_i16_bytes_at(b, 0x16);
    assert(list.spec_bytes() =~= b.subrange(0, list.spec_size()));
}

/// The vertex section.
#[derive(Debug)]
pub struct BKVertexList {
    pub vertex: Vec<Vtx>,
    /// A stored global norm that disagreed with the recomputed one,
    /// kept so that re-encoding reproduces it; `None` when they
    /// agreed.
    pub preserved_global_norm: Option<i16>,
}

impl BKVertexList {
    /// The count fits its 16-bit field and every record is
    /// well-formed.
    pub open spec fn wf(self) -> bool {
        &&& self.vertex@.len() <= 0xFFFF
        &&& forall|j: int| 0 <= j < self.vertex@.len() ==> (#[trigger] self.vertex@[j]).wf()
    }

    /// The global norm that encoding writes: the preserved stored
    /// value if there was one, else the recomputed one.
    pub open spec fn spec_emitted_global_norm(self) -> i16 {
        match self.preserved_global_norm {
            Option::Some(g) => g,
            Option::None => spec_global_norm(self.vertex@),
        }
    }

    /// Encoded size: the statistics header plus the records; already
    /// a multiple of 8.
    pub open spec fn spec_size(self) -> int {
        0x18 + (self.vertex@.len() as int) * 0x10
    }

    /// The bytes written for the whole section: recomputed statistics
    /// (with the global-norm exception), then the records.
    pub open spec fn spec_bytes(self) -> Seq<u8> {
        spec_i16_bytes(spec_min_axis(self.vertex@, 0)) + spec_i16_bytes(
            spec_min_axis(self.vertex@, 1),
        ) + spec_i16_bytes(spec_min_axis(self.vertex@, 2)) + spec_i16_bytes(
            spec_max_axis(self.vertex@, 0),
        ) + spec_i16_bytes(spec_max_axis(self.vertex@, 1)) + spec_i16_bytes(
            spec_max_axis(self.vertex@, 2),
        ) + spec_i16_bytes(spec_center_axis(self.vertex@, 0)) + spec_i16_bytes(
            spec_center_axis(self.vertex@, 1),
        ) + spec_i16_bytes(spec_center_axis(self.vertex@, 2)) + spec_i16_bytes(
            spec_local_norm(self.vertex@),
        ) + spec_u16_bytes((self.vertex@.len() as int) as u16) + spec_i16_bytes(
            self.spec_emitted_global_norm(),
        ) + concat_map(self.vertex@, vtx_bytes())
    }

    /// The section's encoded length is a multiple of 8 and matches
    /// `spec_size`.
    pub proof fn lemma_size(self)
        requires
            self.wf(),
        ensures
            self.spec_size() % 8 == 0,
            self.spec_bytes().len() == self.spec_size(),
            self.spec_size() >= 0x18,
    {
        assert forall|i: int| 0 <= i < self.vertex@.len() implies (#[trigger] vtx_bytes()(
            self.vertex@[i],
        )).len() == 0x10 by {
            assert(self.vertex@[i].wf());
        }
        lemma_concat_map_fixed_len(self.vertex@, vtx_bytes(), 0x10);
        assert((self.vertex@.len() as int) * 0x10 % 8 == 0) by (nonlinear_arith);
    }

    /// Decodes the section. Fails with `Truncated` exactly when the
    /// buffer is shorter than its stored count declares. A stored
    /// global norm that disagrees with the recomputed one is kept in
    /// `preserved_global_norm`; one that agrees is dropped.
    #[verifier::rlimit(100)]
    pub fn try_from_be_bytes(bytes: &[u8]) -> (r: Result<BKVertexList, TryFromBEBytesError>)
        ensures
            r.is_ok() <==> bytes@.len() >= 0x18 && 0x18 + (be_u16_at(bytes@, 0x14) as int) * 0x10
                <= bytes@.len(),
            r matches Err(e) ==> e == TryFromBEBytesError::Truncated,
            r matches Ok(list) ==> {
                &&& list.wf()
                &&& list.vertex@.len() == be_u16_at(bytes@, 0x14) as int
                &&& list.spec_size() == 0x18 + (be_u16_at(bytes@, 0x14) as int) * 0x10
                &&& forall|j: int|
                    0 <= j < list.vertex@.len() ==> (#[trigger] list.vertex@[j]).parses_from(
                        bytes@.subrange(0x18 + j * 0x10, 0x18 + (j + 1) * 0x10),
                    )
                &&& list.preserved_global_norm == (if be_i16_at(bytes@, 0x16) == spec_global_norm(
                    list.vertex@,
                ) {
                    Option::<i16>::None
                } else {
                    Option::<i16>::Some(be_i16_at(bytes@, 0x16))
                })
                &&& (vertex_stats_exact(list, bytes@) ==> list.spec_bytes() =~= bytes@.subrange(
                    0,
                    list.spec_size(),
                ))
            },
    {
        let blen: usize = bytes.len();
        if blen < 0x18 {
            return Err(TryFromBEBytesError::Truncated);
        }
        let count: usize = read_u16(bytes, 0x14) as usize;
        if (blen - 0x18) / 0x10 < count {
            proof {
                assert((blen - 0x18) / 0x10 < count ==> 0x18 + count * 0x10 > blen)
                    by (nonlinear_arith);
            }
            return Err(TryFromBEBytesError::Truncated);
        }
        proof {
            assert((blen - 0x18) / 0x10 >= count ==> 0x18 + count * 0x10 <= blen)
                by (nonlinear_arith);
        }
        let ghost gb = bytes@;
        let mut vertex: Vec<Vtx> = Vec::new();
        let mut j: usize = 0;
        while j < count
            invariant
                j <= count,
                gb == bytes@,
                0x18 + count * 0x10 <= gb.len() <= usize::MAX,
                vertex@.len() == j,
                forall|x: int| 0 <= x < j ==> (#[trigger] vertex@[x]).wf(),
                forall|x: int|
                    0 <= x < j ==> (#[trigger] vertex@[x]).parses_from(
                        gb.subrange(0x18 + x * 0x10, 0x18 + (x + 1) * 0x10),
                    ),
                concat_map(vertex@, vtx_bytes()) =~= gb.subrange(0x18, 0x18 + j * 0x10),
            decreases count - j,
        {
            proof {
                assert(j * 0x10 + 0x10 <= count * 0x10) by (nonlinear_arith)
                    requires
                        j < count,
                ;
            }
            let chunk: &[u8] = vstd::slice::slice_subrange(
                bytes,
                0x18 + j * 0x10,
                0x18 + j * 0x10 + 0x10,
            );
            let v = Vtx::from_be_bytes(chunk);
            proof {
                v.lemma_roundtrip(chunk@);
                lemma_concat_map_push(vertex@, vtx_bytes(), v);
                assert(gb.subrange(0x18, 0x18 + (j + 1) * 0x10) =~= gb.subrange(0x18, 0x18 + (
                j as int) * 0x10) + gb.subrange(
                    0x18 + (j as int) * 0x10,
                    0x18 + ((j as int) + 1) * 0x10,
                ));
                assert(chunk@ =~= gb.subrange(0x18 + (j as int) * 0x10, 0x18 + ((j as int) + 1)
                    * 0x10));
            }
            vertex.push(v);
            j = j + 1;
        }
        let mut list = BKVertexList { vertex, preserved_global_norm: None };
        let stored: i16 = read_i16(bytes, 0x16);
        let recomputed: i16 = list.global_norm();
        if stored != recomputed {
            list.preserved_global_norm = Some(stored);
        }
        proof {
            if vertex_stats_exact(list, gb) {
                lemma_vertex_list_roundtrip(list, gb);
            }
        }
        Ok(list)
    }

    /// Decodes a section from a buffer already known to be large
    /// enough for its stored count.
    pub fn from_be_bytes(bytes: &[u8]) -> (r: BKVertexList)
        requires
            bytes@.len() >= 0x18,
            0x18 + (be_u16_at(bytes@, 0x14) as int) * 0x10 <= bytes@.len(),
        ensures
            r.wf(),
            r.vertex@.len() == be_u16_at(bytes@, 0x14) as int,
            r.spec_size() == 0x18 + (be_u16_at(bytes@, 0x14) as int) * 0x10,
            forall|j: int|
                0 <= j < r.vertex@.len() ==> (#[trigger] r.vertex@[j]).parses_from(
                    bytes@.subrange(0x18 + j * 0x10, 0x18 + (j + 1) * 0x10),
                ),
            r.preserved_global_norm == (if be_i16_at(bytes@, 0x16) == spec_global_norm(r.vertex@) {
                Option::<i16>::None
            } else {
                Option::<i16>::Some(be_i16_at(bytes@, 0x16))
            }),
            vertex_stats_exact(r, bytes@) ==> r.spec_bytes() =~= bytes@.subrange(0, r.spec_size()),
    {
        match BKVertexList::try_from_be_bytes(bytes) {
            Ok(list) => list,
            Err(e) => vstd::pervasive::unreached(),
        }
    }

    /// Component-wise minimum of the vertex positions.
    pub fn min(&self) -> (r: [i16; 3])
        ensures
            r[0] == spec_min_axis(self.vertex@, 0),
            r[1] == spec_min_axis(self.vertex@, 1),
            r[2] == spec_min_axis(self.vertex@, 2),
    {
        let n: usize = self.vertex.len();
        if n == 0 {
            return [0, 0, 0];
        }
        let mut m0: i16 = self.vertex[0].ob[0];
        let mut m1: i16 = self.vertex[0].ob[1];
        let mut m2: i16 = self.vertex[0].ob[2];
        let mut j: usize = 1;
        while j < n
            invariant
                1 <= j <= n,
                n == self.vertex@.len(),
                m0 == spec_min_axis(self.vertex@.subrange(0, j as int), 0),
                m1 == spec_min_axis(self.vertex@.subrange(0, j as int), 1),
                m2 == spec_min_axis(self.vertex@.subrange(0, j as int), 2),
            decreases n - j,
        {
            let v = &self.vertex[j];
            proof {
                assert(self.vertex@.subrange(0, j as int + 1).drop_last() =~= self.vertex@.subrange(
                    0,
                    j as int,
                ));
                assert(self.vertex@.subrange(0, j as int + 1).last() == self.vertex@[j as int]);
            }
            if v.ob[0] < m0 {
                m0 = v.ob[0];
            }
            if v.ob[1] < m1 {
                m1 = v.ob[1];
            }
            if v.ob[2] < m2 {
                m2 = v.ob[2];
            }
            j = j + 1;
        }
        proof {
            assert(self.vertex@.subrange(0, self.vertex@.len() as int) =~= self.vertex@);
        }
        [m0, m1, m2]
    }

    /// Component-wise maximum of the vertex positions.
    pub fn max(&self) -> (r: [i16; 3])
        ensures
            r[0] == spec_max_axis(self.vertex@, 0),
            r[1] == spec_max_axis(self.vertex@, 1),
            r[2] == spec_max_axis(self.vertex@, 2),
    {
        let n: usize = self.vertex.len();
        if n == 0 {
            return [0, 0, 0];
        }
        let mut m0: i16 = self.vertex[0].ob[0];
        let mut m1: i16 = self.vertex[0].ob[1];
        let mut m2: i16 = self.vertex[0].ob[2];
        let mut j: usize = 1;
        while j < n
            invariant
                1 <= j <= n,
                n == self.vertex@.len(),
                m0 == spec_max_axis(self.vertex@.subrange(0, j as int), 0),
                m1 == spec_max_axis(self.vertex@.subrange(0, j as int), 1),
                m2 == spec_max_axis(self.vertex@.subrange(0, j as int), 2),
            decreases n - j,
        {
            let v = &self.vertex[j];
            proof {
                assert(self.vertex@.subrange(0, j as int + 1).drop_last() =~= self.vertex@.subrange(
                    0,
                    j as int,
                ));
                assert(self.vertex@.subrange(0, j as int + 1).last() == self.vertex@[j as int]);
            }
            if v.ob[0] > m0 {
                m0 = v.ob[0];
            }
            if v.ob[1] > m1 {
                m1 = v.ob[1];
            }
            if v.ob[2] > m2 {
                m2 = v.ob[2];
            }
            j = j + 1;
        }
        proof {
            assert(self.vertex@.subrange(0, self.vertex@.len() as int) =~= self.vertex@);
        }
        [m0, m1, m2]
    }

    /// The truncating average of one maximum and minimum pair.
    fn center_axis(mx: i16, mn: i16) -> (r: i16)
        ensures
            r as int == avg_trunc(mx as int, mn as int),
    {
        let sum: i32 = (mx as i32) + (mn as i32);
        if sum >= 0 {
            (((sum as u32) / 2) as u16) as i16
        } else {
            let m: u32 = ((-sum) as u32) / 2;
            (-(m as i32)) as i16
        }
    }

    /// Component-wise centre of the bounding box.
    pub fn center(&self) -> (r: [i16; 3])
        ensures
            r[0] == spec_center_axis(self.vertex@, 0),
            r[1] == spec_center_axis(self.vertex@, 1),
            r[2] == spec_center_axis(self.vertex@, 2),
    {
        let mx = self.max();
        let mn = self.min();
        [
            Self::center_axis(mx[0], mn[0]),
            Self::center_axis(mx[1], mn[1]),
            Self::center_axis(mx[2], mn[2]),
        ]
    }

    /// The largest squared distance from the centre, over all
    /// vertices.
    fn max_dist_sq(&self, c0: i16, c1: i16, c2: i16) -> (r: u64)
        ensures
            r as int == spec_max_dist_sq(self.vertex@, c0 as int, c1 as int, c2 as int),
    {
        let n: usize = self.vertex.len();
        if n == 0 {
            return 0;
        }
        let mut acc: u64 = Self::one_dist_sq(&self.vertex[0], c0, c1, c2);
        let mut j: usize = 1;
        while j < n
            invariant
                1 <= j <= n,
                n == self.vertex@.len(),
                acc as int == spec_max_dist_sq(
                    self.vertex@.subrange(0, j as int),
                    c0 as int,
                    c1 as int,
                    c2 as int,
                ),
            decreases n - j,
        {
            proof {
                assert(self.vertex@.subrange(0, j as int + 1).drop_last() =~= self.vertex@.subrange(
                    0,
                    j as int,
                ));
                assert(self.vertex@.subrange(0, j as int + 1).last() == self.vertex@[j as int]);
            }
            let d: u64 = Self::one_dist_sq(&self.vertex[j], c0, c1, c2);
            if d > acc {
                acc = d;
            }
            j = j + 1;
        }
        proof {
            assert(self.vertex@.subrange(0, self.vertex@.len() as int) =~= self.vertex@);
        }
        acc
    }

    /// Squared distance of one vertex from `(c0, c1, c2)`.
    fn one_dist_sq(v: &Vtx, c0: i16, c1: i16, c2: i16) -> (r: u64)
        ensures
            r as int == dist_sq(*v, c0 as int, c1 as int, c2 as int),
    {
        let d0: i64 = (v.ob[0] as i64) - (c0 as i64);
        let d1: i64 = (v.ob[1] as i64) - (c1 as i64);
        let d2: i64 = (v.ob[2] as i64) - (c2 as i64);
        proof {
            assert(d0 * d0 >= 0 && d0 * d0 <= 0x10000 * 0x10000) by (nonlinear_arith)
                requires
                    -0x10000 <= d0 <= 0x10000,
            ;
            assert(d1 * d1 >= 0 && d1 * d1 <= 0x10000 * 0x10000) by (nonlinear_arith)
                requires
                    -0x10000 <= d1 <= 0x10000,
            ;
            assert(d2 * d2 >= 0 && d2 * d2 <= 0x10000 * 0x10000) by (nonlinear_arith)
                requires
                    -0x10000 <= d2 <= 0x10000,
            ;
        }
        let s: i64 = d0 * d0 + d1 * d1 + d2 * d2;
        s as u64
    }

    /// The truncated, saturated root of the largest squared distance
    /// from the centre.
    pub fn local_norm(&self) -> (r: i16)
        ensures
            r == spec_local_norm(self.vertex@),
    {
        let c = self.center();
        let m: u64 = self.max_dist_sq(c[0], c[1], c[2]);
        let root: u64 = isqrt64(m);
        proof {
            lemma_isqrt_exists(m as int);
            lemma_isqrt_unique(m as int, spec_isqrt(m as int), root as int);
        }
        if root > 0x7FFF {
            0x7FFF
        } else {
            root as i16
        }
    }

    /// The largest squared distance from the origin, over all
    /// vertices.
    fn max_norm_sq(&self) -> (r: u64)
        ensures
            r as int == spec_max_norm_sq(self.vertex@),
    {
        let n: usize = self.vertex.len();
        if n == 0 {
            return 0;
        }
        let mut acc: u64 = Self::one_dist_sq(&self.vertex[0], 0, 0, 0);
        proof {
            assert(dist_sq(self.vertex@[0], 0, 0, 0) == norm_sq(self.vertex@[0]));
        }
        let mut j: usize = 1;
        while j < n
            invariant
                1 <= j <= n,
                n == self.vertex@.len(),
                acc as int == spec_max_norm_sq(self.vertex@.subrange(0, j as int)),
            decreases n - j,
        {
            proof {
                assert(self.vertex@.subrange(0, j as int + 1).drop_last() =~= self.vertex@.subrange(
                    0,
                    j as int,
                ));
                assert(self.vertex@.subrange(0, j as int + 1).last() == self.vertex@[j as int]);
            }
            let d: u64 = Self::one_dist_sq(&self.vertex[j], 0, 0, 0);
            proof {
                assert(dist_sq(self.vertex@[j as int], 0, 0, 0) == norm_sq(
                    self.vertex@[j as int],
                ));
            }
            if d > acc {
                acc = d;
            }
            j = j + 1;
        }
        proof {
            assert(self.vertex@.subrange(0, self.vertex@.len() as int) =~= self.vertex@);
        }
        acc
    }

    /// The truncated, saturated root of the largest squared distance
    /// from the origin.
    pub fn global_norm(&self) -> (r: i16)
        ensures
            r == spec_global_norm(self.vertex@),
    {
        let m: u64 = self.max_norm_sq();
        let root: u64 = isqrt64(m);
        proof {
            lemma_isqrt_exists(m as int);
            lemma_isqrt_unique(m as int, spec_isqrt(m as int), root as int);
        }
        if root > 0x7FFF {
            0x7FFF
        } else {
            root as i16
        }
    }

    /// The statistics header that encoding writes: everything is
    /// recomputed from the live vertices except a preserved global
    /// norm.
    pub fn get_header(&self) -> (r: BKVertexListHeader)
        requires
            self.wf(),
        ensures
            r.min[0] == spec_min_axis(self.vertex@, 0) && r.min[1] == spec_min_axis(
                self.vertex@,
                1,
            ) && r.min[2] == spec_min_axis(self.vertex@, 2),
            r.max[0] == spec_max_axis(self.vertex@, 0) && r.max[1] == spec_max_axis(
                self.vertex@,
                1,
            ) && r.max[2] == spec_max_axis(self.vertex@, 2),
            r.center[0] == spec_center_axis(self.vertex@, 0) && r.center[1] == spec_center_axis(
                self.vertex@,
                1,
            ) && r.center[2] == spec_center_axis(self.vertex@, 2),
            r.local_norm == spec_local_norm(self.vertex@),
            r.len == u16_as_i16((self.vertex@.len() as int) as u16),
            r.global_norm == self.spec_emitted_global_norm(),
    {
        let g: i16 = match self.preserved_global_norm {
            Some(g) => g,
            None => self.global_norm(),
        };
        let n: u16 = self.vertex.len() as u16;
        let len_i16: i16 = if n < 0x8000 {
            n as i16
        } else {
            ((n as i32) - 0x10000) as i16
        };
        BKVertexListHeader {
            min: self.min(),
            max: self.max(),
            center: self.center(),
            local_norm: self.local_norm(),
            len: len_i16,
            global_norm: g,
        }
    }

    #[verifier::rlimit(100)]
    pub fn to_be_bytes(&self) -> (r: Vec<u8>)
        requires
            self.wf(),
        ensures
            r@ =~= self.spec_bytes(),
    {
        let hdr = self.get_header();
        let mut out: Vec<u8> = hdr.to_be_bytes();
        proof {
            lemma_i16_u16_roundtrip((self.vertex@.len() as int) as u16);
        }
        let ghost hb = out@;
        let mut j: usize = 0;
        while j < self.vertex.len()
            invariant
                j <= self.vertex@.len(),
                out@ =~= hb + concat_map(self.vertex@.subrange(0, j as int), vtx_bytes()),
            decreases self.vertex@.len() - j,
        {
            let mut eb: Vec<u8> = self.vertex[j].to_be_bytes();
            out.append(&mut eb);
            proof {
                lemma_concat_map_push(
                    self.vertex@.subrange(0, j as int),
                    vtx_bytes(),
                    self.vertex@[j as int],
                );
                assert(self.vertex@.subrange(0, j as int + 1) =~= self.vertex@.subrange(
                    0,
                    j as int,
                ).push(self.vertex@[j as int]));
            }
            j = j + 1;
        }
        proof {
            assert(self.vertex@.subrange(0, self.vertex@.len() as int) =~= self.vertex@);
            assert(out@ =~= self.spec_bytes());
        }
        out
    }

    /// Encoded size in bytes, always a multiple of 8.
    pub fn size(&self) -> (r: usize)
        requires
            self.wf(),
        ensures
            r == self.spec_size(),
    {
        0x18 + self.vertex.len() * 0x10
    }
}

} // verus!
