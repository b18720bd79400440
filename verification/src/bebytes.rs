//! Big-endian field access over byte sequences, together with the
//! sequence lemmas that the section codecs share: every multi-byte
//! integer in the container format is stored big-endian, and every
//! section is padded with zero bytes up to a multiple of 8.

use vstd::prelude::*;

verus! {

// ---------------------------------------------------------------
// spec views of big-endian fields
// ---------------------------------------------------------------

/// The unsigned 16-bit value stored big-endian at index `i` of `b`.
pub open spec fn be_u16_at(b: Seq<u8>, i: int) -> u16 {
    ((b[i] as int) * 0x100 + (b[i + 1] as int)) as u16
}

/// The unsigned 32-bit value stored big-endian at index `i` of `b`.
pub open spec fn be_u32_at(b: Seq<u8>, i: int) -> u32 {
    ((b[i] as int) * 0x1000000 + (b[i + 1] as int) * 0x10000 + (b[i + 2] as int) * 0x100 + (b[i
        + 3] as int)) as u32
}

/// Reinterprets a 16-bit pattern as a two's-complement signed value.
pub open spec fn u16_as_i16(u: u16) -> i16 {
    if u < 0x8000 {
        u as i16
    } else {
        (u - 0x10000) as i16
    }
}

/// The 16-bit pattern of a two's-complement signed value.
pub open spec fn i16_as_u16(v: i16) -> u16 {
    if v >= 0 {
        v as u16
    } else {
        (v + 0x10000) as u16
    }
}

/// The signed 16-bit value stored big-endian at index `i` of `b`.
pub open spec fn be_i16_at(b: Seq<u8>, i: int) -> i16 {
    u16_as_i16(be_u16_at(b, i))
}

/// The two big-endian bytes of an unsigned 16-bit value.
pub open spec fn spec_u16_bytes(v: u16) -> Seq<u8> {
    seq![(v as int / 0x100) as u8, (v as int % 0x100) as u8]
}

/// The four big-endian bytes of an unsigned 32-bit value.
pub open spec fn spec_u32_bytes(v: u32) -> Seq<u8> {
    seq![
        (v as int / 0x1000000) as u8,
        (v as int / 0x10000 % 0x100) as u8,
        (v as int / 0x100 % 0x100) as u8,
        (v as int % 0x100) as u8,
    ]
}

/// The two big-endian bytes of a signed 16-bit value.
pub open spec fn spec_i16_bytes(v: i16) -> Seq<u8> {
    spec_u16_bytes(i16_as_u16(v))
}

/// Reinterprets an 8-bit pattern as a two's-complement signed value.
pub open spec fn u8_as_i8(u: u8) -> i8 {
    if u < 0x80 {
        u as i8
    } else {
        (u - 0x100) as i8
    }
}

/// The 8-bit pattern of a two's-complement signed value.
pub open spec fn i8_as_u8(v: i8) -> u8 {
    if v >= 0 {
        v as u8
    } else {
        (v + 0x100) as u8
    }
}

/// The unsigned 64-bit value stored big-endian at index `i` of `b`.
pub open spec fn be_u64_at(b: Seq<u8>, i: int) -> u64 {
    ((be_u32_at(b, i) as int) * 0x100000000 + (be_u32_at(b, i + 4) as int)) as u64
}

/// The eight big-endian bytes of an unsigned 64-bit value.
pub open spec fn spec_u64_bytes(v: u64) -> Seq<u8> {
    spec_u32_bytes((v as int / 0x100000000) as u32) + spec_u32_bytes((v as int % 0x100000000) as u32)
}

/// A run of `n` zero bytes, as written for alignment padding.
pub open spec fn zeros(n: int) -> Seq<u8> {
    Seq::new(n as nat, |i: int| 0u8)
}

/// `n` rounded up to the next multiple of 8.
pub open spec fn spec_align8(n: int) -> int {
    ((n + 7) / 8) * 8
}

// ---------------------------------------------------------------
// lemmas about the spec views
// ---------------------------------------------------------------

pub proof fn lemma_u16_value(hi: u8, lo: u8)
    ensures
        spec_u16_bytes(((hi as int) * 0x100 + (lo as int)) as u16) =~= seq![hi, lo],
{
    let x = hi as int;
    let y = lo as int;
    assert((x * 0x100 + y) / 0x100 == x && (x * 0x100 + y) % 0x100 == y) by (nonlinear_arith)
        requires
            0 <= x < 0x100,
            0 <= y < 0x100,
    ;
}

/// Writing back the 16-bit field read at `i` reproduces the two source bytes.
pub proof fn lemma_u16_bytes_at(b: Seq<u8>, i: int)
    requires
        0 <= i,
        i + 2 <= b.len(),
    ensures
        spec_u16_bytes(be_u16_at(b, i)) =~= b.subrange(i, i + 2),
{
    lemma_u16_value(b[i], b[i + 1]);
}

/// Writing back the 32-bit field read at `i` reproduces the four source bytes.
pub proof fn lemma_u32_bytes_at(b: Seq<u8>, i: int)
    requires
        0 <= i,
        i + 4 <= b.len(),
    ensures
        spec_u32_bytes(be_u32_at(b, i)) =~= b.subrange(i, i + 4),
{
    let x0 = b[i] as int;
    let x1 = b[i + 1] as int;
    let x2 = b[i + 2] as int;
    let x3 = b[i + 3] as int;
    let v = x0 * 0x1000000 + x1 * 0x10000 + x2 * 0x100 + x3;
    assert(v / 0x1000000 == x0 && v / 0x10000 % 0x100 == x1 && v / 0x100 % 0x100 == x2 && v % 0x100
        == x3) by (nonlinear_arith)
        requires
            v == x0 * 0x1000000 + x1 * 0x10000 + x2 * 0x100 + x3,
            0 <= x0 < 0x100,
            0 <= x1 < 0x100,
            0 <= x2 < 0x100,
            0 <= x3 < 0x100,
    ;
}

/// The two 16-bit reinterpretations are inverse to each other.
pub proof fn lemma_i16_u16_roundtrip(u: u16)
    ensures
        i16_as_u16(u16_as_i16(u)) == u,
{
}

/// Writing back the signed 16-bit field read at `i` reproduces the source bytes.
pub proof fn lemma_i16_bytes_at(b: Seq<u8>, i: int)
    requires
        0 <= i,
        i + 2 <= b.len(),
    ensures
        spec_i16_bytes(be_i16_at(b, i)) =~= b.subrange(i, i + 2),
{
    lemma_i16_u16_roundtrip(be_u16_at(b, i));
    lemma_u16_bytes_at(b, i);
}

/// Writing back the 64-bit field read at `i` reproduces the eight
/// source bytes.
pub proof fn lemma_u64_bytes_at(b: Seq<u8>, i: int)
    requires
        0 <= i,
        i + 8 <= b.len(),
    ensures
        spec_u64_bytes(be_u64_at(b, i)) =~= b.subrange(i, i + 8),
{
    let hi = be_u32_at(b, i) as int;
    let lo = be_u32_at(b, i + 4) as int;
    let v = hi * 0x100000000 + lo;
    assert(v / 0x100000000 == hi && v % 0x100000000 == lo) by (nonlinear_arith)
        requires
            v == hi * 0x100000000 + lo,
            0 <= hi < 0x100000000,
            0 <= lo < 0x100000000,
    ;
    lemma_u32_bytes_at(b, i);
    lemma_u32_bytes_at(b, i + 4);
}

/// Alignment padding never removes bytes, adds fewer than 8, and the
/// result is a multiple of 8.
pub proof fn lemma_align8(n: int)
    requires
        n >= 0,
    ensures
        spec_align8(n) % 8 == 0,
        n <= spec_align8(n) < n + 8,
{
    let q = (n + 7) / 8;
    let r = (n + 7) % 8;
    vstd::arithmetic::div_mod::lemma_fundamental_div_mod(n + 7, 8);
    assert(q * 8 % 8 == 0) by (nonlinear_arith);
    assert(0 <= r < 8) by (nonlinear_arith)
        requires
            r == (n + 7) % 8,
            n >= 0,
    ;
}

/// The distance from `n` up to the next multiple of 8, written out.
pub proof fn lemma_align8_pad(n: int)
    requires
        n >= 0,
    ensures
        spec_align8(n) == n + (if n % 8 == 0 {
            0int
        } else {
            8 - n % 8
        }),
{
    let q = n / 8;
    let r = n % 8;
    vstd::arithmetic::div_mod::lemma_fundamental_div_mod(n, 8);
    if r == 0 {
        assert((8 * q + 7) / 8 == q) by (nonlinear_arith);
        assert(spec_align8(n) == q * 8) by (nonlinear_arith)
            requires
                n == 8 * q,
                (8 * q + 7) / 8 == q,
        ;
    } else {
        assert(0 < r < 8);
        assert((8 * q + r + 7) / 8 == q + 1) by (nonlinear_arith)
            requires
                0 < r < 8,
        ;
        assert(spec_align8(n) == (q + 1) * 8) by (nonlinear_arith)
            requires
                n == 8 * q + r,
                (8 * q + r + 7) / 8 == q + 1,
        ;
        assert((q + 1) * 8 == n + 8 - r) by (nonlinear_arith)
            requires
                n == 8 * q + r,
        ;
    }
}

/// A subrange splits at any interior point.
pub proof fn lemma_subrange_cat(b: Seq<u8>, i: int, j: int, k: int)
    requires
        0 <= i <= j <= k <= b.len(),
    ensures
        b.subrange(i, k) =~= b.subrange(i, j) + b.subrange(j, k),
{
}

/// Taking a prefix of a suffix is a middle slice.
pub proof fn lemma_subrange_of_subrange(b: Seq<u8>, off: int, end: int, sz: int)
    requires
        0 <= off,
        0 <= sz,
        off + sz <= end <= b.len(),
    ensures
        b.subrange(off, end).subrange(0, sz) =~= b.subrange(off, off + sz),
{
}

// ---------------------------------------------------------------
// concatenation of per-element encodings
// ---------------------------------------------------------------

/// The concatenation of `f` applied to every element of `s`, in order.
/// Every section body is the concatenation of its element records.
pub open spec fn concat_map<T>(s: Seq<T>, f: spec_fn(T) -> Seq<u8>) -> Seq<u8>
    decreases s.len(),
{
    if s.len() == 0 {
        Seq::empty()
    } else {
        f(s[0]) + concat_map(s.drop_first(), f)
    }
}

pub proof fn lemma_concat_map_push<T>(s: Seq<T>, f: spec_fn(T) -> Seq<u8>, x: T)
    ensures
        concat_map(s.push(x), f) =~= concat_map(s, f) + f(x),
    decreases s.len(),
{
    if s.len() == 0 {
        assert(s.push(x).drop_first() =~= Seq::<T>::empty());
        assert(s.push(x)[0] == x);
        assert(concat_map(s.push(x), f) == f(x) + concat_map(Seq::<T>::empty(), f));
        assert(concat_map(Seq::<T>::empty(), f) == Seq::<u8>::empty());
        assert(concat_map(s.push(x), f) =~= f(x));
        assert(concat_map(s, f) + f(x) =~= f(x));
    } else {
        assert(s.push(x).drop_first() =~= s.drop_first().push(x));
        lemma_concat_map_push(s.drop_first(), f, x);
        assert(s.push(x)[0] == s[0]);
        assert(concat_map(s.push(x), f) =~= f(s[0]) + (concat_map(s.drop_first(), f) + f(x)));
        assert(f(s[0]) + (concat_map(s.drop_first(), f) + f(x)) =~= (f(s[0]) + concat_map(
            s.drop_first(),
            f,
        )) + f(x));
    }
}

/// When every element encodes to `w` bytes, the body has `n * w` bytes.
pub proof fn lemma_concat_map_fixed_len<T>(s: Seq<T>, f: spec_fn(T) -> Seq<u8>, w: int)
    requires
        forall|i: int| 0 <= i < s.len() ==> (#[trigger] f(s[i])).len() == w,
    ensures
        concat_map(s, f).len() == s.len() * w,
    decreases s.len(),
{
    if s.len() == 0 {
    } else {
        lemma_concat_map_fixed_len(s.drop_first(), f, w);
        assert((s.len() - 1) * w + w == s.len() * w) by (nonlinear_arith);
    }
}

/// `concat_map` splits at any element boundary.
pub proof fn lemma_concat_map_split<T>(s: Seq<T>, f: spec_fn(T) -> Seq<u8>, i: int)
    requires
        0 <= i <= s.len(),
    ensures
        concat_map(s, f) =~= concat_map(s.subrange(0, i), f) + concat_map(
            s.subrange(i, s.len() as int),
            f,
        ),
    decreases s.len(),
{
    if i == 0 {
        assert(s.subrange(0, 0) =~= Seq::<T>::empty());
        assert(s.subrange(0, s.len() as int) =~= s);
    } else {
        let rest = s.drop_first();
        lemma_concat_map_split(rest, f, i - 1);
        assert(s.subrange(0, i).drop_first() =~= rest.subrange(0, i - 1));
        assert(s.subrange(0, i).len() != 0);
        assert(s.subrange(0, i)[0] == s[0]);
        assert(concat_map(s.subrange(0, i), f) == f(s[0]) + concat_map(
            rest.subrange(0, i - 1),
            f,
        ));
        assert(rest.subrange(i - 1, rest.len() as int) =~= s.subrange(i, s.len() as int));
    }
}

// ---------------------------------------------------------------
// exec readers and writers
// ---------------------------------------------------------------

/// Reads the big-endian 16-bit field at `i`.
pub fn read_u16(b: &[u8], i: usize) -> (r: u16)
    requires
        i + 2 <= b@.len(),
    ensures
        r == be_u16_at(b@, i as int),
{
    (b[i] as u16) * 0x100 + (b[i + 1] as u16)
}

/// Reads the big-endian 32-bit field at `i`.
pub fn read_u32(b: &[u8], i: usize) -> (r: u32)
    requires
        i + 4 <= b@.len(),
    ensures
        r == be_u32_at(b@, i as int),
{
    (b[i] as u32) * 0x1000000 + (b[i + 1] as u32) * 0x10000 + (b[i + 2] as u32) * 0x100 + (b[i
        + 3] as u32)
}

/// Reads the big-endian signed 16-bit field at `i`.
pub fn read_i16(b: &[u8], i: usize) -> (r: i16)
    requires
        i + 2 <= b@.len(),
    ensures
        r == be_i16_at(b@, i as int),
{
    let u: u16 = read_u16(b, i);
    if u < 0x8000 {
        u as i16
    } else {
        ((u as i32) - 0x10000) as i16
    }
}

/// Appends the two big-endian bytes of `v`.
pub fn push_u16(out: &mut Vec<u8>, v: u16)
    ensures
        final (out)@ =~= old(out)@ + spec_u16_bytes(v),
{
    proof {
        assert(v as int / 0x100 < 0x100 && v as int % 0x100 < 0x100) by (nonlinear_arith)
            requires
                0 <= v < 0x10000,
        ;
    }
    out.push((v / 0x100) as u8);
    out.push((v % 0x100) as u8);
}

/// Appends the four big-endian bytes of `v`.
pub fn push_u32(out: &mut Vec<u8>, v: u32)
    ensures
        final (out)@ =~= old(out)@ + spec_u32_bytes(v),
{
    proof {
        assert(v as int / 0x1000000 < 0x100 && v as int / 0x10000 % 0x100 < 0x100 && v as int
            / 0x100 % 0x100 < 0x100) by (nonlinear_arith)
            requires
                0 <= v < 0x100000000,
        ;
    }
    out.push((v / 0x1000000) as u8);
    out.push((v / 0x10000 % 0x100) as u8);
    out.push((v / 0x100 % 0x100) as u8);
    out.push((v % 0x100) as u8);
}

/// Reads the big-endian 64-bit field at `i`.
pub fn read_u64(b: &[u8], i: usize) -> (r: u64)
    requires
        i + 8 <= b@.len(),
    ensures
        r == be_u64_at(b@, i as int),
{
    let n: usize = b.len();
    let hi: u32 = read_u32(b, i);
    let lo: u32 = read_u32(b, i + 4);
    (hi as u64) * 0x100000000 + (lo as u64)
}

/// Appends the eight big-endian bytes of `v`.
pub fn push_u64(out: &mut Vec<u8>, v: u64)
    ensures
        final (out)@ =~= old(out)@ + spec_u64_bytes(v),
{
    proof {
        assert(v as int / 0x100000000 < 0x100000000) by (nonlinear_arith)
            requires
                0 <= v < 0x10000000000000000,
        ;
    }
    push_u32(out, (v / 0x100000000) as u32);
    push_u32(out, (v % 0x100000000) as u32);
}

/// Appends the two big-endian bytes of the signed value `v`.
pub fn push_i16(out: &mut Vec<u8>, v: i16)
    ensures
        final (out)@ =~= old(out)@ + spec_i16_bytes(v),
{
    let u: u16 = if v >= 0 {
        v as u16
    } else {
        ((v as i32) + 0x10000) as u16
    };
    push_u16(out, u);
}

/// Appends zero bytes until `out` is `target` bytes long.
pub fn pad_to(out: &mut Vec<u8>, target: usize)
    requires
        old(out)@.len() <= target,
    ensures
        final (out)@ =~= old(out)@ + zeros(target - old(out)@.len()),
{
    let ghost start = out@;
    let mut i: usize = out.len();
    while i < target
        invariant
            start.len() <= i <= target,
            out@ =~= start + zeros(i - start.len()),
        decreases target - i,
    {
        out.push(0u8);
        i = i + 1;
        proof {
            assert(out@ =~= start + zeros(i - start.len()));
        }
    }
}

/// Appends a copy of `src` to `out`.
pub fn push_all(out: &mut Vec<u8>, src: &Vec<u8>)
    ensures
        final (out)@ =~= old(out)@ + src@,
{
    let ghost start = out@;
    let mut i: usize = 0;
    while i < src.len()
        invariant
            i <= src@.len(),
            out@ =~= start + src@.subrange(0, i as int),
        decreases src@.len() - i,
    {
        out.push(src[i]);
        i = i + 1;
        proof {
            assert(out@ =~= start + src@.subrange(0, i as int));
        }
    }
    proof {
        assert(src@.subrange(0, src@.len() as int) =~= src@);
    }
}

/// Copies the byte range `i..j` out of a borrowed buffer.
pub fn copy_range(b: &[u8], i: usize, j: usize) -> (r: Vec<u8>)
    requires
        i <= j <= b@.len(),
    ensures
        r@ == b@.subrange(i as int, j as int),
{
    vstd::slice::slice_to_vec(vstd::slice::slice_subrange(b, i, j))
}

/// Rounds `n` up to the next multiple of 8.
pub fn align8(n: usize) -> (r: usize)
    requires
        n + 7 <= usize::MAX,
    ensures
        r == spec_align8(n as int),
        n <= r,
{
    proof {
        lemma_align8(n as int);
    }
    (n + 7) / 8 * 8
}

} // verus!
