//! Fixed-width integers as bytes, in both byte orders.
use vstd::prelude::*;
use vstd::slice::slice_subrange;

verus! {

/// The little-endian bytes of `x`.
pub open spec fn le32(x: u32) -> Seq<u8> {
    seq![(x % 256) as u8, (x / 256 % 256) as u8, (x / 65536 % 256) as u8, (x / 16777216) as u8]
}

/// The number whose little-endian bytes are the first four of `s`.
pub open spec fn from_le32(s: Seq<u8>) -> u32 {
    (s[0] + 256 * s[1] + 65536 * s[2] + 16777216 * s[3]) as u32
}

/// The big-endian bytes of `x`.
pub open spec fn be16(x: u16) -> Seq<u8> {
    seq![(x / 256) as u8, (x % 256) as u8]
}

/// The number whose big-endian bytes are the first two of `s`.
pub open spec fn from_be16(s: Seq<u8>) -> u16 {
    (256 * s[0] + s[1]) as u16
}

/// The big-endian bytes of `x`.
pub open spec fn be32(x: u32) -> Seq<u8> {
    seq![(x / 16777216) as u8, (x / 65536 % 256) as u8, (x / 256 % 256) as u8, (x % 256) as u8]
}

/// The number whose big-endian bytes are the first four of `s`.
pub open spec fn from_be32(s: Seq<u8>) -> u32 {
    (16777216 * s[0] + 65536 * s[1] + 256 * s[2] + s[3]) as u32
}

/// The big-endian bytes of `x`: the high half, then the low half.
pub open spec fn be64(x: u64) -> Seq<u8> {
    be32((x / 0x1_0000_0000) as u32) + be32((x % 0x1_0000_0000) as u32)
}

/// The number whose big-endian bytes are the first eight of `s`.
pub open spec fn from_be64(s: Seq<u8>) -> u64 {
    (0x1_0000_0000 * from_be32(s) + from_be32(s.skip(4))) as u64
}

/// Reading four little-endian bytes gives back the number that was written.
pub proof fn lemma_le32_round_trip(x: u32)
    ensures
        le32(x).len() == 4,
        from_le32(le32(x)) == x,
{
}

/// Writing the number read from four little-endian bytes gives the bytes back.
#[verifier::spinoff_prover]
#[verifier::rlimit(40)]
pub proof fn lemma_le32_bytes(s: Seq<u8>)
    requires
        s.len() == 4,
    ensures
        le32(from_le32(s)) == s,
{
    let n = s[0] + 256 * s[1] + 65536 * s[2] + 16777216 * s[3];
    assert(0 <= n <= u32::MAX);
    let x = from_le32(s);
    assert(x == n);
    assert(x % 256 == s[0]);
    assert(x / 256 == s[1] + 256 * s[2] + 65536 * s[3]);
    assert(x / 65536 == s[2] + 256 * s[3]);
    assert(le32(x) =~= s);
}

/// Reading two big-endian bytes gives back the number that was written.
pub proof fn lemma_be16_round_trip(x: u16)
    ensures
        be16(x).len() == 2,
        from_be16(be16(x)) == x,
{
}

/// Reading four big-endian bytes gives back the number that was written.
pub proof fn lemma_be32_round_trip(x: u32)
    ensures
        be32(x).len() == 4,
        from_be32(be32(x)) == x,
{
}

/// Reading eight big-endian bytes gives back the number that was written.
pub proof fn lemma_be64_round_trip(x: u64)
    ensures
        be64(x).len() == 8,
        from_be64(be64(x)) == x,
{
    let hi = (x / 0x1_0000_0000) as u32;
    let lo = (x % 0x1_0000_0000) as u32;
    lemma_be32_round_trip(hi);
    lemma_be32_round_trip(lo);
    assert(be64(x).skip(4) =~= be32(lo));
    assert(from_be32(be64(x)) == from_be32(be32(hi)));
    assert(0x1_0000_0000 * hi + lo == x);
}

/// A number written in front of `rest` reads back, and `rest` follows.
pub proof fn lemma_be32_prefix(x: u32, rest: Seq<u8>)
    ensures
        (be32(x) + rest).len() == 4 + rest.len(),
        from_be32((be32(x) + rest).take(4)) == x,
        (be32(x) + rest).skip(4) == rest,
{
    lemma_be32_round_trip(x);
    assert((be32(x) + rest).take(4) =~= be32(x));
    assert((be32(x) + rest).skip(4) =~= rest);
}

/// A number written in front of `rest` reads back, and `rest` follows.
pub proof fn lemma_be64_prefix(x: u64, rest: Seq<u8>)
    ensures
        (be64(x) + rest).len() == 8 + rest.len(),
        from_be64((be64(x) + rest).take(8)) == x,
        (be64(x) + rest).skip(8) == rest,
{
    lemma_be64_round_trip(x);
    assert((be64(x) + rest).take(8) =~= be64(x));
    assert((be64(x) + rest).skip(8) =~= rest);
}

/// Two numbers with the same little-endian bytes are equal.
pub proof fn lemma_le32_injective(x: u32, y: u32)
    requires
        le32(x) == le32(y),
    ensures
        x == y,
{
    lemma_le32_round_trip(x);
    lemma_le32_round_trip(y);
}

/// Appends the little-endian bytes of `x`.
pub fn push_le32(buf: &mut Vec<u8>, x: u32)
    ensures
        final(buf)@ == old(buf)@ + le32(x),
{
    buf.push((x % 256) as u8);
    buf.push((x / 256 % 256) as u8);
    buf.push((x / 65536 % 256) as u8);
    buf.push((x / 16777216) as u8);
    assert(buf@ =~= old(buf)@ + le32(x));
}

/// The number in the four little-endian bytes at `at`.
pub fn read_le32(bytes: &[u8], at: usize) -> (x: u32)
    requires
        at + 4 <= bytes@.len(),
    ensures
        x == from_le32(bytes@.subrange(at as int, at + 4)),
{
    bytes[at] as u32 + 256 * bytes[at + 1] as u32 + 65536 * bytes[at + 2] as u32 + 16777216 * bytes[at + 3] as u32
}

/// Appends the big-endian bytes of `x`.
pub fn push_be32(buf: &mut Vec<u8>, x: u32)
    ensures
        final(buf)@ == old(buf)@ + be32(x),
{
    buf.push((x / 16777216) as u8);
    buf.push((x / 65536 % 256) as u8);
    buf.push((x / 256 % 256) as u8);
    buf.push((x % 256) as u8);
    assert(buf@ =~= old(buf)@ + be32(x));
}

/// The number in the four big-endian bytes at `at`.
pub fn read_be32(bytes: &[u8], at: usize) -> (x: u32)
    requires
        at + 4 <= bytes@.len(),
    ensures
        x == from_be32(bytes@.subrange(at as int, at + 4)),
{
    16777216 * bytes[at] as u32 + 65536 * bytes[at + 1] as u32 + 256 * bytes[at + 2] as u32 + bytes[at + 3] as u32
}

/// Appends the big-endian bytes of `x`.
pub fn push_be64(buf: &mut Vec<u8>, x: u64)
    ensures
        final(buf)@ == old(buf)@ + be64(x),
{
    push_be32(buf, (x / 0x1_0000_0000) as u32);
    push_be32(buf, (x % 0x1_0000_0000) as u32);
    assert(buf@ =~= old(buf)@ + be64(x));
}

/// The number in the eight big-endian bytes at `at`.
pub fn read_be64(bytes: &[u8], at: usize) -> (x: u64)
    requires
        at + 8 <= bytes@.len(),
    ensures
        x == from_be64(bytes@.subrange(at as int, at + 8)),
{
    let n: usize = bytes.len();
    assert(at + 8 <= n);
    let hi: u32 = read_be32(bytes, at);
    let lo: u32 = read_be32(bytes, at + 4);
    let ghost s = bytes@.subrange(at as int, at + 8);
    assert(bytes@.subrange(at + 4, at + 8) =~= s.skip(4));
    assert(from_be32(s) == hi);
    0x1_0000_0000 * hi as u64 + lo as u64
}

/// Appends the bytes of `more`.
pub fn push_all(buf: &mut Vec<u8>, more: &[u8])
    ensures
        final(buf)@ == old(buf)@ + more@,
{
    let mut i: usize = 0;
    while i < more.len()
        invariant
            i <= more@.len(),
            buf@ == old(buf)@ + more@.take(i as int),
        decreases more@.len() - i,
    {
        buf.push(more[i]);
        i = i + 1;
        assert(more@.take(i as int) =~= more@.take(i - 1).push(more@[i - 1]));
        assert(old(buf)@ + more@.take(i as int) =~= (old(buf)@ + more@.take(i - 1)).push(more@[i - 1]));
    }
    assert(more@.take(more@.len() as int) =~= more@);
}

/// The bytes `bytes[from..to]`.
pub fn copy_range(bytes: &[u8], from: usize, to: usize) -> (v: Vec<u8>)
    requires
        from <= to <= bytes@.len(),
    ensures
        v@ == bytes@.subrange(from as int, to as int),
{
    let mut v: Vec<u8> = Vec::new();
    push_all(&mut v, slice_subrange(bytes, from, to));
    assert(v@ =~= bytes@.subrange(from as int, to as int));
    v
}

/// The `N` bytes at `at`, as an array.
pub fn array_at<const N: usize>(bytes: &[u8], at: usize) -> (r: [u8; N])
    requires
        at + N <= bytes@.len(),
    ensures
        r@ == bytes@.subrange(at as int, at + N),
{
    let n: usize = bytes.len();
    let mut out: [u8; N] = [0u8; N];
    let mut i: usize = 0;
    while i < N
        invariant
            i <= N,
            at + N <= bytes@.len(),
            bytes@.len() == n,
            forall|j: int| 0 <= j < i ==> out@[j] == bytes@[at + j],
        decreases N - i,
    {
        out[i] = bytes[at + i];
        i = i + 1;
    }
    assert(out@ =~= bytes@.subrange(at as int, at + N));
    out
}

/// Whether two byte sequences are the same.
pub fn same_bytes(a: &[u8], b: &[u8]) -> (r: bool)
    ensures
        r == (a@ == b@),
{
    if a.len() != b.len() {
        return false;
    }
    let mut i: usize = 0;
    while i < a.len()
        invariant
            a@.len() == b@.len(),
            i <= a@.len(),
            forall|j: int| 0 <= j < i ==> a@[j] == b@[j],
        decreases a@.len() - i,
    {
        if a[i] != b[i] {
            return false;
        }
        i = i + 1;
    }
    assert(a@ =~= b@);
    true
}

/// In a vault file the low byte of a number comes first, on the wire the high one.
pub proof fn the_bytes_of_a_number_are_in_order(x: u16, y: u32, z: u64)
    ensures
        be16(x).len() == 2 && x == 256 * be16(x)[0] + be16(x)[1],
        be32(y).len() == 4 && y == 0x100_0000 * be32(y)[0] + 0x1_0000 * be32(y)[1] + 0x100 * be32(y)[2] + be32(y)[3],
        le32(y).len() == 4 && y == 0x100_0000 * le32(y)[3] + 0x1_0000 * le32(y)[2] + 0x100 * le32(y)[1] + le32(y)[0],
        be64(z).len() == 8 && z == 0x1_0000_0000 * from_be32(be64(z).take(4)) + from_be32(be64(z).skip(4)),
{
    lemma_be32_round_trip((z / 0x1_0000_0000) as u32);
    lemma_be32_round_trip((z % 0x1_0000_0000) as u32);
    assert(be64(z).take(4) =~= be32((z / 0x1_0000_0000) as u32));
    assert(be64(z).skip(4) =~= be32((z % 0x1_0000_0000) as u32));
}

} // verus!
