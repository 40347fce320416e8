//! Big-endian and little-endian numbers in byte sequences.
use vstd::prelude::*;

verus! {

/// The four bytes of `n`, most significant first.
pub open spec fn be32(n: nat) -> Seq<u8> {
    seq![
        ((n / 0x100_0000) % 0x100) as u8,
        ((n / 0x1_0000) % 0x100) as u8,
        ((n / 0x100) % 0x100) as u8,
        (n % 0x100) as u8,
    ]
}

/// The eight bytes of `n`, most significant first.
pub open spec fn be64(n: nat) -> Seq<u8> {
    be32(n / 0x1_0000_0000) + be32(n % 0x1_0000_0000)
}

/// The number that the first four bytes of `b` stand for, most significant first.
pub open spec fn un_be32(b: Seq<u8>) -> nat {
    (b[0] * 0x100_0000 + b[1] * 0x1_0000 + b[2] * 0x100 + b[3]) as nat
}

/// The number that the first eight bytes of `b` stand for, most significant first.
pub open spec fn un_be64(b: Seq<u8>) -> nat {
    un_be32(b) * 0x1_0000_0000 + un_be32(b.skip(4))
}

/// The number that the first four bytes of `b` stand for, least significant first.
pub open spec fn un_le32(b: Seq<u8>) -> nat {
    (b[3] * 0x100_0000 + b[2] * 0x1_0000 + b[1] * 0x100 + b[0]) as nat
}

/// The number that the first eight bytes of `b` stand for, least significant first.
pub open spec fn un_le64(b: Seq<u8>) -> nat {
    un_le32(b.skip(4)) * 0x1_0000_0000 + un_le32(b)
}

/// Reading four bytes gives back the number that was written.
pub proof fn be32_round_trip(n: nat, rest: Seq<u8>)
    requires
        n < 0x1_0000_0000,
    ensures
        un_be32(be32(n) + rest) == n,
        be32(n).len() == 4,
{
    let b = be32(n) + rest;
    assert(b[0] == (n / 0x100_0000) % 0x100);
    assert(b[1] == (n / 0x1_0000) % 0x100);
    assert(b[2] == (n / 0x100) % 0x100);
    assert(b[3] == n % 0x100);
}

/// Reading eight bytes gives back the number that was written.
pub proof fn be64_round_trip(n: nat, rest: Seq<u8>)
    requires
        n < 0x1_0000_0000_0000_0000,
    ensures
        un_be64(be64(n) + rest) == n,
        be64(n).len() == 8,
{
    let hi = n / 0x1_0000_0000;
    let lo = n % 0x1_0000_0000;
    be32_round_trip(hi, be32(lo) + rest);
    be32_round_trip(lo, rest);
    assert(be64(n) + rest =~= be32(hi) + (be32(lo) + rest));
    assert((be64(n) + rest).skip(4) =~= be32(lo) + rest);
}

/// Appends the four bytes of `n`, most significant first.
pub fn push_be32(out: &mut Vec<u8>, n: u32)
    ensures
        final(out)@ =~= old(out)@ + be32(n as nat),
{
    out.push(((n / 0x100_0000) % 0x100) as u8);
    out.push(((n / 0x1_0000) % 0x100) as u8);
    out.push(((n / 0x100) % 0x100) as u8);
    out.push((n % 0x100) as u8);
}

/// Appends the eight bytes of `n`, most significant first.
pub fn push_be64(out: &mut Vec<u8>, n: u64)
    ensures
        final(out)@ =~= old(out)@ + be64(n as nat),
{
    push_be32(out, (n / 0x1_0000_0000) as u32);
    push_be32(out, (n % 0x1_0000_0000) as u32);
}

/// The number that four bytes at `pos` stand for, most significant first.
pub fn read_be32(b: &[u8], pos: usize) -> (n: u32)
    requires
        pos + 4 <= b@.len(),
    ensures
        n == un_be32(b@.skip(pos as int)),
{
    b[pos] as u32 * 0x100_0000 + b[pos + 1] as u32 * 0x1_0000 + b[pos + 2] as u32 * 0x100
        + b[pos + 3] as u32
}

/// The number that eight bytes at `pos` stand for, most significant first.
pub fn read_be64(b: &[u8], pos: usize) -> (n: u64)
    requires
        pos + 8 <= b@.len(),
    ensures
        n == un_be64(b@.skip(pos as int)),
{
    let _len: usize = b.len();
    assert(b@.skip(pos as int).skip(4) =~= b@.skip(pos + 4));
    read_be32(b, pos) as u64 * 0x1_0000_0000 + read_be32(b, pos + 4) as u64
}

/// The number that four bytes at `pos` stand for, least significant first.
pub fn read_le32(b: &[u8], pos: usize) -> (n: u32)
    requires
        pos + 4 <= b@.len(),
    ensures
        n == un_le32(b@.skip(pos as int)),
{
    let _len: usize = b.len();
    b[pos + 3] as u32 * 0x100_0000 + b[pos + 2] as u32 * 0x1_0000 + b[pos + 1] as u32 * 0x100
        + b[pos] as u32
}

/// The number that eight bytes at `pos` stand for, least significant first.
pub fn read_le64(b: &[u8], pos: usize) -> (n: u64)
    requires
        pos + 8 <= b@.len(),
    ensures
        n == un_le64(b@.skip(pos as int)),
{
    let _len: usize = b.len();
    assert(b@.skip(pos as int).skip(4) =~= b@.skip(pos + 4));
    read_le32(b, pos + 4) as u64 * 0x1_0000_0000 + read_le32(b, pos) as u64
}

/// Appends the bytes of `more`.
pub fn push_all(out: &mut Vec<u8>, more: &[u8])
    ensures
        final(out)@ =~= old(out)@ + more@,
{
    let mut i: usize = 0;
    while i < more.len()
        invariant
            i <= more@.len(),
            out@ =~= old(out)@ + more@.take(i as int),
        decreases more@.len() - i,
    {
        out.push(more[i]);
        i = i + 1;
    }
    assert(more@.take(more@.len() as int) =~= more@);
}

/// The bytes from `from` to `to`.
pub fn bytes_between(b: &[u8], from: usize, to: usize) -> (v: Vec<u8>)
    requires
        from <= to <= b@.len(),
    ensures
        v@ =~= b@.subrange(from as int, to as int),
{
    let mut v: Vec<u8> = Vec::new();
    let mut i: usize = from;
    while i < to
        invariant
            from <= i <= to <= b@.len(),
            v@ =~= b@.subrange(from as int, i as int),
        decreases to - i,
    {
        v.push(b[i]);
        i = i + 1;
    }
    v
}

/// Whether two byte sequences are the same.
pub fn same_bytes(a: &[u8], b: &[u8]) -> (r: bool)
    ensures
        r == (a@ == b@),
{
    if a.len() != b.len() {
        return false;
    }
    let mut i: usize = 0;
    while i < a.len()
        invariant
            i <= a@.len(),
            a@.len() == b@.len(),
            forall|k: int| 0 <= k < i ==> a@[k] == b@[k],
        decreases a@.len() - i,
    {
        if a[i] != b[i] {
            assert(a@[i as int] != b@[i as int]);
            return false;
        }
        i = i + 1;
    }
    assert(a@ =~= b@);
    true
}

} // verus!
