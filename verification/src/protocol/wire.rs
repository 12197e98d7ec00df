//! Big-endian integers and byte runs as they appear on the wire.

use vstd::prelude::*;

verus! {

/// The four big-endian bytes of `n`.
pub open spec fn be32(n: u32) -> Seq<u8> {
    seq![
        (n / 0x100_0000) as u8,
        (n / 0x1_0000 % 0x100) as u8,
        (n / 0x100 % 0x100) as u8,
        (n % 0x100) as u8,
    ]
}

/// The value of the four big-endian bytes of `b` that start at offset `i`.
pub open spec fn be32_at(b: Seq<u8>, i: int) -> int {
    b[i] * 0x100_0000 + b[i + 1] * 0x1_0000 + b[i + 2] * 0x100 + b[i + 3]
}

/// Reading back the four bytes that `be32` wrote gives the number again,
/// whatever follows them.
pub proof fn lemma_be32_roundtrip(n: u32, prefix: Seq<u8>, rest: Seq<u8>)
    ensures
        be32_at(prefix + be32(n) + rest, prefix.len() as int) == n,
{
    let b = prefix + be32(n) + rest;
    let i = prefix.len() as int;
    assert(b[i] == be32(n)[0]);
    assert(b[i + 1] == be32(n)[1]);
    assert(b[i + 2] == be32(n)[2]);
    assert(b[i + 3] == be32(n)[3]);
    assert((n / 0x100_0000) < 0x100);
    assert((n / 0x100_0000) * 0x100_0000 + (n / 0x1_0000 % 0x100) * 0x1_0000
        + (n / 0x100 % 0x100) * 0x100 + n % 0x100 == n);
}

/// Appends the four big-endian bytes of `n`.
pub fn push_be32(out: &mut Vec<u8>, n: u32)
    ensures
        final(out)@ == old(out)@ + be32(n),
{
    out.push((n / 0x100_0000) as u8);
    out.push((n / 0x1_0000 % 0x100) as u8);
    out.push((n / 0x100 % 0x100) as u8);
    out.push((n % 0x100) as u8);
    assert(final(out)@ =~= old(out)@ + be32(n));
}

/// Reads the four big-endian bytes at offset `i`.
pub fn read_be32(b: &[u8], i: usize) -> (n: u32)
    requires
        i + 4 <= b@.len(),
    ensures
        n as int == be32_at(b@, i as int),
{
    let b0 = b[i] as u32;
    let b1 = b[i + 1] as u32;
    let b2 = b[i + 2] as u32;
    let b3 = b[i + 3] as u32;
    b0 * 0x100_0000 + b1 * 0x1_0000 + b2 * 0x100 + b3
}

/// Appends every byte of `data`.
pub fn push_all(out: &mut Vec<u8>, data: &[u8])
    ensures
        final(out)@ == old(out)@ + data@,
{
    let mut i: usize = 0;
    while i < data.len()
        invariant
            i <= data@.len(),
            out@ == old(out)@ + data@.subrange(0, i as int),
        decreases data@.len() - i,
    {
        out.push(data[i]);
        i = i + 1;
        assert(out@ =~= old(out)@ + data@.subrange(0, i as int));
    }
    assert(data@.subrange(0, data@.len() as int) =~= data@);
}

/// A copy of `data[from..to]`.
pub fn copy_range(data: &[u8], from: usize, to: usize) -> (r: Vec<u8>)
    requires
        from <= to <= data@.len(),
    ensures
        r@ == data@.subrange(from as int, to as int),
{
    let mut r: Vec<u8> = Vec::with_capacity(to - from);
    let mut i: usize = from;
    while i < to
        invariant
            from <= i <= to <= data@.len(),
            r@ == data@.subrange(from as int, i as int),
        decreases to - i,
    {
        r.push(data[i]);
        i = i + 1;
        assert(r@ =~= data@.subrange(from as int, i as int));
    }
    r
}

/// The byte runs of `fs`, one after another.
pub open spec fn joined(fs: Seq<Seq<u8>>) -> Seq<u8>
    decreases fs.len(),
{
    if fs.len() == 0 {
        Seq::empty()
    } else {
        joined(fs.drop_last()) + fs.last()
    }
}

/// The first `i + 1` runs joined are the first `i` joined, then run `i`.
pub proof fn lemma_joined_take_next(fs: Seq<Seq<u8>>, i: int)
    requires
        0 <= i < fs.len(),
    ensures
        joined(fs.take(i + 1)) == joined(fs.take(i)) + fs[i],
{
    assert(fs.take(i + 1).drop_last() =~= fs.take(i));
}

/// The first `i` runs joined begin the first `j` runs joined.
pub proof fn lemma_joined_prefix(fs: Seq<Seq<u8>>, i: int, j: int)
    requires
        0 <= i <= j <= fs.len(),
    ensures
        joined(fs.take(i)).len() <= joined(fs.take(j)).len(),
        joined(fs.take(j)).take(joined(fs.take(i)).len() as int) == joined(fs.take(i)),
    decreases j - i,
{
    if i < j {
        lemma_joined_prefix(fs, i, j - 1);
        lemma_joined_take_next(fs, j - 1);
        let fi = joined(fs.take(i));
        let fj1 = joined(fs.take(j - 1));
        assert((fj1 + fs[j - 1]).take(fi.len() as int) =~= fj1.take(fi.len() as int));
    } else {
        assert(joined(fs.take(j)).take(joined(fs.take(i)).len() as int) =~= joined(fs.take(i)));
    }
}

} // verus!
