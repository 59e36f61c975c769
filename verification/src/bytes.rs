//! Big- and little-endian byte layouts of integers.
use vstd::prelude::*;

verus! {

/// `v.to_be_bytes()` for a `u16`.
pub open spec fn be16(v: u16) -> Seq<u8> {
    seq![(v / 0x100) as u8, (v % 0x100) as u8]
}

/// `v.to_be_bytes()` for a `u32`.
pub open spec fn be32(v: u32) -> Seq<u8> {
    seq![
        (v / 0x100_0000) as u8,
        (v / 0x1_0000 % 0x100) as u8,
        (v / 0x100 % 0x100) as u8,
        (v % 0x100) as u8,
    ]
}

/// `v.to_be_bytes()` for a `u64`.
pub open spec fn be64(v: u64) -> Seq<u8> {
    be32((v / 0x1_0000_0000) as u32) + be32((v % 0x1_0000_0000) as u32)
}

/// `v.to_le_bytes()` for a `u16`.
pub open spec fn le16(v: u16) -> Seq<u8> {
    seq![(v % 0x100) as u8, (v / 0x100) as u8]
}

/// `v.to_le_bytes()` for a `u64`.
pub open spec fn le64(v: u64) -> Seq<u8> {
    be64(v).reverse()
}

/// The big-endian number in `b`.
pub open spec fn from_be(b: Seq<u8>) -> nat
    decreases b.len(),
{
    if b.len() == 0 {
        0
    } else {
        from_be(b.drop_last()) * 256 + (b.last() as nat)
    }
}

pub proof fn lemma_from_be16(v: u16)
    ensures
        from_be(be16(v)) == v,
{
    let b = be16(v);
    assert(b.drop_last() =~= seq![b[0]]);
    assert(seq![b[0]].drop_last() =~= Seq::<u8>::empty());
    assert(from_be(Seq::<u8>::empty()) == 0);
    assert(seq![b[0]].last() == b[0]);
    assert(from_be(seq![b[0]]) == b[0] as nat);
    assert(from_be(b) == (b[0] as nat) * 256 + (b[1] as nat));
}

pub proof fn lemma_from_be32(v: u32)
    ensures
        from_be(be32(v)) == v,
{
    let b = be32(v);
    assert(b.drop_last() =~= seq![b[0], b[1], b[2]]);
    assert(seq![b[0], b[1], b[2]].drop_last() =~= seq![b[0], b[1]]);
    assert(seq![b[0], b[1]].drop_last() =~= seq![b[0]]);
    assert(seq![b[0]].drop_last() =~= Seq::<u8>::empty());
    assert(from_be(Seq::<u8>::empty()) == 0);
    assert(seq![b[0]].last() == b[0]);
    assert(from_be(seq![b[0]]) == b[0] as nat);
    assert(from_be(seq![b[0], b[1]]) == (b[0] as nat) * 256 + (b[1] as nat));
    assert(from_be(seq![b[0], b[1], b[2]]) == ((b[0] as nat) * 256 + (b[1] as nat)) * 256 + (
    b[2] as nat));
    assert(from_be(b) == (((b[0] as nat) * 256 + (b[1] as nat)) * 256 + (b[2] as nat)) * 256 + (
    b[3] as nat));
}

pub fn put_be16(out: &mut Vec<u8>, v: u16)
    ensures
        final(out)@ == old(out)@ + be16(v),
{
    out.push((v / 0x100) as u8);
    out.push((v % 0x100) as u8);
    assert(out@ =~= old(out)@ + be16(v));
}

pub fn put_le16(out: &mut Vec<u8>, v: u16)
    ensures
        final(out)@ == old(out)@ + le16(v),
{
    out.push((v % 0x100) as u8);
    out.push((v / 0x100) as u8);
    assert(out@ =~= old(out)@ + le16(v));
}

pub fn put_be32(out: &mut Vec<u8>, v: u32)
    ensures
        final(out)@ == old(out)@ + be32(v),
{
    out.push((v / 0x100_0000) as u8);
    out.push((v / 0x1_0000 % 0x100) as u8);
    out.push((v / 0x100 % 0x100) as u8);
    out.push((v % 0x100) as u8);
    assert(out@ =~= old(out)@ + be32(v));
}

pub fn put_be64(out: &mut Vec<u8>, v: u64)
    ensures
        final(out)@ == old(out)@ + be64(v),
{
    put_be32(out, (v / 0x1_0000_0000) as u32);
    put_be32(out, (v % 0x1_0000_0000) as u32);
    assert(out@ =~= old(out)@ + be64(v));
}

pub fn put_le64(out: &mut Vec<u8>, v: u64)
    ensures
        final(out)@ == old(out)@ + le64(v),
{
    let mut tmp: Vec<u8> = Vec::new();
    put_be64(&mut tmp, v);
    let mut i: usize = 8;
    let ghost o = out@;
    assert(tmp@.len() == 8);
    while i > 0
        invariant
            i <= 8,
            tmp@ == be64(v),
            tmp@.len() == 8,
            out@ == o + be64(v).reverse().take(8 - i),
        decreases i,
    {
        i -= 1;
        out.push(tmp[i]);
        assert(be64(v).reverse().take(8 - i) =~= be64(v).reverse().take(8 - i - 1).push(tmp@[i as int]));
    }
    assert(be64(v).reverse().take(8) =~= le64(v));
}

pub fn put_all(out: &mut Vec<u8>, s: &[u8])
    ensures
        final(out)@ == old(out)@ + s@,
{
    let ghost o = out@;
    let mut i: usize = 0;
    while i < s.len()
        invariant
            i <= s@.len(),
            out@ == o + s@.take(i as int),
        decreases s@.len() - i,
    {
        out.push(s[i]);
        i += 1;
        assert(s@.take(i as int) =~= s@.take(i - 1).push(s@[i - 1]));
    }
    assert(s@.take(i as int) =~= s@);
}

/// The `u16` in `b[i..i+2]`, big-endian.
pub fn get_be16(b: &[u8], i: usize) -> (r: u16)
    requires
        i + 2 <= b@.len(),
    ensures
        be16(r) == b@.subrange(i as int, i + 2),
        r == from_be(b@.subrange(i as int, i + 2)),
{
    let r = (b[i] as u16) * 0x100 + (b[i + 1] as u16);
    assert(be16(r) =~= b@.subrange(i as int, i + 2));
    proof {
        lemma_from_be16(r);
    }
    r
}

proof fn lemma_be32_parts(b0: u8, b1: u8, b2: u8, b3: u8)
    ensures
        ({
            let r = (b0 as nat) * 0x100_0000 + (b1 as nat) * 0x1_0000 + (b2 as nat) * 0x100 + (
            b3 as nat);
            &&& r <= u32::MAX
            &&& r / 0x100_0000 == b0
            &&& r / 0x1_0000 % 0x100 == b1
            &&& r / 0x100 % 0x100 == b2
            &&& r % 0x100 == b3
        }),
{
    let r = (b0 as nat) * 0x100_0000 + (b1 as nat) * 0x1_0000 + (b2 as nat) * 0x100 + (b3 as nat);
    assert(r <= u32::MAX && r / 0x100_0000 == b0 && r / 0x1_0000 % 0x100 == b1 && r / 0x100 % 0x100
        == b2 && r % 0x100 == b3) by (nonlinear_arith)
        requires
            r == (b0 as nat) * 0x100_0000 + (b1 as nat) * 0x1_0000 + (b2 as nat) * 0x100 + (
            b3 as nat),
            b0 < 256,
            b1 < 256,
            b2 < 256,
            b3 < 256,
    ;
}

proof fn lemma_be64_parts(hi: u32, lo: u32)
    ensures
        (hi as nat) * 0x1_0000_0000 + (lo as nat) <= u64::MAX,
        ((hi as nat) * 0x1_0000_0000 + (lo as nat)) / 0x1_0000_0000 == hi,
        ((hi as nat) * 0x1_0000_0000 + (lo as nat)) % 0x1_0000_0000 == lo,
{
    assert((hi as nat) * 0x1_0000_0000 + (lo as nat) <= u64::MAX && ((hi as nat) * 0x1_0000_0000 + (
    lo as nat)) / 0x1_0000_0000 == hi && ((hi as nat) * 0x1_0000_0000 + (lo as nat)) % 0x1_0000_0000
        == lo) by (nonlinear_arith)
        requires
            hi < 0x1_0000_0000,
            lo < 0x1_0000_0000,
    ;
}

/// The `u32` in `b[i..i+4]`, big-endian.
pub fn get_be32(b: &[u8], i: usize) -> (r: u32)
    requires
        i + 4 <= b@.len(),
    ensures
        be32(r) == b@.subrange(i as int, i + 4),
        r == from_be(b@.subrange(i as int, i + 4)),
{
    let b0 = b[i];
    let b1 = b[i + 1];
    let b2 = b[i + 2];
    let b3 = b[i + 3];
    proof {
        lemma_be32_parts(b0, b1, b2, b3);
    }
    let r = (b0 as u32) * 0x100_0000 + (b1 as u32) * 0x1_0000 + (b2 as u32) * 0x100 + (b3 as u32);
    assert(be32(r) =~= b@.subrange(i as int, i + 4));
    proof {
        lemma_from_be32(r);
    }
    r
}

/// The `u64` in `b[i..i+8]`, big-endian.
pub fn get_be64(b: &[u8], i: usize) -> (r: u64)
    requires
        i + 8 <= b@.len(),
    ensures
        be64(r) == b@.subrange(i as int, i + 8),
{
    let n = b.len();
    let hi = get_be32(b, i);
    let lo = get_be32(b, i + 4);
    proof {
        lemma_be64_parts(hi, lo);
    }
    let r = (hi as u64) * 0x1_0000_0000 + (lo as u64);
    assert((r / 0x1_0000_0000) as u32 == hi && (r % 0x1_0000_0000) as u32 == lo);
    assert(be64(r) =~= b@.subrange(i as int, i + 8));
    r
}

} // verus!
