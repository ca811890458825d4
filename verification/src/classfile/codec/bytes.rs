//! Numbers as the class file holds them: the most significant byte first.

use vstd::prelude::*;

verus! {

/// Whether `s` holds `bytes` from `at` on.
pub open spec fn holds_at(s: Seq<u8>, at: int, bytes: Seq<u8>) -> bool {
    0 <= at && at + bytes.len() <= s.len() && s.subrange(at, at + bytes.len()) == bytes
}

/// A sequence holds two parts, one after the other, where it holds the
/// first part and then the second.
pub proof fn lemma_holds_at_concat(s: Seq<u8>, at: int, a: Seq<u8>, b: Seq<u8>)
    ensures
        holds_at(s, at, a + b) <==> holds_at(s, at, a) && holds_at(s, at + a.len(), b),
{
    if holds_at(s, at, a + b) {
        assert(s.subrange(at, at + a.len()) =~= (a + b).subrange(0, a.len() as int));
        assert((a + b).subrange(0, a.len() as int) =~= a);
        assert(s.subrange(at + a.len(), at + a.len() + b.len()) =~= (a + b).subrange(
            a.len() as int,
            (a.len() + b.len()) as int,
        ));
        assert((a + b).subrange(a.len() as int, (a.len() + b.len()) as int) =~= b);
    }
    if holds_at(s, at, a) && holds_at(s, at + a.len(), b) {
        assert(s.subrange(at, at + a.len() + b.len()) =~= s.subrange(at, at + a.len())
            + s.subrange(at + a.len(), at + a.len() + b.len()));
    }
}

/// Every sequence holds itself from its start on.
pub proof fn lemma_holds_itself(s: Seq<u8>)
    ensures
        holds_at(s, 0, s),
{
    assert(s.subrange(0, s.len() as int) =~= s);
}

/// The two bytes of `v`.
pub open spec fn be16(v: u16) -> Seq<u8> {
    seq![(v / 256) as u8, (v % 256) as u8]
}

/// The four bytes of `v`.
pub open spec fn be32(v: u32) -> Seq<u8> {
    seq![
        (v / 0x100_0000) as u8,
        (v / 0x1_0000 % 256) as u8,
        (v / 0x100 % 256) as u8,
        (v % 256) as u8,
    ]
}

/// The byte of `s` at `at` and the place after it.
pub open spec fn parsed_u8(s: Seq<u8>, at: int) -> Option<(u8, int)> {
    if 0 <= at && at + 1 <= s.len() {
        Some((s[at], at + 1))
    } else {
        None
    }
}

/// The number that the two bytes of `s` from `at` on spell, and the place
/// after them.
pub open spec fn parsed_u16(s: Seq<u8>, at: int) -> Option<(u16, int)> {
    if 0 <= at && at + 2 <= s.len() {
        Some(((s[at] * 256 + s[at + 1]) as u16, at + 2))
    } else {
        None
    }
}

/// The number that the four bytes of `s` from `at` on spell, and the place
/// after them.
pub open spec fn parsed_u32(s: Seq<u8>, at: int) -> Option<(u32, int)> {
    if 0 <= at && at + 4 <= s.len() {
        Some(
            (
                (((s[at] * 256 + s[at + 1]) * 256 + s[at + 2]) * 256 + s[at + 3]) as u32,
                at + 4,
            ),
        )
    } else {
        None
    }
}

/// The `n` bytes of `s` from `at` on, and the place after them.
pub open spec fn parsed_bytes(s: Seq<u8>, at: int, n: int) -> Option<(Seq<u8>, int)> {
    if 0 <= at && 0 <= n && at + n <= s.len() {
        Some((s.subrange(at, at + n), at + n))
    } else {
        None
    }
}

/// Where a sequence holds the byte `v`, `v` is parsed from it.
pub proof fn lemma_parsed_u8(s: Seq<u8>, at: int, v: u8)
    requires
        holds_at(s, at, seq![v]),
    ensures
        parsed_u8(s, at) == Some((v, at + 1)),
{
    assert(s.subrange(at, at + 1)[0] == v);
}

/// Where a sequence holds the two bytes of `v`, `v` is parsed from it.
pub proof fn lemma_parsed_u16(s: Seq<u8>, at: int, v: u16)
    requires
        holds_at(s, at, be16(v)),
    ensures
        parsed_u16(s, at) == Some((v, at + 2)),
{
    let part = s.subrange(at, at + 2);
    assert(part[0] == be16(v)[0]);
    assert(part[1] == be16(v)[1]);
}

/// Where a sequence holds the four bytes of `v`, `v` is parsed from it.
pub proof fn lemma_parsed_u32(s: Seq<u8>, at: int, v: u32)
    requires
        holds_at(s, at, be32(v)),
    ensures
        parsed_u32(s, at) == Some((v, at + 4)),
{
    let part = s.subrange(at, at + 4);
    assert(part[0] == be32(v)[0]);
    assert(part[1] == be32(v)[1]);
    assert(part[2] == be32(v)[2]);
    assert(part[3] == be32(v)[3]);
}

/// Where a sequence holds `bytes`, `bytes` is parsed from it.
pub proof fn lemma_parsed_bytes(s: Seq<u8>, at: int, bytes: Seq<u8>)
    requires
        holds_at(s, at, bytes),
    ensures
        parsed_bytes(s, at, bytes.len() as int) == Some((bytes, at + bytes.len())),
{
}

/// The byte of `s` at `at`.
pub fn read_u8(s: &[u8], at: usize) -> (r: Option<(u8, usize)>)
    ensures
        match r {
            Some((v, to)) => parsed_u8(s@, at as int) == Some((v, to as int)) && to <= s@.len(),
            None => parsed_u8(s@, at as int) is None,
        },
{
    if at < s.len() {
        Some((s[at], at + 1))
    } else {
        None
    }
}

/// The number that the two bytes of `s` from `at` on spell.
pub fn read_u16(s: &[u8], at: usize) -> (r: Option<(u16, usize)>)
    ensures
        match r {
            Some((v, to)) => parsed_u16(s@, at as int) == Some((v, to as int)) && to <= s@.len(),
            None => parsed_u16(s@, at as int) is None,
        },
{
    if at <= s.len() && s.len() - at >= 2 {
        let hi = s[at] as u16;
        let lo = s[at + 1] as u16;
        Some((hi * 256 + lo, at + 2))
    } else {
        None
    }
}

/// The number that the four bytes of `s` from `at` on spell.
pub fn read_u32(s: &[u8], at: usize) -> (r: Option<(u32, usize)>)
    ensures
        match r {
            Some((v, to)) => parsed_u32(s@, at as int) == Some((v, to as int)) && to <= s@.len(),
            None => parsed_u32(s@, at as int) is None,
        },
{
    if at <= s.len() && s.len() - at >= 4 {
        let b0 = s[at] as u32;
        let b1 = s[at + 1] as u32;
        let b2 = s[at + 2] as u32;
        let b3 = s[at + 3] as u32;
        Some((((b0 * 256 + b1) * 256 + b2) * 256 + b3, at + 4))
    } else {
        None
    }
}

/// The `n` bytes of `s` from `at` on.
pub fn read_bytes(s: &[u8], at: usize, n: usize) -> (r: Option<(Vec<u8>, usize)>)
    ensures
        match r {
            Some((v, to)) => parsed_bytes(s@, at as int, n as int) == Some((v@, to as int)) && to
                <= s@.len(),
            None => parsed_bytes(s@, at as int, n as int) is None,
        },
{
    if at <= s.len() && s.len() - at >= n {
        assert(s@.len() == s.len());
        let mut v: Vec<u8> = Vec::new();
        let mut i: usize = 0;
        while i < n
            invariant
                s@.len() <= usize::MAX,
                at + n <= s@.len(),
                i <= n,
                v@ == s@.subrange(at as int, at + i),
            decreases n - i,
        {
            v.push(s[at + i]);
            assert(v@ =~= s@.subrange(at as int, at + i + 1));
            i = i + 1;
        }
        Some((v, at + n))
    } else {
        None
    }
}

/// Appends the two bytes of `v` to `out`.
pub fn write_u16(out: &mut Vec<u8>, v: u16)
    ensures
        final(out)@ == old(out)@ + be16(v),
{
    out.push((v / 256) as u8);
    out.push((v % 256) as u8);
    assert(out@ =~= old(out)@ + be16(v));
}

/// Appends the four bytes of `v` to `out`.
pub fn write_u32(out: &mut Vec<u8>, v: u32)
    ensures
        final(out)@ == old(out)@ + be32(v),
{
    out.push((v / 0x100_0000) as u8);
    out.push((v / 0x1_0000 % 256) as u8);
    out.push((v / 0x100 % 256) as u8);
    out.push((v % 256) as u8);
    assert(out@ =~= old(out)@ + be32(v));
}

/// Appends `bytes` to `out`.
pub fn write_bytes(out: &mut Vec<u8>, bytes: &[u8])
    ensures
        final(out)@ == old(out)@ + bytes@,
{
    let mut i: usize = 0;
    assert(out@ =~= old(out)@ + bytes@.take(0));
    while i < bytes.len()
        invariant
            i <= bytes@.len(),
            out@ == old(out)@ + bytes@.take(i as int),
        decreases bytes@.len() - i,
    {
        out.push(bytes[i]);
        assert(out@ =~= old(out)@ + bytes@.take(i + 1));
        i = i + 1;
    }
    assert(bytes@.take(bytes@.len() as int) =~= bytes@);
}

} // verus!
