//! Big-endian integers on the wire.

use vstd::prelude::*;

verus! {

/// The two bytes of a 16-bit integer, most significant first.
pub open spec fn be16(x: u16) -> Seq<u8> {
    seq![(x / 0x100) as u8, (x % 0x100) as u8]
}

/// The four bytes of a 32-bit integer, most significant first.
pub open spec fn be32(x: u32) -> Seq<u8> {
    seq![
        (x / 0x100_0000) as u8,
        (x / 0x1_0000 % 0x100) as u8,
        (x / 0x100 % 0x100) as u8,
        (x % 0x100) as u8,
    ]
}

/// The 16-bit integer at offset `at`.
pub open spec fn be16_at(s: Seq<u8>, at: int) -> u16 {
    (s[at] * 0x100 + s[at + 1]) as u16
}

/// The 32-bit integer at offset `at`.
pub open spec fn be32_at(s: Seq<u8>, at: int) -> u32 {
    (s[at] * 0x100_0000 + s[at + 1] * 0x1_0000 + s[at + 2] * 0x100 + s[at + 3]) as u32
}

/// Reading at an offset gives back what was written there.
pub proof fn lemma_be16_round_trip(s: Seq<u8>, at: int, x: u16)
    requires
        0 <= at,
        at + 2 <= s.len(),
    ensures
        s.subrange(at, at + 2) == be16(x) <==> be16_at(s, at) == x,
{
    let w = s.subrange(at, at + 2);
    assert(w[0] == s[at] && w[1] == s[at + 1]);
    if w == be16(x) {
        assert(s[at] == (x / 0x100) as u8 && s[at + 1] == (x % 0x100) as u8);
    }
    if be16_at(s, at) == x {
        assert(w =~= be16(x));
    }
}

/// Reading at an offset gives back what was written there.
pub proof fn lemma_be32_round_trip(s: Seq<u8>, at: int, x: u32)
    requires
        0 <= at,
        at + 4 <= s.len(),
    ensures
        s.subrange(at, at + 4) == be32(x) <==> be32_at(s, at) == x,
{
    let w = s.subrange(at, at + 4);
    assert(w[0] == s[at] && w[1] == s[at + 1] && w[2] == s[at + 2] && w[3] == s[at + 3]);
    if w == be32(x) {
        assert(s[at] == (x / 0x100_0000) as u8);
        assert(s[at + 1] == (x / 0x1_0000 % 0x100) as u8);
        assert(s[at + 2] == (x / 0x100 % 0x100) as u8);
        assert(s[at + 3] == (x % 0x100) as u8);
        assert(x == x / 0x100_0000 * 0x100_0000 + x / 0x1_0000 % 0x100 * 0x1_0000 + x / 0x100
            % 0x100 * 0x100 + x % 0x100);
    }
    if be32_at(s, at) == x {
        assert(w =~= be32(x));
    }
}

/// Writes a 16-bit integer behind the first `at` bytes, which stay as they are.
pub fn put_u16<const N: usize>(out: &mut [u8; N], at: usize, x: u16)
    requires
        at + 2 <= N,
    ensures
        final(out)@.subrange(0, at + 2) == old(out)@.subrange(0, at as int) + be16(x),
        forall|i: int| at + 2 <= i < N ==> final(out)@[i] == old(out)@[i],
{
    out[at] = (x / 0x100) as u8;
    out[at + 1] = (x % 0x100) as u8;
}

/// Writes a 32-bit integer behind the first `at` bytes, which stay as they are.
pub fn put_u32<const N: usize>(out: &mut [u8; N], at: usize, x: u32)
    requires
        at + 4 <= N,
    ensures
        final(out)@.subrange(0, at + 4) == old(out)@.subrange(0, at as int) + be32(x),
        forall|i: int| at + 4 <= i < N ==> final(out)@[i] == old(out)@[i],
{
    out[at] = (x / 0x100_0000) as u8;
    out[at + 1] = (x / 0x1_0000 % 0x100) as u8;
    out[at + 2] = (x / 0x100 % 0x100) as u8;
    out[at + 3] = (x % 0x100) as u8;
}

/// Reads the 16-bit integer at offset `at`.
pub fn get_u16(buf: &[u8], at: usize) -> (x: u16)
    requires
        at + 2 <= buf@.len(),
    ensures
        x == be16_at(buf@, at as int),
{
    buf[at] as u16 * 0x100 + buf[at + 1] as u16
}

/// Reads the 32-bit integer at offset `at`.
pub fn get_u32(buf: &[u8], at: usize) -> (x: u32)
    requires
        at + 4 <= buf@.len(),
    ensures
        x == be32_at(buf@, at as int),
{
    buf[at] as u32 * 0x100_0000 + buf[at + 1] as u32 * 0x1_0000 + buf[at + 2] as u32 * 0x100
        + buf[at + 3] as u32
}

/// A number is read with its most significant byte first.
pub proof fn law_numbers_are_read_big_endian(buf: &[u8], at: usize, x: u16, y: u32)
    requires
        call_ensures(get_u16, (buf, at), x),
        call_ensures(get_u32, (buf, at), y),
    ensures
        x == buf@[at as int] * 0x100 + buf@[at + 1],
        y == buf@[at as int] * 0x100_0000 + buf@[at + 1] * 0x1_0000 + buf@[at + 2] * 0x100
            + buf@[at + 3],
{
}

/// A 16-bit number is written with its most significant byte first, and no other
/// byte is touched.
pub proof fn law_short_numbers_are_written_big_endian<const N: usize>(
    out: &mut [u8; N],
    at: usize,
    x: u16,
    i: int,
)
    requires
        at + 2 <= N,
        call_ensures(put_u16::<N>, (out, at, x), ()),
    ensures
        final(out)@[at as int] * 0x100 + final(out)@[at + 1] == x,
        0 <= i < at || at + 2 <= i < N ==> final(out)@[i] == old(out)@[i],
{
    let s = final(out)@.subrange(0, at + 2);
    let before = old(out)@.subrange(0, at as int);
    assert(s == before + be16(x));
    assert(final(out)@[at as int] == s[at as int] && final(out)@[at + 1] == s[at + 1]);
    if 0 <= i < at {
        assert(final(out)@[i] == s[i] && s[i] == before[i]);
    }
}

/// A 32-bit number is written in the same way.
pub proof fn law_long_numbers_are_written_big_endian<const N: usize>(
    out: &mut [u8; N],
    at: usize,
    x: u32,
    i: int,
)
    requires
        at + 4 <= N,
        call_ensures(put_u32::<N>, (out, at, x), ()),
    ensures
        final(out)@[at as int] * 0x100_0000 + final(out)@[at + 1] * 0x1_0000 + final(out)@[at + 2]
            * 0x100 + final(out)@[at + 3] == x,
        0 <= i < at || at + 4 <= i < N ==> final(out)@[i] == old(out)@[i],
{
    let s = final(out)@.subrange(0, at + 4);
    let before = old(out)@.subrange(0, at as int);
    assert(s == before + be32(x));
    assert(final(out)@[at as int] == s[at as int] && final(out)@[at + 1] == s[at + 1]);
    assert(final(out)@[at + 2] == s[at + 2] && final(out)@[at + 3] == s[at + 3]);
    assert(x == x / 0x100_0000 * 0x100_0000 + x / 0x1_0000 % 0x100 * 0x1_0000 + x / 0x100 % 0x100
        * 0x100 + x % 0x100);
    if 0 <= i < at {
        assert(final(out)@[i] == s[i] && s[i] == before[i]);
    }
}

} // verus!
