//! Little-endian fields inside byte buffers.
use vstd::prelude::*;

verus! {

/// The number that the four bytes starting at `at` spell, least significant byte first.
pub open spec fn u32_at(b: Seq<u8>, at: int) -> u32 {
    (b[at] + 0x100 * b[at + 1] + 0x1_0000 * b[at + 2] + 0x100_0000 * b[at + 3]) as u32
}

/// The four bytes that spell `v`, least significant byte first.
pub open spec fn u32_bytes(v: u32) -> Seq<u8> {
    seq![
        (v % 0x100) as u8,
        (v / 0x100 % 0x100) as u8,
        (v / 0x1_0000 % 0x100) as u8,
        (v / 0x100_0000) as u8,
    ]
}

/// `s` with the bytes from `at` on replaced by `b`; everything around them stays.
pub open spec fn splice(s: Seq<u8>, at: int, b: Seq<u8>) -> Seq<u8> {
    s.subrange(0, at) + b + s.subrange(at + b.len(), s.len() as int)
}

/// Reading back the four bytes of a number gives the number.
pub proof fn law_u32_bytes_read_back(v: u32)
    ensures
        u32_bytes(v).len() == 4,
        u32_at(u32_bytes(v), 0) == v,
{
}

/// The four bytes of the number that was read are the bytes it was read from.
pub proof fn law_u32_read_rebuilds(b: Seq<u8>, at: int)
    requires
        0 <= at,
        at + 4 <= b.len(),
    ensures
        u32_bytes(u32_at(b, at)) == b.subrange(at, at + 4),
{
    lemma_digits(b[at], b[at + 1], b[at + 2], b[at + 3], u32_at(b, at));
    assert(u32_bytes(u32_at(b, at)) =~= b.subrange(at, at + 4));
}

/// The number that is read from four bytes counts the first one once, the second one 256 times, and
/// so on.
pub proof fn law_u32_is_read_byte_by_byte(b: Seq<u8>, at: int)
    requires
        0 <= at,
        at + 4 <= b.len(),
    ensures
        u32_at(b, at) == b[at] + 0x100 * b[at + 1] + 0x1_0000 * b[at + 2] + 0x100_0000 * b[at + 3],
{
}

/// The four bytes of a number are its digits in base 256, the least significant one first.
pub proof fn law_u32_is_written_byte_by_byte(v: u32)
    ensures
        u32_bytes(v).len() == 4,
        v == u32_bytes(v)[0] + 0x100 * u32_bytes(v)[1] + 0x1_0000 * u32_bytes(v)[2] + 0x100_0000
            * u32_bytes(v)[3],
{
}

/// Storing bytes puts each of them in its place, and leaves every other byte and the length as they
/// are.
pub proof fn law_stored_bytes_are_in_place(s: Seq<u8>, at: int, b: Seq<u8>, i: int)
    requires
        0 <= at,
        at + b.len() <= s.len(),
        0 <= i < s.len(),
    ensures
        splice(s, at, b).len() == s.len(),
        at <= i < at + b.len() ==> splice(s, at, b)[i] == b[i - at],
        i < at || at + b.len() <= i ==> splice(s, at, b)[i] == s[i],
{
}

/// The base-256 digits of a number are the bytes that spell it.
proof fn lemma_digits(b0: u8, b1: u8, b2: u8, b3: u8, v: u32)
    by (bit_vector)
    requires
        v == b0 + 0x100 * b1 + 0x1_0000 * b2 + 0x100_0000 * b3,
    ensures
        v % 0x100 == b0,
        v / 0x100 % 0x100 == b1,
        v / 0x1_0000 % 0x100 == b2,
        v / 0x100_0000 == b3,
{
}

/// Reads the number stored at `at`.
pub(crate) fn read_u32(buf: &[u8], at: usize) -> (v: u32)
    requires
        at + 4 <= buf@.len(),
    ensures
        v == u32_at(buf@, at as int),
{
    buf[at] as u32 + 0x100 * buf[at + 1] as u32 + 0x1_0000 * buf[at + 2] as u32 + 0x100_0000
        * buf[at + 3] as u32
}

/// Stores `v` at `at`.
pub(crate) fn write_u32(buf: &mut [u8], at: usize, v: u32)
    requires
        at + 4 <= old(buf)@.len(),
    ensures
        final(buf)@ == splice(old(buf)@, at as int, u32_bytes(v)),
{
    buf[at] = (v % 0x100) as u8;
    buf[at + 1] = (v / 0x100 % 0x100) as u8;
    buf[at + 2] = (v / 0x1_0000 % 0x100) as u8;
    buf[at + 3] = (v / 0x100_0000) as u8;
}

/// Stores the single byte `v` at `at`.
pub(crate) fn write_u8(buf: &mut [u8], at: usize, v: u8)
    requires
        at < old(buf)@.len(),
    ensures
        final(buf)@ == splice(old(buf)@, at as int, seq![v]),
{
    buf[at] = v;
}

/// Copies `data` into `buf` from `at` on.
pub(crate) fn write_bytes(buf: &mut [u8], at: usize, data: &[u8])
    requires
        at + data@.len() <= old(buf)@.len(),
    ensures
        final(buf)@ == splice(old(buf)@, at as int, data@),
{
    let ghost before = buf@;
    let len: usize = buf.len();
    for i in 0..data.len()
        invariant
            at + data@.len() <= before.len(),
            before.len() == len,
            buf@.len() == before.len(),
            buf@ =~= splice(before, at as int, data@.subrange(0, i as int)),
    {
        buf[at + i] = data[i];
    }
    assert(data@.subrange(0, data@.len() as int) =~= data@);
}

} // verus!
