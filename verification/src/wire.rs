use crate::buffer::{bytes_mut_put_slice, bytes_mut_seq};
use bytes::BytesMut;
use vstd::prelude::*;
use vstd::string::StringSliceAdditionalSpecFns;
use vstd::utf8::valid_utf8;

verus! {

/// The first index at or after `from` at which `s` holds `b`, or the length
/// of `s` where it holds none.
pub open spec fn find_byte(s: Seq<u8>, b: u8, from: int) -> int
    decreases s.len() - from,
{
    if from < 0 || from >= s.len() {
        s.len() as int
    } else if s[from] == b {
        from
    } else {
        find_byte(s, b, from + 1)
    }
}

/// An index with no `b` between `from` and it, which holds `b` or is the
/// end of `s`, is the one that `find_byte` gives.
pub proof fn lemma_find_byte_is(s: Seq<u8>, b: u8, from: int, at: int)
    requires
        0 <= from <= at <= s.len(),
        at < s.len() ==> s[at] == b,
        forall|j: int| from <= j < at ==> s[j] != b,
    ensures
        find_byte(s, b, from) == at,
    decreases at - from,
{
    if from < at {
        lemma_find_byte_is(s, b, from + 1, at);
    }
}

/// The first index at or after `from` at which `s` holds `b`, or `s.len()`.
pub fn index_of_byte(s: &[u8], b: u8, from: usize) -> (at: usize)
    requires
        from <= s.len(),
    ensures
        at == find_byte(s@, b, from as int),
        from <= at <= s.len(),
{
    let mut i: usize = from;
    while i < s.len() && s[i] != b
        invariant
            from <= i <= s.len(),
            forall|j: int| from <= j < i ==> s@[j] != b,
        decreases s.len() - i,
    {
        i += 1;
    }
    proof {
        lemma_find_byte_is(s@, b, from as int, i as int);
    }
    i
}

/// Whether `s` begins with `prefix`.
pub open spec fn has_prefix(s: Seq<u8>, prefix: Seq<u8>) -> bool {
    prefix.len() <= s.len() && s.subrange(0, prefix.len() as int) == prefix
}

/// Whether `needle` stands in `s` at index `at`.
pub open spec fn occurs_at(s: Seq<u8>, needle: Seq<u8>, at: int) -> bool {
    0 <= at && at + needle.len() <= s.len() && s.subrange(at, at + needle.len()) == needle
}

/// Whether `needle` stands somewhere in `s` as a run of adjacent bytes.
pub open spec fn has_run(s: Seq<u8>, needle: Seq<u8>) -> bool {
    exists|at: int| occurs_at(s, needle, at)
}

/// Whether `needle` stands in `s` at index `at`.
pub fn matches_at(s: &[u8], needle: &[u8], at: usize) -> (r: bool)
    ensures
        r == occurs_at(s@, needle@, at as int),
{
    if at > s.len() || needle.len() > s.len() - at {
        return false;
    }
    let mut i: usize = 0;
    while i < needle.len()
        invariant
            i <= needle.len(),
            at + needle.len() <= s.len(),
            forall|j: int| 0 <= j < i ==> s@[at + j] == needle@[j],
        decreases needle.len() - i,
    {
        if s[at + i] != needle[i] {
            assert(s@.subrange(at as int, at + needle.len())[i as int] != needle@[i as int]);
            return false;
        }
        i += 1;
    }
    assert(s@.subrange(at as int, at + needle.len()) =~= needle@);
    true
}

/// Whether `s` begins with `prefix`.
pub fn starts_with(s: &[u8], prefix: &[u8]) -> (r: bool)
    ensures
        r == has_prefix(s@, prefix@),
{
    matches_at(s, prefix, 0)
}

/// Whether `needle` stands somewhere in `s`.
pub fn contains_run(s: &[u8], needle: &[u8]) -> (r: bool)
    ensures
        r == has_run(s@, needle@),
{
    if needle.len() > s.len() {
        assert forall|at: int| !occurs_at(s@, needle@, at) by {}
        return false;
    }
    if needle.len() == 0 {
        assert(s@.subrange(0, 0) =~= needle@);
        assert(occurs_at(s@, needle@, 0));
        return true;
    }
    let last: usize = s.len() - needle.len();
    let mut i: usize = 0;
    while i <= last
        invariant
            i <= last + 1,
            last == s.len() - needle.len(),
            needle.len() > 0,
            forall|at: int| 0 <= at < i ==> !occurs_at(s@, needle@, at),
        decreases last + 1 - i,
    {
        if matches_at(s, needle, i) {
            return true;
        }
        i += 1;
    }
    assert forall|at: int| !occurs_at(s@, needle@, at) by {}
    false
}

/// Whether `a` and `b` hold the same bytes.
pub fn bytes_equal(a: &[u8], b: &[u8]) -> (r: bool)
    ensures
        r == (a@ == b@),
{
    if a.len() != b.len() {
        return false;
    }
    let r = matches_at(a, b, 0);
    assert(a@.subrange(0, a@.len() as int) =~= a@);
    r
}

/// The two bytes of `value`, least significant first.
pub open spec fn le_bytes_2(value: u16) -> Seq<u8> {
    seq![(value % 256) as u8, (value / 256) as u8]
}

/// The low three bytes of `value`, least significant first.
pub open spec fn le_bytes_3(value: u32) -> Seq<u8> {
    seq![(value % 256) as u8, (value / 256 % 256) as u8, (value / 65536 % 256) as u8]
}

/// The four bytes of `value`, least significant first.
pub open spec fn le_bytes_4(value: u32) -> Seq<u8> {
    seq![
        (value % 256) as u8,
        (value / 256 % 256) as u8,
        (value / 65536 % 256) as u8,
        (value / 16777216) as u8,
    ]
}

/// The eight bytes of `value`, least significant first.
pub open spec fn le_bytes_8(value: u64) -> Seq<u8> {
    seq![
        (value % 256) as u8,
        (value / 0x100 % 256) as u8,
        (value / 0x1_0000 % 256) as u8,
        (value / 0x100_0000 % 256) as u8,
        (value / 0x1_0000_0000 % 256) as u8,
        (value / 0x100_0000_0000 % 256) as u8,
        (value / 0x1_0000_0000_0000 % 256) as u8,
        (value / 0x100_0000_0000_0000) as u8,
    ]
}

/// The number that the two bytes of `s` from index `at` write, least
/// significant first.
pub open spec fn le_u16_at(s: Seq<u8>, at: int) -> u16 {
    (s[at] + 256 * s[at + 1]) as u16
}

/// The number that the three bytes of `s` from index `at` write, least
/// significant first.
pub open spec fn le_u24_at(s: Seq<u8>, at: int) -> u32 {
    (s[at] + 256 * s[at + 1] + 65536 * s[at + 2]) as u32
}

/// The number that the four bytes of `s` from index `at` write, least
/// significant first.
pub open spec fn le_u32_at(s: Seq<u8>, at: int) -> u32 {
    (s[at] + 256 * s[at + 1] + 65536 * s[at + 2] + 16777216 * s[at + 3]) as u32
}

/// What was written least significant byte first is read back unchanged.
pub proof fn lemma_le_round_trip(a: u16, b: u32, c: u32)
    requires
        b < 0x100_0000,
    ensures
        le_u16_at(le_bytes_2(a), 0) == a,
        le_u24_at(le_bytes_3(b), 0) == b,
        le_u32_at(le_bytes_4(c), 0) == c,
{
}

/// Four bytes that were written least significant first, wherever they
/// stand in `s`, are read back as the number that was written.
pub proof fn lemma_le_u32_reads_back(s: Seq<u8>, at: int, value: u32)
    requires
        0 <= at,
        at + 4 <= s.len(),
        s.subrange(at, at + 4) == le_bytes_4(value),
    ensures
        le_u32_at(s, at) == value,
{
    let part = s.subrange(at, at + 4);
    assert(s[at] == part[0] && s[at + 1] == part[1] && s[at + 2] == part[2] && s[at + 3]
        == part[3]);
}

/// The number that the two bytes of `s` from index `at` write.
pub fn read_u16_le(s: &[u8], at: usize) -> (r: u16)
    requires
        at + 2 <= s.len(),
    ensures
        r == le_u16_at(s@, at as int),
{
    s[at] as u16 + 256 * (s[at + 1] as u16)
}

/// The number that the three bytes of `s` from index `at` write.
pub fn read_u24_le(s: &[u8], at: usize) -> (r: u32)
    requires
        at + 3 <= s.len(),
    ensures
        r == le_u24_at(s@, at as int),
        r < 0x100_0000,
{
    s[at] as u32 + 256 * (s[at + 1] as u32) + 65536 * (s[at + 2] as u32)
}

/// The number that the four bytes of `s` from index `at` write.
pub fn read_u32_le(s: &[u8], at: usize) -> (r: u32)
    requires
        at + 4 <= s.len(),
    ensures
        r == le_u32_at(s@, at as int),
{
    s[at] as u32 + 256 * (s[at + 1] as u32) + 65536 * (s[at + 2] as u32) + 16777216 * (s[at
        + 3] as u32)
}

/// Appends the two bytes of `value`, least significant first.
pub fn put_u16_le(buf: &mut BytesMut, value: u16)
    requires
        bytes_mut_seq(*old(buf)).len() + 2 <= isize::MAX,
    ensures
        bytes_mut_seq(*final(buf)) == bytes_mut_seq(*old(buf)) + le_bytes_2(value),
{
    let bytes: [u8; 2] = [(value % 256) as u8, (value / 256) as u8];
    assert(bytes@ =~= le_bytes_2(value));
    bytes_mut_put_slice(buf, bytes.as_slice());
}

/// Appends the low three bytes of `value`, least significant first.
pub fn put_u24_le(buf: &mut BytesMut, value: u32)
    requires
        bytes_mut_seq(*old(buf)).len() + 3 <= isize::MAX,
    ensures
        bytes_mut_seq(*final(buf)) == bytes_mut_seq(*old(buf)) + le_bytes_3(value),
{
    let bytes: [u8; 3] = [
        (value % 256) as u8,
        (value / 256 % 256) as u8,
        (value / 65536 % 256) as u8,
    ];
    assert(bytes@ =~= le_bytes_3(value));
    bytes_mut_put_slice(buf, bytes.as_slice());
}

/// Appends the four bytes of `value`, least significant first.
pub fn put_u32_le(buf: &mut BytesMut, value: u32)
    requires
        bytes_mut_seq(*old(buf)).len() + 4 <= isize::MAX,
    ensures
        bytes_mut_seq(*final(buf)) == bytes_mut_seq(*old(buf)) + le_bytes_4(value),
{
    let bytes: [u8; 4] = [
        (value % 256) as u8,
        (value / 256 % 256) as u8,
        (value / 65536 % 256) as u8,
        (value / 16777216) as u8,
    ];
    assert(bytes@ =~= le_bytes_4(value));
    bytes_mut_put_slice(buf, bytes.as_slice());
}

/// Appends the eight bytes of `value`, least significant first.
pub fn put_u64_le(buf: &mut BytesMut, value: u64)
    requires
        bytes_mut_seq(*old(buf)).len() + 8 <= isize::MAX,
    ensures
        bytes_mut_seq(*final(buf)) == bytes_mut_seq(*old(buf)) + le_bytes_8(value),
{
    let bytes: [u8; 8] = [
        (value % 256) as u8,
        (value / 0x100 % 256) as u8,
        (value / 0x1_0000 % 256) as u8,
        (value / 0x100_0000 % 256) as u8,
        (value / 0x1_0000_0000 % 256) as u8,
        (value / 0x100_0000_0000 % 256) as u8,
        (value / 0x1_0000_0000_0000 % 256) as u8,
        (value / 0x100_0000_0000_0000) as u8,
    ];
    assert(bytes@ =~= le_bytes_8(value));
    bytes_mut_put_slice(buf, bytes.as_slice());
}

/// A number in the protocol's variable-width form: one byte below 251;
/// else a marker byte and two, three or eight bytes, least significant
/// first.
pub open spec fn lenenc_int(value: u64) -> Seq<u8> {
    if value < 251 {
        seq![value as u8]
    } else if value < 0x1_0000 {
        seq![0xfcu8] + le_bytes_2(value as u16)
    } else if value < 0x100_0000 {
        seq![0xfdu8] + le_bytes_3(value as u32)
    } else {
        seq![0xfeu8] + le_bytes_8(value)
    }
}

/// The variable-width form is one, three, four or nine bytes long, by the
/// size of the number, and never begins with the reserved byte 0xFF.
pub proof fn lemma_lenenc_int_shape(value: u64)
    ensures
        lenenc_int(value).len() == if value < 251 {
            1nat
        } else if value < 0x1_0000 {
            3nat
        } else if value < 0x100_0000 {
            4nat
        } else {
            9nat
        },
        lenenc_int(value)[0] != 0xff,
{
}

/// `std::str::from_utf8`: the text that `bytes` encode, where they are
/// valid UTF-8, and nothing where they are not. The text borrows `bytes`
/// and encodes to them again.
#[verifier::external_body]
pub(crate) fn str_from_utf8(bytes: &[u8]) -> (r: Option<&str>)
    ensures
        r is Some <==> valid_utf8(bytes@),
        r matches Some(text) ==> text.spec_bytes() == bytes@,
{
    std::str::from_utf8(bytes).ok()
}

} // verus!
