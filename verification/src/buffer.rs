use bytes::{Buf, BufMut, Bytes, BytesMut};
use vstd::prelude::*;

verus! {

/// `bytes::Bytes`, a shared and immutable run of bytes. Nothing of its
/// inside is known here but the bytes it holds, which `bytes_seq` names.
#[verifier::external_type_specification]
#[verifier::external_body]
pub struct ExBytes(bytes::Bytes);

/// `bytes::BytesMut`, a run of bytes that grows at its end and is consumed
/// from its front. Nothing of its inside is known here but the bytes it
/// holds, which `bytes_mut_seq` names.
#[verifier::external_type_specification]
#[verifier::external_body]
pub struct ExBytesMut(bytes::BytesMut);

/// The bytes that a `Bytes` holds, first to last.
pub uninterp spec fn bytes_seq(b: Bytes) -> Seq<u8>;

/// The bytes that a `BytesMut` holds, first to last.
pub uninterp spec fn bytes_mut_seq(b: BytesMut) -> Seq<u8>;

/// `<Bytes as AsRef<[u8]>>::as_ref`: the held bytes as a slice.
#[verifier::external_body]
pub(crate) fn bytes_as_slice(b: &Bytes) -> (s: &[u8])
    ensures
        s@ == bytes_seq(*b),
{
    b.as_ref()
}

/// `Bytes::split_to`: takes the first `at` bytes out and returns them; the
/// rest stays. The outside function panics where `at` is more than it holds.
#[verifier::external_body]
pub(crate) fn bytes_split_to(b: &mut Bytes, at: usize) -> (head: Bytes)
    requires
        at <= bytes_seq(*old(b)).len(),
    ensures
        bytes_seq(head) == bytes_seq(*old(b)).subrange(0, at as int),
        bytes_seq(*final(b)) == bytes_seq(*old(b)).skip(at as int),
{
    b.split_to(at)
}

/// `<Bytes as Buf>::advance`: drops the first `cnt` bytes. The outside
/// function panics where `cnt` is more than it holds.
#[verifier::external_body]
pub(crate) fn bytes_advance(b: &mut Bytes, cnt: usize)
    requires
        cnt <= bytes_seq(*old(b)).len(),
    ensures
        bytes_seq(*final(b)) == bytes_seq(*old(b)).skip(cnt as int),
{
    b.advance(cnt)
}

/// `BytesMut::with_capacity`: a buffer that holds nothing. The capacity is
/// a hint to the allocator, which takes no request above `isize::MAX`.
#[verifier::external_body]
pub(crate) fn bytes_mut_with_capacity(capacity: usize) -> (b: BytesMut)
    requires
        capacity <= isize::MAX,
    ensures
        bytes_mut_seq(b) == Seq::<u8>::empty(),
{
    BytesMut::with_capacity(capacity)
}

/// `<BytesMut as AsRef<[u8]>>::as_ref`: the held bytes as a slice.
#[verifier::external_body]
pub(crate) fn bytes_mut_as_slice(b: &BytesMut) -> (s: &[u8])
    ensures
        s@ == bytes_mut_seq(*b),
{
    b.as_ref()
}

/// `BytesMut::reserve`: makes room for `additional` more bytes and leaves
/// the held bytes as they are. The outside function panics where the room
/// asked for, with what is held, overflows; the bound keeps both within
/// what `BytesMut` reports as its room (`isize::MAX` less its length).
#[verifier::external_body]
pub(crate) fn bytes_mut_reserve(b: &mut BytesMut, additional: usize)
    requires
        bytes_mut_seq(*old(b)).len() + additional <= isize::MAX,
    ensures
        bytes_mut_seq(*final(b)) == bytes_mut_seq(*old(b)),
{
    b.reserve(additional)
}

/// `<BytesMut as Buf>::advance`: drops the first `cnt` bytes. The outside
/// function panics where `cnt` is more than it holds.
#[verifier::external_body]
pub(crate) fn bytes_mut_advance(b: &mut BytesMut, cnt: usize)
    requires
        cnt <= bytes_mut_seq(*old(b)).len(),
    ensures
        bytes_mut_seq(*final(b)) == bytes_mut_seq(*old(b)).skip(cnt as int),
{
    b.advance(cnt)
}

/// `BytesMut::split_to`: takes the first `at` bytes out and returns them;
/// the rest stays. The outside function panics where `at` is more than it
/// holds.
#[verifier::external_body]
pub(crate) fn bytes_mut_split_to(b: &mut BytesMut, at: usize) -> (head: BytesMut)
    requires
        at <= bytes_mut_seq(*old(b)).len(),
    ensures
        bytes_mut_seq(head) == bytes_mut_seq(*old(b)).subrange(0, at as int),
        bytes_mut_seq(*final(b)) == bytes_mut_seq(*old(b)).skip(at as int),
{
    b.split_to(at)
}

/// `BytesMut::freeze`: the same bytes, from now on immutable.
#[verifier::external_body]
pub(crate) fn bytes_mut_freeze(b: BytesMut) -> (frozen: Bytes)
    ensures
        bytes_seq(frozen) == bytes_mut_seq(b),
{
    b.freeze()
}

/// `<BytesMut as BufMut>::put_u8`: appends one byte. `BufMut` asks that
/// the buffer has room for it, and `BytesMut` reports `isize::MAX` less its
/// length as its room.
#[verifier::external_body]
pub(crate) fn bytes_mut_put_u8(b: &mut BytesMut, value: u8)
    requires
        bytes_mut_seq(*old(b)).len() + 1 <= isize::MAX,
    ensures
        bytes_mut_seq(*final(b)) == bytes_mut_seq(*old(b)).push(value),
{
    b.put_u8(value)
}

/// `<BytesMut as BufMut>::put_slice`: appends the bytes of `src`. `BufMut`
/// asks that the buffer has room for them, and `BytesMut` reports
/// `isize::MAX` less its length as its room.
#[verifier::external_body]
pub(crate) fn bytes_mut_put_slice(b: &mut BytesMut, src: &[u8])
    requires
        bytes_mut_seq(*old(b)).len() + src@.len() <= isize::MAX,
    ensures
        bytes_mut_seq(*final(b)) == bytes_mut_seq(*old(b)) + src@,
{
    b.put_slice(src)
}

} // verus!
