use crate::buffer::{
    bytes_advance, bytes_as_slice, bytes_mut_put_slice, bytes_mut_put_u8, bytes_mut_seq,
    bytes_seq, bytes_split_to,
};
use crate::codec::PacketFrame;
use crate::context::Context;
use crate::wire::{find_byte, index_of_byte, lenenc_int, put_u16_le, put_u24_le, put_u64_le};
use bytes::{Bytes, BytesMut};
use vstd::prelude::*;

pub mod buffer;
pub mod codec;
pub mod connection;
pub mod context;
pub mod protocol;
pub mod ssl;
pub mod stream;
pub mod wire;

verus! {

/// A read that needed more bytes than were left.
#[derive(Debug, Clone, Copy, PartialEq, Eq, Structural)]
pub struct UnexpectedEof;

/// Readers that consume the front of a buffer.
pub trait BytesExt {
    /// The bytes that are still to be read.
    spec fn unread(&self) -> Seq<u8>;

    /// Reads a text that a zero byte ends: gives the bytes before the first
    /// zero byte and consumes them and the zero byte. Where there is no
    /// zero byte, nothing is consumed.
    fn get_bytes_null(&mut self) -> (r: Result<Bytes, UnexpectedEof>)
        ensures
            ({
                let s = old(self).unread();
                let nul = find_byte(s, 0, 0);
                if nul < s.len() {
                    &&& r matches Ok(text)
                    &&& bytes_seq(text) == s.subrange(0, nul)
                    &&& final(self).unread() == s.skip(nul + 1)
                } else {
                    &&& r is Err
                    &&& final(self).unread() == s
                }
            }),
    ;
}

impl BytesExt for Bytes {
    open spec fn unread(&self) -> Seq<u8> {
        bytes_seq(*self)
    }

    fn get_bytes_null(&mut self) -> (r: Result<Bytes, UnexpectedEof>) {
        let held = bytes_as_slice(self);
        let end = index_of_byte(held, 0, 0);
        if end >= held.len() {
            return Err(UnexpectedEof);
        }
        let text = bytes_split_to(self, end);
        bytes_advance(self, 1);
        proof {
            let s = old(self).unread();
            assert(s.skip(end as int).skip(1) =~= s.skip(end + 1));
        }
        Ok(text)
    }
}

/// Writers of the protocol's variable-width fields at the end of a buffer.
pub trait BufMutExt {
    /// The bytes that the buffer holds.
    spec fn written(&self) -> Seq<u8>;

    /// The number of bytes that the buffer still takes.
    spec fn room(&self) -> int;

    /// Appends `value` in the variable-width form, and says how many bytes
    /// that took.
    fn put_len_encoded_int(&mut self, value: u64) -> (n: u8)
        requires
            old(self).room() >= lenenc_int(value).len(),
        ensures
            final(self).written() == old(self).written() + lenenc_int(value),
            n == lenenc_int(value).len(),
            final(self).room() == old(self).room() - n,
    ;

    /// Appends `value` and a zero byte.
    fn put_str_null_terminated(&mut self, value: &[u8])
        requires
            old(self).room() >= value@.len() + 1,
        ensures
            final(self).written() == old(self).written() + value@ + seq![0u8],
            final(self).room() == old(self).room() - value@.len() - 1,
    ;

    /// Appends the length of `value` in the variable-width form, and then
    /// `value`.
    fn put_len_encoded_str(&mut self, value: &[u8])
        requires
            old(self).room() >= lenenc_int(value@.len() as u64).len() + value@.len(),
        ensures
            final(self).written() == old(self).written() + lenenc_int(value@.len() as u64)
                + value@,
            final(self).room() == old(self).room() - lenenc_int(value@.len() as u64).len()
                - value@.len(),
    ;
}

impl BufMutExt for BytesMut {
    open spec fn written(&self) -> Seq<u8> {
        bytes_mut_seq(*self)
    }

    open spec fn room(&self) -> int {
        isize::MAX - bytes_mut_seq(*self).len()
    }

    fn put_len_encoded_int(&mut self, value: u64) -> (n: u8) {
        let ghost before = bytes_mut_seq(*self);
        if value < 251 {
            bytes_mut_put_u8(self, value as u8);
            assert(bytes_mut_seq(*self) =~= before + lenenc_int(value));
            1
        } else if value < 0x10000 {
            bytes_mut_put_u8(self, 0xfc);
            put_u16_le(self, value as u16);
            assert(bytes_mut_seq(*self) =~= before + lenenc_int(value));
            3
        } else if value < 0x1000000 {
            bytes_mut_put_u8(self, 0xfd);
            put_u24_le(self, value as u32);
            assert(bytes_mut_seq(*self) =~= before + lenenc_int(value));
            4
        } else {
            bytes_mut_put_u8(self, 0xfe);
            put_u64_le(self, value);
            assert(bytes_mut_seq(*self) =~= before + lenenc_int(value));
            9
        }
    }

    fn put_str_null_terminated(&mut self, value: &[u8]) {
        let ghost before = bytes_mut_seq(*self);
        bytes_mut_put_slice(self, value);
        bytes_mut_put_u8(self, 0);
        assert(bytes_mut_seq(*self) =~= before + value@ + seq![0u8]);
    }

    fn put_len_encoded_str(&mut self, value: &[u8]) {
        self.put_len_encoded_int(value.len() as u64);
        bytes_mut_put_slice(self, value);
    }
}

/// A value that is read from a frame.
pub trait DecodePacket: Sized {
    type Error;

    /// Whether `out` is what reading `packet` under `context` gives.
    spec fn decodes(packet: PacketFrame, context: &Context, out: Result<Self, Self::Error>) -> bool;

    fn decode_packet(packet: PacketFrame, context: &Context) -> (r: Result<Self, Self::Error>)
        ensures
            Self::decodes(packet, context, r),
    ;
}

/// A value that is written as a `T`, for the most part a frame.
pub trait EncodePacket<T>: Sized {
    type Error;

    /// Whether `out` is what writing `self` under `context` gives.
    spec fn encodes(self, context: &Context, out: Result<T, Self::Error>) -> bool;

    /// Whether the value starts a command, so that the sequence numbers
    /// start again at 0 with it.
    spec fn starts_command(&self) -> bool;

    fn encode_packet(self, context: &Context) -> (r: Result<T, Self::Error>)
        ensures
            self.encodes(context, r),
    ;

    fn is_command_packet(&self) -> (r: bool)
        ensures
            r == self.starts_command(),
    ;
}

/// A frame is written as any value that can be read from it.
impl<U> EncodePacket<U> for PacketFrame where U: DecodePacket {
    type Error = <U as DecodePacket>::Error;

    open spec fn encodes(self, context: &Context, out: Result<U, Self::Error>) -> bool {
        U::decodes(self, context, out)
    }

    open spec fn starts_command(&self) -> bool {
        false
    }

    fn encode_packet(self, context: &Context) -> (r: Result<U, Self::Error>) {
        U::decode_packet(self, context)
    }

    fn is_command_packet(&self) -> (r: bool) {
        false
    }
}

} // verus!
