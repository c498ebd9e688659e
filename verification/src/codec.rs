use crate::buffer::{
    bytes_as_slice, bytes_mut_advance, bytes_mut_as_slice, bytes_mut_freeze, bytes_mut_put_slice,
    bytes_mut_put_u8, bytes_mut_reserve, bytes_mut_seq, bytes_mut_split_to, bytes_seq,
};
use crate::wire::{le_bytes_3, le_u24_at, put_u24_le, read_u24_le};
use bytes::{Bytes, BytesMut};
use vstd::prelude::*;
use vstd::slice::slice_subrange;

verus! {

/// The most bytes that one chunk carries: what three length bytes can say.
pub const MAX_CHUNK_SIZE: usize = 0xFFFFFF;

/// The most bytes that one payload may have: 1 GiB.
pub const MAX_PACKET_SIZE: usize = 1024 * 1024 * 1024;

/// The bytes before each chunk: three for its length, one for its sequence
/// number.
pub const HEADER_SIZE: usize = 4;

/// Why a frame was not taken.
#[derive(Debug, Clone, Copy, PartialEq, Eq, Structural)]
pub enum FramingError {
    /// The payload is longer than `MAX_PACKET_SIZE`.
    PayloadTooLarge,
    /// A frame came with another sequence number than the one that was due.
    InvalidSequence { expected: u8, got: u8 },
}

/// A payload and the sequence number it travels under. The payload is what
/// follows the four header bytes; the header itself is not part of it.
#[derive(Debug)]
pub struct PacketFrame {
    pub seq: u8,
    pub buffer: Bytes,
}

impl PacketFrame {
    /// The bytes of the payload.
    pub open spec fn payload(&self) -> Seq<u8> {
        bytes_seq(self.buffer)
    }

    /// A frame with the given payload and the sequence number 0.
    pub fn new(buffer: Bytes) -> (r: Self)
        ensures
            r == (PacketFrame { seq: 0, buffer }),
    {
        Self { seq: 0, buffer }
    }

    /// A frame with the given payload and sequence number.
    pub fn with_sequence(seq: u8, buffer: Bytes) -> (r: Self)
        ensures
            r == (PacketFrame { seq, buffer }),
    {
        Self { seq, buffer }
    }

    /// The payload, given up by the frame.
    pub fn take_buffer(self) -> (r: Bytes)
        ensures
            r == self.buffer,
    {
        self.buffer
    }

    /// The payload as a slice.
    pub fn bytes(&self) -> (r: &[u8])
        ensures
            r@ == self.payload(),
    {
        bytes_as_slice(&self.buffer)
    }
}

/// The number of chunks that a payload of `len` bytes travels in: one per
/// started run of `MAX_CHUNK_SIZE` bytes, and an empty one more where the
/// last run is full, so that the reader sees the end.
pub open spec fn chunk_count(len: nat) -> nat {
    let full = len / (MAX_CHUNK_SIZE as nat);
    let started = if len % (MAX_CHUNK_SIZE as nat) == 0 {
        full
    } else {
        full + 1
    };
    if len > 0 && len % (MAX_CHUNK_SIZE as nat) == 0 {
        started + 1
    } else {
        started
    }
}

/// The number of bytes on the wire for a payload of `len` bytes.
pub open spec fn encoded_len(len: nat) -> nat {
    len + HEADER_SIZE as nat * chunk_count(len)
}

/// The sequence number of chunk `k` of a frame that starts at `seq`: the
/// numbers go up by one and wrap from 255 to 0.
pub open spec fn chunk_seq(seq: u8, k: nat) -> u8 {
    ((seq + k) % 256) as u8
}

/// The bytes that chunk `k` of `payload` carries.
pub open spec fn chunk_data(payload: Seq<u8>, k: nat) -> Seq<u8> {
    let start = k * MAX_CHUNK_SIZE as nat;
    let end = if start + MAX_CHUNK_SIZE as nat <= payload.len() {
        start + MAX_CHUNK_SIZE as nat
    } else {
        payload.len()
    };
    payload.subrange(start as int, end as int)
}

/// One chunk on the wire: its length in three bytes, least significant
/// first, its sequence number, its bytes.
pub open spec fn chunk_wire(seq: u8, data: Seq<u8>) -> Seq<u8> {
    le_bytes_3(data.len() as u32) + seq![seq] + data
}

/// The chunks `k`, `k + 1`, ... of a frame on the wire, one after the other.
pub open spec fn wire_from(seq: u8, payload: Seq<u8>, k: nat) -> Seq<u8>
    decreases chunk_count(payload.len()) - k,
{
    if k >= chunk_count(payload.len()) {
        Seq::empty()
    } else {
        chunk_wire(chunk_seq(seq, k), chunk_data(payload, k)) + wire_from(seq, payload, k + 1)
    }
}

/// A frame on the wire: all its chunks, one after the other. An empty
/// payload has no chunk and gives no byte.
pub open spec fn encode_frame(seq: u8, payload: Seq<u8>) -> Seq<u8> {
    wire_from(seq, payload, 0)
}

/// The chunk at the front of `buf`, as its sequence number and its bytes;
/// `None` while `buf` holds less than a header, or less than the header
/// and the bytes that the header announces.
pub open spec fn decode_one(buf: Seq<u8>) -> Option<(u8, Seq<u8>)> {
    if buf.len() < HEADER_SIZE {
        None
    } else {
        let len = le_u24_at(buf, 0) as int;
        if buf.len() < HEADER_SIZE + len {
            None
        } else {
            Some((buf[3], buf.subrange(HEADER_SIZE as int, HEADER_SIZE + len)))
        }
    }
}

/// The state of the codec: the sequence number that follows the last chunk
/// it has read or written. The codec only records it; it neither stamps
/// nor checks frames with it.
#[derive(Debug)]
pub struct PacketCodec {
    expected_sequence: u8,
}

impl PacketCodec {
    /// The recorded sequence number.
    pub closed spec fn spec_sequence(&self) -> u8 {
        self.expected_sequence
    }

    pub fn new() -> (r: Self)
        ensures
            r.spec_sequence() == 0,
    {
        Self { expected_sequence: 0 }
    }

    pub fn reset_sequence(&mut self)
        ensures
            final(self).spec_sequence() == 0,
    {
        self.expected_sequence = 0;
    }

    pub fn sequence(&self) -> (r: u8)
        ensures
            r == self.spec_sequence(),
    {
        self.expected_sequence
    }

    /// Takes the chunk at the front of `src`, if it is all there. While it
    /// is not, nothing is taken: `src` keeps its bytes, and gets room for
    /// what is missing once the header says how much that is. Any sequence
    /// number is taken as it comes. This never fails.
    pub fn decode(&mut self, src: &mut BytesMut) -> (r: Result<Option<PacketFrame>, FramingError>)
        ensures
            match decode_one(bytes_mut_seq(*old(src))) {
                None => {
                    &&& r == Ok::<Option<PacketFrame>, FramingError>(None)
                    &&& bytes_mut_seq(*final(src)) == bytes_mut_seq(*old(src))
                    &&& final(self).spec_sequence() == old(self).spec_sequence()
                },
                Some((seq, data)) => {
                    &&& r matches Ok(Some(frame))
                    &&& frame.seq == seq
                    &&& frame.payload() == data
                    &&& bytes_mut_seq(*final(src)) == bytes_mut_seq(*old(src)).skip(
                        HEADER_SIZE + data.len(),
                    )
                    &&& final(self).spec_sequence() == chunk_seq(seq, 1)
                },
            },
    {
        let available = bytes_mut_as_slice(src).len();
        if available < HEADER_SIZE {
            return Ok(None);
        }
        let header = bytes_mut_as_slice(src);
        let len = read_u24_le(header, 0) as usize;
        let seq = header[3];
        let chunk_size = HEADER_SIZE + len;
        if available < chunk_size {
            bytes_mut_reserve(src, chunk_size - available);
            return Ok(None);
        }
        bytes_mut_advance(src, HEADER_SIZE);
        let body = bytes_mut_split_to(src, len);
        let buffer = bytes_mut_freeze(body);
        self.expected_sequence = seq.wrapping_add(1);
        proof {
            let whole = bytes_mut_seq(*old(src));
            assert(whole.skip(HEADER_SIZE as int).subrange(0, len as int) =~= whole.subrange(
                HEADER_SIZE as int,
                HEADER_SIZE + len,
            ));
            assert(whole.skip(HEADER_SIZE as int).skip(len as int) =~= whole.skip(
                HEADER_SIZE + len,
            ));
        }
        Ok(Some(PacketFrame { seq, buffer }))
    }

    /// Writes `item` to the end of `dst`, chunk by chunk, under the sequence
    /// numbers that start at the frame's own. A payload above
    /// `MAX_PACKET_SIZE` is refused and nothing is written. The caller
    /// sees to it that `dst` has room for what is written.
    pub fn encode(&mut self, item: PacketFrame, dst: &mut BytesMut) -> (r: Result<
        (),
        FramingError,
    >)
        requires
            item.payload().len() <= MAX_PACKET_SIZE ==> bytes_mut_seq(*old(dst)).len()
                + encoded_len(item.payload().len()) <= isize::MAX,
        ensures
            item.payload().len() > MAX_PACKET_SIZE ==> {
                &&& r == Err::<(), FramingError>(FramingError::PayloadTooLarge)
                &&& bytes_mut_seq(*final(dst)) == bytes_mut_seq(*old(dst))
                &&& final(self).spec_sequence() == old(self).spec_sequence()
            },
            item.payload().len() <= MAX_PACKET_SIZE ==> {
                &&& r == Ok::<(), FramingError>(())
                &&& bytes_mut_seq(*final(dst)) == bytes_mut_seq(*old(dst)) + encode_frame(
                    item.seq,
                    item.payload(),
                )
                &&& bytes_mut_seq(*final(dst)).len() == bytes_mut_seq(*old(dst)).len()
                    + encoded_len(item.payload().len())
                &&& final(self).spec_sequence() == chunk_seq(
                    item.seq,
                    chunk_count(item.payload().len()),
                )
            },
    {
        let payload = bytes_as_slice(&item.buffer);
        let total = payload.len();
        if total > MAX_PACKET_SIZE {
            return Err(FramingError::PayloadTooLarge);
        }
        let ghost before = bytes_mut_seq(*dst);
        let ghost whole = encode_frame(item.seq, payload@);
        if total > 0 {
            bytes_mut_reserve(dst, HEADER_SIZE + total);
        }
        let mut seq = item.seq;
        let mut pos: usize = 0;
        let ghost mut k: nat = 0;
        while pos < total
            invariant
                total == payload@.len(),
                total <= MAX_PACKET_SIZE,
                pos <= total,
                pos == k * MAX_CHUNK_SIZE || (pos == total && (k - 1) * MAX_CHUNK_SIZE < total < k
                    * MAX_CHUNK_SIZE),
                seq == chunk_seq(item.seq, k),
                bytes_mut_seq(*dst) + wire_from(item.seq, payload@, k) == before + whole,
                bytes_mut_seq(*dst).len() == before.len() + pos + HEADER_SIZE * k,
                before.len() + encoded_len(total as nat) <= isize::MAX,
            decreases total - pos,
        {
            let take = if total - pos < MAX_CHUNK_SIZE {
                total - pos
            } else {
                MAX_CHUNK_SIZE
            };
            let ghost held = bytes_mut_seq(*dst);
            let ghost data = chunk_data(payload@, k);
            assert(data == payload@.subrange(pos as int, pos + take));
            assert(k < chunk_count(total as nat));
            put_u24_le(dst, take as u32);
            bytes_mut_put_u8(dst, seq);
            bytes_mut_put_slice(dst, slice_subrange(payload, pos, pos + take));
            proof {
                assert(bytes_mut_seq(*dst) =~= held + chunk_wire(seq, data));
                assert((held + chunk_wire(seq, data)) + wire_from(item.seq, payload@, k + 1)
                    =~= held + (chunk_wire(seq, data) + wire_from(item.seq, payload@, k + 1)));
            }
            pos += take;
            seq = seq.wrapping_add(1);
            proof {
                k = k + 1;
            }
        }
        if total > 0 && total % MAX_CHUNK_SIZE == 0 {
            let ghost held = bytes_mut_seq(*dst);
            let ghost data = chunk_data(payload@, k);
            assert(data =~= Seq::<u8>::empty());
            assert(k + 1 == chunk_count(total as nat));
            put_u24_le(dst, 0);
            bytes_mut_put_u8(dst, seq);
            proof {
                assert(bytes_mut_seq(*dst) =~= held + chunk_wire(seq, data));
                assert(wire_from(item.seq, payload@, k + 1) =~= Seq::<u8>::empty());
                assert((held + chunk_wire(seq, data)) + wire_from(item.seq, payload@, k + 1)
                    =~= held + (chunk_wire(seq, data) + wire_from(item.seq, payload@, k + 1)));
                k = k + 1;
            }
            seq = seq.wrapping_add(1);
        }
        assert(k == chunk_count(total as nat));
        assert(wire_from(item.seq, payload@, k) =~= Seq::<u8>::empty());
        assert(bytes_mut_seq(*dst) =~= before + whole);
        self.expected_sequence = seq;
        Ok(())
    }
}

impl PacketCodec {
    /// Whether `dst` has room for what `encode` writes for `item`: what
    /// `encode` asks of its caller. A payload above `MAX_PACKET_SIZE`
    /// needs no room, as nothing is written for it.
    pub fn has_room(item: &PacketFrame, dst: &BytesMut) -> (r: bool)
        ensures
            r == (item.payload().len() <= MAX_PACKET_SIZE ==> bytes_mut_seq(*dst).len()
                + encoded_len(item.payload().len()) <= isize::MAX),
    {
        let total = item.bytes().len();
        if total > MAX_PACKET_SIZE {
            return true;
        }
        let chunks: usize = if total == 0 {
            0
        } else {
            total / MAX_CHUNK_SIZE + 1
        };
        let wire: usize = total + HEADER_SIZE * chunks;
        let held = bytes_mut_as_slice(dst).len();
        let most: usize = isize::MAX as usize;
        held <= most && wire <= most - held
    }

    /// Writes `item` to the end of `dst` as `encode` does, where `dst` has
    /// room for it, and gives what `encode` gives. Where `dst` has no room,
    /// nothing is written and nothing is given.
    pub fn encode_if_room(&mut self, item: PacketFrame, dst: &mut BytesMut) -> (r: Option<
        Result<(), FramingError>,
    >)
        ensures
            item.payload().len() > MAX_PACKET_SIZE ==> {
                &&& r == Some(Err::<(), FramingError>(FramingError::PayloadTooLarge))
                &&& bytes_mut_seq(*final(dst)) == bytes_mut_seq(*old(dst))
                &&& final(self).spec_sequence() == old(self).spec_sequence()
            },
            item.payload().len() <= MAX_PACKET_SIZE && bytes_mut_seq(*old(dst)).len()
                + encoded_len(item.payload().len()) > isize::MAX ==> {
                &&& r is None
                &&& bytes_mut_seq(*final(dst)) == bytes_mut_seq(*old(dst))
                &&& final(self).spec_sequence() == old(self).spec_sequence()
            },
            item.payload().len() <= MAX_PACKET_SIZE && bytes_mut_seq(*old(dst)).len()
                + encoded_len(item.payload().len()) <= isize::MAX ==> {
                &&& r == Some(Ok::<(), FramingError>(()))
                &&& bytes_mut_seq(*final(dst)) == bytes_mut_seq(*old(dst)) + encode_frame(
                    item.seq,
                    item.payload(),
                )
                &&& bytes_mut_seq(*final(dst)).len() == bytes_mut_seq(*old(dst)).len()
                    + encoded_len(item.payload().len())
                &&& final(self).spec_sequence() == chunk_seq(
                    item.seq,
                    chunk_count(item.payload().len()),
                )
            },
    {
        if PacketCodec::has_room(&item, dst) {
            Some(self.encode(item, dst))
        } else {
            None
        }
    }
}

impl Default for PacketCodec {
    fn default() -> (r: Self)
        ensures
            r.spec_sequence() == 0,
    {
        PacketCodec::new()
    }
}

/// The chunks that are taken from the front of `buf`, one after the
/// other, until no whole chunk is left.
pub open spec fn decode_stream(buf: Seq<u8>) -> Seq<(u8, Seq<u8>)>
    decreases buf.len(),
{
    match decode_one(buf) {
        None => Seq::empty(),
        Some((seq, data)) => seq![(seq, data)] + decode_stream(
            buf.skip(HEADER_SIZE + data.len()),
        ),
    }
}

/// The bytes of the chunks, put together in order.
pub open spec fn join_chunks(chunks: Seq<(u8, Seq<u8>)>) -> Seq<u8>
    decreases chunks.len(),
{
    if chunks.len() == 0 {
        Seq::empty()
    } else {
        chunks[0].1 + join_chunks(chunks.drop_first())
    }
}

/// The chunks `k`, `k + 1`, ... of a frame, each as its sequence number and
/// its bytes.
pub open spec fn chunks_from(seq: u8, payload: Seq<u8>, k: nat) -> Seq<(u8, Seq<u8>)>
    decreases chunk_count(payload.len()) - k,
{
    if k >= chunk_count(payload.len()) {
        Seq::empty()
    } else {
        seq![(chunk_seq(seq, k), chunk_data(payload, k))] + chunks_from(seq, payload, k + 1)
    }
}

/// A chunk on the wire, whatever follows it, is read back as it was
/// written, and what follows it is what is left.
pub proof fn lemma_decode_chunk(seq: u8, data: Seq<u8>, rest: Seq<u8>)
    requires
        data.len() <= MAX_CHUNK_SIZE,
    ensures
        decode_one(chunk_wire(seq, data) + rest) == Some((seq, data)),
        (chunk_wire(seq, data) + rest).skip(HEADER_SIZE + data.len()) == rest,
{
    let buf = chunk_wire(seq, data) + rest;
    let len = data.len() as u32;
    assert(buf[0] == le_bytes_3(len)[0]);
    assert(buf[1] == le_bytes_3(len)[1]);
    assert(buf[2] == le_bytes_3(len)[2]);
    assert(buf[3] == seq);
    assert(le_u24_at(buf, 0) == len);
    assert(buf.subrange(HEADER_SIZE as int, HEADER_SIZE + data.len()) =~= data);
    assert(buf.skip(HEADER_SIZE + data.len()) =~= rest);
}

/// The chunks of a frame from the `k`-th on are read back from the wire as
/// they were written.
pub proof fn lemma_decode_wire_from(seq: u8, payload: Seq<u8>, k: nat)
    ensures
        decode_stream(wire_from(seq, payload, k)) == chunks_from(seq, payload, k),
    decreases chunk_count(payload.len()) - k,
{
    if k >= chunk_count(payload.len()) {
        assert(decode_one(Seq::<u8>::empty()) is None);
    } else {
        let data = chunk_data(payload, k);
        let rest = wire_from(seq, payload, k + 1);
        lemma_decode_chunk(chunk_seq(seq, k), data, rest);
        lemma_decode_wire_from(seq, payload, k + 1);
    }
}

/// The list of chunks from the `k`-th on holds each chunk at its place.
pub proof fn lemma_chunks_from_index(seq: u8, payload: Seq<u8>, k: nat)
    requires
        k <= chunk_count(payload.len()),
    ensures
        chunks_from(seq, payload, k).len() == chunk_count(payload.len()) - k,
        forall|j: int|
            0 <= j < chunk_count(payload.len()) - k ==> #[trigger] chunks_from(seq, payload, k)[j]
                == (chunk_seq(seq, (k + j) as nat), chunk_data(payload, (k + j) as nat)),
    decreases chunk_count(payload.len()) - k,
{
    if k < chunk_count(payload.len()) {
        lemma_chunks_from_index(seq, payload, k + 1);
        let tail = chunks_from(seq, payload, k + 1);
        assert forall|j: int| 0 <= j < chunk_count(payload.len()) - k implies #[trigger] chunks_from(
            seq,
            payload,
            k,
        )[j] == (chunk_seq(seq, (k + j) as nat), chunk_data(payload, (k + j) as nat)) by {
            if j > 0 {
                assert(chunks_from(seq, payload, k)[j] == tail[j - 1]);
            }
        }
    }
}

/// The bytes of the chunks from the `k`-th on, put together, are the
/// payload from where the `k`-th chunk starts.
pub proof fn lemma_join_chunks_from(seq: u8, payload: Seq<u8>, k: nat)
    requires
        k <= chunk_count(payload.len()),
    ensures
        join_chunks(chunks_from(seq, payload, k)) == payload.skip(
            if k * MAX_CHUNK_SIZE <= payload.len() {
                (k * MAX_CHUNK_SIZE) as int
            } else {
                payload.len() as int
            },
        ),
    decreases chunk_count(payload.len()) - k,
{
    let start: int = if k * MAX_CHUNK_SIZE <= payload.len() {
        (k * MAX_CHUNK_SIZE) as int
    } else {
        payload.len() as int
    };
    if k >= chunk_count(payload.len()) {
        assert(payload.skip(start) =~= Seq::<u8>::empty());
    } else {
        lemma_join_chunks_from(seq, payload, k + 1);
        let list = chunks_from(seq, payload, k);
        let tail = chunks_from(seq, payload, k + 1);
        assert(list.drop_first() =~= tail);
        assert(list[0].1 == chunk_data(payload, k));
        let next: int = if (k + 1) * MAX_CHUNK_SIZE <= payload.len() {
            ((k + 1) * MAX_CHUNK_SIZE) as int
        } else {
            payload.len() as int
        };
        assert(chunk_data(payload, k) + payload.skip(next) =~= payload.skip(start));
    }
}

/// The chunks of a frame from the `k`-th on take four bytes each on the
/// wire beside the bytes of the payload that they carry.
pub proof fn lemma_wire_from_len(seq: u8, payload: Seq<u8>, k: nat)
    requires
        k <= chunk_count(payload.len()),
    ensures
        wire_from(seq, payload, k).len() == payload.len() - (if k * MAX_CHUNK_SIZE
            <= payload.len() {
            k * MAX_CHUNK_SIZE
        } else {
            payload.len() as int
        }) + HEADER_SIZE * (chunk_count(payload.len()) - k),
    decreases chunk_count(payload.len()) - k,
{
    if k < chunk_count(payload.len()) {
        lemma_wire_from_len(seq, payload, k + 1);
    }
}

/// What `encode` writes for a frame, `decode` reads back. For every
/// sequence number and every payload: the chunks read from the written
/// bytes are as many as `chunk_count` says, which is one per started run of
/// `MAX_CHUNK_SIZE` bytes and one more, empty, where the payload is not
/// empty and a whole number of runs; chunk `k` comes under the frame's
/// number plus `k`, wrapping at 256; and the bytes of the chunks, put
/// together, are the payload. A payload that is not empty and shorter than
/// `MAX_CHUNK_SIZE` is one chunk: the first read gives the frame back and
/// leaves nothing. (An empty payload writes nothing, so nothing is read.)
/// On the wire the frame takes four bytes for each chunk beside its
/// payload, and every chunk but the last carries `MAX_CHUNK_SIZE` bytes.
pub proof fn lemma_encode_decode_round_trip(seq: u8, payload: Seq<u8>)
    requires
        payload.len() <= MAX_PACKET_SIZE,
    ensures
        encode_frame(seq, payload).len() == encoded_len(payload.len()),
        encode_frame(seq, payload).len() == payload.len() + 4 * chunk_count(payload.len()),
        forall|k: int|
            0 <= k < chunk_count(payload.len()) - 1 ==> (#[trigger] chunk_data(
                payload,
                k as nat,
            )).len() == MAX_CHUNK_SIZE,
        payload.len() == 0 ==> encode_frame(seq, payload) == Seq::<u8>::empty(),
        decode_stream(encode_frame(seq, payload)).len() == chunk_count(payload.len()),
        forall|k: int|
            0 <= k < chunk_count(payload.len()) ==> #[trigger] decode_stream(
                encode_frame(seq, payload),
            )[k] == (chunk_seq(seq, k as nat), chunk_data(payload, k as nat)),
        join_chunks(decode_stream(encode_frame(seq, payload))) == payload,
        0 < payload.len() < MAX_CHUNK_SIZE ==> {
            &&& decode_one(encode_frame(seq, payload)) == Some((seq, payload))
            &&& encode_frame(seq, payload).len() == HEADER_SIZE + payload.len()
        },
        chunk_count(payload.len()) == (payload.len() + MAX_CHUNK_SIZE - 1) / (
        MAX_CHUNK_SIZE as int) + if payload.len() > 0 && payload.len() % (MAX_CHUNK_SIZE as nat)
            == 0 {
            1int
        } else {
            0int
        },
{
    lemma_wire_from_len(seq, payload, 0);
    lemma_decode_wire_from(seq, payload, 0);
    lemma_chunks_from_index(seq, payload, 0);
    lemma_join_chunks_from(seq, payload, 0);
    assert(payload.skip(0) =~= payload);
    if 0 < payload.len() < MAX_CHUNK_SIZE {
        assert(chunk_count(payload.len()) == 1);
        assert(chunk_data(payload, 0) =~= payload);
        assert(wire_from(seq, payload, 1) =~= Seq::<u8>::empty());
        assert(encode_frame(seq, payload) =~= chunk_wire(seq, payload));
        lemma_decode_chunk(seq, payload, Seq::<u8>::empty());
        assert(chunk_wire(seq, payload) + Seq::<u8>::empty() =~= chunk_wire(seq, payload));
    }
}

} // verus!
