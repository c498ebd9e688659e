use bytes::{Bytes, BytesMut};
use dibi::codec::{
    FramingError, PacketCodec, PacketFrame, HEADER_SIZE, MAX_CHUNK_SIZE, MAX_PACKET_SIZE,
};

fn encode(seq: u8, payload: Vec<u8>) -> BytesMut {
    let mut codec = PacketCodec::new();
    let mut dst = BytesMut::new();
    codec.encode(PacketFrame::with_sequence(seq, Bytes::from(payload)), &mut dst).unwrap();
    dst
}

fn decode_all(src: &mut BytesMut) -> Vec<(u8, Vec<u8>)> {
    let mut codec = PacketCodec::new();
    let mut chunks = Vec::new();
    while let Some(frame) = codec.decode(src).unwrap() {
        let seq = frame.seq;
        chunks.push((seq, frame.take_buffer().to_vec()));
    }
    chunks
}

#[test]
fn constants() {
    assert_eq!(MAX_CHUNK_SIZE, (1 << 24) - 1);
    assert_eq!(MAX_PACKET_SIZE, 1 << 30);
    assert_eq!(HEADER_SIZE, 4);
}

#[test]
fn small_frame_on_the_wire() {
    let wire = encode(7, vec![1, 2, 3]);
    assert_eq!(wire.to_vec(), vec![3, 0, 0, 7, 1, 2, 3]);
    let wire = encode(0, vec![0xAA; 0x1234]);
    assert_eq!(&wire[..4], &[0x34, 0x12, 0x00, 0x00]);
    assert_eq!(wire.len(), 4 + 0x1234);
}

#[test]
fn round_trip_for_every_sequence_number() {
    for seq in 0..=255u8 {
        let payload: Vec<u8> = (0..(seq as usize + 1)).map(|i| (i * 7) as u8).collect();
        let mut wire = encode(seq, payload.clone());
        let chunks = decode_all(&mut wire);
        assert_eq!(chunks, vec![(seq, payload)]);
        assert!(wire.is_empty());
    }
}

#[test]
fn empty_payload_writes_nothing() {
    let wire = encode(5, Vec::new());
    assert!(wire.is_empty());
}

#[test]
fn encode_appends_to_what_is_there() {
    let mut codec = PacketCodec::new();
    let mut dst = BytesMut::from(&b"xy"[..]);
    codec.encode(PacketFrame::with_sequence(1, Bytes::from(vec![9u8])), &mut dst).unwrap();
    codec.encode(PacketFrame::with_sequence(2, Bytes::from(vec![8u8, 7])), &mut dst).unwrap();
    assert_eq!(dst.to_vec(), vec![b'x', b'y', 1, 0, 0, 1, 9, 2, 0, 0, 2, 8, 7]);
}

#[test]
fn decode_of_short_buffer_is_incomplete() {
    let mut codec = PacketCodec::new();
    for len in 0..4usize {
        let mut src = BytesMut::from(&[5u8, 0, 0, 0][..len]);
        assert!(codec.decode(&mut src).unwrap().is_none());
        assert_eq!(src.len(), len);
    }
}

#[test]
fn decode_waits_for_the_whole_chunk() {
    let mut codec = PacketCodec::new();
    let mut src = BytesMut::from(&[5u8, 0, 0, 3, 1, 2, 3, 4][..]);
    assert!(codec.decode(&mut src).unwrap().is_none());
    assert_eq!(src.to_vec(), vec![5u8, 0, 0, 3, 1, 2, 3, 4]);
    assert!(src.capacity() >= 9);
    src.extend_from_slice(&[5, 6]);
    let frame = codec.decode(&mut src).unwrap().unwrap();
    assert_eq!(frame.seq, 3);
    assert_eq!(frame.bytes(), &[1, 2, 3, 4, 5]);
    assert_eq!(src.to_vec(), vec![6u8]);
}

#[test]
fn decode_takes_empty_chunk_and_any_sequence_number() {
    let mut codec = PacketCodec::new();
    let mut src = BytesMut::from(&[0u8, 0, 0, 200, 1, 0, 0, 17, 42][..]);
    let first = codec.decode(&mut src).unwrap().unwrap();
    assert_eq!((first.seq, first.bytes().len()), (200, 0));
    assert_eq!(codec.sequence(), 201);
    let second = codec.decode(&mut src).unwrap().unwrap();
    assert_eq!((second.seq, second.bytes().to_vec()), (17, vec![42]));
    assert_eq!(codec.sequence(), 18);
    assert!(codec.decode(&mut src).unwrap().is_none());
}

#[test]
fn sequence_numbers_wrap() {
    let len = 2 * MAX_CHUNK_SIZE + 1;
    let mut wire = encode(254, vec![0x5A; len]);
    assert_eq!(wire.len(), len + 3 * HEADER_SIZE);
    let chunks = decode_all(&mut wire);
    let numbers: Vec<u8> = chunks.iter().map(|c| c.0).collect();
    let sizes: Vec<usize> = chunks.iter().map(|c| c.1.len()).collect();
    assert_eq!(numbers, vec![254, 255, 0]);
    assert_eq!(sizes, vec![MAX_CHUNK_SIZE, MAX_CHUNK_SIZE, 1]);
}

#[test]
fn full_chunk_is_followed_by_an_empty_one() {
    let mut wire = encode(9, vec![1u8; MAX_CHUNK_SIZE]);
    assert_eq!(wire.len(), MAX_CHUNK_SIZE + 2 * HEADER_SIZE);
    assert_eq!(&wire[..4], &[0xFF, 0xFF, 0xFF, 9]);
    assert_eq!(&wire[wire.len() - 4..], &[0, 0, 0, 10]);
    let chunks = decode_all(&mut wire);
    assert_eq!(chunks.len(), 2);
    assert_eq!((chunks[0].0, chunks[0].1.len()), (9, MAX_CHUNK_SIZE));
    assert_eq!((chunks[1].0, chunks[1].1.len()), (10, 0));
}

#[test]
fn large_chunked_payload() {
    let len = 16 * 1024 * 1024;
    let payload: Vec<u8> = (0..len).map(|i| (i % 251) as u8).collect();
    let mut wire = encode(3, payload.clone());
    let chunks = decode_all(&mut wire);
    assert_eq!(chunks.len(), 2);
    assert_eq!(chunks[0].0, 3);
    assert_eq!(chunks[1].0, 4);
    assert_eq!(chunks[0].1.len(), MAX_CHUNK_SIZE);
    let mut joined = chunks[0].1.clone();
    joined.extend_from_slice(&chunks[1].1);
    assert!(joined == payload);
}

#[test]
fn codec_records_the_next_sequence_number() {
    let mut codec = PacketCodec::new();
    assert_eq!(codec.sequence(), 0);
    let mut dst = BytesMut::new();
    codec.encode(PacketFrame::with_sequence(255, Bytes::from(vec![1u8])), &mut dst).unwrap();
    assert_eq!(codec.sequence(), 0);
    codec.encode(PacketFrame::with_sequence(4, Bytes::from(vec![1u8])), &mut dst).unwrap();
    assert_eq!(codec.sequence(), 5);
    codec.reset_sequence();
    assert_eq!(codec.sequence(), 0);
    assert_eq!(PacketCodec::default().sequence(), 0);
}

#[test]
fn payload_too_large() {
    let mut codec = PacketCodec::new();
    let mut dst = BytesMut::from(&b"kept"[..]);
    let frame = PacketFrame::with_sequence(6, Bytes::from(vec![0u8; MAX_PACKET_SIZE + 1]));
    assert_eq!(codec.encode(frame, &mut dst), Err(FramingError::PayloadTooLarge));
    assert_eq!(&dst[..], b"kept");
    assert_eq!(codec.sequence(), 0);
}

#[test]
fn frame_constructors() {
    let frame = PacketFrame::new(Bytes::from(vec![1u8, 2]));
    assert_eq!(frame.seq, 0);
    assert_eq!(frame.bytes(), &[1, 2]);
    assert_eq!(&frame.take_buffer()[..], &[1, 2]);
    let frame = PacketFrame::with_sequence(9, Bytes::new());
    assert_eq!(frame.seq, 9);
    assert!(frame.bytes().is_empty());
}

#[test]
fn room_in_the_output_buffer() {
    let small = PacketFrame::with_sequence(0, Bytes::from(vec![1u8, 2, 3]));
    assert!(PacketCodec::has_room(&small, &BytesMut::new()));
    assert!(PacketCodec::has_room(&PacketFrame::new(Bytes::new()), &BytesMut::new()));
    let mut codec = PacketCodec::new();
    let mut dst = BytesMut::from(&b"xy"[..]);
    assert_eq!(codec.encode_if_room(small, &mut dst), Some(Ok(())));
    assert_eq!(dst.to_vec(), vec![b'x', b'y', 3, 0, 0, 0, 1, 2, 3]);
    assert_eq!(codec.sequence(), 1);
    assert_eq!(codec.encode_if_room(PacketFrame::new(Bytes::new()), &mut dst), Some(Ok(())));
    assert_eq!(dst.len(), 9);
}

#[test]
fn too_large_a_payload_needs_no_room() {
    let large = PacketFrame::with_sequence(6, Bytes::from(vec![0u8; MAX_PACKET_SIZE + 1]));
    let mut dst = BytesMut::from(&b"kept"[..]);
    assert!(PacketCodec::has_room(&large, &dst));
    let mut codec = PacketCodec::new();
    assert_eq!(codec.encode_if_room(large, &mut dst), Some(Err(FramingError::PayloadTooLarge)));
    assert_eq!(&dst[..], b"kept");
}

#[test]
fn written_length_is_payload_and_four_bytes_a_chunk() {
    for (len, chunks) in [
        (0usize, 0usize),
        (1, 1),
        (MAX_CHUNK_SIZE - 1, 1),
        (MAX_CHUNK_SIZE, 2),
        (MAX_CHUNK_SIZE + 1, 2),
        (2 * MAX_CHUNK_SIZE, 3),
    ] {
        let wire = encode(0, vec![0u8; len]);
        assert_eq!(wire.len(), len + HEADER_SIZE * chunks, "{}", len);
    }
}
