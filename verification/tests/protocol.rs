use kite_protocol::protocol::{Frame, ProtocolError, SequenceCounter, FLAG_COMPRESSED};
use kite_protocol::services::{Body, Heartbeat};

fn raw_frame(seq: u32, ack: u32, flag: u8, body: Vec<u8>) -> Frame<Vec<u8>> {
    Frame { size: 0, seq, ack, flag, body }
}

#[test]
fn sequence_numbers_start_at_one_and_count_up() {
    let mut counter = SequenceCounter::new();
    let a = Frame::new_request(Body::Empty, &mut counter).unwrap();
    let b = Frame::new_request(Body::Empty, &mut counter).unwrap();
    let c = Frame::new_response(Body::Empty, a.seq, &mut counter).unwrap();
    assert_eq!(a.seq, 1);
    assert_eq!(b.seq, 2);
    assert_eq!(c.seq, 3);
    assert_eq!(c.ack, 1);
    assert_eq!(a.ack, 0);
    assert_eq!((a.size, a.flag), (0, 0));
    assert_eq!(c.body, Body::Empty);
}

#[test]
fn sequence_counter_take_hands_out_consecutive_numbers() {
    let mut counter = SequenceCounter::new();
    assert_eq!(counter.take(), 1);
    assert_eq!(counter.take(), 2);
}

#[test]
fn request_carries_its_body() {
    let mut counter = SequenceCounter::new();
    let f = Frame::new_request(Body::Heartbeat(Heartbeat::Ping(vec![1, 2, 3])), &mut counter).unwrap();
    assert_eq!(f.body, Body::Heartbeat(Heartbeat::Ping(vec![1, 2, 3])));
}

#[test]
fn write_small_body_exact_bytes() {
    let mut f = raw_frame(0x01020304, 0x0a0b0c0d, 0, vec![0xde, 0xad]);
    let out = f.write();
    assert_eq!(
        out,
        vec![
            0x07, 0x55, 0xaa, 0xb3, // magic
            19, 0, 0, 0, // size, little-endian
            0x01, 0x02, 0x03, 0x04, // seq, big-endian
            0x0a, 0x0b, 0x0c, 0x0d, // ack, big-endian
            0, // flag
            0xde, 0xad,
        ]
    );
    assert_eq!(f.size, 19);
    assert_eq!(f.flag, 0);
}

#[test]
fn write_empty_body_is_header_only() {
    let mut f = raw_frame(0, 0, 0, vec![]);
    let out = f.write();
    assert_eq!(out.len(), 17);
    assert_eq!(f.size, 17);
}

#[test]
fn write_body_at_threshold_is_not_compressed() {
    let body = vec![7u8; 32];
    let mut f = raw_frame(5, 6, 0, body.clone());
    let out = f.write();
    assert_eq!(f.flag & FLAG_COMPRESSED, 0);
    assert_eq!(out.len(), 17 + 32);
    assert_eq!(&out[17..], &body[..]);
}

#[test]
fn write_long_body_is_compressed() {
    let body = vec![b'a'; 1000];
    let mut f = raw_frame(5, 6, 0, body.clone());
    let out = f.write();
    assert_eq!(f.flag & FLAG_COMPRESSED, FLAG_COMPRESSED);
    assert_eq!(out[16], FLAG_COMPRESSED);
    assert!(out.len() < 17 + 1000);
    assert_eq!(f.size as usize, out.len());
    assert_eq!(f.body, body);
}

#[test]
fn write_with_sends_given_compression() {
    let mut f = raw_frame(0, 0, 0x10, vec![1, 2, 3]);
    let out = f.write_with(Some(vec![9, 9]));
    assert_eq!(f.flag, 0x11);
    assert_eq!(f.size, 19);
    assert_eq!(&out[17..], &[9, 9]);
    let mut g = raw_frame(0, 0, 0x10, vec![1, 2, 3]);
    let out = g.write_with(None);
    assert_eq!(g.flag, 0x10);
    assert_eq!(&out[17..], &[1, 2, 3]);
}

#[test]
fn read_after_write_swaps_sequence_numbers() {
    let mut f = raw_frame(0x01020304, 0x0a0b0c0d, 0, vec![1, 2, 3, 4, 5]);
    let out = f.write();
    let g = Frame::read(&out).unwrap();
    assert_eq!(g.seq, 0x04030201);
    assert_eq!(g.ack, 0x0d0c0b0a);
    assert_eq!(g.flag, 0);
    assert_eq!(g.size, 22);
    assert_eq!(g.body, vec![1, 2, 3, 4, 5]);
}

#[test]
fn read_after_write_of_compressed_body() {
    let body: Vec<u8> = (0..2000u32).map(|i| (i % 7) as u8).collect();
    let mut f = raw_frame(0, 0, 0, body.clone());
    let out = f.write();
    let g = Frame::read(&out).unwrap();
    assert_eq!(g.flag, FLAG_COMPRESSED);
    assert_eq!(g.body, body);
    assert_eq!(g.size as usize, out.len());
}

#[test]
fn read_too_small() {
    assert_eq!(Frame::read(&[0x07, 0x55]).unwrap_err(), ProtocolError::TooSmall(2));
    assert_eq!(Frame::read(&[]).unwrap_err(), ProtocolError::TooSmall(0));
}

#[test]
fn read_bad_magic() {
    let mut f = raw_frame(1, 2, 0, vec![]);
    let mut out = f.write();
    out[2] = 0;
    assert_eq!(Frame::read(&out).unwrap_err(), ProtocolError::MismatchMagic);
}

#[test]
fn read_size_mismatch() {
    let mut f = raw_frame(1, 2, 0, vec![1, 2]);
    let mut out = f.write();
    out.push(0);
    assert_eq!(Frame::read(&out).unwrap_err(), ProtocolError::MismatchSize);
}

#[test]
fn long_frame_keeps_its_full_length() {
    // A body of 70000 bytes sent uncompressed: the size field holds the whole length.
    let body: Vec<u8> = (0..70000u32).map(|i| (i * 31 % 251) as u8).collect();
    let mut f = raw_frame(0, 0, 0, body.clone());
    let out = f.write_with(None);
    assert_eq!(f.size as usize, 70000 + 17);
    assert_eq!(out.len(), 70000 + 17);
    let g = Frame::read(&out).unwrap();
    assert_eq!(g.size as usize, out.len());
    assert_eq!(g.body, body);
}

#[test]
fn incompressible_body_is_sent_raw() {
    // Pseudo-random bytes do not shrink under zstd, so they go out as they are.
    let mut x: u32 = 12345;
    let body: Vec<u8> = (0..200)
        .map(|_| {
            x = x.wrapping_mul(1103515245).wrapping_add(12345);
            (x >> 16) as u8
        })
        .collect();
    let mut f = raw_frame(0, 0, 0, body.clone());
    let out = f.write();
    assert_eq!(f.flag, 0);
    assert_eq!(out.len(), 17 + 200);
    assert_eq!(&out[17..], &body[..]);
}

#[test]
fn written_length_never_exceeds_header_and_body() {
    for n in [0usize, 1, 32, 33, 100, 1000] {
        let mut f = raw_frame(0, 0, 0, vec![b'z'; n]);
        let out = f.write();
        assert!(out.len() <= 17 + n);
        assert_eq!(f.size as usize, out.len());
    }
}

#[test]
fn check_header_accepts_written_frame() {
    let mut f = raw_frame(1, 2, 0, vec![3]);
    let out = f.write();
    assert_eq!(Frame::check_header(&out), Ok(()));
}

#[test]
fn try_read_refuses_corrupt_compressed_payload() {
    let mut f = raw_frame(0, 0, 0, vec![1, 2, 3]);
    let out = f.write_with(Some(vec![0xff, 0xff, 0xff, 0xff]));
    assert!(Frame::try_read(&out).is_none());
}

#[test]
fn try_read_reads_good_frames_and_reports_errors() {
    let mut f = raw_frame(0, 0, 0, vec![1, 2, 3]);
    let out = f.write();
    assert_eq!(Frame::try_read(&out).unwrap().unwrap().body, vec![1, 2, 3]);
    assert_eq!(Frame::try_read(&[1]).unwrap().unwrap_err(), ProtocolError::TooSmall(1));
}

#[test]
fn read_with_takes_given_decompression_for_compressed_payload() {
    let mut f = raw_frame(0, 0, 0, vec![1, 2, 3]);
    let out = f.write_with(Some(vec![9, 9]));
    let g = Frame::read_with(&out, Some(vec![4, 5, 6])).unwrap();
    assert_eq!(g.flag, FLAG_COMPRESSED);
    assert_eq!(g.body, vec![4, 5, 6]);
    assert_eq!(g.size, 19);
}

#[test]
fn read_with_keeps_uncompressed_payload() {
    let mut f = raw_frame(0, 0, 0, vec![1, 2, 3]);
    let out = f.write_with(None);
    let g = Frame::read_with(&out, Some(vec![4])).unwrap();
    assert_eq!(g.body, vec![1, 2, 3]);
    assert_eq!(Frame::read_with(&out[..3], None).unwrap_err(), ProtocolError::TooSmall(3));
}
