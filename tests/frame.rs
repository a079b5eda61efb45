use instance_pipe::frame::{length_prefix, prefix_value, MAX_PAYLOAD_LEN};
use instance_pipe::{encode_frame, FrameError, FrameReader, ReadStep};

fn read_all(reader: &mut FrameReader) -> Vec<Vec<u8>> {
    let mut out = Vec::new();
    while let Some(p) = reader.next_frame() {
        out.push(p);
    }
    out
}

#[test]
fn frame_has_little_endian_prefix() {
    let f = encode_frame(&[7, 8, 9]).unwrap();
    assert_eq!(f, vec![3, 0, 0, 0, 7, 8, 9]);
}

#[test]
fn empty_payload_frame_is_header_only() {
    assert_eq!(encode_frame(&[]).unwrap(), vec![0, 0, 0, 0]);
}

#[test]
fn long_payload_prefix_bytes() {
    let payload = vec![0xabu8; 300];
    let f = encode_frame(&payload).unwrap();
    assert_eq!(&f[..4], &[44, 1, 0, 0]);
    assert_eq!(f.len(), 304);
    assert_eq!(&f[4..], &payload[..]);
}

#[test]
fn prefix_round_trip() {
    for n in [0u32, 1, 255, 256, 65535, 65536, 16777216, 0x12345678, u32::MAX] {
        let b = length_prefix(n);
        assert_eq!(b, n.to_le_bytes());
        assert_eq!(prefix_value(b[0], b[1], b[2], b[3]), n);
    }
    assert_eq!(MAX_PAYLOAD_LEN as u64, u32::MAX as u64);
}

#[test]
fn frames_read_back_one_byte_at_a_time() {
    let msgs: Vec<Vec<u8>> = vec![b"first".to_vec(), vec![], vec![1, 2, 3, 4, 5, 6], b"last".to_vec()];
    let mut wire = Vec::new();
    for m in &msgs {
        wire.extend(encode_frame(m).unwrap());
    }
    let mut reader = FrameReader::new();
    let mut got = Vec::new();
    for b in &wire {
        match reader.receive(&[*b]) {
            ReadStep::Frame(p) => {
                got.push(p);
                got.extend(read_all(&mut reader));
            }
            ReadStep::NeedMore => {}
            ReadStep::Failed(e) => panic!("unexpected failure {:?}", e),
        }
    }
    assert_eq!(got, msgs);
    assert_eq!(reader.pending(), 0);
}

#[test]
fn frames_read_back_in_one_chunk() {
    let msgs: Vec<Vec<u8>> = vec![b"a".to_vec(), b"bc".to_vec(), b"def".to_vec()];
    let mut wire = Vec::new();
    for m in &msgs {
        wire.extend(encode_frame(m).unwrap());
    }
    let mut reader = FrameReader::new();
    reader.feed(&wire);
    assert_eq!(read_all(&mut reader), msgs);
}

#[test]
fn truncated_payload_is_rejected() {
    let f = encode_frame(b"hello").unwrap();
    for k in 1..f.len() {
        let mut reader = FrameReader::new();
        reader.feed(&f[..k]);
        assert!(reader.next_frame().is_none());
        assert_eq!(reader.end_of_stream(), Err(FrameError::Truncated));
        assert!(matches!(reader.receive(&[]), ReadStep::Failed(FrameError::Truncated)));
    }
}

#[test]
fn clean_close_between_frames() {
    let mut reader = FrameReader::new();
    assert_eq!(reader.end_of_stream(), Err(FrameError::Closed));
    let f = encode_frame(b"x").unwrap();
    reader.feed(&f);
    assert_eq!(reader.end_of_stream(), Ok(b"x".to_vec()));
    assert!(matches!(reader.receive(&[]), ReadStep::Failed(FrameError::Closed)));
}

#[test]
fn bytes_after_a_frame_stay_buffered() {
    let mut wire = encode_frame(b"ab").unwrap();
    wire.extend_from_slice(&[9, 0]);
    let mut reader = FrameReader::new();
    match reader.receive(&wire) {
        ReadStep::Frame(p) => assert_eq!(p, b"ab".to_vec()),
        _ => panic!("expected a frame"),
    }
    assert_eq!(reader.pending(), 2);
    assert!(matches!(reader.receive(&[0, 0]), ReadStep::NeedMore));
    assert_eq!(reader.pending(), 4);
}

#[test]
fn codec_round_trip_through_a_frame() {
    let value: (u32, String) = (1, "hi".to_string());
    let bytes = bincode::serde::encode_to_vec(&value, bincode::config::standard()).unwrap();
    let f = encode_frame(&bytes).unwrap();
    let mut reader = FrameReader::new();
    reader.feed(&f);
    let payload = reader.next_frame().unwrap();
    let (back, _): ((u32, String), usize) =
        bincode::serde::decode_from_slice(&payload, bincode::config::standard()).unwrap();
    assert_eq!(back, value);
}
