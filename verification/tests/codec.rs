use bytes::BytesMut;
use maui::{ErrorKind, Packet, HEADER_SIZE, MAX_SIZE};

fn mk_words(words: &[&str]) -> Vec<String> {
    words.iter().map(|w| (*w).to_string()).collect()
}

fn encode(p: &Packet) -> Vec<u8> {
    let mut buf: Vec<u8> = Vec::new();
    p.write_to(&mut buf).expect("frame fits the size ceiling");
    buf
}

fn assert_same_frame(a: &Packet, b: &Packet) {
    assert_eq!(a.id, b.id);
    assert_eq!(a.is_response, b.is_response);
    assert_eq!(a.is_from_server, b.is_from_server);
    assert_eq!(a.words, b.words);
}

#[test]
fn encode_golden_bytes() {
    let p = Packet::new(1, false, false, mk_words(&["OK"]));
    let bytes = encode(&p);
    assert_eq!(
        bytes,
        vec![
            0x01, 0x00, 0x00, 0x00, // sequence: id 1, both flags clear
            0x13, 0x00, 0x00, 0x00, // total size: 12 + 4 + 2 + 1 = 19
            0x01, 0x00, 0x00, 0x00, // word count
            0x02, 0x00, 0x00, 0x00, // word length
            b'O', b'K', 0x00, // word content and terminator
        ]
    );
}

#[test]
fn encode_packs_flags() {
    let response = Packet::new(5, true, false, mk_words(&[]));
    let bytes = encode(&response);
    assert_eq!(&bytes[0..4], &[0x05, 0x00, 0x00, 0x40]);

    let push = Packet::new(5, false, true, mk_words(&[]));
    let bytes = encode(&push);
    assert_eq!(&bytes[0..4], &[0x05, 0x00, 0x00, 0x80]);
}

#[test]
fn round_trip_simple() {
    let p = Packet::new(7, true, false, mk_words(&["OK", "payload", ""]));
    let bytes = encode(&p);
    let (q, consumed) = Packet::read_from(&bytes).unwrap().unwrap();
    assert_eq!(consumed, bytes.len());
    assert_same_frame(&p, &q);
}

#[test]
fn round_trip_unicode_words() {
    let p = Packet::new(42, false, true, mk_words(&["héllo", "wörld ✓", "日本語"]));
    let bytes = encode(&p);
    let (q, consumed) = Packet::read_from(&bytes).unwrap().unwrap();
    assert_eq!(consumed, bytes.len());
    assert_same_frame(&p, &q);
}

#[test]
fn round_trip_no_words() {
    let p = Packet::new(0, false, false, mk_words(&[]));
    let bytes = encode(&p);
    assert_eq!(bytes.len(), HEADER_SIZE);
    let (q, consumed) = Packet::read_from(&bytes).unwrap().unwrap();
    assert_eq!(consumed, HEADER_SIZE);
    assert_same_frame(&p, &q);
}

#[test]
fn every_prefix_needs_more_data() {
    let p = Packet::new(9, false, false, mk_words(&["admin.eventsEnabled", "true"]));
    let bytes = encode(&p);
    for cut in 0..bytes.len() {
        let prefix = bytes[..cut].to_vec();
        match Packet::read_from(&prefix) {
            Ok(None) => {},
            _ => panic!("prefix of {} bytes must ask for more data", cut),
        }
    }
    assert!(Packet::read_from(&bytes).unwrap().is_some());
}

#[test]
fn streamed_byte_by_byte_decodes_once() {
    let p = Packet::new(3, true, false, mk_words(&["OK", "done"]));
    let bytes = encode(&p);
    let mut buf = BytesMut::new();
    let mut decoded = Vec::new();
    for b in &bytes {
        buf.extend_from_slice(&[*b]);
        if let Some(q) = Packet::read(&mut buf).unwrap() {
            decoded.push(q);
        }
    }
    assert_eq!(decoded.len(), 1);
    assert_same_frame(&p, &decoded[0]);
    assert_eq!(buf.len(), 0);
}

#[test]
fn trailing_bytes_stay_buffered() {
    let first = Packet::new(1, false, false, mk_words(&["serverInfo"]));
    let second = Packet::new(2, false, false, mk_words(&["admin.listPlayers", "all"]));
    let mut bytes = encode(&first);
    bytes.extend_from_slice(&encode(&second));

    let mut buf = BytesMut::from(&bytes[..]);
    let q1 = Packet::read(&mut buf).unwrap().unwrap();
    assert_same_frame(&first, &q1);
    let q2 = Packet::read(&mut buf).unwrap().unwrap();
    assert_same_frame(&second, &q2);
    assert_eq!(buf.len(), 0);
    assert!(Packet::read(&mut buf).unwrap().is_none());
}

#[test]
fn oversized_frame_fails_and_writes_nothing() {
    let big = "a".repeat(MAX_SIZE);
    let p = Packet::new(1, false, false, vec![big]);
    let mut buf: Vec<u8> = vec![0xAA];
    let err = p.write_to(&mut buf).unwrap_err();
    assert_eq!(err.kind(), ErrorKind::Parse);
    assert_eq!(buf, vec![0xAA], "a failed encode must not write partial bytes");

    let mut stream = BytesMut::new();
    let err = p.write(&mut stream).unwrap_err();
    assert_eq!(err.kind(), ErrorKind::Parse);
    assert_eq!(stream.len(), 0);
}

#[test]
fn frame_at_size_ceiling_encodes() {
    // 12-byte header + 4-byte length + content + terminator == MAX_SIZE.
    let content = "b".repeat(MAX_SIZE - HEADER_SIZE - 5);
    let p = Packet::new(1, false, false, vec![content]);
    let bytes = encode(&p);
    assert_eq!(bytes.len(), MAX_SIZE);
    let one_more = "b".repeat(MAX_SIZE - HEADER_SIZE - 4);
    let p = Packet::new(1, false, false, vec![one_more]);
    assert!(p.write_to(&mut Vec::new()).is_err());
}

#[test]
fn nonzero_terminator_is_malformed() {
    let p = Packet::new(1, true, false, mk_words(&["OK", "x"]));
    let mut bytes = encode(&p);
    // First word is "OK": its terminator sits after the 12-byte header,
    // the 4-byte length and the 2 content bytes.
    let term = HEADER_SIZE + 4 + 2;
    assert_eq!(bytes[term], 0);
    bytes[term] = 0x01;
    let err = Packet::read_from(&bytes).unwrap_err();
    assert_eq!(err.kind(), ErrorKind::Parse);
}

#[test]
fn invalid_utf8_word_is_malformed() {
    let mut bytes = Vec::new();
    bytes.extend_from_slice(&1u32.to_le_bytes()); // sequence
    bytes.extend_from_slice(&18u32.to_le_bytes()); // total size
    bytes.extend_from_slice(&1u32.to_le_bytes()); // word count
    bytes.extend_from_slice(&1u32.to_le_bytes()); // word length
    bytes.push(0xFF); // not valid UTF-8
    bytes.push(0x00); // terminator
    let err = Packet::read_from(&bytes).unwrap_err();
    assert_eq!(err.kind(), ErrorKind::Parse);
}

#[test]
fn declared_size_below_header_is_malformed() {
    let mut bytes = Vec::new();
    bytes.extend_from_slice(&1u32.to_le_bytes());
    bytes.extend_from_slice(&5u32.to_le_bytes()); // size smaller than a header
    bytes.extend_from_slice(&0u32.to_le_bytes());
    let err = Packet::read_from(&bytes).unwrap_err();
    assert_eq!(err.kind(), ErrorKind::Parse);
}

#[test]
fn body_shorter_than_declared_word_is_malformed() {
    let mut bytes = Vec::new();
    bytes.extend_from_slice(&1u32.to_le_bytes());
    bytes.extend_from_slice(&16u32.to_le_bytes()); // header + 4: room for a length only
    bytes.extend_from_slice(&1u32.to_le_bytes());
    bytes.extend_from_slice(&200u32.to_le_bytes()); // word claims 200 bytes
    let err = Packet::read_from(&bytes).unwrap_err();
    assert_eq!(err.kind(), ErrorKind::Parse);
}

#[test]
fn read_error_leaves_buffer_untouched() {
    let p = Packet::new(1, true, false, mk_words(&["OK"]));
    let mut bytes = encode(&p);
    let term = bytes.len() - 1;
    bytes[term] = 0x07;
    let mut buf = BytesMut::from(&bytes[..]);
    assert!(Packet::read(&mut buf).is_err());
    assert_eq!(&buf[..], &bytes[..]);
}

#[test]
fn decode_masks_id_and_flags() {
    let mut bytes = Vec::new();
    bytes.extend_from_slice(&0xC000_0007u32.to_le_bytes()); // both flag bits and id 7
    bytes.extend_from_slice(&12u32.to_le_bytes());
    bytes.extend_from_slice(&0u32.to_le_bytes());
    let (p, _) = Packet::read_from(&bytes).unwrap().unwrap();
    assert_eq!(p.id, 7);
    assert!(p.is_response);
    assert!(p.is_from_server);
    assert!(p.words.is_empty());
}
