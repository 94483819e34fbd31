//! Length-prefixed messages.

use termplex::framing::{decode_message, encode_message, DecodeError, FrameReader};

#[test]
fn message_is_prefixed_with_its_length() {
    assert_eq!(encode_message(b"abc"), vec![0, 0, 0, 3, b'a', b'b', b'c']);
    assert_eq!(encode_message(b""), vec![0, 0, 0, 0]);
    let long = vec![7u8; 258];
    let framed = encode_message(&long);
    assert_eq!(&framed[..4], &[0, 0, 1, 2]);
    assert_eq!(framed.len(), 262);
}

#[test]
fn encoded_message_is_decoded() {
    let mut framed = encode_message(b"hello");
    framed.extend_from_slice(b"rest");
    let (payload, used) = decode_message(&framed).unwrap();
    assert_eq!(payload, b"hello");
    assert_eq!(used, 9);
}

#[test]
fn short_buffers_are_refused() {
    assert_eq!(decode_message(&[0, 0, 0]), Err(DecodeError::ShortPrefix));
    assert_eq!(decode_message(&[0, 0, 0, 2, 1]), Err(DecodeError::ShortMessage));
    assert_eq!(decode_message(&[0, 0, 0, 0]), Ok((vec![], 4)));
    assert_eq!(DecodeError::ShortPrefix.message(), "Buffer too small for length prefix");
    assert_eq!(DecodeError::ShortMessage.message(), "Buffer too small for message");
}

#[test]
fn reader_puts_pieces_together() {
    let mut data = encode_message(b"one");
    data.extend_from_slice(&encode_message(b""));
    data.extend_from_slice(&encode_message(b"three"));
    let mut whole = FrameReader::new();
    whole.feed(&data);
    let all = whole.take_payloads();
    assert_eq!(all, vec![b"one".to_vec(), b"".to_vec(), b"three".to_vec()]);
    let mut pieces = FrameReader::new();
    let mut found = Vec::new();
    for byte in &data {
        pieces.feed(&[*byte]);
        found.extend(pieces.take_payloads());
    }
    assert_eq!(found, all);
    assert!(pieces.next_payload().is_none());
}

#[test]
fn reader_keeps_what_is_not_complete() {
    let mut reader = FrameReader::new();
    reader.feed(&[0, 0, 0, 2, b'a']);
    assert!(reader.next_payload().is_none());
    reader.feed(&[b'b', 0]);
    assert_eq!(reader.next_payload(), Some(b"ab".to_vec()));
    assert!(reader.next_payload().is_none());
}

#[test]
fn messages_survive_any_cut() {
    let messages: Vec<Vec<u8>> = vec![b"one".to_vec(), vec![], vec![9; 300], b"four".to_vec()];
    let stream: Vec<u8> = messages.iter().flat_map(|m| encode_message(m)).collect();
    for size in [1, 2, 3, 5, 64, 1000] {
        let mut reader = FrameReader::new();
        let mut read = Vec::new();
        for piece in stream.chunks(size) {
            reader.feed(piece);
            read.extend(reader.take_payloads());
        }
        assert_eq!(read, messages);
        assert!(reader.buf.is_empty());
    }
}
