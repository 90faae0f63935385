use blockchain::codec::{CodecError, RawTransaction, Serializable};

fn round_trip(sender: Vec<u8>, recipient: Vec<u8>, value: i64) {
    let t = RawTransaction::new(sender.clone(), recipient.clone(), value);
    let back = RawTransaction::decode(&t.encode()).unwrap();
    assert_eq!(back.sender_address, sender);
    assert_eq!(back.recipient_address, recipient);
    assert_eq!(back.value, value);
}

#[test]
fn encode_lays_out_length_prefixed_fields() {
    let t = RawTransaction::new(b"abc".to_vec(), b"xy".to_vec(), 10);
    let expected: Vec<u8> = vec![
        0, 0, 0, 0, 0, 0, 0, 3, 97, 98, 99, 0, 0, 0, 0, 0, 0, 0, 2, 120, 121, 0, 0, 0, 0, 0, 0, 0,
        8, 0, 0, 0, 0, 0, 0, 0, 10,
    ];
    assert_eq!(t.encode(), expected);
    assert_eq!(t.serialize(), expected);
}

#[test]
fn negative_amount_is_twos_complement() {
    let t = RawTransaction::new(vec![], vec![], -1);
    let bytes = t.encode();
    assert_eq!(bytes.len(), 32);
    assert_eq!(&bytes[24..32], &[0xff; 8]);
}

#[test]
fn round_trip_keeps_every_field() {
    round_trip(b"0xAbC123".to_vec(), b"0xF901D4".to_vec(), 1000);
    round_trip(vec![], vec![], 0);
    round_trip(vec![], b"r".to_vec(), i64::MAX);
    round_trip(b"s".to_vec(), vec![], i64::MIN);
    round_trip(vec![0, 255, 7], vec![1; 300], -42);
}

#[test]
fn round_trip_through_trait() {
    let t = RawTransaction::new(b"from".to_vec(), b"to".to_vec(), 77);
    let back = RawTransaction::deserialize(&t.serialize()).unwrap();
    assert_eq!(back.sender_address, b"from".to_vec());
    assert_eq!(back.recipient_address, b"to".to_vec());
    assert_eq!(back.value, 77);
}

#[test]
fn truncated_input_is_corrupt() {
    let bytes = RawTransaction::new(b"abc".to_vec(), b"xy".to_vec(), 10).encode();
    for cut in 0..bytes.len() {
        let r = RawTransaction::decode(&bytes[..cut].to_vec());
        assert!(matches!(r, Err(CodecError::CorruptEncoding)));
    }
}

#[test]
fn trailing_bytes_are_corrupt() {
    let mut bytes = RawTransaction::new(b"abc".to_vec(), b"xy".to_vec(), 10).encode();
    bytes.push(0);
    assert!(matches!(RawTransaction::decode(&bytes), Err(CodecError::CorruptEncoding)));
}

#[test]
fn value_width_other_than_eight_is_corrupt() {
    let mut bytes = RawTransaction::new(b"a".to_vec(), b"b".to_vec(), 5).encode();
    bytes[25] = 4;
    assert!(matches!(RawTransaction::decode(&bytes), Err(CodecError::CorruptEncoding)));
}

#[test]
fn oversized_length_prefix_is_corrupt() {
    let mut bytes = RawTransaction::new(b"a".to_vec(), b"b".to_vec(), 5).encode();
    bytes[0] = 0xff;
    assert!(matches!(RawTransaction::decode(&bytes), Err(CodecError::CorruptEncoding)));
}
