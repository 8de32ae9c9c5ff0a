use aes::cipher::{BlockEncryptMut, KeyIvInit};
use scout_wrapper::channel::Connection;
use scout_wrapper::fields::{Field, FieldType, Fields, FieldsBuilder, FieldsError};
use scout_wrapper::padding::{pkcs7_pad, pkcs7_unpad, PaddingError};

fn sample() -> Fields {
    FieldsBuilder::new().add_int(42).add_str("ok").add_raw(vec![0x00, 0xFF]).build()
}

#[test]
fn encode_matches_wire_example() {
    let bytes = sample().to_bytes();
    let expected: Vec<u8> = vec![
        0, 0, 0, 0, 0, 0, 0, 0x1B, // body length: 13 + 7 + 7 bytes
        0, 0, 0, 9, 0, 0, 0, 0, 0, 0, 0, 0, 0x2A, // Int(42)
        0, 0, 0, 3, 2, 0x6F, 0x6B, // Text("ok")
        0, 0, 0, 3, 1, 0x00, 0xFF, // Raw(00 FF)
    ];
    assert_eq!(bytes, expected);
}

#[test]
fn decode_gives_fields_back() {
    let bytes = sample().to_bytes();
    let mut f = Fields::decode(&bytes).ok().unwrap();
    assert_eq!(f.len(), 3);
    let a = f.consume_int_field().ok().unwrap();
    assert_eq!(a.int_value(), Some(42));
    let b = f.consume_text_field().ok().unwrap();
    assert_eq!(b.value(), b"ok".to_vec());
    let c = f.consume_raw_field().ok().unwrap();
    assert_eq!(c.value(), vec![0x00, 0xFF]);
    assert!(matches!(f.consume_field(), Err(FieldsError::OutOfBounds)));
}

#[test]
fn round_trip_keeps_order_and_types() {
    let f = FieldsBuilder::new()
        .add_raw(vec![])
        .add_str("héllo")
        .add_int(-1)
        .add(FieldType::Text, vec![b'x'; 300])
        .build();
    let bytes = f.to_bytes();
    let g = Fields::decode(&bytes).ok().unwrap();
    assert_eq!(g.to_bytes(), bytes);
    assert_eq!(g.to_bytes_no_length(), f.to_bytes_no_length());
}

#[test]
fn empty_envelope_round_trips() {
    let f = FieldsBuilder::new().build();
    let bytes = f.to_bytes();
    assert_eq!(bytes, vec![0u8; 8]);
    let g = Fields::decode(&bytes).ok().unwrap();
    assert_eq!(g.len(), 0);
}

#[test]
fn declared_length_past_end_is_invalid() {
    let body = vec![0, 0, 0, 9, 0, 1, 2];
    assert!(matches!(Fields::from_bytes(&body), Err(FieldsError::InvalidData)));
    let zero_len = vec![0, 0, 0, 0, 1];
    assert!(matches!(Fields::from_bytes(&zero_len), Err(FieldsError::InvalidData)));
    let short_header = vec![0, 0, 1];
    assert!(matches!(Fields::from_bytes(&short_header), Err(FieldsError::InvalidData)));
}

#[test]
fn frame_length_must_match() {
    let mut bytes = sample().to_bytes();
    bytes.push(0);
    assert!(matches!(Fields::decode(&bytes), Err(FieldsError::InvalidData)));
    assert!(matches!(Fields::decode(&[0u8; 4]), Err(FieldsError::InvalidData)));
}

#[test]
fn cursor_reports_type_mismatch_and_moves_on() {
    let mut f = sample();
    assert!(matches!(f.consume_text_field(), Err(FieldsError::TypeMismatch)));
    let t = f.consume_text_field().ok().unwrap();
    assert_eq!(t.value(), b"ok".to_vec());
    f.seek(0);
    assert!(f.consume_int_field().is_ok());
}

#[test]
fn unknown_type_byte_reads_as_raw() {
    assert_eq!(FieldType::from_u8(7), FieldType::Raw);
    assert_eq!(FieldType::from_u8(0), FieldType::Int);
    assert_eq!(FieldType::from_u8(2), FieldType::Text);
    let body = vec![0, 0, 0, 2, 9, 0xAB];
    let mut f = Fields::from_bytes(&body).ok().unwrap();
    let r = f.consume_raw_field().ok().unwrap();
    assert_eq!(r.value(), vec![0xAB]);
}

#[test]
fn field_to_bytes_counts_type_byte() {
    let f = Field::new_raw(vec![1, 2, 3]);
    assert_eq!(f.to_bytes(), vec![0, 0, 0, 4, 1, 1, 2, 3]);
    let i = Field::new_int(0x0102030405060708);
    assert_eq!(i.value(), vec![1, 2, 3, 4, 5, 6, 7, 8]);
    assert_eq!(Field::new(FieldType::Raw, vec![1]).int_value(), None);
}

#[test]
fn pkcs7_pads_to_block_and_unpads() {
    let p = pkcs7_pad(&[1, 2, 3]);
    assert_eq!(p.len(), 16);
    assert_eq!(p[3..], [13u8; 13]);
    let full = pkcs7_pad(&[0u8; 16]);
    assert_eq!(full.len(), 32);
    assert_eq!(full[16..], [16u8; 16]);
    assert_eq!(pkcs7_unpad(&p).ok().unwrap(), vec![1, 2, 3]);
    assert_eq!(pkcs7_unpad(&full).ok().unwrap(), vec![0u8; 16]);
}

#[test]
fn pkcs7_unpad_errors() {
    assert_eq!(pkcs7_unpad(&[]).err(), Some(PaddingError::Empty));
    assert_eq!(pkcs7_unpad(&[1, 0]).err(), Some(PaddingError::BadPadding));
    assert_eq!(pkcs7_unpad(&[1, 17]).err(), Some(PaddingError::BadPadding));
    assert_eq!(pkcs7_unpad(&[5, 5]).err(), Some(PaddingError::BadPadding));
}

#[test]
fn plaintext_channel_frames_like_fields() {
    let c = Connection::new();
    let frame = c.frame_fields(&sample());
    assert_eq!(frame, sample().to_bytes());
    let back = c.open_frame(&frame).ok().unwrap();
    assert_eq!(back.to_bytes(), frame);
}

#[test]
fn encrypted_channel_round_trips() {
    let mut c = Connection::new();
    c.set_iv([7u8; 16]);
    c.set_session_key([9u8; 32]);
    c.enable_encryption();
    let body = sample().to_bytes_no_length();
    let frame = c.frame_fields(&sample());
    // ciphertext: padded body length, not the plain body
    assert_eq!(frame.len(), 8 + 32);
    assert_ne!(&frame[8..], &pkcs7_pad(&body)[..]);
    let back = c.open_frame(&frame).ok().unwrap();
    assert_eq!(back.to_bytes_no_length(), body);
}

#[test]
fn encrypted_channel_rejects_bad_ciphertext() {
    let mut c = Connection::new();
    c.set_iv([1u8; 16]);
    c.set_session_key([2u8; 32]);
    c.enable_encryption();
    assert!(matches!(c.open_payload(&[1, 2, 3]), Err(FieldsError::InvalidData)));
}

#[test]
fn encryption_needs_key_and_iv() {
    let mut c = Connection::new();
    c.enable_encryption();
    let frame = c.frame_fields(&sample());
    assert_eq!(frame, sample().to_bytes());
    c.set_iv([0u8; 16]);
    c.enable_encryption();
    assert_eq!(c.frame_fields(&sample()), sample().to_bytes());
}

#[test]
fn reset_clears_and_disconnects() {
    let mut c = Connection::new();
    c.attach();
    c.set_iv([3u8; 16]);
    c.set_session_key([4u8; 32]);
    c.enable_encryption();
    c.push_received(&[1, 2, 3]);
    assert!(c.is_connected());
    c.reset();
    assert!(!c.is_connected());
    assert_eq!(c.frame_fields(&sample()), sample().to_bytes());
    assert_eq!(c.take_frame(), None);
    c.reset();
    assert!(!c.is_connected());
}

#[test]
fn spill_yields_whole_frames_only() {
    let mut c = Connection::new();
    c.attach();
    let frame = sample().to_bytes();
    c.push_received(&frame[..10]);
    assert_eq!(c.take_frame(), None);
    c.push_received(&frame[10..]);
    c.push_received(&[0, 0]);
    let payload = c.take_frame().unwrap();
    assert_eq!(payload, frame[8..].to_vec());
    assert_eq!(c.take_frame(), None);
}

#[test]
fn text_reads_utf8_or_nothing() {
    let f = Field::new_str("héllo");
    assert_eq!(f.text(), "héllo");
    let bad = Field::new(FieldType::Text, vec![0xff, 0xfe]);
    assert_eq!(bad.text(), "");
}

#[test]
fn encrypted_channel_rejects_bad_padding() {
    let mut c = Connection::new();
    c.set_iv([1u8; 16]);
    c.set_session_key([2u8; 32]);
    c.enable_encryption();
    // one block whose plaintext ends in 0x00: never valid PKCS#7 padding
    let ct = cbc::Encryptor::<aes::Aes128>::new(&[2u8; 16].into(), &[1u8; 16].into())
        .encrypt_padded_vec_mut::<cbc::cipher::block_padding::NoPadding>(&[0u8; 16]);
    assert_eq!(ct.len(), 16);
    assert!(matches!(c.open_payload(&ct), Err(FieldsError::InvalidData)));
}

#[test]
fn ciphertext_length_is_padded_body() {
    let mut c = Connection::new();
    c.set_iv([7u8; 16]);
    c.set_session_key([9u8; 32]);
    c.enable_encryption();
    let sixteen = FieldsBuilder::new().add_raw(vec![0u8; 11]).build();
    assert_eq!(sixteen.to_bytes_no_length().len(), 16);
    assert_eq!(c.frame_fields(&sixteen).len(), 8 + 32);
}
