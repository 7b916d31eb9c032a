use ed25519_dalek::{Keypair, PublicKey, SecretKey, Signature, Verifier};
use marc::{NetErr, Network, UpdateMessage, MAX_FIELD_LEN, MIN_FRAME_LEN};

fn keypair(seed: u8) -> Keypair {
    let secret = SecretKey::from_bytes(&[seed; 32]).unwrap();
    let public = PublicKey::from(&secret);
    Keypair { secret, public }
}

fn message(timestamp: u64, label: &str, value: &str) -> UpdateMessage {
    UpdateMessage::new(66, timestamp, label.to_string(), value.to_string(), None, None).unwrap()
}

fn signed(timestamp: u64, label: &str, value: &str, key: &Keypair) -> UpdateMessage {
    let mut m = message(timestamp, label, value);
    m.sign(key);
    m
}

/// Bytes that are not a compressed curve point.
fn bad_key() -> [u8; 32] {
    let mut k = [0u8; 32];
    for b in 2u8..=255 {
        k[0] = b;
        if PublicKey::from_bytes(&k).is_err() {
            return k;
        }
    }
    panic!("no invalid key found");
}

#[test]
fn it_works() {
    assert_eq!(2 + 2, 4);
}

#[test]
fn payload_layout_is_exact() {
    let m = message(1000, "ab", "xyz");
    assert_eq!(
        m.as_message(),
        vec![0, 0, 0, 0, 0, 0, 3, 232, 2, b'a', b'b', 3, b'x', b'y', b'z']
    );
}

#[test]
fn payload_of_empty_fields() {
    let m = message(0x0102030405060708, "", "");
    assert_eq!(m.as_message(), vec![1, 2, 3, 4, 5, 6, 7, 8, 0, 0]);
}

#[test]
fn label_longer_than_bound_is_refused() {
    let long = "a".repeat(256);
    assert!(UpdateMessage::new(66, 1, long, "v".to_string(), None, None).is_err());
}

#[test]
fn value_longer_than_bound_is_refused() {
    let long = "a".repeat(256);
    assert!(UpdateMessage::new(66, 1, "l".to_string(), long, None, None).is_err());
}

#[test]
fn fields_at_the_bound_are_accepted() {
    let edge = "a".repeat(MAX_FIELD_LEN);
    let m = UpdateMessage::new(66, 1, edge.clone(), edge.clone(), None, None).unwrap();
    assert_eq!(m.label(), edge);
    assert_eq!(m.value(), edge);
}

#[test]
fn bound_counts_bytes_not_characters() {
    // 128 two-byte characters: 256 bytes.
    let wide = "é".repeat(128);
    assert!(UpdateMessage::new(66, 1, wide, String::new(), None, None).is_err());
}

#[test]
fn new_message_is_unsigned() {
    let m = message(5, "l", "v");
    assert!(!m.is_signed());
    assert_eq!(m.correct_signature(), None);
    assert_eq!(m.version(), 66);
    assert_eq!(m.timestamp(), 5);
}

#[test]
fn unsigned_message_has_no_wire_form() {
    let m = message(5, "l", "v");
    assert_eq!(m.networking_bytes(), Err(NetErr::BytesNotReady));
}

#[test]
fn sign_embeds_public_key_and_verifies() {
    let k = keypair(7);
    let m = signed(1000, "host.example", "1.2.3.4", &k);
    assert!(m.is_signed());
    assert_eq!(m.key(), Some(k.public.to_bytes()));
    let sig = Signature::from_bytes(&m.signature().unwrap()).unwrap();
    assert!(k.public.verify(&m.as_message(), &sig).is_ok());
    assert_eq!(m.correct_signature(), Some(true));
}

#[test]
fn altered_fields_fail_verification() {
    let k = keypair(7);
    let m = signed(1000, "host.example", "1.2.3.4", &k);
    let key = m.key();
    let sig = m.signature();
    let altered = [
        UpdateMessage::new(66, 1001, "host.example".into(), "1.2.3.4".into(), key, sig),
        UpdateMessage::new(66, 1000, "host.exampla".into(), "1.2.3.4".into(), key, sig),
        UpdateMessage::new(66, 1000, "host.example".into(), "1.2.3.5".into(), key, sig),
    ];
    for a in altered {
        assert_eq!(a.unwrap().correct_signature(), Some(false));
    }
}

#[test]
fn round_trip_reproduces_message() {
    let k = keypair(3);
    let m = signed(1_700_000_000, "host.example", "1.2.3.4", &k);
    let bytes = m.networking_bytes().unwrap();
    assert_eq!(bytes.len(), MIN_FRAME_LEN + 12 + 7);
    assert_eq!(bytes[0], 66);
    let d = UpdateMessage::from_networking(&bytes).unwrap();
    assert_eq!(d, m);
    assert_eq!(d.correct_signature(), Some(true));
}

#[test]
fn round_trip_of_empty_and_unicode_fields() {
    let k = keypair(4);
    for (l, v) in [("", ""), ("ünï", "€")] {
        let m = signed(9, l, v, &k);
        let d = UpdateMessage::from_networking(&m.networking_bytes().unwrap()).unwrap();
        assert_eq!(d.label(), l);
        assert_eq!(d.value(), v);
        assert_eq!(d, m);
    }
}

#[test]
fn short_input_is_not_enough_data() {
    for n in [0usize, 1, 50, MIN_FRAME_LEN - 1] {
        let bytes = vec![0u8; n];
        assert_eq!(UpdateMessage::from_networking(&bytes), Err(NetErr::NotEnoughData));
    }
}

#[test]
fn declared_label_length_past_end_is_not_enough_data() {
    let k = keypair(3);
    let mut bytes = signed(1, "abc", "de", &k).networking_bytes().unwrap();
    bytes[105] = 200;
    assert_eq!(UpdateMessage::from_networking(&bytes), Err(NetErr::NotEnoughData));
}

#[test]
fn declared_value_length_past_end_is_not_enough_data() {
    let k = keypair(3);
    let mut bytes = signed(1, "abc", "de", &k).networking_bytes().unwrap();
    bytes[109] = 3;
    assert_eq!(UpdateMessage::from_networking(&bytes), Err(NetErr::NotEnoughData));
    bytes.truncate(bytes.len() - 1);
    bytes[109] = 2;
    assert_eq!(UpdateMessage::from_networking(&bytes), Err(NetErr::NotEnoughData));
}

#[test]
fn trailing_bytes_are_malformed() {
    let k = keypair(3);
    let mut bytes = signed(1, "abc", "de", &k).networking_bytes().unwrap();
    bytes.push(0);
    assert_eq!(UpdateMessage::from_networking(&bytes), Err(NetErr::MalformedData));
}

#[test]
fn invalid_key_is_malformed() {
    let k = keypair(3);
    let mut bytes = signed(1, "abc", "de", &k).networking_bytes().unwrap();
    bytes[1..33].copy_from_slice(&bad_key());
    assert_eq!(UpdateMessage::from_networking(&bytes), Err(NetErr::MalformedData));
}

#[test]
fn unreduced_signature_is_malformed() {
    let k = keypair(3);
    let mut bytes = signed(1, "abc", "de", &k).networking_bytes().unwrap();
    bytes[96] |= 0xe0;
    assert_eq!(UpdateMessage::from_networking(&bytes), Err(NetErr::MalformedData));
}

#[test]
fn invalid_utf8_is_malformed() {
    let k = keypair(3);
    let mut bytes = signed(1, "abc", "de", &k).networking_bytes().unwrap();
    bytes[106] = 0xff;
    assert_eq!(UpdateMessage::from_networking(&bytes), Err(NetErr::MalformedData));
    let mut bytes = signed(1, "abc", "de", &k).networking_bytes().unwrap();
    bytes[110] = 0xc3;
    assert_eq!(UpdateMessage::from_networking(&bytes), Err(NetErr::MalformedData));
}

#[test]
fn timestamp_is_big_endian_on_the_wire() {
    let k = keypair(3);
    let bytes = signed(0x0102030405060708, "", "", &k).networking_bytes().unwrap();
    assert_eq!(&bytes[97..105], &[1, 2, 3, 4, 5, 6, 7, 8]);
    let d = UpdateMessage::from_networking(&bytes).unwrap();
    assert_eq!(d.timestamp(), 0x0102030405060708);
}

#[test]
fn unit_error_becomes_malformed_data() {
    assert_eq!(NetErr::from(()), NetErr::MalformedData);
}
