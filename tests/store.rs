use dashmap::DashMap;
use ed25519_dalek::{Keypair, PublicKey, SecretKey};
use marc::{
    handle_frame, Database, NetErr, Network, Record, Rejection, UpdateMessage,
    ACCEPTED_PROTO_VERSION,
};

fn keypair(seed: u8) -> Keypair {
    let secret = SecretKey::from_bytes(&[seed; 32]).unwrap();
    let public = PublicKey::from(&secret);
    Keypair { secret, public }
}

fn signed(version: u8, timestamp: u64, label: &str, value: &str, key: &Keypair) -> UpdateMessage {
    let mut m =
        UpdateMessage::new(version, timestamp, label.to_string(), value.to_string(), None, None)
            .unwrap();
    m.sign(key);
    m
}

fn frame(timestamp: u64, label: &str, value: &str, key: &Keypair) -> Vec<u8> {
    signed(ACCEPTED_PROTO_VERSION, timestamp, label, value, key).networking_bytes().unwrap()
}

fn record(timestamp: u64, label: &str, value: &str, key: &Keypair) -> Record {
    Record::from_message(&signed(ACCEPTED_PROTO_VERSION, timestamp, label, value, key)).unwrap()
}

fn empty() -> Database {
    Database::new(DashMap::new())
}

fn stored(db: &Database, label: &str) -> Option<(String, [u8; 32], u64)> {
    db.records()
        .get(label)
        .map(|e| {
            let r = e.value();
            (r.value().to_string(), r.owner(), r.timestamp())
        })
}

#[test]
fn end_to_end_claim_update_and_refusal() {
    let k = keypair(1);
    let j = keypair(2);
    let mut db = empty();
    assert_eq!(handle_frame(&mut db, &frame(1000, "host.example", "1.2.3.4", &k)), Ok(()));
    assert_eq!(
        stored(&db, "host.example"),
        Some(("1.2.3.4".to_string(), k.public.to_bytes(), 1000))
    );
    assert_eq!(handle_frame(&mut db, &frame(1001, "host.example", "5.6.7.8", &k)), Ok(()));
    assert_eq!(
        stored(&db, "host.example"),
        Some(("5.6.7.8".to_string(), k.public.to_bytes(), 1001))
    );
    assert_eq!(
        handle_frame(&mut db, &frame(1002, "host.example", "9.9.9.9", &j)),
        Err(Rejection::Unauthorized)
    );
    assert_eq!(
        stored(&db, "host.example"),
        Some(("5.6.7.8".to_string(), k.public.to_bytes(), 1001))
    );
    assert_eq!(db.records().len(), 1);
}

#[test]
fn fresh_label_goes_to_first_claimant_only() {
    let a = keypair(10);
    let b = keypair(11);
    for (first, second) in [(&a, &b), (&b, &a)] {
        let mut db = empty();
        assert!(db.add_record("fresh", record(1, "fresh", "x", first)));
        assert!(!db.add_record("fresh", record(2, "fresh", "y", second)));
        assert_eq!(stored(&db, "fresh"), Some(("x".to_string(), first.public.to_bytes(), 1)));
    }
}

#[test]
fn claimant_keeps_overwriting_others_never() {
    let a = keypair(10);
    let b = keypair(11);
    let mut db = empty();
    assert!(db.add_record("l", record(1, "l", "v1", &a)));
    for t in 2..6u64 {
        assert!(!db.add_record("l", record(t, "l", "intruder", &b)));
        assert!(db.add_record("l", record(t, "l", &format!("v{}", t), &a)));
    }
    assert_eq!(stored(&db, "l"), Some(("v5".to_string(), a.public.to_bytes(), 5)));
}

#[test]
fn claims_on_different_labels_are_independent() {
    let a = keypair(10);
    let b = keypair(11);
    let mut db = empty();
    assert!(db.add_record("one", record(1, "one", "a", &a)));
    assert!(db.add_record("two", record(1, "two", "b", &b)));
    assert_eq!(db.records().len(), 2);
}

#[test]
fn record_signed_for_another_label_is_refused() {
    let a = keypair(10);
    let mut db = empty();
    assert!(!db.add_record("other", record(1, "mine", "v", &a)));
    assert_eq!(db.records().len(), 0);
}

#[test]
fn forged_record_is_refused_even_by_owner_key() {
    let a = keypair(10);
    let mut db = empty();
    let good = record(1, "l", "v", &a);
    let forged = Record::new(1, "w".to_string(), good.owner(), good.signature());
    assert!(!db.add_record("l", forged));
    assert!(db.add_record("l", good));
}

#[test]
fn preloaded_claim_is_respected() {
    let a = keypair(10);
    let b = keypair(11);
    let map = DashMap::new();
    map.insert("held".to_string(), record(1, "held", "v", &a));
    let mut db = Database::new(map);
    assert_eq!(
        handle_frame(&mut db, &frame(2, "held", "w", &b)),
        Err(Rejection::Unauthorized)
    );
    assert_eq!(handle_frame(&mut db, &frame(2, "held", "w", &a)), Ok(()));
    assert_eq!(stored(&db, "held").unwrap().0, "w");
}

#[test]
fn wrong_version_is_rejected() {
    let k = keypair(1);
    let mut db = empty();
    let bytes = signed(1, 1, "l", "v", &k).networking_bytes().unwrap();
    assert_eq!(handle_frame(&mut db, &bytes), Err(Rejection::WrongVersion(1)));
    assert_eq!(db.records().len(), 0);
}

#[test]
fn bad_signature_is_rejected() {
    let k = keypair(1);
    let mut db = empty();
    let mut bytes = frame(1, "label", "value", &k);
    let last = bytes.len() - 1;
    bytes[last] = b'X';
    assert_eq!(handle_frame(&mut db, &bytes), Err(Rejection::Unauthenticated));
    assert_eq!(db.records().len(), 0);
}

#[test]
fn undecodable_frame_is_rejected() {
    let mut db = empty();
    assert_eq!(
        handle_frame(&mut db, &[66u8; 20]),
        Err(Rejection::Decode(NetErr::NotEnoughData))
    );
    assert_eq!(db.records().len(), 0);
}

#[test]
fn record_from_unsigned_message_is_none() {
    let m = UpdateMessage::new(66, 1, "l".into(), "v".into(), None, None).unwrap();
    assert!(Record::from_message(&m).is_none());
}

#[test]
fn check_frame_gives_label_and_record() {
    let k = keypair(5);
    let (label, rec) = marc::check_frame(&frame(77, "a.b", "c", &k)).unwrap();
    assert_eq!(label, "a.b");
    assert_eq!(rec.value(), "c");
    assert_eq!(rec.timestamp(), 77);
    assert_eq!(rec.owner(), k.public.to_bytes());
}

#[test]
fn check_frame_rejects_bad_signature() {
    let k = keypair(5);
    let mut bytes = frame(77, "a.b", "c", &k);
    bytes[100] ^= 1;
    assert_eq!(marc::check_frame(&bytes).err(), Some(Rejection::Unauthenticated));
}
