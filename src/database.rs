use crate::crypto::{ed25519_verifies, verify_signature};
use crate::update::{payload, push_payload, utf8, UpdateMessage, MAX_FIELD_LEN};
use dashmap::DashMap;
use vstd::prelude::*;

verus! {

#[verifier::external_type_specification]
#[verifier::external_body]
#[verifier::reject_recursive_types(K)]
#[verifier::reject_recursive_types(V)]
#[verifier::reject_recursive_types(S)]
pub struct ExDashMap<K, V, S>(DashMap<K, V, S>);

/// What a stored record holds, as mathematical values.
pub ghost struct RecordView {
    pub timestamp: u64,
    pub value: Seq<char>,
    pub owner: Seq<u8>,
    pub signature: Seq<u8>,
}

/// The records that a map holds, by label.
pub uninterp spec fn stored_records(m: DashMap<String, Record>) -> Map<Seq<char>, RecordView>;

/// Relies on `DashMap::get`: the entry under `key`, if there is one; only its
/// owner is read out.
#[verifier::external_body]
fn owner_at(m: &DashMap<String, Record>, key: &str) -> (r: Option<[u8; 32]>)
    ensures
        r is Some <==> stored_records(*m).contains_key(key@),
        r matches Some(o) ==> o@ == stored_records(*m)[key@].owner,
{
    m.get(key).map(|e| e.value().owner)
}

/// Relies on `DashMap::insert`: afterwards `key` maps to `rec`, and every
/// other key to what it mapped to before.
#[verifier::external_body]
fn insert_record(m: &mut DashMap<String, Record>, key: String, rec: Record)
    ensures
        stored_records(*final(m)) == stored_records(*old(m)).insert(key@, rec@),
{
    m.insert(key, rec);
}

/// The last accepted signed update of a label.
#[derive(Debug)]
pub struct Record {
    timestamp: u64,
    value: String,
    owner: [u8; 32],
    signature: [u8; 64],
}

impl View for Record {
    type V = RecordView;

    closed spec fn view(&self) -> RecordView {
        RecordView {
            timestamp: self.timestamp,
            value: self.value@,
            owner: self.owner@,
            signature: self.signature@,
        }
    }
}

/// Whether `rec` carries a valid signature, by its owner, on the canonical
/// payload of its timestamp, `label` and its value.
pub open spec fn record_verifies(label: Seq<char>, rec: RecordView) -> bool {
    &&& utf8(label).len() <= MAX_FIELD_LEN
    &&& utf8(rec.value).len() <= MAX_FIELD_LEN
    &&& ed25519_verifies(rec.owner, payload(rec.timestamp, utf8(label), utf8(rec.value)), rec.signature)
}

/// Whether `owner` may write `label`: nobody holds it yet, or `owner` does.
pub open spec fn owner_may_write(
    store: Map<Seq<char>, RecordView>,
    label: Seq<char>,
    owner: Seq<u8>,
) -> bool {
    !store.contains_key(label) || store[label].owner == owner
}

/// Whether a claim of `label` with `rec` is accepted.
pub open spec fn claim_allowed(
    store: Map<Seq<char>, RecordView>,
    label: Seq<char>,
    rec: RecordView,
) -> bool {
    owner_may_write(store, label, rec.owner) && record_verifies(label, rec)
}

/// The store after a claim of `label` with `rec`.
pub open spec fn after_claim(
    store: Map<Seq<char>, RecordView>,
    label: Seq<char>,
    rec: RecordView,
) -> Map<Seq<char>, RecordView> {
    if claim_allowed(store, label, rec) {
        store.insert(label, rec)
    } else {
        store
    }
}

/// Whether two keys are the same, byte for byte.
fn same_key(a: &[u8; 32], b: &[u8; 32]) -> (r: bool)
    ensures
        r == (a@ == b@),
{
    let mut i: usize = 0;
    while i < 32
        invariant
            0 <= i <= 32,
            a@.len() == 32,
            b@.len() == 32,
            forall|j: int| 0 <= j < i ==> a@[j] == b@[j],
        decreases 32 - i,
    {
        if a[i] != b[i] {
            return false;
        }
        i = i + 1;
    }
    assert(a@ =~= b@);
    true
}

impl Record {
    pub fn new(timestamp: u64, value: String, owner: [u8; 32], signature: [u8; 64]) -> (r: Record)
        ensures
            r@ == (RecordView {
                timestamp,
                value: value@,
                owner: owner@,
                signature: signature@,
            }),
    {
        Record { timestamp, value, owner, signature }
    }

    /// The record that a signed message asks to store; `None` for a message
    /// that is not signed.
    pub fn from_message(message: &UpdateMessage) -> (r: Option<Record>)
        ensures
            r is Some <==> message@.signed(),
            r matches Some(rec) ==> rec@ == (RecordView {
                timestamp: message@.timestamp,
                value: message@.value,
                owner: message@.public_key.unwrap(),
                signature: message@.signature.unwrap(),
            }),
    {
        match (message.key(), message.signature()) {
            (Some(owner), Some(signature)) => Some(
                Record::new(message.timestamp(), message.value().to_owned(), owner, signature),
            ),
            _ => None,
        }
    }

    pub fn timestamp(&self) -> (r: u64)
        ensures
            r == self@.timestamp,
    {
        self.timestamp
    }

    pub fn value(&self) -> (r: &str)
        ensures
            r@ == self@.value,
    {
        self.value.as_str()
    }

    pub fn owner(&self) -> (r: [u8; 32])
        ensures
            r@ == self@.owner,
    {
        self.owner
    }

    pub fn signature(&self) -> (r: [u8; 64])
        ensures
            r@ == self@.signature,
    {
        self.signature
    }

    /// Checks this record's signature against the payload rebuilt from its
    /// own timestamp and value and `label`.
    fn check_signature(&self, label: &str) -> (r: bool)
        ensures
            r == record_verifies(label@, self@),
    {
        if label.as_bytes().len() > MAX_FIELD_LEN || self.value.as_str().as_bytes().len()
            > MAX_FIELD_LEN {
            return false;
        }
        let mut bytes: Vec<u8> = Vec::new();
        push_payload(&mut bytes, self.timestamp, label, self.value.as_str());
        assert(bytes@ =~= payload(self.timestamp, utf8(label@), utf8(self.value@)));
        verify_signature(&self.owner, bytes.as_slice(), &self.signature)
    }
}

/// The records by label, where only the first signer of a label may write
/// it again.
pub struct Database {
    records: DashMap<String, Record>,
}

impl View for Database {
    type V = Map<Seq<char>, RecordView>;

    closed spec fn view(&self) -> Map<Seq<char>, RecordView> {
        stored_records(self.records)
    }
}

impl Database {
    /// A store over records loaded from elsewhere.
    pub fn new(records: DashMap<String, Record>) -> (r: Database)
        ensures
            r@ == stored_records(records),
    {
        Database { records }
    }

    pub fn records(&self) -> (r: &DashMap<String, Record>)
        ensures
            stored_records(*r) == self@,
    {
        &self.records
    }

    /// Whether `new_rec` may go under `key` without taking it from another
    /// owner.
    fn can_insert_at(&self, key: &str, new_rec: &Record) -> (r: bool)
        ensures
            r == owner_may_write(self@, key@, new_rec@.owner),
    {
        match owner_at(&self.records, key) {
            Some(current) => same_key(&current, &new_rec.owner),
            None => true,
        }
    }

    /// Claims `key` with `new`: stored when `key` is free or already owned
    /// by `new`'s owner, and `new`'s signature verifies; else nothing changes.
    pub fn add_record(&mut self, key: &str, new: Record) -> (r: bool)
        ensures
            r == claim_allowed(old(self)@, key@, new@),
            final(self)@ == after_claim(old(self)@, key@, new@),
    {
        if self.can_insert_at(key, &new) && new.check_signature(key) {
            insert_record(&mut self.records, key.to_owned(), new);
            return true;
        }
        false
    }
}

/// A fresh label goes to whichever of two owners claims it first: that claim
/// succeeds, the other is refused, and the first owner keeps the label.
pub proof fn lemma_claim_exclusive(
    store: Map<Seq<char>, RecordView>,
    label: Seq<char>,
    first: RecordView,
    second: RecordView,
)
    requires
        !store.contains_key(label),
        first.owner != second.owner,
        record_verifies(label, first),
        record_verifies(label, second),
    ensures
        claim_allowed(store, label, first),
        !claim_allowed(after_claim(store, label, first), label, second),
        after_claim(after_claim(store, label, first), label, second)[label] == first,
{
}

/// Once a label is held, a validly signed update from its owner is always
/// accepted, and one from any other key is always refused.
pub proof fn lemma_claim_continuity(
    store: Map<Seq<char>, RecordView>,
    label: Seq<char>,
    update: RecordView,
)
    requires
        store.contains_key(label),
        record_verifies(label, update),
    ensures
        claim_allowed(store, label, update) <==> update.owner == store[label].owner,
        update.owner == store[label].owner ==> after_claim(store, label, update)[label] == update,
        update.owner != store[label].owner ==> after_claim(store, label, update) == store,
{
}

} // verus!
