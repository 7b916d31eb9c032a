use crate::crypto::{ed25519_signature, ed25519_verifies, keypair_sign, verify_signature};
use ed25519_dalek::Keypair;
use vstd::prelude::*;
use vstd::utf8::encode_utf8;

verus! {

/// The longest label or value, in bytes: its length must fit one byte.
pub const MAX_FIELD_LEN: usize = 255;

/// The eight bytes of `x`, most significant first.
pub open spec fn be_u64(x: u64) -> Seq<u8> {
    seq![
        ((x >> 56u64) & 0xffu64) as u8,
        ((x >> 48u64) & 0xffu64) as u8,
        ((x >> 40u64) & 0xffu64) as u8,
        ((x >> 32u64) & 0xffu64) as u8,
        ((x >> 24u64) & 0xffu64) as u8,
        ((x >> 16u64) & 0xffu64) as u8,
        ((x >> 8u64) & 0xffu64) as u8,
        (x & 0xffu64) as u8,
    ]
}

/// The number that eight bytes hold, most significant first.
pub open spec fn from_be_u64(b: Seq<u8>) -> u64
    recommends
        b.len() == 8,
{
    ((b[0] as u64) << 56u64) | ((b[1] as u64) << 48u64) | ((b[2] as u64) << 40u64) | ((
    b[3] as u64) << 32u64) | ((b[4] as u64) << 24u64) | ((b[5] as u64) << 16u64) | ((
    b[6] as u64) << 8u64) | (b[7] as u64)
}

/// The bytes of a string.
pub open spec fn utf8(s: Seq<char>) -> Seq<u8> {
    encode_utf8(s)
}

/// A field together with the byte that gives its length.
pub open spec fn length_prefixed(field: Seq<u8>) -> Seq<u8> {
    seq![field.len() as u8] + field
}

/// The canonical payload that is signed: the timestamp, then the label and
/// the value, each after its length.
pub open spec fn payload(timestamp: u64, label: Seq<u8>, value: Seq<u8>) -> Seq<u8> {
    be_u64(timestamp) + length_prefixed(label) + length_prefixed(value)
}

/// The bytes of an optional public key.
pub open spec fn key_view(k: Option<[u8; 32]>) -> Option<Seq<u8>> {
    match k {
        Some(k) => Some(k@),
        None => None,
    }
}

/// The bytes of an optional signature.
pub open spec fn signature_view(s: Option<[u8; 64]>) -> Option<Seq<u8>> {
    match s {
        Some(s) => Some(s@),
        None => None,
    }
}

/// What an update message holds, as mathematical values.
pub ghost struct MessageView {
    pub version: u8,
    pub public_key: Option<Seq<u8>>,
    pub signature: Option<Seq<u8>>,
    pub timestamp: u64,
    pub label: Seq<char>,
    pub value: Seq<char>,
}

impl MessageView {
    /// Label and value both fit the length bound.
    pub open spec fn well_formed(self) -> bool {
        &&& utf8(self.label).len() <= MAX_FIELD_LEN
        &&& utf8(self.value).len() <= MAX_FIELD_LEN
        &&& (self.public_key matches Some(k) ==> k.len() == 32)
        &&& (self.signature matches Some(s) ==> s.len() == 64)
    }

    /// Both the public key and the signature are present.
    pub open spec fn signed(self) -> bool {
        self.public_key is Some && self.signature is Some
    }

    /// The payload that the signature of this message covers.
    pub open spec fn payload(self) -> Seq<u8> {
        payload(self.timestamp, utf8(self.label), utf8(self.value))
    }

    /// The outcome of checking the signature: `None` when the message is not
    /// signed, else whether the signature verifies on the payload under the
    /// embedded key.
    pub open spec fn signature_check(self) -> Option<bool> {
        match (self.public_key, self.signature) {
            (Some(k), Some(s)) => Some(ed25519_verifies(k, self.payload(), s)),
            _ => None,
        }
    }
}

/// One update request: a label, the value to file under it, and, once signed,
/// the signer's public key and signature.
#[derive(Debug, PartialEq, Eq)]
pub struct UpdateMessage {
    version: u8,
    public_key: Option<[u8; 32]>,
    signature: Option<[u8; 64]>,
    timestamp: u64,
    label: String,
    value: String,
}

impl View for UpdateMessage {
    type V = MessageView;

    closed spec fn view(&self) -> MessageView {
        MessageView {
            version: self.version,
            public_key: key_view(self.public_key),
            signature: signature_view(self.signature),
            timestamp: self.timestamp,
            label: self.label@,
            value: self.value@,
        }
    }
}

/// Appends the eight bytes of `x`, most significant first.
pub(crate) fn push_u64_be(buf: &mut Vec<u8>, x: u64)
    ensures
        final(buf)@ == old(buf)@ + be_u64(x),
{
    buf.push(((x >> 56u64) & 0xffu64) as u8);
    buf.push(((x >> 48u64) & 0xffu64) as u8);
    buf.push(((x >> 40u64) & 0xffu64) as u8);
    buf.push(((x >> 32u64) & 0xffu64) as u8);
    buf.push(((x >> 24u64) & 0xffu64) as u8);
    buf.push(((x >> 16u64) & 0xffu64) as u8);
    buf.push(((x >> 8u64) & 0xffu64) as u8);
    buf.push((x & 0xffu64) as u8);
    assert(final(buf)@ =~= old(buf)@ + be_u64(x));
}

/// Appends all of `src`.
pub(crate) fn push_all(buf: &mut Vec<u8>, src: &[u8])
    ensures
        final(buf)@ == old(buf)@ + src@,
{
    let ghost start = buf@;
    let mut i: usize = 0;
    while i < src.len()
        invariant
            i <= src@.len(),
            buf@ == start + src@.subrange(0, i as int),
        decreases src@.len() - i,
    {
        buf.push(src[i]);
        i = i + 1;
        assert(buf@ =~= start + src@.subrange(0, i as int));
    }
    assert(src@.subrange(0, i as int) =~= src@);
}

/// Appends the canonical payload of these fields.
pub(crate) fn push_payload(buf: &mut Vec<u8>, timestamp: u64, label: &str, value: &str)
    requires
        utf8(label@).len() <= MAX_FIELD_LEN,
        utf8(value@).len() <= MAX_FIELD_LEN,
    ensures
        final(buf)@ == old(buf)@ + payload(timestamp, utf8(label@), utf8(value@)),
{
    let ghost start = buf@;
    push_u64_be(buf, timestamp);
    let lb = label.as_bytes();
    buf.push(lb.len() as u8);
    push_all(buf, lb);
    let vb = value.as_bytes();
    buf.push(vb.len() as u8);
    push_all(buf, vb);
    assert(buf@ =~= start + payload(timestamp, utf8(label@), utf8(value@)));
}

impl UpdateMessage {
    #[verifier::type_invariant]
    pub(crate) closed spec fn inv(self) -> bool {
        self@.well_formed()
    }

    /// Builds a message; a label or a value longer than 255 bytes is refused.
    pub fn new(
        version: u8,
        timestamp: u64,
        label: String,
        value: String,
        key: Option<[u8; 32]>,
        signature: Option<[u8; 64]>,
    ) -> (r: Result<UpdateMessage, ()>)
        ensures
            r is Ok <==> utf8(label@).len() <= MAX_FIELD_LEN && utf8(value@).len()
                <= MAX_FIELD_LEN,
            r matches Ok(m) ==> m@ == (MessageView {
                version,
                public_key: key_view(key),
                signature: signature_view(signature),
                timestamp,
                label: label@,
                value: value@,
            }),
    {
        if label.as_str().as_bytes().len() > MAX_FIELD_LEN || value.as_str().as_bytes().len()
            > MAX_FIELD_LEN {
            return Err(());
        }
        Ok(UpdateMessage { version, public_key: key, signature, timestamp, label, value })
    }

    /// The canonical payload of this message: the bytes that are signed.
    pub fn as_message(&self) -> (r: Vec<u8>)
        ensures
            r@ == self@.payload(),
    {
        proof {
            use_type_invariant(self);
        }
        let mut buf: Vec<u8> = Vec::new();
        push_payload(&mut buf, self.timestamp, self.label.as_str(), self.value.as_str());
        assert(buf@ =~= self@.payload());
        buf
    }

    /// Signs the payload with `key` and sets the public key and signature.
    /// The key embedded is the public half of `key`.
    pub fn sign(&mut self, key: &Keypair)
        ensures
            final(self)@.version == old(self)@.version,
            final(self)@.timestamp == old(self)@.timestamp,
            final(self)@.label == old(self)@.label,
            final(self)@.value == old(self)@.value,
            final(self)@.signed(),
            exists|kp: Seq<u8>|
                #![trigger ed25519_signature(kp, old(self)@.payload())]
                kp.len() == 64 && final(self)@.public_key == Some(kp.subrange(32, 64))
                    && final(self)@.signature == Some(ed25519_signature(kp, old(self)@.payload())),
    {
        proof {
            use_type_invariant(&*self);
        }
        let to_sign = self.as_message();
        let (pair, sig) = keypair_sign(key, to_sign.as_slice());
        let mut public: [u8; 32] = [0u8; 32];
        let mut i: usize = 0;
        while i < 32
            invariant
                0 <= i <= 32,
                pair@.len() == 64,
                public@.len() == 32,
                forall|j: int| 0 <= j < i ==> public@[j] == pair@[j + 32],
            decreases 32 - i,
        {
            public[i] = pair[i + 32];
            i = i + 1;
        }
        assert(public@ =~= pair@.subrange(32, 64));
        self.signature = Some(sig);
        self.public_key = Some(public);
    }

    /// Checks the signature: `None` when the key or the signature is missing,
    /// else whether the signature verifies on this message's own payload
    /// under the embedded key.
    pub fn correct_signature(&self) -> (r: Option<bool>)
        ensures
            r == self@.signature_check(),
    {
        match (&self.public_key, &self.signature) {
            (Some(k), Some(s)) => {
                let msg = self.as_message();
                Some(verify_signature(k, msg.as_slice(), s))
            },
            _ => None,
        }
    }

    pub fn version(&self) -> (r: u8)
        ensures
            r == self@.version,
    {
        self.version
    }

    pub fn key(&self) -> (r: Option<[u8; 32]>)
        ensures
            key_view(r) == self@.public_key,
    {
        self.public_key
    }

    pub fn signature(&self) -> (r: Option<[u8; 64]>)
        ensures
            signature_view(r) == self@.signature,
    {
        self.signature
    }

    pub fn timestamp(&self) -> (r: u64)
        ensures
            r == self@.timestamp,
    {
        self.timestamp
    }

    pub fn label(&self) -> (r: &str)
        ensures
            r@ == self@.label,
    {
        self.label.as_str()
    }

    pub fn value(&self) -> (r: &str)
        ensures
            r@ == self@.value,
    {
        self.value.as_str()
    }

    /// Whether both the public key and the signature are present.
    pub fn is_signed(&self) -> (r: bool)
        ensures
            r == self@.signed(),
    {
        self.public_key.is_some() && self.signature.is_some()
    }
}

/// What the check of a signed message runs: for a message signed with the
/// keypair whose bytes are `keypair`, the signature that keypair made on the
/// message's own payload, against the keypair's public half.
pub proof fn lemma_check_of_signed_message(m: MessageView, keypair: Seq<u8>)
    requires
        keypair.len() == 64,
        m.public_key == Some(keypair.subrange(32, 64)),
        m.signature == Some(ed25519_signature(keypair, m.payload())),
    ensures
        m.signature_check() == Some(
            ed25519_verifies(
                keypair.subrange(32, 64),
                m.payload(),
                ed25519_signature(keypair, m.payload()),
            ),
        ),
{
}

} // verus!
