use crate::crypto::{is_public_key, is_signature_encoding, public_key_parses, signature_parses};
use crate::errors::NetErr;
use crate::update::{
    be_u64, from_be_u64, push_all, utf8, MessageView,
    UpdateMessage, MAX_FIELD_LEN,
};
use vstd::prelude::*;
use vstd::utf8::{decode_utf8, valid_utf8};

verus! {

/// The shortest frame: version, key, signature, timestamp and the two length
/// bytes of an empty label and an empty value.
pub const MIN_FRAME_LEN: usize = 107;

/// The longest frame: a label and a value of 255 bytes each.
pub const MAX_FRAME_LEN: usize = 617;

/// Where the label's length byte stands in a frame.
pub const LABEL_LEN_AT: usize = 105;

/// Objects that can be sent over the network as bytes and read back.
pub trait Network: Sized {
    /// The bytes that represent this object on the wire.
    fn networking_bytes(&self) -> Result<Vec<u8>, NetErr>;

    /// Reads an object back from untrusted bytes.
    fn from_networking(bytes: &[u8]) -> Result<Self, NetErr>;
}

/// The frame of a signed message: version, public key, signature, then the
/// canonical payload.
pub open spec fn encode_frame(m: MessageView) -> Seq<u8>
    recommends
        m.signed(),
{
    seq![m.version] + m.public_key.unwrap() + m.signature.unwrap() + m.payload()
}

/// What a frame decodes to, read front to back: a frame shorter than its
/// fixed part or than a length it declares is `NotEnoughData`; a key or
/// signature that does not parse, bytes after the value, or a label or value
/// that is not UTF-8 is `MalformedData`.
pub open spec fn decode_frame(b: Seq<u8>) -> Result<MessageView, NetErr> {
    if b.len() < MIN_FRAME_LEN {
        Err(NetErr::NotEnoughData)
    } else if !is_public_key(b.subrange(1, 33)) || !is_signature_encoding(b.subrange(33, 97)) {
        Err(NetErr::MalformedData)
    } else {
        let label_len = b[105] as int;
        if 107 + label_len > b.len() {
            Err(NetErr::NotEnoughData)
        } else {
            let value_len = b[106 + label_len] as int;
            let end = 107 + label_len + value_len;
            if end > b.len() {
                Err(NetErr::NotEnoughData)
            } else if end < b.len() {
                Err(NetErr::MalformedData)
            } else {
                let label = b.subrange(106, 106 + label_len);
                let value = b.subrange(107 + label_len, end);
                if !valid_utf8(label) || !valid_utf8(value) {
                    Err(NetErr::MalformedData)
                } else {
                    Ok(
                        MessageView {
                            version: b[0],
                            public_key: Some(b.subrange(1, 33)),
                            signature: Some(b.subrange(33, 97)),
                            timestamp: from_be_u64(b.subrange(97, 105)),
                            label: decode_utf8(label),
                            value: decode_utf8(value),
                        },
                    )
                }
            }
        }
    }
}

/// Relies on `String::from_utf8`: it succeeds exactly on valid UTF-8, and then
/// holds the characters that the bytes encode.
#[verifier::external_body]
fn string_from_utf8(bytes: Vec<u8>) -> (r: Option<String>)
    ensures
        r is Some <==> valid_utf8(bytes@),
        r matches Some(s) ==> s@ == decode_utf8(bytes@),
{
    String::from_utf8(bytes).ok()
}

/// The `N` bytes of `b` from `start` on.
fn read_array<const N: usize>(b: &[u8], start: usize) -> (r: [u8; N])
    requires
        start + N <= b@.len(),
    ensures
        r@ == b@.subrange(start as int, start + N),
{
    let blen = b.len();
    let mut out: [u8; N] = [0u8; N];
    let mut i: usize = 0;
    while i < N
        invariant
            i <= N,
            blen == b@.len(),
            start + N <= b@.len(),
            out@.len() == N,
            forall|j: int| 0 <= j < i ==> out@[j] == b@[start + j],
        decreases N - i,
    {
        out[i] = b[start + i];
        i = i + 1;
    }
    assert(out@ =~= b@.subrange(start as int, start + N));
    out
}

/// The `len` bytes of `b` from `start` on, as a vector.
fn read_vec(b: &[u8], start: usize, len: usize) -> (r: Vec<u8>)
    requires
        start + len <= b@.len(),
    ensures
        r@ == b@.subrange(start as int, start + len),
{
    let blen = b.len();
    let mut out: Vec<u8> = Vec::new();
    let mut i: usize = 0;
    while i < len
        invariant
            i <= len,
            blen == b@.len(),
            start + len <= b@.len(),
            out@ == b@.subrange(start as int, start + i),
        decreases len - i,
    {
        out.push(b[start + i]);
        i = i + 1;
        assert(out@ =~= b@.subrange(start as int, start + i));
    }
    out
}

/// The number in eight bytes of `b` from `start` on, most significant first.
fn read_u64_be(b: &[u8], start: usize) -> (r: u64)
    requires
        start + 8 <= b@.len(),
    ensures
        r == from_be_u64(b@.subrange(start as int, start + 8)),
{
    ((b[start] as u64) << 56u64) | ((b[start + 1] as u64) << 48u64) | ((b[start + 2] as u64)
        << 40u64) | ((b[start + 3] as u64) << 32u64) | ((b[start + 4] as u64) << 24u64) | ((b[start
        + 5] as u64) << 16u64) | ((b[start + 6] as u64) << 8u64) | (b[start + 7] as u64)
}

impl Network for UpdateMessage {
    /// `BytesNotReady` for an unsigned message, else its frame.
    fn networking_bytes(&self) -> (r: Result<Vec<u8>, NetErr>)
        ensures
            !self@.signed() ==> r == Err::<Vec<u8>, NetErr>(NetErr::BytesNotReady),
            self@.signed() ==> (r matches Ok(b) && b@ == encode_frame(self@)),
    {
        match (self.key(), self.signature()) {
            (Some(k), Some(s)) => {
                let mut buf: Vec<u8> = Vec::new();
                buf.push(self.version());
                push_all(&mut buf, &k);
                push_all(&mut buf, &s);
                let payload = self.as_message();
                push_all(&mut buf, payload.as_slice());
                assert(buf@ =~= encode_frame(self@));
                Ok(buf)
            },
            _ => Err(NetErr::BytesNotReady),
        }
    }

    /// Decodes a frame, checking every length against what is left before
    /// reading.
    fn from_networking(bytes: &[u8]) -> (r: Result<UpdateMessage, NetErr>)
        ensures
            r matches Ok(m) ==> decode_frame(bytes@) == Ok::<MessageView, NetErr>(m@),
            r matches Err(e) ==> decode_frame(bytes@) == Err::<MessageView, NetErr>(e),
    {
        let n = bytes.len();
        if n < MIN_FRAME_LEN {
            return Err(NetErr::NotEnoughData);
        }
        let version = bytes[0];
        let key: [u8; 32] = read_array(bytes, 1);
        let sig: [u8; 64] = read_array(bytes, 33);
        if !public_key_parses(&key) || !signature_parses(&sig) {
            return Err(NetErr::MalformedData);
        }
        let timestamp = read_u64_be(bytes, 97);
        let label_len = bytes[LABEL_LEN_AT] as usize;
        if 107 + label_len > n {
            return Err(NetErr::NotEnoughData);
        }
        let value_len = bytes[106 + label_len] as usize;
        let end = 107 + label_len + value_len;
        if end > n {
            return Err(NetErr::NotEnoughData);
        }
        if end < n {
            return Err(NetErr::MalformedData);
        }
        let label_bytes = read_vec(bytes, 106, label_len);
        let value_bytes = read_vec(bytes, 107 + label_len, value_len);
        let label = match string_from_utf8(label_bytes) {
            Some(s) => s,
            None => return Err(NetErr::MalformedData),
        };
        let value = match string_from_utf8(value_bytes) {
            Some(s) => s,
            None => return Err(NetErr::MalformedData),
        };
        proof {
            lemma_decoded_fields_fit(bytes@.subrange(106, 106 + label_len as int));
            lemma_decoded_fields_fit(bytes@.subrange(107 + label_len as int, end as int));
        }
        match UpdateMessage::new(version, timestamp, label, value, Some(key), Some(sig)) {
            Ok(m) => Ok(m),
            Err(_) => Err(NetErr::MalformedData),
        }
    }
}

/// Valid UTF-8 of at most 255 bytes decodes to a string of at most 255 bytes.
proof fn lemma_decoded_fields_fit(b: Seq<u8>)
    requires
        b.len() <= MAX_FIELD_LEN,
    ensures
        valid_utf8(b) ==> utf8(decode_utf8(b)).len() <= MAX_FIELD_LEN,
{
    broadcast use vstd::utf8::decode_utf8_encode_utf8;

    if valid_utf8(b) {
        assert(utf8(decode_utf8(b)) == b);
    }
}

/// Eight bytes written most significant first read back as the same number.
pub proof fn lemma_be_u64_round_trip(x: u64)
    ensures
        from_be_u64(be_u64(x)) == x,
{
    let b = be_u64(x);
    assert(b[0] == ((x >> 56u64) & 0xffu64) as u8);
    assert(b[1] == ((x >> 48u64) & 0xffu64) as u8);
    assert(b[2] == ((x >> 40u64) & 0xffu64) as u8);
    assert(b[3] == ((x >> 32u64) & 0xffu64) as u8);
    assert(b[4] == ((x >> 24u64) & 0xffu64) as u8);
    assert(b[5] == ((x >> 16u64) & 0xffu64) as u8);
    assert(b[6] == ((x >> 8u64) & 0xffu64) as u8);
    assert(b[7] == (x & 0xffu64) as u8);
    assert(((((x >> 56u64) & 0xffu64) as u8 as u64) << 56u64) | ((((x >> 48u64) & 0xffu64) as u8
        as u64) << 48u64) | ((((x >> 40u64) & 0xffu64) as u8 as u64) << 40u64) | ((((x >> 32u64)
        & 0xffu64) as u8 as u64) << 32u64) | ((((x >> 24u64) & 0xffu64) as u8 as u64) << 24u64)
        | ((((x >> 16u64) & 0xffu64) as u8 as u64) << 16u64) | ((((x >> 8u64) & 0xffu64) as u8
        as u64) << 8u64) | ((x & 0xffu64) as u8 as u64) == x) by (bit_vector);
}

/// Decoding the frame of a signed, well-formed message gives back an equal
/// message, for any key that is a curve point and any signature that passes
/// the scalar check (as every signature that a keypair makes does).
pub proof fn lemma_round_trip(m: MessageView)
    requires
        m.well_formed(),
        m.signed(),
        is_public_key(m.public_key.unwrap()),
        is_signature_encoding(m.signature.unwrap()),
    ensures
        decode_frame(encode_frame(m)) == Ok::<MessageView, NetErr>(m),
{
    broadcast use vstd::utf8::encode_utf8_decode_utf8, vstd::utf8::encode_utf8_valid_utf8;

    let b = encode_frame(m);
    let k = m.public_key.unwrap();
    let s = m.signature.unwrap();
    let l = utf8(m.label);
    let v = utf8(m.value);
    let ll = l.len() as int;
    lemma_be_u64_round_trip(m.timestamp);
    assert(b.len() == 107 + ll + v.len());
    assert(b.subrange(1, 33) =~= k);
    assert(b.subrange(33, 97) =~= s);
    assert(b.subrange(97, 105) =~= be_u64(m.timestamp));
    assert(b[105] == l.len() as u8);
    assert(b.subrange(106, 106 + ll) =~= l);
    assert(b[106 + ll] == v.len() as u8);
    assert(b.subrange(107 + ll, b.len() as int) =~= v);
    assert(b[0] == m.version);
}

/// A frame shorter than its fixed part is `NotEnoughData`; so is one whose
/// declared label length, or value length, runs past its end, once the key
/// and signature have been read.
pub proof fn lemma_truncated_frames(b: Seq<u8>)
    ensures
        b.len() < MIN_FRAME_LEN ==> decode_frame(b) == Err::<MessageView, NetErr>(
            NetErr::NotEnoughData,
        ),
        b.len() >= MIN_FRAME_LEN ==> (decode_frame(b) is Err <== 107 + b[105] > b.len()),
        b.len() >= MIN_FRAME_LEN && is_public_key(b.subrange(1, 33)) && is_signature_encoding(
            b.subrange(33, 97),
        ) && 107 + b[105] > b.len() ==> decode_frame(b) == Err::<MessageView, NetErr>(
            NetErr::NotEnoughData,
        ),
        b.len() >= MIN_FRAME_LEN && is_public_key(b.subrange(1, 33)) && is_signature_encoding(
            b.subrange(33, 97),
        ) && 107 + b[105] <= b.len() && 107 + b[105] + b[106 + b[105]] > b.len()
            ==> decode_frame(b) == Err::<MessageView, NetErr>(NetErr::NotEnoughData),
{
}

/// The canonical payload tells its fields apart: two well-formed messages
/// with the same payload have the same timestamp, label and value. So a
/// signature checked against a message whose timestamp, label or value was
/// altered after signing is checked against other bytes than were signed.
pub proof fn lemma_payload_determines_fields(m1: MessageView, m2: MessageView)
    requires
        m1.well_formed(),
        m2.well_formed(),
        m1.payload() == m2.payload(),
    ensures
        m1.timestamp == m2.timestamp,
        m1.label == m2.label,
        m1.value == m2.value,
{
    broadcast use vstd::utf8::encode_utf8_decode_utf8;

    let p = m1.payload();
    let l1 = utf8(m1.label);
    let l2 = utf8(m2.label);
    let v1 = utf8(m1.value);
    let v2 = utf8(m2.value);
    assert(p.subrange(0, 8) =~= be_u64(m1.timestamp));
    assert(p.subrange(0, 8) =~= be_u64(m2.timestamp));
    lemma_be_u64_round_trip(m1.timestamp);
    lemma_be_u64_round_trip(m2.timestamp);
    assert(p[8] == l1.len() as u8);
    assert(p[8] == l2.len() as u8);
    assert(l1.len() == l2.len());
    assert(p.subrange(9, 9 + l1.len() as int) =~= l1);
    assert(p.subrange(9, 9 + l2.len() as int) =~= l2);
    assert(decode_utf8(l1) == decode_utf8(l2));
    assert(p.subrange(10 + l1.len() as int, p.len() as int) =~= v1);
    assert(p.subrange(10 + l2.len() as int, p.len() as int) =~= v2);
    assert(decode_utf8(v1) == decode_utf8(v2));
}

/// No frame longer than the longest one decodes, so a reader may stop after
/// one byte more than that.
pub proof fn lemma_long_frames_rejected(b: Seq<u8>)
    requires
        b.len() > MAX_FRAME_LEN,
    ensures
        decode_frame(b) is Err,
{
}

} // verus!
