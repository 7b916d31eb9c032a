use crate::database::{claim_allowed, Database, Record, RecordView};
use crate::errors::NetErr;
use crate::net::{decode_frame, Network};
use crate::update::{MessageView, UpdateMessage};
use vstd::prelude::*;

verus! {

/// The one protocol version the server accepts.
pub const ACCEPTED_PROTO_VERSION: u8 = 66;

/// Why an update did not take effect.
#[derive(Debug, Clone, Copy, PartialEq, Eq, Structural)]
pub enum Rejection {
    /// The frame did not decode.
    Decode(NetErr),
    /// The frame is of another protocol version than the accepted one.
    WrongVersion(u8),
    /// The signature does not verify on the message under its key.
    Unauthenticated,
    /// The signature is valid but the label belongs to another key.
    Unauthorized,
}

/// The record that a signed message asks to store.
pub open spec fn record_of(m: MessageView) -> RecordView {
    RecordView {
        timestamp: m.timestamp,
        value: m.value,
        owner: m.public_key.unwrap(),
        signature: m.signature.unwrap(),
    }
}

/// The checks on a frame that need no store: it decodes, it is of the
/// accepted version, and its signature verifies.
pub open spec fn frame_check(frame: Seq<u8>) -> Result<MessageView, Rejection> {
    match decode_frame(frame) {
        Err(e) => Err(Rejection::Decode(e)),
        Ok(m) => {
            if m.version != ACCEPTED_PROTO_VERSION {
                Err(Rejection::WrongVersion(m.version))
            } else if m.signature_check() != Some(true) {
                Err(Rejection::Unauthenticated)
            } else {
                Ok(m)
            }
        },
    }
}

/// What handling one frame against `store` comes to: the checks above, then
/// the claim of the label.
pub open spec fn frame_outcome(store: Map<Seq<char>, RecordView>, frame: Seq<u8>) -> Result<
    (),
    Rejection,
> {
    match frame_check(frame) {
        Err(e) => Err(e),
        Ok(m) => {
            if !claim_allowed(store, m.label, record_of(m)) {
                Err(Rejection::Unauthorized)
            } else {
                Ok(())
            }
        },
    }
}

/// The store after handling one frame: changed only by an accepted update.
pub open spec fn store_after_frame(store: Map<Seq<char>, RecordView>, frame: Seq<u8>) -> Map<
    Seq<char>,
    RecordView,
> {
    match decode_frame(frame) {
        Ok(m) => if frame_outcome(store, frame) is Ok {
            store.insert(m.label, record_of(m))
        } else {
            store
        },
        Err(_) => store,
    }
}

/// Checks one frame without touching the store, and gives the label and
/// the record that the update asks to store.
pub fn check_frame(frame: &[u8]) -> (r: Result<(String, Record), Rejection>)
    ensures
        r matches Err(e) ==> frame_check(frame@) == Err::<MessageView, Rejection>(e),
        r matches Ok((label, rec)) ==> frame_check(frame@) is Ok && label@ == frame_check(
            frame@,
        )->Ok_0.label && rec@ == record_of(frame_check(frame@)->Ok_0),
{
    let message = match UpdateMessage::from_networking(frame) {
        Ok(m) => m,
        Err(e) => return Err(Rejection::Decode(e)),
    };
    if message.version() != ACCEPTED_PROTO_VERSION {
        return Err(Rejection::WrongVersion(message.version()));
    }
    match message.correct_signature() {
        Some(true) => {},
        _ => return Err(Rejection::Unauthenticated),
    }
    match Record::from_message(&message) {
        Some(rec) => Ok((message.label().to_owned(), rec)),
        None => Err(Rejection::Unauthenticated),
    }
}

/// Handles the whole byte stream of one connection: one framed update.
pub fn handle_frame(db: &mut Database, frame: &[u8]) -> (r: Result<(), Rejection>)
    ensures
        r == frame_outcome(old(db)@, frame@),
        final(db)@ == store_after_frame(old(db)@, frame@),
{
    let (label, rec) = match check_frame(frame) {
        Ok(checked) => checked,
        Err(e) => return Err(e),
    };
    if db.add_record(label.as_str(), rec) {
        Ok(())
    } else {
        Err(Rejection::Unauthorized)
    }
}

} // verus!
