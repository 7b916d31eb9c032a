//! Authenticated label/value updates: a signed wire message, the canonical
//! payload it signs, a store that lets only the first signer of a label
//! overwrite it, and the decisions of the server's event loop.

pub mod crypto;
pub mod database;
pub mod errors;
pub mod event_loop;
pub mod handler;
pub mod net;
pub mod update;
pub mod update_response;

pub use database::{Database, Record};
pub use errors::NetErr;
pub use event_loop::{LoopAction, LoopEvent, LoopState, Phase};
pub use handler::{check_frame, handle_frame, Rejection, ACCEPTED_PROTO_VERSION};
pub use net::{Network, MAX_FRAME_LEN, MIN_FRAME_LEN};
pub use update::{UpdateMessage, MAX_FIELD_LEN};
pub use update_response::{Response, UpdateResponse};
