use vstd::prelude::*;

verus! {

/// Errors that come up while turning a message into bytes or back.
#[derive(Debug, Clone, Copy, PartialEq, Eq, Structural)]
pub enum NetErr {
    /// The message is not signed, so it has no wire form.
    BytesNotReady,
    /// The bytes end before the frame does.
    NotEnoughData,
    /// The bytes are all there but do not make a valid message.
    MalformedData,
}

impl From<()> for NetErr {
    fn from(_e: ()) -> (r: NetErr)
        ensures
            r == NetErr::MalformedData,
    {
        NetErr::MalformedData
    }
}

impl vstd::std_specs::convert::FromSpecImpl<()> for NetErr {
    open spec fn obeys_from_spec() -> bool {
        true
    }

    open spec fn from_spec(e: ()) -> NetErr {
        NetErr::MalformedData
    }
}

} // verus!
