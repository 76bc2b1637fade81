use crate::message::AnyMessage;
use crate::message::LocalTypeId;
use vstd::prelude::*;

verus! {

/// A payload together with the tag that tells which message type it holds.
pub struct Envelope {
    ltid: LocalTypeId,
    message: AnyMessage,
}

impl Envelope {
    pub closed spec fn spec_ltid(&self) -> LocalTypeId {
        self.ltid
    }

    pub closed spec fn spec_message(&self) -> AnyMessage {
        self.message
    }

    pub fn new(ltid: LocalTypeId, message: AnyMessage) -> (envelope: Envelope)
        ensures
            envelope.spec_ltid() == ltid,
            envelope.spec_message() == message,
    {
        Envelope { ltid, message }
    }

    #[verifier::when_used_as_spec(spec_ltid)]
    pub fn ltid(&self) -> (ltid: LocalTypeId)
        ensures
            ltid == self.spec_ltid(),
    {
        self.ltid
    }

    pub fn message(&self) -> (message: &AnyMessage)
        ensures
            *message == self.spec_message(),
    {
        &self.message
    }

    pub fn into_message(self) -> (message: AnyMessage)
        ensures
            message == self.spec_message(),
    {
        self.message
    }
}

} // verus!
