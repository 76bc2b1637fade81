use smallbox::SmallBox;
use std::any::Any;
use vstd::prelude::*;

verus! {

/// Tag of a message type, unique within one running process.
pub type LocalTypeId = u32;

/// A value that actors can send to each other.
pub trait Message: Send + 'static {
    const _LTID: LocalTypeId;
}

/// A message that is answered with another message.
pub trait Request: Message {
    type Response: Message;
}

/// Type-erased message payload, kept inline while it fits in 80 bytes.
///
/// The verifier sees nothing inside the box: it is carried through, and two
/// payloads are the same only if they are the same value.
#[verifier::external_body]
pub struct AnyMessage(pub SmallBox<dyn Any + Send, [u8; 80]>);

} // verus!
