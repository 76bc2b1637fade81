use crate::addr::Addr;
use crate::request_table::storage::RequestId;
use crate::request_table::storage::NULL_ID_BITS;
use std::marker::PhantomData;
use vstd::prelude::*;

verus! {

/// The right and the duty to resolve one expected response of one request.
///
/// A token is moved, never copied: more tokens for a request come from
/// `RequestTable::clone_token` alone, which counts them. `T` is the request
/// that the token answers, or `()` where that is not known.
#[must_use]
pub struct ResponseToken<T> {
    sender: Addr,
    request_id: RequestId,
    marker: PhantomData<T>,
}

/// The two states of a token.
pub ghost enum TokenState {
    /// The token stands for a response to `request`, owed to the table of
    /// `owner`.
    Active { owner: Addr, request: RequestId },
    /// Nothing is owed: giving the token up does nothing.
    Forgotten,
}

impl<T> View for ResponseToken<T> {
    type V = TokenState;

    open spec fn view(&self) -> TokenState {
        if self.spec_is_forgotten() {
            TokenState::Forgotten
        } else {
            TokenState::Active { owner: self.spec_sender(), request: self.spec_request_id() }
        }
    }
}

impl ResponseToken<()> {
    /// The token for a response to `request_id`, owed to the table of `sender`.
    pub fn new(sender: Addr, request_id: RequestId) -> (token: Self)
        ensures
            token.spec_sender() == sender,
            token.spec_request_id() == request_id,
    {
        Self { sender, request_id, marker: PhantomData }
    }

    /// The same token, known to answer a request of type `T`. The token given
    /// is used up.
    pub fn into_typed<T>(self) -> (token: ResponseToken<T>)
        ensures
            token.spec_sender() == self.spec_sender(),
            token.spec_request_id() == self.spec_request_id(),
            token@ == self@,
    {
        let mut this = self;
        let token = ResponseToken {
            sender: this.sender,
            request_id: this.request_id,
            marker: PhantomData,
        };
        this.forget();
        token
    }
}

impl<R> ResponseToken<R> {
    pub closed spec fn spec_sender(&self) -> Addr {
        self.sender
    }

    pub closed spec fn spec_request_id(&self) -> RequestId {
        self.request_id
    }

    /// A token is forgotten when its request id is the null id.
    pub open spec fn spec_is_forgotten(&self) -> bool {
        self.spec_request_id()@ == NULL_ID_BITS
    }

    /// A token that stands for nothing.
    pub fn forgotten() -> (token: Self)
        ensures
            token.spec_is_forgotten(),
            token.spec_sender().spec_is_null(),
            token@ == TokenState::Forgotten,
    {
        Self { sender: Addr::null(), request_id: RequestId::null(), marker: PhantomData }
    }

    /// The same token without the type of its request. The token given is
    /// used up.
    pub fn into_untyped(self) -> (token: ResponseToken<()>)
        ensures
            token.spec_sender() == self.spec_sender(),
            token.spec_request_id() == self.spec_request_id(),
            token@ == self@,
    {
        let mut this = self;
        let token = ResponseToken {
            sender: this.sender,
            request_id: this.request_id,
            marker: PhantomData,
        };
        this.forget();
        token
    }

    #[verifier::when_used_as_spec(spec_is_forgotten)]
    pub fn is_forgotten(&self) -> (forgotten: bool)
        ensures
            forgotten == self.spec_is_forgotten(),
    {
        let null = RequestId::null();
        proof {
            if self.request_id@ == null@ {
                RequestId::lemma_view_injective(self.request_id, null);
            }
        }
        self.request_id == null
    }

    /// Discharges the token: from now on it stands for nothing.
    pub fn forget(&mut self)
        ensures
            final(self).spec_is_forgotten(),
            final(self).spec_sender() == old(self).spec_sender(),
            final(self)@ == TokenState::Forgotten,
    {
        self.request_id = RequestId::null();
    }

    #[verifier::when_used_as_spec(spec_sender)]
    pub fn sender(&self) -> (sender: Addr)
        ensures
            sender == self.spec_sender(),
    {
        self.sender
    }

    #[verifier::when_used_as_spec(spec_request_id)]
    pub fn request_id(&self) -> (request_id: RequestId)
        ensures
            request_id == self.spec_request_id(),
    {
        self.request_id
    }
}

} // verus!
