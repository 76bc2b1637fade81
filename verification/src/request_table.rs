//! The table of requests in flight and the tokens that resolve them.

pub mod model;
pub mod storage;
pub mod token;

use crate::addr::Addr;
use crate::envelope::Envelope;
use crate::request_table::model::all_pending;
use crate::request_table::model::clone_attempted;
use crate::request_table::model::is_pending;
use crate::request_table::model::opened;
use crate::request_table::model::resolved;
use crate::request_table::model::RequestState;
use crate::request_table::storage::Data;
use crate::request_table::storage::RequestId;
use crate::request_table::storage::RequestInfo;
use crate::request_table::storage::Requests;
use crate::request_table::storage::MAX_REQUESTS;
use crate::request_table::token::ResponseToken;
use vstd::prelude::*;

verus! {

/// The requests that one actor has sent and that still wait for responses.
///
/// Every operation is one step of bookkeeping. Whoever shares a table between
/// tasks keeps it behind a lock, holds the lock for one step at a time, and
/// performs what the step asks for: waking the waiters after `resolve`, and
/// resetting the wake signal after `poll_wait`.
pub struct RequestTable {
    owner: Addr,
    requests: Requests,
}

/// What one look at a request found.
pub enum WaitPoll {
    /// All responses are in. The request has left the table, and `data` holds
    /// what was collected. `reset` tells whether the wake signal is to be
    /// reset, which is the case when no other request is resolved and waits to
    /// be taken.
    Ready { data: Data, reset: bool },
    /// Responses are still expected: the waiter yields and waits again.
    Pending,
}

impl View for RequestTable {
    type V = Map<u64, RequestState>;

    closed spec fn view(&self) -> Map<u64, RequestState> {
        self.requests.slots().map_values(|info: RequestInfo| info.state())
    }
}

impl RequestTable {
    /// The table holds finitely many requests.
    pub closed spec fn wf(&self) -> bool {
        self.requests.slots().dom().finite()
    }

    pub closed spec fn spec_owner(&self) -> Addr {
        self.owner
    }

    proof fn lemma_view(&self)
        ensures
            self@.dom() == self.requests.slots().dom(),
            forall|key: u64| #[trigger]
                self@.contains_key(key) ==> self@[key] == self.requests.slots()[key].state(),
    {
    }

    /// An empty table for the actor at `owner`.
    pub fn new(owner: Addr) -> (table: RequestTable)
        ensures
            table.wf(),
            table.spec_owner() == owner,
            table@ == Map::<u64, RequestState>::empty(),
    {
        let table = RequestTable { owner, requests: Requests::new() };
        proof {
            table.lemma_view();
            assert(table@ =~= Map::<u64, RequestState>::empty());
        }
        table
    }

    #[verifier::when_used_as_spec(spec_owner)]
    pub fn owner(&self) -> (owner: Addr)
        ensures
            owner == self.spec_owner(),
    {
        self.owner
    }

    /// The number of requests in flight.
    pub fn len(&self) -> (len: usize)
        requires
            self.wf(),
        ensures
            len == self@.len(),
    {
        proof {
            self.lemma_view();
        }
        self.requests.len()
    }

    /// How many responses the request still expects, or `None` where the table
    /// does not hold the request.
    pub fn remainder(&self, request_id: RequestId) -> (remainder: Option<usize>)
        ensures
            remainder.is_some() == self@.contains_key(request_id@),
            remainder matches Some(n) ==> n == self@[request_id@].remainder,
    {
        proof {
            self.lemma_view();
        }
        match self.requests.get(request_id) {
            Some(info) => Some(info.remainder),
            None => None,
        }
    }

    /// Opens a request that expects one response, and returns the token for
    /// that response.
    pub fn new_request(&mut self) -> (token: ResponseToken<()>)
        requires
            old(self).wf(),
            old(self)@.len() < MAX_REQUESTS,
        ensures
            final(self).wf(),
            final(self).spec_owner() == old(self).spec_owner(),
            token.spec_sender() == old(self).spec_owner(),
            !token.spec_is_forgotten(),
            !token.spec_request_id().spec_is_null(),
            !old(self)@.contains_key(token.spec_request_id()@),
            final(self)@ == opened(old(self)@, token.spec_request_id()@),
    {
        proof {
            self.lemma_view();
        }
        let request_id = self.requests.insert(RequestInfo { remainder: 1, data: Data::new() });
        proof {
            self.lemma_view();
            assert(self@ =~= opened(old(self)@, request_id@));
            assert(request_id@ != crate::request_table::storage::NULL_ID_BITS) by {
                assert(0x1_ffff_ffffu64 & 0xffff_ffff == 0xffff_ffff) by (bit_vector);
            }
        }
        ResponseToken::new(self.owner, request_id)
    }

    /// Registers one more expected response for the request of `token` and
    /// returns the token for it, while the request is pending. Returns `None`
    /// and changes nothing where the request expects no response any more or
    /// has left the table: it is too late for another responder.
    pub fn clone_token(&mut self, token: &ResponseToken<()>) -> (cloned_token: Option<
        ResponseToken<()>,
    >)
        requires
            old(self).wf(),
            token.spec_sender() == old(self).spec_owner(),
            old(self)@.contains_key(token.spec_request_id()@) ==> old(self)@[token.spec_request_id()@].remainder
                < usize::MAX,
        ensures
            final(self).wf(),
            final(self).spec_owner() == old(self).spec_owner(),
            cloned_token.is_some() == is_pending(old(self)@, token.spec_request_id()@),
            cloned_token matches Some(t) ==> t.spec_sender() == token.spec_sender()
                && t.spec_request_id() == token.spec_request_id(),
            final(self)@ == clone_attempted(old(self)@, token.spec_request_id()@),
    {
        proof {
            self.lemma_view();
        }
        let request_id = token.request_id();
        let registered = match self.requests.get_mut(request_id) {
            Some(info) => {
                if info.remainder > 0 {
                    info.remainder = info.remainder + 1;
                    true
                } else {
                    false
                }
            },
            None => false,
        };
        proof {
            self.lemma_view();
            assert(self@ =~= clone_attempted(old(self)@, request_id@));
        }
        if registered {
            Some(ResponseToken::new(token.sender(), request_id))
        } else {
            None
        }
    }

    /// Delivers `envelope` as the response that `token` stands for. Returns
    /// whether this was the last expected response, in which case the waiters
    /// are to be woken.
    pub fn respond(&mut self, token: ResponseToken<()>, envelope: Envelope) -> (wake: bool)
        requires
            old(self).wf(),
            token.spec_sender() == old(self).spec_owner(),
            old(self)@.contains_key(token.spec_request_id()@),
            old(self)@[token.spec_request_id()@].remainder > 0,
        ensures
            final(self).wf(),
            final(self).spec_owner() == old(self).spec_owner(),
            final(self)@ == resolved(old(self)@, token.spec_request_id()@, Some(envelope)),
            wake == (old(self)@[token.spec_request_id()@].remainder == 1),
    {
        let mut token = token;
        let wake = self.resolve(token.sender(), token.request_id(), Some(envelope));
        token.forget();
        wake
    }

    /// Resolves what a token stands for when the token is given up without a
    /// response: an active token adds an absent response to its request, a
    /// forgotten one does nothing. Returns whether the waiters are to be woken.
    pub fn release<T>(&mut self, token: ResponseToken<T>) -> (wake: bool)
        requires
            old(self).wf(),
            !token.spec_request_id().spec_is_null() ==> {
                &&& token.spec_sender() == old(self).spec_owner()
                &&& old(self)@.contains_key(token.spec_request_id()@)
                &&& old(self)@[token.spec_request_id()@].remainder > 0
            },
        ensures
            final(self).wf(),
            final(self).spec_owner() == old(self).spec_owner(),
            final(self)@ == (if token.spec_request_id().spec_is_null() {
                old(self)@
            } else {
                resolved(old(self)@, token.spec_request_id()@, None)
            }),
            wake == (!token.spec_request_id().spec_is_null() && old(self)@[token.spec_request_id()@].remainder
                == 1),
    {
        if token.request_id().is_null() {
            return false;
        }
        let mut token = token;
        let wake = self.resolve(token.sender(), token.request_id(), None);
        token.forget();
        wake
    }

    /// Looks once at the request: takes it out of the table with what it
    /// collected if no response is expected any more, and leaves everything as
    /// it is otherwise.
    pub fn poll_wait(&mut self, request_id: RequestId) -> (poll: WaitPoll)
        requires
            old(self).wf(),
            old(self)@.contains_key(request_id@),
        ensures
            final(self).wf(),
            final(self).spec_owner() == old(self).spec_owner(),
            (poll is Ready) == (old(self)@[request_id@].remainder == 0),
            poll matches WaitPoll::Ready { data, reset } ==> {
                &&& data@ == old(self)@[request_id@].collected
                &&& reset == all_pending(final(self)@)
                &&& final(self)@ == old(self)@.remove(request_id@)
            },
            poll is Pending ==> final(self)@ == old(self)@,
    {
        proof {
            self.lemma_view();
        }
        let ready = match self.requests.get(request_id) {
            Some(request) => request.remainder == 0,
            None => false,
        };
        if !ready {
            return WaitPoll::Pending;
        }
        match self.requests.remove(request_id) {
            Some(info) => {
                proof {
                    self.lemma_view();
                    assert(self@ =~= old(self)@.remove(request_id@));
                }
                let reset = self.requests.all_pending();
                WaitPoll::Ready { data: info.data, reset }
            },
            None => WaitPoll::Pending,
        }
    }

    /// Adds one response, or the absence of one, to the request, which then
    /// expects one response less. Returns whether it expects none any more, in
    /// which case the waiters are to be woken.
    pub fn resolve(&mut self, sender: Addr, request_id: RequestId, envelope: Option<Envelope>) -> (wake:
        bool)
        requires
            old(self).wf(),
            sender == old(self).spec_owner(),
            old(self)@.contains_key(request_id@),
            old(self)@[request_id@].remainder > 0,
        ensures
            final(self).wf(),
            final(self).spec_owner() == old(self).spec_owner(),
            final(self)@ == resolved(old(self)@, request_id@, envelope),
            wake == (old(self)@[request_id@].remainder == 1),
    {
        proof {
            self.lemma_view();
        }
        let wake = match self.requests.get_mut(request_id) {
            Some(request) => {
                request.data.push(envelope);
                request.remainder = request.remainder - 1;
                request.remainder == 0
            },
            None => false,
        };
        proof {
            self.lemma_view();
            assert(self@ =~= resolved(old(self)@, request_id@, envelope));
        }
        wake
    }
}

} // verus!
