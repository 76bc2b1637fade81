//! The table as the contracts see it: a map from the ids of the requests in
//! flight to what each request expects and has collected, and the steps that
//! the table's operations take on that map.

use crate::envelope::Envelope;
use vstd::prelude::*;

verus! {

/// One request in flight.
pub ghost struct RequestState {
    /// How many responses are still expected.
    pub remainder: nat,
    /// The responses that have arrived, in the order of their arrival; `None`
    /// stands for a responder that declined.
    pub collected: Seq<Option<Envelope>>,
}

/// A request that was just opened: it expects one response.
pub open spec fn fresh() -> RequestState {
    RequestState { remainder: 1, collected: Seq::empty() }
}

/// The table after a request was opened under `id`.
pub open spec fn opened(table: Map<u64, RequestState>, id: u64) -> Map<u64, RequestState> {
    table.insert(id, fresh())
}

/// The table after one more response was registered for the request `id`.
pub open spec fn cloned(table: Map<u64, RequestState>, id: u64) -> Map<u64, RequestState> {
    table.insert(
        id,
        RequestState { remainder: table[id].remainder + 1, collected: table[id].collected },
    )
}

/// Whether the table holds the request and the request still expects a
/// response.
pub open spec fn is_pending(table: Map<u64, RequestState>, id: u64) -> bool {
    table.contains_key(id) && table[id].remainder > 0
}

/// The table after an attempt to register one more response for the request
/// `id`: it is registered while the request is pending, and nothing changes
/// once the request is resolved or gone.
pub open spec fn clone_attempted(table: Map<u64, RequestState>, id: u64) -> Map<u64, RequestState> {
    if is_pending(table, id) {
        cloned(table, id)
    } else {
        table
    }
}

/// The table after `item` was added to the request `id`.
pub open spec fn resolved(table: Map<u64, RequestState>, id: u64, item: Option<Envelope>) -> Map<
    u64,
    RequestState,
> {
    table.insert(
        id,
        RequestState {
            remainder: if table[id].remainder > 0 {
                (table[id].remainder - 1) as nat
            } else {
                0
            },
            collected: table[id].collected.push(item),
        },
    )
}

/// Whether every request of the table still expects a response.
pub open spec fn all_pending(table: Map<u64, RequestState>) -> bool {
    forall|id: u64| #[trigger] table.contains_key(id) ==> table[id].remainder != 0
}


/// What can happen to one request between its opening and its end.
pub ghost enum Event {
    /// `clone_token`: one more response is expected.
    Clone,
    /// `respond`: a token was used to deliver the envelope.
    Respond(Envelope),
    /// A token was given up without a response.
    Decline,
}

/// The table after the event has happened to the request `id`.
pub open spec fn apply(table: Map<u64, RequestState>, id: u64, event: Event) -> Map<
    u64,
    RequestState,
> {
    match event {
        Event::Clone => clone_attempted(table, id),
        Event::Respond(envelope) => resolved(table, id, Some(envelope)),
        Event::Decline => resolved(table, id, None),
    }
}

/// The table after the events have happened to the request `id`, first event
/// first.
pub open spec fn run(table: Map<u64, RequestState>, id: u64, events: Seq<Event>) -> Map<
    u64,
    RequestState,
>
    decreases events.len(),
{
    if events.len() == 0 {
        table
    } else {
        run(apply(table, id, events.first()), id, events.drop_first())
    }
}

/// Whether each of the events finds the request still expecting a response,
/// which is what holding a token means.
pub open spec fn allowed(table: Map<u64, RequestState>, id: u64, events: Seq<Event>) -> bool
    decreases events.len(),
{
    events.len() == 0 || (table[id].remainder > 0 && allowed(
        apply(table, id, events.first()),
        id,
        events.drop_first(),
    ))
}

/// What the events add to the collected responses, in their order.
pub open spec fn delivered(events: Seq<Event>) -> Seq<Option<Envelope>>
    decreases events.len(),
{
    if events.len() == 0 {
        Seq::empty()
    } else {
        match events.first() {
            Event::Clone => delivered(events.drop_first()),
            Event::Respond(envelope) => seq![Some(envelope)] + delivered(events.drop_first()),
            Event::Decline => seq![None] + delivered(events.drop_first()),
        }
    }
}

/// How many of the events are clones.
pub open spec fn clones(events: Seq<Event>) -> nat
    decreases events.len(),
{
    if events.len() == 0 {
        0
    } else {
        clones(events.drop_first()) + if events.first() is Clone {
            1nat
        } else {
            0nat
        }
    }
}

/// How many of the events are tokens given up without a response.
pub open spec fn declines(events: Seq<Event>) -> nat
    decreases events.len(),
{
    if events.len() == 0 {
        0
    } else {
        declines(events.drop_first()) + if events.first() is Decline {
            1nat
        } else {
            0nat
        }
    }
}

/// How many of the collected responses are absent.
pub open spec fn absent(items: Seq<Option<Envelope>>) -> nat
    decreases items.len(),
{
    if items.len() == 0 {
        0
    } else {
        absent(items.drop_last()) + if items.last().is_none() {
            1nat
        } else {
            0nat
        }
    }
}

/// `k` clones, then one response with each of the payloads.
pub open spec fn scatter_gather(k: nat, payloads: Seq<Envelope>) -> Seq<Event> {
    Seq::new(k, |i: int| Event::Clone) + Seq::new(
        payloads.len(),
        |i: int| Event::Respond(payloads[i]),
    )
}

/// The payloads as the responses that a waiter finds.
pub open spec fn present(payloads: Seq<Envelope>) -> Seq<Option<Envelope>> {
    Seq::new(payloads.len(), |i: int| Some(payloads[i]))
}

/// Running two runs of events in a row is running them as one.
pub proof fn lemma_run_concat(
    table: Map<u64, RequestState>,
    id: u64,
    first: Seq<Event>,
    second: Seq<Event>,
)
    ensures
        run(table, id, first + second) == run(run(table, id, first), id, second),
    decreases first.len(),
{
    if first.len() == 0 {
        assert(first + second =~= second);
    } else {
        assert((first + second).first() == first.first());
        assert((first + second).drop_first() =~= first.drop_first() + second);
        lemma_run_concat(apply(table, id, first.first()), id, first.drop_first(), second);
    }
}

/// What two runs of events deliver in a row is what they deliver as one.
pub proof fn lemma_delivered_concat(first: Seq<Event>, second: Seq<Event>)
    ensures
        delivered(first + second) == delivered(first) + delivered(second),
    decreases first.len(),
{
    if first.len() == 0 {
        assert(first + second =~= second);
        assert(delivered(first) + delivered(second) =~= delivered(second));
    } else {
        assert((first + second).first() == first.first());
        assert((first + second).drop_first() =~= first.drop_first() + second);
        lemma_delivered_concat(first.drop_first(), second);
        let rest = delivered(first.drop_first());
        match first.first() {
            Event::Clone => {},
            Event::Respond(envelope) => {
                assert((seq![Some(envelope)] + rest) + delivered(second) =~= seq![Some(envelope)]
                    + (rest + delivered(second)));
            },
            Event::Decline => {
                assert((seq![None::<Envelope>] + rest) + delivered(second) =~= seq![
                    None::<Envelope>,
                ] + (rest + delivered(second)));
            },
        }
    }
}

/// Absent responses are counted part by part.
pub proof fn lemma_absent_concat(first: Seq<Option<Envelope>>, second: Seq<Option<Envelope>>)
    ensures
        absent(first + second) == absent(first) + absent(second),
    decreases second.len(),
{
    if second.len() == 0 {
        assert(first + second =~= first);
    } else {
        assert((first + second).last() == second.last());
        assert((first + second).drop_last() =~= first + second.drop_last());
        lemma_absent_concat(first, second.drop_last());
    }
}

/// Each token given up without a response is one absent response among
/// those delivered, and there are no others.
pub proof fn lemma_absent_delivered(events: Seq<Event>)
    ensures
        absent(delivered(events)) == declines(events),
        delivered(events).len() + clones(events) == events.len(),
    decreases events.len(),
{
    if events.len() > 0 {
        lemma_absent_delivered(events.drop_first());
        let rest = delivered(events.drop_first());
        match events.first() {
            Event::Clone => {},
            Event::Respond(envelope) => {
                let one = seq![Some(envelope)];
                lemma_absent_concat(one, rest);
                assert(one.drop_last() =~= Seq::<Option<Envelope>>::empty());
                assert(absent(one.drop_last()) == 0);
                assert(one.last() == Some(envelope));
                assert(absent(one) == 0);
            },
            Event::Decline => {
                let one = seq![None::<Envelope>];
                lemma_absent_concat(one, rest);
                assert(one.drop_last() =~= Seq::<Option<Envelope>>::empty());
                assert(absent(one.drop_last()) == 0);
                assert(one.last() == None::<Envelope>);
                assert(absent(one) == 1);
            },
        }
    }
}

/// Whatever happens to a request, it stays in the table, it collects what
/// was delivered in the order of delivery, and no other request changes.
pub proof fn lemma_run_collects(table: Map<u64, RequestState>, id: u64, events: Seq<Event>)
    requires
        table.contains_key(id),
    ensures
        run(table, id, events).dom() == table.dom(),
        run(table, id, events)[id].collected == table[id].collected + delivered(events),
        forall|other: u64|
            other != id && table.contains_key(other) ==> #[trigger] run(table, id, events)[other]
                == table[other],
    decreases events.len(),
{
    if events.len() == 0 {
        assert(table[id].collected + delivered(events) =~= table[id].collected);
    } else {
        let next = apply(table, id, events.first());
        assert(next.dom() =~= table.dom());
        lemma_run_collects(next, id, events.drop_first());
        let rest = delivered(events.drop_first());
        let before = table[id].collected;
        match events.first() {
            Event::Clone => {},
            Event::Respond(envelope) => {
                assert(before.push(Some(envelope)) + rest =~= before + (seq![Some(envelope)]
                    + rest));
            },
            Event::Decline => {
                assert(before.push(None) + rest =~= before + (seq![None::<Envelope>] + rest));
            },
        }
    }
}

/// While every event finds the request expecting a response, the responses
/// still expected are those expected at the start, and one more for each
/// clone, and one less for each response delivered or declined.
pub proof fn lemma_run_counts(table: Map<u64, RequestState>, id: u64, events: Seq<Event>)
    requires
        table.contains_key(id),
        allowed(table, id, events),
    ensures
        run(table, id, events)[id].remainder + delivered(events).len() == table[id].remainder
            + clones(events),
    decreases events.len(),
{
    if events.len() > 0 {
        let next = apply(table, id, events.first());
        lemma_run_counts(next, id, events.drop_first());
    }
}

/// A request is ready to be taken exactly when as many responses were
/// delivered or declined as were expected in all: it is not ready before, and
/// it is ready from then on, as nothing can happen to it any more.
pub proof fn lemma_ready_when_all_resolved(
    table: Map<u64, RequestState>,
    id: u64,
    events: Seq<Event>,
)
    requires
        table.contains_key(id),
        allowed(table, id, events),
    ensures
        (run(table, id, events)[id].remainder == 0) <==> (delivered(events).len()
            == table[id].remainder + clones(events)),
        run(table, id, events)[id].remainder == 0 ==> forall|event: Event|
            !allowed(run(table, id, events), id, seq![event]),
{
    lemma_run_counts(table, id, events);
}

/// A request that expects no response any more never expects one again,
/// whatever is tried on it: it does not go back to pending.
pub proof fn lemma_resolved_stays_resolved(table: Map<u64, RequestState>, id: u64, events: Seq<Event>)
    requires
        table.contains_key(id),
        table[id].remainder == 0,
    ensures
        run(table, id, events).contains_key(id),
        run(table, id, events)[id].remainder == 0,
    decreases events.len(),
{
    if events.len() > 0 {
        let next = apply(table, id, events.first());
        assert(next.contains_key(id) && next[id].remainder == 0);
        lemma_resolved_stays_resolved(next, id, events.drop_first());
    }
}

/// Tokens given up without a response add exactly as many absent responses
/// to what the request collects, wherever they stand among the responses
/// delivered; every other event adds none.
pub proof fn lemma_declines_are_absent(table: Map<u64, RequestState>, id: u64, events: Seq<Event>)
    requires
        table.contains_key(id),
    ensures
        absent(run(table, id, events)[id].collected) == absent(table[id].collected) + declines(
            events,
        ),
        run(table, id, events)[id].collected.len() + clones(events) == table[id].collected.len()
            + events.len(),
{
    lemma_run_collects(table, id, events);
    lemma_absent_concat(table[id].collected, delivered(events));
    lemma_absent_delivered(events);
}

/// `k` clones leave a pending request expecting `k` more responses and add
/// nothing to what it has collected.
proof fn lemma_run_clones(table: Map<u64, RequestState>, id: u64, k: nat)
    requires
        is_pending(table, id),
    ensures
        run(table, id, Seq::new(k, |i: int| Event::Clone))[id] == (RequestState {
            remainder: table[id].remainder + k,
            collected: table[id].collected,
        }),
        run(table, id, Seq::new(k, |i: int| Event::Clone)).dom() == table.dom(),
    decreases k,
{
    let events = Seq::new(k, |i: int| Event::Clone);
    if k > 0 {
        let next = apply(table, id, events.first());
        assert(next.dom() =~= table.dom());
        assert(events.drop_first() =~= Seq::new((k - 1) as nat, |i: int| Event::Clone));
        lemma_run_clones(next, id, (k - 1) as nat);
    }
}

/// Responses, no more of them than are expected, are collected in their
/// order, and as many fewer are expected afterwards.
proof fn lemma_run_responses(table: Map<u64, RequestState>, id: u64, payloads: Seq<Envelope>)
    requires
        table.contains_key(id),
        payloads.len() <= table[id].remainder,
    ensures
        run(table, id, Seq::new(payloads.len(), |i: int| Event::Respond(payloads[i])))[id] == (
        RequestState {
            remainder: (table[id].remainder - payloads.len()) as nat,
            collected: table[id].collected + present(payloads),
        }),
    decreases payloads.len(),
{
    let events = Seq::new(payloads.len(), |i: int| Event::Respond(payloads[i]));
    if payloads.len() == 0 {
        assert(table[id].collected + present(payloads) =~= table[id].collected);
    } else {
        let next = apply(table, id, events.first());
        let rest = payloads.drop_first();
        assert(events.drop_first() =~= Seq::new(rest.len(), |i: int| Event::Respond(rest[i])));
        lemma_run_responses(next, id, rest);
        assert(table[id].collected.push(Some(payloads[0])) + present(rest) =~= table[id].collected
            + present(payloads));
    }
}

/// A request that is opened, cloned `k` times and answered by each of its
/// `k + 1` tokens is then ready, and holds exactly the payloads delivered, in
/// the order of their delivery: the same payloads, then, as a multiset.
pub proof fn lemma_scatter_gather(
    table: Map<u64, RequestState>,
    id: u64,
    k: nat,
    payloads: Seq<Envelope>,
)
    requires
        payloads.len() == k + 1,
    ensures
        run(opened(table, id), id, scatter_gather(k, payloads))[id].remainder == 0,
        run(opened(table, id), id, scatter_gather(k, payloads))[id].collected == present(payloads),
        run(opened(table, id), id, scatter_gather(k, payloads))[id].collected.len() == k + 1,
        run(opened(table, id), id, scatter_gather(k, payloads))[id].collected.to_multiset()
            == present(payloads).to_multiset(),
{
    let start = opened(table, id);
    let clones = Seq::new(k, |i: int| Event::Clone);
    let responses = Seq::new(payloads.len(), |i: int| Event::Respond(payloads[i]));
    lemma_run_concat(start, id, clones, responses);
    lemma_run_clones(start, id, k);
    lemma_run_responses(run(start, id, clones), id, payloads);
    assert(Seq::<Option<Envelope>>::empty() + present(payloads) =~= present(payloads));
}

} // verus!
