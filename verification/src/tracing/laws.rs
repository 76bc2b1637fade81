//! What holds of the ids that generators make: later seconds give larger ids,
//! and producers that share a registry give different ids.

use crate::tracing::generator::Position;
use crate::tracing::generator::CHUNK_COUNT;
use crate::tracing::generator::CHUNK_UNIT;
use crate::tracing::generator::COUNTER_LAST;
use crate::tracing::trace_id::pack;
use crate::tracing::trace_id::TraceIdLayout;
use crate::tracing::trace_id::BOTTOM_LIMIT;
use crate::tracing::trace_id::TIMESTAMP_LIMIT;
use vstd::prelude::*;

verus! {

/// Ids with different parts are different ids.
pub proof fn lemma_pack_injective(
    timestamp_a: nat,
    node_a: nat,
    bottom_a: nat,
    timestamp_b: nat,
    node_b: nat,
    bottom_b: nat,
)
    requires
        node_a < 0x1_0000,
        node_b < 0x1_0000,
        bottom_a < BOTTOM_LIMIT,
        bottom_b < BOTTOM_LIMIT,
        pack(timestamp_a, node_a, bottom_a) == pack(timestamp_b, node_b, bottom_b),
    ensures
        timestamp_a == timestamp_b,
        node_a == node_b,
        bottom_a == bottom_b,
{
}

/// An id made in a later second is the larger one, whatever the node, the
/// chunk and the counter.
pub proof fn lemma_later_second_larger_id(earlier: TraceIdLayout, later: TraceIdLayout)
    requires
        earlier.bottom < BOTTOM_LIMIT,
        earlier.timestamp@ < later.timestamp@,
    ensures
        earlier.packed() < later.packed(),
{
}

/// Ids that one generator makes in seconds that grow from each to the next
/// grow from each to the next.
pub proof fn lemma_ids_increase_with_time(layouts: Seq<TraceIdLayout>)
    requires
        forall|i: int| 0 <= i < layouts.len() ==> (#[trigger] layouts[i]).bottom < BOTTOM_LIMIT,
        forall|i: int, j: int|
            0 <= i < j < layouts.len() ==> (#[trigger] layouts[i]).timestamp@ < (
            #[trigger] layouts[j]).timestamp@,
    ensures
        forall|i: int, j: int|
            0 <= i < j < layouts.len() ==> (#[trigger] layouts[i]).packed() < (
            #[trigger] layouts[j]).packed(),
{
    assert forall|i: int, j: int| 0 <= i < j < layouts.len() implies (#[trigger] layouts[i]).packed()
        < (#[trigger] layouts[j]).packed() by {
        lemma_later_second_larger_id(layouts[i], layouts[j]);
    }
}

/// Within a chunk the bottom part of each id is one more than that of the
/// id before, so that ids of one second, one node and one chunk grow by one.
pub proof fn lemma_step_within_chunk(position: Position, claimed: nat)
    requires
        !position.exhausted(),
    ensures
        position.step(claimed).bottom() == position.bottom() + 1,
        position.step(claimed).chunk_no == position.chunk_no,
{
}

/// The producers of one node and the registry that they share.
pub ghost struct Fleet {
    /// The value that the registry hands to the next claim.
    pub registry: nat,
    /// Where each producer stands.
    pub producers: Seq<Position>,
}

/// A producer that has made no id yet.
pub open spec fn idle() -> Position {
    Position { chunk_no: 0, counter: COUNTER_LAST as nat }
}

impl Fleet {
    /// The fleet after the producer `who` has made an id. A claim takes the
    /// registry's value and leaves it one higher, in one step that no other
    /// producer can split.
    pub open spec fn step(self, who: int) -> Fleet {
        let position = self.producers[who];
        if position.exhausted() {
            Fleet {
                registry: self.registry + 1,
                producers: self.producers.update(
                    who,
                    position.step(self.registry % (CHUNK_COUNT as nat)),
                ),
            }
        } else {
            Fleet { registry: self.registry, producers: self.producers.update(who, position.step(0)) }
        }
    }

    /// The fleet after its producers have made ids in the order of
    /// `schedule`, which names the producer of each id.
    pub open spec fn run(self, schedule: Seq<int>) -> Fleet
        decreases schedule.len(),
    {
        if schedule.len() == 0 {
            self
        } else {
            self.step(schedule.first()).run(schedule.drop_first())
        }
    }

    /// The bottom parts of the ids made under `schedule`, in their order.
    pub open spec fn emitted(self, schedule: Seq<int>) -> Seq<nat>
        decreases schedule.len(),
    {
        if schedule.len() == 0 {
            Seq::empty()
        } else {
            let who = schedule.first();
            seq![self.step(who).producers[who].bottom()] + self.step(who).emitted(
                schedule.drop_first(),
            )
        }
    }

    /// Whether every entry of the schedule names a producer of the fleet.
    pub open spec fn admits(self, schedule: Seq<int>) -> bool {
        forall|n: int| 0 <= n < schedule.len() ==> 0 <= #[trigger] schedule[n] < self.producers.len()
    }

    /// Whether no producer has made an id yet.
    pub open spec fn all_idle(self) -> bool {
        forall|i: int| 0 <= i < self.producers.len() ==> #[trigger] self.producers[i] == idle()
    }
}

/// Whether no number stands twice in the sequence.
pub open spec fn distinct(numbers: Seq<nat>) -> bool {
    forall|i: int, j: int| 0 <= i < j < numbers.len() ==> numbers[i] != numbers[j]
}

/// Whether the chunk is one that the registry has handed out since it stood
/// at `base`.
spec fn handed_out(base: nat, registry: nat, chunk_no: nat) -> bool {
    exists|claim: nat| base <= claim < registry && #[trigger] (claim % 0x1000) == chunk_no
}

spec fn chunk_part(bottom: nat) -> nat {
    bottom / 0x400
}

spec fn counter_part(bottom: nat) -> nat {
    bottom % 0x400
}

/// What holds of a fleet whose registry stood at `base` when all were idle,
/// and of the bottom parts `seen` that it has made since.
spec fn consistent(fleet: Fleet, base: nat, seen: Seq<nat>) -> bool {
    &&& base <= fleet.registry
    &&& distinct(seen)
    &&& forall|i: int|
        0 <= i < fleet.producers.len() ==> {
            &&& (#[trigger] fleet.producers[i]).chunk_no < 0x1000
            &&& 1 <= fleet.producers[i].counter <= 0x3ff
        }
    &&& forall|i: int|
        0 <= i < fleet.producers.len() && !(#[trigger] fleet.producers[i]).exhausted()
            ==> handed_out(base, fleet.registry, fleet.producers[i].chunk_no)
    &&& forall|i: int, j: int|
        0 <= i < fleet.producers.len() && 0 <= j < fleet.producers.len() && i != j && !(
        #[trigger] fleet.producers[i]).exhausted() && !(#[trigger] fleet.producers[j]).exhausted()
            ==> fleet.producers[i].chunk_no != fleet.producers[j].chunk_no
    &&& forall|n: int|
        0 <= n < seen.len() ==> handed_out(base, fleet.registry, chunk_part(#[trigger] seen[n]))
    &&& forall|n: int, i: int|
        0 <= n < seen.len() && 0 <= i < fleet.producers.len() && chunk_part(#[trigger] seen[n]) == (
        #[trigger] fleet.producers[i]).chunk_no ==> counter_part(seen[n])
            <= fleet.producers[i].counter
}

proof fn lemma_bottom_parts(position: Position)
    requires
        position.counter < 0x400,
    ensures
        chunk_part(position.bottom()) == position.chunk_no,
        counter_part(position.bottom()) == position.counter,
{
}

/// The registry never goes back.
proof fn lemma_registry_grows(fleet: Fleet, schedule: Seq<int>)
    ensures
        fleet.registry <= fleet.run(schedule).registry,
    decreases schedule.len(),
{
    if schedule.len() > 0 {
        lemma_registry_grows(fleet.step(schedule.first()), schedule.drop_first());
    }
}

/// A chunk that the registry hands out next is none that it has handed out
/// in its last 4095 claims.
proof fn lemma_next_chunk_is_new(base: nat, registry: nat)
    requires
        base <= registry < base + 0x1000,
    ensures
        !handed_out(base, registry, registry % 0x1000),
        forall|chunk_no: nat|
            handed_out(base, registry, chunk_no) ==> handed_out(base, registry + 1, chunk_no),
        handed_out(base, registry + 1, registry % 0x1000),
{
    assert forall|chunk_no: nat| handed_out(base, registry, chunk_no) implies handed_out(
        base,
        registry + 1,
        chunk_no,
    ) by {
        let claim = choose|claim: nat| base <= claim < registry && #[trigger] (claim % 0x1000)
            == chunk_no;
        assert(base <= claim < registry + 1 && claim % 0x1000 == chunk_no);
    }
    assert(base <= registry < registry + 1 && registry % 0x1000 == registry % 0x1000);
}

proof fn lemma_step_keeps_consistent(fleet: Fleet, base: nat, seen: Seq<nat>, who: int)
    requires
        consistent(fleet, base, seen),
        0 <= who < fleet.producers.len(),
        fleet.step(who).registry <= base + 0x1000,
    ensures
        consistent(fleet.step(who), base, seen.push(fleet.step(who).producers[who].bottom())),
{
    let next = fleet.step(who);
    let before = fleet.producers[who];
    let after = next.producers[who];
    let bottom = after.bottom();
    let all = seen.push(bottom);
    lemma_bottom_parts(after);
    assert(next.producers.len() == fleet.producers.len());
    assert(forall|i: int|
        0 <= i < fleet.producers.len() && i != who ==> next.producers[i] == fleet.producers[i]);
    if before.exhausted() {
        lemma_next_chunk_is_new(base, fleet.registry);
        assert(after.chunk_no == fleet.registry % 0x1000);
        assert(after.counter == 1);
    } else {
        assert(next.registry == fleet.registry);
        assert(after.chunk_no == before.chunk_no);
        assert(after.counter == before.counter + 1);
    }
    // No bottom part seen so far is the new one.
    assert forall|n: int| 0 <= n < seen.len() implies seen[n] != bottom by {
        if seen[n] == bottom {
            assert(chunk_part(seen[n]) == after.chunk_no);
            assert(counter_part(seen[n]) == after.counter);
            if before.exhausted() {
                assert(handed_out(base, fleet.registry, chunk_part(seen[n])));
            } else {
                assert(chunk_part(seen[n]) == before.chunk_no);
                assert(counter_part(seen[n]) <= before.counter);
            }
        }
    }
    assert(distinct(all)) by {
        assert forall|i: int, j: int| 0 <= i < j < all.len() implies all[i] != all[j] by {
            if j < seen.len() {
                assert(seen[i] != seen[j]);
            } else {
                assert(all[j] == bottom);
                assert(all[i] == seen[i]);
            }
        }
    }
    assert forall|i: int|
        0 <= i < next.producers.len() && !(#[trigger] next.producers[i]).exhausted() implies handed_out(
        base,
        next.registry,
        next.producers[i].chunk_no,
    ) by {
        if i != who {
            assert(!fleet.producers[i].exhausted());
            assert(handed_out(base, fleet.registry, fleet.producers[i].chunk_no));
        } else if !before.exhausted() {
            assert(handed_out(base, fleet.registry, before.chunk_no));
        }
    }
    assert forall|i: int, j: int|
        0 <= i < next.producers.len() && 0 <= j < next.producers.len() && i != j && !(
        #[trigger] next.producers[i]).exhausted() && !(
        #[trigger] next.producers[j]).exhausted() implies next.producers[i].chunk_no
        != next.producers[j].chunk_no by {
        if i != who && j != who {
            assert(!fleet.producers[i].exhausted() && !fleet.producers[j].exhausted());
        } else {
            let other = if i == who {
                j
            } else {
                i
            };
            assert(!fleet.producers[other].exhausted());
            assert(handed_out(base, fleet.registry, fleet.producers[other].chunk_no));
            if !before.exhausted() {
                assert(fleet.producers[other].chunk_no != before.chunk_no);
            }
        }
    }
    assert forall|n: int| 0 <= n < all.len() implies handed_out(
        base,
        next.registry,
        chunk_part(#[trigger] all[n]),
    ) by {
        if n < seen.len() {
            assert(all[n] == seen[n]);
            assert(handed_out(base, fleet.registry, chunk_part(seen[n])));
        } else {
            assert(all[n] == bottom);
            if !before.exhausted() {
                assert(handed_out(base, fleet.registry, before.chunk_no));
            }
        }
    }
    assert forall|n: int, i: int|
        0 <= n < all.len() && 0 <= i < next.producers.len() && chunk_part(#[trigger] all[n]) == (
        #[trigger] next.producers[i]).chunk_no implies counter_part(all[n])
        <= next.producers[i].counter by {
        if n < seen.len() {
            assert(all[n] == seen[n]);
            if i != who {
                assert(chunk_part(seen[n]) == fleet.producers[i].chunk_no);
            } else if before.exhausted() {
                assert(handed_out(base, fleet.registry, chunk_part(seen[n])));
            } else {
                assert(chunk_part(seen[n]) == before.chunk_no);
            }
        } else {
            assert(all[n] == bottom);
            if i != who {
                if !fleet.producers[i].exhausted() {
                    assert(handed_out(base, fleet.registry, fleet.producers[i].chunk_no));
                    if !before.exhausted() {
                        assert(fleet.producers[i].chunk_no != before.chunk_no);
                    }
                }
            }
        }
    }
}

proof fn lemma_run_keeps_distinct(fleet: Fleet, base: nat, seen: Seq<nat>, schedule: Seq<int>)
    requires
        consistent(fleet, base, seen),
        fleet.admits(schedule),
        fleet.run(schedule).registry <= base + 0x1000,
    ensures
        distinct(seen + fleet.emitted(schedule)),
    decreases schedule.len(),
{
    if schedule.len() == 0 {
        assert(seen + fleet.emitted(schedule) =~= seen);
    } else {
        let who = schedule.first();
        let next = fleet.step(who);
        let rest = schedule.drop_first();
        assert(0 <= schedule[0] < fleet.producers.len());
        lemma_registry_grows(next, rest);
        lemma_step_keeps_consistent(fleet, base, seen, who);
        assert(next.admits(rest)) by {
            assert forall|n: int| 0 <= n < rest.len() implies 0 <= #[trigger] rest[n]
                < next.producers.len() by {
                assert(rest[n] == schedule[n + 1]);
            }
        }
        let bottom = next.producers[who].bottom();
        lemma_run_keeps_distinct(next, base, seen.push(bottom), rest);
        assert(seen + fleet.emitted(schedule) =~= seen.push(bottom) + next.emitted(rest));
    }
}

/// Producers that start idle and share one registry make ids with different
/// bottom parts, in whatever order they take their turns, as long as the
/// registry hands out no more than 4096 chunks. Within one second and on one
/// node their ids are then different ids.
pub proof fn lemma_shared_registry_gives_distinct_ids(
    fleet: Fleet,
    schedule: Seq<int>,
    timestamp: nat,
    node_no: nat,
)
    requires
        fleet.all_idle(),
        fleet.admits(schedule),
        fleet.run(schedule).registry <= fleet.registry + CHUNK_COUNT,
    ensures
        distinct(fleet.emitted(schedule)),
        forall|i: int, j: int|
            0 <= i < j < fleet.emitted(schedule).len() ==> pack(
                timestamp,
                node_no,
                #[trigger] fleet.emitted(schedule)[i],
            ) != pack(timestamp, node_no, #[trigger] fleet.emitted(schedule)[j]),
{
    let seen = Seq::<nat>::empty();
    assert(consistent(fleet, fleet.registry, seen));
    lemma_run_keeps_distinct(fleet, fleet.registry, seen, schedule);
    assert(seen + fleet.emitted(schedule) =~= fleet.emitted(schedule));
}

/// How many more ids the producer can make in the chunk that it holds.
pub open spec fn slack(position: Position) -> int {
    COUNTER_LAST - position.counter
}

/// How many more ids the producers can make in the chunks that they hold.
pub open spec fn total_slack(producers: Seq<Position>) -> int
    decreases producers.len(),
{
    if producers.len() == 0 {
        0
    } else {
        total_slack(producers.drop_last()) + slack(producers.last())
    }
}

/// Whether every producer stands at a counter from 1 to 1023.
pub open spec fn counters_in_range(producers: Seq<Position>) -> bool {
    forall|i: int| 0 <= i < producers.len() ==> 1 <= (#[trigger] producers[i]).counter <= COUNTER_LAST
}

proof fn lemma_total_slack_update(producers: Seq<Position>, who: int, position: Position)
    requires
        0 <= who < producers.len(),
    ensures
        total_slack(producers.update(who, position)) == total_slack(producers) - slack(
            producers[who],
        ) + slack(position),
    decreases producers.len(),
{
    let updated = producers.update(who, position);
    if who == producers.len() - 1 {
        assert(updated.drop_last() =~= producers.drop_last());
    } else {
        assert(updated.drop_last() =~= producers.drop_last().update(who, position));
        lemma_total_slack_update(producers.drop_last(), who, position);
    }
}

proof fn lemma_total_slack_bounds(producers: Seq<Position>)
    requires
        counters_in_range(producers),
    ensures
        0 <= total_slack(producers) <= (COUNTER_LAST - 1) * producers.len(),
    decreases producers.len(),
{
    if producers.len() > 0 {
        assert(counters_in_range(producers.drop_last())) by {
            assert forall|i: int| 0 <= i < producers.drop_last().len() implies 1 <= (
            #[trigger] producers.drop_last()[i]).counter <= COUNTER_LAST by {
                assert(producers.drop_last()[i] == producers[i]);
            }
        }
        lemma_total_slack_bounds(producers.drop_last());
        assert(1 <= producers[producers.len() - 1].counter <= COUNTER_LAST);
    }
}

/// Every chunk that the registry hands out is paid for by 1023 ids: those
/// made, and those that the producers can still make in the chunks they hold.
pub proof fn lemma_claims_are_paid(fleet: Fleet, schedule: Seq<int>)
    requires
        counters_in_range(fleet.producers),
        fleet.admits(schedule),
    ensures
        fleet.run(schedule).producers.len() == fleet.producers.len(),
        counters_in_range(fleet.run(schedule).producers),
        (COUNTER_LAST as int) * (fleet.run(schedule).registry - fleet.registry) == schedule.len()
            + total_slack(fleet.run(schedule).producers) - total_slack(fleet.producers),
    decreases schedule.len(),
{
    if schedule.len() > 0 {
        let who = schedule.first();
        let next = fleet.step(who);
        let rest = schedule.drop_first();
        assert(0 <= schedule[0] < fleet.producers.len());
        assert(1 <= fleet.producers[who].counter <= COUNTER_LAST);
        lemma_total_slack_update(fleet.producers, who, next.producers[who]);
        assert(counters_in_range(next.producers)) by {
            assert forall|i: int| 0 <= i < next.producers.len() implies 1 <= (
            #[trigger] next.producers[i]).counter <= COUNTER_LAST by {
                if i != who {
                    assert(next.producers[i] == fleet.producers[i]);
                }
            }
        }
        assert(next.admits(rest)) by {
            assert forall|n: int| 0 <= n < rest.len() implies 0 <= #[trigger] rest[n]
                < next.producers.len() by {
                assert(rest[n] == schedule[n + 1]);
            }
        }
        lemma_claims_are_paid(next, rest);
    }
}

/// Producers that start idle and share one registry make different ids
/// within one second and on one node, in whatever order they take their
/// turns, as long as they make so few that the registry hands out no more
/// than 4096 chunks: each chunk serves 1023 ids, and each producer may hold
/// one chunk that it has not used up.
pub proof fn lemma_distinct_ids_below_volume(
    fleet: Fleet,
    schedule: Seq<int>,
    timestamp: nat,
    node_no: nat,
)
    requires
        fleet.all_idle(),
        fleet.admits(schedule),
        schedule.len() + (COUNTER_LAST - 1) * fleet.producers.len() <= COUNTER_LAST * CHUNK_COUNT,
    ensures
        distinct(fleet.emitted(schedule)),
        forall|i: int, j: int|
            0 <= i < j < fleet.emitted(schedule).len() ==> pack(
                timestamp,
                node_no,
                #[trigger] fleet.emitted(schedule)[i],
            ) != pack(timestamp, node_no, #[trigger] fleet.emitted(schedule)[j]),
{
    assert(counters_in_range(fleet.producers));
    lemma_claims_are_paid(fleet, schedule);
    lemma_total_slack_bounds(fleet.producers);
    lemma_total_slack_bounds(fleet.run(schedule).producers);
    assert(total_slack(fleet.producers) == 0) by {
        lemma_idle_has_no_slack(fleet.producers);
    }
    lemma_shared_registry_gives_distinct_ids(fleet, schedule, timestamp, node_no);
}

proof fn lemma_idle_has_no_slack(producers: Seq<Position>)
    requires
        forall|i: int| 0 <= i < producers.len() ==> #[trigger] producers[i] == idle(),
    ensures
        total_slack(producers) == 0,
    decreases producers.len(),
{
    if producers.len() > 0 {
        assert forall|i: int| 0 <= i < producers.drop_last().len() implies (
        #[trigger] producers.drop_last()[i]) == idle() by {
            assert(producers.drop_last()[i] == producers[i]);
        }
        lemma_idle_has_no_slack(producers.drop_last());
        assert(producers[producers.len() - 1] == idle());
    }
}

} // verus!
