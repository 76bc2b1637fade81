use crate::tracing::clock::nanos_between;
use crate::tracing::trace_id::pack;
use crate::tracing::trace_id::NodeNo;
use crate::tracing::trace_id::TraceId;
use crate::tracing::trace_id::TraceIdLayout;
use crate::tracing::trace_id::TruncatedTime;
use std::sync::atomic::AtomicU64;
use std::sync::atomic::Ordering;
use std::time::Instant;
use vstd::prelude::*;

verus! {

/// The counter of claimed chunks, shared by all generators of a node.
pub type ChunkRegistry = AtomicU64;

/// The number of chunk numbers: 2^12.
pub const CHUNK_COUNT: u32 = 0x1000;

/// The last value of the counter within a chunk. A generator whose counter
/// stands here has used its chunk up.
pub const COUNTER_LAST: u32 = 0x3ff;

/// The weight of the chunk number in the bottom part of an id: 2^10.
pub const CHUNK_UNIT: u32 = 0x400;

/// Nanoseconds after which the cached timestamp is read anew.
pub const NANOS_PER_SEC: u64 = 1_000_000_000;

/// Takes the next value of the registry, which then stands one higher.
fn claim(chunk_registry: &ChunkRegistry) -> u64 {
    chunk_registry.fetch_add(1, Ordering::Relaxed)
}

/// The chunk number that a value of the registry stands for: its lowest 12
/// bits.
pub fn chunk_of(claimed: u64) -> (chunk_no: u32)
    ensures
        chunk_no == claimed % 0x1000,
        chunk_no < CHUNK_COUNT,
{
    let low: u64 = claimed & 0xfff;
    assert(low == claimed % 0x1000 && low < 0x1000) by (bit_vector)
        requires
            low == claimed & 0xfff,
    ;
    low as u32
}

/// Claims a chunk: the registry's next value, reduced to a chunk number.
pub fn next_chunk(chunk_registry: &ChunkRegistry) -> (chunk_no: u32)
    ensures
        chunk_no < CHUNK_COUNT,
{
    chunk_of(claim(chunk_registry))
}

/// The place of a generator in the space of ids: the chunk it holds and how
/// far it has counted in it.
pub ghost struct Position {
    pub chunk_no: nat,
    pub counter: nat,
}

impl Position {
    /// Whether the chunk is used up, so that the next id needs a new chunk.
    pub open spec fn exhausted(self) -> bool {
        self.counter == COUNTER_LAST
    }

    /// The position of the next id, where `claimed` is the chunk that the
    /// registry hands out if one is needed.
    pub open spec fn step(self, claimed: nat) -> Position {
        if self.exhausted() {
            Position { chunk_no: claimed, counter: 1 }
        } else {
            Position { chunk_no: self.chunk_no, counter: self.counter + 1 }
        }
    }

    /// Whether the chunk number fits in 12 bits and the counter is one that
    /// an id can hold, from 1 to 1023.
    pub open spec fn in_range(self) -> bool {
        &&& self.chunk_no < CHUNK_COUNT
        &&& 1 <= self.counter <= COUNTER_LAST
    }

    /// The bottom part of the id made at this position.
    pub open spec fn bottom(self) -> nat {
        self.chunk_no * (CHUNK_UNIT as nat) + self.counter
    }
}

/// A truncated timestamp that is read from the wall clock once a second at
/// most.
#[derive(Clone, Copy)]
pub struct CachedTruncatedTime {
    cached: TruncatedTime,
    when: Instant,
}

impl CachedTruncatedTime {
    /// The timestamp that was read last.
    pub closed spec fn spec_cached(&self) -> TruncatedTime {
        self.cached
    }

    /// The reading of the monotonic clock at which it was read.
    pub closed spec fn spec_when(&self) -> Instant {
        self.when
    }

    /// Reads both clocks.
    pub fn now() -> (time: CachedTruncatedTime)
        ensures
            time.spec_cached()@ < crate::tracing::trace_id::TIMESTAMP_LIMIT,
    {
        let cached = TruncatedTime::now();
        Self::at(cached, Instant::now())
    }

    /// The cache that holds the timestamp `cached`, read when the monotonic
    /// clock showed `when`.
    pub fn at(cached: TruncatedTime, when: Instant) -> (time: CachedTruncatedTime)
        ensures
            time.spec_cached() == cached,
            time.spec_when() == when,
    {
        CachedTruncatedTime { cached, when }
    }

    #[verifier::when_used_as_spec(spec_cached)]
    pub fn cached(&self) -> (cached: TruncatedTime)
        ensures
            cached == self.spec_cached(),
    {
        self.cached
    }

    /// The reading of the monotonic clock at which the timestamp was read.
    #[verifier::when_used_as_spec(spec_when)]
    pub fn read_at(&self) -> (instant: Instant)
        ensures
            instant == self.spec_when(),
    {
        self.when
    }

    /// Whether a timestamp read `elapsed_nanos` ago is to be read anew.
    pub fn is_stale(elapsed_nanos: u128) -> (stale: bool)
        ensures
            stale == (elapsed_nanos >= NANOS_PER_SEC),
    {
        elapsed_nanos >= 1_000_000_000
    }

    /// Takes `cached` as the timestamp read at `when`.
    pub fn refresh(&mut self, cached: TruncatedTime, when: Instant)
        ensures
            final(self).spec_cached() == cached,
            final(self).spec_when() == when,
    {
        self.cached = cached;
        self.when = when;
    }

    /// One look at the clocks: the monotonic clock shows `mono`, which is
    /// `elapsed_nanos` after the last reading of the wall clock, and the wall
    /// clock shows `wall`. From one second on the cache takes the new
    /// readings; before that it stays as it is, whatever the wall clock
    /// shows. Returns the timestamp that the cache then holds.
    pub fn observe(&mut self, mono: Instant, elapsed_nanos: u128, wall: TruncatedTime) -> (time:
        TruncatedTime)
        ensures
            elapsed_nanos >= NANOS_PER_SEC ==> final(self).spec_cached() == wall,
            elapsed_nanos >= NANOS_PER_SEC ==> final(self).spec_when() == mono,
            elapsed_nanos < NANOS_PER_SEC ==> *final(self) == *old(self),
            time == final(self).spec_cached(),
    {
        if Self::is_stale(elapsed_nanos) {
            self.refresh(wall, mono);
        }
        self.cached
    }

    /// Reads the monotonic clock and how far it is from the last reading of
    /// the wall clock, and reads the wall clock if that is a second or more.
    /// Where it is less, the timestamp handed out is the cached one.
    pub fn readings(&self) -> (readings: (Instant, u128, TruncatedTime))
        ensures
            readings.1 < NANOS_PER_SEC ==> readings.2 == self.spec_cached(),
    {
        let mono = Instant::now();
        let elapsed_nanos = nanos_between(&mono, &self.when);
        let wall = if Self::is_stale(elapsed_nanos) {
            TruncatedTime::now()
        } else {
            self.cached
        };
        (mono, elapsed_nanos, wall)
    }

    /// The timestamp, read anew if the last reading is a second old or more.
    pub fn get(&mut self) -> (time: TruncatedTime)
        ensures
            time == final(self).spec_cached(),
    {
        let (mono, elapsed_nanos, wall) = self.readings();
        self.observe(mono, elapsed_nanos, wall)
    }
}

/// Generator of trace ids, owned by one producer.
pub struct Generator {
    timestamp: CachedTruncatedTime,
    chunk_no: u32,
    counter: u32,
}

impl Generator {
    #[verifier::type_invariant]
    spec fn in_range(self) -> bool {
        &&& self.chunk_no < CHUNK_COUNT
        &&& 1 <= self.counter <= COUNTER_LAST
    }

    /// Where the generator stands.
    pub closed spec fn position(&self) -> Position {
        Position { chunk_no: self.chunk_no as nat, counter: self.counter as nat }
    }

    /// The cached timestamp of the generator.
    pub closed spec fn spec_cache(&self) -> CachedTruncatedTime {
        self.timestamp
    }

    /// The timestamp that the generator last gave to an id.
    pub open spec fn spec_timestamp(&self) -> TruncatedTime {
        self.spec_cache().spec_cached()
    }

    /// A generator with the given cached timestamp that holds no chunk: its
    /// first id claims one.
    pub fn new(timestamp: CachedTruncatedTime) -> (generator: Generator)
        ensures
            generator.position() == (Position { chunk_no: 0, counter: COUNTER_LAST as nat }),
            generator.spec_cache() == timestamp,
    {
        Generator {
            timestamp,
            chunk_no: 0,  // will be set when the first id is made
            counter: 0x3ff,
        }
    }

    #[verifier::when_used_as_spec(spec_cache)]
    pub fn cache(&self) -> (cache: CachedTruncatedTime)
        ensures
            cache == self.spec_cache(),
    {
        self.timestamp
    }

    /// Whether the next id needs a new chunk.
    pub fn is_exhausted(&self) -> (exhausted: bool)
        ensures
            exhausted == self.position().exhausted(),
            self.position().in_range(),
    {
        proof {
            use_type_invariant(self);
        }
        self.counter == 0x3ff
    }

    /// Moves on to the next id, into the chunk `claimed` if the present one
    /// is used up, and returns the bottom part of that id.
    pub fn advance(&mut self, claimed: u32) -> (bottom: u32)
        requires
            claimed < CHUNK_COUNT,
        ensures
            final(self).position() == old(self).position().step(claimed as nat),
            final(self).position().in_range(),
            final(self).spec_cache() == old(self).spec_cache(),
            bottom == final(self).position().bottom(),
            0 < bottom < 0x40_0000,
    {
        proof {
            use_type_invariant(&*self);
        }
        let mut chunk_no: u32 = self.chunk_no;
        let mut counter: u32 = self.counter;
        if counter == 0x3ff {
            chunk_no = claimed;
            counter = 0;
        }
        counter = counter + 1;
        let bottom: u32 = chunk_no << 10 | counter;
        assert(bottom == chunk_no * 0x400 + counter && 0 < bottom < 0x40_0000) by (bit_vector)
            requires
                bottom == chunk_no << 10 | counter,
                chunk_no < 0x1000,
                1 <= counter <= 0x3ff,
        ;
        self.chunk_no = chunk_no;
        self.counter = counter;
        bottom
    }

    /// Makes the next trace id of the node `node_no` from what the registry
    /// and the clocks gave: `claimed` is the chunk that the registry handed
    /// out, taken only if the present chunk is used up; `mono`,
    /// `elapsed_nanos` and `wall` are one look at the clocks, as
    /// `CachedTruncatedTime::observe` takes it.
    ///
    /// The id holds one zero bit, 25 bits of timestamp in seconds, 16 bits of
    /// node number, 12 bits of chunk number and 10 bits of counter.
    pub fn generate_at(
        &mut self,
        claimed: u32,
        mono: Instant,
        elapsed_nanos: u128,
        wall: TruncatedTime,
        node_no: NodeNo,
    ) -> (id: TraceId)
        requires
            claimed < CHUNK_COUNT,
        ensures
            final(self).position() == old(self).position().step(claimed as nat),
            final(self).position().in_range(),
            elapsed_nanos >= NANOS_PER_SEC ==> final(self).spec_timestamp() == wall,
            elapsed_nanos >= NANOS_PER_SEC ==> final(self).spec_cache().spec_when() == mono,
            elapsed_nanos < NANOS_PER_SEC ==> final(self).spec_cache() == old(self).spec_cache(),
            id@ == pack(
                final(self).spec_timestamp()@,
                node_no as nat,
                final(self).position().bottom(),
            ),
    {
        let bottom = self.advance(claimed);
        let mut cache = self.timestamp;
        let timestamp = cache.observe(mono, elapsed_nanos, wall);
        proof {
            use_type_invariant(&*self);
        }
        self.timestamp = cache;
        TraceId::from_layout(TraceIdLayout { timestamp, node_no, bottom })
    }

    /// Makes the next trace id of the node `node_no`: one zero bit, 25 bits
    /// of timestamp in seconds, 16 bits of node number, 12 bits of chunk
    /// number, 10 bits of counter.
    ///
    /// A new chunk is claimed from the registry when the present one is used
    /// up, which the first call finds to be the case. The timestamp is the
    /// cached one, read anew if the last reading is a second old or more.
    pub fn generate(&mut self, chunk_registry: &ChunkRegistry, node_no: NodeNo) -> (id: TraceId)
        ensures
            old(self).position().exhausted() ==> final(self).position().counter == 1,
            !old(self).position().exhausted() ==> final(self).position() == old(self).position().step(0),
            final(self).position().chunk_no < CHUNK_COUNT,
            1 <= final(self).position().counter <= COUNTER_LAST,
            id@ == pack(
                final(self).spec_timestamp()@,
                node_no as nat,
                final(self).position().bottom(),
            ),
    {
        // Check whether the chunk is exhausted.
        let claimed: u32 = if self.is_exhausted() {
            next_chunk(chunk_registry)
        } else {
            0
        };
        let (mono, elapsed_nanos, wall) = self.timestamp.readings();
        self.generate_at(claimed, mono, elapsed_nanos, wall, node_no)
    }
}

impl Default for Generator {
    /// A generator that holds no chunk, with the timestamp of this moment.
    fn default() -> (generator: Generator)
        ensures
            generator.position() == (Position { chunk_no: 0, counter: COUNTER_LAST as nat }),
    {
        Generator::new(CachedTruncatedTime::now())
    }
}

} // verus!
