use std::sync::atomic::AtomicU64;
use std::sync::atomic::Ordering;
use std::time::Duration;
use std::time::Instant;

use elfo_core::tracing::generator::chunk_of;
use elfo_core::tracing::generator::next_chunk;
use elfo_core::tracing::generator::CachedTruncatedTime;
use elfo_core::tracing::generator::ChunkRegistry;
use elfo_core::tracing::generator::Generator;
use elfo_core::tracing::trace_id::TraceId;
use elfo_core::tracing::trace_id::TraceIdLayout;
use elfo_core::tracing::trace_id::TruncatedTime;

fn is_divisible_by_chunk(diff: u64) {
    assert_eq!((diff / (1 << 10)) * (1 << 10), diff);
}

fn without_timestamp(id: TraceId) -> u64 {
    id.to_u64() & ((1 << 38) - 1)
}

/// One id made at `clock` after `start`, with a wall clock that showed the
/// second `wall_start` at `start`.
fn generate_after(
    generator: &mut Generator,
    chunk_registry: &ChunkRegistry,
    start: Instant,
    clock: Duration,
    wall_start: u64,
    node_no: u16,
) -> u64 {
    let claimed = if generator.is_exhausted() {
        next_chunk(chunk_registry)
    } else {
        0
    };
    let mono = start + clock;
    let elapsed = mono
        .saturating_duration_since(generator.cache().read_at())
        .as_nanos();
    let wall = TruncatedTime::from_secs(wall_start + clock.as_secs());
    generator
        .generate_at(claimed, mono, elapsed, wall, node_no)
        .to_u64()
}

#[test]
fn it_works() {
    let node_no = 65535;
    let start = Instant::now();
    let wall_start = 1_000;
    let mut clock = Duration::ZERO;

    let chunk_registry = ChunkRegistry::default();
    let mut generator = Generator::new(CachedTruncatedTime::at(
        TruncatedTime::from_secs(wall_start),
        start,
    ));

    let sec = 1 << 38;
    let st = generate_after(&mut generator, &chunk_registry, start, clock, wall_start, node_no);

    clock += Duration::from_millis(500);
    assert_eq!(
        generate_after(&mut generator, &chunk_registry, start, clock, wall_start, node_no),
        st + 1
    );
    clock += Duration::from_millis(500);
    assert_eq!(
        generate_after(&mut generator, &chunk_registry, start, clock, wall_start, node_no),
        st + sec + 2,
    );
    clock += Duration::from_millis(500);
    assert_eq!(
        generate_after(&mut generator, &chunk_registry, start, clock, wall_start, node_no),
        st + sec + 3
    );
    clock += Duration::from_millis(500);
    assert_eq!(
        generate_after(&mut generator, &chunk_registry, start, clock, wall_start, node_no),
        st + 2 * sec + 4
    );

    let mut other = Generator::new(CachedTruncatedTime::at(
        TruncatedTime::from_secs(wall_start + 2),
        start + clock,
    ));
    is_divisible_by_chunk(
        generate_after(&mut other, &chunk_registry, start, clock, wall_start, node_no)
            - (st + 2 * sec),
    );

    for i in 5..1023 {
        assert_eq!(
            generate_after(&mut generator, &chunk_registry, start, clock, wall_start, node_no),
            st + 2 * sec + i
        );
    }

    is_divisible_by_chunk(
        generate_after(&mut generator, &chunk_registry, start, clock, wall_start, node_no)
            - (st + 2 * sec),
    );
}

#[test]
fn first_id_is_packed_from_its_parts() {
    let start = Instant::now();
    let mut generator =
        Generator::new(CachedTruncatedTime::at(TruncatedTime::from_secs(1_000), start));
    let id = generator.generate_at(7, start, 0, TruncatedTime::from_secs(2_000), 65535);
    assert_eq!(id.to_u64(), (1_000 << 38) | (65535 << 22) | (7 << 10) | 1);
    let layout = id.to_layout();
    assert_eq!(layout.node_no, 65535);
    assert_eq!(layout.timestamp.secs(), 1_000);
}

#[test]
fn ids_of_one_chunk_count_up() {
    let node_no = 65535;
    let chunk_registry = ChunkRegistry::default();
    let mut generator = Generator::default();

    let st = without_timestamp(generator.generate(&chunk_registry, node_no));
    is_divisible_by_chunk(st - 1 - (65535 << 22));

    for i in 1..1023 {
        assert_eq!(
            without_timestamp(generator.generate(&chunk_registry, node_no)),
            st + i
        );
    }

    let mut other = Generator::default();
    let id = without_timestamp(other.generate(&chunk_registry, node_no));
    is_divisible_by_chunk(id - st);
    assert!(id != st);

    is_divisible_by_chunk(without_timestamp(generator.generate(&chunk_registry, node_no)) - st);
}

#[test]
fn cache_stays_under_one_second() {
    let start = Instant::now();
    let mut time = CachedTruncatedTime::at(TruncatedTime::from_secs(5), start);

    let mono = start + Duration::from_nanos(999_999_999);
    let seen = time.observe(mono, 999_999_999, TruncatedTime::from_secs(9));
    assert_eq!(seen.secs(), 5);
    assert_eq!(time.cached().secs(), 5);
    assert_eq!(time.read_at(), start);

    let seen = time.observe(start, 0, TruncatedTime::from_secs(9));
    assert_eq!(seen.secs(), 5);
    assert_eq!(time.read_at(), start);
}

#[test]
fn cache_takes_the_readings_from_one_second_on() {
    let start = Instant::now();
    let mut time = CachedTruncatedTime::at(TruncatedTime::from_secs(5), start);

    let mono = start + Duration::from_secs(1);
    let seen = time.observe(mono, 1_000_000_000, TruncatedTime::from_secs(6));
    assert_eq!(seen.secs(), 6);
    assert_eq!(time.cached().secs(), 6);
    assert_eq!(time.read_at(), mono);

    let later = mono + Duration::from_secs(90);
    let seen = time.observe(later, 90_000_000_000, TruncatedTime::from_secs(96));
    assert_eq!(seen.secs(), 96);
    assert_eq!(time.read_at(), later);
}

#[test]
fn readings_hand_out_the_cached_timestamp_while_fresh() {
    let time = CachedTruncatedTime::at(TruncatedTime::from_secs(5), Instant::now());
    let (_, elapsed, wall) = time.readings();
    assert!(elapsed < 1_000_000_000);
    assert_eq!(wall.secs(), 5);
}

#[test]
fn a_new_chunk_is_claimed_after_1023_ids() {
    let chunk_registry: ChunkRegistry = AtomicU64::new(7);
    let mut generator = Generator::default();

    let mut chunks = Vec::new();
    for i in 1..=1023u32 {
        let layout = generator.generate(&chunk_registry, 1).to_layout();
        assert_eq!(layout.bottom & 0x3ff, i);
        chunks.push(layout.bottom >> 10);
    }
    assert!(chunks.iter().all(|chunk| *chunk == 7));
    assert_eq!(chunk_registry.load(Ordering::Relaxed), 8);
    assert!(generator.is_exhausted());

    let layout = generator.generate(&chunk_registry, 1).to_layout();
    assert_eq!(chunk_registry.load(Ordering::Relaxed), 9);
    assert_eq!(layout.bottom >> 10, 8);
    assert_eq!(layout.bottom & 0x3ff, 1);
    assert!(!generator.is_exhausted());
}

#[test]
fn advance_steps_through_a_chunk() {
    let mut generator = Generator::default();
    assert!(generator.is_exhausted());
    assert_eq!(generator.advance(5), (5 << 10) | 1);
    assert!(!generator.is_exhausted());
    // The chunk offered is taken only when one is needed.
    assert_eq!(generator.advance(9), (5 << 10) | 2);
    for counter in 3..=1023u32 {
        assert_eq!(generator.advance(9), (5 << 10) | counter);
    }
    assert!(generator.is_exhausted());
    assert_eq!(generator.advance(4095), (4095 << 10) | 1);
}

#[test]
fn chunk_numbers_wrap_at_4096() {
    assert_eq!(chunk_of(0), 0);
    assert_eq!(chunk_of(4095), 4095);
    assert_eq!(chunk_of(4096), 0);
    assert_eq!(chunk_of(4097), 1);
    assert_eq!(chunk_of(u64::MAX), 4095);
    assert_eq!(chunk_of((1 << 32) + 5), 5);

    let chunk_registry: ChunkRegistry = AtomicU64::new(4095);
    assert_eq!(next_chunk(&chunk_registry), 4095);
    assert_eq!(next_chunk(&chunk_registry), 0);
    assert_eq!(next_chunk(&chunk_registry), 1);
    assert_eq!(chunk_registry.load(Ordering::Relaxed), 4098);
}

#[test]
fn layout_is_packed_bit_by_bit() {
    let layout = TraceIdLayout {
        timestamp: TruncatedTime::from_secs(3),
        node_no: 5,
        bottom: (2 << 10) | 7,
    };
    let id = TraceId::from_layout(layout);
    assert_eq!(id.to_u64(), (3 << 38) | (5 << 22) | (2 << 10) | 7);
    assert_eq!(id.to_layout(), layout);

    let largest = TraceIdLayout {
        timestamp: TruncatedTime::from_secs(0x1ff_ffff),
        node_no: 0xffff,
        bottom: 0x3f_ffff,
    };
    let id = TraceId::from_layout(largest);
    assert_eq!(id.to_u64(), 0x7fff_ffff_ffff_ffff);
    assert_eq!(id.to_layout(), largest);
}

#[test]
fn timestamps_are_truncated_to_25_bits() {
    assert_eq!(TruncatedTime::from_secs(0).secs(), 0);
    assert_eq!(TruncatedTime::from_secs(0x1ff_ffff).secs(), 0x1ff_ffff);
    assert_eq!(TruncatedTime::from_secs(0x200_0000).secs(), 0);
    assert_eq!(TruncatedTime::from_secs(1_700_000_000).secs(), 1_700_000_000 % (1 << 25));
    assert!(TruncatedTime::now().secs() < (1 << 25));
}

#[test]
fn trace_id_rejects_zero_and_the_high_bit() {
    assert!(TraceId::new(0).is_none());
    assert!(TraceId::new(1 << 63).is_none());
    assert!(TraceId::new(u64::MAX).is_none());
    assert_eq!(TraceId::new(1).unwrap().to_u64(), 1);
    assert_eq!(TraceId::new((1 << 63) - 1).unwrap().to_u64(), (1 << 63) - 1);
}

#[test]
fn later_seconds_give_larger_ids() {
    let early = TraceId::from_layout(TraceIdLayout {
        timestamp: TruncatedTime::from_secs(10),
        node_no: 0xffff,
        bottom: 0x3f_ffff,
    });
    let late = TraceId::from_layout(TraceIdLayout {
        timestamp: TruncatedTime::from_secs(11),
        node_no: 0,
        bottom: 1,
    });
    assert!(early.to_u64() < late.to_u64());
}

#[test]
fn cached_time_is_stale_after_a_second() {
    assert!(!CachedTruncatedTime::is_stale(0));
    assert!(!CachedTruncatedTime::is_stale(500_000_000));
    assert!(!CachedTruncatedTime::is_stale(999_999_999));
    assert!(CachedTruncatedTime::is_stale(1_000_000_000));
    assert!(CachedTruncatedTime::is_stale(1_500_000_000));

    let mut time = CachedTruncatedTime::now();
    let first = time.get();
    let second = time.get();
    assert!(first.secs() < (1 << 25));
    assert!(second.secs() < (1 << 25));
}

#[test]
fn generators_sharing_a_registry_give_distinct_ids() {
    let chunk_registry = ChunkRegistry::default();
    let mut generators = vec![Generator::default(), Generator::default(), Generator::default()];
    let mut bottoms = Vec::new();
    for round in 0..3000usize {
        let generator = &mut generators[round % 3];
        bottoms.push(generator.generate(&chunk_registry, 9).to_layout().bottom);
    }
    let produced = bottoms.len();
    bottoms.sort();
    bottoms.dedup();
    assert_eq!(bottoms.len(), produced);
}

#[test]
fn cached_time_is_kept_within_a_second() {
    let mut time = CachedTruncatedTime::at(TruncatedTime::from_secs(5), Instant::now());
    assert_eq!(time.get().secs(), 5);
    assert_eq!(time.get().secs(), 5);
}

#[test]
fn cached_time_is_read_anew_after_a_second() {
    let now = Instant::now();
    let when = match now.checked_sub(Duration::from_secs(2)) {
        Some(when) => when,
        None => return,
    };
    // A timestamp that the wall clock does not show for the next year.
    let wall = TruncatedTime::now().secs();
    let stale = TruncatedTime::from_secs(u64::from((wall + (1 << 24)) % (1 << 25)));
    let mut time = CachedTruncatedTime::at(stale, when);

    let fresh = time.get();
    assert!(fresh != stale);
    let forward = (fresh.secs() + (1 << 25) - wall) % (1 << 25);
    assert!(forward <= 2);
    // The reading is cached in turn.
    assert_eq!(time.get(), fresh);
}

#[test]
fn refreshed_time_is_returned() {
    let mut time = CachedTruncatedTime::now();
    time.refresh(TruncatedTime::from_secs(77), Instant::now());
    assert_eq!(time.get().secs(), 77);
}
