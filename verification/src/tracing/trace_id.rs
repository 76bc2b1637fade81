use crate::tracing::clock::unix_secs;
use vstd::prelude::*;

verus! {

/// Number of a node, unique in the fleet.
pub type NodeNo = u16;

/// One more than the largest truncated timestamp: 2^25.
pub const TIMESTAMP_LIMIT: u32 = 0x200_0000;

/// One more than the largest bottom part of an id: 2^22.
pub const BOTTOM_LIMIT: u32 = 0x40_0000;

/// The weight of the node number in an id: 2^22.
pub const NODE_UNIT: u64 = 0x40_0000;

/// The weight of the timestamp in an id: 2^38.
pub const TIMESTAMP_UNIT: u64 = 0x40_0000_0000;

/// The id that holds the three parts, as a number: the timestamp above the
/// node number above the bottom part.
pub open spec fn pack(timestamp: nat, node_no: nat, bottom: nat) -> nat {
    timestamp * (TIMESTAMP_UNIT as nat) + node_no * (NODE_UNIT as nat) + bottom
}

/// Seconds since the Unix epoch, cut down to their lowest 25 bits.
#[derive(Clone, Copy, Debug, PartialEq, Eq, Structural, Hash)]
pub struct TruncatedTime {
    secs: u32,
}

impl View for TruncatedTime {
    type V = nat;

    closed spec fn view(&self) -> nat {
        self.secs as nat
    }
}

impl TruncatedTime {
    #[verifier::type_invariant]
    spec fn in_range(self) -> bool {
        self.secs < TIMESTAMP_LIMIT
    }

    /// The lowest 25 bits of `secs`.
    pub fn from_secs(secs: u64) -> (time: TruncatedTime)
        ensures
            time@ == secs % 0x200_0000,
            secs < TIMESTAMP_LIMIT ==> time@ == secs,
    {
        let low: u64 = secs & 0x1ff_ffff;
        assert(low == secs % 0x200_0000 && low < 0x200_0000) by (bit_vector)
            requires
                low == secs & 0x1ff_ffff,
        ;
        TruncatedTime { secs: low as u32 }
    }

    /// The wall clock's time, truncated.
    pub fn now() -> (time: TruncatedTime)
        ensures
            time@ < TIMESTAMP_LIMIT,
    {
        TruncatedTime::from_secs(unix_secs())
    }

    pub fn secs(self) -> (secs: u32)
        ensures
            secs == self@,
            secs < TIMESTAMP_LIMIT,
    {
        proof {
            use_type_invariant(&self);
        }
        self.secs
    }

    /// Two times that show the same second are the same time.
    pub proof fn lemma_view_injective(a: TruncatedTime, b: TruncatedTime)
        requires
            a@ == b@,
        ensures
            a == b,
    {
    }
}

/// The parts of a trace id.
#[derive(Clone, Copy, Debug, PartialEq, Eq, Structural)]
pub struct TraceIdLayout {
    /// When the id was made.
    pub timestamp: TruncatedTime,
    /// The node that made it.
    pub node_no: NodeNo,
    /// The chunk number above the counter within the chunk: 22 bits.
    pub bottom: u32,
}

impl TraceIdLayout {
    /// The bottom part fits in 22 bits, and the parts are not all zero.
    pub open spec fn wf(self) -> bool {
        &&& self.bottom < BOTTOM_LIMIT
        &&& self.packed() != 0
    }

    /// The number of the id with these parts.
    pub open spec fn packed(self) -> nat {
        pack(self.timestamp@, self.node_no as nat, self.bottom as nat)
    }
}

/// Identifier of a flow of causally related messages: 64 bits, of which the
/// highest is zero, and not all zero.
#[derive(Clone, Copy, Debug, PartialEq, Eq, Structural, Hash)]
pub struct TraceId {
    raw: u64,
}

impl View for TraceId {
    type V = nat;

    closed spec fn view(&self) -> nat {
        self.raw as nat
    }
}

impl TraceId {
    #[verifier::type_invariant]
    spec fn in_range(self) -> bool {
        0 < self.raw < 0x8000_0000_0000_0000
    }

    /// The id with the given number, or `None` where the number is zero or
    /// has its highest bit set.
    pub fn new(raw: u64) -> (id: Option<TraceId>)
        ensures
            id.is_some() == (0 < raw < 0x8000_0000_0000_0000),
            id matches Some(id) ==> id@ == raw,
    {
        if raw == 0 || raw >= 0x8000_0000_0000_0000 {
            None
        } else {
            Some(TraceId { raw })
        }
    }

    /// Packs the parts into an id: one zero bit, 25 bits of timestamp, 16
    /// bits of node number, 22 bits of bottom part.
    pub fn from_layout(layout: TraceIdLayout) -> (id: TraceId)
        requires
            layout.wf(),
        ensures
            id@ == layout.packed(),
    {
        let timestamp: u64 = layout.timestamp.secs() as u64;
        let node_no: u64 = layout.node_no as u64;
        let bottom: u64 = layout.bottom as u64;
        let raw: u64 = (timestamp << 38) | (node_no << 22) | bottom;
        assert(raw == timestamp * 0x40_0000_0000 + node_no * 0x40_0000 + bottom && raw
            < 0x8000_0000_0000_0000) by (bit_vector)
            requires
                raw == (timestamp << 38) | (node_no << 22) | bottom,
                timestamp < 0x200_0000,
                node_no < 0x1_0000,
                bottom < 0x40_0000,
        ;
        TraceId { raw }
    }

    /// Takes the id apart.
    pub fn to_layout(self) -> (layout: TraceIdLayout)
        ensures
            layout.wf(),
            layout.timestamp@ < TIMESTAMP_LIMIT,
            layout.packed() == self@,
            layout.timestamp@ == self@ / 0x40_0000_0000,
            layout.node_no == (self@ / 0x40_0000) % 0x1_0000,
            layout.bottom == self@ % 0x40_0000,
    {
        proof {
            use_type_invariant(&self);
        }
        let raw: u64 = self.raw;
        let timestamp: u64 = raw >> 38;
        let node_no: u64 = (raw >> 22) & 0xffff;
        let bottom: u64 = raw & 0x3f_ffff;
        assert(timestamp < 0x200_0000 && node_no < 0x1_0000 && bottom < 0x40_0000 && timestamp
            == raw / 0x40_0000_0000 && node_no == (raw / 0x40_0000) % 0x1_0000 && bottom == raw
            % 0x40_0000 && raw == timestamp * 0x40_0000_0000 + node_no * 0x40_0000 + bottom)
            by (bit_vector)
            requires
                raw < 0x8000_0000_0000_0000,
                timestamp == raw >> 38,
                node_no == (raw >> 22) & 0xffff,
                bottom == raw & 0x3f_ffff,
        ;
        TraceIdLayout {
            timestamp: TruncatedTime { secs: timestamp as u32 },
            node_no: node_no as u16,
            bottom: bottom as u32,
        }
    }

    /// The id as a number.
    pub fn to_u64(self) -> (raw: u64)
        ensures
            raw == self@,
            0 < raw < 0x8000_0000_0000_0000,
    {
        proof {
            use_type_invariant(&self);
        }
        self.raw
    }

    /// Two ids with the same number are the same id.
    pub proof fn lemma_view_injective(a: TraceId, b: TraceId)
        requires
            a@ == b@,
        ensures
            a == b,
    {
    }
}

} // verus!
