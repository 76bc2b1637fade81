use crate::envelope::Envelope;
use crate::request_table::model::RequestState;
use slotmap::DefaultKey;
use slotmap::Key;
use slotmap::KeyData;
use slotmap::SlotMap;
use smallvec::SmallVec;
use vstd::prelude::*;

verus! {

/// The bits of the null request id: slot index `u32::MAX`, version 1.
pub const NULL_ID_BITS: u64 = 0x1_ffff_ffff;

/// The largest number of requests that the table holds at once.
pub const MAX_REQUESTS: u64 = 0xffff_fffe;

/// Handle of one request in one table.
///
/// It holds the 64-bit form of a `slotmap` key: the index of the slot in the
/// low half, the version of the slot in the high half. Versions of keys are
/// odd, which the type keeps as its invariant.
#[derive(Clone, Copy, Debug, PartialEq, Eq, Structural, Hash)]
pub struct RequestId {
    bits: u64,
}

impl View for RequestId {
    type V = u64;

    closed spec fn view(&self) -> u64 {
        self.bits
    }
}

impl RequestId {
    #[verifier::type_invariant]
    spec fn odd_version(self) -> bool {
        has_odd_version(self.bits)
    }

    /// Whether this is the null id, which no table ever hands out.
    pub open spec fn spec_is_null(self) -> bool {
        self@ & 0xffff_ffff == 0xffff_ffff
    }

    /// The id that stands for "no request".
    pub fn null() -> (id: RequestId)
        ensures
            id@ == NULL_ID_BITS,
            id.spec_is_null(),
    {
        let bits = null_key_bits();
        assert(has_odd_version(0x1_ffff_ffff) && 0x1_ffff_ffffu64 & 0xffff_ffff == 0xffff_ffff)
            by (bit_vector);
        RequestId { bits }
    }

    #[verifier::when_used_as_spec(spec_is_null)]
    pub fn is_null(self) -> (null: bool)
        ensures
            null == self.spec_is_null(),
    {
        proof {
            use_type_invariant(&self);
        }
        key_is_null(self.bits)
    }

    /// The 64-bit form of the id.
    pub fn to_bits(self) -> (bits: u64)
        ensures
            bits == self@,
    {
        self.bits
    }

    /// Two ids with the same bits are the same id.
    pub proof fn lemma_view_injective(a: RequestId, b: RequestId)
        requires
            a@ == b@,
        ensures
            a == b,
    {
    }
}

/// Whether the version half of a key's 64-bit form is odd.
pub open spec fn has_odd_version(bits: u64) -> bool {
    bits & 0x1_0000_0000 == 0x1_0000_0000
}

/// `slotmap::Key::null` of the default key type, in its 64-bit form: the
/// source builds it from index `u32::MAX` and version 1.
#[verifier::external_body]
fn null_key_bits() -> (bits: u64)
    ensures
        bits == NULL_ID_BITS,
{
    DefaultKey::null().data().as_ffi()
}

/// `slotmap::Key::is_null` on the key with the given 64-bit form: a key is
/// null when its index is `u32::MAX`.
#[verifier::external_body]
fn key_is_null(bits: u64) -> (null: bool)
    requires
        has_odd_version(bits),
    ensures
        null == (bits & 0xffff_ffff == 0xffff_ffff),
{
    DefaultKey::from(KeyData::from_ffi(bits)).is_null()
}

/// The responses collected for one request, in the order of their arrival.
///
/// Holds a `smallvec::SmallVec` with room for one response inline.
#[verifier::external_body]
pub struct Data {
    inner: SmallVec<[Option<Envelope>; 1]>,
}

/// What a `Data` holds, first response first.
pub uninterp spec fn data_items(data: Data) -> Seq<Option<Envelope>>;

impl View for Data {
    type V = Seq<Option<Envelope>>;

    open spec fn view(&self) -> Seq<Option<Envelope>> {
        data_items(*self)
    }
}

/// `SmallVec::new`: an empty vector.
#[verifier::external_body]
fn data_new() -> (data: Data)
    ensures
        data_items(data) == Seq::<Option<Envelope>>::empty(),
{
    Data { inner: SmallVec::new() }
}

/// `SmallVec::push`: appends the item at the end. As with `Vec::push`, running
/// out of memory is not modelled.
#[verifier::external_body]
fn data_push(data: &mut Data, item: Option<Envelope>)
    ensures
        data_items(*final(data)) == data_items(*old(data)).push(item),
{
    data.inner.push(item)
}

/// `SmallVec::len`: the number of items.
#[verifier::external_body]
fn data_len(data: &Data) -> (len: usize)
    ensures
        len == data_items(*data).len(),
{
    data.inner.len()
}

/// `SmallVec::pop`: removes the last item and returns it, or returns `None`
/// and changes nothing where the vector is empty.
#[verifier::external_body]
fn data_pop(data: &mut Data) -> (item: Option<Option<Envelope>>)
    ensures
        match item {
            Some(last) => data_items(*old(data)).len() > 0 && last == data_items(*old(data)).last()
                && data_items(*final(data)) == data_items(*old(data)).drop_last(),
            None => data_items(*old(data)).len() == 0 && data_items(*final(data)) == data_items(
                *old(data),
            ),
        },
{
    data.inner.pop()
}

/// `SmallVec::into_vec`: the same items in the same order, as a `Vec`.
#[verifier::external_body]
fn data_into_vec(data: Data) -> (items: Vec<Option<Envelope>>)
    ensures
        items@ == data_items(data),
{
    data.inner.into_vec()
}

impl Data {
    /// No responses yet.
    pub fn new() -> (data: Data)
        ensures
            data@ == Seq::<Option<Envelope>>::empty(),
    {
        data_new()
    }

    /// Appends a response, or the absence of one.
    pub fn push(&mut self, item: Option<Envelope>)
        ensures
            final(self)@ == old(self)@.push(item),
    {
        data_push(self, item)
    }

    pub fn len(&self) -> (len: usize)
        ensures
            len == self@.len(),
    {
        data_len(self)
    }

    /// Takes the last response off.
    pub fn pop(&mut self) -> (item: Option<Option<Envelope>>)
        ensures
            old(self)@.len() == 0 ==> item.is_none() && final(self)@ == old(self)@,
            old(self)@.len() > 0 ==> item == Some(old(self)@.last()) && final(self)@ == old(
                self,
            )@.drop_last(),
    {
        data_pop(self)
    }

    /// The responses as a `Vec`, first response first.
    pub fn into_vec(self) -> (items: Vec<Option<Envelope>>)
        ensures
            items@ == self@,
    {
        data_into_vec(self)
    }
}

/// Bookkeeping of one request in flight.
pub struct RequestInfo {
    /// How many responses are still expected.
    pub remainder: usize,
    /// The responses that have arrived.
    pub data: Data,
}

/// The requests in flight, each under its id.
///
/// Holds a `slotmap::SlotMap` keyed by the default key type.
#[verifier::external_body]
pub struct Requests {
    inner: SlotMap<DefaultKey, RequestInfo>,
}

/// What a `Requests` holds: the request under each key, the key in its 64-bit
/// form.
pub uninterp spec fn request_slots(requests: Requests) -> Map<u64, RequestInfo>;

/// `SlotMap::default`: an empty map.
#[verifier::external_body]
fn slots_new() -> (requests: Requests)
    ensures
        request_slots(requests).dom() == Set::<u64>::empty(),
{
    Requests { inner: SlotMap::default() }
}

/// `SlotMap::len`: the number of occupied slots.
#[verifier::external_body]
fn slots_len(requests: &Requests) -> (len: usize)
    ensures
        len == request_slots(*requests).len(),
{
    requests.inner.len()
}

/// `SlotMap::insert`: stores the value in a vacant slot and returns that
/// slot's key. The key was not in the map, its version is odd and its index is
/// below `u32::MAX`, so it is not null. The source panics where the map is
/// full; with less than `u32::MAX - 1` values it is not.
#[verifier::external_body]
fn slots_insert(requests: &mut Requests, info: RequestInfo) -> (key: u64)
    requires
        request_slots(*old(requests)).dom().finite(),
        request_slots(*old(requests)).len() < MAX_REQUESTS,
    ensures
        !request_slots(*old(requests)).contains_key(key),
        has_odd_version(key),
        key & 0xffff_ffff != 0xffff_ffff,
        request_slots(*final(requests)) == request_slots(*old(requests)).insert(key, info),
{
    requests.inner.insert(info).data().as_ffi()
}

/// `SlotMap::get`: the value under the key, if the key is in the map.
#[verifier::external_body]
fn slots_get(requests: &Requests, key: u64) -> (found: Option<&RequestInfo>)
    requires
        has_odd_version(key),
    ensures
        match found {
            Some(info) => request_slots(*requests).contains_key(key) && *info == request_slots(
                *requests,
            )[key],
            None => !request_slots(*requests).contains_key(key),
        },
{
    requests.inner.get(DefaultKey::from(KeyData::from_ffi(key)))
}

/// `SlotMap::get_mut`: the value under the key, to be changed in place, if the
/// key is in the map. Nothing else in the map changes.
#[verifier::external_body]
fn slots_get_mut(requests: &mut Requests, key: u64) -> (found: Option<&mut RequestInfo>)
    requires
        has_odd_version(key),
    ensures
        match found {
            Some(info) => request_slots(*old(requests)).contains_key(key) && *info == request_slots(
                *old(requests),
            )[key] && request_slots(*final(requests)) == request_slots(*old(requests)).insert(
                key,
                *final(info),
            ),
            None => !request_slots(*old(requests)).contains_key(key) && request_slots(
                *final(requests),
            ) == request_slots(*old(requests)),
        },
{
    requests.inner.get_mut(DefaultKey::from(KeyData::from_ffi(key)))
}

/// `SlotMap::remove`: takes the value under the key out of the map, if the key
/// is in the map, and changes nothing otherwise.
#[verifier::external_body]
fn slots_remove(requests: &mut Requests, key: u64) -> (removed: Option<RequestInfo>)
    requires
        has_odd_version(key),
    ensures
        match removed {
            Some(info) => request_slots(*old(requests)).contains_key(key) && info == request_slots(
                *old(requests),
            )[key] && request_slots(*final(requests)) == request_slots(*old(requests)).remove(key),
            None => !request_slots(*old(requests)).contains_key(key) && request_slots(
                *final(requests),
            ) == request_slots(*old(requests)),
        },
{
    requests.inner.remove(DefaultKey::from(KeyData::from_ffi(key)))
}

/// The numbers of responses that the requests of a map still expect.
pub open spec fn remainders_of(slots: Map<u64, RequestInfo>) -> Set<usize> {
    Set::new(
        |r: usize|
            exists|key: u64| #[trigger] slots.contains_key(key) && slots[key].remainder == r,
    )
}

/// `SlotMap::values`: visits every value of the map, in an order that is left
/// open. The field `remainder` of each is handed out.
#[verifier::external_body]
fn slots_remainders(requests: &Requests) -> (remainders: Vec<usize>)
    ensures
        remainders@.to_set() == remainders_of(request_slots(*requests)),
{
    requests.inner.values().map(|info| info.remainder).collect()
}


impl RequestInfo {
    /// The request as the contracts see it.
    pub open spec fn state(self) -> RequestState {
        RequestState { remainder: self.remainder as nat, collected: self.data@ }
    }
}

impl Requests {
    /// The request under each id, the id by its view.
    pub open spec fn slots(self) -> Map<u64, RequestInfo> {
        request_slots(self)
    }

    /// No requests.
    pub fn new() -> (requests: Requests)
        ensures
            requests.slots() == Map::<u64, RequestInfo>::empty(),
            requests.slots().dom().finite(),
    {
        let requests = slots_new();
        assert(requests.slots() =~= Map::<u64, RequestInfo>::empty());
        requests
    }

    pub fn len(&self) -> (len: usize)
        ensures
            len == self.slots().len(),
    {
        slots_len(self)
    }

    /// Stores the request under an id that the map did not hold, and returns
    /// the id, which is not null.
    pub fn insert(&mut self, info: RequestInfo) -> (id: RequestId)
        requires
            old(self).slots().dom().finite(),
            old(self).slots().len() < MAX_REQUESTS,
        ensures
            !old(self).slots().contains_key(id@),
            !id.spec_is_null(),
            final(self).slots() == old(self).slots().insert(id@, info),
            final(self).slots().dom().finite(),
    {
        let key = slots_insert(self, info);
        RequestId { bits: key }
    }

    /// The request under the id, if there is one.
    pub fn get(&self, id: RequestId) -> (found: Option<&RequestInfo>)
        ensures
            found.is_some() == self.slots().contains_key(id@),
            found matches Some(info) ==> *info == self.slots()[id@],
    {
        proof {
            use_type_invariant(&id);
        }
        slots_get(self, id.bits)
    }

    /// The request under the id, to be changed in place, if there is one.
    pub fn get_mut(&mut self, id: RequestId) -> (found: Option<&mut RequestInfo>)
        ensures
            found.is_some() == old(self).slots().contains_key(id@),
            match found {
                Some(info) => *info == old(self).slots()[id@] && final(self).slots() == old(
                    self,
                ).slots().insert(id@, *final(info)),
                None => final(self).slots() == old(self).slots(),
            },
    {
        proof {
            use_type_invariant(&id);
        }
        slots_get_mut(self, id.bits)
    }

    /// Takes the request under the id out of the map, if there is one.
    pub fn remove(&mut self, id: RequestId) -> (removed: Option<RequestInfo>)
        ensures
            removed.is_some() == old(self).slots().contains_key(id@),
            match removed {
                Some(info) => info == old(self).slots()[id@] && final(self).slots() == old(
                    self,
                ).slots().remove(id@),
                None => final(self).slots() == old(self).slots(),
            },
    {
        proof {
            use_type_invariant(&id);
        }
        slots_remove(self, id.bits)
    }

    /// Whether every request of the map still expects a response.
    pub fn all_pending(&self) -> (pending: bool)
        ensures
            pending == (forall|key: u64| #[trigger]
                self.slots().contains_key(key) ==> self.slots()[key].remainder != 0),
    {
        let remainders = slots_remainders(self);
        let mut i: usize = 0;
        while i < remainders.len()
            invariant
                i <= remainders.len(),
                remainders@.to_set() == remainders_of(self.slots()),
                forall|j: int| 0 <= j < i ==> remainders@[j] != 0,
            decreases remainders.len() - i,
        {
            if remainders[i] == 0 {
                proof {
                    assert(remainders@.contains(remainders@[i as int]));
                    assert(remainders@.to_set().contains(0usize));
                    assert(remainders_of(self.slots()).contains(0usize));
                    let key = choose|key: u64| #[trigger]
                        self.slots().contains_key(key) && self.slots()[key].remainder == 0usize;
                    assert(self.slots().contains_key(key) && self.slots()[key].remainder == 0);
                }
                return false;
            }
            i = i + 1;
        }
        proof {
            assert forall|key: u64| #[trigger] self.slots().contains_key(key) implies self.slots()[key].remainder
                != 0 by {
                let r = self.slots()[key].remainder;
                assert(remainders_of(self.slots()).contains(r));
                assert(remainders@.to_set().contains(r));
                assert(remainders@.contains(r));
            }
        }
        true
    }
}

} // verus!
