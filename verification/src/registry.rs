//! The index of the registered message types: from the tag of a type to the
//! place of its entry in the list of registrations.

use crate::message::LocalTypeId;
use fxhash::FxHashMap;
use fxhash::FxHasher;
use std::hash::BuildHasherDefault;
use vstd::prelude::*;

verus! {

#[verifier::external_type_specification]
#[verifier::external_body]
pub struct ExFxHasher(FxHasher);

#[verifier::external_type_specification]
#[verifier::external_body]
#[verifier::reject_recursive_types(H)]
pub struct ExBuildHasherDefault<H>(BuildHasherDefault<H>);

/// `HashMap::insert` with the hasher of `fxhash`, which hashes equal keys
/// alike: the map then holds the value under the key, in place of what it held
/// there, and nothing else changes.
#[verifier::external_body]
fn fx_map_insert(map: &mut FxHashMap<LocalTypeId, usize>, key: LocalTypeId, value: usize)
    ensures
        final(map)@ == old(map)@.insert(key, value),
{
    map.insert(key, value);
}

/// `HashMap::get` with the hasher of `fxhash`: the value under the key, if
/// the map holds one.
#[verifier::external_body]
fn fx_map_get(map: &FxHashMap<LocalTypeId, usize>, key: LocalTypeId) -> (found: Option<&usize>)
    ensures
        found.is_some() == map@.contains_key(key),
        found matches Some(value) ==> *value == map@[key],
{
    map.get(&key)
}

/// The place of the last entry with the tag among the first `len` entries.
pub open spec fn last_position(ltids: Seq<LocalTypeId>, len: int, ltid: LocalTypeId) -> Option<
    int,
>
    decreases len,
{
    if len <= 0 {
        None
    } else if ltids[len - 1] == ltid {
        Some(len - 1)
    } else {
        last_position(ltids, len - 1, ltid)
    }
}

/// Read-only index over the list of registrations, built once.
pub struct MessageIndex {
    by_ltid: FxHashMap<LocalTypeId, usize>,
}

impl View for MessageIndex {
    type V = Map<LocalTypeId, usize>;

    closed spec fn view(&self) -> Map<LocalTypeId, usize> {
        self.by_ltid@
    }
}

impl MessageIndex {
    /// Whether the index holds, under each tag of the list, the place of the
    /// last entry with that tag, and nothing else.
    pub open spec fn indexes(&self, ltids: Seq<LocalTypeId>) -> bool {
        forall|ltid: LocalTypeId|
            (#[trigger] last_position(ltids, ltids.len() as int, ltid)) == (if self@.contains_key(
                ltid,
            ) {
                Some(self@[ltid] as int)
            } else {
                None
            })
    }

    /// Builds the index of a list of registrations, given by the tag of each
    /// entry. Where two entries have one tag, the later one is indexed.
    pub fn build(ltids: &Vec<LocalTypeId>) -> (index: MessageIndex)
        ensures
            index.indexes(ltids@),
    {
        let mut by_ltid: FxHashMap<LocalTypeId, usize> = FxHashMap::default();
        let mut i: usize = 0;
        while i < ltids.len()
            invariant
                i <= ltids.len(),
                forall|ltid: LocalTypeId|
                    (#[trigger] last_position(ltids@, i as int, ltid)) == (if by_ltid@.contains_key(
                        ltid,
                    ) {
                        Some(by_ltid@[ltid] as int)
                    } else {
                        None
                    }),
            decreases ltids.len() - i,
        {
            let ghost before = by_ltid@;
            fx_map_insert(&mut by_ltid, ltids[i], i);
            proof {
                assert forall|ltid: LocalTypeId|
                    (#[trigger] last_position(ltids@, i + 1, ltid)) == (if by_ltid@.contains_key(
                        ltid,
                    ) {
                        Some(by_ltid@[ltid] as int)
                    } else {
                        None
                    }) by {
                    assert(last_position(ltids@, i as int, ltid) == (if before.contains_key(ltid) {
                        Some(before[ltid] as int)
                    } else {
                        None
                    }));
                }
            }
            i = i + 1;
        }
        MessageIndex { by_ltid }
    }

    /// The place of the entry with the tag, or `None` where no entry has it.
    pub fn find(&self, ltid: LocalTypeId) -> (position: Option<usize>)
        ensures
            position.is_some() == self@.contains_key(ltid),
            position matches Some(place) ==> place == self@[ltid],
    {
        match fx_map_get(&self.by_ltid, ltid) {
            Some(place) => Some(*place),
            None => None,
        }
    }

    /// The place of the entry with the tag, which must be registered: a tag
    /// that is not comes from a build that does not match.
    pub fn lookup(&self, ltid: LocalTypeId) -> (place: usize)
        requires
            self@.contains_key(ltid),
        ensures
            place == self@[ltid],
    {
        match fx_map_get(&self.by_ltid, ltid) {
            Some(place) => *place,
            None => 0,
        }
    }

    /// An index of a list finds a tag exactly when the list holds it, and
    /// then the place it gives holds that tag.
    pub proof fn lemma_indexes(&self, ltids: Seq<LocalTypeId>, ltid: LocalTypeId)
        requires
            self.indexes(ltids),
        ensures
            self@.contains_key(ltid) <==> ltids.contains(ltid),
            self@.contains_key(ltid) ==> 0 <= self@[ltid] < ltids.len() && ltids[self@[ltid] as int]
                == ltid,
            self@.contains_key(ltid) ==> forall|later: int|
                self@[ltid] < later < ltids.len() ==> ltids[later] != ltid,
    {
        lemma_last_position(ltids, ltids.len() as int, ltid);
    }
}

/// What `last_position` finds is the last place of the tag, and it finds
/// nothing exactly when the tag has no place.
pub proof fn lemma_last_position(ltids: Seq<LocalTypeId>, len: int, ltid: LocalTypeId)
    requires
        0 <= len <= ltids.len(),
    ensures
        match last_position(ltids, len, ltid) {
            Some(place) => 0 <= place < len && ltids[place] == ltid && forall|later: int|
                place < later < len ==> ltids[later] != ltid,
            None => forall|place: int| 0 <= place < len ==> ltids[place] != ltid,
        },
        len == ltids.len() ==> (last_position(ltids, len, ltid).is_some() <==> ltids.contains(ltid)),
    decreases len,
{
    if len > 0 {
        lemma_last_position(ltids, len - 1, ltid);
    }
    if len == ltids.len() {
        if ltids.contains(ltid) {
            let place = choose|place: int| 0 <= place < ltids.len() && ltids[place] == ltid;
            assert(last_position(ltids, len, ltid).is_some());
        }
    }
}

} // verus!
