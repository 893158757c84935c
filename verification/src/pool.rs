//! The pool of instruments that a player can trigger, and their routing to
//! mixers. The pool hands out instrument ids and remembers under each id the
//! handle of a loaded sample; whoever decodes the audio keeps the sample data
//! under that handle.

use vstd::prelude::*;
use dashmap::DashMap;
use crate::event::InstrumentId;

verus! {

/// Id of a mixer (an effect chain) that an instrument can be routed to.
#[derive(Copy, Clone, Debug, PartialEq, Eq, Hash, Structural)]
pub struct MixerId(pub usize);

/// Handle of the decoded audio of a sample.
#[derive(Copy, Clone, Debug, PartialEq, Eq, Hash, Structural)]
pub struct SampleHandle(pub usize);

/// Why the pool could not serve a request.
#[derive(Copy, Clone, Debug, PartialEq, Eq, Structural)]
pub enum PoolError {
    /// No sample is loaded under the given instrument id.
    MediaFileNotFound,
    /// Every instrument id has been handed out.
    OutOfIds,
}

/// `dashmap::DashMap`, a hash map in shards. Nothing of its inside is known
/// here; what it holds is spoken of through `entries`.
#[verifier::external_type_specification]
#[verifier::external_body]
#[verifier::reject_recursive_types(K)]
#[verifier::reject_recursive_types(V)]
#[verifier::reject_recursive_types(S)]
pub struct ExDashMap<K, V, S>(DashMap<K, V, S>);

/// What a `dashmap::DashMap` holds: the value that it keeps for each of its
/// keys.
pub uninterp spec fn entries(map: DashMap<usize, usize>) -> Map<usize, usize>;

/// `DashMap::new`: a map that holds nothing.
#[verifier::external_body]
fn new_map() -> (r: DashMap<usize, usize>)
    ensures
        entries(r) =~= Map::empty(),
{
    DashMap::new()
}

/// `DashMap::get`: a copy of the value that the map keeps for the key, if it
/// keeps one.
#[verifier::external_body]
fn get_entry(map: &DashMap<usize, usize>, key: usize) -> (r: Option<usize>)
    ensures
        r == (if entries(*map).contains_key(key) {
            Some(entries(*map)[key])
        } else {
            None
        }),
{
    match map.get(&key) {
        Some(value) => Some(*value),
        None => None,
    }
}

/// `DashMap::insert`: afterwards the map keeps the value for the key, in
/// place of what it kept for it before, and every other entry as it was.
#[verifier::external_body]
fn insert_entry(map: &mut DashMap<usize, usize>, key: usize, value: usize)
    ensures
        entries(*final(map)) == entries(*old(map)).insert(key, value),
{
    map.insert(key, value);
}

/// `DashMap::remove`: takes the entry of the key out of the map, leaves
/// every other entry as it was, and returns the value that was kept for the
/// key, if there was one.
#[verifier::external_body]
fn remove_entry(map: &mut DashMap<usize, usize>, key: usize) -> (r: Option<usize>)
    ensures
        entries(*final(map)) == entries(*old(map)).remove(key),
        r == (if entries(*old(map)).contains_key(key) {
            Some(entries(*old(map))[key])
        } else {
            None
        }),
{
    match map.remove(&key) {
        Some((_, value)) => Some(value),
        None => None,
    }
}

/// `DashMap::retain`: asks the predicate once for each key of the map and
/// takes out the entries for which it answers false; the entries that stay
/// are as they were.
#[verifier::external_body]
fn retain_entries<F: Fn(InstrumentId) -> bool>(map: &mut DashMap<usize, usize>, func: F)
    requires
        forall|id: InstrumentId| call_requires(func, (id,)),
    ensures
        entries(*final(map)).submap_of(entries(*old(map))),
        forall|key: usize| #[trigger]
            entries(*final(map)).contains_key(key) ==> call_ensures(
                func,
                (InstrumentId(key),),
                true,
            ),
        forall|key: usize|
            entries(*old(map)).contains_key(key) && !(#[trigger] entries(*final(map)).contains_key(
                key,
            )) ==> call_ensures(func, (InstrumentId(key),), false),
{
    map.retain(|key, _| func(InstrumentId(*key)));
}

/// `DashMap::clear`: afterwards the map holds nothing.
#[verifier::external_body]
fn clear_entries(map: &mut DashMap<usize, usize>)
    ensures
        entries(*final(map)) =~= Map::empty(),
{
    map.clear();
}

/// A set of loaded instruments with their default mixers.
#[derive(Debug)]
pub struct SamplePool {
    next_id: usize,
    pool: DashMap<usize, usize>,
    routing: DashMap<usize, usize>,
}

impl SamplePool {
    /// The sample of each loaded instrument.
    pub closed spec fn handles(&self) -> Map<InstrumentId, SampleHandle> {
        Map::new(
            |id: InstrumentId| entries(self.pool).contains_key(id.0),
            |id: InstrumentId| SampleHandle(entries(self.pool)[id.0]),
        )
    }

    /// The instruments that are loaded.
    pub open spec fn samples(&self) -> Set<InstrumentId> {
        self.handles().dom()
    }

    /// The default mixer of each routed instrument.
    pub closed spec fn routing(&self) -> Map<InstrumentId, MixerId> {
        Map::new(
            |id: InstrumentId| entries(self.routing).contains_key(id.0),
            |id: InstrumentId| MixerId(entries(self.routing)[id.0]),
        )
    }

    /// The id that the next loaded sample gets.
    pub closed spec fn next_id(&self) -> usize {
        self.next_id
    }

    /// Every id that was handed out lies below the next one.
    pub closed spec fn wf(&self) -> bool {
        forall|key: usize| #[trigger] entries(self.pool).contains_key(key) ==> key < self.next_id
    }

    /// Every loaded instrument has an id below the next one.
    pub proof fn lemma_samples_below_next_id(&self, id: InstrumentId)
        requires
            self.wf(),
            self.samples().contains(id),
        ensures
            id.0 < self.next_id(),
    {
        assert(entries(self.pool).contains_key(id.0));
    }

    /// Create a new empty sample pool.
    pub fn new() -> (r: SamplePool)
        ensures
            r.wf(),
            r.handles() == Map::<InstrumentId, SampleHandle>::empty(),
            r.routing() == Map::<InstrumentId, MixerId>::empty(),
            r.next_id() == 0,
    {
        SamplePool::with_first_id(0)
    }

    /// Create a new empty sample pool whose first sample gets the given id.
    pub fn with_first_id(first_id: usize) -> (r: SamplePool)
        ensures
            r.wf(),
            r.handles() == Map::<InstrumentId, SampleHandle>::empty(),
            r.routing() == Map::<InstrumentId, MixerId>::empty(),
            r.next_id() == first_id,
    {
        let r = SamplePool { next_id: first_id, pool: new_map(), routing: new_map() };
        assert(r.handles() =~= Map::<InstrumentId, SampleHandle>::empty());
        assert(r.routing() =~= Map::<InstrumentId, MixerId>::empty());
        r
    }

    /// True when a sample is loaded under the given id.
    pub fn contains(&self, id: InstrumentId) -> (r: bool)
        ensures
            r == self.samples().contains(id),
    {
        get_entry(&self.pool, id.0).is_some()
    }

    /// Fetch the handle of the sample that is loaded under the given id.
    ///
    /// ### Errors
    /// Returns an error if the instrument id is unknown.
    pub fn sample(&self, id: InstrumentId) -> (r: Result<SampleHandle, PoolError>)
        ensures
            self.samples().contains(id) ==> r == Ok::<SampleHandle, PoolError>(self.handles()[id]),
            !self.samples().contains(id) ==> r == Err::<SampleHandle, PoolError>(
                PoolError::MediaFileNotFound,
            ),
    {
        match get_entry(&self.pool, id.0) {
            Some(handle) => Ok(SampleHandle(handle)),
            None => Err(PoolError::MediaFileNotFound),
        }
    }

    /// Adds a sample to the pool and returns its id, which no sample had
    /// before. The sample can then be fetched with `sample` under that id.
    ///
    /// ### Errors
    /// Returns an error if no id is left.
    pub fn load_sample(&mut self, sample: SampleHandle) -> (r: Result<InstrumentId, PoolError>)
        requires
            old(self).wf(),
        ensures
            final(self).wf(),
            final(self).routing() == old(self).routing(),
            old(self).next_id() < usize::MAX ==> r == Ok::<InstrumentId, PoolError>(
                InstrumentId(old(self).next_id()),
            ) && final(self).next_id() == old(self).next_id() + 1 && !old(self).samples().contains(
                InstrumentId(old(self).next_id()),
            ) && final(self).handles() == old(self).handles().insert(
                InstrumentId(old(self).next_id()),
                sample,
            ),
            old(self).next_id() == usize::MAX ==> r == Err::<InstrumentId, PoolError>(
                PoolError::OutOfIds,
            ) && final(self).next_id() == old(self).next_id() && final(self).handles() == old(
                self,
            ).handles(),
    {
        if self.next_id == usize::MAX {
            return Err(PoolError::OutOfIds);
        }
        let id = InstrumentId(self.next_id);
        proof {
            if self.samples().contains(id) {
                self.lemma_samples_below_next_id(id);
            }
        }
        self.next_id = self.next_id + 1;
        insert_entry(&mut self.pool, id.0, sample.0);
        assert(self.handles() =~= old(self).handles().insert(id, sample));
        Ok(id)
    }

    /// Removes the sample with the given id from the pool.
    /// Returns the removed sample, or None when it was not found.
    pub fn remove_sample(&mut self, id: InstrumentId) -> (r: Option<SampleHandle>)
        requires
            old(self).wf(),
        ensures
            final(self).wf(),
            final(self).handles() == old(self).handles().remove(id),
            final(self).routing() == old(self).routing(),
            final(self).next_id() == old(self).next_id(),
            r == (if old(self).samples().contains(id) {
                Some(old(self).handles()[id])
            } else {
                None
            }),
    {
        let removed = remove_entry(&mut self.pool, id.0);
        assert(self.handles() =~= old(self).handles().remove(id));
        match removed {
            Some(handle) => Some(SampleHandle(handle)),
            None => None,
        }
    }

    /// Retains samples where the given predicate returns true and discards
    /// all others.
    pub fn retain_samples<F: Fn(InstrumentId) -> bool>(&mut self, func: F)
        requires
            old(self).wf(),
            forall|id: InstrumentId| call_requires(func, (id,)),
        ensures
            final(self).wf(),
            final(self).routing() == old(self).routing(),
            final(self).next_id() == old(self).next_id(),
            final(self).handles().submap_of(old(self).handles()),
            forall|id: InstrumentId| #[trigger]
                final(self).samples().contains(id) ==> call_ensures(func, (id,), true),
            forall|id: InstrumentId|
                old(self).samples().contains(id) && !(#[trigger] final(self).samples().contains(
                    id,
                )) ==> call_ensures(func, (id,), false),
    {
        retain_entries(&mut self.pool, func);
        proof {
            assert forall|key: usize| #[trigger]
                entries(self.pool).contains_key(key) implies key < self.next_id by {
                assert(entries(self.pool).dom().contains(key));
                assert(entries(old(self).pool).dom().contains(key));
            }
            assert forall|id: InstrumentId| #[trigger]
                final(self).samples().contains(id) implies call_ensures(func, (id,), true) by {
                assert(entries(self.pool).contains_key(id.0));
                assert(InstrumentId(id.0) == id);
            }
            assert forall|id: InstrumentId|
                old(self).samples().contains(id) && !(#[trigger] final(self).samples().contains(
                    id,
                )) implies call_ensures(func, (id,), false) by {
                assert(!entries(self.pool).contains_key(id.0));
                assert(InstrumentId(id.0) == id);
            }
        }
    }

    /// Get a single default instrument routing or None when there was none set.
    pub fn target_mixer(&self, instrument: InstrumentId) -> (r: Option<MixerId>)
        ensures
            r == (if self.routing().contains_key(instrument) {
                Some(self.routing()[instrument])
            } else {
                None
            }),
    {
        match get_entry(&self.routing, instrument.0) {
            Some(mixer) => Some(MixerId(mixer)),
            None => None,
        }
    }

    /// Set or unset a single new default instrument routing.
    pub fn set_target_mixer(&mut self, instrument: InstrumentId, mixer_id: Option<MixerId>)
        ensures
            final(self).wf() == old(self).wf(),
            final(self).handles() == old(self).handles(),
            final(self).next_id() == old(self).next_id(),
            final(self).routing() == (match mixer_id {
                Some(mixer) => old(self).routing().insert(instrument, mixer),
                None => old(self).routing().remove(instrument),
            }),
    {
        if let Some(mixer_id) = mixer_id {
            insert_entry(&mut self.routing, instrument.0, mixer_id.0);
            assert(self.routing() =~= old(self).routing().insert(instrument, mixer_id));
        } else {
            remove_entry(&mut self.routing, instrument.0);
            assert(self.routing() =~= old(self).routing().remove(instrument));
        }
        assert(self.handles() =~= old(self).handles());
    }

    /// Clears all preloaded samples and routings from the pool.
    pub fn clear(&mut self)
        ensures
            final(self).wf(),
            final(self).handles() == Map::<InstrumentId, SampleHandle>::empty(),
            final(self).routing() == Map::<InstrumentId, MixerId>::empty(),
            final(self).next_id() == old(self).next_id(),
    {
        clear_entries(&mut self.pool);
        clear_entries(&mut self.routing);
        assert(self.handles() =~= Map::<InstrumentId, SampleHandle>::empty());
        assert(self.routing() =~= Map::<InstrumentId, MixerId>::empty());
    }
}

} // verus!
