//! The store of snapshots, keyed by identity.

use vstd::prelude::*;
use dashmap::DashMap;
use crate::errors::OdiliaError;
use crate::identity::{AccessiblePrimitive, Identity};
use crate::item::{copy_into_cache_item, identities, item_views, CacheItem, CacheItemView};

verus! {

/// The concurrent map that holds the snapshots.
#[verifier::external_type_specification]
#[verifier::external_body]
#[verifier::reject_recursive_types(K)]
#[verifier::reject_recursive_types(V)]
#[verifier::reject_recursive_types(S)]
pub struct ExDashMap<K, V, S>(DashMap<K, V, S>);

/// What a map holds: for each identity that has an entry, the snapshot stored
/// under it.
///
/// The map finds a key by its hash and by `==`. The hash of a key is derived
/// from its sender and its id, and `==` holds of two keys exactly where they
/// stand for the same identity, so there is one entry at most for each
/// identity.
pub uninterp spec fn held(map: DashMap<AccessiblePrimitive, CacheItem>) -> Map<Identity, CacheItemView>;

/// Calls `DashMap::new`, which gives a map without entries.
#[verifier::external_body]
fn map_new() -> (fresh: DashMap<AccessiblePrimitive, CacheItem>)
    ensures
        held(fresh).dom() == Set::<Identity>::empty(),
{
    DashMap::new()
}

/// Calls `DashMap::insert`, which stores `value` under `key` and drops what
/// was stored under an equal key before. Keys are equal where their sender and
/// id are.
#[verifier::external_body]
fn map_insert(
    map: &mut DashMap<AccessiblePrimitive, CacheItem>,
    key: AccessiblePrimitive,
    value: CacheItem,
)
    ensures
        held(*final(map)) == held(*old(map)).insert(key@, value@),
{
    map.insert(key, value);
}

/// Calls `DashMap::remove`, which takes the entry of `key` out of the map and
/// hands its value over, or does nothing where `key` has no entry.
#[verifier::external_body]
fn map_remove(map: &mut DashMap<AccessiblePrimitive, CacheItem>, key: &AccessiblePrimitive) -> (taken:
    Option<CacheItem>)
    ensures
        held(*final(map)) == held(*old(map)).remove(key@),
        match taken {
            Some(item) => held(*old(map)).contains_key(key@) && item@ == held(*old(map))[key@],
            None => !held(*old(map)).contains_key(key@),
        },
{
    map.remove(key).map(|entry| entry.1)
}

/// Calls `DashMap::view`, which looks `key` up and, where it has an entry,
/// hands the stored value to the closure while it holds the entry's lock. The
/// closure copies the value, so that no lock outlives the call.
#[verifier::external_body]
fn map_get(map: &DashMap<AccessiblePrimitive, CacheItem>, key: &AccessiblePrimitive) -> (found:
    Option<CacheItem>)
    ensures
        match found {
            Some(item) => held(*map).contains_key(key@) && item@ == held(*map)[key@],
            None => !held(*map).contains_key(key@),
        },
{
    map.view(key, |_, item| copy_into_cache_item(item))
}

/// Calls `DashMap::len`, which counts the entries.
#[verifier::external_body]
fn map_len(map: &DashMap<AccessiblePrimitive, CacheItem>) -> (count: usize)
    ensures
        count == held(*map).len(),
{
    map.len()
}

/// The key under which the cache holds a snapshot.
pub type CacheKey = AccessiblePrimitive;

/// The cache: at most one snapshot for each identity, each stored under the
/// identity of the object it describes.
pub struct Cache {
    by_id: DashMap<AccessiblePrimitive, CacheItem>,
}

/// Whether each snapshot of `entries` is stored under its own identity.
pub open spec fn keyed_by_object(entries: Map<Identity, CacheItemView>) -> bool {
    forall|key: Identity| entries.contains_key(key) ==> (#[trigger] entries[key]).object == key
}

/// The snapshot `item` as the snapshot of `object`.
pub open spec fn under(item: CacheItemView, object: Identity) -> CacheItemView {
    CacheItemView { object, ..item }
}

/// `entries` after each snapshot of `items` has been stored in turn, a later
/// one replacing an earlier one of the same identity.
pub open spec fn with_all(entries: Map<Identity, CacheItemView>, items: Seq<CacheItemView>) -> Map<
    Identity,
    CacheItemView,
>
    decreases items.len(),
{
    if items.len() == 0 {
        entries
    } else {
        with_all(entries, items.drop_last()).insert(items.last().object, items.last())
    }
}

impl View for Cache {
    type V = Map<Identity, CacheItemView>;

    closed spec fn view(&self) -> Map<Identity, CacheItemView> {
        held(self.by_id)
    }
}

impl Cache {
    /// What holds of every cache: each snapshot is stored under its own
    /// identity, and there are finitely many of them.
    pub open spec fn wf(&self) -> bool {
        keyed_by_object(self@) && self@.dom().finite()
    }

    /// A cache without entries.
    pub fn new() -> (cache: Cache)
        ensures
            cache.wf(),
            cache@ == Map::<Identity, CacheItemView>::empty(),
    {
        let by_id = map_new();
        assert(held(by_id) =~= Map::<Identity, CacheItemView>::empty());
        Cache { by_id }
    }

    /// The number of snapshots.
    pub fn len(&self) -> (count: usize)
        ensures
            count == self@.len(),
    {
        map_len(&self.by_id)
    }

    /// Stores `cache_item` under its own identity, in place of what was stored
    /// there.
    pub fn add(&mut self, cache_item: CacheItem)
        requires
            old(self).wf(),
        ensures
            final(self)@ == old(self)@.insert(cache_item.object@, cache_item@),
            final(self).wf(),
    {
        let key = cache_item.object.clone();
        map_insert(&mut self.by_id, key, cache_item);
    }

    /// Drops the snapshot stored under `id`, if there is one.
    pub fn remove(&mut self, id: &CacheKey)
        requires
            old(self).wf(),
        ensures
            final(self)@ == old(self)@.remove(id@),
            final(self).wf(),
    {
        let _ = map_remove(&mut self.by_id, id);
    }

    /// A copy of the snapshot stored under `id`. The copy shares nothing with
    /// the cache.
    pub fn get(&self, id: &CacheKey) -> (found: Option<CacheItem>)
        requires
            self.wf(),
        ensures
            match found {
                Some(item) => self@.contains_key(id@) && item@ == self@[id@] && item.object@
                    == id@,
                None => !self@.contains_key(id@),
            },
    {
        map_get(&self.by_id, id)
    }

    /// The same as [`Cache::get`].
    pub fn get_blocking(&self, id: &CacheKey) -> (found: Option<CacheItem>)
        requires
            self.wf(),
        ensures
            match found {
                Some(item) => self@.contains_key(id@) && item@ == self@[id@] && item.object@
                    == id@,
                None => !self@.contains_key(id@),
            },
    {
        self.get(id)
    }

    /// For each of `ids`, in order, what [`Cache::get`] gives.
    pub fn get_all(&self, ids: &[CacheKey]) -> (found: Vec<Option<CacheItem>>)
        requires
            self.wf(),
        ensures
            found.len() == ids.len(),
            forall|i: int|
                0 <= i < ids.len() ==> match #[trigger] found[i] {
                    Some(item) => self@.contains_key(ids[i]@) && item@ == self@[ids[i]@],
                    None => !self@.contains_key(ids[i]@),
                },
    {
        let mut found: Vec<Option<CacheItem>> = Vec::new();
        let mut i: usize = 0;
        while i < ids.len()
            invariant
                self.wf(),
                i <= ids.len(),
                found.len() == i,
                forall|j: int|
                    0 <= j < i ==> match #[trigger] found[j] {
                        Some(item) => self@.contains_key(ids[j]@) && item@ == self@[ids[j]@],
                        None => !self@.contains_key(ids[j]@),
                    },
            decreases ids.len() - i,
        {
            found.push(self.get(&ids[i]));
            i += 1;
        }
        found
    }

    /// Stores each of `cache_items` in turn, as [`Cache::add`] does.
    pub fn add_all(&mut self, cache_items: Vec<CacheItem>)
        requires
            old(self).wf(),
        ensures
            final(self)@ == with_all(old(self)@, item_views(cache_items@)),
            final(self).wf(),
    {
        let ghost all = cache_items@;
        let ghost before = self@;
        for cache_item in it: cache_items
            invariant
                self.wf(),
                it.seq() == all,
                self@ == with_all(before, item_views(all.take(it.index() as int))),
        {
            proof {
                let done = item_views(all.take(it.index() as int));
                let next = item_views(all.take(it.index() + 1));
                assert(next.drop_last() =~= done);
                assert(next.last() == cache_item@);
            }
            self.add(cache_item);
        }
        proof {
            assert(all.take(all.len() as int) == all);
        }
    }

    /// Drops the snapshot of each of `ids`, as [`Cache::remove`] does.
    pub fn remove_all(&mut self, ids: Vec<CacheKey>)
        requires
            old(self).wf(),
        ensures
            final(self)@ == old(self)@.remove_keys(identities(ids@).to_set()),
            final(self).wf(),
    {
        let ghost before = self@;
        let mut i: usize = 0;
        while i < ids.len()
            invariant
                self.wf(),
                i <= ids.len(),
                self@ == before.remove_keys(identities(ids@).take(i as int).to_set()),
            decreases ids.len() - i,
        {
            self.remove(&ids[i]);
            proof {
                let seen = identities(ids@).take(i as int);
                let next = identities(ids@).take(i + 1);
                assert(next == seen.push(ids@[i as int]@));
                assert(next.to_set() =~= seen.to_set().insert(ids@[i as int]@)) by {
                    assert forall|k: Identity| next.to_set().contains(k) implies seen.to_set().insert(
                        ids@[i as int]@,
                    ).contains(k) by {
                        let j = choose|j: int| 0 <= j < next.len() && next[j] == k;
                        if j < i {
                            assert(seen[j] == k);
                        }
                    }
                    assert forall|k: Identity|
                        seen.to_set().insert(ids@[i as int]@).contains(k) implies next.to_set().contains(
                        k,
                    ) by {
                        if k == ids@[i as int]@ {
                            assert(next[i as int] == k);
                        } else {
                            let j = choose|j: int| 0 <= j < seen.len() && seen[j] == k;
                            assert(next[j] == k);
                        }
                    }
                }
                assert(self@ =~= before.remove_keys(next.to_set()));
            }
            i += 1;
        }
        proof {
            assert(identities(ids@).take(ids.len() as int) == identities(ids@));
        }
    }

    /// Lets `modify` change the snapshot stored under `id` in place, and says
    /// whether there was one. While `modify` runs nothing else can reach the
    /// entry, so it has to be short and must not wait for anything.
    ///
    /// No entry is added and none is taken away. The snapshot stays the one
    /// of `id`: what `modify` writes to `object` does not last. Where `id` has
    /// no entry, `modify` is not called.
    pub fn modify_item<F>(&mut self, id: &CacheKey, modify: F) -> (found: bool) where
        F: FnOnce(&mut CacheItem),

        requires
            old(self).wf(),
            old(self)@.contains_key(id@) ==> forall|item: &mut CacheItem|
                (*item)@ == old(self)@[id@] ==> #[trigger] modify.requires((item,)),
        ensures
            final(self).wf(),
            found == old(self)@.contains_key(id@),
            final(self)@.dom() == old(self)@.dom(),
            !found ==> final(self)@ == old(self)@,
            found ==> exists|item: &mut CacheItem|
                {
                    &&& (*item)@ == old(self)@[id@]
                    &&& #[trigger] modify.ensures((item,), ())
                    &&& final(self)@ == old(self)@.insert(id@, under((*final(item))@, id@))
                },
    {
        match map_remove(&mut self.by_id, id) {
            None => {
                assert(self@ =~= old(self)@);
                false
            },
            Some(cache_item) => {
                let mut cache_item = cache_item;
                modify(&mut cache_item);
                let ghost written = cache_item@;
                let key = id.clone();
                if cache_item.object != key {
                    cache_item.object = id.clone();
                }
                assert(cache_item@ == under(written, id@));
                map_insert(&mut self.by_id, key, cache_item);
                assert(self@ =~= old(self)@.insert(id@, under(written, id@)));
                assert(self@.dom() =~= old(self)@.dom());
                true
            },
        }
    }

    /// The snapshot stored under `primitive`; where there is none, the one
    /// that `create` makes, which is then stored as well.
    ///
    /// `create` is called only where the cache has no snapshot, and has to
    /// make the snapshot of `primitive`. Where it fails, its error is handed
    /// on and the cache stays as it was.
    pub fn get_or_create<F>(&mut self, primitive: &CacheKey, create: F) -> (got: Result<
        CacheItem,
        OdiliaError,
    >) where F: FnOnce() -> Result<CacheItem, OdiliaError>
        requires
            old(self).wf(),
            !old(self)@.contains_key(primitive@) ==> create.requires(()),
            !old(self)@.contains_key(primitive@) ==> forall|made: Result<CacheItem, OdiliaError>|
             #[trigger]
                create.ensures((), made) ==> (made matches Ok(item) ==> item@.object
                    == primitive@),
        ensures
            final(self).wf(),
            got matches Ok(item) ==> item@.object == primitive@,
            old(self)@.contains_key(primitive@) ==> final(self)@ == old(self)@ && (got matches Ok(
                item,
            ) && item@ == old(self)@[primitive@]),
            !old(self)@.contains_key(primitive@) ==> create.ensures((), got) && (match got {
                Ok(item) => final(self)@ == old(self)@.insert(primitive@, item@),
                Err(_) => final(self)@ == old(self)@,
            }),
    {
        if let Some(cache_item) = self.get(primitive) {
            return Ok(cache_item);
        }
        let cache_item = create()?;
        self.add(copy_into_cache_item(&cache_item));
        Ok(cache_item)
    }
}

/// One change of a cache, as its view sees it.
pub enum CacheEvent {
    /// A snapshot is stored.
    Add(CacheItemView),
    /// The snapshot of an identity is dropped.
    Remove(Identity),
    /// The snapshot of an identity is changed in place into the one given,
    /// which stays the snapshot of that identity.
    Modify(Identity, CacheItemView),
}

/// The entries after one change.
pub open spec fn applied(entries: Map<Identity, CacheItemView>, event: CacheEvent) -> Map<
    Identity,
    CacheItemView,
> {
    match event {
        CacheEvent::Add(item) => entries.insert(item.object, item),
        CacheEvent::Remove(key) => entries.remove(key),
        CacheEvent::Modify(key, after) => if entries.contains_key(key) {
            entries.insert(key, under(after, key))
        } else {
            entries
        },
    }
}

/// The entries after a run of changes, first to last.
pub open spec fn replayed(entries: Map<Identity, CacheItemView>, events: Seq<CacheEvent>) -> Map<
    Identity,
    CacheItemView,
>
    decreases events.len(),
{
    if events.len() == 0 {
        entries
    } else {
        applied(replayed(entries, events.drop_last()), events.last())
    }
}

/// Whatever is added, removed and modified, and in whatever order, each
/// snapshot stays stored under its own identity, and the entries stay
/// finitely many.
pub proof fn lemma_events_keep_cache_sound(
    entries: Map<Identity, CacheItemView>,
    events: Seq<CacheEvent>,
)
    requires
        keyed_by_object(entries),
        entries.dom().finite(),
    ensures
        keyed_by_object(replayed(entries, events)),
        replayed(entries, events).dom().finite(),
    decreases events.len(),
{
    if events.len() > 0 {
        lemma_events_keep_cache_sound(entries, events.drop_last());
    }
}

/// Storing a snapshot never gives an identity a second entry: the cache grows
/// by one entry where the identity was new, and not at all where it was
/// known.
pub proof fn lemma_add_keeps_one_entry(entries: Map<Identity, CacheItemView>, item: CacheItemView)
    requires
        entries.dom().finite(),
    ensures
        entries.insert(item.object, item).len() == (if entries.contains_key(item.object) {
            entries.len()
        } else {
            entries.len() + 1
        }),
{
    if entries.contains_key(item.object) {
        assert(entries.insert(item.object, item).dom() =~= entries.dom());
    }
}

/// Changing a snapshot in place neither adds an entry nor takes one away,
/// whatever it is changed into; where the identity has no entry, nothing
/// changes at all.
pub proof fn lemma_modify_keeps_entries(
    entries: Map<Identity, CacheItemView>,
    key: Identity,
    after: CacheItemView,
)
    ensures
        applied(entries, CacheEvent::Modify(key, after)).dom() == entries.dom(),
        !entries.contains_key(key) ==> applied(entries, CacheEvent::Modify(key, after))
            == entries,
{
    if entries.contains_key(key) {
        assert(entries.insert(key, under(after, key)).dom() =~= entries.dom());
    }
}

/// What was removed stays removed: a change in place of an identity that has
/// just been dropped finds nothing and brings nothing back.
pub proof fn lemma_modify_after_remove_finds_nothing(
    entries: Map<Identity, CacheItemView>,
    key: Identity,
    after: CacheItemView,
)
    ensures
        !applied(entries, CacheEvent::Remove(key)).contains_key(key),
        applied(applied(entries, CacheEvent::Remove(key)), CacheEvent::Modify(key, after))
            == entries.remove(key),
{
}

} // verus!
