//! The surface that a snapshot offers in place of the object itself.
//!
//! What a snapshot holds is answered at once. The application, the parent and
//! the children are snapshots of their own, so they are looked up in the cache
//! that the snapshot came from; the caller hands that cache in, or `None`
//! where it is gone.

use vstd::prelude::*;
use atspi::accessible::{RelationType, Role};
use atspi::{InterfaceSet, StateSet};
use crate::cache::Cache;
use crate::errors::{AccessiblePrimitiveConversionError, CacheError, OdiliaError};
use crate::identity::{AccessibleId, AccessiblePrimitive, Identity};
use crate::item::{item_views, pair_identity, CacheItem, CacheItemView};
use crate::types::Accessible;

verus! {

/// What looking up `key` gives.
pub open spec fn looked_up(cache: Option<&Cache>, key: Identity) -> Result<
    CacheItemView,
    OdiliaError,
> {
    match cache {
        None => Err(OdiliaError::Cache(CacheError::NotAvailable)),
        Some(cache) => if cache@.contains_key(key) {
            Ok(cache@[key])
        } else {
            Err(OdiliaError::Cache(CacheError::NoItem))
        },
    }
}

/// What looking up each of `keys` gives: all the snapshots, or `NoItem` where
/// one of them is missing.
pub open spec fn all_looked_up(cache: Option<&Cache>, keys: Seq<Identity>) -> Result<
    Seq<CacheItemView>,
    OdiliaError,
> {
    match cache {
        None => Err(OdiliaError::Cache(CacheError::NotAvailable)),
        Some(cache) => if forall|i: int| 0 <= i < keys.len() ==> cache@.contains_key(#[trigger] keys[i]) {
            Ok(Seq::new(keys.len(), |i: int| cache@[keys[i]]))
        } else {
            Err(OdiliaError::Cache(CacheError::NoItem))
        },
    }
}

/// What resolving one object that a relation points to gives: `PathParse`
/// where its path is malformed, `NoItem` where the cache has no snapshot of
/// it.
pub open spec fn resolved(entries: Map<Identity, CacheItemView>, pair: Accessible) -> Result<
    CacheItemView,
    OdiliaError,
> {
    match pair_identity(pair) {
        None => Err(
            OdiliaError::PrimitiveConversionError(AccessiblePrimitiveConversionError::PathParse),
        ),
        Some(key) => if entries.contains_key(key) {
            Ok(entries[key])
        } else {
            Err(OdiliaError::Cache(CacheError::NoItem))
        },
    }
}

/// What resolving a list of objects gives: all the snapshots, or the error of
/// the first object that does not resolve.
pub open spec fn all_resolved(entries: Map<Identity, CacheItemView>, pairs: Seq<Accessible>) -> Result<
    Seq<CacheItemView>,
    OdiliaError,
>
    decreases pairs.len(),
{
    if pairs.len() == 0 {
        Ok(Seq::empty())
    } else {
        match all_resolved(entries, pairs.drop_last()) {
            Err(e) => Err(e),
            Ok(items) => match resolved(entries, pairs.last()) {
                Err(e) => Err(e),
                Ok(item) => Ok(items.push(item)),
            },
        }
    }
}

/// A relation with the snapshots of the objects it points to.
pub open spec fn relation_view(relation: (RelationType, Vec<CacheItem>)) -> (
    RelationType,
    Seq<CacheItemView>,
) {
    (relation.0, item_views(relation.1@))
}

/// What resolving a relation set gives: each relation with the snapshots of
/// its objects, or the error of the first object, in reading order, that does
/// not resolve.
pub open spec fn relations_resolved(
    entries: Map<Identity, CacheItemView>,
    relations: Seq<(RelationType, Vec<Accessible>)>,
) -> Result<Seq<(RelationType, Seq<CacheItemView>)>, OdiliaError>
    decreases relations.len(),
{
    if relations.len() == 0 {
        Ok(Seq::empty())
    } else {
        match relations_resolved(entries, relations.drop_last()) {
            Err(e) => Err(e),
            Ok(done) => match all_resolved(entries, relations.last().1@) {
                Err(e) => Err(e),
                Ok(items) => Ok(done.push((relations.last().0, items))),
            },
        }
    }
}

fn lookup(cache: Option<&Cache>, key: &AccessiblePrimitive) -> (found: Result<CacheItem, OdiliaError>)
    requires
        cache matches Some(c) ==> c.wf(),
    ensures
        match found {
            Ok(item) => looked_up(cache, key@) == Ok::<CacheItemView, OdiliaError>(item@),
            Err(e) => looked_up(cache, key@) == Err::<CacheItemView, OdiliaError>(e),
        },
{
    match cache {
        None => Err(OdiliaError::Cache(CacheError::NotAvailable)),
        Some(derefed_cache) => match derefed_cache.get(key) {
            Some(item) => Ok(item),
            None => Err(OdiliaError::Cache(CacheError::NoItem)),
        },
    }
}

fn resolve_all(cache: &Cache, pairs: &Vec<Accessible>) -> (found: Result<Vec<CacheItem>, OdiliaError>)
    requires
        cache.wf(),
    ensures
        match found {
            Ok(items) => all_resolved(cache@, pairs@) == Ok::<Seq<CacheItemView>, OdiliaError>(
                item_views(items@),
            ),
            Err(e) => all_resolved(cache@, pairs@) == Err::<Seq<CacheItemView>, OdiliaError>(e),
        },
{
    let mut items: Vec<CacheItem> = Vec::new();
    let mut i: usize = 0;
    assert(pairs@.take(0) =~= Seq::<Accessible>::empty());
    assert(item_views(items@) =~= Seq::<CacheItemView>::empty());
    while i < pairs.len()
        invariant
            cache.wf(),
            i <= pairs.len(),
            all_resolved(cache@, pairs@.take(i as int)) == Ok::<Seq<CacheItemView>, OdiliaError>(
                item_views(items@),
            ),
        decreases pairs.len() - i,
    {
        proof {
            assert(pairs@.take(i + 1).drop_last() == pairs@.take(i as int));
            assert(pairs@.take(i + 1).last() == pairs@[i as int]);
        }
        let ghost before = item_views(items@);
        let key = match AccessiblePrimitive::from_pair(pairs[i].0.clone(), pairs[i].1.as_str()) {
            Ok(key) => key,
            Err(e) => {
                proof {
                    lemma_failure_stays(cache@, pairs@, i + 1);
                }
                return Err(OdiliaError::PrimitiveConversionError(e));
            },
        };
        match cache.get_blocking(&key) {
            Some(item) => {
                items.push(item);
                assert(item_views(items@) =~= before.push(item@));
            },
            None => {
                proof {
                    lemma_failure_stays(cache@, pairs@, i + 1);
                }
                return Err(OdiliaError::Cache(CacheError::NoItem));
            },
        }
        i += 1;
    }
    assert(pairs@.take(pairs.len() as int) == pairs@);
    Ok(items)
}

proof fn lemma_failure_stays(entries: Map<Identity, CacheItemView>, pairs: Seq<Accessible>, k: int)
    requires
        0 <= k <= pairs.len(),
        all_resolved(entries, pairs.take(k)) is Err,
    ensures
        all_resolved(entries, pairs) == all_resolved(entries, pairs.take(k)),
    decreases pairs.len() - k,
{
    if k < pairs.len() {
        assert(pairs.take(k + 1).drop_last() == pairs.take(k));
        lemma_failure_stays(entries, pairs, k + 1);
    } else {
        assert(pairs.take(k) == pairs);
    }
}

proof fn lemma_relation_failure_stays(
    entries: Map<Identity, CacheItemView>,
    relations: Seq<(RelationType, Vec<Accessible>)>,
    k: int,
)
    requires
        0 <= k <= relations.len(),
        relations_resolved(entries, relations.take(k)) is Err,
    ensures
        relations_resolved(entries, relations) == relations_resolved(entries, relations.take(k)),
    decreases relations.len() - k,
{
    if k < relations.len() {
        assert(relations.take(k + 1).drop_last() == relations.take(k));
        lemma_relation_failure_stays(entries, relations, k + 1);
    } else {
        assert(relations.take(k) == relations);
    }
}

impl CacheItem {
    /// The snapshot of the root object of the application that owns this one.
    pub fn get_application(&self, cache: Option<&Cache>) -> (found: Result<CacheItem, OdiliaError>)
        requires
            cache matches Some(c) ==> c.wf(),
        ensures
            match found {
                Ok(item) => looked_up(cache, self@.app) == Ok::<CacheItemView, OdiliaError>(item@),
                Err(e) => looked_up(cache, self@.app) == Err::<CacheItemView, OdiliaError>(e),
            },
    {
        lookup(cache, &self.app)
    }

    /// The snapshot of the parent.
    pub fn parent(&self, cache: Option<&Cache>) -> (found: Result<CacheItem, OdiliaError>)
        requires
            cache matches Some(c) ==> c.wf(),
        ensures
            match found {
                Ok(item) => looked_up(cache, self@.parent) == Ok::<CacheItemView, OdiliaError>(
                    item@,
                ),
                Err(e) => looked_up(cache, self@.parent) == Err::<CacheItemView, OdiliaError>(e),
            },
    {
        lookup(cache, &self.parent)
    }

    /// The snapshots of the children, in order. One child without a snapshot
    /// fails the whole call.
    pub fn get_children(&self, cache: Option<&Cache>) -> (found: Result<Vec<CacheItem>, OdiliaError>)
        requires
            cache matches Some(c) ==> c.wf(),
        ensures
            match found {
                Ok(items) => all_looked_up(cache, self@.children) == Ok::<
                    Seq<CacheItemView>,
                    OdiliaError,
                >(item_views(items@)),
                Err(e) => all_looked_up(cache, self@.children) == Err::<
                    Seq<CacheItemView>,
                    OdiliaError,
                >(e),
            },
    {
        let derefed_cache = match cache {
            Some(c) => c,
            None => {
                return Err(OdiliaError::Cache(CacheError::NotAvailable));
            },
        };
        let mut items: Vec<CacheItem> = Vec::new();
        let mut i: usize = 0;
        while i < self.children.len()
            invariant
                derefed_cache.wf(),
                cache == Some(derefed_cache),
                i <= self.children.len(),
                items.len() == i,
                forall|j: int|
                    0 <= j < i ==> derefed_cache@.contains_key(#[trigger] self@.children[j])
                        && items[j]@ == derefed_cache@[self@.children[j]],
            decreases self.children.len() - i,
        {
            assert(self@.children[i as int] == self.children[i as int]@);
            match derefed_cache.get(&self.children[i]) {
                Some(item) => {
                    items.push(item);
                },
                None => {
                    return Err(OdiliaError::Cache(CacheError::NoItem));
                },
            }
            i += 1;
        }
        proof {
            assert(item_views(items@) =~= Seq::new(
                self@.children.len(),
                |i: int| derefed_cache@[self@.children[i]],
            ));
        }
        Ok(items)
    }

    /// The snapshot of the child at `idx`. As with [`CacheItem::get_children`],
    /// every child has to have a snapshot; an index that names no child gives
    /// `NoItem`.
    pub fn get_child_at_index(&self, cache: Option<&Cache>, idx: i32) -> (found: Result<
        CacheItem,
        OdiliaError,
    >)
        requires
            cache matches Some(c) ==> c.wf(),
        ensures
            match all_looked_up(cache, self@.children) {
                Err(e) => found == Err::<CacheItem, OdiliaError>(e),
                Ok(items) => if 0 <= idx < items.len() {
                    found matches Ok(item) && item@ == items[idx as int]
                } else {
                    found == Err::<CacheItem, OdiliaError>(OdiliaError::Cache(CacheError::NoItem))
                },
            },
    {
        let children = self.get_children(cache)?;
        if idx < 0 || idx as usize >= children.len() {
            return Err(OdiliaError::Cache(CacheError::NoItem));
        }
        Ok(children[idx as usize].clone())
    }

    /// The snapshots of the objects that this one is related to, given the
    /// relation set that the object itself reported.
    pub fn get_relation_set(
        &self,
        cache: Option<&Cache>,
        relations: &Vec<(RelationType, Vec<Accessible>)>,
    ) -> (found: Result<Vec<(RelationType, Vec<CacheItem>)>, OdiliaError>)
        requires
            cache matches Some(c) ==> c.wf(),
        ensures
            match cache {
                None => found == Err::<Vec<(RelationType, Vec<CacheItem>)>, OdiliaError>(
                    OdiliaError::Cache(CacheError::NotAvailable),
                ),
                Some(c) => match found {
                    Ok(list) => relations_resolved(c@, relations@) == Ok::<
                        Seq<(RelationType, Seq<CacheItemView>)>,
                        OdiliaError,
                    >(Seq::new(list@.len(), |i: int| relation_view(list@[i]))),
                    Err(e) => relations_resolved(c@, relations@) == Err::<
                        Seq<(RelationType, Seq<CacheItemView>)>,
                        OdiliaError,
                    >(e),
                },
            },
    {
        let derefed_cache = match cache {
            Some(c) => c,
            None => {
                return Err(OdiliaError::Cache(CacheError::NotAvailable));
            },
        };
        let mut list: Vec<(RelationType, Vec<CacheItem>)> = Vec::new();
        let mut i: usize = 0;
        assert(relations@.take(0) =~= Seq::<(RelationType, Vec<Accessible>)>::empty());
        assert(Seq::new(list@.len(), |i: int| relation_view(list@[i])) =~= Seq::<
            (RelationType, Seq<CacheItemView>),
        >::empty());
        while i < relations.len()
            invariant
                derefed_cache.wf(),
                cache == Some(derefed_cache),
                i <= relations.len(),
                relations_resolved(derefed_cache@, relations@.take(i as int)) == Ok::<
                    Seq<(RelationType, Seq<CacheItemView>)>,
                    OdiliaError,
                >(Seq::new(list@.len(), |i: int| relation_view(list@[i]))),
            decreases relations.len() - i,
        {
            proof {
                assert(relations@.take(i + 1).drop_last() == relations@.take(i as int));
                assert(relations@.take(i + 1).last() == relations@[i as int]);
            }
            let ghost before = Seq::new(list@.len(), |i: int| relation_view(list@[i]));
            match resolve_all(derefed_cache, &relations[i].1) {
                Ok(items) => {
                    let ghost row = (relations@[i as int].0, item_views(items@));
                    list.push((relations[i].0, items));
                    assert(Seq::new(list@.len(), |i: int| relation_view(list@[i])) =~= before.push(
                        row,
                    ));
                },
                Err(e) => {
                    proof {
                        lemma_relation_failure_stays(derefed_cache@, relations@, i + 1);
                    }
                    return Err(e);
                },
            }
            i += 1;
        }
        assert(relations@.take(relations.len() as int) == relations@);
        Ok(list)
    }

    /// The number of children that the object said it has.
    pub fn child_count(&self) -> (count: i32)
        ensures
            count == self@.children_num,
    {
        self.children_num
    }

    /// The object's place among its parent's children.
    pub fn get_index_in_parent(&self) -> (index: i32)
        ensures
            index == self@.index,
    {
        self.index
    }

    /// The object's role.
    pub fn get_role(&self) -> (role: Role)
        ensures
            role == self@.role,
    {
        self.role
    }

    /// The interfaces that the object implements.
    pub fn get_interfaces(&self) -> (interfaces: InterfaceSet)
        ensures
            interfaces == self@.interfaces,
    {
        self.interfaces
    }

    /// The states that the object is in.
    pub fn get_state(&self) -> (states: StateSet)
        ensures
            states == self.states,
    {
        self.states
    }

    /// The id that ends the object's path.
    pub fn accessible_id(&self) -> (id: AccessibleId)
        ensures
            id@ == self@.object.id,
    {
        self.object.id.clone()
    }
}

} // verus!
