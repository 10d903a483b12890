//! Children that join or leave a cached object.

use vstd::prelude::*;
use crate::cache::Cache;
use crate::errors::OdiliaError;
use crate::identity::{event_failure, event_identity, AccessiblePrimitive, Identity};
use crate::item::{CacheItem, CacheItemView};
use crate::scalars::{same_scalars, scalars_of};

verus! {

/// What a children-changed event asks for.
#[derive(Clone, Copy, Debug, PartialEq, Eq, Structural)]
pub enum ChildrenChange {
    /// The object is to be in the cache from now on.
    Add,
    /// The object is to leave the cache.
    Remove,
    /// Nothing: the kind is not known.
    Ignore,
}

/// What the kind of a children-changed event asks for.
pub open spec fn change_named(kind: Seq<char>) -> ChildrenChange {
    if kind == "remove/system"@ || kind == "remove"@ {
        ChildrenChange::Remove
    } else if kind == "add/system"@ || kind == "add"@ {
        ChildrenChange::Add
    } else {
        ChildrenChange::Ignore
    }
}

/// Reads the kind of a children-changed event.
pub fn children_change_kind(kind: &str) -> (asked: ChildrenChange)
    ensures
        asked == change_named(kind@),
{
    let chars = scalars_of(kind);
    if same_scalars(&chars, &scalars_of("remove/system")) || same_scalars(
        &chars,
        &scalars_of("remove"),
    ) {
        ChildrenChange::Remove
    } else if same_scalars(&chars, &scalars_of("add/system")) || same_scalars(
        &chars,
        &scalars_of("add"),
    ) {
        ChildrenChange::Add
    } else {
        ChildrenChange::Ignore
    }
}

/// Whether a snapshot is still to be made: there is an identity, and the
/// cache has no snapshot of it.
pub open spec fn is_new(entries: Map<Identity, CacheItemView>, identity: Option<Identity>) -> bool {
    match identity {
        Some(key) => !entries.contains_key(key),
        None => false,
    }
}

/// Sees to it that the cache has a snapshot of the object that a message is
/// about: where it has none, the one that `create` makes is stored. Where
/// `create` fails the cache stays as it was, and nothing is said of it.
/// `create` is called only where a snapshot is still to be made, and has to
/// make the one of the message's object.
///
/// Fails where the message gives no identity.
pub fn add<E, F>(
    cache: &mut Cache,
    sender: Result<Option<String>, E>,
    path: Option<&str>,
    create: F,
) -> (done: Result<(), OdiliaError>) where F: FnOnce() -> Result<CacheItem, OdiliaError>
    requires
        old(cache).wf(),
        is_new(old(cache)@, event_identity(sender, path)) ==> create.requires(()),
        is_new(old(cache)@, event_identity(sender, path)) ==> forall|
            made: Result<CacheItem, OdiliaError>,
        | #[trigger]
            create.ensures((), made) ==> (made matches Ok(item) ==> Some(item@.object)
                == event_identity(sender, path)),
    ensures
        final(cache).wf(),
        match event_identity(sender, path) {
            Some(identity) => {
                &&& done is Ok
                &&& old(cache)@.contains_key(identity) ==> final(cache)@ == old(cache)@
                &&& !old(cache)@.contains_key(identity) ==> exists|made: Result<
                    CacheItem,
                    OdiliaError,
                >| #[trigger]
                    create.ensures((), made) && final(cache)@ == (match made {
                        Ok(item) => old(cache)@.insert(identity, item@),
                        Err(_) => old(cache)@,
                    })
            },
            None => {
                &&& done == Err::<(), OdiliaError>(
                    OdiliaError::PrimitiveConversionError(
                        event_failure(sender is Err, sender matches Ok(None), path is None),
                    ),
                )
                &&& final(cache)@ == old(cache)@
            },
        },
{
    let prim = AccessiblePrimitive::from_event(sender, path)?;
    let _ = cache.get_or_create(&prim, create);
    Ok(())
}

/// Drops the snapshot of the object that a message is about.
///
/// Fails where the message gives no identity.
pub fn remove<E>(cache: &mut Cache, sender: Result<Option<String>, E>, path: Option<&str>) -> (done:
    Result<(), OdiliaError>)
    requires
        old(cache).wf(),
    ensures
        final(cache).wf(),
        match event_identity(sender, path) {
            Some(identity) => done is Ok && final(cache)@ == old(cache)@.remove(identity),
            None => {
                &&& done == Err::<(), OdiliaError>(
                    OdiliaError::PrimitiveConversionError(
                        event_failure(sender is Err, sender matches Ok(None), path is None),
                    ),
                )
                &&& final(cache)@ == old(cache)@
            },
        },
{
    let prim = AccessiblePrimitive::from_event(sender, path)?;
    cache.remove(&prim);
    Ok(())
}

/// Applies a children-changed event of the given kind: [`add`], [`remove`],
/// or nothing where the kind is not known.
pub fn dispatch<E, F>(
    cache: &mut Cache,
    kind: &str,
    sender: Result<Option<String>, E>,
    path: Option<&str>,
    create: F,
) -> (done: Result<ChildrenChange, OdiliaError>) where F: FnOnce() -> Result<CacheItem, OdiliaError>
    requires
        old(cache).wf(),
        change_named(kind@) == ChildrenChange::Add && is_new(
            old(cache)@,
            event_identity(sender, path),
        ) ==> create.requires(()),
        change_named(kind@) == ChildrenChange::Add && is_new(
            old(cache)@,
            event_identity(sender, path),
        ) ==> forall|made: Result<CacheItem, OdiliaError>| #[trigger]
            create.ensures((), made) ==> (made matches Ok(item) ==> Some(item@.object)
                == event_identity(sender, path)),
    ensures
        final(cache).wf(),
        change_named(kind@) == ChildrenChange::Ignore ==> done == Ok::<
            ChildrenChange,
            OdiliaError,
        >(ChildrenChange::Ignore) && final(cache)@ == old(cache)@,
        change_named(kind@) != ChildrenChange::Ignore ==> match event_identity(sender, path) {
            Some(identity) => {
                &&& done == Ok::<ChildrenChange, OdiliaError>(change_named(kind@))
                &&& change_named(kind@) == ChildrenChange::Remove ==> final(cache)@ == old(
                    cache,
                )@.remove(identity)
                &&& change_named(kind@) == ChildrenChange::Add && old(cache)@.contains_key(
                    identity,
                ) ==> final(cache)@ == old(cache)@
                &&& change_named(kind@) == ChildrenChange::Add && !old(cache)@.contains_key(
                    identity,
                ) ==> exists|made: Result<CacheItem, OdiliaError>| #[trigger]
                    create.ensures((), made) && final(cache)@ == (match made {
                        Ok(item) => old(cache)@.insert(identity, item@),
                        Err(_) => old(cache)@,
                    })
            },
            None => {
                &&& done == Err::<ChildrenChange, OdiliaError>(
                    OdiliaError::PrimitiveConversionError(
                        event_failure(sender is Err, sender matches Ok(None), path is None),
                    ),
                )
                &&& final(cache)@ == old(cache)@
            },
        },
{
    match children_change_kind(kind) {
        ChildrenChange::Remove => {
            self::remove(cache, sender, path)?;
            Ok(ChildrenChange::Remove)
        },
        ChildrenChange::Add => {
            self::add(cache, sender, path, create)?;
            Ok(ChildrenChange::Add)
        },
        ChildrenChange::Ignore => Ok(ChildrenChange::Ignore),
    }
}

} // verus!
