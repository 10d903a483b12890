//! The snapshot that the cache keeps of one accessible object.

use vstd::prelude::*;
use atspi::accessible::Role;
use atspi::{InterfaceSet, State, StateSet};
use crate::bus::states_in;
use crate::errors::{AccessiblePrimitiveConversionError, OdiliaError};
use crate::identity::{event_failure, event_identity, parse_path, AccessiblePrimitive, Identity};
use crate::types::Accessible;

verus! {

/// All that hot paths need to know of one object, without a round trip over
/// the bus.
#[derive(Debug)]
pub struct CacheItem {
    /// The object itself.
    pub object: AccessiblePrimitive,
    /// The root object of the application that owns it.
    pub app: AccessiblePrimitive,
    /// Its parent.
    pub parent: AccessiblePrimitive,
    /// Its place among the parent's children, -1 where that is not known.
    pub index: i32,
    /// How many children it said it has. `children` may lag behind.
    pub children_num: i32,
    /// The interfaces it implements.
    pub interfaces: InterfaceSet,
    /// Its role.
    pub role: Role,
    /// The states it is in.
    pub states: StateSet,
    /// Its text where it implements the text interface, else its name.
    pub text: String,
    /// Its children, in order.
    pub children: Vec<AccessiblePrimitive>,
}

/// What a [`CacheItem`] stands for.
pub struct CacheItemView {
    pub object: Identity,
    pub app: Identity,
    pub parent: Identity,
    pub index: i32,
    pub children_num: i32,
    pub interfaces: InterfaceSet,
    pub role: Role,
    pub states: Set<State>,
    pub text: Seq<char>,
    pub children: Seq<Identity>,
}

/// The identities that a list of keys stands for.
pub open spec fn identities(list: Seq<AccessiblePrimitive>) -> Seq<Identity> {
    Seq::new(list.len(), |i: int| list[i]@)
}

/// What a list of snapshots stands for.
pub open spec fn item_views(items: Seq<CacheItem>) -> Seq<CacheItemView> {
    Seq::new(items.len(), |i: int| items[i]@)
}

impl View for CacheItem {
    type V = CacheItemView;

    open spec fn view(&self) -> CacheItemView {
        CacheItemView {
            object: self.object@,
            app: self.app@,
            parent: self.parent@,
            index: self.index,
            children_num: self.children_num,
            interfaces: self.interfaces,
            role: self.role,
            states: states_in(self.states),
            text: self.text@,
            children: identities(self.children@),
        }
    }
}

fn copy_primitives(list: &Vec<AccessiblePrimitive>) -> (copy: Vec<AccessiblePrimitive>)
    ensures
        identities(copy@) == identities(list@),
{
    let mut copy: Vec<AccessiblePrimitive> = Vec::new();
    let mut i: usize = 0;
    while i < list.len()
        invariant
            i <= list.len(),
            copy.len() == i,
            forall|j: int| 0 <= j < i ==> copy@[j]@ == list@[j]@,
        decreases list.len() - i,
    {
        copy.push(list[i].clone());
        i += 1;
    }
    assert(identities(copy@) =~= identities(list@));
    copy
}

/// A copy of `cache_item_with_handle` that shares nothing with it.
pub fn copy_into_cache_item(cache_item_with_handle: &CacheItem) -> (copy: CacheItem)
    ensures
        copy@ == cache_item_with_handle@,
{
    CacheItem {
        object: cache_item_with_handle.object.clone(),
        parent: cache_item_with_handle.parent.clone(),
        states: cache_item_with_handle.states,
        role: cache_item_with_handle.role,
        app: cache_item_with_handle.app.clone(),
        children_num: cache_item_with_handle.children_num,
        interfaces: cache_item_with_handle.interfaces,
        index: cache_item_with_handle.index,
        text: cache_item_with_handle.text.clone(),
        children: copy_primitives(&cache_item_with_handle.children),
    }
}

impl Clone for CacheItem {
    fn clone(&self) -> (copy: Self)
        ensures
            copy@ == self@,
    {
        copy_into_cache_item(self)
    }
}

/// What the bus says of one object when it is asked for everything that a
/// snapshot holds.
pub struct AccessibleFacts {
    /// The root object of the owning application.
    pub app: Accessible,
    /// The parent.
    pub parent: Accessible,
    /// The index in the parent.
    pub index: i32,
    /// The number of children.
    pub children_num: i32,
    pub interfaces: InterfaceSet,
    pub role: Role,
    pub states: StateSet,
    /// The children, in order.
    pub children: Vec<Accessible>,
    /// The object's full text where it has the text interface, else its name.
    pub text: String,
}

/// One record of the bus's own cache, as `GetItems` and `AddAccessible` carry
/// it.
pub struct BusCacheItem {
    pub object: Accessible,
    pub app: Accessible,
    pub parent: Accessible,
    pub index: i32,
    pub children: i32,
    pub ifaces: InterfaceSet,
    pub short_name: String,
    pub role: Role,
    pub name: String,
    pub states: StateSet,
}

/// The identity that a bus name and a path give, where the path is well
/// formed.
pub open spec fn pair_identity(pair: Accessible) -> Option<Identity> {
    match parse_path(pair.1@) {
        Some(id) => Some(Identity { sender: pair.0@, id }),
        None => None,
    }
}

/// Whether every pair of the list gives an identity.
pub open spec fn all_identified(pairs: Seq<Accessible>) -> bool {
    forall|i: int| 0 <= i < pairs.len() ==> (#[trigger] pair_identity(pairs[i])) is Some
}

/// The identities of a list of pairs, in order.
pub open spec fn pair_identities(pairs: Seq<Accessible>) -> Seq<Identity> {
    Seq::new(pairs.len(), |i: int| pair_identity(pairs[i]).unwrap())
}

fn primitive_of(pair: &Accessible) -> (made: Result<
    AccessiblePrimitive,
    AccessiblePrimitiveConversionError,
>)
    ensures
        match made {
            Ok(primitive) => pair_identity(*pair) == Some(primitive@),
            Err(e) => pair_identity(*pair) is None
                && e == AccessiblePrimitiveConversionError::PathParse,
        },
{
    AccessiblePrimitive::from_pair(pair.0.clone(), pair.1.as_str())
}

fn primitives_of(pairs: &Vec<Accessible>) -> (made: Result<
    Vec<AccessiblePrimitive>,
    AccessiblePrimitiveConversionError,
>)
    ensures
        match made {
            Ok(list) => all_identified(pairs@) && identities(list@) == pair_identities(pairs@),
            Err(e) => !all_identified(pairs@)
                && e == AccessiblePrimitiveConversionError::PathParse,
        },
{
    let mut list: Vec<AccessiblePrimitive> = Vec::new();
    let mut i: usize = 0;
    while i < pairs.len()
        invariant
            i <= pairs.len(),
            list.len() == i,
            forall|j: int| 0 <= j < i ==> (#[trigger] pair_identity(pairs@[j])) == Some(list@[j]@),
        decreases pairs.len() - i,
    {
        match primitive_of(&pairs[i]) {
            Ok(primitive) => list.push(primitive),
            Err(e) => {
                assert(pair_identity(pairs@[i as int]) is None);
                return Err(e);
            },
        }
        i += 1;
    }
    assert(identities(list@) =~= pair_identities(pairs@));
    Ok(list)
}

/// Whether the paths among the facts are well formed: that of the
/// application, of the parent and of each child.
pub open spec fn identified(facts: AccessibleFacts) -> bool {
    &&& pair_identity(facts.app) is Some
    &&& pair_identity(facts.parent) is Some
    &&& all_identified(facts.children@)
}

/// The snapshot of `object`, of which the bus said `facts`.
pub open spec fn snapshot_of(object: Identity, facts: AccessibleFacts) -> CacheItemView {
    CacheItemView {
        object,
        app: pair_identity(facts.app).unwrap(),
        parent: pair_identity(facts.parent).unwrap(),
        index: facts.index,
        children_num: facts.children_num,
        interfaces: facts.interfaces,
        role: facts.role,
        states: states_in(facts.states),
        text: facts.text@,
        children: pair_identities(facts.children@),
    }
}

/// Whether a snapshot can be made of what the bus said of the object behind
/// the proxy at `path`: that path gives an id, and the paths among the facts
/// are well formed.
pub open spec fn hydrates(path: Seq<char>, facts: AccessibleFacts) -> bool {
    parse_path(path) is Some && identified(facts)
}

/// The snapshot of the object behind the proxy at `destination` and `path`,
/// of which the bus said `facts`.
pub open spec fn hydrated(
    destination: Seq<char>,
    path: Seq<char>,
    facts: AccessibleFacts,
) -> CacheItemView {
    snapshot_of(Identity { sender: destination, id: parse_path(path).unwrap() }, facts)
}

fn assemble(object: AccessiblePrimitive, facts: AccessibleFacts) -> (made: Result<
    CacheItem,
    OdiliaError,
>)
    ensures
        match made {
            Ok(item) => identified(facts) && item@ == snapshot_of(object@, facts),
            Err(e) => !identified(facts) && e == OdiliaError::PrimitiveConversionError(
                AccessiblePrimitiveConversionError::PathParse,
            ),
        },
{
    let app = match primitive_of(&facts.app) {
        Ok(primitive) => primitive,
        Err(e) => {
            return Err(OdiliaError::PrimitiveConversionError(e));
        },
    };
    let parent = match primitive_of(&facts.parent) {
        Ok(primitive) => primitive,
        Err(e) => {
            return Err(OdiliaError::PrimitiveConversionError(e));
        },
    };
    let children = match primitives_of(&facts.children) {
        Ok(list) => list,
        Err(e) => {
            return Err(OdiliaError::PrimitiveConversionError(e));
        },
    };
    Ok(
        CacheItem {
            object,
            app,
            parent,
            index: facts.index,
            children_num: facts.children_num,
            interfaces: facts.interfaces,
            role: facts.role,
            states: facts.states,
            text: facts.text,
            children,
        },
    )
}

/// Makes the snapshot of the object behind a proxy out of what the bus said
/// of it.
///
/// A proxy whose own path gives no id is refused with `NoPathId`; a
/// malformed path among the facts with `PathParse`.
pub fn accessible_to_cache_item(destination: &str, path: &str, facts: AccessibleFacts) -> (made:
    Result<CacheItem, OdiliaError>)
    ensures
        made is Ok <==> hydrates(path@, facts),
        made matches Ok(item) ==> item@ == hydrated(destination@, path@, facts),
        made matches Err(e) ==> e == OdiliaError::PrimitiveConversionError(
            if parse_path(path@) is None {
                AccessiblePrimitiveConversionError::NoPathId
            } else {
                AccessiblePrimitiveConversionError::PathParse
            },
        ),
{
    let object = match AccessiblePrimitive::from_proxy(destination, path) {
        Ok(primitive) => primitive,
        Err(e) => {
            return Err(OdiliaError::PrimitiveConversionError(e));
        },
    };
    assemble(object, facts)
}

/// Whether a snapshot can be made of a record of the bus's cache and the
/// children that the object reported.
pub open spec fn converts(record: BusCacheItem, children: Seq<Accessible>) -> bool {
    &&& pair_identity(record.object) is Some
    &&& pair_identity(record.app) is Some
    &&& pair_identity(record.parent) is Some
    &&& all_identified(children)
}

/// The snapshot that a record of the bus's cache gives. Its text is the
/// record's name.
pub open spec fn converted(record: BusCacheItem, children: Seq<Accessible>) -> CacheItemView {
    CacheItemView {
        object: pair_identity(record.object).unwrap(),
        app: pair_identity(record.app).unwrap(),
        parent: pair_identity(record.parent).unwrap(),
        index: record.index,
        children_num: record.children,
        interfaces: record.ifaces,
        role: record.role,
        states: states_in(record.states),
        text: record.name@,
        children: pair_identities(children),
    }
}

impl CacheItem {
    /// Makes the snapshot of the object that a bus message is about, out of
    /// what the bus said of that object.
    ///
    /// Fails where the message gives no identity, as
    /// [`AccessiblePrimitive::from_event`] does, and with `PathParse` where a
    /// path among the facts is malformed.
    pub fn from_atspi_event<E>(
        sender: Result<Option<String>, E>,
        path: Option<&str>,
        facts: AccessibleFacts,
    ) -> (made: Result<CacheItem, OdiliaError>)
        ensures
            match event_identity(sender, path) {
                None => made == Err::<CacheItem, OdiliaError>(
                    OdiliaError::PrimitiveConversionError(
                        event_failure(sender is Err, sender matches Ok(None), path is None),
                    ),
                ),
                Some(identity) => match made {
                    Ok(item) => identified(facts) && item@ == snapshot_of(identity, facts),
                    Err(e) => !identified(facts) && e == OdiliaError::PrimitiveConversionError(
                        AccessiblePrimitiveConversionError::PathParse,
                    ),
                },
            },
    {
        let object = AccessiblePrimitive::from_event(sender, path)?;
        assemble(object, facts)
    }

    /// Makes a snapshot out of a record of the bus's cache. The record does
    /// not list the children, so the caller asks the object for them and
    /// hands them in.
    pub fn from_atspi_cache_item(atspi_cache_item: BusCacheItem, children: &Vec<Accessible>) -> (made:
        Result<CacheItem, OdiliaError>)
        ensures
            made is Ok <==> converts(atspi_cache_item, children@),
            made matches Ok(item) ==> item@ == converted(atspi_cache_item, children@),
            made matches Err(e) ==> e == OdiliaError::PrimitiveConversionError(
                AccessiblePrimitiveConversionError::PathParse,
            ),
    {
        let children_primitives = match primitives_of(children) {
            Ok(list) => list,
            Err(e) => {
                return Err(OdiliaError::PrimitiveConversionError(e));
            },
        };
        let object = match primitive_of(&atspi_cache_item.object) {
            Ok(primitive) => primitive,
            Err(e) => {
                return Err(OdiliaError::PrimitiveConversionError(e));
            },
        };
        let app = match primitive_of(&atspi_cache_item.app) {
            Ok(primitive) => primitive,
            Err(e) => {
                return Err(OdiliaError::PrimitiveConversionError(e));
            },
        };
        let parent = match primitive_of(&atspi_cache_item.parent) {
            Ok(primitive) => primitive,
            Err(e) => {
                return Err(OdiliaError::PrimitiveConversionError(e));
            },
        };
        Ok(
            CacheItem {
                object,
                app,
                parent,
                index: atspi_cache_item.index,
                children_num: atspi_cache_item.children,
                interfaces: atspi_cache_item.ifaces,
                role: atspi_cache_item.role,
                states: atspi_cache_item.states,
                text: atspi_cache_item.name,
                children: children_primitives,
            },
        )
    }
}

} // verus!
