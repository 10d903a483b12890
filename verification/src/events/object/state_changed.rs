//! State changes of a cached object.

use vstd::prelude::*;
use atspi::State;
use crate::bus::{insert_state, parse_state, remove_state, state_named};
use crate::cache::Cache;
use crate::errors::OdiliaError;
use crate::identity::{event_failure, event_identity, AccessiblePrimitive};
use crate::item::{CacheItem, CacheItemView};

verus! {

/// The snapshot `item` with `states` for its states.
pub open spec fn with_states(item: CacheItemView, states: Set<State>) -> CacheItemView {
    CacheItemView { states, ..item }
}

/// The states of an object after it reported `state` with the flag `active`:
/// with the flag set the state leaves the set, without it the state joins.
pub open spec fn toggled(states: Set<State>, state: State, active: bool) -> Set<State> {
    if active {
        states.remove(state)
    } else {
        states.insert(state)
    }
}

/// Brings the states of the snapshot stored under `a11y` up to date, in place,
/// and says whether there was such a snapshot.
pub fn update_state(
    cache: &mut Cache,
    a11y: &AccessiblePrimitive,
    state_changed: State,
    active: bool,
) -> (found: bool)
    requires
        old(cache).wf(),
    ensures
        final(cache).wf(),
        found == old(cache)@.contains_key(a11y@),
        found ==> final(cache)@ == old(cache)@.insert(
            a11y@,
            with_states(
                old(cache)@[a11y@],
                toggled(old(cache)@[a11y@].states, state_changed, active),
            ),
        ),
        !found ==> final(cache)@ == old(cache)@,
{
    if active {
        let clear = move |cache_item: &mut CacheItem|
            ensures
                (*final(cache_item))@ == with_states(
                    (*old(cache_item))@,
                    (*old(cache_item))@.states.remove(state_changed),
                ),
            {
                remove_state(&mut cache_item.states, state_changed);
            };
        cache.modify_item(a11y, clear)
    } else {
        let set = move |cache_item: &mut CacheItem|
            ensures
                (*final(cache_item))@ == with_states(
                    (*old(cache_item))@,
                    (*old(cache_item))@.states.insert(state_changed),
                ),
            {
                insert_state(&mut cache_item.states, state_changed);
            };
        cache.modify_item(a11y, set)
    }
}

/// What a state-changed event did.
#[derive(Clone, Copy, Debug, PartialEq, Eq, Structural)]
pub struct StateChange {
    /// Whether the cache had a snapshot of the object, which was then brought
    /// up to date.
    pub updated: bool,
    /// Whether the object has just taken the focus, so that it is to be
    /// announced.
    pub focused: bool,
}

/// Applies the report that the object of a message is, or is no longer, in
/// `state`. `enabled` is 1 or 0 on the bus.
///
/// Fails where the message gives no identity, as
/// [`AccessiblePrimitive::from_event`] does, and then leaves the cache as it
/// was.
pub fn state_changed<E>(
    cache: &mut Cache,
    state: State,
    enabled: i32,
    sender: Result<Option<String>, E>,
    path: Option<&str>,
) -> (done: Result<StateChange, OdiliaError>)
    requires
        old(cache).wf(),
    ensures
        final(cache).wf(),
        match event_identity(sender, path) {
            Some(identity) => {
                &&& done == Ok::<StateChange, OdiliaError>(
                    StateChange {
                        updated: old(cache)@.contains_key(identity),
                        focused: state == State::Focused && enabled == 1,
                    },
                )
                &&& final(cache)@ == if old(cache)@.contains_key(identity) {
                    old(cache)@.insert(
                        identity,
                        with_states(
                            old(cache)@[identity],
                            toggled(old(cache)@[identity].states, state, enabled == 1),
                        ),
                    )
                } else {
                    old(cache)@
                }
            },
            None => {
                &&& done == Err::<StateChange, OdiliaError>(
                    OdiliaError::PrimitiveConversionError(
                        event_failure(sender is Err, sender matches Ok(None), path is None),
                    ),
                )
                &&& final(cache)@ == old(cache)@
            },
        },
{
    let state_value = enabled == 1;
    let a11y_prim = AccessiblePrimitive::from_event(sender, path)?;
    let updated = update_state(cache, &a11y_prim, state, state_value);
    let focused = match state {
        State::Focused => state_value,
        _ => false,
    };
    Ok(StateChange { updated, focused })
}

/// Applies a state-changed event, whose kind names the state.
///
/// Fails with `SerdeError` where the kind names no state, else as
/// [`state_changed`] does with the state that it names.
pub fn dispatch<E>(
    cache: &mut Cache,
    kind: &str,
    enabled: i32,
    sender: Result<Option<String>, E>,
    path: Option<&str>,
) -> (done: Result<StateChange, OdiliaError>)
    requires
        old(cache).wf(),
    ensures
        final(cache).wf(),
        state_named(kind@) is None ==> (done matches Err(OdiliaError::SerdeError(_))),
        state_named(kind@) is None ==> final(cache)@ == old(cache)@,
        state_named(kind@) matches Some(state) ==> match event_identity(sender, path) {
            Some(identity) => {
                &&& done == Ok::<StateChange, OdiliaError>(
                    StateChange {
                        updated: old(cache)@.contains_key(identity),
                        focused: state == State::Focused && enabled == 1,
                    },
                )
                &&& final(cache)@ == if old(cache)@.contains_key(identity) {
                    old(cache)@.insert(
                        identity,
                        with_states(
                            old(cache)@[identity],
                            toggled(old(cache)@[identity].states, state, enabled == 1),
                        ),
                    )
                } else {
                    old(cache)@
                }
            },
            None => {
                &&& done == Err::<StateChange, OdiliaError>(
                    OdiliaError::PrimitiveConversionError(
                        event_failure(sender is Err, sender matches Ok(None), path is None),
                    ),
                )
                &&& final(cache)@ == old(cache)@
            },
        },
{
    let a11y_state = match parse_state(kind) {
        Ok(s) => s,
        Err(e) => {
            return Err(OdiliaError::SerdeError(e));
        },
    };
    state_changed(cache, a11y_state, enabled, sender, path)
}

} // verus!
