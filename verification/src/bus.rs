//! Types of the accessibility bus that this crate carries or fills, and the
//! calls into the crates that own them.
//!
//! Nothing in this file is proved. Each contract says what the outside code
//! does, as its source shows it.

use vstd::prelude::*;
use atspi::accessible::{RelationType, Role};
use atspi::text::Granularity;
use atspi::{InterfaceSet, State, StateSet};

verus! {

/// One state that an accessible object can be in.
#[verifier::external_type_specification]
pub struct ExState(State);

/// The set of states of one object, kept as a bit pattern.
#[verifier::external_type_specification]
#[verifier::external_body]
pub struct ExStateSet(StateSet);

/// The set of interfaces that an object implements.
#[verifier::external_type_specification]
#[verifier::external_body]
pub struct ExInterfaceSet(InterfaceSet);

/// The role of an object.
#[verifier::external_type_specification]
#[verifier::external_body]
pub struct ExRole(Role);

/// The kind of a relation between two objects.
#[verifier::external_type_specification]
#[verifier::external_body]
pub struct ExRelationType(RelationType);

/// The unit of text around a position.
#[verifier::external_type_specification]
#[verifier::external_body]
pub struct ExGranularity(Granularity);

/// The states that a `StateSet` holds.
pub uninterp spec fn states_in(set: StateSet) -> Set<State>;

/// The state that a string names, as atspi's `Deserialize` for `State` reads
/// it from plain text; `None` where it names no state.
pub uninterp spec fn state_named(kind: Seq<char>) -> Option<State>;

/// Calls `StateSet::insert` of atspi with one state, which sets that state's
/// bit and leaves the others as they are.
#[verifier::external_body]
pub(crate) fn insert_state(set: &mut StateSet, state: State)
    ensures
        states_in(*final(set)) == states_in(*old(set)).insert(state),
{
    set.insert(state);
}

/// Calls `StateSet::remove` of atspi with one state, which clears that state's
/// bit and leaves the others as they are.
#[verifier::external_body]
pub(crate) fn remove_state(set: &mut StateSet, state: State)
    ensures
        states_in(*final(set)) == states_in(*old(set)).remove(state),
{
    set.remove(state);
}

/// Calls `serde_plain::from_str` for a `State`. Whether it succeeds, and with
/// which state, depends on the string alone.
#[verifier::external_body]
pub(crate) fn parse_state(kind: &str) -> (parsed: Result<State, serde_plain::Error>)
    ensures
        parsed matches Ok(state) ==> state_named(kind@) == Some(state),
        parsed is Err ==> state_named(kind@) is None,
{
    serde_plain::from_str(kind)
}

/// Calls `serde_plain::from_str` for a `bool`, which hands the string to
/// `bool`'s `FromStr`: `true` and `false` are read, anything else is an error.
#[verifier::external_body]
pub(crate) fn parse_bool(text: &str) -> (parsed: Result<bool, serde_plain::Error>)
    ensures
        parsed matches Ok(value) ==> text@ == (if value { "true"@ } else { "false"@ }),
        parsed is Err ==> text@ != "true"@ && text@ != "false"@,
{
    serde_plain::from_str(text)
}

} // verus!
