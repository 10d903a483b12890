//! Movements of the caret in the text of an object.

use vstd::prelude::*;
use vstd::string::StrSliceExecFns;
use crate::identity::AccessiblePrimitive;
use crate::item::CacheItem;
use crate::scalars::{scalars_of, string_of};

verus! {

/// The text that a caret passed over on its way from `old_position` to
/// `new_position` in `text`: what lies between the two positions, whichever
/// way the caret went. Positions that do not lie in `text` give nothing.
pub open spec fn passed_over(text: Seq<char>, new_position: int, old_position: int) -> Seq<char> {
    let first = if new_position < old_position {
        new_position
    } else {
        old_position
    };
    let last = if new_position < old_position {
        old_position
    } else {
        new_position
    };
    if last <= text.len() {
        text.subrange(first, last)
    } else {
        Seq::empty()
    }
}

/// What is read out when the caret has moved from `old_offset` in `old_item`
/// to `new_offset` in `new_item`, whose text is `new_text`: the text that the
/// caret passed over. Nothing is read where the caret went to another object.
pub fn new_position(
    new_item: CacheItem,
    old_item: CacheItem,
    new_offset: u32,
    old_offset: u32,
    new_text: String,
) -> (read: String)
    ensures
        read@ == (if new_item@.object.id == old_item@.object.id {
            passed_over(new_text@, new_offset as int, old_offset as int)
        } else {
            Seq::<char>::empty()
        }),
{
    if new_item.object.id != old_item.object.id {
        return String::new();
    }
    let new_pos = new_offset as usize;
    let old_pos = old_offset as usize;
    let first_position = if new_pos < old_pos {
        new_pos
    } else {
        old_pos
    };
    let last_position = if new_pos < old_pos {
        old_pos
    } else {
        new_pos
    };
    let mut chars = scalars_of(new_text.as_str());
    if last_position <= chars.len() {
        chars.truncate(last_position);
        let span = chars.split_off(first_position);
        assert(span@ == new_text@.subrange(first_position as int, last_position as int));
        return string_of(&span);
    }
    String::new()
}

/// Guesses whether the caret moved because the focus went to another object
/// by tab, in which case the movement is not read out.
///
/// A caret that is not at 0 was not put there by tab. One at 0 was, unless
/// the object is the one that had the focus last and the caret was elsewhere
/// in it before.
pub fn is_tab_navigation(
    current_caret_pos: i32,
    last_accessible: Option<&AccessiblePrimitive>,
    previous_caret_pos: i32,
    current_accessible: &AccessiblePrimitive,
) -> (tab: bool)
    ensures
        tab == (current_caret_pos == 0 && !(last_accessible matches Some(last)
            && previous_caret_pos != 0 && current_accessible@ == last@)),
{
    if current_caret_pos != 0 {
        return false;
    }
    let last = match last_accessible {
        Some(acc) => acc,
        None => {
            return true;
        },
    };
    if previous_caret_pos != 0 && *current_accessible == *last {
        return false;
    }
    true
}

/// Whether a caret-moved event of the given kind is to be read out: its kind
/// is empty, and it is no tab navigation.
pub fn dispatch(
    kind: &str,
    current_caret_pos: i32,
    last_accessible: Option<&AccessiblePrimitive>,
    previous_caret_pos: i32,
    current_accessible: &AccessiblePrimitive,
) -> (read_out: bool)
    ensures
        read_out == (kind@.len() == 0 && !(current_caret_pos == 0 && !(
        last_accessible matches Some(last) && previous_caret_pos != 0 && current_accessible@
            == last@))),
{
    if kind.unicode_len() != 0 {
        return false;
    }
    !is_tab_navigation(current_caret_pos, last_accessible, previous_caret_pos, current_accessible)
}

} // verus!
