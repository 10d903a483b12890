//! Text insertion and deletion on a cached object's text.

use vstd::prelude::*;
use vstd::math::min;
use vstd::string::StrSliceExecFns;
use ssip_client::Priority;
use crate::bus::parse_bool;
use crate::cache::Cache;
use crate::errors::OdiliaError;
use crate::identity::Identity;
use crate::item::{CacheItem, CacheItemView};
use crate::scalars::{same_scalars, scalars_of, string_of};
use crate::types::{live_named, AriaAtomic, AriaLive, AriaLiveView, Attributes};

verus! {

/// The text after `updated` has been inserted into `current` at scalar index
/// `start`, where the inserting application counted `length` scalars.
///
/// At index 0 the new text goes in front. At or past the end it goes behind.
/// Where the insertion reaches the end of `current`, the tail from `start` on
/// is dropped and the new text takes its place. Otherwise the `length` scalars
/// from `start` on give way to the new text.
pub open spec fn inserted(current: Seq<char>, start: int, length: int, updated: Seq<char>) -> Seq<char> {
    let n = current.len();
    if start == 0 {
        updated + current
    } else if start >= n {
        current + updated
    } else if start + length >= n {
        current.subrange(0, start) + updated
    } else {
        current.subrange(0, start) + updated + current.subrange(start + length, n as int)
    }
}

/// `original` followed by `to_append`.
pub fn append_to_object(original: &str, to_append: &str) -> (joined: String)
    ensures
        joined@ == original@ + to_append@,
{
    let mut new_text = scalars_of(original);
    let mut tail = scalars_of(to_append);
    new_text.append(&mut tail);
    string_of(&new_text)
}

/// The first `index` scalars of `original`, followed by `to_splice`.
pub fn insert_at_index(original: &str, to_splice: &str, index: usize) -> (spliced: String)
    requires
        index <= original@.len(),
    ensures
        spliced@ == original@.subrange(0, index as int) + to_splice@,
{
    let mut new_text = scalars_of(original);
    let mut middle = scalars_of(to_splice);
    new_text.truncate(index);
    new_text.append(&mut middle);
    string_of(&new_text)
}

/// `original` with the scalars from `start` up to, not including, `end`
/// replaced by `to_splice`.
pub fn insert_at_range(original: &str, to_splice: &str, start: usize, end: usize) -> (spliced: String)
    requires
        start <= end <= original@.len(),
    ensures
        spliced@ == original@.subrange(0, start as int) + to_splice@ + original@.subrange(
            end as int,
            original@.len() as int,
        ),
{
    let mut new_text = scalars_of(original);
    let mut middle = scalars_of(to_splice);
    let mut tail = new_text.split_off(end);
    new_text.truncate(start);
    new_text.append(&mut middle);
    new_text.append(&mut tail);
    string_of(&new_text)
}

/// Whether `index` lies in the stretch of `update_length` scalars that starts
/// at `start_pos`.
pub open spec fn within_bounds(start_pos: int, update_length: int, index: int) -> bool {
    start_pos <= index < start_pos + update_length
}

/// Whether a deletion at `start_pos` of `update_length` scalars leaves the
/// scalar at `index` in place. The scalar at `start_pos + update_length`
/// itself goes too.
pub open spec fn without_bounds(start_pos: int, update_length: int, index: int) -> bool {
    index < start_pos || index > start_pos + update_length
}

/// The scalars of `current` whose index lies within the bounds: what an
/// edit at `start_pos` of `update_length` scalars is held against.
pub open spec fn selected(current: Seq<char>, start_pos: int, update_length: int) -> Seq<char> {
    current.subrange(
        min(start_pos, current.len() as int),
        min(start_pos + update_length, current.len() as int),
    )
}

/// The scalars of `current` whose index lies without the bounds: what a
/// deletion leaves.
pub open spec fn deleted(current: Seq<char>, start_pos: int, update_length: int) -> Seq<char> {
    current.subrange(0, min(start_pos, current.len() as int)) + current.subrange(
        min(start_pos + update_length + 1, current.len() as int),
        current.len() as int,
    )
}

/// A filter for scalars paired with their index: it keeps those within the
/// bounds.
pub fn get_string_within_bounds(start_pos: usize, update_length: usize) -> (pick: impl Fn(
    (usize, char),
) -> Option<char>)
    ensures
        forall|at: (usize, char)| #[trigger] pick.requires((at,)),
        forall|at: (usize, char), kept: Option<char>| #[trigger]
            pick.ensures((at,), kept) ==> kept == (if within_bounds(
                start_pos as int,
                update_length as int,
                at.0 as int,
            ) {
                Some(at.1)
            } else {
                None
            }),
{
    move |at: (usize, char)| -> (kept: Option<char>)
        ensures
            kept == (if within_bounds(start_pos as int, update_length as int, at.0 as int) {
                Some(at.1)
            } else {
                None
            }),
        {
            let is_after_start = at.0 >= start_pos;
            let is_before_end = is_after_start && at.0 - start_pos < update_length;
            if is_after_start && is_before_end {
                Some(at.1)
            } else {
                None
            }
        }
}

/// A filter for scalars paired with their index: it keeps those without the
/// bounds.
pub fn get_string_without_bounds(start_pos: usize, update_length: usize) -> (pick: impl Fn(
    (usize, char),
) -> Option<char>)
    ensures
        forall|at: (usize, char)| #[trigger] pick.requires((at,)),
        forall|at: (usize, char), kept: Option<char>| #[trigger]
            pick.ensures((at,), kept) ==> kept == (if without_bounds(
                start_pos as int,
                update_length as int,
                at.0 as int,
            ) {
                Some(at.1)
            } else {
                None
            }),
{
    move |at: (usize, char)| -> (kept: Option<char>)
        ensures
            kept == (if without_bounds(start_pos as int, update_length as int, at.0 as int) {
                Some(at.1)
            } else {
                None
            }),
        {
            let is_before_start = at.0 < start_pos;
            let is_after_end = at.0 > start_pos && at.0 - start_pos > update_length;
            if is_before_start || is_after_end {
                Some(at.1)
            } else {
                None
            }
        }
}

/// The part of `text` that an edit at `start_pos` of `update_length` scalars
/// is held against.
pub fn text_selection(text: &str, start_pos: usize, update_length: usize) -> (selection: Vec<char>)
    ensures
        selection@ == selected(text@, start_pos as int, update_length as int),
{
    let chars = scalars_of(text);
    let pick = get_string_within_bounds(start_pos, update_length);
    let mut selection: Vec<char> = Vec::new();
    let mut i: usize = 0;
    while i < chars.len()
        invariant
            i <= chars.len(),
            forall|at: (usize, char)| #[trigger] pick.requires((at,)),
            forall|at: (usize, char), kept: Option<char>| #[trigger]
                pick.ensures((at,), kept) ==> kept == (if within_bounds(
                    start_pos as int,
                    update_length as int,
                    at.0 as int,
                ) {
                    Some(at.1)
                } else {
                    None
                }),
            selection@ == chars@.subrange(
                min(start_pos as int, i as int),
                min(start_pos + update_length, i as int),
            ),
        decreases chars.len() - i,
    {
        let ghost before = selection@;
        match pick((i, chars[i])) {
            Some(c) => {
                selection.push(c);
                assert(selection@ == chars@.subrange(start_pos as int, i + 1));
            },
            None => {},
        }
        i += 1;
    }
    selection
}

/// `text` after a deletion at `start_pos` of `update_length` scalars.
pub fn text_without_selection(text: &str, start_pos: usize, update_length: usize) -> (rest: String)
    ensures
        rest@ == deleted(text@, start_pos as int, update_length as int),
{
    let chars = scalars_of(text);
    let pick = get_string_without_bounds(start_pos, update_length);
    let mut rest: Vec<char> = Vec::new();
    let mut i: usize = 0;
    while i < chars.len()
        invariant
            i <= chars.len(),
            forall|at: (usize, char)| #[trigger] pick.requires((at,)),
            forall|at: (usize, char), kept: Option<char>| #[trigger]
                pick.ensures((at,), kept) ==> kept == (if without_bounds(
                    start_pos as int,
                    update_length as int,
                    at.0 as int,
                ) {
                    Some(at.1)
                } else {
                    None
                }),
            rest@ == chars@.subrange(0, min(start_pos as int, i as int)) + chars@.subrange(
                min(start_pos + update_length + 1, i as int),
                i as int,
            ),
        decreases chars.len() - i,
    {
        match pick((i, chars[i])) {
            Some(c) => {
                rest.push(c);
            },
            None => {},
        }
        i += 1;
        assert(rest@ =~= chars@.subrange(0, min(start_pos as int, i as int)) + chars@.subrange(
            min(start_pos + update_length + 1, i as int),
            i as int,
        ));
    }
    string_of(&rest)
}

/// The snapshot `item` with `text` for its text.
pub open spec fn with_text(item: CacheItemView, text: Seq<char>) -> CacheItemView {
    CacheItemView { text, ..item }
}

/// A mutator for [`Cache::modify_item`] that inserts `updated_text` into the
/// text of the snapshot it is given.
pub fn update_string_insert(start_pos: usize, update_length: usize, updated_text: &str) -> (update:
    impl Fn(&mut CacheItem) + '_)
    ensures
        forall|item: &mut CacheItem| #[trigger] update.requires((item,)),
        forall|item: &mut CacheItem| #[trigger]
            update.ensures((item,), ()) ==> (*final(item))@ == with_text(
                (*item)@,
                inserted((*item)@.text, start_pos as int, update_length as int, updated_text@),
            ),
{
    move |cache_item: &mut CacheItem|
        ensures
            (*final(cache_item))@ == with_text(
                (*old(cache_item))@,
                inserted(
                    (*old(cache_item))@.text,
                    start_pos as int,
                    update_length as int,
                    updated_text@,
                ),
            ),
        {
            let char_num = cache_item.text.as_str().unicode_len();
            let prepend = start_pos == 0;
            let append = start_pos >= char_num;
            let insert_and_append = append || update_length >= char_num - start_pos;
            cache_item.text =
            if prepend {
                append_to_object(updated_text, cache_item.text.as_str())
            } else if append {
                append_to_object(cache_item.text.as_str(), updated_text)
            } else if insert_and_append {
                insert_at_index(cache_item.text.as_str(), updated_text, start_pos)
            } else {
                insert_at_range(
                    cache_item.text.as_str(),
                    updated_text,
                    start_pos,
                    start_pos + update_length,
                )
            };
        }
}

/// How urgent a message to the speech server is.
#[verifier::external_type_specification]
pub struct ExPriority(Priority);

/// The value of the first attribute called `name`.
pub open spec fn attribute(attributes: Seq<(String, String)>, name: Seq<char>) -> Option<Seq<char>>
    decreases attributes.len(),
{
    if attributes.len() == 0 {
        None
    } else if attributes[0].0@ == name {
        Some(attributes[0].1@)
    } else {
        attribute(attributes.drop_first(), name)
    }
}

fn find_attribute<'a>(attributes: &'a Attributes, name: &str) -> (found: Option<&'a str>)
    ensures
        match found {
            Some(value) => attribute(attributes@, name@) == Some(value@),
            None => attribute(attributes@, name@) is None,
        },
{
    let wanted = scalars_of(name);
    let mut i: usize = 0;
    assert(attributes@.skip(0) == attributes@);
    while i < attributes.len()
        invariant
            i <= attributes.len(),
            wanted@ == name@,
            attribute(attributes@, name@) == attribute(attributes@.skip(i as int), name@),
        decreases attributes.len() - i,
    {
        let here = scalars_of(attributes[i].0.as_str());
        assert(attributes@.skip(i as int)[0] == attributes@[i as int]);
        if same_scalars(&here, &wanted) {
            return Some(attributes[i].1.as_str());
        }
        assert(attributes@.skip(i as int).drop_first() == attributes@.skip(i + 1));
        i += 1;
    }
    None
}

/// The `live` attribute of an object.
///
/// Fails with `NoAttributeError` exactly where the object has none.
pub fn get_live_state(attributes: &Attributes) -> (state: Result<AriaLive, OdiliaError>)
    ensures
        match attribute(attributes@, "live"@) {
            Some(value) => state matches Ok(live) && live@ == live_named(value),
            None => state matches Err(OdiliaError::NoAttributeError(name)) && name@ == "live"@,
        },
{
    match find_attribute(attributes, "live") {
        None => Err(OdiliaError::NoAttributeError("live".to_owned())),
        Some(live) => Ok(AriaLive::parse(live)),
    }
}

/// The priority at which an update of a live region is spoken: an assertive
/// one interrupts, a polite one waits for its turn, any other is an ordinary
/// message.
pub fn live_to_priority(live_str: AriaLive) -> (priority: Priority)
    ensures
        priority == match live_str@ {
            AriaLiveView::Assertive => Priority::Important,
            AriaLiveView::Polite => Priority::Notification,
            _ => Priority::Message,
        },
{
    match live_str {
        AriaLive::Assertive => Priority::Important,
        AriaLive::Polite => Priority::Notification,
        _ => Priority::Message,
    }
}

/// The `atomic` attribute of an object.
///
/// Fails with `NoAttributeError` where the object has none, and with
/// `SerdeError` where its value is neither `true` nor `false`.
pub fn get_atomic_state(attributes: &Attributes) -> (state: Result<AriaAtomic, OdiliaError>)
    ensures
        match attribute(attributes@, "atomic"@) {
            Some(value) => if value == "true"@ {
                state matches Ok(atomic) && atomic.0
            } else if value == "false"@ {
                state matches Ok(atomic) && !atomic.0
            } else {
                state matches Err(OdiliaError::SerdeError(_))
            },
            None => state matches Err(OdiliaError::NoAttributeError(name)) && name@ == "atomic"@,
        },
{
    proof {
        reveal_strlit("true");
        reveal_strlit("false");
        assert("true"@.len() != "false"@.len());
    }
    match find_attribute(attributes, "atomic") {
        None => Err(OdiliaError::NoAttributeError("atomic".to_owned())),
        Some(atomic) => match parse_bool(atomic) {
            Ok(value) => Ok(AriaAtomic(value)),
            Err(e) => Err(OdiliaError::SerdeError(e)),
        },
    }
}

/// What is to be said, and how urgently.
pub struct Announcement {
    pub priority: Priority,
    pub text: String,
}

/// The priority and the text of what is said of an insertion, or `None` where
/// the attributes do not say how to announce it.
pub open spec fn announcement_of(
    attributes: Seq<(String, String)>,
    event_text: Seq<char>,
    cache_text: Seq<char>,
) -> Option<(Priority, Seq<char>)> {
    match (attribute(attributes, "live"@), attribute(attributes, "atomic"@)) {
        (Some(live), Some(atomic)) => {
            let priority = match live_named(live) {
                AriaLiveView::Assertive => Priority::Important,
                AriaLiveView::Polite => Priority::Notification,
                _ => Priority::Message,
            };
            if atomic == "true"@ {
                Some((priority, cache_text))
            } else if atomic == "false"@ {
                Some((priority, event_text))
            } else {
                None
            }
        },
        _ => None,
    }
}

/// What to say of an insertion into a live region.
///
/// `cache_text` is the object's text after the insertion, `event_text` the
/// text that was inserted. An atomic region is read out whole, of any other
/// only what is new. Where `live` or `atomic` cannot be read, nothing is
/// said, and the error says why.
pub fn speak_insertion(attributes: &Attributes, event_text: &str, cache_text: &str) -> (said: Result<
    Announcement,
    OdiliaError,
>)
    ensures
        match said {
            Ok(announcement) => announcement_of(attributes@, event_text@, cache_text@) == Some(
                (announcement.priority, announcement.text@),
            ),
            Err(e) => announcement_of(attributes@, event_text@, cache_text@) is None && (
            if attribute(attributes@, "live"@) is None {
                e matches OdiliaError::NoAttributeError(name) && name@ == "live"@
            } else if attribute(attributes@, "atomic"@) is None {
                e matches OdiliaError::NoAttributeError(name) && name@ == "atomic"@
            } else {
                e is SerdeError
            }),
        },
{
    proof {
        reveal_strlit("true");
        reveal_strlit("false");
        assert("true"@.len() != "false"@.len());
    }
    let live = get_live_state(attributes)?;
    let atomic = get_atomic_state(attributes)?;
    let text_to_say = if atomic.0 {
        cache_text.to_owned()
    } else {
        event_text.to_owned()
    };
    let priority = live_to_priority(live);
    Ok(Announcement { priority, text: text_to_say })
}

/// Whether an edit is still to be applied to a text that reads `current`.
///
/// An insertion whose text already stands at its place has been applied, and
/// so has a deletion whose text no longer stands at its place.
pub open spec fn edit_due(
    current: Seq<char>,
    insert: bool,
    start_pos: int,
    update_length: int,
    updated: Seq<char>,
) -> bool {
    insert != (selected(current, start_pos, update_length) == updated)
}

/// `text` after the edit.
pub open spec fn edited(
    text: Seq<char>,
    insert: bool,
    start_pos: int,
    update_length: int,
    updated: Seq<char>,
) -> Seq<char> {
    if insert {
        inserted(text, start_pos, update_length, updated)
    } else {
        deleted(text, start_pos, update_length)
    }
}

/// What a text-changed event did.
pub struct TextChange {
    /// Whether the cache was changed.
    pub changed: bool,
    /// What is to be said of the change, if anything.
    pub announcement: Option<Announcement>,
}

/// The text that the cache has for the object after the event: that of its
/// entry, or that of the copy where it has no entry.
pub open spec fn text_in_cache(entries: Map<Identity, CacheItemView>, copy: CacheItemView) -> Seq<
    char,
> {
    if entries.contains_key(copy.object) {
        entries[copy.object].text
    } else {
        copy.text
    }
}

/// What is said of an edit: something only of an insertion, and only where
/// the object's attributes are at hand and say how.
pub open spec fn announced(
    insert: bool,
    attributes: Option<&Attributes>,
    event_text: Seq<char>,
    cache_text: Seq<char>,
) -> Option<(Priority, Seq<char>)> {
    match attributes {
        Some(attrs) if insert => announcement_of(attrs@, event_text, cache_text),
        _ => None,
    }
}

/// Applies an insertion (`insert` is true) or a deletion to the cached text of
/// the object that `cache_item` is a copy of, unless the copy shows that it
/// has been applied already.
///
/// An insertion is announced as well, where the object's `attributes` are
/// given and say how: see [`speak_insertion`]. The text announced for an
/// atomic region is the one that the cache holds after the edit.
pub fn insert_or_delete(
    cache: &mut Cache,
    cache_item: &CacheItem,
    updated_text: &str,
    start_pos: usize,
    update_length: usize,
    insert: bool,
    attributes: Option<&Attributes>,
) -> (done: TextChange)
    requires
        old(cache).wf(),
    ensures
        final(cache).wf(),
        done.changed == (old(cache)@.contains_key(cache_item@.object) && edit_due(
            cache_item@.text,
            insert,
            start_pos as int,
            update_length as int,
            updated_text@,
        )),
        done.changed ==> final(cache)@ == old(cache)@.insert(
            cache_item@.object,
            with_text(
                old(cache)@[cache_item@.object],
                edited(
                    old(cache)@[cache_item@.object].text,
                    insert,
                    start_pos as int,
                    update_length as int,
                    updated_text@,
                ),
            ),
        ),
        !done.changed ==> final(cache)@ == old(cache)@,
        match done.announcement {
            Some(announcement) => announced(
                insert,
                attributes,
                updated_text@,
                text_in_cache(final(cache)@, cache_item@),
            ) == Some((announcement.priority, announcement.text@)),
            None => announced(
                insert,
                attributes,
                updated_text@,
                text_in_cache(final(cache)@, cache_item@),
            ) is None,
        },
{
    let updated = scalars_of(updated_text);
    let text_selection_from_cache = text_selection(
        cache_item.text.as_str(),
        start_pos,
        update_length,
    );
    let selection_matches_update = same_scalars(&text_selection_from_cache, &updated);
    let insert_has_not_occured = insert && !selection_matches_update;
    let remove_has_not_occured = !insert && selection_matches_update;
    let changed = if insert_has_not_occured {
        cache.modify_item(
            &cache_item.object,
            update_string_insert(start_pos, update_length, updated_text),
        )
    } else if remove_has_not_occured {
        let remove = move |cache_item: &mut CacheItem|
            ensures
                (*final(cache_item))@ == with_text(
                    (*old(cache_item))@,
                    deleted((*old(cache_item))@.text, start_pos as int, update_length as int),
                ),
            {
                cache_item.text =
                text_without_selection(cache_item.text.as_str(), start_pos, update_length);
            };
        cache.modify_item(&cache_item.object, remove)
    } else {
        false
    };
    let announcement = match attributes {
        Some(attrs) if insert => {
            let said = match cache.get(&cache_item.object) {
                Some(current) => speak_insertion(attrs, updated_text, current.text.as_str()),
                None => speak_insertion(attrs, updated_text, cache_item.text.as_str()),
            };
            match said {
                Ok(announcement) => Some(announcement),
                Err(_) => None,
            }
        },
        _ => None,
    };
    TextChange { changed, announcement }
}

/// What the kind of a text-changed event asks for: `Some(true)` for an
/// insertion, `Some(false)` for a deletion, `None` for nothing.
pub open spec fn edit_kind(kind: Seq<char>) -> Option<bool> {
    if kind == "insert/system"@ || kind == "insert"@ {
        Some(true)
    } else if kind == "delete/system"@ || kind == "delete"@ {
        Some(false)
    } else {
        None
    }
}

/// Reads the kind of a text-changed event.
pub fn text_change_kind(kind: &str) -> (asked: Option<bool>)
    ensures
        asked == edit_kind(kind@),
{
    let chars = scalars_of(kind);
    if same_scalars(&chars, &scalars_of("insert/system")) || same_scalars(
        &chars,
        &scalars_of("insert"),
    ) {
        Some(true)
    } else if same_scalars(&chars, &scalars_of("delete/system")) || same_scalars(
        &chars,
        &scalars_of("delete"),
    ) {
        Some(false)
    } else {
        None
    }
}

/// Applies a text-changed event of the given kind, as [`insert_or_delete`]
/// does. An event of an unknown kind changes nothing and says nothing.
pub fn dispatch(
    cache: &mut Cache,
    cache_item: &CacheItem,
    kind: &str,
    updated_text: &str,
    start_pos: usize,
    update_length: usize,
    attributes: Option<&Attributes>,
) -> (done: TextChange)
    requires
        old(cache).wf(),
    ensures
        final(cache).wf(),
        done.changed == (edit_kind(kind@) matches Some(insert) && old(cache)@.contains_key(
            cache_item@.object,
        ) && edit_due(
            cache_item@.text,
            insert,
            start_pos as int,
            update_length as int,
            updated_text@,
        )),
        done.changed ==> final(cache)@ == old(cache)@.insert(
            cache_item@.object,
            with_text(
                old(cache)@[cache_item@.object],
                edited(
                    old(cache)@[cache_item@.object].text,
                    edit_kind(kind@).unwrap(),
                    start_pos as int,
                    update_length as int,
                    updated_text@,
                ),
            ),
        ),
        !done.changed ==> final(cache)@ == old(cache)@,
        match done.announcement {
            Some(announcement) => announced(
                edit_kind(kind@) == Some(true),
                attributes,
                updated_text@,
                text_in_cache(final(cache)@, cache_item@),
            ) == Some((announcement.priority, announcement.text@)),
            None => announced(
                edit_kind(kind@) == Some(true),
                attributes,
                updated_text@,
                text_in_cache(final(cache)@, cache_item@),
            ) is None,
        },
{
    match text_change_kind(kind) {
        Some(insert) => insert_or_delete(
            cache,
            cache_item,
            updated_text,
            start_pos,
            update_length,
            insert,
            attributes,
        ),
        None => TextChange { changed: false, announcement: None },
    }
}

/// The scalars of `text` whose index `keep` accepts, in order.
pub open spec fn kept(text: Seq<char>, keep: spec_fn(int) -> bool) -> Seq<char>
    decreases text.len(),
{
    if text.len() == 0 {
        Seq::empty()
    } else if keep(text.len() - 1) {
        kept(text.drop_last(), keep).push(text.last())
    } else {
        kept(text.drop_last(), keep)
    }
}

/// What an edit is held against is exactly the scalars whose index lies
/// within the bounds.
pub proof fn lemma_selected_is_within_bounds(current: Seq<char>, start_pos: int, update_length: int)
    requires
        0 <= start_pos,
        0 <= update_length,
    ensures
        selected(current, start_pos, update_length) == kept(
            current,
            |index: int| within_bounds(start_pos, update_length, index),
        ),
    decreases current.len(),
{
    let keep = |index: int| within_bounds(start_pos, update_length, index);
    if current.len() > 0 {
        let shorter = current.drop_last();
        lemma_selected_is_within_bounds(shorter, start_pos, update_length);
        if keep(current.len() - 1) {
            assert(selected(current, start_pos, update_length) == selected(
                shorter,
                start_pos,
                update_length,
            ).push(current.last()));
        } else {
            assert(selected(current, start_pos, update_length) == selected(
                shorter,
                start_pos,
                update_length,
            ));
        }
    }
}

/// What a deletion leaves is exactly the scalars whose index lies without the
/// bounds.
pub proof fn lemma_deleted_is_without_bounds(current: Seq<char>, start_pos: int, update_length: int)
    requires
        0 <= start_pos,
        0 <= update_length,
    ensures
        deleted(current, start_pos, update_length) == kept(
            current,
            |index: int| without_bounds(start_pos, update_length, index),
        ),
    decreases current.len(),
{
    let keep = |index: int| without_bounds(start_pos, update_length, index);
    if current.len() > 0 {
        let shorter = current.drop_last();
        lemma_deleted_is_without_bounds(shorter, start_pos, update_length);
        if keep(current.len() - 1) {
            assert(deleted(current, start_pos, update_length) == deleted(
                shorter,
                start_pos,
                update_length,
            ).push(current.last()));
        } else {
            assert(deleted(current, start_pos, update_length) == deleted(
                shorter,
                start_pos,
                update_length,
            ));
        }
    }
}

/// An insertion at index 0 puts the new text in front.
pub proof fn lemma_insert_at_start_prepends(
    current: Seq<char>,
    update_length: int,
    updated: Seq<char>,
)
    ensures
        inserted(current, 0, update_length, updated) == updated + current,
{
}

/// An insertion at or past the end puts the new text behind.
pub proof fn lemma_insert_past_end_appends(
    current: Seq<char>,
    start_pos: int,
    update_length: int,
    updated: Seq<char>,
)
    requires
        start_pos >= current.len(),
    ensures
        inserted(current, start_pos, update_length, updated) == current + updated,
{
    if start_pos == 0 {
        assert(current + updated == updated + current);
    }
}

/// An insertion that reaches the end of the text drops the tail from its
/// index on and puts the new text there. This holds from index 1 on: at index
/// 0 the new text goes in front and nothing is dropped.
pub proof fn lemma_insert_reaching_end_drops_tail(
    current: Seq<char>,
    start_pos: int,
    update_length: int,
    updated: Seq<char>,
)
    requires
        0 < start_pos,
        start_pos + update_length >= current.len(),
    ensures
        inserted(current, start_pos, update_length, updated) == current.subrange(
            0,
            min(start_pos, current.len() as int),
        ) + updated,
{
    if start_pos >= current.len() {
        assert(current.subrange(0, current.len() as int) == current);
    }
}

/// A deletion whose text does not stand at its place is not applied: the
/// text stays as it is.
pub proof fn lemma_delete_without_match_is_noop(
    current: Seq<char>,
    start_pos: int,
    update_length: int,
    updated: Seq<char>,
)
    requires
        selected(current, start_pos, update_length) != updated,
    ensures
        !edit_due(current, false, start_pos, update_length, updated),
{
}

/// An insertion whose text stands at its place already is not applied.
pub proof fn lemma_insert_with_match_is_noop(
    current: Seq<char>,
    start_pos: int,
    update_length: int,
    updated: Seq<char>,
)
    requires
        selected(current, start_pos, update_length) == updated,
    ensures
        !edit_due(current, true, start_pos, update_length, updated),
{
}

/// An edit reads the scalars of a text and nothing else: two texts of the
/// same scalars are edited alike, whether the edit is applied and what comes
/// of it.
pub proof fn lemma_edit_reads_scalars_only(
    first: &str,
    second: &str,
    insert: bool,
    start_pos: int,
    update_length: int,
    updated: &str,
)
    requires
        first@ == second@,
    ensures
        edit_due(first@, insert, start_pos, update_length, updated@) == edit_due(
            second@,
            insert,
            start_pos,
            update_length,
            updated@,
        ),
        edited(first@, insert, start_pos, update_length, updated@) == edited(
            second@,
            insert,
            start_pos,
            update_length,
            updated@,
        ),
{
}

} // verus!
