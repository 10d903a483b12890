use atspi::accessible::Role;
use atspi::{Interface, InterfaceSet, State, StateSet};
use odilia_cache::events::object::text_caret_moved::{dispatch, is_tab_navigation, new_position};
use odilia_cache::identity::{AccessibleId, AccessiblePrimitive};
use odilia_cache::item::CacheItem;

const A11Y_PARAGRAPH_STRING: &str = "The AT-SPI (Assistive Technology Service Provider Interface) enables users of Linux to use their computer without sighted assistance.";

fn a11y_paragraph_item() -> CacheItem {
    CacheItem {
        object: AccessiblePrimitive { id: AccessibleId::Number(1), sender: ":1.2".to_string() },
        app: AccessiblePrimitive { id: AccessibleId::Root, sender: ":1.2".to_string() },
        parent: AccessiblePrimitive { id: AccessibleId::Number(1), sender: ":1.2".to_string() },
        index: 323,
        children_num: 0,
        interfaces: InterfaceSet::new(
            Interface::Accessible
                | Interface::Collection
                | Interface::Component
                | Interface::Hyperlink
                | Interface::Hypertext
                | Interface::Text,
        ),
        role: Role::Paragraph,
        states: StateSet::new(State::Enabled | State::Opaque | State::Showing | State::Visible),
        text: A11Y_PARAGRAPH_STRING.to_string(),
        children: Vec::new(),
    }
}

fn answer(new_position_: u32, old_position: u32) -> String {
    new_position(
        a11y_paragraph_item(),
        a11y_paragraph_item(),
        new_position_,
        old_position,
        A11Y_PARAGRAPH_STRING.to_string(),
    )
}

#[test]
fn test_text_navigation_one_letter() {
    assert_eq!(answer(4, 3), " ".to_string());
}

#[test]
fn test_text_navigation_one_letter_back() {
    assert_eq!(answer(3, 4), " ".to_string());
}

#[test]
fn test_text_navigation_one_word() {
    assert_eq!(answer(0, 3), "The".to_string());
}

#[test]
fn step_of_one_reads_the_scalar_passed_over() {
    assert_eq!(answer(5, 4), "A");
    assert_eq!(answer(4, 5), "A");
    assert_eq!(answer(1, 0), "T");
    assert_eq!(answer(0, 1), "T");
}

#[test]
fn caret_that_did_not_move_reads_nothing() {
    assert_eq!(answer(5, 5), "");
}

#[test]
fn span_is_read_whichever_way_the_caret_went() {
    assert_eq!(answer(3, 0), "The");
    assert_eq!(answer(4, 10), "AT-SPI");
}

#[test]
fn positions_outside_the_text_read_nothing() {
    let len = A11Y_PARAGRAPH_STRING.chars().count() as u32;
    assert_eq!(answer(len, len - 1), ".");
    assert_eq!(answer(len - 1, len), ".");
    assert_eq!(answer(len + 1, len), "");
    assert_eq!(answer(len, len + 1), "");
    assert_eq!(answer(len + 5, 0), "");
    assert_eq!(answer(len, len - 3), "ce.");
}

#[test]
fn caret_in_another_object_reads_nothing() {
    let mut other = a11y_paragraph_item();
    other.object.id = AccessibleId::Number(2);
    assert_eq!(
        new_position(a11y_paragraph_item(), other, 4, 3, A11Y_PARAGRAPH_STRING.to_string()),
        ""
    );
}

#[test]
fn caret_positions_count_scalars() {
    let read = new_position(
        a11y_paragraph_item(),
        a11y_paragraph_item(),
        2,
        1,
        "héllo".to_string(),
    );
    assert_eq!(read, "é");
    let read = new_position(
        a11y_paragraph_item(),
        a11y_paragraph_item(),
        0,
        3,
        "héllo".to_string(),
    );
    assert_eq!(read, "hél");
}

#[test]
fn tab_navigation_is_guessed_from_the_caret() {
    let here = AccessiblePrimitive { id: AccessibleId::Number(1), sender: ":1.2".to_string() };
    let there = AccessiblePrimitive { id: AccessibleId::Number(2), sender: ":1.2".to_string() };
    assert!(!is_tab_navigation(5, Some(&here), 0, &here));
    assert!(is_tab_navigation(0, None, 7, &here));
    assert!(!is_tab_navigation(0, Some(&here), 7, &here));
    assert!(is_tab_navigation(0, Some(&here), 0, &here));
    assert!(is_tab_navigation(0, Some(&there), 7, &here));
}

#[test]
fn caret_event_is_read_out_unless_tab_or_unknown() {
    let here = AccessiblePrimitive { id: AccessibleId::Number(1), sender: ":1.2".to_string() };
    assert!(dispatch("", 5, Some(&here), 0, &here));
    assert!(!dispatch("", 0, None, 0, &here));
    assert!(!dispatch("system", 5, Some(&here), 0, &here));
}
