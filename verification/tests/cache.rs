use atspi::accessible::{RelationType, Role};
use atspi::{Interface, InterfaceSet, State, StateSet};
use odilia_cache::cache::Cache;
use odilia_cache::errors::{AccessiblePrimitiveConversionError, CacheError, OdiliaError};
use odilia_cache::identity::{AccessibleId, AccessiblePrimitive};
use odilia_cache::item::{
    accessible_to_cache_item, copy_into_cache_item, AccessibleFacts, BusCacheItem, CacheItem,
};

fn id(n: u64) -> AccessiblePrimitive {
    AccessiblePrimitive { sender: ":1.5".to_string(), id: AccessibleId::Number(n) }
}

fn root() -> AccessiblePrimitive {
    AccessiblePrimitive { sender: ":1.5".to_string(), id: AccessibleId::Root }
}

fn entry(n: u64, text: &str, children: Vec<AccessiblePrimitive>) -> CacheItem {
    CacheItem {
        object: id(n),
        app: root(),
        parent: id(1),
        index: -1,
        children_num: children.len() as i32,
        interfaces: InterfaceSet::new(Interface::Accessible),
        role: Role::Label,
        states: StateSet::new(State::Enabled | State::Showing),
        text: text.to_string(),
        children,
    }
}

fn pair(tail: &str) -> (String, String) {
    (":1.5".to_string(), format!("/org/a11y/atspi/accessible/{tail}"))
}

fn facts(children: Vec<(String, String)>) -> AccessibleFacts {
    AccessibleFacts {
        app: pair("root"),
        parent: pair("1"),
        index: 3,
        children_num: 2,
        interfaces: InterfaceSet::new(Interface::Accessible | Interface::Text),
        role: Role::Paragraph,
        states: StateSet::new(State::Focusable),
        children,
        text: "some text".to_string(),
    }
}

fn same(a: &CacheItem, b: &CacheItem) -> bool {
    a.object == b.object
        && a.app == b.app
        && a.parent == b.parent
        && a.index == b.index
        && a.children_num == b.children_num
        && a.interfaces == b.interfaces
        && a.role == b.role
        && a.states == b.states
        && a.text == b.text
        && a.children == b.children
}

#[test]
fn new_cache_is_empty() {
    let cache = Cache::new();
    assert_eq!(cache.len(), 0);
    assert!(cache.get(&id(1)).is_none());
}

#[test]
fn added_item_is_found_under_its_identity() {
    let mut cache = Cache::new();
    cache.add(entry(2, "two", vec![id(3)]));
    assert_eq!(cache.len(), 1);
    let found = cache.get(&id(2)).unwrap();
    assert!(same(&found, &entry(2, "two", vec![id(3)])));
    assert_eq!(found.object, id(2));
    assert!(cache.get(&id(3)).is_none());
    assert!(same(&cache.get_blocking(&id(2)).unwrap(), &found));
}

#[test]
fn adding_again_overwrites_and_keeps_one_entry() {
    let mut cache = Cache::new();
    cache.add(entry(2, "old", vec![]));
    cache.add(entry(2, "new", vec![]));
    cache.add(entry(2, "newer", vec![]));
    assert_eq!(cache.len(), 1);
    assert_eq!(cache.get(&id(2)).unwrap().text, "newer");
}

#[test]
fn same_number_from_another_sender_is_another_key() {
    let mut cache = Cache::new();
    cache.add(entry(2, "mine", vec![]));
    let mut theirs = entry(2, "theirs", vec![]);
    theirs.object.sender = ":1.6".to_string();
    cache.add(theirs);
    assert_eq!(cache.len(), 2);
    assert_eq!(cache.get(&id(2)).unwrap().text, "mine");
}

#[test]
fn remove_then_get_finds_nothing() {
    let mut cache = Cache::new();
    cache.add(entry(2, "two", vec![]));
    cache.add(entry(3, "three", vec![]));
    cache.remove(&id(2));
    assert!(cache.get(&id(2)).is_none());
    assert!(!cache.modify_item(&id(2), |item| item.text.push('!')));
    assert_eq!(cache.len(), 1);
    assert_eq!(cache.get(&id(3)).unwrap().text, "three");
    cache.remove(&id(2));
    assert_eq!(cache.len(), 1);
}

#[test]
fn modify_changes_the_entry_in_place() {
    let mut cache = Cache::new();
    cache.add(entry(2, "two", vec![]));
    cache.add(entry(3, "three", vec![]));
    assert!(cache.modify_item(&id(2), |item| {
        item.text.push_str(" and a half");
        item.index = 9;
    }));
    let found = cache.get(&id(2)).unwrap();
    assert_eq!(found.text, "two and a half");
    assert_eq!(found.index, 9);
    assert_eq!(found.object, id(2));
    assert_eq!(cache.get(&id(3)).unwrap().text, "three");
    assert_eq!(cache.len(), 2);
}

#[test]
fn modify_of_an_absent_key_is_false_and_changes_nothing() {
    let mut cache = Cache::new();
    cache.add(entry(2, "two", vec![]));
    let mut called = false;
    assert!(!cache.modify_item(&id(9), |_| called = true));
    assert!(!called);
    assert_eq!(cache.len(), 1);
    assert!(same(&cache.get(&id(2)).unwrap(), &entry(2, "two", vec![])));
}

#[test]
fn copy_from_get_is_detached() {
    let mut cache = Cache::new();
    cache.add(entry(2, "two", vec![id(4)]));
    let mut copy = cache.get(&id(2)).unwrap();
    copy.text.push_str(" changed");
    copy.children.clear();
    copy.index = 77;
    copy.states.insert(State::Focused);
    assert!(same(&cache.get(&id(2)).unwrap(), &entry(2, "two", vec![id(4)])));
}

#[test]
fn copy_into_cache_item_copies_every_field() {
    let original = entry(2, "two", vec![id(4), id(5)]);
    let copy = copy_into_cache_item(&original);
    assert!(same(&copy, &original));
    assert!(same(&original.clone(), &original));
}

#[test]
fn get_all_answers_in_order() {
    let mut cache = Cache::new();
    cache.add(entry(2, "two", vec![]));
    cache.add(entry(4, "four", vec![]));
    let found = cache.get_all(&[id(4), id(3), id(2), id(4)]);
    let texts: Vec<Option<String>> = found.into_iter().map(|f| f.map(|i| i.text)).collect();
    assert_eq!(
        texts,
        vec![Some("four".to_string()), None, Some("two".to_string()), Some("four".to_string())]
    );
    assert!(cache.get_all(&[]).is_empty());
}

#[test]
fn add_all_stores_each_and_the_last_of_a_key_wins() {
    let mut cache = Cache::new();
    cache.add(entry(1, "one", vec![]));
    cache.add_all(vec![entry(2, "a", vec![]), entry(3, "b", vec![]), entry(2, "c", vec![])]);
    assert_eq!(cache.len(), 3);
    assert_eq!(cache.get(&id(2)).unwrap().text, "c");
    assert_eq!(cache.get(&id(3)).unwrap().text, "b");
    assert_eq!(cache.get(&id(1)).unwrap().text, "one");
    cache.add_all(Vec::new());
    assert_eq!(cache.len(), 3);
}

#[test]
fn remove_all_drops_each_and_skips_the_absent() {
    let mut cache = Cache::new();
    cache.add_all(vec![entry(2, "a", vec![]), entry(3, "b", vec![]), entry(4, "c", vec![])]);
    cache.remove_all(vec![id(4), id(9), id(2), id(4)]);
    assert_eq!(cache.len(), 1);
    assert_eq!(cache.get(&id(3)).unwrap().text, "b");
}

#[test]
fn get_or_create_returns_what_is_there_without_creating() {
    let mut cache = Cache::new();
    cache.add(entry(2, "cached", vec![]));
    let mut called = false;
    let got = cache
        .get_or_create(&id(2), || {
            called = true;
            Ok(entry(2, "fresh", vec![]))
        })
        .unwrap();
    assert!(!called);
    assert_eq!(got.text, "cached");
    assert_eq!(cache.len(), 1);
}

#[test]
fn get_or_create_hydrates_on_a_miss() {
    let mut cache = Cache::new();
    cache.add(entry(2, "cached", vec![]));
    let got = cache
        .get_or_create(&id(7), || accessible_to_cache_item(":1.5", &pair("7").1, facts(vec![pair("8")])))
        .unwrap();
    assert_eq!(got.object, id(7));
    assert_eq!(cache.len(), 2);
    assert!(same(&cache.get(&id(7)).unwrap(), &got));
    assert_eq!(got.text, "some text");
}

#[test]
fn get_or_create_hands_on_the_failure_and_stores_nothing() {
    let mut cache = Cache::new();
    let got = cache.get_or_create(&id(7), || Err(OdiliaError::Cache(CacheError::NotAvailable)));
    assert!(matches!(got, Err(OdiliaError::Cache(CacheError::NotAvailable))));
    assert_eq!(cache.len(), 0);
}

#[test]
fn snapshot_is_made_of_what_the_bus_said() {
    let made =
        accessible_to_cache_item(":1.5", &pair("7").1, facts(vec![pair("8"), pair("root")])).unwrap();
    assert_eq!(made.object, id(7));
    assert_eq!(made.app, root());
    assert_eq!(made.parent, id(1));
    assert_eq!(made.index, 3);
    assert_eq!(made.children_num, 2);
    assert_eq!(made.interfaces, InterfaceSet::new(Interface::Accessible | Interface::Text));
    assert_eq!(made.role, Role::Paragraph);
    assert_eq!(made.states, StateSet::new(State::Focusable));
    assert_eq!(made.text, "some text");
    assert_eq!(made.children, vec![id(8), root()]);
}

#[test]
fn snapshot_of_a_proxy_without_id_fails_with_no_path_id() {
    let made = accessible_to_cache_item(":1.5", "/", facts(vec![]));
    assert!(matches!(
        made,
        Err(OdiliaError::PrimitiveConversionError(AccessiblePrimitiveConversionError::NoPathId))
    ));
}

#[test]
fn snapshot_with_a_malformed_path_fails_with_path_parse() {
    let mut bad_app = facts(vec![]);
    bad_app.app.1 = "app".to_string();
    let mut bad_parent = facts(vec![]);
    bad_parent.parent.1 = "/a//b".to_string();
    let bad_child = facts(vec![pair("8"), (":1.5".to_string(), "/bad/".to_string())]);
    for f in [bad_app, bad_parent, bad_child] {
        assert!(matches!(
            accessible_to_cache_item(":1.5", &pair("7").1, f),
            Err(OdiliaError::PrimitiveConversionError(AccessiblePrimitiveConversionError::PathParse))
        ));
    }
}

fn record() -> BusCacheItem {
    BusCacheItem {
        object: pair("12"),
        app: pair("root"),
        parent: pair("null"),
        index: 4,
        children: 1,
        ifaces: InterfaceSet::new(Interface::Accessible | Interface::Component),
        short_name: "short".to_string(),
        role: Role::PushButton,
        name: "a button".to_string(),
        states: StateSet::new(State::Enabled | State::Sensitive),
    }
}

#[test]
fn snapshot_is_made_of_a_record_of_the_bus_cache() {
    let made = CacheItem::from_atspi_cache_item(record(), &vec![pair("13")]).unwrap();
    assert_eq!(made.object, id(12));
    assert_eq!(made.app, root());
    assert_eq!(made.parent, AccessiblePrimitive { sender: ":1.5".to_string(), id: AccessibleId::Null });
    assert_eq!(made.index, 4);
    assert_eq!(made.children_num, 1);
    assert_eq!(made.interfaces, InterfaceSet::new(Interface::Accessible | Interface::Component));
    assert_eq!(made.role, Role::PushButton);
    assert_eq!(made.states, StateSet::new(State::Enabled | State::Sensitive));
    assert_eq!(made.text, "a button");
    assert_eq!(made.children, vec![id(13)]);
}

#[test]
fn record_with_a_malformed_path_fails_with_path_parse() {
    let mut bad = record();
    bad.object.1 = "".to_string();
    assert!(matches!(
        CacheItem::from_atspi_cache_item(bad, &vec![]),
        Err(OdiliaError::PrimitiveConversionError(AccessiblePrimitiveConversionError::PathParse))
    ));
    assert!(matches!(
        CacheItem::from_atspi_cache_item(record(), &vec![(":1.5".to_string(), "x".to_string())]),
        Err(OdiliaError::PrimitiveConversionError(AccessiblePrimitiveConversionError::PathParse))
    ));
}

fn family() -> Cache {
    let mut cache = Cache::new();
    let mut app = entry(0, "app", vec![id(1)]);
    app.object = root();
    cache.add(app);
    cache.add(entry(1, "parent", vec![id(2), id(3)]));
    cache.add(entry(2, "first", vec![]));
    cache.add(entry(3, "second", vec![]));
    cache
}

#[test]
fn application_and_parent_are_looked_up() {
    let cache = family();
    let child = cache.get(&id(2)).unwrap();
    assert_eq!(child.get_application(Some(&cache)).unwrap().text, "app");
    assert_eq!(child.parent(Some(&cache)).unwrap().text, "parent");
}

#[test]
fn lookups_without_a_cache_are_not_available() {
    let child = family().get(&id(1)).unwrap();
    assert!(matches!(child.get_application(None), Err(OdiliaError::Cache(CacheError::NotAvailable))));
    assert!(matches!(child.parent(None), Err(OdiliaError::Cache(CacheError::NotAvailable))));
    assert!(matches!(child.get_children(None), Err(OdiliaError::Cache(CacheError::NotAvailable))));
    assert!(matches!(
        child.get_child_at_index(None, 0),
        Err(OdiliaError::Cache(CacheError::NotAvailable))
    ));
    assert!(matches!(
        child.get_relation_set(None, &vec![]),
        Err(OdiliaError::Cache(CacheError::NotAvailable))
    ));
}

#[test]
fn lookups_of_absent_items_give_no_item() {
    let mut cache = family();
    let child = cache.get(&id(2)).unwrap();
    let parent = cache.get(&id(1)).unwrap();
    cache.remove(&root());
    cache.remove(&id(1));
    cache.remove(&id(3));
    assert!(matches!(child.get_application(Some(&cache)), Err(OdiliaError::Cache(CacheError::NoItem))));
    assert!(matches!(child.parent(Some(&cache)), Err(OdiliaError::Cache(CacheError::NoItem))));
    assert!(matches!(parent.get_children(Some(&cache)), Err(OdiliaError::Cache(CacheError::NoItem))));
    assert!(matches!(
        parent.get_child_at_index(Some(&cache), 0),
        Err(OdiliaError::Cache(CacheError::NoItem))
    ));
}

#[test]
fn children_come_in_order() {
    let cache = family();
    let parent = cache.get(&id(1)).unwrap();
    let texts: Vec<String> =
        parent.get_children(Some(&cache)).unwrap().into_iter().map(|c| c.text).collect();
    assert_eq!(texts, vec!["first".to_string(), "second".to_string()]);
    assert_eq!(parent.get_child_at_index(Some(&cache), 0).unwrap().text, "first");
    assert_eq!(parent.get_child_at_index(Some(&cache), 1).unwrap().text, "second");
    assert!(matches!(
        parent.get_child_at_index(Some(&cache), 2),
        Err(OdiliaError::Cache(CacheError::NoItem))
    ));
    assert!(matches!(
        parent.get_child_at_index(Some(&cache), -1),
        Err(OdiliaError::Cache(CacheError::NoItem))
    ));
    let leaf = cache.get(&id(2)).unwrap();
    assert!(leaf.get_children(Some(&cache)).unwrap().is_empty());
}

#[test]
fn cached_scalars_are_answered_at_once() {
    let item = entry(2, "two", vec![id(4), id(5)]);
    assert_eq!(item.child_count(), 2);
    assert_eq!(item.get_index_in_parent(), -1);
    assert_eq!(item.get_role(), Role::Label);
    assert_eq!(item.get_interfaces(), InterfaceSet::new(Interface::Accessible));
    assert_eq!(item.get_state(), StateSet::new(State::Enabled | State::Showing));
    assert_eq!(item.accessible_id(), AccessibleId::Number(2));
}

#[test]
fn relation_set_is_resolved_through_the_cache() {
    let cache = family();
    let item = cache.get(&id(2)).unwrap();
    let relations = vec![
        (RelationType::LabelledBy, vec![pair("3"), pair("1")]),
        (RelationType::ControllerFor, vec![]),
        (RelationType::LabelFor, vec![pair("root")]),
    ];
    let found = item.get_relation_set(Some(&cache), &relations).unwrap();
    assert_eq!(found.len(), 3);
    assert_eq!(found[0].0, RelationType::LabelledBy);
    let texts: Vec<&str> = found[0].1.iter().map(|i| i.text.as_str()).collect();
    assert_eq!(texts, vec!["second", "parent"]);
    assert_eq!(found[1].0, RelationType::ControllerFor);
    assert!(found[1].1.is_empty());
    assert_eq!(found[2].0, RelationType::LabelFor);
    assert_eq!(found[2].1[0].text, "app");
}

#[test]
fn relation_set_fails_on_the_first_object_that_does_not_resolve() {
    let cache = family();
    let item = cache.get(&id(2)).unwrap();
    let unknown_first = vec![
        (RelationType::LabelledBy, vec![pair("3"), pair("99")]),
        (RelationType::LabelFor, vec![(":1.5".to_string(), "bad".to_string())]),
    ];
    assert!(matches!(
        item.get_relation_set(Some(&cache), &unknown_first),
        Err(OdiliaError::Cache(CacheError::NoItem))
    ));
    let malformed_first = vec![
        (RelationType::LabelledBy, vec![(":1.5".to_string(), "bad".to_string()), pair("99")]),
    ];
    assert!(matches!(
        item.get_relation_set(Some(&cache), &malformed_first),
        Err(OdiliaError::PrimitiveConversionError(AccessiblePrimitiveConversionError::PathParse))
    ));
}

#[test]
fn modify_cannot_move_an_item_to_another_identity() {
    let mut cache = Cache::new();
    cache.add(entry(2, "two", vec![]));
    cache.add(entry(3, "three", vec![]));
    assert!(cache.modify_item(&id(2), |item| {
        item.object = id(3);
        item.text.push('!');
    }));
    assert_eq!(cache.len(), 2);
    let two = cache.get(&id(2)).unwrap();
    assert_eq!(two.object, id(2));
    assert_eq!(two.text, "two!");
    assert_eq!(cache.get(&id(3)).unwrap().text, "three");
    assert!(cache.modify_item(&id(2), |item| item.object = id(9)));
    assert_eq!(cache.len(), 2);
    assert!(cache.get(&id(9)).is_none());
    assert_eq!(cache.get(&id(2)).unwrap().object, id(2));
}

#[test]
fn modify_after_remove_brings_nothing_back() {
    let mut cache = Cache::new();
    cache.add(entry(2, "two", vec![]));
    cache.remove(&id(2));
    let mut called = false;
    assert!(!cache.modify_item(&id(2), |item| {
        called = true;
        item.object = id(2);
        item.text = "back".to_string();
    }));
    assert!(!called);
    assert_eq!(cache.len(), 0);
    assert!(cache.get(&id(2)).is_none());
}
