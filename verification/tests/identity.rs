use odilia_cache::errors::{AccessiblePrimitiveConversionError, OdiliaError};
use odilia_cache::identity::{AccessibleId, AccessiblePrimitive};

fn path(tail: &str) -> String {
    format!("/org/a11y/atspi/accessible/{tail}")
}

#[test]
fn path_ending_in_root_is_root() {
    assert_eq!(AccessibleId::from_path(&path("root")), Ok(AccessibleId::Root));
}

#[test]
fn path_ending_in_null_is_null() {
    assert_eq!(AccessibleId::from_path(&path("null")), Ok(AccessibleId::Null));
}

#[test]
fn path_ending_in_digits_is_a_number() {
    assert_eq!(AccessibleId::from_path(&path("42")), Ok(AccessibleId::Number(42)));
    assert_eq!(AccessibleId::from_path(&path("0")), Ok(AccessibleId::Number(0)));
    assert_eq!(AccessibleId::from_path(&path("007")), Ok(AccessibleId::Number(7)));
}

#[test]
fn largest_number_fits_and_the_next_does_not() {
    assert_eq!(
        AccessibleId::from_path(&path("18446744073709551615")),
        Ok(AccessibleId::Number(u64::MAX))
    );
    assert_eq!(
        AccessibleId::from_path(&path("18446744073709551616")),
        Ok(AccessibleId::Other("18446744073709551616".to_string()))
    );
    assert_eq!(
        AccessibleId::from_path(&path("99999999999999999999999")),
        Ok(AccessibleId::Other("99999999999999999999999".to_string()))
    );
}

#[test]
fn path_ending_in_a_word_is_other() {
    assert_eq!(
        AccessibleId::from_path(&path("table_3")),
        Ok(AccessibleId::Other("table_3".to_string()))
    );
    assert_eq!(AccessibleId::from_path(&path("Root")), Ok(AccessibleId::Other("Root".to_string())));
    assert_eq!(AccessibleId::from_path(&path("12a")), Ok(AccessibleId::Other("12a".to_string())));
}

#[test]
fn only_the_last_element_counts() {
    assert_eq!(AccessibleId::from_path("/a/b/17"), Ok(AccessibleId::Number(17)));
    assert_eq!(AccessibleId::from_path("/x"), Ok(AccessibleId::Other("x".to_string())));
}

#[test]
fn malformed_paths_are_refused() {
    let bad = ["", "/", "root", "a/b", "/a//b", "/a/b/", "/a b", "/a-b", "//", "/é"];
    for p in bad {
        assert_eq!(
            AccessibleId::from_path(p),
            Err(AccessiblePrimitiveConversionError::PathParse),
            "{p:?}"
        );
    }
}

#[test]
fn ids_are_written_at_the_end_of_the_accessible_path() {
    assert_eq!(AccessibleId::Root.to_path(), "/org/a11y/atspi/accessible/root");
    assert_eq!(AccessibleId::Null.to_path(), "/org/a11y/atspi/accessible/null");
    assert_eq!(AccessibleId::Number(0).to_path(), "/org/a11y/atspi/accessible/0");
    assert_eq!(AccessibleId::Number(1203).to_path(), "/org/a11y/atspi/accessible/1203");
    assert_eq!(
        AccessibleId::Number(u64::MAX).to_path(),
        "/org/a11y/atspi/accessible/18446744073709551615"
    );
    assert_eq!(
        AccessibleId::Other("menu".to_string()).to_path(),
        "/org/a11y/atspi/accessible/menu"
    );
}

#[test]
fn identity_survives_the_way_to_a_proxy_and_back() {
    let ids = [
        AccessibleId::Root,
        AccessibleId::Null,
        AccessibleId::Number(0),
        AccessibleId::Number(9),
        AccessibleId::Number(10),
        AccessibleId::Number(4096),
        AccessibleId::Number(u64::MAX),
        AccessibleId::Other("menu_bar".to_string()),
    ];
    for id in ids {
        let primitive = AccessiblePrimitive { sender: ":1.23".to_string(), id };
        let (destination, path) = primitive.proxy_address();
        assert_eq!(destination, ":1.23");
        assert_eq!(AccessiblePrimitive::from_proxy(&destination, &path), Ok(primitive));
    }
}

#[test]
fn event_with_sender_and_path_gives_an_identity() {
    let made = AccessiblePrimitive::from_event::<()>(
        Ok(Some(":1.7".to_string())),
        Some("/org/a11y/atspi/accessible/5"),
    );
    match made {
        Ok(primitive) => {
            assert_eq!(primitive.sender, ":1.7");
            assert_eq!(primitive.id, AccessibleId::Number(5));
        }
        Err(e) => panic!("{e:?}"),
    }
}

#[test]
fn event_without_sender_fails_with_no_sender() {
    let made = AccessiblePrimitive::from_event::<()>(Ok(None), Some("/org/a11y/atspi/accessible/5"));
    assert!(matches!(
        made,
        Err(OdiliaError::PrimitiveConversionError(AccessiblePrimitiveConversionError::NoSender))
    ));
}

#[test]
fn event_whose_sender_cannot_be_read_fails_with_err_sender() {
    let made = AccessiblePrimitive::from_event(Err("broken"), None);
    assert!(matches!(
        made,
        Err(OdiliaError::PrimitiveConversionError(AccessiblePrimitiveConversionError::ErrSender))
    ));
}

#[test]
fn event_without_path_fails_with_no_path_id() {
    let made = AccessiblePrimitive::from_event::<()>(Ok(Some(":1.7".to_string())), None);
    assert!(matches!(
        made,
        Err(OdiliaError::PrimitiveConversionError(AccessiblePrimitiveConversionError::NoPathId))
    ));
}

#[test]
fn event_with_malformed_path_fails_with_path_parse() {
    let made = AccessiblePrimitive::from_event::<()>(Ok(Some(":1.7".to_string())), Some("/a//b"));
    assert!(matches!(
        made,
        Err(OdiliaError::PrimitiveConversionError(AccessiblePrimitiveConversionError::PathParse))
    ));
}

#[test]
fn pair_gives_an_identity_or_path_parse() {
    assert_eq!(
        AccessiblePrimitive::from_pair(":1.2".to_string(), "/org/a11y/atspi/accessible/root"),
        Ok(AccessiblePrimitive { sender: ":1.2".to_string(), id: AccessibleId::Root })
    );
    assert_eq!(
        AccessiblePrimitive::from_pair(":1.2".to_string(), "nowhere"),
        Err(AccessiblePrimitiveConversionError::PathParse)
    );
}

#[test]
fn proxy_without_an_id_is_refused_with_no_path_id() {
    assert_eq!(
        AccessiblePrimitive::from_proxy(":1.2", "/"),
        Err(AccessiblePrimitiveConversionError::NoPathId)
    );
}

#[test]
fn identities_are_equal_where_both_fields_are() {
    let a = AccessiblePrimitive { sender: ":1.2".to_string(), id: AccessibleId::Number(1) };
    let b = AccessiblePrimitive { sender: ":1.2".to_string(), id: AccessibleId::Number(1) };
    let c = AccessiblePrimitive { sender: ":1.3".to_string(), id: AccessibleId::Number(1) };
    let d = AccessiblePrimitive { sender: ":1.2".to_string(), id: AccessibleId::Number(2) };
    let e = AccessiblePrimitive { sender: ":1.2".to_string(), id: AccessibleId::Other("1".to_string()) };
    assert_eq!(a, b);
    assert_eq!(a, a.clone());
    assert_ne!(a, c);
    assert_ne!(a, d);
    assert_ne!(a, e);
    assert_ne!(AccessibleId::Root, AccessibleId::Null);
    assert_eq!(AccessibleId::Other("x".to_string()), AccessibleId::Other("x".to_string()));
    assert_ne!(AccessibleId::Other("x".to_string()), AccessibleId::Other("y".to_string()));
}

#[test]
fn identities_are_ordered_by_sender_then_id() {
    let a = AccessiblePrimitive { sender: ":1.2".to_string(), id: AccessibleId::Number(9) };
    let b = AccessiblePrimitive { sender: ":1.3".to_string(), id: AccessibleId::Root };
    let c = AccessiblePrimitive { sender: ":1.3".to_string(), id: AccessibleId::Number(1) };
    let d = AccessiblePrimitive { sender: ":1.3".to_string(), id: AccessibleId::Number(2) };
    assert!(a < b);
    assert!(b < c);
    assert!(c < d);
    let mut list = vec![d.clone(), b.clone(), a.clone(), c.clone()];
    list.sort();
    assert_eq!(list, vec![a, b, c, d]);
}

#[test]
fn ids_are_ordered_by_kind_then_value() {
    let ids = [
        AccessibleId::Root,
        AccessibleId::Null,
        AccessibleId::Number(0),
        AccessibleId::Number(2),
        AccessibleId::Number(10),
        AccessibleId::Other("".to_string()),
        AccessibleId::Other("a".to_string()),
        AccessibleId::Other("ab".to_string()),
        AccessibleId::Other("b".to_string()),
        AccessibleId::Other("é".to_string()),
    ];
    for i in 0..ids.len() {
        for j in 0..ids.len() {
            assert_eq!(ids[i].partial_cmp(&ids[j]), Some(i.cmp(&j)), "{:?} {:?}", ids[i], ids[j]);
            assert_eq!(ids[i].cmp(&ids[j]), i.cmp(&j));
            assert_eq!(ids[i] < ids[j], i < j);
        }
    }
}

#[test]
fn comparison_and_total_order_agree() {
    let senders = ["", ":1.10", ":1.2", ":1.2a", ":1.é", ":1.z", "z", "é", "\u{10000}", "\u{ffff}"];
    let ids = [AccessibleId::Root, AccessibleId::Number(3), AccessibleId::Other("x".to_string())];
    let mut all = Vec::new();
    for sender in senders {
        for id in &ids {
            all.push(AccessiblePrimitive { sender: sender.to_string(), id: id.clone() });
        }
    }
    for a in &all {
        for b in &all {
            assert_eq!(a.partial_cmp(b), Some(a.cmp(b)), "{a:?} {b:?}");
            assert_eq!(a == b, a.cmp(b) == std::cmp::Ordering::Equal);
        }
    }
    let a = AccessiblePrimitive { sender: ":1.2".to_string(), id: AccessibleId::Other("x".to_string()) };
    let b = AccessiblePrimitive { sender: ":1.2a".to_string(), id: AccessibleId::Root };
    assert_eq!(a.partial_cmp(&b), Some(std::cmp::Ordering::Less));
    assert_eq!(b.partial_cmp(&a), Some(std::cmp::Ordering::Greater));
    assert_eq!(a.partial_cmp(&a.clone()), Some(std::cmp::Ordering::Equal));
}
