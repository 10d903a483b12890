//! The order of identities: by sender first, then by id, each as in a
//! dictionary.

use std::cmp::Ordering;
use vstd::prelude::*;
use vstd::std_specs::cmp::PartialOrdSpecImpl;
use crate::identity::{AccessibleId, AccessibleIdView, AccessiblePrimitive, Identity};
use crate::scalars::scalars_of;

verus! {

/// Whether text `a` comes before text `b`: at the first place where they
/// differ `a` has the smaller scalar, or `a` ends there and `b` goes on.
pub open spec fn text_before(a: Seq<char>, b: Seq<char>) -> bool
    decreases a.len(),
{
    if b.len() == 0 {
        false
    } else if a.len() == 0 {
        true
    } else if a[0] != b[0] {
        a[0] < b[0]
    } else {
        text_before(a.drop_first(), b.drop_first())
    }
}

/// The place of an id's kind among the kinds: `Root`, `Null`, numbers, other
/// ids.
pub open spec fn id_rank(id: AccessibleIdView) -> int {
    match id {
        AccessibleIdView::Root => 0,
        AccessibleIdView::Null => 1,
        AccessibleIdView::Number(_) => 2,
        AccessibleIdView::Other(_) => 3,
    }
}

/// Whether id `a` comes before id `b`: its kind comes first, or both are
/// numbers and `a` is the smaller, or both are other ids and `a` comes first
/// as a text.
pub open spec fn id_before(a: AccessibleIdView, b: AccessibleIdView) -> bool {
    id_rank(a) < id_rank(b) || match (a, b) {
        (AccessibleIdView::Number(x), AccessibleIdView::Number(y)) => x < y,
        (AccessibleIdView::Other(s), AccessibleIdView::Other(t)) => text_before(s, t),
        _ => false,
    }
}

/// Whether identity `a` comes before identity `b`: its sender comes first,
/// or the senders are the same and its id comes first.
pub open spec fn identity_before(a: Identity, b: Identity) -> bool {
    text_before(a.sender, b.sender) || (a.sender == b.sender && id_before(a.id, b.id))
}

/// Of two texts exactly one of three holds: the first comes before the
/// second, they are the same, the second comes before the first.
pub proof fn lemma_text_order_is_total(a: Seq<char>, b: Seq<char>)
    ensures
        text_before(a, b) || a == b || text_before(b, a),
        !(text_before(a, b) && a == b),
        !(text_before(b, a) && a == b),
        !(text_before(a, b) && text_before(b, a)),
    decreases a.len(),
{
    if a.len() > 0 && b.len() > 0 && a[0] == b[0] {
        lemma_text_order_is_total(a.drop_first(), b.drop_first());
        if a.drop_first() == b.drop_first() {
            assert(a =~= seq![a[0]] + a.drop_first());
            assert(b =~= seq![b[0]] + b.drop_first());
        }
    } else if a.len() == 0 && b.len() == 0 {
        assert(a =~= b);
    }
}

/// Of two identities exactly one of three holds: the first comes before the
/// second, they are the same, the second comes before the first.
pub proof fn lemma_identity_order_is_total(a: Identity, b: Identity)
    ensures
        identity_before(a, b) || a == b || identity_before(b, a),
        !(identity_before(a, b) && a == b),
        !(identity_before(b, a) && a == b),
        !(identity_before(a, b) && identity_before(b, a)),
{
    lemma_text_order_is_total(a.sender, b.sender);
    match (a.id, b.id) {
        (AccessibleIdView::Other(s), AccessibleIdView::Other(t)) => {
            lemma_text_order_is_total(s, t);
        },
        _ => {},
    }
}

/// Text order is passed on: what comes before a text that comes before a
/// third comes before the third.
pub proof fn lemma_text_order_is_transitive(a: Seq<char>, b: Seq<char>, c: Seq<char>)
    requires
        text_before(a, b),
        text_before(b, c),
    ensures
        text_before(a, c),
    decreases a.len(),
{
    if a.len() > 0 && a[0] == b[0] && b[0] == c[0] {
        lemma_text_order_is_transitive(a.drop_first(), b.drop_first(), c.drop_first());
    }
}

/// The order of identities is passed on.
pub proof fn lemma_identity_order_is_transitive(a: Identity, b: Identity, c: Identity)
    requires
        identity_before(a, b),
        identity_before(b, c),
    ensures
        identity_before(a, c),
{
    lemma_text_order_is_total(a.sender, b.sender);
    lemma_text_order_is_total(b.sender, c.sender);
    if text_before(a.sender, b.sender) && text_before(b.sender, c.sender) {
        lemma_text_order_is_transitive(a.sender, b.sender, c.sender);
    }
    match (a.id, b.id, c.id) {
        (
            AccessibleIdView::Other(s),
            AccessibleIdView::Other(t),
            AccessibleIdView::Other(u),
        ) => {
            if text_before(s, t) && text_before(t, u) {
                lemma_text_order_is_transitive(s, t, u);
            }
        },
        _ => {},
    }
}

proof fn lemma_text_before_skips_common_prefix(a: Seq<char>, b: Seq<char>, k: int)
    requires
        0 <= k <= a.len(),
        k <= b.len(),
        a.take(k) == b.take(k),
    ensures
        text_before(a, b) == text_before(a.skip(k), b.skip(k)),
        (a == b) == (a.skip(k) == b.skip(k)),
    decreases k,
{
    if k == 0 {
        assert(a.skip(0) == a);
        assert(b.skip(0) == b);
    } else {
        assert(a[0] == a.take(k)[0]);
        assert(b[0] == b.take(k)[0]);
        assert(a.drop_first().take(k - 1) == a.take(k).drop_first());
        assert(b.drop_first().take(k - 1) == b.take(k).drop_first());
        lemma_text_before_skips_common_prefix(a.drop_first(), b.drop_first(), k - 1);
        assert(a.drop_first().skip(k - 1) == a.skip(k));
        assert(b.drop_first().skip(k - 1) == b.skip(k));
    }
    assert(a =~= a.take(k) + a.skip(k));
    assert(b =~= b.take(k) + b.skip(k));
}

/// How two texts stand to each other: -1 where the first comes before the
/// second, 0 where they are the same, 1 where the second comes first.
fn text_order(a: &str, b: &str) -> (side: i8)
    ensures
        side == -1 || side == 0 || side == 1,
        (side == -1) == text_before(a@, b@),
        (side == 0) == (a@ == b@),
        (side == 1) == text_before(b@, a@),
{
    let left = scalars_of(a);
    let right = scalars_of(b);
    let mut i: usize = 0;
    while i < left.len() && i < right.len() && left[i] == right[i]
        invariant
            i <= left.len(),
            i <= right.len(),
            left@.take(i as int) == right@.take(i as int),
        decreases left.len() - i,
    {
        assert(left@.take(i + 1) == left@.take(i as int).push(left@[i as int]));
        assert(right@.take(i + 1) == right@.take(i as int).push(right@[i as int]));
        i += 1;
    }
    proof {
        lemma_text_before_skips_common_prefix(left@, right@, i as int);
        lemma_text_before_skips_common_prefix(right@, left@, i as int);
        lemma_text_order_is_total(left@, right@);
        let rest_a = left@.skip(i as int);
        let rest_b = right@.skip(i as int);
        if i < left.len() {
            assert(rest_a[0] == left@[i as int]);
        }
        if i < right.len() {
            assert(rest_b[0] == right@[i as int]);
        }
        if i == left.len() && i == right.len() {
            assert(rest_a =~= rest_b);
        }
    }
    if i == left.len() {
        if i == right.len() {
            0
        } else {
            -1
        }
    } else if i == right.len() {
        1
    } else if left[i] < right[i] {
        -1
    } else {
        1
    }
}

/// How two ids stand to each other, as [`text_order`] says it of texts.
fn id_order(a: &AccessibleId, b: &AccessibleId) -> (side: i8)
    ensures
        side == -1 || side == 0 || side == 1,
        (side == -1) == id_before(a@, b@),
        (side == 0) == (a@ == b@),
        (side == 1) == id_before(b@, a@),
{
    match (a, b) {
        (AccessibleId::Root, AccessibleId::Root) => 0,
        (AccessibleId::Root, _) => -1,
        (AccessibleId::Null, AccessibleId::Root) => 1,
        (AccessibleId::Null, AccessibleId::Null) => 0,
        (AccessibleId::Null, _) => -1,
        (AccessibleId::Number(_), AccessibleId::Root) => 1,
        (AccessibleId::Number(_), AccessibleId::Null) => 1,
        (AccessibleId::Number(x), AccessibleId::Number(y)) => if *x < *y {
            -1
        } else if *x == *y {
            0
        } else {
            1
        },
        (AccessibleId::Number(_), AccessibleId::Other(_)) => -1,
        (AccessibleId::Other(s), AccessibleId::Other(t)) => text_order(s.as_str(), t.as_str()),
        (AccessibleId::Other(_), _) => 1,
    }
}

/// How two identities stand to each other, as [`text_order`] says it of
/// texts.
fn identity_order(a: &AccessiblePrimitive, b: &AccessiblePrimitive) -> (side: i8)
    ensures
        side == -1 || side == 0 || side == 1,
        (side == -1) == identity_before(a@, b@),
        (side == 0) == (a@ == b@),
        (side == 1) == identity_before(b@, a@),
{
    proof {
        lemma_text_order_is_total(a@.sender, b@.sender);
    }
    let by_sender = text_order(a.sender.as_str(), b.sender.as_str());
    if by_sender != 0 {
        by_sender
    } else {
        id_order(&a.id, &b.id)
    }
}

impl PartialOrd for AccessibleId {
    fn partial_cmp(&self, other: &Self) -> (order: Option<Ordering>) {
        let side = id_order(self, other);
        if side == -1 {
            Some(Ordering::Less)
        } else if side == 0 {
            Some(Ordering::Equal)
        } else {
            Some(Ordering::Greater)
        }
    }
}

impl PartialOrdSpecImpl for AccessibleId {
    open spec fn obeys_partial_cmp_spec() -> bool {
        true
    }

    open spec fn partial_cmp_spec(&self, other: &Self) -> Option<Ordering> {
        if self@ == other@ {
            Some(Ordering::Equal)
        } else if id_before(self@, other@) {
            Some(Ordering::Less)
        } else {
            Some(Ordering::Greater)
        }
    }
}

impl PartialOrd for AccessiblePrimitive {
    fn partial_cmp(&self, other: &Self) -> (order: Option<Ordering>) {
        let side = identity_order(self, other);
        if side == -1 {
            Some(Ordering::Less)
        } else if side == 0 {
            Some(Ordering::Equal)
        } else {
            Some(Ordering::Greater)
        }
    }
}

impl PartialOrdSpecImpl for AccessiblePrimitive {
    open spec fn obeys_partial_cmp_spec() -> bool {
        true
    }

    open spec fn partial_cmp_spec(&self, other: &Self) -> Option<Ordering> {
        if self@ == other@ {
            Some(Ordering::Equal)
        } else if identity_before(self@, other@) {
            Some(Ordering::Less)
        } else {
            Some(Ordering::Greater)
        }
    }
}

} // verus!
