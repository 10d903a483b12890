//! Match rules for the events that the screen reader listens to.

use vstd::prelude::*;
use crate::scalars::{scalars_of, string_of};

verus! {

/// The index of the first `:` of `s`, or the length of `s` where it has none.
pub open spec fn first_colon(s: Seq<char>) -> int
    decreases s.len(),
{
    if s.len() == 0 || s[0] == ':' {
        0
    } else {
        1 + first_colon(s.drop_first())
    }
}

/// What stands in front of the first `:` of `s`.
pub open spec fn first_component(s: Seq<char>) -> Seq<char> {
    s.take(first_colon(s))
}

/// What stands behind the first `:` of `s`.
pub open spec fn after_first_colon(s: Seq<char>) -> Seq<char> {
    s.skip(first_colon(s) + 1)
}

/// The bus match rule for the signals of an event that is named as
/// `Interface:Member` or `Interface:Member:Detail`.
pub open spec fn match_rule(event: Seq<char>) -> Seq<char> {
    "type='signal',interface='org.a11y.atspi.Event."@ + first_component(event) + "',member='"@
        + first_component(after_first_colon(event)) + "'"@
}

proof fn lemma_first_colon(s: Seq<char>, i: int)
    requires
        0 <= i <= s.len(),
        forall|j: int| 0 <= j < i ==> s[j] != ':',
    ensures
        first_colon(s) == i + first_colon(s.skip(i)),
        0 <= first_colon(s) <= s.len(),
    decreases i,
{
    if i == 0 {
        assert(s.skip(0) == s);
        lemma_first_colon_in_range(s);
    } else {
        lemma_first_colon(s.drop_first(), i - 1);
        assert(s.drop_first().skip(i - 1) == s.skip(i));
    }
}

proof fn lemma_first_colon_in_range(s: Seq<char>)
    ensures
        0 <= first_colon(s) <= s.len(),
    decreases s.len(),
{
    if s.len() > 0 && s[0] != ':' {
        lemma_first_colon_in_range(s.drop_first());
    }
}

/// The index of the first `:` at or behind `from`, or the length of `chars`.
fn find_colon(chars: &Vec<char>, from: usize) -> (at: usize)
    requires
        from <= chars.len(),
    ensures
        at == from + first_colon(chars@.skip(from as int)),
        from <= at <= chars.len(),
{
    let mut i: usize = from;
    while i < chars.len() && chars[i] != ':'
        invariant
            from <= i <= chars.len(),
            forall|j: int| from <= j < i ==> chars@[j] != ':',
        decreases chars.len() - i,
    {
        i += 1;
    }
    proof {
        let rest = chars@.skip(from as int);
        assert forall|j: int| 0 <= j < i - from implies rest[j] != ':' by {
            assert(rest[j] == chars@[from + j]);
        }
        lemma_first_colon(rest, i - from);
        let tail = rest.skip(i - from);
        if i < chars.len() {
            assert(tail[0] == chars@[i as int]);
        }
    }
    i
}

/// The match rule for an event.
///
/// An event name has at least an interface and a member, with a `:` between
/// them; what follows a second `:` does not count.
pub fn event_to_match_rule(event: &str) -> (rule: String)
    requires
        event@.contains(':'),
    ensures
        rule@ == match_rule(event@),
{
    let chars = scalars_of(event);
    let colon = find_colon(&chars, 0);
    proof {
        assert(chars@.skip(0) == chars@);
        if colon == chars.len() {
            let k = choose|k: int| 0 <= k < event@.len() && event@[k] == ':';
            lemma_no_colon_before(chars@, k);
        }
    }
    let end = find_colon(&chars, colon + 1);
    let mut rule = scalars_of("type='signal',interface='org.a11y.atspi.Event.");
    let mut i: usize = 0;
    while i < colon
        invariant
            i <= colon <= chars.len(),
            rule@ == "type='signal',interface='org.a11y.atspi.Event."@ + chars@.take(i as int),
        decreases colon - i,
    {
        rule.push(chars[i]);
        assert(chars@.take(i + 1) == chars@.take(i as int).push(chars@[i as int]));
        i += 1;
    }
    let mut infix = scalars_of("',member='");
    rule.append(&mut infix);
    let ghost head = rule@;
    let mut j: usize = colon + 1;
    while j < end
        invariant
            colon + 1 <= j <= end <= chars.len(),
            rule@ == head + chars@.subrange(colon + 1, j as int),
        decreases end - j,
    {
        rule.push(chars[j]);
        assert(chars@.subrange(colon + 1, j + 1) == chars@.subrange(colon + 1, j as int).push(
            chars@[j as int],
        ));
        j += 1;
    }
    let mut quote = scalars_of("'");
    rule.append(&mut quote);
    proof {
        let rest = chars@.skip(colon + 1);
        assert(rest.take(end - colon - 1) == chars@.subrange(colon + 1, end as int));
    }
    string_of(&rule)
}

proof fn lemma_no_colon_before(s: Seq<char>, k: int)
    requires
        0 <= k < s.len(),
        s[k] == ':',
    ensures
        first_colon(s) <= k,
    decreases k,
{
    if s[0] != ':' {
        lemma_no_colon_before(s.drop_first(), k - 1);
    }
}

} // verus!
