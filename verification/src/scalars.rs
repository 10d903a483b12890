//! Text as a buffer of Unicode scalars.
//!
//! Every offset that an accessibility event carries counts scalars, never
//! bytes. The functions of this crate that cut or join text therefore work on
//! `Vec<char>` and go back to a `String` at the end.

use vstd::prelude::*;

verus! {

/// The scalars of `s`, in order.
pub fn scalars_of(s: &str) -> (buffer: Vec<char>)
    ensures
        buffer@ == s@,
{
    let mut buffer: Vec<char> = Vec::new();
    for c in it: s.chars()
        invariant
            it.seq() == s@,
            buffer@ == it.seq().take(it.index() as int),
    {
        buffer.push(c);
    }
    buffer
}

/// Calls `Iterator::collect::<String>` of std on the scalars of `buffer`.
///
/// Not proved: that the string which comes back holds exactly those scalars,
/// in the same order.
#[verifier::external_body]
pub(crate) fn string_of(buffer: &Vec<char>) -> (s: String)
    ensures
        s@ == buffer@,
{
    buffer.iter().collect()
}

/// Whether two buffers hold the same scalars.
pub fn same_scalars(a: &Vec<char>, b: &Vec<char>) -> (same: bool)
    ensures
        same == (a@ == b@),
{
    if a.len() != b.len() {
        return false;
    }
    let mut i: usize = 0;
    while i < a.len()
        invariant
            a.len() == b.len(),
            i <= a.len(),
            a@.take(i as int) == b@.take(i as int),
        decreases a.len() - i,
    {
        if a[i] != b[i] {
            return false;
        }
        assert(a@.take(i + 1) == a@.take(i as int).push(a@[i as int]));
        assert(b@.take(i + 1) == b@.take(i as int).push(b@[i as int]));
        i += 1;
    }
    assert(a@.take(a.len() as int) == a@);
    assert(b@.take(b.len() as int) == b@);
    true
}

} // verus!
