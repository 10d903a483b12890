//! The identity of an accessible object: the bus name of the application that
//! owns it, and the id that ends its object path.

use vstd::prelude::*;
use vstd::std_specs::cmp::PartialEqSpecImpl;
use crate::errors::{AccessiblePrimitiveConversionError, OdiliaError};
use crate::scalars::{same_scalars, scalars_of, string_of};

verus! {

/// The trailing segment of the object path `/org/a11y/atspi/accessible/<id>`.
#[derive(Debug, Eq, Hash, Ord)]
pub enum AccessibleId {
    Root,
    Null,
    Number(u64),
    Other(String),
}

/// What an [`AccessibleId`] stands for.
pub enum AccessibleIdView {
    Root,
    Null,
    Number(u64),
    Other(Seq<char>),
}

impl View for AccessibleId {
    type V = AccessibleIdView;

    open spec fn view(&self) -> AccessibleIdView {
        match self {
            AccessibleId::Null => AccessibleIdView::Null,
            AccessibleId::Root => AccessibleIdView::Root,
            AccessibleId::Number(n) => AccessibleIdView::Number(*n),
            AccessibleId::Other(s) => AccessibleIdView::Other(s@),
        }
    }
}

impl Clone for AccessibleId {
    fn clone(&self) -> (copy: Self)
        ensures
            copy@ == self@,
    {
        match self {
            AccessibleId::Null => AccessibleId::Null,
            AccessibleId::Root => AccessibleId::Root,
            AccessibleId::Number(n) => AccessibleId::Number(*n),
            AccessibleId::Other(s) => AccessibleId::Other(s.clone()),
        }
    }
}

impl PartialEq for AccessibleId {
    fn eq(&self, other: &Self) -> (same: bool) {
        match (self, other) {
            (AccessibleId::Null, AccessibleId::Null) => true,
            (AccessibleId::Root, AccessibleId::Root) => true,
            (AccessibleId::Number(a), AccessibleId::Number(b)) => *a == *b,
            (AccessibleId::Other(a), AccessibleId::Other(b)) => *a == *b,
            _ => false,
        }
    }
}

impl PartialEqSpecImpl for AccessibleId {
    open spec fn obeys_eq_spec() -> bool {
        true
    }

    open spec fn eq_spec(&self, other: &Self) -> bool {
        self@ == other@
    }
}

/// The key under which the cache holds an object.
#[derive(Debug, Eq, Hash, Ord)]
pub struct AccessiblePrimitive {
    /// The unique bus name of the application, such as `:1.2`.
    pub sender: String,
    /// The id that ends the object's path.
    pub id: AccessibleId,
}

/// What an [`AccessiblePrimitive`] stands for.
pub struct Identity {
    pub sender: Seq<char>,
    pub id: AccessibleIdView,
}

impl View for AccessiblePrimitive {
    type V = Identity;

    open spec fn view(&self) -> Identity {
        Identity { sender: self.sender@, id: self.id@ }
    }
}

impl Clone for AccessiblePrimitive {
    fn clone(&self) -> (copy: Self)
        ensures
            copy@ == self@,
    {
        AccessiblePrimitive { sender: self.sender.clone(), id: self.id.clone() }
    }
}

impl PartialEq for AccessiblePrimitive {
    fn eq(&self, other: &Self) -> (same: bool) {
        self.sender == other.sender && self.id == other.id
    }
}

impl PartialEqSpecImpl for AccessiblePrimitive {
    open spec fn obeys_eq_spec() -> bool {
        true
    }

    open spec fn eq_spec(&self, other: &Self) -> bool {
        self@ == other@
    }
}

/// A character that may stand in an element of an object path.
pub open spec fn is_element_char(c: char) -> bool {
    ('a' <= c && c <= 'z') || ('A' <= c && c <= 'Z') || ('0' <= c && c <= '9') || c == '_'
}

/// Whether the character at `i` may stand where it does: a `/` only in front
/// of an element, anything else only inside one.
pub open spec fn well_placed(path: Seq<char>, i: int) -> bool {
    if path[i] == '/' {
        i + 1 < path.len() && is_element_char(path[i + 1])
    } else {
        is_element_char(path[i])
    }
}

/// Whether `path` is an object path of at least one element: elements of
/// letters, digits and `_`, each with a `/` in front of it.
pub open spec fn is_object_path(path: Seq<char>) -> bool {
    &&& path.len() >= 2
    &&& path[0] == '/'
    &&& forall|i: int| 0 <= i < path.len() ==> well_placed(path, i)
}

/// What follows the last `/` of `path`; all of `path` where it has none.
pub open spec fn trailing_segment(path: Seq<char>) -> Seq<char>
    decreases path.len(),
{
    if path.len() == 0 || path.last() == '/' {
        Seq::empty()
    } else {
        trailing_segment(path.drop_last()).push(path.last())
    }
}

pub open spec fn is_digit(c: char) -> bool {
    '0' <= c && c <= '9'
}

/// Whether `s` is a decimal numeral: one digit or more, and nothing else.
pub open spec fn is_numeral(s: Seq<char>) -> bool {
    s.len() > 0 && forall|i: int| 0 <= i < s.len() ==> is_digit(#[trigger] s[i])
}

/// The number that the digits of `s` write in base ten.
pub open spec fn decimal_value(s: Seq<char>) -> nat
    decreases s.len(),
{
    if s.len() == 0 {
        0
    } else {
        decimal_value(s.drop_last()) * 10 + ((s.last() as int - '0' as int) as nat)
    }
}

/// `n` in base ten, without leading zeros.
pub open spec fn decimal(n: nat) -> Seq<char>
    decreases n,
{
    if n < 10 {
        seq![('0' as int + n) as char]
    } else {
        decimal(n / 10).push(('0' as int + n % 10) as char)
    }
}

/// The id that a path's trailing segment names: `root`, `null`, a number that
/// fits 64 bits, or else the segment itself.
pub open spec fn id_of_segment(segment: Seq<char>) -> AccessibleIdView {
    if segment == "root"@ {
        AccessibleIdView::Root
    } else if segment == "null"@ {
        AccessibleIdView::Null
    } else if is_numeral(segment) && decimal_value(segment) <= u64::MAX {
        AccessibleIdView::Number(decimal_value(segment) as u64)
    } else {
        AccessibleIdView::Other(segment)
    }
}

/// The id of the object at `path`, where `path` is well formed.
pub open spec fn parse_path(path: Seq<char>) -> Option<AccessibleIdView> {
    if is_object_path(path) {
        Some(id_of_segment(trailing_segment(path)))
    } else {
        None
    }
}

/// The segment that writes `id` at the end of a path.
pub open spec fn segment_of(id: AccessibleIdView) -> Seq<char> {
    match id {
        AccessibleIdView::Root => "root"@,
        AccessibleIdView::Null => "null"@,
        AccessibleIdView::Number(n) => decimal(n as nat),
        AccessibleIdView::Other(s) => s,
    }
}

/// The object path of the object with this id.
pub open spec fn path_of(id: AccessibleIdView) -> Seq<char> {
    "/org/a11y/atspi/accessible/"@ + segment_of(id)
}

proof fn lemma_decimal_value_grows(s: Seq<char>, k: int)
    requires
        0 <= k <= s.len(),
        is_numeral(s),
    ensures
        decimal_value(s.take(k)) <= decimal_value(s),
    decreases s.len() - k,
{
    if k < s.len() {
        lemma_decimal_value_grows(s, k + 1);
        assert(s.take(k + 1).drop_last() == s.take(k));
        assert(is_digit(s[k]));
    } else {
        assert(s.take(k) == s);
    }
}

fn is_element(c: char) -> (yes: bool)
    ensures
        yes == is_element_char(c),
{
    ('a' <= c && c <= 'z') || ('A' <= c && c <= 'Z') || ('0' <= c && c <= '9') || c == '_'
}

fn digit_of(c: char) -> (d: u64)
    requires
        is_digit(c),
    ensures
        d == c as int - '0' as int,
        d <= 9,
{
    (c as u32 - '0' as u32) as u64
}

/// The number that `segment` writes, where it is a numeral whose value fits.
fn numeral_value(segment: &Vec<char>) -> (value: Option<u64>)
    ensures
        value == (if is_numeral(segment@) && decimal_value(segment@) <= u64::MAX {
            Some(decimal_value(segment@) as u64)
        } else {
            None
        }),
{
    if segment.len() == 0 {
        return None;
    }
    let mut acc: u64 = 0;
    let mut i: usize = 0;
    while i < segment.len()
        invariant
            i <= segment.len(),
            forall|j: int| 0 <= j < i ==> is_digit(#[trigger] segment@[j]),
            acc == decimal_value(segment@.take(i as int)),
        decreases segment.len() - i,
    {
        let c = segment[i];
        if !('0' <= c && c <= '9') {
            return None;
        }
        let d = digit_of(c);
        assert(segment@.take(i + 1).drop_last() == segment@.take(i as int));
        if acc > (u64::MAX - d) / 10 {
            proof {
                if is_numeral(segment@) {
                    lemma_decimal_value_grows(segment@, i + 1);
                }
            }
            return None;
        }
        acc = acc * 10 + d;
        i += 1;
    }
    assert(segment@.take(segment.len() as int) == segment@);
    Some(acc)
}

fn id_from_segment(segment: Vec<char>) -> (id: AccessibleId)
    ensures
        id@ == id_of_segment(segment@),
{
    let root = scalars_of("root");
    let null = scalars_of("null");
    if same_scalars(&segment, &root) {
        AccessibleId::Root
    } else if same_scalars(&segment, &null) {
        AccessibleId::Null
    } else {
        match numeral_value(&segment) {
            Some(n) => AccessibleId::Number(n),
            None => AccessibleId::Other(string_of(&segment)),
        }
    }
}

fn digit_char(d: u64) -> (c: char)
    requires
        d <= 9,
    ensures
        c == ('0' as int + d) as char,
{
    if d == 0 {
        '0'
    } else if d == 1 {
        '1'
    } else if d == 2 {
        '2'
    } else if d == 3 {
        '3'
    } else if d == 4 {
        '4'
    } else if d == 5 {
        '5'
    } else if d == 6 {
        '6'
    } else if d == 7 {
        '7'
    } else if d == 8 {
        '8'
    } else {
        '9'
    }
}

fn push_decimal(buffer: &mut Vec<char>, n: u64)
    ensures
        final(buffer)@ == old(buffer)@ + decimal(n as nat),
    decreases n,
{
    if n >= 10 {
        push_decimal(buffer, n / 10);
    }
    buffer.push(digit_char(n % 10));
}

impl AccessibleId {
    /// Reads the id off the end of an object path.
    ///
    /// Fails with `PathParse` exactly where `path` is no object path of at
    /// least one element.
    pub fn from_path(path: &str) -> (parsed: Result<AccessibleId, AccessiblePrimitiveConversionError>)
        ensures
            match parsed {
                Ok(id) => parse_path(path@) == Some(id@),
                Err(e) => parse_path(path@) is None
                    && e == AccessiblePrimitiveConversionError::PathParse,
            },
    {
        let mut chars = scalars_of(path);
        let n = chars.len();
        if n < 2 || chars[0] != '/' {
            return Err(AccessiblePrimitiveConversionError::PathParse);
        }
        let mut i: usize = 0;
        let mut start: usize = 0;
        while i < n
            invariant
                n == chars.len(),
                chars@ == path@,
                start <= i <= n,
                forall|j: int| 0 <= j < i ==> well_placed(chars@, j),
                trailing_segment(chars@.take(i as int)) == chars@.subrange(start as int, i as int),
            decreases n - i,
        {
            let c = chars[i];
            assert(chars@.take(i + 1).drop_last() == chars@.take(i as int));
            if c == '/' {
                if i + 1 >= n || !is_element(chars[i + 1]) {
                    assert(!well_placed(chars@, i as int));
                    return Err(AccessiblePrimitiveConversionError::PathParse);
                }
                start = i + 1;
            } else {
                if !is_element(c) {
                    assert(!well_placed(chars@, i as int));
                    return Err(AccessiblePrimitiveConversionError::PathParse);
                }
                assert(chars@.subrange(start as int, i + 1) == chars@.subrange(
                    start as int,
                    i as int,
                ).push(c));
            }
            i += 1;
        }
        assert(chars@.take(n as int) == chars@);
        let segment = chars.split_off(start);
        Ok(id_from_segment(segment))
    }

    /// The object path of the object with this id.
    pub fn to_path(&self) -> (path: String)
        ensures
            path@ == path_of(self@),
    {
        let mut buffer = scalars_of("/org/a11y/atspi/accessible/");
        match self {
            AccessibleId::Root => {
                let mut word = scalars_of("root");
                buffer.append(&mut word);
            },
            AccessibleId::Null => {
                let mut word = scalars_of("null");
                buffer.append(&mut word);
            },
            AccessibleId::Number(n) => {
                push_decimal(&mut buffer, *n);
            },
            AccessibleId::Other(s) => {
                let mut word = scalars_of(s.as_str());
                buffer.append(&mut word);
            },
        }
        string_of(&buffer)
    }
}

/// Why a bus message gives no identity: which of the things asked of it was
/// the first to be missing. A message that has a sender and a path fails only
/// on a malformed path.
pub open spec fn event_failure(
    sender_failed: bool,
    sender_missing: bool,
    path_missing: bool,
) -> AccessiblePrimitiveConversionError {
    if sender_failed {
        AccessiblePrimitiveConversionError::ErrSender
    } else if sender_missing {
        AccessiblePrimitiveConversionError::NoSender
    } else if path_missing {
        AccessiblePrimitiveConversionError::NoPathId
    } else {
        AccessiblePrimitiveConversionError::PathParse
    }
}

/// The identity of the object that a message with this sender and path is
/// about, where it has both and the path is well formed.
pub open spec fn event_identity<E>(sender: Result<Option<String>, E>, path: Option<&str>) -> Option<
    Identity,
> {
    match (sender, path) {
        (Ok(Some(name)), Some(text)) => match parse_path(text@) {
            Some(id) => Some(Identity { sender: name@, id }),
            None => None,
        },
        _ => None,
    }
}

impl AccessiblePrimitive {
    /// The identity of the object that a bus message is about.
    ///
    /// `sender` is what asking the message for its sender gave, `path` is the
    /// object path that the message carries, if it carries one.
    pub fn from_event<E>(sender: Result<Option<String>, E>, path: Option<&str>) -> (made: Result<
        AccessiblePrimitive,
        OdiliaError,
    >)
        ensures
            match made {
                Ok(primitive) => event_identity(sender, path) == Some(primitive@),
                Err(e) => event_identity(sender, path) is None
                    && e == OdiliaError::PrimitiveConversionError(
                    event_failure(sender is Err, sender matches Ok(None), path is None),
                ),
            },
    {
        let name = match sender {
            Ok(Some(s)) => s,
            Ok(None) => {
                return Err(
                    OdiliaError::PrimitiveConversionError(
                        AccessiblePrimitiveConversionError::NoSender,
                    ),
                );
            },
            Err(_) => {
                return Err(
                    OdiliaError::PrimitiveConversionError(
                        AccessiblePrimitiveConversionError::ErrSender,
                    ),
                );
            },
        };
        let path = match path {
            Some(path) => path,
            None => {
                return Err(
                    OdiliaError::PrimitiveConversionError(
                        AccessiblePrimitiveConversionError::NoPathId,
                    ),
                );
            },
        };
        match AccessibleId::from_path(path) {
            Ok(id) => Ok(AccessiblePrimitive { sender: name, id }),
            Err(e) => Err(OdiliaError::PrimitiveConversionError(e)),
        }
    }

    /// The identity that a bus name and an object path give together.
    pub fn from_pair(sender: String, path: &str) -> (made: Result<
        AccessiblePrimitive,
        AccessiblePrimitiveConversionError,
    >)
        ensures
            match made {
                Ok(primitive) => primitive.sender@ == sender@ && parse_path(path@) == Some(
                    primitive.id@,
                ),
                Err(e) => parse_path(path@) is None
                    && e == AccessiblePrimitiveConversionError::PathParse,
            },
    {
        match AccessibleId::from_path(path) {
            Ok(id) => Ok(AccessiblePrimitive { sender, id }),
            Err(e) => Err(e),
        }
    }

    /// The identity of the object behind a proxy that sends to `destination`
    /// and stands at `path`. A proxy whose path gives no id is refused with
    /// `NoPathId`.
    pub fn from_proxy(destination: &str, path: &str) -> (made: Result<
        AccessiblePrimitive,
        AccessiblePrimitiveConversionError,
    >)
        ensures
            match made {
                Ok(primitive) => primitive.sender@ == destination@ && parse_path(path@) == Some(
                    primitive.id@,
                ),
                Err(e) => parse_path(path@) is None
                    && e == AccessiblePrimitiveConversionError::NoPathId,
            },
    {
        match AccessibleId::from_path(path) {
            Ok(id) => Ok(AccessiblePrimitive { sender: destination.to_owned(), id }),
            Err(_) => Err(AccessiblePrimitiveConversionError::NoPathId),
        }
    }

    /// Where a proxy for this object has to point: the bus name to send to,
    /// and the object path.
    pub fn proxy_address(&self) -> (address: (String, String))
        ensures
            address.0@ == self.sender@,
            address.1@ == path_of(self.id@),
    {
        (self.sender.clone(), self.id.to_path())
    }
}

/// Whether an id is one that reading a path can give: `Other` holds a
/// non-empty element that is neither `root`, `null` nor a number that fits.
pub open spec fn is_canonical(id: AccessibleIdView) -> bool {
    match id {
        AccessibleIdView::Other(s) => {
            &&& s.len() > 0
            &&& forall|i: int| 0 <= i < s.len() ==> is_element_char(#[trigger] s[i])
            &&& id_of_segment(s) == id
        },
        _ => true,
    }
}

proof fn lemma_decimal_is_numeral(n: nat)
    ensures
        is_numeral(decimal(n)),
        decimal_value(decimal(n)) == n,
    decreases n,
{
    if n < 10 {
        assert(decimal(n).drop_last() == Seq::<char>::empty());
        assert(decimal_value(Seq::<char>::empty()) == 0);
    } else {
        lemma_decimal_is_numeral(n / 10);
        assert(decimal(n).drop_last() == decimal(n / 10));
    }
}

proof fn lemma_trailing_segment_of_join(head: Seq<char>, tail: Seq<char>)
    requires
        head.len() > 0,
        head.last() == '/',
        forall|i: int| 0 <= i < tail.len() ==> #[trigger] tail[i] != '/',
    ensures
        trailing_segment(head + tail) == tail,
    decreases tail.len(),
{
    if tail.len() == 0 {
        assert(head + tail == head);
    } else {
        lemma_trailing_segment_of_join(head, tail.drop_last());
        assert((head + tail).drop_last() == head + tail.drop_last());
        assert(tail.drop_last().push(tail.last()) == tail);
    }
}

/// An identity survives the way to a proxy and back: the path that is written
/// for an id reads as that id again.
pub proof fn lemma_path_round_trip(id: AccessibleIdView)
    requires
        is_canonical(id),
    ensures
        parse_path(path_of(id)) == Some(id),
{
    reveal_strlit("/org/a11y/atspi/accessible/");
    reveal_strlit("root");
    reveal_strlit("null");
    let head = "/org/a11y/atspi/accessible/"@;
    let tail = segment_of(id);
    let path = head + tail;
    match id {
        AccessibleIdView::Number(n) => {
            lemma_decimal_is_numeral(n as nat);
        },
        _ => {},
    }
    assert(tail.len() > 0);
    assert forall|i: int| 0 <= i < tail.len() implies is_element_char(#[trigger] tail[i]) by {
        match id {
            AccessibleIdView::Number(n) => {
                assert(is_digit(tail[i]));
            },
            _ => {},
        }
    }
    assert(is_element_char(tail[0]));
    assert forall|i: int| 0 <= i < path.len() implies well_placed(path, i) by {
        if i >= head.len() {
            assert(path[i] == tail[i - head.len()]);
            assert(is_element_char(tail[i - head.len()]));
        } else {
            assert(path[i] == head[i]);
            if i + 1 < head.len() {
                assert(path[i + 1] == head[i + 1]);
            } else {
                assert(path[i + 1] == tail[0]);
            }
        }
    }
    assert forall|i: int| 0 <= i < tail.len() implies #[trigger] tail[i] != '/' by {
        assert(is_element_char(tail[i]));
    }
    lemma_trailing_segment_of_join(head, tail);
    assert(id_of_segment(tail) == id) by {
        match id {
            AccessibleIdView::Number(n) => {
                assert(is_digit(tail[0]));
            },
            _ => {},
        }
    }
}

} // verus!
