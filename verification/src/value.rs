//! Documents: trees of scalars, ordered arrays and ordered mappings.

use crate::codec::{number_from_i64, number_from_u32, number_model, number_parts};
use crate::text::same;
use json::number::Number;
use vstd::prelude::*;

verus! {

/// The model of a number: `mantissa * 10^exponent`, negated unless
/// `positive`; or not a number at all.
#[derive(Clone, Copy, Debug, PartialEq, Eq, Structural)]
pub struct Decimal {
    pub nan: bool,
    pub positive: bool,
    pub mantissa: u64,
    pub exponent: i16,
}

impl Decimal {
    /// The model of the integer `n`: its sign, and its magnitude as mantissa.
    pub open spec fn integer(n: int) -> Decimal {
        Decimal {
            nan: false,
            positive: n >= 0,
            mantissa: (if n >= 0 {
                n
            } else {
                -n
            }) as u64,
            exponent: 0,
        }
    }

    /// The model of the unsigned integer `n`.
    pub open spec fn unsigned(n: u32) -> Decimal {
        Decimal::integer(n as int)
    }

    /// The model of the signed integer `n`.
    pub open spec fn signed(n: i32) -> Decimal {
        Decimal::integer(n as int)
    }
}

/// The members of a mapping, in order.
pub type Members = Seq<(Seq<char>, Doc)>;

/// The mathematical model of a document.
pub enum Doc {
    Null,
    Boolean(bool),
    Number(Decimal),
    Text(Seq<char>),
    Array(Seq<Doc>),
    Object(Members),
}

/// The first position at or after `from` whose key is `key`, or the length
/// of `members` if there is none.
pub open spec fn key_at(members: Members, key: Seq<char>, from: int) -> int
    decreases members.len() - from,
{
    if from >= members.len() {
        members.len() as int
    } else if members[from].0 == key {
        from
    } else {
        key_at(members, key, from + 1)
    }
}

/// A key is found at or after the place the search starts from, and within
/// the list or at its end.
pub proof fn key_in_range(members: Members, key: Seq<char>, from: int)
    requires
        0 <= from <= members.len(),
    ensures
        from <= key_at(members, key, from) <= members.len(),
        key_at(members, key, from) < members.len() ==> members[key_at(members, key, from)].0
            == key,
    decreases members.len() - from,
{
    if from < members.len() && members[from].0 != key {
        key_in_range(members, key, from + 1);
    }
}

/// Where `key` stands in `members`; the length of `members` if it is absent.
pub open spec fn position(members: Members, key: Seq<char>) -> int {
    key_at(members, key, 0)
}

/// `members` with `key` bound to `value`: an existing binding is overwritten
/// in place, a new one is added at the end.
pub open spec fn put(members: Members, key: Seq<char>, value: Doc) -> Members {
    let at = position(members, key);
    if at < members.len() {
        members.update(at, (key, value))
    } else {
        members.push((key, value))
    }
}

/// `into` with every binding of `from` put into it, in order.
pub open spec fn merged(into: Members, from: Members) -> Members
    decreases from.len(),
{
    if from.len() == 0 {
        into
    } else {
        put(merged(into, from.drop_last()), from.last().0, from.last().1)
    }
}

/// Whether no key is bound twice in a list of bindings.
pub open spec fn distinct_keys(members: Members) -> bool {
    forall|i: int, j: int| 0 <= i < j < members.len() ==> members[i].0 != members[j].0
}

/// A key that no binding has is looked for in vain.
pub proof fn key_is_absent(members: Members, key: Seq<char>, from: int)
    requires
        0 <= from <= members.len(),
        forall|i: int| from <= i < members.len() ==> (#[trigger] members[i]).0 != key,
    ensures
        key_at(members, key, from) == members.len(),
    decreases members.len() - from,
{
    if from < members.len() {
        key_is_absent(members, key, from + 1);
    }
}

/// Bindings with distinct keys, put into none, are those bindings.
pub proof fn merged_of_distinct(members: Members)
    requires
        distinct_keys(members),
    ensures
        merged(Seq::empty(), members) == members,
    decreases members.len(),
{
    if members.len() > 0 {
        let front = members.drop_last();
        merged_of_distinct(front);
        key_is_absent(front, members.last().0, 0);
        assert(front.push(members.last()) =~= members);
    } else {
        assert(members =~= Seq::empty());
    }
}

proof fn absent_key_is_nowhere(members: Members, key: Seq<char>, from: int)
    requires
        0 <= from <= members.len(),
        key_at(members, key, from) >= members.len(),
    ensures
        forall|i: int| from <= i < members.len() ==> (#[trigger] members[i]).0 != key,
    decreases members.len() - from,
{
    if from < members.len() {
        absent_key_is_nowhere(members, key, from + 1);
    }
}

/// Binding a key keeps the keys of a list of bindings distinct.
pub proof fn put_keeps_distinct(members: Members, key: Seq<char>, value: Doc)
    requires
        distinct_keys(members),
    ensures
        distinct_keys(put(members, key, value)),
{
    key_in_range(members, key, 0);
    let at = position(members, key);
    let new = put(members, key, value);
    if at < members.len() {
        assert forall|i: int, j: int| 0 <= i < j < new.len() implies new[i].0 != new[j].0 by {
            assert(new[i].0 == members[i].0);
            assert(new[j].0 == members[j].0);
        }
    } else {
        absent_key_is_nowhere(members, key, 0);
        assert forall|i: int, j: int| 0 <= i < j < new.len() implies new[i].0 != new[j].0 by {
            assert(new[i] == members[i]);
            if j < members.len() {
                assert(new[j] == members[j]);
            }
        }
    }
}

/// Merging keeps the keys of a list of bindings distinct.
pub proof fn merged_keeps_distinct(into: Members, from: Members)
    requires
        distinct_keys(into),
    ensures
        distinct_keys(merged(into, from)),
    decreases from.len(),
{
    if from.len() > 0 {
        merged_keeps_distinct(into, from.drop_last());
        put_keeps_distinct(merged(into, from.drop_last()), from.last().0, from.last().1);
    }
}

/// Whether `members` binds `key` to `value`.
pub open spec fn binds(members: Members, key: Seq<char>, value: Doc) -> bool {
    position(members, key) < members.len() && members[position(members, key)].1 == value
}

proof fn search_after_update(members: Members, at: int, value: Doc, key: Seq<char>, from: int)
    requires
        0 <= at < members.len(),
        0 <= from <= members.len(),
    ensures
        key_at(members.update(at, (members[at].0, value)), key, from) == key_at(members, key, from),
    decreases members.len() - from,
{
    let new = members.update(at, (members[at].0, value));
    if from < members.len() {
        assert(new[from].0 == members[from].0);
        if members[from].0 != key {
            search_after_update(members, at, value, key, from + 1);
        }
    }
}

proof fn search_after_push(members: Members, added: (Seq<char>, Doc), key: Seq<char>, from: int)
    requires
        0 <= from <= members.len(),
    ensures
        key_at(members.push(added), key, from) == (if key_at(members, key, from) < members.len() {
            key_at(members, key, from)
        } else if added.0 == key {
            members.len() as int
        } else {
            (members.len() + 1) as int
        }),
    decreases members.len() - from,
{
    let new = members.push(added);
    if from < members.len() {
        assert(new[from] == members[from]);
        if members[from].0 != key {
            search_after_push(members, added, key, from + 1);
        }
    } else {
        assert(new[from] == added);
        assert(key_at(new, key, from + 1) == new.len());
    }
}

/// After a key is bound, it is bound to what it was bound to.
pub proof fn put_binds(members: Members, key: Seq<char>, value: Doc)
    ensures
        binds(put(members, key, value), key, value),
{
    key_in_range(members, key, 0);
    let at = position(members, key);
    if at < members.len() {
        search_after_update(members, at, value, key, 0);
    } else {
        search_after_push(members, (key, value), key, 0);
    }
}

/// Binding a key leaves the bindings of all other keys as they are.
pub proof fn put_keeps_others(
    members: Members,
    key: Seq<char>,
    value: Doc,
    other: Seq<char>,
    bound: Doc,
)
    requires
        other != key,
        binds(members, other, bound),
    ensures
        binds(put(members, key, value), other, bound),
{
    key_in_range(members, key, 0);
    key_in_range(members, other, 0);
    let at = position(members, key);
    if at < members.len() {
        search_after_update(members, at, value, other, 0);
    } else {
        search_after_push(members, (key, value), other, 0);
    }
}

/// Binding a key to what it is bound to already changes nothing.
pub proof fn put_again(members: Members, key: Seq<char>, value: Doc)
    requires
        binds(members, key, value),
    ensures
        put(members, key, value) == members,
{
    key_in_range(members, key, 0);
    assert(members.update(position(members, key), (key, value)) =~= members);
}

/// After bindings with distinct keys are merged in, each of them holds.
pub proof fn merged_binds(into: Members, from: Members, i: int)
    requires
        distinct_keys(from),
        0 <= i < from.len(),
    ensures
        binds(merged(into, from), from[i].0, from[i].1),
    decreases from.len(),
{
    let front = from.drop_last();
    if i == from.len() - 1 {
        put_binds(merged(into, front), from.last().0, from.last().1);
    } else {
        assert(front[i] == from[i]);
        merged_binds(into, front, i);
        put_keeps_others(merged(into, front), from.last().0, from.last().1, from[i].0, from[i].1);
    }
}

/// Merging in bindings that all hold already changes nothing.
pub proof fn merged_again(into: Members, from: Members)
    requires
        forall|i: int| 0 <= i < from.len() ==> binds(into, (#[trigger] from[i]).0, from[i].1),
    ensures
        merged(into, from) == into,
    decreases from.len(),
{
    if from.len() > 0 {
        let front = from.drop_last();
        assert forall|i: int| 0 <= i < front.len() implies binds(
            into,
            (#[trigger] front[i]).0,
            front[i].1,
        ) by {
            assert(front[i] == from[i]);
        }
        merged_again(into, front);
        assert(from.last() == from[from.len() - 1]);
        put_again(into, from.last().0, from.last().1);
    }
}

/// Merging is idempotent: bindings with distinct keys that are merged in a
/// second time change nothing.
pub proof fn merge_is_idempotent(into: Members, from: Members)
    requires
        distinct_keys(from),
    ensures
        merged(merged(into, from), from) == merged(into, from),
{
    assert forall|i: int| 0 <= i < from.len() implies binds(
        merged(into, from),
        (#[trigger] from[i]).0,
        from[i].1,
    ) by {
        merged_binds(into, from, i);
    }
    merged_again(merged(into, from), from);
}

/// `members` without the binding of `key`, if it has one.
pub open spec fn without(members: Members, key: Seq<char>) -> Members {
    let at = position(members, key);
    if at < members.len() {
        members.remove(at)
    } else {
        members
    }
}

impl Doc {
    /// The bindings of a mapping; none for any other document.
    pub open spec fn entries(self) -> Members {
        match self {
            Doc::Object(members) => members,
            _ => Seq::empty(),
        }
    }

    /// The items of an array; none for any other document.
    pub open spec fn members(self) -> Seq<Doc> {
        match self {
            Doc::Array(items) => items,
            _ => Seq::empty(),
        }
    }

    /// Whether this is a mapping that binds `key`.
    pub open spec fn has_key(self, key: Seq<char>) -> bool {
        position(self.entries(), key) < self.entries().len()
    }

    /// What `key` is bound to; `Null` if this is no mapping or does not bind it.
    pub open spec fn get(self, key: Seq<char>) -> Doc {
        if self.has_key(key) {
            self.entries()[position(self.entries(), key)].1
        } else {
            Doc::Null
        }
    }

    /// Whether this is an array with an item that is the string `s`.
    pub open spec fn lists(self, s: Seq<char>) -> bool {
        exists|i: int| 0 <= i < self.members().len() && #[trigger] self.members()[i] == Doc::Text(s)
    }

    /// The unsigned 32-bit integer this document holds, if it is a
    /// non-negative number without exponent that fits.
    pub open spec fn as_u32(self) -> Option<u32> {
        match self {
            Doc::Number(n) => if n.positive && n.exponent == 0 && n.mantissa <= u32::MAX {
                Some(n.mantissa as u32)
            } else {
                None
            },
            _ => None,
        }
    }

    /// The signed 32-bit integer this document holds, if it is a number
    /// without exponent whose signed value fits.
    pub open spec fn as_i32(self) -> Option<i32> {
        match self {
            Doc::Number(n) => if n.exponent == 0 && n.positive && n.mantissa <= i32::MAX {
                Some(n.mantissa as i32)
            } else if n.exponent == 0 && !n.positive && n.mantissa <= -(i32::MIN as int) {
                Some((-(n.mantissa as int)) as i32)
            } else {
                None
            },
            _ => None,
        }
    }

    /// The item at position `i` of an array; `Null` for any other document,
    /// and beyond the end.
    pub open spec fn at(self, i: int) -> Doc {
        if 0 <= i < self.members().len() {
            self.members()[i]
        } else {
            Doc::Null
        }
    }

    /// Whether this document counts as empty: null, `false`, zero, what is no
    /// number, the empty string, the empty list and the empty mapping do.
    pub open spec fn is_empty(self) -> bool {
        match self {
            Doc::Null => true,
            Doc::Boolean(b) => !b,
            Doc::Number(n) => n.mantissa == 0 || n.nan,
            Doc::Text(s) => s.len() == 0,
            Doc::Array(items) => items.len() == 0,
            Doc::Object(members) => members.len() == 0,
        }
    }

    /// The string this document is, if it is one.
    pub open spec fn as_text(self) -> Option<Seq<char>> {
        match self {
            Doc::Text(s) => Some(s),
            _ => None,
        }
    }
}

/// A document: a tree of scalars, ordered arrays and ordered mappings.
#[derive(Debug, PartialEq)]
pub enum Value {
    Null,
    Boolean(bool),
    Number(Number),
    Text(String),
    Array(Vec<Value>),
    Object(Vec<(String, Value)>),
}

/// The model of a list of bindings.
pub open spec fn members_view(members: Seq<(String, Value)>) -> Members {
    Seq::new(members.len(), |i: int| (members[i].0@, members[i].1@))
}

/// The model of a list of documents.
pub open spec fn items_view(items: Seq<Value>) -> Seq<Doc> {
    Seq::new(items.len(), |i: int| items[i]@)
}

/// The model of a document.
pub open spec fn doc_of(value: Value) -> Doc
    decreases value,
{
    match value {
        Value::Null => Doc::Null,
        Value::Boolean(b) => Doc::Boolean(b),
        Value::Number(n) => Doc::Number(number_model(n)),
        Value::Text(s) => Doc::Text(s@),
        Value::Array(items) => Doc::Array(
            Seq::new(
                items.len() as nat,
                |i: int|
                    if 0 <= i < items.len() {
                        doc_of(items[i])
                    } else {
                        Doc::Null
                    },
            ),
        ),
        Value::Object(members) => Doc::Object(
            Seq::new(
                members.len() as nat,
                |i: int|
                    if 0 <= i < members.len() {
                        (members[i].0@, doc_of(members[i].1))
                    } else {
                        (Seq::empty(), Doc::Null)
                    },
            ),
        ),
    }
}

impl View for Value {
    type V = Doc;

    open spec fn view(&self) -> Doc {
        doc_of(*self)
    }
}

/// The model of an array is the list of its items' models.
pub proof fn array_view(items: Vec<Value>)
    ensures
        Value::Array(items)@ == Doc::Array(items_view(items@)),
{
    let a = Value::Array(items)@->Array_0;
    assert(a.len() == items@.len());
    assert forall|i: int| 0 <= i < a.len() implies a[i] == items_view(items@)[i] by {
        assert(a[i] == items[i]@);
    }
    assert(a =~= items_view(items@));
}

/// The model of a mapping is the list of its bindings' models.
pub proof fn object_view(members: Vec<(String, Value)>)
    ensures
        Value::Object(members)@ == Doc::Object(members_view(members@)),
{
    assert(Value::Object(members)@->Object_0 =~= members_view(members@));
}

/// Finds the binding of `key` in a list of bindings.
pub fn find_key(members: &Vec<(String, Value)>, key: &str) -> (at: usize)
    ensures
        at == position(members_view(members@), key@),
        at <= members.len(),
{
    let mut i: usize = 0;
    while i < members.len()
        invariant
            i <= members.len(),
            position(members_view(members@), key@) == key_at(
                members_view(members@),
                key@,
                i as int,
            ),
        decreases members.len() - i,
    {
        if same(members[i].0.as_str(), key) {
            return i;
        }
        i += 1;
    }
    i
}

impl Value {
    /// Whether this is a mapping.
    pub fn is_object(&self) -> (r: bool)
        ensures
            r == (self@ is Object),
    {
        match self {
            Value::Object(_) => true,
            _ => false,
        }
    }

    /// Whether this is an array.
    pub fn is_array(&self) -> (r: bool)
        ensures
            r == (self@ is Array),
    {
        match self {
            Value::Array(_) => true,
            _ => false,
        }
    }

    /// Whether this is null.
    pub fn is_null(&self) -> (r: bool)
        ensures
            r == (self@ is Null),
    {
        match self {
            Value::Null => true,
            _ => false,
        }
    }

    /// The string this document is, if it is one.
    pub fn as_str(&self) -> (r: Option<&str>)
        ensures
            r is Some == self@.as_text() is Some,
            r is Some ==> r->0@ == self@.as_text()->0,
    {
        match self {
            Value::Text(s) => Some(s.as_str()),
            _ => None,
        }
    }

    /// Whether this document is the string `s`.
    pub fn is_text(&self, s: &str) -> (r: bool)
        ensures
            r == (self@ == Doc::Text(s@)),
    {
        match self {
            Value::Text(t) => same(t.as_str(), s),
            _ => false,
        }
    }

    /// Whether this document is the boolean `true`.
    pub fn is_true(&self) -> (r: bool)
        ensures
            r == (self@ == Doc::Boolean(true)),
    {
        match self {
            Value::Boolean(b) => *b,
            _ => false,
        }
    }

    /// The unsigned 32-bit integer this document holds, if any.
    pub fn as_u32(&self) -> (r: Option<u32>)
        ensures
            r == self@.as_u32(),
    {
        match self {
            Value::Number(number) => {
                let n = number_parts(number);
                if n.positive && n.exponent == 0 && n.mantissa <= 0xffff_ffff {
                    Some(n.mantissa as u32)
                } else {
                    None
                }
            },
            _ => None,
        }
    }

    /// The signed 32-bit integer this document holds, if any.
    pub fn as_i32(&self) -> (r: Option<i32>)
        ensures
            r == self@.as_i32(),
    {
        match self {
            Value::Number(number) => {
                let n = number_parts(number);
                if n.exponent == 0 && n.positive && n.mantissa <= 0x7fff_ffff {
                    Some(n.mantissa as i32)
                } else if n.exponent == 0 && !n.positive && n.mantissa <= 0x8000_0000 {
                    Some((-(n.mantissa as i64)) as i32)
                } else {
                    None
                }
            },
            _ => None,
        }
    }

    /// The bindings of a mapping; none for any other document.
    pub fn entries(&self) -> (r: &[(String, Value)])
        ensures
            members_view(r@) == self@.entries(),
    {
        match self {
            Value::Object(members) => {
                proof {
                    object_view(*members);
                }
                members.as_slice()
            },
            _ => {
                let empty: &[(String, Value)] = &[];
                assert(members_view(empty@) =~= Seq::empty());
                empty
            },
        }
    }

    /// The items of an array; none for any other document.
    pub fn members(&self) -> (r: &[Value])
        ensures
            items_view(r@) == self@.members(),
    {
        match self {
            Value::Array(items) => {
                proof {
                    array_view(*items);
                }
                items.as_slice()
            },
            _ => {
                let empty: &[Value] = &[];
                assert(items_view(empty@) =~= Seq::empty());
                empty
            },
        }
    }

    /// Whether this is a mapping that binds `key`.
    pub fn has_key(&self, key: &str) -> (r: bool)
        ensures
            r == self@.has_key(key@),
    {
        match self {
            Value::Object(members) => {
                proof {
                    object_view(*members);
                }
                find_key(members, key) < members.len()
            },
            _ => false,
        }
    }

    /// What `key` is bound to, if this is a mapping that binds it.
    pub fn get(&self, key: &str) -> (r: Option<&Value>)
        ensures
            r is Some == self@.has_key(key@),
            r is Some ==> r->0@ == self@.get(key@),
            r is None ==> self@.get(key@) == Doc::Null,
    {
        match self {
            Value::Object(members) => {
                proof {
                    object_view(*members);
                }
                let at = find_key(members, key);
                if at < members.len() {
                    Some(&members[at].1)
                } else {
                    None
                }
            },
            _ => None,
        }
    }

    /// The item at position `i`, if this is an array that long.
    pub fn at(&self, i: usize) -> (r: Option<&Value>)
        ensures
            r is Some == (i < self@.members().len()),
            r matches Some(item) ==> item@ == self@.at(i as int),
            r is None ==> self@.at(i as int) == Doc::Null,
    {
        let items = self.members();
        assert(self@.members().len() == items@.len()) by {
            assert(items_view(items@).len() == items@.len());
        }
        if i < items.len() {
            assert(self@.members()[i as int] == items@[i as int]@);
            Some(&items[i])
        } else {
            None
        }
    }

    /// Whether this document counts as empty.
    pub fn is_empty(&self) -> (r: bool)
        ensures
            r == self@.is_empty(),
    {
        match self {
            Value::Null => true,
            Value::Boolean(b) => !*b,
            Value::Number(number) => {
                let n = number_parts(number);
                n.mantissa == 0 || n.nan
            },
            Value::Text(s) => s.as_str().unicode_len() == 0,
            Value::Array(items) => {
                proof {
                    array_view(*items);
                }
                items.len() == 0
            },
            Value::Object(members) => {
                proof {
                    object_view(*members);
                }
                members.len() == 0
            },
        }
    }

    /// Whether this is an array with an item that is the string `s`.
    pub fn lists(&self, s: &str) -> (r: bool)
        ensures
            r == self@.lists(s@),
    {
        let items = self.members();
        let mut i: usize = 0;
        while i < items.len()
            invariant
                i <= items.len(),
                items_view(items@) == self@.members(),
                forall|j: int| 0 <= j < i ==> self@.members()[j] != Doc::Text(s@),
            decreases items.len() - i,
        {
            if items[i].is_text(s) {
                assert(self@.members()[i as int] == items@[i as int]@);
                return true;
            }
            assert(self@.members()[i as int] == items@[i as int]@);
            i += 1;
        }
        false
    }

    /// The document that is the unsigned integer `n`.
    pub fn from_u32(n: u32) -> (r: Value)
        ensures
            r@ == Doc::Number(Decimal::unsigned(n)),
            r@.as_u32() == Some(n),
    {
        Value::Number(number_from_u32(n))
    }

    /// The document that is the signed integer `n`.
    pub fn from_i32(n: i32) -> (r: Value)
        ensures
            r@ == Doc::Number(Decimal::signed(n)),
            r@.as_i32() == Some(n),
    {
        Value::Number(number_from_i64(n as i64))
    }

    /// The document that is the string `s`.
    pub fn from_text(s: &str) -> (r: Value)
        ensures
            r@ == Doc::Text(s@),
    {
        Value::Text(String::from_str(s))
    }

    /// A copy of this document.
    #[verifier::loop_isolation(false)]
    pub fn copy(&self) -> (r: Value)
        ensures
            r@ == self@,
        decreases self,
    {
        match self {
            Value::Null => Value::Null,
            Value::Boolean(b) => Value::Boolean(*b),
            Value::Number(n) => Value::Number(*n),
            Value::Text(s) => Value::Text(s.clone()),
            Value::Array(items) => {
                let mut out: Vec<Value> = Vec::new();
                let mut i: usize = 0;
                while i < items.len()
                    invariant
                        i <= items.len(),
                        out.len() == i,
                        forall|j: int| 0 <= j < i ==> out@[j]@ == items@[j]@,
                    decreases items.len() - i,
                {
                    out.push(items[i].copy());
                    i += 1;
                }
                proof {
                    array_view(*items);
                    array_view(out);
                    assert(items_view(out@) =~= items_view(items@));
                }
                Value::Array(out)
            },
            Value::Object(members) => {
                let mut out: Vec<(String, Value)> = Vec::new();
                let mut i: usize = 0;
                while i < members.len()
                    invariant
                        i <= members.len(),
                        out.len() == i,
                        forall|j: int|
                            0 <= j < i ==> out@[j].0@ == members@[j].0@ && out@[j].1@
                                == members@[j].1@,
                    decreases members.len() - i,
                {
                    out.push((members[i].0.clone(), members[i].1.copy()));
                    i += 1;
                }
                proof {
                    object_view(*members);
                    object_view(out);
                    assert(members_view(out@) =~= members_view(members@));
                }
                Value::Object(out)
            },
        }
    }
}

impl Clone for Value {
    fn clone(&self) -> (r: Value)
        ensures
            r@ == self@,
    {
        self.copy()
    }
}

/// Binds `key` to `value` in a list of bindings: an existing binding is
/// overwritten in place, a new one is added at the end.
pub fn put_member(members: &mut Vec<(String, Value)>, key: &str, value: Value)
    ensures
        members_view(final(members)@) == put(members_view(old(members)@), key@, value@),
{
    let at = find_key(members, key);
    if at < members.len() {
        members[at] = (String::from_str(key), value);
        assert(members_view(members@) =~= put(members_view(old(members)@), key@, value@));
    } else {
        members.push((String::from_str(key), value));
        assert(members_view(members@) =~= put(members_view(old(members)@), key@, value@));
    }
}

/// A copy of a list of bindings without the binding of `key`, if it has one.
pub fn drop_member(members: &Vec<(String, Value)>, key: &str) -> (r: Vec<(String, Value)>)
    ensures
        members_view(r@) == without(members_view(members@), key@),
{
    let at = find_key(members, key);
    let mut out: Vec<(String, Value)> = Vec::new();
    let mut i: usize = 0;
    while i < members.len()
        invariant
            i <= members.len(),
            at <= members.len(),
            out.len() == (if i <= at {
                i as int
            } else {
                i - 1
            }),
            forall|j: int|
                0 <= j < i && j < at ==> (#[trigger] out@[j]).0@ == members@[j].0@ && out@[j].1@
                    == members@[j].1@,
            forall|j: int|
                at < j < i ==> (#[trigger] out@[j - 1]).0@ == members@[j].0@ && out@[j - 1].1@
                    == members@[j].1@,
        decreases members.len() - i,
    {
        if i != at {
            out.push((members[i].0.clone(), members[i].1.copy()));
        }
        i += 1;
    }
    proof {
        let all = members_view(members@);
        if at < members.len() {
            assert forall|j: int| 0 <= j < out.len() implies members_view(out@)[j] == all.remove(
                at as int,
            )[j] by {
                if j >= at {
                    assert(out@[(j + 1) - 1] == out@[j]);
                }
            }
            assert(members_view(out@) =~= all.remove(at as int));
        } else {
            assert(members_view(out@) =~= all);
        }
    }
    out
}

/// Puts a copy of every binding of `from` into `into`, in order.
pub fn merge_members(into: &mut Vec<(String, Value)>, from: &[(String, Value)])
    ensures
        members_view(final(into)@) == merged(members_view(old(into)@), members_view(from@)),
{
    let mut i: usize = 0;
    while i < from.len()
        invariant
            i <= from.len(),
            members_view(into@) == merged(
                members_view(old(into)@),
                members_view(from@).take(i as int),
            ),
        decreases from.len() - i,
    {
        let value = from[i].1.copy();
        put_member(into, from[i].0.as_str(), value);
        proof {
            let all = members_view(from@);
            assert(all.take(i + 1).drop_last() =~= all.take(i as int));
            assert(all.take(i + 1).last() == all[i as int]);
        }
        i += 1;
    }
    assert(members_view(from@).take(from.len() as int) =~= members_view(from@));
}

} // verus!
