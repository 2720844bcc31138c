//! The `json` crate behind contracts: reading documents from text and
//! writing them back.

use crate::value::{merged, Decimal, Doc, Members, Value};
use json::number::Number;
use json::JsonValue;
use vstd::prelude::*;

verus! {

/// `json::JsonValue`, a parsed value. Nothing of its inside is known here;
/// `json_doc` names the document it holds.
#[verifier::external_type_specification]
#[verifier::external_body]
pub struct ExJsonValue(json::JsonValue);

/// `json::Error`, the parser's error. It is only told apart from success.
#[verifier::external_type_specification]
#[verifier::external_body]
pub struct ExJsonError(json::Error);

/// `json::number::Number`, a decimal number. Documents carry it as it is;
/// `number_model` names what it holds.
#[verifier::external_type_specification]
#[verifier::external_body]
pub struct ExJsonNumber(json::number::Number);

/// What a `json::number::Number` holds.
pub uninterp spec fn number_model(n: Number) -> Decimal;

/// The document that a `json::JsonValue` holds.
pub uninterp spec fn json_doc(v: JsonValue) -> Doc;

/// The document that `json::parse` reads from `text`, if it reads one.
pub uninterp spec fn json_parsed(text: Seq<char>) -> Option<Doc>;

/// The most digits that the fraction of a number may have for its text to
/// be read as a document. The parser counts the digits of a fraction in
/// sixteen bits.
pub const DIGITS: usize = 32767;

/// Where a scan of a text stands: inside a string or not, there right after
/// a backslash or not; outside a string in the fraction of a number or not,
/// and how many digits of the fraction it has passed.
pub struct Scan {
    pub in_text: bool,
    pub escaped: bool,
    pub fraction: bool,
    pub run: nat,
}

/// Where a scan begins: outside any string and any number.
pub open spec fn scan_start() -> Scan {
    Scan { in_text: false, escaped: false, fraction: false, run: 0 }
}

/// Where a scan stands after the character `c`.
///
/// A quotation mark begins a string, and the next one that no backslash
/// stands before ends it. Outside strings a dot begins a fraction, which
/// lasts as long as digits follow.
pub open spec fn scan_step(at: Scan, c: char) -> Scan {
    if at.in_text {
        if at.escaped {
            Scan { in_text: true, escaped: false, fraction: false, run: 0 }
        } else if c == '\\' {
            Scan { in_text: true, escaped: true, fraction: false, run: 0 }
        } else if c == '"' {
            scan_start()
        } else {
            at
        }
    } else if c == '"' {
        Scan { in_text: true, escaped: false, fraction: false, run: 0 }
    } else if c == '.' {
        Scan { in_text: false, escaped: false, fraction: true, run: 0 }
    } else if crate::text::is_digit(c) {
        if at.fraction {
            Scan { in_text: false, escaped: false, fraction: true, run: at.run + 1 }
        } else {
            at
        }
    } else {
        scan_start()
    }
}

/// Whether no fraction from position `from` on has more than `DIGITS`
/// digits, where the scan stands at `at` before that position.
pub open spec fn runs_fit(text: Seq<char>, from: int, at: Scan) -> bool
    decreases text.len() - from,
{
    if from < 0 || from >= text.len() {
        true
    } else {
        scan_step(at, text[from]).run <= DIGITS && runs_fit(
            text,
            from + 1,
            scan_step(at, text[from]),
        )
    }
}

/// Whether a text can be handed to the parser: outside its strings no dot
/// is followed by more than `DIGITS` digits.
pub open spec fn readable(text: Seq<char>) -> bool {
    runs_fit(text, 0, scan_start())
}

/// The document that a text holds: what the parser reads from it, if the
/// text can be handed to the parser.
pub open spec fn parsed(text: Seq<char>) -> Option<Doc> {
    if readable(text) {
        json_parsed(text)
    } else {
        None
    }
}

/// The text that `json::stringify_pretty` writes for a document.
pub uninterp spec fn pretty_text(doc: Doc, spaces: u16) -> Seq<char>;

/// The text that `Display` writes for a `json::JsonValue` holding a document.
pub uninterp spec fn shown(doc: Doc) -> Seq<char>;

/// What a document becomes when it is stored in a `json::JsonValue`: within
/// each mapping a key that is bound again keeps its place and takes the later
/// value.
pub open spec fn settled(doc: Doc) -> Doc
    decreases doc,
{
    match doc {
        Doc::Array(items) => Doc::Array(settled_items(items)),
        Doc::Object(members) => Doc::Object(merged(Seq::empty(), settled_members(members))),
        other => other,
    }
}

/// The items of a list, each as it is stored.
pub open spec fn settled_items(items: Seq<Doc>) -> Seq<Doc>
    decreases items,
{
    Seq::new(
        items.len(),
        |i: int|
            if 0 <= i < items.len() {
                settled(items[i])
            } else {
                Doc::Null
            },
    )
}

/// The bindings of a mapping, each value as it is stored.
pub open spec fn settled_members(members: Members) -> Members
    decreases members,
{
    Seq::new(
        members.len(),
        |i: int|
            if 0 <= i < members.len() {
                (members[i].0, settled(members[i].1))
            } else {
                (Seq::empty(), Doc::Null)
            },
    )
}

/// `Number::as_parts` and `Number::is_nan`: the sign, mantissa and exponent
/// of a number, and whether it is none.
#[verifier::external_body]
pub(crate) fn number_parts(n: &Number) -> (r: Decimal)
    ensures
        r == number_model(*n),
{
    let (positive, mantissa, exponent) = n.as_parts();
    Decimal { nan: n.is_nan(), positive, mantissa, exponent }
}

/// `Number::from(u32)`: a positive number with the integer as mantissa and
/// exponent zero.
#[verifier::external_body]
pub(crate) fn number_from_u32(n: u32) -> (r: Number)
    ensures
        number_model(r) == Decimal::unsigned(n),
{
    Number::from(n)
}

/// `Number::from(i64)`: the sign of the integer, its magnitude as mantissa,
/// and exponent zero. The least integer, which has no magnitude of its own
/// type, is left out.
#[verifier::external_body]
pub(crate) fn number_from_i64(n: i64) -> (r: Number)
    requires
        n > i64::MIN,
    ensures
        number_model(r) == Decimal::integer(n as int),
{
    Number::from(n)
}

/// `json::parse`: the value read from `text`, or the parser's error. Texts
/// with a fraction of so many digits that the parser's count of them would
/// overflow are left out.
#[verifier::external_body]
pub(crate) fn parse_json(text: &str) -> (r: Result<JsonValue, json::Error>)
    requires
        readable(text@),
    ensures
        r is Ok == json_parsed(text@) is Some,
        r is Ok ==> json_doc(r->Ok_0) == json_parsed(text@)->0,
{
    json::parse(text)
}

/// Takes a `json::JsonValue` apart, variant by variant, into a document of
/// this library. Both string variants become a string.
#[verifier::external_body]
pub(crate) fn from_json(v: &JsonValue) -> (r: Value)
    ensures
        r@ == json_doc(*v),
{
    match v {
        JsonValue::Null => Value::Null,
        JsonValue::Boolean(b) => Value::Boolean(*b),
        JsonValue::Number(n) => Value::Number(*n),
        JsonValue::Short(s) => Value::Text(s.as_str().to_string()),
        JsonValue::String(s) => Value::Text(s.clone()),
        JsonValue::Array(a) => Value::Array(a.iter().map(from_json).collect()),
        JsonValue::Object(o) => Value::Object(
            o.iter().map(|(k, m)| (k.to_string(), from_json(m))).collect(),
        ),
    }
}

/// Builds a `json::JsonValue` from a document, variant by variant. A mapping
/// is filled through `Object::insert`, which overwrites a key that is bound
/// again.
#[verifier::external_body]
pub(crate) fn to_json(v: &Value) -> (r: JsonValue)
    ensures
        json_doc(r) == settled(v@),
{
    match v {
        Value::Null => JsonValue::Null,
        Value::Boolean(b) => JsonValue::Boolean(*b),
        Value::Number(n) => JsonValue::Number(*n),
        Value::Text(s) => JsonValue::String(s.clone()),
        Value::Array(a) => JsonValue::Array(a.iter().map(to_json).collect()),
        Value::Object(m) => JsonValue::Object(
            m.iter().map(|(k, x)| (k.as_str(), to_json(x))).collect(),
        ),
    }
}

/// How deep a document is nested: how many lists and mappings that are not
/// empty stand inside each other, at most.
pub open spec fn depth(doc: Doc) -> nat
    decreases doc, 0nat,
{
    match doc {
        Doc::Array(items) => if items.len() == 0 {
            0
        } else {
            1 + deepest_item(items, items.len())
        },
        Doc::Object(members) => if members.len() == 0 {
            0
        } else {
            1 + deepest_member(members, members.len())
        },
        _ => 0,
    }
}

/// The depth of the deepest of the first `n` items of a list.
pub open spec fn deepest_item(items: Seq<Doc>, n: nat) -> nat
    decreases items, n,
{
    if n == 0 || n > items.len() {
        0
    } else {
        proof {
            assert(decreases_to!(items => items[n - 1]));
        }
        let before = deepest_item(items, (n - 1) as nat);
        let this = depth(items[n - 1]);
        if this > before {
            this
        } else {
            before
        }
    }
}

/// The depth of the deepest value among the first `n` bindings of a mapping.
pub open spec fn deepest_member(members: Members, n: nat) -> nat
    decreases members, n,
{
    if n == 0 || n > members.len() {
        0
    } else {
        proof {
            assert(decreases_to!(members => members[n - 1]));
        }
        let before = deepest_member(members, (n - 1) as nat);
        let this = depth(members[n - 1].1);
        if this > before {
            this
        } else {
            before
        }
    }
}

/// Whether a document can be written out with an indent of `spaces`: the
/// writer counts the depth, and the spaces at the start of a line, in sixteen
/// bits.
pub open spec fn indentable(doc: Doc, spaces: u16) -> bool {
    depth(doc) <= u16::MAX && spaces * depth(doc) <= u16::MAX
}

/// Bindings whose values are all flat have no depth among them.
pub proof fn flat_members(members: Members, n: nat)
    requires
        forall|i: int| 0 <= i < members.len() ==> depth((#[trigger] members[i]).1) == 0,
    ensures
        deepest_member(members, n) == 0,
    decreases n,
{
    if !(n == 0 || n > members.len()) {
        flat_members(members, (n - 1) as nat);
    }
}

/// `json::stringify_pretty`: the value written out with the given indent.
/// Documents so deep, or indents so wide, that the writer's count of the
/// spaces at the start of a line would overflow are left out.
#[verifier::external_body]
pub(crate) fn pretty_json(v: JsonValue, spaces: u16) -> (r: String)
    requires
        indentable(json_doc(v), spaces),
    ensures
        r@ == pretty_text(json_doc(v), spaces),
{
    json::stringify_pretty(v, spaces)
}

/// `Display` of `json::JsonValue`, through `to_string`.
#[verifier::external_body]
pub(crate) fn show_json(v: &JsonValue) -> (r: String)
    ensures
        r@ == shown(json_doc(*v)),
{
    v.to_string()
}

/// Why a text is no document.
#[derive(Clone, Copy, Debug, PartialEq, Eq, Structural)]
pub enum ParseError {
    /// The text holds a number whose fraction has too many digits to be
    /// read.
    LongNumber,
    /// The text is not well-formed.
    Syntax,
}

/// Whether no fraction in a text has more than `DIGITS` digits.
pub fn is_readable(text: &str) -> (r: bool)
    ensures
        r == readable(text@),
{
    let s = crate::text::chars_of(text);
    let mut in_text = false;
    let mut escaped = false;
    let mut fraction = false;
    let mut run: usize = 0;
    let mut i: usize = 0;
    while i < s.len()
        invariant
            i <= s.len(),
            s@ == text@,
            run <= DIGITS,
            in_text ==> !fraction,
            !in_text ==> !escaped,
            !fraction ==> run == 0,
            readable(text@) == runs_fit(
                text@,
                i as int,
                Scan { in_text, escaped, fraction, run: run as nat },
            ),
        decreases s.len() - i,
    {
        let c = s[i];
        if in_text {
            if escaped {
                escaped = false;
            } else if c == '\\' {
                escaped = true;
            } else if c == '"' {
                in_text = false;
            }
            fraction = false;
            run = 0;
        } else if c == '"' {
            in_text = true;
            escaped = false;
            fraction = false;
            run = 0;
        } else if c == '.' {
            fraction = true;
            run = 0;
        } else if c >= '0' && c <= '9' {
            if fraction {
                if run >= DIGITS {
                    return false;
                }
                run += 1;
            }
        } else {
            fraction = false;
            run = 0;
        }
        i += 1;
    }
    true
}

/// Reads a document from `text`.
pub fn parse(text: &str) -> (r: Result<Value, ParseError>)
    ensures
        r is Ok == parsed(text@) is Some,
        r is Ok ==> r->Ok_0@ == parsed(text@)->0,
        r == Err::<Value, ParseError>(ParseError::LongNumber) <==> !readable(text@),
{
    if !is_readable(text) {
        return Err(ParseError::LongNumber);
    }
    match parse_json(text) {
        Ok(v) => Ok(from_json(&v)),
        Err(_) => Err(ParseError::Syntax),
    }
}

/// How a document is written where a text is wanted: a string as it is,
/// anything else in its compact form.
pub open spec fn display(doc: Doc) -> Seq<char> {
    match doc {
        Doc::Text(s) => s,
        other => shown(settled(other)),
    }
}

/// Writes a document where a text is wanted.
pub fn show(v: &Value) -> (r: String)
    ensures
        r@ == display(v@),
{
    match v {
        Value::Text(s) => s.clone(),
        _ => {
            let j = to_json(v);
            show_json(&j)
        },
    }
}

/// Writes a document out over several lines, indented by `spaces` for each
/// level of its depth, which has to fit in sixteen bits.
pub fn pretty(v: &Value, spaces: u16) -> (r: String)
    requires
        indentable(settled(v@), spaces),
    ensures
        r@ == pretty_text(settled(v@), spaces),
{
    pretty_json(to_json(v), spaces)
}

} // verus!
