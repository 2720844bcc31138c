//! Configuration documents: composition through links and substitution of
//! the configuration directory.

use crate::codec::{parse, parsed};
use crate::paths::{ext_of, extension, file_stem, join, joined, stem_of};
use crate::text::{
    before, contains, occurs, opt_text, or_empty, order_is_total, order_is_transitive, replace,
    replaced, same, text_before, text_or_empty,
};
use crate::value::{
    array_view, items_view, members_view, merge_members, merged, object_view, put, put_member,
    Doc, Members, Value,
};
use vstd::prelude::*;

verus! {

/// The key whose value names documents to merge into the one that holds it.
pub open spec fn link_key() -> Seq<char> {
    "$link"@
}

/// The text that stands for the configuration directory in a string.
pub open spec fn token() -> Seq<char> {
    "$(configs)$"@
}

/// The model of a list of lookups: for each path what was found there, if
/// anything.
pub type Found = Seq<(Seq<char>, Option<Seq<char>>)>;

/// What is known of `path`, going by the first lookup of it at or after
/// `from`: nothing, that nothing was found, or what was found.
pub open spec fn looked_up(list: Found, path: Seq<char>, from: int) -> Option<Option<Seq<char>>>
    decreases list.len() - from,
{
    if from < 0 || from >= list.len() {
        None
    } else if list[from].0 == path {
        Some(list[from].1)
    } else {
        looked_up(list, path, from + 1)
    }
}

/// What the resolution of a document rests on: the configuration directory,
/// the text of each file that was read (none for a file that cannot be read),
/// the canonical form of each path that was asked for (none for a path that
/// has none, such as one that does not exist), and the absolute form of each
/// path that was asked for.
pub struct Setting {
    pub config: Seq<char>,
    pub files: Found,
    pub canonical: Found,
    pub absolute: Found,
}

/// Something that must be looked up before resolution can go on.
pub enum NeedView {
    /// The text of the file at this path.
    File(Seq<char>),
    /// The canonical form of this path.
    Canonical(Seq<char>),
    /// The absolute form of this path.
    Absolute(Seq<char>),
}

/// A string leaf after substitution: where it holds the token, the token is
/// replaced by the absolute form of the configuration directory and the path
/// that results is made canonical if it can be.
pub open spec fn substituted(env: Setting, s: Seq<char>) -> Result<Seq<char>, NeedView> {
    if occurs(s, token()) {
        match looked_up(env.absolute, env.config, 0) {
            None => Err(NeedView::Absolute(env.config)),
            Some(found) => {
                let path = replaced(s, token(), root_of(env.config, found));
                match looked_up(env.canonical, path, 0) {
                    None => Err(NeedView::Canonical(path)),
                    Some(None) => Ok(path),
                    Some(Some(canonical)) => Ok(canonical),
                }
            },
        }
    } else {
        Ok(s)
    }
}

/// The configuration directory as it is substituted: its absolute form, or
/// the directory as it was named if it has none.
pub open spec fn root_of(config: Seq<char>, absolute: Option<Seq<char>>) -> Seq<char> {
    match absolute {
        Some(root) => root,
        None => config,
    }
}

/// A scalar after resolution: strings are substituted, anything else stays.
pub open spec fn scalar(env: Setting, doc: Doc) -> Result<Doc, NeedView> {
    match doc {
        Doc::Text(s) => match substituted(env, s) {
            Ok(t) => Ok(Doc::Text(t)),
            Err(need) => Err(need),
        },
        other => Ok(other),
    }
}

/// The paths that the value of a link names: the items of a list, or the
/// value alone.
pub open spec fn link_paths(value: Doc) -> Seq<Doc> {
    match value {
        Doc::Array(items) => items,
        other => seq![other],
    }
}

/// What a binding that is no mapping, and no list under an ordinary key,
/// resolves to: for a link the bindings that the documents it names
/// contribute; for any other key the one binding of the key to the value,
/// substituted where it is a string.
pub open spec fn value_resolved(env: Setting, key: Seq<char>, value: Doc, budget: nat) -> Result<
    Members,
    NeedView,
>
    decreases budget, 2int, value, 0nat,
{
    if key == link_key() {
        links_upto(env, value, link_paths(value).len(), budget)
    } else {
        match scalar(env, value) {
            Ok(resolved) => Ok(seq![(key, resolved)]),
            Err(need) => Err(need),
        }
    }
}

/// The first `n` bindings of a mapping, resolved with `budget` levels of
/// links to go; no bindings for a document that is no mapping.
///
/// A binding to a mapping is resolved in itself; one to a list, under any key
/// but the link key, item by item; what any other binding resolves to is
/// merged into the bindings before it.
pub open spec fn dict_upto(env: Setting, doc: Doc, n: nat, budget: nat) -> Result<
    Members,
    NeedView,
>
    decreases budget, 2int, doc, n,
{
    match doc {
        Doc::Object(entries) => if n == 0 || n > entries.len() {
            Ok(Seq::empty())
        } else {
            match dict_upto(env, doc, (n - 1) as nat, budget) {
                Err(need) => Err(need),
                Ok(acc) => {
                    let key = entries[n - 1].0;
                    let value = entries[n - 1].1;
                    match value {
                        Doc::Object(inner) => match dict_upto(env, value, inner.len(), budget) {
                            Ok(resolved) => Ok(put(acc, key, Doc::Object(resolved))),
                            Err(need) => Err(need),
                        },
                        Doc::Array(items) if key != link_key() => match list_upto(
                            env,
                            value,
                            items.len(),
                            budget,
                        ) {
                            Ok(resolved) => Ok(put(acc, key, Doc::Array(resolved))),
                            Err(need) => Err(need),
                        },
                        _ => match value_resolved(env, key, value, budget) {
                            Ok(more) => Ok(merged(acc, more)),
                            Err(need) => Err(need),
                        },
                    }
                },
            }
        },
        _ => Ok(Seq::empty()),
    }
}

/// The first `n` items of a list, resolved: mappings and lists in
/// themselves, scalars by substitution; no items for a document that is no
/// list.
pub open spec fn list_upto(env: Setting, doc: Doc, n: nat, budget: nat) -> Result<
    Seq<Doc>,
    NeedView,
>
    decreases budget, 2int, doc, n,
{
    match doc {
        Doc::Array(items) => if n == 0 || n > items.len() {
            Ok(Seq::empty())
        } else {
            match list_upto(env, doc, (n - 1) as nat, budget) {
                Err(need) => Err(need),
                Ok(acc) => {
                    let item = items[n - 1];
                    match item {
                        Doc::Object(inner) => match dict_upto(env, item, inner.len(), budget) {
                            Ok(resolved) => Ok(acc.push(Doc::Object(resolved))),
                            Err(need) => Err(need),
                        },
                        Doc::Array(inner) => match list_upto(env, item, inner.len(), budget) {
                            Ok(resolved) => Ok(acc.push(Doc::Array(resolved))),
                            Err(need) => Err(need),
                        },
                        _ => match scalar(env, item) {
                            Ok(resolved) => Ok(acc.push(resolved)),
                            Err(need) => Err(need),
                        },
                    }
                },
            }
        },
        _ => Ok(Seq::empty()),
    }
}

/// What one path of a link contributes: the resolved bindings of the
/// document it names.
///
/// A path that is no string, names a file that cannot be read, or names a
/// text that is no mapping, contributes nothing; so does one that is reached
/// with no level of links left.
pub open spec fn link_contribution(env: Setting, path: Doc, budget: nat) -> Result<
    Members,
    NeedView,
>
    decreases budget, 0int, path, 0nat,
{
    match path {
        Doc::Text(name) => {
            let file = joined(env.config, name);
            match looked_up(env.files, file, 0) {
                None => Err(NeedView::File(file)),
                Some(None) => Ok(Seq::empty()),
                Some(Some(text)) => match parsed(text) {
                    Some(Doc::Object(entries)) => if budget == 0 {
                        Ok(Seq::empty())
                    } else {
                        dict_upto(env, Doc::Object(entries), entries.len(), (budget - 1) as nat)
                    },
                    _ => Ok(Seq::empty()),
                },
            }
        },
        _ => Ok(Seq::empty()),
    }
}

/// What the first `n` paths of a link with the value `value` contribute:
/// what each contributes, merged in order.
pub open spec fn links_upto(env: Setting, value: Doc, n: nat, budget: nat) -> Result<
    Members,
    NeedView,
>
    decreases budget, 1int, value, n,
{
    if n == 0 || n > link_paths(value).len() {
        Ok(Seq::empty())
    } else {
        match links_upto(env, value, (n - 1) as nat, budget) {
            Err(need) => Err(need),
            Ok(acc) => match link_contribution(env, link_paths(value)[n - 1], budget) {
                Ok(linked) => Ok(merged(acc, linked)),
                Err(need) => Err(need),
            },
        }
    }
}

/// A mapping resolved: all its bindings. A document that is no mapping
/// resolves to the empty mapping.
pub open spec fn resolved_dict(env: Setting, doc: Doc, budget: nat) -> Result<Doc, NeedView> {
    match dict_upto(env, doc, doc.entries().len(), budget) {
        Ok(members) => Ok(Doc::Object(members)),
        Err(need) => Err(need),
    }
}

/// A list resolved: all its items. A document that is no list resolves to
/// the empty list.
pub open spec fn resolved_list(env: Setting, doc: Doc, budget: nat) -> Result<Doc, NeedView> {
    match list_upto(env, doc, doc.members().len(), budget) {
        Ok(items) => Ok(Doc::Array(items)),
        Err(need) => Err(need),
    }
}

/// One lookup: a path, and what was found there, if anything.
#[derive(Debug, PartialEq, Eq)]
pub struct Lookup {
    pub path: String,
    pub found: Option<String>,
}

/// What has been looked up so far: the text of files, and the canonical and
/// the absolute form of paths. Of two lookups of one path the first counts.
#[derive(Debug, PartialEq, Eq)]
pub struct Known {
    pub files: Vec<Lookup>,
    pub canonical: Vec<Lookup>,
    pub absolute: Vec<Lookup>,
}

/// Something that must be looked up before resolution can go on.
#[derive(Debug, PartialEq, Eq)]
pub enum Need {
    /// The text of the file at this path.
    File(String),
    /// The canonical form of this path.
    Canonical(String),
    /// The absolute form of this path.
    Absolute(String),
}

impl View for Need {
    type V = NeedView;

    open spec fn view(&self) -> NeedView {
        match self {
            Need::File(path) => NeedView::File(path@),
            Need::Canonical(path) => NeedView::Canonical(path@),
            Need::Absolute(path) => NeedView::Absolute(path@),
        }
    }
}

/// The model of a list of lookups.
pub open spec fn found_view(list: Seq<Lookup>) -> Found {
    Seq::new(
        list.len(),
        |i: int|
            (
                list[i].path@,
                match list[i].found {
                    Some(text) => Some(text@),
                    None => None,
                },
            ),
    )
}

/// The setting that a configuration directory and a set of lookups make.
pub open spec fn setting(config: Seq<char>, known: Known) -> Setting {
    Setting {
        config,
        files: found_view(known.files@),
        canonical: found_view(known.canonical@),
        absolute: found_view(known.absolute@),
    }
}

/// What is known of `path` in a list of lookups.
pub fn lookup<'a>(list: &'a Vec<Lookup>, path: &str) -> (r: Option<&'a Option<String>>)
    ensures
        r is Some == looked_up(found_view(list@), path@, 0) is Some,
        r matches Some(found) ==> looked_up(found_view(list@), path@, 0) == Some(
            opt_text(*found),
        ),
{
    let mut i: usize = 0;
    while i < list.len()
        invariant
            i <= list.len(),
            looked_up(found_view(list@), path@, 0) == looked_up(found_view(list@), path@, i as int),
        decreases list.len() - i,
    {
        if same(list[i].path.as_str(), path) {
            return Some(&list[i].found);
        }
        i += 1;
    }
    None
}

/// A string leaf after substitution.
pub fn substitute(config: &str, s: &str, known: &Known) -> (r: Result<String, Need>)
    ensures
        r matches Ok(t) ==> substituted(setting(config@, *known), s@) == Ok::<
            Seq<char>,
            NeedView,
        >(t@),
        r matches Err(need) ==> substituted(setting(config@, *known), s@) == Err::<
            Seq<char>,
            NeedView,
        >(need@),
{
    if contains(s, "$(configs)$") {
        let root = match lookup(&known.absolute, config) {
            None => {
                return Err(Need::Absolute(String::from_str(config)));
            },
            Some(Some(root)) => root.as_str(),
            Some(None) => config,
        };
        let path = replace(s, "$(configs)$", root);
        match lookup(&known.canonical, path.as_str()) {
            None => Err(Need::Canonical(path)),
            Some(None) => Ok(path),
            Some(Some(canonical)) => Ok(canonical.clone()),
        }
    } else {
        Ok(String::from_str(s))
    }
}

/// A scalar after resolution.
pub fn resolve_scalar(config: &str, value: &Value, known: &Known) -> (r: Result<Value, Need>)
    ensures
        r matches Ok(v) ==> scalar(setting(config@, *known), value@) == Ok::<Doc, NeedView>(v@),
        r matches Err(need) ==> scalar(setting(config@, *known), value@) == Err::<Doc, NeedView>(
            need@,
        ),
{
    match value {
        Value::Text(s) => match substitute(config, s.as_str(), known) {
            Ok(t) => Ok(Value::Text(t)),
            Err(need) => Err(need),
        },
        other => Ok(other.copy()),
    }
}

/// Why a file holds no configuration document.
#[derive(Clone, Copy, Debug, PartialEq, Eq, Structural)]
pub enum ConfigError {
    /// The file cannot be read.
    Unreadable,
    /// The text of the file is no document.
    Syntax,
    /// The document is no mapping.
    NotObject,
}

/// The configuration document that a file holds, where `text` is the text of
/// the file, or nothing for a file that cannot be read.
pub open spec fn document(text: Option<Seq<char>>) -> Result<Doc, ConfigError> {
    match text {
        None => Err(ConfigError::Unreadable),
        Some(text) => match parsed(text) {
            None => Err(ConfigError::Syntax),
            Some(Doc::Object(members)) => Ok(Doc::Object(members)),
            Some(_) => Err(ConfigError::NotObject),
        },
    }
}

/// Reads the configuration document of a file from its text.
pub fn load_dict(text: &Option<String>) -> (r: Result<Value, ConfigError>)
    ensures
        r matches Ok(doc) ==> document(opt_text(*text)) == Ok::<Doc, ConfigError>(doc@),
        r matches Err(e) ==> document(opt_text(*text)) == Err::<Doc, ConfigError>(e),
{
    let text = match text {
        Some(text) => text,
        None => {
            return Err(ConfigError::Unreadable);
        },
    };
    match parse(text.as_str()) {
        Err(_) => Err(ConfigError::Syntax),
        Ok(doc) => {
            if doc.is_object() {
                Ok(doc)
            } else {
                Err(ConfigError::NotObject)
            }
        },
    }
}

/// Once the resolution of a mapping's bindings has stopped at a need, it stays
/// stopped there.
pub proof fn dict_stops(env: Setting, doc: Doc, n: nat, m: nat, budget: nat)
    requires
        n <= m <= doc.entries().len(),
        dict_upto(env, doc, n, budget) is Err,
    ensures
        dict_upto(env, doc, m, budget) == dict_upto(env, doc, n, budget),
    decreases m,
{
    if n < m {
        dict_stops(env, doc, n, (m - 1) as nat, budget);
    }
}

/// Once the resolution of a list's items has stopped at a need, it stays
/// stopped there.
pub proof fn list_stops(env: Setting, doc: Doc, n: nat, m: nat, budget: nat)
    requires
        n <= m <= doc.members().len(),
        list_upto(env, doc, n, budget) is Err,
    ensures
        list_upto(env, doc, m, budget) == list_upto(env, doc, n, budget),
    decreases m,
{
    if n < m {
        list_stops(env, doc, n, (m - 1) as nat, budget);
    }
}

/// Once the resolution of a link's paths has stopped at a need, it stays
/// stopped there.
pub proof fn links_stop(env: Setting, value: Doc, n: nat, m: nat, budget: nat)
    requires
        n <= m <= link_paths(value).len(),
        links_upto(env, value, n, budget) is Err,
    ensures
        links_upto(env, value, m, budget) == links_upto(env, value, n, budget),
    decreases m,
{
    if n < m {
        links_stop(env, value, n, (m - 1) as nat, budget);
    }
}

/// Resolves a mapping: every binding in order, as `dict_upto` says. A document
/// that is no mapping resolves to the empty mapping.
///
/// `budget` is how many levels of links may still be followed. What is needed
/// and not yet in `known` comes back as an error; with it looked up and added,
/// the call can be made again.
#[verifier::loop_isolation(false)]
pub fn resolve_dict(config: &str, value: &Value, known: &Known, budget: usize) -> (r: Result<
    Value,
    Need,
>)
    ensures
        r matches Ok(v) ==> resolved_dict(setting(config@, *known), value@, budget as nat) == Ok::<
            Doc,
            NeedView,
        >(v@),
        r matches Err(need) ==> resolved_dict(setting(config@, *known), value@, budget as nat)
            == Err::<Doc, NeedView>(need@),
    decreases budget, 2int, value,
{
    let ghost env = setting(config@, *known);
    let mut out: Vec<(String, Value)> = Vec::new();
    assert(members_view(out@) =~= Seq::empty());
    match value {
        Value::Object(members) => {
            proof {
                object_view(*members);
            }
            assert(value@.entries().len() == members.len());
            let mut i: usize = 0;
            while i < members.len()
                invariant
                    i <= members.len(),
                    dict_upto(env, value@, i as nat, budget as nat) == Ok::<Members, NeedView>(
                        members_view(out@),
                    ),
                decreases members.len() - i,
            {
                let key = members[i].0.as_str();
                let item = &members[i].1;
                assert(value@.entries()[i as int] == (key@, item@));
                let step: Result<(), Need> = if item.is_object() {
                    match resolve_dict(config, item, known, budget) {
                        Ok(v) => {
                            put_member(&mut out, key, v);
                            Ok(())
                        },
                        Err(need) => Err(need),
                    }
                } else if item.is_array() && !same(key, "$link") {
                    match resolve_list(config, item, known, budget) {
                        Ok(v) => {
                            put_member(&mut out, key, v);
                            Ok(())
                        },
                        Err(need) => Err(need),
                    }
                } else {
                    match resolve_value(config, key, item, known, budget) {
                        Ok(more) => {
                            merge_members(&mut out, more.as_slice());
                            Ok(())
                        },
                        Err(need) => Err(need),
                    }
                };
                match step {
                    Ok(()) => {},
                    Err(need) => {
                        proof {
                            assert(dict_upto(env, value@, (i + 1) as nat, budget as nat) == Err::<
                                Members,
                                NeedView,
                            >(need@));
                            dict_stops(
                                env,
                                value@,
                                (i + 1) as nat,
                                members.len() as nat,
                                budget as nat,
                            );
                        }
                        return Err(need);
                    },
                }
                i += 1;
            }
        },
        _ => {},
    }
    proof {
        object_view(out);
    }
    Ok(Value::Object(out))
}

/// Resolves a list: every item in order, as `list_upto` says. A document that
/// is no list resolves to the empty list.
#[verifier::loop_isolation(false)]
pub fn resolve_list(config: &str, value: &Value, known: &Known, budget: usize) -> (r: Result<
    Value,
    Need,
>)
    ensures
        r matches Ok(v) ==> resolved_list(setting(config@, *known), value@, budget as nat) == Ok::<
            Doc,
            NeedView,
        >(v@),
        r matches Err(need) ==> resolved_list(setting(config@, *known), value@, budget as nat)
            == Err::<Doc, NeedView>(need@),
    decreases budget, 2int, value,
{
    let ghost env = setting(config@, *known);
    let mut out: Vec<Value> = Vec::new();
    assert(items_view(out@) =~= Seq::empty());
    match value {
        Value::Array(items) => {
            proof {
                array_view(*items);
            }
            assert(value@.members().len() == items.len());
            let mut i: usize = 0;
            while i < items.len()
                invariant
                    i <= items.len(),
                    list_upto(env, value@, i as nat, budget as nat) == Ok::<Seq<Doc>, NeedView>(
                        items_view(out@),
                    ),
                decreases items.len() - i,
            {
                let item = &items[i];
                let ghost before = items_view(out@);
                assert(value@.members()[i as int] == item@);
                let step = if item.is_object() {
                    resolve_dict(config, item, known, budget)
                } else if item.is_array() {
                    resolve_list(config, item, known, budget)
                } else {
                    resolve_scalar(config, item, known)
                };
                match step {
                    Ok(v) => {
                        out.push(v);
                        assert(items_view(out@) =~= before.push(v@));
                    },
                    Err(need) => {
                        proof {
                            assert(list_upto(env, value@, (i + 1) as nat, budget as nat) == Err::<
                                Seq<Doc>,
                                NeedView,
                            >(need@));
                            list_stops(
                                env,
                                value@,
                                (i + 1) as nat,
                                items.len() as nat,
                                budget as nat,
                            );
                        }
                        return Err(need);
                    },
                }
                i += 1;
            }
        },
        _ => {},
    }
    proof {
        array_view(out);
    }
    Ok(Value::Array(out))
}

/// Resolves a binding that is no mapping, and no list under an ordinary
/// key, as `value_resolved` says.
pub fn resolve_value(config: &str, key: &str, value: &Value, known: &Known, budget: usize) -> (r:
    Result<Vec<(String, Value)>, Need>)
    ensures
        r matches Ok(more) ==> value_resolved(
            setting(config@, *known),
            key@,
            value@,
            budget as nat,
        ) == Ok::<Members, NeedView>(members_view(more@)),
        r matches Err(need) ==> value_resolved(
            setting(config@, *known),
            key@,
            value@,
            budget as nat,
        ) == Err::<Members, NeedView>(need@),
    decreases budget, 2int, value,
{
    if same(key, "$link") {
        resolve_links(config, value, known, budget)
    } else {
        match resolve_scalar(config, value, known) {
            Ok(resolved) => {
                let mut new: Vec<(String, Value)> = Vec::new();
                new.push((String::from_str(key), resolved));
                assert(members_view(new@) =~= seq![(key@, resolved@)]);
                Ok(new)
            },
            Err(need) => Err(need),
        }
    }
}

/// What one path of a link contributes.
pub fn resolve_link(config: &str, path: &Value, known: &Known, budget: usize) -> (r: Result<
    Vec<(String, Value)>,
    Need,
>)
    ensures
        r matches Ok(linked) ==> link_contribution(
            setting(config@, *known),
            path@,
            budget as nat,
        ) == Ok::<Members, NeedView>(members_view(linked@)),
        r matches Err(need) ==> link_contribution(setting(config@, *known), path@, budget as nat)
            == Err::<Members, NeedView>(need@),
    decreases budget, 0int, path,
{
    let none: Vec<(String, Value)> = Vec::new();
    assert(members_view(none@) =~= Seq::empty());
    let name = match path.as_str() {
        Some(name) => name,
        None => {
            return Ok(none);
        },
    };
    let file = join(config, name);
    let found = match lookup(&known.files, file.as_str()) {
        None => {
            return Err(Need::File(file));
        },
        Some(found) => found,
    };
    let doc = match load_dict(found) {
        Ok(doc) => doc,
        Err(_) => {
            return Ok(none);
        },
    };
    if budget == 0 {
        return Ok(none);
    }
    match resolve_dict(config, &doc, known, budget - 1) {
        Ok(Value::Object(linked)) => {
            proof {
                object_view(linked);
            }
            Ok(linked)
        },
        Ok(_) => Ok(none),
        Err(need) => Err(need),
    }
}

/// What a link with the value `value` contributes: the bindings of every
/// document that its paths name, resolved and merged in order.
#[verifier::loop_isolation(false)]
pub fn resolve_links(config: &str, value: &Value, known: &Known, budget: usize) -> (r: Result<
    Vec<(String, Value)>,
    Need,
>)
    ensures
        r matches Ok(linked) ==> links_upto(
            setting(config@, *known),
            value@,
            link_paths(value@).len(),
            budget as nat,
        ) == Ok::<Members, NeedView>(members_view(linked@)),
        r matches Err(need) ==> links_upto(
            setting(config@, *known),
            value@,
            link_paths(value@).len(),
            budget as nat,
        ) == Err::<Members, NeedView>(need@),
    decreases budget, 1int, value,
{
    let ghost env = setting(config@, *known);
    let mut out: Vec<(String, Value)> = Vec::new();
    assert(members_view(out@) =~= Seq::empty());
    match value {
        Value::Array(items) => {
            proof {
                array_view(*items);
            }
            let mut i: usize = 0;
            while i < items.len()
                invariant
                    i <= items.len(),
                    links_upto(env, value@, i as nat, budget as nat) == Ok::<Members, NeedView>(
                        members_view(out@),
                    ),
                decreases items.len() - i,
            {
                assert(link_paths(value@)[i as int] == items@[i as int]@);
                match resolve_link(config, &items[i], known, budget) {
                    Ok(linked) => {
                        merge_members(&mut out, linked.as_slice());
                    },
                    Err(need) => {
                        proof {
                            links_stop(
                                env,
                                value@,
                                (i + 1) as nat,
                                items.len() as nat,
                                budget as nat,
                            );
                        }
                        return Err(need);
                    },
                }
                i += 1;
            }
            Ok(out)
        },
        other => {
            assert(link_paths(value@) =~= seq![value@]);
            assert(links_upto(env, value@, 0, budget as nat) == Ok::<Members, NeedView>(
                Seq::empty(),
            ));
            match resolve_link(config, other, known, budget) {
                Ok(linked) => {
                    merge_members(&mut out, linked.as_slice());
                    Ok(out)
                },
                Err(need) => Err(need),
            }
        },
    }
}

/// No key is bound twice in what a mapping resolves to.
pub proof fn dict_keys_are_distinct(env: Setting, doc: Doc, n: nat, budget: nat)
    ensures
        dict_upto(env, doc, n, budget) matches Ok(members) ==> crate::value::distinct_keys(members),
    decreases n,
{
    match doc {
        Doc::Object(entries) => {
            if !(n == 0 || n > entries.len()) {
                dict_keys_are_distinct(env, doc, (n - 1) as nat, budget);
                match dict_upto(env, doc, (n - 1) as nat, budget) {
                    Ok(acc) => {
                        let key = entries[n - 1].0;
                        let value = entries[n - 1].1;
                        match value {
                            Doc::Object(inner) => {
                                match dict_upto(env, value, inner.len(), budget) {
                                    Ok(resolved) => {
                                        crate::value::put_keeps_distinct(
                                            acc,
                                            key,
                                            Doc::Object(resolved),
                                        );
                                    },
                                    Err(_) => {},
                                }
                            },
                            Doc::Array(items) if key != link_key() => {
                                match list_upto(env, value, items.len(), budget) {
                                    Ok(resolved) => {
                                        crate::value::put_keeps_distinct(
                                            acc,
                                            key,
                                            Doc::Array(resolved),
                                        );
                                    },
                                    Err(_) => {},
                                }
                            },
                            _ => {
                                match value_resolved(env, key, value, budget) {
                                    Ok(more) => {
                                        crate::value::merged_keeps_distinct(acc, more);
                                    },
                                    Err(_) => {},
                                }
                            },
                        }
                    },
                    Err(_) => {},
                }
            }
        },
        _ => {},
    }
}

/// A path that a link lists twice in a row adds nothing the second time:
/// what it contributes, merged in again, changes nothing.
pub proof fn repeated_link_adds_nothing(env: Setting, into: Members, path: Doc, budget: nat)
    ensures
        link_contribution(env, path, budget) matches Ok(linked) ==> merged(
            merged(into, linked),
            linked,
        ) == merged(into, linked),
{
    match link_contribution(env, path, budget) {
        Ok(linked) => {
            match path {
                Doc::Text(name) => {
                    match looked_up(env.files, joined(env.config, name), 0) {
                        Some(Some(text)) => match parsed(text) {
                            Some(Doc::Object(entries)) => {
                                if budget > 0 {
                                    dict_keys_are_distinct(
                                        env,
                                        Doc::Object(entries),
                                        entries.len(),
                                        (budget - 1) as nat,
                                    );
                                }
                            },
                            _ => {},
                        },
                        _ => {},
                    }
                },
                _ => {},
            }
            crate::value::merge_is_idempotent(into, linked);
        },
        Err(_) => {},
    }
}

/// Whether no mapping anywhere in a document binds the link key.
pub open spec fn link_free(doc: Doc) -> bool
    decreases doc,
{
    match doc {
        Doc::Object(members) => forall|i: int|
            0 <= i < members.len() ==> (#[trigger] members[i]).0 != link_key() && link_free(
                members[i].1,
            ),
        Doc::Array(items) => forall|i: int| 0 <= i < items.len() ==> link_free(#[trigger] items[i]),
        _ => true,
    }
}

/// Whether no binding in a list has the link key, and no value holds one.
pub open spec fn members_free(members: Members) -> bool {
    forall|i: int|
        0 <= i < members.len() ==> (#[trigger] members[i]).0 != link_key() && link_free(
            members[i].1,
        )
}

/// Whether no mapping anywhere in a document binds the link key to a mapping.
pub open spec fn links_plain(doc: Doc) -> bool
    decreases doc,
{
    match doc {
        Doc::Object(members) => forall|i: int|
            0 <= i < members.len() ==> !((#[trigger] members[i]).0 == link_key()
                && members[i].1 is Object) && links_plain(members[i].1),
        Doc::Array(items) => forall|i: int|
            0 <= i < items.len() ==> links_plain(#[trigger] items[i]),
        _ => true,
    }
}

/// Whether every file that was read and holds a document holds one in which
/// no link is bound to a mapping.
pub open spec fn files_plain(env: Setting) -> bool {
    forall|i: int|
        0 <= i < env.files.len() ==> ((#[trigger] env.files[i]).1 matches Some(text) ==> (parsed(
            text,
        ) matches Some(doc) ==> links_plain(doc)))
}

/// A list holds no link exactly when none of its items does.
pub proof fn array_free(items: Seq<Doc>)
    ensures
        link_free(Doc::Array(items)) == (forall|i: int|
            0 <= i < items.len() ==> link_free(#[trigger] items[i])),
{
    let doc = Doc::Array(items);
    assert(doc->Array_0 == items);
    if link_free(doc) {
        assert(forall|i: int| 0 <= i < items.len() ==> link_free(#[trigger] items[i]));
    }
}

proof fn found_is_listed(list: Found, path: Seq<char>, from: int)
    requires
        0 <= from,
        looked_up(list, path, from) is Some,
    ensures
        exists|i: int| 0 <= i < list.len() && (#[trigger] list[i]).1 == looked_up(list, path, from)->0,
    decreases list.len() - from,
{
    if from < list.len() && list[from].0 != path {
        found_is_listed(list, path, from + 1);
    }
}

proof fn put_keeps_free(members: Members, key: Seq<char>, value: Doc)
    requires
        members_free(members),
        key != link_key(),
        link_free(value),
    ensures
        members_free(put(members, key, value)),
{
    crate::value::key_in_range(members, key, 0);
    let at = crate::value::position(members, key);
    let after = put(members, key, value);
    assert forall|i: int| 0 <= i < after.len() implies (#[trigger] after[i]).0 != link_key()
        && link_free(after[i].1) by {
        if i != at {
            assert(after[i] == members[i]);
        }
    }
}

proof fn merged_keeps_free(into: Members, from: Members)
    requires
        members_free(into),
        members_free(from),
    ensures
        members_free(merged(into, from)),
    decreases from.len(),
{
    if from.len() > 0 {
        merged_keeps_free(into, from.drop_last());
        assert(from.last() == from[from.len() - 1]);
        put_keeps_free(merged(into, from.drop_last()), from.last().0, from.last().1);
    }
}

proof fn dict_is_free(env: Setting, doc: Doc, n: nat, budget: nat)
    requires
        links_plain(doc),
        files_plain(env),
    ensures
        dict_upto(env, doc, n, budget) matches Ok(members) ==> members_free(members),
    decreases budget, 2int, doc, n,
{
    match doc {
        Doc::Object(entries) => {
            if !(n == 0 || n > entries.len()) {
                dict_is_free(env, doc, (n - 1) as nat, budget);
                match dict_upto(env, doc, (n - 1) as nat, budget) {
                    Ok(acc) => {
                        let key = entries[n - 1].0;
                        let value = entries[n - 1].1;
                        assert(links_plain(value));
                        match value {
                            Doc::Object(inner) => {
                                dict_is_free(env, value, inner.len(), budget);
                                match dict_upto(env, value, inner.len(), budget) {
                                    Ok(resolved) => {
                                        put_keeps_free(acc, key, Doc::Object(resolved));
                                    },
                                    Err(_) => {},
                                }
                            },
                            Doc::Array(items) if key != link_key() => {
                                list_is_free(env, value, items.len(), budget);
                                match list_upto(env, value, items.len(), budget) {
                                    Ok(resolved) => {
                                        put_keeps_free(acc, key, Doc::Array(resolved));
                                    },
                                    Err(_) => {},
                                }
                            },
                            _ => {
                                if key == link_key() {
                                    links_are_free(env, value, link_paths(value).len(), budget);
                                }
                                match value_resolved(env, key, value, budget) {
                                    Ok(more) => {
                                        merged_keeps_free(acc, more);
                                    },
                                    Err(_) => {},
                                }
                            },
                        }
                    },
                    Err(_) => {},
                }
            }
        },
        _ => {},
    }
}

proof fn list_is_free(env: Setting, doc: Doc, n: nat, budget: nat)
    requires
        links_plain(doc),
        files_plain(env),
    ensures
        list_upto(env, doc, n, budget) matches Ok(items) ==> link_free(Doc::Array(items)),
    decreases budget, 2int, doc, n,
{
    match doc {
        Doc::Array(items) => {
            if !(n == 0 || n > items.len()) {
                list_is_free(env, doc, (n - 1) as nat, budget);
                let item = items[n - 1];
                assert(links_plain(item));
                match item {
                    Doc::Object(inner) => {
                        dict_is_free(env, item, inner.len(), budget);
                    },
                    Doc::Array(inner) => {
                        list_is_free(env, item, inner.len(), budget);
                    },
                    _ => {},
                }
                match (list_upto(env, doc, (n - 1) as nat, budget), list_upto(env, doc, n, budget)) {
                    (Ok(acc), Ok(all)) => {
                        array_free(acc);
                        array_free(all);
                        assert(link_free(Doc::Array(acc)));
                        assert(all.len() == acc.len() + 1);
                        assert(link_free(all[acc.len() as int]));
                        assert forall|i: int| 0 <= i < all.len() implies link_free(
                            #[trigger] all[i],
                        ) by {
                            if i < acc.len() {
                                assert(all[i] == acc[i]);
                                assert(link_free(acc[i]));
                            } else {
                                assert(i == acc.len());
                            }
                        }
                    },
                    _ => {},
                }
            }
        },
        _ => {},
    }
}

proof fn links_are_free(env: Setting, value: Doc, n: nat, budget: nat)
    requires
        files_plain(env),
    ensures
        links_upto(env, value, n, budget) matches Ok(members) ==> members_free(members),
    decreases budget, 1int, value, n,
{
    if !(n == 0 || n > link_paths(value).len()) {
        links_are_free(env, value, (n - 1) as nat, budget);
        contribution_is_free(env, link_paths(value)[n - 1], budget);
        match links_upto(env, value, (n - 1) as nat, budget) {
            Ok(acc) => match link_contribution(env, link_paths(value)[n - 1], budget) {
                Ok(linked) => {
                    merged_keeps_free(acc, linked);
                },
                Err(_) => {},
            },
            Err(_) => {},
        }
    }
}

proof fn contribution_is_free(env: Setting, path: Doc, budget: nat)
    requires
        files_plain(env),
    ensures
        link_contribution(env, path, budget) matches Ok(members) ==> members_free(members),
    decreases budget, 0int, path, 0nat,
{
    match path {
        Doc::Text(name) => {
            let file = joined(env.config, name);
            match looked_up(env.files, file, 0) {
                Some(Some(text)) => {
                    found_is_listed(env.files, file, 0);
                    match parsed(text) {
                        Some(Doc::Object(entries)) => {
                            if budget > 0 {
                                dict_is_free(
                                    env,
                                    Doc::Object(entries),
                                    entries.len(),
                                    (budget - 1) as nat,
                                );
                            }
                        },
                        _ => {},
                    }
                },
                _ => {},
            }
        },
        _ => {},
    }
}

/// A resolved document holds no link: no mapping anywhere in it binds the
/// link key. This holds of every document in which no link is bound to a
/// mapping, resolved against files of which the same is true.
pub proof fn resolved_holds_no_link(env: Setting, doc: Doc, budget: nat)
    requires
        links_plain(doc),
        files_plain(env),
    ensures
        resolved_dict(env, doc, budget) matches Ok(resolved) ==> link_free(resolved),
{
    dict_is_free(env, doc, doc.entries().len(), budget);
}

/// The first place at or after `from` in a list of named documents whose
/// name does not come before `name`.
pub open spec fn place_of(list: Members, name: Seq<char>, from: int) -> int
    decreases list.len() - from,
{
    if from < 0 || from >= list.len() {
        list.len() as int
    } else if text_before(list[from].0, name) {
        place_of(list, name, from + 1)
    } else {
        from
    }
}

/// A list of named documents with `doc` filed under `name`: in place of the
/// document that stands at the name's place under the same name, or else
/// inserted at that place.
pub open spec fn filed(list: Members, name: Seq<char>, doc: Doc) -> Members {
    let at = place_of(list, name, 0);
    if at < list.len() && list[at].0 == name {
        list.update(at, (name, doc))
    } else {
        list.insert(at, (name, doc))
    }
}

/// Whether a list of named documents is in the order of its names, each name
/// before the next.
pub open spec fn in_order(list: Members) -> bool {
    forall|i: int, j: int| 0 <= i < j < list.len() ==> text_before(list[i].0, list[j].0)
}

proof fn place_splits(list: Members, name: Seq<char>, from: int)
    requires
        0 <= from <= list.len(),
    ensures
        from <= place_of(list, name, from) <= list.len(),
        forall|k: int| from <= k < place_of(list, name, from) ==> text_before(list[k].0, name),
        place_of(list, name, from) < list.len() ==> !text_before(
            list[place_of(list, name, from)].0,
            name,
        ),
    decreases list.len() - from,
{
    if from < list.len() && text_before(list[from].0, name) {
        place_splits(list, name, from + 1);
    }
}

/// Filing a document keeps a list of named documents in order.
pub proof fn filed_keeps_order(list: Members, name: Seq<char>, doc: Doc)
    requires
        in_order(list),
    ensures
        in_order(filed(list, name, doc)),
{
    place_splits(list, name, 0);
    let at = place_of(list, name, 0);
    let new = filed(list, name, doc);
    if at < list.len() && list[at].0 == name {
        assert forall|i: int, j: int| 0 <= i < j < new.len() implies text_before(
            new[i].0,
            new[j].0,
        ) by {
            assert(new[i].0 == list[i].0);
            assert(new[j].0 == list[j].0);
        }
    } else {
        assert forall|i: int, j: int| 0 <= i < j < new.len() implies text_before(
            new[i].0,
            new[j].0,
        ) by {
            if j < at {
            } else if j == at {
            } else if i == at {
                order_is_total(name, list[at].0);
                if j - 1 > at {
                    order_is_transitive(name, list[at].0, list[j - 1].0);
                }
            } else if i < at {
                assert(text_before(list[i].0, list[j - 1].0));
            } else {
                assert(text_before(list[i - 1].0, list[j - 1].0));
            }
        }
    }
}

/// The documents of a directory come out in the order of their names, and
/// no name comes twice.
pub proof fn loaded_in_order(env: Setting, paths: Seq<Seq<char>>, n: nat, budget: nat)
    ensures
        loaded_upto(env, paths, n, budget) matches Ok(list) ==> in_order(list),
    decreases n,
{
    if !(n == 0 || n > paths.len()) {
        loaded_in_order(env, paths, (n - 1) as nat, budget);
        match loaded_upto(env, paths, (n - 1) as nat, budget) {
            Ok(list) => {
                match loaded_file(env, list, paths[n - 1], budget) {
                    Ok(new) => {
                        if new != list {
                            let doc = resolved_dict(
                                env,
                                parsed(looked_up(env.files, paths[n - 1], 0)->0->0)->0,
                                budget,
                            )->Ok_0;
                            filed_keeps_order(list, or_empty(stem_of(paths[n - 1])), doc);
                        }
                    },
                    Err(_) => {},
                }
            },
            Err(_) => {},
        }
    }
}

/// Files `value` under `name` in a list of named documents.
pub fn file_under(list: &mut Vec<(String, Value)>, name: String, value: Value)
    ensures
        members_view(final(list)@) == filed(members_view(old(list)@), name@, value@),
{
    let mut at: usize = 0;
    while at < list.len() && before(list[at].0.as_str(), name.as_str())
        invariant
            at <= list.len(),
            place_of(members_view(list@), name@, 0) == place_of(
                members_view(list@),
                name@,
                at as int,
            ),
        decreases list.len() - at,
    {
        at += 1;
    }
    if at < list.len() && same(list[at].0.as_str(), name.as_str()) {
        list[at] = (name, value);
        assert(members_view(list@) =~= filed(members_view(old(list)@), name@, value@));
    } else {
        list.insert(at, (name, value));
        assert(members_view(list@) =~= filed(members_view(old(list)@), name@, value@));
    }
}

/// What the file at `path` adds to the documents loaded so far.
///
/// Nothing, unless the path ends in the extension `json`, the file can be
/// read, and its text is a mapping; then the resolved mapping, filed under
/// the stem of the path, or under the empty name if the path has no stem.
pub open spec fn loaded_file(env: Setting, list: Members, path: Seq<char>, budget: nat) -> Result<
    Members,
    NeedView,
> {
    if ext_of(path) != Some("json"@) {
        Ok(list)
    } else {
        match looked_up(env.files, path, 0) {
            None => Err(NeedView::File(path)),
            Some(None) => Ok(list),
            Some(Some(text)) => match parsed(text) {
                Some(Doc::Object(entries)) => match resolved_dict(
                    env,
                    Doc::Object(entries),
                    budget,
                ) {
                    Err(need) => Err(need),
                    Ok(doc) => Ok(filed(list, or_empty(stem_of(path)), doc)),
                },
                _ => Ok(list),
            },
        }
    }
}

/// The documents that the first `n` of the files at `paths` make: each file
/// adds to what the files before it made.
pub open spec fn loaded_upto(env: Setting, paths: Seq<Seq<char>>, n: nat, budget: nat) -> Result<
    Members,
    NeedView,
>
    decreases n,
{
    if n == 0 || n > paths.len() {
        Ok(Seq::empty())
    } else {
        match loaded_upto(env, paths, (n - 1) as nat, budget) {
            Err(need) => Err(need),
            Ok(list) => loaded_file(env, list, paths[n - 1], budget),
        }
    }
}

/// Once loading has stopped at a need, it stays stopped there.
pub proof fn loading_stops(env: Setting, paths: Seq<Seq<char>>, n: nat, m: nat, budget: nat)
    requires
        n <= m <= paths.len(),
        loaded_upto(env, paths, n, budget) is Err,
    ensures
        loaded_upto(env, paths, m, budget) == loaded_upto(env, paths, n, budget),
    decreases m,
{
    if n < m {
        loading_stops(env, paths, n, (m - 1) as nat, budget);
    }
}

/// Resolves a document against what is known, following links as deep as
/// there are files known.
pub fn resolve(config: &str, value: &Value, known: &Known) -> (r: Result<Value, Need>)
    ensures
        r matches Ok(v) ==> resolved_dict(
            setting(config@, *known),
            value@,
            known.files@.len(),
        ) == Ok::<Doc, NeedView>(v@),
        r matches Err(need) ==> resolved_dict(
            setting(config@, *known),
            value@,
            known.files@.len(),
        ) == Err::<Doc, NeedView>(need@),
{
    resolve_dict(config, value, known, known.files.len())
}

/// Loads the configuration documents of a directory.
///
/// `config` is the directory, `files` the paths of the regular files directly
/// in it, and `known` what has been looked up so far. The result lists each
/// document under its name, in the order of the names. What is needed and not
/// yet known comes back as an error; with it looked up and added to `known`,
/// the call can be made again.
pub fn load(config: &str, files: &Vec<String>, known: &Known) -> (r: Result<
    Vec<(String, Value)>,
    Need,
>)
    ensures
        r matches Ok(list) ==> loaded_upto(
            setting(config@, *known),
            crate::utils::texts(files@),
            files@.len(),
            known.files@.len(),
        ) == Ok::<Members, NeedView>(members_view(list@)),
        r matches Err(need) ==> loaded_upto(
            setting(config@, *known),
            crate::utils::texts(files@),
            files@.len(),
            known.files@.len(),
        ) == Err::<Members, NeedView>(need@),
{
    let ghost env = setting(config@, *known);
    let ghost paths = crate::utils::texts(files@);
    let budget = known.files.len();
    let mut list: Vec<(String, Value)> = Vec::new();
    assert(members_view(list@) =~= Seq::empty());
    let mut i: usize = 0;
    while i < files.len()
        invariant
            i <= files.len(),
            env == setting(config@, *known),
            paths == crate::utils::texts(files@),
            budget == known.files@.len(),
            loaded_upto(env, paths, i as nat, budget as nat) == Ok::<Members, NeedView>(
                members_view(list@),
            ),
        decreases files.len() - i,
    {
        let path = files[i].as_str();
        assert(paths[i as int] == path@);
        match load_file(config, path, known) {
            Ok(Some((name, doc))) => {
                file_under(&mut list, name, doc);
            },
            Ok(None) => {},
            Err(need) => {
                proof {
                    loading_stops(env, paths, (i + 1) as nat, files@.len(), budget as nat);
                }
                return Err(need);
            },
        }
        i += 1;
    }
    Ok(list)
}

/// Reads one configuration file: its name and resolved document, or nothing
/// where the file is passed over.
pub fn load_file(config: &str, path: &str, known: &Known) -> (r: Result<
    Option<(String, Value)>,
    Need,
>)
    ensures
        forall|list: Members|
            (#[trigger] loaded_file(setting(config@, *known), list, path@, known.files@.len()))
                == (match r {
                Ok(Some((name, doc))) => Ok::<Members, NeedView>(filed(list, name@, doc@)),
                Ok(None) => Ok(list),
                Err(need) => Err(need@),
            }),
{
    let wanted = match extension(path) {
        Some(ext) => same(ext.as_str(), "json"),
        None => false,
    };
    if !wanted {
        return Ok(None);
    }
    let found = match lookup(&known.files, path) {
        None => {
            return Err(Need::File(String::from_str(path)));
        },
        Some(found) => found,
    };
    let doc = match load_dict(found) {
        Ok(doc) => doc,
        Err(_) => {
            return Ok(None);
        },
    };
    let resolved = match resolve(config, &doc, known) {
        Ok(resolved) => resolved,
        Err(need) => {
            return Err(need);
        },
    };
    Ok(Some((text_or_empty(file_stem(path)), resolved)))
}

/// Whether no string anywhere in a document holds the token.
pub open spec fn token_free(doc: Doc) -> bool
    decreases doc,
{
    match doc {
        Doc::Text(s) => !occurs(s, token()),
        Doc::Object(members) => forall|i: int|
            0 <= i < members.len() ==> token_free((#[trigger] members[i]).1),
        Doc::Array(items) => forall|i: int| 0 <= i < items.len() ==> token_free(#[trigger] items[i]),
        _ => true,
    }
}

/// Whether no mapping anywhere in a document binds a key twice.
pub open spec fn keys_distinct(doc: Doc) -> bool
    decreases doc,
{
    match doc {
        Doc::Object(members) => crate::value::distinct_keys(members) && forall|i: int|
            0 <= i < members.len() ==> keys_distinct((#[trigger] members[i]).1),
        Doc::Array(items) => forall|i: int|
            0 <= i < items.len() ==> keys_distinct(#[trigger] items[i]),
        _ => true,
    }
}

/// Whether resolution has nothing left to do in a document: it holds no
/// link and no token, and no mapping in it binds a key twice.
pub open spec fn stable(doc: Doc) -> bool {
    link_free(doc) && token_free(doc) && keys_distinct(doc)
}

proof fn stable_dict_stays(env: Setting, doc: Doc, n: nat, budget: nat)
    requires
        stable(doc),
        doc is Object,
        n <= doc.entries().len(),
    ensures
        dict_upto(env, doc, n, budget) == Ok::<Members, NeedView>(doc.entries().take(n as int)),
    decreases doc, n,
{
    match doc {
        Doc::Object(entries) => {
            if n == 0 {
                assert(entries.take(0) =~= Seq::empty());
            } else {
                stable_dict_stays(env, doc, (n - 1) as nat, budget);
                let acc = entries.take(n - 1);
                let key = entries[n - 1].0;
                let value = entries[n - 1].1;
                assert(key != link_key());
                assert(stable(value));
                assert forall|i: int| 0 <= i < acc.len() implies (#[trigger] acc[i]).0 != key by {
                    assert(acc[i] == entries[i]);
                }
                crate::value::key_is_absent(acc, key, 0);
                assert(acc.push((key, value)) =~= entries.take(n as int));
                match value {
                    Doc::Object(inner) => {
                        stable_dict_stays(env, value, inner.len(), budget);
                        assert(inner.take(inner.len() as int) =~= inner);
                        assert(put(acc, key, value) == acc.push((key, value)));
                    },
                    Doc::Array(items) => {
                        stable_list_stays(env, value, items.len(), budget);
                        assert(items.take(items.len() as int) =~= items);
                        assert(put(acc, key, value) == acc.push((key, value)));
                    },
                    _ => {
                        let one = seq![(key, value)];
                        assert(one.drop_last() =~= Seq::<(Seq<char>, Doc)>::empty());
                        assert(one.last() == (key, value));
                        assert(merged(acc, one) == put(merged(acc, one.drop_last()), key, value));
                        assert(merged(acc, Seq::<(Seq<char>, Doc)>::empty()) == acc);
                        assert(token_free(value));
                        assert(scalar(env, value) == Ok::<Doc, NeedView>(value));
                        assert(value_resolved(env, key, value, budget) == Ok::<Members, NeedView>(
                            one,
                        ));
                        assert(put(acc, key, value) == acc.push((key, value)));
                    },
                }
            }
        },
        _ => {},
    }
}

proof fn stable_list_stays(env: Setting, doc: Doc, n: nat, budget: nat)
    requires
        stable(doc),
        doc is Array,
        n <= doc.members().len(),
    ensures
        list_upto(env, doc, n, budget) == Ok::<Seq<Doc>, NeedView>(doc.members().take(n as int)),
    decreases doc, n,
{
    match doc {
        Doc::Array(items) => {
            if n == 0 {
                assert(items.take(0) =~= Seq::empty());
            } else {
                stable_list_stays(env, doc, (n - 1) as nat, budget);
                let acc = items.take(n - 1);
                let item = items[n - 1];
                assert(stable(item));
                assert(acc.push(item) =~= items.take(n as int));
                match item {
                    Doc::Object(inner) => {
                        stable_dict_stays(env, item, inner.len(), budget);
                        assert(inner.take(inner.len() as int) =~= inner);
                    },
                    Doc::Array(inner) => {
                        stable_list_stays(env, item, inner.len(), budget);
                        assert(inner.take(inner.len() as int) =~= inner);
                    },
                    _ => {},
                }
            }
        },
        _ => {},
    }
}

/// A mapping in which resolution has nothing left to do resolves to itself,
/// whatever has been looked up.
pub proof fn stable_document_is_fixed(env: Setting, doc: Doc, budget: nat)
    requires
        stable(doc),
        doc is Object,
    ensures
        resolved_dict(env, doc, budget) == Ok::<Doc, NeedView>(doc),
{
    stable_dict_stays(env, doc, doc.entries().len(), budget);
    assert(doc.entries().take(doc.entries().len() as int) =~= doc.entries());
}

/// Whether no key is bound twice in a list of bindings, nor anywhere in
/// their values.
pub open spec fn members_distinct(members: Members) -> bool {
    crate::value::distinct_keys(members) && forall|i: int|
        0 <= i < members.len() ==> keys_distinct((#[trigger] members[i]).1)
}

proof fn put_keeps_members_distinct(members: Members, key: Seq<char>, value: Doc)
    requires
        members_distinct(members),
        keys_distinct(value),
    ensures
        members_distinct(put(members, key, value)),
{
    crate::value::key_in_range(members, key, 0);
    crate::value::put_keeps_distinct(members, key, value);
    let at = crate::value::position(members, key);
    let after = put(members, key, value);
    assert forall|i: int| 0 <= i < after.len() implies keys_distinct((#[trigger] after[i]).1) by {
        if i != at {
            assert(after[i] == members[i]);
        }
    }
}

proof fn merged_keeps_members_distinct(into: Members, from: Members)
    requires
        members_distinct(into),
        members_distinct(from),
    ensures
        members_distinct(merged(into, from)),
    decreases from.len(),
{
    if from.len() > 0 {
        let front = from.drop_last();
        assert forall|i: int| 0 <= i < front.len() implies keys_distinct((#[trigger] front[i]).1) by {
            assert(front[i] == from[i]);
        }
        assert forall|i: int, j: int| 0 <= i < j < front.len() implies front[i].0 != front[j].0 by {
            assert(front[i] == from[i]);
            assert(front[j] == from[j]);
        }
        merged_keeps_members_distinct(into, front);
        assert(from.last() == from[from.len() - 1]);
        put_keeps_members_distinct(merged(into, front), from.last().0, from.last().1);
    }
}

proof fn dict_is_distinct(env: Setting, doc: Doc, n: nat, budget: nat)
    ensures
        dict_upto(env, doc, n, budget) matches Ok(members) ==> members_distinct(members),
    decreases budget, 2int, doc, n,
{
    match doc {
        Doc::Object(entries) => {
            if !(n == 0 || n > entries.len()) {
                dict_is_distinct(env, doc, (n - 1) as nat, budget);
                match dict_upto(env, doc, (n - 1) as nat, budget) {
                    Ok(acc) => {
                        let key = entries[n - 1].0;
                        let value = entries[n - 1].1;
                        match value {
                            Doc::Object(inner) => {
                                dict_is_distinct(env, value, inner.len(), budget);
                                match dict_upto(env, value, inner.len(), budget) {
                                    Ok(resolved) => {
                                        let new = Doc::Object(resolved);
                                        assert(new->Object_0 == resolved);
                                        put_keeps_members_distinct(acc, key, new);
                                    },
                                    Err(_) => {},
                                }
                            },
                            Doc::Array(items) if key != link_key() => {
                                list_is_distinct(env, value, items.len(), budget);
                                match list_upto(env, value, items.len(), budget) {
                                    Ok(resolved) => {
                                        let new = Doc::Array(resolved);
                                        assert(new->Array_0 == resolved);
                                        put_keeps_members_distinct(acc, key, new);
                                    },
                                    Err(_) => {},
                                }
                            },
                            _ => {
                                if key == link_key() {
                                    links_are_distinct(env, value, link_paths(value).len(), budget);
                                }
                                match value_resolved(env, key, value, budget) {
                                    Ok(more) => {
                                        if key != link_key() {
                                            assert(keys_distinct(more[0].1));
                                        }
                                        merged_keeps_members_distinct(acc, more);
                                    },
                                    Err(_) => {},
                                }
                            },
                        }
                    },
                    Err(_) => {},
                }
            }
        },
        _ => {},
    }
}

proof fn list_is_distinct(env: Setting, doc: Doc, n: nat, budget: nat)
    ensures
        list_upto(env, doc, n, budget) matches Ok(items) ==> forall|i: int|
            0 <= i < items.len() ==> keys_distinct(#[trigger] items[i]),
    decreases budget, 2int, doc, n,
{
    match doc {
        Doc::Array(items) => {
            if !(n == 0 || n > items.len()) {
                list_is_distinct(env, doc, (n - 1) as nat, budget);
                let item = items[n - 1];
                match item {
                    Doc::Object(inner) => {
                        dict_is_distinct(env, item, inner.len(), budget);
                        match dict_upto(env, item, inner.len(), budget) {
                            Ok(resolved) => {
                                let new = Doc::Object(resolved);
                                assert(new->Object_0 == resolved);
                                assert(keys_distinct(new));
                            },
                            Err(_) => {},
                        }
                    },
                    Doc::Array(inner) => {
                        list_is_distinct(env, item, inner.len(), budget);
                        match list_upto(env, item, inner.len(), budget) {
                            Ok(resolved) => {
                                let new = Doc::Array(resolved);
                                assert(new->Array_0 == resolved);
                                assert(keys_distinct(new));
                            },
                            Err(_) => {},
                        }
                    },
                    _ => {
                        match scalar(env, item) {
                            Ok(resolved) => {
                                assert(keys_distinct(resolved));
                            },
                            Err(_) => {},
                        }
                    },
                }
                match (list_upto(env, doc, (n - 1) as nat, budget), list_upto(env, doc, n, budget)) {
                    (Ok(acc), Ok(all)) => {
                        assert(all.len() == acc.len() + 1);
                        assert forall|i: int| 0 <= i < all.len() implies keys_distinct(
                            #[trigger] all[i],
                        ) by {
                            if i < acc.len() {
                                assert(all[i] == acc[i]);
                            }
                        }
                    },
                    _ => {},
                }
            }
        },
        _ => {},
    }
}

proof fn links_are_distinct(env: Setting, value: Doc, n: nat, budget: nat)
    ensures
        links_upto(env, value, n, budget) matches Ok(members) ==> members_distinct(members),
    decreases budget, 1int, value, n,
{
    if !(n == 0 || n > link_paths(value).len()) {
        links_are_distinct(env, value, (n - 1) as nat, budget);
        let path = link_paths(value)[n - 1];
        match path {
            Doc::Text(name) => {
                match looked_up(env.files, joined(env.config, name), 0) {
                    Some(Some(text)) => match parsed(text) {
                        Some(Doc::Object(entries)) => {
                            if budget > 0 {
                                dict_is_distinct(
                                    env,
                                    Doc::Object(entries),
                                    entries.len(),
                                    (budget - 1) as nat,
                                );
                            }
                        },
                        _ => {},
                    },
                    _ => {},
                }
            },
            _ => {},
        }
        match links_upto(env, value, (n - 1) as nat, budget) {
            Ok(acc) => match link_contribution(env, path, budget) {
                Ok(linked) => {
                    merged_keeps_members_distinct(acc, linked);
                },
                Err(_) => {},
            },
            Err(_) => {},
        }
    }
}

/// Resolution is idempotent: a resolved document in which no string holds
/// the token any more resolves to itself, whatever is looked up then. This
/// holds of every document in which no link is bound to a mapping, resolved
/// against files of which the same is true.
pub proof fn resolution_is_idempotent(
    env: Setting,
    doc: Doc,
    budget: nat,
    again: Setting,
    depth: nat,
)
    requires
        links_plain(doc),
        files_plain(env),
        resolved_dict(env, doc, budget) is Ok,
        token_free(resolved_dict(env, doc, budget)->Ok_0),
    ensures
        resolved_dict(again, resolved_dict(env, doc, budget)->Ok_0, depth) == resolved_dict(
            env,
            doc,
            budget,
        ),
{
    let resolved = resolved_dict(env, doc, budget)->Ok_0;
    resolved_holds_no_link(env, doc, budget);
    dict_is_distinct(env, doc, doc.entries().len(), budget);
    let members = dict_upto(env, doc, doc.entries().len(), budget)->Ok_0;
    assert(resolved->Object_0 == members);
    assert(keys_distinct(resolved));
    stable_document_is_fixed(again, resolved, depth);
}

/// Whether every document of a list is a mapping that holds no link.
pub open spec fn all_link_free(list: Members) -> bool {
    forall|i: int|
        0 <= i < list.len() ==> (#[trigger] list[i]).1 is Object && link_free(list[i].1)
}

proof fn filed_keeps_link_free(list: Members, name: Seq<char>, doc: Doc)
    requires
        all_link_free(list),
        doc is Object,
        link_free(doc),
    ensures
        all_link_free(filed(list, name, doc)),
{
    place_splits(list, name, 0);
    let at = place_of(list, name, 0);
    let new = filed(list, name, doc);
    assert forall|i: int| 0 <= i < new.len() implies (#[trigger] new[i]).1 is Object && link_free(
        new[i].1,
    ) by {
        if at < list.len() && list[at].0 == name {
            if i != at {
                assert(new[i] == list[i]);
            }
        } else if i < at {
            assert(new[i] == list[i]);
        } else if i > at {
            assert(new[i] == list[i - 1]);
        }
    }
}

/// The documents of a directory hold no link: each of them is a mapping in
/// which no mapping anywhere binds the link key. This holds where no file
/// that was read binds a link to a mapping.
pub proof fn loaded_hold_no_link(env: Setting, paths: Seq<Seq<char>>, n: nat, budget: nat)
    requires
        files_plain(env),
        n <= paths.len(),
    ensures
        loaded_upto(env, paths, n, budget) matches Ok(list) ==> forall|i: int|
            0 <= i < list.len() ==> (#[trigger] list[i]).1 is Object && link_free(list[i].1),
    decreases n,
{
    if n > 0 {
        loaded_hold_no_link(env, paths, (n - 1) as nat, budget);
        let path = paths[n - 1];
        match loaded_upto(env, paths, (n - 1) as nat, budget) {
            Ok(list) => {
                if ext_of(path) == Some("json"@) {
                    match looked_up(env.files, path, 0) {
                        Some(Some(text)) => {
                            found_is_listed(env.files, path, 0);
                            match parsed(text) {
                                Some(Doc::Object(entries)) => {
                                    let doc = Doc::Object(entries);
                                    resolved_holds_no_link(env, doc, budget);
                                    match resolved_dict(env, doc, budget) {
                                        Ok(resolved) => {
                                            filed_keeps_link_free(
                                                list,
                                                or_empty(stem_of(path)),
                                                resolved,
                                            );
                                        },
                                        Err(_) => {},
                                    }
                                },
                                _ => {},
                            }
                        },
                        _ => {},
                    }
                }
            },
            Err(_) => {},
        }
    }
}

} // verus!
