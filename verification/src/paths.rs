//! File paths as text, with the operations of `std::path` behind contracts.
//!
//! What these operations give depends on how the platform writes paths. The
//! names below stand for what they give on the platform that the library is
//! built for.

use vstd::prelude::*;

verus! {

/// What `Path::join` makes of a base path and a further path.
pub uninterp spec fn joined(base: Seq<char>, part: Seq<char>) -> Seq<char>;

/// What `Path::with_extension` makes of a path and an extension.
pub uninterp spec fn with_ext(path: Seq<char>, ext: Seq<char>) -> Seq<char>;

/// What `Path::file_stem` finds in a path: the file name without its last
/// extension, if the path has a file name.
pub uninterp spec fn stem_of(path: Seq<char>) -> Option<Seq<char>>;

/// What `Path::extension` finds in a path: what follows the last dot of the
/// file name, if there is such a part.
pub uninterp spec fn ext_of(path: Seq<char>) -> Option<Seq<char>>;

/// What `Path::file_name` finds in a path: its last component, if it is a
/// normal one.
pub uninterp spec fn name_of(path: Seq<char>) -> Option<Seq<char>>;

/// What `Path::parent` finds in a path: the path without its last component,
/// if it has one.
pub uninterp spec fn parent_of(path: Seq<char>) -> Option<Seq<char>>;

/// Whether a character separates the components of a path on some platform.
pub open spec fn is_separator(c: char) -> bool {
    c == '/' || c == '\\'
}

/// Whether a text holds no separator from position `from` on.
pub open spec fn plain_from(s: Seq<char>, from: int) -> bool
    decreases s.len() - from,
{
    from < 0 || from >= s.len() || (!is_separator(s[from]) && plain_from(s, from + 1))
}

/// Whether a text holds no separator, and so can be an extension.
pub open spec fn plain(s: Seq<char>) -> bool {
    plain_from(s, 0)
}

/// A text made of two texts without separator holds none.
pub proof fn joined_is_plain(a: Seq<char>, b: Seq<char>, from: int)
    requires
        0 <= from,
        plain_from(a, if from <= a.len() {
            from
        } else {
            a.len() as int
        }),
        plain_from(b, if from <= a.len() {
            0
        } else {
            from - a.len()
        }),
    ensures
        plain_from(a + b, from),
    decreases a.len() + b.len() - from,
{
    let s = a + b;
    if from < s.len() {
        if from < a.len() {
            assert(s[from] == a[from]);
        } else {
            assert(s[from] == b[from - a.len()]);
        }
        joined_is_plain(a, b, from + 1);
    }
}

/// Whether a text holds no separator.
pub fn is_plain(s: &str) -> (r: bool)
    ensures
        r == plain(s@),
{
    let chars = crate::text::chars_of(s);
    let mut i: usize = 0;
    while i < chars.len()
        invariant
            i <= chars.len(),
            chars@ == s@,
            plain(s@) == plain_from(s@, i as int),
        decreases chars.len() - i,
    {
        if chars[i] == '/' || chars[i] == '\\' {
            return false;
        }
        i += 1;
    }
    true
}

/// `Path::join`: `part` appended to `base` as further components; an absolute
/// `part` replaces `base`.
#[verifier::external_body]
pub(crate) fn join(base: &str, part: &str) -> (r: String)
    ensures
        r@ == joined(base@, part@),
{
    std::path::Path::new(base).join(part).to_string_lossy().into_owned()
}

/// `Path::with_extension`: the path with the extension of its file name
/// replaced by `ext`. An extension that holds a separator is left out.
#[verifier::external_body]
pub(crate) fn with_extension(path: &str, ext: &str) -> (r: String)
    requires
        plain(ext@),
    ensures
        r@ == with_ext(path@, ext@),
{
    std::path::Path::new(path).with_extension(ext).to_string_lossy().into_owned()
}

/// `Path::file_stem`.
#[verifier::external_body]
pub(crate) fn file_stem(path: &str) -> (r: Option<String>)
    ensures
        r is Some == stem_of(path@) is Some,
        r is Some ==> r->0@ == stem_of(path@)->0,
{
    match std::path::Path::new(path).file_stem() {
        Some(part) => Some(part.to_string_lossy().into_owned()),
        None => None,
    }
}

/// `Path::extension`.
#[verifier::external_body]
pub(crate) fn extension(path: &str) -> (r: Option<String>)
    ensures
        r is Some == ext_of(path@) is Some,
        r is Some ==> r->0@ == ext_of(path@)->0,
{
    match std::path::Path::new(path).extension() {
        Some(part) => Some(part.to_string_lossy().into_owned()),
        None => None,
    }
}

/// `Path::file_name`.
#[verifier::external_body]
pub(crate) fn file_name(path: &str) -> (r: Option<String>)
    ensures
        r is Some == name_of(path@) is Some,
        r is Some ==> r->0@ == name_of(path@)->0,
{
    match std::path::Path::new(path).file_name() {
        Some(part) => Some(part.to_string_lossy().into_owned()),
        None => None,
    }
}

/// `Path::parent`.
#[verifier::external_body]
pub(crate) fn parent(path: &str) -> (r: Option<String>)
    ensures
        r is Some == parent_of(path@) is Some,
        r is Some ==> r->0@ == parent_of(path@)->0,
{
    match std::path::Path::new(path).parent() {
        Some(part) => Some(part.to_string_lossy().into_owned()),
        None => None,
    }
}

/// The path of `name` in the directory `dir`, with the extension `ext`.
pub open spec fn file_in(dir: Seq<char>, name: Seq<char>, ext: Seq<char>) -> Seq<char> {
    with_ext(joined(dir, name), ext)
}

/// The path of `name` in the directory `dir`, with the extension `ext`.
pub fn output_file(dir: &str, name: &str, ext: &str) -> (r: String)
    requires
        plain(ext@),
    ensures
        r@ == file_in(dir@, name@, ext@),
{
    let plain = join(dir, name);
    with_extension(plain.as_str(), ext)
}

} // verus!
