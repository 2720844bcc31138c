//! Helpers shared by the track handling: frame rates, priorities, argument
//! lists and exit codes.

use crate::mkv::Stream;
use crate::text::{
    chars_of, find_char, first_at, join2, parse_unsigned, same, signed_decimal, signed_text,
    slice_text, unsigned_of,
};
use vstd::prelude::*;

verus! {

/// The number a text writes, or zero if it writes none.
pub open spec fn number_or_zero(s: Seq<char>) -> u32 {
    match unsigned_of(s) {
        Some(n) => n,
        None => 0,
    }
}

/// The frame rate that `s` writes: `num/den` gives the two numbers (what
/// follows a second slash is ignored), a text without slash gives `(n, 1)`.
/// A part that is no number counts as zero.
pub open spec fn framerate_of(s: Seq<char>) -> (u32, u32) {
    let slash = first_at(s, '/', 0);
    if slash < s.len() {
        let end = first_at(s, '/', slash + 1);
        (number_or_zero(s.subrange(0, slash)), number_or_zero(s.subrange(slash + 1, end)))
    } else {
        (number_or_zero(s), 1)
    }
}

/// The search for a character in a text that begins with digits and then has
/// that character finds it right after the digits.
proof fn found_after_digits(a: Seq<char>, rest: Seq<char>, c: char, from: int)
    requires
        0 <= from <= a.len(),
        !crate::text::is_digit(c),
        forall|i: int| 0 <= i < a.len() ==> crate::text::is_digit(#[trigger] a[i]),
    ensures
        first_at(a + seq![c] + rest, c, from) == a.len(),
    decreases a.len() - from,
{
    let s = a + seq![c] + rest;
    if from < a.len() {
        assert(s[from] == a[from]);
        found_after_digits(a, rest, c, from + 1);
    } else {
        assert(s[from] == c);
    }
}

/// The search for a character in a text that ends in digits finds nothing
/// among those digits.
proof fn lost_among_digits(head: Seq<char>, b: Seq<char>, c: char, from: int)
    requires
        head.len() <= from <= head.len() + b.len(),
        !crate::text::is_digit(c),
        forall|i: int| 0 <= i < b.len() ==> crate::text::is_digit(#[trigger] b[i]),
    ensures
        first_at(head + b, c, from) == head.len() + b.len(),
    decreases head.len() + b.len() - from,
{
    let s = head + b;
    if from < s.len() {
        assert(s[from] == b[from - head.len()]);
        lost_among_digits(head, b, c, from + 1);
    }
}

/// A frame rate is read back from the text `num/den` that writes it.
pub proof fn framerate_is_read_back(rate: (u32, u32))
    ensures
        framerate_of(
            crate::text::decimal(rate.0 as nat) + seq!['/'] + crate::text::decimal(rate.1 as nat),
        ) == rate,
{
    let a = crate::text::decimal(rate.0 as nat);
    let b = crate::text::decimal(rate.1 as nat);
    let s = a + seq!['/'] + b;
    crate::text::decimal_is_read_back(rate.0 as nat);
    crate::text::decimal_is_read_back(rate.1 as nat);
    crate::text::unsigned_is_read_back(rate.0);
    crate::text::unsigned_is_read_back(rate.1);
    found_after_digits(a, b, '/', 0);
    lost_among_digits(a + seq!['/'], b, '/', (a.len() + 1) as int);
    assert(s.subrange(0, a.len() as int) =~= a);
    assert(s.subrange((a.len() + 1) as int, s.len() as int) =~= b);
}

/// Reads a frame rate, written as `num/den` or as a single number.
pub fn framerate(input: &str) -> (r: (u32, u32))
    ensures
        r == framerate_of(input@),
{
    let s = chars_of(input);
    let slash = find_char(&s, '/', 0);
    if slash < s.len() {
        let end = find_char(&s, '/', slash + 1);
        let num = slice_text(&s, 0, slash);
        let den = slice_text(&s, slash + 1, end);
        (parse_or_zero(num.as_str()), parse_or_zero(den.as_str()))
    } else {
        (parse_or_zero(input), 1)
    }
}

/// The number a text writes, or zero if it writes none.
pub fn parse_or_zero(s: &str) -> (r: u32)
    ensures
        r == number_or_zero(s@),
{
    match parse_unsigned(s) {
        Some(n) => n,
        None => 0,
    }
}

/// The rank of a track type in the output: video first, then audio, then
/// subtitles, then everything else.
pub open spec fn priority_of(streamtype: Seq<char>) -> u32 {
    if streamtype == "video"@ {
        1
    } else if streamtype == "audio"@ {
        2
    } else if streamtype == "subtitle"@ {
        3
    } else {
        4
    }
}

/// The rank of a track in the output.
pub fn streampriority(stream: &Stream) -> (r: u32)
    ensures
        r == priority_of(stream@.streamtype),
        1 <= r <= 4,
{
    if same(stream.streamtype.as_str(), "video") {
        1
    } else if same(stream.streamtype.as_str(), "audio") {
        2
    } else if same(stream.streamtype.as_str(), "subtitle") {
        3
    } else {
        4
    }
}

/// The message for a command that ended with `code`; a command that was
/// killed has no code and is reported as `-1`.
pub open spec fn exit_message(code: Option<i32>) -> Seq<char> {
    "Command exited with code "@ + signed_decimal(
        match code {
            Some(c) => c as int,
            None => -1,
        },
    )
}

/// Judges how a command ended: only exit code zero is a success, anything
/// else is an error with a message that names the code.
pub fn check_output(code: Option<i32>) -> (r: Result<(), String>)
    ensures
        r is Ok == (code == Some(0i32)),
        r is Err ==> r->Err_0@ == exit_message(code),
{
    match code {
        Some(0) => Ok(()),
        Some(c) => Err(join2("Command exited with code ", signed_text(c as i64).as_str())),
        None => Err(join2("Command exited with code ", signed_text(-1).as_str())),
    }
}

/// The texts that a list of strings holds.
pub open spec fn texts(v: Seq<String>) -> Seq<Seq<char>> {
    Seq::new(v.len(), |i: int| v[i]@)
}

/// A list that takes string slices.
pub trait StrVec {
    /// The texts in the list, in order.
    spec fn items(&self) -> Seq<Seq<char>>;

    /// Adds a copy of `value` at the end.
    fn push_str(&mut self, value: &str)
        ensures
            final(self).items() == old(self).items().push(value@),
    ;
}

impl StrVec for Vec<String> {
    open spec fn items(&self) -> Seq<Seq<char>> {
        texts(self@)
    }

    fn push_str(&mut self, value: &str) {
        self.push(String::from_str(value));
        assert(texts(self@) =~= texts(old(self)@).push(value@));
    }
}

/// Adds an owned string at the end of a list.
pub fn push_text(list: &mut Vec<String>, value: String)
    ensures
        texts(final(list)@) == texts(old(list)@).push(value@),
{
    list.push(value);
    assert(texts(list@) =~= texts(old(list)@).push(value@));
}

} // verus!
