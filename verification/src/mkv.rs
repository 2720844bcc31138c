//! Track descriptors.

use crate::codec::{display, number_model, parse, parsed, pretty, pretty_text, settled, show};
use crate::command::{commands_view, strict, Command, CommandView, Plan, PlanView};
use crate::paths::{
    file_in, file_name, file_stem, join, joined, name_of, output_file, stem_of, with_ext,
    with_extension,
};
use crate::text::{
    copy_opt, decimal, join2, join3, opt_text, or_empty, parse_signed, parse_unsigned, same,
    signed_decimal, signed_of, signed_text, text_or_empty, unsigned_of, unsigned_text,
};
use crate::utils::{framerate, framerate_of, push_text, texts, StrVec};
use crate::value::{
    distinct_keys, items_view, members_view, object_view, Decimal, Doc, Members, Value,
};
use json::number::Number;
use vstd::prelude::*;

verus! {

/// The mathematical model of a track descriptor.
pub struct Track {
    pub path: Seq<char>,
    pub index: i32,
    pub streamtype: Seq<char>,
    pub id: Seq<char>,
    pub language: Option<Seq<char>>,
    pub offset: Decimal,
    pub duration: Decimal,
    pub codec: Option<Seq<char>>,
    pub aspect: Option<Seq<char>>,
    pub framerate: Option<(u32, u32)>,
    pub samplerate: Option<u32>,
    pub channels: Option<u32>,
    pub dialnorm: Option<i32>,
    pub dsurmode: Option<u32>,
}

/// One track of a container file, or the file that a stage made of it.
///
/// `offset` and `duration` are seconds, held as the decimal numbers that
/// the commit files carry.
#[derive(Debug, PartialEq)]
pub struct Stream {
    pub path: String,
    pub index: i32,
    pub streamtype: String,
    pub id: String,
    pub language: Option<String>,
    pub offset: Number,
    pub duration: Number,
    pub codec: Option<String>,
    pub aspect: Option<String>,
    pub framerate: Option<(u32, u32)>,
    pub samplerate: Option<u32>,
    pub channels: Option<u32>,
    pub dialnorm: Option<i32>,
    pub dsurmode: Option<u32>,
}

impl View for Stream {
    type V = Track;

    open spec fn view(&self) -> Track {
        Track {
            path: self.path@,
            index: self.index,
            streamtype: self.streamtype@,
            id: self.id@,
            language: opt_text(self.language),
            offset: number_model(self.offset),
            duration: number_model(self.duration),
            codec: opt_text(self.codec),
            aspect: opt_text(self.aspect),
            framerate: self.framerate,
            samplerate: self.samplerate,
            channels: self.channels,
            dialnorm: self.dialnorm,
            dsurmode: self.dsurmode,
        }
    }
}

impl Stream {
    /// A copy of this descriptor.
    pub fn copy(&self) -> (r: Stream)
        ensures
            r@ == self@,
    {
        Stream {
            path: self.path.clone(),
            index: self.index,
            streamtype: self.streamtype.clone(),
            id: self.id.clone(),
            language: copy_opt(&self.language),
            offset: self.offset,
            duration: self.duration,
            codec: copy_opt(&self.codec),
            aspect: copy_opt(&self.aspect),
            framerate: self.framerate,
            samplerate: self.samplerate,
            channels: self.channels,
            dialnorm: self.dialnorm,
            dsurmode: self.dsurmode,
        }
    }
}

impl Clone for Stream {
    fn clone(&self) -> (r: Stream)
        ensures
            r@ == self@,
    {
        self.copy()
    }
}

/// Why a text is not the commit of a stage.
#[derive(Clone, Copy, Debug, PartialEq, Eq, Structural)]
pub enum CommitError {
    /// The text is no document.
    Syntax,
    /// The document names no track index.
    BadIndex,
    /// The document names no offset.
    BadOffset,
    /// The document names no duration.
    BadDuration,
}

/// The document for an optional text: the text, or null.
pub open spec fn text_or_null(s: Option<Seq<char>>) -> Doc {
    match s {
        Some(t) => Doc::Text(t),
        None => Doc::Null,
    }
}

/// The document for an optional unsigned number: the number, or null.
pub open spec fn unsigned_or_null(n: Option<u32>) -> Doc {
    match n {
        Some(n) => Doc::Number(Decimal::unsigned(n)),
        None => Doc::Null,
    }
}

/// How a frame rate is written in a commit.
pub open spec fn rate_text(rate: (u32, u32)) -> Seq<char> {
    decimal(rate.0 as nat) + "/"@ + decimal(rate.1 as nat)
}

/// The bindings of the commit of a track, in the order they are written.
pub open spec fn commit_members(track: Track) -> Members {
    seq![
        ("path"@, Doc::Text(track.path)),
        ("index"@, Doc::Number(Decimal::signed(track.index))),
        ("streamtype"@, Doc::Text(track.streamtype)),
        ("id"@, Doc::Text(track.id)),
        ("language"@, text_or_null(track.language)),
        ("codec"@, text_or_null(track.codec)),
        ("offset"@, Doc::Number(track.offset)),
        ("duration"@, Doc::Number(track.duration)),
        ("aspect"@, text_or_null(track.aspect)),
        (
            "framerate"@,
            match track.framerate {
                Some(rate) => Doc::Text(rate_text(rate)),
                None => Doc::Null,
            },
        ),
        ("samplerate"@, unsigned_or_null(track.samplerate)),
        ("channels"@, unsigned_or_null(track.channels)),
        (
            "dialnorm"@,
            match track.dialnorm {
                Some(n) => Doc::Number(Decimal::signed(n)),
                None => Doc::Null,
            },
        ),
        ("dsurmode"@, unsigned_or_null(track.dsurmode)),
    ]
}

/// The document that commits a track.
pub open spec fn commit_doc(track: Track) -> Doc {
    Doc::Object(commit_members(track))
}

/// The track that a commit holds.
///
/// The index, the offset and the duration must be there as numbers. The path,
/// the type and the identifier are read as texts; language, codec and aspect
/// ratio are there or not; a frame rate is read from its text unless it is
/// null; the remaining numbers are there or not.
pub open spec fn commit_track(doc: Doc) -> Result<Track, CommitError> {
    match doc.get("index"@).as_i32() {
        None => Err(CommitError::BadIndex),
        Some(index) => match doc.get("offset"@) {
            Doc::Number(offset) => match doc.get("duration"@) {
                Doc::Number(duration) => Ok(
                    Track {
                        path: display(doc.get("path"@)),
                        index,
                        streamtype: display(doc.get("streamtype"@)),
                        id: display(doc.get("id"@)),
                        language: doc.get("language"@).as_text(),
                        offset,
                        duration,
                        codec: doc.get("codec"@).as_text(),
                        aspect: doc.get("aspect"@).as_text(),
                        framerate: if doc.get("framerate"@) is Null {
                            None
                        } else {
                            Some(framerate_of(display(doc.get("framerate"@))))
                        },
                        samplerate: doc.get("samplerate"@).as_u32(),
                        channels: doc.get("channels"@).as_u32(),
                        dialnorm: doc.get("dialnorm"@).as_i32(),
                        dsurmode: doc.get("dsurmode"@).as_u32(),
                    },
                ),
                _ => Err(CommitError::BadDuration),
            },
            _ => Err(CommitError::BadOffset),
        },
    }
}

/// The track that a commit text holds.
pub open spec fn commit_of(text: Seq<char>) -> Result<Track, CommitError> {
    match parsed(text) {
        Some(doc) => commit_track(doc),
        None => Err(CommitError::Syntax),
    }
}

/// Each key of a commit stands at its own place among the bindings.
proof fn commit_keys_are_placed(track: Track)
    ensures
        crate::value::position(commit_members(track), "path"@) == 0,
        crate::value::position(commit_members(track), "index"@) == 1,
        crate::value::position(commit_members(track), "streamtype"@) == 2,
        crate::value::position(commit_members(track), "id"@) == 3,
        crate::value::position(commit_members(track), "language"@) == 4,
        crate::value::position(commit_members(track), "codec"@) == 5,
        crate::value::position(commit_members(track), "offset"@) == 6,
        crate::value::position(commit_members(track), "duration"@) == 7,
        crate::value::position(commit_members(track), "aspect"@) == 8,
        crate::value::position(commit_members(track), "framerate"@) == 9,
        crate::value::position(commit_members(track), "samplerate"@) == 10,
        crate::value::position(commit_members(track), "channels"@) == 11,
        crate::value::position(commit_members(track), "dialnorm"@) == 12,
        crate::value::position(commit_members(track), "dsurmode"@) == 13,
{
    reveal_strlit("path");
    reveal_strlit("index");
    reveal_strlit("streamtype");
    reveal_strlit("id");
    reveal_strlit("language");
    reveal_strlit("codec");
    reveal_strlit("offset");
    reveal_strlit("duration");
    reveal_strlit("aspect");
    reveal_strlit("framerate");
    reveal_strlit("samplerate");
    reveal_strlit("channels");
    reveal_strlit("dialnorm");
    reveal_strlit("dsurmode");
    assert("path"@.len() == 4 && "path"@[0] == 'p' && "path"@[1] == 'a');
    assert("index"@.len() == 5 && "index"@[0] == 'i' && "index"@[1] == 'n');
    assert("streamtype"@.len() == 10 && "streamtype"@[0] == 's' && "streamtype"@[1] == 't');
    assert("id"@.len() == 2 && "id"@[0] == 'i' && "id"@[1] == 'd');
    assert("language"@.len() == 8 && "language"@[0] == 'l' && "language"@[1] == 'a');
    assert("codec"@.len() == 5 && "codec"@[0] == 'c' && "codec"@[1] == 'o');
    assert("offset"@.len() == 6 && "offset"@[0] == 'o' && "offset"@[1] == 'f');
    assert("duration"@.len() == 8 && "duration"@[0] == 'd' && "duration"@[1] == 'u');
    assert("aspect"@.len() == 6 && "aspect"@[0] == 'a' && "aspect"@[1] == 's');
    assert("framerate"@.len() == 9 && "framerate"@[0] == 'f' && "framerate"@[1] == 'r');
    assert("samplerate"@.len() == 10 && "samplerate"@[0] == 's' && "samplerate"@[1] == 'a');
    assert("channels"@.len() == 8 && "channels"@[0] == 'c' && "channels"@[1] == 'h');
    assert("dialnorm"@.len() == 8 && "dialnorm"@[0] == 'd' && "dialnorm"@[1] == 'i');
    assert("dsurmode"@.len() == 8 && "dsurmode"@[0] == 'd' && "dsurmode"@[1] == 's');
    reveal_with_fuel(crate::value::key_at, 16);
}

/// A commit is stored as it is: no key of it is bound twice, and its values
/// are scalars.
pub proof fn commit_is_settled(track: Track)
    ensures
        settled(commit_doc(track)) == commit_doc(track),
{
    reveal_strlit("path");
    reveal_strlit("index");
    reveal_strlit("streamtype");
    reveal_strlit("id");
    reveal_strlit("language");
    reveal_strlit("codec");
    reveal_strlit("offset");
    reveal_strlit("duration");
    reveal_strlit("aspect");
    reveal_strlit("framerate");
    reveal_strlit("samplerate");
    reveal_strlit("channels");
    reveal_strlit("dialnorm");
    reveal_strlit("dsurmode");
    assert("path"@.len() == 4 && "path"@[0] == 'p' && "path"@[1] == 'a');
    assert("index"@.len() == 5 && "index"@[0] == 'i' && "index"@[1] == 'n');
    assert("streamtype"@.len() == 10 && "streamtype"@[0] == 's' && "streamtype"@[1] == 't');
    assert("id"@.len() == 2 && "id"@[0] == 'i' && "id"@[1] == 'd');
    assert("language"@.len() == 8 && "language"@[0] == 'l' && "language"@[1] == 'a');
    assert("codec"@.len() == 5 && "codec"@[0] == 'c' && "codec"@[1] == 'o');
    assert("offset"@.len() == 6 && "offset"@[0] == 'o' && "offset"@[1] == 'f');
    assert("duration"@.len() == 8 && "duration"@[0] == 'd' && "duration"@[1] == 'u');
    assert("aspect"@.len() == 6 && "aspect"@[0] == 'a' && "aspect"@[1] == 's');
    assert("framerate"@.len() == 9 && "framerate"@[0] == 'f' && "framerate"@[1] == 'r');
    assert("samplerate"@.len() == 10 && "samplerate"@[0] == 's' && "samplerate"@[1] == 'a');
    assert("channels"@.len() == 8 && "channels"@[0] == 'c' && "channels"@[1] == 'h');
    assert("dialnorm"@.len() == 8 && "dialnorm"@[0] == 'd' && "dialnorm"@[1] == 'i');
    assert("dsurmode"@.len() == 8 && "dsurmode"@[0] == 'd' && "dsurmode"@[1] == 's');
    let members = commit_members(track);
    assert(distinct_keys(members));
    assert(crate::codec::settled_members(members) =~= members);
    crate::value::merged_of_distinct(members);
}

/// A commit has depth one: a mapping of values that hold nothing.
pub proof fn commit_is_flat(track: Track)
    ensures
        crate::codec::depth(commit_doc(track)) == 1,
{
    let members = commit_members(track);
    assert forall|i: int| 0 <= i < members.len() implies crate::codec::depth(
        (#[trigger] members[i]).1,
    ) == 0 by {}
    crate::codec::flat_members(members, members.len());
    let doc = commit_doc(track);
    assert(doc->Object_0 == members);
}

/// What is committed is read back: the commit of a track holds that track.
pub proof fn commit_is_read_back(track: Track)
    ensures
        commit_track(commit_doc(track)) == Ok::<Track, CommitError>(track),
{
    commit_keys_are_placed(track);
    reveal_strlit("/");
    match track.framerate {
        Some(rate) => {
            crate::utils::framerate_is_read_back(rate);
            assert(rate_text(rate) =~= decimal(rate.0 as nat) + seq!['/'] + decimal(rate.1 as nat));
        },
        None => {},
    }
    let doc = commit_doc(track);
    assert(doc.get("index"@) == Doc::Number(Decimal::signed(track.index)));
    assert(doc.get("offset"@) == Doc::Number(track.offset));
    assert(doc.get("duration"@) == Doc::Number(track.duration));
    let read = commit_track(doc)->Ok_0;
    assert(read.path == track.path);
    assert(read.index == track.index);
    assert(read.streamtype == track.streamtype);
    assert(read.id == track.id);
    assert(read.language == track.language);
    assert(read.codec == track.codec);
    assert(read.aspect == track.aspect);
    assert(read.framerate == track.framerate);
    assert(read.samplerate == track.samplerate);
    assert(read.channels == track.channels);
    assert(read.dialnorm == track.dialnorm);
    assert(read.dsurmode == track.dsurmode);
}

/// The text under `key`, read as `display` reads it.
fn shown_at(doc: &Value, key: &str) -> (r: String)
    ensures
        r@ == display(doc@.get(key@)),
{
    match doc.get(key) {
        Some(value) => show(value),
        None => show(&Value::Null),
    }
}

/// The text under `key`, if there is a text.
fn text_at(doc: &Value, key: &str) -> (r: Option<String>)
    ensures
        opt_text(r) == doc@.get(key@).as_text(),
{
    match doc.get(key) {
        Some(value) => match value.as_str() {
            Some(s) => Some(String::from_str(s)),
            None => None,
        },
        None => None,
    }
}

/// The unsigned number under `key`, if there is one.
fn unsigned_at(doc: &Value, key: &str) -> (r: Option<u32>)
    ensures
        r == doc@.get(key@).as_u32(),
{
    match doc.get(key) {
        Some(value) => value.as_u32(),
        None => None,
    }
}

/// The signed number under `key`, if there is one.
fn signed_at(doc: &Value, key: &str) -> (r: Option<i32>)
    ensures
        r == doc@.get(key@).as_i32(),
{
    match doc.get(key) {
        Some(value) => value.as_i32(),
        None => None,
    }
}

/// The number under `key`, if there is one.
fn number_at(doc: &Value, key: &str) -> (r: Option<Number>)
    ensures
        r matches Some(n) ==> doc@.get(key@) == Doc::Number(number_model(n)),
        r is None ==> !(doc@.get(key@) is Number),
{
    match doc.get(key) {
        Some(Value::Number(n)) => Some(*n),
        _ => None,
    }
}

/// The document for an optional text.
fn optional_text(s: &Option<String>) -> (r: Value)
    ensures
        r@ == text_or_null(opt_text(*s)),
{
    match s {
        Some(t) => Value::Text(t.clone()),
        None => Value::Null,
    }
}

/// The document for an optional unsigned number.
fn optional_unsigned(n: Option<u32>) -> (r: Value)
    ensures
        r@ == unsigned_or_null(n),
{
    match n {
        Some(n) => Value::from_u32(n),
        None => Value::Null,
    }
}

impl Stream {
    /// The document that commits this track.
    pub fn to_value(&self) -> (r: Value)
        ensures
            r@ == commit_doc(self@),
    {
        let mut members: Vec<(String, Value)> = Vec::new();
        members.push((String::from_str("path"), Value::Text(self.path.clone())));
        members.push((String::from_str("index"), Value::from_i32(self.index)));
        members.push((String::from_str("streamtype"), Value::Text(self.streamtype.clone())));
        members.push((String::from_str("id"), Value::Text(self.id.clone())));
        members.push((String::from_str("language"), optional_text(&self.language)));
        members.push((String::from_str("codec"), optional_text(&self.codec)));
        members.push((String::from_str("offset"), Value::Number(self.offset)));
        members.push((String::from_str("duration"), Value::Number(self.duration)));
        members.push((String::from_str("aspect"), optional_text(&self.aspect)));
        let rate = match self.framerate {
            Some(rate) => Value::Text(
                join3(
                    unsigned_text(rate.0 as u64).as_str(),
                    "/",
                    unsigned_text(rate.1 as u64).as_str(),
                ),
            ),
            None => Value::Null,
        };
        members.push((String::from_str("framerate"), rate));
        members.push((String::from_str("samplerate"), optional_unsigned(self.samplerate)));
        members.push((String::from_str("channels"), optional_unsigned(self.channels)));
        let level = match self.dialnorm {
            Some(n) => Value::from_i32(n),
            None => Value::Null,
        };
        members.push((String::from_str("dialnorm"), level));
        members.push((String::from_str("dsurmode"), optional_unsigned(self.dsurmode)));
        proof {
            object_view(members);
            assert(members_view(members@) =~= commit_members(self@));
        }
        Value::Object(members)
    }

    /// The track that a commit document holds.
    pub fn from_value(doc: &Value) -> (r: Result<Stream, CommitError>)
        ensures
            r matches Ok(stream) ==> commit_track(doc@) == Ok::<Track, CommitError>(stream@),
            r matches Err(e) ==> commit_track(doc@) == Err::<Track, CommitError>(e),
    {
        let index = match signed_at(doc, "index") {
            Some(index) => index,
            None => {
                return Err(CommitError::BadIndex);
            },
        };
        let offset = match number_at(doc, "offset") {
            Some(offset) => offset,
            None => {
                return Err(CommitError::BadOffset);
            },
        };
        let duration = match number_at(doc, "duration") {
            Some(duration) => duration,
            None => {
                return Err(CommitError::BadDuration);
            },
        };
        let rate = match doc.get("framerate") {
            Some(Value::Null) => None,
            Some(value) => Some(framerate(show(value).as_str())),
            None => None,
        };
        Ok(
            Stream {
                path: shown_at(doc, "path"),
                index,
                streamtype: shown_at(doc, "streamtype"),
                id: shown_at(doc, "id"),
                language: text_at(doc, "language"),
                offset,
                duration,
                codec: text_at(doc, "codec"),
                aspect: text_at(doc, "aspect"),
                framerate: rate,
                samplerate: unsigned_at(doc, "samplerate"),
                channels: unsigned_at(doc, "channels"),
                dialnorm: signed_at(doc, "dialnorm"),
                dsurmode: unsigned_at(doc, "dsurmode"),
            },
        )
    }

    /// Reads a track from the text of a commit.
    pub fn load(text: &str) -> (r: Result<Stream, CommitError>)
        ensures
            r matches Ok(stream) ==> commit_of(text@) == Ok::<Track, CommitError>(stream@),
            r matches Err(e) ==> commit_of(text@) == Err::<Track, CommitError>(e),
    {
        match parse(text) {
            Ok(doc) => Stream::from_value(&doc),
            Err(_) => Err(CommitError::Syntax),
        }
    }

    /// Writes this track as the text of a commit: its document, over several
    /// lines with an indent of four.
    pub fn save(&self) -> (r: String)
        ensures
            r@ == pretty_text(commit_doc(self@), 4),
    {
        proof {
            commit_is_settled(self@);
            commit_is_flat(self@);
        }
        pretty(&self.to_value(), 4)
    }

    /// The file to remove once this track is superseded: the file of the
    /// track, if it is still there.
    pub fn cleanup(&self, exists: bool) -> (r: Option<String>)
        ensures
            opt_text(r) == (if exists {
                Some(self@.path)
            } else {
                None
            }),
    {
        if exists {
            Some(self.path.clone())
        } else {
            None
        }
    }
}

/// The model of an input of the muxer.
pub struct InputView {
    pub track: Track,
    pub offset: Seq<char>,
}

/// A track to mux, with the offset it gets in the output.
///
/// `offset` is in seconds, written as the muxer reads numbers. The caller
/// works it out in floating point: for chapters it is the track's offset
/// moved forward by as much as the earliest of the other tracks begins before
/// zero, for every other track it is the track's own offset.
#[derive(Debug, PartialEq)]
pub struct Input {
    pub stream: Stream,
    pub offset: String,
}

impl View for Input {
    type V = InputView;

    open spec fn view(&self) -> InputView {
        InputView { track: self.stream@, offset: self.offset@ }
    }
}

/// The model of a list of inputs.
pub open spec fn inputs_view(inputs: Seq<Input>) -> Seq<InputView> {
    Seq::new(inputs.len(), |i: int| inputs[i]@)
}

/// Whether a track holds chapters.
pub open spec fn is_chapters(track: Track) -> bool {
    track.streamtype == "chapters"@
}

/// The arguments that name the first `n` inputs that are chapters, or those
/// that are not: for each its offset and its file.
pub open spec fn sources_upto(inputs: Seq<InputView>, n: nat, chapters: bool) -> Seq<Seq<char>>
    decreases n,
{
    if n == 0 || n > inputs.len() {
        Seq::empty()
    } else if is_chapters(inputs[n - 1].track) == chapters {
        sources_upto(inputs, (n - 1) as nat, chapters) + seq![
            "-itsoffset"@,
            inputs[n - 1].offset + "s"@,
            "-i"@,
            inputs[n - 1].track.path,
        ]
    } else {
        sources_upto(inputs, (n - 1) as nat, chapters)
    }
}

/// The arguments that map the input at position `i` into the output:
/// chapters as chapters; any other track by its index, with title, source
/// identifier and encoder cleared and the language set, which for video is
/// cleared too.
pub open spec fn mapping(track: Track, i: nat) -> Seq<Seq<char>> {
    if is_chapters(track) {
        seq!["-map_chapters"@, decimal(i)]
    } else {
        let meta = "-metadata:s:"@ + decimal(i);
        seq![
            "-map"@,
            decimal(i) + ":"@ + signed_decimal(track.index as int),
            meta,
            "title="@,
            meta,
            "SOURCE_ID="@,
            meta,
            "ENCODER="@,
            meta,
            if track.streamtype == "video"@ {
                "language="@
            } else {
                "language="@ + (match track.language {
                    Some(tag) => tag,
                    None => Seq::empty(),
                })
            },
        ]
    }
}

/// The arguments that map the first `n` inputs into the output.
pub open spec fn mappings_upto(inputs: Seq<InputView>, n: nat) -> Seq<Seq<char>>
    decreases n,
{
    if n == 0 || n > inputs.len() {
        Seq::empty()
    } else {
        mappings_upto(inputs, (n - 1) as nat) + mapping(inputs[n - 1].track, (n - 1) as nat)
    }
}

/// The arguments that mux the inputs into the file `temp`: the inputs that
/// are no chapters, then the chapters, then the mapping of each input, then
/// what holds of the whole output: streams are copied, only the first audio
/// track is a default, and the title is cleared.
pub open spec fn mux_args(inputs: Seq<InputView>, temp: Seq<char>) -> Seq<Seq<char>> {
    sources_upto(inputs, inputs.len(), false) + sources_upto(inputs, inputs.len(), true)
        + mappings_upto(inputs, inputs.len()) + seq![
        "-codec"@,
        "copy"@,
        "-disposition"@,
        "0"@,
        "-disposition:a:0"@,
        "default"@,
        "-metadata"@,
        "title="@,
        "-y"@,
        temp,
    ]
}

/// The work of muxing the inputs into the file `path`: they are muxed into a
/// temporary file beside it, which is then written anew as `path` and
/// removed.
pub open spec fn mux_plan(inputs: Seq<InputView>, path: Seq<char>) -> PlanView {
    let temp = with_ext(path, "temp.mkv"@);
    PlanView {
        steps: seq![
            strict("ffmpeg"@, mux_args(inputs, temp)),
            strict("mkvmerge"@, seq!["-o"@, path, temp]),
        ],
        remove: seq![temp],
    }
}

/// Adds the arguments that name the inputs that are chapters, or those that
/// are not.
fn push_sources(args: &mut Vec<String>, inputs: &Vec<Input>, chapters: bool)
    ensures
        texts(final(args)@) == texts(old(args)@) + sources_upto(
            inputs_view(inputs@),
            inputs@.len(),
            chapters,
        ),
{
    let ghost start = texts(args@);
    let ghost all = inputs_view(inputs@);
    assert(start + sources_upto(all, 0, chapters) =~= start);
    let mut i: usize = 0;
    while i < inputs.len()
        invariant
            i <= inputs.len(),
            all == inputs_view(inputs@),
            texts(args@) == start + sources_upto(all, i as nat, chapters),
        decreases inputs.len() - i,
    {
        assert(all[i as int] == inputs@[i as int]@);
        if same(inputs[i].stream.streamtype.as_str(), "chapters") == chapters {
            args.push_str("-itsoffset");
            push_text(args, join2(inputs[i].offset.as_str(), "s"));
            args.push_str("-i");
            args.push_str(inputs[i].stream.path.as_str());
            assert(texts(args@) =~= start + sources_upto(all, (i + 1) as nat, chapters));
        }
        i += 1;
    }
}

/// Adds the arguments that map the input at position `i` into the output.
fn push_mapping(args: &mut Vec<String>, stream: &Stream, i: usize)
    ensures
        texts(final(args)@) == texts(old(args)@) + mapping(stream@, i as nat),
{
    let place = unsigned_text(i as u64);
    if same(stream.streamtype.as_str(), "chapters") {
        args.push_str("-map_chapters");
        args.push_str(place.as_str());
        assert(texts(args@) =~= texts(old(args)@) + mapping(stream@, i as nat));
    } else {
        let meta = join2("-metadata:s:", place.as_str());
        args.push_str("-map");
        push_text(args, join3(place.as_str(), ":", signed_text(stream.index as i64).as_str()));
        args.push_str(meta.as_str());
        args.push_str("title=");
        args.push_str(meta.as_str());
        args.push_str("SOURCE_ID=");
        args.push_str(meta.as_str());
        args.push_str("ENCODER=");
        args.push_str(meta.as_str());
        if same(stream.streamtype.as_str(), "video") {
            args.push_str("language=");
        } else {
            match &stream.language {
                Some(tag) => push_text(args, join2("language=", tag.as_str())),
                None => {
                    args.push_str("language=");
                    assert("language="@ + Seq::<char>::empty() =~= "language="@);
                },
            }
        }
        assert(texts(args@) =~= texts(old(args)@) + mapping(stream@, i as nat));
    }
}

/// Plans the muxing of tracks into the file `path`.
pub fn write(inputs: &Vec<Input>, path: &str) -> (r: Plan)
    ensures
        r@ == mux_plan(inputs_view(inputs@), path@),
{
    proof {
        reveal_strlit("temp.mkv");
        reveal_with_fuel(crate::paths::plain_from, 12);
    }
    let temp = with_extension(path, "temp.mkv");
    let ghost all = inputs_view(inputs@);
    let mut args: Vec<String> = Vec::new();
    assert(texts(args@) =~= Seq::empty());
    push_sources(&mut args, inputs, false);
    push_sources(&mut args, inputs, true);
    let ghost sources = texts(args@);
    assert(sources + mappings_upto(all, 0) =~= sources);
    let mut i: usize = 0;
    while i < inputs.len()
        invariant
            i <= inputs.len(),
            all == inputs_view(inputs@),
            texts(args@) == sources + mappings_upto(all, i as nat),
        decreases inputs.len() - i,
    {
        assert(all[i as int] == inputs@[i as int]@);
        push_mapping(&mut args, &inputs[i].stream, i);
        assert(texts(args@) =~= sources + mappings_upto(all, (i + 1) as nat));
        i += 1;
    }
    args.push_str("-codec");
    args.push_str("copy");
    args.push_str("-disposition");
    args.push_str("0");
    args.push_str("-disposition:a:0");
    args.push_str("default");
    args.push_str("-metadata");
    args.push_str("title=");
    args.push_str("-y");
    args.push_str(temp.as_str());
    assert(texts(args@) =~= mux_args(all, temp@));
    let mut merge: Vec<String> = Vec::new();
    assert(texts(merge@) =~= Seq::empty());
    merge.push_str("-o");
    merge.push_str(path);
    merge.push_str(temp.as_str());
    assert(texts(merge@) =~= seq!["-o"@, path@, temp@]);
    let mut steps: Vec<Command> = Vec::new();
    steps.push(Command::new("ffmpeg", args));
    steps.push(Command::new("mkvmerge", merge));
    assert(commands_view(steps@) =~= mux_plan(all, path@).steps);
    let mut remove: Vec<String> = Vec::new();
    assert(texts(remove@) =~= Seq::empty());
    remove.push_str(temp.as_str());
    assert(texts(remove@) =~= seq![temp@]);
    Plan { steps, remove }
}

/// The track index that a probed stream entry names; zero where it names none.
pub open spec fn entry_index(entry: Doc) -> u32 {
    match entry.get("index"@).as_u32() {
        Some(i) => i,
        None => 0,
    }
}

/// The first entry at or after `from` that names the track index `index`;
/// the number of entries if there is none.
pub open spec fn entry_from(entries: Seq<Doc>, index: u32, from: int) -> int
    decreases entries.len() - from,
{
    if from < 0 || from >= entries.len() {
        entries.len() as int
    } else if entry_index(entries[from]) == index {
        from
    } else {
        entry_from(entries, index, from + 1)
    }
}

/// The entry of the track `index` in what was probed of a container.
pub open spec fn probed_entry(data: Doc, index: u32) -> Option<Doc> {
    let entries = data.get("streams"@).members();
    let at = entry_from(entries, index, 0);
    if at < entries.len() {
        Some(entries[at])
    } else {
        None
    }
}

/// Where the length of a probed track is to be read from.
pub enum SpanView {
    /// From hours, minutes and seconds, each a decimal text.
    Clock(Seq<char>, Seq<char>, Seq<char>),
    /// From seconds, a decimal text.
    Seconds(Seq<char>),
    /// The track says nothing of its length, which counts as zero.
    Unknown,
}

/// Where the length of a probed track is to be read from.
#[derive(Debug, PartialEq, Eq)]
pub enum Span {
    /// From hours, minutes and seconds, each a decimal text.
    Clock(String, String, String),
    /// From seconds, a decimal text.
    Seconds(String),
    /// The track says nothing of its length, which counts as zero.
    Unknown,
}

impl View for Span {
    type V = SpanView;

    open spec fn view(&self) -> SpanView {
        match self {
            Span::Clock(h, m, s) => SpanView::Clock(h@, m@, s@),
            Span::Seconds(s) => SpanView::Seconds(s@),
            Span::Unknown => SpanView::Unknown,
        }
    }
}

/// The times of a probed track as the probe wrote them.
#[derive(Debug, PartialEq, Eq)]
pub struct Times {
    /// When the track starts, in seconds.
    pub start: String,
    /// How long the track is.
    pub span: Span,
}

/// The model of the times of a probed track.
pub struct TimesView {
    pub start: Seq<char>,
    pub span: SpanView,
}

impl View for Times {
    type V = TimesView;

    open spec fn view(&self) -> TimesView {
        TimesView { start: self.start@, span: self.span@ }
    }
}

/// A probed duration tag is not made of hours, minutes and seconds.
#[derive(Clone, Copy, Debug, PartialEq, Eq, Structural)]
pub struct BadDuration;

/// The length of a track from a duration tag `H:M:S`: its first three parts
/// between colons. A tag with fewer parts gives none.
pub open spec fn clock_of(tag: Seq<char>) -> Option<SpanView> {
    let a = crate::text::first_at(tag, ':', 0);
    let b = crate::text::first_at(tag, ':', a + 1);
    let c = crate::text::first_at(tag, ':', b + 1);
    if a < tag.len() && b < tag.len() {
        Some(SpanView::Clock(tag.subrange(0, a), tag.subrange(a + 1, b), tag.subrange(b + 1, c)))
    } else {
        None
    }
}

/// Where the times of a probed stream entry are to be read from: the start
/// from its start time; the length from its duration tag, or else from its
/// duration, or else from nothing.
pub open spec fn entry_times(entry: Doc) -> Result<TimesView, BadDuration> {
    let start = display(entry.get("start_time"@));
    let tags = entry.get("tags"@);
    if tags.has_key("DURATION"@) {
        match clock_of(display(tags.get("DURATION"@))) {
            Some(span) => Ok(TimesView { start, span }),
            None => Err(BadDuration),
        }
    } else if entry.has_key("duration"@) {
        Ok(TimesView { start, span: SpanView::Seconds(display(entry.get("duration"@))) })
    } else {
        Ok(TimesView { start, span: SpanView::Unknown })
    }
}

/// The track that a probed stream entry describes.
///
/// `info` is the second probe's account of the same track, `offset` and
/// `duration` are the times of the track. Without a source identifier the
/// track is identified by its type and index. Aspect ratio and frame rate are
/// read for video only; sample rate, channels, dialogue level and surround
/// mode for audio only.
pub open spec fn entry_track(
    file: Seq<char>,
    index: u32,
    entry: Doc,
    info: Doc,
    offset: Decimal,
    duration: Decimal,
) -> Track {
    let streamtype = display(entry.get("codec_type"@));
    let tags = entry.get("tags"@);
    let video = streamtype == "video"@;
    let audio = streamtype == "audio"@;
    let extra = info.get("extra"@);
    Track {
        path: file,
        index: index as i32,
        streamtype,
        id: if tags.has_key("SOURCE_ID"@) {
            display(tags.get("SOURCE_ID"@))
        } else {
            streamtype + ":"@ + decimal(index as nat)
        },
        language: if tags.has_key("language"@) {
            Some(display(tags.get("language"@)))
        } else {
            None
        },
        offset,
        duration,
        codec: Some(display(entry.get("codec_name"@))),
        aspect: if video {
            Some(display(entry.get("display_aspect_ratio"@)))
        } else {
            None
        },
        framerate: if video {
            Some(framerate_of(display(entry.get("avg_frame_rate"@))))
        } else {
            None
        },
        samplerate: if audio {
            unsigned_of(display(info.get("SamplingRate"@)))
        } else {
            None
        },
        channels: if audio {
            entry.get("channels"@).as_u32()
        } else {
            None
        },
        dialnorm: if audio && extra.has_key("dialnorm_Average"@) {
            signed_of(display(extra.get("dialnorm_Average"@)))
        } else {
            None
        },
        dsurmode: if audio && extra.has_key("dsurmod"@) {
            unsigned_of(display(extra.get("dsurmod"@)))
        } else {
            None
        },
    }
}

/// The second probe's account of the track `index`: the item after the first
/// `index` items of its track list, the first item being the container itself.
pub open spec fn probed_info(info: Doc, index: u32) -> Doc {
    info.get("media"@).get("track"@).at(index + 1)
}

/// No stream of a container has the index that was asked for.
#[derive(Clone, Copy, Debug, PartialEq, Eq, Structural)]
pub struct NoSuchStream;

/// The document under `key`; null where there is none.
fn child<'a>(doc: &'a Value, key: &str, null: &'a Value) -> (r: &'a Value)
    requires
        null@ == Doc::Null,
    ensures
        r@ == doc@.get(key@),
{
    match doc.get(key) {
        Some(value) => value,
        None => null,
    }
}

/// The entry of the track `index` in what was probed of a container.
pub fn find_entry(data: &Value, index: u32) -> (r: Option<&Value>)
    ensures
        r is Some == probed_entry(data@, index) is Some,
        r matches Some(entry) ==> probed_entry(data@, index) == Some(entry@),
{
    let list = match data.get("streams") {
        Some(list) => list,
        None => {
            return None;
        },
    };
    let entries = list.members();
    let ghost all = data@.get("streams"@).members();
    assert(all.len() == entries@.len()) by {
        assert(items_view(entries@).len() == entries@.len());
    }
    let mut i: usize = 0;
    while i < entries.len()
        invariant
            i <= entries.len(),
            items_view(entries@) == all,
            all == data@.get("streams"@).members(),
            all.len() == entries@.len(),
            entry_from(all, index, 0) == entry_from(all, index, i as int),
        decreases entries.len() - i,
    {
        assert(all[i as int] == entries@[i as int]@);
        let named = match unsigned_at(&entries[i], "index") {
            Some(n) => n,
            None => 0,
        };
        if named == index {
            return Some(&entries[i]);
        }
        i += 1;
    }
    None
}

/// The length of a track from a duration tag `H:M:S`.
fn clock(tag: &str) -> (r: Option<Span>)
    ensures
        r is Some == clock_of(tag@) is Some,
        r matches Some(span) ==> clock_of(tag@) == Some(span@),
{
    let s = crate::text::chars_of(tag);
    let a = crate::text::find_char(&s, ':', 0);
    if a >= s.len() {
        return None;
    }
    let b = crate::text::find_char(&s, ':', a + 1);
    if b >= s.len() {
        return None;
    }
    let c = crate::text::find_char(&s, ':', b + 1);
    Some(
        Span::Clock(
            crate::text::slice_text(&s, 0, a),
            crate::text::slice_text(&s, a + 1, b),
            crate::text::slice_text(&s, b + 1, c),
        ),
    )
}

/// Where the times of the track `index` of a probed container are to be read
/// from; nothing where the container has no such track.
pub fn times(data: &Value, index: u32) -> (r: Option<Result<Times, BadDuration>>)
    ensures
        r is Some == probed_entry(data@, index) is Some,
        r matches Some(Ok(times)) ==> entry_times(probed_entry(data@, index)->0) == Ok::<
            TimesView,
            BadDuration,
        >(times@),
        r matches Some(Err(e)) ==> entry_times(probed_entry(data@, index)->0) is Err,
{
    let null = Value::Null;
    let entry = match find_entry(data, index) {
        Some(entry) => entry,
        None => {
            return None;
        },
    };
    let start = shown_at(entry, "start_time");
    let tags = child(entry, "tags", &null);
    if tags.has_key("DURATION") {
        match clock(shown_at(tags, "DURATION").as_str()) {
            Some(span) => Some(Ok(Times { start, span })),
            None => Some(Err(BadDuration)),
        }
    } else if entry.has_key("duration") {
        Some(Ok(Times { start, span: Span::Seconds(shown_at(entry, "duration")) }))
    } else {
        Some(Ok(Times { start, span: Span::Unknown }))
    }
}

/// Describes the track `index` of the container `file` from what two probes
/// found in it: `data` is the first probe's account of the container's
/// streams, `info` the second's account of its tracks. `offset` and
/// `duration` are the times of the track, which the caller reads in floating
/// point from where `times` says.
pub fn stream(
    file: &str,
    index: u32,
    data: &Value,
    info: &Value,
    offset: Number,
    duration: Number,
) -> (r: Result<Stream, NoSuchStream>)
    ensures
        r is Ok == (probed_entry(data@, index) is Some && index <= i32::MAX),
        r matches Ok(stream) ==> stream@ == entry_track(
            file@,
            index,
            probed_entry(data@, index)->0,
            probed_info(info@, index),
            number_model(offset),
            number_model(duration),
        ),
{
    let null = Value::Null;
    let entry = match find_entry(data, index) {
        Some(entry) => entry,
        None => {
            return Err(NoSuchStream);
        },
    };
    if index > 0x7fff_ffff {
        return Err(NoSuchStream);
    }
    let tracks = child(child(info, "media", &null), "track", &null);
    let account = match tracks.at(index as usize + 1) {
        Some(account) => account,
        None => &null,
    };
    let streamtype = shown_at(entry, "codec_type");
    let tags = child(entry, "tags", &null);
    let video = same(streamtype.as_str(), "video");
    let audio = same(streamtype.as_str(), "audio");
    let extra = child(account, "extra", &null);
    let id = if tags.has_key("SOURCE_ID") {
        shown_at(tags, "SOURCE_ID")
    } else {
        join3(streamtype.as_str(), ":", unsigned_text(index as u64).as_str())
    };
    let language = if tags.has_key("language") {
        Some(shown_at(tags, "language"))
    } else {
        None
    };
    let aspect = if video {
        Some(shown_at(entry, "display_aspect_ratio"))
    } else {
        None
    };
    let rate = if video {
        Some(framerate(shown_at(entry, "avg_frame_rate").as_str()))
    } else {
        None
    };
    let samplerate = if audio {
        parse_unsigned(shown_at(account, "SamplingRate").as_str())
    } else {
        None
    };
    let channels = if audio {
        unsigned_at(entry, "channels")
    } else {
        None
    };
    let dialnorm = if audio && extra.has_key("dialnorm_Average") {
        parse_signed(shown_at(extra, "dialnorm_Average").as_str())
    } else {
        None
    };
    let dsurmode = if audio && extra.has_key("dsurmod") {
        parse_unsigned(shown_at(extra, "dsurmod").as_str())
    } else {
        None
    };
    Ok(
        Stream {
            path: String::from_str(file),
            index: index as i32,
            streamtype,
            id,
            language,
            offset,
            duration,
            codec: Some(shown_at(entry, "codec_name")),
            aspect,
            framerate: rate,
            samplerate,
            channels,
            dialnorm,
            dsurmode,
        },
    )
}

/// How many streams a probed container says it has; zero where it does not
/// say.
pub open spec fn stream_count(data: Doc) -> u32 {
    match data.get("format"@).get("nb_streams"@).as_u32() {
        Some(n) => n,
        None => 0,
    }
}

/// Whether a probed container has chapters.
pub open spec fn has_chapters(data: Doc) -> bool {
    !data.get("chapters"@).is_empty()
}

/// The track that stands for the chapters of the container `file`.
pub open spec fn chapters_track(file: Seq<char>) -> Track {
    Track {
        path: file,
        index: -1i32,
        streamtype: "chapters"@,
        id: "chapters"@,
        language: None,
        offset: Decimal::unsigned(0),
        duration: Decimal::unsigned(0),
        codec: None,
        aspect: None,
        framerate: None,
        samplerate: None,
        channels: None,
        dialnorm: None,
        dsurmode: None,
    }
}

/// The model of a probe.
pub enum ProbeView {
    Track { file: Seq<char>, index: u32 },
    Chapters(Track),
}

/// One step of describing the tracks of containers.
#[derive(Debug, PartialEq)]
pub enum Probe {
    /// Describe the track `index` of the container `file`.
    Track { file: String, index: u32 },
    /// Take this track, which stands for the chapters of a container.
    Chapters(Stream),
}

impl View for Probe {
    type V = ProbeView;

    open spec fn view(&self) -> ProbeView {
        match self {
            Probe::Track { file, index } => ProbeView::Track { file: file@, index: *index },
            Probe::Chapters(stream) => ProbeView::Chapters(stream@),
        }
    }
}

/// The model of a list of probes.
pub open spec fn probes_view(list: Seq<Probe>) -> Seq<ProbeView> {
    Seq::new(list.len(), |i: int| list[i]@)
}

/// The probes of the first `n` tracks of a container, by index from zero.
pub open spec fn track_probes(file: Seq<char>, n: nat) -> Seq<ProbeView> {
    Seq::new(n, |i: int| ProbeView::Track { file, index: i as u32 })
}

/// The probes of one container, going by what was probed of its layout: its
/// tracks by index from zero, as many as it says it has, and after them its
/// chapters, if it has any.
pub open spec fn file_probes(file: Seq<char>, data: Doc) -> Seq<ProbeView> {
    track_probes(file, stream_count(data) as nat) + (if has_chapters(data) {
        seq![ProbeView::Chapters(chapters_track(file))]
    } else {
        Seq::empty()
    })
}

/// The model of a probed container.
pub struct ProbedView {
    pub file: Seq<char>,
    pub data: Doc,
}

/// A container, with what was probed of its layout.
#[derive(Debug, PartialEq)]
pub struct Probed {
    pub file: String,
    pub data: Value,
}

impl View for Probed {
    type V = ProbedView;

    open spec fn view(&self) -> ProbedView {
        ProbedView { file: self.file@, data: self.data@ }
    }
}

/// The model of a list of probed containers.
pub open spec fn probed_view(list: Seq<Probed>) -> Seq<ProbedView> {
    Seq::new(list.len(), |i: int| list[i]@)
}

/// The probes of the first `n` containers of a list: container by
/// container in the order of the list.
pub open spec fn probes_upto(files: Seq<ProbedView>, n: nat) -> Seq<ProbeView>
    decreases n,
{
    if n == 0 || n > files.len() {
        Seq::empty()
    } else {
        probes_upto(files, (n - 1) as nat) + file_probes(files[n - 1].file, files[n - 1].data)
    }
}

/// The track that stands for the chapters of the container `file`.
pub fn chapters(file: &str) -> (r: Stream)
    ensures
        r@ == chapters_track(file@),
{
    let zero = crate::codec::number_from_u32(0);
    Stream {
        path: String::from_str(file),
        index: -1,
        streamtype: String::from_str("chapters"),
        id: String::from_str("chapters"),
        language: None,
        offset: zero,
        duration: zero,
        codec: None,
        aspect: None,
        framerate: None,
        samplerate: None,
        channels: None,
        dialnorm: None,
        dsurmode: None,
    }
}

/// Adds the probes of the container `file` to a list.
pub fn layout(file: &str, data: &Value, list: &mut Vec<Probe>)
    ensures
        probes_view(final(list)@) == probes_view(old(list)@) + file_probes(file@, data@),
{
    let null = Value::Null;
    let count = match unsigned_at(child(data, "format", &null), "nb_streams") {
        Some(n) => n,
        None => 0,
    };
    let ghost start = probes_view(list@);
    assert(start + track_probes(file@, 0) =~= start);
    let mut i: u32 = 0;
    while i < count
        invariant
            i <= count,
            count == stream_count(data@),
            probes_view(list@) == start + track_probes(file@, i as nat),
        decreases count - i,
    {
        let ghost before = probes_view(list@);
        let probe = Probe::Track { file: String::from_str(file), index: i };
        list.push(probe);
        assert(probes_view(list@) =~= before.push(probe@));
        assert(start + track_probes(file@, (i + 1) as nat) =~= before.push(probe@));
        i += 1;
    }
    if !child(data, "chapters", &null).is_empty() {
        let ghost before = probes_view(list@);
        let probe = Probe::Chapters(chapters(file));
        list.push(probe);
        assert(probes_view(list@) =~= before + seq![probe@]);
        assert(start + file_probes(file@, data@) =~= before + seq![probe@]);
    } else {
        assert(start + file_probes(file@, data@) =~= probes_view(list@));
    }
}

/// The order in which the tracks of an item are described: container by
/// container as they are listed, within a container track by track from
/// index zero, and after the tracks of a container its chapters, if it has
/// any.
pub fn streams(files: &Vec<Probed>) -> (r: Vec<Probe>)
    ensures
        probes_view(r@) == probes_upto(probed_view(files@), files@.len()),
{
    let ghost all = probed_view(files@);
    let mut list: Vec<Probe> = Vec::new();
    assert(probes_view(list@) =~= Seq::empty());
    let mut i: usize = 0;
    while i < files.len()
        invariant
            i <= files.len(),
            all == probed_view(files@),
            probes_view(list@) == probes_upto(all, i as nat),
        decreases files.len() - i,
    {
        assert(all[i as int] == files@[i as int]@);
        layout(files[i].file.as_str(), &files[i].data, &mut list);
        i += 1;
    }
    list
}

/// The model of a normalization.
pub struct NormalizationView {
    pub dir: Seq<char>,
    pub output: Seq<char>,
    pub temp: Seq<char>,
    pub command: CommandView,
}

/// The work of normalizing the metadata of one container: in the directory
/// `dir`, unless the file `output` is there already, `command` writes the
/// container anew as the file `temp`, which is then renamed to `output`.
#[derive(Debug, PartialEq, Eq)]
pub struct Normalization {
    pub dir: String,
    pub output: String,
    pub temp: String,
    pub command: Command,
}

impl View for Normalization {
    type V = NormalizationView;

    open spec fn view(&self) -> NormalizationView {
        NormalizationView {
            dir: self.dir@,
            output: self.output@,
            temp: self.temp@,
            command: self.command@,
        }
    }
}

/// The work of normalizing the container `file` in the directory `dir`. The
/// output is named after the directory.
pub open spec fn normalization(file: Seq<char>, dir: Seq<char>) -> NormalizationView {
    let output = file_in(dir, or_empty(name_of(dir)), "norm.mkv"@);
    let temp = with_ext(output, "temp.mkv"@);
    NormalizationView { dir, output, temp, command: strict("mkvmerge"@, seq!["-o"@, temp, file]) }
}

/// The directory in which one of `count` containers of an item is
/// normalized: the working directory of the item if it is the only one, else
/// a directory of its own in there, named after the container.
pub open spec fn normalize_dir(file: Seq<char>, working: Seq<char>, count: nat) -> Seq<char> {
    if count > 1 {
        joined(working, or_empty(stem_of(file)))
    } else {
        working
    }
}

/// The work of normalizing every container of an item, in order.
pub open spec fn normalizations(files: Seq<Seq<char>>, working: Seq<char>) -> Seq<
    NormalizationView,
> {
    Seq::new(
        files.len(),
        |i: int| normalization(files[i], normalize_dir(files[i], working, files.len())),
    )
}

/// The model of a list of normalizations.
pub open spec fn normalizations_view(list: Seq<Normalization>) -> Seq<NormalizationView> {
    Seq::new(list.len(), |i: int| list[i]@)
}

/// Plans the normalization of the container `file` in the directory `working`.
pub fn normalize_file(file: &str, working: &str) -> (r: Normalization)
    ensures
        r@ == normalization(file@, working@),
{
    let name = text_or_empty(file_name(working));
    proof {
        reveal_strlit("norm.mkv");
        reveal_with_fuel(crate::paths::plain_from, 12);
    }
    let output = output_file(working, name.as_str(), "norm.mkv");
    proof {
        reveal_strlit("temp.mkv");
        reveal_with_fuel(crate::paths::plain_from, 12);
    }
    let temp = with_extension(output.as_str(), "temp.mkv");
    let mut args: Vec<String> = Vec::new();
    assert(texts(args@) =~= Seq::empty());
    args.push_str("-o");
    args.push_str(temp.as_str());
    args.push_str(file);
    assert(texts(args@) =~= seq!["-o"@, temp@, file@]);
    Normalization {
        dir: String::from_str(working),
        output,
        temp,
        command: Command::new("mkvmerge", args),
    }
}

/// Plans the normalization of the containers of an item, with `working` as
/// the working directory of the item.
pub fn normalize(files: &Vec<String>, working: &str) -> (r: Vec<Normalization>)
    ensures
        normalizations_view(r@) == normalizations(texts(files@), working@),
{
    let mut new: Vec<Normalization> = Vec::new();
    let mut i: usize = 0;
    while i < files.len()
        invariant
            i <= files.len(),
            new.len() == i,
            forall|j: int|
                0 <= j < i ==> (#[trigger] new@[j])@ == normalization(
                    files@[j]@,
                    normalize_dir(files@[j]@, working@, files@.len()),
                ),
        decreases files.len() - i,
    {
        let file = files[i].as_str();
        let wdir = if files.len() > 1 {
            let stem = text_or_empty(file_stem(file));
            join(working, stem.as_str())
        } else {
            String::from_str(working)
        };
        new.push(normalize_file(file, wdir.as_str()));
        i += 1;
    }
    assert(normalizations_view(new@) =~= normalizations(texts(files@), working@));
    new
}

/// The arguments that ask the first probe about the container `file`:
/// its account as a document, of the parts that `what` names, after a look
/// deep enough into the file.
pub open spec fn probe_args(file: Seq<char>, what: Seq<Seq<char>>) -> Seq<Seq<char>> {
    seq![file, "-of"@, "json"@] + what + seq![
        "-probesize"@,
        "10G"@,
        "-analyzeduration"@,
        "10G"@,
    ]
}

/// The command that probes the streams of the container `file`.
pub fn streams_probe(file: &str) -> (r: Command)
    ensures
        r@ == strict("ffprobe"@, probe_args(file@, seq!["-show_streams"@])),
{
    let mut args: Vec<String> = Vec::new();
    assert(texts(args@) =~= Seq::empty());
    args.push_str(file);
    args.push_str("-of");
    args.push_str("json");
    args.push_str("-show_streams");
    args.push_str("-probesize");
    args.push_str("10G");
    args.push_str("-analyzeduration");
    args.push_str("10G");
    assert(texts(args@) =~= probe_args(file@, seq!["-show_streams"@]));
    Command::new("ffprobe", args)
}

/// The command that probes the layout of the container `file`: how many
/// streams it has, and its chapters.
pub fn layout_probe(file: &str) -> (r: Command)
    ensures
        r@ == strict("ffprobe"@, probe_args(file@, seq!["-show_format"@, "-show_chapters"@])),
{
    let mut args: Vec<String> = Vec::new();
    assert(texts(args@) =~= Seq::empty());
    args.push_str(file);
    args.push_str("-of");
    args.push_str("json");
    args.push_str("-show_format");
    args.push_str("-show_chapters");
    args.push_str("-probesize");
    args.push_str("10G");
    args.push_str("-analyzeduration");
    args.push_str("10G");
    assert(texts(args@) =~= probe_args(file@, seq!["-show_format"@, "-show_chapters"@]));
    Command::new("ffprobe", args)
}

/// The command that asks the second probe for its account of the tracks of
/// the container `file`.
pub fn info_probe(file: &str) -> (r: Command)
    ensures
        r@ == strict("mediainfo"@, seq![file@, "-F"@, "--Output=JSON"@]),
{
    let mut args: Vec<String> = Vec::new();
    assert(texts(args@) =~= Seq::empty());
    args.push_str(file);
    args.push_str("-F");
    args.push_str("--Output=JSON");
    assert(texts(args@) =~= seq![file@, "-F"@, "--Output=JSON"@]);
    Command::new("mediainfo", args)
}

} // verus!
