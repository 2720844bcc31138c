//! Filtering of video through a script: what the AviSynth and the
//! VapourSynth filters have in common.

use crate::command::{commands_view, Command, CommandView};
use crate::filters::speed::{with_times, Retimed, RetimedView};
use crate::mkv::{Stream, Track};
use crate::utils::texts;
use vstd::prelude::*;

verus! {

/// Why a script cannot be planned.
#[derive(Clone, Copy, Debug, PartialEq, Eq, Structural)]
pub enum ScriptError {
    /// The path of the filter has no file stem to name the script after.
    NoStem,
    /// A path that the plan needs the file name or the directory of has none.
    NoName,
}

/// The model of a pass.
pub struct PassView {
    pub script: Seq<char>,
    pub text: Seq<char>,
    pub command: CommandView,
}

/// A first pass over the video: `text` is written to the file `script`,
/// `command` runs it, and the file is removed again.
#[derive(Debug, PartialEq, Eq)]
pub struct Pass {
    pub script: String,
    pub text: String,
    pub command: Command,
}

impl View for Pass {
    type V = PassView;

    open spec fn view(&self) -> PassView {
        PassView { script: self.script@, text: self.text@, command: self.command@ }
    }
}

/// The model of a script job.
pub struct ScriptView {
    pub prepare: Seq<CommandView>,
    pub first: Option<PassView>,
    pub script: Seq<char>,
    pub text: Seq<char>,
    pub source: CommandView,
    pub sink: CommandView,
    pub path: Seq<char>,
    pub remove: Seq<Seq<char>>,
    pub leftovers: Seq<Seq<char>>,
}

/// The work of filtering a video track through a script.
///
/// The commands of `prepare` run first, then the first pass if there is one.
/// Then `text` is written to the file `script`, and `source` runs with its
/// output as the input of `sink`, which writes the file `path`; only how
/// `sink` ends decides whether that went well. At the end the files of
/// `remove` are removed, and those of `leftovers` that are there.
#[derive(Debug, PartialEq, Eq)]
pub struct ScriptJob {
    pub prepare: Vec<Command>,
    pub first: Option<Pass>,
    pub script: String,
    pub text: String,
    pub source: Command,
    pub sink: Command,
    pub path: String,
    pub remove: Vec<String>,
    pub leftovers: Vec<String>,
}

impl View for ScriptJob {
    type V = ScriptView;

    open spec fn view(&self) -> ScriptView {
        ScriptView {
            prepare: commands_view(self.prepare@),
            first: match self.first {
                Some(pass) => Some(pass@),
                None => None,
            },
            script: self.script@,
            text: self.text@,
            source: self.source@,
            sink: self.sink@,
            path: self.path@,
            remove: texts(self.remove@),
            leftovers: texts(self.leftovers@),
        }
    }
}

/// The arguments with which the encoder takes the filtered video from its
/// input and writes it, losslessly, to the file `path`.
pub open spec fn sink_args(track: Track, path: Seq<char>) -> Seq<Seq<char>> {
    seq!["-i"@, "pipe:"@, "-codec"@, "ffv1"@, "-map"@, "0"@] + (match track.aspect {
        Some(aspect) => seq!["-aspect"@, aspect],
        None => Seq::empty(),
    }) + seq!["-y"@, path]
}

/// The arguments with which the encoder writes the filtered video.
pub fn sink_part(stream: &Stream, path: &str) -> (r: Vec<String>)
    ensures
        texts(r@) == sink_args(stream@, path@),
{
    let mut args: Vec<String> = Vec::new();
    assert(texts(args@) =~= Seq::empty());
    crate::utils::StrVec::push_str(&mut args, "-i");
    crate::utils::StrVec::push_str(&mut args, "pipe:");
    crate::utils::StrVec::push_str(&mut args, "-codec");
    crate::utils::StrVec::push_str(&mut args, "ffv1");
    crate::utils::StrVec::push_str(&mut args, "-map");
    crate::utils::StrVec::push_str(&mut args, "0");
    match &stream.aspect {
        Some(aspect) => {
            crate::utils::StrVec::push_str(&mut args, "-aspect");
            crate::utils::StrVec::push_str(&mut args, aspect.as_str());
        },
        None => {},
    }
    crate::utils::StrVec::push_str(&mut args, "-y");
    crate::utils::StrVec::push_str(&mut args, path);
    assert(texts(args@) =~= sink_args(stream@, path@));
    args
}

/// The track that a script leaves in the file `path`: the first track of the
/// file, stored losslessly, with times that follow the change in length.
pub open spec fn filtered(track: Track, path: Seq<char>, retimed: RetimedView) -> Track {
    Track { path, index: 0, codec: Some("ffv1"@), ..with_times(track, retimed) }
}

/// The track that a script leaves. `retimed` holds the times of the track
/// after the change in length that the script brought, which the caller
/// works out in floating point.
pub fn finish(stream: &Stream, path: &str, retimed: &Retimed) -> (r: Stream)
    ensures
        r@ == filtered(stream@, path@, retimed@),
{
    let mut new = stream.copy();
    new.path = String::from_str(path);
    new.index = 0;
    new.codec = Some(String::from_str("ffv1"));
    new.offset = retimed.offset;
    new.duration = retimed.duration;
    new
}

} // verus!
