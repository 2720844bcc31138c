//! Filtering of video through a VapourSynth script.

use crate::command::{careless, commands_view, strict, Command};
use crate::filters::script::{sink_args, sink_part, ScriptError, ScriptJob, ScriptView};
use crate::mkv::{Stream, Track};
use crate::paths::{file_stem, join, joined, stem_of, with_ext, with_extension};
use crate::text::{
    chars_of, contains, find_char, first_at, join2, occurs, parse_unsigned, replace, replaced,
    same, slice_text, trim, trimmed, unsigned_of,
};
use crate::utils::{framerate, framerate_of, texts, StrVec};
use vstd::prelude::*;

verus! {

/// The work of filtering a video track through the VapourSynth script at
/// `filter`, whose text is `template`, into the directory `output`.
///
/// A script that asks for an index of the raw video gets the video extracted
/// and the index built first.
pub open spec fn script_job(
    track: Track,
    output: Seq<char>,
    filter: Seq<char>,
    template: Seq<char>,
) -> Result<ScriptView, ScriptError> {
    match stem_of(filter) {
        None => Err(ScriptError::NoStem),
        Some(name) => {
            let script = joined(output, track.id + "."@ + name + ".vpy"@);
            let path = with_ext(script, "vpy.mkv"@);
            let mpg = with_ext(script, "vpy.mpg"@);
            let d2v = with_ext(script, "vpy.d2v"@);
            let t2 = replaced(replaced(template, "$(mkv)$"@, track.path), "$(vpy)$"@, filter);
            let indexed = occurs(t2, "$(d2v)$"@);
            Ok(
                ScriptView {
                    prepare: if indexed {
                        seq![
                            strict("mkvextract"@, seq![track.path, "tracks"@, "0:"@ + mpg]),
                            strict("d2vwitch"@, seq!["--output"@, d2v, mpg]),
                        ]
                    } else {
                        Seq::empty()
                    },
                    first: None,
                    script,
                    text: if indexed {
                        replaced(t2, "$(d2v)$"@, d2v)
                    } else {
                        t2
                    },
                    source: careless("vspipe"@, seq![script, "-"@, "-c"@, "y4m"@]),
                    sink: strict("ffmpeg"@, sink_args(track, path)),
                    path,
                    remove: seq![script],
                    leftovers: seq![mpg, d2v],
                },
            )
        },
    }
}

/// Plans the filtering of a video track through the VapourSynth script at
/// `filter`, whose text is `template`.
pub fn run(stream: &Stream, output: &str, filter: &str, template: &str) -> (r: Result<
    ScriptJob,
    ScriptError,
>)
    ensures
        r matches Ok(job) ==> script_job(stream@, output@, filter@, template@) == Ok::<
            ScriptView,
            ScriptError,
        >(job@),
        r matches Err(e) ==> script_job(stream@, output@, filter@, template@) == Err::<
            ScriptView,
            ScriptError,
        >(e),
{
    let name = match file_stem(filter) {
        Some(name) => name,
        None => {
            return Err(ScriptError::NoStem);
        },
    };
    let mut file = join2(stream.id.as_str(), ".");
    file.append(name.as_str());
    file.append(".vpy");
    let script = join(output, file.as_str());
    proof {
        reveal_strlit("vpy.mkv");
        reveal_with_fuel(crate::paths::plain_from, 12);
    }
    let path = with_extension(script.as_str(), "vpy.mkv");
    proof {
        reveal_strlit("vpy.mpg");
        reveal_with_fuel(crate::paths::plain_from, 12);
    }
    let mpg = with_extension(script.as_str(), "vpy.mpg");
    proof {
        reveal_strlit("vpy.d2v");
        reveal_with_fuel(crate::paths::plain_from, 12);
    }
    let d2v = with_extension(script.as_str(), "vpy.d2v");
    let t1 = replace(template, "$(mkv)$", stream.path.as_str());
    let t2 = replace(t1.as_str(), "$(vpy)$", filter);
    let indexed = contains(t2.as_str(), "$(d2v)$");
    let mut prepare: Vec<Command> = Vec::new();
    assert(commands_view(prepare@) =~= Seq::empty());
    if indexed {
        let mut take: Vec<String> = Vec::new();
        assert(texts(take@) =~= Seq::empty());
        take.push_str(stream.path.as_str());
        take.push_str("tracks");
        crate::utils::push_text(&mut take, join2("0:", mpg.as_str()));
        assert(texts(take@) =~= seq![stream@.path, "tracks"@, "0:"@ + mpg@]);
        prepare.push(Command::new("mkvextract", take));
        let mut index: Vec<String> = Vec::new();
        assert(texts(index@) =~= Seq::empty());
        index.push_str("--output");
        index.push_str(d2v.as_str());
        index.push_str(mpg.as_str());
        assert(texts(index@) =~= seq!["--output"@, d2v@, mpg@]);
        prepare.push(Command::new("d2vwitch", index));
    }
    let text = if indexed {
        replace(t2.as_str(), "$(d2v)$", d2v.as_str())
    } else {
        t2
    };
    let mut pipe: Vec<String> = Vec::new();
    assert(texts(pipe@) =~= Seq::empty());
    pipe.push_str(script.as_str());
    pipe.push_str("-");
    pipe.push_str("-c");
    pipe.push_str("y4m");
    assert(texts(pipe@) =~= seq![script@, "-"@, "-c"@, "y4m"@]);
    let source = Command::new_careless("vspipe", pipe);
    let sink = Command::new("ffmpeg", sink_part(stream, path.as_str()));
    let mut remove: Vec<String> = Vec::new();
    assert(texts(remove@) =~= Seq::empty());
    remove.push_str(script.as_str());
    let mut leftovers: Vec<String> = Vec::new();
    assert(texts(leftovers@) =~= Seq::empty());
    leftovers.push_str(mpg.as_str());
    leftovers.push_str(d2v.as_str());
    let ghost want = script_job(stream@, output@, filter@, template@)->Ok_0;
    assert(commands_view(prepare@) =~= want.prepare);
    assert(texts(remove@) =~= want.remove);
    assert(texts(leftovers@) =~= want.leftovers);
    Ok(ScriptJob { prepare, first: None, script, text, source, sink, path, remove, leftovers })
}

/// The command that asks what video the script at `script` produces. It
/// tells by its output; how it ends does not matter.
pub fn info_command(script: &str) -> (r: Command)
    ensures
        r@ == careless("vspipe"@, seq!["-i"@, script@]),
{
    let mut args: Vec<String> = Vec::new();
    assert(texts(args@) =~= Seq::empty());
    args.push_str("-i");
    args.push_str(script);
    assert(texts(args@) =~= seq!["-i"@, script@]);
    Command::new_careless("vspipe", args)
}

/// What a script says of its video: the number of frames and the frame rate.
pub type Info = (u32, (u32, u32));

/// A line of the script's account is not as expected.
#[derive(Clone, Copy, Debug, PartialEq, Eq, Structural)]
pub struct BadInfo;

/// What stands before the first colon of a line.
pub open spec fn label_of(line: Seq<char>) -> Seq<char> {
    line.subrange(0, first_at(line, ':', 0))
}

/// What stands between the first and the second colon of a line, if the line
/// has a colon.
pub open spec fn value_of(line: Seq<char>) -> Option<Seq<char>> {
    let a = first_at(line, ':', 0);
    if a < line.len() {
        Some(line.subrange(a + 1, first_at(line, ':', a + 1)))
    } else {
        None
    }
}

/// What is known of the video after a line of the script's account, where
/// `so_far` was known before it: a line labelled `Frames` gives the number
/// of frames, one labelled `FPS` the frame rate, which is the first word of
/// its value; any other line gives nothing new.
pub open spec fn after_line(line: Seq<char>, so_far: Info) -> Result<Info, BadInfo> {
    if label_of(line) == "Frames"@ {
        match value_of(line) {
            None => Err(BadInfo),
            Some(value) => match unsigned_of(trimmed(value)) {
                None => Err(BadInfo),
                Some(frames) => Ok((frames, so_far.1)),
            },
        }
    } else if label_of(line) == "FPS"@ {
        match value_of(line) {
            None => Err(BadInfo),
            Some(value) => {
                let words = trimmed(value);
                Ok((so_far.0, framerate_of(words.subrange(0, first_at(words, ' ', 0)))))
            },
        }
    } else {
        Ok(so_far)
    }
}

/// What is known of the video after the lines of the script's account from
/// the one that begins at `from` on, where `so_far` was known before them.
pub open spec fn info_from(text: Seq<char>, from: int, so_far: Info) -> Result<Info, BadInfo>
    decreases text.len() - from,
{
    if from < 0 || from > text.len() {
        Ok(so_far)
    } else {
        let end = first_at(text, '\n', from);
        match after_line(text.subrange(from, end), so_far) {
            Err(e) => Err(e),
            Ok(known) => if from <= end < text.len() {
                info_from(text, end + 1, known)
            } else {
                Ok(known)
            },
        }
    }
}

/// What is known of the video after one line of the script's account.
fn read_line(line: &str, so_far: Info) -> (r: Result<Info, BadInfo>)
    ensures
        r == after_line(line@, so_far),
{
    let s = chars_of(line);
    let a = find_char(&s, ':', 0);
    let label = slice_text(&s, 0, a);
    let frames = same(label.as_str(), "Frames");
    let fps = same(label.as_str(), "FPS");
    if !frames && !fps {
        return Ok(so_far);
    }
    if a >= s.len() {
        return Err(BadInfo);
    }
    let b = find_char(&s, ':', a + 1);
    let value = trim(slice_text(&s, a + 1, b).as_str());
    if frames {
        match parse_unsigned(value.as_str()) {
            Some(n) => Ok((n, so_far.1)),
            None => Err(BadInfo),
        }
    } else {
        let words = chars_of(value.as_str());
        let space = find_char(&words, ' ', 0);
        Ok((so_far.0, framerate(slice_text(&words, 0, space).as_str())))
    }
}

/// Reads the number of frames and the frame rate from what a script says of
/// its video. What the account does not say counts as zero.
pub fn script_info(text: &str) -> (r: Result<Info, BadInfo>)
    ensures
        r == info_from(text@, 0, (0u32, (0u32, 0u32))),
{
    let s = chars_of(text);
    let mut known: Info = (0, (0, 0));
    let mut from: usize = 0;
    loop
        invariant
            from <= s.len(),
            s@ == text@,
            info_from(text@, 0, (0u32, (0u32, 0u32))) == info_from(text@, from as int, known),
        decreases s.len() - from,
    {
        let end = find_char(&s, '\n', from);
        let line = slice_text(&s, from, end);
        match read_line(line.as_str(), known) {
            Ok(next) => {
                known = next;
            },
            Err(e) => {
                return Err(e);
            },
        }
        if end < s.len() {
            from = end + 1;
        } else {
            return Ok(known);
        }
    }
}

} // verus!
