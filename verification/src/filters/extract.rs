//! Extraction: a track is taken out of its container into a file of its own.

use crate::command::{commands_view, lenient, strict, Command, CommandView, Job, JobView};
use crate::mkv::{Stream, Track};
use crate::paths::{file_in, output_file, with_ext, with_extension};
use crate::text::{
    begins_with, chars_of, find_char, first_at, join3, same, signed_decimal, signed_text,
    slice_begins_with, string_of,
};
use crate::utils::{texts, StrVec};
use vstd::prelude::*;

verus! {

/// The model of the extraction of chapters.
pub struct ChaptersView {
    pub command: CommandView,
    pub path: Seq<char>,
    pub result: Track,
}

/// The work of extracting chapters: the command writes the container's
/// metadata to its standard output; that text, without its title lines, goes
/// into the file at `path`; the track then is `result`.
#[derive(Debug, PartialEq)]
pub struct ChaptersJob {
    pub command: Command,
    pub path: String,
    pub result: Stream,
}

impl View for ChaptersJob {
    type V = ChaptersView;

    open spec fn view(&self) -> ChaptersView {
        ChaptersView { command: self.command@, path: self.path@, result: self.result@ }
    }
}

/// The model of an extraction.
pub enum ExtractionView {
    Tracks(JobView),
    Chapters(ChaptersView),
}

/// The work of extracting a track.
#[derive(Debug, PartialEq)]
pub enum Extraction {
    /// A track of sound, picture or subtitles.
    Tracks(Job),
    /// The chapters of the container.
    Chapters(ChaptersJob),
}

impl View for Extraction {
    type V = ExtractionView;

    open spec fn view(&self) -> ExtractionView {
        match self {
            Extraction::Tracks(job) => ExtractionView::Tracks(job@),
            Extraction::Chapters(job) => ExtractionView::Chapters(job@),
        }
    }
}

/// The work of extracting a track of sound, picture or subtitles into the
/// directory `output`: the raw track is taken out, wrapped into a container
/// of its own, and the raw files are removed. Subtitles in the DVD format come
/// out as an index and a data file.
pub open spec fn stream_job(track: Track, output: Seq<char>) -> JobView {
    let path = file_in(output, track.id, "mkv"@);
    let raw = with_ext(path, "temp.raw"@);
    let take = strict(
        "mkvextract"@,
        seq![track.path, "tracks"@, signed_decimal(track.index as int) + ":"@ + raw],
    );
    let result = Track { path, index: 0, ..track };
    if track.codec == Some("dvd_subtitle"@) {
        let idx = with_ext(raw, "idx"@);
        let sub = with_ext(raw, "sub"@);
        JobView {
            steps: seq![take, lenient("mkvmerge"@, seq!["-o"@, path, idx, sub])],
            remove: seq![idx, sub],
            result,
        }
    } else {
        JobView {
            steps: seq![take, lenient("mkvmerge"@, seq!["-o"@, path, raw])],
            remove: seq![raw],
            result,
        }
    }
}

/// Plans the extraction of a track of sound, picture or subtitles.
pub fn extract_stream(stream: &Stream, output: &str) -> (r: Job)
    ensures
        r@ == stream_job(stream@, output@),
{
    proof {
        reveal_strlit("mkv");
        reveal_with_fuel(crate::paths::plain_from, 12);
    }
    let path = output_file(output, stream.id.as_str(), "mkv");
    proof {
        reveal_strlit("temp.raw");
        reveal_with_fuel(crate::paths::plain_from, 12);
    }
    let raw = with_extension(path.as_str(), "temp.raw");
    let mut take: Vec<String> = Vec::new();
    assert(texts(take@) =~= Seq::empty());
    take.push_str(stream.path.as_str());
    take.push_str("tracks");
    crate::utils::push_text(
        &mut take,
        join3(signed_text(stream.index as i64).as_str(), ":", raw.as_str()),
    );
    assert(texts(take@) =~= stream_job(stream@, output@).steps[0].args);
    let dvd = match &stream.codec {
        Some(codec) => same(codec.as_str(), "dvd_subtitle"),
        None => false,
    };
    let mut wrap: Vec<String> = Vec::new();
    assert(texts(wrap@) =~= Seq::empty());
    let mut remove: Vec<String> = Vec::new();
    assert(texts(remove@) =~= Seq::empty());
    wrap.push_str("-o");
    wrap.push_str(path.as_str());
    if dvd {
        proof {
            reveal_strlit("idx");
            reveal_with_fuel(crate::paths::plain_from, 12);
        }
        let idx = with_extension(raw.as_str(), "idx");
        proof {
            reveal_strlit("sub");
            reveal_with_fuel(crate::paths::plain_from, 12);
        }
        let sub = with_extension(raw.as_str(), "sub");
        wrap.push_str(idx.as_str());
        wrap.push_str(sub.as_str());
        remove.push_str(idx.as_str());
        remove.push_str(sub.as_str());
    } else {
        wrap.push_str(raw.as_str());
        remove.push_str(raw.as_str());
    }
    assert(texts(wrap@) =~= stream_job(stream@, output@).steps[1].args);
    assert(texts(remove@) =~= stream_job(stream@, output@).remove);
    let first = Command::new("mkvextract", take);
    let second = Command::new_lenient("mkvmerge", wrap);
    let mut steps: Vec<Command> = Vec::new();
    steps.push(first);
    steps.push(second);
    assert(commands_view(steps@) =~= stream_job(stream@, output@).steps);
    let mut new = stream.copy();
    new.path = path;
    new.index = 0;
    Job { steps, remove, result: new }
}

/// The work of extracting the chapters of a container into the directory
/// `output`.
pub open spec fn chapters_job(track: Track, output: Seq<char>) -> ChaptersView {
    let path = file_in(output, track.id, "txt"@);
    ChaptersView {
        command: strict("ffmpeg"@, seq!["-i"@, track.path, "-f"@, "ffmetadata"@, "-y"@, "-"@]),
        path,
        result: Track { path, ..track },
    }
}

/// Plans the extraction of the chapters of a container.
pub fn extract_chapters(stream: &Stream, output: &str) -> (r: ChaptersJob)
    ensures
        r@ == chapters_job(stream@, output@),
{
    proof {
        reveal_strlit("txt");
        reveal_with_fuel(crate::paths::plain_from, 12);
    }
    let path = output_file(output, stream.id.as_str(), "txt");
    let mut args: Vec<String> = Vec::new();
    assert(texts(args@) =~= Seq::empty());
    args.push_str("-i");
    args.push_str(stream.path.as_str());
    args.push_str("-f");
    args.push_str("ffmetadata");
    args.push_str("-y");
    args.push_str("-");
    assert(texts(args@) =~= chapters_job(stream@, output@).command.args);
    let mut new = stream.copy();
    new.path = path.clone();
    ChaptersJob { command: Command::new("ffmpeg", args), path, result: new }
}

/// The work of extracting a track into the directory `output`: chapters one
/// way, every other type of track the other.
pub open spec fn extraction(track: Track, output: Seq<char>) -> ExtractionView {
    if track.streamtype != "chapters"@ {
        ExtractionView::Tracks(stream_job(track, output))
    } else {
        ExtractionView::Chapters(chapters_job(track, output))
    }
}

/// Plans the extraction of a track.
pub fn run(stream: &Stream, output: &str) -> (r: Extraction)
    ensures
        r@ == extraction(stream@, output@),
{
    if !same(stream.streamtype.as_str(), "chapters") {
        Extraction::Tracks(extract_stream(stream, output))
    } else {
        Extraction::Chapters(extract_chapters(stream, output))
    }
}

/// A metadata text from the line that begins at `from` on, without the lines
/// that begin with `title`. Lines end in a line feed; what follows the last
/// line feed is a line too, and every line that is kept ends in a line feed.
pub open spec fn untitled(text: Seq<char>, from: int) -> Seq<char>
    decreases text.len() - from,
{
    if from < 0 || from > text.len() {
        Seq::empty()
    } else {
        let end = first_at(text, '\n', from);
        let line = text.subrange(from, end);
        let kept = if begins_with(line, "title"@) {
            Seq::empty()
        } else {
            line.push('\n')
        };
        if from <= end < text.len() {
            kept + untitled(text, end + 1)
        } else {
            kept
        }
    }
}

/// Removes the chapter titles from a metadata text.
pub fn strip_titles(text: &str) -> (r: String)
    ensures
        r@ == untitled(text@, 0),
{
    let s = chars_of(text);
    let title = chars_of("title");
    let mut out: Vec<char> = Vec::new();
    let mut from: usize = 0;
    loop
        invariant
            from <= s.len(),
            s@ == text@,
            title@ == "title"@,
            untitled(text@, 0) == out@ + untitled(text@, from as int),
        decreases s.len() - from,
    {
        let end = find_char(&s, '\n', from);
        let ghost before = out@;
        if !slice_begins_with(&s, from, end, &title) {
            let mut i: usize = from;
            while i < end
                invariant
                    from <= i <= end <= s.len(),
                    out@ == before + s@.subrange(from as int, i as int),
                decreases end - i,
            {
                out.push(s[i]);
                assert(s@.subrange(from as int, i as int).push(s@[i as int]) =~= s@.subrange(
                    from as int,
                    i + 1,
                ));
                i += 1;
            }
            out.push('\n');
        }
        if end < s.len() {
            assert(untitled(text@, 0) =~= out@ + untitled(text@, end + 1));
            from = end + 1;
        } else {
            assert(untitled(text@, 0) =~= out@);
            return string_of(&out);
        }
    }
}

} // verus!
