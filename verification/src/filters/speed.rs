//! Retiming of tracks to another frame rate.

use crate::codec::number_model;
use crate::command::{strict, Command, Job, JobView};
use crate::mkv::{Stream, Track};
use crate::paths::{file_in, output_file};
use crate::text::{
    begins_with, chars_of, decimal, find_char, first_at, join2, join3, signed_decimal,
    signed_text, slice_begins_with, slice_text, string_of, unsigned_text,
};
use crate::utils::{framerate, framerate_of, push_text, texts, StrVec};
use crate::value::Decimal;
use json::number::Number;
use vstd::prelude::*;

verus! {

/// The model of a retiming.
pub struct RetimedView {
    pub factor: Seq<char>,
    pub offset: Decimal,
    pub duration: Decimal,
}

/// What a speed-up factor makes of a track's times.
///
/// The factor is a ratio of frame rates and the times are seconds; both are
/// worked out in floating point by the caller. `factor` is the factor as it
/// is written in a command, `offset` and `duration` are the track's times
/// divided by it.
#[derive(Debug, PartialEq)]
pub struct Retimed {
    pub factor: String,
    pub offset: Number,
    pub duration: Number,
}

impl View for Retimed {
    type V = RetimedView;

    open spec fn view(&self) -> RetimedView {
        RetimedView {
            factor: self.factor@,
            offset: number_model(self.offset),
            duration: number_model(self.duration),
        }
    }
}

/// A retiming needs the sample rate of the audio track, and the track has none.
#[derive(Clone, Copy, Debug, PartialEq, Eq, Structural)]
pub struct NoSampleRate;

/// The argument that picks a track of the first input.
pub open spec fn map_arg(index: i32) -> Seq<char> {
    "0:"@ + signed_decimal(index as int)
}

/// The argument that picks a track of the first input.
pub fn map_text(index: i32) -> (r: String)
    ensures
        r@ == map_arg(index),
{
    join2("0:", signed_text(index as i64).as_str())
}

/// A track with the times of a retiming.
pub open spec fn with_times(track: Track, retimed: RetimedView) -> Track {
    Track { offset: retimed.offset, duration: retimed.duration, ..track }
}

/// The work of stamping the frame rate `rate` on a video track: the
/// container is written anew with that rate as the track's frame duration.
pub open spec fn video_job(
    track: Track,
    output: Seq<char>,
    rate: (u32, u32),
    retimed: RetimedView,
) -> JobView {
    let path = file_in(output, track.id, "speed.mkv"@);
    JobView {
        steps: seq![
            strict(
                "mkvmerge"@,
                seq![
                    "-o"@,
                    path,
                    "--default-duration"@,
                    signed_decimal(track.index as int) + ":"@ + decimal(rate.0 as nat) + "/"@
                        + decimal(rate.1 as nat) + "p"@,
                    "--fix-bitstream-timing-information"@,
                    signed_decimal(track.index as int) + ":true"@,
                    track.path,
                ],
            ),
        ],
        remove: Seq::empty(),
        result: Track { path, framerate: Some(rate), ..with_times(track, retimed) },
    }
}

/// Plans the retiming of a video track to the frame rate `framerate`.
pub fn change_video(stream: &Stream, output: &str, framerate: (u32, u32), retimed: &Retimed) -> (r:
    Job)
    ensures
        r@ == video_job(stream@, output@, framerate, retimed@),
{
    proof {
        reveal_strlit("speed.mkv");
        reveal_with_fuel(crate::paths::plain_from, 12);
    }
    let path = output_file(output, stream.id.as_str(), "speed.mkv");
    let index = signed_text(stream.index as i64);
    let mut args: Vec<String> = Vec::new();
    assert(texts(args@) =~= Seq::empty());
    args.push_str("-o");
    args.push_str(path.as_str());
    args.push_str("--default-duration");
    let mut duration = join2(index.as_str(), ":");
    duration.append(unsigned_text(framerate.0 as u64).as_str());
    duration.append("/");
    duration.append(unsigned_text(framerate.1 as u64).as_str());
    duration.append("p");
    push_text(&mut args, duration);
    args.push_str("--fix-bitstream-timing-information");
    push_text(&mut args, join2(index.as_str(), ":true"));
    args.push_str(stream.path.as_str());
    assert(texts(args@) =~= video_job(stream@, output@, framerate, retimed@).steps[0].args);
    let mut new = stream.copy();
    new.path = path;
    new.framerate = Some(framerate);
    new.offset = retimed.offset;
    new.duration = retimed.duration;
    Job::single(Command::new("mkvmerge", args), new)
}

/// The arguments that resample an audio track by a factor into the file
/// `path`, keeping its sample rate `rate`.
pub open spec fn audio_args(track: Track, path: Seq<char>, rate: u32, factor: Seq<char>) -> Seq<
    Seq<char>,
> {
    seq![
        "-i"@,
        track.path,
        "-map"@,
        map_arg(track.index),
        "-af"@,
        "asetrate="@ + decimal(rate as nat) + "*"@ + factor + ",aresample"@,
        "-ar"@,
        decimal(rate as nat),
        "-resampler"@,
        "soxr"@,
        "-codec"@,
        "pcm_f32le"@,
        "-y"@,
        path,
    ]
}

/// The work of retiming an audio track: it is resampled by the factor, which
/// changes its length and its pitch alike.
pub open spec fn audio_job(track: Track, output: Seq<char>, retimed: RetimedView) -> Result<
    JobView,
    NoSampleRate,
> {
    let path = file_in(output, track.id, "speed.w64"@);
    match track.samplerate {
        None => Err(NoSampleRate),
        Some(rate) => Ok(
            JobView {
                steps: seq![strict("ffmpeg"@, audio_args(track, path, rate, retimed.factor))],
                remove: Seq::empty(),
                result: Track {
                    path,
                    index: 0,
                    codec: Some("pcm_f32le"@),
                    ..with_times(track, retimed)
                },
            },
        ),
    }
}

/// Plans the retiming of an audio track.
pub fn change_audio(stream: &Stream, output: &str, retimed: &Retimed) -> (r: Result<
    Job,
    NoSampleRate,
>)
    ensures
        r is Ok == audio_job(stream@, output@, retimed@) is Ok,
        r matches Ok(job) ==> audio_job(stream@, output@, retimed@) == Ok::<JobView, NoSampleRate>(
            job@,
        ),
{
    let rate = match stream.samplerate {
        Some(rate) => rate,
        None => {
            return Err(NoSampleRate);
        },
    };
    proof {
        reveal_strlit("speed.w64");
        reveal_with_fuel(crate::paths::plain_from, 12);
    }
    let path = output_file(output, stream.id.as_str(), "speed.w64");
    let hertz = unsigned_text(rate as u64);
    let mut args: Vec<String> = Vec::new();
    assert(texts(args@) =~= Seq::empty());
    args.push_str("-i");
    args.push_str(stream.path.as_str());
    args.push_str("-map");
    push_text(&mut args, map_text(stream.index));
    args.push_str("-af");
    let mut filter = join3("asetrate=", hertz.as_str(), "*");
    filter.append(retimed.factor.as_str());
    filter.append(",aresample");
    push_text(&mut args, filter);
    args.push_str("-ar");
    args.push_str(hertz.as_str());
    args.push_str("-resampler");
    args.push_str("soxr");
    args.push_str("-codec");
    args.push_str("pcm_f32le");
    args.push_str("-y");
    args.push_str(path.as_str());
    assert(texts(args@) =~= audio_args(stream@, path@, rate, retimed@.factor));
    let mut new = stream.copy();
    new.path = path;
    new.index = 0;
    new.codec = Some(String::from_str("pcm_f32le"));
    new.offset = retimed.offset;
    new.duration = retimed.duration;
    Ok(Job::single(Command::new("ffmpeg", args), new))
}

/// The work of retiming a subtitle track: its timestamps are divided by the
/// factor, the subtitles themselves are copied.
pub open spec fn subtitles_job(track: Track, output: Seq<char>, retimed: RetimedView) -> JobView {
    let path = file_in(output, track.id, "speed.mkv"@);
    JobView {
        steps: seq![
            strict(
                "ffmpeg"@,
                seq![
                    "-i"@,
                    track.path,
                    "-map"@,
                    map_arg(track.index),
                    "-bsf"@,
                    "setts=TS/"@ + retimed.factor,
                    "-codec"@,
                    "copy"@,
                    "-y"@,
                    path,
                ],
            ),
        ],
        remove: Seq::empty(),
        result: Track { path, index: 0, ..with_times(track, retimed) },
    }
}

/// Plans the retiming of a subtitle track.
pub fn change_subtitles(stream: &Stream, output: &str, retimed: &Retimed) -> (r: Job)
    ensures
        r@ == subtitles_job(stream@, output@, retimed@),
{
    proof {
        reveal_strlit("speed.mkv");
        reveal_with_fuel(crate::paths::plain_from, 12);
    }
    let path = output_file(output, stream.id.as_str(), "speed.mkv");
    let mut args: Vec<String> = Vec::new();
    assert(texts(args@) =~= Seq::empty());
    args.push_str("-i");
    args.push_str(stream.path.as_str());
    args.push_str("-map");
    push_text(&mut args, map_text(stream.index));
    args.push_str("-bsf");
    push_text(&mut args, join2("setts=TS/", retimed.factor.as_str()));
    args.push_str("-codec");
    args.push_str("copy");
    args.push_str("-y");
    args.push_str(path.as_str());
    assert(texts(args@) =~= subtitles_job(stream@, output@, retimed@).steps[0].args);
    let mut new = stream.copy();
    new.path = path;
    new.index = 0;
    new.offset = retimed.offset;
    new.duration = retimed.duration;
    Job::single(Command::new("ffmpeg", args), new)
}

/// The model of the retiming of chapters.
pub struct ChaptersView {
    pub source: Seq<char>,
    pub path: Seq<char>,
    pub result: Track,
}

/// The work of retiming chapters: the text of the file `source` is read,
/// its time bases are rescaled, and the new text goes into the file `path`;
/// the track then is `result`.
#[derive(Debug, PartialEq)]
pub struct ChaptersJob {
    pub source: String,
    pub path: String,
    pub result: Stream,
}

impl View for ChaptersJob {
    type V = ChaptersView;

    open spec fn view(&self) -> ChaptersView {
        ChaptersView { source: self.source@, path: self.path@, result: self.result@ }
    }
}

/// The work of retiming a chapters track into the directory `output`.
pub open spec fn chapters_job(track: Track, output: Seq<char>, retimed: RetimedView) -> ChaptersView {
    let path = file_in(output, track.id, "speed.txt"@);
    ChaptersView { source: track.path, path, result: Track { path, ..with_times(track, retimed) } }
}

/// Plans the retiming of a chapters track.
pub fn change_chapters(stream: &Stream, output: &str, retimed: &Retimed) -> (r: ChaptersJob)
    ensures
        r@ == chapters_job(stream@, output@, retimed@),
{
    proof {
        reveal_strlit("speed.txt");
        reveal_with_fuel(crate::paths::plain_from, 12);
    }
    let path = output_file(output, stream.id.as_str(), "speed.txt");
    let mut new = stream.copy();
    new.path = path.clone();
    new.offset = retimed.offset;
    new.duration = retimed.duration;
    ChaptersJob { source: stream.path.clone(), path, result: new }
}

/// The time base that a line `TIMEBASE=num/den` names: what stands between
/// its first and its second equals sign, read as a frame rate. A line without
/// equals sign names none.
pub open spec fn timebase_of(line: Seq<char>) -> Option<(u32, u32)> {
    let a = first_at(line, '=', 0);
    if a < line.len() {
        Some(framerate_of(line.subrange(a + 1, first_at(line, '=', a + 1))))
    } else {
        None
    }
}

/// Whether a line of a chapters text names a time base.
pub open spec fn is_timebase(line: Seq<char>) -> bool {
    begins_with(line, "TIMEBASE"@)
}

/// The time bases that a chapters text names from the line that begins at
/// `from` on, in order; none if one of those lines names a time base without
/// saying which.
pub open spec fn timebases_from(text: Seq<char>, from: int) -> Option<Seq<(u32, u32)>>
    decreases text.len() - from,
{
    if from < 0 || from > text.len() {
        Some(Seq::empty())
    } else {
        let end = first_at(text, '\n', from);
        let line = text.subrange(from, end);
        let rest = if from <= end < text.len() {
            timebases_from(text, end + 1)
        } else {
            Some(Seq::empty())
        };
        if is_timebase(line) {
            match (timebase_of(line), rest) {
                (Some(base), Some(more)) => Some(seq![base] + more),
                _ => None,
            }
        } else {
            rest
        }
    }
}

/// A chapters text from the line that begins at `from` on, with the
/// denominators of its time bases replaced by `denominators[k..]` in order;
/// none if a line names a time base without saying which, or the
/// denominators run out. Every line ends in a line feed.
pub open spec fn rescaled_from(text: Seq<char>, from: int, denominators: Seq<u32>, k: int) -> Option<
    Seq<char>,
>
    decreases text.len() - from,
{
    if from < 0 || from > text.len() {
        Some(Seq::empty())
    } else {
        let end = first_at(text, '\n', from);
        let line = text.subrange(from, end);
        let last = !(from <= end < text.len());
        if is_timebase(line) {
            match timebase_of(line) {
                Some(base) if 0 <= k < denominators.len() => {
                    let new = "TIMEBASE="@ + decimal(base.0 as nat) + "/"@ + decimal(
                        denominators[k] as nat,
                    ) + "\n"@;
                    if last {
                        Some(new)
                    } else {
                        match rescaled_from(text, end + 1, denominators, k + 1) {
                            Some(more) => Some(new + more),
                            None => None,
                        }
                    }
                },
                _ => None,
            }
        } else if last {
            Some(line.push('\n'))
        } else {
            match rescaled_from(text, end + 1, denominators, k) {
                Some(more) => Some(line.push('\n') + more),
                None => None,
            }
        }
    }
}

/// The time base that a line names.
fn line_timebase(s: &Vec<char>, from: usize, end: usize) -> (r: Option<(u32, u32)>)
    requires
        from <= end <= s.len(),
    ensures
        r == timebase_of(s@.subrange(from as int, end as int)),
{
    let line = slice_text(s, from, end);
    let chars = chars_of(line.as_str());
    let a = find_char(&chars, '=', 0);
    if a < chars.len() {
        let b = find_char(&chars, '=', a + 1);
        Some(framerate(slice_text(&chars, a + 1, b).as_str()))
    } else {
        None
    }
}

/// The time bases that a chapters text names, in order.
pub fn timebases(text: &str) -> (r: Option<Vec<(u32, u32)>>)
    ensures
        r is Some == timebases_from(text@, 0) is Some,
        r matches Some(list) ==> timebases_from(text@, 0) == Some(list@),
{
    let s = chars_of(text);
    let mark = chars_of("TIMEBASE");
    let mut out: Vec<(u32, u32)> = Vec::new();
    let mut from: usize = 0;
    loop
        invariant
            from <= s.len(),
            s@ == text@,
            mark@ == "TIMEBASE"@,
            timebases_from(text@, 0) == (match timebases_from(text@, from as int) {
                Some(more) => Some(out@ + more),
                None => None,
            }),
        decreases s.len() - from,
    {
        let end = find_char(&s, '\n', from);
        let ghost before = out@;
        if slice_begins_with(&s, from, end, &mark) {
            match line_timebase(&s, from, end) {
                Some(base) => {
                    out.push(base);
                    assert(forall|more: Seq<(u32, u32)>|
                        #![auto]
                        before + (seq![base] + more) =~= before.push(base) + more);
                },
                None => {
                    return None;
                },
            }
        }
        if end < s.len() {
            from = end + 1;
        } else {
            assert(out@ + Seq::<(u32, u32)>::empty() =~= out@);
            return Some(out);
        }
    }
}

/// Writes a chapters text anew with new denominators for its time bases, in the
/// order in which the text names them.
pub fn retime_chapters(text: &str, denominators: &Vec<u32>) -> (r: Option<String>)
    ensures
        r is Some == rescaled_from(text@, 0, denominators@, 0) is Some,
        r matches Some(new) ==> rescaled_from(text@, 0, denominators@, 0) == Some(new@),
{
    let s = chars_of(text);
    let mark = chars_of("TIMEBASE");
    let mut out: Vec<char> = Vec::new();
    let mut from: usize = 0;
    let mut k: usize = 0;
    loop
        invariant
            from <= s.len(),
            k <= denominators.len(),
            s@ == text@,
            mark@ == "TIMEBASE"@,
            rescaled_from(text@, 0, denominators@, 0) == (match rescaled_from(
                text@,
                from as int,
                denominators@,
                k as int,
            ) {
                Some(more) => Some(out@ + more),
                None => None,
            }),
        decreases s.len() - from,
    {
        let end = find_char(&s, '\n', from);
        let ghost before = out@;
        if slice_begins_with(&s, from, end, &mark) {
            let base = match line_timebase(&s, from, end) {
                Some(base) => base,
                None => {
                    return None;
                },
            };
            if k >= denominators.len() {
                return None;
            }
            let mut line = join3("TIMEBASE=", unsigned_text(base.0 as u64).as_str(), "/");
            line.append(unsigned_text(denominators[k] as u64).as_str());
            line.append("\n");
            let new = chars_of(line.as_str());
            let mut i: usize = 0;
            while i < new.len()
                invariant
                    i <= new.len(),
                    out@ == before + new@.take(i as int),
                decreases new.len() - i,
            {
                out.push(new[i]);
                assert(new@.take(i as int).push(new@[i as int]) =~= new@.take(i + 1));
                i += 1;
            }
            assert(new@.take(new.len() as int) =~= new@);
            assert(forall|more: Seq<char>| #![auto] before + (new@ + more) =~= (before + new@) + more);
            k += 1;
        } else {
            let mut i: usize = from;
            while i < end
                invariant
                    from <= i <= end <= s.len(),
                    out@ == before + s@.subrange(from as int, i as int),
                decreases end - i,
            {
                out.push(s[i]);
                assert(s@.subrange(from as int, i as int).push(s@[i as int]) =~= s@.subrange(
                    from as int,
                    i + 1,
                ));
                i += 1;
            }
            out.push('\n');
            let ghost line = s@.subrange(from as int, end as int);
            assert(forall|more: Seq<char>|
                #![auto]
                before + (line.push('\n') + more) =~= (before + line).push('\n') + more);
        }
        if end < s.len() {
            from = end + 1;
        } else {
            assert(out@ + Seq::<char>::empty() =~= out@);
            return Some(string_of(&out));
        }
    }
}

} // verus!
