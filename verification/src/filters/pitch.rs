//! Change of pitch: an audio track is shifted in pitch and keeps its length.

use crate::command::{strict, Command, Job, JobView};
use crate::filters::speed::{map_arg, map_text, NoSampleRate};
use crate::mkv::{Stream, Track};
use crate::paths::{file_in, output_file};
use crate::text::{decimal, join3, unsigned_text};
use crate::utils::{push_text, texts, StrVec};
use vstd::prelude::*;

verus! {

/// The arguments that shift the pitch of an audio track by a factor into the
/// file `path`: the track is resampled by the factor and slowed down by the
/// same factor again.
pub open spec fn pitch_args(track: Track, path: Seq<char>, rate: u32, factor: Seq<char>) -> Seq<
    Seq<char>,
> {
    seq![
        "-i"@,
        track.path,
        "-map"@,
        map_arg(track.index),
        "-af"@,
        "asetrate="@ + decimal(rate as nat) + "*"@ + factor + ",aresample,atempo=1/"@ + factor,
        "-ar"@,
        decimal(rate as nat),
        "-resampler"@,
        "soxr"@,
        "-codec"@,
        "pcm_f32le"@,
        "-y"@,
        path,
    ]
}

/// The work of changing the pitch of an audio track by the factor written
/// as `factor`. The times of the track stay as they are.
pub open spec fn pitch_job(track: Track, output: Seq<char>, factor: Seq<char>) -> Result<
    JobView,
    NoSampleRate,
> {
    let path = file_in(output, track.id, "pitch.w64"@);
    match track.samplerate {
        None => Err(NoSampleRate),
        Some(rate) => Ok(
            JobView {
                steps: seq![strict("ffmpeg"@, pitch_args(track, path, rate, factor))],
                remove: Seq::empty(),
                result: Track { path, index: 0, codec: Some("pcm_f32le"@), ..track },
            },
        ),
    }
}

/// Plans the change of pitch of an audio track.
pub fn change(stream: &Stream, output: &str, factor: &str) -> (r: Result<Job, NoSampleRate>)
    ensures
        r is Ok == pitch_job(stream@, output@, factor@) is Ok,
        r matches Ok(job) ==> pitch_job(stream@, output@, factor@) == Ok::<JobView, NoSampleRate>(
            job@,
        ),
{
    let rate = match stream.samplerate {
        Some(rate) => rate,
        None => {
            return Err(NoSampleRate);
        },
    };
    proof {
        reveal_strlit("pitch.w64");
        reveal_with_fuel(crate::paths::plain_from, 12);
    }
    let path = output_file(output, stream.id.as_str(), "pitch.w64");
    let hertz = unsigned_text(rate as u64);
    let mut args: Vec<String> = Vec::new();
    assert(texts(args@) =~= Seq::empty());
    args.push_str("-i");
    args.push_str(stream.path.as_str());
    args.push_str("-map");
    push_text(&mut args, map_text(stream.index));
    args.push_str("-af");
    let mut filter = join3("asetrate=", hertz.as_str(), "*");
    filter.append(factor);
    filter.append(",aresample,atempo=1/");
    filter.append(factor);
    push_text(&mut args, filter);
    args.push_str("-ar");
    args.push_str(hertz.as_str());
    args.push_str("-resampler");
    args.push_str("soxr");
    args.push_str("-codec");
    args.push_str("pcm_f32le");
    args.push_str("-y");
    args.push_str(path.as_str());
    assert(texts(args@) =~= pitch_args(stream@, path@, rate, factor@));
    let mut new = stream.copy();
    new.path = path;
    new.index = 0;
    new.codec = Some(String::from_str("pcm_f32le"));
    Ok(Job::single(Command::new("ffmpeg", args), new))
}

} // verus!
