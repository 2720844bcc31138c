//! Change of tempo: an audio track is stretched in time and keeps its pitch.

use crate::command::{strict, Command, Job, JobView};
use crate::filters::speed::{map_arg, map_text, with_times, Retimed, RetimedView};
use crate::mkv::{Stream, Track};
use crate::paths::{file_in, output_file};
use crate::text::join2;
use crate::utils::{push_text, texts, StrVec};
use vstd::prelude::*;

verus! {

/// The work of changing the tempo of an audio track by a factor.
pub open spec fn tempo_job(track: Track, output: Seq<char>, retimed: RetimedView) -> JobView {
    let path = file_in(output, track.id, "tempo.w64"@);
    JobView {
        steps: seq![
            strict(
                "ffmpeg"@,
                seq![
                    "-i"@,
                    track.path,
                    "-map"@,
                    map_arg(track.index),
                    "-af"@,
                    "atempo="@ + retimed.factor,
                    "-codec"@,
                    "pcm_f32le"@,
                    "-y"@,
                    path,
                ],
            ),
        ],
        remove: Seq::empty(),
        result: Track { path, index: 0, codec: Some("pcm_f32le"@), ..with_times(track, retimed) },
    }
}

/// Plans the change of tempo of an audio track.
pub fn change(stream: &Stream, output: &str, retimed: &Retimed) -> (r: Job)
    ensures
        r@ == tempo_job(stream@, output@, retimed@),
{
    proof {
        reveal_strlit("tempo.w64");
        reveal_with_fuel(crate::paths::plain_from, 12);
    }
    let path = output_file(output, stream.id.as_str(), "tempo.w64");
    let mut args: Vec<String> = Vec::new();
    assert(texts(args@) =~= Seq::empty());
    args.push_str("-i");
    args.push_str(stream.path.as_str());
    args.push_str("-map");
    push_text(&mut args, map_text(stream.index));
    args.push_str("-af");
    push_text(&mut args, join2("atempo=", retimed.factor.as_str()));
    args.push_str("-codec");
    args.push_str("pcm_f32le");
    args.push_str("-y");
    args.push_str(path.as_str());
    assert(texts(args@) =~= tempo_job(stream@, output@, retimed@).steps[0].args);
    let mut new = stream.copy();
    new.path = path;
    new.index = 0;
    new.codec = Some(String::from_str("pcm_f32le"));
    new.offset = retimed.offset;
    new.duration = retimed.duration;
    Job::single(Command::new("ffmpeg", args), new)
}

} // verus!
