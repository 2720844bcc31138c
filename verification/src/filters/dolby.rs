//! Normalization of Dolby audio.

use crate::command::{strict, Command, Job, JobView};
use crate::mkv::{Stream, Track};
use crate::paths::{file_in, output_file};
use crate::text::{join2, signed_decimal, signed_text};
use crate::utils::{push_text, texts, StrVec};
use vstd::prelude::*;

verus! {

/// The arguments that normalize a track into the file `path`: dynamic range
/// compression off, the track's dialogue level as target where it has one,
/// and 32-bit float samples as output.
pub open spec fn normalize_args(track: Track, path: Seq<char>) -> Seq<Seq<char>> {
    seq!["-drc_scale"@, "0"@] + (match track.dialnorm {
        Some(level) => seq!["-target_level"@, signed_decimal(level as int)],
        None => Seq::empty(),
    }) + seq![
        "-i"@,
        track.path,
        "-map"@,
        "0:"@ + signed_decimal(track.index as int),
        "-codec"@,
        "pcm_f32le"@,
        "-y"@,
        path,
    ]
}

/// The track that normalization leaves: the first track of the new file,
/// as 32-bit float samples.
pub open spec fn normalized(track: Track, path: Seq<char>) -> Track {
    Track { path, index: 0, codec: Some("pcm_f32le"@), ..track }
}

/// The work of normalizing a Dolby track into the directory `output`.
pub open spec fn normalize_job(track: Track, output: Seq<char>) -> JobView {
    let path = file_in(output, track.id, "norm.w64"@);
    JobView {
        steps: seq![strict("ffmpeg"@, normalize_args(track, path))],
        remove: Seq::empty(),
        result: normalized(track, path),
    }
}

/// Plans the normalization of a Dolby track into the directory `output`.
pub fn normalize(stream: &Stream, output: &str) -> (r: Job)
    ensures
        r@ == normalize_job(stream@, output@),
{
    proof {
        reveal_strlit("norm.w64");
        reveal_with_fuel(crate::paths::plain_from, 12);
    }
    let path = output_file(output, stream.id.as_str(), "norm.w64");
    let mut args: Vec<String> = Vec::new();
    assert(texts(args@) =~= Seq::empty());
    args.push_str("-drc_scale");
    args.push_str("0");
    match stream.dialnorm {
        Some(level) => {
            args.push_str("-target_level");
            push_text(&mut args, signed_text(level as i64));
        },
        None => {},
    }
    args.push_str("-i");
    args.push_str(stream.path.as_str());
    args.push_str("-map");
    push_text(&mut args, join2("0:", signed_text(stream.index as i64).as_str()));
    args.push_str("-codec");
    args.push_str("pcm_f32le");
    args.push_str("-y");
    args.push_str(path.as_str());
    assert(texts(args@) =~= normalize_args(stream@, path@));
    let mut new = stream.copy();
    new.path = path;
    new.index = 0;
    new.codec = Some(String::from_str("pcm_f32le"));
    Job::single(Command::new("ffmpeg", args), new)
}

} // verus!
