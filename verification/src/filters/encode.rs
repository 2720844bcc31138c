//! Encoding of a track with `ffmpeg`.

use crate::codec::{display, show};
use crate::command::{commands_view, strict, Command, Job, JobView};
use crate::filters::speed::{map_arg, map_text};
use crate::mkv::{Stream, Track};
use crate::paths::{file_in, join, joined, output_file};
use crate::text::{
    decimal, join2, join3, opt_text, same, signed_decimal, signed_text, unsigned_text,
};
use crate::utils::{push_text, texts, StrVec};
use crate::value::{members_view, Doc, Members, Value};
use vstd::prelude::*;

verus! {

/// Why a track cannot be encoded.
#[derive(Clone, Copy, Debug, PartialEq, Eq, Structural)]
pub enum EncodeError {
    /// The options name no codec.
    NoCodec,
    /// A bit rate for each channel is asked for, and the audio track does not
    /// say how many channels it has.
    NoChannels,
}

/// The arguments that one option adds: the key as a flag and the value as its
/// argument. A `bitrate` is the video bit rate for a video track, and a bit
/// rate for each channel for an audio track; `x265-params` takes the pass and
/// the statistics file of a two-pass encode along.
pub open spec fn option_pair(
    track: Track,
    key: Seq<char>,
    value: Doc,
    pass: Option<u32>,
    passlog: Option<Seq<char>>,
) -> Result<Seq<Seq<char>>, EncodeError> {
    let text = display(value);
    let video = key == "bitrate"@ && track.streamtype == "video"@;
    let audio = key == "bitrate"@ && !video && track.streamtype == "audio"@;
    let flag = if video {
        "b:v"@
    } else if audio {
        "b:a"@
    } else {
        key
    };
    if audio && track.channels is None {
        Err(EncodeError::NoChannels)
    } else {
        let scaled = if audio {
            text + "*"@ + decimal(track.channels->0 as nat)
        } else {
            text
        };
        let full = if flag == "x265-params"@ && pass is Some && passlog is Some {
            scaled + ":pass="@ + decimal(pass->0 as nat) + ":stats="@ + passlog->0 + ".x265.log"@
        } else {
            scaled
        };
        Ok(seq!["-"@ + flag, full])
    }
}

/// The arguments that the first `n` options add, in order.
pub open spec fn options_upto(
    track: Track,
    entries: Members,
    n: nat,
    pass: Option<u32>,
    passlog: Option<Seq<char>>,
) -> Result<Seq<Seq<char>>, EncodeError>
    decreases n,
{
    if n == 0 || n > entries.len() {
        Ok(Seq::empty())
    } else {
        match options_upto(track, entries, (n - 1) as nat, pass, passlog) {
            Err(e) => Err(e),
            Ok(args) => match option_pair(track, entries[n - 1].0, entries[n - 1].1, pass, passlog) {
                Ok(pair) => Ok(args + pair),
                Err(e) => Err(e),
            },
        }
    }
}

/// The arguments that a set of options adds.
pub open spec fn option_args(
    track: Track,
    options: Doc,
    pass: Option<u32>,
    passlog: Option<Seq<char>>,
) -> Result<Seq<Seq<char>>, EncodeError> {
    options_upto(track, options.entries(), options.entries().len(), pass, passlog)
}

/// Once the arguments of a set of options have failed, they stay failed.
pub proof fn options_stop(
    track: Track,
    entries: Members,
    n: nat,
    m: nat,
    pass: Option<u32>,
    passlog: Option<Seq<char>>,
)
    requires
        n <= m <= entries.len(),
        options_upto(track, entries, n, pass, passlog) is Err,
    ensures
        options_upto(track, entries, m, pass, passlog) == options_upto(
            track,
            entries,
            n,
            pass,
            passlog,
        ),
    decreases m,
{
    if n < m {
        options_stop(track, entries, n, (m - 1) as nat, pass, passlog);
    }
}

/// Turns encoding options into arguments.
pub fn options_to_args(
    stream: &Stream,
    options: &Value,
    pass: Option<u32>,
    passlog: Option<String>,
) -> (r: Result<Vec<String>, EncodeError>)
    ensures
        r matches Ok(args) ==> option_args(stream@, options@, pass, opt_text(passlog)) == Ok::<
            Seq<Seq<char>>,
            EncodeError,
        >(texts(args@)),
        r matches Err(e) ==> option_args(stream@, options@, pass, opt_text(passlog)) == Err::<
            Seq<Seq<char>>,
            EncodeError,
        >(e),
{
    let entries = options.entries();
    let ghost all = options@.entries();
    let ghost log = opt_text(passlog);
    assert(all.len() == entries@.len()) by {
        assert(members_view(entries@).len() == entries@.len());
    }
    let mut args: Vec<String> = Vec::new();
    assert(texts(args@) =~= Seq::empty());
    let mut i: usize = 0;
    while i < entries.len()
        invariant
            i <= entries.len(),
            members_view(entries@) == all,
            all == options@.entries(),
            all.len() == entries@.len(),
            log == opt_text(passlog),
            options_upto(stream@, all, i as nat, pass, log) == Ok::<Seq<Seq<char>>, EncodeError>(
                texts(args@),
            ),
        decreases entries.len() - i,
    {
        let key = entries[i].0.as_str();
        assert(all[i as int] == (key@, entries@[i as int].1@));
        let ghost before = texts(args@);
        let mut val = show(&entries[i].1);
        let bitrate = same(key, "bitrate");
        let video = bitrate && same(stream.streamtype.as_str(), "video");
        let audio = bitrate && !video && same(stream.streamtype.as_str(), "audio");
        let flag = if video {
            "b:v"
        } else if audio {
            "b:a"
        } else {
            key
        };
        if audio {
            match stream.channels {
                Some(channels) => {
                    val.append("*");
                    val.append(unsigned_text(channels as u64).as_str());
                },
                None => {
                    proof {
                        options_stop(stream@, all, (i + 1) as nat, all.len(), pass, log);
                    }
                    return Err(EncodeError::NoChannels);
                },
            }
        }
        if same(flag, "x265-params") {
            match pass {
                Some(number) => match &passlog {
                    Some(stats) => {
                        val.append(":pass=");
                        val.append(unsigned_text(number as u64).as_str());
                        val.append(":stats=");
                        val.append(stats.as_str());
                        val.append(".x265.log");
                    },
                    None => {},
                },
                None => {},
            }
        }
        push_text(&mut args, join2("-", flag));
        push_text(&mut args, val);
        assert(texts(args@) =~= before + option_pair(
            stream@,
            key@,
            entries@[i as int].1@,
            pass,
            log,
        )->Ok_0);
        i += 1;
    }
    Ok(args)
}

/// The arguments that every encode begins with: the input, the track to take
/// from it, the aspect ratio where the track has one, and for Dolby output
/// the surround mode where the track has one.
pub open spec fn input_args(track: Track, codec: Seq<char>) -> Seq<Seq<char>> {
    seq!["-i"@, track.path, "-map"@, map_arg(track.index)] + (match track.aspect {
        Some(aspect) => seq!["-aspect"@, aspect],
        None => Seq::empty(),
    }) + (if codec == "ac3"@ && track.dsurmode is Some {
        seq!["-dsur_mode"@, decimal(track.dsurmode->0 as nat)]
    } else {
        Seq::empty()
    })
}

/// Whether a track is encoded in two passes: a video track with a bit rate.
pub open spec fn two_pass(track: Track, options: Doc) -> bool {
    track.streamtype == "video"@ && options.has_key("bitrate"@)
}

/// The track that encoding leaves: the first track of the new file, in the
/// new codec unless the codec was only copied.
pub open spec fn encoded(track: Track, path: Seq<char>, codec: Seq<char>) -> Track {
    Track {
        path,
        index: 0,
        codec: if codec == "copy"@ {
            track.codec
        } else {
            Some(codec)
        },
        ..track
    }
}

/// The work of encoding a track into the directory `output`, with `scratch`
/// as the directory for the statistics of a two-pass encode.
pub open spec fn encode_job(track: Track, output: Seq<char>, options: Doc, scratch: Seq<char>) -> Result<
    JobView,
    EncodeError,
> {
    if !options.has_key("codec"@) {
        Err(EncodeError::NoCodec)
    } else {
        let codec = display(options.get("codec"@));
        let path = file_in(output, track.id, "enc.mkv"@);
        let input = input_args(track, codec);
        let result = encoded(track, path, codec);
        if two_pass(track, options) {
            let log = joined(scratch, "ffmpeg2pass"@);
            let stats = Some(log + "-"@ + signed_decimal(track.index as int));
            match option_args(track, options, Some(1u32), stats) {
                Err(e) => Err(e),
                Ok(first) => match option_args(track, options, Some(2u32), stats) {
                    Err(e) => Err(e),
                    Ok(second) => Ok(
                        JobView {
                            steps: seq![
                                strict(
                                    "ffmpeg"@,
                                    input + first + seq![
                                        "-pass"@,
                                        "1"@,
                                        "-passlogfile"@,
                                        log,
                                        "-f"@,
                                        "null"@,
                                        "-"@,
                                    ],
                                ),
                                strict(
                                    "ffmpeg"@,
                                    input + second + seq![
                                        "-pass"@,
                                        "2"@,
                                        "-passlogfile"@,
                                        log,
                                        "-y"@,
                                        path,
                                    ],
                                ),
                            ],
                            remove: Seq::empty(),
                            result,
                        },
                    ),
                },
            }
        } else {
            match option_args(track, options, None, None) {
                Err(e) => Err(e),
                Ok(args) => Ok(
                    JobView {
                        steps: seq![strict("ffmpeg"@, input + args + seq!["-y"@, path])],
                        remove: Seq::empty(),
                        result,
                    },
                ),
            }
        }
    }
}

/// Whether a track is encoded in two passes, and so needs a scratch directory.
pub fn needs_scratch(stream: &Stream, options: &Value) -> (r: bool)
    ensures
        r == two_pass(stream@, options@),
{
    same(stream.streamtype.as_str(), "video") && options.has_key("bitrate")
}

/// The arguments that every encode begins with.
fn input_part(stream: &Stream, codec: &str) -> (r: Vec<String>)
    ensures
        texts(r@) == input_args(stream@, codec@),
{
    let mut args: Vec<String> = Vec::new();
    assert(texts(args@) =~= Seq::empty());
    args.push_str("-i");
    args.push_str(stream.path.as_str());
    args.push_str("-map");
    push_text(&mut args, map_text(stream.index));
    match &stream.aspect {
        Some(aspect) => {
            args.push_str("-aspect");
            args.push_str(aspect.as_str());
        },
        None => {},
    }
    if same(codec, "ac3") {
        match stream.dsurmode {
            Some(mode) => {
                args.push_str("-dsur_mode");
                push_text(&mut args, unsigned_text(mode as u64));
            },
            None => {},
        }
    }
    assert(texts(args@) =~= input_args(stream@, codec@));
    args
}

/// Adds a copy of every text of `more` to `args`.
pub fn extend(args: &mut Vec<String>, more: &Vec<String>)
    ensures
        texts(final(args)@) == texts(old(args)@) + texts(more@),
{
    let ghost start = texts(args@);
    assert(start + texts(more@).take(0) =~= start);
    let mut i: usize = 0;
    while i < more.len()
        invariant
            i <= more.len(),
            texts(args@) == start + texts(more@).take(i as int),
        decreases more.len() - i,
    {
        let ghost before = texts(args@);
        args.push_str(more[i].as_str());
        assert(before.push(more@[i as int]@) =~= start + texts(more@).take(i + 1));
        i += 1;
    }
    assert(texts(more@).take(more.len() as int) =~= texts(more@));
}

/// Plans the encoding of a track into the directory `output`.
///
/// `scratch` is a directory that holds the statistics of a two-pass encode;
/// it is used only where `needs_scratch` says so.
pub fn run(stream: &Stream, output: &str, options: &Value, scratch: &str) -> (r: Result<
    Job,
    EncodeError,
>)
    ensures
        r matches Ok(job) ==> encode_job(stream@, output@, options@, scratch@) == Ok::<
            JobView,
            EncodeError,
        >(job@),
        r matches Err(e) ==> encode_job(stream@, output@, options@, scratch@) == Err::<
            JobView,
            EncodeError,
        >(e),
{
    let codec = match options.get("codec") {
        Some(codec) => show(codec),
        None => {
            return Err(EncodeError::NoCodec);
        },
    };
    proof {
        reveal_strlit("enc.mkv");
        reveal_with_fuel(crate::paths::plain_from, 12);
    }
    let path = output_file(output, stream.id.as_str(), "enc.mkv");
    let mut new = stream.copy();
    new.path = path.clone();
    new.index = 0;
    if !same(codec.as_str(), "copy") {
        new.codec = Some(codec.clone());
    }
    let mut steps: Vec<Command> = Vec::new();
    let remove: Vec<String> = Vec::new();
    assert(texts(remove@) =~= Seq::empty());
    if needs_scratch(stream, options) {
        let log = join(scratch, "ffmpeg2pass");
        let stats = join3(log.as_str(), "-", signed_text(stream.index as i64).as_str());
        let first = match options_to_args(stream, options, Some(1), Some(stats.clone())) {
            Ok(args) => args,
            Err(e) => {
                return Err(e);
            },
        };
        let second = match options_to_args(stream, options, Some(2), Some(stats)) {
            Ok(args) => args,
            Err(e) => {
                return Err(e);
            },
        };
        let mut pass_one = input_part(stream, codec.as_str());
        extend(&mut pass_one, &first);
        pass_one.push_str("-pass");
        pass_one.push_str("1");
        pass_one.push_str("-passlogfile");
        pass_one.push_str(log.as_str());
        pass_one.push_str("-f");
        pass_one.push_str("null");
        pass_one.push_str("-");
        let mut pass_two = input_part(stream, codec.as_str());
        extend(&mut pass_two, &second);
        pass_two.push_str("-pass");
        pass_two.push_str("2");
        pass_two.push_str("-passlogfile");
        pass_two.push_str(log.as_str());
        pass_two.push_str("-y");
        pass_two.push_str(path.as_str());
        let ghost want = encode_job(stream@, output@, options@, scratch@)->Ok_0;
        assert(texts(pass_one@) =~= want.steps[0].args);
        assert(texts(pass_two@) =~= want.steps[1].args);
        steps.push(Command::new("ffmpeg", pass_one));
        steps.push(Command::new("ffmpeg", pass_two));
        assert(commands_view(steps@) =~= want.steps);
    } else {
        let more = match options_to_args(stream, options, None, None) {
            Ok(args) => args,
            Err(e) => {
                return Err(e);
            },
        };
        let mut args = input_part(stream, codec.as_str());
        extend(&mut args, &more);
        args.push_str("-y");
        args.push_str(path.as_str());
        let ghost want = encode_job(stream@, output@, options@, scratch@)->Ok_0;
        assert(texts(args@) =~= want.steps[0].args);
        steps.push(Command::new("ffmpeg", args));
        assert(commands_view(steps@) =~= want.steps);
    }
    Ok(Job { steps, remove, result: new })
}

} // verus!
