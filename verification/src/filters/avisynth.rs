//! Filtering of video through an AviSynth script.

use crate::command::{careless, commands_view, strict, within, Command};
use crate::filters::script::{sink_args, sink_part, Pass, PassView, ScriptError, ScriptJob, ScriptView};
use crate::mkv::{Stream, Track};
use crate::paths::{
    file_name, file_stem, join, joined, name_of, parent, parent_of, stem_of, with_ext,
    with_extension,
};
use crate::text::{contains, join2, occurs, replace, replaced};
use crate::utils::{texts, StrVec};
use vstd::prelude::*;

verus! {

/// The template after its first substitutions: the container of the track
/// and the path of the filter itself.
pub open spec fn opened(template: Seq<char>, track: Track, filter: Seq<char>) -> Seq<char> {
    replaced(replaced(template, "$(mkv)$"@, track.path), "$(avs)$"@, filter)
}

/// The work of filtering a video track through the AviSynth script at
/// `filter`, whose text is `template`, into the directory `output`.
///
/// A script that asks for the raw video or for an index of it gets the video
/// extracted first; one that asks for the index gets that built as well. A
/// script that asks for the pass is run twice, the first time for its side
/// effects only.
pub open spec fn script_job(
    track: Track,
    output: Seq<char>,
    filter: Seq<char>,
    template: Seq<char>,
) -> Result<ScriptView, ScriptError> {
    match stem_of(filter) {
        None => Err(ScriptError::NoStem),
        Some(name) => {
            let script = joined(output, track.id + "."@ + name + ".avs"@);
            let path = with_ext(script, "avs.mkv"@);
            let mpg = with_ext(script, "avs.mpg"@);
            let d2v = with_ext(script, "avs.d2v"@);
            let t2 = opened(template, track, filter);
            let raw = occurs(t2, "$(d2v)$"@) || occurs(t2, "$(mpg)$"@);
            let t3 = if raw {
                replaced(t2, "$(mpg)$"@, mpg)
            } else {
                t2
            };
            let indexed = occurs(t3, "$(d2v)$"@);
            let t4 = if indexed {
                replaced(t3, "$(d2v)$"@, d2v)
            } else {
                t3
            };
            let twice = occurs(t4, "$(pass)$"@);
            let script1 = with_ext(script, "pass1.avs"@);
            let text = if twice {
                replaced(t4, "$(pass)$"@, "2"@)
            } else {
                t4
            };
            if indexed && (name_of(mpg) is None || name_of(with_ext(d2v, ""@)) is None || parent_of(
                mpg,
            ) is None) {
                Err(ScriptError::NoName)
            } else if twice && parent_of(script1) is None {
                Err(ScriptError::NoName)
            } else if parent_of(script) is None {
                Err(ScriptError::NoName)
            } else {
                let extract = strict("mkvextract"@, seq![track.path, "tracks"@, "0:"@ + mpg]);
                let index = within(
                    strict(
                        "DGIndex"@,
                        seq![
                            "-i"@,
                            name_of(mpg)->0,
                            "-o"@,
                            name_of(with_ext(d2v, ""@))->0,
                            "-exit"@,
                            "-hide"@,
                        ],
                    ),
                    parent_of(mpg)->0,
                );
                Ok(
                    ScriptView {
                        prepare: (if raw {
                            seq![extract]
                        } else {
                            Seq::empty()
                        }) + (if indexed {
                            seq![index]
                        } else {
                            Seq::empty()
                        }),
                        first: if twice {
                            Some(
                                PassView {
                                    script: script1,
                                    text: replaced(t4, "$(pass)$"@, "1"@),
                                    command: within(
                                        strict("avs2yuv"@, seq![script1, "-o"@, "-"@]),
                                        parent_of(script1)->0,
                                    ),
                                },
                            )
                        } else {
                            None
                        },
                        script,
                        text,
                        source: within(
                            careless("avs2yuv"@, seq![script, "-o"@, "-"@]),
                            parent_of(script)->0,
                        ),
                        sink: within(strict("ffmpeg"@, sink_args(track, path)), parent_of(script)->0),
                        path,
                        remove: seq![script],
                        leftovers: seq![mpg, d2v],
                    },
                )
            }
        },
    }
}

/// The arguments that run the script at `script` and write the video to the
/// standard output.
fn pipe_args(script: &str) -> (r: Vec<String>)
    ensures
        texts(r@) == seq![script@, "-o"@, "-"@],
{
    let mut args: Vec<String> = Vec::new();
    assert(texts(args@) =~= Seq::empty());
    args.push_str(script);
    args.push_str("-o");
    args.push_str("-");
    assert(texts(args@) =~= seq![script@, "-o"@, "-"@]);
    args
}

/// Plans the filtering of a video track through the AviSynth script at
/// `filter`, whose text is `template`.
pub fn run(stream: &Stream, output: &str, filter: &str, template: &str) -> (r: Result<
    ScriptJob,
    ScriptError,
>)
    ensures
        r matches Ok(job) ==> script_job(stream@, output@, filter@, template@) == Ok::<
            ScriptView,
            ScriptError,
        >(job@),
        r matches Err(e) ==> script_job(stream@, output@, filter@, template@) == Err::<
            ScriptView,
            ScriptError,
        >(e),
{
    let name = match file_stem(filter) {
        Some(name) => name,
        None => {
            return Err(ScriptError::NoStem);
        },
    };
    let mut file = join2(stream.id.as_str(), ".");
    file.append(name.as_str());
    file.append(".avs");
    let script = join(output, file.as_str());
    proof {
        reveal_strlit("avs.mkv");
        reveal_with_fuel(crate::paths::plain_from, 12);
    }
    let path = with_extension(script.as_str(), "avs.mkv");
    proof {
        reveal_strlit("avs.mpg");
        reveal_with_fuel(crate::paths::plain_from, 12);
    }
    let mpg = with_extension(script.as_str(), "avs.mpg");
    proof {
        reveal_strlit("avs.d2v");
        reveal_with_fuel(crate::paths::plain_from, 12);
    }
    let d2v = with_extension(script.as_str(), "avs.d2v");
    let t1 = replace(template, "$(mkv)$", stream.path.as_str());
    let t2 = replace(t1.as_str(), "$(avs)$", filter);
    let raw = contains(t2.as_str(), "$(d2v)$") || contains(t2.as_str(), "$(mpg)$");
    let t3 = if raw {
        replace(t2.as_str(), "$(mpg)$", mpg.as_str())
    } else {
        t2
    };
    let indexed = contains(t3.as_str(), "$(d2v)$");
    let t4 = if indexed {
        replace(t3.as_str(), "$(d2v)$", d2v.as_str())
    } else {
        t3
    };
    let twice = contains(t4.as_str(), "$(pass)$");
    proof {
        reveal_strlit("pass1.avs");
        reveal_with_fuel(crate::paths::plain_from, 12);
    }
    let script1 = with_extension(script.as_str(), "pass1.avs");
    let mut prepare: Vec<Command> = Vec::new();
    assert(commands_view(prepare@) =~= Seq::empty());
    if indexed {
        proof {
            reveal_strlit("");
            reveal_with_fuel(crate::paths::plain_from, 12);
        }
        let project = with_extension(d2v.as_str(), "");
        let mpg_name = match file_name(mpg.as_str()) {
            Some(n) => n,
            None => {
                return Err(ScriptError::NoName);
            },
        };
        let project_name = match file_name(project.as_str()) {
            Some(n) => n,
            None => {
                return Err(ScriptError::NoName);
            },
        };
        let dir = match parent(mpg.as_str()) {
            Some(d) => d,
            None => {
                return Err(ScriptError::NoName);
            },
        };
        let mut take: Vec<String> = Vec::new();
        assert(texts(take@) =~= Seq::empty());
        take.push_str(stream.path.as_str());
        take.push_str("tracks");
        crate::utils::push_text(&mut take, join2("0:", mpg.as_str()));
        assert(texts(take@) =~= seq![stream@.path, "tracks"@, "0:"@ + mpg@]);
        prepare.push(Command::new("mkvextract", take));
        let mut args: Vec<String> = Vec::new();
        assert(texts(args@) =~= Seq::empty());
        args.push_str("-i");
        args.push_str(mpg_name.as_str());
        args.push_str("-o");
        args.push_str(project_name.as_str());
        args.push_str("-exit");
        args.push_str("-hide");
        assert(texts(args@) =~= seq![
            "-i"@,
            mpg_name@,
            "-o"@,
            project_name@,
            "-exit"@,
            "-hide"@,
        ]);
        prepare.push(Command::new("DGIndex", args).inside(dir.as_str()));
    } else if raw {
        let mut take: Vec<String> = Vec::new();
        assert(texts(take@) =~= Seq::empty());
        take.push_str(stream.path.as_str());
        take.push_str("tracks");
        crate::utils::push_text(&mut take, join2("0:", mpg.as_str()));
        assert(texts(take@) =~= seq![stream@.path, "tracks"@, "0:"@ + mpg@]);
        prepare.push(Command::new("mkvextract", take));
    }
    let first = if twice {
        let dir = match parent(script1.as_str()) {
            Some(d) => d,
            None => {
                return Err(ScriptError::NoName);
            },
        };
        Some(
            Pass {
                command: Command::new("avs2yuv", pipe_args(script1.as_str())).inside(dir.as_str()),
                text: replace(t4.as_str(), "$(pass)$", "1"),
                script: script1,
            },
        )
    } else {
        None
    };
    let text = if twice {
        replace(t4.as_str(), "$(pass)$", "2")
    } else {
        t4
    };
    let dir = match parent(script.as_str()) {
        Some(d) => d,
        None => {
            return Err(ScriptError::NoName);
        },
    };
    let source = Command::new_careless("avs2yuv", pipe_args(script.as_str())).inside(dir.as_str());
    let sink = Command::new("ffmpeg", sink_part(stream, path.as_str())).inside(dir.as_str());
    let mut remove: Vec<String> = Vec::new();
    assert(texts(remove@) =~= Seq::empty());
    remove.push_str(script.as_str());
    let mut leftovers: Vec<String> = Vec::new();
    assert(texts(leftovers@) =~= Seq::empty());
    leftovers.push_str(mpg.as_str());
    leftovers.push_str(d2v.as_str());
    let ghost want = script_job(stream@, output@, filter@, template@)->Ok_0;
    assert(commands_view(prepare@) =~= want.prepare);
    assert(texts(remove@) =~= want.remove);
    assert(texts(leftovers@) =~= want.leftovers);
    Ok(ScriptJob { prepare, first, script, text, source, sink, path, remove, leftovers })
}

} // verus!
