use json::number::Number;
use videoproc::codec::parse;
use videoproc::command::{Command, Job};
use videoproc::filters::avisynth;
use videoproc::filters::dolby;
use videoproc::filters::encode::{self, EncodeError};
use videoproc::filters::extract::{self, Extraction};
use videoproc::filters::offset::{self, NoExtension};
use videoproc::filters::pitch;
use videoproc::filters::script::{finish, ScriptError};
use videoproc::filters::speed::{self, NoSampleRate, Retimed};
use videoproc::filters::tempo;
use videoproc::filters::vapoursynth::{self, BadInfo};
use videoproc::mkv::Stream;

fn filters_track(streamtype: &str) -> Stream {
    Stream {
        path: String::from("/in/a.mkv"),
        index: 2,
        streamtype: streamtype.to_string(),
        id: String::from("t2"),
        language: Some(String::from("eng")),
        offset: Number::from(1.0f32),
        duration: Number::from(100.0f32),
        codec: Some(String::from("ac3")),
        aspect: None,
        framerate: None,
        samplerate: Some(48000),
        channels: Some(6),
        dialnorm: Some(-27),
        dsurmode: Some(2),
    }
}

fn filters_args(list: &[&str]) -> Vec<String> {
    list.iter().map(|s| s.to_string()).collect()
}

fn filters_ffmpeg(list: &[&str]) -> Command {
    Command { program: String::from("ffmpeg"), args: filters_args(list), dir: None, accepted: Some(vec![0]) }
}

fn filters_retimed() -> Retimed {
    Retimed { factor: String::from("1.0427084"), offset: Number::from(0.96f32), duration: Number::from(95.9f32) }
}

#[test]
fn dolby_audio_is_normalized_to_its_dialogue_level() {
    let track = filters_track("audio");
    let job = dolby::normalize(&track, "/work/t2/Stage2");
    let mut result = track.clone();
    result.path = String::from("/work/t2/Stage2/t2.norm.w64");
    result.index = 0;
    result.codec = Some(String::from("pcm_f32le"));
    assert_eq!(
        job,
        Job {
            steps: vec![filters_ffmpeg(&[
                "-drc_scale", "0", "-target_level", "-27", "-i", "/in/a.mkv", "-map", "0:2", "-codec", "pcm_f32le", "-y",
                "/work/t2/Stage2/t2.norm.w64",
            ])],
            remove: vec![],
            result,
        }
    );
    let mut plain = filters_track("audio");
    plain.dialnorm = None;
    assert_eq!(
        dolby::normalize(&plain, "/o").steps[0].args,
        filters_args(&["-drc_scale", "0", "-i", "/in/a.mkv", "-map", "0:2", "-codec", "pcm_f32le", "-y", "/o/t2.norm.w64"])
    );
}

#[test]
fn tempo_stretches_audio() {
    let track = filters_track("audio");
    let job = tempo::change(&track, "/o", &filters_retimed());
    assert_eq!(
        job.steps,
        vec![filters_ffmpeg(&[
            "-i", "/in/a.mkv", "-map", "0:2", "-af", "atempo=1.0427084", "-codec", "pcm_f32le", "-y", "/o/t2.tempo.w64",
        ])]
    );
    assert_eq!(job.result.path, "/o/t2.tempo.w64");
    assert_eq!(job.result.index, 0);
    assert_eq!(job.result.codec, Some(String::from("pcm_f32le")));
    assert_eq!(job.result.offset, Number::from(0.96f32));
    assert_eq!(job.result.duration, Number::from(95.9f32));
    assert_eq!(job.result.id, "t2");
}

#[test]
fn pitch_shifts_audio_and_keeps_its_times() {
    let track = filters_track("audio");
    let job = pitch::change(&track, "/o", "1.0427084").unwrap();
    assert_eq!(
        job.steps,
        vec![filters_ffmpeg(&[
            "-i", "/in/a.mkv", "-map", "0:2", "-af", "asetrate=48000*1.0427084,aresample,atempo=1/1.0427084", "-ar",
            "48000", "-resampler", "soxr", "-codec", "pcm_f32le", "-y", "/o/t2.pitch.w64",
        ])]
    );
    assert_eq!(job.result.offset, Number::from(1.0f32));
    assert_eq!(job.result.duration, Number::from(100.0f32));
    assert_eq!(job.result.path, "/o/t2.pitch.w64");
    let mut bare = filters_track("audio");
    bare.samplerate = None;
    assert_eq!(pitch::change(&bare, "/o", "2"), Err(NoSampleRate));
}

#[test]
fn speed_resamples_audio() {
    let track = filters_track("audio");
    let job = speed::change_audio(&track, "/o", &filters_retimed()).unwrap();
    assert_eq!(
        job.steps,
        vec![filters_ffmpeg(&[
            "-i", "/in/a.mkv", "-map", "0:2", "-af", "asetrate=48000*1.0427084,aresample", "-ar", "48000", "-resampler",
            "soxr", "-codec", "pcm_f32le", "-y", "/o/t2.speed.w64",
        ])]
    );
    assert_eq!(job.result.index, 0);
    assert_eq!(job.result.offset, Number::from(0.96f32));
    let mut bare = filters_track("audio");
    bare.samplerate = None;
    assert_eq!(speed::change_audio(&bare, "/o", &filters_retimed()), Err(NoSampleRate));
}

#[test]
fn speed_stamps_the_frame_rate_on_video() {
    let track = filters_track("video");
    let job = speed::change_video(&track, "/o", (24000, 1001), &filters_retimed());
    assert_eq!(
        job.steps,
        vec![Command {
            program: String::from("mkvmerge"),
            args: filters_args(&[
                "-o", "/o/t2.speed.mkv", "--default-duration", "2:24000/1001p", "--fix-bitstream-timing-information",
                "2:true", "/in/a.mkv",
            ]),
            dir: None,
            accepted: Some(vec![0]),
        }]
    );
    assert_eq!(job.result.index, 2);
    assert_eq!(job.result.framerate, Some((24000, 1001)));
    assert_eq!(job.result.duration, Number::from(95.9f32));
}

#[test]
fn speed_rescales_subtitle_timestamps() {
    let job = speed::change_subtitles(&filters_track("subtitle"), "/o", &filters_retimed());
    assert_eq!(
        job.steps,
        vec![filters_ffmpeg(&[
            "-i", "/in/a.mkv", "-map", "0:2", "-bsf", "setts=TS/1.0427084", "-codec", "copy", "-y", "/o/t2.speed.mkv",
        ])]
    );
    assert_eq!(job.result.index, 0);
    assert_eq!(job.result.codec, Some(String::from("ac3")));
}

#[test]
fn speed_rescales_chapter_timebases() {
    let text = ";FFMETADATA1\n[CHAPTER]\nTIMEBASE=1/1000000000\nSTART=0\n[CHAPTER]\nTIMEBASE=1/1000=9\nEND=5\n";
    assert_eq!(speed::timebases(text), Some(vec![(1, 1000000000), (1, 1000)]));
    assert_eq!(
        speed::retime_chapters(text, &vec![1042708400, 1043]),
        Some(String::from(
            ";FFMETADATA1\n[CHAPTER]\nTIMEBASE=1/1042708400\nSTART=0\n[CHAPTER]\nTIMEBASE=1/1043\nEND=5\n\n"
        ))
    );
    assert_eq!(speed::retime_chapters(text, &vec![7]), None);
    assert_eq!(speed::retime_chapters("a", &vec![]), Some(String::from("a\n")));
    assert_eq!(speed::retime_chapters("", &vec![3]), Some(String::from("\n")));
    assert_eq!(speed::timebases("TIMEBASE\n"), None);
    assert_eq!(speed::retime_chapters("TIMEBASE", &vec![1]), None);
    assert_eq!(speed::timebases("xTIMEBASE=1/2"), Some(vec![]));
    let job = speed::change_chapters(&filters_track("chapters"), "/o", &filters_retimed());
    assert_eq!(job.source, "/in/a.mkv");
    assert_eq!(job.path, "/o/t2.speed.txt");
    assert_eq!(job.result.path, "/o/t2.speed.txt");
    assert_eq!(job.result.index, 2);
    assert_eq!(job.result.offset, Number::from(0.96f32));
}

#[test]
fn offset_copies_the_file_under_its_extension() {
    let track = filters_track("audio");
    let job = offset::change(&track, "/o", Number::from(-1.5f32)).unwrap();
    assert_eq!(job.from, "/in/a.mkv");
    assert_eq!(job.to, "/o/t2.offset.mkv");
    assert_eq!(job.result.path, "/o/t2.offset.mkv");
    assert_eq!(job.result.offset, Number::from(-1.5f32));
    assert_eq!(job.result.duration, Number::from(100.0f32));
    let mut bare = filters_track("audio");
    bare.path = String::from("/in/noext");
    assert_eq!(offset::change(&bare, "/o", Number::from(0.0f32)), Err(NoExtension));
    bare.path = String::from("/in/a.m\\v");
    assert_eq!(offset::change(&bare, "/o", Number::from(0.0f32)), Err(NoExtension));
}

#[test]
fn extraction_wraps_the_raw_track() {
    let mut track = filters_track("audio");
    track.path = String::from("/in/a.mkv");
    let mut result = track.clone();
    result.path = String::from("/work/Stage1/t2.mkv");
    result.index = 0;
    assert_eq!(
        extract::run(&track, "/work/Stage1"),
        Extraction::Tracks(Job {
            steps: vec![
                Command {
                    program: String::from("mkvextract"),
                    args: filters_args(&["/in/a.mkv", "tracks", "2:/work/Stage1/t2.temp.raw"]),
                    dir: None,
                    accepted: Some(vec![0]),
                },
                Command {
                    program: String::from("mkvmerge"),
                    args: filters_args(&["-o", "/work/Stage1/t2.mkv", "/work/Stage1/t2.temp.raw"]),
                    dir: None,
                    accepted: Some(vec![0, 1]),
                },
            ],
            remove: vec![String::from("/work/Stage1/t2.temp.raw")],
            result,
        })
    );
}

#[test]
fn extraction_of_dvd_subtitles_wraps_index_and_data() {
    let mut track = filters_track("subtitle");
    track.codec = Some(String::from("dvd_subtitle"));
    let job = extract::extract_stream(&track, "/w");
    assert_eq!(job.steps[1].args, filters_args(&["-o", "/w/t2.mkv", "/w/t2.temp.idx", "/w/t2.temp.sub"]));
    assert_eq!(job.remove, filters_args(&["/w/t2.temp.idx", "/w/t2.temp.sub"]));
    assert!(job.steps[1].succeeded(Some(1)));
    assert!(!job.steps[1].succeeded(Some(2)));
    assert!(!job.steps[1].succeeded(None));
    assert!(!job.steps[0].succeeded(Some(1)));
    assert!(job.steps[0].succeeded(Some(0)));
}

#[test]
fn extraction_of_chapters_reads_the_metadata() {
    let mut track = filters_track("chapters");
    track.index = -1;
    match extract::run(&track, "/w") {
        Extraction::Chapters(job) => {
            assert_eq!(job.command, filters_ffmpeg(&["-i", "/in/a.mkv", "-f", "ffmetadata", "-y", "-"]));
            assert_eq!(job.path, "/w/t2.txt");
            assert_eq!(job.result.path, "/w/t2.txt");
            assert_eq!(job.result.index, -1);
        }
        other => panic!("{:?}", other),
    }
    assert_eq!(extract::extract_chapters(&track, "/w").path, "/w/t2.txt");
}

#[test]
fn chapter_titles_are_stripped() {
    assert_eq!(
        extract::strip_titles(";FFMETADATA1\n[CHAPTER]\ntitle=Chapter 1\nSTART=0\ntitles\n Title\n"),
        ";FFMETADATA1\n[CHAPTER]\nSTART=0\n Title\n\n"
    );
    assert_eq!(extract::strip_titles(""), "\n");
    assert_eq!(extract::strip_titles("title"), "");
    assert_eq!(extract::strip_titles("a\ntitle=x"), "a\n");
    assert_eq!(extract::strip_titles("titl\n"), "titl\n\n");
}

#[test]
fn encode_turns_options_into_flags() {
    let track = filters_track("audio");
    let options = parse(r#"{"codec":"libopus","bitrate":"64k","vbr":"on","cutoff":20000}"#).unwrap();
    let job = encode::run(&track, "/o", &options, "").unwrap();
    assert_eq!(
        job.steps,
        vec![filters_ffmpeg(&[
            "-i", "/in/a.mkv", "-map", "0:2", "-codec", "libopus", "-b:a", "64k*6", "-vbr", "on", "-cutoff", "20000", "-y",
            "/o/t2.enc.mkv",
        ])]
    );
    assert_eq!(job.result.path, "/o/t2.enc.mkv");
    assert_eq!(job.result.index, 0);
    assert_eq!(job.result.codec, Some(String::from("libopus")));
    assert!(!encode::needs_scratch(&track, &options));
}

#[test]
fn encode_keeps_aspect_and_surround_mode() {
    let mut track = filters_track("audio");
    track.aspect = Some(String::from("4:3"));
    let job = encode::run(&track, "/o", &parse(r#"{"codec":"ac3"}"#).unwrap(), "").unwrap();
    assert_eq!(
        job.steps[0].args,
        filters_args(&[
            "-i", "/in/a.mkv", "-map", "0:2", "-aspect", "4:3", "-dsur_mode", "2", "-codec", "ac3", "-y", "/o/t2.enc.mkv",
        ])
    );
    let copy = encode::run(&track, "/o", &parse(r#"{"codec":"copy"}"#).unwrap(), "").unwrap();
    assert_eq!(copy.result.codec, Some(String::from("ac3")));
    assert_eq!(
        copy.steps[0].args,
        filters_args(&["-i", "/in/a.mkv", "-map", "0:2", "-aspect", "4:3", "-codec", "copy", "-y", "/o/t2.enc.mkv"])
    );
}

#[test]
fn encode_video_with_bitrate_takes_two_passes() {
    let mut track = filters_track("video");
    track.codec = Some(String::from("mpeg2video"));
    let options = parse(r#"{"codec":"libx265","bitrate":"2M","x265-params":"aq-mode=3"}"#).unwrap();
    assert!(encode::needs_scratch(&track, &options));
    let job = encode::run(&track, "/o", &options, "/tmp/videoproc.x").unwrap();
    assert_eq!(
        job.steps,
        vec![
            filters_ffmpeg(&[
                "-i", "/in/a.mkv", "-map", "0:2", "-codec", "libx265", "-b:v", "2M", "-x265-params",
                "aq-mode=3:pass=1:stats=/tmp/videoproc.x/ffmpeg2pass-2.x265.log", "-pass", "1", "-passlogfile",
                "/tmp/videoproc.x/ffmpeg2pass", "-f", "null", "-",
            ]),
            filters_ffmpeg(&[
                "-i", "/in/a.mkv", "-map", "0:2", "-codec", "libx265", "-b:v", "2M", "-x265-params",
                "aq-mode=3:pass=2:stats=/tmp/videoproc.x/ffmpeg2pass-2.x265.log", "-pass", "2", "-passlogfile",
                "/tmp/videoproc.x/ffmpeg2pass", "-y", "/o/t2.enc.mkv",
            ]),
        ]
    );
    assert_eq!(job.result.codec, Some(String::from("libx265")));
}

#[test]
fn encode_needs_codec_and_channels() {
    let mut track = filters_track("audio");
    assert_eq!(encode::run(&track, "/o", &parse(r#"{"bitrate":"1"}"#).unwrap(), ""), Err(EncodeError::NoCodec));
    track.channels = None;
    assert_eq!(
        encode::run(&track, "/o", &parse(r#"{"codec":"flac","bitrate":"1"}"#).unwrap(), ""),
        Err(EncodeError::NoChannels)
    );
    assert_eq!(
        encode::options_to_args(&track, &parse(r#"{"a":1,"bitrate":"1","b":2}"#).unwrap(), None, None),
        Err(EncodeError::NoChannels)
    );
    let sub = filters_track("subtitle");
    assert_eq!(
        encode::options_to_args(&sub, &parse(r#"{"bitrate":"1","x265-params":"p"}"#).unwrap(), Some(1), None),
        Ok(filters_args(&["-bitrate", "1", "-x265-params", "p"]))
    );
}

#[test]
fn avisynth_script_is_filled_in() {
    let mut track = filters_track("video");
    track.aspect = Some(String::from("16:9"));
    let job = avisynth::run(&track, "/w", "/f/clean.avs", "src=$(mkv)$ me=$(avs)$").unwrap();
    assert_eq!(job.prepare, vec![]);
    assert_eq!(job.first, None);
    assert_eq!(job.script, "/w/t2.clean.avs");
    assert_eq!(job.text, "src=/in/a.mkv me=/f/clean.avs");
    assert_eq!(
        job.source,
        Command {
            program: String::from("avs2yuv"),
            args: filters_args(&["/w/t2.clean.avs", "-o", "-"]),
            dir: Some(String::from("/w")),
            accepted: None,
        }
    );
    assert_eq!(
        job.sink,
        Command {
            program: String::from("ffmpeg"),
            args: filters_args(&[
                "-i", "pipe:", "-codec", "ffv1", "-map", "0", "-aspect", "16:9", "-y", "/w/t2.clean.avs.mkv",
            ]),
            dir: Some(String::from("/w")),
            accepted: Some(vec![0]),
        }
    );
    assert_eq!(job.path, "/w/t2.clean.avs.mkv");
    assert_eq!(job.remove, filters_args(&["/w/t2.clean.avs"]));
    assert_eq!(job.leftovers, filters_args(&["/w/t2.clean.avs.mpg", "/w/t2.clean.avs.d2v"]));
    assert!(job.source.succeeded(None));
    assert!(job.source.succeeded(Some(3)));
}

#[test]
fn avisynth_script_gets_index_and_passes() {
    let track = filters_track("video");
    let job = avisynth::run(&track, "/w", "/f/clean.avs", "$(d2v)$|$(mpg)$|$(pass)$").unwrap();
    assert_eq!(
        job.prepare,
        vec![
            Command {
                program: String::from("mkvextract"),
                args: filters_args(&["/in/a.mkv", "tracks", "0:/w/t2.clean.avs.mpg"]),
                dir: None,
                accepted: Some(vec![0]),
            },
            Command {
                program: String::from("DGIndex"),
                args: filters_args(&["-i", "t2.clean.avs.mpg", "-o", "t2.clean.avs", "-exit", "-hide"]),
                dir: Some(String::from("/w")),
                accepted: Some(vec![0]),
            },
        ]
    );
    let first = job.first.unwrap();
    assert_eq!(first.script, "/w/t2.clean.pass1.avs");
    assert_eq!(first.text, "/w/t2.clean.avs.d2v|/w/t2.clean.avs.mpg|1");
    assert_eq!(first.command.args, filters_args(&["/w/t2.clean.pass1.avs", "-o", "-"]));
    assert_eq!(first.command.accepted, Some(vec![0]));
    assert_eq!(job.text, "/w/t2.clean.avs.d2v|/w/t2.clean.avs.mpg|2");
    let raw = avisynth::run(&track, "/w", "/f/clean.avs", "$(mpg)$").unwrap();
    assert_eq!(raw.prepare.len(), 1);
    assert_eq!(raw.prepare[0].program, "mkvextract");
    assert_eq!(avisynth::run(&track, "/w", "/", "x"), Err(ScriptError::NoStem));
}

#[test]
fn vapoursynth_script_is_filled_in() {
    let track = filters_track("video");
    let job = vapoursynth::run(&track, "/w", "/f/clean.vpy", "$(mkv)$ $(vpy)$ $(d2v)$").unwrap();
    assert_eq!(
        job.prepare,
        vec![
            Command {
                program: String::from("mkvextract"),
                args: filters_args(&["/in/a.mkv", "tracks", "0:/w/t2.clean.vpy.mpg"]),
                dir: None,
                accepted: Some(vec![0]),
            },
            Command {
                program: String::from("d2vwitch"),
                args: filters_args(&["--output", "/w/t2.clean.vpy.d2v", "/w/t2.clean.vpy.mpg"]),
                dir: None,
                accepted: Some(vec![0]),
            },
        ]
    );
    assert_eq!(job.text, "/in/a.mkv /f/clean.vpy /w/t2.clean.vpy.d2v");
    assert_eq!(job.script, "/w/t2.clean.vpy");
    assert_eq!(job.source.program, "vspipe");
    assert_eq!(job.source.args, filters_args(&["/w/t2.clean.vpy", "-", "-c", "y4m"]));
    assert_eq!(job.source.accepted, None);
    assert_eq!(
        job.sink,
        filters_ffmpeg(&["-i", "pipe:", "-codec", "ffv1", "-map", "0", "-y", "/w/t2.clean.vpy.mkv"])
    );
    assert_eq!(job.first, None);
    let plain = vapoursynth::run(&track, "/w", "/f/clean.vpy", "nothing").unwrap();
    assert_eq!(plain.prepare, vec![]);
    assert_eq!(plain.text, "nothing");
    assert_eq!(vapoursynth::run(&track, "/w", "", "x"), Err(ScriptError::NoStem));
    let info = vapoursynth::info_command("/w/t2.clean.vpy");
    assert_eq!(info.args, filters_args(&["-i", "/w/t2.clean.vpy"]));
    assert_eq!(info.accepted, None);
}

#[test]
fn vapoursynth_account_is_read() {
    let text = "Width: 720\nHeight: 576\nFrames: 135128\nFPS: 24000/1001 (23.976 fps)\nFormat Name: YUV420P8\n";
    assert_eq!(vapoursynth::script_info(text), Ok((135128, (24000, 1001))));
    assert_eq!(vapoursynth::script_info(""), Ok((0, (0, 0))));
    assert_eq!(vapoursynth::script_info("FPS: 25"), Ok((0, (25, 1))));
    assert_eq!(vapoursynth::script_info("Frames: many"), Err(BadInfo));
    assert_eq!(vapoursynth::script_info("Frames"), Err(BadInfo));
    assert_eq!(vapoursynth::script_info("FPS"), Err(BadInfo));
    assert_eq!(vapoursynth::script_info("Frames:  12 :x\nFrames: 13"), Ok((13, (0, 0))));
}

#[test]
fn filtered_track_is_lossless_video() {
    let track = filters_track("video");
    let new = finish(&track, "/w/t2.clean.vpy.mkv", &filters_retimed());
    assert_eq!(new.path, "/w/t2.clean.vpy.mkv");
    assert_eq!(new.index, 0);
    assert_eq!(new.codec, Some(String::from("ffv1")));
    assert_eq!(new.offset, Number::from(0.96f32));
    assert_eq!(new.duration, Number::from(95.9f32));
    assert_eq!(new.language, Some(String::from("eng")));
}
