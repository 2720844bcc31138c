use json::number::Number;
use videoproc::codec::parse;
use videoproc::command::{Command, Plan};
use videoproc::mkv::{
    chapters, find_entry, layout, normalize, normalize_file, stream, streams, times, BadDuration, CommitError,
    Input, NoSuchStream, Probe, Probed, Span, Stream, Times,
};
use videoproc::utils::streampriority;
use videoproc::value::Value;

fn mkv_track(path: &str, index: i32, streamtype: &str, language: Option<&str>) -> Stream {
    Stream {
        path: path.to_string(),
        index,
        streamtype: streamtype.to_string(),
        id: format!("{}:{}", streamtype, index),
        language: language.map(|s| s.to_string()),
        offset: Number::from(0.0f32),
        duration: Number::from(0.0f32),
        codec: None,
        aspect: None,
        framerate: None,
        samplerate: None,
        channels: None,
        dialnorm: None,
        dsurmode: None,
    }
}

fn mkv_args(list: &[&str]) -> Vec<String> {
    list.iter().map(|s| s.to_string()).collect()
}

fn mkv_full() -> Stream {
    Stream {
        path: String::from("/work/a/Stage1/video:0.mkv"),
        index: -1,
        streamtype: String::from("video"),
        id: String::from("video:0"),
        language: Some(String::from("eng")),
        offset: Number::from(-2.5f32),
        duration: Number::from(5400.25f32),
        codec: Some(String::from("h264")),
        aspect: Some(String::from("16:9")),
        framerate: Some((24000, 1001)),
        samplerate: Some(48000),
        channels: Some(6),
        dialnorm: Some(-27),
        dsurmode: Some(2),
    }
}

#[test]
fn priorities_rank_the_track_types() {
    assert_eq!(streampriority(&mkv_track("p", 0, "video", None)), 1);
    assert_eq!(streampriority(&mkv_track("p", 0, "audio", None)), 2);
    assert_eq!(streampriority(&mkv_track("p", 0, "subtitle", None)), 3);
    assert_eq!(streampriority(&mkv_track("p", 0, "chapters", None)), 4);
    assert_eq!(streampriority(&mkv_track("p", 0, "", None)), 4);
}

#[test]
fn commit_text_lists_every_field() {
    let text = mkv_full().save();
    assert_eq!(
        text,
        "{\n    \"path\": \"/work/a/Stage1/video:0.mkv\",\n    \"index\": -1,\n    \"streamtype\": \"video\",\n    \"id\": \"video:0\",\n    \"language\": \"eng\",\n    \"codec\": \"h264\",\n    \"offset\": -2.5,\n    \"duration\": 5400.25,\n    \"aspect\": \"16:9\",\n    \"framerate\": \"24000/1001\",\n    \"samplerate\": 48000,\n    \"channels\": 6,\n    \"dialnorm\": -27,\n    \"dsurmode\": 2\n}"
    );
}

#[test]
fn commit_is_read_back_as_it_was_written() {
    let full = mkv_full();
    assert_eq!(Stream::load(&full.save()), Ok(full.clone()));
    assert_eq!(Stream::from_value(&full.to_value()), Ok(full));
    let bare = mkv_track("/in/a.mkv", 0, "audio", None);
    assert_eq!(Stream::load(&bare.save()), Ok(bare.clone()));
    assert_eq!(Stream::load(&Stream::load(&bare.save()).unwrap().save()), Ok(bare));
}

#[test]
fn commit_needs_index_offset_and_duration() {
    assert_eq!(Stream::load("{"), Err(CommitError::Syntax));
    assert_eq!(Stream::load("{}"), Err(CommitError::BadIndex));
    assert_eq!(Stream::load(r#"{"index":1.5,"offset":0,"duration":0}"#), Err(CommitError::BadIndex));
    assert_eq!(Stream::load(r#"{"index":1,"duration":0}"#), Err(CommitError::BadOffset));
    assert_eq!(Stream::load(r#"{"index":1,"offset":"0","duration":0}"#), Err(CommitError::BadOffset));
    assert_eq!(Stream::load(r#"{"index":1,"offset":0}"#), Err(CommitError::BadDuration));
    assert_eq!(Stream::load("[]"), Err(CommitError::BadIndex));
    let loose = Stream::load(r#"{"index":1,"offset":0.5,"duration":2,"framerate":"25","language":7,"samplerate":"x"}"#).unwrap();
    assert_eq!(loose.path, "null");
    assert_eq!(loose.streamtype, "null");
    assert_eq!(loose.language, None);
    assert_eq!(loose.framerate, Some((25, 1)));
    assert_eq!(loose.samplerate, None);
    assert_eq!(loose.offset, Number::from(0.5f32));
}

#[test]
fn cleanup_names_the_file_that_is_there() {
    let track = mkv_track("/in/a.mkv", 0, "audio", None);
    assert_eq!(track.cleanup(true), Some(String::from("/in/a.mkv")));
    assert_eq!(track.cleanup(false), None);
}

#[test]
fn mux_lists_chapters_last_and_maps_by_position() {
    let inputs = vec![
        Input { stream: mkv_track("/w/v.mkv", 0, "video", Some("eng")), offset: String::from("0") },
        Input { stream: mkv_track("/w/c.txt", -1, "chapters", None), offset: String::from("2") },
        Input { stream: mkv_track("/w/a.mkv", 3, "audio", Some("ger")), offset: String::from("-2") },
        Input { stream: mkv_track("/w/s.mkv", 0, "subtitle", None), offset: String::from("0.5") },
    ];
    let plan = videoproc::mkv::write(&inputs, "/out/item.mkv");
    assert_eq!(
        plan,
        Plan {
            steps: vec![
                Command {
                    program: String::from("ffmpeg"),
                    args: mkv_args(&[
                        "-itsoffset", "0s", "-i", "/w/v.mkv",
                        "-itsoffset", "-2s", "-i", "/w/a.mkv",
                        "-itsoffset", "0.5s", "-i", "/w/s.mkv",
                        "-itsoffset", "2s", "-i", "/w/c.txt",
                        "-map", "0:0", "-metadata:s:0", "title=", "-metadata:s:0", "SOURCE_ID=",
                        "-metadata:s:0", "ENCODER=", "-metadata:s:0", "language=",
                        "-map_chapters", "1",
                        "-map", "2:3", "-metadata:s:2", "title=", "-metadata:s:2", "SOURCE_ID=",
                        "-metadata:s:2", "ENCODER=", "-metadata:s:2", "language=ger",
                        "-map", "3:0", "-metadata:s:3", "title=", "-metadata:s:3", "SOURCE_ID=",
                        "-metadata:s:3", "ENCODER=", "-metadata:s:3", "language=",
                        "-codec", "copy", "-disposition", "0", "-disposition:a:0", "default",
                        "-metadata", "title=", "-y", "/out/item.temp.mkv",
                    ]),
                    dir: None,
                    accepted: Some(vec![0]),
                },
                Command {
                    program: String::from("mkvmerge"),
                    args: mkv_args(&["-o", "/out/item.mkv", "/out/item.temp.mkv"]),
                    dir: None,
                    accepted: Some(vec![0]),
                },
            ],
            remove: vec![String::from("/out/item.temp.mkv")],
        }
    );
}

#[test]
fn mux_of_nothing_still_writes_the_output() {
    let plan = videoproc::mkv::write(&vec![], "/out/item.mkv");
    assert_eq!(
        plan.steps[0].args,
        mkv_args(&[
            "-codec", "copy", "-disposition", "0", "-disposition:a:0", "default", "-metadata", "title=", "-y",
            "/out/item.temp.mkv",
        ])
    );
}

fn mkv_probe() -> Value {
    parse(
        r#"{"streams":[
            {"index":0,"codec_type":"video","codec_name":"mpeg2video","start_time":"0.080000","display_aspect_ratio":"16:9","avg_frame_rate":"25/1","tags":{"DURATION":"01:30:05.120000000","SOURCE_ID":"0011e0"}},
            {"index":1,"codec_type":"audio","codec_name":"ac3","start_time":"0.000000","channels":6,"duration":"5405.1","tags":{"language":"eng"}},
            {"codec_type":"subtitle","codec_name":"dvd_subtitle","tags":{"DURATION":"00:10"}},
            {"index":1,"codec_type":"audio","codec_name":"dts"}
        ],"format":{"nb_streams":3},"chapters":[{"id":0}]}"#,
    )
    .unwrap()
}

fn mkv_info() -> Value {
    parse(
        r#"{"media":{"track":[
            {"@type":"General"},
            {"@type":"Video"},
            {"@type":"Audio","SamplingRate":"48000","extra":{"dialnorm_Average":"-27","dsurmod":"2"}}
        ]}}"#,
    )
    .unwrap()
}

#[test]
fn probed_video_track_is_described() {
    let found = stream("/in/a.mkv", 0, &mkv_probe(), &mkv_info(), Number::from(0.08f32), Number::from(5405.12f32));
    assert_eq!(
        found,
        Ok(Stream {
            path: String::from("/in/a.mkv"),
            index: 0,
            streamtype: String::from("video"),
            id: String::from("0011e0"),
            language: None,
            offset: Number::from(0.08f32),
            duration: Number::from(5405.12f32),
            codec: Some(String::from("mpeg2video")),
            aspect: Some(String::from("16:9")),
            framerate: Some((25, 1)),
            samplerate: None,
            channels: None,
            dialnorm: None,
            dsurmode: None,
        })
    );
}

#[test]
fn probed_audio_track_is_described() {
    let found = stream("/in/a.mkv", 1, &mkv_probe(), &mkv_info(), Number::from(0.0f32), Number::from(5405.1f32));
    assert_eq!(
        found,
        Ok(Stream {
            path: String::from("/in/a.mkv"),
            index: 1,
            streamtype: String::from("audio"),
            id: String::from("audio:1"),
            language: Some(String::from("eng")),
            offset: Number::from(0.0f32),
            duration: Number::from(5405.1f32),
            codec: Some(String::from("ac3")),
            aspect: None,
            framerate: None,
            samplerate: Some(48000),
            channels: Some(6),
            dialnorm: Some(-27),
            dsurmode: Some(2),
        })
    );
}

#[test]
fn probed_track_must_be_listed() {
    let zero = Number::from(0.0f32);
    assert_eq!(stream("/in/a.mkv", 7, &mkv_probe(), &mkv_info(), zero, zero), Err(NoSuchStream));
    assert_eq!(stream("/in/a.mkv", 0, &Value::Null, &Value::Null, zero, zero), Err(NoSuchStream));
    assert_eq!(stream("/in/a.mkv", u32::MAX, &parse(r#"{"streams":[{"index":4294967295}]}"#).unwrap(), &Value::Null, zero, zero), Err(NoSuchStream));
    assert!(find_entry(&mkv_probe(), 7).is_none());
    assert_eq!(find_entry(&mkv_probe(), 1).unwrap().get("codec_name"), Some(&Value::from_text("ac3")));
}

#[test]
fn probed_times_name_where_to_read_them() {
    assert_eq!(
        times(&mkv_probe(), 0),
        Some(Ok(Times {
            start: String::from("0.080000"),
            span: Span::Clock(String::from("01"), String::from("30"), String::from("05.120000000")),
        }))
    );
    assert_eq!(
        times(&mkv_probe(), 1),
        Some(Ok(Times { start: String::from("0.000000"), span: Span::Seconds(String::from("5405.1")) }))
    );
    assert_eq!(times(&mkv_probe(), 9), None);
    let short = parse(r#"{"streams":[{"index":2,"tags":{"DURATION":"00:10"}},{"index":3},{"index":4,"tags":{"DURATION":"1:2:3:4"}}]}"#).unwrap();
    assert_eq!(times(&short, 2), Some(Err(BadDuration)));
    assert_eq!(times(&short, 3), Some(Ok(Times { start: String::from("null"), span: Span::Unknown })));
    assert_eq!(
        times(&short, 4),
        Some(Ok(Times { start: String::from("null"), span: Span::Clock(String::from("1"), String::from("2"), String::from("3")) }))
    );
}

#[test]
fn probed_containers_are_described_in_order() {
    let files = vec![
        Probed { file: String::from("/in/a.mkv"), data: mkv_probe() },
        Probed { file: String::from("/in/none.mkv"), data: Value::Null },
        Probed { file: String::from("/in/b.mkv"), data: parse(r#"{"format":{"nb_streams":1},"chapters":[]}"#).unwrap() },
        Probed { file: String::from("/in/c.mkv"), data: parse(r#"{"chapters":[1]}"#).unwrap() },
    ];
    let order = streams(&files);
    assert_eq!(
        order,
        vec![
            Probe::Track { file: String::from("/in/a.mkv"), index: 0 },
            Probe::Track { file: String::from("/in/a.mkv"), index: 1 },
            Probe::Track { file: String::from("/in/a.mkv"), index: 2 },
            Probe::Chapters(chapters("/in/a.mkv")),
            Probe::Track { file: String::from("/in/b.mkv"), index: 0 },
            Probe::Chapters(chapters("/in/c.mkv")),
        ]
    );
    let track = chapters("/in/a.mkv");
    assert_eq!(track.index, -1);
    assert_eq!(track.streamtype, "chapters");
    assert_eq!(track.id, "chapters");
    assert_eq!(track.path, "/in/a.mkv");
    assert_eq!(track.offset, Number::from(0.0f32));
    assert_eq!(track.duration, Number::from(0.0f32));
    let mut list = vec![Probe::Track { file: String::from("x"), index: 9 }];
    layout("/in/b.mkv", &parse(r#"{"format":{"nb_streams":2}}"#).unwrap(), &mut list);
    assert_eq!(list.len(), 3);
    assert_eq!(list[2], Probe::Track { file: String::from("/in/b.mkv"), index: 1 });
    assert_eq!(streams(&vec![]), vec![]);
}

#[test]
fn single_container_is_normalized_in_the_working_directory() {
    let plan = normalize(&vec![String::from("/in/group/item.mkv")], "/work/group/item");
    assert_eq!(plan.len(), 1);
    assert_eq!(plan[0].dir, "/work/group/item");
    assert_eq!(plan[0].output, "/work/group/item/item.norm.mkv");
    assert_eq!(plan[0].temp, "/work/group/item/item.norm.temp.mkv");
    assert_eq!(plan[0].command.program, "mkvmerge");
    assert_eq!(plan[0].command.args, mkv_args(&["-o", "/work/group/item/item.norm.temp.mkv", "/in/group/item.mkv"]));
    assert_eq!(plan[0], normalize_file("/in/group/item.mkv", "/work/group/item"));
}

#[test]
fn several_containers_are_normalized_in_directories_of_their_own() {
    let files = vec![String::from("/in/group/item/one.mkv"), String::from("/in/group/item/two.mkv")];
    let plan = normalize(&files, "/work/group/item");
    assert_eq!(plan[0].dir, "/work/group/item/one");
    assert_eq!(plan[0].output, "/work/group/item/one/one.norm.mkv");
    assert_eq!(plan[1].dir, "/work/group/item/two");
    assert_eq!(plan[1].temp, "/work/group/item/two/two.norm.temp.mkv");
    assert_eq!(plan[1].command.args, mkv_args(&["-o", "/work/group/item/two/two.norm.temp.mkv", "/in/group/item/two.mkv"]));
}

#[test]
fn probes_ask_for_documents() {
    assert_eq!(
        videoproc::mkv::streams_probe("/in/a.mkv"),
        Command {
            program: String::from("ffprobe"),
            args: mkv_args(&["/in/a.mkv", "-of", "json", "-show_streams", "-probesize", "10G", "-analyzeduration", "10G"]),
            dir: None,
            accepted: Some(vec![0]),
        }
    );
    assert_eq!(
        videoproc::mkv::layout_probe("/in/a.mkv").args,
        mkv_args(&[
            "/in/a.mkv", "-of", "json", "-show_format", "-show_chapters", "-probesize", "10G", "-analyzeduration", "10G",
        ])
    );
    assert_eq!(videoproc::mkv::info_probe("/in/a.mkv").args, mkv_args(&["/in/a.mkv", "-F", "--Output=JSON"]));
    assert_eq!(videoproc::mkv::info_probe("/in/a.mkv").program, "mediainfo");
}
