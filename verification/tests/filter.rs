use json::number::Number;
use videoproc::codec::parse;
use videoproc::filters::filter::{
    check_normalize, check_slot, has_kind, offset_text, rate_of, rates_of, run, run_stage, step, track_dir, Action,
    Commit,
    Cursor, Last, Order, PlanError, Progress, RunError, StageError, StageState, Step, Turn,
};
use videoproc::mkv::Stream;
use videoproc::value::Value;

fn filter_track(streamtype: &str, codec: Option<&str>) -> Stream {
    Stream {
        path: String::from("/in/a.mkv"),
        index: 1,
        streamtype: streamtype.to_string(),
        id: String::from("t1"),
        language: None,
        offset: Number::from(0.0f32),
        duration: Number::from(10.0f32),
        codec: codec.map(|s| s.to_string()),
        aspect: None,
        framerate: None,
        samplerate: None,
        channels: None,
        dialnorm: None,
        dsurmode: None,
    }
}

fn filter_doc(text: &str) -> Value {
    parse(text).unwrap()
}

fn filter_names(cfg: &Value, track: &Stream) -> Vec<(u32, String)> {
    let mut out = Vec::new();
    let mut cursor = Cursor::start();
    loop {
        match step(cfg, track, track, "/work/item", cursor) {
            Step::Stage { number, action, next } => {
                let name = match action {
                    Action::Extract => "extract",
                    Action::Normalize => "normalize",
                    Action::Offset { .. } => "offset",
                    Action::Encode { .. } => "encode",
                    Action::Vapoursynth { .. } => "vapoursynth",
                    Action::Avisynth { .. } => "avisynth",
                    Action::SpeedVideo { .. } => "speed-video",
                    Action::SpeedAudio { .. } => "speed-audio",
                    Action::Tempo { .. } => "tempo",
                    Action::Pitch { .. } => "pitch",
                    Action::SpeedSubtitles { .. } => "speed-subtitles",
                    Action::SpeedChapters { .. } => "speed-chapters",
                };
                out.push((number, name.to_string()));
                cursor = next;
            }
            Step::Done => return out,
            Step::Failed(e) => {
                out.push((0, format!("{:?}", e)));
                return out;
            }
        }
    }
}

#[test]
fn stage_numbers_count_up_from_one() {
    let cfg = filter_doc(
        r#"{"filters":[{"$type":"offset"},{"$type":"encode","codec":"flac"},{"$type":"speed","input":"25","output":"24000/1001"},{"$type":"tempo","input":"25","output":"24"},{"$type":"pitch","input":"25","output":"24"}]}"#,
    );
    let stages = filter_names(&cfg, &filter_track("audio", Some("ac3")));
    assert_eq!(
        stages,
        vec![
            (1, String::from("extract")),
            (2, String::from("normalize")),
            (3, String::from("offset")),
            (4, String::from("encode")),
            (5, String::from("speed-audio")),
            (6, String::from("tempo")),
            (7, String::from("pitch")),
        ]
    );
}

#[test]
fn track_without_filters_is_only_extracted() {
    assert_eq!(filter_names(&filter_doc("{}"), &filter_track("video", None)), vec![(1, String::from("extract"))]);
    assert_eq!(
        filter_names(&filter_doc(r#"{"filters":"none"}"#), &filter_track("video", None)),
        vec![(1, String::from("extract"))]
    );
}

#[test]
fn directives_apply_by_track_type() {
    let cfg = filter_doc(
        r#"{"filters":[{"$type":"speed","framerate":"25","input":"24","output":"25"},{"$type":"vapoursynth","filter":"/f/a.vpy"},{"$type":"avisynth","filter":"/f/a.avs"},{"$type":"tempo","input":"1","output":"2"},{"$type":"encode","codec":"copy"}]}"#,
    );
    assert_eq!(
        filter_names(&cfg, &filter_track("video", Some("h264"))),
        vec![
            (1, String::from("extract")),
            (2, String::from("speed-video")),
            (3, String::from("vapoursynth")),
            (4, String::from("avisynth")),
            (5, String::from("encode")),
        ]
    );
    assert_eq!(
        filter_names(&cfg, &filter_track("subtitle", None)),
        vec![(1, String::from("extract")), (2, String::from("speed-subtitles")), (3, String::from("encode"))]
    );
    assert_eq!(
        filter_names(&cfg, &filter_track("chapters", None)),
        vec![(1, String::from("extract")), (2, String::from("speed-chapters"))]
    );
    assert_eq!(
        filter_names(&cfg, &filter_track("audio", Some("ac3"))),
        vec![
            (1, String::from("extract")),
            (2, String::from("speed-audio")),
            (3, String::from("tempo")),
            (4, String::from("encode")),
        ]
    );
}

#[test]
fn dolby_audio_is_normalized_once_for_each_encode() {
    let track = filter_track("audio", Some("ac3"));
    assert!(check_normalize(&filter_doc(r#"{"$type":"encode","codec":"flac"}"#), &track));
    assert!(check_normalize(&filter_doc(r#"{"$type":"encode"}"#), &track));
    assert!(!check_normalize(&filter_doc(r#"{"$type":"encode","codec":"copy"}"#), &track));
    assert!(!check_normalize(&filter_doc(r#"{"$type":"encode","codec":"ac3"}"#), &track));
    assert!(check_normalize(&filter_doc(r#"{"$type":"encode","codec":"eac3"}"#), &track));
    assert!(!check_normalize(&filter_doc(r#"{"$type":"offset","codec":"flac"}"#), &track));
    assert!(!check_normalize(&filter_doc(r#"{"$type":"encode","codec":"flac"}"#), &filter_track("audio", Some("dts"))));
    assert!(!check_normalize(&filter_doc(r#"{"$type":"encode","codec":"flac"}"#), &filter_track("audio", None)));
}

#[test]
fn missing_rates_fail_the_sequence() {
    let video = filter_track("video", None);
    let audio = filter_track("audio", None);
    assert_eq!(
        filter_names(&filter_doc(r#"{"filters":[{"$type":"speed"}]}"#), &video),
        vec![(1, String::from("extract")), (0, String::from("MissingFramerate"))]
    );
    assert_eq!(
        filter_names(&filter_doc(r#"{"filters":[{"$type":"speed","output":"25"}]}"#), &audio),
        vec![(1, String::from("extract")), (0, String::from("MissingInput"))]
    );
    assert_eq!(
        filter_names(&filter_doc(r#"{"filters":[{"$type":"pitch","input":"25"}]}"#), &audio),
        vec![(1, String::from("extract")), (0, String::from("MissingOutput"))]
    );
    assert_eq!(
        check_slot(&filter_doc(r#"{"$type":"speed","framerate":25}"#), 4, &video, &video, "/w").map(|r| r.is_err()),
        Some(true)
    );
}

#[test]
fn actions_carry_their_parameters() {
    let video = filter_track("video", None);
    let audio = filter_track("audio", None);
    let slot = |text: &str, slot: u8, track: &Stream| check_slot(&filter_doc(text), slot, track, track, "/work/item");
    match slot(r#"{"$type":"speed","framerate":"24000/1001"}"#, 4, &video) {
        Some(Ok(Action::SpeedVideo { framerate })) => assert_eq!(framerate, (24000, 1001)),
        other => panic!("{:?}", other),
    }
    match slot(r#"{"$type":"tempo","input":"25","output":"24000/1001"}"#, 6, &audio) {
        Some(Ok(Action::Tempo { input, output })) => {
            assert_eq!(input, (25, 1));
            assert_eq!(output, (24000, 1001));
        }
        other => panic!("{:?}", other),
    }
    match slot(r#"{"$type":"encode","codec":"flac","bitrate":"64k"}"#, 1, &audio) {
        Some(Ok(Action::Encode { options })) => assert_eq!(options, filter_doc(r#"{"codec":"flac","bitrate":"64k"}"#)),
        other => panic!("{:?}", other),
    }
    match slot(r#"{"$type":"vapoursynth","filter":"/f/a.vpy"}"#, 2, &video) {
        Some(Ok(Action::Vapoursynth { filter })) => assert_eq!(filter, "/f/a.vpy"),
        other => panic!("{:?}", other),
    }
    match slot(r#"{"$type":"avisynth"}"#, 3, &video) {
        Some(Ok(Action::Avisynth { filter })) => assert_eq!(filter, "null"),
        other => panic!("{:?}", other),
    }
    assert!(slot(r#"{"$type":"vapoursynth","filter":"/f/a.vpy"}"#, 2, &audio).is_none());
    assert!(slot(r#"{"$type":"speed","framerate":"25"}"#, 12, &video).is_none());
    assert_eq!(PlanError::MissingInput, PlanError::MissingInput);
}

#[test]
fn offset_is_taken_from_the_first_key_that_matches_the_directory() {
    let filter = filter_doc(r#"{"$type":"offset","nothing":"9","*item*":"1.5","work":"2.5"}"#);
    assert_eq!(offset_text(&filter, "/work/item"), "1.5");
    assert_eq!(offset_text(&filter, "/work/other"), "2.5");
    assert_eq!(offset_text(&filter, "/else"), "0.0");
    assert_eq!(offset_text(&filter_doc(r#"{"$type":"offset","item":3}"#), "/work/item"), "0.0");
    assert_eq!(offset_text(&filter_doc(r#"{"$type":"offset","[bad":"1","item":"-2"}"#), "/work/item"), "-2");
}

#[test]
fn encode_is_not_for_chapters() {
    let cfg = filter_doc(r#"{"filters":[{"$type":"encode","codec":"flac"}]}"#);
    assert_eq!(filter_names(&cfg, &filter_track("chapters", None)), vec![(1, String::from("extract"))]);
}

#[test]
fn stage_looks_for_its_commit_first() {
    let track = filter_track("audio", None);
    assert_eq!(
        run_stage(&track, "/work/item/t1", 3, &Progress::Entered),
        Order::Look { dir: String::from("/work/item/t1/Stage3"), commit: String::from("/work/item/t1/Stage3/commit.json") }
    );
}

#[test]
fn committed_stage_is_resumed_and_not_run() {
    let track = filter_track("audio", Some("ac3"));
    let mut new = track.clone();
    new.path = String::from("/work/item/t1/Stage2/t1.norm.w64");
    new.index = 0;
    new.codec = Some(String::from("pcm_f32le"));
    let text = new.save();
    assert_eq!(run_stage(&track, "/work/item/t1", 2, &Progress::Looked(Commit::Found(text))), Order::Done(new));
    assert_eq!(
        run_stage(&track, "/work/item/t1", 2, &Progress::Looked(Commit::Found(String::from("{}")))),
        Order::Fail(StageError::Commit)
    );
    assert_eq!(
        run_stage(&track, "/work/item/t1", 2, &Progress::Looked(Commit::Found(String::from("not json")))),
        Order::Fail(StageError::Commit)
    );
    assert_eq!(
        run_stage(&track, "/work/item/t1", 2, &Progress::Looked(Commit::Unreadable)),
        Order::Fail(StageError::Commit)
    );
}

#[test]
fn uncommitted_stage_runs_commits_and_cleans_up() {
    let track = filter_track("audio", None);
    let mut new = track.clone();
    new.path = String::from("/work/item/t1/Stage2/t1.tempo.w64");
    assert_eq!(
        run_stage(&track, "/work/item/t1", 2, &Progress::Looked(Commit::Absent)),
        Order::Invoke { dir: String::from("/work/item/t1/Stage2"), track: track.clone() }
    );
    assert_eq!(
        run_stage(&track, "/work/item/t1", 2, &Progress::Ran(new.clone())),
        Order::Save { commit: String::from("/work/item/t1/Stage2/commit.json"), text: new.save() }
    );
    assert_eq!(
        run_stage(&track, "/work/item/t1", 2, &Progress::Saved(new.clone())),
        Order::Cleanup { path: String::from("/in/a.mkv") }
    );
    assert_eq!(run_stage(&track, "/work/item/t1", 2, &Progress::Cleaned(new.clone())), Order::Done(new.clone()));
    assert_eq!(run_stage(&track, "/work/item/t1", 1, &Progress::Saved(new.clone())), Order::Done(new.clone()));
    assert_eq!(run_stage(&track, "/work/item/t1", 0, &Progress::Saved(new.clone())), Order::Done(new));
}

#[test]
fn stage_numbers_run_out() {
    let track = filter_track("audio", None);
    let last = Cursor { pass: 0, filter: 0, slot: 0, stage: u32::MAX };
    match step(&filter_doc("{}"), &track, &track, "/w", last) {
        Step::Failed(PlanError::TooManyStages) => {}
        other => panic!("{:?}", other),
    }
    let almost = Cursor { pass: 0, filter: 0, slot: 0, stage: u32::MAX - 1 };
    match step(&filter_doc("{}"), &track, &track, "/w", almost) {
        Step::Stage { number, next, .. } => {
            assert_eq!(number, u32::MAX);
            assert_eq!(next, Cursor { pass: 1, filter: 0, slot: 0, stage: u32::MAX });
        }
        other => panic!("{:?}", other),
    }
}

#[test]
fn sequence_follows_the_track_as_stages_change_it() {
    let cfg = filter_doc(r#"{"filters":[{"$type":"speed","framerate":"25","input":"24","output":"25"}]}"#);
    let video = filter_track("video", None);
    let audio = filter_track("audio", None);
    let first = match step(&cfg, &video, &video, "/w", Cursor::start()) {
        Step::Stage { number: 1, action: Action::Extract, next } => next,
        other => panic!("{:?}", other),
    };
    let second = match step(&cfg, &video, &video, "/w", first) {
        Step::Stage { number: 2, action: Action::SpeedVideo { .. }, next } => next,
        other => panic!("{:?}", other),
    };
    match step(&cfg, &video, &audio, "/w", second) {
        Step::Stage { number: 3, action: Action::SpeedAudio { input, output }, .. } => {
            assert_eq!((input, output), ((24, 1), (25, 1)));
        }
        other => panic!("{:?}", other),
    }
    match step(&cfg, &video, &video, "/w", second) {
        Step::Done => {}
        other => panic!("{:?}", other),
    }
}

#[test]
fn directive_fields_are_read() {
    let filter = filter_doc(r#"{"$type":"speed","input":"30000/1001","output":7}"#);
    assert!(has_kind(&filter, "speed"));
    assert!(!has_kind(&filter, "spee"));
    assert!(!has_kind(&filter_doc(r#"{"$type":["speed"]}"#), "speed"));
    assert_eq!(rate_of(&filter, "input"), Some((30000, 1001)));
    assert_eq!(rate_of(&filter, "output"), None);
    assert_eq!(rate_of(&filter, "framerate"), None);
    assert_eq!(rates_of(&filter), Err(PlanError::MissingOutput));
    assert_eq!(rates_of(&filter_doc(r#"{"input":"1","output":"2/3"}"#)), Ok(((1, 1), (2, 3))));
}

#[test]
fn failed_orders_fail_the_stage() {
    let track = filter_track("audio", None);
    assert_eq!(run_stage(&track, "/w", 2, &Progress::RunFailed), Order::Fail(StageError::Execution));
    assert_eq!(run_stage(&track, "/w", 2, &Progress::SaveFailed), Order::Fail(StageError::Commit));
    assert_eq!(run_stage(&track, "/w", 2, &Progress::CleanupFailed), Order::Fail(StageError::Cleanup));
}

#[test]
fn stage_goes_from_pending_to_committed_or_failed() {
    let track = filter_track("audio", None);
    assert_eq!(run_stage(&track, "/w", 2, &Progress::Entered).state(), StageState::Pending);
    assert_eq!(run_stage(&track, "/w", 2, &Progress::Looked(Commit::Absent)).state(), StageState::Running);
    assert_eq!(run_stage(&track, "/w", 2, &Progress::Ran(track.clone())).state(), StageState::Running);
    assert_eq!(run_stage(&track, "/w", 2, &Progress::Saved(track.clone())).state(), StageState::Running);
    assert_eq!(run_stage(&track, "/w", 2, &Progress::Cleaned(track.clone())).state(), StageState::Committed);
    assert_eq!(run_stage(&track, "/w", 2, &Progress::Looked(Commit::Found(track.save()))).state(), StageState::Committed);
    assert_eq!(run_stage(&track, "/w", 2, &Progress::RunFailed).state(), StageState::Failed);
}

#[test]
fn stages_are_given_what_the_stage_before_left() {
    let cfg = filter_doc(r#"{"filters":[{"$type":"tempo","input":"25","output":"24"}]}"#);
    let audio = filter_track("audio", None);
    let (input, next) = match run(&cfg, &audio, "/w", Cursor::start(), &Last::Nothing) {
        Turn::Stage { number: 1, action: Action::Extract, input, next } => (input, next),
        other => panic!("{:?}", other),
    };
    assert_eq!(input, audio);
    let mut extracted = audio.clone();
    extracted.path = String::from("/w/t1/Stage1/t1.mkv");
    extracted.index = 0;
    let next = match run(&cfg, &audio, "/w", next, &Last::Left(extracted.clone())) {
        Turn::Stage { number: 2, action: Action::Tempo { .. }, input, next } => {
            assert_eq!(input, extracted);
            next
        }
        other => panic!("{:?}", other),
    };
    let mut stretched = extracted.clone();
    stretched.path = String::from("/w/t1/Stage2/t1.tempo.w64");
    match run(&cfg, &audio, "/w", next, &Last::Left(stretched.clone())) {
        Turn::Done(track) => assert_eq!(track, stretched),
        other => panic!("{:?}", other),
    }
}

#[test]
fn failed_stage_ends_the_sequence() {
    let cfg = filter_doc(r#"{"filters":[{"$type":"tempo","input":"25","output":"24"}]}"#);
    let audio = filter_track("audio", None);
    for cursor in [Cursor::start(), Cursor { pass: 2, filter: 0, slot: 0, stage: 1 }] {
        match run(&cfg, &audio, "/w", cursor, &Last::Failed(StageError::Execution)) {
            Turn::Failed(RunError::Stage(StageError::Execution)) => {}
            other => panic!("{:?}", other),
        }
    }
    let video = filter_track("video", None);
    let speed = filter_doc(r#"{"filters":[{"$type":"speed"}]}"#);
    match run(&speed, &video, "/w", Cursor { pass: 1, filter: 0, slot: 0, stage: 1 }, &Last::Left(video.clone())) {
        Turn::Failed(RunError::Plan(PlanError::MissingFramerate)) => {}
        other => panic!("{:?}", other),
    }
}

#[test]
fn ended_orders_say_how_the_stage_ended() {
    let track = filter_track("audio", None);
    assert_eq!(Order::Done(track.clone()).ended(), Some(Last::Left(track.clone())));
    assert_eq!(Order::Fail(StageError::Cleanup).ended(), Some(Last::Failed(StageError::Cleanup)));
    assert_eq!(Order::Invoke { dir: String::from("/d"), track }.ended(), None);
    assert_eq!(Order::Cleanup { path: String::from("/p") }.ended(), None);
}

#[test]
fn stages_of_a_track_stand_under_its_name() {
    let track = filter_track("audio", None);
    assert_eq!(track_dir("/work/films/alpha", &track), "/work/films/alpha/t1");
    let dir = track_dir("/work/films/alpha", &track);
    assert_eq!(
        run_stage(&track, &dir, 1, &Progress::Entered),
        Order::Look {
            dir: String::from("/work/films/alpha/t1/Stage1"),
            commit: String::from("/work/films/alpha/t1/Stage1/commit.json"),
        }
    );
}
