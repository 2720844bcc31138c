use json::number::Number;
use videoproc::codec::parse;
use videoproc::mkv::Stream;
use videoproc::select::{check_file, check_match, find, find_match, is_optional, sort_picks, SelectionError};
use videoproc::value::Value;

fn select_track(path: &str, index: i32, streamtype: &str, id: &str, language: Option<&str>) -> Stream {
    Stream {
        path: path.to_string(),
        index,
        streamtype: streamtype.to_string(),
        id: id.to_string(),
        language: language.map(|s| s.to_string()),
        offset: Number::from(0.0f32),
        duration: Number::from(0.0f32),
        codec: None,
        aspect: None,
        framerate: None,
        samplerate: None,
        channels: None,
        dialnorm: None,
        dsurmode: None,
    }
}

fn select_doc(text: &str) -> Value {
    parse(text).unwrap()
}

#[test]
fn single_role_binds_single_track() {
    let cfg = select_doc(r#"{"main":[{"type":"video"}]}"#);
    let track = select_track("/in/a.mkv", 0, "video", "video:0", None);
    let found = find(&cfg, &vec![track.clone()]).unwrap();
    assert_eq!(found, vec![(String::from("main"), select_doc(r#"{"type":"video"}"#), track)]);
}

#[test]
fn selection_is_ordered_by_priority() {
    let cfg = select_doc(r#"{"subs":[{"type":"subtitle"}],"picture":[{"type":"video"}],"sound":[{"type":"audio"}]}"#);
    let tracks = vec![
        select_track("/in/a.mkv", 0, "subtitle", "subtitle:0", None),
        select_track("/in/a.mkv", 1, "video", "video:1", None),
        select_track("/in/a.mkv", 2, "audio", "audio:2", None),
    ];
    let found = find(&cfg, &tracks).unwrap();
    let types: Vec<&str> = found.iter().map(|p| p.2.streamtype.as_str()).collect();
    assert_eq!(types, vec!["video", "audio", "subtitle"]);
    let roles: Vec<&str> = found.iter().map(|p| p.0.as_str()).collect();
    assert_eq!(roles, vec!["picture", "sound", "subs"]);
}

#[test]
fn selection_keeps_role_order_within_a_priority() {
    let cfg = select_doc(
        r#"{"c":[{"id":["chapters"]}],"a2":[{"id":["a:2"]}],"other":[{"type":"data"}],"a1":[{"id":["a:1"]}],"v":[{"type":"video"}]}"#,
    );
    let tracks = vec![
        select_track("/in/a.mkv", 1, "audio", "a:1", None),
        select_track("/in/a.mkv", 2, "audio", "a:2", None),
        select_track("/in/a.mkv", 0, "video", "v:0", None),
        select_track("/in/a.mkv", -1, "chapters", "chapters", None),
        select_track("/in/a.mkv", 4, "data", "d:4", None),
    ];
    let found = find(&cfg, &tracks).unwrap();
    let roles: Vec<&str> = found.iter().map(|p| p.0.as_str()).collect();
    assert_eq!(roles, vec!["v", "a2", "a1", "c", "other"]);
}

#[test]
fn sort_picks_is_stable() {
    let picks = vec![
        (String::from("r1"), Value::Null, select_track("p", 0, "attachment", "x", None)),
        (String::from("r2"), Value::Null, select_track("p", 1, "audio", "y", None)),
        (String::from("r3"), Value::Null, select_track("p", 2, "audio", "z", None)),
        (String::from("r4"), Value::Null, select_track("p", 3, "video", "w", None)),
    ];
    let sorted = sort_picks(&picks);
    let roles: Vec<&str> = sorted.iter().map(|p| p.0.as_str()).collect();
    assert_eq!(roles, vec!["r4", "r2", "r3", "r1"]);
}

#[test]
fn first_role_without_match_fails_the_selection() {
    let cfg = select_doc(r#"{"picture":[{"type":"video"}],"sound":[{"type":"audio"}],"subs":[{"type":"subtitle"}]}"#);
    let tracks = vec![select_track("/in/a.mkv", 0, "video", "video:0", None)];
    assert_eq!(find(&cfg, &tracks), Err(SelectionError { role: String::from("sound") }));
}

#[test]
fn first_option_with_a_match_wins_over_track_order() {
    let cfg = select_doc(r#"[{"lang":"ger"},{"lang":"eng"}]"#);
    let tracks = vec![
        select_track("/in/a.mkv", 1, "audio", "audio:1", Some("eng")),
        select_track("/in/a.mkv", 2, "audio", "audio:2", Some("ger")),
        select_track("/in/a.mkv", 3, "audio", "audio:3", Some("ger")),
    ];
    let (option, track) = find_match(&cfg, &tracks).unwrap();
    assert_eq!(option, select_doc(r#"{"lang":"ger"}"#));
    assert_eq!(track.id, "audio:2");
    assert_eq!(find_match(&select_doc(r#"[{"lang":"fre"}]"#), &tracks), None);
}

#[test]
fn predicates_all_have_to_hold() {
    let track = select_track("/in/disc/title/a.mkv", 1, "audio", "audio:1", None);
    assert!(check_match(&select_doc("{}"), &track));
    assert!(check_match(&select_doc(r#"{"type":"audio","lang":"None","id":["x","audio:1"]}"#), &track));
    assert!(!check_match(&select_doc(r#"{"type":"video"}"#), &track));
    assert!(!check_match(&select_doc(r#"{"lang":"eng"}"#), &track));
    assert!(!check_match(&select_doc(r#"{"id":["audio:2"]}"#), &track));
    assert!(!check_match(&select_doc(r#"{"id":"audio:1"}"#), &track));
    assert!(!check_match(&select_doc(r#"{"missing":true}"#), &track));
    assert!(check_match(&select_doc(r#"{"missing":false}"#), &track));
    assert!(check_match(&select_doc(r#"{"missing":"true"}"#), &track));
}

#[test]
fn file_patterns_match_a_directory_above_the_file() {
    let track = select_track("/in/disc/title/a.mkv", 1, "audio", "audio:1", None);
    assert!(check_file(&select_doc(r#"{"file":["disc/title"]}"#), &track));
    assert!(check_file(&select_doc(r#"{"file":["nope","in/disc/t*"]}"#), &track));
    assert!(check_file(&select_doc(r#"{"file":["title"]}"#), &track));
    assert!(!check_file(&select_doc(r#"{"file":["a.mkv"]}"#), &track));
    assert!(!check_file(&select_doc(r#"{"file":["tit"]}"#), &track));
    assert!(!check_file(&select_doc(r#"{"file":[]}"#), &track));
    assert!(!check_file(&select_doc(r#"{"file":["[bad"]}"#), &track));
    assert!(check_file(&select_doc(r#"{"other":1}"#), &track));
}

#[test]
fn absent_role_is_passed_over() {
    let tracks = vec![select_track("/in/disc/title/a.mkv", 0, "video", "video:0", None)];
    let cfg = select_doc(
        r#"{"sound":[{"type":"audio"},{"missing":true,"file":["bonus"]}],"picture":[{"type":"video"}]}"#,
    );
    let found = find(&cfg, &tracks).unwrap();
    assert_eq!(found.len(), 1);
    assert_eq!(found[0].0, "picture");
    assert!(is_optional(&select_doc(r#"[{"missing":true,"file":["other"]}]"#), &tracks));
    assert!(is_optional(&select_doc(r#"[{"type":"audio"},{"missing":true,"file":["a","b"]}]"#), &tracks));
    assert!(!is_optional(&select_doc(r#"[{"missing":true,"file":["disc/title"]}]"#), &tracks));
    assert!(!is_optional(&select_doc(r#"[{"missing":true,"file":["other","title"]}]"#), &tracks));
    assert!(!is_optional(&select_doc(r#"[{"missing":true}]"#), &tracks));
    assert!(!is_optional(&select_doc(r#"[{"type":"audio"}]"#), &tracks));
    assert!(!is_optional(&select_doc(r#"[{"missing":false,"file":["other"]}]"#), &tracks));
    assert!(is_optional(&select_doc(r#"[{"missing":true}]"#), &vec![]));
    let strict = select_doc(r#"{"sound":[{"type":"audio"},{"missing":true,"file":["title"]}]}"#);
    assert_eq!(find(&strict, &tracks), Err(SelectionError { role: String::from("sound") }));
}
