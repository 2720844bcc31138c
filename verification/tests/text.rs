use videoproc::filters::encode::extend;
use videoproc::filters::script::sink_part;
use videoproc::filters::speed::map_text;
use videoproc::text::{copy_opt, find_char, join2, join3, slice_begins_with, slice_text, text_or_empty};
use videoproc::utils::{parse_or_zero, push_text};

#[test]
fn texts_are_joined_in_order() {
    assert_eq!(join2("ab", "cd"), "abcd");
    assert_eq!(join2("", ""), "");
    assert_eq!(join3("a", "é", "c"), "aéc");
}

#[test]
fn characters_are_found_and_sliced() {
    let s: Vec<char> = "aé/b/c".chars().collect();
    assert_eq!(find_char(&s, '/', 0), 2);
    assert_eq!(find_char(&s, '/', 3), 4);
    assert_eq!(find_char(&s, '/', 5), 6);
    assert_eq!(find_char(&s, 'x', 0), 6);
    assert_eq!(find_char(&s, 'a', 6), 6);
    assert_eq!(slice_text(&s, 0, 2), "aé");
    assert_eq!(slice_text(&s, 3, 4), "b");
    assert_eq!(slice_text(&s, 6, 6), "");
    let prefix: Vec<char> = "é/".chars().collect();
    assert!(slice_begins_with(&s, 1, 6, &prefix));
    assert!(slice_begins_with(&s, 1, 3, &prefix));
    assert!(!slice_begins_with(&s, 1, 2, &prefix));
    assert!(!slice_begins_with(&s, 0, 6, &prefix));
    assert!(slice_begins_with(&s, 2, 2, &vec![]));
}

#[test]
fn missing_texts_are_empty() {
    assert_eq!(text_or_empty(None), "");
    assert_eq!(text_or_empty(Some(String::from("x"))), "x");
    assert_eq!(copy_opt(&None), None);
    assert_eq!(copy_opt(&Some(String::from("x"))), Some(String::from("x")));
}

#[test]
fn numbers_are_read_or_zero() {
    assert_eq!(parse_or_zero("42"), 42);
    assert_eq!(parse_or_zero("+42"), 42);
    assert_eq!(parse_or_zero("042"), 42);
    assert_eq!(parse_or_zero("4294967295"), 4294967295);
    assert_eq!(parse_or_zero("4294967296"), 0);
    assert_eq!(parse_or_zero("-1"), 0);
    assert_eq!(parse_or_zero(" 1"), 0);
    assert_eq!(parse_or_zero("1.0"), 0);
    assert_eq!(parse_or_zero("+"), 0);
    assert_eq!(parse_or_zero(""), 0);
}

#[test]
fn argument_lists_grow_at_the_end() {
    let mut list = vec![String::from("a")];
    push_text(&mut list, String::from("b"));
    extend(&mut list, &vec![String::from("c"), String::from("d")]);
    extend(&mut list, &vec![]);
    assert_eq!(list, vec!["a", "b", "c", "d"]);
    assert_eq!(map_text(3), "0:3");
    assert_eq!(map_text(-1), "0:-1");
}

#[test]
fn sink_takes_the_video_from_its_input() {
    let track = videoproc::mkv::Stream {
        path: String::from("/in/a.mkv"),
        index: 0,
        streamtype: String::from("video"),
        id: String::from("v"),
        language: None,
        offset: json::number::Number::from(0.0f32),
        duration: json::number::Number::from(0.0f32),
        codec: None,
        aspect: None,
        framerate: None,
        samplerate: None,
        channels: None,
        dialnorm: None,
        dsurmode: None,
    };
    assert_eq!(sink_part(&track, "/o/v.mkv"), vec!["-i", "pipe:", "-codec", "ffv1", "-map", "0", "-y", "/o/v.mkv"]);
}
