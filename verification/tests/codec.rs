use json::number::Number;
use videoproc::codec::{parse, pretty, show, ParseError};
use videoproc::glob::matches_glob;
use videoproc::value::{drop_member, merge_members, put_member, Value};

#[test]
fn parse_reads_every_kind_of_value() {
    let doc = parse(r#"{"n":null,"t":true,"f":false,"i":-12,"s":"text","a":[1,"x",[]],"o":{"k":"v"}}"#).unwrap();
    assert_eq!(
        doc,
        Value::Object(vec![
            (String::from("n"), Value::Null),
            (String::from("t"), Value::Boolean(true)),
            (String::from("f"), Value::Boolean(false)),
            (String::from("i"), Value::from_i32(-12)),
            (String::from("s"), Value::from_text("text")),
            (
                String::from("a"),
                Value::Array(vec![Value::from_u32(1), Value::from_text("x"), Value::Array(vec![])])
            ),
            (String::from("o"), Value::Object(vec![(String::from("k"), Value::from_text("v"))])),
        ])
    );
}

#[test]
fn parse_refuses_overlong_fractions() {
    let zeros = "0".repeat(32767);
    assert!(videoproc::codec::is_readable(&format!("0.{}", zeros)));
    assert!(parse(&format!("0.{}", zeros)).is_ok());
    let more = "0".repeat(32768);
    assert!(!videoproc::codec::is_readable(&format!("0.{}", more)));
    assert_eq!(parse(&format!("0.{}", more)), Err(ParseError::LongNumber));
    assert_eq!(parse(&format!("0.{}", "0".repeat(40000))), Err(ParseError::LongNumber));
    assert_eq!(parse(&format!("[1, {{\"a\": -7.{}e3}}]", more)), Err(ParseError::LongNumber));
    assert!(parse(&format!("[{}.{}]", "1".repeat(3), "2".repeat(32767))).is_ok());
}

#[test]
fn parse_reads_long_digits_where_they_are_no_fraction() {
    let many = "0".repeat(40000);
    assert_eq!(parse(&format!("\"{}\"", many)), Ok(Value::from_text(&many)));
    assert_eq!(parse(&format!("\"x.{}\"", many)), Ok(Value::from_text(&format!("x.{}", many))));
    assert_eq!(
        parse(&format!("{{\"a\\\".{}\":1}}", many)),
        Ok(Value::Object(vec![(format!("a\".{}", many), Value::from_u32(1))]))
    );
    assert_eq!(parse(&format!("\"\\\\\" .{}", many)), Err(ParseError::LongNumber));
    assert!(videoproc::codec::is_readable(&format!("1{}", many)));
    assert!(parse(&format!("1{}", "0".repeat(100))).is_ok());
    assert!(videoproc::codec::is_readable(&format!("1.5e{}", many)));
    assert!(parse(&format!("1.5e{}", many)).is_ok());
    assert!(videoproc::codec::is_readable(&format!("0.1 {}", many)));
}

#[test]
fn parse_refuses_what_is_no_document() {
    assert_eq!(parse("{"), Err(ParseError::Syntax));
    assert_eq!(parse(""), Err(ParseError::Syntax));
    assert_eq!(parse("{} x"), Err(ParseError::Syntax));
}

#[test]
fn parse_keeps_the_last_of_repeated_keys_in_the_first_place() {
    let doc = parse(r#"{"a":1,"b":2,"a":3}"#).unwrap();
    assert_eq!(
        doc,
        Value::Object(vec![(String::from("a"), Value::from_u32(3)), (String::from("b"), Value::from_u32(2))])
    );
}

#[test]
fn show_writes_strings_bare_and_the_rest_compact() {
    assert_eq!(show(&Value::from_text("a b")), "a b");
    assert_eq!(show(&Value::Null), "null");
    assert_eq!(show(&Value::Boolean(true)), "true");
    assert_eq!(show(&Value::from_i32(-7)), "-7");
    assert_eq!(show(&parse("18.0").unwrap()), "18.0");
    assert_eq!(show(&parse(r#"{"a":[1,"x"]}"#).unwrap()), r#"{"a":[1,"x"]}"#);
    assert_eq!(show(&Value::Number(Number::from(1.5f32))), "1.5");
}

#[test]
fn pretty_writes_over_several_lines() {
    let doc = parse(r#"{"a":1,"b":[true,null],"c":"x"}"#).unwrap();
    assert_eq!(pretty(&doc, 4), "{\n    \"a\": 1,\n    \"b\": [\n        true,\n        null\n    ],\n    \"c\": \"x\"\n}");
    assert_eq!(pretty(&doc, 1), "{\n \"a\": 1,\n \"b\": [\n  true,\n  null\n ],\n \"c\": \"x\"\n}");
}

#[test]
fn written_mapping_keeps_one_binding_for_a_key() {
    let doc = Value::Object(vec![
        (String::from("a"), Value::from_u32(1)),
        (String::from("b"), Value::from_u32(2)),
        (String::from("a"), Value::from_u32(3)),
    ]);
    assert_eq!(show(&doc), r#"{"a":3,"b":2}"#);
}

#[test]
fn numbers_are_read_as_integers_only_where_they_are() {
    assert_eq!(parse("7").unwrap().as_u32(), Some(7));
    assert_eq!(parse("4294967295").unwrap().as_u32(), Some(4294967295));
    assert_eq!(parse("4294967296").unwrap().as_u32(), None);
    assert_eq!(parse("-1").unwrap().as_u32(), None);
    assert_eq!(parse("1.5").unwrap().as_u32(), None);
    assert_eq!(parse("1e2").unwrap().as_u32(), None);
    assert_eq!(parse("\"7\"").unwrap().as_u32(), None);
    assert_eq!(parse("-1").unwrap().as_i32(), Some(-1));
    assert_eq!(parse("-2147483648").unwrap().as_i32(), Some(-2147483648));
    assert_eq!(parse("2147483647").unwrap().as_i32(), Some(2147483647));
    assert_eq!(parse("2147483648").unwrap().as_i32(), None);
    assert_eq!(parse("-2147483649").unwrap().as_i32(), None);
    assert_eq!(parse("0.5").unwrap().as_i32(), None);
    assert_eq!(Value::from_u32(9).as_u32(), Some(9));
    assert_eq!(Value::from_i32(-9).as_i32(), Some(-9));
    assert_eq!(Value::from_i32(i32::MIN).as_i32(), Some(i32::MIN));
}

#[test]
fn lookups_follow_the_first_binding() {
    let doc = parse(r#"{"a":1,"list":["x","y"],"t":"text","e":""}"#).unwrap();
    assert!(doc.has_key("a"));
    assert!(!doc.has_key("b"));
    assert_eq!(doc.get("a"), Some(&Value::from_u32(1)));
    assert_eq!(doc.get("b"), None);
    assert_eq!(Value::Null.get("a"), None);
    let list = doc.get("list").unwrap();
    assert!(list.lists("y"));
    assert!(!list.lists("z"));
    assert!(!doc.lists("a"));
    assert_eq!(list.at(1), Some(&Value::from_text("y")));
    assert_eq!(list.at(2), None);
    assert_eq!(list.members().len(), 2);
    assert_eq!(doc.members().len(), 0);
    assert_eq!(doc.entries().len(), 4);
    assert_eq!(list.entries().len(), 0);
    assert_eq!(doc.get("t").unwrap().as_str(), Some("text"));
    assert_eq!(doc.get("a").unwrap().as_str(), None);
    assert!(doc.get("t").unwrap().is_text("text"));
    assert!(!doc.get("t").unwrap().is_text("tex"));
    assert!(doc.get("e").unwrap().is_empty());
    assert!(!doc.get("t").unwrap().is_empty());
    assert!(Value::Null.is_empty());
    assert!(Value::Boolean(false).is_empty());
    assert!(!Value::Boolean(true).is_empty());
    assert!(Value::from_u32(0).is_empty());
    assert!(!Value::from_u32(1).is_empty());
    assert!(Value::Array(vec![]).is_empty());
    assert!(!list.is_empty());
    assert!(!doc.is_empty());
    assert!(Value::Boolean(true).is_true());
    assert!(!Value::from_text("true").is_true());
    assert!(doc.is_object() && !doc.is_array() && !doc.is_null());
    assert!(list.is_array() && Value::Null.is_null());
}

#[test]
fn bindings_are_put_merged_and_dropped_in_place() {
    let mut members = vec![(String::from("a"), Value::from_u32(1)), (String::from("b"), Value::from_u32(2))];
    put_member(&mut members, "a", Value::from_u32(9));
    put_member(&mut members, "c", Value::Null);
    assert_eq!(
        members,
        vec![
            (String::from("a"), Value::from_u32(9)),
            (String::from("b"), Value::from_u32(2)),
            (String::from("c"), Value::Null),
        ]
    );
    let more = vec![(String::from("d"), Value::Boolean(true)), (String::from("b"), Value::from_text("x"))];
    merge_members(&mut members, &more);
    assert_eq!(
        members,
        vec![
            (String::from("a"), Value::from_u32(9)),
            (String::from("b"), Value::from_text("x")),
            (String::from("c"), Value::Null),
            (String::from("d"), Value::Boolean(true)),
        ]
    );
    assert_eq!(
        drop_member(&members, "b"),
        vec![
            (String::from("a"), Value::from_u32(9)),
            (String::from("c"), Value::Null),
            (String::from("d"), Value::Boolean(true)),
        ]
    );
    assert_eq!(drop_member(&members, "zz"), members);
}

#[test]
fn copies_are_equal_to_what_they_copy() {
    let doc = parse(r#"{"a":[1,{"b":"c"}],"d":1.25}"#).unwrap();
    assert_eq!(doc.copy(), doc);
    assert_eq!(doc.clone(), doc);
}

#[test]
fn glob_matches_whole_text() {
    assert!(matches_glob("*.mkv", "a.mkv"));
    assert!(!matches_glob("*.mkv", "a.mkv.txt"));
    assert!(matches_glob("a?c", "abc"));
    assert!(!matches_glob("a?c", "a/c"));
    assert!(matches_glob("*{one,two}*", "/work/two/x"));
    assert!(!matches_glob("[bad", "[bad"));
    assert!(!matches_glob("abc", "xabc"));
}
