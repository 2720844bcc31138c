use videoproc::codec::parse;
use videoproc::config::{
    file_under, load, load_dict, load_file, lookup, resolve, resolve_dict, resolve_link, resolve_links, resolve_list,
    resolve_scalar, resolve_value, substitute, ConfigError, Known, Lookup, Need,
};
use videoproc::value::Value;

fn config_doc(text: &str) -> Value {
    parse(text).unwrap()
}

fn config_known(files: &[(&str, Option<&str>)], canonical: &[(&str, Option<&str>)]) -> Known {
    Known {
        files: files
            .iter()
            .map(|(p, t)| Lookup { path: p.to_string(), found: t.map(|s| s.to_string()) })
            .collect(),
        canonical: canonical
            .iter()
            .map(|(p, t)| Lookup { path: p.to_string(), found: t.map(|s| s.to_string()) })
            .collect(),
        absolute: vec![
            Lookup { path: String::from("/cfg"), found: Some(String::from("/cfg")) },
            Lookup { path: String::from("/cfg/../cfg"), found: Some(String::from("/cfg/../cfg")) },
            Lookup { path: String::from("cfg"), found: Some(String::from("/home/me/cfg")) },
            Lookup { path: String::from(""), found: None },
        ],
    }
}

fn config_has_link(value: &Value) -> bool {
    match value {
        Value::Object(members) => members.iter().any(|(k, v)| k == "$link" || config_has_link(v)),
        Value::Array(items) => items.iter().any(config_has_link),
        _ => false,
    }
}

#[test]
fn resolved_document_holds_no_link() {
    let known = config_known(
        &[
            ("/cfg/a.json", Some(r#"{"k":1,"$link":"b.json"}"#)),
            ("/cfg/b.json", Some(r#"{"deep":[{"$link":["a.json"]}],"z":null}"#)),
        ],
        &[],
    );
    let doc = config_doc(r#"{"x":{"$link":"a.json"},"list":[{"$link":["b.json",7]}],"$link":"a.json"}"#);
    let resolved = resolve(&"/cfg", &doc, &known).unwrap();
    assert!(!config_has_link(&resolved));
}

#[test]
fn token_resolves_to_canonical_path() {
    let doc = config_doc(r#"{"file":"$(configs)$/x.txt"}"#);
    let asked = resolve("/cfg/../cfg", &doc, &config_known(&[], &[]));
    assert_eq!(asked, Err(Need::Canonical(String::from("/cfg/../cfg/x.txt"))));
    let known = config_known(&[], &[("/cfg/../cfg/x.txt", Some("/cfg/x.txt"))]);
    let resolved = resolve("/cfg/../cfg", &doc, &known).unwrap();
    assert_eq!(resolved, config_doc(r#"{"file":"/cfg/x.txt"}"#));
}

#[test]
fn token_keeps_plain_path_without_canonical_form() {
    let doc = config_doc(r#"{"file":"$(configs)$/missing.txt","n":3,"plain":"text"}"#);
    let known = config_known(&[], &[("/cfg/missing.txt", None)]);
    let resolved = resolve("/cfg", &doc, &known).unwrap();
    assert_eq!(resolved, config_doc(r#"{"file":"/cfg/missing.txt","n":3,"plain":"text"}"#));
}

#[test]
fn token_is_replaced_in_list_items() {
    let doc = config_doc(r#"{"files":["$(configs)$/a","b",["$(configs)$/c"],1]}"#);
    let known = config_known(&[], &[("/cfg/a", None), ("/cfg/c", Some("/real/c"))]);
    let resolved = resolve("/cfg", &doc, &known).unwrap();
    assert_eq!(resolved, config_doc(r#"{"files":["/cfg/a","b",["/real/c"],1]}"#));
}

#[test]
fn link_listed_twice_merges_once() {
    let known = config_known(&[("/cfg/a.json", Some(r#"{"k":1}"#))], &[]);
    let doc = config_doc(r#"{"$link":["a.json","a.json"]}"#);
    assert_eq!(resolve("/cfg", &doc, &known).unwrap(), config_doc(r#"{"k":1}"#));
}

#[test]
fn link_to_missing_file_contributes_nothing() {
    let known = config_known(&[("/cfg/nope.json", None)], &[]);
    let doc = config_doc(r#"{"a":1,"$link":"nope.json","b":2}"#);
    assert_eq!(resolve("/cfg", &doc, &known).unwrap(), config_doc(r#"{"a":1,"b":2}"#));
}

#[test]
fn link_asks_for_the_file_it_names() {
    let doc = config_doc(r#"{"$link":"sub/a.json"}"#);
    let asked = resolve("/cfg", &doc, &config_known(&[], &[]));
    assert_eq!(asked, Err(Need::File(String::from("/cfg/sub/a.json"))));
}

#[test]
fn link_skips_what_is_no_mapping_or_no_path() {
    let known = config_known(
        &[("/cfg/list.json", Some("[1,2]")), ("/cfg/bad.json", Some("{nope")), ("/cfg/ok.json", Some(r#"{"v":true}"#))],
        &[],
    );
    let doc = config_doc(r#"{"$link":["list.json",5,"bad.json",null,"ok.json"]}"#);
    assert_eq!(resolve("/cfg", &doc, &known).unwrap(), config_doc(r#"{"v":true}"#));
}

#[test]
fn later_link_overrides_earlier_and_keeps_place() {
    let known = config_known(
        &[("/cfg/a.json", Some(r#"{"k":1,"only_a":"a"}"#)), ("/cfg/b.json", Some(r#"{"k":2,"only_b":"b"}"#))],
        &[],
    );
    let doc = config_doc(r#"{"first":0,"$link":["a.json","b.json"],"only_a":"mine"}"#);
    let resolved = resolve("/cfg", &doc, &known).unwrap();
    assert_eq!(
        resolved,
        Value::Object(vec![
            (String::from("first"), Value::from_u32(0)),
            (String::from("k"), Value::from_u32(2)),
            (String::from("only_a"), Value::from_text("mine")),
            (String::from("only_b"), Value::from_text("b")),
        ])
    );
}

#[test]
fn linked_documents_are_resolved_themselves() {
    let known = config_known(
        &[
            ("/cfg/a.json", Some(r#"{"inner":{"$link":"b.json"},"path":"$(configs)$/p"}"#)),
            ("/cfg/b.json", Some(r#"{"leaf":[1,{"$link":"c.json"}]}"#)),
            ("/cfg/c.json", Some(r#"{"end":"yes"}"#)),
        ],
        &[("/cfg/p", None)],
    );
    let doc = config_doc(r#"{"$link":"a.json"}"#);
    assert_eq!(
        resolve("/cfg", &doc, &known).unwrap(),
        config_doc(r#"{"inner":{"leaf":[1,{"end":"yes"}]},"path":"/cfg/p"}"#)
    );
}

#[test]
fn link_bound_to_a_mapping_is_resolved_as_a_mapping() {
    let doc = config_doc(r#"{"$link":{"a":"$(configs)$"}}"#);
    let known = config_known(&[], &[("/cfg", Some("/real"))]);
    assert_eq!(resolve("/cfg", &doc, &known).unwrap(), config_doc(r#"{"$link":{"a":"/real"}}"#));
}

#[test]
fn link_cycle_ends() {
    let known = config_known(&[("/cfg/a.json", Some(r#"{"k":1,"$link":"a.json"}"#))], &[]);
    let doc = config_doc(r#"{"$link":"a.json"}"#);
    assert_eq!(resolve("/cfg", &doc, &known).unwrap(), config_doc(r#"{"k":1}"#));
}

#[test]
fn link_depth_is_bounded_by_the_budget() {
    let known = config_known(
        &[("/cfg/a.json", Some(r#"{"a":1,"$link":"b.json"}"#)), ("/cfg/b.json", Some(r#"{"b":2}"#))],
        &[],
    );
    let doc = config_doc(r#"{"$link":"a.json"}"#);
    assert_eq!(resolve_dict("/cfg", &doc, &known, 0).unwrap(), config_doc("{}"));
    assert_eq!(resolve_dict("/cfg", &doc, &known, 1).unwrap(), config_doc(r#"{"a":1}"#));
    assert_eq!(resolve_dict("/cfg", &doc, &known, 2).unwrap(), config_doc(r#"{"a":1,"b":2}"#));
}

#[test]
fn document_that_is_no_mapping_resolves_to_empty_mapping() {
    let known = config_known(&[], &[]);
    assert_eq!(resolve("/cfg", &config_doc("[1,2]"), &known).unwrap(), config_doc("{}"));
    assert_eq!(resolve("/cfg", &config_doc("null"), &known).unwrap(), config_doc("{}"));
}

#[test]
fn load_names_documents_by_stem_in_order() {
    let files = vec![
        String::from("/cfg/zeta.json"),
        String::from("/cfg/notes.txt"),
        String::from("/cfg/alpha.json"),
        String::from("/cfg/broken.json"),
        String::from("/cfg/list.json"),
        String::from("/cfg/gone.json"),
    ];
    let known = config_known(
        &[
            ("/cfg/zeta.json", Some(r#"{"z":1}"#)),
            ("/cfg/alpha.json", Some(r#"{"$link":"zeta.json","a":2}"#)),
            ("/cfg/broken.json", Some("{")),
            ("/cfg/list.json", Some("[]")),
            ("/cfg/gone.json", None),
        ],
        &[],
    );
    let loaded = load("/cfg", &files, &known).unwrap();
    assert_eq!(
        loaded,
        vec![
            (String::from("alpha"), config_doc(r#"{"z":1,"a":2}"#)),
            (String::from("zeta"), config_doc(r#"{"z":1}"#)),
        ]
    );
}

#[test]
fn load_asks_for_unread_files() {
    let files = vec![String::from("/cfg/a.json")];
    assert_eq!(load("/cfg", &files, &config_known(&[], &[])), Err(Need::File(String::from("/cfg/a.json"))));
    let files = vec![String::from("/cfg/a.txt")];
    assert_eq!(load("/cfg", &files, &config_known(&[], &[])), Ok(vec![]));
}

#[test]
fn file_must_hold_a_mapping() {
    assert_eq!(load_dict(&None), Err(ConfigError::Unreadable));
    assert_eq!(load_dict(&Some(String::from("{"))), Err(ConfigError::Syntax));
    assert_eq!(load_dict(&Some(String::from("[1]"))), Err(ConfigError::NotObject));
    assert_eq!(load_dict(&Some(String::from("\"x\""))), Err(ConfigError::NotObject));
    assert_eq!(load_dict(&Some(String::from(r#"{"a":1}"#))), Ok(config_doc(r#"{"a":1}"#)));
}

#[test]
fn first_lookup_of_a_path_counts() {
    let known = config_known(&[("/a", Some("one")), ("/b", None), ("/a", Some("two"))], &[]);
    assert_eq!(lookup(&known.files, "/a"), Some(&Some(String::from("one"))));
    assert_eq!(lookup(&known.files, "/b"), Some(&None));
    assert_eq!(lookup(&known.files, "/c"), None);
}

#[test]
fn values_resolve_by_their_key() {
    let known = config_known(&[("/cfg/a.json", Some(r#"{"k":1}"#))], &[("/cfg/x", Some("/real/x"))]);
    assert_eq!(
        resolve_value("/cfg", "$link", &Value::from_text("a.json"), &known, 1),
        Ok(vec![(String::from("k"), Value::from_u32(1))])
    );
    assert_eq!(
        resolve_value("/cfg", "link", &Value::from_text("$(configs)$/x"), &known, 1),
        Ok(vec![(String::from("link"), Value::from_text("/real/x"))])
    );
    assert_eq!(resolve_value("/cfg", "n", &Value::from_u32(3), &known, 1), Ok(vec![(String::from("n"), Value::from_u32(3))]));
    assert_eq!(resolve_links("/cfg", &config_doc(r#"["a.json",1]"#), &known, 1), Ok(vec![(String::from("k"), Value::from_u32(1))]));
    assert_eq!(resolve_links("/cfg", &Value::Null, &known, 1), Ok(vec![]));
    assert_eq!(resolve_link("/cfg", &Value::from_text("a.json"), &known, 0), Ok(vec![]));
    assert_eq!(resolve_link("/cfg", &Value::from_text("b.json"), &known, 1), Err(Need::File(String::from("/cfg/b.json"))));
    assert_eq!(resolve_list("/cfg", &config_doc(r#"[{"$link":"a.json"},"$(configs)$/x"]"#), &known, 1), Ok(config_doc(r#"[{"k":1},"/real/x"]"#)));
    assert_eq!(resolve_list("/cfg", &config_doc("{}"), &known, 1), Ok(config_doc("[]")));
    assert_eq!(resolve_scalar("/cfg", &Value::Boolean(true), &known), Ok(Value::Boolean(true)));
    assert_eq!(substitute("/cfg", "a$(configs)$b$(configs)$", &config_known(&[], &[("a/cfgb/cfg", None)])), Ok(String::from("a/cfgb/cfg")));
    assert_eq!(substitute("/cfg", "$(configs)", &known), Ok(String::from("$(configs)")));
}

#[test]
fn documents_are_filed_in_order_of_name() {
    let mut list: Vec<(String, Value)> = Vec::new();
    file_under(&mut list, String::from("m"), Value::from_u32(1));
    file_under(&mut list, String::from("b"), Value::from_u32(2));
    file_under(&mut list, String::from("z"), Value::from_u32(3));
    file_under(&mut list, String::from("ma"), Value::from_u32(4));
    file_under(&mut list, String::from("m"), Value::from_u32(5));
    file_under(&mut list, String::from("B"), Value::from_u32(6));
    assert_eq!(
        list,
        vec![
            (String::from("B"), Value::from_u32(6)),
            (String::from("b"), Value::from_u32(2)),
            (String::from("m"), Value::from_u32(5)),
            (String::from("ma"), Value::from_u32(4)),
            (String::from("z"), Value::from_u32(3)),
        ]
    );
}

#[test]
fn file_is_loaded_under_its_stem() {
    let known = config_known(&[("/cfg/a.b.json", Some(r#"{"k":1}"#)), ("/cfg/.json", Some("{}"))], &[]);
    assert_eq!(load_file("/cfg", "/cfg/a.b.json", &known), Ok(Some((String::from("a.b"), config_doc(r#"{"k":1}"#)))));
    assert_eq!(load_file("/cfg", "/cfg/.json", &known), Ok(None));
    assert_eq!(load_file("/cfg", "/cfg/a.JSON", &known), Ok(None));
}

#[test]
fn token_stands_for_the_absolute_directory() {
    let doc = config_doc(r#"{"file":"$(configs)$/x.txt"}"#);
    let known = config_known(&[], &[("/home/me/cfg/x.txt", None), ("/x.txt", None)]);
    assert_eq!(resolve("cfg", &doc, &known).unwrap(), config_doc(r#"{"file":"/home/me/cfg/x.txt"}"#));
    assert_eq!(resolve("", &doc, &known).unwrap(), config_doc(r#"{"file":"/x.txt"}"#));
    let asked = resolve("other", &doc, &known);
    assert_eq!(asked, Err(Need::Absolute(String::from("other"))));
    let plain = config_doc(r#"{"file":"x.txt"}"#);
    assert_eq!(resolve("other", &plain, &known).unwrap(), plain);
}
