use videoproc::utils::{check_output, framerate, StrVec};

#[test]
fn framerate_reads_fraction() {
    assert_eq!(framerate("24000/1001"), (24000, 1001));
}

#[test]
fn framerate_reads_single_number() {
    assert_eq!(framerate("25"), (25, 1));
}

#[test]
fn framerate_counts_garbage_as_zero() {
    assert_eq!(framerate("abc/7"), (0, 7));
    assert_eq!(framerate("30/"), (30, 0));
    assert_eq!(framerate(""), (0, 1));
    assert_eq!(framerate("1/2/3"), (1, 2));
    assert_eq!(framerate("+5/-1"), (5, 0));
}

#[test]
fn check_output_accepts_only_zero() {
    assert_eq!(check_output(Some(0)), Ok(()));
    assert_eq!(check_output(Some(3)), Err(String::from("Command exited with code 3")));
    assert_eq!(check_output(Some(-2)), Err(String::from("Command exited with code -2")));
    assert_eq!(check_output(None), Err(String::from("Command exited with code -1")));
}

#[test]
fn push_str_appends_a_copy() {
    let mut list: Vec<String> = Vec::new();
    list.push_str("-i");
    list.push_str("file");
    assert_eq!(list, vec![String::from("-i"), String::from("file")]);
}
