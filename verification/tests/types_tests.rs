use dug::types::{DugResult, Resolution};

fn records_of(r: &DugResult) -> Vec<String> {
    match r {
        DugResult::Records(recs) => recs.clone(),
        DugResult::Failure(f) => panic!("expected records, got failure {f}"),
    }
}

fn failure_of(r: &DugResult) -> String {
    match r {
        DugResult::Records(_) => panic!("expected failure, got records"),
        DugResult::Failure(f) => f.clone(),
    }
}

#[test]
fn from_records_keeps_records() {
    let r = DugResult::from_records(vec!["1.2.3.4".to_string(), "::1".to_string()]);
    assert_eq!(records_of(&r), vec!["1.2.3.4".to_string(), "::1".to_string()]);
}

#[test]
fn from_records_accepts_empty_answer() {
    let r = DugResult::from_records(Vec::new());
    assert_eq!(records_of(&r), Vec::<String>::new());
}

#[test]
fn from_err_keeps_message() {
    let r = DugResult::from_err("no route to host".to_string());
    assert_eq!(failure_of(&r), "no route to host");
}

#[test]
fn resolution_new_sets_fields() {
    let r = Resolution::new("example.test", "OS resolution", DugResult::from_records(vec![]));
    assert_eq!(r.name, "example.test");
    assert_eq!(r.source, "OS resolution");
    assert!(matches!(r.result, DugResult::Records(_)));
}

#[test]
fn resolution_with_err_sets_failure() {
    let r = Resolution::with_err("example.test", "dig", "spawn failed".to_string());
    assert_eq!(r.name, "example.test");
    assert_eq!(r.source, "dig");
    assert_eq!(failure_of(&r.result), "spawn failed");
}

#[test]
fn resolution_with_records_sets_records() {
    let r = Resolution::with_records("example.test", "Google DNS", vec!["8.8.8.8".to_string()]);
    assert_eq!(r.name, "example.test");
    assert_eq!(r.source, "Google DNS");
    assert_eq!(records_of(&r.result), vec!["8.8.8.8".to_string()]);
}

#[test]
fn rendered_joins_records() {
    let r = DugResult::from_records(vec!["a".to_string(), "b".to_string(), "c".to_string()]);
    assert_eq!(r.rendered(" "), "a b c");
    assert_eq!(r.rendered("\n"), "a\nb\nc");
}

#[test]
fn rendered_empty_records_is_empty_text() {
    let r = DugResult::from_records(Vec::new());
    assert_eq!(r.rendered(" "), "");
}

#[test]
fn rendered_failure_is_its_cause() {
    let r = DugResult::from_err("timed out".to_string());
    assert_eq!(r.rendered(" "), "timed out");
}

#[test]
fn join_strings_cases() {
    assert_eq!(dug::text::join_strings(&vec![], ", "), "");
    assert_eq!(dug::text::join_strings(&vec!["x".to_string()], ", "), "x");
    assert_eq!(
        dug::text::join_strings(&vec!["x".to_string(), "y".to_string()], ", "),
        "x, y"
    );
}

#[test]
fn split_lines_cases() {
    assert_eq!(dug::text::split_lines(""), Vec::<String>::new());
    assert_eq!(dug::text::split_lines("one"), vec!["one".to_string()]);
    assert_eq!(
        dug::text::split_lines("one\ntwo\n"),
        vec!["one".to_string(), "two".to_string()]
    );
    assert_eq!(
        dug::text::split_lines("one\r\n\r\ntwo\r\n"),
        vec!["one".to_string(), "two".to_string()]
    );
    assert_eq!(dug::text::split_lines("\n\n\n"), Vec::<String>::new());
}

#[test]
fn u64_to_string_renders_decimal() {
    assert_eq!(dug::decimal::u64_to_string(0), "0");
    assert_eq!(dug::decimal::u64_to_string(7), "7");
    assert_eq!(dug::decimal::u64_to_string(7000), "7000");
    assert_eq!(dug::decimal::u64_to_string(18446744073709551615), "18446744073709551615");
}

#[test]
fn i32_to_string_renders_sign() {
    assert_eq!(dug::decimal::i32_to_string(0), "0");
    assert_eq!(dug::decimal::i32_to_string(137), "137");
    assert_eq!(dug::decimal::i32_to_string(-9), "-9");
    assert_eq!(dug::decimal::i32_to_string(i32::MIN), "-2147483648");
}
