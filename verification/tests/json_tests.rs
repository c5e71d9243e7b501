use dug::json::{resolutions_from_json, resolutions_to_json};
use dug::types::{DugResult, Resolution};

fn assert_same(a: &Resolution, b: &Resolution) {
    assert_eq!(a.name, b.name);
    assert_eq!(a.source, b.source);
    match (&a.result, &b.result) {
        (DugResult::Records(x), DugResult::Records(y)) => assert_eq!(x, y),
        (DugResult::Failure(x), DugResult::Failure(y)) => assert_eq!(x, y),
        _ => panic!("one outcome is records, the other failure"),
    }
}

#[test]
fn json_round_trip_through_the_library() {
    let rs = vec![
        Resolution::new(
            "example.test",
            "Cloudflare DNS",
            DugResult::from_records(vec!["203.0.113.5".to_string(), "2001:db8::1".to_string()]),
        ),
        Resolution::new("example.test", "dig", DugResult::from_records(vec![])),
        Resolution::new(
            "ex\"otic\\name\ntest",
            "qu\"oted\tsource",
            DugResult::from_err("fail\rure \"cause\"".to_string()),
        ),
    ];
    let text = resolutions_to_json(&rs);
    let parsed = resolutions_from_json(&text).expect("serialized text parses back");
    assert_eq!(parsed.len(), rs.len());
    for (a, b) in parsed.iter().zip(rs.iter()) {
        assert_same(a, b);
    }
}

#[test]
fn json_round_trip_of_the_empty_list() {
    let parsed = resolutions_from_json(&resolutions_to_json(&vec![])).expect("parses");
    assert!(parsed.is_empty());
}

#[test]
fn json_parser_rejects_other_shapes() {
    assert!(resolutions_from_json("").is_none());
    assert!(resolutions_from_json("nonsense").is_none());
    assert!(resolutions_from_json("[{]").is_none());
    assert!(resolutions_from_json("[{\"name\":\"a\"}]").is_none());
    assert!(resolutions_from_json("[{\"name\":\"a\",\"source\":\"b\",\"records\":[]}").is_none());
}

#[test]
fn json_empty_list() {
    assert_eq!(resolutions_to_json(&vec![]), "[]");
}

#[test]
fn json_success_entry_exact() {
    let rs = vec![Resolution::new(
        "example.test",
        "Google DNS",
        DugResult::from_records(vec!["203.0.113.5".to_string(), "2001:db8::1".to_string()]),
    )];
    assert_eq!(
        resolutions_to_json(&rs),
        "[{\"name\":\"example.test\",\"source\":\"Google DNS\",\"records\":[\"203.0.113.5\",\"2001:db8::1\"]}]"
    );
}

#[test]
fn json_empty_records_stay_distinct_from_failure() {
    let rs = vec![
        Resolution::new("a.test", "dig", DugResult::from_records(vec![])),
        Resolution::new("a.test", "drill", DugResult::from_err("spawn failed".to_string())),
    ];
    assert_eq!(
        resolutions_to_json(&rs),
        "[{\"name\":\"a.test\",\"source\":\"dig\",\"records\":[]},{\"name\":\"a.test\",\"source\":\"drill\",\"failure\":\"spawn failed\"}]"
    );
}

#[test]
fn json_escapes_quotes_backslashes_and_controls() {
    let rs = vec![Resolution::new(
        "a\"b",
        "back\\slash",
        DugResult::from_err("line\none\ttab".to_string()),
    )];
    assert_eq!(
        resolutions_to_json(&rs),
        "[{\"name\":\"a\\\"b\",\"source\":\"back\\\\slash\",\"failure\":\"line\\u000aone\\u0009tab\"}]"
    );
}

#[test]
fn json_parses_back_with_a_stock_parser() {
    let rs = vec![
        Resolution::new(
            "example.test",
            "Cloudflare DNS",
            DugResult::from_records(vec!["203.0.113.5".to_string()]),
        ),
        Resolution::new(
            "example.test",
            "resolv.conf server[10.7.0.1]",
            DugResult::from_err("Timed out after 7000ms".to_string()),
        ),
    ];
    let text = resolutions_to_json(&rs);
    let value: serde_json::Value = serde_json::from_str(&text).expect("well-formed JSON");
    let entries = value.as_array().expect("an array");
    assert_eq!(entries.len(), 2);
    assert_eq!(entries[0]["name"], "example.test");
    assert_eq!(entries[0]["source"], "Cloudflare DNS");
    assert_eq!(entries[0]["records"][0], "203.0.113.5");
    assert_eq!(entries[1]["failure"], "Timed out after 7000ms");
}

#[test]
fn json_entries_carry_exactly_one_outcome_key() {
    let rs = vec![
        Resolution::new("a.test", "dig", DugResult::from_records(vec![])),
        Resolution::new("a.test", "drill", DugResult::from_err("x".to_string())),
    ];
    let text = resolutions_to_json(&rs);
    let value: serde_json::Value = serde_json::from_str(&text).expect("well-formed JSON");
    for entry in value.as_array().expect("an array") {
        let obj = entry.as_object().expect("an object");
        let has_records = obj.contains_key("records");
        let has_failure = obj.contains_key("failure");
        assert!(has_records != has_failure);
    }
}
