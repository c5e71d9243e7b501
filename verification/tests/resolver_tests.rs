use dug::resolvers::{
    collect_fanout, command_output, dig, dns, drill, lookup_resolution, local, os,
    public_dns_labels, resolv_conf, tool_resolution, LookupOutcome, SimulatedOutcome,
    SpawnOutcome, ToolOutcome,
};
use dug::types::DugResult;

fn records_of(r: &DugResult) -> Vec<String> {
    match r {
        DugResult::Records(recs) => recs.clone(),
        DugResult::Failure(f) => panic!("expected records, got failure {f}"),
    }
}

fn failure_of(r: &DugResult) -> String {
    match r {
        DugResult::Records(_) => panic!("expected failure, got records"),
        DugResult::Failure(f) => f.clone(),
    }
}

#[test]
fn os_success_maps_to_records() {
    let r = os("example.test", Ok(vec!["203.0.113.5".to_string()]));
    assert_eq!(r.name, "example.test");
    assert_eq!(r.source, "OS resolution");
    assert_eq!(records_of(&r.result), vec!["203.0.113.5".to_string()]);
}

#[test]
fn os_failure_maps_to_failure() {
    let r = os("example.test", Err("lookup refused".to_string()));
    assert_eq!(r.source, "OS resolution");
    assert_eq!(failure_of(&r.result), "lookup refused");
}

#[test]
fn lookup_timeout_becomes_failure_naming_deadline() {
    let r = lookup_resolution("example.test", "Google DNS", LookupOutcome::TimedOut);
    assert_eq!(r.source, "Google DNS");
    let cause = failure_of(&r.result);
    assert_eq!(cause, "Timed out after 7000ms");
    assert!(cause.contains("Timed out"));
}

#[test]
fn simulated_config_error_becomes_failure() {
    let r = resolv_conf(
        "example.test",
        SimulatedOutcome::ConfigError("no resolv.conf".to_string()),
    );
    assert_eq!(r.source, "simulated nslookup");
    assert_eq!(failure_of(&r.result), "no resolv.conf");
}

#[test]
fn local_orders_os_before_simulated() {
    let rs = local(
        "example.test",
        Ok(vec!["203.0.113.5".to_string()]),
        SimulatedOutcome::Looked(LookupOutcome::Addresses(vec!["203.0.113.5".to_string()])),
    );
    assert_eq!(rs.len(), 2);
    assert_eq!(rs[0].source, "OS resolution");
    assert_eq!(rs[1].source, "simulated nslookup");
}

#[test]
fn collect_fanout_one_resolution_per_label() {
    let labels = vec!["one".to_string(), "two".to_string(), "three".to_string()];
    let outcomes = vec![
        LookupOutcome::Addresses(vec!["1.1.1.1".to_string()]),
        LookupOutcome::LookupError("NXDOMAIN".to_string()),
        LookupOutcome::TimedOut,
    ];
    let rs = collect_fanout("example.test", &labels, outcomes);
    assert_eq!(rs.len(), 3);
    assert_eq!(rs[0].source, "one");
    assert_eq!(records_of(&rs[0].result), vec!["1.1.1.1".to_string()]);
    assert_eq!(rs[1].source, "two");
    assert_eq!(failure_of(&rs[1].result), "NXDOMAIN");
    assert_eq!(rs[2].source, "three");
    assert_eq!(failure_of(&rs[2].result), "Timed out after 7000ms");
    for r in &rs {
        assert_eq!(r.name, "example.test");
    }
}

#[test]
fn public_dns_labels_are_fixed() {
    let labels = public_dns_labels();
    assert_eq!(labels, vec!["Cloudflare DNS", "Google DNS", "Quad9 DNS"]);
}

#[test]
fn dns_labels_three_providers() {
    let rs = dns(
        "example.test",
        vec![
            LookupOutcome::Addresses(vec!["1.0.0.1".to_string()]),
            LookupOutcome::Addresses(vec![]),
            LookupOutcome::LookupError("SERVFAIL".to_string()),
        ],
    );
    assert_eq!(rs.len(), 3);
    assert_eq!(rs[0].source, "Cloudflare DNS");
    assert_eq!(rs[1].source, "Google DNS");
    assert_eq!(rs[2].source, "Quad9 DNS");
    assert_eq!(records_of(&rs[1].result), Vec::<String>::new());
    assert_eq!(failure_of(&rs[2].result), "SERVFAIL");
}

#[test]
fn command_output_spawn_error_passes_message_through() {
    let r = command_output(SpawnOutcome::SpawnFailed(
        "No such file or directory (os error 2)".to_string(),
    ));
    assert_eq!(r, Err("No such file or directory (os error 2)".to_string()));
}

#[test]
fn command_output_signal_termination() {
    let r = command_output(SpawnOutcome::Finished { exit_code: None, stdout: None });
    assert_eq!(r, Err("process terminated by signal".to_string()));
}

#[test]
fn command_output_nonzero_exit_code() {
    let r = command_output(SpawnOutcome::Finished {
        exit_code: Some(9),
        stdout: Some(String::new()),
    });
    assert_eq!(r, Err("process failed with exit code 9".to_string()));
    let r = command_output(SpawnOutcome::Finished { exit_code: Some(-11), stdout: None });
    assert_eq!(r, Err("process failed with exit code -11".to_string()));
}

#[test]
fn command_output_timeout_names_deadline() {
    let r = command_output(SpawnOutcome::TimedOut);
    assert_eq!(r, Err("Timed out after 7000ms".to_string()));
}

#[test]
fn command_output_invalid_text() {
    let r = command_output(SpawnOutcome::Finished { exit_code: Some(0), stdout: None });
    assert_eq!(r, Err("output not valid text".to_string()));
}

#[test]
fn command_output_splits_nonempty_lines() {
    let r = command_output(SpawnOutcome::Finished {
        exit_code: Some(0),
        stdout: Some("203.0.113.5\n\n203.0.113.6\r\n".to_string()),
    });
    assert_eq!(r, Ok(vec!["203.0.113.5".to_string(), "203.0.113.6".to_string()]));
}

#[test]
fn tool_merges_both_record_types() {
    let r = tool_resolution(
        "example.test",
        "dig",
        ToolOutcome {
            v4: Ok(vec!["203.0.113.5".to_string()]),
            v6: Ok(vec!["2001:db8::1".to_string()]),
        },
    );
    assert_eq!(r.source, "dig");
    assert_eq!(
        records_of(&r.result),
        vec!["203.0.113.5".to_string(), "2001:db8::1".to_string()]
    );
}

#[test]
fn tool_keeps_the_successful_record_type() {
    let r = tool_resolution(
        "example.test",
        "drill",
        ToolOutcome { v4: Ok(vec!["203.0.113.5".to_string()]), v6: Err("boom".to_string()) },
    );
    assert_eq!(records_of(&r.result), vec!["203.0.113.5".to_string()]);
    let r = tool_resolution(
        "example.test",
        "drill",
        ToolOutcome { v4: Err("boom".to_string()), v6: Ok(vec!["2001:db8::1".to_string()]) },
    );
    assert_eq!(records_of(&r.result), vec!["2001:db8::1".to_string()]);
}

#[test]
fn tool_fails_only_when_both_fail() {
    let r = tool_resolution(
        "example.test",
        "dig",
        ToolOutcome { v4: Err("first".to_string()), v6: Err("second".to_string()) },
    );
    assert_eq!(failure_of(&r.result), "first");
}

#[test]
fn tool_keeps_the_other_answer_when_one_invocation_times_out() {
    // One invocation exceeds its deadline while the other answers: the
    // tool still owes the successful invocation's records.
    let timed_out = command_output(SpawnOutcome::TimedOut);
    let r = tool_resolution(
        "example.test",
        "dig",
        ToolOutcome { v4: timed_out, v6: Ok(vec!["2001:db8::1".to_string()]) },
    );
    assert_eq!(records_of(&r.result), vec!["2001:db8::1".to_string()]);
    let timed_out = command_output(SpawnOutcome::TimedOut);
    let r = tool_resolution(
        "example.test",
        "dig",
        ToolOutcome { v4: Ok(vec!["203.0.113.5".to_string()]), v6: timed_out },
    );
    assert_eq!(records_of(&r.result), vec!["203.0.113.5".to_string()]);
}

#[test]
fn tool_fails_when_both_invocations_time_out() {
    let r = tool_resolution(
        "example.test",
        "dig",
        ToolOutcome {
            v4: command_output(SpawnOutcome::TimedOut),
            v6: command_output(SpawnOutcome::TimedOut),
        },
    );
    assert_eq!(failure_of(&r.result), "Timed out after 7000ms");
}

#[test]
fn missing_tool_resolution_is_spawn_failure_not_crash() {
    // The spawn of a missing utility fails for both record types; the
    // tool's resolution carries the spawn error as data.
    let spawn_err = "No such file or directory (os error 2)".to_string();
    let a = command_output(SpawnOutcome::SpawnFailed(spawn_err.clone()));
    let aaaa = command_output(SpawnOutcome::SpawnFailed(spawn_err.clone()));
    let r = dig("example.test", ToolOutcome { v4: a, v6: aaaa });
    assert_eq!(r.source, "dig");
    assert_eq!(failure_of(&r.result), spawn_err);
    let b = command_output(SpawnOutcome::SpawnFailed(spawn_err.clone()));
    let bb = command_output(SpawnOutcome::SpawnFailed(spawn_err.clone()));
    let r = drill("example.test", ToolOutcome { v4: b, v6: bb });
    assert_eq!(r.source, "drill");
    assert_eq!(failure_of(&r.result), spawn_err);
}
