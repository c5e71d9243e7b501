use dug::nameservers::{exhaustive_label, group_nameservers};
use dug::resolvers::{exhaustive_resolv_conf, ExhaustiveOutcome, LookupOutcome};
use dug::types::DugResult;

#[test]
fn three_distinct_addresses_make_three_groups() {
    let addresses = vec![
        "10.7.0.1".to_string(),
        "10.7.0.2".to_string(),
        "192.0.2.53".to_string(),
    ];
    let groups = group_nameservers(&addresses);
    assert_eq!(groups.len(), 3);
    for (i, g) in groups.iter().enumerate() {
        assert_eq!(g.address, addresses[i]);
        assert_eq!(g.members, vec![i]);
    }
}

#[test]
fn shared_addresses_coalesce_into_one_group() {
    let addresses = vec![
        "10.7.0.1".to_string(),
        "192.0.2.53".to_string(),
        "10.7.0.1".to_string(),
    ];
    let groups = group_nameservers(&addresses);
    assert_eq!(groups.len(), 2);
    assert_eq!(groups[0].address, "10.7.0.1");
    assert_eq!(groups[0].members, vec![0, 2]);
    assert_eq!(groups[1].address, "192.0.2.53");
    assert_eq!(groups[1].members, vec![1]);
}

#[test]
fn no_addresses_make_no_groups() {
    let groups = group_nameservers(&Vec::new());
    assert_eq!(groups.len(), 0);
}

#[test]
fn exhaustive_label_names_the_address() {
    assert_eq!(exhaustive_label("10.7.0.1"), "resolv.conf server[10.7.0.1]");
}

#[test]
fn unreadable_config_degrades_to_one_failure() {
    let rs = exhaustive_resolv_conf(
        "example.test",
        ExhaustiveOutcome::Unreadable("permission denied".to_string()),
    );
    assert_eq!(rs.len(), 1);
    assert_eq!(rs[0].name, "example.test");
    assert_eq!(rs[0].source, "DNS resolution with all servers in resolv.conf");
    match &rs[0].result {
        DugResult::Failure(f) => assert_eq!(f, "permission denied"),
        DugResult::Records(_) => panic!("expected failure"),
    }
}

#[test]
fn zero_nameservers_degrade_to_one_failure() {
    // A readable configuration listing no nameservers: the strategy
    // still owes one entry rather than silently disappearing.
    let rs = exhaustive_resolv_conf(
        "example.test",
        ExhaustiveOutcome::Queried { groups: Vec::new(), outcomes: Vec::new() },
    );
    assert_eq!(rs.len(), 1);
    assert_eq!(rs[0].name, "example.test");
    assert_eq!(rs[0].source, "DNS resolution with all servers in resolv.conf");
    match &rs[0].result {
        DugResult::Failure(f) => assert_eq!(f, "no nameservers configured"),
        DugResult::Records(_) => panic!("expected failure"),
    }
}

#[test]
fn queried_groups_are_labeled_per_address() {
    let addresses = vec![
        "10.7.0.1".to_string(),
        "10.7.0.2".to_string(),
        "192.0.2.53".to_string(),
    ];
    let groups = group_nameservers(&addresses);
    let outcomes = vec![
        LookupOutcome::Addresses(vec!["203.0.113.5".to_string()]),
        LookupOutcome::TimedOut,
        LookupOutcome::LookupError("SERVFAIL".to_string()),
    ];
    let rs = exhaustive_resolv_conf(
        "example.test",
        ExhaustiveOutcome::Queried { groups, outcomes },
    );
    assert_eq!(rs.len(), 3);
    assert_eq!(rs[0].source, "resolv.conf server[10.7.0.1]");
    assert_eq!(rs[1].source, "resolv.conf server[10.7.0.2]");
    assert_eq!(rs[2].source, "resolv.conf server[192.0.2.53]");
    for r in &rs {
        assert_eq!(r.name, "example.test");
    }
}
