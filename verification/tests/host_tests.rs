use dug::host::{
    batch_is_valid, resolve_batch, resolve_host, select_render_mode, HostOutcomes, RenderMode,
};
use dug::nameservers::group_nameservers;
use dug::resolvers::{ExhaustiveOutcome, LookupOutcome, SimulatedOutcome, ToolOutcome};
use dug::types::{DugResult, Resolution};

fn addr() -> Vec<String> {
    vec!["203.0.113.5".to_string()]
}

fn full_outcomes() -> HostOutcomes {
    let groups = group_nameservers(&vec!["10.7.0.1".to_string(), "10.7.0.2".to_string()]);
    HostOutcomes {
        public_dns: vec![
            LookupOutcome::Addresses(addr()),
            LookupOutcome::Addresses(addr()),
            LookupOutcome::Addresses(addr()),
        ],
        os_lookup: Ok(addr()),
        simulated: SimulatedOutcome::Looked(LookupOutcome::Addresses(addr())),
        exhaustive: ExhaustiveOutcome::Queried {
            groups,
            outcomes: vec![
                LookupOutcome::Addresses(addr()),
                LookupOutcome::Addresses(addr()),
            ],
        },
        dig: ToolOutcome { v4: Ok(addr()), v6: Ok(vec![]) },
        drill: ToolOutcome { v4: Ok(addr()), v6: Ok(vec![]) },
    }
}

fn records_of(r: &DugResult) -> Vec<String> {
    match r {
        DugResult::Records(recs) => recs.clone(),
        DugResult::Failure(f) => panic!("expected records, got failure {f}"),
    }
}

#[test]
fn resolve_host_is_never_empty_and_names_match() {
    let rs = resolve_host("example.test", full_outcomes());
    assert!(!rs.is_empty());
    for r in &rs {
        assert_eq!(r.name, "example.test");
    }
}

#[test]
fn resolve_host_labels_are_unique() {
    let rs = resolve_host("example.test", full_outcomes());
    for i in 0..rs.len() {
        for j in (i + 1)..rs.len() {
            assert_ne!(rs[i].source, rs[j].source, "duplicate label at {i} and {j}");
        }
    }
}

#[test]
fn resolve_host_keeps_the_documented_order() {
    let rs = resolve_host("example.test", full_outcomes());
    let labels: Vec<&str> = rs.iter().map(|r| r.source.as_str()).collect();
    assert_eq!(
        labels,
        vec![
            "Cloudflare DNS",
            "Google DNS",
            "Quad9 DNS",
            "OS resolution",
            "simulated nslookup",
            "resolv.conf server[10.7.0.1]",
            "resolv.conf server[10.7.0.2]",
            "dig",
            "drill",
        ]
    );
}

#[test]
fn end_to_end_example_every_source_agrees() {
    // Every DNS provider and the OS resolver return one address; both
    // external tools return the same for the IPv4 record type and an
    // empty answer for IPv6, merged per tool into one entry.
    let rs = resolve_host("example.test", full_outcomes());
    assert_eq!(rs.len(), 9);
    for r in rs.iter().take(7) {
        assert_eq!(records_of(&r.result), addr());
    }
    // the merged tool entries hold the IPv4 record followed by the empty
    // IPv6 answer
    assert_eq!(records_of(&rs[7].result), addr());
    assert_eq!(records_of(&rs[8].result), addr());
}

#[test]
fn unreadable_config_still_yields_one_entry_per_strategy() {
    let mut outcomes = full_outcomes();
    outcomes.exhaustive = ExhaustiveOutcome::Unreadable("cannot read".to_string());
    let rs = resolve_host("example.test", outcomes);
    assert_eq!(rs.len(), 8);
    assert_eq!(rs[5].source, "DNS resolution with all servers in resolv.conf");
}

#[test]
fn zero_nameserver_config_still_yields_one_entry_per_strategy() {
    let mut outcomes = full_outcomes();
    outcomes.exhaustive = ExhaustiveOutcome::Queried { groups: Vec::new(), outcomes: Vec::new() };
    let rs = resolve_host("example.test", outcomes);
    assert_eq!(rs.len(), 8);
    assert_eq!(rs[5].source, "DNS resolution with all servers in resolv.conf");
    match &rs[5].result {
        DugResult::Failure(f) => assert_eq!(f, "no nameservers configured"),
        DugResult::Records(_) => panic!("expected failure"),
    }
}

#[test]
fn resolve_batch_keeps_input_order_and_no_list_is_empty() {
    let names = vec!["one.test".to_string(), "two.test".to_string()];
    let sets = resolve_batch(&names, vec![full_outcomes(), full_outcomes()]);
    assert_eq!(sets.len(), 2);
    for (name, set) in names.iter().zip(sets.iter()) {
        assert!(!set.is_empty());
        for r in set {
            assert_eq!(&r.name, name);
        }
    }
    assert!(batch_is_valid(&sets));
}

#[test]
fn select_render_mode_rejects_both_flags() {
    assert!(select_render_mode(true, true).is_none());
    assert!(matches!(select_render_mode(true, false), Some(RenderMode::Ascii)));
    assert!(matches!(select_render_mode(false, true), Some(RenderMode::Json)));
    assert!(matches!(select_render_mode(false, false), Some(RenderMode::Pretty)));
}

#[test]
fn batch_is_valid_rejects_an_empty_result_list() {
    let full = vec![Resolution::new(
        "example.test",
        "OS resolution",
        DugResult::from_records(addr()),
    )];
    assert!(batch_is_valid(&vec![]));
    assert!(batch_is_valid(&vec![full]));
    assert!(!batch_is_valid(&vec![vec![]]));
}
