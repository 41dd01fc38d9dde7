use rs_scan::AggregateState;
use rs_scan::ConfigError;
use rs_scan::MonitoredTable;
use rs_scan::Prefix;
use rs_scan::SourceDescriptor;
use rs_scan::Triple;
use rs_scan::setup_target_asns;
use rs_scan::sort_sources_by_size_desc;

fn table_of(entries: Vec<(u32, &str)>) -> MonitoredTable {
    let owned: Vec<(u32, String)> = entries.iter().map(|(a, l)| (*a, l.to_string())).collect();
    MonitoredTable::new(owned).expect("unique identifiers")
}

fn v4(addr: u32, len: u8) -> Prefix {
    Prefix::V4 { addr, len }
}

#[test]
fn rows_sorted_by_descending_member_count_with_stable_ties() {
    let table = table_of(vec![(1, "one"), (2, "two"), (3, "three"), (4, "four")]);
    let mut state = AggregateState::new();
    // two members for 3; one member each for 2 and 4; none for 1
    state.insert_triple(Triple { member: 10, rs: 3, prefix: v4(1, 32) });
    state.insert_triple(Triple { member: 11, rs: 3, prefix: v4(1, 32) });
    state.insert_triple(Triple { member: 10, rs: 2, prefix: v4(2, 32) });
    state.insert_triple(Triple { member: 10, rs: 4, prefix: v4(3, 32) });
    state.finalize();
    let rows = state.report_rows(&table);
    let order: Vec<u32> = rows.iter().map(|r| r.asn).collect();
    // ties (2 and 4, one member each) keep table order; zero-count 1 still appears
    assert_eq!(order, vec![3, 2, 4, 1]);
    assert_eq!(rows[0].member_count, 2);
    assert_eq!(rows[3].member_count, 0);
}

#[test]
fn identical_states_report_identically() {
    let table = table_of(vec![(5, "five"), (6, "six")]);
    let triples = vec![
        Triple { member: 1, rs: 5, prefix: v4(9, 24) },
        Triple { member: 2, rs: 6, prefix: Prefix::V6 { addr: 7, len: 48 } },
    ];
    let mut a = AggregateState::new();
    let mut b = AggregateState::new();
    for t in triples.iter() {
        a.insert_triple(*t);
        b.insert_triple(*t);
    }
    a.finalize();
    b.finalize();
    assert_eq!(a.report_rows(&table), b.report_rows(&table));
}

#[test]
fn prefix_families_counted_separately() {
    let table = table_of(vec![(9, "nine")]);
    let mut state = AggregateState::new();
    state.insert_triple(Triple { member: 1, rs: 9, prefix: v4(1, 24) });
    state.insert_triple(Triple { member: 1, rs: 9, prefix: v4(2, 24) });
    state.insert_triple(Triple { member: 1, rs: 9, prefix: Prefix::V6 { addr: 3, len: 32 } });
    state.finalize();
    let rows = state.report_rows(&table);
    assert_eq!(rows[0].member_count, 1);
    assert_eq!(rows[0].v4_count, 2);
    assert_eq!(rows[0].v6_count, 1);
}

#[test]
fn default_table_has_the_monitored_route_servers() {
    let t = setup_target_asns();
    assert_eq!(t.len(), 21);
    assert!(t.contains(6695));
    assert!(t.contains(6777));
    assert!(t.contains(26162));
    assert!(!t.contains(65000));
    assert_eq!(t.entries[0], (6695, "DE-CIX Frankfurt".to_string()));
    assert_eq!(t.entries[20], (26162, "IX.br".to_string()));
}

#[test]
fn duplicate_identifier_is_rejected_at_construction() {
    let entries = vec![
        (33108, "SIX".to_string()),
        (13538, "NYIIX".to_string()),
        (33108, "SIX".to_string()),
    ];
    assert!(matches!(MonitoredTable::new(entries), Err(ConfigError::DuplicateIdentifier)));
}

#[test]
fn sources_ordered_largest_first_and_stable() {
    let sources = vec![
        SourceDescriptor { url: "a".to_string(), rough_size: 5 },
        SourceDescriptor { url: "b".to_string(), rough_size: 9 },
        SourceDescriptor { url: "c".to_string(), rough_size: 7 },
        SourceDescriptor { url: "d".to_string(), rough_size: 9 },
    ];
    let sorted = sort_sources_by_size_desc(sources);
    let order: Vec<&str> = sorted.iter().map(|s| s.url.as_str()).collect();
    assert_eq!(order, vec!["b", "d", "c", "a"]);
}
