use rs_scan::AggregateState;
use rs_scan::MonitoredTable;
use rs_scan::PathSegment;
use rs_scan::Prefix;
use rs_scan::RecordSkip;
use rs_scan::RouteRecord;
use rs_scan::SourceData;
use rs_scan::Triple;
use rs_scan::extract_occurrences;
use rs_scan::normalize_path;
use rs_scan::record_triples;
use rs_scan::run_analysis;

fn table_of(entries: Vec<(u32, &str)>) -> MonitoredTable {
    let owned: Vec<(u32, String)> = entries.iter().map(|(a, l)| (*a, l.to_string())).collect();
    MonitoredTable::new(owned).expect("unique identifiers")
}

fn v4(addr: u32, len: u8) -> Prefix {
    Prefix::V4 { addr, len }
}

#[test]
fn normalize_collapses_prepending() {
    let segs = vec![PathSegment::Sequence(vec![10, 10, 20, 20, 20, 30])];
    assert_eq!(normalize_path(&segs), Some(vec![10, 20, 30]));
}

#[test]
fn normalize_checks_across_segment_boundaries() {
    let segs = vec![
        PathSegment::Sequence(vec![10, 20]),
        PathSegment::Sequence(vec![20, 30]),
    ];
    assert_eq!(normalize_path(&segs), Some(vec![10, 20, 30]));
}

#[test]
fn normalize_rejects_aggregate_segment() {
    let segs = vec![
        PathSegment::Sequence(vec![10, 20]),
        PathSegment::Aggregate,
        PathSegment::Sequence(vec![30]),
    ];
    assert_eq!(normalize_path(&segs), None);
}

#[test]
fn normalize_empty_path_is_empty() {
    let segs: Vec<PathSegment> = Vec::new();
    assert_eq!(normalize_path(&segs), Some(Vec::new()));
}

#[test]
fn normalize_is_idempotent() {
    let segs = vec![PathSegment::Sequence(vec![7, 7, 8, 9, 9, 8])];
    let once = normalize_path(&segs).unwrap();
    let again = normalize_path(&vec![PathSegment::Sequence(once.clone())]).unwrap();
    assert_eq!(once, again);
    assert_eq!(once, vec![7, 8, 9, 8]);
}

#[test]
fn extract_single_match() {
    let table = table_of(vec![(300, "ix")]);
    let path = vec![100, 200, 300, 400];
    let p = v4(0x0A00_0000, 24);
    let triples = extract_occurrences(&path, p, &table);
    assert_eq!(triples, vec![Triple { member: 200, rs: 300, prefix: p }]);
}

#[test]
fn extract_initial_position_is_never_a_target() {
    let table = table_of(vec![(300, "ix")]);
    let path = vec![300, 400];
    let p = v4(0x0A00_0000, 24);
    assert!(extract_occurrences(&path, p, &table).is_empty());
}

#[test]
fn extract_reports_every_non_initial_occurrence() {
    let table = table_of(vec![(300, "ix")]);
    let path = vec![100, 300, 200, 300];
    let p = v4(0x0A00_0000, 24);
    let triples = extract_occurrences(&path, p, &table);
    assert_eq!(
        triples,
        vec![
            Triple { member: 100, rs: 300, prefix: p },
            Triple { member: 200, rs: 300, prefix: p },
        ]
    );
}

#[test]
fn extract_short_path_yields_nothing() {
    let table = table_of(vec![(300, "ix")]);
    let p = v4(0x0A00_0000, 24);
    assert!(extract_occurrences(&vec![300], p, &table).is_empty());
    assert!(extract_occurrences(&Vec::new(), p, &table).is_empty());
}

#[test]
fn record_without_path_is_skipped_as_missing() {
    let table = table_of(vec![(300, "ix")]);
    let rec = RouteRecord { segments: None, prefix: v4(0, 8) };
    assert_eq!(record_triples(&rec, &table), Err(RecordSkip::MissingPath));
}

#[test]
fn record_with_aggregate_is_skipped_as_ambiguous() {
    let table = table_of(vec![(300, "ix")]);
    let rec = RouteRecord {
        segments: Some(vec![PathSegment::Sequence(vec![100, 300]), PathSegment::Aggregate]),
        prefix: v4(0, 8),
    };
    assert_eq!(record_triples(&rec, &table), Err(RecordSkip::AmbiguousPath));
}

#[test]
fn duplicate_triples_deduplicate() {
    let t = Triple { member: 20, rs: 99, prefix: v4(0x0A00_0000, 24) };
    let mut state = AggregateState::new();
    state.insert_triple(t);
    state.insert_triple(t);
    assert_eq!(state.member_count(99), 1);
    assert_eq!(state.prefix_count(99, true), 1);
    assert_eq!(state.prefix_count(99, false), 0);
}

#[test]
fn arrival_order_does_not_matter() {
    let table = table_of(vec![(99, "a"), (77, "b")]);
    let triples = vec![
        Triple { member: 20, rs: 99, prefix: v4(0x0A00_0000, 24) },
        Triple { member: 21, rs: 99, prefix: v4(0x0B00_0000, 16) },
        Triple { member: 30, rs: 77, prefix: Prefix::V6 { addr: 0x2001, len: 32 } },
        Triple { member: 20, rs: 99, prefix: v4(0x0B00_0000, 16) },
    ];
    let mut forward = AggregateState::new();
    for t in triples.iter() {
        forward.insert_triple(*t);
    }
    forward.finalize();
    let mut backward = AggregateState::new();
    for t in triples.iter().rev() {
        backward.insert_triple(*t);
    }
    backward.finalize();
    assert_eq!(forward.report_rows(&table), backward.report_rows(&table));
}

#[test]
fn end_to_end_single_record() {
    let table = table_of(vec![(99, "monitored_rs")]);
    let rec = RouteRecord {
        segments: Some(vec![PathSegment::Sequence(vec![10, 20, 99])]),
        prefix: v4(0x0A00_0000, 24),
    };
    let sources = vec![SourceData::Available(vec![rec])];
    let (state, failed) = run_analysis(&sources, &table);
    assert_eq!(failed, 0);
    let rows = state.report_rows(&table);
    assert_eq!(rows.len(), 1);
    assert_eq!(rows[0].label, "monitored_rs");
    assert_eq!(rows[0].asn, 99);
    assert_eq!(rows[0].member_count, 1);
    assert_eq!(rows[0].v4_count, 1);
    assert_eq!(rows[0].v6_count, 0);
}

#[test]
fn failed_source_does_not_prevent_the_report() {
    let table = table_of(vec![(99, "monitored_rs")]);
    let good = RouteRecord {
        segments: Some(vec![PathSegment::Sequence(vec![10, 20, 99])]),
        prefix: v4(0x0A00_0000, 24),
    };
    let sources = vec![SourceData::Unavailable, SourceData::Available(vec![good])];
    let (state, failed) = run_analysis(&sources, &table);
    assert_eq!(failed, 1);
    let rows = state.report_rows(&table);
    assert_eq!(rows.len(), 1);
    assert_eq!(rows[0].member_count, 1);
    assert_eq!(rows[0].v4_count, 1);
}
