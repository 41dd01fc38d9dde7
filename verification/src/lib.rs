//! Analysis of route-server membership in BGP routing-table snapshots.
//!
//! The library normalizes raw AS paths into dense, de-prepended sequences,
//! scans them for monitored route-server identifiers, aggregates the
//! resulting observation triples into deduplicated per-route-server
//! statistics, and renders those statistics as deterministically ordered
//! report rows. Data acquisition and concurrency plumbing live outside the
//! library and hand it plain values.

use vstd::prelude::*;

pub mod aggregate;
pub mod extract;
pub mod path;
pub mod pipeline;
pub mod report;
pub mod sources;
pub mod table;

pub use aggregate::AggregateState;
pub use extract::Prefix;
pub use extract::Triple;
pub use extract::extract_occurrences;
pub use path::PathSegment;
pub use path::normalize_path;
pub use pipeline::RecordSkip;
pub use pipeline::RouteRecord;
pub use pipeline::SourceData;
pub use pipeline::record_triples;
pub use pipeline::run_analysis;
pub use report::ReportRow;
pub use sources::SourceDescriptor;
pub use sources::sort_sources_by_size_desc;
pub use table::ConfigError;
pub use table::MonitoredTable;
pub use table::setup_target_asns;

verus! {

} // verus!
