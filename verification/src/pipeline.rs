//! The worker and run logic: what one routing record contributes, what one
//! data source contributes, and how a whole run folds every source's
//! records into the final aggregate state. Per-record faults are skips,
//! per-source faults end only that source; the run always reaches a report,
//! annotated with how many sources failed.

use vstd::prelude::*;
use crate::aggregate::AggregateState;
use crate::aggregate::lemma_apply_concat;
use crate::aggregate::spec_apply;
use crate::extract::Prefix;
use crate::extract::Triple;
use crate::extract::extract_occurrences;
use crate::extract::spec_extract;
use crate::path::PathSegment;
use crate::path::normalize_path;
use crate::path::spec_normalize;
use crate::table::MonitoredTable;

verus! {

/// Why one record contributes nothing: both conditions are expected and
/// frequent, recovered locally, and never abort a worker.
#[derive(Clone, Copy, PartialEq, Eq, Structural, Debug)]
pub enum RecordSkip {
    /// The record lacks path data.
    MissingPath,
    /// The record's path holds an aggregate segment: ambiguous origin.
    AmbiguousPath,
}

/// One routing record as the external record-stream parser hands it over:
/// an optional raw AS path and exactly one prefix.
pub struct RouteRecord {
    pub segments: Option<Vec<PathSegment>>,
    pub prefix: Prefix,
}

/// The observation triples one record contributes: none when its path is
/// missing or ambiguous, otherwise the monitored occurrences on its
/// normalized path.
pub open spec fn spec_record_triples(rec: RouteRecord, table: MonitoredTable) -> Seq<Triple> {
    match rec.segments {
        Option::None => Seq::empty(),
        Option::Some(segs) => match spec_normalize(segs@) {
            Option::None => Seq::empty(),
            Option::Some(p) => spec_extract(p, rec.prefix, table),
        },
    }
}

/// Processes one record: normalizes its path and extracts the observation
/// triples, or says exactly why the record is skipped.
pub fn record_triples(rec: &RouteRecord, table: &MonitoredTable) -> (r: Result<
    Vec<Triple>,
    RecordSkip,
>)
    ensures
        (r == Err::<Vec<Triple>, RecordSkip>(RecordSkip::MissingPath)) <==> rec.segments is None,
        (r == Err::<Vec<Triple>, RecordSkip>(RecordSkip::AmbiguousPath)) <==> (rec.segments
            matches Some(segs) && spec_normalize(segs@) is None),
        r matches Ok(ts) ==> ts@ == spec_record_triples(*rec, *table),
{
    match &rec.segments {
        None => Err(RecordSkip::MissingPath),
        Some(segs) => match normalize_path(segs) {
            None => Err(RecordSkip::AmbiguousPath),
            Some(path) => Ok(extract_occurrences(&path, rec.prefix, table)),
        },
    }
}

/// One data source at the worker boundary: either its stream of records or
/// the fact that opening or reading it failed.
pub enum SourceData {
    Available(Vec<RouteRecord>),
    Unavailable,
}

/// The triples a sequence of records contributes, in order.
pub open spec fn records_triples(recs: Seq<RouteRecord>, table: MonitoredTable) -> Seq<Triple>
    decreases recs.len(),
{
    if recs.len() == 0 {
        Seq::empty()
    } else {
        records_triples(recs.drop_last(), table) + spec_record_triples(recs.last(), table)
    }
}

/// The triples one source contributes: a failed source contributes none.
pub open spec fn source_triples(s: SourceData, table: MonitoredTable) -> Seq<Triple> {
    match s {
        SourceData::Available(recs) => records_triples(recs@, table),
        SourceData::Unavailable => Seq::empty(),
    }
}

/// The triples a whole run gathers, source by source.
pub open spec fn sources_triples(ss: Seq<SourceData>, table: MonitoredTable) -> Seq<Triple>
    decreases ss.len(),
{
    if ss.len() == 0 {
        Seq::empty()
    } else {
        sources_triples(ss.drop_last(), table) + source_triples(ss.last(), table)
    }
}

/// How many sources failed.
pub open spec fn failed_count(ss: Seq<SourceData>) -> nat
    decreases ss.len(),
{
    if ss.len() == 0 {
        0nat
    } else {
        failed_count(ss.drop_last()) + if ss.last() is Unavailable {
            1nat
        } else {
            0nat
        }
    }
}

impl AggregateState {
    /// Merges everything one source's records contribute, record by record;
    /// records with missing or ambiguous paths are skipped silently.
    pub fn process_records(&mut self, recs: &Vec<RouteRecord>, table: &MonitoredTable)
        requires
            old(self).wf(),
            !old(self).is_finalized(),
        ensures
            final(self).wf(),
            !final(self).is_finalized(),
            (final(self).members_set(), final(self).prefixes_set()) == spec_apply(
                old(self).members_set(),
                old(self).prefixes_set(),
                records_triples(recs@, *table),
            ),
    {
        let ghost ms0 = self.members_set();
        let ghost ps0 = self.prefixes_set();
        let mut i: usize = 0;
        proof {
            assert(recs@.take(0) =~= Seq::<RouteRecord>::empty());
        }
        while i < recs.len()
            invariant
                0 <= i <= recs@.len(),
                self.wf(),
                !self.is_finalized(),
                (self.members_set(), self.prefixes_set()) == spec_apply(
                    ms0,
                    ps0,
                    records_triples(recs@.take(i as int), *table),
                ),
            decreases recs@.len() - i,
        {
            let ghost done = records_triples(recs@.take(i as int), *table);
            proof {
                assert(recs@.take(i as int + 1).drop_last() =~= recs@.take(i as int));
                assert(recs@.take(i as int + 1).last() == recs@[i as int]);
            }
            match record_triples(&recs[i], table) {
                Ok(ts) => {
                    proof {
                        lemma_apply_concat(ms0, ps0, done, ts@);
                    }
                    self.insert_all(&ts);
                },
                Err(e) => {
                    proof {
                        assert(e == RecordSkip::MissingPath || e == RecordSkip::AmbiguousPath);
                        if e == RecordSkip::MissingPath {
                            assert(recs@[i as int].segments is None);
                        } else {
                            assert(recs@[i as int].segments matches Some(segs) && spec_normalize(
                                segs@,
                            ) is None);
                        }
                        assert(spec_record_triples(recs@[i as int], *table) =~= Seq::<
                            Triple,
                        >::empty());
                        assert(done + spec_record_triples(recs@[i as int], *table) =~= done);
                    }
                },
            }
            i = i + 1;
        }
        proof {
            assert(recs@.take(recs@.len() as int) =~= recs@);
        }
    }
}

/// Runs the whole analysis over a list of data sources: every source's
/// records are folded into one aggregate state, a failed source is counted
/// rather than aborting the run, and the state comes back finalized,
/// together with the number of failed sources.
pub fn run_analysis(sources: &Vec<SourceData>, table: &MonitoredTable) -> (r: (
    AggregateState,
    usize,
))
    ensures
        r.0.wf(),
        r.0.is_finalized(),
        (r.0.members_set(), r.0.prefixes_set()) == spec_apply(
            Set::empty(),
            Set::empty(),
            sources_triples(sources@, *table),
        ),
        r.1 == failed_count(sources@),
{
    let mut state = AggregateState::new();
    let mut failed: usize = 0;
    let mut i: usize = 0;
    proof {
        assert(sources@.take(0) =~= Seq::<SourceData>::empty());
    }
    while i < sources.len()
        invariant
            0 <= i <= sources@.len(),
            state.wf(),
            !state.is_finalized(),
            failed <= i,
            (state.members_set(), state.prefixes_set()) == spec_apply(
                Set::empty(),
                Set::empty(),
                sources_triples(sources@.take(i as int), *table),
            ),
            failed == failed_count(sources@.take(i as int)),
        decreases sources@.len() - i,
    {
        let ghost done = sources_triples(sources@.take(i as int), *table);
        proof {
            assert(sources@.take(i as int + 1).drop_last() =~= sources@.take(i as int));
            assert(sources@.take(i as int + 1).last() == sources@[i as int]);
        }
        match &sources[i] {
            SourceData::Available(recs) => {
                proof {
                    lemma_apply_concat(Set::empty(), Set::empty(), done, records_triples(
                        recs@,
                        *table,
                    ));
                }
                state.process_records(recs, table);
            },
            SourceData::Unavailable => {
                proof {
                    assert(done + source_triples(sources@[i as int], *table) =~= done);
                }
                failed = failed + 1;
            },
        }
        i = i + 1;
    }
    proof {
        assert(sources@.take(sources@.len() as int) =~= sources@);
    }
    state.finalize();
    (state, failed)
}

} // verus!
