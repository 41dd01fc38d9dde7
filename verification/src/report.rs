//! Reporting: turning the finalized aggregate state and the monitored
//! identifier table into one row per identifier, ordered by descending
//! member count, with ties kept in the table's declaration order. The rows
//! are a function of the aggregate's observation sets alone, so two runs
//! that gathered the same observations report identically.

use vstd::prelude::*;
use crate::aggregate::AggregateState;
use crate::aggregate::member_count_of;
use crate::aggregate::prefix_count_of;
use crate::extract::Prefix;
use crate::table::MonitoredTable;

verus! {

/// One row of the final summary: a monitored route server with its distinct
/// member count and its distinct prefix counts per address family.
#[derive(Clone, PartialEq, Eq, Debug)]
pub struct ReportRow {
    pub label: String,
    pub asn: u32,
    pub member_count: usize,
    pub v4_count: usize,
    pub v6_count: usize,
}

/// The mathematical content of a report row.
#[verifier::ext_equal]
pub struct RowModel {
    pub label: Seq<char>,
    pub asn: u32,
    pub member_count: nat,
    pub v4_count: nat,
    pub v6_count: nat,
}

/// What a report row states.
pub open spec fn row_model(r: ReportRow) -> RowModel {
    RowModel {
        label: r.label@,
        asn: r.asn,
        member_count: r.member_count as nat,
        v4_count: r.v4_count as nat,
        v6_count: r.v6_count as nat,
    }
}

/// What a sequence of report rows states.
pub open spec fn rows_model(s: Seq<ReportRow>) -> Seq<RowModel> {
    s.map_values(|r: ReportRow| row_model(r))
}

/// The unsorted rows: one per table entry, in declaration order, carrying
/// the counts that the observation sets give that entry's identifier.
pub open spec fn spec_rows(
    entries: Seq<(u32, String)>,
    ms: Set<(u32, u32)>,
    ps: Set<(u32, Prefix)>,
) -> Seq<RowModel> {
    entries.map_values(
        |e: (u32, String)|
            RowModel {
                label: e.1@,
                asn: e.0,
                member_count: member_count_of(ms, e.0),
                v4_count: prefix_count_of(ps, e.0, true),
                v6_count: prefix_count_of(ps, e.0, false),
            },
    )
}

/// Stable insertion by descending member count: the new row goes after
/// every row whose count is greater than or equal to its own.
pub open spec fn spec_insert_row(s: Seq<RowModel>, x: RowModel) -> Seq<RowModel>
    decreases s.len(),
{
    if s.len() > 0 && s.first().member_count >= x.member_count {
        seq![s.first()] + spec_insert_row(s.drop_first(), x)
    } else {
        seq![x] + s
    }
}

/// Stable insertion sort by descending member count.
pub open spec fn spec_sort_rows(s: Seq<RowModel>) -> Seq<RowModel>
    decreases s.len(),
{
    if s.len() == 0 {
        Seq::empty()
    } else {
        spec_insert_row(spec_sort_rows(s.drop_last()), s.last())
    }
}

/// The full report: the table's rows, stably sorted by descending member
/// count. A function of the observation sets and the table alone.
pub open spec fn spec_report(
    entries: Seq<(u32, String)>,
    ms: Set<(u32, u32)>,
    ps: Set<(u32, Prefix)>,
) -> Seq<RowModel> {
    spec_sort_rows(spec_rows(entries, ms, ps))
}

/// Report output is deterministic: two aggregate states that gathered the
/// same observations yield, with the same table, the same rows.
pub proof fn lemma_report_deterministic(
    s1: AggregateState,
    s2: AggregateState,
    entries: Seq<(u32, String)>,
)
    requires
        s1.members_set() == s2.members_set(),
        s1.prefixes_set() == s2.prefixes_set(),
    ensures
        spec_report(entries, s1.members_set(), s1.prefixes_set()) == spec_report(
            entries,
            s2.members_set(),
            s2.prefixes_set(),
        ),
{
}

/// Rows ordered by non-increasing member count.
pub open spec fn sorted_desc(s: Seq<RowModel>) -> bool {
    forall|i: int, j: int|
        0 <= i < j < s.len() ==> (#[trigger] s[i]).member_count >= (#[trigger] s[j]).member_count
}

proof fn lemma_insert_row_elements(s: Seq<RowModel>, x: RowModel)
    ensures
        spec_insert_row(s, x).len() == s.len() + 1,
        forall|k: int|
            0 <= k < spec_insert_row(s, x).len() ==> (#[trigger] spec_insert_row(s, x)[k]) == x
                || s.contains(spec_insert_row(s, x)[k]),
    decreases s.len(),
{
    if s.len() > 0 && s.first().member_count >= x.member_count {
        let rest = s.drop_first();
        lemma_insert_row_elements(rest, x);
        let ins = spec_insert_row(s, x);
        assert forall|k: int| 0 <= k < ins.len() implies (#[trigger] ins[k]) == x || s.contains(
            ins[k],
        ) by {
            if k == 0 {
                assert(s[0] == ins[0]);
            } else {
                assert(ins[k] == spec_insert_row(rest, x)[k - 1]);
                if ins[k] != x {
                    let l = choose|l: int| 0 <= l < rest.len() && rest[l] == ins[k];
                    assert(s[l + 1] == ins[k]);
                }
            }
        }
    }
}

proof fn lemma_insert_row_sorted(s: Seq<RowModel>, x: RowModel)
    requires
        sorted_desc(s),
    ensures
        sorted_desc(spec_insert_row(s, x)),
    decreases s.len(),
{
    let ins = spec_insert_row(s, x);
    if s.len() > 0 && s.first().member_count >= x.member_count {
        let rest = s.drop_first();
        assert(sorted_desc(rest)) by {
            assert(forall|i: int, j: int|
                0 <= i < j < rest.len() ==> (#[trigger] rest[i]) == s[i + 1] && (
                #[trigger] rest[j]) == s[j + 1]);
        }
        lemma_insert_row_sorted(rest, x);
        lemma_insert_row_elements(rest, x);
        assert forall|i: int, j: int| 0 <= i < j < ins.len() implies (
        #[trigger] ins[i]).member_count >= (#[trigger] ins[j]).member_count by {
            if i > 0 {
                assert(ins[i] == spec_insert_row(rest, x)[i - 1]);
                assert(ins[j] == spec_insert_row(rest, x)[j - 1]);
            } else {
                assert(ins[j] == spec_insert_row(rest, x)[j - 1]);
                if ins[j] != x {
                    let l = choose|l: int| 0 <= l < rest.len() && rest[l] == ins[j];
                    assert(s[l + 1] == ins[j]);
                }
            }
        }
    } else {
        assert forall|i: int, j: int| 0 <= i < j < ins.len() implies (
        #[trigger] ins[i]).member_count >= (#[trigger] ins[j]).member_count by {
            if i == 0 && s.len() > 0 {
                assert(ins[j] == s[j - 1]);
                if j - 1 > 0 {
                    assert(s[0].member_count >= s[j - 1].member_count);
                }
            } else if i > 0 {
                assert(ins[i] == s[i - 1] && ins[j] == s[j - 1]);
            }
        }
    }
}

/// Report rows come out ordered by non-increasing member count.
pub proof fn lemma_report_sorted(
    entries: Seq<(u32, String)>,
    ms: Set<(u32, u32)>,
    ps: Set<(u32, Prefix)>,
)
    ensures
        sorted_desc(spec_report(entries, ms, ps)),
{
    lemma_sort_rows_sorted(spec_rows(entries, ms, ps));
}

proof fn lemma_sort_rows_sorted(s: Seq<RowModel>)
    ensures
        sorted_desc(spec_sort_rows(s)),
    decreases s.len(),
{
    if s.len() > 0 {
        lemma_sort_rows_sorted(s.drop_last());
        lemma_insert_row_sorted(spec_sort_rows(s.drop_last()), s.last());
    }
}

proof fn lemma_insert_row_at(s: Seq<RowModel>, x: RowModel, j: int)
    requires
        0 <= j <= s.len(),
        forall|k: int| 0 <= k < j ==> (#[trigger] s[k]).member_count >= x.member_count,
        j == s.len() || s[j].member_count < x.member_count,
    ensures
        spec_insert_row(s, x) == s.take(j) + seq![x] + s.skip(j),
    decreases j,
{
    if j == 0 {
        assert(spec_insert_row(s, x) =~= s.take(0) + seq![x] + s.skip(0));
    } else {
        let rest = s.drop_first();
        lemma_insert_row_at(rest, x, j - 1);
        assert(seq![s.first()] + (rest.take(j - 1) + seq![x] + rest.skip(j - 1)) =~= s.take(j)
            + seq![x] + s.skip(j));
    }
}

/// Places one computed row into the already sorted rows, after every row
/// with an equal or greater member count.
fn insert_sorted(rows: &mut Vec<ReportRow>, x: ReportRow)
    ensures
        rows_model(final(rows)@) == spec_insert_row(rows_model(old(rows)@), row_model(x)),
{
    let ghost s0 = rows@;
    let mut j: usize = 0;
    while j < rows.len() && rows[j].member_count >= x.member_count
        invariant
            0 <= j <= rows@.len(),
            rows@ == s0,
            forall|k: int| 0 <= k < j ==> (#[trigger] rows@[k]).member_count >= x.member_count,
        decreases rows@.len() - j,
    {
        j = j + 1;
    }
    rows.insert(j, x);
    proof {
        assert forall|k: int| 0 <= k < j implies (#[trigger] rows_model(s0)[k]).member_count
            >= row_model(x).member_count by {
            assert(rows_model(s0)[k] == row_model(s0[k]));
        }
        assert(j == s0.len() || rows_model(s0)[j as int].member_count < row_model(
            x,
        ).member_count);
        lemma_insert_row_at(rows_model(s0), row_model(x), j as int);
        assert(rows_model(rows@) =~= rows_model(s0).take(j as int) + seq![row_model(x)]
            + rows_model(s0).skip(j as int)) by {
            assert(rows@ == s0.insert(j as int, x));
            assert(rows@.len() == s0.len() + 1);
        }
    }
}

impl AggregateState {
    /// Renders the finalized statistics: one row per monitored identifier,
    /// zero counts included, sorted by descending member count with ties in
    /// table order.
    pub fn report_rows(&self, table: &MonitoredTable) -> (r: Vec<ReportRow>)
        requires
            self.wf(),
            self.is_finalized(),
        ensures
            rows_model(r@) == spec_report(
                table.entries@,
                self.members_set(),
                self.prefixes_set(),
            ),
    {
        let ghost ms = self.members_set();
        let ghost ps = self.prefixes_set();
        let mut rows: Vec<ReportRow> = Vec::new();
        let mut i: usize = 0;
        proof {
            assert(table.entries@.take(0) =~= Seq::<(u32, String)>::empty());
            assert(rows_model(rows@) =~= Seq::<RowModel>::empty());
            assert(spec_rows(table.entries@.take(0), ms, ps) =~= Seq::<RowModel>::empty());
        }
        while i < table.entries.len()
            invariant
                0 <= i <= table.entries@.len(),
                self.wf(),
                ms == self.members_set(),
                ps == self.prefixes_set(),
                rows_model(rows@) == spec_sort_rows(spec_rows(table.entries@.take(i as int), ms, ps)),
            decreases table.entries@.len() - i,
        {
            let asn = table.entries[i].0;
            let label = table.entries[i].1.clone();
            let member_count = self.member_count(asn);
            let v4_count = self.prefix_count(asn, true);
            let v6_count = self.prefix_count(asn, false);
            let row = ReportRow { label, asn, member_count, v4_count, v6_count };
            let ghost before = spec_rows(table.entries@.take(i as int), ms, ps);
            proof {
                let after = spec_rows(table.entries@.take(i as int + 1), ms, ps);
                assert(after =~= before.push(row_model(row)));
                assert(after.drop_last() =~= before);
            }
            insert_sorted(&mut rows, row);
            i = i + 1;
        }
        proof {
            assert(table.entries@.take(table.entries@.len() as int) =~= table.entries@);
        }
        rows
    }
}

} // verus!
