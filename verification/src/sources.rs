//! Ordering of data sources: the dispatcher starts the largest sources
//! first, so a bounded worker pool is not left waiting on one long tail.
//! The order is an optimization, not a correctness requirement, but it is
//! pinned here: a stable sort by descending approximate size.

use vstd::prelude::*;

verus! {

/// One data source as the external archive index describes it: a retrieval
/// locator and an approximate size hint.
#[derive(Clone, PartialEq, Eq, Debug)]
pub struct SourceDescriptor {
    pub url: String,
    pub rough_size: i64,
}

/// Stable insertion by descending size: the new descriptor goes after every
/// descriptor whose size is greater than or equal to its own.
pub open spec fn spec_insert_desc(s: Seq<SourceDescriptor>, x: SourceDescriptor) -> Seq<
    SourceDescriptor,
>
    decreases s.len(),
{
    if s.len() > 0 && s.first().rough_size >= x.rough_size {
        seq![s.first()] + spec_insert_desc(s.drop_first(), x)
    } else {
        seq![x] + s
    }
}

/// Stable insertion sort by descending size.
pub open spec fn spec_sort_descs(s: Seq<SourceDescriptor>) -> Seq<SourceDescriptor>
    decreases s.len(),
{
    if s.len() == 0 {
        Seq::empty()
    } else {
        spec_insert_desc(spec_sort_descs(s.drop_last()), s.last())
    }
}

proof fn lemma_insert_desc_at(s: Seq<SourceDescriptor>, x: SourceDescriptor, j: int)
    requires
        0 <= j <= s.len(),
        forall|k: int| 0 <= k < j ==> (#[trigger] s[k]).rough_size >= x.rough_size,
        j == s.len() || s[j].rough_size < x.rough_size,
    ensures
        spec_insert_desc(s, x) == s.take(j) + seq![x] + s.skip(j),
    decreases j,
{
    if j == 0 {
        assert(spec_insert_desc(s, x) =~= s.take(0) + seq![x] + s.skip(0));
    } else {
        let rest = s.drop_first();
        lemma_insert_desc_at(rest, x, j - 1);
        assert(seq![s.first()] + (rest.take(j - 1) + seq![x] + rest.skip(j - 1)) =~= s.take(j)
            + seq![x] + s.skip(j));
    }
}

fn insert_sorted_desc(out: &mut Vec<SourceDescriptor>, x: SourceDescriptor)
    ensures
        final(out)@ == spec_insert_desc(old(out)@, x),
{
    let ghost s0 = out@;
    let ghost x0 = x;
    let mut j: usize = 0;
    while j < out.len() && out[j].rough_size >= x.rough_size
        invariant
            0 <= j <= out@.len(),
            out@ == s0,
            x == x0,
            forall|k: int| 0 <= k < j ==> (#[trigger] out@[k]).rough_size >= x.rough_size,
        decreases out@.len() - j,
    {
        j = j + 1;
    }
    proof {
        lemma_insert_desc_at(s0, x0, j as int);
    }
    out.insert(j, x);
    proof {
        assert(out@ =~= s0.take(j as int) + seq![x0] + s0.skip(j as int));
    }
}

/// Orders the data sources by descending approximate size, largest first,
/// keeping the index's order among equally sized sources.
pub fn sort_sources_by_size_desc(sources: Vec<SourceDescriptor>) -> (r: Vec<SourceDescriptor>)
    ensures
        r@ == spec_sort_descs(sources@),
{
    let ghost all = sources@;
    let mut remaining = sources;
    let mut out: Vec<SourceDescriptor> = Vec::new();
    let mut i: usize = 0;
    let n = remaining.len();
    proof {
        assert(all.take(0) =~= Seq::<SourceDescriptor>::empty());
        assert(out@ =~= spec_sort_descs(all.take(0)));
        assert(remaining@ == all.skip(0));
    }
    while i < n
        invariant
            0 <= i <= n,
            n == all.len(),
            remaining@ == all.skip(i as int),
            out@ == spec_sort_descs(all.take(i as int)),
        decreases n - i,
    {
        let d = remaining.remove(0);
        proof {
            assert(all.skip(i as int)[0] == all[i as int]);
            assert(all.skip(i as int).remove(0) =~= all.skip(i as int + 1));
            assert(all.take(i as int + 1).drop_last() =~= all.take(i as int));
            assert(all.take(i as int + 1).last() == all[i as int]);
        }
        insert_sorted_desc(&mut out, d);
        i = i + 1;
    }
    proof {
        assert(all.take(all.len() as int) =~= all);
    }
    out
}

} // verus!
