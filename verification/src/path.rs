//! Path normalization: turning a raw, segmented AS path into a dense
//! sequence of autonomous-system numbers with adjacent duplicates (path
//! prepending) collapsed, and with ambiguous aggregate segments rejected.

use vstd::prelude::*;

verus! {

/// One segment of a raw AS path: either an ordered run of ASNs or an
/// unordered aggregate (`AS_SET`), whose origin is ambiguous.
pub enum PathSegment {
    Sequence(Vec<u32>),
    Aggregate,
}

impl PathSegment {
    pub open spec fn is_aggregate(self) -> bool {
        matches!(self, PathSegment::Aggregate)
    }

    pub open spec fn asns(self) -> Seq<u32> {
        match self {
            PathSegment::Sequence(v) => v@,
            PathSegment::Aggregate => Seq::empty(),
        }
    }
}

/// No two adjacent elements of the sequence are equal.
pub open spec fn adjacent_distinct(p: Seq<u32>) -> bool {
    forall|i: int| 0 < i < p.len() ==> p[i - 1] != #[trigger] p[i]
}

/// Appends the ASNs of one run to an accumulated dense path, skipping each
/// ASN that equals the last element already accumulated.
pub open spec fn norm_asns(acc: Seq<u32>, asns: Seq<u32>) -> Seq<u32>
    decreases asns.len(),
{
    if asns.len() == 0 {
        acc
    } else if acc.len() > 0 && acc.last() == asns.first() {
        norm_asns(acc, asns.drop_first())
    } else {
        norm_asns(acc.push(asns.first()), asns.drop_first())
    }
}

/// Normalization of the remaining segments, given an accumulated dense path:
/// `None` as soon as any segment is an aggregate.
pub open spec fn norm_segments(acc: Seq<u32>, segs: Seq<PathSegment>) -> Option<Seq<u32>>
    decreases segs.len(),
{
    if segs.len() == 0 {
        Some(acc)
    } else if segs.first().is_aggregate() {
        None::<Seq<u32>>
    } else {
        norm_segments(norm_asns(acc, segs.first().asns()), segs.drop_first())
    }
}

/// The normalized form of a raw segmented AS path.
pub open spec fn spec_normalize(segs: Seq<PathSegment>) -> Option<Seq<u32>> {
    norm_segments(Seq::empty(), segs)
}

proof fn lemma_norm_asns_adjacent_distinct(acc: Seq<u32>, asns: Seq<u32>)
    requires
        adjacent_distinct(acc),
    ensures
        adjacent_distinct(norm_asns(acc, asns)),
    decreases asns.len(),
{
    if asns.len() == 0 {
    } else if acc.len() > 0 && acc.last() == asns.first() {
        lemma_norm_asns_adjacent_distinct(acc, asns.drop_first());
    } else {
        let acc2 = acc.push(asns.first());
        assert(adjacent_distinct(acc2)) by {
            assert(forall|i: int| 0 < i < acc2.len() - 1 ==> acc2[i - 1] != #[trigger] acc2[i]);
        }
        lemma_norm_asns_adjacent_distinct(acc2, asns.drop_first());
    }
}

proof fn lemma_norm_segments_adjacent_distinct(acc: Seq<u32>, segs: Seq<PathSegment>)
    requires
        adjacent_distinct(acc),
    ensures
        norm_segments(acc, segs) matches Some(p) ==> adjacent_distinct(p),
    decreases segs.len(),
{
    if segs.len() == 0 {
    } else if segs.first().is_aggregate() {
    } else {
        lemma_norm_asns_adjacent_distinct(acc, segs.first().asns());
        lemma_norm_segments_adjacent_distinct(norm_asns(acc, segs.first().asns()), segs.drop_first());
    }
}

/// Every normalized path has no two adjacent equal elements.
pub proof fn lemma_normalized_adjacent_distinct(segs: Seq<PathSegment>)
    ensures
        spec_normalize(segs) matches Some(p) ==> adjacent_distinct(p),
{
    lemma_norm_segments_adjacent_distinct(Seq::empty(), segs);
}

/// A raw path yields no normalized path exactly when one of its segments is
/// an aggregate.
pub proof fn lemma_none_iff_aggregate(segs: Seq<PathSegment>)
    ensures
        spec_normalize(segs) is None <==> exists|i: int|
            0 <= i < segs.len() && segs[i].is_aggregate(),
{
    lemma_norm_segments_none_iff_aggregate(Seq::empty(), segs);
}

proof fn lemma_norm_segments_none_iff_aggregate(acc: Seq<u32>, segs: Seq<PathSegment>)
    ensures
        norm_segments(acc, segs) is None <==> exists|i: int|
            0 <= i < segs.len() && segs[i].is_aggregate(),
    decreases segs.len(),
{
    if segs.len() == 0 {
    } else if segs.first().is_aggregate() {
        assert(segs[0].is_aggregate());
    } else {
        let acc2 = norm_asns(acc, segs.first().asns());
        lemma_norm_segments_none_iff_aggregate(acc2, segs.drop_first());
        if norm_segments(acc, segs) is None {
            let j = choose|j: int|
                0 <= j < segs.drop_first().len() && segs.drop_first()[j].is_aggregate();
            assert(segs[j + 1].is_aggregate());
        } else {
            assert forall|i: int| 0 <= i < segs.len() implies !segs[i].is_aggregate() by {
                if i > 0 {
                    assert(segs.drop_first()[i - 1] == segs[i]);
                }
            }
        }
    }
}

proof fn lemma_norm_asns_fixpoint(acc: Seq<u32>, p: Seq<u32>)
    requires
        adjacent_distinct(acc + p),
    ensures
        norm_asns(acc, p) == acc + p,
    decreases p.len(),
{
    if p.len() == 0 {
        assert(acc + p =~= acc);
    } else {
        let whole = acc + p;
        if acc.len() > 0 {
            assert(whole[acc.len() - 1] == acc.last());
            assert(whole[acc.len() as int] == p.first());
            assert(acc.last() != p.first());
        }
        let acc2 = acc.push(p.first());
        assert(acc2 + p.drop_first() =~= acc + p);
        lemma_norm_asns_fixpoint(acc2, p.drop_first());
    }
}

/// Normalization is idempotent: a path that already has no adjacent equal
/// elements normalizes, as a single sequence run, to itself.
pub proof fn lemma_normalize_idempotent(p: Seq<u32>)
    requires
        adjacent_distinct(p),
    ensures
        norm_asns(Seq::empty(), p) == p,
{
    assert(Seq::<u32>::empty() + p =~= p);
    lemma_norm_asns_fixpoint(Seq::empty(), p);
}

/// Re-normalizing is the identity: feeding a normalized path back in, as a
/// single sequence segment, normalizes to that same path.
pub proof fn lemma_renormalize(segs: Seq<PathSegment>, p: Seq<u32>, again: PathSegment)
    requires
        spec_normalize(segs) == Some(p),
        again matches PathSegment::Sequence(v) && v@ == p,
    ensures
        spec_normalize(seq![again]) == Some(p),
{
    lemma_normalized_adjacent_distinct(segs);
    lemma_normalize_idempotent(p);
    assert(!again.is_aggregate() && again.asns() == p);
    assert(seq![again].first() == again);
    assert(seq![again].drop_first() =~= Seq::<PathSegment>::empty());
    assert(spec_normalize(seq![again]) == norm_segments(
        norm_asns(Seq::empty(), p),
        Seq::<PathSegment>::empty(),
    ));
}

/// Converts a raw segmented AS path into its dense, de-prepended form;
/// `None` when any segment is an aggregate (ambiguous origin).
pub fn normalize_path(segments: &Vec<PathSegment>) -> (r: Option<Vec<u32>>)
    ensures
        match r {
            Some(p) => {
                &&& spec_normalize(segments@) == Some(p@)
                &&& adjacent_distinct(p@)
            },
            None => spec_normalize(segments@) is None,
        },
{
    let mut dense: Vec<u32> = Vec::new();
    let mut i: usize = 0;
    proof {
        assert(segments@.skip(0) =~= segments@);
    }
    while i < segments.len()
        invariant
            0 <= i <= segments.len(),
            spec_normalize(segments@) == norm_segments(dense@, segments@.skip(i as int)),
        decreases segments.len() - i,
    {
        proof {
            assert(segments@.skip(i as int).first() == segments@[i as int]);
            assert(segments@.skip(i as int).drop_first() =~= segments@.skip(i as int + 1));
        }
        match &segments[i] {
            PathSegment::Aggregate => {
                return None;
            },
            PathSegment::Sequence(asns) => {
                let mut j: usize = 0;
                let ghost dense0 = dense@;
                proof {
                    assert(asns@.skip(0) =~= asns@);
                }
                while j < asns.len()
                    invariant
                        0 <= j <= asns.len(),
                        norm_asns(dense0, asns@) == norm_asns(dense@, asns@.skip(j as int)),
                    decreases asns.len() - j,
                {
                    proof {
                        assert(asns@.skip(j as int).first() == asns@[j as int]);
                        assert(asns@.skip(j as int).drop_first() =~= asns@.skip(j as int + 1));
                    }
                    let a = asns[j];
                    if dense.len() > 0 && dense[dense.len() - 1] == a {
                        // path prepending: skip the repeated ASN
                    } else {
                        dense.push(a);
                    }
                    j = j + 1;
                }
                proof {
                    assert(asns@.skip(asns@.len() as int) =~= Seq::<u32>::empty());
                }
            },
        }
        i = i + 1;
    }
    proof {
        assert(segments@.skip(segments@.len() as int) =~= Seq::<PathSegment>::empty());
        lemma_normalized_adjacent_distinct(segments@);
    }
    Some(dense)
}

} // verus!
