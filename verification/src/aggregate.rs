//! Aggregation: deduplicating observation triples into per-route-server
//! sets of members and sets of prefixes. The state is modelled as two sets
//! of pairs keyed by route-server identifier, so merging is commutative and
//! idempotent: arrival order never affects the final state.

use vstd::prelude::*;
use crate::extract::Prefix;
use crate::extract::Triple;

verus! {

/// The member observation a triple contributes: the pair of route-server
/// identifier and the member seen immediately before it.
pub open spec fn member_pair(t: Triple) -> (u32, u32) {
    (t.rs, t.member)
}

/// The prefix observation a triple contributes.
pub open spec fn prefix_pair(t: Triple) -> (u32, Prefix) {
    (t.rs, t.prefix)
}

/// Merging one triple into the aggregate's two observation sets.
pub open spec fn spec_insert(
    ms: Set<(u32, u32)>,
    ps: Set<(u32, Prefix)>,
    t: Triple,
) -> (Set<(u32, u32)>, Set<(u32, Prefix)>) {
    (ms.insert(member_pair(t)), ps.insert(prefix_pair(t)))
}

/// Merging a whole sequence of triples, in order.
pub open spec fn spec_apply(
    ms: Set<(u32, u32)>,
    ps: Set<(u32, Prefix)>,
    ts: Seq<Triple>,
) -> (Set<(u32, u32)>, Set<(u32, Prefix)>)
    decreases ts.len(),
{
    if ts.len() == 0 {
        (ms, ps)
    } else {
        let next = spec_insert(ms, ps, ts.first());
        spec_apply(next.0, next.1, ts.drop_first())
    }
}

/// The member observations contributed by a sequence of triples.
pub open spec fn member_pairs(ts: Seq<Triple>) -> Set<(u32, u32)> {
    ts.to_set().map(|t: Triple| member_pair(t))
}

/// The prefix observations contributed by a sequence of triples.
pub open spec fn prefix_pairs(ts: Seq<Triple>) -> Set<(u32, Prefix)> {
    ts.to_set().map(|t: Triple| prefix_pair(t))
}

/// Merging a sequence of triples is exactly a set union: the observation
/// sets absorb the triples' pairs and nothing else.
pub proof fn lemma_apply_is_union(ms: Set<(u32, u32)>, ps: Set<(u32, Prefix)>, ts: Seq<Triple>)
    ensures
        spec_apply(ms, ps, ts).0 == ms.union(member_pairs(ts)),
        spec_apply(ms, ps, ts).1 == ps.union(prefix_pairs(ts)),
    decreases ts.len(),
{
    if ts.len() == 0 {
        assert(member_pairs(ts) =~= Set::<(u32, u32)>::empty());
        assert(prefix_pairs(ts) =~= Set::<(u32, Prefix)>::empty());
        assert(ms.union(member_pairs(ts)) =~= ms);
        assert(ps.union(prefix_pairs(ts)) =~= ps);
    } else {
        let t = ts.first();
        let rest = ts.drop_first();
        lemma_apply_is_union(ms.insert(member_pair(t)), ps.insert(prefix_pair(t)), rest);
        assert(ms.insert(member_pair(t)).union(member_pairs(rest)) =~= ms.union(
            member_pairs(ts),
        )) by {
            assert forall|p: (u32, u32)| member_pairs(ts).contains(p) implies member_pair(t) == p
                || member_pairs(rest).contains(p) by {
                let w = choose|w: Triple| ts.to_set().contains(w) && p == member_pair(w);
                if w != t {
                    let i = choose|i: int| 0 <= i < ts.len() && ts[i] == w;
                    assert(rest[i - 1] == w);
                    assert(rest.to_set().contains(w));
                }
            }
            assert forall|p: (u32, u32)| member_pairs(rest).contains(p) implies member_pairs(
                ts,
            ).contains(p) by {
                let w = choose|w: Triple| rest.to_set().contains(w) && p == member_pair(w);
                let i = choose|i: int| 0 <= i < rest.len() && rest[i] == w;
                assert(ts[i + 1] == w);
                assert(ts.to_set().contains(w));
            }
            assert(ts.to_set().contains(t));
        }
        assert(ps.insert(prefix_pair(t)).union(prefix_pairs(rest)) =~= ps.union(
            prefix_pairs(ts),
        )) by {
            assert forall|p: (u32, Prefix)| prefix_pairs(ts).contains(p) implies prefix_pair(t)
                == p || prefix_pairs(rest).contains(p) by {
                let w = choose|w: Triple| ts.to_set().contains(w) && p == prefix_pair(w);
                if w != t {
                    let i = choose|i: int| 0 <= i < ts.len() && ts[i] == w;
                    assert(rest[i - 1] == w);
                    assert(rest.to_set().contains(w));
                }
            }
            assert forall|p: (u32, Prefix)| prefix_pairs(rest).contains(p) implies prefix_pairs(
                ts,
            ).contains(p) by {
                let w = choose|w: Triple| rest.to_set().contains(w) && p == prefix_pair(w);
                let i = choose|i: int| 0 <= i < rest.len() && rest[i] == w;
                assert(ts[i + 1] == w);
                assert(ts.to_set().contains(w));
            }
            assert(ts.to_set().contains(t));
        }
    }
}

/// Merging a concatenation merges the first part, then the second.
pub proof fn lemma_apply_concat(
    ms: Set<(u32, u32)>,
    ps: Set<(u32, Prefix)>,
    a: Seq<Triple>,
    b: Seq<Triple>,
)
    ensures
        spec_apply(ms, ps, a + b) == ({
            let mid = spec_apply(ms, ps, a);
            spec_apply(mid.0, mid.1, b)
        }),
    decreases a.len(),
{
    if a.len() == 0 {
        assert(a + b =~= b);
    } else {
        assert((a + b).first() == a.first());
        assert((a + b).drop_first() =~= a.drop_first() + b);
        let next = spec_insert(ms, ps, a.first());
        lemma_apply_concat(next.0, next.1, a.drop_first(), b);
    }
}

/// Merging is commutative: two sequences carrying the same multiset of
/// triples produce the same final aggregate state, whatever the order.
pub proof fn lemma_merge_commutative(
    ms: Set<(u32, u32)>,
    ps: Set<(u32, Prefix)>,
    ts1: Seq<Triple>,
    ts2: Seq<Triple>,
)
    requires
        ts1.to_multiset() == ts2.to_multiset(),
    ensures
        spec_apply(ms, ps, ts1) == spec_apply(ms, ps, ts2),
{
    assert(ts1.to_set() =~= ts2.to_set()) by {
        assert forall|t: Triple| ts1.contains(t) <==> ts2.contains(t) by {
            vstd::seq_lib::to_multiset_contains(ts1, t);
            vstd::seq_lib::to_multiset_contains(ts2, t);
            assert(ts1.to_multiset().count(t) == ts2.to_multiset().count(t));
        }
    }
    lemma_apply_is_union(ms, ps, ts1);
    lemma_apply_is_union(ms, ps, ts2);
}

/// Merging is idempotent: inserting the same triple a second time leaves
/// the aggregate state exactly as one insertion did.
pub proof fn lemma_merge_idempotent(ms: Set<(u32, u32)>, ps: Set<(u32, Prefix)>, t: Triple)
    ensures
        ({
            let once = spec_insert(ms, ps, t);
            spec_insert(once.0, once.1, t) == once
        }),
{
    let once = spec_insert(ms, ps, t);
    assert(once.0.insert(member_pair(t)) =~= once.0);
    assert(once.1.insert(prefix_pair(t)) =~= once.1);
}

/// The member observations that belong to one route server.
pub open spec fn rs_member_filter(rs: u32) -> spec_fn((u32, u32)) -> bool {
    |p: (u32, u32)| p.0 == rs
}

/// The prefix observations that belong to one route server and one address
/// family: IPv4 when `v4` is true, IPv6 otherwise.
pub open spec fn rs_prefix_filter(rs: u32, v4: bool) -> spec_fn((u32, Prefix)) -> bool {
    |p: (u32, Prefix)| p.0 == rs && p.1.is_v4() == v4
}

/// The number of distinct members observed for one route server: each
/// distinct member contributes exactly one pair keyed by that server.
pub open spec fn member_count_of(ms: Set<(u32, u32)>, rs: u32) -> nat {
    ms.filter(rs_member_filter(rs)).len()
}

/// The distinct members observed for one route server.
pub open spec fn members_of(ms: Set<(u32, u32)>, rs: u32) -> Set<u32> {
    ms.filter(rs_member_filter(rs)).map(|p: (u32, u32)| p.1)
}

/// The member count is the number of distinct members: on the pairs of one
/// route server, taking the member is injective.
pub proof fn lemma_member_count_is_distinct_members(ms: Set<(u32, u32)>, rs: u32)
    requires
        ms.finite(),
    ensures
        member_count_of(ms, rs) == members_of(ms, rs).len(),
{
    let kept = ms.filter(rs_member_filter(rs));
    let f = |p: (u32, u32)| p.1;
    ms.lemma_len_filter(rs_member_filter(rs));
    assert(vstd::relations::injective_on(f, kept)) by {
        assert forall|p: (u32, u32), q: (u32, u32)|
            kept.contains(p) && kept.contains(q) && #[trigger] f(p) == #[trigger] f(q) implies p
            == q by {
            assert(p.0 == rs && q.0 == rs);
        }
    }
    vstd::set_lib::lemma_map_size(kept, kept.map(f), f);
}

/// The number of distinct prefixes of one address family observed for one
/// route server.
pub open spec fn prefix_count_of(ps: Set<(u32, Prefix)>, rs: u32, v4: bool) -> nat {
    ps.filter(rs_prefix_filter(rs, v4)).len()
}

/// The deduplicated per-route-server statistics. Exclusively owned by the
/// aggregator: created empty, mutated only while collecting, read by the
/// reporter once finalized.
pub struct AggregateState {
    members: Vec<(u32, u32)>,
    prefixes: Vec<(u32, Prefix)>,
    finalized: bool,
}

impl AggregateState {
    /// The set of observed (route server, member) pairs.
    pub closed spec fn members_set(self) -> Set<(u32, u32)> {
        self.members@.to_set()
    }

    /// The set of observed (route server, prefix) pairs.
    pub closed spec fn prefixes_set(self) -> Set<(u32, Prefix)> {
        self.prefixes@.to_set()
    }

    /// Whether the state has left the collecting phase: once finalized it
    /// accepts no further triples.
    pub closed spec fn is_finalized(self) -> bool {
        self.finalized
    }

    /// The backing vectors hold each observation exactly once.
    pub closed spec fn wf(self) -> bool {
        self.members@.no_duplicates() && self.prefixes@.no_duplicates()
    }

    /// Creates the empty state, ready to collect.
    pub fn new() -> (s: AggregateState)
        ensures
            s.wf(),
            !s.is_finalized(),
            s.members_set() == Set::<(u32, u32)>::empty(),
            s.prefixes_set() == Set::<(u32, Prefix)>::empty(),
    {
        let s = AggregateState { members: Vec::new(), prefixes: Vec::new(), finalized: false };
        proof {
            assert(s.members@.to_set() =~= Set::<(u32, u32)>::empty());
            assert(s.prefixes@.to_set() =~= Set::<(u32, Prefix)>::empty());
        }
        s
    }

    /// Merges one observation triple into the state, deduplicating by set
    /// semantics.
    pub fn insert_triple(&mut self, t: Triple)
        requires
            old(self).wf(),
            !old(self).is_finalized(),
        ensures
            final(self).wf(),
            !final(self).is_finalized(),
            final(self).members_set() == old(self).members_set().insert(member_pair(t)),
            final(self).prefixes_set() == old(self).prefixes_set().insert(prefix_pair(t)),
    {
        broadcast use vstd::prelude::Seq::<_>::lemma_push_to_set_commute;

        let mpair = (t.rs, t.member);
        if !contains_member_pair(&self.members, mpair) {
            proof {
                lemma_push_no_duplicates(self.members@, mpair);
            }
            self.members.push(mpair);
        } else {
            proof {
                assert(self.members@.to_set().insert(mpair) =~= self.members@.to_set());
            }
        }
        let ppair = (t.rs, t.prefix);
        if !contains_prefix_pair(&self.prefixes, ppair) {
            proof {
                lemma_push_no_duplicates(self.prefixes@, ppair);
            }
            self.prefixes.push(ppair);
        } else {
            proof {
                assert(self.prefixes@.to_set().insert(ppair) =~= self.prefixes@.to_set());
            }
        }
    }

    /// Merges every triple of a batch, in order; the final state is the
    /// union with the batch's observation pairs.
    pub fn insert_all(&mut self, ts: &Vec<Triple>)
        requires
            old(self).wf(),
            !old(self).is_finalized(),
        ensures
            final(self).wf(),
            !final(self).is_finalized(),
            (final(self).members_set(), final(self).prefixes_set()) == spec_apply(
                old(self).members_set(),
                old(self).prefixes_set(),
                ts@,
            ),
    {
        let ghost ms0 = self.members_set();
        let ghost ps0 = self.prefixes_set();
        let mut i: usize = 0;
        proof {
            assert(ts@.skip(0) =~= ts@);
        }
        while i < ts.len()
            invariant
                0 <= i <= ts@.len(),
                self.wf(),
                !self.is_finalized(),
                spec_apply(ms0, ps0, ts@) == spec_apply(
                    self.members_set(),
                    self.prefixes_set(),
                    ts@.skip(i as int),
                ),
            decreases ts@.len() - i,
        {
            proof {
                assert(ts@.skip(i as int).first() == ts@[i as int]);
                assert(ts@.skip(i as int).drop_first() =~= ts@.skip(i as int + 1));
            }
            self.insert_triple(ts[i]);
            i = i + 1;
        }
        proof {
            assert(ts@.skip(ts@.len() as int) =~= Seq::<Triple>::empty());
        }
    }

    /// Ends the collecting phase: all producers are done, no further
    /// mutation happens, the reporter may read the state.
    pub fn finalize(&mut self)
        requires
            !old(self).is_finalized(),
        ensures
            final(self).is_finalized(),
            final(self).wf() == old(self).wf(),
            final(self).members_set() == old(self).members_set(),
            final(self).prefixes_set() == old(self).prefixes_set(),
    {
        self.finalized = true;
    }

    /// The number of distinct members observed for `rs`.
    pub fn member_count(&self, rs: u32) -> (r: usize)
        requires
            self.wf(),
        ensures
            r == member_count_of(self.members_set(), rs),
    {
        broadcast use vstd::prelude::Seq::<_>::lemma_push_to_set_commute;
        broadcast use vstd::seq_lib::seq_to_set_is_finite;

        let ghost f = rs_member_filter(rs);
        let mut count: usize = 0;
        let mut i: usize = 0;
        proof {
            assert(self.members@.take(0) =~= Seq::<(u32, u32)>::empty());
            assert(self.members@.take(0).to_set().filter(f) =~= Set::<(u32, u32)>::empty());
        }
        while i < self.members.len()
            invariant
                0 <= i <= self.members@.len(),
                self.wf(),
                count <= i,
                f == rs_member_filter(rs),
                count == self.members@.take(i as int).to_set().filter(f).len(),
            decreases self.members@.len() - i,
        {
            let ghost seen = self.members@.take(i as int).to_set();
            let ghost elem = self.members@[i as int];
            proof {
                assert(self.members@.take(i as int + 1) =~= self.members@.take(i as int).push(
                    elem,
                ));
                self.members@.take(i as int).lemma_push_to_set_commute(elem);
                assert(self.members@.take(i as int).push(elem).to_set() =~= seen.insert(elem));
                seen.lemma_len_filter(f);
                if seen.contains(elem) {
                    let j = choose|j: int| 0 <= j < i && self.members@.take(i as int)[j] == elem;
                    assert(self.members@[j] == elem);
                    assert(false);
                }
                assert(!seen.filter(f).contains(elem));
            }
            if self.members[i].0 == rs {
                proof {
                    assert(seen.insert(elem).filter(f) =~= seen.filter(f).insert(elem));
                    assert(seen.filter(f).insert(elem).len() == seen.filter(f).len() + 1);
                }
                count = count + 1;
            } else {
                proof {
                    assert(!f(elem));
                    assert(seen.insert(elem).filter(f) =~= seen.filter(f));
                }
            }
            i = i + 1;
        }
        proof {
            assert(self.members@.take(self.members@.len() as int) =~= self.members@);

        }
        count
    }

    /// The number of distinct prefixes of one address family observed for
    /// `rs`: IPv4 prefixes when `v4` is true, IPv6 prefixes otherwise.
    pub fn prefix_count(&self, rs: u32, v4: bool) -> (r: usize)
        requires
            self.wf(),
        ensures
            r == prefix_count_of(self.prefixes_set(), rs, v4),
    {
        broadcast use vstd::prelude::Seq::<_>::lemma_push_to_set_commute;
        broadcast use vstd::seq_lib::seq_to_set_is_finite;

        let ghost f = rs_prefix_filter(rs, v4);
        let mut count: usize = 0;
        let mut i: usize = 0;
        proof {
            assert(self.prefixes@.take(0) =~= Seq::<(u32, Prefix)>::empty());
            assert(self.prefixes@.take(0).to_set().filter(f) =~= Set::<(u32, Prefix)>::empty());
        }
        while i < self.prefixes.len()
            invariant
                0 <= i <= self.prefixes@.len(),
                self.wf(),
                count <= i,
                f == rs_prefix_filter(rs, v4),
                count == self.prefixes@.take(i as int).to_set().filter(f).len(),
            decreases self.prefixes@.len() - i,
        {
            let ghost seen = self.prefixes@.take(i as int).to_set();
            let ghost elem = self.prefixes@[i as int];
            proof {
                assert(self.prefixes@.take(i as int + 1) =~= self.prefixes@.take(i as int).push(
                    elem,
                ));
                self.prefixes@.take(i as int).lemma_push_to_set_commute(elem);
                assert(self.prefixes@.take(i as int).push(elem).to_set() =~= seen.insert(elem));
                seen.lemma_len_filter(f);
                if seen.contains(elem) {
                    let j = choose|j: int| 0 <= j < i && self.prefixes@.take(i as int)[j] == elem;
                    assert(self.prefixes@[j] == elem);
                    assert(false);
                }
                assert(!seen.filter(f).contains(elem));
            }
            let is_v4 = match self.prefixes[i].1 {
                Prefix::V4 { .. } => true,
                Prefix::V6 { .. } => false,
            };
            if self.prefixes[i].0 == rs && is_v4 == v4 {
                proof {
                    assert(f(elem));
                    assert(seen.insert(elem).filter(f) =~= seen.filter(f).insert(elem));
                    assert(seen.filter(f).insert(elem).len() == seen.filter(f).len() + 1);
                }
                count = count + 1;
            } else {
                proof {
                    assert(!f(elem));
                    assert(seen.insert(elem).filter(f) =~= seen.filter(f));
                }
            }
            i = i + 1;
        }
        proof {
            assert(self.prefixes@.take(self.prefixes@.len() as int) =~= self.prefixes@);

        }
        count
    }
}

/// Pushing an element a sequence does not hold keeps it duplicate-free.
proof fn lemma_push_no_duplicates<A>(s: Seq<A>, x: A)
    requires
        s.no_duplicates(),
        !s.contains(x),
    ensures
        s.push(x).no_duplicates(),
{
    let p = s.push(x);
    assert forall|i: int, j: int| 0 <= i < p.len() && 0 <= j < p.len() && i != j implies p[i]
        != p[j] by {
        if i < s.len() && j < s.len() {
            assert(s[i] == p[i] && s[j] == p[j]);
        } else if i < s.len() {
            assert(p[j] == x && p[i] == s[i]);
        } else if j < s.len() {
            assert(p[i] == x && p[j] == s[j]);
        }
    }
}

/// Linear membership test on the (route server, member) pairs.
fn contains_member_pair(v: &Vec<(u32, u32)>, p: (u32, u32)) -> (r: bool)
    ensures
        r == v@.contains(p),
{
    let mut i: usize = 0;
    while i < v.len()
        invariant
            0 <= i <= v@.len(),
            forall|k: int| 0 <= k < i ==> v@[k] != p,
        decreases v@.len() - i,
    {
        if v[i].0 == p.0 && v[i].1 == p.1 {
            return true;
        }
        i = i + 1;
    }
    false
}

/// Linear membership test on the (route server, prefix) pairs.
fn contains_prefix_pair(v: &Vec<(u32, Prefix)>, p: (u32, Prefix)) -> (r: bool)
    ensures
        r == v@.contains(p),
{
    let mut i: usize = 0;
    while i < v.len()
        invariant
            0 <= i <= v@.len(),
            forall|k: int| 0 <= k < i ==> v@[k] != p,
        decreases v@.len() - i,
    {
        if v[i].0 == p.0 && v[i].1 == p.1 {
            return true;
        }
        i = i + 1;
    }
    false
}

} // verus!
