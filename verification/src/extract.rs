//! Occurrence extraction: scanning a normalized path for monitored
//! route-server identifiers and emitting one observation triple per match.

use vstd::prelude::*;
use crate::table::MonitoredTable;

verus! {

/// An IP network with an explicit address family: the address bits together
/// with the length of the network prefix.
#[derive(Clone, Copy, PartialEq, Eq, Structural, Hash, Debug)]
#[allow(inconsistent_fields)]
pub enum Prefix {
    V4 { addr: u32, len: u8 },
    V6 { addr: u128, len: u8 },
}

impl Prefix {
    pub open spec fn is_v4(self) -> bool {
        matches!(self, Prefix::V4 { .. })
    }
}

/// One observation: `member` was seen immediately before the monitored
/// route server `rs` on the path announcing `prefix`.
#[derive(Clone, Copy, PartialEq, Eq, Structural, Hash, Debug)]
pub struct Triple {
    pub member: u32,
    pub rs: u32,
    pub prefix: Prefix,
}

/// The triples found at path positions below `n`: one triple per position
/// `1 <= i < n` whose element is monitored, pairing it with its predecessor.
pub open spec fn spec_extract_up_to(
    path: Seq<u32>,
    prefix: Prefix,
    table: MonitoredTable,
    n: int,
) -> Seq<Triple>
    decreases n,
{
    if n <= 1 {
        Seq::empty()
    } else if table.spec_contains(path[n - 1]) {
        spec_extract_up_to(path, prefix, table, n - 1).push(
            Triple { member: path[n - 2], rs: path[n - 1], prefix },
        )
    } else {
        spec_extract_up_to(path, prefix, table, n - 1)
    }
}

/// All triples a normalized path yields for one prefix: position 0 is never
/// a target (no preceding element exists), and a path shorter than two
/// elements yields nothing.
pub open spec fn spec_extract(path: Seq<u32>, prefix: Prefix, table: MonitoredTable) -> Seq<
    Triple,
> {
    spec_extract_up_to(path, prefix, table, path.len() as int)
}

/// Emits, in path order, one observation triple for every non-initial path
/// position holding a monitored identifier.
pub fn extract_occurrences(path: &Vec<u32>, prefix: Prefix, table: &MonitoredTable) -> (r: Vec<
    Triple,
>)
    ensures
        r@ == spec_extract(path@, prefix, *table),
{
    let mut out: Vec<Triple> = Vec::new();
    if path.len() < 2 {
        return out;
    }
    let mut i: usize = 1;
    while i < path.len()
        invariant
            1 <= i <= path@.len(),
            out@ == spec_extract_up_to(path@, prefix, *table, i as int),
        decreases path@.len() - i,
    {
        if table.contains(path[i]) {
            out.push(Triple { member: path[i - 1], rs: path[i], prefix });
        }
        i = i + 1;
    }
    out
}

} // verus!
