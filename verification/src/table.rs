//! The monitored-identifier table: the static configuration of route-server
//! autonomous-system numbers, each paired with a human-readable label.

use vstd::prelude::*;

verus! {

/// A fault in the static configuration of monitored identifiers.
#[derive(Clone, Copy, PartialEq, Eq, Structural, Debug)]
pub enum ConfigError {
    DuplicateIdentifier,
}

/// No two entries share an autonomous-system number.
pub open spec fn unique_asns(entries: Seq<(u32, String)>) -> bool {
    forall|i: int, j: int|
        0 <= i < j < entries.len() ==> (#[trigger] entries[i]).0 != (#[trigger] entries[j]).0
}

/// The immutable table of monitored route-server identifiers. Built once at
/// startup and shared read-only by every worker.
pub struct MonitoredTable {
    pub entries: Vec<(u32, String)>,
}

impl MonitoredTable {
    /// The table's identifiers are unique keys.
    pub open spec fn wf(self) -> bool {
        unique_asns(self.entries@)
    }

    /// Whether `asn` is one of the monitored identifiers.
    pub open spec fn spec_contains(self, asn: u32) -> bool {
        exists|i: int| 0 <= i < self.entries@.len() && (#[trigger] self.entries@[i]).0 == asn
    }

    /// Builds the table, validating key uniqueness: a duplicated identifier
    /// is rejected at construction time rather than silently overwritten.
    pub fn new(entries: Vec<(u32, String)>) -> (r: Result<MonitoredTable, ConfigError>)
        ensures
            match r {
                Ok(t) => t.entries@ == entries@ && t.wf(),
                Err(e) => e == ConfigError::DuplicateIdentifier && !unique_asns(entries@),
            },
    {
        let n = entries.len();
        let mut i: usize = 0;
        while i < n
            invariant
                0 <= i <= n,
                n == entries@.len(),
                forall|p: int, q: int|
                    0 <= p < q < entries@.len() && p < i ==> (#[trigger] entries@[p]).0 != (
                    #[trigger] entries@[q]).0,
            decreases n - i,
        {
            let mut j: usize = i + 1;
            while j < n
                invariant
                    0 <= i < j <= n,
                    n == entries@.len(),
                    forall|q: int| i < q < j ==> (#[trigger] entries@[q]).0 != entries@[i as int].0,
                decreases n - j,
            {
                if entries[j].0 == entries[i].0 {
                    return Err(ConfigError::DuplicateIdentifier);
                }
                j = j + 1;
            }
            i = i + 1;
        }
        Ok(MonitoredTable { entries })
    }

    /// Membership test used by the occurrence extractor.
    pub fn contains(&self, asn: u32) -> (r: bool)
        ensures
            r == self.spec_contains(asn),
    {
        let mut i: usize = 0;
        while i < self.entries.len()
            invariant
                0 <= i <= self.entries@.len(),
                forall|k: int| 0 <= k < i ==> (#[trigger] self.entries@[k]).0 != asn,
            decreases self.entries@.len() - i,
        {
            if self.entries[i].0 == asn {
                return true;
            }
            i = i + 1;
        }
        false
    }

    /// The number of monitored identifiers.
    pub fn len(&self) -> (r: usize)
        ensures
            r == self.entries@.len(),
    {
        self.entries.len()
    }
}

/// The identifiers and labels of the default monitored route servers.
pub open spec fn default_monitored() -> Seq<(u32, Seq<char>)> {
    seq![
        (6695u32, "DE-CIX Frankfurt"@),
        (6777u32, "AMS-IX"@),
        (51706u32, "France-IX Paris"@),
        (34307u32, "NL-ix"@),
        (37195u32, "NapAfrica"@),
        (8714u32, "LINX"@),
        (33108u32, "SIX"@),
        (50952u32, "DATAIX"@),
        (8631u32, "MSK-IX Moscow"@),
        (61968u32, "MIX-IT"@),
        (4635u32, "HKIX"@),
        (32184u32, "Any2"@),
        (13538u32, "NYIIX"@),
        (11670u32, "TorIX"@),
        (49869u32, "PiterIX"@),
        (52005u32, "Netnod"@),
        (31210u32, "DTEL-IX"@),
        (63034u32, "DE-CIX New York"@),
        (42476u32, "SwissIX"@),
        (47200u32, "NIC.CZ"@),
        (26162u32, "IX.br"@),
    ]
}

/// Returns the default table of monitored route-server identifiers with
/// their exchange-point names.
pub fn setup_target_asns() -> (t: MonitoredTable)
    ensures
        t.wf(),
        t.entries@.map_values(|e: (u32, String)| (e.0, e.1@)) == default_monitored(),
{
    let mut entries: Vec<(u32, String)> = Vec::new();
    entries.push((6695, "DE-CIX Frankfurt".to_string()));
    entries.push((6777, "AMS-IX".to_string()));
    entries.push((51706, "France-IX Paris".to_string()));
    entries.push((34307, "NL-ix".to_string()));
    entries.push((37195, "NapAfrica".to_string()));
    entries.push((8714, "LINX".to_string()));
    entries.push((33108, "SIX".to_string()));
    entries.push((50952, "DATAIX".to_string()));
    entries.push((8631, "MSK-IX Moscow".to_string()));
    entries.push((61968, "MIX-IT".to_string()));
    entries.push((4635, "HKIX".to_string()));
    entries.push((32184, "Any2".to_string()));
    entries.push((13538, "NYIIX".to_string()));
    entries.push((11670, "TorIX".to_string()));
    entries.push((49869, "PiterIX".to_string()));
    entries.push((52005, "Netnod".to_string()));
    entries.push((31210, "DTEL-IX".to_string()));
    entries.push((63034, "DE-CIX New York".to_string()));
    entries.push((42476, "SwissIX".to_string()));
    entries.push((47200, "NIC.CZ".to_string()));
    entries.push((26162, "IX.br".to_string()));
    let t = MonitoredTable { entries };
    proof {
        assert(t.entries@.map_values(|e: (u32, String)| (e.0, e.1@)) =~= default_monitored());
        assert(t.wf());
    }
    t
}

} // verus!
