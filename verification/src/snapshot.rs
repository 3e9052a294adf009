//! Process snapshots.
//!
//! A snapshot is the list of processes visible at one poll, each with its
//! numeric id and resolved name. The caller enumerates process ids and tries
//! to resolve a name for each; a process whose name could not be read is
//! handed over as `None` and is silently skipped, so a per-process lookup
//! failure never aborts the poll.

use vstd::prelude::*;

verus! {

/// One running process: its id and its resolved base name.
#[derive(Debug)]
pub struct ProcessRecord {
    pub pid: u32,
    pub name: String,
}

/// The processes visible at one poll, in enumeration order.
#[derive(Debug)]
pub struct Snapshot {
    pub records: Vec<ProcessRecord>,
}

/// The records a list of lookup results yields: one per entry whose name was
/// resolved, in order; entries whose lookup failed are dropped.
pub open spec fn snapshot_of(entries: Seq<(u32, Option<String>)>) -> Seq<ProcessRecord>
    decreases entries.len(),
{
    if entries.len() == 0 {
        Seq::empty()
    } else {
        let rest = snapshot_of(entries.drop_last());
        match entries.last().1 {
            Some(name) => rest.push(ProcessRecord { pid: entries.last().0, name }),
            None => rest,
        }
    }
}

/// Build the snapshot from per-process lookup results: every entry with a
/// resolved name becomes a record, in enumeration order, and every failed
/// lookup is skipped without error.
pub fn build_snapshot(entries: &Vec<(u32, Option<String>)>) -> (s: Snapshot)
    ensures
        s.records@ == snapshot_of(entries@),
{
    let mut records: Vec<ProcessRecord> = Vec::new();
    let mut i: usize = 0;
    while i < entries.len()
        invariant
            i <= entries@.len(),
            records@ == snapshot_of(entries@.take(i as int)),
        decreases entries@.len() - i,
    {
        let (pid, name) = &entries[i];
        match name {
            Some(n) => {
                records.push(ProcessRecord { pid: *pid, name: n.clone() });
            },
            None => {},
        }
        proof {
            assert(entries@.take(i + 1).drop_last() =~= entries@.take(i as int));
            assert(entries@.take(i + 1).last() == entries@[i as int]);
        }
        i = i + 1;
    }
    proof {
        assert(entries@.take(entries@.len() as int) =~= entries@);
    }
    Snapshot { records }
}

} // verus!
