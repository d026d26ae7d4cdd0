//! The process-discovery engine.
//!
//! The engine works over a snapshot of the process table: one record per
//! directory entry, holding the entry's raw name and, where it could be
//! read, the bytes of that process's command-name record.  An entry counts
//! as a match when its name parses as a process identifier and its command
//! name — with a single trailing newline stripped — equals the target
//! byte-for-byte.  Unreadable records and non-numeric names are skipped
//! silently: a process table is a racy snapshot and such entries are
//! ordinary data, not errors.

use vstd::prelude::*;
use vstd::slice::slice_subrange;
use vstd::string::StringSliceAdditionalSpecFns;

use crate::pid::{all_digit_bytes, parse_pid_from_bytes, spec_parse_pid};

verus! {

/// One entry of a process-table snapshot: the raw bytes of the directory
/// entry's name, and the bytes of the command-name record, or `None` where
/// the record could not be read (the process vanished between the listing
/// and the read, or the read was denied).
pub struct ProcEntry {
    pub name: Vec<u8>,
    pub comm: Option<Vec<u8>>,
}

impl ProcEntry {
    /// The command-name record as a mathematical value.
    pub open spec fn comm_view(&self) -> Option<Seq<u8>> {
        match self.comm {
            Some(c) => Some(c@),
            None => None,
        }
    }
}

/// A command-name record with one trailing newline, if any, stripped.
pub open spec fn strip_newline(s: Seq<u8>) -> Seq<u8> {
    if s.len() > 0 && s.last() == 10 {
        s.drop_last()
    } else {
        s
    }
}

/// What checking one snapshot entry yields: the entry's identifier when its
/// name parses as one, its record was readable, and the record — newline
/// stripped — equals the target exactly; nothing otherwise.
pub open spec fn spec_check_entry(name: Seq<u8>, comm: Option<Seq<u8>>, target: Seq<u8>) -> Option<
    i32,
> {
    match spec_parse_pid(name) {
        None => None,
        Some(pid) => match comm {
            None => None,
            Some(record) => if strip_newline(record) == target {
                Some(pid)
            } else {
                None
            },
        },
    }
}

/// The identifiers of the matching entries of a snapshot, in snapshot
/// order.
pub open spec fn spec_matches(entries: Seq<ProcEntry>, target: Seq<u8>) -> Seq<i32>
    decreases entries.len(),
{
    if entries.len() == 0 {
        Seq::empty()
    } else {
        let rest = spec_matches(entries.drop_last(), target);
        match spec_check_entry(entries.last().name@, entries.last().comm_view(), target) {
            Some(pid) => rest.push(pid),
            None => rest,
        }
    }
}

/// A snapshot entry that matches nothing can be inserted anywhere without
/// changing what discovery yields.
proof fn lemma_inert_entry_ignored(entries: Seq<ProcEntry>, i: int, e: ProcEntry, target: Seq<u8>)
    requires
        0 <= i <= entries.len(),
        spec_check_entry(e.name@, e.comm_view(), target) is None,
    ensures
        spec_matches(entries.insert(i, e), target) == spec_matches(entries, target),
    decreases entries.len(),
{
    let grown = entries.insert(i, e);
    if i == entries.len() {
        assert(grown.drop_last() =~= entries);
        assert(grown.last() == e);
    } else {
        assert(grown.last() == entries.last());
        assert(grown.drop_last() =~= entries.drop_last().insert(i, e));
        lemma_inert_entry_ignored(entries.drop_last(), i, e, target);
    }
}

/// Law: a snapshot entry whose name is not all ASCII digits contributes
/// nothing — discovery over a table with such an entry inserted anywhere
/// yields exactly what it yields without it.
pub proof fn lemma_non_numeric_entry_ignored(
    entries: Seq<ProcEntry>,
    i: int,
    e: ProcEntry,
    target: Seq<u8>,
)
    requires
        0 <= i <= entries.len(),
        !all_digit_bytes(e.name@),
    ensures
        spec_matches(entries.insert(i, e), target) == spec_matches(entries, target),
{
    lemma_inert_entry_ignored(entries, i, e, target);
}

/// Law: a snapshot entry whose command-name record was unreadable
/// contributes nothing — discovery excludes it without failing the call.
pub proof fn lemma_unreadable_entry_ignored(
    entries: Seq<ProcEntry>,
    i: int,
    e: ProcEntry,
    target: Seq<u8>,
)
    requires
        0 <= i <= entries.len(),
        e.comm_view() is None,
    ensures
        spec_matches(entries.insert(i, e), target) == spec_matches(entries, target),
{
    lemma_inert_entry_ignored(entries, i, e, target);
}

/// Law: discovery is a function of the snapshot and target alone — any two
/// results drawn from an unchanged process table are the same, identifiers
/// and order both.
pub proof fn lemma_discover_idempotent(
    r1: Seq<i32>,
    r2: Seq<i32>,
    entries: Seq<ProcEntry>,
    target: Seq<u8>,
)
    requires
        r1 == spec_matches(entries, target),
        r2 == spec_matches(entries, target),
    ensures
        r1 == r2,
{
}

/// Law: a process identifier is reported exactly when some snapshot entry
/// checks to it — nothing is invented and no match is dropped.
pub proof fn lemma_matches_contains(entries: Seq<ProcEntry>, target: Seq<u8>, pid: i32)
    ensures
        spec_matches(entries, target).contains(pid) <==> exists|k: int|
            0 <= k < entries.len() && spec_check_entry(
                (#[trigger] entries[k]).name@,
                entries[k].comm_view(),
                target,
            ) == Some(pid),
    decreases entries.len(),
{
    if entries.len() > 0 {
        let rest = entries.drop_last();
        let restm = spec_matches(rest, target);
        let last = entries.last();
        let len = entries.len() as int;
        lemma_matches_contains(rest, target, pid);
        assert(forall|k: int| 0 <= k < rest.len() ==> #[trigger] rest[k] == entries[k]);
        assert(entries[len - 1] == last);
        match spec_check_entry(last.name@, last.comm_view(), target) {
            Some(p) => {
                let grown = restm.push(p);
                assert(spec_matches(entries, target) == grown);
                assert(grown[restm.len() as int] == p);
                if grown.contains(pid) {
                    let w = choose|w: int| 0 <= w < grown.len() && grown[w] == pid;
                    if w < restm.len() {
                        assert(restm[w] == pid);
                        assert(restm.contains(pid));
                        let k = choose|k: int|
                            0 <= k < rest.len() && spec_check_entry(
                                (#[trigger] rest[k]).name@,
                                rest[k].comm_view(),
                                target,
                            ) == Some(pid);
                        assert(spec_check_entry(entries[k].name@, entries[k].comm_view(), target)
                            == Some(pid));
                    } else {
                        assert(pid == p);
                        assert(spec_check_entry(
                            entries[len - 1].name@,
                            entries[len - 1].comm_view(),
                            target,
                        ) == Some(pid));
                    }
                }
                if exists|k: int|
                    0 <= k < entries.len() && spec_check_entry(
                        (#[trigger] entries[k]).name@,
                        entries[k].comm_view(),
                        target,
                    ) == Some(pid) {
                    let k = choose|k: int|
                        0 <= k < entries.len() && spec_check_entry(
                            (#[trigger] entries[k]).name@,
                            entries[k].comm_view(),
                            target,
                        ) == Some(pid);
                    if k < len - 1 {
                        assert(spec_check_entry(rest[k].name@, rest[k].comm_view(), target)
                            == Some(pid));
                        assert(restm.contains(pid));
                        let w = choose|w: int| 0 <= w < restm.len() && restm[w] == pid;
                        assert(grown[w] == pid);
                        assert(grown.contains(pid));
                    } else {
                        assert(grown[restm.len() as int] == pid);
                        assert(grown.contains(pid));
                    }
                }
            },
            None => {
                assert(spec_matches(entries, target) == restm);
                if exists|k: int|
                    0 <= k < entries.len() && spec_check_entry(
                        (#[trigger] entries[k]).name@,
                        entries[k].comm_view(),
                        target,
                    ) == Some(pid) {
                    let k = choose|k: int|
                        0 <= k < entries.len() && spec_check_entry(
                            (#[trigger] entries[k]).name@,
                            entries[k].comm_view(),
                            target,
                        ) == Some(pid);
                    assert(k < len - 1);
                    assert(spec_check_entry(rest[k].name@, rest[k].comm_view(), target)
                        == Some(pid));
                }
                if restm.contains(pid) {
                    let k = choose|k: int|
                        0 <= k < rest.len() && spec_check_entry(
                            (#[trigger] rest[k]).name@,
                            rest[k].comm_view(),
                            target,
                        ) == Some(pid);
                    assert(spec_check_entry(entries[k].name@, entries[k].comm_view(), target)
                        == Some(pid));
                }
            },
        }
    }
}

/// Law: when the snapshot's entries carry pairwise distinct identifiers —
/// as the live process table does — the reported identifiers hold no
/// duplicates.
pub proof fn lemma_matches_no_duplicates(entries: Seq<ProcEntry>, target: Seq<u8>)
    requires
        forall|k1: int, k2: int|
            0 <= k1 < k2 < entries.len() ==> (spec_parse_pid((#[trigger] entries[k1]).name@) is None
                || spec_parse_pid(entries[k1].name@) != spec_parse_pid(
                (#[trigger] entries[k2]).name@,
            )),
    ensures
        spec_matches(entries, target).no_duplicates(),
    decreases entries.len(),
{
    if entries.len() > 0 {
        let rest = entries.drop_last();
        let restm = spec_matches(rest, target);
        let last = entries.last();
        assert(forall|k: int| 0 <= k < rest.len() ==> #[trigger] rest[k] == entries[k]);
        lemma_matches_no_duplicates(rest, target);
        match spec_check_entry(last.name@, last.comm_view(), target) {
            Some(p) => {
                lemma_matches_contains(rest, target, p);
                assert(!restm.contains(p)) by {
                    if restm.contains(p) {
                        let k = choose|k: int|
                            0 <= k < rest.len() && spec_check_entry(
                                (#[trigger] rest[k]).name@,
                                rest[k].comm_view(),
                                target,
                            ) == Some(p);
                        assert(spec_parse_pid(entries[k].name@) == Some(p));
                        assert(spec_parse_pid(entries[entries.len() - 1].name@) == Some(p));
                    }
                }
                let grown = restm.push(p);
                assert(grown.no_duplicates()) by {
                    assert(forall|k: int|
                        0 <= k < restm.len() ==> #[trigger] grown[k] == restm[k]);
                    assert(grown[restm.len() as int] == p);
                    assert(forall|k: int| 0 <= k < restm.len() ==> #[trigger] restm[k] != p) by {
                        assert forall|k: int| 0 <= k < restm.len() implies #[trigger] restm[k]
                            != p by {
                            if restm[k] == p {
                                assert(restm.contains(p));
                            }
                        }
                    }
                }
            },
            None => {},
        }
    }
}

/// The two byte slices hold the same bytes.
fn bytes_eq(a: &[u8], b: &[u8]) -> (r: bool)
    ensures
        r == (a@ == b@),
{
    if a.len() != b.len() {
        proof {
            assert(a@ != b@);
        }
        return false;
    }
    let n = a.len();
    let mut i: usize = 0;
    while i < n
        invariant
            n == a@.len() == b@.len(),
            i <= n,
            forall|j: int| 0 <= j < i ==> a@[j] == b@[j],
        decreases n - i,
    {
        if a[i] != b[i] {
            return false;
        }
        i = i + 1;
    }
    proof {
        assert(a@ =~= b@);
    }
    true
}

/// Check one snapshot entry against the target command name.
///
/// Yields the entry's process identifier exactly when the entry's name
/// parses as an identifier, its command-name record was readable, and the
/// record — with one trailing newline stripped — equals the target
/// byte-for-byte.
pub fn check_entry(entry: &ProcEntry, target_bytes: &[u8]) -> (r: Option<i32>)
    ensures
        r == spec_check_entry(entry.name@, entry.comm_view(), target_bytes@),
{
    let pid = match parse_pid_from_bytes(entry.name.as_slice()) {
        Some(pid) => pid,
        None => {
            return None;
        },
    };
    let record: &Vec<u8> = match &entry.comm {
        Some(record) => record,
        None => {
            return None;
        },
    };
    let len = record.len();
    let name_len = if len > 0 && record[len - 1] == 10 {
        len - 1
    } else {
        len
    };
    proof {
        assert(record@.subrange(0, name_len as int) =~= strip_newline(record@));
    }
    if bytes_eq(slice_subrange(record.as_slice(), 0, name_len), target_bytes) {
        Some(pid)
    } else {
        None
    }
}

/// The process identifiers of every snapshot entry whose command name
/// equals the target, in snapshot order.
///
/// The engine visits each entry exactly once; entries whose name is not a
/// process identifier and entries whose record was unreadable are skipped,
/// never reported as errors.  An empty result is an ordinary outcome.
pub fn list_pids_by_comm(entries: &Vec<ProcEntry>, target_name: &str) -> (r: Vec<i32>)
    ensures
        r@ == spec_matches(entries@, target_name.spec_bytes()),
{
    let target_bytes: &[u8] = target_name.as_bytes();
    let mut out: Vec<i32> = Vec::new();
    let n = entries.len();
    let mut i: usize = 0;
    while i < n
        invariant
            n == entries@.len(),
            i <= n,
            target_bytes@ == target_name.spec_bytes(),
            out@ == spec_matches(entries@.take(i as int), target_bytes@),
        decreases n - i,
    {
        proof {
            let t = entries@.take(i + 1);
            assert(t.drop_last() =~= entries@.take(i as int));
            assert(t.last() == entries@[i as int]);
        }
        match check_entry(&entries[i], target_bytes) {
            Some(pid) => out.push(pid),
            None => (),
        }
        i = i + 1;
    }
    proof {
        assert(entries@.take(n as int) =~= entries@);
    }
    out
}

} // verus!
