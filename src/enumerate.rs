//! The search of a process snapshot by name.
use vstd::prelude::*;

use crate::process::{NULL_HANDLE, OsError, Process, ProcessView, first_pid};
use crate::text::{contains_seq, decode_narrow_name, narrow_name, str_contains};

verus! {

/// One row that the walk of a process snapshot yielded: the process id and
/// the raw, nul-padded executable-name buffer.
pub struct SnapshotEntry {
    pub pid: u32,
    pub exe_file: Vec<u8>,
}

/// A process that passed the name filter and is to be opened.
pub struct Candidate {
    pub pid: u32,
    pub name: String,
}

pub open spec fn entry_views(s: Seq<SnapshotEntry>) -> Seq<(u32, Seq<u8>)> {
    s.map_values(|e: SnapshotEntry| (e.pid, e.exe_file@))
}

pub open spec fn candidate_views(s: Seq<Candidate>) -> Seq<(u32, Seq<char>)> {
    s.map_values(|c: Candidate| (c.pid, c.name@))
}

pub open spec fn process_views(s: Seq<Process>) -> Seq<ProcessView> {
    s.map_values(|p: Process| p@)
}

/// A name passes the filter when the filter is empty or occurs in it.
pub open spec fn keeps(name: Seq<char>, filter: Seq<char>) -> bool {
    filter.len() == 0 || contains_seq(name, filter)
}

/// The entries whose decoded name passes the filter, with that name, in the
/// order of the walk.
pub open spec fn matches_of(entries: Seq<(u32, Seq<u8>)>, filter: Seq<char>) -> Seq<(u32, Seq<char>)>
    decreases entries.len(),
{
    if entries.len() == 0 {
        seq![]
    } else {
        let prev = matches_of(entries.drop_last(), filter);
        let e = entries.last();
        if keeps(narrow_name(e.1), filter) {
            prev.push((e.0, narrow_name(e.1)))
        } else {
            prev
        }
    }
}

/// The candidates whose open request returned a handle, as processes, in the
/// order of the candidates.
pub open spec fn opened_of(cands: Seq<(u32, Seq<char>)>, opened: Seq<usize>) -> Seq<ProcessView>
    decreases cands.len(),
{
    if cands.len() == 0 || opened.len() == 0 {
        seq![]
    } else {
        let prev = opened_of(cands.drop_last(), opened.drop_last());
        if opened.last() != NULL_HANDLE {
            prev.push(ProcessView { pid: cands.last().0, name: cands.last().1, handle: opened.last() })
        } else {
            prev
        }
    }
}

/// Filters the rows of a process snapshot by name. `snapshot` is what taking
/// and walking the snapshot gave: its rows in the order of the walk, or the
/// error of the snapshot request, which is returned as it is. Each row's name
/// is decoded up to its first nul; with an empty `name` every row is kept, else
/// the rows whose decoded name contains `name`, case-sensitively.
pub fn find_process_by_name(snapshot: Result<Vec<SnapshotEntry>, OsError>, name: &str) -> (r: Result<Vec<Candidate>, OsError>)
    ensures
        snapshot matches Err(e) ==> r == Err::<Vec<Candidate>, OsError>(e),
        snapshot matches Ok(entries) ==> (r matches Ok(c) && candidate_views(c@) == matches_of(entry_views(entries@), name@)),
{
    let entries = match snapshot {
        Ok(entries) => entries,
        Err(e) => return Err(e),
    };
    let filter_empty = name.unicode_len() == 0;
    let mut result: Vec<Candidate> = Vec::new();
    let mut i: usize = 0;
    while i < entries.len()
        invariant
            0 <= i <= entries@.len(),
            filter_empty == (name@.len() == 0),
            candidate_views(result@) == matches_of(entry_views(entries@.take(i as int)), name@),
        decreases entries@.len() - i,
    {
        let entry = &entries[i];
        let decoded = decode_narrow_name(entry.exe_file.as_slice());
        let keep = filter_empty || str_contains(decoded.as_str(), name);
        if keep {
            result.push(Candidate { pid: entry.pid, name: decoded });
        }
        proof {
            let t = entry_views(entries@.take(i + 1));
            assert(t.drop_last() =~= entry_views(entries@.take(i as int)));
            assert(candidate_views(result@) =~= matches_of(t, name@));
        }
        i = i + 1;
    }
    assert(entries@.take(entries@.len() as int) =~= entries@);
    Ok(result)
}

/// Turns the candidates into processes: `opened[i]` is the raw handle that the
/// open request for `candidates[i]` returned. Candidates whose request returned
/// a null handle are dropped; the rest come out newest first, in the reverse of
/// the order of the walk.
pub fn collect_opened(candidates: Vec<Candidate>, opened: Vec<usize>) -> (r: Vec<Process>)
    requires
        candidates@.len() == opened@.len(),
    ensures
        process_views(r@) == opened_of(candidate_views(candidates@), opened@).reverse(),
{
    let ghost all_c = candidate_views(candidates@);
    let ghost all = opened_of(all_c, opened@);
    let mut rest = candidates;
    let mut result: Vec<Process> = Vec::new();
    assert(opened@.take(opened@.len() as int) =~= opened@);
    assert(all_c.take(all_c.len() as int) =~= all_c);
    assert(process_views(result@).reverse() =~= seq![]);
    assert(all =~= all + process_views(result@).reverse());
    while rest.len() > 0
        invariant
            rest@.len() <= opened@.len() == all_c.len(),
            candidate_views(rest@) == all_c.take(rest@.len() as int),
            all == opened_of(candidate_views(rest@), opened@.take(rest@.len() as int)) + process_views(result@).reverse(),
        decreases rest@.len(),
    {
        let ghost n = rest@.len() as int;
        let ghost rest0 = rest@;
        let ghost before = process_views(result@);
        let c = rest.pop().unwrap();
        let h = opened[rest.len()];
        let ghost pv = ProcessView { pid: c.pid, name: c.name@, handle: h };
        match Process::from_pid_and_name(h, c.pid, c.name.as_str()) {
            Some(p) => result.push(p),
            None => {},
        }
        proof {
            assert(candidate_views(rest0)[n - 1] == (c.pid, c.name@));
            assert(all_c.take(n).drop_last() =~= all_c.take(n - 1));
            assert(opened@.take(n).drop_last() =~= opened@.take(n - 1));
            assert(candidate_views(rest@) =~= all_c.take(n - 1));
            if h != NULL_HANDLE {
                assert(process_views(result@) =~= before.push(pv));
                assert(process_views(result@).reverse() =~= seq![pv] + before.reverse());
            } else {
                assert(process_views(result@) =~= before);
            }
            let x = opened_of(all_c.take(n - 1), opened@.take(n - 1));
            if h != NULL_HANDLE {
                assert(opened_of(all_c.take(n), opened@.take(n)) == x.push(pv));
                assert(x.push(pv) + before.reverse() =~= x + (seq![pv] + before.reverse()));
            } else {
                assert(opened_of(all_c.take(n), opened@.take(n)) == x);
            }
        }
    }
    proof {
        assert(all =~= process_views(result@).reverse());
        assert(process_views(result@) =~= all.reverse());
    }
    result
}

/// The name and pid of a snapshot row.
pub open spec fn entry_match(e: (u32, Seq<u8>)) -> (u32, Seq<char>) {
    (e.0, narrow_name(e.1))
}

/// With an empty filter, every row of the snapshot is a candidate, in the
/// order of the walk.
pub proof fn lemma_empty_filter_keeps_all(entries: Seq<(u32, Seq<u8>)>)
    ensures
        matches_of(entries, seq![]) == entries.map_values(|e: (u32, Seq<u8>)| entry_match(e)),
    decreases entries.len(),
{
    if entries.len() > 0 {
        lemma_empty_filter_keeps_all(entries.drop_last());
        assert(entries.map_values(|e: (u32, Seq<u8>)| entry_match(e)).drop_last()
            =~= entries.drop_last().map_values(|e: (u32, Seq<u8>)| entry_match(e)));
    }
    assert(matches_of(entries, seq![]) =~= entries.map_values(|e: (u32, Seq<u8>)| entry_match(e)));
}

/// When every open request returns a handle, every candidate becomes a
/// process, with that handle, in the order of the candidates.
pub proof fn lemma_all_opened_kept(cands: Seq<(u32, Seq<char>)>, opened: Seq<usize>)
    requires
        cands.len() == opened.len(),
        forall|i: int| 0 <= i < opened.len() ==> opened[i] != NULL_HANDLE,
    ensures
        opened_of(cands, opened).len() == cands.len(),
        forall|i: int| 0 <= i < cands.len() ==> #[trigger] opened_of(cands, opened)[i] == (ProcessView {
            pid: cands[i].0,
            name: cands[i].1,
            handle: opened[i],
        }),
    decreases cands.len(),
{
    if cands.len() > 0 {
        lemma_all_opened_kept(cands.drop_last(), opened.drop_last());
    }
}

/// Every candidate comes from a row of the snapshot, under that row's decoded
/// name, and that name contains the filter (characters compared exactly).
pub proof fn lemma_matches_contain_filter(entries: Seq<(u32, Seq<u8>)>, filter: Seq<char>)
    ensures
        forall|k: int| 0 <= k < matches_of(entries, filter).len() ==> {
            &&& contains_seq(#[trigger] matches_of(entries, filter)[k].1, filter)
            &&& exists|j: int| 0 <= j < entries.len() && matches_of(entries, filter)[k] == entry_match(#[trigger] entries[j])
        },
    decreases entries.len(),
{
    if entries.len() > 0 {
        let prev = entries.drop_last();
        lemma_matches_contain_filter(prev, filter);
        let m = matches_of(entries, filter);
        let name = narrow_name(entries.last().1);
        if filter.len() == 0 {
            assert(name.subrange(0, 0 + filter.len() as int) =~= filter);
            assert(contains_seq(name, filter));
        }
        assert forall|k: int| 0 <= k < m.len() implies {
            &&& contains_seq(#[trigger] m[k].1, filter)
            &&& exists|j: int| 0 <= j < entries.len() && m[k] == entry_match(#[trigger] entries[j])
        } by {
            let pm = matches_of(prev, filter);
            if k < pm.len() {
                assert(m[k] == pm[k]);
                assert(contains_seq(pm[k].1, filter));
                let j = choose|j: int| 0 <= j < prev.len() && matches_of(prev, filter)[k] == entry_match(#[trigger] prev[j]);
                assert(entries[j] == prev[j]);
                assert(m[k] == entry_match(entries[j]));
            } else {
                assert(keeps(name, filter));
                assert(m[k] == entry_match(entries[entries.len() - 1]));
                assert(contains_seq(m[k].1, filter));
            }
        }
    }
}

/// The process that a search by name reopens is the front of the result,
/// which is the match that the walk of the snapshot met last.
pub proof fn lemma_first_is_last_discovered(found: Vec<Process>, cands: Seq<(u32, Seq<char>)>, opened: Seq<usize>)
    requires
        process_views(found@) == opened_of(cands, opened).reverse(),
    ensures
        opened_of(cands, opened).len() == 0 ==> first_pid(Ok::<Vec<Process>, OsError>(found)) == None::<u32>,
        opened_of(cands, opened).len() > 0 ==> first_pid(Ok::<Vec<Process>, OsError>(found)) == Some(opened_of(cands, opened).last().pid),
{
    let all = opened_of(cands, opened);
    assert(process_views(found@).len() == found@.len());
    if all.len() > 0 {
        assert(process_views(found@)[0] == found@[0]@);
    }
}

} // verus!
