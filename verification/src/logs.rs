//! Log rotation: which log files are deleted so that at most a given number
//! of them remain, the oldest going first.
use vstd::prelude::*;
use crate::paths::{extension, path_extension};
use crate::filename_parts::str_eq;
use crate::filename_handling::strings_view;

verus! {

/// The entries of a directory listing, each path taken by its view, with
/// its modification time when the file system reported one.
pub open spec fn entries_view(files: Seq<(String, Option<u128>)>) -> Seq<(Seq<char>, Option<u128>)> {
    files.map_values(|e: (String, Option<u128>)| (e.0@, e.1))
}

/// Whether a path names a log file: its extension is `log`.
pub open spec fn is_log_path(p: Seq<char>) -> bool {
    path_extension(p) == Some("log"@)
}

/// The log files among the entries, in listing order.
pub open spec fn log_entries(files: Seq<(Seq<char>, Option<u128>)>) -> Seq<(Seq<char>, Option<u128>)>
    decreases files.len(),
{
    if files.len() == 0 {
        Seq::empty()
    } else if is_log_path(files.last().0) {
        log_entries(files.drop_last()).push(files.last())
    } else {
        log_entries(files.drop_last())
    }
}

/// The order of modification times: an unknown time comes before every
/// known one, known times by their value.
pub open spec fn time_lt(a: Option<u128>, b: Option<u128>) -> bool {
    match (a, b) {
        (None, Some(_)) => true,
        (Some(x), Some(y)) => x < y,
        _ => false,
    }
}

/// Whether entry `j` of `logs` comes before entry `i` when they are sorted
/// by modification time, entries with equal times keeping their listing
/// order.
pub open spec fn comes_before(logs: Seq<(Seq<char>, Option<u128>)>, j: int, i: int) -> bool {
    time_lt(logs[j].1, logs[i].1) || (logs[j].1 == logs[i].1 && j < i)
}

/// How many log files are deleted so that at most `max_log_files` remain.
pub open spec fn excess(count: nat, max_log_files: nat) -> nat {
    if count > max_log_files {
        (count - max_log_files) as nat
    } else {
        0
    }
}

/// `chosen` lists, oldest first, the `k` entries of `logs` that come first
/// in the sorted order: each comes before the next, and before every entry
/// not chosen.
pub open spec fn oldest_entries(logs: Seq<(Seq<char>, Option<u128>)>, chosen: Seq<int>, k: nat) -> bool {
    &&& chosen.len() == k
    &&& forall|a: int| 0 <= a < k ==> 0 <= #[trigger] chosen[a] < logs.len()
    &&& forall|a: int, b: int| 0 <= a < b < k ==> comes_before(logs, #[trigger] chosen[a], #[trigger] chosen[b])
    &&& forall|i: int, a: int|
        0 <= i < logs.len() && !chosen.contains(i) && 0 <= a < k ==> #[trigger] comes_before(logs, chosen[a], i)
}

/// `deleted` are the paths of the entries `chosen` of `logs`: the oldest,
/// oldest first, as many as exceed `max_log_files`.
pub open spec fn deletes_oldest(
    logs: Seq<(Seq<char>, Option<u128>)>,
    max_log_files: nat,
    deleted: Seq<Seq<char>>,
    chosen: Seq<int>,
) -> bool {
    &&& oldest_entries(logs, chosen, excess(logs.len(), max_log_files))
    &&& deleted.len() == chosen.len()
    &&& forall|a: int| 0 <= a < chosen.len() ==> #[trigger] deleted[a] == logs[chosen[a]].0
}

/// The sorted order is transitive.
proof fn lemma_comes_before_transitive(logs: Seq<(Seq<char>, Option<u128>)>, a: int, b: int, c: int)
    requires
        comes_before(logs, a, b),
        comes_before(logs, b, c),
    ensures
        comes_before(logs, a, c),
{
}

/// Whether the time `a` comes strictly before the time `b`.
fn time_before(a: Option<u128>, b: Option<u128>) -> (r: bool)
    ensures
        r == time_lt(a, b),
{
    match (a, b) {
        (None, Some(_)) => true,
        (Some(x), Some(y)) => x < y,
        _ => false,
    }
}

/// A list of entry indices in sorted order, each before the next.
pub open spec fn sorted_indices(logs: Seq<(Seq<char>, Option<u128>)>, order: Seq<usize>) -> bool {
    forall|p: int, q: int| 0 <= p < q < order.len() ==> comes_before(logs, #[trigger] order[p] as int, #[trigger] order[q] as int)
}

/// Which log files of a directory listing to delete, oldest first, so that
/// at most `max_log_files` of them remain. Each entry is a path and its
/// modification time, if known; the log files are those with the extension
/// `log`, sorted by modification time with unknown times first and equal
/// times in listing order.
pub fn log_files_to_delete(files: Vec<(String, Option<u128>)>, max_log_files: usize) -> (r: Vec<String>)
    ensures
        exists|chosen: Seq<int>| #[trigger] deletes_oldest(
            log_entries(entries_view(files@)),
            max_log_files as nat,
            strings_view(r@),
            chosen,
        ),
{
    let ghost fv = entries_view(files@);
    let mut paths: Vec<String> = Vec::new();
    let mut times: Vec<Option<u128>> = Vec::new();
    let mut i: usize = 0;
    assert(fv.take(0) =~= Seq::<(Seq<char>, Option<u128>)>::empty());
    while i < files.len()
        invariant
            i <= files@.len(),
            fv == entries_view(files@),
            paths@.len() == times@.len(),
            paths@.len() == log_entries(fv.take(i as int)).len(),
            forall|k: int| 0 <= k < paths@.len() ==> (#[trigger] paths@[k])@ == log_entries(fv.take(i as int))[k].0,
            forall|k: int| 0 <= k < times@.len() ==> #[trigger] times@[k] == log_entries(fv.take(i as int))[k].1,
        decreases files@.len() - i,
    {
        assert(fv.take(i + 1).drop_last() =~= fv.take(i as int));
        assert(fv.take(i + 1).last() == fv[i as int]);
        let ghost before = log_entries(fv.take(i as int));
        let is_log = match extension(files[i].0.as_str()) {
            Some(e) => str_eq(e.as_str(), "log"),
            None => false,
        };
        if is_log {
            paths.push(files[i].0.clone());
            times.push(files[i].1);
            assert(log_entries(fv.take(i + 1)) == before.push(fv[i as int]));
        } else {
            assert(log_entries(fv.take(i + 1)) == before);
        }
        i = i + 1;
    }
    assert(fv.take(files@.len() as int) =~= fv);
    let ghost logs = log_entries(fv);
    let n = paths.len();
    let mut order: Vec<usize> = Vec::new();
    let mut j: usize = 0;
    while j < n
        invariant
            j <= n,
            n == paths@.len(),
            n == times@.len(),
            n == logs.len(),
            forall|k: int| 0 <= k < n ==> (#[trigger] paths@[k])@ == logs[k].0,
            forall|k: int| 0 <= k < n ==> #[trigger] times@[k] == logs[k].1,
            order@.len() == j,
            forall|x: usize| order@.contains(x) <==> x < j,
            sorted_indices(logs, order@),
        decreases n - j,
    {
        let mut p: usize = 0;
        assert forall|q: int| 0 <= q < order@.len() implies #[trigger] order@[q] < j by {
            assert(order@.contains(order@[q]));
        }
        while p < order.len() && !time_before(times[j], times[order[p]])
            invariant
                p <= order@.len(),
                j < n,
                n == times@.len(),
                n == logs.len(),
                forall|k: int| 0 <= k < n ==> #[trigger] times@[k] == logs[k].1,
                order@.len() == j,
                forall|x: usize| order@.contains(x) <==> x < j,
                forall|q: int| 0 <= q < order@.len() ==> #[trigger] order@[q] < j,
                forall|q: int| 0 <= q < p ==> comes_before(logs, #[trigger] order@[q] as int, j as int),
            decreases order@.len() - p,
        {
            assert(order@.contains(order@[p as int]));
            p = p + 1;
        }
        proof {
            if p < order@.len() {
                assert(order@.contains(order@[p as int]));
                assert(comes_before(logs, j as int, order@[p as int] as int));
            }
        }
        let ghost o0 = order@;
        order.insert(p, j);
        proof {
            assert(order@ =~= o0.insert(p as int, j));
            assert forall|x: usize| order@.contains(x) <==> x < j + 1 by {
                if x < j {
                    assert(o0.contains(x));
                    let q = choose|q: int| 0 <= q < o0.len() && o0[q] == x;
                    if q < p {
                        assert(order@[q] == x);
                    } else {
                        assert(order@[q + 1] == x);
                    }
                } else if x == j {
                    assert(order@[p as int] == x);
                }
                if order@.contains(x) {
                    let q = choose|q: int| 0 <= q < order@.len() && order@[q] == x;
                    if q < p {
                        assert(o0.contains(o0[q]));
                    } else if q > p {
                        assert(o0.contains(o0[q - 1]));
                    }
                }
            }
            assert forall|a: int, b: int| 0 <= a < b < order@.len() implies comes_before(
                logs,
                #[trigger] order@[a] as int,
                #[trigger] order@[b] as int,
            ) by {
                if b < p {
                    assert(comes_before(logs, o0[a] as int, o0[b] as int));
                } else if a < p && b == p {
                } else if a < p && b > p {
                    assert(comes_before(logs, o0[a] as int, o0[b - 1] as int));
                } else if a == p {
                    if b - 1 > p {
                        lemma_comes_before_transitive(logs, j as int, o0[p as int] as int, o0[b - 1] as int);
                    }
                } else {
                    assert(comes_before(logs, o0[a - 1] as int, o0[b - 1] as int));
                }
            }
        }
        j = j + 1;
    }
    let k: usize = if n > max_log_files { n - max_log_files } else { 0 };
    let mut r: Vec<String> = Vec::new();
    let mut a: usize = 0;
    while a < k
        invariant
            a <= k,
            k <= n,
            n == paths@.len(),
            n == logs.len(),
            order@.len() == n,
            forall|x: usize| order@.contains(x) <==> x < n,
            forall|q: int| 0 <= q < n ==> (#[trigger] paths@[q])@ == logs[q].0,
            r@.len() == a,
            forall|b: int| 0 <= b < a ==> (#[trigger] r@[b])@ == logs[order@[b] as int].0,
        decreases k - a,
    {
        assert(order@.contains(order@[a as int]));
        r.push(paths[order[a]].clone());
        a = a + 1;
    }
    let ghost chosen = order@.take(k as int).map_values(|x: usize| x as int);
    proof {
        assert forall|b: int| 0 <= b < k implies 0 <= #[trigger] chosen[b] < logs.len() by {
            assert(order@.contains(order@[b]));
        }
        assert forall|i: int, b: int|
            0 <= i < logs.len() && !chosen.contains(i) && 0 <= b < k implies #[trigger] comes_before(logs, chosen[b], i) by {
            assert(order@.contains(i as usize));
            let q = choose|q: int| 0 <= q < order@.len() && order@[q] == i as usize;
            if q < k {
                assert(chosen[q] == i);
            }
        }
        assert(oldest_entries(logs, chosen, excess(logs.len(), max_log_files as nat)));
        assert(deletes_oldest(logs, max_log_files as nat, strings_view(r@), chosen));
    }
    r
}

} // verus!
