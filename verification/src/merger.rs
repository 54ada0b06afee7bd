//! Merging two directories of numbered images: which images are blended
//! with which, and where each result goes. The blending itself works on
//! floating-point pixel weights and is done outside this library.
use vstd::prelude::*;
use std::collections::BTreeMap;
use crate::paths::{file_name, join, path_file_name, path_join};
use crate::ordered::{entries_in_order, in_key_order};
use crate::filename_handling::string_map_view;

verus! {

/// How many images are merged: as many as the smaller directory holds.
pub fn merge_total(len1: usize, len2: usize) -> (r: usize)
    ensures
        r == if len1 <= len2 { len1 } else { len2 },
{
    if len1 <= len2 {
        len1
    } else {
        len2
    }
}

/// The message when an image of the first directory has no file name.
pub open spec fn missing_name_message() -> Seq<char> {
    "Failed to get file name from directory1"@
}

/// The blends for the images `entries` of the first directory, in order:
/// an image whose number is also in `second` is blended with that image
/// into `output_dir` under its own name; one without a partner is passed
/// over. An image without a file name stops the merge with an error.
pub open spec fn merge_steps(
    entries: Seq<(u32, Seq<char>)>,
    second: Map<u32, Seq<char>>,
    output_dir: Seq<char>,
) -> (Seq<(u32, Seq<char>, Seq<char>, Seq<char>)>, Option<Seq<char>>)
    decreases entries.len(),
{
    if entries.len() == 0 {
        (Seq::empty(), None)
    } else {
        let (k, first) = entries[0];
        let (rest, failure) = merge_steps(entries.drop_first(), second, output_dir);
        if second.contains_key(k) {
            match path_file_name(first) {
                None => (Seq::empty(), Some(missing_name_message())),
                Some(n) => (seq![(k, first, second[k], path_join(output_dir, n))] + rest, failure),
            }
        } else {
            (rest, failure)
        }
    }
}

/// Every blend pairs an image taken from the first directory with the image
/// of the same number in the second, and writes into the output directory
/// under the first image's name; there are no more blends than images
/// taken, and when the images taken are in increasing frame order, so are
/// the blends.
pub proof fn law_merge_pairs_matched(
    entries: Seq<(u32, Seq<char>)>,
    second: Map<u32, Seq<char>>,
    output_dir: Seq<char>,
)
    ensures
        merge_steps(entries, second, output_dir).0.len() <= entries.len(),
        forall|i: int| #![trigger merge_steps(entries, second, output_dir).0[i]]
            0 <= i < merge_steps(entries, second, output_dir).0.len() ==> {
            let p = merge_steps(entries, second, output_dir).0[i];
            &&& second.contains_key(p.0)
            &&& p.2 == second[p.0]
            &&& exists|j: int| 0 <= j < entries.len() && #[trigger] entries[j] == (p.0, p.1)
            &&& path_file_name(p.1) is Some
            &&& p.3 == path_join(output_dir, path_file_name(p.1)->0)
        },
        (forall|a: int, b: int| 0 <= a < b < entries.len() ==> entries[a].0 < entries[b].0) ==> (forall|a: int, b: int|
            0 <= a < b < merge_steps(entries, second, output_dir).0.len() ==> merge_steps(entries, second, output_dir).0[a].0
                < merge_steps(entries, second, output_dir).0[b].0),
    decreases entries.len(),
{
    if entries.len() == 0 {
        return;
    }
    let rest = entries.drop_first();
    law_merge_pairs_matched(rest, second, output_dir);
    let (k, first) = entries[0];
    let tail = merge_steps(rest, second, output_dir).0;
    let all = merge_steps(entries, second, output_dir).0;
    assert forall|j: int| 0 <= j < rest.len() implies #[trigger] rest[j] == entries[j + 1] by {}
    if second.contains_key(k) && path_file_name(first) is Some {
        assert(all == seq![(k, first, second[k], path_join(output_dir, path_file_name(first)->0))] + tail);
        assert forall|i: int| #![trigger all[i]] 0 <= i < all.len() implies {
            let p = all[i];
            &&& second.contains_key(p.0)
            &&& p.2 == second[p.0]
            &&& exists|j: int| 0 <= j < entries.len() && #[trigger] entries[j] == (p.0, p.1)
            &&& path_file_name(p.1) is Some
            &&& p.3 == path_join(output_dir, path_file_name(p.1)->0)
        } by {
            if i == 0 {
                assert(entries[0] == (all[0].0, all[0].1));
            } else {
                assert(all[i] == tail[i - 1]);
                let p = tail[i - 1];
                let j = choose|j: int| 0 <= j < rest.len() && #[trigger] rest[j] == (p.0, p.1);
                assert(entries[j + 1] == (p.0, p.1));
            }
        }
        if forall|a: int, b: int| 0 <= a < b < entries.len() ==> entries[a].0 < entries[b].0 {
            assert forall|a: int, b: int| 0 <= a < b < all.len() implies all[a].0 < all[b].0 by {
                assert(forall|x: int, y: int| 0 <= x < y < rest.len() ==> rest[x].0 < rest[y].0) by {
                    assert forall|x: int, y: int| 0 <= x < y < rest.len() implies rest[x].0 < rest[y].0 by {
                        assert(entries[x + 1].0 < entries[y + 1].0);
                    }
                }
                if a == 0 {
                    let p = tail[b - 1];
                    assert(all[b] == p);
                    let j = choose|j: int| 0 <= j < rest.len() && #[trigger] rest[j] == (p.0, p.1);
                    assert(entries[j + 1].0 == p.0);
                    assert(entries[0].0 < entries[j + 1].0);
                } else {
                    assert(all[a] == tail[a - 1] && all[b] == tail[b - 1]);
                }
            }
        }
    } else if second.contains_key(k) {
        assert(all.len() == 0);
    } else {
        assert(all == tail);
        assert forall|i: int| #![trigger all[i]] 0 <= i < all.len() implies {
            let p = all[i];
            &&& second.contains_key(p.0)
            &&& p.2 == second[p.0]
            &&& exists|j: int| 0 <= j < entries.len() && #[trigger] entries[j] == (p.0, p.1)
            &&& path_file_name(p.1) is Some
            &&& p.3 == path_join(output_dir, path_file_name(p.1)->0)
        } by {
            let p = tail[i];
            let j = choose|j: int| 0 <= j < rest.len() && #[trigger] rest[j] == (p.0, p.1);
            assert(entries[j + 1] == (p.0, p.1));
        }
        if forall|a: int, b: int| 0 <= a < b < entries.len() ==> entries[a].0 < entries[b].0 {
            assert forall|x: int, y: int| 0 <= x < y < rest.len() implies rest[x].0 < rest[y].0 by {
                assert(entries[x + 1].0 < entries[y + 1].0);
            }
        }
    }
}

/// Every image taken whose number is also in the second directory is
/// blended: when the merge does not fail, each such image of the first
/// directory appears in a blend with its partner.
pub proof fn law_merge_complete(
    entries: Seq<(u32, Seq<char>)>,
    second: Map<u32, Seq<char>>,
    output_dir: Seq<char>,
)
    ensures
        merge_steps(entries, second, output_dir).1 is None ==> forall|j: int|
            0 <= j < entries.len() && second.contains_key(#[trigger] entries[j].0) ==> exists|i: int|
                0 <= i < merge_steps(entries, second, output_dir).0.len()
                    && (#[trigger] merge_steps(entries, second, output_dir).0[i]).0 == entries[j].0
                    && merge_steps(entries, second, output_dir).0[i].1 == entries[j].1
                    && merge_steps(entries, second, output_dir).0[i].2 == second[entries[j].0],
    decreases entries.len(),
{
    if entries.len() == 0 {
        return;
    }
    let rest = entries.drop_first();
    law_merge_complete(rest, second, output_dir);
    let (k, first) = entries[0];
    let tail = merge_steps(rest, second, output_dir);
    let all = merge_steps(entries, second, output_dir);
    if all.1 is None {
        assert forall|j: int|
            0 <= j < entries.len() && second.contains_key(#[trigger] entries[j].0) implies exists|i: int|
                0 <= i < all.0.len() && (#[trigger] all.0[i]).0 == entries[j].0 && all.0[i].1 == entries[j].1
                    && all.0[i].2 == second[entries[j].0] by {
            if second.contains_key(k) {
                assert(path_file_name(first) is Some);
                let n = path_file_name(first)->0;
                assert(all.0 == seq![(k, first, second[k], path_join(output_dir, n))] + tail.0);
                if j == 0 {
                    assert(all.0[0].0 == entries[0].0);
                } else {
                    assert(rest[j - 1] == entries[j]);
                    let i = choose|i: int| 0 <= i < tail.0.len() && (#[trigger] tail.0[i]).0 == rest[j - 1].0
                        && tail.0[i].1 == rest[j - 1].1 && tail.0[i].2 == second[rest[j - 1].0];
                    assert(all.0[i + 1] == tail.0[i]);
                }
            } else {
                assert(all.0 == tail.0);
                assert(j != 0);
                assert(rest[j - 1] == entries[j]);
                let i = choose|i: int| 0 <= i < tail.0.len() && (#[trigger] tail.0[i]).0 == rest[j - 1].0
                    && tail.0[i].1 == rest[j - 1].1 && tail.0[i].2 == second[rest[j - 1].0];
                assert(all.0[i] == tail.0[i]);
            }
        }
    }
}

/// One blend: image `number` of the first directory with the image of the
/// same number of the second, into `output`.
#[derive(Debug)]
pub struct MergePair {
    pub number: u32,
    pub first: String,
    pub second: String,
    pub output: String,
}

/// The views of a list of blends.
pub open spec fn pairs_view(v: Seq<MergePair>) -> Seq<(u32, Seq<char>, Seq<char>, Seq<char>)> {
    v.map_values(|p: MergePair| (p.number, p.first@, p.second@, p.output@))
}

/// The merge of two directories: the blends to make, in order, and the
/// error that stops the merge after them, if any.
#[derive(Debug)]
pub struct MergePlan {
    pub pairs: Vec<MergePair>,
    pub failure: Option<String>,
}

/// The merge of the first `total` images of `first` (in frame order) with
/// the images of the same numbers in `second`, into `output_directory`.
pub fn merge_all_images(
    first: &BTreeMap<u32, String>,
    second: &BTreeMap<u32, String>,
    output_directory: &str,
    total: usize,
) -> (r: MergePlan)
    ensures
        ({
            let entries = in_key_order(string_map_view(first@));
            let n = if total <= entries.len() { total as int } else { entries.len() as int };
            let (pairs, failure) = merge_steps(entries.take(n), string_map_view(second@), output_directory@);
            &&& pairs_view(r.pairs@) == pairs
            &&& match failure {
                Some(m) => r.failure matches Some(f) && f@ == m,
                None => r.failure is None,
            }
        }),
{
    broadcast use vstd::std_specs::btree::group_btree_axioms;
    let entries = entries_in_order(first);
    let ghost ev = crate::ordered::entries_view(entries@);
    let ghost sv = string_map_view(second@);
    let n: usize = if total <= entries.len() { total } else { entries.len() };
    let ghost todo = ev.take(n as int);
    let mut pairs: Vec<MergePair> = Vec::new();
    let mut i: usize = 0;
    assert(todo.skip(0) =~= todo);
    assert(pairs_view(pairs@) + merge_steps(todo, sv, output_directory@).0 =~= merge_steps(todo, sv, output_directory@).0);
    while i < n
        invariant
            i <= n <= entries@.len(),
            ev == crate::ordered::entries_view(entries@),
            ev == in_key_order(string_map_view(first@)),
            n == (if total <= ev.len() { total as int } else { ev.len() as int }),
            todo == ev.take(n as int),
            sv == string_map_view(second@),
            pairs_view(pairs@) + merge_steps(todo.skip(i as int), sv, output_directory@).0
                == merge_steps(todo, sv, output_directory@).0,
            merge_steps(todo.skip(i as int), sv, output_directory@).1 == merge_steps(todo, sv, output_directory@).1,
        decreases n - i,
    {
        let ghost rest = todo.skip(i as int);
        assert(rest[0] == ev[i as int]);
        assert(rest.drop_first() =~= todo.skip(i + 1));
        let number = entries[i].0;
        if second.contains_key(&number) {
            let name = match file_name(entries[i].1.as_str()) {
                Some(n) => n,
                None => {
                    assert(merge_steps(rest, sv, output_directory@) == (
                        Seq::<(u32, Seq<char>, Seq<char>, Seq<char>)>::empty(),
                        Some(missing_name_message()),
                    ));
                    assert(pairs_view(pairs@) + Seq::<(u32, Seq<char>, Seq<char>, Seq<char>)>::empty() =~= pairs_view(pairs@));
                    return MergePlan {
                        pairs,
                        failure: Some(String::from_str("Failed to get file name from directory1")),
                    };
                },
            };
            let partner = second.get(&number);
            let partner = match partner {
                Some(p) => p.clone(),
                None => String::new(),
            };
            let ghost before = pairs_view(pairs@);
            pairs.push(MergePair {
                number,
                first: entries[i].1.clone(),
                second: partner,
                output: join(output_directory, name.as_str()),
            });
            assert(pairs_view(pairs@) =~= before.push(
                (number, ev[i as int].1, sv[number], path_join(output_directory@, path_file_name(ev[i as int].1)->0)),
            ));
            assert(before + merge_steps(rest, sv, output_directory@).0 =~= pairs_view(pairs@) + merge_steps(
                todo.skip(i + 1),
                sv,
                output_directory@,
            ).0);
        }
        i = i + 1;
    }
    assert(todo.skip(n as int) =~= Seq::<(u32, Seq<char>)>::empty());
    assert(pairs_view(pairs@) + Seq::<(u32, Seq<char>, Seq<char>, Seq<char>)>::empty() =~= pairs_view(pairs@));
    MergePlan { pairs, failure: None }
}

} // verus!
