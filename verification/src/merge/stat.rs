//! Which files a merge changed, and by how many lines.

use vstd::prelude::*;

use crate::merge::content::{load_merge_blob, BlobStore};
use crate::merge::items::{changed_paths, lookup, union_paths, MergeTreeEntry, TreeItems};
use crate::merge::report::{
    bar, bar_length, file_line_delta, is_line_delta, opt_bytes, sum_deletions, sum_insertions,
    LineDelta, StatRow,
};
use crate::paths::{before, in_order, sort_texts};
use crate::text::texts;

verus! {

/// A file that changed, and how.
#[derive(Debug)]
pub struct FileStat {
    pub path: String,
    pub delta: LineDelta,
}

pub open spec fn stat_paths(files: Seq<FileStat>) -> Seq<Seq<char>> {
    files.map_values(|f: FileStat| f.path@)
}

/// What an entry of a tree holds, where there is one and it can be read.
pub open spec fn entry_data(entry: Option<MergeTreeEntry>, store: BlobStore) -> Option<Seq<u8>> {
    match entry {
        None => None,
        Some(e) => match store.load(e.hash) {
            Ok(data) => Some(data),
            Err(_) => None,
        },
    }
}

/// The file differs between the trees as its entry says.
pub open spec fn is_stat_of(
    file: FileStat,
    before: Map<Seq<char>, MergeTreeEntry>,
    after: Map<Seq<char>, MergeTreeEntry>,
    store: BlobStore,
) -> bool {
    is_line_delta(
        file.delta,
        entry_data(lookup(before, file.path@), store),
        entry_data(lookup(after, file.path@), store),
    )
}

fn entry_bytes(entry: Option<MergeTreeEntry>, store: &BlobStore) -> (r: Option<Vec<u8>>)
    ensures
        opt_bytes(r) == entry_data(entry, *store),
{
    match entry {
        None => None,
        Some(e) => match load_merge_blob(store, e.hash) {
            Ok(data) => {
                let copy = data.clone();
                assert(copy@ =~= data@);
                Some(copy)
            },
            Err(_) => None,
        },
    }
}

/// The files that differ between two trees, each once and in the order of their paths, with the
/// lines that were inserted and deleted. A version that cannot be read counts as one that is not
/// there.
pub fn changed_files(from: &TreeItems, to: &TreeItems, store: &BlobStore) -> (r: Vec<FileStat>)
    requires
        from.wf(),
        to.wf(),
    ensures
        in_order(true, stat_paths(r@)),
        stat_paths(r@).no_duplicates(),
        forall|p: Seq<char>| #[trigger]
            stat_paths(r@).contains(p) <==> changed_paths(from@, to@).contains(p),
        forall|k: int| 0 <= k < r@.len() ==> is_stat_of(#[trigger] r@[k], from@, to@, *store),
{
    let nothing = TreeItems::new();
    let all = union_paths(from, to, &nothing);
    let ghost unsorted = texts(all@);
    let paths = sort_texts(all, true);
    proof {
        unsorted.lemma_multiset_has_no_duplicates();
        texts(paths@).lemma_multiset_has_no_duplicates_conv();
    }
    let mut out: Vec<FileStat> = Vec::new();
    let mut i: usize = 0;
    while i < paths.len()
        invariant
            i <= paths@.len(),
            from.wf(),
            to.wf(),
            in_order(true, texts(paths@)),
            texts(paths@).no_duplicates(),
            forall|k: int| 0 <= k < out@.len() ==> is_stat_of(#[trigger] out@[k], from@, to@, *store),
            forall|k: int|
                0 <= k < out@.len() ==> exists|j: int|
                    0 <= j < i && #[trigger] texts(paths@)[j] == (#[trigger] out@[k]).path@,
            forall|k: int|
                0 <= k < out@.len() ==> lookup(from@, (#[trigger] out@[k]).path@) != lookup(
                    to@,
                    out@[k].path@,
                ),
            forall|j: int|
                0 <= j < i && lookup(from@, #[trigger] texts(paths@)[j]) != lookup(
                    to@,
                    texts(paths@)[j],
                ) ==> stat_paths(out@).contains(texts(paths@)[j]),
            in_order(true, stat_paths(out@)),
            stat_paths(out@).no_duplicates(),
        decreases paths@.len() - i,
    {
        let ghost before_push = out@;
        let path = paths[i].clone();
        assert(texts(paths@)[i as int] == path@);
        let a = from.get_at(path.as_str());
        let b = to.get_at(path.as_str());
        if a != b {
            let old_data = entry_bytes(a, store);
            let new_data = entry_bytes(b, store);
            let delta = file_line_delta(&old_data, &new_data);
            out.push(FileStat { path, delta });
            proof {
                assert forall|k: int| 0 <= k < before_push.len() implies stat_paths(out@)[k]
                    == stat_paths(before_push)[k] by {}
                assert(stat_paths(out@)[before_push.len() as int] == texts(paths@)[i as int]);
                let got = stat_paths(out@);
                assert forall|k: int| 0 <= k < before_push.len() implies #[trigger] got[k]
                    != texts(paths@)[i as int] && !before(true, texts(paths@)[i as int], got[k]) by {
                    assert(before_push[k].path@ == got[k]);
                    let j = choose|j: int|
                        0 <= j < i && #[trigger] texts(paths@)[j] == before_push[k].path@;
                    assert(texts(paths@)[j] == got[k]);
                }
                let had = stat_paths(before_push);
                let last = before_push.len() as int;
                assert(got.len() == last + 1);
                assert forall|x: int, y: int| 0 <= x < y < got.len() implies !before(
                    true,
                    #[trigger] got[y],
                    #[trigger] got[x],
                ) && got[x] != got[y] by {
                    assert(got[x] == had[x]);
                    if y < last {
                        assert(got[y] == had[y]);
                    }
                }
                assert forall|p: Seq<char>| stat_paths(before_push).contains(p) implies stat_paths(
                    out@,
                ).contains(p) by {
                    let k = choose|k: int|
                        0 <= k < stat_paths(before_push).len() && stat_paths(before_push)[k] == p;
                    assert(stat_paths(out@)[k] == p);
                }
            }
        }
        i = i + 1;
    }
    proof {
        let got = stat_paths(out@);
        assert forall|p: Seq<char>| #[trigger]
            got.contains(p) <==> changed_paths(from@, to@).contains(p) by {
            if got.contains(p) {
                let k = choose|k: int| 0 <= k < got.len() && got[k] == p;
                assert(out@[k].path@ == p);
            }
            if changed_paths(from@, to@).contains(p) {
                assert(unsorted.contains(p));
                assert(texts(paths@).contains(p));
                let j = choose|j: int| 0 <= j < texts(paths@).len() && texts(paths@)[j] == p;
                assert(lookup(from@, texts(paths@)[j]) != lookup(to@, texts(paths@)[j]));
            }
        }
    }
    out
}

pub open spec fn file_total(file: FileStat) -> nat {
    (file.delta.insertions + file.delta.deletions) as nat
}

/// How many lines changed in all files.
pub open spec fn sum_changed(files: Seq<FileStat>) -> nat
    decreases files.len(),
{
    if files.len() == 0 {
        0
    } else {
        sum_changed(files.drop_last()) + file_total(files.last())
    }
}

/// The most lines that changed in one file.
pub open spec fn most_changed(files: Seq<FileStat>) -> nat
    decreases files.len(),
{
    if files.len() == 0 {
        0
    } else {
        let head = most_changed(files.drop_last());
        if file_total(files.last()) > head {
            file_total(files.last())
        } else {
            head
        }
    }
}

proof fn lemma_sum_grows(files: Seq<FileStat>, n: int)
    requires
        0 <= n <= files.len(),
    ensures
        sum_changed(files.take(n)) <= sum_changed(files),
    decreases files.len() - n,
{
    if n < files.len() {
        lemma_sum_grows(files, n + 1);
        assert(files.take(n + 1).drop_last() =~= files.take(n));
    } else {
        assert(files.take(n) =~= files);
    }
}

/// How many lines changed in all files, where that can be counted.
pub fn total_changed(files: &Vec<FileStat>) -> (r: Option<usize>)
    ensures
        match r {
            Some(n) => n == sum_changed(files@),
            None => sum_changed(files@) > usize::MAX,
        },
{
    let ghost all = files@;
    let mut total: usize = 0;
    let mut i: usize = 0;
    assert(all.take(0) =~= Seq::<FileStat>::empty());
    while i < files.len()
        invariant
            i <= files@.len(),
            all == files@,
            total == sum_changed(all.take(i as int)),
        decreases files@.len() - i,
    {
        proof {
            assert(all.take(i as int + 1).drop_last() =~= all.take(i as int));
            assert(all.take(i as int + 1).last() == all[i as int]);
            lemma_sum_grows(all, i as int + 1);
        }
        let inserted = match total.checked_add(files[i].delta.insertions) {
            Some(n) => n,
            None => {
                return None;
            },
        };
        total = match inserted.checked_add(files[i].delta.deletions) {
            Some(n) => n,
            None => {
                return None;
            },
        };
        i = i + 1;
    }
    assert(all.take(all.len() as int) =~= all);
    Some(total)
}

/// The most lines that changed in one file: what the longest bar stands for.
pub fn widest_change(files: &Vec<FileStat>) -> (r: usize)
    requires
        sum_changed(files@) <= usize::MAX,
    ensures
        r == most_changed(files@),
{
    let ghost all = files@;
    let mut most: usize = 0;
    let mut i: usize = 0;
    assert(all.take(0) =~= Seq::<FileStat>::empty());
    while i < files.len()
        invariant
            i <= files@.len(),
            all == files@,
            sum_changed(all) <= usize::MAX,
            most == most_changed(all.take(i as int)),
        decreases files@.len() - i,
    {
        proof {
            assert(all.take(i as int + 1).drop_last() =~= all.take(i as int));
            assert(all.take(i as int + 1).last() == all[i as int]);
            lemma_sum_grows(all, i as int + 1);
        }
        let here: usize = files[i].delta.insertions + files[i].delta.deletions;
        if here > most {
            most = here;
        }
        i = i + 1;
    }
    assert(all.take(all.len() as int) =~= all);
    most
}

/// The row shows the file, with bars that are scaled to the widest.
pub open spec fn is_row_of(row: StatRow, file: FileStat, widest: nat, scaled: (usize, usize)) -> bool {
    &&& row.path@ == file.path@
    &&& row.insertions == file.delta.insertions
    &&& row.deletions == file.delta.deletions
    &&& row.binary == file.delta.binary
    &&& row.plus == bar(file.delta.insertions as nat, widest, scaled.0 as nat)
    &&& row.minus == bar(file.delta.deletions as nat, widest, scaled.1 as nat)
}

/// The rows of a diffstat. `scaled` holds, for each file, its insertions and its deletions as a
/// share of the widest bar.
pub fn stat_rows(files: &Vec<FileStat>, scaled: &Vec<(usize, usize)>) -> (r: Vec<StatRow>)
    requires
        scaled@.len() == files@.len(),
        sum_changed(files@) <= usize::MAX,
    ensures
        r@.len() == files@.len(),
        forall|k: int|
            0 <= k < r@.len() ==> is_row_of(
                #[trigger] r@[k],
                files@[k],
                most_changed(files@),
                scaled@[k],
            ),
        sum_insertions(r@) + sum_deletions(r@) == sum_changed(files@),
{
    let widest: usize = widest_change(files);
    let ghost all = files@;
    let mut out: Vec<StatRow> = Vec::new();
    let mut i: usize = 0;
    assert(all.take(0) =~= Seq::<FileStat>::empty());
    while i < files.len()
        invariant
            i <= files@.len(),
            all == files@,
            scaled@.len() == files@.len(),
            widest == most_changed(all),
            out@.len() == i,
            forall|k: int|
                0 <= k < i ==> is_row_of(#[trigger] out@[k], all[k], most_changed(all), scaled@[k]),
            sum_insertions(out@) + sum_deletions(out@) == sum_changed(all.take(i as int)),
        decreases files@.len() - i,
    {
        let ghost before = out@;
        let file = &files[i];
        let (plus, minus) = scaled[i];
        out.push(
            StatRow {
                path: file.path.clone(),
                insertions: file.delta.insertions,
                deletions: file.delta.deletions,
                binary: file.delta.binary,
                plus: bar_length(file.delta.insertions, widest, plus),
                minus: bar_length(file.delta.deletions, widest, minus),
            },
        );
        proof {
            assert(all.take(i as int + 1).drop_last() =~= all.take(i as int));
            assert(all.take(i as int + 1).last() == all[i as int]);
            assert(out@.drop_last() =~= before);
        }
        i = i + 1;
    }
    assert(all.take(all.len() as int) =~= all);
    out
}

/// What is compared of a file is its content on each side, and nothing where it is not there or cannot
/// be read.
pub proof fn law_content_that_is_compared(entry: MergeTreeEntry, store: BlobStore)
    ensures
        entry_data(None, store) is None,
        store.load(entry.hash) matches Ok(data) ==> entry_data(Some(entry), store) == Some(data),
        store.load(entry.hash) is Err ==> entry_data(Some(entry), store) is None,
{
}

/// The lines that changed are counted over all files, and the most that changed in one is that of one of
/// them and no less than any other.
pub proof fn law_changed_lines_are_counted(files: Seq<FileStat>, file: FileStat, k: int)
    ensures
        sum_changed(Seq::empty()) == 0,
        sum_changed(files.push(file)) == sum_changed(files) + file.delta.insertions + file.delta.deletions,
        0 <= k < files.len() ==> most_changed(files) >= files[k].delta.insertions + files[k].delta.deletions,
        files.len() > 0 ==> exists|i: int|
            0 <= i < files.len() && most_changed(files) == (#[trigger] files[i]).delta.insertions
                + files[i].delta.deletions,
    decreases files.len(),
{
    assert(files.push(file).drop_last() =~= files);
    if files.len() > 0 {
        let rest = files.drop_last();
        law_changed_lines_are_counted(rest, files.last(), k);
        if rest.len() > 0 && file_total(files.last()) <= most_changed(rest) {
            let i = choose|i: int|
                0 <= i < rest.len() && most_changed(rest) == (#[trigger] rest[i]).delta.insertions
                    + rest[i].delta.deletions;
            assert(files[i] == rest[i]);
        } else {
            assert(files[files.len() - 1] == files.last());
        }
        if 0 <= k < rest.len() {
            assert(rest[k] == files[k]);
        }
    }
}

/// A row is of the file that it stands for, with its counts, and its bars are drawn from them.
pub proof fn law_row_is_of_its_file(row: StatRow, file: FileStat, widest: nat, scaled: (usize, usize))
    requires
        is_row_of(row, file, widest, scaled),
    ensures
        row.path@ == file.path@,
        row.insertions == file.delta.insertions,
        row.deletions == file.delta.deletions,
        row.binary == file.delta.binary,
        widest <= 60 ==> row.plus == file.delta.insertions && row.minus == file.delta.deletions,
        widest > 60 && file.delta.insertions > 0 && scaled.0 > 0 ==> row.plus == scaled.0,
        widest > 60 && file.delta.deletions > 0 && scaled.1 > 0 ==> row.minus == scaled.1,
{
}

} // verus!
