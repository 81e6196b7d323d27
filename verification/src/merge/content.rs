//! Merging the contents of files, and how alike two files are.

use vstd::multiset::Multiset;
use vstd::prelude::*;

use crate::merge::PullMergeError;
use crate::merge::items::MergeTreeEntry;
use crate::merge::whitespace::{
    canonical_bytes, mode_is_active, utf8_lossy, utf8_lossy_text, WhitespaceMode,
};
use crate::object::{object_id, object_id_of_data, HashKind, ObjectId, TreeItemMode};
use crate::text::{clone_texts, find_text, lines, lines_seq, texts};

verus! {

/// A blob as the object store gave it: its bytes, or why it could not be read.
#[derive(Debug)]
pub struct LoadedBlob {
    pub id: ObjectId,
    pub content: Result<Vec<u8>, String>,
}

/// The blobs that a merge may read.
#[derive(Debug)]
pub struct BlobStore {
    pub blobs: Vec<LoadedBlob>,
}

/// What a list of loaded blobs gives for `id`: the last entry under it counts.
pub open spec fn load_from(blobs: Seq<LoadedBlob>, id: ObjectId) -> Result<Seq<u8>, Seq<char>>
    decreases blobs.len(),
{
    if blobs.len() == 0 {
        Err("object was not supplied"@)
    } else if blobs.last().id == id {
        match blobs.last().content {
            Ok(data) => Ok(data@),
            Err(detail) => Err(detail@),
        }
    } else {
        load_from(blobs.drop_last(), id)
    }
}

/// A blob that could not be read, and why.
pub struct LoadFault {
    pub id: ObjectId,
    pub detail: Seq<char>,
}

pub open spec fn is_load_error(e: PullMergeError, fault: LoadFault) -> bool {
    e matches PullMergeError::ObjectLoad { object_id, detail } && object_id@ == fault.id.text()
        && detail@ == fault.detail
}

impl BlobStore {
    pub open spec fn load(self, id: ObjectId) -> Result<Seq<u8>, Seq<char>> {
        load_from(self.blobs@, id)
    }
}

/// The bytes of the blob `hash`.
pub fn load_merge_blob<'a>(store: &'a BlobStore, hash: ObjectId) -> (r: Result<
    &'a Vec<u8>,
    PullMergeError,
>)
    ensures
        match (r, store.load(hash)) {
            (Ok(data), Ok(bytes)) => data@ == bytes,
            (Err(e), Err(detail)) => is_load_error(e, LoadFault { id: hash, detail }),
            _ => false,
        },
{
    let mut i: usize = store.blobs.len();
    let ghost all = store.blobs@;
    assert(all.take(i as int) =~= all);
    while i > 0
        invariant
            i <= store.blobs@.len(),
            all == store.blobs@,
            load_from(all, hash) == load_from(all.take(i as int), hash),
        decreases i,
    {
        proof {
            assert(all.take(i as int).last() == all[i - 1]);
            assert(all.take(i as int).drop_last() =~= all.take(i - 1));
        }
        if store.blobs[i - 1].id == hash {
            return match &store.blobs[i - 1].content {
                Ok(data) => Ok(data),
                Err(detail) => Err(
                    PullMergeError::ObjectLoad {
                        object_id: hash.to_string(),
                        detail: detail.clone(),
                    },
                ),
            };
        }
        i = i - 1;
    }
    Err(
        PullMergeError::ObjectLoad {
            object_id: hash.to_string(),
            detail: "object was not supplied".to_owned(),
        },
    )
}

/// Whether a blob is binary: it holds a zero byte.
pub open spec fn binary(data: Seq<u8>) -> bool {
    data.contains(0u8)
}

/// Whether `data` holds a zero byte.
pub fn is_binary_blob(data: &[u8]) -> (r: bool)
    ensures
        r == binary(data@),
{
    let mut i: usize = 0;
    while i < data.len()
        invariant
            i <= data@.len(),
            forall|j: int| 0 <= j < i ==> data@[j] != 0u8,
        decreases data@.len() - i,
    {
        if data[i] == 0 {
            assert(data@[i as int] == 0u8);
            return true;
        }
        i = i + 1;
    }
    false
}

/// The lines of a blob's text.
pub fn bytes_to_lines(data: &[u8]) -> (r: Vec<String>)
    ensures
        texts(r@) == lines_seq(utf8_lossy_text(data@)),
{
    let text = utf8_lossy(data);
    lines(text.as_str())
}

pub open spec fn is_file_mode(mode: TreeItemMode) -> bool {
    mode == TreeItemMode::Blob || mode == TreeItemMode::BlobExecutable
}

fn mode_is_file(mode: TreeItemMode) -> (r: bool)
    ensures
        r == is_file_mode(mode),
{
    mode == TreeItemMode::Blob || mode == TreeItemMode::BlobExecutable
}

/// What `diffy::merge_bytes` returns: the merged bytes, or the bytes with conflict markers.
pub uninterp spec fn three_way_bytes(
    base: Seq<u8>,
    ours: Seq<u8>,
    theirs: Seq<u8>,
) -> Result<Seq<u8>, Seq<u8>>;

/// `diffy::merge_bytes`: the line-based three-way merge of `ours` and `theirs` over `base`,
/// named [`three_way_bytes`].
#[verifier::external_body]
fn merge_bytes(base: &[u8], ours: &[u8], theirs: &[u8]) -> (r: Result<Vec<u8>, Vec<u8>>)
    ensures
        match r {
            Ok(merged) => three_way_bytes(base@, ours@, theirs@) == Ok::<Seq<u8>, Seq<u8>>(merged@),
            Err(marked) => three_way_bytes(base@, ours@, theirs@) == Err::<Seq<u8>, Seq<u8>>(
                marked@,
            ),
        },
{
    diffy::merge_bytes(base, ours, theirs)
}

/// The name of the blob that holds `content`.
pub open spec fn blob_id(kind: HashKind, content: Seq<u8>) -> ObjectId {
    object_id(kind, "blob"@, content)
}

/// How two changed versions of a file come together.
#[derive(Debug, Clone, Copy, PartialEq, Eq, Structural)]
pub enum ContentMerge {
    /// No merge of the texts is tried.
    Unmergeable,
    TakeOurs,
    TakeTheirs,
    /// The texts are merged line by line.
    Textual,
}

/// How the contents come together: binary files are not merged; where white space is
/// ignored, a side whose only change is white space yields to the other.
pub open spec fn content_plan(
    whitespace: WhitespaceMode,
    base: Seq<u8>,
    ours: Seq<u8>,
    theirs: Seq<u8>,
) -> ContentMerge {
    if binary(base) || binary(ours) || binary(theirs) {
        ContentMerge::Unmergeable
    } else if !mode_is_active(whitespace) {
        ContentMerge::Textual
    } else if canonical_bytes(whitespace, ours) == canonical_bytes(whitespace, theirs) {
        ContentMerge::TakeOurs
    } else if canonical_bytes(whitespace, ours) == canonical_bytes(whitespace, base) {
        ContentMerge::TakeTheirs
    } else if canonical_bytes(whitespace, theirs) == canonical_bytes(whitespace, base) {
        ContentMerge::TakeOurs
    } else {
        ContentMerge::Textual
    }
}

fn bytes_eq(a: &Vec<u8>, b: &Vec<u8>) -> (r: bool)
    ensures
        r == (a@ == b@),
{
    if a.len() != b.len() {
        return false;
    }
    let mut i: usize = 0;
    while i < a.len()
        invariant
            a@.len() == b@.len(),
            i <= a@.len(),
            forall|j: int| 0 <= j < i ==> a@[j] == b@[j],
        decreases a@.len() - i,
    {
        if a[i] != b[i] {
            return false;
        }
        i = i + 1;
    }
    assert(a@ =~= b@);
    true
}

/// How the contents of two changed versions of a file come together.
pub fn plan_content_merge(
    whitespace: WhitespaceMode,
    base: &[u8],
    ours: &[u8],
    theirs: &[u8],
) -> (r: ContentMerge)
    ensures
        r == content_plan(whitespace, base@, ours@, theirs@),
{
    if is_binary_blob(base) || is_binary_blob(ours) || is_binary_blob(theirs) {
        return ContentMerge::Unmergeable;
    }
    if whitespace.is_active() {
        let base_norm = whitespace.canonicalize(base);
        let ours_norm = whitespace.canonicalize(ours);
        let theirs_norm = whitespace.canonicalize(theirs);
        if bytes_eq(&ours_norm, &theirs_norm) {
            return ContentMerge::TakeOurs;
        }
        if bytes_eq(&ours_norm, &base_norm) {
            return ContentMerge::TakeTheirs;
        }
        if bytes_eq(&theirs_norm, &base_norm) {
            return ContentMerge::TakeOurs;
        }
    }
    ContentMerge::Textual
}

/// The outcome of merging two changed versions of one file, `None` where they conflict.
pub open spec fn merged_entry(
    base: MergeTreeEntry,
    ours: MergeTreeEntry,
    theirs: MergeTreeEntry,
    whitespace: WhitespaceMode,
    store: BlobStore,
    kind: HashKind,
) -> Result<Option<MergeTreeEntry>, LoadFault> {
    if base.mode != ours.mode || base.mode != theirs.mode || !is_file_mode(base.mode) {
        Ok(None)
    } else {
        match (store.load(base.hash), store.load(ours.hash), store.load(theirs.hash)) {
            (Err(detail), _, _) => Err(LoadFault { id: base.hash, detail }),
            (Ok(_), Err(detail), _) => Err(LoadFault { id: ours.hash, detail }),
            (Ok(_), Ok(_), Err(detail)) => Err(LoadFault { id: theirs.hash, detail }),
            (Ok(b), Ok(o), Ok(t)) => Ok(
                match content_plan(whitespace, b, o, t) {
                    ContentMerge::Unmergeable => None,
                    ContentMerge::TakeOurs => Some(ours),
                    ContentMerge::TakeTheirs => Some(theirs),
                    ContentMerge::Textual => match three_way_bytes(b, o, t) {
                        Ok(merged) => Some(
                            MergeTreeEntry { hash: blob_id(kind, merged), mode: ours.mode },
                        ),
                        Err(_) => None,
                    },
                },
            ),
        }
    }
}

/// A blob that a merge made, to be written to the object store.
#[derive(Debug)]
pub struct NewBlob {
    pub id: ObjectId,
    pub content: Vec<u8>,
}

/// Every new blob stands under its own name.
pub open spec fn blobs_named(kind: HashKind, blobs: Seq<NewBlob>) -> bool {
    forall|i: int|
        0 <= i < blobs.len() ==> (#[trigger] blobs[i]).id == blob_id(kind, blobs[i].content@)
}

pub open spec fn blob_listed(blobs: Seq<NewBlob>, id: ObjectId) -> bool {
    exists|i: int| 0 <= i < blobs.len() && (#[trigger] blobs[i]).id == id
}

/// The entry for a textual merge: the merged file under the mode of `ours`, or `None` where
/// the texts conflict. The merged blob is added to `new_blobs`.
pub fn merged_text_entry(
    ours: MergeTreeEntry,
    merged: Result<Vec<u8>, Vec<u8>>,
    kind: HashKind,
    new_blobs: &mut Vec<NewBlob>,
) -> (r: Option<MergeTreeEntry>)
    requires
        blobs_named(kind, old(new_blobs)@),
    ensures
        match merged {
            Ok(bytes) => r == Some(
                MergeTreeEntry { hash: blob_id(kind, bytes@), mode: ours.mode },
            ) && final(new_blobs)@.len() == old(new_blobs)@.len() + 1 && final(new_blobs)@.drop_last() == old(new_blobs)@ && final(new_blobs)@.last().content@ == bytes@,
            Err(_) => r is None && final(new_blobs)@ == old(new_blobs)@,
        },
        blobs_named(kind, final(new_blobs)@),
{
    match merged {
        Ok(bytes) => {
            let id = object_id_of_data(kind, "blob", &bytes);
            let ghost before = new_blobs@;
            new_blobs.push(NewBlob { id, content: bytes });
            proof {
                assert(new_blobs@.drop_last() =~= before);
                assert forall|i: int| 0 <= i < new_blobs@.len() implies (#[trigger] new_blobs@[i]).id
                    == blob_id(kind, new_blobs@[i].content@) by {
                    if i < before.len() {
                        assert(new_blobs@[i] == before[i]);
                    }
                }
            }
            Some(MergeTreeEntry { hash: id, mode: ours.mode })
        },
        Err(_) => None,
    }
}

/// Merges the contents of two changed versions of one file.
///
/// `None` where the versions conflict. A blob that the merge makes is added to `new_blobs`.
pub fn try_merge_blob_contents(
    base: MergeTreeEntry,
    ours: MergeTreeEntry,
    theirs: MergeTreeEntry,
    whitespace: WhitespaceMode,
    store: &BlobStore,
    kind: HashKind,
    new_blobs: &mut Vec<NewBlob>,
) -> (r: Result<Option<MergeTreeEntry>, PullMergeError>)
    requires
        blobs_named(kind, old(new_blobs)@),
    ensures
        match (r, merged_entry(base, ours, theirs, whitespace, *store, kind)) {
            (Ok(got), Ok(want)) => got == want,
            (Err(e), Err(fault)) => is_load_error(e, fault),
            _ => false,
        },
        blobs_named(kind, final(new_blobs)@),
        r matches Ok(Some(entry)) ==> entry == ours || entry == theirs || blob_listed(
            final(new_blobs)@,
            entry.hash,
        ),
        forall|id: ObjectId| blob_listed(old(new_blobs)@, id) ==> blob_listed(final(new_blobs)@, id),
{
    if base.mode != ours.mode || base.mode != theirs.mode || !mode_is_file(base.mode) {
        return Ok(None);
    }
    let base_data = match load_merge_blob(store, base.hash) {
        Ok(data) => data,
        Err(e) => return Err(e),
    };
    let ours_data = match load_merge_blob(store, ours.hash) {
        Ok(data) => data,
        Err(e) => return Err(e),
    };
    let theirs_data = match load_merge_blob(store, theirs.hash) {
        Ok(data) => data,
        Err(e) => return Err(e),
    };
    match plan_content_merge(
        whitespace,
        base_data.as_slice(),
        ours_data.as_slice(),
        theirs_data.as_slice(),
    ) {
        ContentMerge::Unmergeable => Ok(None),
        ContentMerge::TakeOurs => Ok(Some(ours)),
        ContentMerge::TakeTheirs => Ok(Some(theirs)),
        ContentMerge::Textual => {
            let merged = merge_bytes(
                base_data.as_slice(),
                ours_data.as_slice(),
                theirs_data.as_slice(),
            );
            let ghost before = new_blobs@;
            let entry = merged_text_entry(ours, merged, kind, new_blobs);
            proof {
                assert forall|id: ObjectId| blob_listed(before, id) implies blob_listed(
                    new_blobs@,
                    id,
                ) by {
                    let i = choose|i: int| 0 <= i < before.len() && (#[trigger] before[i]).id == id;
                    if new_blobs@.len() > before.len() {
                        assert(new_blobs@.drop_last()[i] == new_blobs@[i]);
                    }
                    assert(new_blobs@[i].id == id);
                }
                if entry is Some {
                    let last = new_blobs@.len() - 1;
                    assert(new_blobs@[last].id == entry->0.hash);
                }
            }
            Ok(entry)
        },
    }
}

/// How alike two files are: twice `common` out of `total`.
#[derive(Debug, Clone, Copy, PartialEq, Eq, Structural)]
pub struct Similarity {
    pub common: u64,
    pub total: u128,
}

impl Similarity {
    /// The files are alike by half at least.
    pub open spec fn at_least_half(self) -> bool {
        4 * self.common >= self.total
    }

    /// These files are more alike than those that `other` is about.
    pub open spec fn above(self, other: Similarity) -> bool {
        self.common * other.total > other.common * self.total
    }

    /// The number is at most one, and its parts stay within what a pair of lists can have.
    pub open spec fn wf(self) -> bool {
        0 < self.total <= 0x1_ffff_ffff_ffff_fffe && 2 * self.common <= self.total
    }

    pub fn reaches_half(&self) -> (r: bool)
        ensures
            r == self.at_least_half(),
    {
        4 * (self.common as u128) >= self.total
    }

    /// Whether these files are more alike than those that `other` is about.
    pub fn is_above(&self, other: &Similarity) -> (r: bool)
        requires
            self.wf(),
            other.wf(),
        ensures
            r == self.above(*other),
    {
        let c1: u128 = self.common as u128;
        let c2: u128 = other.common as u128;
        let h1: u128 = self.total / 2;
        let h2: u128 = other.total / 2;
        let r1: u128 = self.total % 2;
        let r2: u128 = other.total % 2;
        proof {
            assert(c1 * other.total == 2 * (c1 * h2) + c1 * r2) by (nonlinear_arith)
                requires
                    other.total == 2 * h2 + r2,
            ;
            assert(c2 * self.total == 2 * (c2 * h1) + c2 * r1) by (nonlinear_arith)
                requires
                    self.total == 2 * h1 + r1,
            ;
            assert(0 <= c1 * h2 <= 0xffff_ffff_ffff_ffff * 0xffff_ffff_ffff_ffff) by (nonlinear_arith)
                requires
                    0 <= c1 <= 0xffff_ffff_ffff_ffff,
                    0 <= h2 <= 0xffff_ffff_ffff_ffff,
            ;
            assert(0 <= c2 * h1 <= 0xffff_ffff_ffff_ffff * 0xffff_ffff_ffff_ffff) by (nonlinear_arith)
                requires
                    0 <= c2 <= 0xffff_ffff_ffff_ffff,
                    0 <= h1 <= 0xffff_ffff_ffff_ffff,
            ;
            assert(0 <= c1 * r2 <= c1) by (nonlinear_arith)
                requires
                    0 <= c1,
                    0 <= r2 <= 1,
            ;
            assert(0 <= c2 * r1 <= c2) by (nonlinear_arith)
                requires
                    0 <= c2,
                    0 <= r1 <= 1,
            ;
        }
        let x: u128 = c1 * h2;
        let y: u128 = c2 * h1;
        let u: u128 = c1 * r2;
        let v: u128 = c2 * r1;
        if x >= y {
            let d: u128 = x - y;
            d > 0xffff_ffff_ffff_ffff || 2 * d + u > v
        } else {
            let d: u128 = y - x;
            d <= 0xffff_ffff_ffff_ffff && u > 2 * d + v
        }
    }
}

/// The number of lines that two lists have in common, counted with multiplicity.
pub open spec fn common_lines(a: Seq<Seq<char>>, b: Seq<Seq<char>>) -> nat {
    a.to_multiset().intersection_with(b.to_multiset()).len()
}

proof fn lemma_intersection_step(a: Multiset<Seq<char>>, b: Multiset<Seq<char>>, x: Seq<char>)
    ensures
        a.intersection_with(b).count(x) <= a.count(x),
        a.intersection_with(b).count(x) < a.count(x) ==> a.intersection_with(b.insert(x))
            == a.intersection_with(b).insert(x),
        a.intersection_with(b).count(x) == a.count(x) ==> a.intersection_with(b.insert(x))
            == a.intersection_with(b),
{
    broadcast use {
        vstd::multiset::group_multiset_axioms,
        vstd::multiset::lemma_intersection_count,
    };

    if a.intersection_with(b).count(x) < a.count(x) {
        assert(a.intersection_with(b.insert(x)) =~= a.intersection_with(b).insert(x));
    } else {
        assert(a.intersection_with(b.insert(x)) =~= a.intersection_with(b));
    }
}

/// Counts the lines that two lists have in common.
pub fn count_common_lines(a: &Vec<String>, b: &Vec<String>) -> (r: usize)
    ensures
        r == common_lines(texts(a@), texts(b@)),
        r <= a@.len(),
        r <= b@.len(),
{
    let mut rest: Vec<String> = clone_texts(a);
    let ghost ma = texts(a@).to_multiset();
    let ghost all = texts(b@);
    let mut n: usize = 0;
    let mut i: usize = 0;
    proof {
        broadcast use {
            vstd::multiset::group_multiset_axioms,
            vstd::multiset::lemma_intersection_count,
        };

        assert(all.take(0) =~= Seq::<Seq<char>>::empty());
        vstd::seq_lib::to_multiset_len(all.take(0));
        assert(all.take(0).to_multiset() =~= Multiset::empty()) by {
            assert forall|x: Seq<char>| all.take(0).to_multiset().count(x) == 0 by {
                vstd::seq_lib::to_multiset_contains(all.take(0), x);
            }
        }
        assert(ma.intersection_with(all.take(0).to_multiset()) =~= Multiset::empty());
    }
    while i < b.len()
        invariant
            i <= b@.len(),
            all == texts(b@),
            n <= i,
            n + rest@.len() == a@.len(),
            n == ma.intersection_with(all.take(i as int).to_multiset()).len(),
            forall|x: Seq<char>|
                #![trigger ma.count(x)]
                #![trigger texts(rest@).to_multiset().count(x)]
                texts(rest@).to_multiset().count(x) == ma.count(x) - ma.intersection_with(
                    all.take(i as int).to_multiset(),
                ).count(x),
        decreases b@.len() - i,
    {
        let ghost here = b@[i as int]@;
        let ghost bi = all.take(i as int).to_multiset();
        let ghost both = ma.intersection_with(bi);
        let ghost before = texts(rest@);
        proof {
            assert(all.take(i as int + 1) =~= all.take(i as int).push(here));
            vstd::seq_lib::to_multiset_build(all.take(i as int), here);
            vstd::seq_lib::to_multiset_contains(before, here);
            lemma_intersection_step(ma, bi, here);
            assert(before.to_multiset().count(here) == ma.count(here) - both.count(here));
        }
        match find_text(&rest, b[i].as_str()) {
            Some(k) => {
                proof {
                    assert(before[k as int] == here);
                    assert(before.contains(here));
                }
                let _gone = rest.remove(k);
                n = n + 1;
                proof {
                    broadcast use vstd::multiset::group_multiset_axioms;

                    assert(texts(rest@) =~= before.remove(k as int));
                    vstd::seq_lib::to_multiset_remove(before, k as int);
                    assert forall|x: Seq<char>|
                        #![trigger ma.count(x)]
                        texts(rest@).to_multiset().count(x) == ma.count(x) - both.insert(here).count(
                            x,
                        ) by {
                        assert(before.to_multiset().count(x) == ma.count(x) - both.count(x));
                    }
                }
            },
            None => {},
        }
        i = i + 1;
    }
    proof {
        assert(all.take(all.len() as int) =~= all);
    }
    n
}

/// How alike the files at two entries are: equal names are fully alike, a binary file or one
/// that is not a regular file is like no other, else twice the common lines out of all lines.
pub open spec fn similarity(
    a: MergeTreeEntry,
    b: MergeTreeEntry,
    store: BlobStore,
) -> Result<Similarity, LoadFault> {
    if a.hash == b.hash {
        Ok(Similarity { common: 1, total: 2 })
    } else if !is_file_mode(a.mode) || !is_file_mode(b.mode) {
        Ok(Similarity { common: 0, total: 2 })
    } else {
        match (store.load(a.hash), store.load(b.hash)) {
            (Err(detail), _) => Err(LoadFault { id: a.hash, detail }),
            (Ok(_), Err(detail)) => Err(LoadFault { id: b.hash, detail }),
            (Ok(da), Ok(db)) => Ok(line_similarity(da, db)),
        }
    }
}

/// How alike two contents are.
pub open spec fn line_similarity(a: Seq<u8>, b: Seq<u8>) -> Similarity {
    let la = lines_seq(utf8_lossy_text(a));
    let lb = lines_seq(utf8_lossy_text(b));
    if binary(a) || binary(b) {
        Similarity { common: 0, total: 2 }
    } else if la.len() == 0 && lb.len() == 0 {
        Similarity { common: 1, total: 2 }
    } else {
        Similarity {
            common: common_lines(la, lb) as u64,
            total: (la.len() + lb.len()) as u128,
        }
    }
}

/// How alike two contents are.
pub fn similarity_of_contents(a: &[u8], b: &[u8]) -> (r: Similarity)
    ensures
        r == line_similarity(a@, b@),
        r.wf(),
{
    if is_binary_blob(a) || is_binary_blob(b) {
        return Similarity { common: 0, total: 2 };
    }
    let la = bytes_to_lines(a);
    let lb = bytes_to_lines(b);
    if la.is_empty() && lb.is_empty() {
        return Similarity { common: 1, total: 2 };
    }
    let common: usize = count_common_lines(&la, &lb);
    Similarity { common: common as u64, total: la.len() as u128 + lb.len() as u128 }
}

/// How alike the files at two entries are.
pub fn content_similarity(a: &MergeTreeEntry, b: &MergeTreeEntry, store: &BlobStore) -> (r: Result<
    Similarity,
    PullMergeError,
>)
    ensures
        match (r, similarity(*a, *b, *store)) {
            (Ok(got), Ok(want)) => got == want && got.wf(),
            (Err(e), Err(fault)) => is_load_error(e, fault),
            _ => false,
        },
{
    if a.hash == b.hash {
        return Ok(Similarity { common: 1, total: 2 });
    }
    if !mode_is_file(a.mode) || !mode_is_file(b.mode) {
        return Ok(Similarity { common: 0, total: 2 });
    }
    let a_data = match load_merge_blob(store, a.hash) {
        Ok(data) => data,
        Err(e) => return Err(e),
    };
    let b_data = match load_merge_blob(store, b.hash) {
        Ok(data) => data,
        Err(e) => return Err(e),
    };
    Ok(similarity_of_contents(a_data.as_slice(), b_data.as_slice()))
}

/// A blob is read as it was last supplied, and one that was not supplied cannot be read.
pub proof fn law_blob_is_read_as_supplied(blobs: Seq<LoadedBlob>, blob: LoadedBlob, id: ObjectId)
    ensures
        load_from(Seq::empty(), id) is Err,
        blob.content matches Ok(data) ==> load_from(blobs.push(blob), blob.id) == Ok::<Seq<u8>, Seq<char>>(
            data@,
        ),
        blob.content matches Err(why) ==> load_from(blobs.push(blob), blob.id) == Err::<Seq<u8>, Seq<char>>(
            why@,
        ),
        id != blob.id ==> load_from(blobs.push(blob), id) == load_from(blobs, id),
{
    assert(blobs.push(blob).drop_last() =~= blobs);
}

/// Contents are merged line by line unless one of them is binary. Where white space is to be ignored,
/// sides that differ in it alone are one, and a side that differs from the base in it alone gives way.
pub proof fn law_how_contents_are_merged(
    whitespace: WhitespaceMode,
    base: Seq<u8>,
    ours: Seq<u8>,
    theirs: Seq<u8>,
)
    ensures
        ({
            let plan = content_plan(whitespace, base, ours, theirs);
            let text = !base.contains(0u8) && !ours.contains(0u8) && !theirs.contains(0u8);
            let o = canonical_bytes(whitespace, ours);
            let t = canonical_bytes(whitespace, theirs);
            let b = canonical_bytes(whitespace, base);
            &&& !text <==> plan is Unmergeable
            &&& text && !mode_is_active(whitespace) ==> plan is Textual
            &&& text && mode_is_active(whitespace) ==> {
                &&& o == t ==> plan is TakeOurs
                &&& o != t && o == b ==> plan is TakeTheirs
                &&& o != t && t == b ==> plan is TakeOurs
                &&& o != t && o != b && t != b ==> plan is Textual
            }
        }),
{
}

/// What a merge of contents comes to: nothing where the sides are not files of one mode, an error where
/// one cannot be read, one of the sides where the other gives way, and else the merged text, named by
/// what it holds, where there is one.
pub proof fn law_merged_content(
    base: MergeTreeEntry,
    ours: MergeTreeEntry,
    theirs: MergeTreeEntry,
    whitespace: WhitespaceMode,
    store: BlobStore,
    kind: HashKind,
)
    ensures
        ({
            let r = merged_entry(base, ours, theirs, whitespace, store, kind);
            let files = base.mode == ours.mode && base.mode == theirs.mode && (base.mode
                == TreeItemMode::Blob || base.mode == TreeItemMode::BlobExecutable);
            &&& !files ==> r == Ok::<Option<MergeTreeEntry>, LoadFault>(None)
            &&& files ==> (r is Err <==> store.load(base.hash) is Err || store.load(ours.hash) is Err
                || store.load(theirs.hash) is Err)
            &&& files ==> (store.load(base.hash) matches Ok(b) ==> (store.load(ours.hash) matches Ok(o) ==> (
            store.load(theirs.hash) matches Ok(t) ==> match content_plan(whitespace, b, o, t) {
                ContentMerge::Unmergeable => r == Ok::<Option<MergeTreeEntry>, LoadFault>(None),
                ContentMerge::TakeOurs => r == Ok::<Option<MergeTreeEntry>, LoadFault>(Some(ours)),
                ContentMerge::TakeTheirs => r == Ok::<Option<MergeTreeEntry>, LoadFault>(Some(theirs)),
                ContentMerge::Textual => match three_way_bytes(b, o, t) {
                    Ok(text) => r matches Ok(Some(e)) && e.hash == object_id(kind, "blob"@, text) && e.mode
                        == ours.mode,
                    Err(_) => r == Ok::<Option<MergeTreeEntry>, LoadFault>(None),
                },
            })))
        }),
{
}

/// Two entries with one content are wholly alike; others are as alike as the part of their lines that
/// they have in common, and not at all where one is no text.
pub proof fn law_likeness_of_contents(a: Seq<u8>, b: Seq<u8>, x: MergeTreeEntry, y: MergeTreeEntry, store: BlobStore)
    ensures
        ({
            let la = lines_seq(utf8_lossy_text(a));
            let lb = lines_seq(utf8_lossy_text(b));
            let s = line_similarity(a, b);
            &&& a.contains(0u8) || b.contains(0u8) ==> s.common == 0 && s.total == 2
            &&& !a.contains(0u8) && !b.contains(0u8) && la.len() + lb.len() == 0 ==> s.common == 1 && s.total
                == 2
            &&& !a.contains(0u8) && !b.contains(0u8) && la.len() + lb.len() > 0 ==> s.common
                == la.to_multiset().intersection_with(lb.to_multiset()).len() as u64 && s.total == (la.len()
                + lb.len()) as u128
        }),
        x.hash == y.hash ==> (similarity(x, y, store) matches Ok(s) && 2 * s.common == s.total),
        x.hash != y.hash && (!is_file_mode(x.mode) || !is_file_mode(y.mode)) ==> (similarity(x, y, store) matches Ok(
            s,
        ) && s.common == 0),
        x.hash != y.hash && is_file_mode(x.mode) && is_file_mode(y.mode) ==> (store.load(x.hash) matches Ok(dx)
            ==> (store.load(y.hash) matches Ok(dy) ==> similarity(x, y, store) == Ok::<Similarity, LoadFault>(
            line_similarity(dx, dy),
        ))),
{
}

/// Of two likenesses one reaches half where twice its common part is at least half of the whole, and
/// they are compared as fractions.
pub proof fn law_likeness_is_a_fraction(a: Similarity, b: Similarity)
    ensures
        a.at_least_half() <==> 2 * (2 * a.common) >= a.total,
        a.above(b) <==> (2 * a.common) * b.total > (2 * b.common) * a.total,
        !a.above(a),
{
    assert((2 * a.common) * b.total == 2 * (a.common * b.total)) by (nonlinear_arith);
    assert((2 * b.common) * a.total == 2 * (b.common * a.total)) by (nonlinear_arith);
}

/// A file is a plain one or one that can be run.
pub proof fn law_modes_of_files(mode: TreeItemMode)
    ensures
        is_file_mode(mode) <==> mode == TreeItemMode::Blob || mode == TreeItemMode::BlobExecutable,
{
}

} // verus!
