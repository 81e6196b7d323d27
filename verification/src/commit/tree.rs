//! The tree objects of what is staged.

use git_internal::internal::index::Index;
use vstd::prelude::*;

use crate::commit::{CommitError, CommitErrorView};
use crate::merge::staging::{is_stage, tracked_entries, StagedFile};
use crate::object::{is_object_text, object_id_of_text, HashKind, ObjectId, TreeItemMode};
use crate::paths::{components_of, path_components};
use crate::text::{clone_texts, concat2, concat4, contains_text, octal, octal_text, text_eq, texts};
use crate::tree::{
    all_written, build_tree, file_views, found, item_views, law_built_tree_holds_every_file,
    root_items, subtrees_listed, tree_id, trees_named, NewTree, TreeFile, TreeFileView,
};

verus! {

/// The mode that octal digits write in a tree.
pub open spec fn tree_mode(digits: Seq<char>) -> Option<TreeItemMode> {
    if digits == "40000"@ {
        Some(TreeItemMode::Tree)
    } else if digits == "100644"@ || digits == "100664"@ || digits == "100640"@ {
        Some(TreeItemMode::Blob)
    } else if digits == "100755"@ {
        Some(TreeItemMode::BlobExecutable)
    } else if digits == "120000"@ {
        Some(TreeItemMode::Link)
    } else if digits == "160000"@ {
        Some(TreeItemMode::Commit)
    } else {
        None
    }
}

/// `TreeItemMode::tree_item_type_from_bytes`: the modes that trees know, two of which older
/// trees wrote for a plain file; any other is refused.
#[verifier::external_body]
fn tree_item_type(digits: &str) -> (r: Result<TreeItemMode, String>)
    ensures
        match r {
            Ok(mode) => tree_mode(digits@) == Some(mode),
            Err(e) => tree_mode(digits@) is None && e@ == "The `"@ + digits@
                + "` is not a valid git tree item."@,
        },
{
    match git_internal::internal::object::tree::TreeItemMode::tree_item_type_from_bytes(digits.as_bytes()) {
        Ok(git_internal::internal::object::tree::TreeItemMode::Blob) => Ok(TreeItemMode::Blob),
        Ok(git_internal::internal::object::tree::TreeItemMode::BlobExecutable) => Ok(TreeItemMode::BlobExecutable),
        Ok(git_internal::internal::object::tree::TreeItemMode::Tree) => Ok(TreeItemMode::Tree),
        Ok(git_internal::internal::object::tree::TreeItemMode::Commit) => Ok(TreeItemMode::Commit),
        Ok(git_internal::internal::object::tree::TreeItemMode::Link) => Ok(TreeItemMode::Link),
        Err(error) => Err(error.to_string()),
    }
}

/// How `std` shows a path for debugging.
pub uninterp spec fn path_debug_text(path: Seq<char>) -> Seq<char>;

/// The `Debug` form of `std::path::Path`: quoted, with what cannot be shown escaped.
#[verifier::external_body]
fn path_debug(path: &str) -> (r: String)
    ensures
        r@ == path_debug_text(path@),
{
    format!("{:?}", std::path::Path::new(path))
}

/// A staged file with the components of its path.
#[derive(Debug)]
struct IndexFile {
    name: String,
    parts: Vec<String>,
    mode: u32,
}

/// A staged file: its path, the components of that, and its mode.
pub struct IndexFileView {
    pub name: Seq<char>,
    pub parts: Seq<Seq<char>>,
    pub mode: u32,
}

impl View for IndexFile {
    type V = IndexFileView;

    closed spec fn view(&self) -> IndexFileView {
        IndexFileView { name: self.name@, parts: texts(self.parts@), mode: self.mode }
    }
}

spec fn index_views(v: Seq<IndexFile>) -> Seq<IndexFileView> {
    v.map_values(|f: IndexFile| f@)
}

pub open spec fn staged_views(files: Seq<StagedFile>) -> Seq<IndexFileView> {
    files.map_values(
        |f: StagedFile|
            IndexFileView { name: f.name@, parts: path_components(f.name@), mode: f.mode },
    )
}

/// Whether a component is a name that a file can have.
pub open spec fn is_normal(part: Seq<char>) -> bool {
    part != "/"@ && part != "."@ && part != ".."@
}

/// What is wrong with a file that stands directly in a directory.
pub open spec fn entry_fault(f: IndexFileView) -> Option<Seq<char>> {
    if !is_normal(f.parts.last()) {
        Some("invalid filename in path: "@ + path_debug_text(f.name))
    } else if tree_mode(octal(f.mode as nat)) is None {
        Some(
            "invalid mode for "@ + f.name + ": "@ + ("The `"@ + octal(f.mode as nat)
                + "` is not a valid git tree item."@),
        )
    } else {
        None
    }
}

/// The names of the directories at `depth` below which a file stands.
pub open spec fn dir_names(files: Seq<IndexFileView>, depth: nat) -> Seq<Seq<char>>
    decreases files.len(),
{
    if files.len() == 0 {
        Seq::empty()
    } else {
        let head = dir_names(files.drop_last(), depth);
        let f = files.last();
        if f.parts.len() > depth + 1 && !head.contains(f.parts[depth as int]) {
            head.push(f.parts[depth as int])
        } else {
            head
        }
    }
}

/// The files whose path goes through `name` at `depth`, or ends there.
pub open spec fn files_through(files: Seq<IndexFileView>, depth: nat, name: Seq<char>) -> Seq<
    IndexFileView,
>
    decreases files.len(),
{
    if files.len() == 0 {
        Seq::empty()
    } else {
        let head = files_through(files.drop_last(), depth, name);
        let f = files.last();
        if f.parts.len() > depth && f.parts[depth as int] == name {
            head.push(f)
        } else {
            head
        }
    }
}

/// The first fault among the first `n` files of the directory at `depth`: directories are gone
/// into where their first file stands. A path that is itself such a directory cannot be stored,
/// unless it has one component, when it is passed over.
pub open spec fn scan_fault(files: Seq<IndexFileView>, depth: nat, levels: nat, n: nat) -> Option<
    Seq<char>,
>
    decreases levels, n,
{
    if n == 0 || n > files.len() {
        None
    } else {
        match scan_fault(files, depth, levels, (n - 1) as nat) {
            Some(e) => Some(e),
            None => {
                let f = files[n - 1];
                if f.parts.len() == 0 || f.parts == seq!["/"@] {
                    Some("invalid path: "@ + path_debug_text(f.name))
                } else if f.parts.len() == depth + 1 {
                    entry_fault(f)
                } else if f.parts.len() <= depth {
                    if f.parts.len() == 1 {
                        None
                    } else {
                        Some("failed to get next path component"@)
                    }
                } else if levels == 0 || dir_names(files.take(n - 1), depth).contains(
                    f.parts[depth as int],
                ) {
                    None
                } else {
                    let below = files_through(files, depth, f.parts[depth as int]);
                    scan_fault(below, depth + 1, (levels - 1) as nat, below.len())
                }
            },
        }
    }
}

pub open spec fn most_parts(files: Seq<IndexFileView>) -> nat
    decreases files.len(),
{
    if files.len() == 0 {
        0
    } else if files.last().parts.len() > most_parts(files.drop_last()) {
        files.last().parts.len()
    } else {
        most_parts(files.drop_last())
    }
}

/// What keeps the staged files from being a tree.
pub open spec fn stage_fault(files: Seq<StagedFile>) -> Option<Seq<char>> {
    let views = staged_views(files);
    scan_fault(views, 0, most_parts(views), views.len())
}

/// The staged files as a tree is built from them.
pub open spec fn stage_files(files: Seq<StagedFile>) -> Seq<TreeFileView> {
    files.map_values(
        |f: StagedFile|
            TreeFileView {
                names: path_components(f.name@),
                mode: match tree_mode(octal(f.mode as nat)) {
                    Some(mode) => mode,
                    None => TreeItemMode::Blob,
                },
                id: ObjectId::of_text(f.hash@),
            },
    )
}

fn check_entry(f: &IndexFile) -> (r: Option<String>)
    requires
        f.parts@.len() > 0,
    ensures
        match (r, entry_fault(f@)) {
            (None, None) => true,
            (Some(e), Some(want)) => e@ == want,
            _ => false,
        },
{
    let last: usize = f.parts.len() - 1;
    assert(texts(f.parts@).last() == f.parts@[last as int]@);
    let part = f.parts[last].as_str();
    if text_eq(part, "/") || text_eq(part, ".") || text_eq(part, "..") {
        let shown = path_debug(f.name.as_str());
        return Some(concat2("invalid filename in path: ", shown.as_str()));
    }
    let digits = octal_text(f.mode);
    match tree_item_type(digits.as_str()) {
        Ok(_) => None,
        Err(e) => Some(concat4("invalid mode for ", f.name.as_str(), ": ", e.as_str())),
    }
}

fn collect_through(files: &Vec<IndexFile>, depth: usize, name: &str) -> (r: Vec<IndexFile>)
    ensures
        index_views(r@) == files_through(index_views(files@), depth as nat, name@),
{
    let ghost all = index_views(files@);
    let mut out: Vec<IndexFile> = Vec::new();
    let mut i: usize = 0;
    assert(all.take(0) =~= Seq::<IndexFileView>::empty());
    assert(index_views(out@) =~= Seq::<IndexFileView>::empty());
    while i < files.len()
        invariant
            i <= files@.len(),
            all == index_views(files@),
            index_views(out@) == files_through(all.take(i as int), depth as nat, name@),
        decreases files@.len() - i,
    {
        let ghost out0 = out@;
        proof {
            assert(all.take(i as int + 1).drop_last() =~= all.take(i as int));
            assert(all.take(i as int + 1).last() == files@[i as int]@);
        }
        if files[i].parts.len() > depth {
            assert(texts(files@[i as int].parts@)[depth as int] == files@[i as int].parts@[depth as int]@);
            if text_eq(files[i].parts[depth].as_str(), name) {
                let file = IndexFile {
                    name: files[i].name.clone(),
                    parts: clone_texts(&files[i].parts),
                    mode: files[i].mode,
                };
                let ghost fv = file@;
                out.push(file);
                assert(index_views(out@) =~= index_views(out0).push(fv));
            }
        }
        i = i + 1;
    }
    assert(all.take(all.len() as int) =~= all);
    out
}

fn check_directory(files: &Vec<IndexFile>, depth: usize, levels: usize) -> (r: Option<String>)
    requires
        depth + levels <= usize::MAX,
    ensures
        match (r, scan_fault(index_views(files@), depth as nat, levels as nat, files@.len())) {
            (None, None) => true,
            (Some(e), Some(want)) => e@ == want,
            _ => false,
        },
    decreases levels,
{
    let ghost all = index_views(files@);
    let mut seen: Vec<String> = Vec::new();
    let mut i: usize = 0;
    assert(all.take(0) =~= Seq::<IndexFileView>::empty());
    assert(texts(seen@) =~= Seq::<Seq<char>>::empty());
    while i < files.len()
        invariant
            depth + levels <= usize::MAX,
            i <= files@.len(),
            all == index_views(files@),
            texts(seen@) == dir_names(all.take(i as int), depth as nat),
            scan_fault(all, depth as nat, levels as nat, i as nat) is None,
        decreases files@.len() - i,
    {
        let ghost seen0 = seen@;
        let ghost f = files@[i as int]@;
        proof {
            assert(all.take(i as int + 1).drop_last() =~= all.take(i as int));
            assert(all.take(i as int + 1).last() == f);
            assert(all[i as int] == f);
            lemma_scan_prefix(all, depth as nat, levels as nat, i as nat + 1, all.len());
        }
        let count: usize = files[i].parts.len();
        let mut is_root = false;
        if count == 1 {
            assert(texts(files@[i as int].parts@)[0] == files@[i as int].parts@[0]@);
            is_root = text_eq(files[i].parts[0].as_str(), "/");
        }
        proof {
            if is_root {
                assert(f.parts =~= seq!["/"@]);
            } else if f.parts == seq!["/"@] {
                assert(f.parts[0] == "/"@);
            }
        }
        if count == 0 || is_root {
            let shown = path_debug(files[i].name.as_str());
            return Some(concat2("invalid path: ", shown.as_str()));
        }
        if count <= depth {
            if count != 1 {
                return Some("failed to get next path component".to_owned());
            }
        } else if count - depth == 1 {
            if let Some(e) = check_entry(&files[i]) {
                return Some(e);
            }
        } else {
            assert(texts(files@[i as int].parts@)[depth as int] == files@[i as int].parts@[depth as int]@);
            if !contains_text(&seen, files[i].parts[depth].as_str()) {
                seen.push(files[i].parts[depth].clone());
                assert(texts(seen@) =~= texts(seen0).push(f.parts[depth as int]));
                if levels > 0 {
                    let below = collect_through(files, depth, files[i].parts[depth].as_str());
                    if let Some(e) = check_directory(&below, depth + 1, levels - 1) {
                        return Some(e);
                    }
                }
            }
        }
        i = i + 1;
    }
    None
}

proof fn lemma_scan_prefix(files: Seq<IndexFileView>, depth: nat, levels: nat, k: nat, n: nat)
    requires
        k <= n <= files.len(),
    ensures
        scan_fault(files, depth, levels, k) matches Some(e) ==> scan_fault(files, depth, levels, n)
            == Some(e),
    decreases n,
{
    if k < n {
        lemma_scan_prefix(files, depth, levels, k, (n - 1) as nat);
    }
}

/// Builds the trees of staged files, which must be in the order of the index.
pub fn create_tree_of(files: &Vec<StagedFile>, kind: HashKind) -> (r: Result<
    (ObjectId, Vec<NewTree>),
    CommitError,
>)
    requires
        forall|i: int| 0 <= i < files@.len() ==> is_object_text(#[trigger] files@[i].hash@),
    ensures
        match (r, stage_fault(files@)) {
            (Ok(built), None) => {
                &&& built.0 == tree_id(kind, root_items(kind, stage_files(files@)))
                &&& trees_named(kind, built.1@)
                &&& built.1@.len() > 0
                &&& built.1@.last().id == built.0
                &&& item_views(built.1@.last().items@) == root_items(kind, stage_files(files@))
                &&& subtrees_listed(built.1@, stage_files(files@))
                &&& all_written(kind, stage_files(files@), built.1@)
            },
            (Err(e), Some(text)) => e@ == CommitErrorView::TreeCreation(text),
            _ => false,
        },
{
    let ghost views = staged_views(files@);
    let mut list: Vec<IndexFile> = Vec::new();
    let mut tree_files: Vec<TreeFile> = Vec::new();
    let mut levels: usize = 0;
    let mut i: usize = 0;
    assert(views.take(0) =~= Seq::<IndexFileView>::empty());
    assert(index_views(list@) =~= views.take(0));
    assert(file_views(tree_files@) =~= stage_files(files@).take(0));
    while i < files.len()
        invariant
            i <= files@.len(),
            views == staged_views(files@),
            index_views(list@) == views.take(i as int),
            file_views(tree_files@) == stage_files(files@).take(i as int),
            levels == most_parts(views.take(i as int)),
            forall|i: int| 0 <= i < files@.len() ==> is_object_text(#[trigger] files@[i].hash@),
        decreases files@.len() - i,
    {
        let ghost list0 = list@;
        let ghost tree0 = tree_files@;
        let parts = components_of(files[i].name.as_str());
        let names = clone_texts(&parts);
        if parts.len() > levels {
            levels = parts.len();
        }
        let file = IndexFile { name: files[i].name.clone(), parts, mode: files[i].mode };
        let ghost fv = file@;
        list.push(file);
        let digits = octal_text(files[i].mode);
        let mode = match tree_item_type(digits.as_str()) {
            Ok(mode) => mode,
            Err(_) => TreeItemMode::Blob,
        };
        let entry = TreeFile { names, mode, id: object_id_of_text(files[i].hash.as_str()) };
        let ghost ev = entry@;
        tree_files.push(entry);
        proof {
            assert(views.take(i as int + 1).drop_last() =~= views.take(i as int));
            assert(views.take(i as int + 1).last() == fv);
            assert(index_views(list@) =~= index_views(list0).push(fv));
            assert(views.take(i as int + 1) =~= views.take(i as int).push(fv));
            assert(file_views(tree_files@) =~= file_views(tree0).push(ev));
            assert(stage_files(files@)[i as int] == ev);
            assert(stage_files(files@).take(i as int + 1) =~= stage_files(files@).take(
                i as int,
            ).push(ev));
        }
        i = i + 1;
    }
    proof {
        assert(views.take(views.len() as int) =~= views);
        assert(stage_files(files@).take(files@.len() as int) =~= stage_files(files@));
    }
    if let Some(e) = check_directory(&list, 0, levels) {
        return Err(CommitError::TreeCreation(e));
    }
    Ok(build_tree(kind, &tree_files))
}

/// The result of building the trees of an index.
pub open spec fn tree_of_index(
    index: Index,
    kind: HashKind,
    r: Result<(ObjectId, Vec<NewTree>), CommitError>,
    files: Seq<StagedFile>,
) -> bool {
    &&& is_stage(files, index, 0)
    &&& match (r, stage_fault(files)) {
        (Ok(built), None) => {
            &&& built.0 == tree_id(kind, root_items(kind, stage_files(files)))
            &&& trees_named(kind, built.1@)
            &&& built.1@.len() > 0
            &&& built.1@.last().id == built.0
            &&& item_views(built.1@.last().items@) == root_items(kind, stage_files(files))
            &&& subtrees_listed(built.1@, stage_files(files))
            &&& all_written(kind, stage_files(files), built.1@)
        },
        (Err(e), Some(text)) => e@ == CommitErrorView::TreeCreation(text),
        _ => false,
    }
}

/// Recursively create the trees of an index's tracked entries. The root tree comes last, and is
/// the empty tree where nothing is staged.
pub fn create_tree(index: &Index, kind: HashKind) -> (r: Result<(ObjectId, Vec<NewTree>), CommitError>)
    ensures
        exists|files: Seq<StagedFile>| tree_of_index(*index, kind, r, files),
{
    let files = tracked_entries(index, 0);
    let r = create_tree_of(&files, kind);
    assert(tree_of_index(*index, kind, r, files@));
    r
}

/// The trees of a commit hold every staged file, under its path and with its mode and its object.
pub proof fn law_committed_tree_holds_staged_files(
    index: Index,
    kind: HashKind,
    built: (ObjectId, Vec<NewTree>),
    files: Seq<StagedFile>,
    k: int,
)
    requires
        tree_of_index(index, kind, Ok(built), files),
        0 <= k < files.len(),
        stage_files(files)[k].names.len() > 0,
    ensures
        found(built.1@, item_views(built.1@.last().items@), stage_files(files)[k]),
{
    law_built_tree_holds_every_file(kind, stage_files(files), built.1@, k);
}

/// The kinds of what a tree lists, by the digits of their modes.
pub proof fn law_modes_of_a_tree(digits: Seq<char>)
    ensures
        tree_mode(digits) == Some(TreeItemMode::Tree) <==> digits == "40000"@,
        tree_mode(digits) == Some(TreeItemMode::Blob) <==> digits == "100644"@ || digits == "100664"@
            || digits == "100640"@,
        tree_mode(digits) == Some(TreeItemMode::BlobExecutable) <==> digits == "100755"@,
        tree_mode(digits) == Some(TreeItemMode::Link) <==> digits == "120000"@,
        tree_mode(digits) == Some(TreeItemMode::Commit) <==> digits == "160000"@,
{
    reveal_strlit("40000");
    reveal_strlit("100644");
    reveal_strlit("100664");
    reveal_strlit("100640");
    reveal_strlit("100755");
    reveal_strlit("120000");
    reveal_strlit("160000");
    assert("40000"@.len() == 5);
    assert("100755"@[3] == '7' && "100644"@[3] == '6' && "100664"@[3] == '6' && "100640"@[3] == '6');
    assert("120000"@[1] == '2' && "160000"@[1] == '6' && "100644"@[1] == '0' && "100755"@[1] == '0'
        && "100664"@[1] == '0' && "100640"@[1] == '0');
}

/// A staged file is written where its name says, with its own object and the mode that was staged.
pub proof fn law_file_is_written_as_staged(files: Seq<StagedFile>, k: int)
    requires
        0 <= k < files.len(),
    ensures
        stage_files(files).len() == files.len(),
        stage_files(files)[k].names == path_components(files[k].name@),
        stage_files(files)[k].id == ObjectId::of_text(files[k].hash@),
        tree_mode(octal(files[k].mode as nat)) matches Some(mode) ==> stage_files(files)[k].mode == mode,
{
}

/// The files below a directory are those whose path goes through it, in their order.
pub proof fn law_files_below_a_directory(files: Seq<IndexFileView>, depth: nat, name: Seq<char>)
    ensures
        files_through(files, depth, name) == files.filter(
            |f: IndexFileView| f.parts.len() > depth && f.parts[depth as int] == name,
        ),
    decreases files.len(),
{
    reveal(Seq::filter);
    if files.len() > 0 {
        law_files_below_a_directory(files.drop_last(), depth, name);
    }
}

/// The directories at some depth are those that some path goes through there, each once.
pub proof fn law_directories_at_a_depth(files: Seq<IndexFileView>, depth: nat)
    ensures
        dir_names(files, depth).no_duplicates(),
        forall|name: Seq<char>| #[trigger]
            dir_names(files, depth).contains(name) <==> exists|i: int|
                0 <= i < files.len() && (#[trigger] files[i]).parts.len() > depth + 1
                    && files[i].parts[depth as int] == name,
    decreases files.len(),
{
    if files.len() > 0 {
        let rest = files.drop_last();
        let head = dir_names(rest, depth);
        let f = files.last();
        law_directories_at_a_depth(rest, depth);
        assert forall|name: Seq<char>| #[trigger] dir_names(files, depth).contains(name) <==> exists|i: int|
            0 <= i < files.len() && (#[trigger] files[i]).parts.len() > depth + 1
                && files[i].parts[depth as int] == name by {
            if dir_names(files, depth).contains(name) {
                if head.contains(name) {
                    let i = choose|i: int|
                        0 <= i < rest.len() && (#[trigger] rest[i]).parts.len() > depth + 1
                            && rest[i].parts[depth as int] == name;
                    assert(files[i] == rest[i]);
                } else {
                    assert(files[files.len() - 1] == f);
                    let j = choose|j: int|
                        0 <= j < dir_names(files, depth).len() && dir_names(files, depth)[j] == name;
                    if j < head.len() {
                        assert(head[j] == name);
                    }
                }
            }
            if exists|i: int|
                0 <= i < files.len() && (#[trigger] files[i]).parts.len() > depth + 1
                    && files[i].parts[depth as int] == name {
                let i = choose|i: int|
                    0 <= i < files.len() && (#[trigger] files[i]).parts.len() > depth + 1
                        && files[i].parts[depth as int] == name;
                if i < rest.len() {
                    assert(rest[i] == files[i]);
                    assert(head.contains(name));
                    let j = choose|j: int| 0 <= j < head.len() && head[j] == name;
                    assert(dir_names(files, depth)[j] == name);
                } else if !head.contains(name) {
                    assert(dir_names(files, depth)[head.len() as int] == name);
                } else {
                    let j = choose|j: int| 0 <= j < head.len() && head[j] == name;
                    assert(dir_names(files, depth)[j] == name);
                }
            }
        }
    }
}

/// A file can be written into a tree exactly where its path ends in a name and its mode is one of a
/// tree's.
pub proof fn law_what_a_tree_takes(f: IndexFileView)
    ensures
        entry_fault(f) is None <==> f.parts.last() != "/"@ && f.parts.last() != "."@ && f.parts.last()
            != ".."@ && tree_mode(octal(f.mode as nat)) is Some,
{
}

/// A tree of files that lie in no directory is refused exactly where one of them cannot be written.
pub proof fn law_flat_tree_is_refused_for_a_file(files: Seq<StagedFile>)
    requires
        forall|i: int| 0 <= i < files.len() ==> path_components((#[trigger] files[i]).name@).len() == 1,
    ensures
        stage_fault(files) is None <==> forall|i: int|
            0 <= i < files.len() ==> path_components((#[trigger] files[i]).name@) != seq!["/"@]
                && entry_fault(staged_views(files)[i]) is None,
{
    let views = staged_views(files);
    lemma_flat_scan(views, most_parts(views), views.len());
    assert forall|i: int| 0 <= i < files.len() implies (#[trigger] views[i]).parts == path_components(
        files[i].name@,
    ) by {}
    if stage_fault(files) is None {
        assert forall|i: int| 0 <= i < files.len() implies path_components((#[trigger] files[i]).name@)
            != seq!["/"@] && entry_fault(staged_views(files)[i]) is None by {
            assert(views[i].parts != seq!["/"@]);
        }
    } else {
        let i = choose|i: int|
            0 <= i < views.len() && ((#[trigger] views[i]).parts == seq!["/"@] || entry_fault(views[i]) is Some);
        assert(files[i] == files[i]);
    }
}

proof fn lemma_flat_scan(views: Seq<IndexFileView>, levels: nat, n: nat)
    requires
        n <= views.len(),
        forall|i: int| 0 <= i < views.len() ==> (#[trigger] views[i]).parts.len() == 1,
    ensures
        scan_fault(views, 0, levels, n) is None <==> forall|i: int|
            0 <= i < n ==> (#[trigger] views[i]).parts != seq!["/"@] && entry_fault(views[i]) is None,
    decreases n,
{
    if n > 0 {
        lemma_flat_scan(views, levels, (n - 1) as nat);
        assert(views[n - 1].parts.len() == 1);
    }
}

} // verus!
