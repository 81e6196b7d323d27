//! Conflict files, and how tree entries are written to the index.

use vstd::prelude::*;

use crate::merge::PullMergeError;
use crate::merge::content::{binary, is_binary_blob, load_merge_blob, BlobStore};
use crate::merge::options::MergeConflictStyle;
use crate::merge::three_way::ConflictKind;
use crate::object::{ObjectId, TreeItemMode};
use crate::text::{concat2, concat3, concat4, concat5, decimal, octal, octal_text, usize_text};
use vstd::utf8::{decode_utf8, valid_utf8};


verus! {

/// `std::str::from_utf8`: the text that valid UTF-8 encodes, `None` for other bytes.
#[verifier::external_body]
fn utf8_text(data: &[u8]) -> (r: Option<String>)
    ensures
        match r {
            Some(text) => valid_utf8(data@) && text@ == decode_utf8(data@),
            None => !valid_utf8(data@),
        },
{
    match std::str::from_utf8(data) {
        Ok(text) => Some(text.to_string()),
        Err(_) => None,
    }
}

/// The line end of conflict markers.
pub fn conflict_marker_eol(windows: bool) -> (r: &'static str)
    ensures
        r@ == (if windows {
            "\r\n"@
        } else {
            "\n"@
        }),
{
    if windows {
        "\r\n"
    } else {
        "\n"
    }
}

/// What stands for a file in a conflict: its text, or its size where it has none.
pub open spec fn payload(content: Seq<u8>) -> Seq<char> {
    if binary(content) || !valid_utf8(content) {
        "[binary content, "@ + decimal(content.len()) + " bytes]"@
    } else {
        decode_utf8(content)
    }
}

/// What stands for a file in a conflict.
pub fn conflict_payload(content: &[u8]) -> (r: String)
    ensures
        r@ == payload(content@),
{
    let size = usize_text(content.len());
    if is_binary_blob(content) {
        return concat3("[binary content, ", size.as_str(), " bytes]");
    }
    match utf8_text(content) {
        Some(text) => text,
        None => concat3("[binary content, ", size.as_str(), " bytes]"),
    }
}

/// The part of a conflict that shows the common ancestor.
pub open spec fn base_section(
    style: MergeConflictStyle,
    base: Option<Seq<u8>>,
    eol: Seq<char>,
) -> Seq<char> {
    match (style, base) {
        (MergeConflictStyle::Diff3, Some(content)) => "||||||| base"@ + eol + payload(content) + eol,
        _ => ""@,
    }
}

/// The conflict file for two changed versions.
pub open spec fn both_changed_text(
    ours: Seq<u8>,
    theirs: Seq<u8>,
    base: Seq<char>,
    eol: Seq<char>,
    abbrev: Seq<char>,
) -> Seq<char> {
    ("<<<<<<< HEAD"@ + eol + payload(ours) + eol) + base + ("======="@ + eol + payload(theirs) + eol
        + ">>>>>>> "@) + abbrev + eol
}

/// The conflict file for a version that the other side deleted.
pub open spec fn theirs_deleted_text(ours: Seq<u8>, eol: Seq<char>, abbrev: Seq<char>) -> Seq<char> {
    ("<<<<<<< HEAD"@ + eol + payload(ours) + eol + "======="@) + eol + ">>>>>>> "@ + abbrev + (
    " (deleted)"@ + eol)
}

/// The conflict file for a version that this side deleted.
pub open spec fn ours_deleted_text(theirs: Seq<u8>, eol: Seq<char>, abbrev: Seq<char>) -> Seq<char> {
    ("<<<<<<< HEAD (deleted)"@ + eol + "======="@ + eol + payload(theirs)) + eol + ">>>>>>> "@ + abbrev
        + eol
}

/// What the conflict file holds, or why a version of it could not be read.
pub open spec fn conflict_text(
    store: BlobStore,
    eol: Seq<char>,
    abbrev: Seq<char>,
    kind: ConflictKind,
    base: Option<ObjectId>,
    style: MergeConflictStyle,
) -> Result<Seq<char>, Seq<char>> {
    match kind {
        ConflictKind::BothChanged { ours, theirs } => match (store.load(ours), store.load(theirs)) {
            (Err(detail), _) => Err(detail),
            (Ok(_), Err(detail)) => Err(detail),
            (Ok(o), Ok(t)) => match (style, base) {
                (MergeConflictStyle::Diff3, Some(id)) => match store.load(id) {
                    Err(detail) => Err(detail),
                    Ok(b) => Ok(
                        both_changed_text(o, t, base_section(style, Some(b), eol), eol, abbrev),
                    ),
                },
                _ => Ok(both_changed_text(o, t, base_section(style, None, eol), eol, abbrev)),
            },
        },
        ConflictKind::OursModifiedTheirsDeleted { ours } => match store.load(ours) {
            Err(detail) => Err(detail),
            Ok(o) => Ok(theirs_deleted_text(o, eol, abbrev)),
        },
        ConflictKind::TheirsModifiedOursDeleted { theirs } => match store.load(theirs) {
            Err(detail) => Err(detail),
            Ok(t) => Ok(ours_deleted_text(t, eol, abbrev)),
        },
    }
}

fn read_blob<'a>(store: &'a BlobStore, id: ObjectId) -> (r: Result<&'a Vec<u8>, String>)
    ensures
        match (r, store.load(id)) {
            (Ok(data), Ok(bytes)) => data@ == bytes,
            (Err(e), Err(detail)) => e@ == detail,
            _ => false,
        },
{
    match load_merge_blob(store, id) {
        Ok(data) => Ok(data),
        Err(PullMergeError::ObjectLoad { object_id: _, detail }) => Err(detail),
        Err(e) => Err(e.to_string()),
    }
}

/// The file that shows a conflict between markers.
pub fn write_conflict_markers(
    store: &BlobStore,
    marker_eol: &str,
    commit_abbrev: &str,
    kind: ConflictKind,
    base: Option<ObjectId>,
    conflict_style: MergeConflictStyle,
) -> (r: Result<String, String>)
    ensures
        match (r, conflict_text(*store, marker_eol@, commit_abbrev@, kind, base, conflict_style)) {
            (Ok(got), Ok(want)) => got@ == want,
            (Err(got), Err(want)) => got@ == want,
            _ => false,
        },
{
    match kind {
        ConflictKind::BothChanged { ours, theirs } => {
            let ours_data = match read_blob(store, ours) {
                Ok(data) => data,
                Err(e) => return Err(e),
            };
            let theirs_data = match read_blob(store, theirs) {
                Ok(data) => data,
                Err(e) => return Err(e),
            };
            let section = match (conflict_style, base) {
                (MergeConflictStyle::Diff3, Some(id)) => {
                    let base_data = match read_blob(store, id) {
                        Ok(data) => data,
                        Err(e) => return Err(e),
                    };
                    let shown = conflict_payload(base_data.as_slice());
                    concat4("||||||| base", marker_eol, shown.as_str(), marker_eol)
                },
                _ => "".to_owned(),
            };
            let ours_shown = conflict_payload(ours_data.as_slice());
            let theirs_shown = conflict_payload(theirs_data.as_slice());
            let head = concat4("<<<<<<< HEAD", marker_eol, ours_shown.as_str(), marker_eol);
            let middle = concat5("=======", marker_eol, theirs_shown.as_str(), marker_eol, ">>>>>>> ");
            Ok(
                concat5(
                    head.as_str(),
                    section.as_str(),
                    middle.as_str(),
                    commit_abbrev,
                    marker_eol,
                ),
            )
        },
        ConflictKind::OursModifiedTheirsDeleted { ours } => {
            let ours_data = match read_blob(store, ours) {
                Ok(data) => data,
                Err(e) => return Err(e),
            };
            let shown = conflict_payload(ours_data.as_slice());
            let head = concat5("<<<<<<< HEAD", marker_eol, shown.as_str(), marker_eol, "=======");
            let tail = concat2(" (deleted)", marker_eol);
            Ok(concat5(head.as_str(), marker_eol, ">>>>>>> ", commit_abbrev, tail.as_str()))
        },
        ConflictKind::TheirsModifiedOursDeleted { theirs } => {
            let theirs_data = match read_blob(store, theirs) {
                Ok(data) => data,
                Err(e) => return Err(e),
            };
            let shown = conflict_payload(theirs_data.as_slice());
            let head = concat5(
                "<<<<<<< HEAD (deleted)",
                marker_eol,
                "=======",
                marker_eol,
                shown.as_str(),
            );
            Ok(concat5(head.as_str(), marker_eol, ">>>>>>> ", commit_abbrev, marker_eol))
        },
    }
}

/// The index mode of a tree entry that can stand in the index.
pub open spec fn index_mode(mode: TreeItemMode) -> Option<u32> {
    match mode {
        TreeItemMode::Blob => Some(0o100644),
        TreeItemMode::BlobExecutable => Some(0o100755),
        TreeItemMode::Link => Some(0o120000),
        TreeItemMode::Tree => None,
        TreeItemMode::Commit => None,
    }
}

/// The tree entry mode for an index mode.
pub open spec fn tree_mode(mode: u32) -> Option<TreeItemMode> {
    if mode == 0o100644 {
        Some(TreeItemMode::Blob)
    } else if mode == 0o100755 {
        Some(TreeItemMode::BlobExecutable)
    } else if mode == 0o120000 {
        Some(TreeItemMode::Link)
    } else {
        None
    }
}

/// The index mode of a tree entry.
pub fn tree_item_mode_to_index_mode(mode: TreeItemMode) -> (r: Result<u32, PullMergeError>)
    ensures
        match r {
            Ok(m) => index_mode(mode) == Some(m),
            Err(e) => index_mode(mode) is None && (e matches PullMergeError::IndexSave(d) && d@ == (if mode
                == TreeItemMode::Tree {
                "tree entry cannot be represented as a file index entry"@
            } else {
                "gitlink entries are not supported by merge"@
            })),
        },
{
    match mode {
        TreeItemMode::Blob => Ok(0o100644),
        TreeItemMode::BlobExecutable => Ok(0o100755),
        TreeItemMode::Link => Ok(0o120000),
        TreeItemMode::Tree => Err(
            PullMergeError::IndexSave(
                "tree entry cannot be represented as a file index entry".to_owned(),
            ),
        ),
        TreeItemMode::Commit => Err(
            PullMergeError::IndexSave("gitlink entries are not supported by merge".to_owned()),
        ),
    }
}

/// The tree entry mode for an index mode.
pub fn index_mode_to_tree_item_mode(mode: u32) -> (r: Result<TreeItemMode, PullMergeError>)
    ensures
        match r {
            Ok(m) => tree_mode(mode) == Some(m),
            Err(e) => tree_mode(mode) is None && (e matches PullMergeError::TreeCreate(d) && d@
                == "unsupported index mode "@ + octal(mode as nat)
                + " while creating merge tree"@),
        },
{
    if mode == 0o100644 {
        Ok(TreeItemMode::Blob)
    } else if mode == 0o100755 {
        Ok(TreeItemMode::BlobExecutable)
    } else if mode == 0o120000 {
        Ok(TreeItemMode::Link)
    } else {
        let shown = octal_text(mode);
        Err(
            PullMergeError::TreeCreate(
                concat3("unsupported index mode ", shown.as_str(), " while creating merge tree"),
            ),
        )
    }
}

/// A tree entry that goes into the index comes out of it with the same mode.
pub proof fn law_index_mode_round_trip(mode: TreeItemMode)
    ensures
        index_mode(mode) matches Some(m) ==> tree_mode(m) == Some(mode),
        forall|m: u32| #[trigger] tree_mode(m) matches Some(t) ==> index_mode(t) == Some(m),
{
}

/// How a file of a merged tree gets into the working tree.
#[derive(Debug, Clone, Copy, PartialEq, Eq, Structural)]
pub enum WorkdirWrite {
    File,
    ExecutableFile,
    Symlink,
}

/// How a tree entry is written to the working tree, or why it cannot be.
pub fn write_workdir_blob(mode: TreeItemMode, path: &str) -> (r: Result<WorkdirWrite, String>)
    ensures
        match r {
            Ok(WorkdirWrite::File) => mode == TreeItemMode::Blob,
            Ok(WorkdirWrite::ExecutableFile) => mode == TreeItemMode::BlobExecutable,
            Ok(WorkdirWrite::Symlink) => mode == TreeItemMode::Link,
            Err(e) => (mode == TreeItemMode::Tree && e@ == "tree entry cannot be written as a file: "@
                + path@) || (mode == TreeItemMode::Commit && e@
                == "gitlink entries are not supported by merge: "@ + path@),
        },
{
    match mode {
        TreeItemMode::Blob => Ok(WorkdirWrite::File),
        TreeItemMode::BlobExecutable => Ok(WorkdirWrite::ExecutableFile),
        TreeItemMode::Link => Ok(WorkdirWrite::Symlink),
        TreeItemMode::Tree => Err(concat2("tree entry cannot be written as a file: ", path)),
        TreeItemMode::Commit => Err(concat2("gitlink entries are not supported by merge: ", path)),
    }
}

/// A conflict shows both sides whole between the markers, ours first, and theirs before the commit that
/// it is of; the base stands between them where it is to be shown. A side that was deleted is said to be.
pub proof fn law_conflict_shows_both_sides(
    store: BlobStore,
    eol: Seq<char>,
    abbrev: Seq<char>,
    ours: ObjectId,
    theirs: ObjectId,
    base: Option<ObjectId>,
)
    ensures
        store.load(ours) matches Ok(o) ==> (store.load(theirs) matches Ok(t) ==> {
            let both = ConflictKind::BothChanged { ours, theirs };
            let plain = "<<<<<<< HEAD"@ + eol + payload(o) + eol + "======="@ + eol + payload(t) + eol
                + ">>>>>>> "@ + abbrev + eol;
            &&& conflict_text(store, eol, abbrev, both, base, MergeConflictStyle::Merge) == Ok::<
                Seq<char>,
                Seq<char>,
            >(plain)
            &&& base is None ==> conflict_text(store, eol, abbrev, both, base, MergeConflictStyle::Diff3)
                == Ok::<Seq<char>, Seq<char>>(plain)
            &&& base matches Some(id) ==> (store.load(id) matches Ok(b) ==> conflict_text(
                store,
                eol,
                abbrev,
                both,
                base,
                MergeConflictStyle::Diff3,
            ) == Ok::<Seq<char>, Seq<char>>(
                "<<<<<<< HEAD"@ + eol + payload(o) + eol + "||||||| base"@ + eol + payload(b) + eol
                    + "======="@ + eol + payload(t) + eol + ">>>>>>> "@ + abbrev + eol,
            ))
        }),
        store.load(ours) matches Ok(o) ==> conflict_text(
            store,
            eol,
            abbrev,
            ConflictKind::OursModifiedTheirsDeleted { ours },
            base,
            MergeConflictStyle::Merge,
        ) == Ok::<Seq<char>, Seq<char>>(
            "<<<<<<< HEAD"@ + eol + payload(o) + eol + "======="@ + eol + ">>>>>>> "@ + abbrev
                + " (deleted)"@ + eol,
        ),
        store.load(theirs) matches Ok(t) ==> conflict_text(
            store,
            eol,
            abbrev,
            ConflictKind::TheirsModifiedOursDeleted { theirs },
            base,
            MergeConflictStyle::Merge,
        ) == Ok::<Seq<char>, Seq<char>>(
            "<<<<<<< HEAD (deleted)"@ + eol + "======="@ + eol + payload(t) + eol + ">>>>>>> "@ + abbrev
                + eol,
        ),
{
    let none = ""@;
    reveal_strlit("");
    assert(none.len() == 0);
    if store.load(ours) is Ok && store.load(theirs) is Ok {
        let o = store.load(ours)->Ok_0;
        let t = store.load(theirs)->Ok_0;
        let plain = "<<<<<<< HEAD"@ + eol + payload(o) + eol + "======="@ + eol + payload(t) + eol
            + ">>>>>>> "@ + abbrev + eol;
        assert(both_changed_text(o, t, none, eol, abbrev) =~= plain);
        if let Some(id) = base {
            if let Ok(b) = store.load(id) {
                let shown = "||||||| base"@ + eol + payload(b) + eol;
                assert(both_changed_text(o, t, shown, eol, abbrev) =~= "<<<<<<< HEAD"@ + eol + payload(o)
                    + eol + "||||||| base"@ + eol + payload(b) + eol + "======="@ + eol + payload(t) + eol
                    + ">>>>>>> "@ + abbrev + eol);
            }
        }
    }
    if let Ok(o) = store.load(ours) {
        assert(theirs_deleted_text(o, eol, abbrev) =~= "<<<<<<< HEAD"@ + eol + payload(o) + eol + "======="@
            + eol + ">>>>>>> "@ + abbrev + " (deleted)"@ + eol);
    }
    if let Ok(t) = store.load(theirs) {
        assert(ours_deleted_text(t, eol, abbrev) =~= "<<<<<<< HEAD (deleted)"@ + eol + "======="@ + eol
            + payload(t) + eol + ">>>>>>> "@ + abbrev + eol);
    }
}

/// A text is shown as it is, and what is no text by its size.
pub proof fn law_content_is_shown(content: Seq<u8>)
    ensures
        !content.contains(0u8) && valid_utf8(content) ==> payload(content) == decode_utf8(content),
        content.contains(0u8) || !valid_utf8(content) ==> payload(content) == "[binary content, "@ + decimal(
            content.len(),
        ) + " bytes]"@,
{
}

/// The modes of files in the index are those of files, executable files and links, and of nothing else.
pub proof fn law_modes_in_the_index()
    ensures
        index_mode(TreeItemMode::Blob) == Some(0o100644u32),
        index_mode(TreeItemMode::BlobExecutable) == Some(0o100755u32),
        index_mode(TreeItemMode::Link) == Some(0o120000u32),
        index_mode(TreeItemMode::Tree) is None,
        index_mode(TreeItemMode::Commit) is None,
{
}

} // verus!
