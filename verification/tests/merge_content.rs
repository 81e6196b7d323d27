//! Merging contents and trees.

use libra::merge::checks::{
    ensure_no_directory_file_conflicts, ensure_no_untracked_conflicts, octopus_step, OctopusState,
};
use libra::merge::conflict::{
    conflict_marker_eol, conflict_payload, index_mode_to_tree_item_mode,
    tree_item_mode_to_index_mode, write_conflict_markers, write_workdir_blob, WorkdirWrite,
};
use libra::merge::content::{
    bytes_to_lines, count_common_lines, is_binary_blob, load_merge_blob, plan_content_merge,
    similarity_of_contents, try_merge_blob_contents, BlobStore, ContentMerge, LoadedBlob,
};
use libra::merge::items::{count_item_map_changes, MergeTreeEntry, TreeEntry, TreeItems};
use libra::merge::options::{MergeConflictStyle, MergeFavor, PullMergeOptions};
use libra::merge::renames::{detect_clean_renames, merge_tree_items_with_options};
use libra::merge::report::{bar_length, file_line_delta, merge_diffstat, StatRow};
use libra::merge::staging::{
    add_blob_index_entry, build_conflict_index, has_unmerged_entries, index_tree_items,
    staged_conflict_paths, unresolved_conflicted_paths,
};
use libra::merge::stat::{changed_files, stat_rows, total_changed, widest_change};
use libra::merge::three_way::{
    classify_relative_to_base, merge_tree_items, resolve_three_way_with_options, ConflictKind,
    MergeResolution, RelativeState,
};
use libra::merge::trees::{
    commit_tree_items, create_tree_from_items_map, tree_entries_map_from_items,
};
use libra::merge::whitespace::{words, WhitespaceMode};
use libra::merge::workdir::{leftover_paths, untracked_by_reset};
use libra::merge::PullMergeError;
use libra::object::{object_id_of_data, HashKind, ObjectId, TreeItemMode};

fn merge_entry(byte: u8, mode: TreeItemMode) -> MergeTreeEntry {
    let mut lo: u128 = 0;
    for _ in 0..16 {
        lo = lo << 8 | u128::from(byte);
    }
    let hi = (lo & 0xffff_ffff) as u128;
    MergeTreeEntry { hash: ObjectId { kind: HashKind::Sha1, hi, lo }, mode }
}

fn no_blobs() -> BlobStore {
    BlobStore { blobs: Vec::new() }
}

/// A store with some contents, and the entries that name them.
fn store_of(contents: &[&str]) -> (BlobStore, Vec<MergeTreeEntry>) {
    let mut blobs = Vec::new();
    let mut entries = Vec::new();
    for content in contents {
        let data = content.as_bytes().to_vec();
        let id = object_id_of_data(HashKind::Sha1, "blob", &data);
        blobs.push(LoadedBlob { id, content: Ok(data) });
        entries.push(MergeTreeEntry { hash: id, mode: TreeItemMode::Blob });
    }
    (BlobStore { blobs }, entries)
}

fn items(list: &[(&str, MergeTreeEntry)]) -> TreeItems {
    let mut out = TreeItems::new();
    for (path, entry) in list {
        out.insert(path, *entry);
    }
    out
}

#[test]
fn whitespace_mode_canonicalize_ignores_configured_classes() {
    let all_space = WhitespaceMode {
        ignore_all_space: true,
        ..Default::default()
    };
    assert_eq!(
        all_space.canonicalize(b"a b  c\n"),
        all_space.canonicalize(b"abc\n"),
    );

    let space_change = WhitespaceMode {
        ignore_space_change: true,
        ..Default::default()
    };
    assert_eq!(
        space_change.canonicalize(b"  a   b  \n"),
        space_change.canonicalize(b"a b\n"),
    );

    let space_at_eol = WhitespaceMode {
        ignore_space_at_eol: true,
        ..Default::default()
    };
    assert_eq!(
        space_at_eol.canonicalize(b"a b   \n"),
        space_at_eol.canonicalize(b"a b\n"),
    );

    let cr_at_eol = WhitespaceMode {
        ignore_cr_at_eol: true,
        ..Default::default()
    };
    assert_eq!(
        cr_at_eol.canonicalize(b"a b\r\n"),
        cr_at_eol.canonicalize(b"a b\n"),
    );

    let none = WhitespaceMode::default();
    assert_ne!(
        none.canonicalize(b"a  b\n"),
        none.canonicalize(b"a b\n"),
        "default mode preserves whitespace differences"
    );
}

#[test]
fn merge_tree_items_preserves_mode_from_changed_side() {
    let path = "script.sh";
    let base = merge_entry(1, TreeItemMode::Blob);
    let theirs = merge_entry(2, TreeItemMode::BlobExecutable);
    let base_items = items(&[(path, base)]);
    let our_items = items(&[(path, base)]);
    let their_items = items(&[(path, theirs)]);

    let result =
        merge_tree_items(&base_items, &our_items, &their_items, &no_blobs(), HashKind::Sha1)
            .expect("merge tree items");

    assert!(result.conflicts.is_empty());
    assert_eq!(result.merged_items.get(path), Some(theirs));
}

#[test]
fn tree_entries_map_from_items_materializes_nested_parent_dirs() {
    let items = items(&[("dir/sub/file.txt", merge_entry(1, TreeItemMode::Blob))]);

    let entries = tree_entries_map_from_items(&items).expect("build tree entries");

    let find = |dir: &str| entries.iter().find(|e| e.dir == dir);
    assert!(
        find("dir").is_some(),
        "parent directory should be present so recursive tree building can attach it to root"
    );
    assert!(
        find("dir/sub").is_some(),
        "leaf directory should contain the nested file entry"
    );
    assert_eq!(find("dir").unwrap().items.len(), 0);
    assert_eq!(find("dir/sub").unwrap().items.len(), 1);
}

#[test]
fn canonical_text_is_stable() {
    let mode = WhitespaceMode { ignore_space_change: true, ..Default::default() };
    let once = mode.canonicalize(b"  a   b  \n");
    assert_eq!(mode.canonicalize(&once), once);
    assert!(mode.is_active());
    assert!(!WhitespaceMode::default().is_active());
    // Bytes that are no text are replaced, and so differ from what was given.
    let broken = mode.canonicalize(b"a\xff b");
    assert_eq!(String::from_utf8(broken).unwrap(), "a\u{fffd} b");
    assert_eq!(words(" a\tb  c "), vec!["a", "b", "c"]);
}

#[test]
fn only_ignored_space_is_looked_past() {
    let all = WhitespaceMode { ignore_all_space: true, ..Default::default() };
    assert_eq!(all.canonicalize("\ta\u{a0}b \r\n\n c\r".as_bytes()), b"ab\n\nc");
    assert_ne!(all.canonicalize(b"a b\n"), all.canonicalize(b"a\nb\n"));
    assert_ne!(all.canonicalize(b"a b\n"), all.canonicalize(b"a c\n"));
    let change = WhitespaceMode { ignore_space_change: true, ..Default::default() };
    assert_eq!(change.canonicalize(b" a \t b\r\n"), change.canonicalize(b"a b\n"));
    assert_ne!(change.canonicalize(b"ab\n"), change.canonicalize(b"a b\n"));
    let ends = WhitespaceMode { ignore_space_at_eol: true, ..Default::default() };
    assert_eq!(ends.canonicalize(b"a b \t\r\nc"), b"a b\nc");
    assert_ne!(ends.canonicalize(b" a\n"), ends.canonicalize(b"a\n"));
    let returns = WhitespaceMode { ignore_cr_at_eol: true, ..Default::default() };
    assert_eq!(returns.canonicalize(b"a \r\r\nb"), b"a \r\nb");
}

#[test]
fn a_side_that_did_not_change_gives_way() {
    let base = Some(merge_entry(1, TreeItemMode::Blob));
    let other = Some(merge_entry(2, TreeItemMode::Blob));
    let options = PullMergeOptions::plain(false);
    let mut new_blobs = Vec::new();
    let mut resolve = |b, o, t| {
        resolve_three_way_with_options(b, o, t, &options, &no_blobs(), HashKind::Sha1, &mut new_blobs)
            .expect("no blob is read")
    };
    assert_eq!(resolve(base, base, other), MergeResolution::Use(other.unwrap()));
    assert_eq!(resolve(base, other, base), MergeResolution::Use(other.unwrap()));
    assert_eq!(resolve(base, None, base), MergeResolution::Delete);
    assert_eq!(resolve(None, other, other), MergeResolution::Use(other.unwrap()));
    assert!(matches!(
        resolve(base, other, None),
        MergeResolution::Conflict(ConflictKind::OursModifiedTheirsDeleted { .. })
    ));
    assert!(matches!(
        resolve(base, None, other),
        MergeResolution::Conflict(ConflictKind::TheirsModifiedOursDeleted { .. })
    ));
}

#[test]
fn states_are_told_by_the_base() {
    let a = Some(merge_entry(1, TreeItemMode::Blob));
    let b = Some(merge_entry(2, TreeItemMode::Blob));
    assert_eq!(classify_relative_to_base(a, a), RelativeState::Same(a.unwrap()));
    assert_eq!(classify_relative_to_base(a, b), RelativeState::Modified(b.unwrap()));
    assert_eq!(classify_relative_to_base(a, None), RelativeState::Deleted);
    assert_eq!(classify_relative_to_base(None, b), RelativeState::Added(b.unwrap()));
    assert_eq!(classify_relative_to_base(None, None), RelativeState::Missing);
}

#[test]
fn changes_in_different_lines_are_merged() {
    let (store, e) = store_of(&["1\n2\n3\n4\n5\n", "one\n2\n3\n4\n5\n", "1\n2\n3\n4\nfive\n"]);
    let mut new_blobs = Vec::new();
    let merged = try_merge_blob_contents(
        e[0],
        e[1],
        e[2],
        WhitespaceMode::default(),
        &store,
        HashKind::Sha1,
        &mut new_blobs,
    )
    .expect("readable")
    .expect("mergeable");
    assert_eq!(new_blobs.len(), 1);
    assert_eq!(new_blobs[0].content, b"one\n2\n3\n4\nfive\n");
    assert_eq!(merged.hash, new_blobs[0].id);
}

#[test]
fn changes_in_one_line_conflict() {
    let (store, e) = store_of(&["1\n", "one\n", "uno\n"]);
    let at = |entry| items(&[("f", entry)]);
    let plain = PullMergeOptions::plain(false);
    let result =
        merge_tree_items_with_options(&at(e[0]), &at(e[1]), &at(e[2]), &plain, &store, HashKind::Sha1)
            .expect("readable");
    assert_eq!(result.conflicts.len(), 1);
    assert_eq!(result.conflicts[0].path, "f");
    assert!(!result.merged_items.contains_key("f"));
    let ours = PullMergeOptions {
        strategy_option: Some(MergeFavor::Ours),
        ..PullMergeOptions::plain(false)
    };
    let result =
        merge_tree_items_with_options(&at(e[0]), &at(e[1]), &at(e[2]), &ours, &store, HashKind::Sha1)
            .expect("readable");
    assert!(result.conflicts.is_empty());
    assert_eq!(result.merged_items.get("f"), Some(e[1]));
}

#[test]
fn contents_decide_how_they_are_merged() {
    let plain = WhitespaceMode::default();
    assert_eq!(plan_content_merge(plain, b"a\0", b"b", b"c"), ContentMerge::Unmergeable);
    assert_eq!(plan_content_merge(plain, b"a", b"b", b"c"), ContentMerge::Textual);
    let space = WhitespaceMode { ignore_all_space: true, ..Default::default() };
    assert_eq!(plan_content_merge(space, b"a b", b"ab", b"c"), ContentMerge::TakeTheirs);
    assert_eq!(plan_content_merge(space, b"a b", b"c", b"a  b"), ContentMerge::TakeOurs);
    assert!(is_binary_blob(b"a\0b"));
    assert!(!is_binary_blob(b"ab"));
}

#[test]
fn blobs_that_cannot_be_read_are_told() {
    let missing = merge_entry(9, TreeItemMode::Blob);
    assert!(load_merge_blob(&no_blobs(), missing.hash).is_err());
}

#[test]
fn similar_files_are_renames() {
    let (store, e) =
        store_of(&["a\nb\nc\nd\n", "a\nb\nc\nx\n", "q\n", "z\nb\nc\nd\n"]);
    let base = items(&[("old.txt", e[0])]);
    let ours = items(&[("new.txt", e[1])]);
    let theirs = items(&[("old.txt", e[3])]);
    let options = PullMergeOptions::plain(true);
    let renames =
        detect_clean_renames(&base, &ours, &theirs, &options, &store, HashKind::Sha1, &mut Vec::new())
            .expect("readable");
    assert_eq!(renames.len(), 1);
    assert_eq!((renames[0].source.as_str(), renames[0].dest.as_str()), ("old.txt", "new.txt"));
    assert!(renames[0].renamed_by_ours);
    let unlike = items(&[("new.txt", e[2])]);
    let none =
        detect_clean_renames(&base, &unlike, &theirs, &options, &store, HashKind::Sha1, &mut Vec::new())
            .expect("readable");
    assert!(none.is_empty());
    // A file that the other side left alone needs no rename.
    let untouched =
        detect_clean_renames(&base, &ours, &base, &options, &store, HashKind::Sha1, &mut Vec::new())
            .expect("readable");
    assert!(untouched.is_empty());
    let merged =
        merge_tree_items_with_options(&base, &ours, &theirs, &options, &store, HashKind::Sha1)
            .expect("readable");
    assert!(merged.conflicts.is_empty());
    assert!(!merged.merged_items.contains_key("old.txt"));
    assert_eq!(merged.new_blobs.last().expect("a merged file").content, b"z\nb\nc\nx\n");
    assert!(similarity_of_contents(b"a\nb\n", b"a\nb\n").reaches_half());
    assert!(!similarity_of_contents(b"a\nb\n", b"x\ny\n").reaches_half());
    assert_eq!(count_common_lines(&bytes_to_lines(b"a\na\nb\n"), &bytes_to_lines(b"a\nb\nc\n")), 2);
}

#[test]
fn a_file_with_two_equal_successors_is_not_renamed() {
    let (store, e) = store_of(&["a\nb\nc\nd\n", "a\nb\nc\nx\n", "a\nb\nc\ny\n", "z\nb\nc\nd\n"]);
    let base = items(&[("old.txt", e[0])]);
    let theirs = items(&[("old.txt", e[3])]);
    let options = PullMergeOptions::plain(true);
    let renames_to = |ours: &TreeItems| {
        detect_clean_renames(&base, ours, &theirs, &options, &store, HashKind::Sha1, &mut Vec::new())
            .expect("readable")
    };
    assert!(renames_to(&items(&[("one.txt", e[1]), ("two.txt", e[2])])).is_empty());
    // One that is more alike than all others is the successor.
    let clear = renames_to(&items(&[("one.txt", e[1]), ("two.txt", e[0]), ("three.txt", e[2])]));
    assert_eq!(clear.len(), 1);
    assert_eq!(clear[0].dest, "two.txt");
}

#[test]
fn spellings_of_a_path_are_one_path() {
    let one = merge_entry(1, TreeItemMode::Blob);
    let two = merge_entry(2, TreeItemMode::Blob);
    let mut files = items(&[("a/b", one), ("a//b/", two)]);
    assert_eq!(files.items.len(), 1);
    assert_eq!(files.get("a/./b"), Some(two));
    assert!(files.contains_key("a/b"));
    assert_eq!(files.remove("a//b"), Some(two));
    assert!(!files.contains_key("a/b"));
    let entry = |path: &str, entry: MergeTreeEntry| TreeEntry { path: path.to_string(), entry };
    let read = commit_tree_items(vec![entry("a/b", one), entry("a//b", two)]);
    assert_eq!(read.items.len(), 1);
    assert_eq!(read.get("a/b"), Some(two));
}

#[test]
fn only_named_paths_below_the_root_are_in_a_tree() {
    let (_, e) = store_of(&["hello\n"]);
    let built = |files: &[(&str, MergeTreeEntry)]| {
        create_tree_from_items_map(&items(files), HashKind::Sha1).map(|(root, _)| root)
    };
    let plain = built(&[("dir/a.txt", e[0])]).expect("a tree");
    assert_eq!(built(&[("dir//a.txt", e[0])]).expect("a tree"), plain);
    // A rooted path stands in none of the directories that lead to the root of a tree.
    assert_eq!(built(&[("dir/a.txt", e[0]), ("/b", e[0])]).expect("a tree"), plain);
    assert!(built(&[("/b", e[0])]).is_err());
    assert_eq!(built(&[("a/..", e[0])]).expect_err("no name"), "path has no file name: a/..");
    assert_eq!(built(&[("../a", e[0])]).expect_err("no name"), "path has no file name: ..");
    assert!(built(&[]).is_err());
}

#[test]
fn conflicts_are_shown_between_markers() {
    let (store, e) = store_of(&["base\n", "ours\n", "theirs\n"]);
    let kind = ConflictKind::BothChanged { ours: e[1].hash, theirs: e[2].hash };
    let text = write_conflict_markers(&store, "\n", "abc1234", kind, Some(e[0].hash), MergeConflictStyle::Merge)
        .expect("readable");
    assert!(text.starts_with("<<<<<<< HEAD\nours\n"));
    assert!(text.contains("\n=======\ntheirs\n"));
    assert!(text.contains(">>>>>>> abc1234"));
    assert!(!text.contains("base"));
    let three = write_conflict_markers(&store, "\n", "abc1234", kind, Some(e[0].hash), MergeConflictStyle::Diff3)
        .expect("readable");
    assert!(three.contains("|||||||"));
    assert!(three.contains("base"));
    assert_eq!(conflict_payload(b"\0\0\0"), "[binary content, 3 bytes]");
    assert_eq!(conflict_payload(b"text"), "text");
    assert_eq!(conflict_payload(b"\xff"), "[binary content, 1 bytes]");
    assert_eq!(conflict_marker_eol(true), "\r\n");
}

#[test]
fn index_modes_go_both_ways() {
    for mode in [TreeItemMode::Blob, TreeItemMode::BlobExecutable, TreeItemMode::Link] {
        let number = tree_item_mode_to_index_mode(mode).expect("a file mode");
        assert_eq!(index_mode_to_tree_item_mode(number).expect("a known mode"), mode);
    }
    assert!(tree_item_mode_to_index_mode(TreeItemMode::Tree).is_err());
    assert!(matches!(
        index_mode_to_tree_item_mode(0o777),
        Err(PullMergeError::TreeCreate(e)) if e == "unsupported index mode 777 while creating merge tree"
    ));
    assert_eq!(write_workdir_blob(TreeItemMode::Link, "f").expect("a link"), WorkdirWrite::Symlink);
    assert!(write_workdir_blob(TreeItemMode::Commit, "f").is_err());
}

#[test]
fn an_index_with_conflicts_is_unresolved() {
    let (store, e) = store_of(&["1\n", "one\n", "uno\n", "same\n"]);
    let base = items(&[("f", e[0])]);
    let ours = items(&[("f", e[1]), ("g", e[3])]);
    let theirs = items(&[("f", e[2])]);
    let merged = items(&[("g", e[3])]);
    let conflict = libra::merge::three_way::PathConflict {
        path: "f".to_string(),
        kind: ConflictKind::BothChanged { ours: e[1].hash, theirs: e[2].hash },
    };
    let index = build_conflict_index(&merged, &vec![conflict], &base, &ours, &theirs, &store)
        .expect("readable");
    assert!(has_unmerged_entries(&index));
    assert_eq!(staged_conflict_paths(&index), vec!["f"]);
    assert_eq!(unresolved_conflicted_paths(&index, &Vec::new()), vec!["f"]);
    assert!(unresolved_conflicted_paths(&index, &vec!["h".to_string()]).is_empty());
    let twice = vec!["f".to_string(), "g".to_string(), "f".to_string()];
    assert_eq!(unresolved_conflicted_paths(&index, &twice), vec!["f", "f"]);
    let entries = index_tree_items(&index).expect("known modes");
    assert_eq!(entries.get("g"), Some(e[3]));
    assert_eq!(entries.get("f"), None);
    let mut resolved = git_internal::internal::index::Index::new();
    add_blob_index_entry(&mut resolved, "f", e[1], 0, &store).expect("readable");
    assert!(!has_unmerged_entries(&resolved));
    assert_eq!(index_tree_items(&resolved).expect("known modes").get("f"), Some(e[1]));
    let refused = |mode: TreeItemMode| {
        let mut index = git_internal::internal::index::Index::new();
        add_blob_index_entry(&mut index, "f", MergeTreeEntry { mode, ..e[1] }, 0, &store)
    };
    assert!(matches!(
        refused(TreeItemMode::Tree),
        Err(PullMergeError::IndexSave(d))
            if d == "tree entry cannot be represented as a file index entry"
    ));
    assert!(matches!(
        refused(TreeItemMode::Commit),
        Err(PullMergeError::IndexSave(d)) if d == "gitlink entries are not supported by merge"
    ));
}

#[test]
fn a_path_cannot_be_file_and_directory() {
    let ok = vec!["a/b".to_string(), "a/c".to_string()];
    assert!(ensure_no_directory_file_conflicts(&ok).is_ok());
    let bad = vec!["a".to_string(), "a/c".to_string()];
    assert!(matches!(
        ensure_no_directory_file_conflicts(&bad),
        Err(PullMergeError::DirectoryFileConflict { .. })
    ));
    // A rooted path is below the root, not below a name.
    let rooted = vec!["a".to_string(), "/a/b".to_string()];
    assert!(ensure_no_directory_file_conflicts(&rooted).is_ok());
    let spelled = vec!["a/b".to_string(), "a//b/c".to_string()];
    assert!(ensure_no_directory_file_conflicts(&spelled).is_err());
    assert!(ensure_no_untracked_conflicts(&vec!["x".to_string()], &vec![false]).is_ok());
    assert!(matches!(
        ensure_no_untracked_conflicts(&vec!["x".to_string()], &vec![true]),
        Err(PullMergeError::UntrackedOverwrite { path }) if path == "x"
    ));
}

#[test]
fn an_octopus_takes_changes_from_each_head_once() {
    let current = items(&[("a", merge_entry(1, TreeItemMode::Blob)), ("b", merge_entry(1, TreeItemMode::Blob))]);
    let first = items(&[("a", merge_entry(2, TreeItemMode::Blob)), ("b", merge_entry(1, TreeItemMode::Blob))]);
    let second = items(&[("a", merge_entry(1, TreeItemMode::Blob))]);
    let state = octopus_step(OctopusState::new(&current), &current, &first).expect("first head");
    let state = octopus_step(state, &current, &second).expect("second head");
    assert_eq!(state.merged.get("a"), Some(merge_entry(2, TreeItemMode::Blob)));
    assert_eq!(state.merged.get("b"), None);
    let third = items(&[("a", merge_entry(3, TreeItemMode::Blob)), ("b", merge_entry(1, TreeItemMode::Blob))]);
    assert!(matches!(
        octopus_step(state, &current, &third),
        Err(PullMergeError::OctopusConflict { detail }) if detail == "path 'a' changed by multiple heads"
    ));
}

#[test]
fn leftovers_are_removed() {
    let one = merge_entry(1, TreeItemMode::Blob);
    let base = items(&[("gone", one), ("kept", one), ("torn", one)]);
    let merged = items(&[("kept", one)]);
    let conflict = libra::merge::three_way::PathConflict {
        path: "torn".to_string(),
        kind: ConflictKind::OursModifiedTheirsDeleted { ours: one.hash },
    };
    let left = leftover_paths(
        &vec!["indexed".to_string(), "gone".to_string()],
        &base,
        &base,
        &base,
        &merged,
        &vec![conflict],
    );
    let mut sorted = left.clone();
    sorted.sort();
    assert_eq!(sorted, vec!["gone", "indexed"]);
    assert_eq!(
        untracked_by_reset(&vec!["a".to_string(), "b".to_string()], &vec!["b".to_string()]),
        vec!["a"]
    );
}

#[test]
fn merged_trees_are_written_and_counted() {
    let (_, e) = store_of(&["hello\n"]);
    let exec = MergeTreeEntry { mode: TreeItemMode::BlobExecutable, ..e[0] };
    let files = items(&[("dir/a.txt", e[0]), ("run.sh", exec)]);
    let (root, _) = create_tree_from_items_map(&files, HashKind::Sha1).expect("plain paths");
    assert_eq!(root.to_string(), "09a3e54c3305a08aab9977334047314a219b78d0");
    assert_eq!(count_item_map_changes(&files, &items(&[("run.sh", e[0])])), 2);
    assert_eq!(count_item_map_changes(&files, &files), 0);
}

#[test]
fn differences_are_counted_by_line() {
    let delta = file_line_delta(&Some(b"a\nb\nc\n".to_vec()), &Some(b"a\nx\nc\nd\n".to_vec()));
    assert_eq!((delta.insertions, delta.deletions, delta.binary), (2, 1, false));
    let added = file_line_delta(&None, &Some(b"a\nb\n".to_vec()));
    assert_eq!((added.insertions, added.deletions), (2, 0));
    let binary = file_line_delta(&Some(b"\0".to_vec()), &Some(b"a".to_vec()));
    assert!(binary.binary);
}

#[test]
fn a_diffstat_has_a_line_for_each_file() {
    let row = StatRow {
        path: "f.txt".to_string(),
        insertions: 2,
        deletions: 1,
        binary: false,
        plus: 2,
        minus: 1,
    };
    let text = merge_diffstat(&vec![row]).expect("a row");
    assert!(text.contains("f.txt"));
    assert!(text.contains("++-"));
    assert!(text.contains("1 file changed, 2 insertions(+), 1 deletion(-)"));
    assert!(merge_diffstat(&Vec::new()).is_none());
    assert_eq!(bar_length(5, 10, 99), 5);
}

#[test]
fn other_repositories_are_no_files_of_a_commit() {
    let file = |path: &str, byte: u8, mode: TreeItemMode| TreeEntry {
        path: path.to_string(),
        entry: merge_entry(byte, mode),
    };
    let items = commit_tree_items(vec![
        file("a", 1, TreeItemMode::Blob),
        file("vendored", 2, TreeItemMode::Commit),
        file("b", 3, TreeItemMode::BlobExecutable),
        file("a", 4, TreeItemMode::Blob),
    ]);
    assert_eq!(items.get("a"), Some(merge_entry(4, TreeItemMode::Blob)));
    assert_eq!(items.get("b"), Some(merge_entry(3, TreeItemMode::BlobExecutable)));
    assert_eq!(items.get("vendored"), None);
}

#[test]
fn changed_files_are_counted() {
    let (store, entries) = store_of(&["one\ntwo\n", "one\nthree\nfour\n", "\0\x01"]);
    let before = items(&[("b", entries[0]), ("same", entries[0]), ("a-gone", entries[0])]);
    let after = items(&[("b", entries[1]), ("same", entries[0]), ("a/bin", entries[2])]);
    let files = changed_files(&before, &after, &store);
    let seen: Vec<(&str, usize, usize, bool)> = files
        .iter()
        .map(|f| (f.path.as_str(), f.delta.insertions, f.delta.deletions, f.delta.binary))
        .collect();
    assert_eq!(seen, vec![("a/bin", 0, 0, true), ("a-gone", 0, 2, false), ("b", 2, 1, false)]);
    assert_eq!(total_changed(&files), Some(5));
    assert_eq!(widest_change(&files), 3);
    let rows = stat_rows(&files, &vec![(0, 0), (0, 0), (0, 0)]);
    assert_eq!(
        merge_diffstat(&rows).as_deref(),
        Some(
            " a/bin  | Bin\n a-gone | 2 --\n b      | 3 ++-\n 3 files changed, 2 insertions(+), 3 deletions(-)"
        )
    );
    assert!(changed_files(&before, &before, &store).is_empty());
}
