//! Object names, paths, trees and texts.

use git_internal::hash::{HashKind as OutsideKind, ObjectHash};
use git_internal::internal::object::commit::Commit;
use git_internal::internal::object::signature::{Signature, SignatureType};
use git_internal::internal::object::tree::{Tree, TreeItem as OutsideItem, TreeItemMode as OutsideMode};
use git_internal::internal::object::ObjectTrait;
use libra::commit::objects::{commit_object, CommitSignature};
use libra::config::values::{config_ciphertext, stored_value};
use libra::object::{
    object_id_bytes, object_id_from_str, object_id_of_data, short_display_hash, HashKind, ObjectId,
    TreeItemMode,
};
use libra::paths::{
    components_of, names_of, parent_of, path_before, path_starts_with, plainly, sort_texts,
    text_before, tree_item_name,
};
use libra::text::{char_is_space, lines, split, to_lower, trim, wide_text};
use libra::tree::{build_tree, sort_tree_items_for_git, tree_data, NewTree, TreeFile, TreeItem};

fn id(text: &str) -> ObjectId {
    object_id_from_str(text).expect("a valid object name")
}

#[test]
fn names_of_objects_are_those_of_git() {
    let hello = object_id_of_data(HashKind::Sha1, "blob", &b"hello\n".to_vec());
    assert_eq!(hello.to_string(), "ce013625030ba8dba906f756967f9e9ca394464a");
    let tree = object_id_of_data(HashKind::Sha1, "tree", &Vec::new());
    assert_eq!(tree.to_string(), "4b825dc642cb6eb9a060e54bf8d69288fbee4904");
    let wide = object_id_of_data(HashKind::Sha256, "blob", &b"hello\n".to_vec());
    assert_eq!(
        wide.to_string(),
        "2cf8d83d9ee29543b34a87727421fdecb7e3f3a183d337639025de576db9ebb4"
    );
}

#[test]
fn object_names_are_read_back() {
    for text in [
        "ce013625030ba8dba906f756967f9e9ca394464a",
        "0000000000000000000000000000000000000000",
        "ffffffffffffffffffffffffffffffffffffffff",
        "2cf8d83d9ee29543b34a87727421fdecb7e3f3a183d337639025de576db9ebb4",
    ] {
        assert_eq!(id(text).to_string(), text);
    }
    assert_eq!(
        id("CE013625030BA8DBA906F756967F9E9CA394464A").to_string(),
        "ce013625030ba8dba906f756967f9e9ca394464a"
    );
    assert_eq!(ObjectId::zero(HashKind::Sha1).to_string(), "0".repeat(40));
    assert_eq!(ObjectId::zero(HashKind::Sha256).to_string(), "0".repeat(64));
}

#[test]
fn texts_that_are_no_object_names_are_refused() {
    for text in ["", "abc", "zz013625030ba8dba906f756967f9e9ca394464a"] {
        let error = object_id_from_str(text).expect_err("no object name");
        assert!(!error.is_empty());
        assert_ne!(error, text);
    }
}

#[test]
fn short_names_are_prefixes() {
    let hello = id("ce013625030ba8dba906f756967f9e9ca394464a");
    assert_eq!(short_display_hash(hello, 7), "ce01362");
    assert_eq!(short_display_hash(hello, 0), "");
    assert_eq!(short_display_hash(hello, 99), hello.to_string());
}

#[test]
fn bytes_of_a_name_are_its_digits() {
    let bytes = object_id_bytes(id("ce013625030ba8dba906f756967f9e9ca394464a"));
    assert_eq!(bytes.len(), 20);
    assert_eq!(&bytes[..3], &[0xce, 0x01, 0x36]);
    assert_eq!(bytes[19], 0x4a);
}

fn file(path: &[&str], mode: TreeItemMode) -> TreeFile {
    TreeFile {
        names: path.iter().map(|n| n.to_string()).collect(),
        mode,
        id: id("ce013625030ba8dba906f756967f9e9ca394464a"),
    }
}

#[test]
fn trees_have_the_names_that_git_gives_them() {
    let files = vec![
        file(&["run.sh"], TreeItemMode::BlobExecutable),
        file(&["dir", "a.txt"], TreeItemMode::Blob),
    ];
    let (root, trees) = build_tree(HashKind::Sha1, &files);
    assert_eq!(root.to_string(), "09a3e54c3305a08aab9977334047314a219b78d0");
    assert_eq!(trees.len(), 2);
    assert!(trees
        .iter()
        .any(|t| t.id.to_string() == "2e81171448eb9f2ee3821e3d447aa6b2fe3ddba1"));
    let (empty, _) = build_tree(HashKind::Sha256, &Vec::new());
    assert_eq!(
        empty.to_string(),
        "6ef19b41225c5369f1c104d45d8d85efa9b057b53b14b4b9b939dd74decc5321"
    );
}

#[test]
fn a_directory_is_sorted_with_a_slash_at_its_end() {
    let blob = id("ce013625030ba8dba906f756967f9e9ca394464a");
    let item = |name: &str, mode: TreeItemMode| TreeItem { mode, name: name.to_string(), id: blob };
    let sorted = sort_tree_items_for_git(vec![
        item("a0", TreeItemMode::Blob),
        item("a", TreeItemMode::Tree),
        item("a.b", TreeItemMode::Blob),
    ]);
    let names: Vec<&str> = sorted.iter().map(|i| i.name.as_str()).collect();
    assert_eq!(names, vec!["a.b", "a", "a0"]);
}

#[test]
fn paths_are_split_at_slashes() {
    assert_eq!(names_of("a//b/./c/"), vec!["a", "b", "c"]);
    assert_eq!(names_of("/a"), vec!["a"]);
    assert_eq!(components_of("/a/b"), vec!["/", "a", "b"]);
    assert!(path_starts_with("a/b/c", "a/b"));
    assert!(!path_starts_with("a/bc", "a/b"));
    assert_eq!(parent_of("a/b/c"), "a/b");
    assert_eq!(parent_of("a"), "");
    assert_eq!(tree_item_name("a/b.txt").expect("a name"), "b.txt");
    assert_eq!(tree_item_name("a/..").expect_err("no name"), "path has no file name: a/..");
}

#[test]
fn paths_are_compared_by_their_components() {
    assert!(path_starts_with("/a/b", "/"));
    assert!(!path_starts_with("/a/b", "a"));
    assert!(!path_starts_with("a/b", "/a"));
    assert!(path_starts_with("a//b/./c", "a/b/"));
    assert!(!path_starts_with("./a", "a"));
    assert_eq!(parent_of("/a"), "/");
    assert_eq!(parent_of("/"), "");
    assert_eq!(parent_of("./a"), ".");
    assert_eq!(parent_of("a//b/"), "a");
    assert_eq!(tree_item_name("a/.").expect("a name"), "a");
    assert!(tree_item_name("/").is_err());
    assert!(tree_item_name(".").is_err());
    assert_eq!(plainly("a//b/./c/"), "a/b/c");
    assert_eq!(plainly("./a"), "./a");
    assert_eq!(plainly("//a/"), "/a");
    assert_eq!(plainly("a/b"), "a/b");
    // The root comes first, and after it this directory, the one above, and names.
    assert!(path_before("/z", "./a"));
    assert!(path_before("./z", "../a"));
    assert!(path_before("../z", "-"));
    assert!(path_before("a//b", "a/c"));
    assert!(!path_before("a//b", "a/b"));
}

#[test]
fn paths_are_ordered_name_by_name() {
    assert!(path_before("a/b", "a-b"));
    assert!(!text_before("a/b", "a-b"));
    assert!(text_before("a", "ab"));
    assert!(!text_before("b", "b"));
    let sorted = sort_texts(
        vec!["b".to_string(), "a-b".to_string(), "a/b".to_string(), "a".to_string()],
        true,
    );
    assert_eq!(sorted, vec!["a", "a/b", "a-b", "b"]);
}

#[test]
fn white_space_is_that_of_unicode() {
    for n in 0..=0x10ffffu32 {
        if let Some(c) = char::from_u32(n) {
            assert_eq!(char_is_space(c), c.is_whitespace(), "U+{n:04X}");
        }
    }
}

#[test]
fn texts_are_handled_as_std_does() {
    for s in ["", " a b ", "\u{2003}x\u{3000}", "a\n", "a\r\nb", "\n\n", "a\rb"] {
        assert_eq!(trim(s), s.trim());
        assert_eq!(lines(s), s.lines().map(str::to_string).collect::<Vec<_>>());
        assert_eq!(split(s, '\n'), s.split('\n').map(str::to_string).collect::<Vec<_>>());
        assert_eq!(to_lower(s), s.to_ascii_lowercase());
    }
    assert_eq!(to_lower("\u{c4}BC"), "\u{c4}bc");
    for n in [0, 7, -1, i64::MIN, i64::MAX] {
        assert_eq!(wide_text(n), n.to_string());
    }
}

#[test]
fn stored_ciphertext_is_read_back() {
    let bytes = vec![0u8, 1, 0x7f, 0xab, 0xff];
    let stored = stored_value("secret", &Some(bytes.clone()));
    assert_eq!(stored, "00017fabff");
    assert_eq!(config_ciphertext(&stored, "local", true).expect("digits"), bytes);
    assert_eq!(config_ciphertext("00017FABFF", "local", true).expect("digits"), bytes);
    assert_eq!(stored_value("plain", &None), "plain");
}

#[test]
fn ciphertext_needs_an_open_vault_and_digits() {
    assert_eq!(
        config_ciphertext("00", "global", false).expect_err("sealed"),
        "vault not initialized for global scope \u{2014} cannot decrypt"
    );
    let odd = config_ciphertext("000", "local", true).expect_err("an odd number of digits");
    assert!(odd.starts_with("failed to decode encrypted value: "));
    assert_ne!(odd, "failed to decode encrypted value: 000");
    assert!(config_ciphertext("0g", "local", true).is_err());
}

/// The files that are found from the root of some trees.
fn listed(trees: &[NewTree], root: ObjectId, prefix: &str) -> Vec<String> {
    let tree = trees.iter().find(|t| t.id == root).expect("every tree was built");
    let mut out = Vec::new();
    for item in &tree.items {
        let path = format!("{prefix}{}", item.name);
        if item.mode == TreeItemMode::Tree {
            out.extend(listed(trees, item.id, &format!("{path}/")));
        } else {
            out.push(path);
        }
    }
    out
}

#[test]
fn a_built_tree_holds_its_files_and_nothing_else() {
    let files = vec![
        file(&["a", "b", "c"], TreeItemMode::Blob),
        file(&["a", "d"], TreeItemMode::BlobExecutable),
        file(&["a.txt"], TreeItemMode::Blob),
        file(&["z", "b", "c"], TreeItemMode::Link),
    ];
    for kind in [HashKind::Sha1, HashKind::Sha256] {
        let (root, trees) = build_tree(kind, &files);
        assert_eq!(listed(&trees, root, ""), vec!["a.txt", "a/b/c", "a/d", "z/b/c"]);
        assert_eq!(trees.last().map(|t| t.id), Some(root));
    }
}

fn outside(id: ObjectId) -> ObjectHash {
    id.to_string().parse().expect("an object name")
}

#[test]
fn trees_and_commits_are_those_of_git_internal() {
    let files = vec![
        file(&["run.sh"], TreeItemMode::BlobExecutable),
        file(&["link"], TreeItemMode::Link),
        file(&["module"], TreeItemMode::Commit),
        file(&["dir", "a.txt"], TreeItemMode::Blob),
    ];
    let (root, trees) = build_tree(HashKind::Sha1, &files);
    for new in &trees {
        let items = new
            .items
            .iter()
            .map(|item| {
                let mode = match item.mode {
                    TreeItemMode::Blob => OutsideMode::Blob,
                    TreeItemMode::BlobExecutable => OutsideMode::BlobExecutable,
                    TreeItemMode::Link => OutsideMode::Link,
                    TreeItemMode::Tree => OutsideMode::Tree,
                    TreeItemMode::Commit => OutsideMode::Commit,
                };
                OutsideItem::new(mode, outside(item.id), item.name.clone())
            })
            .collect();
        let tree = Tree::from_tree_items_with_kind(OutsideKind::Sha1, items).unwrap();
        assert_eq!(tree.id, outside(new.id));
        assert_eq!(tree.to_data().unwrap(), tree_data(&new.items));
    }
    let by = CommitSignature {
        name: "A".to_string(),
        email: "a@x".to_string(),
        timestamp: 7,
        timezone: "-0130".to_string(),
    };
    let signature = |signature_type: SignatureType| Signature {
        signature_type,
        name: by.name.clone(),
        email: by.email.clone(),
        timestamp: by.timestamp,
        timezone: by.timezone.clone(),
    };
    let parents = vec![root, id("ce013625030ba8dba906f756967f9e9ca394464a")];
    let (name, data) = commit_object(HashKind::Sha1, root, &parents, &by, &by, "\nsubject\n");
    let commit = Commit::new_with_kind(
        OutsideKind::Sha1,
        signature(SignatureType::Author),
        signature(SignatureType::Committer),
        outside(root),
        parents.iter().map(|parent| outside(*parent)).collect(),
        "\nsubject\n",
    )
    .unwrap();
    assert_eq!(commit.id, outside(name));
    assert_eq!(commit.to_data().unwrap(), data);
}
