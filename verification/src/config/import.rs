//! Taking values over from Git's configuration.

use vstd::prelude::*;

use crate::config::values::ConfigKvEntry;
use crate::config::{scope_name, scope_text, ConfigScope};
use crate::merge::whitespace::{utf8_lossy, utf8_lossy_text};
use crate::text::{
    chars_of, concat2, concat3, concat4, concat5, contains_char, decimal, has_prefix, join, join_seq,
    opt_text, string_of, strip_prefix, text_eq, texts, trim, trim_seq, usize_text,
};

verus! {

// What Git lists

/// What Git is asked for.
pub fn git_list_args(scope: ConfigScope) -> (r: Vec<String>)
    ensures
        texts(r@) == (match scope {
            ConfigScope::Local => seq!["config"@, "--local"@, "--list"@, "-z"@],
            ConfigScope::Global => seq!["config"@, "--global"@, "--list"@, "-z"@, "--no-includes"@],
        }),
{
    let mut args: Vec<String> = Vec::new();
    args.push("config".to_owned());
    match scope {
        ConfigScope::Local => {
            args.push("--local".to_owned());
            args.push("--list".to_owned());
            args.push("-z".to_owned());
            assert(texts(args@) =~= seq!["config"@, "--local"@, "--list"@, "-z"@]);
        },
        ConfigScope::Global => {
            args.push("--global".to_owned());
            args.push("--list".to_owned());
            args.push("-z".to_owned());
            args.push("--no-includes".to_owned());
            assert(texts(args@) =~= seq![
                "config"@,
                "--global"@,
                "--list"@,
                "-z"@,
                "--no-includes"@,
            ]);
        },
    }
    args
}

/// The error where Git fails, with what it said.
pub open spec fn import_error(scope: ConfigScope, said: Seq<char>) -> Seq<char> {
    let told = trim_seq(said);
    let detail = if has_prefix(told, "fatal: "@) {
        told.skip("fatal: "@.len() as int)
    } else {
        told
    };
    "error: failed to import Git "@ + scope_text(scope) + " config"@ + (if told.len() == 0 {
        Seq::empty()
    } else {
        "\n  "@ + detail
    }) + (match scope {
        ConfigScope::Local => "\n\nhint: Run this command inside a Git repository, or use `--global`."@,
        ConfigScope::Global => Seq::empty(),
    })
}

/// Say that Git failed, from what it wrote to its standard error.
pub fn git_import_failure(scope: ConfigScope, stderr: &Vec<u8>) -> (r: String)
    ensures
        r@ == import_error(scope, utf8_lossy_text(stderr@)),
{
    let said = utf8_lossy(stderr.as_slice());
    let told = trim(said.as_str());
    let head = concat3("error: failed to import Git ", scope_name(scope), " config");
    let with_detail = if told.as_str().unicode_len() == 0 {
        assert(head@ + Seq::<char>::empty() =~= head@);
        head
    } else {
        let detail = match strip_prefix(told.as_str(), "fatal: ") {
            Some(d) => d,
            None => told,
        };
        let line = concat2("\n  ", detail.as_str());
        concat2(head.as_str(), line.as_str())
    };
    match scope {
        ConfigScope::Local => concat2(
            with_detail.as_str(),
            "\n\nhint: Run this command inside a Git repository, or use `--global`.",
        ),
        ConfigScope::Global => {
            assert(with_detail@ + Seq::<char>::empty() =~= with_detail@);
            with_detail
        },
    }
}

/// The runs of bytes between NUL bytes.
pub open spec fn chunks(data: Seq<u8>) -> Seq<Seq<u8>>
    decreases data.len(),
{
    if data.len() == 0 {
        Seq::empty()
    } else {
        let head = chunks(data.drop_last());
        if data.last() == 0 {
            head
        } else if data.len() == 1 || data[data.len() - 2] == 0 {
            head.push(seq![data.last()])
        } else {
            head.update(head.len() - 1, head.last().push(data.last()))
        }
    }
}

/// What stands before the first line feed.
pub open spec fn first_line(s: Seq<char>) -> Seq<char>
    decreases s.len(),
{
    if s.len() == 0 || s[0] == '\n' {
        Seq::empty()
    } else {
        seq![s[0]] + first_line(s.drop_first())
    }
}

/// A key and a value: the key is the first line, and the value the rest; a key alone is true.
pub open spec fn listed_item(text: Seq<char>) -> (Seq<char>, Seq<char>) {
    let key = first_line(text);
    (
        trim_seq(key),
        if key.len() < text.len() {
            text.skip((key.len() + 1) as int)
        } else {
            "true"@
        },
    )
}

/// The items that Git listed under keys with a section, in order.
pub open spec fn valid_items(parts: Seq<Seq<u8>>) -> Seq<(Seq<char>, Seq<char>)>
    decreases parts.len(),
{
    if parts.len() == 0 {
        Seq::empty()
    } else {
        let head = valid_items(parts.drop_last());
        let item = listed_item(utf8_lossy_text(parts.last()));
        if item.0.contains('.') {
            head.push(item)
        } else {
            head
        }
    }
}

/// A key and a value that Git listed.
#[derive(Debug, Clone)]
pub struct GitItem {
    pub key: String,
    pub value: String,
}

pub open spec fn item_views(v: Seq<GitItem>) -> Seq<(Seq<char>, Seq<char>)> {
    v.map_values(|i: GitItem| (i.key@, i.value@))
}

proof fn lemma_first_line(s: Seq<char>, n: int)
    requires
        0 <= n <= s.len(),
        forall|i: int| 0 <= i < n ==> #[trigger] s[i] != '\n',
        n == s.len() || s[n] == '\n',
    ensures
        first_line(s) == s.take(n),
    decreases s.len(),
{
    if n == 0 {
        assert(s.take(0) =~= Seq::<char>::empty());
    } else {
        assert(s[0] != '\n');
        let t = s.drop_first();
        assert forall|i: int| 0 <= i < n - 1 implies #[trigger] t[i] != '\n' by {
            assert(t[i] == s[i + 1]);
        }
        lemma_first_line(t, n - 1);
        assert(seq![s[0]] + t.take(n - 1) =~= s.take(n));
    }
}

fn parse_item(text: &str) -> (r: GitItem)
    ensures
        (r.key@, r.value@) == listed_item(text@),
{
    let cs = chars_of(text);
    let mut n: usize = 0;
    while n < cs.len() && cs[n] != '\n'
        invariant
            n <= cs@.len(),
            forall|i: int| 0 <= i < n ==> #[trigger] cs@[i] != '\n',
        decreases cs.len() - n,
    {
        n = n + 1;
    }
    proof {
        lemma_first_line(text@, n as int);
    }
    let line = string_of(&cs, 0, n);
    assert(line@ =~= text@.take(n as int));
    let key = trim(line.as_str());
    let value = if n < cs.len() {
        let v = string_of(&cs, n + 1, cs.len());
        assert(v@ =~= text@.skip(n + 1));
        v
    } else {
        "true".to_owned()
    };
    GitItem { key, value }
}

/// What Git listed.
#[derive(Debug)]
pub struct GitListing {
    pub items: Vec<GitItem>,
    /// How many items had no section
    pub ignored: usize,
}

pub open spec fn bytes_views(v: Seq<Vec<u8>>) -> Seq<Seq<u8>> {
    v.map_values(|c: Vec<u8>| c@)
}

fn split_chunks(data: &Vec<u8>) -> (r: Vec<Vec<u8>>)
    ensures
        bytes_views(r@) == chunks(data@),
        r@.len() <= data@.len(),
{
    let mut out: Vec<Vec<u8>> = Vec::new();
    let mut current: Vec<u8> = Vec::new();
    let mut i: usize = 0;
    // What has been split: the finished runs, and the one that is being read.
    assert(bytes_views(out@) =~= chunks(data@.take(0)));
    while i < data.len()
        invariant
            i <= data@.len(),
            out@.len() + current@.len() <= i,
            chunks(data@.take(i as int)) == if current@.len() == 0 {
                bytes_views(out@)
            } else {
                bytes_views(out@).push(current@)
            },
            current@.len() == 0 <==> i == 0 || data@[i - 1] == 0,
        decreases data.len() - i,
    {
        let ghost more = data@.take(i + 1);
        assert(more.drop_last() =~= data@.take(i as int));
        assert(more.last() == data@[i as int]);
        let ghost before = out@;
        let ghost run = current@;
        let b: u8 = data[i];
        if b == 0 {
            if current.len() > 0 {
                out.push(current);
                assert(bytes_views(out@) =~= bytes_views(before).push(run));
                current = Vec::new();
            }
        } else {
            current.push(b);
            proof {
                if run.len() == 0 {
                    if i > 0 {
                        assert(more[more.len() - 2] == data@[i - 1]);
                    }
                    assert(current@ =~= seq![b]);
                } else {
                    assert(more[more.len() - 2] == data@[i - 1]);
                    let head = bytes_views(before).push(run);
                    assert(head.update(head.len() - 1, head.last().push(b)) =~= bytes_views(
                        before,
                    ).push(current@));
                }
            }
        }
        i = i + 1;
    }
    assert(data@.take(i as int) =~= data@);
    if current.len() > 0 {
        let ghost before = out@;
        let ghost run = current@;
        out.push(current);
        assert(bytes_views(out@) =~= bytes_views(before).push(run));
    }
    out
}

/// Read what `git config --list -z` wrote.
pub fn parse_git_listing(stdout: &Vec<u8>) -> (r: GitListing)
    ensures
        item_views(r.items@) == valid_items(chunks(stdout@)),
        r.ignored + r.items@.len() == chunks(stdout@).len(),
{
    let parts = split_chunks(stdout);
    let ghost all = bytes_views(parts@);
    let mut items: Vec<GitItem> = Vec::new();
    let mut ignored: usize = 0;
    let mut i: usize = 0;
    assert(item_views(items@) =~= valid_items(all.take(0)));
    while i < parts.len()
        invariant
            i <= parts@.len(),
            all == bytes_views(parts@),
            item_views(items@) == valid_items(all.take(i as int)),
            ignored + items@.len() == i,
        decreases parts.len() - i,
    {
        assert(all.take(i + 1).drop_last() =~= all.take(i as int));
        assert(all.take(i + 1).last() == parts@[i as int]@);
        let text = utf8_lossy(parts[i].as_slice());
        let item = parse_item(text.as_str());
        if contains_char(item.key.as_str(), '.') {
            let ghost before = items@;
            items.push(item);
            assert(item_views(items@) =~= item_views(before).push((item.key@, item.value@)));
        } else {
            ignored = ignored + 1;
        }
        i = i + 1;
    }
    assert(all.take(i as int) =~= all);
    GitListing { items, ignored }
}

// Which keys have several values

/// What stands behind the last dot.
pub open spec fn after_last_dot(s: Seq<char>) -> Option<Seq<char>>
    decreases s.len(),
{
    if s.len() == 0 {
        None
    } else if s.last() == '.' {
        Some(Seq::empty())
    } else {
        match after_last_dot(s.drop_last()) {
            Some(t) => Some(t.push(s.last())),
            None => None,
        }
    }
}

/// The last names of keys that may have several values.
pub open spec fn is_multi_leaf(leaf: Seq<char>) -> bool {
    leaf == "fetch"@ || leaf == "push"@ || leaf == "pushurl"@ || leaf == "merge"@ || leaf
        == "insteadOf"@ || leaf == "pushInsteadOf"@ || leaf == "extraHeader"@
}

/// Whether a key starts with a section and ends in such a name, with something between that holds
/// a dot.
pub open spec fn multi_under(key: Seq<char>, section: Seq<char>) -> bool {
    has_prefix(key, section) && match after_last_dot(key.skip(section.len() as int)) {
        Some(leaf) => is_multi_leaf(leaf),
        None => false,
    }
}

pub open spec fn is_multi_key(key: Seq<char>) -> bool {
    key == "credential.helper"@ || multi_under(key, "remote."@) || multi_under(key, "branch."@)
        || multi_under(key, "url."@) || multi_under(key, "http."@)
}

proof fn lemma_after_last_dot(s: Seq<char>, n: int)
    requires
        0 <= n <= s.len(),
        forall|i: int| n <= i < s.len() ==> #[trigger] s[i] != '.',
        n == 0 || s[n - 1] == '.',
    ensures
        after_last_dot(s) == (if n == 0 {
            None
        } else {
            Some(s.skip(n))
        }),
    decreases s.len(),
{
    if s.len() > 0 {
        if n == s.len() {
            assert(s.skip(n) =~= Seq::<char>::empty());
        } else {
            assert(s[s.len() - 1] != '.');
            let t = s.drop_last();
            assert forall|i: int| n <= i < t.len() implies #[trigger] t[i] != '.' by {
                assert(t[i] == s[i]);
            }
            lemma_after_last_dot(t, n);
            if n > 0 {
                assert(t.skip(n).push(s.last()) =~= s.skip(n));
            }
        }
    }
}

fn last_leaf(s: &str) -> (r: Option<String>)
    ensures
        opt_text(r) == after_last_dot(s@),
{
    let cs = chars_of(s);
    let mut n: usize = cs.len();
    while n > 0 && cs[n - 1] != '.'
        invariant
            n <= cs@.len(),
            forall|i: int| n <= i < cs@.len() ==> #[trigger] cs@[i] != '.',
        decreases n,
    {
        n = n - 1;
    }
    proof {
        lemma_after_last_dot(s@, n as int);
    }
    if n == 0 {
        None
    } else {
        let r = string_of(&cs, n, cs.len());
        assert(r@ =~= s@.skip(n as int));
        Some(r)
    }
}

fn has_multi_leaf(key: &str, section: &str) -> (r: bool)
    ensures
        r == multi_under(key@, section@),
{
    match strip_prefix(key, section) {
        Some(rest) => match last_leaf(rest.as_str()) {
            Some(leaf) => {
                let l = leaf.as_str();
                text_eq(l, "fetch") || text_eq(l, "push") || text_eq(l, "pushurl") || text_eq(l, "merge")
                    || text_eq(l, "insteadOf") || text_eq(l, "pushInsteadOf") || text_eq(l, "extraHeader")
            },
            None => false,
        },
        None => false,
    }
}

/// Whether all values of a key are taken over, and not only the last.
pub fn is_known_multi_value_key(key: &str) -> (r: bool)
    ensures
        r == is_multi_key(key@),
{
    text_eq(key, "credential.helper") || has_multi_leaf(key, "remote.") || has_multi_leaf(
        key,
        "branch.",
    ) || has_multi_leaf(key, "url.") || has_multi_leaf(key, "http.")
}

// What is taken over

/// The last value of a key, and how many it has.
#[derive(Debug, Clone)]
pub struct LastValue {
    pub key: String,
    pub value: String,
    pub count: usize,
}

pub struct LastView {
    pub key: Seq<char>,
    pub value: Seq<char>,
    pub count: nat,
}

impl View for LastValue {
    type V = LastView;

    open spec fn view(&self) -> LastView {
        LastView { key: self.key@, value: self.value@, count: self.count as nat }
    }
}

pub open spec fn last_views(v: Seq<LastValue>) -> Seq<LastView> {
    v.map_values(|l: LastValue| l@)
}

/// Where a key stands in a list, if it does.
pub open spec fn place_of(lasts: Seq<LastView>, key: Seq<char>) -> Option<int>
    decreases lasts.len(),
{
    if lasts.len() == 0 {
        None
    } else if lasts.last().key == key {
        Some(lasts.len() - 1)
    } else {
        place_of(lasts.drop_last(), key)
    }
}

/// The list with one more value of a key.
pub open spec fn with_value(lasts: Seq<LastView>, key: Seq<char>, value: Seq<char>) -> Seq<LastView> {
    match place_of(lasts, key) {
        Some(i) => lasts.update(i, LastView { key, value, count: lasts[i].count + 1 }),
        None => lasts.push(LastView { key, value, count: 1 }),
    }
}

/// The values of keys that may have several, in order.
pub open spec fn multi_items(items: Seq<(Seq<char>, Seq<char>)>) -> Seq<(Seq<char>, Seq<char>)>
    decreases items.len(),
{
    if items.len() == 0 {
        Seq::empty()
    } else if is_multi_key(items.last().0) {
        multi_items(items.drop_last()).push(items.last())
    } else {
        multi_items(items.drop_last())
    }
}

/// The other keys, each once, with its last value and the number of its values.
pub open spec fn single_items(items: Seq<(Seq<char>, Seq<char>)>) -> Seq<LastView>
    decreases items.len(),
{
    if items.len() == 0 {
        Seq::empty()
    } else if is_multi_key(items.last().0) {
        single_items(items.drop_last())
    } else {
        with_value(single_items(items.drop_last()), items.last().0, items.last().1)
    }
}

/// What is to be taken over.
#[derive(Debug)]
pub struct ImportPlan {
    /// Values to add, each beside the others of its key
    pub multi: Vec<GitItem>,
    /// Values to set
    pub single: Vec<LastValue>,
}

fn find_last(lasts: &Vec<LastValue>, key: &str) -> (r: Option<usize>)
    ensures
        match (r, place_of(last_views(lasts@), key@)) {
            (Some(i), Some(want)) => i == want && i < lasts@.len(),
            (None, None) => true,
            _ => false,
        },
{
    let ghost all = last_views(lasts@);
    let mut n: usize = lasts.len();
    assert(all.take(n as int) =~= all);
    while n > 0
        invariant
            n <= lasts@.len(),
            all == last_views(lasts@),
            place_of(all, key@) == place_of(all.take(n as int), key@),
        decreases n,
    {
        assert(all.take(n as int).last() == lasts@[n - 1]@);
        assert(all.take(n as int).drop_last() =~= all.take(n - 1));
        if text_eq(lasts[n - 1].key.as_str(), key) {
            return Some(n - 1);
        }
        n = n - 1;
    }
    assert(all.take(0) =~= Seq::<LastView>::empty());
    None
}

/// Plan what is taken over: every value of a key that may have several, and the last value of any
/// other key.
pub fn plan_import(items: &Vec<GitItem>) -> (r: ImportPlan)
    ensures
        item_views(r.multi@) == multi_items(item_views(items@)),
        last_views(r.single@) == single_items(item_views(items@)),
{
    let ghost all = item_views(items@);
    let mut multi: Vec<GitItem> = Vec::new();
    let mut single: Vec<LastValue> = Vec::new();
    let mut i: usize = 0;
    assert(item_views(multi@) =~= multi_items(all.take(0)));
    assert(last_views(single@) =~= single_items(all.take(0)));
    while i < items.len()
        invariant
            i <= items@.len(),
            all == item_views(items@),
            item_views(multi@) == multi_items(all.take(i as int)),
            last_views(single@) == single_items(all.take(i as int)),
            forall|j: int| 0 <= j < single@.len() ==> (#[trigger] single@[j]).count <= i,
        decreases items.len() - i,
    {
        assert(all.take(i + 1).drop_last() =~= all.take(i as int));
        assert(all.take(i + 1).last() == (items@[i as int].key@, items@[i as int].value@));
        let key = items[i].key.clone();
        let value = items[i].value.clone();
        if is_known_multi_value_key(key.as_str()) {
            let ghost before = multi@;
            multi.push(GitItem { key, value });
            assert(item_views(multi@) =~= item_views(before).push((key@, value@)));
        } else {
            let ghost before = single@;
            match find_last(&single, key.as_str()) {
                Some(k) => {
                    let count: usize = single[k].count;
                    assert(last_views(before)[k as int] == before[k as int]@);
                    single.set(k, LastValue { key, value, count: count + 1 });
                    assert(last_views(single@) =~= with_value(last_views(before), key@, value@));
                    assert forall|j: int| 0 <= j < single@.len() implies (#[trigger] single@[j]).count
                        <= i + 1 by {
                        if j != k {
                            assert(single@[j] == before[j]);
                        }
                    }
                },
                None => {
                    single.push(LastValue { key, value, count: 1 });
                    assert(last_views(single@) =~= with_value(last_views(before), key@, value@));
                    assert forall|j: int| 0 <= j < single@.len() implies (#[trigger] single@[j]).count
                        <= i + 1 by {
                        if j < before.len() {
                            assert(single@[j] == before[j]);
                        }
                    }
                },
            }
        }
        i = i + 1;
    }
    assert(all.take(i as int) =~= all);
    ImportPlan { multi, single }
}

/// How many values a key has.
pub open spec fn value_count(items: Seq<(Seq<char>, Seq<char>)>, key: Seq<char>) -> nat
    decreases items.len(),
{
    if items.len() == 0 {
        0
    } else {
        value_count(items.drop_last(), key) + if items.last().0 == key {
            1nat
        } else {
            0
        }
    }
}

/// The last value of a key.
pub open spec fn last_value(items: Seq<(Seq<char>, Seq<char>)>, key: Seq<char>) -> Option<Seq<char>>
    decreases items.len(),
{
    if items.len() == 0 {
        None
    } else if items.last().0 == key {
        Some(items.last().1)
    } else {
        last_value(items.drop_last(), key)
    }
}

proof fn lemma_place_of(lasts: Seq<LastView>, key: Seq<char>)
    ensures
        match place_of(lasts, key) {
            Some(i) => 0 <= i < lasts.len() && lasts[i].key == key,
            None => forall|i: int| 0 <= i < lasts.len() ==> (#[trigger] lasts[i]).key != key,
        },
    decreases lasts.len(),
{
    if lasts.len() > 0 && lasts.last().key != key {
        lemma_place_of(lasts.drop_last(), key);
        if place_of(lasts.drop_last(), key) is None {
            assert forall|i: int| 0 <= i < lasts.len() implies (#[trigger] lasts[i]).key != key by {
                if i < lasts.len() - 1 {
                    assert(lasts.drop_last()[i] == lasts[i]);
                }
            }
        }
    }
}

/// Where a key that has one value in all stands in the plan: once, with its last value and with the
/// number of its values.
pub open spec fn is_planned(items: Seq<(Seq<char>, Seq<char>)>, l: LastView) -> bool {
    &&& !is_multi_key(l.key)
    &&& l.count == value_count(items, l.key)
    &&& last_value(items, l.key) == Some(l.value)
}

/// A key that is not known to have several values is taken over once, with the last of its values.
pub proof fn law_last_value_is_imported(items: Seq<(Seq<char>, Seq<char>)>)
    ensures
        forall|i: int|
            0 <= i < single_items(items).len() ==> is_planned(items, #[trigger] single_items(items)[i]),
        forall|i: int, j: int|
            0 <= i < j < single_items(items).len() ==> (#[trigger] single_items(items)[i]).key != (
            #[trigger] single_items(items)[j]).key,
        forall|key: Seq<char>|
            #[trigger] value_count(items, key) > 0 && !is_multi_key(key) ==> place_of(
                single_items(items),
                key,
            ) is Some,
    decreases items.len(),
{
    if items.len() > 0 {
        let head = items.drop_last();
        let before = single_items(head);
        let after = single_items(items);
        let (k, v) = items.last();
        law_last_value_is_imported(head);
        lemma_place_of(before, k);
        assert forall|i: int| 0 <= i < after.len() implies is_planned(items, #[trigger] after[i]) by {
            if i < before.len() {
                assert(is_planned(head, before[i]));
                if after[i].key != k {
                    assert(after[i] == before[i]);
                } else if is_multi_key(k) {
                    assert(after[i] == before[i]);
                }
            } else {
                assert(value_count(head, k) == 0);
            }
        }
        assert forall|i: int, j: int| 0 <= i < j < after.len() implies (#[trigger] after[i]).key != (
        #[trigger] after[j]).key by {
            if j < before.len() {
                assert(before[i].key != before[j].key);
                assert(after[i].key == before[i].key);
                assert(after[j].key == before[j].key);
            } else {
                assert(after[i] == before[i]);
            }
        }
        assert forall|key: Seq<char>|
            #[trigger] value_count(items, key) > 0 && !is_multi_key(key) implies place_of(
            after,
            key,
        ) is Some by {
            lemma_place_of(after, key);
            lemma_place_of(before, key);
            if key == k {
                match place_of(before, k) {
                    Some(i) => {
                        assert(after[i].key == k);
                    },
                    None => {
                        assert(after[after.len() - 1].key == k);
                    },
                }
            } else {
                assert(value_count(head, key) > 0);
                let i = place_of(before, key)->0;
                assert(after[i].key == key);
            }
        }
    }
}

/// What happens to a value.
#[derive(Debug, Clone, Copy, PartialEq, Eq, Structural)]
pub enum ImportDecision {
    /// It is stored already
    Skip,
    Store { encrypt: bool },
}

/// Decide about a value that is added beside others: it is skipped where one of them is the same.
pub fn decide_multi(existing: &Vec<ConfigKvEntry>, value: &str, sensitive: bool) -> (r: ImportDecision)
    ensures
        r == if exists|i: int| 0 <= i < existing@.len() && (#[trigger] existing@[i]).value@ == value@ {
            ImportDecision::Skip
        } else {
            ImportDecision::Store { encrypt: sensitive }
        },
{
    let mut i: usize = 0;
    while i < existing.len()
        invariant
            i <= existing@.len(),
            forall|j: int| 0 <= j < i ==> (#[trigger] existing@[j]).value@ != value@,
        decreases existing.len() - i,
    {
        if text_eq(existing[i].value.as_str(), value) {
            assert(existing@[i as int].value@ == value@);
            return ImportDecision::Skip;
        }
        i = i + 1;
    }
    ImportDecision::Store { encrypt: sensitive }
}

/// Decide about a value that is set: it is skipped where the key has it.
pub fn decide_single(existing: &Option<ConfigKvEntry>, value: &str, sensitive: bool) -> (r:
    ImportDecision)
    ensures
        r == (match *existing {
            Some(e) if e.value@ == value@ => ImportDecision::Skip,
            _ => ImportDecision::Store { encrypt: sensitive },
        }),
{
    if let Some(e) = existing {
        if text_eq(e.value.as_str(), value) {
            return ImportDecision::Skip;
        }
    }
    ImportDecision::Store { encrypt: sensitive }
}

// What is told

/// What an import did.
#[derive(Debug, Clone, Copy, PartialEq, Eq, Structural)]
pub struct ConfigImportSummary {
    pub scope: ConfigScope,
    pub imported: usize,
    pub skipped_duplicates: usize,
    pub ignored_invalid: usize,
    pub auto_encrypted: usize,
    pub collapsed_multivalue_warnings: usize,
}

pub open spec fn is_skip(d: ImportDecision) -> bool {
    d == ImportDecision::Skip
}

pub open spec fn is_encrypting(d: ImportDecision) -> bool {
    d == ImportDecision::Store { encrypt: true }
}

/// How many decisions skip a value.
pub open spec fn skips(ds: Seq<ImportDecision>) -> nat
    decreases ds.len(),
{
    if ds.len() == 0 {
        0
    } else {
        skips(ds.drop_last()) + if is_skip(ds.last()) {
            1nat
        } else {
            0
        }
    }
}

/// How many decisions encrypt a value.
pub open spec fn encryptions(ds: Seq<ImportDecision>) -> nat
    decreases ds.len(),
{
    if ds.len() == 0 {
        0
    } else {
        encryptions(ds.drop_last()) + if is_encrypting(ds.last()) {
            1nat
        } else {
            0
        }
    }
}

/// How many keys had more values than the one that was kept.
pub open spec fn collapsed(lasts: Seq<LastView>) -> nat
    decreases lasts.len(),
{
    if lasts.len() == 0 {
        0
    } else {
        collapsed(lasts.drop_last()) + if lasts.last().count > 1 {
            1nat
        } else {
            0
        }
    }
}

/// Sum up an import from the decisions about its values.
pub fn summarize_import(
    scope: ConfigScope,
    ignored: usize,
    single: &Vec<LastValue>,
    decisions: &Vec<ImportDecision>,
) -> (r: ConfigImportSummary)
    ensures
        r.scope == scope,
        r.ignored_invalid == ignored,
        r.skipped_duplicates == skips(decisions@),
        r.imported + r.skipped_duplicates == decisions@.len(),
        r.auto_encrypted == encryptions(decisions@),
        r.collapsed_multivalue_warnings == collapsed(last_views(single@)),
{
    let mut imported: usize = 0;
    let mut skipped: usize = 0;
    let mut encrypted: usize = 0;
    let mut i: usize = 0;
    while i < decisions.len()
        invariant
            i <= decisions@.len(),
            imported + skipped == i,
            encrypted <= imported,
            skipped == skips(decisions@.take(i as int)),
            encrypted == encryptions(decisions@.take(i as int)),
        decreases decisions.len() - i,
    {
        assert(decisions@.take(i + 1).drop_last() =~= decisions@.take(i as int));
        assert(decisions@.take(i + 1).last() == decisions@[i as int]);
        match decisions[i] {
            ImportDecision::Skip => {
                skipped = skipped + 1;
            },
            ImportDecision::Store { encrypt } => {
                imported = imported + 1;
                if encrypt {
                    encrypted = encrypted + 1;
                }
            },
        }
        i = i + 1;
    }
    assert(decisions@.take(i as int) =~= decisions@);
    let ghost all = last_views(single@);
    let mut warnings: usize = 0;
    let mut j: usize = 0;
    while j < single.len()
        invariant
            j <= single@.len(),
            all == last_views(single@),
            warnings <= j,
            warnings == collapsed(all.take(j as int)),
        decreases single.len() - j,
    {
        assert(all.take(j + 1).drop_last() =~= all.take(j as int));
        assert(all.take(j + 1).last() == single@[j as int]@);
        if single[j].count > 1 {
            warnings = warnings + 1;
        }
        j = j + 1;
    }
    assert(all.take(j as int) =~= all);
    ConfigImportSummary {
        scope,
        imported,
        skipped_duplicates: skipped,
        ignored_invalid: ignored,
        auto_encrypted: encrypted,
        collapsed_multivalue_warnings: warnings,
    }
}

pub open spec fn collapse_warning(l: LastView) -> Option<Seq<char>> {
    if l.count > 1 {
        Some(
            "key '"@ + l.key + "' has "@ + decimal(l.count)
                + " values in Git config, only last value kept (not in known multi-value list)"@,
        )
    } else {
        None
    }
}

/// Warn of a key of which only the last value was kept.
pub fn collapse_warning_text(last: &LastValue) -> (r: Option<String>)
    ensures
        opt_text(r) == collapse_warning(last@),
{
    if last.count > 1 {
        let n = usize_text(last.count);
        Some(
            concat5(
                "key '",
                last.key.as_str(),
                "' has ",
                n.as_str(),
                " values in Git config, only last value kept (not in known multi-value list)",
            ),
        )
    } else {
        None
    }
}

/// Warn of items that had no section.
pub fn ignored_warning_text(ignored: usize) -> (r: Option<String>)
    ensures
        opt_text(r) == if ignored > 0 {
            Some("ignored "@ + decimal(ignored as nat) + " unsupported Git config entries"@)
        } else {
            None
        },
{
    if ignored > 0 {
        let n = usize_text(ignored);
        Some(concat3("ignored ", n.as_str(), " unsupported Git config entries"))
    } else {
        None
    }
}

pub open spec fn counted(n: nat, what: Seq<char>) -> Seq<Seq<char>> {
    if n > 0 {
        seq![decimal(n) + what]
    } else {
        Seq::empty()
    }
}

/// The text of a summary.
pub open spec fn summary_text(s: ConfigImportSummary) -> Seq<char> {
    let scope = scope_text(s.scope);
    let head = if s.imported > 0 {
        "Imported "@ + decimal(s.imported as nat) + " entries from Git "@ + scope
            + " config \u{2192} libra "@ + scope + " config\n"@
    } else {
        "No new entries to import from Git "@ + scope + " config.\n"@
    };
    let details = counted(s.skipped_duplicates as nat, " duplicates"@) + counted(
        s.ignored_invalid as nat,
        " invalid keys"@,
    );
    head + (if details.len() > 0 {
        "  skipped: "@ + join_seq(details, ", "@) + "\n"@
    } else {
        Seq::empty()
    }) + (if s.auto_encrypted > 0 {
        "  encrypted: "@ + decimal(s.auto_encrypted as nat) + (if s.auto_encrypted == 1 {
            " sensitive key auto-encrypted\n"@
        } else {
            " sensitive keys auto-encrypted\n"@
        })
    } else {
        Seq::empty()
    }) + (if s.collapsed_multivalue_warnings > 0 {
        "  warnings: "@ + decimal(s.collapsed_multivalue_warnings as nat)
            + " multi-value keys collapsed\n"@
    } else {
        Seq::empty()
    })
}

/// Tell what an import did.
pub fn print_import_summary(summary: &ConfigImportSummary) -> (r: String)
    ensures
        r@ == summary_text(*summary),
{
    let scope = scope_name(summary.scope);
    let head = if summary.imported > 0 {
        let n = usize_text(summary.imported);
        let start = concat5("Imported ", n.as_str(), " entries from Git ", scope, " config \u{2192} libra ");
        concat3(start.as_str(), scope, " config\n")
    } else {
        concat3("No new entries to import from Git ", scope, " config.\n")
    };
    let mut details: Vec<String> = Vec::new();
    if summary.skipped_duplicates > 0 {
        let n = usize_text(summary.skipped_duplicates);
        details.push(concat2(n.as_str(), " duplicates"));
    }
    assert(texts(details@) =~= counted(summary.skipped_duplicates as nat, " duplicates"@));
    let ghost first = texts(details@);
    if summary.ignored_invalid > 0 {
        let n = usize_text(summary.ignored_invalid);
        details.push(concat2(n.as_str(), " invalid keys"));
    }
    assert(texts(details@) =~= first + counted(summary.ignored_invalid as nat, " invalid keys"@));
    let skipped = if details.len() > 0 {
        let list = join(&details, ", ");
        concat3("  skipped: ", list.as_str(), "\n")
    } else {
        String::new()
    };
    let encrypted = if summary.auto_encrypted > 0 {
        let n = usize_text(summary.auto_encrypted);
        concat3(
            "  encrypted: ",
            n.as_str(),
            if summary.auto_encrypted == 1 {
                " sensitive key auto-encrypted\n"
            } else {
                " sensitive keys auto-encrypted\n"
            },
        )
    } else {
        String::new()
    };
    let warnings = if summary.collapsed_multivalue_warnings > 0 {
        let n = usize_text(summary.collapsed_multivalue_warnings);
        concat3("  warnings: ", n.as_str(), " multi-value keys collapsed\n")
    } else {
        String::new()
    };
    concat4(head.as_str(), skipped.as_str(), encrypted.as_str(), warnings.as_str())
}

/// A listing is of the pieces between its zero bytes, without those that are empty: a piece after a zero
/// is one more, and a zero ends it.
pub proof fn law_pieces_of_a_listing(data: Seq<u8>, piece: Seq<u8>)
    ensures
        chunks(Seq::empty()) == Seq::<Seq<u8>>::empty(),
        chunks(data.push(0u8)) == chunks(data),
        (data.len() == 0 || data.last() == 0) && piece.len() > 0 && !piece.contains(0u8) ==> chunks(
            data + piece,
        ) == chunks(data).push(piece),
    decreases piece.len(),
{
    assert(data.push(0u8).drop_last() =~= data);
    if (data.len() == 0 || data.last() == 0) && piece.len() > 0 && !piece.contains(0u8) {
        let all = data + piece;
        let head = piece.drop_last();
        assert(piece[piece.len() - 1] == piece.last());
        assert(all.last() == piece.last());
        assert(piece.last() != 0);
        assert(all.drop_last() =~= data + head);
        if head.len() == 0 {
            assert(data + head =~= data);
            assert(piece =~= seq![piece.last()]);
            if data.len() > 0 {
                assert(all[all.len() - 2] == data.last());
            }
        } else {
            assert forall|i: int| 0 <= i < head.len() implies head[i] != 0 by {
                assert(piece[i] == head[i]);
            }
            assert(!head.contains(0u8));
            law_pieces_of_a_listing(data, head);
            assert(all[all.len() - 2] == head.last());
            assert(head[head.len() - 1] != 0);
            let before = chunks(data).push(head);
            assert(before.update(before.len() - 1, before.last().push(all.last())) =~= chunks(data).push(
                piece,
            )) by {
                assert(head.push(piece.last()) =~= piece);
            }
        }
    }
}

/// An item is a key on its first line and a value on those after it; a key without a value is true.
pub proof fn law_item_of_a_listing(key: Seq<char>, value: Seq<char>)
    requires
        !key.contains('\n'),
    ensures
        listed_item(key + seq!['\n'] + value) == (trim_seq(key), value),
        listed_item(key) == (trim_seq(key), "true"@),
{
    lemma_key_line(key, value);
    let all = key + seq!['\n'] + value;
    assert(all.skip((key.len() + 1) as int) =~= value);
}

proof fn lemma_key_line(key: Seq<char>, value: Seq<char>)
    requires
        !key.contains('\n'),
    ensures
        first_line(key + seq!['\n'] + value) == key,
        first_line(key) == key,
    decreases key.len(),
{
    let all = key + seq!['\n'] + value;
    if key.len() == 0 {
        assert(all[0] == '\n');
        assert(key =~= Seq::<char>::empty());
    } else {
        let rest = key.drop_first();
        assert(key[0] != '\n') by {
            assert(key.contains(key[0]));
        }
        assert forall|i: int| 0 <= i < rest.len() implies rest[i] != '\n' by {
            assert(key.contains(key[i + 1]));
        }
        lemma_key_line(rest, value);
        assert(all.drop_first() =~= rest + seq!['\n'] + value);
        assert(seq![key[0]] + rest =~= key);
    }
}

/// The items that are taken are those whose key has a dot, in their order.
pub proof fn law_items_with_a_dotted_key(parts: Seq<Seq<u8>>, part: Seq<u8>)
    ensures
        valid_items(Seq::empty()) == Seq::<(Seq<char>, Seq<char>)>::empty(),
        ({
            let item = listed_item(utf8_lossy_text(part));
            &&& item.0.contains('.') ==> valid_items(parts.push(part)) == valid_items(parts).push(item)
            &&& !item.0.contains('.') ==> valid_items(parts.push(part)) == valid_items(parts)
        }),
{
    assert(parts.push(part).drop_last() =~= parts);
}

/// The keys that keep every value are the credential helper, and of remotes, branches, addresses and
/// transports those whose last part is one of seven.
pub proof fn law_keys_with_many_values(section: Seq<char>, name: Seq<char>, leaf: Seq<char>)
    requires
        !leaf.contains('.'),
        section == "remote."@ || section == "branch."@ || section == "url."@ || section == "http."@,
        seq![
            "fetch"@,
            "push"@,
            "pushurl"@,
            "merge"@,
            "insteadOf"@,
            "pushInsteadOf"@,
            "extraHeader"@,
        ].contains(leaf),
    ensures
        is_multi_key("credential.helper"@),
        is_multi_key(section + name + seq!['.'] + leaf),
{
    let leaves = seq![
        "fetch"@,
        "push"@,
        "pushurl"@,
        "merge"@,
        "insteadOf"@,
        "pushInsteadOf"@,
        "extraHeader"@,
    ];
    let i = choose|i: int| 0 <= i < leaves.len() && leaves[i] == leaf;
    assert(i == 0 || i == 1 || i == 2 || i == 3 || i == 4 || i == 5 || i == 6);
    assert(is_multi_leaf(leaf));
    let key = section + name + seq!['.'] + leaf;
    assert(key.take(section.len() as int) =~= section);
    assert(key.skip(section.len() as int) =~= name + seq!['.'] + leaf);
    lemma_leaf_after_dot(name, leaf);
    assert(multi_under(key, section));
}

proof fn lemma_leaf_after_dot(name: Seq<char>, leaf: Seq<char>)
    requires
        !leaf.contains('.'),
    ensures
        after_last_dot(name + seq!['.'] + leaf) == Some(leaf),
    decreases leaf.len(),
{
    let all = name + seq!['.'] + leaf;
    if leaf.len() == 0 {
        assert(all.last() == '.');
        assert(leaf =~= Seq::<char>::empty());
    } else {
        let head = leaf.drop_last();
        assert(leaf.contains(leaf[leaf.len() - 1]));
        assert forall|i: int| 0 <= i < head.len() implies head[i] != '.' by {
            assert(leaf.contains(leaf[i]));
        }
        lemma_leaf_after_dot(name, head);
        assert(all.drop_last() =~= name + seq!['.'] + head);
        assert(head.push(leaf.last()) =~= leaf);
    }
}

/// A key that keeps every value is the credential helper, or is of one of the four sections and ends in
/// one of the seven names.
pub proof fn law_no_other_key_has_many_values(key: Seq<char>)
    requires
        is_multi_key(key),
        key != "credential.helper"@,
    ensures
        "remote."@.is_prefix_of(key) || "branch."@.is_prefix_of(key) || "url."@.is_prefix_of(key)
            || "http."@.is_prefix_of(key),
        "fetch"@.is_suffix_of(key) || "push"@.is_suffix_of(key) || "pushurl"@.is_suffix_of(key)
            || "merge"@.is_suffix_of(key) || "insteadOf"@.is_suffix_of(key)
            || "pushInsteadOf"@.is_suffix_of(key) || "extraHeader"@.is_suffix_of(key),
{
    lemma_multi_under(key, "remote."@);
    lemma_multi_under(key, "branch."@);
    lemma_multi_under(key, "url."@);
    lemma_multi_under(key, "http."@);
}

proof fn lemma_multi_under(key: Seq<char>, section: Seq<char>)
    ensures
        multi_under(key, section) ==> section.is_prefix_of(key) && ("fetch"@.is_suffix_of(key)
            || "push"@.is_suffix_of(key) || "pushurl"@.is_suffix_of(key) || "merge"@.is_suffix_of(key)
            || "insteadOf"@.is_suffix_of(key) || "pushInsteadOf"@.is_suffix_of(key)
            || "extraHeader"@.is_suffix_of(key)),
{
    if multi_under(key, section) {
        assert(key.subrange(0, section.len() as int) =~= section);
        let rest = key.skip(section.len() as int);
        lemma_leaf_is_suffix(rest);
        let leaf = after_last_dot(rest)->0;
        assert(leaf.is_suffix_of(rest));
        assert(key.subrange(key.len() - leaf.len(), key.len() as int) =~= rest.subrange(
            rest.len() - leaf.len(),
            rest.len() as int,
        ));
        assert(leaf.is_suffix_of(key));
    }
}

proof fn lemma_leaf_is_suffix(s: Seq<char>)
    ensures
        after_last_dot(s) matches Some(leaf) ==> leaf.is_suffix_of(s),
    decreases s.len(),
{
    if s.len() > 0 {
        if s.last() == '.' {
            assert(s.subrange(s.len() as int, s.len() as int) =~= Seq::<char>::empty());
        } else {
            let head = s.drop_last();
            lemma_leaf_is_suffix(head);
            if let Some(t) = after_last_dot(head) {
                let leaf = t.push(s.last());
                assert(s.subrange(s.len() - leaf.len(), s.len() as int) =~= leaf) by {
                    assert(head.subrange(head.len() - t.len(), head.len() as int) =~= t);
                    assert forall|i: int| 0 <= i < t.len() implies s[s.len() - leaf.len() + i] == t[i] by {
                        assert(head.subrange(head.len() - t.len(), head.len() as int)[i] == t[i]);
                    }
                }
            }
        }
    }
}

/// Every value of a key that keeps them all is imported, in order; of any other key one is, the last.
pub proof fn law_which_items_are_imported(items: Seq<(Seq<char>, Seq<char>)>)
    ensures
        multi_items(items) == items.filter(|i: (Seq<char>, Seq<char>)| is_multi_key(i.0)),
    decreases items.len(),
{
    reveal(Seq::filter);
    if items.len() > 0 {
        law_which_items_are_imported(items.drop_last());
    }
}

/// The values of a key are counted one by one, and the last is the one that was listed last.
pub proof fn law_values_of_a_key(
    items: Seq<(Seq<char>, Seq<char>)>,
    key: Seq<char>,
    value: Seq<char>,
    other: Seq<char>,
)
    ensures
        value_count(Seq::empty(), key) == 0 && last_value(Seq::empty(), key) is None,
        value_count(items.push((key, value)), key) == value_count(items, key) + 1,
        last_value(items.push((key, value)), key) == Some(value),
        other != key ==> value_count(items.push((key, value)), other) == value_count(items, other)
            && last_value(items.push((key, value)), other) == last_value(items, other),
{
    assert(items.push((key, value)).drop_last() =~= items);
}

/// What an import did is counted: an item is skipped, stored, or stored encrypted, and a key is collapsed
/// where it had more than one value.
pub proof fn law_import_is_counted(ds: Seq<ImportDecision>, lasts: Seq<LastView>, l: LastView)
    ensures
        skips(Seq::empty()) == 0 && encryptions(Seq::empty()) == 0 && collapsed(Seq::empty()) == 0,
        skips(ds.push(ImportDecision::Skip)) == skips(ds) + 1 && encryptions(ds.push(ImportDecision::Skip))
            == encryptions(ds),
        ({
            let plain = ds.push(ImportDecision::Store { encrypt: false });
            let secret = ds.push(ImportDecision::Store { encrypt: true });
            &&& skips(plain) == skips(ds) && encryptions(plain) == encryptions(ds)
            &&& skips(secret) == skips(ds) && encryptions(secret) == encryptions(ds) + 1
        }),
        l.count > 1 ==> collapsed(lasts.push(l)) == collapsed(lasts) + 1,
        l.count <= 1 ==> collapsed(lasts.push(l)) == collapsed(lasts),
{
    assert(ds.push(ImportDecision::Skip).drop_last() =~= ds);
    assert(ds.push(ImportDecision::Store { encrypt: false }).drop_last() =~= ds);
    assert(ds.push(ImportDecision::Store { encrypt: true }).drop_last() =~= ds);
    assert(lasts.push(l).drop_last() =~= lasts);
}

/// A key that had more than one value is warned of, by its name and with their number; any other is not.
pub proof fn law_collapsed_keys_are_warned_of(l: LastView)
    ensures
        collapse_warning(l) is Some <==> l.count > 1,
        collapse_warning(l) matches Some(text) ==> ("key '"@ + l.key + "' has "@ + decimal(
            l.count,
        )).is_prefix_of(text),
{
}

/// A failed import tells what was said, without the word before it, and where to run it for the
/// repository's own configuration.
pub proof fn law_failed_import_is_told(said: Seq<char>)
    ensures
        ({
            let told = trim_seq(said);
            let global = "error: failed to import Git "@ + scope_text(ConfigScope::Global) + " config"@;
            let local = "error: failed to import Git "@ + scope_text(ConfigScope::Local) + " config"@;
            &&& told.len() == 0 ==> import_error(ConfigScope::Global, said) == global
            &&& told.len() > 0 && !has_prefix(told, "fatal: "@) ==> import_error(ConfigScope::Global, said)
                == global + ("\n  "@ + told)
            &&& told.len() > 0 && has_prefix(told, "fatal: "@) ==> import_error(ConfigScope::Global, said)
                == global + ("\n  "@ + told.skip("fatal: "@.len() as int))
            &&& local.is_prefix_of(import_error(ConfigScope::Local, said))
            &&& "\n\nhint: Run this command inside a Git repository, or use `--global`."@.is_suffix_of(
                import_error(ConfigScope::Local, said),
            )
        }),
{
    let told = trim_seq(said);
    let global = "error: failed to import Git "@ + scope_text(ConfigScope::Global) + " config"@;
    let none = Seq::<char>::empty();
    if told.len() == 0 {
        assert(global + none + none =~= global);
    } else if has_prefix(told, "fatal: "@) {
        let text = "\n  "@ + told.skip("fatal: "@.len() as int);
        assert(global + text + none =~= global + text);
    } else {
        let text = "\n  "@ + told;
        assert(global + text + none =~= global + text);
    }
}

/// A summary counts what was imported; the rest of it is told only where there is any.
pub proof fn law_import_is_summed_up(s: ConfigImportSummary)
    ensures
        ({
            let scope = scope_text(s.scope);
            let head = "Imported "@ + decimal(s.imported as nat) + " entries from Git "@ + scope
                + " config \u{2192} libra "@ + scope + " config\n"@;
            let nothing = "No new entries to import from Git "@ + scope + " config.\n"@;
            let quiet = s.skipped_duplicates == 0 && s.ignored_invalid == 0 && s.auto_encrypted == 0
                && s.collapsed_multivalue_warnings == 0;
            &&& s.imported > 0 ==> head.is_prefix_of(summary_text(s))
            &&& s.imported == 0 ==> nothing.is_prefix_of(summary_text(s))
            &&& s.imported > 0 && quiet ==> summary_text(s) == head
            &&& s.imported == 0 && quiet ==> summary_text(s) == nothing
        }),
{
    let none = Seq::<char>::empty();
    let scope = scope_text(s.scope);
    let head = "Imported "@ + decimal(s.imported as nat) + " entries from Git "@ + scope
        + " config \u{2192} libra "@ + scope + " config\n"@;
    let nothing = "No new entries to import from Git "@ + scope + " config.\n"@;
    assert(head + none + none + none =~= head);
    assert(nothing + none + none + none =~= nothing);
}

} // verus!
