//! Paths as lists of components, and the order of paths.

use vstd::prelude::*;

use crate::text::{
    chars_of, concat2, join, join_seq, lacks, lemma_split_len, lemma_split_of_join,
    lemma_split_parts_lack, split, split_seq, text_eq, texts,
};

verus! {

/// Whether a part between two slashes names something: not empty, and not the directory itself.
pub open spec fn is_name(part: Seq<char>) -> bool {
    part.len() > 0 && part != "."@
}

/// The parts that name something.
pub open spec fn only_names(parts: Seq<Seq<char>>) -> Seq<Seq<char>>
    decreases parts.len(),
{
    if parts.len() == 0 {
        Seq::empty()
    } else if is_name(parts.last()) {
        only_names(parts.drop_last()).push(parts.last())
    } else {
        only_names(parts.drop_last())
    }
}

/// The names of a path, from the top down.
pub open spec fn path_names(path: Seq<char>) -> Seq<Seq<char>> {
    only_names(split_seq(path, '/'))
}

/// The names of `path`.
pub fn names_of(path: &str) -> (r: Vec<String>)
    ensures
        texts(r@) == path_names(path@),
{
    let parts = split(path, '/');
    let ghost all = texts(parts@);
    let mut out: Vec<String> = Vec::new();
    let mut i: usize = 0;
    assert(all.take(0) =~= Seq::<Seq<char>>::empty());
    assert(texts(out@) =~= Seq::<Seq<char>>::empty());
    while i < parts.len()
        invariant
            i <= parts@.len(),
            all == texts(parts@),
            texts(out@) == only_names(all.take(i as int)),
        decreases parts@.len() - i,
    {
        let ghost before = out@;
        proof {
            assert(all.take(i as int + 1).drop_last() =~= all.take(i as int));
            assert(all.take(i as int + 1).last() == parts@[i as int]@);
        }
        let part = parts[i].as_str();
        if !part.is_empty() && !text_eq(part, ".") {
            out.push(parts[i].clone());
            assert(texts(out@) =~= texts(before).push(parts@[i as int]@));
        }
        i = i + 1;
    }
    assert(all.take(all.len() as int) =~= all);
    out
}

/// The components of a path: its names, and before them the root or the current directory where
/// the path starts with that.
pub open spec fn path_components(path: Seq<char>) -> Seq<Seq<char>> {
    if path.len() > 0 && path[0] == '/' {
        seq!["/"@] + path_names(path)
    } else if split_seq(path, '/')[0] == "."@ {
        seq!["."@] + path_names(path)
    } else {
        path_names(path)
    }
}

/// The components of `path`.
pub fn components_of(path: &str) -> (r: Vec<String>)
    ensures
        texts(r@) == path_components(path@),
{
    let mut names = names_of(path);
    let ghost before = texts(names@);
    if path.unicode_len() > 0 && path.get_char(0) == '/' {
        names.insert(0, "/".to_owned());
        assert(texts(names@) =~= seq!["/"@] + before);
        return names;
    }
    let parts = split(path, '/');
    proof {
        lemma_split_len(path@, '/');
        assert(texts(parts@)[0] == parts@[0]@);
    }
    if text_eq(parts[0].as_str(), ".") {
        names.insert(0, ".".to_owned());
        assert(texts(names@) =~= seq!["."@] + before);
    }
    names
}

/// The first names of `b` are the names of `a`.
pub open spec fn names_prefix(a: Seq<Seq<char>>, b: Seq<Seq<char>>) -> bool {
    a.len() <= b.len() && b.take(a.len() as int) == a
}

/// What the components of a path are: names, and at the top the root or the current directory.
pub open spec fn is_components(c: Seq<Seq<char>>) -> bool {
    forall|i: int|
        0 <= i < c.len() ==> (i == 0 && #[trigger] c[i] == "/"@) || (i == 0 && c[i] == "."@) || (
        is_name(c[i]) && lacks(c[i], '/'))
}

/// The plainest text of a path with these components.
pub open spec fn components_text(c: Seq<Seq<char>>) -> Seq<char> {
    if c.len() > 0 && c[0] == "/"@ {
        "/"@ + join_seq(c.drop_first(), "/"@)
    } else {
        join_seq(c, "/"@)
    }
}

/// The plainest text of a path. Two texts are one path where these are equal.
pub open spec fn plain_path(path: Seq<char>) -> Seq<char> {
    components_text(path_components(path))
}

/// The plainest texts of paths.
pub open spec fn plain_texts(paths: Seq<Seq<char>>) -> Seq<Seq<char>> {
    paths.map_values(|p: Seq<char>| plain_path(p))
}

/// The path is written in its plainest way.
pub open spec fn is_plain(path: Seq<char>) -> bool {
    plain_path(path) == path
}

proof fn lemma_only_names(parts: Seq<Seq<char>>)
    ensures
        forall|i: int|
            0 <= i < only_names(parts).len() ==> parts.contains(#[trigger] only_names(parts)[i]) && is_name(
                only_names(parts)[i],
            ),
        (forall|i: int| 0 <= i < parts.len() ==> is_name(#[trigger] parts[i])) ==> only_names(parts)
            == parts,
    decreases parts.len(),
{
    if parts.len() > 0 {
        let head = parts.drop_last();
        lemma_only_names(head);
        let out = only_names(parts);
        assert forall|i: int| 0 <= i < out.len() implies parts.contains(#[trigger] out[i]) && is_name(
            out[i],
        ) by {
            if i < only_names(head).len() {
                assert(out[i] == only_names(head)[i]);
                let k = choose|k: int| 0 <= k < head.len() && head[k] == out[i];
                assert(parts[k] == out[i]);
            } else {
                assert(parts[parts.len() - 1] == out[i]);
            }
        }
        if forall|i: int| 0 <= i < parts.len() ==> is_name(#[trigger] parts[i]) {
            assert forall|i: int| 0 <= i < head.len() implies is_name(#[trigger] head[i]) by {
                assert(is_name(parts[i]));
            }
            assert(is_name(parts[parts.len() - 1]));
            assert(out =~= parts);
        }
    }
}

/// A first part that names nothing is left out.
proof fn lemma_names_after(first: Seq<char>, names: Seq<Seq<char>>)
    requires
        !is_name(first),
        forall|i: int| 0 <= i < names.len() ==> is_name(#[trigger] names[i]),
    ensures
        only_names(seq![first] + names) == names,
    decreases names.len(),
{
    let all = seq![first] + names;
    if names.len() == 0 {
        assert(all.drop_last() =~= Seq::<Seq<char>>::empty());
        assert(all.last() == first);
        assert(only_names(all.drop_last()) =~= names);
        assert(only_names(all) =~= names);
    } else {
        let head = names.drop_last();
        assert(all.drop_last() =~= seq![first] + head);
        assert forall|i: int| 0 <= i < head.len() implies is_name(#[trigger] head[i]) by {
            assert(is_name(names[i]));
        }
        lemma_names_after(first, head);
        assert(all.last() == names.last());
        assert(is_name(names[names.len() - 1]));
        assert(only_names(all) =~= names);
    }
}

proof fn lemma_components(path: Seq<char>)
    ensures
        is_components(path_components(path)),
{
    lemma_split_parts_lack(path, '/');
    let parts = split_seq(path, '/');
    let names = path_names(path);
    lemma_only_names(parts);
    assert forall|i: int| 0 <= i < names.len() implies is_name(#[trigger] names[i]) && lacks(
        names[i],
        '/',
    ) by {
        let k = choose|k: int| 0 <= k < parts.len() && parts[k] == names[i];
        assert forall|j: int| 0 <= j < names[i].len() implies (#[trigger] names[i][j]) != '/' by {
            assert(parts[k][j] != '/');
        }
    }
    let c = path_components(path);
    assert forall|i: int| 0 <= i < c.len() implies (i == 0 && #[trigger] c[i] == "/"@) || (i == 0
        && c[i] == "."@) || (is_name(c[i]) && lacks(c[i], '/')) by {
        if c.len() > names.len() {
            if i > 0 {
                assert(c[i] == names[i - 1]);
            }
        } else {
            assert(c[i] == names[i]);
        }
    }
}

/// A text that does not start with the separator has a first part.
proof fn lemma_split_first(s: Seq<char>, sep: char)
    requires
        s.len() > 0,
    ensures
        split_seq(s, sep)[0].len() == 0 <==> s[0] == sep,
    decreases s.len(),
{
    lemma_split_len(s.drop_last(), sep);
    let head = split_seq(s.drop_last(), sep);
    if s.len() == 1 {
        assert(s.drop_last() =~= Seq::<char>::empty());
        assert(head =~= seq![Seq::<char>::empty()]);
        if s[0] == sep {
            assert(split_seq(s, sep)[0] == head[0]);
        } else {
            assert(split_seq(s, sep)[0] == head.last().push(s[0]));
        }
    } else {
        lemma_split_first(s.drop_last(), sep);
        assert(s.drop_last()[0] == s[0]);
        if s.last() == sep {
            assert(split_seq(s, sep)[0] == head[0]);
        } else if head.len() == 1 {
            assert(split_seq(s, sep)[0] == head[0].push(s.last()));
            if s[0] == sep {
                lemma_leading_separator(s.drop_last(), sep);
            }
        } else {
            assert(split_seq(s, sep)[0] == head[0]);
        }
    }
}

proof fn lemma_leading_separator(s: Seq<char>, sep: char)
    requires
        s.len() > 0,
        s[0] == sep,
    ensures
        split_seq(s, sep).len() > 1,
    decreases s.len(),
{
    lemma_split_len(s.drop_last(), sep);
    if s.len() > 1 {
        assert(s.drop_last()[0] == s[0]);
        lemma_leading_separator(s.drop_last(), sep);
    }
}

proof fn lemma_join_after_empty(names: Seq<Seq<char>>, sep: Seq<char>)
    requires
        names.len() > 0,
    ensures
        join_seq(seq![Seq::<char>::empty()] + names, sep) == sep + join_seq(names, sep),
    decreases names.len(),
{
    let all = seq![Seq::<char>::empty()] + names;
    assert(all.last() == names.last());
    if names.len() == 1 {
        assert(all.drop_last() =~= seq![Seq::<char>::empty()]);
        assert(join_seq(all.drop_last(), sep) =~= Seq::<char>::empty());
        assert(join_seq(all, sep) =~= sep + names[0]);
    } else {
        assert(all.drop_last() =~= seq![Seq::<char>::empty()] + names.drop_last());
        lemma_join_after_empty(names.drop_last(), sep);
        assert(join_seq(all, sep) =~= sep + join_seq(names, sep));
    }
}

/// The text of components has these components.
pub proof fn lemma_components_text(c: Seq<Seq<char>>)
    requires
        is_components(c),
    ensures
        path_components(components_text(c)) == c,
{
    reveal_strlit("/");
    reveal_strlit(".");
    let text = components_text(c);
    assert("/"@ =~= seq!['/']);
    if c.len() == 0 {
        assert(text =~= Seq::<char>::empty());
        assert(split_seq(text, '/') =~= seq![Seq::<char>::empty()]);
        lemma_names_after(Seq::empty(), Seq::empty());
        assert(seq![Seq::<char>::empty()] + Seq::<Seq<char>>::empty() =~= split_seq(text, '/'));
    } else if c[0] == "/"@ {
        let names = c.drop_first();
        assert forall|i: int| 0 <= i < names.len() implies is_name(#[trigger] names[i]) && lacks(
            names[i],
            '/',
        ) by {
            assert(names[i] == c[i + 1]);
        }
        let parts = if names.len() == 0 {
            seq![Seq::<char>::empty(), Seq::<char>::empty()]
        } else {
            seq![Seq::<char>::empty()] + names
        };
        assert forall|i: int, k: int| 0 <= i < parts.len() && 0 <= k < parts[i].len() implies #[trigger] parts[i][k]
            != '/' by {
            if i > 0 {
                assert(parts[i] == names[i - 1]);
                assert(lacks(names[i - 1], '/'));
            }
        }
        lemma_split_of_join(parts, '/');
        if names.len() == 0 {
            assert(parts.drop_last() =~= seq![Seq::<char>::empty()]);
            assert(join_seq(parts.drop_last(), seq!['/']) =~= Seq::<char>::empty());
            assert(join_seq(parts, seq!['/']) =~= text);
            lemma_names_after(Seq::empty(), Seq::empty());
            assert(parts.drop_last() =~= seq![Seq::<char>::empty()] + Seq::<Seq<char>>::empty());
            assert(only_names(parts) =~= names);
        } else {
            lemma_join_after_empty(names, seq!['/']);
            lemma_names_after(Seq::empty(), names);
        }
        assert(text[0] == '/');
        assert(path_components(text) =~= c);
    } else {
        assert forall|i: int, k: int| 0 <= i < c.len() && 0 <= k < c[i].len() implies #[trigger] c[i][k]
            != '/' by {
            if c[i] != "."@ {
                assert(lacks(c[i], '/'));
            }
        }
        lemma_split_of_join(c, '/');
        assert(split_seq(text, '/') == c);
        assert(c[0].len() > 0);
        if text.len() > 0 {
            lemma_split_first(text, '/');
        }
        if c[0] == "."@ {
            let names = c.drop_first();
            assert forall|i: int| 0 <= i < names.len() implies is_name(#[trigger] names[i]) by {
                assert(names[i] == c[i + 1]);
            }
            lemma_names_after("."@, names);
            assert(c =~= seq!["."@] + names);
        } else {
            assert forall|i: int| 0 <= i < c.len() implies is_name(#[trigger] c[i]) by {}
            lemma_only_names(c);
        }
        assert(path_components(text) =~= c);
    }
}

/// The plainest text of a path is the same path, and written in its plainest way.
pub proof fn law_plain_path_is_the_path(path: Seq<char>)
    ensures
        path_components(plain_path(path)) == path_components(path),
        is_plain(plain_path(path)),
{
    lemma_components(path);
    lemma_components_text(path_components(path));
}

/// The text of components.
pub fn text_of_components(c: &Vec<String>) -> (r: String)
    ensures
        r@ == components_text(texts(c@)),
{
    if c.len() > 0 && text_eq(c[0].as_str(), "/") {
        let mut names: Vec<String> = Vec::new();
        let mut i: usize = 1;
        while i < c.len()
            invariant
                1 <= i <= c@.len(),
                texts(names@) == texts(c@).subrange(1, i as int),
            decreases c@.len() - i,
        {
            let ghost before = names@;
            names.push(c[i].clone());
            assert(texts(names@) =~= texts(before).push(c@[i as int]@));
            assert(texts(c@).subrange(1, i as int + 1) =~= texts(c@).subrange(1, i as int).push(
                c@[i as int]@,
            ));
            i = i + 1;
        }
        assert(texts(names@) =~= texts(c@).drop_first());
        assert(texts(c@)[0] == c@[0]@);
        let rest = join(&names, "/");
        return concat2("/", rest.as_str());
    }
    if c.len() > 0 {
        assert(texts(c@)[0] == c@[0]@);
    }
    join(c, "/")
}

/// The plainest text of `path`.
pub fn plainly(path: &str) -> (r: String)
    ensures
        r@ == plain_path(path@),
        is_plain(r@),
{
    proof {
        law_plain_path_is_the_path(path@);
    }
    text_of_components(&components_of(path))
}

/// `path` is `dir` or lies below it: its first components are those of `dir`.
pub open spec fn path_within(path: Seq<char>, dir: Seq<char>) -> bool {
    names_prefix(path_components(dir), path_components(path))
}

/// Whether `path` is `dir` or lies below it.
pub fn path_starts_with(path: &str, dir: &str) -> (r: bool)
    ensures
        r == path_within(path@, dir@),
{
    let a = components_of(dir);
    let b = components_of(path);
    if a.len() > b.len() {
        return false;
    }
    let mut i: usize = 0;
    while i < a.len()
        invariant
            texts(a@) == path_components(dir@),
            texts(b@) == path_components(path@),
            a@.len() <= b@.len(),
            i <= a@.len(),
            forall|j: int| 0 <= j < i ==> (#[trigger] texts(a@)[j]) == texts(b@)[j],
        decreases a@.len() - i,
    {
        if !text_eq(a[i].as_str(), b[i].as_str()) {
            proof {
                let ta = texts(a@);
                let tb = texts(b@);
                if tb.take(ta.len() as int) == ta {
                    assert(tb.take(ta.len() as int)[i as int] == ta[i as int]);
                }
            }
            return false;
        }
        assert(texts(a@)[i as int] == texts(b@)[i as int]);
        i = i + 1;
    }
    assert(texts(b@).take(a@.len() as int) =~= texts(a@));
    true
}

/// Whether a component is a name: not the root, nor this or the upper directory.
pub open spec fn is_normal(component: Seq<char>) -> bool {
    component != "/"@ && component != "."@ && component != ".."@
}

/// Whether a component is a name.
pub fn component_is_normal(component: &str) -> (r: bool)
    ensures
        r == is_normal(component@),
{
    !text_eq(component, "/") && !text_eq(component, ".") && !text_eq(component, "..")
}

/// The components of the directory that a path lies in. The root, like the empty path, lies in
/// none.
pub open spec fn parent_components(c: Seq<Seq<char>>) -> Seq<Seq<char>> {
    if c.len() == 0 || c.last() == "/"@ {
        Seq::empty()
    } else {
        c.drop_last()
    }
}

/// The directory that a path lies in; the empty path where it lies in none.
pub open spec fn path_parent(path: Seq<char>) -> Seq<char> {
    components_text(parent_components(path_components(path)))
}

/// Whether a path ends in the name of a file: its last component is a name.
pub open spec fn has_file_name(path: Seq<char>) -> bool {
    path_components(path).len() > 0 && is_normal(path_components(path).last())
}

/// The last name of a path.
pub fn tree_item_name(path: &str) -> (r: Result<String, String>)
    ensures
        has_file_name(path@) ==> (r matches Ok(name) && name@ == path_components(path@).last()),
        !has_file_name(path@) ==> (r matches Err(e) && e@ == "path has no file name: "@ + path@),
{
    let mut names = components_of(path);
    let ghost all = names@;
    match names.pop() {
        Some(name) => {
            assert(texts(all).last() == name@);
            if component_is_normal(name.as_str()) {
                Ok(name)
            } else {
                Err(concat2("path has no file name: ", path))
            }
        },
        None => Err(concat2("path has no file name: ", path)),
    }
}

/// The directory that `path` lies in.
pub fn parent_of(path: &str) -> (r: String)
    ensures
        r@ == path_parent(path@),
{
    let mut c = components_of(path);
    let ghost all = texts(c@);
    if c.len() > 0 {
        let n: usize = c.len() - 1;
        assert(all.last() == c@[n as int]@);
        if text_eq(c[n].as_str(), "/") {
            c = Vec::new();
            assert(texts(c@) =~= Seq::<Seq<char>>::empty());
        } else {
            let _last = c.pop();
            assert(texts(c@) =~= all.drop_last());
        }
    }
    text_of_components(&c)
}

/// The texts agree before `k`, where the first one ends or has the lower character.
pub open spec fn text_lower_at(a: Seq<char>, b: Seq<char>, k: int) -> bool {
    &&& 0 <= k <= a.len()
    &&& k < b.len()
    &&& forall|i: int| 0 <= i < k ==> (#[trigger] a[i]) == b[i]
    &&& k == a.len() || a[k] < b[k]
}

/// The order of texts by their characters.
pub open spec fn text_lt(a: Seq<char>, b: Seq<char>) -> bool {
    exists|k: int| #[trigger] text_lower_at(a, b, k)
}

pub fn text_before(a: &str, b: &str) -> (r: bool)
    ensures
        r == text_lt(a@, b@),
{
    let ca = chars_of(a);
    let cb = chars_of(b);
    let mut k: usize = 0;
    while k < ca.len() && k < cb.len() && ca[k] == cb[k]
        invariant
            ca@ == a@,
            cb@ == b@,
            k <= ca@.len(),
            k <= cb@.len(),
            forall|i: int| 0 <= i < k ==> (#[trigger] a@[i]) == b@[i],
        decreases ca@.len() - k,
    {
        k = k + 1;
    }
    proof {
        assert forall|j: int| #[trigger] text_lower_at(a@, b@, j) implies j == k by {
            if j < k {
                assert(a@[j] == b@[j]);
            } else if j > k {
                assert(a@[k as int] == b@[k as int]);
            }
        }
    }
    if k >= cb.len() {
        return false;
    }
    if k >= ca.len() {
        assert(text_lower_at(a@, b@, k as int));
        return true;
    }
    let r = ca[k] < cb[k];
    proof {
        if r {
            assert(text_lower_at(a@, b@, k as int));
        }
    }
    r
}

pub proof fn lemma_text_lt_transitive(a: Seq<char>, b: Seq<char>, c: Seq<char>)
    requires
        text_lt(a, b),
        text_lt(b, c),
    ensures
        text_lt(a, c),
{
    let j = choose|k: int| #[trigger] text_lower_at(a, b, k);
    let k = choose|k: int| #[trigger] text_lower_at(b, c, k);
    let m = if j <= k { j } else { k };
    assert forall|i: int| 0 <= i < m implies (#[trigger] a[i]) == c[i] by {
        assert(a[i] == b[i]);
        assert(b[i] == c[i]);
    }
    if j < k {
        assert(b[j] == c[j]);
    }
    if k < j {
        assert(a[k] == b[k]);
    }
    assert(text_lower_at(a, c, m));
}

pub proof fn lemma_text_lt_irreflexive(a: Seq<char>)
    ensures
        !text_lt(a, a),
{
    if text_lt(a, a) {
        let k = choose|k: int| #[trigger] text_lower_at(a, a, k);
        assert(text_lower_at(a, a, k));
    }
}

pub proof fn lemma_text_lt_total(a: Seq<char>, b: Seq<char>)
    ensures
        a == b || text_lt(a, b) || text_lt(b, a),
{
    lemma_text_lt_total_from(a, b, 0);
}

pub(crate) proof fn lemma_text_lt_total_from(a: Seq<char>, b: Seq<char>, k: int)
    requires
        0 <= k <= a.len(),
        k <= b.len(),
        forall|i: int| 0 <= i < k ==> (#[trigger] a[i]) == b[i],
    ensures
        a == b || text_lt(a, b) || text_lt(b, a),
    decreases a.len() - k,
{
    if k < a.len() && k < b.len() && a[k] == b[k] {
        lemma_text_lt_total_from(a, b, k + 1);
    } else if k == a.len() && k == b.len() {
        assert(a =~= b);
    } else if k == a.len() || (k < b.len() && a[k] < b[k]) {
        assert(text_lower_at(a, b, k));
    } else {
        assert(text_lower_at(b, a, k));
    }
}

/// The place of a kind of component: the root, this directory, the upper one, names.
pub open spec fn component_rank(c: Seq<char>) -> int {
    if c == "/"@ {
        0
    } else if c == "."@ {
        1
    } else if c == ".."@ {
        2
    } else {
        3
    }
}

/// The order of components: by their kinds, and names by their characters.
pub open spec fn component_lt(a: Seq<char>, b: Seq<char>) -> bool {
    component_rank(a) < component_rank(b) || (component_rank(a) == 3 && component_rank(b) == 3
        && text_lt(a, b))
}

fn rank_of(c: &str) -> (r: u8)
    ensures
        r == component_rank(c@),
{
    if text_eq(c, "/") {
        0
    } else if text_eq(c, ".") {
        1
    } else if text_eq(c, "..") {
        2
    } else {
        3
    }
}

fn component_before(a: &str, b: &str) -> (r: bool)
    ensures
        r == component_lt(a@, b@),
{
    let x: u8 = rank_of(a);
    let y: u8 = rank_of(b);
    x < y || (x == 3 && y == 3 && text_before(a, b))
}

pub proof fn lemma_component_lt_irreflexive(a: Seq<char>)
    ensures
        !component_lt(a, a),
{
    lemma_text_lt_irreflexive(a);
}

proof fn lemma_component_lt_transitive(a: Seq<char>, b: Seq<char>, c: Seq<char>)
    requires
        component_lt(a, b),
        component_lt(b, c),
    ensures
        component_lt(a, c),
{
    if text_lt(a, b) && text_lt(b, c) {
        lemma_text_lt_transitive(a, b, c);
    }
}

/// The lists of components agree before `k`, where the first one ends or has the lower component.
pub open spec fn names_lower_at(a: Seq<Seq<char>>, b: Seq<Seq<char>>, k: int) -> bool {
    &&& 0 <= k <= a.len()
    &&& k < b.len()
    &&& forall|i: int| 0 <= i < k ==> (#[trigger] a[i]) == b[i]
    &&& k == a.len() || component_lt(a[k], b[k])
}

/// The order of lists of components.
pub open spec fn names_lt(a: Seq<Seq<char>>, b: Seq<Seq<char>>) -> bool {
    exists|k: int| #[trigger] names_lower_at(a, b, k)
}

/// The order of paths, component by component.
pub open spec fn path_lt(a: Seq<char>, b: Seq<char>) -> bool {
    names_lt(path_components(a), path_components(b))
}

pub fn path_before(a: &str, b: &str) -> (r: bool)
    ensures
        r == path_lt(a@, b@),
{
    let na = components_of(a);
    let nb = components_of(b);
    let ghost ta = texts(na@);
    let ghost tb = texts(nb@);
    let mut k: usize = 0;
    while k < na.len() && k < nb.len() && text_eq(na[k].as_str(), nb[k].as_str())
        invariant
            ta == texts(na@),
            tb == texts(nb@),
            k <= na@.len(),
            k <= nb@.len(),
            forall|i: int| 0 <= i < k ==> (#[trigger] ta[i]) == tb[i],
        decreases na@.len() - k,
    {
        assert(ta[k as int] == tb[k as int]);
        k = k + 1;
    }
    proof {
        assert forall|j: int| #[trigger] names_lower_at(ta, tb, j) implies j == k by {
            if j < k {
                assert(ta[j] == tb[j]);
                lemma_component_lt_irreflexive(ta[j]);
            } else if j > k {
                assert(ta[k as int] == tb[k as int]);
                assert(na@[k as int]@ == nb@[k as int]@);
            }
        }
    }
    if k >= nb.len() {
        return false;
    }
    if k >= na.len() {
        assert(names_lower_at(ta, tb, k as int));
        return true;
    }
    let r = component_before(na[k].as_str(), nb[k].as_str());
    proof {
        if r {
            assert(names_lower_at(ta, tb, k as int));
        }
    }
    r
}

pub proof fn lemma_names_lt_transitive(
    a: Seq<Seq<char>>,
    b: Seq<Seq<char>>,
    c: Seq<Seq<char>>,
)
    requires
        names_lt(a, b),
        names_lt(b, c),
    ensures
        names_lt(a, c),
{
    let j = choose|k: int| #[trigger] names_lower_at(a, b, k);
    let k = choose|k: int| #[trigger] names_lower_at(b, c, k);
    let m = if j <= k { j } else { k };
    assert forall|i: int| 0 <= i < m implies (#[trigger] a[i]) == c[i] by {
        assert(a[i] == b[i]);
        assert(b[i] == c[i]);
    }
    if j < k {
        assert(b[j] == c[j]);
    } else if k < j {
        assert(a[k] == b[k]);
    } else if j < a.len() {
        lemma_component_lt_transitive(a[j], b[j], c[j]);
    }
    assert(names_lower_at(a, c, m));
}

/// Whether `a` comes before `b`: component by component, or character by character.
pub open spec fn before(by_names: bool, a: Seq<char>, b: Seq<char>) -> bool {
    if by_names {
        path_lt(a, b)
    } else {
        text_lt(a, b)
    }
}

/// No text comes after one that should follow it.
pub open spec fn in_order(by_names: bool, v: Seq<Seq<char>>) -> bool {
    forall|i: int, j: int|
        0 <= i < j < v.len() ==> !before(by_names, #[trigger] v[j], #[trigger] v[i])
}

proof fn lemma_before_transitive(by_names: bool, a: Seq<char>, b: Seq<char>, c: Seq<char>)
    requires
        before(by_names, a, b),
        before(by_names, b, c),
    ensures
        before(by_names, a, c),
{
    if by_names {
        lemma_names_lt_transitive(path_components(a), path_components(b), path_components(c));
    } else {
        lemma_text_lt_transitive(a, b, c);
    }
}

/// Sorts texts, component by component or character by character.
pub fn sort_texts(v: Vec<String>, by_names: bool) -> (r: Vec<String>)
    ensures
        in_order(by_names, texts(r@)),
        texts(r@).to_multiset() == texts(v@).to_multiset(),
        r@.len() == v@.len(),
        forall|x: Seq<char>| texts(r@).contains(x) <==> texts(v@).contains(x),
{
    let mut rest = v;
    let ghost start = texts(v@);
    let mut out: Vec<String> = Vec::new();
    assert(texts(out@) =~= Seq::<Seq<char>>::empty());
    assert(start.to_multiset() =~= texts(out@).to_multiset().add(texts(rest@).to_multiset())) by {
        broadcast use vstd::multiset::group_multiset_axioms;

        assert(Seq::<Seq<char>>::empty().to_multiset() =~= vstd::multiset::Multiset::empty()) by {
            assert forall|x: Seq<char>| Seq::<Seq<char>>::empty().to_multiset().count(x) == 0 by {
                vstd::seq_lib::to_multiset_contains(Seq::<Seq<char>>::empty(), x);
            }
        }
    }
    while rest.len() > 0
        invariant
            out@.len() + rest@.len() == v@.len(),
            in_order(by_names, texts(out@)),
            start.to_multiset() == texts(out@).to_multiset().add(texts(rest@).to_multiset()),
        decreases rest@.len(),
    {
        let ghost r0 = texts(rest@);
        let ghost o0 = texts(out@);
        let item = rest.pop().unwrap();
        let ghost x = item@;
        proof {
            assert(texts(rest@) =~= r0.drop_last());
            assert(r0 =~= r0.drop_last().push(x));
            vstd::seq_lib::to_multiset_build(r0.drop_last(), x);
        }
        let mut k: usize = out.len();
        while k > 0 && is_before(by_names, item.as_str(), out[k - 1].as_str())
            invariant
                k <= out@.len(),
                x == item@,
                o0 == texts(out@),
                forall|j: int| k <= j < out@.len() ==> before(by_names, x, #[trigger] o0[j]),
            decreases k,
        {
            assert(o0[k - 1] == out@[k - 1]@);
            k = k - 1;
        }
        out.insert(k, item);
        proof {
            let o1 = texts(out@);
            assert(o1 =~= o0.insert(k as int, x));
            vstd::seq_lib::to_multiset_insert(o0, k as int, x);
            assert forall|i: int, j: int| 0 <= i < j < o1.len() implies !before(
                by_names,
                #[trigger] o1[j],
                #[trigger] o1[i],
            ) by {
                let i0 = if i < k { i } else { i - 1 };
                let j0 = if j < k { j } else { j - 1 };
                if i != k && j != k {
                    assert(o1[i] == o0[i0]);
                    assert(o1[j] == o0[j0]);
                } else if j == k {
                    assert(o1[i] == o0[i]);
                    if before(by_names, x, o0[i]) {
                        if i < k - 1 {
                            assert(o0[k - 1] == out@[k - 1]@);
                            assert(!before(by_names, x, o0[k - 1]));
                            assert(!before(by_names, o0[k - 1], o0[i]));
                            lemma_before_gap(by_names, x, o0[i], o0[k - 1]);
                        }
                    }
                } else {
                    assert(o1[j] == o0[j - 1]);
                    assert(before(by_names, x, o0[j - 1]));
                    if before(by_names, o0[j - 1], x) {
                        lemma_before_transitive(by_names, x, o0[j - 1], x);
                        lemma_before_irreflexive(by_names, x);
                    }
                }
            }
            assert(start.to_multiset() =~= o1.to_multiset().add(texts(rest@).to_multiset())) by {
                broadcast use vstd::multiset::group_multiset_axioms;

            }
        }
    }
    proof {
        broadcast use vstd::multiset::group_multiset_axioms;

        assert(texts(rest@) =~= Seq::<Seq<char>>::empty());
        assert(Seq::<Seq<char>>::empty().to_multiset() =~= vstd::multiset::Multiset::empty()) by {
            assert forall|x: Seq<char>| Seq::<Seq<char>>::empty().to_multiset().count(x) == 0 by {
                vstd::seq_lib::to_multiset_contains(Seq::<Seq<char>>::empty(), x);
            }
        }
        assert(texts(out@).to_multiset() =~= start.to_multiset());
        assert forall|x: Seq<char>| texts(out@).contains(x) <==> start.contains(x) by {
            vstd::seq_lib::to_multiset_contains(texts(out@), x);
            vstd::seq_lib::to_multiset_contains(start, x);
        }
    }
    out
}

fn is_before(by_names: bool, a: &str, b: &str) -> (r: bool)
    ensures
        r == before(by_names, a@, b@),
{
    if by_names {
        path_before(a, b)
    } else {
        text_before(a, b)
    }
}

proof fn lemma_before_irreflexive(by_names: bool, a: Seq<char>)
    ensures
        !before(by_names, a, a),
{
    if by_names {
        let n = path_components(a);
        if names_lt(n, n) {
            let k = choose|k: int| #[trigger] names_lower_at(n, n, k);
            lemma_component_lt_irreflexive(n[k]);
        }
    } else {
        lemma_text_lt_irreflexive(a);
    }
}

/// What does not precede `c` does not precede what `c` does not precede.
proof fn lemma_before_gap(by_names: bool, a: Seq<char>, b: Seq<char>, c: Seq<char>)
    requires
        before(by_names, a, b),
        !before(by_names, c, b),
    ensures
        before(by_names, a, c),
{
    if by_names {
        lemma_names_gap(path_components(a), path_components(b), path_components(c));
    } else {
        lemma_text_lt_total(b, c);
        if b != c {
            lemma_text_lt_transitive(a, b, c);
        }
    }
}

proof fn lemma_names_gap(a: Seq<Seq<char>>, b: Seq<Seq<char>>, c: Seq<Seq<char>>)
    requires
        names_lt(a, b),
        !names_lt(c, b),
    ensures
        names_lt(a, c),
{
    lemma_names_lt_total_from(b, c, 0);
    if b != c {
        lemma_names_lt_transitive(a, b, c);
    }
}

proof fn lemma_names_lt_total_from(a: Seq<Seq<char>>, b: Seq<Seq<char>>, k: int)
    requires
        0 <= k <= a.len(),
        k <= b.len(),
        forall|i: int| 0 <= i < k ==> (#[trigger] a[i]) == b[i],
    ensures
        a == b || names_lt(a, b) || names_lt(b, a),
    decreases a.len() - k,
{
    if k < a.len() && k < b.len() && a[k] == b[k] {
        lemma_names_lt_total_from(a, b, k + 1);
    } else if k == a.len() && k == b.len() {
        assert(a =~= b);
    } else if k == a.len() {
        assert(names_lower_at(a, b, k));
    } else if k == b.len() {
        assert(names_lower_at(b, a, k));
    } else {
        lemma_text_lt_total(a[k], b[k]);
        if component_lt(a[k], b[k]) {
            assert(names_lower_at(a, b, k));
        } else {
            assert(names_lower_at(b, a, k));
        }
    }
}

/// The names of a path are what stands between its slashes, without what is empty or a single dot.
pub proof fn law_names_of_a_path(parts: Seq<Seq<char>>)
    ensures
        only_names(parts) == parts.filter(|part: Seq<char>| part.len() > 0 && part != "."@),
    decreases parts.len(),
{
    reveal(Seq::filter);
    if parts.len() > 0 {
        law_names_of_a_path(parts.drop_last());
    }
}

/// A path that begins at the root has the root before its names, one that begins with a dot has the dot,
/// and any other has its names alone.
pub proof fn law_components_of_a_path(path: Seq<char>)
    ensures
        path.len() > 0 && path[0] == '/' ==> path_components(path) == seq!["/"@] + path_names(path),
        path.len() > 0 && path[0] != '/' && split_seq(path, '/')[0] == "."@ ==> path_components(path)
            == seq!["."@] + path_names(path),
        path.len() > 0 && path[0] != '/' && split_seq(path, '/')[0] != "."@ ==> path_components(path)
            == path_names(path),
        path_names(path) == only_names(split_seq(path, '/')),
{
}

/// A path lies in a directory exactly where its components begin with those of the directory.
pub proof fn law_path_in_a_directory(path: Seq<char>, dir: Seq<char>)
    ensures
        path_within(path, dir) <==> path_components(dir).is_prefix_of(path_components(path)),
{
    let a = path_components(dir);
    let b = path_components(path);
    if a.is_prefix_of(b) {
        assert(b.take(a.len() as int) =~= a);
    }
    if names_prefix(a, b) {
        assert(b.subrange(0, a.len() as int) =~= a);
    }
}

/// The parent of a path has its components but the last, and the root has no parent.
pub proof fn law_parent_of_a_path(c: Seq<Seq<char>>, name: Seq<char>)
    ensures
        name != "/"@ ==> parent_components(c.push(name)) == c,
        parent_components(seq!["/"@]) == Seq::<Seq<char>>::empty(),
        parent_components(Seq::empty()) == Seq::<Seq<char>>::empty(),
{
    assert(c.push(name).drop_last() =~= c);
}

/// Texts are ordered by their first difference, and one that begins another comes before it.
pub proof fn law_order_of_texts(a: Seq<char>, b: Seq<char>, common: Seq<char>, x: char, y: char)
    ensures
        x < y ==> text_lt(common.push(x) + a, common.push(y) + b),
        b.len() > 0 ==> text_lt(common, common + b),
        !text_lt(a, a),
{
    if x < y {
        assert(text_lower_at(common.push(x) + a, common.push(y) + b, common.len() as int));
    }
    if b.len() > 0 {
        assert(text_lower_at(common, common + b, common.len() as int));
    }
    if text_lt(a, a) {
        let k = choose|k: int| #[trigger] text_lower_at(a, a, k);
        assert(a[k] < a[k]);
    }
}

/// Components are ordered with the root first, the dot and the two dots next, and names by their texts.
pub proof fn law_order_of_components(a: Seq<char>, b: Seq<char>)
    ensures
        component_lt("/"@, "."@),
        component_lt("."@, ".."@),
        a != "/"@ && a != "."@ && a != ".."@ ==> component_lt("/"@, a) && component_lt("."@, a)
            && component_lt(".."@, a),
        a != "/"@ && a != "."@ && a != ".."@ && b != "/"@ && b != "."@ && b != ".."@ ==> (component_lt(a, b)
            <==> text_lt(a, b)),
{
    reveal_strlit("/");
    reveal_strlit(".");
    reveal_strlit("..");
    assert("/"@[0] == '/' && "."@[0] == '.' && ".."@.len() == 2 && "."@.len() == 1 && "/"@.len() == 1);
    assert("/"@ != "."@ && "."@ != ".."@ && "/"@ != ".."@);
}

/// Paths are ordered by their first component that differs, and one that another lies below comes before
/// it.
pub proof fn law_order_of_paths(
    a: Seq<Seq<char>>,
    b: Seq<Seq<char>>,
    common: Seq<Seq<char>>,
    x: Seq<char>,
    y: Seq<char>,
)
    ensures
        component_lt(x, y) ==> names_lt(common.push(x) + a, common.push(y) + b),
        b.len() > 0 ==> names_lt(common, common + b),
{
    if component_lt(x, y) {
        assert(names_lower_at(common.push(x) + a, common.push(y) + b, common.len() as int));
    }
    if b.len() > 0 {
        assert(names_lower_at(common, common + b, common.len() as int));
    }
}

/// A path is written with a slash between its names, and after the root.
pub proof fn law_text_of_components(c: Seq<Seq<char>>)
    ensures
        c.len() == 0 || c[0] != "/"@ ==> components_text(c) == join_seq(c, "/"@),
        components_text(seq!["/"@] + c) == "/"@ + join_seq(c, "/"@),
{
    assert((seq!["/"@] + c).drop_first() =~= c);
}

/// A path names a file where it ends in a name: not in the root, a dot or two dots.
pub proof fn law_path_names_a_file(path: Seq<char>)
    ensures
        has_file_name(path) <==> path_components(path).len() > 0 && path_components(path).last() != "/"@
            && path_components(path).last() != "."@ && path_components(path).last() != ".."@,
{
}

} // verus!
