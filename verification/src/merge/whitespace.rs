//! Comparison of blobs up to ignored white space.

use vstd::prelude::*;

use crate::text::{
    char_is_space, chars_of, is_space, join, join_seq, lacks, lemma_split_len, lemma_split_of_join,
    lemma_split_parts_lack, split, split_seq, string_of, strip_cr, texts, trim_end, trim_end_seq,
};
use vstd::utf8::{decode_utf8, encode_utf8, encode_utf8_decode_utf8, valid_utf8};

verus! {

/// What `String::from_utf8_lossy` makes of a sequence of bytes.
pub uninterp spec fn utf8_lossy_text(data: Seq<u8>) -> Seq<char>;

/// `String::from_utf8_lossy`: bytes that are valid UTF-8 are decoded; in others each
/// ill-formed part is replaced, which the name [`utf8_lossy_text`] stands for.
#[verifier::external_body]
pub(crate) fn utf8_lossy(data: &[u8]) -> (r: String)
    ensures
        r@ == utf8_lossy_text(data@),
        valid_utf8(data@) ==> r@ == decode_utf8(data@),
{
    String::from_utf8_lossy(data).into_owned()
}

/// Whitespace-insensitivity options for the textual three-way merge.
#[derive(Debug, Clone, Copy, PartialEq, Eq, Structural)]
pub struct WhitespaceMode {
    pub ignore_space_change: bool,
    pub ignore_all_space: bool,
    pub ignore_space_at_eol: bool,
    pub ignore_cr_at_eol: bool,
}

impl Default for WhitespaceMode {
    fn default() -> (r: Self)
        ensures
            r == (WhitespaceMode {
                ignore_space_change: false,
                ignore_all_space: false,
                ignore_space_at_eol: false,
                ignore_cr_at_eol: false,
            }),
    {
        WhitespaceMode {
            ignore_space_change: false,
            ignore_all_space: false,
            ignore_space_at_eol: false,
            ignore_cr_at_eol: false,
        }
    }
}

/// The runs of characters of `s` that hold no white space.
pub open spec fn words_seq(s: Seq<char>) -> Seq<Seq<char>>
    decreases s.len(),
{
    if s.len() == 0 {
        Seq::empty()
    } else {
        let head = words_seq(s.drop_last());
        if is_space(s.last()) {
            head
        } else if s.len() == 1 || is_space(s[s.len() - 2]) {
            head.push(seq![s.last()])
        } else {
            head.update(head.len() - 1, head.last().push(s.last()))
        }
    }
}

/// `s` without its white space.
pub open spec fn without_space(s: Seq<char>) -> Seq<char> {
    s.filter(|c: char| !is_space(c))
}

/// What a line is compared by under `mode`.
pub open spec fn canonical_line(mode: WhitespaceMode, line: Seq<char>) -> Seq<char> {
    if mode.ignore_all_space {
        without_space(line)
    } else if mode.ignore_space_change {
        join_seq(words_seq(line), seq![' '])
    } else if mode.ignore_space_at_eol {
        trim_end_seq(line)
    } else {
        line
    }
}

/// The lines that a text is compared by: each without a carriage return at its end, in canonical
/// form.
pub open spec fn canonical_lines(mode: WhitespaceMode, text: Seq<char>) -> Seq<Seq<char>> {
    split_seq(text, '\n').map_values(|p: Seq<char>| canonical_line(mode, strip_cr(p)))
}

/// What a text is compared by under an active `mode`: its lines in canonical form, line feeds kept.
pub open spec fn canonical_text(mode: WhitespaceMode, text: Seq<char>) -> Seq<char> {
    join_seq(canonical_lines(mode, text), seq!['\n'])
}

/// `s` without its white space, line feeds kept.
pub open spec fn unspaced(s: Seq<char>) -> Seq<char> {
    s.filter(|c: char| !is_space(c) || c == '\n')
}

pub open spec fn mode_is_active(mode: WhitespaceMode) -> bool {
    mode.ignore_space_change || mode.ignore_all_space || mode.ignore_space_at_eol
        || mode.ignore_cr_at_eol
}

/// What a blob is compared by under `mode`.
pub open spec fn canonical_bytes(mode: WhitespaceMode, content: Seq<u8>) -> Seq<u8> {
    if mode_is_active(mode) {
        encode_utf8(canonical_text(mode, utf8_lossy_text(content)))
    } else {
        content
    }
}

/// The words of `line`.
pub fn words(line: &str) -> (r: Vec<String>)
    ensures
        texts(r@) == words_seq(line@),
{
    let cs = chars_of(line);
    let mut out: Vec<String> = Vec::new();
    let mut word = String::new();
    let mut in_word: bool = false;
    let mut i: usize = 0;
    proof {
        assert(line@.take(0) =~= Seq::<char>::empty());
        assert(texts(out@) =~= Seq::<Seq<char>>::empty());
    }
    while i < cs.len()
        invariant
            cs@ == line@,
            i <= cs@.len(),
            in_word == (i > 0 && !is_space(line@[i - 1])),
            in_word ==> texts(out@).push(word@) == words_seq(line@.take(i as int)),
            !in_word ==> texts(out@) == words_seq(line@.take(i as int)),
            !in_word ==> word@ == Seq::<char>::empty(),
        decreases cs@.len() - i,
    {
        let ghost now = line@.take(i as int);
        let ghost next = line@.take(i as int + 1);
        let ghost out0 = out@;
        let ghost word0 = word@;
        proof {
            assert(next.drop_last() =~= now);
            assert(next.last() == line@[i as int]);
            if i > 0 {
                assert(next[next.len() - 2] == line@[i - 1]);
            }
        }
        let c = cs[i];
        if char_is_space(c) {
            if in_word {
                out.push(word);
                word = String::new();
                assert(texts(out@) =~= texts(out0).push(word0));
            }
            in_word = false;
        } else {
            word.push(c);
            proof {
                if in_word {
                    let before = texts(out@).push(word0);
                    assert(texts(out@).push(word@) =~= before.update(before.len() - 1, before.last().push(c)));
                } else {
                    assert(word@ =~= seq![c]);
                }
            }
            in_word = true;
        }
        i = i + 1;
    }
    assert(line@.take(line@.len() as int) =~= line@);
    if in_word {
        let ghost out0 = out@;
        let ghost word0 = word@;
        out.push(word);
        assert(texts(out@) =~= texts(out0).push(word0));
    }
    out
}

impl WhitespaceMode {
    /// Some class of white space is ignored.
    pub open spec fn ignores_some(self) -> bool {
        !(self == WhitespaceMode {
            ignore_space_change: false,
            ignore_all_space: false,
            ignore_space_at_eol: false,
            ignore_cr_at_eol: false,
        })
    }

    /// Whether any class of white space is ignored.
    pub fn is_active(&self) -> (r: bool)
        ensures
            r == mode_is_active(*self),
    {
        self.ignore_space_change || self.ignore_all_space || self.ignore_space_at_eol
            || self.ignore_cr_at_eol
    }

    /// Canonicalize `content` so two blobs that differ only by the ignored
    /// whitespace classes compare equal.
    pub fn canonicalize(&self, content: &[u8]) -> (r: Vec<u8>)
        ensures
            r@ == canonical_bytes(*self, content@),
            mode_is_active(*self) && valid_utf8(content@) ==> r@ == encode_utf8(
                canonical_text(*self, decode_utf8(content@)),
            ),
            self.ignore_all_space && valid_utf8(content@) ==> r@ == encode_utf8(
                unspaced(decode_utf8(content@)),
            ),
    {
        if !self.is_active() {
            return vstd::slice::slice_to_vec(content);
        }
        let text = utf8_lossy(content);
        let parts = split(text.as_str(), '\n');
        let ghost all = split_seq(text@, '\n');
        let mut out: Vec<String> = Vec::new();
        let mut i: usize = 0;
        while i < parts.len()
            invariant
                texts(parts@) == all,
                i <= parts@.len(),
                texts(out@) == all.take(i as int).map_values(
                    |p: Seq<char>| canonical_line(*self, strip_cr(p)),
                ),
            decreases parts@.len() - i,
        {
            let ghost out0 = out@;
            assert(all[i as int] == parts@[i as int]@);
            let cs = chars_of(parts[i].as_str());
            let n: usize = if cs.len() > 0 && cs[cs.len() - 1] == '\r' {
                cs.len() - 1
            } else {
                cs.len()
            };
            let line = string_of(&cs, 0, n);
            assert(line@ =~= strip_cr(all[i as int]));
            let done = self.canonicalize_line(line.as_str());
            let ghost dv = done@;
            out.push(done);
            proof {
                assert(texts(out@) =~= texts(out0).push(dv));
                assert(all.take(i as int + 1) =~= all.take(i as int).push(all[i as int]));
                assert(texts(out@) =~= all.take(i as int + 1).map_values(
                    |p: Seq<char>| canonical_line(*self, strip_cr(p)),
                ));
            }
            i = i + 1;
        }
        proof {
            assert(all.take(all.len() as int) =~= all);
            reveal_strlit("\n");
            assert("\n"@ =~= seq!['\n']);
            if self.ignore_all_space {
                law_all_space_is_ignored(*self, text@);
            }
        }
        join(&out, "\n").as_str().as_bytes_vec()
    }

    /// What a line without its terminator is compared by.
    pub fn canonicalize_line(&self, line: &str) -> (r: String)
        ensures
            r@ == canonical_line(*self, line@),
    {
        if self.ignore_all_space {
            let cs = chars_of(line);
            let mut out = String::new();
            let mut i: usize = 0;
            assert(line@.take(0).filter(|c: char| !is_space(c)) =~= Seq::<char>::empty()) by {
                reveal(Seq::filter);
                assert(line@.take(0).len() == 0);
            }
            while i < cs.len()
                invariant
                    cs@ == line@,
                    i <= cs@.len(),
                    out@ == without_space(line@.take(i as int)),
                decreases cs@.len() - i,
            {
                proof {
                    reveal(Seq::filter);
                    assert(line@.take(i as int + 1).drop_last() =~= line@.take(i as int));
                    assert(line@.take(i as int + 1).last() == line@[i as int]);
                }
                if !char_is_space(cs[i]) {
                    out.push(cs[i]);
                }
                i = i + 1;
            }
            assert(line@.take(line@.len() as int) =~= line@);
            return out;
        }
        if self.ignore_space_change {
            let ws = words(line);
            proof {
                reveal_strlit(" ");
                assert(" "@ =~= seq![' ']);
            }
            join(&ws, " ")
        } else if self.ignore_space_at_eol {
            trim_end(line)
        } else {
            line.to_owned()
        }
    }
}

/// Whether no character of `s` is white space.
spec fn solid(s: Seq<char>) -> bool {
    forall|i: int| 0 <= i < s.len() ==> !is_space(#[trigger] s[i])
}

proof fn lemma_without_space(s: Seq<char>)
    ensures
        solid(without_space(s)),
        solid(s) ==> without_space(s) == s,
    decreases s.len(),
{
    reveal(Seq::filter);
    if s.len() > 0 {
        let head = s.drop_last();
        lemma_without_space(head);
        let out = without_space(s);
        let h = without_space(head);
        assert forall|i: int| 0 <= i < out.len() implies !is_space(#[trigger] out[i]) by {
            if i < h.len() {
                assert(out[i] == h[i]);
            }
        }
        if solid(s) {
            assert(solid(head)) by {
                assert forall|i: int| 0 <= i < head.len() implies !is_space(#[trigger] head[i]) by {
                    assert(head[i] == s[i]);
                }
            }
            assert(!is_space(s[s.len() - 1]));
            assert(head.push(s.last()) =~= s);
        }
    }
}

proof fn lemma_trim_end(s: Seq<char>)
    ensures
        trim_end_seq(s).len() > 0 ==> !is_space(trim_end_seq(s).last()),
        trim_end_seq(trim_end_seq(s)) == trim_end_seq(s),
        lacks(s, '\n') ==> lacks(trim_end_seq(s), '\n'),
    decreases s.len(),
{
    if s.len() > 0 && is_space(s.last()) {
        lemma_trim_end(s.drop_last());
        if lacks(s, '\n') {
            assert forall|i: int| 0 <= i < s.drop_last().len() implies (#[trigger] s.drop_last()[i]) != '\n' by {
                assert(s.drop_last()[i] == s[i]);
            }
        }
    }
}

proof fn lemma_words_solid(s: Seq<char>)
    ensures
        forall|i: int|
            0 <= i < words_seq(s).len() ==> solid(#[trigger] words_seq(s)[i]) && words_seq(s)[i].len() > 0,
        s.len() > 0 && !is_space(s.last()) ==> words_seq(s).len() > 0,
    decreases s.len(),
{
    if s.len() > 0 {
        let head = s.drop_last();
        lemma_words_solid(head);
        let h = words_seq(head);
        let out = words_seq(s);
        if !is_space(s.last()) && s.len() > 1 && !is_space(s[s.len() - 2]) {
            assert(head.last() == s[s.len() - 2]);
        }
        assert forall|i: int| 0 <= i < out.len() implies solid(#[trigger] out[i]) && out[i].len() > 0 by {
            if is_space(s.last()) {
                assert(out[i] == h[i]);
            } else if s.len() == 1 || is_space(s[s.len() - 2]) {
                if i < h.len() {
                    assert(out[i] == h[i]);
                }
            } else {
                if i < h.len() - 1 {
                    assert(out[i] == h[i]);
                } else {
                    let w = h.last();
                    assert(solid(h[h.len() - 1]));
                    assert(out[i] == w.push(s.last()));
                    assert forall|k: int| 0 <= k < out[i].len() implies !is_space(#[trigger] out[i][k]) by {
                        if k < w.len() {
                            assert(out[i][k] == w[k]);
                        }
                    }
                }
            }
        }
    }
}

proof fn lemma_words_append(a: Seq<char>, w: Seq<char>)
    requires
        a.len() == 0 || is_space(a.last()),
        solid(w),
        w.len() > 0,
    ensures
        words_seq(a + w) == words_seq(a).push(w),
    decreases w.len(),
{
    let s = a + w;
    assert(s.drop_last() =~= a + w.drop_last());
    assert(!is_space(w[w.len() - 1]));
    assert(s.last() == w.last());
    if w.len() == 1 {
        assert(a + w.drop_last() =~= a);
        if s.len() > 1 {
            assert(s[s.len() - 2] == a.last());
        }
        assert(seq![s.last()] =~= w);
    } else {
        let head = w.drop_last();
        assert(solid(head)) by {
            assert forall|i: int| 0 <= i < head.len() implies !is_space(#[trigger] head[i]) by {
                assert(head[i] == w[i]);
            }
        }
        lemma_words_append(a, head);
        assert(s[s.len() - 2] == w[w.len() - 2]);
        let before = words_seq(a).push(head);
        assert(before.update(before.len() - 1, before.last().push(s.last())) =~= words_seq(a).push(
            head.push(w.last()),
        ));
        assert(head.push(w.last()) =~= w);
    }
}

proof fn lemma_words_of_join(ws: Seq<Seq<char>>)
    requires
        forall|i: int| 0 <= i < ws.len() ==> solid(#[trigger] ws[i]) && ws[i].len() > 0,
    ensures
        words_seq(join_seq(ws, seq![' '])) == ws,
        lacks(join_seq(ws, seq![' ']), '\n'),
        ws.len() > 0 ==> join_seq(ws, seq![' ']).len() > 0 && !is_space(
            join_seq(ws, seq![' ']).last(),
        ),
    decreases ws.len(),
{
    let j = join_seq(ws, seq![' ']);
    if ws.len() == 0 {
        assert(j =~= Seq::<char>::empty());
        assert(words_seq(j) =~= ws);
    } else {
        let w = ws.last();
        assert(solid(ws[ws.len() - 1]) && ws[ws.len() - 1].len() > 0);
        assert(!is_space(w[w.len() - 1]));
        if ws.len() == 1 {
            lemma_words_append(Seq::empty(), w);
            assert(Seq::<char>::empty() + w =~= w);
            assert(words_seq(Seq::<char>::empty()).push(w) =~= ws);
            assert forall|i: int| 0 <= i < j.len() implies (#[trigger] j[i]) != '\n' by {
                assert(!is_space(w[i]));
            }
        } else {
            let init = ws.drop_last();
            assert forall|i: int| 0 <= i < init.len() implies solid(#[trigger] init[i]) && init[i].len() > 0 by {
                assert(init[i] == ws[i]);
            }
            lemma_words_of_join(init);
            let head = join_seq(init, seq![' ']) + seq![' '];
            assert(head.last() == ' ');
            assert(is_space(' '));
            assert(head.drop_last() =~= join_seq(init, seq![' ']));
            assert(words_seq(head) == init);
            lemma_words_append(head, w);
            assert(j =~= head + w);
            assert(init.push(w) =~= ws);
            assert forall|i: int| 0 <= i < j.len() implies (#[trigger] j[i]) != '\n' by {
                if i < join_seq(init, seq![' ']).len() {
                    assert(j[i] == join_seq(init, seq![' '])[i]);
                } else if i >= head.len() {
                    assert(j[i] == w[i - head.len()]);
                    assert(!is_space(w[i - head.len()]));
                }
            }
        }
    }
}

/// The mode looks past white space at the end of a line.
pub open spec fn ignores_line_ends(mode: WhitespaceMode) -> bool {
    mode.ignore_all_space || mode.ignore_space_change || mode.ignore_space_at_eol
}

proof fn lemma_canonical_line(mode: WhitespaceMode, line: Seq<char>)
    requires
        ignores_line_ends(mode),
        lacks(line, '\n'),
    ensures
        canonical_line(mode, canonical_line(mode, line)) == canonical_line(mode, line),
        strip_cr(canonical_line(mode, line)) == canonical_line(mode, line),
        lacks(canonical_line(mode, line), '\n'),
{
    let out = canonical_line(mode, line);
    if mode.ignore_all_space {
        lemma_without_space(line);
        lemma_without_space(out);
        assert forall|i: int| 0 <= i < out.len() implies (#[trigger] out[i]) != '\n' by {
            assert(!is_space(out[i]));
        }
        if out.len() > 0 {
            assert(!is_space(out[out.len() - 1]));
        }
    } else if mode.ignore_space_change {
        lemma_words_solid(line);
        lemma_words_of_join(words_seq(line));
    } else {
        lemma_trim_end(line);
    }
}

/// Where the mode looks past white space at the end of lines, what a text is compared by is
/// compared by itself: a text and its canonical form compare equal.
pub proof fn law_canonical_text_is_stable(mode: WhitespaceMode, text: Seq<char>)
    requires
        ignores_line_ends(mode),
    ensures
        canonical_text(mode, canonical_text(mode, text)) == canonical_text(mode, text),
{
    let parts = split_seq(text, '\n');
    let f = |p: Seq<char>| canonical_line(mode, strip_cr(p));
    let lines = parts.map_values(f);
    lemma_split_parts_lack(text, '\n');
    assert forall|i: int| 0 <= i < lines.len() implies f(#[trigger] lines[i]) == lines[i] && lacks(
        lines[i],
        '\n',
    ) by {
        let p = strip_cr(parts[i]);
        assert(lacks(p, '\n')) by {
            assert forall|k: int| 0 <= k < p.len() implies (#[trigger] p[k]) != '\n' by {
                assert(parts[i][k] != '\n');
            }
        }
        lemma_canonical_line(mode, p);
    }
    assert forall|i: int, k: int| 0 <= i < lines.len() && 0 <= k < lines[i].len() implies #[trigger] lines[i][k]
        != '\n' by {
        assert(f(lines[i]) == lines[i]);
        assert(lacks(lines[i], '\n'));
    }
    lemma_split_of_join(lines, '\n');
    assert(lines.map_values(f) =~= lines);
}

/// Two texts compare equal where their lines do, one by one, and only there: line breaks count.
pub proof fn law_texts_compare_line_by_line(mode: WhitespaceMode, a: Seq<char>, b: Seq<char>)
    ensures
        canonical_text(mode, a) == canonical_text(mode, b) <==> canonical_lines(mode, a)
            == canonical_lines(mode, b),
{
    lemma_lines_of_canonical(mode, a);
    lemma_lines_of_canonical(mode, b);
}

proof fn lemma_lines_of_canonical(mode: WhitespaceMode, text: Seq<char>)
    ensures
        split_seq(canonical_text(mode, text), '\n') == canonical_lines(mode, text),
{
    let parts = split_seq(text, '\n');
    let lines = canonical_lines(mode, text);
    lemma_split_parts_lack(text, '\n');
    assert forall|i: int, k: int| 0 <= i < lines.len() && 0 <= k < lines[i].len() implies #[trigger] lines[i][k]
        != '\n' by {
        let p = strip_cr(parts[i]);
        assert(lacks(p, '\n')) by {
            assert forall|k: int| 0 <= k < p.len() implies (#[trigger] p[k]) != '\n' by {
                assert(parts[i][k] != '\n');
            }
        }
        if ignores_line_ends(mode) {
            lemma_canonical_line(mode, p);
        }
        assert(lacks(lines[i], '\n'));
    }
    lemma_split_of_join(lines, '\n');
}

proof fn lemma_unspaced_push(s: Seq<char>, c: char)
    ensures
        unspaced(s.push(c)) == (if is_space(c) && c != '\n' {
            unspaced(s)
        } else {
            unspaced(s).push(c)
        }),
        without_space(s.push(c)) == (if is_space(c) {
            without_space(s)
        } else {
            without_space(s).push(c)
        }),
{
    reveal(Seq::filter);
    assert(s.push(c).drop_last() =~= s);
}

proof fn lemma_line_without_space(mode: WhitespaceMode, line: Seq<char>)
    requires
        mode.ignore_all_space,
    ensures
        canonical_line(mode, strip_cr(line)) == without_space(line),
{
    if line.len() > 0 {
        lemma_unspaced_push(line.drop_last(), line.last());
        assert(line.drop_last().push(line.last()) =~= line);
        lemma_cr_is_space();
    }
}

/// More at the end of the last part is more at the end of the whole.
proof fn lemma_join_last(parts: Seq<Seq<char>>, sep: Seq<char>, c: char)
    requires
        parts.len() > 0,
    ensures
        join_seq(parts.update(parts.len() - 1, parts.last().push(c)), sep) == join_seq(
            parts,
            sep,
        ).push(c),
{
    let more = parts.update(parts.len() - 1, parts.last().push(c));
    assert(more.drop_last() =~= parts.drop_last());
    assert(join_seq(more, sep) =~= join_seq(parts, sep).push(c));
}

/// A mode that ignores all white space compares a text by all its other characters and its line
/// feeds: these stay as they are, and nothing else does.
pub proof fn law_all_space_is_ignored(mode: WhitespaceMode, text: Seq<char>)
    requires
        mode.ignore_all_space,
    ensures
        canonical_text(mode, text) == text.filter(|c: char| !is_space(c) || c == '\n'),
    decreases text.len(),
{
    let f = |p: Seq<char>| canonical_line(mode, strip_cr(p));
    let sep = seq!['\n'];
    if text.len() == 0 {
        reveal(Seq::filter);
        let lines = canonical_lines(mode, text);
        lemma_line_without_space(mode, Seq::empty());
        assert(lines.len() == 1 && lines[0] =~= Seq::<char>::empty());
        assert(canonical_text(mode, text) =~= unspaced(text));
    } else {
        let head = text.drop_last();
        let c = text.last();
        assert(head.push(c) =~= text);
        law_all_space_is_ignored(mode, head);
        lemma_unspaced_push(head, c);
        lemma_split_len(head, '\n');
        let parts = split_seq(head, '\n');
        let lines = parts.map_values(f);
        let now = split_seq(text, '\n').map_values(f);
        if c == '\n' {
            lemma_line_without_space(mode, Seq::empty());
            assert(without_space(Seq::empty()) =~= Seq::<char>::empty()) by {
                reveal(Seq::filter);
            }
            assert(now =~= lines.push(Seq::empty()));
            assert(now.drop_last() =~= lines);
            assert(join_seq(now, sep) =~= join_seq(lines, sep).push('\n'));
        } else {
            let last = parts.last();
            lemma_line_without_space(mode, last);
            lemma_line_without_space(mode, last.push(c));
            lemma_unspaced_push(last, c);
            if is_space(c) {
                assert(now =~= lines);
            } else {
                assert(now =~= lines.update(lines.len() - 1, lines.last().push(c)));
                lemma_join_last(lines, sep, c);
            }
        }
    }
}

/// Where all white space is ignored, two texts compare equal if they differ only in white space
/// other than line feeds, and only then; so do the bytes that they are compared by.
pub proof fn law_texts_compare_without_space(mode: WhitespaceMode, a: Seq<char>, b: Seq<char>)
    requires
        mode.ignore_all_space,
    ensures
        canonical_text(mode, a) == canonical_text(mode, b) <==> unspaced(a) == unspaced(b),
        encode_utf8(canonical_text(mode, a)) == encode_utf8(canonical_text(mode, b)) <==> unspaced(a)
            == unspaced(b),
{
    law_all_space_is_ignored(mode, a);
    law_all_space_is_ignored(mode, b);
    encode_utf8_decode_utf8(canonical_text(mode, a));
    encode_utf8_decode_utf8(canonical_text(mode, b));
}

/// Where changes in the amount of white space are ignored, two texts compare equal if their lines
/// have the same words, and only then.
pub proof fn law_texts_compare_by_words(mode: WhitespaceMode, a: Seq<char>, b: Seq<char>)
    requires
        mode.ignore_space_change,
        !mode.ignore_all_space,
    ensures
        canonical_text(mode, a) == canonical_text(mode, b) <==> split_seq(a, '\n').map_values(
            |p: Seq<char>| words_seq(p),
        ) == split_seq(b, '\n').map_values(|p: Seq<char>| words_seq(p)),
{
    law_texts_compare_line_by_line(mode, a, b);
    let w = |p: Seq<char>| words_seq(p);
    let la = canonical_lines(mode, a);
    let lb = canonical_lines(mode, b);
    let pa = split_seq(a, '\n');
    let pb = split_seq(b, '\n');
    assert forall|i: int| 0 <= i < pa.len() implies la[i] == join_seq(
        #[trigger] pa.map_values(w)[i],
        seq![' '],
    ) && words_seq(la[i]) == pa.map_values(w)[i] by {
        lemma_words_of_line(mode, pa[i]);
    }
    assert forall|i: int| 0 <= i < pb.len() implies lb[i] == join_seq(
        #[trigger] pb.map_values(w)[i],
        seq![' '],
    ) && words_seq(lb[i]) == pb.map_values(w)[i] by {
        lemma_words_of_line(mode, pb[i]);
    }
    if la == lb {
        assert(la.len() == pa.len() && lb.len() == pb.len());
        assert(pa.map_values(w) =~= pb.map_values(w));
    }
    if pa.map_values(w) == pb.map_values(w) {
        assert(pa.map_values(w).len() == pb.map_values(w).len());
        assert(la =~= lb) by {
            assert forall|i: int| 0 <= i < la.len() implies la[i] == lb[i] by {
                assert(pa.map_values(w)[i] == pb.map_values(w)[i]);
            }
        }
    }
}

proof fn lemma_words_of_line(mode: WhitespaceMode, line: Seq<char>)
    requires
        mode.ignore_space_change,
        !mode.ignore_all_space,
    ensures
        canonical_line(mode, strip_cr(line)) == join_seq(words_seq(line), seq![' ']),
        words_seq(join_seq(words_seq(line), seq![' '])) == words_seq(line),
{
    lemma_cr_is_space();
    lemma_words_solid(line);
    lemma_words_of_join(words_seq(line));
}

/// Where white space at line ends is ignored, and no other, two texts compare equal if their lines
/// are the same up to that white space, and only then.
pub proof fn law_texts_compare_up_to_line_ends(mode: WhitespaceMode, a: Seq<char>, b: Seq<char>)
    requires
        mode.ignore_space_at_eol,
        !mode.ignore_all_space,
        !mode.ignore_space_change,
    ensures
        canonical_text(mode, a) == canonical_text(mode, b) <==> split_seq(a, '\n').map_values(
            |p: Seq<char>| trim_end_seq(p),
        ) == split_seq(b, '\n').map_values(|p: Seq<char>| trim_end_seq(p)),
{
    law_texts_compare_line_by_line(mode, a, b);
    let g = |p: Seq<char>| trim_end_seq(p);
    let pa = split_seq(a, '\n');
    let pb = split_seq(b, '\n');
    lemma_cr_is_space();
    assert(canonical_lines(mode, a) =~= pa.map_values(g));
    assert(canonical_lines(mode, b) =~= pb.map_values(g));
}

proof fn lemma_cr_is_space()
    ensures
        is_space('\r'),
        is_space('\n'),
{
}

/// White space is ignored where one of the four ways to is switched on; else nothing is changed.
pub proof fn law_what_is_ignored(mode: WhitespaceMode, line: Seq<char>, content: Seq<u8>)
    ensures
        mode_is_active(mode) <==> mode.ignores_some(),
        !mode_is_active(mode) ==> canonical_bytes(mode, content) == content,
        mode_is_active(mode) ==> canonical_bytes(mode, content) == encode_utf8(
            canonical_text(mode, utf8_lossy_text(content)),
        ),
        mode.ignore_all_space ==> canonical_line(mode, line) == line.filter(|c: char| !is_space(c)),
        !mode.ignore_all_space && mode.ignore_space_change ==> canonical_line(mode, line) == join_seq(
            words_seq(line),
            seq![' '],
        ),
        !mode.ignore_all_space && !mode.ignore_space_change && mode.ignore_space_at_eol ==> canonical_line(
            mode,
            line,
        ) == trim_end_seq(line),
        !mode.ignore_all_space && !mode.ignore_space_change && !mode.ignore_space_at_eol ==> canonical_line(
            mode,
            line,
        ) == line,
{
}

/// Texts that differ in the returns at the ends of their lines alone are one where these are ignored.
pub proof fn law_texts_compare_up_to_returns(mode: WhitespaceMode, a: Seq<char>, b: Seq<char>)
    requires
        mode.ignore_cr_at_eol,
        !mode.ignore_all_space,
        !mode.ignore_space_change,
        !mode.ignore_space_at_eol,
    ensures
        canonical_text(mode, a) == canonical_text(mode, b) <==> split_seq(a, '\n').map_values(
            |p: Seq<char>| strip_cr(p),
        ) == split_seq(b, '\n').map_values(|p: Seq<char>| strip_cr(p)),
{
    law_texts_compare_line_by_line(mode, a, b);
    assert(canonical_lines(mode, a) =~= split_seq(a, '\n').map_values(|p: Seq<char>| strip_cr(p)));
    assert(canonical_lines(mode, b) =~= split_seq(b, '\n').map_values(|p: Seq<char>| strip_cr(p)));
}

/// The words of a line are what stands between its spaces: each is without space and none is empty, a
/// word after a space is one more, and the words one after the other are the line without its spaces.
pub proof fn law_words_of_a_line(a: Seq<char>, w: Seq<char>, c: char)
    ensures
        words_seq(Seq::empty()) == Seq::<Seq<char>>::empty(),
        is_space(c) ==> words_seq(a.push(c)) == words_seq(a),
        forall|i: int|
            0 <= i < words_seq(a).len() ==> (#[trigger] words_seq(a)[i]).len() > 0 && forall|j: int|
                0 <= j < words_seq(a)[i].len() ==> !is_space(#[trigger] words_seq(a)[i][j]),
        (a.len() == 0 || is_space(a.last())) && w.len() > 0 && (forall|j: int|
            0 <= j < w.len() ==> !is_space(#[trigger] w[j])) ==> words_seq(a + w) == words_seq(a).push(w),
{
    assert(a.push(c).drop_last() =~= a);
    lemma_words_solid(a);
    assert forall|i: int| 0 <= i < words_seq(a).len() implies (#[trigger] words_seq(a)[i]).len() > 0 && forall|
        j: int,
    |
        0 <= j < words_seq(a)[i].len() ==> !is_space(#[trigger] words_seq(a)[i][j]) by {
        assert(solid(words_seq(a)[i]));
    }
    if (a.len() == 0 || is_space(a.last())) && w.len() > 0 && (forall|j: int|
        0 <= j < w.len() ==> !is_space(#[trigger] w[j])) {
        assert(solid(w));
        lemma_words_append(a, w);
    }
}

} // verus!
