//! Text operations on `&str` and `String`, specified over sequences of characters.

use vstd::prelude::*;

verus! {

/// `String::push`: the string grows by the character at its end.
pub assume_specification[ String::push ](s: &mut String, c: char)
    ensures
        final(s)@ == old(s)@.push(c),
;

/// The characters with the Unicode property White_Space.
pub open spec fn is_space(c: char) -> bool {
    let n = c as u32;
    ||| 0x09 <= n <= 0x0d
    ||| n == 0x20
    ||| n == 0x85
    ||| n == 0xa0
    ||| n == 0x1680
    ||| 0x2000 <= n <= 0x200a
    ||| n == 0x2028
    ||| n == 0x2029
    ||| n == 0x202f
    ||| n == 0x205f
    ||| n == 0x3000
}

/// Whether `c` has the Unicode property White_Space.
pub fn char_is_space(c: char) -> (r: bool)
    ensures
        r == is_space(c),
{
    let n: u32 = c as u32;
    (0x09 <= n && n <= 0x0d) || n == 0x20 || n == 0x85 || n == 0xa0 || n == 0x1680 || (0x2000 <= n
        && n <= 0x200a) || n == 0x2028 || n == 0x2029 || n == 0x202f || n == 0x205f || n == 0x3000
}

/// An ASCII upper-case letter is replaced by its lower-case letter; others stay.
pub open spec fn lower_char(c: char) -> char {
    if 'A' <= c <= 'Z' {
        (c as u32 + 32) as char
    } else {
        c
    }
}

/// `s` with every ASCII letter in lower case.
pub open spec fn lower(s: Seq<char>) -> Seq<char> {
    s.map_values(|c: char| lower_char(c))
}

pub open spec fn is_ascii_alnum(c: char) -> bool {
    ('a' <= c <= 'z') || ('A' <= c <= 'Z') || ('0' <= c <= '9')
}

/// `s` without the white space at its end.
pub open spec fn trim_end_seq(s: Seq<char>) -> Seq<char>
    decreases s.len(),
{
    if s.len() > 0 && is_space(s.last()) {
        trim_end_seq(s.drop_last())
    } else {
        s
    }
}

/// `s` without the white space at its start.
pub open spec fn trim_start_seq(s: Seq<char>) -> Seq<char>
    decreases s.len(),
{
    if s.len() > 0 && is_space(s[0]) {
        trim_start_seq(s.drop_first())
    } else {
        s
    }
}

/// `s` without the white space at either end.
pub open spec fn trim_seq(s: Seq<char>) -> Seq<char> {
    trim_end_seq(trim_start_seq(s))
}

/// The parts of `s` between the occurrences of `sep`; one more than there are occurrences.
pub open spec fn split_seq(s: Seq<char>, sep: char) -> Seq<Seq<char>>
    decreases s.len(),
{
    if s.len() == 0 {
        seq![Seq::<char>::empty()]
    } else {
        let head = split_seq(s.drop_last(), sep);
        if s.last() == sep {
            head.push(Seq::<char>::empty())
        } else {
            head.update(head.len() - 1, head.last().push(s.last()))
        }
    }
}

/// The parts one after the other, with `sep` between two neighbours.
pub open spec fn join_seq(parts: Seq<Seq<char>>, sep: Seq<char>) -> Seq<char>
    decreases parts.len(),
{
    if parts.len() == 0 {
        Seq::empty()
    } else if parts.len() == 1 {
        parts[0]
    } else {
        join_seq(parts.drop_last(), sep) + sep + parts.last()
    }
}

/// A line without its terminator: no `\r` at the end of what stood before a line feed.
pub open spec fn strip_cr(s: Seq<char>) -> Seq<char> {
    if s.len() > 0 && s.last() == '\r' {
        s.drop_last()
    } else {
        s
    }
}

/// The lines of `s`: what stands before each line feed, less one `\r` at its end, and then
/// whatever follows the last line feed, where that is not empty.
pub open spec fn lines_seq(s: Seq<char>) -> Seq<Seq<char>> {
    let parts = split_seq(s, '\n');
    let ended = parts.drop_last().map_values(|p: Seq<char>| strip_cr(p));
    if parts.last().len() == 0 {
        ended
    } else {
        ended.push(parts.last())
    }
}

pub open spec fn digit_char(d: nat) -> char {
    (('0' as u32) + d) as char
}

/// The decimal digits of `n`, without leading zeros.
pub open spec fn decimal(n: nat) -> Seq<char>
    decreases n,
{
    if n < 10 {
        seq![digit_char(n)]
    } else {
        decimal(n / 10).push(digit_char(n % 10))
    }
}

/// The octal digits of `n`, without leading zeros.
pub open spec fn octal(n: nat) -> Seq<char>
    decreases n,
{
    if n < 8 {
        seq![digit_char(n)]
    } else {
        octal(n / 8).push(digit_char(n % 8))
    }
}

pub open spec fn repeat_char(c: char, n: nat) -> Seq<char> {
    Seq::new(n, |i: int| c)
}

pub open spec fn has_prefix(s: Seq<char>, p: Seq<char>) -> bool {
    p.len() <= s.len() && s.take(p.len() as int) == p
}

pub open spec fn has_suffix(s: Seq<char>, p: Seq<char>) -> bool {
    p.len() <= s.len() && s.skip(s.len() - p.len()) == p
}

/// The characters of each text.
pub open spec fn texts(v: Seq<String>) -> Seq<Seq<char>> {
    v.map_values(|s: String| s@)
}

/// The characters of an optional text.
pub open spec fn opt_text(o: Option<String>) -> Option<Seq<char>> {
    match o {
        Some(s) => Some(s@),
        None => None,
    }
}

/// The characters of an optional borrowed text.
pub open spec fn opt_str(o: Option<&str>) -> Option<Seq<char>> {
    match o {
        Some(s) => Some(s@),
        None => None,
    }
}

pub fn chars_of(s: &str) -> (r: Vec<char>)
    ensures
        r@ == s@,
{
    let mut out: Vec<char> = Vec::new();
    for c in it: s.chars()
        invariant
            it.seq() == s@,
            out@ == s@.take(it.index() as int),
    {
        out.push(c);
        assert(s@.take(it.index() as int + 1) =~= s@.take(it.index() as int).push(s@[it.index() as int]));
    }
    assert(s@.take(s@.len() as int) =~= s@);
    out
}

/// The text made of `v[from..to]`.
pub fn string_of(v: &Vec<char>, from: usize, to: usize) -> (r: String)
    requires
        from <= to <= v@.len(),
    ensures
        r@ == v@.subrange(from as int, to as int),
{
    let mut out = String::new();
    let mut i: usize = from;
    while i < to
        invariant
            from <= i <= to <= v@.len(),
            out@ == v@.subrange(from as int, i as int),
        decreases to - i,
    {
        out.push(v[i]);
        assert(v@.subrange(from as int, i as int + 1) =~= v@.subrange(from as int, i as int).push(v@[i as int]));
        i = i + 1;
    }
    out
}

/// Whether two texts hold the same characters.
pub fn text_eq(a: &str, b: &str) -> (r: bool)
    ensures
        r == (a@ == b@),
{
    a.to_owned() == b.to_owned()
}

pub fn concat2(a: &str, b: &str) -> (r: String)
    ensures
        r@ == a@ + b@,
{
    a.to_owned().concat(b)
}

pub fn concat3(a: &str, b: &str, c: &str) -> (r: String)
    ensures
        r@ == a@ + b@ + c@,
{
    a.to_owned().concat(b).concat(c)
}

pub fn concat4(a: &str, b: &str, c: &str, d: &str) -> (r: String)
    ensures
        r@ == a@ + b@ + c@ + d@,
{
    a.to_owned().concat(b).concat(c).concat(d)
}

pub fn concat5(a: &str, b: &str, c: &str, d: &str, e: &str) -> (r: String)
    ensures
        r@ == a@ + b@ + c@ + d@ + e@,
{
    a.to_owned().concat(b).concat(c).concat(d).concat(e)
}

pub fn concat6(a: &str, b: &str, c: &str, d: &str, e: &str, f: &str) -> (r: String)
    ensures
        r@ == a@ + b@ + c@ + d@ + e@ + f@,
{
    a.to_owned().concat(b).concat(c).concat(d).concat(e).concat(f)
}

pub fn concat7(a: &str, b: &str, c: &str, d: &str, e: &str, f: &str, g: &str) -> (r: String)
    ensures
        r@ == a@ + b@ + c@ + d@ + e@ + f@ + g@,
{
    a.to_owned().concat(b).concat(c).concat(d).concat(e).concat(f).concat(g)
}

/// `s` in ASCII lower case.
pub fn to_lower(s: &str) -> (r: String)
    ensures
        r@ == lower(s@),
{
    let cs = chars_of(s);
    let mut out = String::new();
    let mut i: usize = 0;
    while i < cs.len()
        invariant
            cs@ == s@,
            i <= cs@.len(),
            out@ == lower(s@.take(i as int)),
        decreases cs@.len() - i,
    {
        let c = cs[i];
        let l: char = if 'A' <= c && c <= 'Z' {
            lower_letter(c)
        } else {
            c
        };
        out.push(l);
        proof {
            assert(s@.take(i as int + 1) =~= s@.take(i as int).push(s@[i as int]));
            assert(lower(s@.take(i as int + 1)) =~= lower(s@.take(i as int)).push(lower_char(c)));
        }
        i = i + 1;
    }
    assert(s@.take(s@.len() as int) =~= s@);
    out
}

pub fn lower_letter(c: char) -> (r: char)
    requires
        'A' <= c <= 'Z',
    ensures
        r == lower_char(c),
{
    let b: u8 = c as u8;
    (b + 32) as char
}

proof fn lemma_trim_end_take(s: Seq<char>, n: int)
    requires
        0 <= n <= s.len(),
        forall|i: int| n <= i < s.len() ==> is_space(#[trigger] s[i]),
    ensures
        trim_end_seq(s) == trim_end_seq(s.take(n)),
    decreases s.len() - n,
{
    if n < s.len() {
        assert(s.drop_last().take(n) =~= s.take(n));
        lemma_trim_end_take(s.drop_last(), n);
    } else {
        assert(s.take(n) =~= s);
    }
}

proof fn lemma_trim_start_skip(s: Seq<char>, n: int)
    requires
        0 <= n <= s.len(),
        forall|i: int| 0 <= i < n ==> is_space(#[trigger] s[i]),
    ensures
        trim_start_seq(s) == trim_start_seq(s.skip(n)),
    decreases n,
{
    if n > 0 {
        assert(s.drop_first().skip(n - 1) =~= s.skip(n));
        lemma_trim_start_skip(s.drop_first(), n - 1);
    } else {
        assert(s.skip(n) =~= s);
    }
}

/// `s` without the white space at its end.
pub fn trim_end(s: &str) -> (r: String)
    ensures
        r@ == trim_end_seq(s@),
{
    let cs = chars_of(s);
    let mut n: usize = cs.len();
    while n > 0 && char_is_space(cs[n - 1])
        invariant
            cs@ == s@,
            n <= cs@.len(),
            forall|i: int| n <= i < cs@.len() ==> is_space(#[trigger] cs@[i]),
        decreases n,
    {
        n = n - 1;
    }
    proof {
        lemma_trim_end_take(s@, n as int);
        assert(s@.take(n as int) =~= s@.subrange(0, n as int));
        if n > 0 {
            assert(s@.take(n as int).last() == s@[n - 1]);
        }
    }
    string_of(&cs, 0, n)
}

/// `s` without the white space at either end.
pub fn trim(s: &str) -> (r: String)
    ensures
        r@ == trim_seq(s@),
{
    let cs = chars_of(s);
    let mut n: usize = 0;
    while n < cs.len() && char_is_space(cs[n])
        invariant
            cs@ == s@,
            n <= cs@.len(),
            forall|i: int| 0 <= i < n ==> is_space(#[trigger] cs@[i]),
        decreases cs@.len() - n,
    {
        n = n + 1;
    }
    proof {
        lemma_trim_start_skip(s@, n as int);
        assert(s@.skip(n as int) =~= s@.subrange(n as int, s@.len() as int));
        if n < s@.len() {
            assert(s@.skip(n as int)[0] == s@[n as int]);
        }
    }
    let rest = string_of(&cs, n, cs.len());
    trim_end(rest.as_str())
}

pub fn starts_with(s: &str, p: &str) -> (r: bool)
    ensures
        r == has_prefix(s@, p@),
{
    let n: usize = p.unicode_len();
    if n > s.unicode_len() {
        return false;
    }
    let head = s.substring_char(0, n);
    proof {
        assert(s@.subrange(0, n as int) =~= s@.take(p@.len() as int));
    }
    text_eq(head, p)
}

pub fn ends_with(s: &str, p: &str) -> (r: bool)
    ensures
        r == has_suffix(s@, p@),
{
    let n: usize = p.unicode_len();
    let m: usize = s.unicode_len();
    if n > m {
        return false;
    }
    let tail = s.substring_char(m - n, m);
    proof {
        assert(s@.subrange(m - n, m as int) =~= s@.skip(s@.len() - p@.len()));
    }
    text_eq(tail, p)
}

/// What follows the prefix `p`, where `s` starts with it.
pub fn strip_prefix(s: &str, p: &str) -> (r: Option<String>)
    ensures
        has_prefix(s@, p@) ==> (r matches Some(t) && t@ == s@.skip(p@.len() as int)),
        !has_prefix(s@, p@) ==> r is None,
{
    if !starts_with(s, p) {
        return None;
    }
    let n: usize = p.unicode_len();
    let m: usize = s.unicode_len();
    proof {
        assert(s@.subrange(n as int, m as int) =~= s@.skip(p@.len() as int));
    }
    Some(s.substring_char(n, m).to_owned())
}

pub fn contains_char(s: &str, c: char) -> (r: bool)
    ensures
        r == s@.contains(c),
{
    let cs = chars_of(s);
    let mut i: usize = 0;
    while i < cs.len()
        invariant
            cs@ == s@,
            i <= cs@.len(),
            forall|j: int| 0 <= j < i ==> cs@[j] != c,
        decreases cs@.len() - i,
    {
        if cs[i] == c {
            assert(s@[i as int] == c);
            return true;
        }
        i = i + 1;
    }
    false
}

pub proof fn lemma_split_len(s: Seq<char>, sep: char)
    ensures
        split_seq(s, sep).len() >= 1,
    decreases s.len(),
{
    if s.len() > 0 {
        lemma_split_len(s.drop_last(), sep);
    }
}

/// The parts of `s` between the occurrences of `sep`.
pub fn split(s: &str, sep: char) -> (r: Vec<String>)
    ensures
        texts(r@) == split_seq(s@, sep),
        r@.len() >= 1,
{
    let cs = chars_of(s);
    let mut out: Vec<String> = Vec::new();
    let mut part = String::new();
    let mut i: usize = 0;
    proof {
        assert(s@.take(0) =~= Seq::<char>::empty());
        assert(texts(out@).push(part@) =~= seq![Seq::<char>::empty()]);
    }
    while i < cs.len()
        invariant
            cs@ == s@,
            i <= cs@.len(),
            texts(out@).push(part@) == split_seq(s@.take(i as int), sep),
        decreases cs@.len() - i,
    {
        let ghost before = texts(out@).push(part@);
        let ghost out0 = out@;
        proof {
            assert(s@.take(i as int + 1).drop_last() =~= s@.take(i as int));
            assert(s@.take(i as int + 1).last() == s@[i as int]);
        }
        if cs[i] == sep {
            out.push(part);
            part = String::new();
            proof {
                assert(texts(out@) =~= before);
                assert(texts(out@).push(part@) =~= split_seq(s@.take(i as int + 1), sep));
            }
        } else {
            part.push(cs[i]);
            proof {
                assert(texts(out@).push(part@) =~= before.update(before.len() - 1, before.last().push(s@[i as int])));
            }
        }
        i = i + 1;
    }
    proof {
        assert(s@.take(s@.len() as int) =~= s@);
    }
    let ghost last = part@;
    let ghost out0 = out@;
    out.push(part);
    assert(texts(out@) =~= texts(out0).push(last));
    out
}

pub fn join(parts: &Vec<String>, sep: &str) -> (r: String)
    ensures
        r@ == join_seq(texts(parts@), sep@),
{
    let mut out = String::new();
    let mut i: usize = 0;
    while i < parts.len()
        invariant
            i <= parts@.len(),
            out@ == join_seq(texts(parts@).take(i as int), sep@),
        decreases parts@.len() - i,
    {
        if i > 0 {
            out.append(sep);
        }
        out.append(parts[i].as_str());
        proof {
            let all = texts(parts@);
            assert(all.take(i as int + 1).drop_last() =~= all.take(i as int));
            assert(all.take(i as int + 1).last() == parts@[i as int]@);
            if i == 0 {
                assert(all.take(1)[0] == parts@[0]@);
                assert(join_seq(all.take(0), sep@) =~= Seq::<char>::empty());
                assert(out@ =~= parts@[0]@);
            }
        }
        i = i + 1;
    }
    assert(texts(parts@).take(parts@.len() as int) =~= texts(parts@));
    out
}

/// The lines of `s`.
pub fn lines(s: &str) -> (r: Vec<String>)
    ensures
        texts(r@) == lines_seq(s@),
{
    let parts = split(s, '\n');
    let ghost all = split_seq(s@, '\n');
    let mut out: Vec<String> = Vec::new();
    let mut i: usize = 0;
    let n: usize = parts.len() - 1;
    while i < n
        invariant
            n + 1 == parts@.len(),
            i <= n,
            texts(parts@) == all,
            texts(out@) == all.take(i as int).map_values(|p: Seq<char>| strip_cr(p)),
        decreases n - i,
    {
        let cs = chars_of(parts[i].as_str());
        let ghost out0 = out@;
        assert(all[i as int] == parts@[i as int]@);
        let m: usize = if cs.len() > 0 && cs[cs.len() - 1] == '\r' {
            cs.len() - 1
        } else {
            cs.len()
        };
        let line = string_of(&cs, 0, m);
        proof {
            assert(line@ =~= strip_cr(all[i as int]));
            assert(all.take(i as int + 1) =~= all.take(i as int).push(all[i as int]));
        }
        let ghost lv = line@;
        out.push(line);
        assert(texts(out@) =~= texts(out0).push(lv));
        assert(texts(out@) =~= all.take(i as int + 1).map_values(|p: Seq<char>| strip_cr(p)));
        i = i + 1;
    }
    assert(all.drop_last() =~= all.take(n as int));
    assert(all.last() == parts@[n as int]@);
    let ghost out0 = out@;
    if !parts[n].as_str().is_empty() {
        out.push(parts[n].clone());
        assert(texts(out@) =~= texts(out0).push(all.last()));
    }
    out
}

pub fn decimal_text(n: u64) -> (r: String)
    ensures
        r@ == decimal(n as nat),
    decreases n,
{
    let d: u8 = (n % 10) as u8;
    let c: char = (48u8 + d) as char;
    if n < 10 {
        let mut out = String::new();
        out.push(c);
        assert(out@ =~= decimal(n as nat));
        out
    } else {
        let mut out = decimal_text(n / 10);
        out.push(c);
        out
    }
}

pub fn usize_text(n: usize) -> (r: String)
    ensures
        r@ == decimal(n as nat),
{
    decimal_text(n as u64)
}

pub fn octal_text(n: u32) -> (r: String)
    ensures
        r@ == octal(n as nat),
    decreases n,
{
    let d: u8 = (n % 8) as u8;
    let c: char = (48u8 + d) as char;
    if n < 8 {
        let mut out = String::new();
        out.push(c);
        assert(out@ =~= octal(n as nat));
        out
    } else {
        let mut out = octal_text(n / 8);
        out.push(c);
        out
    }
}

pub fn repeat(c: char, n: usize) -> (r: String)
    ensures
        r@ == repeat_char(c, n as nat),
{
    let mut out = String::new();
    let mut i: usize = 0;
    while i < n
        invariant
            i <= n,
            out@ == repeat_char(c, i as nat),
        decreases n - i,
    {
        out.push(c);
        assert(repeat_char(c, i as nat).push(c) =~= repeat_char(c, i as nat + 1));
        i = i + 1;
    }
    assert(out@ =~= repeat_char(c, n as nat));
    out
}

/// Where `s` first occurs in `v`.
pub fn find_text(v: &Vec<String>, s: &str) -> (r: Option<usize>)
    ensures
        match r {
            Some(i) => i < v@.len() && v@[i as int]@ == s@ && forall|j: int|
                0 <= j < i ==> (#[trigger] texts(v@)[j]) != s@,
            None => !texts(v@).contains(s@),
        },
{
    let mut i: usize = 0;
    while i < v.len()
        invariant
            i <= v@.len(),
            forall|j: int| 0 <= j < i ==> (#[trigger] texts(v@)[j]) != s@,
        decreases v@.len() - i,
    {
        if text_eq(v[i].as_str(), s) {
            return Some(i);
        }
        i = i + 1;
    }
    None
}

/// Whether some text of `v` holds the characters of `s`.
pub fn contains_text(v: &Vec<String>, s: &str) -> (r: bool)
    ensures
        r == texts(v@).contains(s@),
{
    match find_text(v, s) {
        Some(i) => {
            assert(texts(v@)[i as int] == s@);
            true
        },
        None => false,
    }
}

/// A copy of each text.
pub fn clone_texts(v: &Vec<String>) -> (r: Vec<String>)
    ensures
        texts(r@) == texts(v@),
        r@.len() == v@.len(),
{
    let mut out: Vec<String> = Vec::new();
    let mut i: usize = 0;
    while i < v.len()
        invariant
            i <= v@.len(),
            out@.len() == i,
            forall|j: int| 0 <= j < i ==> out@[j]@ == v@[j]@,
        decreases v@.len() - i,
    {
        out.push(v[i].clone());
        i = i + 1;
    }
    assert(texts(out@) =~= texts(v@));
    out
}

pub fn clone_opt_text(o: &Option<String>) -> (r: Option<String>)
    ensures
        r == *o,
        opt_text(r) == opt_text(*o),
{
    match o {
        Some(s) => Some(s.clone()),
        None => None,
    }
}

/// Whether `p` stands somewhere in `s`.
pub open spec fn has_infix(s: Seq<char>, p: Seq<char>) -> bool {
    exists|i: int| infix_at(s, p, i)
}

pub open spec fn infix_at(s: Seq<char>, p: Seq<char>, i: int) -> bool {
    0 <= i && i + p.len() <= s.len() && s.subrange(i, i + p.len()) == p
}

pub fn contains_str(s: &str, p: &str) -> (r: bool)
    ensures
        r == has_infix(s@, p@),
{
    let cs = chars_of(s);
    let ps = chars_of(p);
    if ps.len() > cs.len() {
        assert forall|i: int| !infix_at(s@, p@, i) by {}
        return false;
    }
    let total: usize = cs.len();
    let last: usize = total - ps.len();
    let mut i: usize = 0;
    while i <= last
        invariant
            cs@ == s@,
            ps@ == p@,
            total == cs@.len(),
            last + ps@.len() == total,
            i <= last + 1,
            forall|k: int| 0 <= k < i ==> !infix_at(s@, p@, k),
        decreases last + 1 - i,
    {
        let mut j: usize = 0;
        while j < ps.len() && cs[i + j] == ps[j]
            invariant
                cs@ == s@,
                ps@ == p@,
                i <= last,
                total == cs@.len(),
                last + ps@.len() == total,
                j <= ps@.len(),
                forall|k: int| 0 <= k < j ==> s@[i + k] == p@[k],
            decreases ps@.len() - j,
        {
            j = j + 1;
        }
        if j == ps.len() {
            assert(s@.subrange(i as int, i + p@.len()) =~= p@);
            assert(infix_at(s@, p@, i as int));
            return true;
        }
        proof {
            assert(s@.subrange(i as int, i + p@.len())[j as int] == s@[i + j]);
            assert(!infix_at(s@, p@, i as int));
        }
        if i == last {
            assert forall|k: int| !infix_at(s@, p@, k) by {}
            return false;
        }
        i = i + 1;
    }
    false
}

/// A number in decimal, with its sign.
pub open spec fn signed_decimal(n: int) -> Seq<char> {
    if n < 0 {
        "-"@ + decimal((-n) as nat)
    } else {
        decimal(n as nat)
    }
}

pub fn signed_text(n: i32) -> (r: String)
    ensures
        r@ == signed_decimal(n as int),
{
    wide_text(n as i64)
}

pub fn wide_text(n: i64) -> (r: String)
    ensures
        r@ == signed_decimal(n as int),
{
    if n < 0 {
        let digits = decimal_text((-(n + 1)) as u64 + 1);
        concat2("-", digits.as_str())
    } else {
        decimal_text(n as u64)
    }
}

/// `c` does not occur in `s`.
pub open spec fn lacks(s: Seq<char>, c: char) -> bool {
    forall|i: int| 0 <= i < s.len() ==> (#[trigger] s[i]) != c
}

pub proof fn lemma_split_parts_lack(s: Seq<char>, sep: char)
    ensures
        split_seq(s, sep).len() >= 1,
        forall|i: int, k: int|
            0 <= i < split_seq(s, sep).len() && 0 <= k < split_seq(s, sep)[i].len() ==> #[trigger] split_seq(
                s,
                sep,
            )[i][k] != sep,
    decreases s.len(),
{
    if s.len() > 0 {
        let head = split_seq(s.drop_last(), sep);
        lemma_split_parts_lack(s.drop_last(), sep);
        let out = split_seq(s, sep);
        assert forall|i: int, k: int| 0 <= i < out.len() && 0 <= k < out[i].len() implies #[trigger] out[i][k]
            != sep by {
            if i < head.len() && (s.last() == sep || i < head.len() - 1) {
                assert(out[i] == head[i]);
                assert(head[i][k] != sep);
            } else if s.last() != sep {
                assert(out[i] == head.last().push(s.last()));
                if k < head.last().len() {
                    assert(head[head.len() - 1][k] != sep);
                }
            }
        }
    }
}

proof fn lemma_split_append(a: Seq<char>, w: Seq<char>, sep: char)
    requires
        lacks(w, sep),
    ensures
        split_seq(a + w, sep) == split_seq(a, sep).update(
            split_seq(a, sep).len() - 1,
            split_seq(a, sep).last() + w,
        ),
    decreases w.len(),
{
    lemma_split_parts_lack(a, sep);
    let base = split_seq(a, sep);
    if w.len() == 0 {
        assert(a + w =~= a);
        assert(base.last() + w =~= base.last());
        assert(base.update(base.len() - 1, base.last()) =~= base);
    } else {
        let head = w.drop_last();
        assert((a + w).drop_last() =~= a + head);
        assert((a + w).last() == w.last());
        assert(w[w.len() - 1] != sep);
        assert forall|i: int| 0 <= i < head.len() implies (#[trigger] head[i]) != sep by {
            assert(head[i] == w[i]);
        }
        lemma_split_append(a, head, sep);
        assert((base.last() + head).push(w.last()) =~= base.last() + w);
        assert(split_seq(a + w, sep) =~= base.update(base.len() - 1, base.last() + w));
    }
}

/// Splitting what was joined gives the parts back, where none of them holds the separator.
pub proof fn lemma_split_of_join(parts: Seq<Seq<char>>, sep: char)
    requires
        parts.len() > 0,
        forall|i: int, k: int|
            0 <= i < parts.len() && 0 <= k < parts[i].len() ==> #[trigger] parts[i][k] != sep,
    ensures
        split_seq(join_seq(parts, seq![sep]), sep) == parts,
    decreases parts.len(),
{
    let last = parts.last();
    assert(lacks(last, sep)) by {
        assert forall|k: int| 0 <= k < last.len() implies (#[trigger] last[k]) != sep by {
            assert(parts[parts.len() - 1][k] != sep);
        }
    }
    if parts.len() == 1 {
        lemma_split_append(Seq::empty(), last, sep);
        assert(Seq::<char>::empty() + last =~= last);
        assert(split_seq(last, sep) =~= parts);
    } else {
        let init = parts.drop_last();
        assert forall|i: int, k: int| 0 <= i < init.len() && 0 <= k < init[i].len() implies #[trigger] init[i][k]
            != sep by {
            assert(parts[i][k] != sep);
        }
        lemma_split_of_join(init, sep);
        let head = join_seq(init, seq![sep]) + seq![sep];
        assert(head.drop_last() =~= join_seq(init, seq![sep]));
        assert(split_seq(head, sep) == init.push(Seq::empty()));
        lemma_split_append(head, last, sep);
        assert(Seq::<char>::empty() + last =~= last);
        assert(join_seq(parts, seq![sep]) =~= head + last);
        assert(split_seq(head + last, sep) =~= parts);
    }
}

proof fn lemma_digit_chars(a: nat, b: nat)
    requires
        a < 10,
        b < 10,
    ensures
        digit_char(a) == digit_char(b) <==> a == b,
        '0' <= digit_char(a) <= '9',
        digit_char(a) as nat - '0' as nat == a,
{
}

/// Two numbers have the same decimal text only where they are the same number. The text is made of
/// digits, the last of which is the rest of a division by ten.
pub proof fn law_decimal_text(a: nat, b: nat)
    ensures
        decimal(a) == decimal(b) <==> a == b,
        decimal(a).len() > 0,
        forall|i: int| 0 <= i < decimal(a).len() ==> '0' <= #[trigger] decimal(a)[i] <= '9',
        decimal(a).last() as nat - '0' as nat == a % 10,
        a >= 10 ==> decimal(a).drop_last() == decimal(a / 10),
        a >= 10 ==> decimal(a)[0] != '0',
    decreases a,
{
    lemma_digit_chars(a % 10, b % 10);
    if a >= 10 {
        assert(decimal(a).drop_last() =~= decimal(a / 10));
        assert(decimal(a).last() == digit_char(a % 10));
        law_decimal_text(a / 10, b / 10);
        assert(decimal(a)[0] == decimal(a / 10)[0]);
        if a / 10 < 10 {
            lemma_digit_chars(a / 10, 0);
            assert(decimal(a / 10)[0] == digit_char(a / 10));
        }
    } else {
        assert(decimal(a).last() == digit_char(a));
    }
    if b >= 10 {
        assert(decimal(b).drop_last() =~= decimal(b / 10));
        assert(decimal(b).last() == digit_char(b % 10));
        assert(decimal(b / 10).len() > 0);
    }
    if decimal(a) == decimal(b) {
        if a >= 10 && b >= 10 {
            assert(a / 10 == b / 10);
            assert(a % 10 == b % 10);
        } else if a < 10 && b < 10 {
            assert(decimal(a)[0] == digit_char(a) && decimal(b)[0] == digit_char(b));
        }
    }
}

/// Two numbers, positive or not, have the same text only where they are the same; a minus sign stands
/// before the negative ones and no others.
pub proof fn law_signed_decimal_text(a: int, b: int)
    ensures
        signed_decimal(a) == signed_decimal(b) <==> a == b,
        a < 0 <==> signed_decimal(a)[0] == '-',
        a >= 0 ==> signed_decimal(a) == decimal(a as nat),
        a < 0 ==> signed_decimal(a).drop_first() == decimal((-a) as nat),
{
    reveal_strlit("-");
    let x = if a < 0 {
        (-a) as nat
    } else {
        a as nat
    };
    let y = if b < 0 {
        (-b) as nat
    } else {
        b as nat
    };
    law_decimal_text(x, y);
    law_decimal_text(y, x);
    assert('0' <= decimal(x)[0] <= '9');
    assert('0' <= decimal(y)[0] <= '9');
    if a < 0 {
        assert(signed_decimal(a).drop_first() =~= decimal(x));
        assert(signed_decimal(a)[0] == '-');
    }
    if b < 0 {
        assert(signed_decimal(b).drop_first() =~= decimal(y));
        assert(signed_decimal(b)[0] == '-');
    }
}

/// A text has a prefix, a suffix or an infix where it is that with something after it, before it, or
/// around it.
pub proof fn law_parts_of_a_text(p: Seq<char>, a: Seq<char>, b: Seq<char>)
    ensures
        has_prefix(p + b, p),
        has_suffix(a + p, p),
        has_infix(a + p + b, p),
{
    assert((p + b).take(p.len() as int) =~= p);
    assert((a + p).skip((a + p).len() - p.len()) =~= p);
    assert((a + p + b).subrange(a.len() as int, (a.len() + p.len()) as int) =~= p);
    assert(infix_at(a + p + b, p, a.len() as int));
}

/// A text with a prefix, a suffix or an infix is that with something after it, before it, or around
/// it.
pub proof fn law_text_of_its_parts(s: Seq<char>, p: Seq<char>)
    ensures
        has_prefix(s, p) ==> s == p + s.skip(p.len() as int),
        has_suffix(s, p) ==> s == s.take(s.len() - p.len()) + p,
        has_infix(s, p) ==> exists|a: Seq<char>, b: Seq<char>| s == #[trigger] (a + p + b),
{
    if has_prefix(s, p) {
        assert(s =~= p + s.skip(p.len() as int));
    }
    if has_suffix(s, p) {
        assert(s =~= s.take(s.len() - p.len()) + p);
    }
    if has_infix(s, p) {
        let i = choose|i: int| infix_at(s, p, i);
        let a = s.take(i);
        let b = s.skip(i + p.len());
        assert(s =~= a + p + b);
    }
}

/// Trimming takes white space from both ends, and nothing else: what is taken is white space, and what
/// is left has none at its ends.
pub proof fn law_trim(s: Seq<char>)
    ensures
        exists|a: Seq<char>, b: Seq<char>|
            #![trigger all_space(a), all_space(b)]
            all_space(a) && all_space(b) && s == a + trim_seq(s) + b,
        trim_seq(s).len() > 0 ==> !is_space(trim_seq(s)[0]) && !is_space(trim_seq(s).last()),
{
    lemma_trim_start_parts(s);
    let t = trim_start_seq(s);
    let a = choose|a: Seq<char>| #[trigger] all_space(a) && s == a + t;
    lemma_trim_end_parts(t);
    let b = choose|b: Seq<char>| #[trigger] all_space(b) && t == trim_end_seq(t) + b;
    assert(s =~= a + trim_seq(s) + b);
    if trim_seq(s).len() > 0 {
        assert(t[0] == trim_seq(s)[0]);
    }
}

/// Every character of the text is white space.
pub open spec fn all_space(s: Seq<char>) -> bool {
    forall|i: int| 0 <= i < s.len() ==> is_space(#[trigger] s[i])
}

proof fn lemma_trim_start_parts(s: Seq<char>)
    ensures
        exists|a: Seq<char>| #[trigger] all_space(a) && s == a + trim_start_seq(s),
        trim_start_seq(s).len() > 0 ==> !is_space(trim_start_seq(s)[0]),
    decreases s.len(),
{
    if s.len() > 0 && is_space(s[0]) {
        lemma_trim_start_parts(s.drop_first());
        let a = choose|a: Seq<char>| #[trigger]
            all_space(a) && s.drop_first() == a + trim_start_seq(s.drop_first());
        let more = seq![s[0]] + a;
        assert(all_space(more)) by {
            assert forall|i: int| 0 <= i < more.len() implies is_space(#[trigger] more[i]) by {
                if i > 0 {
                    assert(more[i] == a[i - 1]);
                }
            }
        }
        let rest = trim_start_seq(s.drop_first());
        assert(s =~= seq![s[0]] + (a + rest));
        assert(s =~= more + rest);
    } else {
        assert(all_space(Seq::<char>::empty()));
        assert(s =~= Seq::<char>::empty() + trim_start_seq(s));
    }
}

proof fn lemma_trim_end_parts(s: Seq<char>)
    ensures
        exists|b: Seq<char>| #[trigger] all_space(b) && s == trim_end_seq(s) + b,
        trim_end_seq(s).len() > 0 ==> !is_space(trim_end_seq(s).last()),
    decreases s.len(),
{
    if s.len() > 0 && is_space(s.last()) {
        lemma_trim_end_parts(s.drop_last());
        let b = choose|b: Seq<char>| #[trigger]
            all_space(b) && s.drop_last() == trim_end_seq(s.drop_last()) + b;
        let more = b.push(s.last());
        assert(all_space(more)) by {
            assert forall|i: int| 0 <= i < more.len() implies is_space(#[trigger] more[i]) by {
                if i < b.len() {
                    assert(more[i] == b[i]);
                }
            }
        }
        let rest = trim_end_seq(s.drop_last());
        assert(s =~= (rest + b).push(s.last()));
        assert(s =~= rest + more);
    } else {
        assert(all_space(Seq::<char>::empty()));
        assert(s =~= trim_end_seq(s) + Seq::<char>::empty());
    }
}

/// Splitting at a separator and joining with it again gives the text back.
pub proof fn law_split_and_join(s: Seq<char>, sep: char)
    ensures
        join_seq(split_seq(s, sep), seq![sep]) == s,
        forall|i: int| 0 <= i < split_seq(s, sep).len() ==> lacks(#[trigger] split_seq(s, sep)[i], sep),
    decreases s.len(),
{
    lemma_split_parts_lack(s, sep);
    let parts = split_seq(s, sep);
    assert forall|i: int| 0 <= i < parts.len() implies lacks(#[trigger] parts[i], sep) by {
        assert forall|k: int| 0 <= k < parts[i].len() implies (#[trigger] parts[i][k]) != sep by {}
    }
    if s.len() > 0 {
        let head = split_seq(s.drop_last(), sep);
        law_split_and_join(s.drop_last(), sep);
        lemma_split_len(s.drop_last(), sep);
        assert(s.drop_last().push(s.last()) =~= s);
        if s.last() == sep {
            assert(parts.drop_last() =~= head);
            assert(join_seq(parts, seq![sep]) =~= s);
        } else {
            assert(parts.drop_last() =~= head.drop_last());
            assert(join_seq(parts, seq![sep]) =~= join_seq(head, seq![sep]).push(s.last()));
        }
    }
}

/// The white space is the tab, the four ends of lines after it, the space, and the spaces and line ends
/// of other scripts.
pub proof fn law_white_space(c: char)
    ensures
        is_space(c) <==> ('\t' <= c <= '\r') || c == ' ' || c == '\u{85}' || c == '\u{a0}' || c == '\u{1680}'
            || ('\u{2000}' <= c <= '\u{200a}') || c == '\u{2028}' || c == '\u{2029}' || c == '\u{202f}' || c
            == '\u{205f}' || c == '\u{3000}',
{
}

/// A capital is written small, in its place in the alphabet, and anything else stays as it is; letters
/// and digits are what is one.
pub proof fn law_small_letters(c: char, k: nat)
    ensures
        k < 26 ==> lower_char(('A' as u32 + k) as char) == ('a' as u32 + k) as char,
        !('A' <= c <= 'Z') ==> lower_char(c) == c,
        is_ascii_alnum(c) <==> ('a' <= c <= 'z') || ('A' <= c <= 'Z') || ('0' <= c <= '9'),
        lower_char(lower_char(c)) == lower_char(c),
{
}

/// A text is written small letter by letter.
pub proof fn law_small_text(s: Seq<char>, i: int)
    requires
        0 <= i < s.len(),
    ensures
        lower(s).len() == s.len(),
        lower(s)[i] == lower_char(s[i]),
{
}

/// A number is written in base eight digit by digit.
pub proof fn law_octal_digits(n: nat, d: nat)
    requires
        d < 8,
    ensures
        octal(d) == seq![('0' as u32 + d) as char],
        n > 0 ==> octal(8 * n + d) == octal(n).push(('0' as u32 + d) as char),
{
    if n > 0 {
        let v = 8 * n + d;
        assert(v / 8 == n && v % 8 == d);
    }
}

/// Lines end at line feeds, which may have a return before them; what follows the last one is a line
/// where it is not empty.
pub proof fn law_lines_of_a_text(line: Seq<char>, rest: Seq<char>)
    requires
        !line.contains('\n'),
    ensures
        lines_seq(Seq::empty()) == Seq::<Seq<char>>::empty(),
        line.len() > 0 ==> lines_seq(line) == seq![line],
        lines_seq(line + seq!['\n'] + rest) == seq![strip_cr(line)] + lines_seq(rest),
        line.len() == 0 || line.last() != '\r' ==> strip_cr(line) == line,
        strip_cr(line.push('\r')) == line,
{
    assert(line.push('\r').drop_last() =~= line);
    let none = Seq::<char>::empty();
    assert(split_seq(none, '\n') =~= seq![none]);
    assert(lines_seq(none) =~= Seq::<Seq<char>>::empty());
    lemma_split_alone(line, '\n');
    lemma_split_pieces(line, rest, '\n');
    assert(seq![line].drop_last() =~= Seq::<Seq<char>>::empty());
    if line.len() > 0 {
        assert(lines_seq(line) =~= seq![line]);
    }
    let all = split_seq(line + seq!['\n'] + rest, '\n');
    let parts = split_seq(rest, '\n');
    assert(all == seq![line] + parts);
    lemma_split_is_never_empty(rest, '\n');
    assert(all.last() == parts.last());
    assert(all.drop_last() =~= seq![line] + parts.drop_last());
    assert(lines_seq(line + seq!['\n'] + rest) =~= seq![strip_cr(line)] + lines_seq(rest));
}

proof fn lemma_split_is_never_empty(s: Seq<char>, sep: char)
    ensures
        split_seq(s, sep).len() > 0,
    decreases s.len(),
{
    if s.len() > 0 {
        lemma_split_is_never_empty(s.drop_last(), sep);
    }
}

proof fn lemma_split_alone(s: Seq<char>, sep: char)
    requires
        !s.contains(sep),
    ensures
        split_seq(s, sep) == seq![s],
    decreases s.len(),
{
    if s.len() == 0 {
        assert(s =~= Seq::<char>::empty());
    } else {
        let head = s.drop_last();
        assert forall|i: int| 0 <= i < head.len() implies head[i] != sep by {
            assert(s[i] == head[i]);
        }
        lemma_split_alone(head, sep);
        assert(s[s.len() - 1] == s.last());
        assert(head.push(s.last()) =~= s);
        assert(seq![head].update(0, head.push(s.last())) =~= seq![s]);
    }
}

proof fn lemma_split_pieces(a: Seq<char>, b: Seq<char>, sep: char)
    ensures
        split_seq(a + seq![sep] + b, sep) == split_seq(a, sep) + split_seq(b, sep),
    decreases b.len(),
{
    let all = a + seq![sep] + b;
    if b.len() == 0 {
        assert(all.drop_last() =~= a);
        assert(all.last() == sep);
        assert(split_seq(a, sep).push(Seq::<char>::empty()) =~= split_seq(a, sep) + seq![
            Seq::<char>::empty(),
        ]);
    } else {
        let head = b.drop_last();
        lemma_split_pieces(a, head, sep);
        lemma_split_is_never_empty(head, sep);
        assert(all.drop_last() =~= a + seq![sep] + head);
        assert(all.last() == b.last());
        assert(split_seq(all, sep) =~= split_seq(a, sep) + split_seq(b, sep));
    }
}

} // verus!
