//! Object identifiers and tree entry modes.

use vstd::prelude::*;

use crate::text::{chars_of, lower, lower_char, string_of};

verus! {

/// Hash algorithm of a repository's object names.
#[derive(Debug, Clone, Copy, PartialEq, Eq, Structural)]
pub enum HashKind {
    Sha1,
    Sha256,
}

/// Number of hexadecimal digits of an object name.
pub open spec fn hex_len(kind: HashKind) -> nat {
    match kind {
        HashKind::Sha1 => 40,
        HashKind::Sha256 => 64,
    }
}

/// An object name: a 160-bit or 256-bit number whose low 128 bits are `lo`.
#[derive(Debug, Clone, Copy, PartialEq, Eq, Structural)]
pub struct ObjectId {
    pub kind: HashKind,
    pub hi: u128,
    pub lo: u128,
}

pub open spec fn hex_char(d: nat) -> char {
    if d < 10 {
        (('0' as u32) + d) as char
    } else {
        (('a' as u32) + (d - 10)) as char
    }
}

/// The last `n` hexadecimal digits of `v`.
pub open spec fn hex_digits(v: nat, n: nat) -> Seq<char>
    decreases n,
{
    if n == 0 {
        Seq::empty()
    } else {
        hex_digits(v / 16, (n - 1) as nat).push(hex_char(v % 16))
    }
}

pub open spec fn is_hex_char(c: char) -> bool {
    ('0' <= c <= '9') || ('a' <= c <= 'f') || ('A' <= c <= 'F')
}

pub open spec fn hex_value(c: char) -> nat {
    if '0' <= c <= '9' {
        (c as u32 - '0' as u32) as nat
    } else if 'a' <= c <= 'f' {
        (c as u32 - 'a' as u32 + 10) as nat
    } else {
        (c as u32 - 'A' as u32 + 10) as nat
    }
}

/// The number that the hexadecimal digits of `s` write.
pub open spec fn hex_number(s: Seq<char>) -> nat
    decreases s.len(),
{
    if s.len() == 0 {
        0
    } else {
        hex_number(s.drop_last()) * 16 + hex_value(s.last())
    }
}

/// Whether `s` writes an object name: 40 or 64 hexadecimal digits.
pub open spec fn is_object_text(s: Seq<char>) -> bool {
    &&& s.len() == 40 || s.len() == 64
    &&& forall|i: int| 0 <= i < s.len() ==> is_hex_char(#[trigger] s[i])
}

impl ObjectId {
    /// The bits above the name's width are zero.
    pub open spec fn wf(self) -> bool {
        self.kind == HashKind::Sha1 ==> self.hi < 0x1_0000_0000
    }

    /// The name as lower-case hexadecimal digits.
    pub open spec fn text(self) -> Seq<char> {
        let top: nat = match self.kind {
            HashKind::Sha1 => 8,
            HashKind::Sha256 => 32,
        };
        hex_digits(self.hi as nat, top) + hex_digits(self.lo as nat, 32)
    }

    /// The object name that `s` writes.
    pub open spec fn of_text(s: Seq<char>) -> ObjectId {
        let kind = if s.len() == 40 {
            HashKind::Sha1
        } else {
            HashKind::Sha256
        };
        let top = s.len() - 32;
        ObjectId {
            kind,
            hi: hex_number(s.take(top)) as u128,
            lo: hex_number(s.skip(top)) as u128,
        }
    }

    /// The name of no object: every bit zero.
    pub fn zero(kind: HashKind) -> (r: ObjectId)
        ensures
            r == (ObjectId { kind, hi: 0, lo: 0 }),
            r.wf(),
    {
        ObjectId { kind, hi: 0, lo: 0 }
    }

    /// The name as lower-case hexadecimal digits.
    pub fn to_string(&self) -> (r: String)
        ensures
            r@ == self.text(),
    {
        let top: usize = match self.kind {
            HashKind::Sha1 => 8,
            HashKind::Sha256 => 32,
        };
        let head = push_hex(self.hi, top);
        let tail = push_hex(self.lo, 32);
        head.concat(tail.as_str())
    }
}

fn push_hex(v: u128, n: usize) -> (r: String)
    ensures
        r@ == hex_digits(v as nat, n as nat),
    decreases n,
{
    if n == 0 {
        String::new()
    } else {
        let mut out = push_hex(v / 16, n - 1);
        let d: u8 = (v % 16) as u8;
        let c: char = if d < 10 {
            (48u8 + d) as char
        } else {
            (87u8 + d) as char
        };
        out.push(c);
        out
    }
}

fn hex_digit_value(c: char) -> (r: u128)
    requires
        is_hex_char(c),
    ensures
        r == hex_value(c),
        r < 16,
{
    let n: u32 = c as u32;
    if '0' <= c && c <= '9' {
        (n - 48) as u128
    } else if 'a' <= c && c <= 'f' {
        (n - 87) as u128
    } else {
        (n - 55) as u128
    }
}

pub open spec fn pow16(n: nat) -> nat
    decreases n,
{
    if n == 0 {
        1
    } else {
        16 * pow16((n - 1) as nat)
    }
}

proof fn lemma_hex_number_bound(s: Seq<char>)
    requires
        forall|i: int| 0 <= i < s.len() ==> is_hex_char(#[trigger] s[i]),
    ensures
        hex_number(s) < pow16(s.len()),
    decreases s.len(),
{
    if s.len() > 0 {
        assert forall|i: int| 0 <= i < s.drop_last().len() implies is_hex_char(#[trigger] s.drop_last()[i]) by {
            assert(s.drop_last()[i] == s[i]);
        }
        lemma_hex_number_bound(s.drop_last());
        assert(is_hex_char(s[s.len() - 1]));
    }
}

proof fn lemma_pow16_mono(a: nat, b: nat)
    requires
        a <= b,
    ensures
        pow16(a) <= pow16(b),
    decreases b,
{
    if a < b {
        lemma_pow16_mono(a, (b - 1) as nat);
    }
}

proof fn lemma_pow16_values()
    ensures
        pow16(8) == 0x1_0000_0000,
        pow16(32) == 0x1_0000_0000_0000_0000_0000_0000_0000_0000,
{
    reveal_with_fuel(pow16, 33);
}

/// The number that `cs[from..to]` writes in hexadecimal.
fn parse_hex(cs: &Vec<char>, from: usize, to: usize) -> (r: u128)
    requires
        from <= to <= cs@.len(),
        to - from <= 32,
        forall|i: int| 0 <= i < cs@.len() ==> is_hex_char(#[trigger] cs@[i]),
    ensures
        r == hex_number(cs@.subrange(from as int, to as int)),
{
    let mut v: u128 = 0;
    let mut i: usize = from;
    assert(cs@.subrange(from as int, from as int) =~= Seq::<char>::empty());
    while i < to
        invariant
            from <= i <= to <= cs@.len(),
            to - from <= 32,
            forall|k: int| 0 <= k < cs@.len() ==> is_hex_char(#[trigger] cs@[k]),
            v == hex_number(cs@.subrange(from as int, i as int)),
        decreases to - i,
    {
        let ghost part = cs@.subrange(from as int, i as int);
        let ghost next = cs@.subrange(from as int, i as int + 1);
        proof {
            assert(next.drop_last() =~= part);
            assert(next.last() == cs@[i as int]);
            assert forall|k: int| 0 <= k < next.len() implies is_hex_char(#[trigger] next[k]) by {
                assert(next[k] == cs@[from + k]);
            }
            lemma_hex_number_bound(next);
            lemma_pow16_mono(next.len(), 32);
            lemma_pow16_values();
        }
        v = v * 16 + hex_digit_value(cs[i]);
        i = i + 1;
    }
    v
}

/// The object name that 40 or 64 hexadecimal digits write.
pub fn object_id_of_text(s: &str) -> (r: ObjectId)
    requires
        is_object_text(s@),
    ensures
        r == ObjectId::of_text(s@),
        r.wf(),
{
    let cs = chars_of(s);
    let n: usize = cs.len();
    let kind = if n == 40 {
        HashKind::Sha1
    } else {
        HashKind::Sha256
    };
    let hi: u128 = parse_hex(&cs, 0, n - 32);
    let lo: u128 = parse_hex(&cs, n - 32, n);
    proof {
        assert(s@.take(n - 32) =~= s@.subrange(0, n - 32));
        assert(s@.skip(n - 32) =~= s@.subrange(n - 32, n as int));
        let head = s@.take(n - 32);
        assert forall|i: int| 0 <= i < head.len() implies is_hex_char(#[trigger] head[i]) by {
            assert(head[i] == s@[i]);
        }
        lemma_hex_number_bound(head);
        lemma_pow16_values();
    }
    ObjectId { kind, hi, lo }
}

proof fn lemma_hex_roundtrip(v: nat, n: nat)
    requires
        v < pow16(n),
    ensures
        hex_digits(v, n).len() == n,
        hex_number(hex_digits(v, n)) == v,
    decreases n,
{
    if n > 0 {
        let p = pow16((n - 1) as nat);
        assert(v / 16 < p) by (nonlinear_arith)
            requires
                v < 16 * p,
        ;
        lemma_hex_roundtrip(v / 16, (n - 1) as nat);
        assert(hex_digits(v, n).drop_last() =~= hex_digits(v / 16, (n - 1) as nat));
        assert(hex_value(hex_char(v % 16)) == v % 16);
    }
}

proof fn lemma_hex_form(v: nat, n: nat)
    ensures
        hex_digits(v, n).len() == n,
        forall|i: int|
            0 <= i < n ==> is_hex_char(#[trigger] hex_digits(v, n)[i]) && lower_char(hex_digits(v, n)[i])
                == hex_digits(v, n)[i],
    decreases n,
{
    if n > 0 {
        lemma_hex_form(v / 16, (n - 1) as nat);
        let head = hex_digits(v / 16, (n - 1) as nat);
        let all = hex_digits(v, n);
        assert forall|i: int| 0 <= i < n implies is_hex_char(#[trigger] all[i]) && lower_char(all[i]) == all[i] by {
            if i < n - 1 {
                assert(all[i] == head[i]);
            } else {
                assert(all[i] == hex_char(v % 16));
            }
        }
    }
}

/// An object name is always written in as many lower-case hexadecimal digits as its kind has.
pub proof fn law_object_text_form(id: ObjectId)
    ensures
        is_object_text(id.text()),
        id.text().len() == hex_len(id.kind),
        lower(id.text()) == id.text(),
{
    let top: nat = match id.kind {
        HashKind::Sha1 => 8,
        HashKind::Sha256 => 32,
    };
    lemma_hex_form(id.hi as nat, top);
    lemma_hex_form(id.lo as nat, 32);
    let a = hex_digits(id.hi as nat, top);
    let b = hex_digits(id.lo as nat, 32);
    let t = id.text();
    assert forall|i: int| 0 <= i < t.len() implies is_hex_char(#[trigger] t[i]) && lower_char(t[i]) == t[i] by {
        if i < top {
            assert(t[i] == a[i]);
        } else {
            assert(t[i] == b[i - top]);
        }
    }
    assert(lower(t) =~= t);
}

/// Reading what an object name is written as gives the name back.
pub proof fn law_object_text_round_trip(id: ObjectId)
    requires
        id.wf(),
    ensures
        ObjectId::of_text(id.text()) == id,
{
    lemma_pow16_values();
    let top: nat = match id.kind {
        HashKind::Sha1 => 8,
        HashKind::Sha256 => 32,
    };
    lemma_hex_roundtrip(id.hi as nat, top);
    lemma_hex_roundtrip(id.lo as nat, 32);
    law_object_text_form(id);
    let t = id.text();
    assert(t.take(top as int) =~= hex_digits(id.hi as nat, top));
    assert(t.skip(top as int) =~= hex_digits(id.lo as nat, 32));
}

/// Two object names of one kind that are written alike are the same name.
pub proof fn law_object_text_injective(a: ObjectId, b: ObjectId)
    requires
        a.wf(),
        b.wf(),
        a.text() == b.text(),
    ensures
        a == b,
{
    law_object_text_round_trip(a);
    law_object_text_round_trip(b);
}

/// Why `git_internal` does not take a text for an object name.
pub uninterp spec fn hash_fault_text(s: Seq<char>) -> Seq<char>;

/// `ObjectHash::from_str`, written out again: it takes exactly the texts of 40 or 64 hexadecimal
/// digits, and writes them in lower case. What it says of any other text is named.
#[verifier::external_body]
fn parse_object_hash(s: &str) -> (r: Result<String, String>)
    ensures
        match r {
            Ok(t) => is_object_text(s@) && t@ == lower(s@),
            Err(e) => !is_object_text(s@) && e@ == hash_fault_text(s@),
        },
{
    match s.parse::<git_internal::hash::ObjectHash>() {
        Ok(hash) => Ok(hash.to_string()),
        Err(error) => Err(error),
    }
}

/// The object name that a text writes, or why it writes none.
pub open spec fn parsed_id(s: Seq<char>) -> Result<ObjectId, Seq<char>> {
    if is_object_text(s) {
        Ok(ObjectId::of_text(lower(s)))
    } else {
        Err(hash_fault_text(s))
    }
}

/// Read an object name.
pub fn object_id_from_str(s: &str) -> (r: Result<ObjectId, String>)
    ensures
        match (r, parsed_id(s@)) {
            (Ok(id), Ok(want)) => id == want && id.wf(),
            (Err(e), Err(want)) => e@ == want,
            _ => false,
        },
{
    match parse_object_hash(s) {
        Ok(text) => {
            proof {
                assert forall|i: int| 0 <= i < lower(s@).len() implies is_hex_char(
                    #[trigger] lower(s@)[i],
                ) by {
                    assert(is_hex_char(s@[i]));
                }
            }
            Ok(object_id_of_text(text.as_str()))
        },
        Err(e) => Err(e),
    }
}

/// An object name can always be read back from how it is written.
pub proof fn law_object_name_is_read_back(id: ObjectId)
    requires
        id.wf(),
    ensures
        parsed_id(id.text()) == Ok::<ObjectId, Seq<char>>(id),
{
    law_object_text_form(id);
    law_object_text_round_trip(id);
}

/// The object name that `git_internal` gives to data of one type, in hexadecimal digits: under
/// SHA-256 where `sha256` holds, else SHA-1.
pub uninterp spec fn object_name_text(sha256: bool, object_type: Seq<char>, data: Seq<u8>) -> Seq<char>;

/// `ObjectHash::from_type_and_data_for_kind`: the name of the object of that type that holds
/// `data`, in lower-case hexadecimal digits, as many as the kind of hash has. Blobs, trees and
/// commits have a header, so the call does not fail for them.
#[verifier::external_body]
fn object_name(sha256: bool, object_type: &str, data: &Vec<u8>) -> (r: String)
    requires
        object_type@ == "blob"@ || object_type@ == "tree"@ || object_type@ == "commit"@,
    ensures
        r@ == object_name_text(sha256, object_type@, data@),
        is_object_text(r@),
        lower(r@) == r@,
        r@.len() == (if sha256 { 64nat } else { 40nat }),
{
    let kind = if sha256 {
        git_internal::hash::HashKind::Sha256
    } else {
        git_internal::hash::HashKind::Sha1
    };
    match git_internal::internal::object::types::ObjectType::from_string(object_type) {
        Ok(t) => match git_internal::hash::ObjectHash::from_type_and_data_for_kind(kind, t, data) {
            Ok(hash) => hash.to_string(),
            Err(error) => error.to_string(),
        },
        Err(error) => error.to_string(),
    }
}

/// The name of the object that holds `data`.
pub open spec fn object_id(kind: HashKind, object_type: Seq<char>, data: Seq<u8>) -> ObjectId {
    ObjectId::of_text(object_name_text(kind == HashKind::Sha256, object_type, data))
}

/// The name of the blob, tree or commit that holds `data`.
pub fn object_id_of_data(kind: HashKind, object_type: &str, data: &Vec<u8>) -> (r: ObjectId)
    requires
        object_type@ == "blob"@ || object_type@ == "tree"@ || object_type@ == "commit"@,
    ensures
        r == object_id(kind, object_type@, data@),
        r.wf(),
        r.kind == kind,
{
    let text = object_name(kind == HashKind::Sha256, object_type, data);
    object_id_of_text(text.as_str())
}

/// The first `width` digits of an object name.
pub open spec fn short_hash(id: ObjectId, width: nat) -> Seq<char> {
    if width <= id.text().len() {
        id.text().take(width as int)
    } else {
        id.text()
    }
}

pub fn short_display_hash(id: ObjectId, width: usize) -> (r: String)
    ensures
        r@ == short_hash(id, width as nat),
{
    let text = id.to_string();
    let cs = chars_of(text.as_str());
    if width <= cs.len() {
        let r = string_of(&cs, 0, width);
        assert(text@.subrange(0, width as int) =~= text@.take(width as int));
        r
    } else {
        text
    }
}

/// The bytes of an object name.
pub open spec fn id_bytes(id: ObjectId) -> Seq<u8> {
    Seq::new(
        id.text().len() / 2,
        |i: int| (hex_value(id.text()[2 * i]) * 16 + hex_value(id.text()[2 * i + 1])) as u8,
    )
}

/// The bytes of an object name.
pub fn object_id_bytes(id: ObjectId) -> (r: Vec<u8>)
    ensures
        r@ == id_bytes(id),
{
    let text = id.to_string();
    let cs = chars_of(text.as_str());
    proof {
        law_object_text_form(id);
    }
    let mut out: Vec<u8> = Vec::new();
    let mut i: usize = 0;
    while 2 * i + 1 < cs.len()
        invariant
            cs@ == id.text(),
            is_object_text(cs@),
            2 * i <= cs@.len(),
            out@.len() == i,
            forall|j: int| 0 <= j < i ==> out@[j] == id_bytes(id)[j],
        decreases cs@.len() - 2 * i,
    {
        let high: u128 = hex_digit_value(cs[2 * i]);
        let low: u128 = hex_digit_value(cs[2 * i + 1]);
        out.push((high * 16 + low) as u8);
        i = i + 1;
    }
    assert(out@ =~= id_bytes(id));
    out
}

/// Kind of a tree entry.
#[derive(Debug, Clone, Copy, PartialEq, Eq, Structural)]
pub enum TreeItemMode {
    Blob,
    BlobExecutable,
    Tree,
    Commit,
    Link,
}

proof fn lemma_hex_text(s: Seq<char>)
    requires
        forall|i: int| 0 <= i < s.len() ==> is_hex_char(#[trigger] s[i]),
        lower(s) == s,
    ensures
        hex_digits(hex_number(s), s.len()) == s,
    decreases s.len(),
{
    if s.len() > 0 {
        let head = s.drop_last();
        let c = s.last();
        assert forall|i: int| 0 <= i < head.len() implies is_hex_char(#[trigger] head[i]) by {
            assert(head[i] == s[i]);
        }
        assert(lower(head) =~= head) by {
            assert forall|i: int| 0 <= i < head.len() implies lower(head)[i] == head[i] by {
                assert(lower(s)[i] == s[i]);
            }
        }
        lemma_hex_text(head);
        assert(is_hex_char(s[s.len() - 1]));
        assert(lower(s)[s.len() - 1] == lower_char(c));
        assert(hex_char(hex_value(c)) == c);
        let v = hex_number(head);
        assert((v * 16 + hex_value(c)) / 16 == v);
        assert((v * 16 + hex_value(c)) % 16 == hex_value(c));
        assert(s =~= head.push(c));
    }
}

/// A text is read as an object name exactly where it is of forty or sixty-four hexadecimal digits, in
/// either case; the name that is read is written with these digits, in lower case.
pub proof fn law_object_name_has_its_digits(s: Seq<char>)
    ensures
        parsed_id(s) is Ok <==> (s.len() == 40 || s.len() == 64) && forall|i: int|
            0 <= i < s.len() ==> ('0' <= #[trigger] s[i] <= '9') || ('a' <= s[i] <= 'f') || ('A' <= s[i]
                <= 'F'),
        parsed_id(s) matches Ok(id) ==> id.wf() && id.text() == lower(s) && (id.kind == HashKind::Sha1
            <==> s.len() == 40),
{
    if parsed_id(s) is Ok {
        assert forall|i: int| 0 <= i < s.len() implies ('0' <= #[trigger] s[i] <= '9') || ('a' <= s[i]
            <= 'f') || ('A' <= s[i] <= 'F') by {
            assert(is_hex_char(s[i]));
        }
        let t = lower(s);
        assert(lower(t) =~= t);
        assert forall|i: int| 0 <= i < t.len() implies is_hex_char(#[trigger] t[i]) by {
            assert(is_hex_char(s[i]));
        }
        let top = t.len() - 32;
        let a = t.take(top);
        let b = t.skip(top);
        assert(lower(a) =~= a) by {
            assert forall|i: int| 0 <= i < a.len() implies lower(a)[i] == a[i] by {
                assert(lower(t)[i] == t[i]);
            }
        }
        assert(lower(b) =~= b) by {
            assert forall|i: int| 0 <= i < b.len() implies lower(b)[i] == b[i] by {
                assert(lower(t)[i + top] == t[i + top]);
            }
        }
        lemma_hex_text(a);
        lemma_hex_text(b);
        lemma_hex_number_bound(a);
        lemma_hex_number_bound(b);
        lemma_pow16_values();
        assert(a + b =~= t);
    } else if s.len() == 40 || s.len() == 64 {
        let i = choose|i: int| 0 <= i < s.len() && !is_hex_char(#[trigger] s[i]);
        assert(!is_hex_char(s[i]));
    }
}

/// A short name is the beginning of the whole name, as long as was asked for, or the whole name where it
/// is not that long.
pub proof fn law_short_name_begins_the_name(id: ObjectId, width: nat)
    ensures
        short_hash(id, width).is_prefix_of(id.text()),
        width <= id.text().len() ==> short_hash(id, width).len() == width,
        width > id.text().len() ==> short_hash(id, width) == id.text(),
{
}

/// The bytes of an object name are what each two of its digits write.
pub proof fn law_bytes_of_a_name(id: ObjectId, i: int)
    requires
        0 <= i,
        2 * i + 1 < id.text().len(),
    ensures
        id_bytes(id).len() * 2 == id.text().len(),
        hex_char((id_bytes(id)[i] / 16) as nat) == id.text()[2 * i],
        hex_char((id_bytes(id)[i] % 16) as nat) == id.text()[2 * i + 1],
{
    law_object_text_form(id);
    let t = id.text();
    let a = t[2 * i];
    let b = t[2 * i + 1];
    assert(is_hex_char(a) && is_hex_char(b));
    assert(lower(t)[2 * i] == lower_char(a) && lower(t)[2 * i + 1] == lower_char(b));
    assert(hex_char(hex_value(a)) == a && hex_char(hex_value(b)) == b);
    let v = hex_value(a) * 16 + hex_value(b);
    assert(v < 256 && v / 16 == hex_value(a) && v % 16 == hex_value(b));
}

/// The sixteen digits are those from nought to nine and from a to f, in their order.
pub proof fn law_hexadecimal_digits(d: nat)
    requires
        d < 16,
    ensures
        hex_char(d) == seq!['0', '1', '2', '3', '4', '5', '6', '7', '8', '9', 'a', 'b', 'c', 'd', 'e', 'f'][d as int],
{
}

/// An object is named by its kind, its type and what it holds, with the hash of its kind.
pub proof fn law_object_is_named_by_what_it_holds(object_type: Seq<char>, data: Seq<u8>)
    ensures
        object_id(HashKind::Sha1, object_type, data) == ObjectId::of_text(
            object_name_text(false, object_type, data),
        ),
        object_id(HashKind::Sha256, object_type, data) == ObjectId::of_text(
            object_name_text(true, object_type, data),
        ),
{
}

} // verus!
