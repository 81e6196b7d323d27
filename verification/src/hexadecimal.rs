//! Bytes written in hexadecimal digits.

use vstd::prelude::*;

use crate::object::{hex_char, hex_value, is_hex_char};
use crate::text::{lower, lower_char};

verus! {

/// The hexadecimal digits of some bytes.
pub open spec fn bytes_hex(bytes: Seq<u8>) -> Seq<char>
    decreases bytes.len(),
{
    if bytes.len() == 0 {
        Seq::empty()
    } else {
        bytes_hex(bytes.drop_last()).push(hex_char((bytes.last() / 16) as nat)).push(
            hex_char((bytes.last() % 16) as nat),
        )
    }
}

/// Pairs of hexadecimal digits.
pub open spec fn is_hex_pairs(s: Seq<char>) -> bool {
    s.len() % 2 == 0 && forall|i: int| 0 <= i < s.len() ==> is_hex_char(#[trigger] s[i])
}

/// Why `hex` does not decode a text.
pub uninterp spec fn hex_fault_text(s: Seq<char>) -> Seq<char>;

/// `hex::decode`: pairs of hexadecimal digits, of either case, give the bytes that they write; no
/// other text is decoded. What it says of another text is named.
#[verifier::external_body]
pub(crate) fn hex_decode(s: &str) -> (r: Result<Vec<u8>, String>)
    ensures
        match r {
            Ok(bytes) => is_hex_pairs(s@) && bytes_hex(bytes@) == lower(s@),
            Err(e) => !is_hex_pairs(s@) && e@ == hex_fault_text(s@),
        },
{
    match hex::decode(s) {
        Ok(bytes) => Ok(bytes),
        Err(error) => Err(error.to_string()),
    }
}

/// `hex::encode`: two lower-case digits for each byte, the high half first.
#[verifier::external_body]
pub(crate) fn hex_encode(bytes: &Vec<u8>) -> (r: String)
    ensures
        r@ == bytes_hex(bytes@),
{
    hex::encode(bytes)
}

pub(crate) proof fn lemma_bytes_hex(bytes: Seq<u8>)
    ensures
        bytes_hex(bytes).len() == 2 * bytes.len(),
    decreases bytes.len(),
{
    if bytes.len() > 0 {
        lemma_bytes_hex(bytes.drop_last());
    }
}

proof fn lemma_hex_char(d: nat)
    requires
        d < 16,
    ensures
        is_hex_char(hex_char(d)),
        lower_char(hex_char(d)) == hex_char(d),
        hex_value(hex_char(d)) == d,
{
}

/// The digits of some bytes are pairs of lower-case digits, and no other bytes have them: what is
/// decoded from the digits of some bytes is those bytes.
pub proof fn law_hex_is_read_back(a: Seq<u8>, b: Seq<u8>)
    ensures
        is_hex_pairs(bytes_hex(a)),
        lower(bytes_hex(a)) == bytes_hex(a),
        bytes_hex(a) == bytes_hex(b) ==> a == b,
    decreases a.len(),
{
    lemma_bytes_hex(a);
    lemma_bytes_hex(b);
    let s = bytes_hex(a);
    if a.len() > 0 {
        let hi = (a.last() / 16) as nat;
        let lo = (a.last() % 16) as nat;
        lemma_hex_char(hi);
        lemma_hex_char(lo);
        let head = bytes_hex(a.drop_last());
        lemma_bytes_hex(a.drop_last());
        law_hex_is_read_back(a.drop_last(), if b.len() > 0 { b.drop_last() } else { b });
        assert(s == head.push(hex_char(hi)).push(hex_char(lo)));
        assert forall|i: int| 0 <= i < s.len() implies is_hex_char(#[trigger] s[i]) by {
            if i < head.len() {
                assert(s[i] == head[i]);
                assert(is_hex_char(head[i]));
            }
        }
        assert forall|i: int| 0 <= i < s.len() implies lower_char(#[trigger] s[i]) == s[i] by {
            if i < head.len() {
                assert(s[i] == head[i]);
                assert(lower(head)[i] == lower_char(head[i]));
            }
        }
        assert(lower(s) =~= s);
        if s == bytes_hex(b) {
            let bhi = (b.last() / 16) as nat;
            let blo = (b.last() % 16) as nat;
            lemma_hex_char(bhi);
            lemma_hex_char(blo);
            let bhead = bytes_hex(b.drop_last());
            assert(s == bhead.push(hex_char(bhi)).push(hex_char(blo)));
            assert(s[s.len() - 1] == hex_char(blo));
            assert(s[s.len() - 2] == hex_char(bhi));
            assert(s[s.len() - 1] == hex_char(lo));
            assert(s[s.len() - 2] == hex_char(hi));
            assert(head =~= s.take(s.len() - 2));
            assert(bhead =~= s.take(s.len() - 2));
            assert(a.last() == b.last());
            assert(a =~= a.drop_last().push(a.last()));
            assert(b =~= b.drop_last().push(b.last()));
        }
    } else {
        assert(lower(s) =~= s);
        assert(a =~= Seq::<u8>::empty());
        if s == bytes_hex(b) {
            assert(b =~= Seq::<u8>::empty());
        }
    }
}

} // verus!
