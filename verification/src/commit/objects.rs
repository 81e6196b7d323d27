//! The bytes and the name of a commit object, and what is signed of it.

use vstd::prelude::*;
use vstd::utf8::encode_utf8;

use crate::object::{object_id, object_id_of_data, HashKind, ObjectId};
use crate::text::{concat3, decimal};

verus! {

/// Who made something, and when.
#[derive(Debug, Clone)]
pub struct CommitSignature {
    pub name: String,
    pub email: String,
    pub timestamp: usize,
    pub timezone: String,
}

/// The line of a commit that names its author, or its committer.
pub open spec fn signature_text(committer: bool, s: CommitSignature) -> Seq<char> {
    (if committer {
        "committer"@
    } else {
        "author"@
    }) + " "@ + s.name@ + " <"@ + s.email@ + "> "@ + decimal(s.timestamp as nat) + " "@ + s.timezone@
}

/// `Signature::to_data`: the role, the name, the address in angle brackets, the time in decimal
/// and the time zone, with a space between each two. It does not fail.
#[verifier::external_body]
fn signature_data(committer: bool, s: &CommitSignature) -> (r: Vec<u8>)
    ensures
        r@ == encode_utf8(signature_text(committer, *s)),
{
    let signature_type = if committer {
        git_internal::internal::object::signature::SignatureType::Committer
    } else {
        git_internal::internal::object::signature::SignatureType::Author
    };
    let signature = git_internal::internal::object::signature::Signature {
        signature_type,
        name: s.name.clone(),
        email: s.email.clone(),
        timestamp: s.timestamp,
        timezone: s.timezone.clone(),
    };
    signature.to_data().unwrap_or_default()
}

/// The lines that name the parents.
pub open spec fn parent_lines(parents: Seq<ObjectId>) -> Seq<u8>
    decreases parents.len(),
{
    if parents.len() == 0 {
        Seq::empty()
    } else {
        parent_lines(parents.drop_last()) + encode_utf8("parent "@ + parents.last().text() + "\n"@)
    }
}

/// A commit without its message: tree, parents, author and committer, a line each.
pub open spec fn commit_header(
    tree: ObjectId,
    parents: Seq<ObjectId>,
    author: CommitSignature,
    committer: CommitSignature,
) -> Seq<u8> {
    encode_utf8("tree "@ + tree.text() + "\n"@) + parent_lines(parents) + encode_utf8(
        signature_text(false, author),
    ) + encode_utf8("\n"@) + encode_utf8(signature_text(true, committer)) + encode_utf8("\n"@)
}

fn push_text(out: &mut Vec<u8>, s: &str)
    ensures
        final(out)@ == old(out)@ + encode_utf8(s@),
{
    let mut bytes = s.as_bytes_vec();
    out.append(&mut bytes);
}

fn commit_header_data(
    tree: ObjectId,
    parents: &Vec<ObjectId>,
    author: &CommitSignature,
    committer: &CommitSignature,
) -> (r: Vec<u8>)
    ensures
        r@ == commit_header(tree, parents@, *author, *committer),
{
    let mut out: Vec<u8> = Vec::new();
    let name = tree.to_string();
    let line = concat3("tree ", name.as_str(), "\n");
    push_text(&mut out, line.as_str());
    let ghost start = out@;
    let ghost all = parents@;
    assert(start =~= encode_utf8("tree "@ + tree.text() + "\n"@));
    let mut i: usize = 0;
    assert(all.take(0) =~= Seq::<ObjectId>::empty());
    assert(out@ =~= start + parent_lines(all.take(0)));
    while i < parents.len()
        invariant
            i <= parents@.len(),
            all == parents@,
            out@ == start + parent_lines(all.take(i as int)),
        decreases parents@.len() - i,
    {
        proof {
            assert(all.take(i as int + 1).drop_last() =~= all.take(i as int));
            assert(all.take(i as int + 1).last() == all[i as int]);
        }
        let name = parents[i].to_string();
        let line = concat3("parent ", name.as_str(), "\n");
        push_text(&mut out, line.as_str());
        assert(out@ =~= start + parent_lines(all.take(i as int + 1)));
        i = i + 1;
    }
    assert(all.take(all.len() as int) =~= all);
    let mut author_data = signature_data(false, author);
    out.append(&mut author_data);
    push_text(&mut out, "\n");
    let mut committer_data = signature_data(true, committer);
    out.append(&mut committer_data);
    push_text(&mut out, "\n");
    assert(out@ =~= commit_header(tree, parents@, *author, *committer));
    out
}

/// What the vault signs of a commit: the header, an empty line and the message.
pub open spec fn signed_content(
    tree: ObjectId,
    parents: Seq<ObjectId>,
    author: CommitSignature,
    committer: CommitSignature,
    message: Seq<char>,
) -> Seq<u8> {
    commit_header(tree, parents, author, committer) + encode_utf8("\n"@) + encode_utf8(message)
}

/// The content to sign, in the form that Git signs.
pub fn vault_sign_content(
    tree: ObjectId,
    parents: &Vec<ObjectId>,
    author: &CommitSignature,
    committer: &CommitSignature,
    message: &str,
) -> (r: Vec<u8>)
    ensures
        r@ == signed_content(tree, parents@, *author, *committer, message@),
{
    let mut out = commit_header_data(tree, parents, author, committer);
    push_text(&mut out, "\n");
    push_text(&mut out, message);
    out
}

/// The bytes of a commit object. The message brings its own line breaks and signature.
pub open spec fn commit_bytes(
    tree: ObjectId,
    parents: Seq<ObjectId>,
    author: CommitSignature,
    committer: CommitSignature,
    message: Seq<char>,
) -> Seq<u8> {
    commit_header(tree, parents, author, committer) + encode_utf8(message)
}

/// The commit object, and its name.
pub fn commit_object(
    kind: HashKind,
    tree: ObjectId,
    parents: &Vec<ObjectId>,
    author: &CommitSignature,
    committer: &CommitSignature,
    message: &str,
) -> (r: (ObjectId, Vec<u8>))
    ensures
        r.1@ == commit_bytes(tree, parents@, *author, *committer, message@),
        r.0 == object_id(kind, "commit"@, r.1@),
        r.0.wf(),
        r.0.kind == kind,
{
    let mut data = commit_header_data(tree, parents, author, committer);
    push_text(&mut data, message);
    let id = object_id_of_data(kind, "commit", &data);
    (id, data)
}

/// A signature tells who, when and in which role: a name before the address in angle brackets, the
/// seconds and the time zone.
pub proof fn law_signature_tells_who_and_when(s: CommitSignature)
    ensures
        signature_text(false, s) == "author"@ + " "@ + s.name@ + " <"@ + s.email@ + "> "@ + decimal(
            s.timestamp as nat,
        ) + " "@ + s.timezone@,
        signature_text(true, s) == "committer"@ + " "@ + s.name@ + " <"@ + s.email@ + "> "@ + decimal(
            s.timestamp as nat,
        ) + " "@ + s.timezone@,
{
}

/// The parents of a commit are written one line each, in their order.
pub proof fn law_one_line_for_each_parent(a: Seq<ObjectId>, b: Seq<ObjectId>, id: ObjectId)
    ensures
        parent_lines(a + b) == parent_lines(a) + parent_lines(b),
        parent_lines(seq![id]) == encode_utf8("parent "@ + id.text() + "\n"@),
        parent_lines(Seq::<ObjectId>::empty()) == Seq::<u8>::empty(),
    decreases b.len(),
{
    assert(seq![id].drop_last() =~= Seq::<ObjectId>::empty());
    assert(parent_lines(seq![id].drop_last()) =~= Seq::<u8>::empty());
    assert(parent_lines(seq![id]) =~= encode_utf8("parent "@ + id.text() + "\n"@));
    if b.len() == 0 {
        assert(a + b =~= a);
        assert(parent_lines(a) + parent_lines(b) =~= parent_lines(a));
    } else {
        assert((a + b).drop_last() =~= a + b.drop_last());
        law_one_line_for_each_parent(a, b.drop_last(), id);
        assert(parent_lines(a + b) =~= parent_lines(a) + parent_lines(b));
    }
}

/// A commit is written as its tree, its parents, its author, its committer and its message, in this
/// order; what is signed is the same with an empty line before the message.
pub proof fn law_commit_is_written_in_order(
    tree: ObjectId,
    parents: Seq<ObjectId>,
    author: CommitSignature,
    committer: CommitSignature,
    message: Seq<char>,
)
    ensures
        ({
            let head = encode_utf8("tree "@ + tree.text() + "\n"@) + parent_lines(parents) + encode_utf8(
                signature_text(false, author),
            ) + encode_utf8("\n"@) + encode_utf8(signature_text(true, committer)) + encode_utf8("\n"@);
            &&& commit_bytes(tree, parents, author, committer, message) == head + encode_utf8(message)
            &&& signed_content(tree, parents, author, committer, message) == head + encode_utf8("\n"@)
                + encode_utf8(message)
        }),
{
}

} // verus!
