//! The decisions of a commit: whether there is one to make, its message and its parents.

use vstd::prelude::*;

use crate::bisect::copy_ids;
use crate::commit::{CommitArgs, CommitError, CommitErrorView, UserIdentity};
use crate::object::{
    object_id_from_str, parsed_id, short_display_hash, short_hash, HashKind, ObjectId,
};
use crate::text::{
    clone_opt_text, clone_texts, concat2, concat4, concat6, concat7, decimal, opt_text,
    signed_decimal, signed_text, text_eq, texts, trim, trim_seq, usize_text,
};

verus! {

/// How many files a commit touches.
#[derive(Debug, Clone, Copy, PartialEq, Eq, Structural)]
pub struct FilesChanged {
    pub total: usize,
    pub new: usize,
    pub modified: usize,
    pub deleted: usize,
}

/// What a commit reports.
#[derive(Debug, Clone)]
pub struct CommitOutput {
    /// Branch name or "detached"
    pub head: String,
    /// The branch, `None` where HEAD is detached
    pub branch: Option<String>,
    /// Full commit hash
    pub commit: String,
    /// Short commit hash (7 chars)
    pub short_id: String,
    /// First line of the message
    pub subject: String,
    /// Whether this is a root commit
    pub root_commit: bool,
    /// Whether this was an amend operation
    pub amend: bool,
    pub files_changed: FilesChanged,
    /// Whether a Signed-off-by trailer was appended
    pub signoff: bool,
    /// `Some(true)` if the message was validated
    pub conventional: Option<bool>,
    /// Whether the commit was signed
    pub signed: bool,
}

/// What is staged, by kind of change.
#[derive(Debug)]
pub struct Changes {
    pub new: Vec<String>,
    pub modified: Vec<String>,
    pub deleted: Vec<String>,
}

pub open spec fn no_changes(c: Changes) -> bool {
    c.new@.len() == 0 && c.modified@.len() == 0 && c.deleted@.len() == 0
}

/// Why there is nothing to commit, if that is so. An amend needs no change.
pub open spec fn start_fault(
    args: CommitArgs,
    tracked_empty: bool,
    auto_staged: bool,
    staged: Result<Changes, String>,
) -> Option<CommitErrorView> {
    if tracked_empty && !args.allow_empty && !args.amend && !auto_staged {
        Some(CommitErrorView::NothingToCommitNoTracked)
    } else {
        match staged {
            Err(e) => Some(CommitErrorView::StagedChanges(e@)),
            Ok(c) => if no_changes(c) && !args.allow_empty && !args.amend {
                Some(CommitErrorView::NothingToCommit)
            } else {
                None
            },
        }
    }
}

/// Whether there is something to commit.
pub fn check_commit_start(
    args: &CommitArgs,
    tracked_empty: bool,
    auto_staged: bool,
    staged: &Result<Changes, String>,
) -> (r: Result<(), CommitError>)
    ensures
        match (r, start_fault(*args, tracked_empty, auto_staged, *staged)) {
            (Ok(_), None) => true,
            (Err(e), Some(want)) => e@ == want,
            _ => false,
        },
{
    if tracked_empty && !args.allow_empty && !args.amend && !auto_staged {
        return Err(CommitError::NothingToCommitNoTracked);
    }
    match staged {
        Err(e) => Err(CommitError::StagedChanges(e.clone())),
        Ok(c) => {
            if c.new.is_empty() && c.modified.is_empty() && c.deleted.is_empty()
                && !args.allow_empty && !args.amend {
                Err(CommitError::NothingToCommit)
            } else {
                Ok(())
            }
        },
    }
}

/// Whether the pre-commit hook runs.
pub fn runs_pre_commit_hook(args: &CommitArgs) -> (r: bool)
    ensures
        r == !(args.disable_pre || args.skip_hooks),
{
    !(args.disable_pre || args.skip_hooks)
}

/// How the pre-commit hook ended: `Ok` with its exit status, `None` after a signal, or why it
/// could not run. Anything but success stops the commit.
pub fn run_pre_commit_hook(hook: &str, outcome: &Result<Option<i32>, String>) -> (r: Result<
    (),
    CommitError,
>)
    ensures
        match (r, *outcome) {
            (Ok(_), Ok(code)) => code == Some(0i32),
            (Err(e), Ok(code)) => code != Some(0i32) && e@ == CommitErrorView::PreCommitHook(
                "hook "@ + hook@ + " failed with exit code "@ + signed_decimal(
                    match code {
                        Some(c) => c as int,
                        None => -1,
                    },
                ),
            ),
            (Err(e), Err(detail)) => e@ == CommitErrorView::PreCommitHook(
                "failed to execute hook "@ + hook@ + ": "@ + detail@,
            ),
            (Ok(_), Err(_)) => false,
        },
{
    match outcome {
        Err(detail) => Err(
            CommitError::PreCommitHook(
                concat4("failed to execute hook ", hook, ": ", detail.as_str()),
            ),
        ),
        Ok(code) => {
            let status: i32 = match code {
                Some(c) => *c,
                None => -1,
            };
            if status == 0 {
                return Ok(());
            }
            let shown = signed_text(status);
            Err(
                CommitError::PreCommitHook(
                    concat4("hook ", hook, " failed with exit code ", shown.as_str()),
                ),
            )
        },
    }
}

/// The message that was given, or what its file holds. Without either only an amend that keeps
/// the old message can go on.
pub open spec fn given_message(args: CommitArgs, file: Option<Result<String, String>>) -> Result<
    Seq<char>,
    CommitErrorView,
> {
    match (args.message, args.file) {
        (Some(m), _) => Ok(m@),
        (None, Some(path)) => match file {
            Some(Ok(text)) => Ok(text@),
            Some(Err(detail)) => Err(
                CommitErrorView::MessageFileRead { path: path@, detail: detail@ },
            ),
            None => Err(
                CommitErrorView::MessageFileRead { path: path@, detail: "file was not read"@ },
            ),
        },
        (None, None) => if args.no_edit {
            Ok(Seq::empty())
        } else {
            Err(CommitErrorView::EmptyMessage)
        },
    }
}

/// Resolve the commit message. `file` is what reading the message file gave.
pub fn commit_message(args: &CommitArgs, file: &Option<Result<String, String>>) -> (r: Result<
    String,
    CommitError,
>)
    ensures
        match (r, given_message(*args, *file)) {
            (Ok(m), Ok(want)) => m@ == want,
            (Err(e), Err(want)) => e@ == want,
            _ => false,
        },
{
    if let Some(m) = &args.message {
        return Ok(m.clone());
    }
    match &args.file {
        Some(path) => match file {
            Some(Ok(text)) => Ok(text.clone()),
            Some(Err(detail)) => Err(
                CommitError::MessageFileRead { path: path.clone(), detail: detail.clone() },
            ),
            None => Err(
                CommitError::MessageFileRead {
                    path: path.clone(),
                    detail: "file was not read".to_owned(),
                },
            ),
        },
        None => {
            if args.no_edit {
                let empty = "".to_owned();
                proof {
                    reveal_strlit("");
                    assert(empty@ =~= Seq::<char>::empty());
                }
                Ok(empty)
            } else {
                Err(CommitError::EmptyMessage)
            }
        },
    }
}

/// The commit that an amend replaces.
#[derive(Debug)]
pub struct AmendedCommit {
    pub parents: Vec<ObjectId>,
    pub message: String,
}

/// A commit that is about to be made.
#[derive(Debug)]
pub struct CommitDraft {
    pub parents: Vec<ObjectId>,
    pub message: String,
}

/// `message`, and at its end the trailer of whoever signs off.
pub open spec fn signed_off(message: Seq<char>, signoff: bool, name: Seq<char>, email: Seq<char>) -> Seq<
    char,
> {
    if signoff {
        message + "\n\n"@ + "Signed-off-by: "@ + name + " <"@ + email + ">"@
    } else {
        message
    }
}

/// The parents and message of the new commit. A new commit follows HEAD; an amended one takes
/// the parents of the commit that it replaces, and its message where that is kept.
pub open spec fn draft(
    args: CommitArgs,
    message: Seq<char>,
    name: Seq<char>,
    email: Seq<char>,
    heads: Seq<ObjectId>,
    amended: Result<AmendedCommit, String>,
) -> Result<(Seq<ObjectId>, Seq<char>), CommitErrorView> {
    if args.amend {
        if heads.len() == 0 {
            Err(CommitErrorView::NoCommitToAmend)
        } else if heads.len() > 1 {
            Err(CommitErrorView::AmendUnsupported)
        } else {
            match amended {
                Err(detail) => Err(
                    CommitErrorView::ParentCommitLoad {
                        commit_id: heads[0].text(),
                        detail: detail@,
                    },
                ),
                Ok(old) => Ok(
                    (
                        old.parents@,
                        signed_off(
                            if args.no_edit {
                                old.message@
                            } else {
                                message
                            },
                            args.signoff,
                            name,
                            email,
                        ),
                    ),
                ),
            }
        }
    } else {
        Ok((heads, signed_off(message, args.signoff, name, email)))
    }
}

/// Determine the parents and the message. `amended` is what loading the one head gave.
pub fn draft_commit(
    args: &CommitArgs,
    message: &str,
    committer: &UserIdentity,
    heads: &Vec<ObjectId>,
    amended: &Result<AmendedCommit, String>,
) -> (r: Result<CommitDraft, CommitError>)
    ensures
        match (r, draft(*args, message@, committer.name@, committer.email@, heads@, *amended)) {
            (Ok(d), Ok(want)) => d.parents@ == want.0 && d.message@ == want.1,
            (Err(e), Err(want)) => e@ == want,
            _ => false,
        },
{
    if args.amend {
        if heads.is_empty() {
            return Err(CommitError::NoCommitToAmend);
        }
        if heads.len() > 1 {
            return Err(CommitError::AmendUnsupported);
        }
        match amended {
            Err(detail) => Err(
                CommitError::ParentCommitLoad {
                    commit_id: heads[0].to_string(),
                    detail: detail.clone(),
                },
            ),
            Ok(old) => {
                let parents = copy_ids(&old.parents);
                let text = if args.no_edit {
                    sign_off(old.message.as_str(), args.signoff, committer)
                } else {
                    sign_off(message, args.signoff, committer)
                };
                Ok(CommitDraft { parents, message: text })
            },
        }
    } else {
        let parents = copy_ids(heads);
        Ok(CommitDraft { parents, message: sign_off(message, args.signoff, committer) })
    }
}

fn sign_off(message: &str, signoff: bool, committer: &UserIdentity) -> (r: String)
    ensures
        r@ == signed_off(message@, signoff, committer.name@, committer.email@),
{
    if signoff {
        concat7(
            message,
            "\n\n",
            "Signed-off-by: ",
            committer.name.as_str(),
            " <",
            committer.email.as_str(),
            ">",
        )
    } else {
        message.to_owned()
    }
}

/// Signing off only adds to the end of a message.
pub proof fn law_sign_off_keeps_the_message(
    message: Seq<char>,
    signoff: bool,
    name: Seq<char>,
    email: Seq<char>,
)
    ensures
        message.is_prefix_of(signed_off(message, signoff, name, email)),
        !signoff ==> signed_off(message, signoff, name, email) == message,
{
}

/// The result of the check of the message: whether one was made. `follows` is whether the
/// message keeps to the conventional format.
pub fn check_conventional(args: &CommitArgs, follows: bool) -> (r: Result<Option<bool>, CommitError>)
    ensures
        match r {
            Ok(Some(v)) => v && args.conventional && !args.skip_hooks && follows,
            Ok(None) => !(args.conventional && !args.skip_hooks),
            Err(e) => args.conventional && !args.skip_hooks && !follows && e@
                == CommitErrorView::ConventionalCommit(
                "commit message does not follow conventional commits"@,
            ),
        },
{
    if args.conventional && !args.skip_hooks {
        if follows {
            Ok(Some(true))
        } else {
            Err(
                CommitError::ConventionalCommit(
                    "commit message does not follow conventional commits".to_owned(),
                ),
            )
        }
    } else {
        Ok(None)
    }
}

/// Whether a commit is signed: where that is forced, or the configuration says `true`.
pub fn signing_enabled(force: bool, setting: &Option<String>) -> (r: bool)
    ensures
        r == (force || opt_text(*setting) == Some("true"@)),
{
    if force {
        return true;
    }
    match setting {
        Some(v) => text_eq(v.as_str(), "true"),
        None => false,
    }
}

/// The commits that a new commit follows.
pub fn get_parents_ids(head: Option<ObjectId>) -> (r: Vec<ObjectId>)
    ensures
        r@ == (match head {
            Some(id) => seq![id],
            None => Seq::<ObjectId>::empty(),
        }),
{
    let mut out: Vec<ObjectId> = Vec::new();
    if let Some(id) = head {
        out.push(id);
    }
    assert(out@ =~= match head {
        Some(id) => seq![id],
        None => Seq::<ObjectId>::empty(),
    });
    out
}

/// What the log of HEAD notes as the commit before: none is written as zeros.
pub fn reflog_old_id(head: Option<ObjectId>, kind: HashKind) -> (r: ObjectId)
    ensures
        r == (match head {
            Some(id) => id,
            None => ObjectId { kind, hi: 0, lo: 0 },
        }),
{
    match head {
        Some(id) => id,
        None => ObjectId::zero(kind),
    }
}

/// What moving HEAD moves: the branch that it is on, or HEAD itself.
#[derive(Debug)]
pub enum HeadMove {
    Branch(String),
    Detached(ObjectId),
}

/// Decide what moves to the new commit.
pub fn update_head(branch: &Option<String>, commit_id: &str) -> (r: Result<HeadMove, CommitError>)
    ensures
        match (r, *branch) {
            (Ok(HeadMove::Branch(name)), Some(b)) => name@ == b@,
            (Ok(HeadMove::Detached(id)), None) => parsed_id(commit_id@) == Ok::<ObjectId, Seq<char>>(
                id,
            ),
            (Err(e), None) => parsed_id(commit_id@) matches Err(d) && e@
                == CommitErrorView::HeadUpdate("invalid commit id: "@ + d),
            _ => false,
        },
{
    match branch {
        Some(name) => Ok(HeadMove::Branch(name.clone())),
        None => match object_id_from_str(commit_id) {
            Ok(id) => Ok(HeadMove::Detached(id)),
            Err(d) => Err(CommitError::HeadUpdate(concat2("invalid commit id: ", d.as_str()))),
        },
    }
}

/// The error for a branch that could not be moved.
pub fn branch_update_error(name: &str, detail: &str) -> (r: CommitError)
    ensures
        r@ == CommitErrorView::HeadUpdate(
            "failed to update branch '"@ + name@ + "': "@ + detail@,
        ),
{
    CommitError::HeadUpdate(concat4("failed to update branch '", name, "': ", detail))
}

/// What a commit reports. The subject is the first line of the message as the user gave it.
pub fn build_commit_output(
    args: &CommitArgs,
    branch: &Option<String>,
    id: ObjectId,
    root: bool,
    subject: &str,
    staged: &Changes,
    conventional: Option<bool>,
    signed: bool,
) -> (r: CommitOutput)
    requires
        staged.new@.len() + staged.modified@.len() + staged.deleted@.len() <= usize::MAX,
    ensures
        r.head@ == (match *branch {
            Some(b) => b@,
            None => "detached"@,
        }),
        opt_text(r.branch) == opt_text(*branch),
        r.commit@ == id.text(),
        r.short_id@ == short_hash(id, 7),
        r.subject@ == trim_seq(subject@),
        r.root_commit == root,
        r.amend == args.amend,
        r.files_changed.new == staged.new@.len(),
        r.files_changed.modified == staged.modified@.len(),
        r.files_changed.deleted == staged.deleted@.len(),
        r.files_changed.total == staged.new@.len() + staged.modified@.len() + staged.deleted@.len(),
        r.signoff == args.signoff,
        r.conventional == conventional,
        r.signed == signed,
{
    let head = match branch {
        Some(b) => b.clone(),
        None => "detached".to_owned(),
    };
    let files_changed = FilesChanged {
        total: staged.new.len() + staged.modified.len() + staged.deleted.len(),
        new: staged.new.len(),
        modified: staged.modified.len(),
        deleted: staged.deleted.len(),
    };
    CommitOutput {
        head,
        branch: clone_opt_text(branch),
        commit: id.to_string(),
        short_id: short_display_hash(id, 7),
        subject: trim(subject),
        root_commit: root,
        amend: args.amend,
        files_changed,
        signoff: args.signoff,
        conventional,
        signed,
    }
}

/// The line that names the new commit.
pub open spec fn summary_line(out: CommitOutput) -> Seq<char> {
    if out.root_commit {
        "["@ + out.head@ + " (root-commit) "@ + out.short_id@ + "] "@ + out.subject@
    } else {
        "["@ + out.head@ + " "@ + out.short_id@ + "] "@ + out.subject@
    }
}

/// The line that counts the files, where there are any.
pub open spec fn files_line(f: FilesChanged) -> Seq<char> {
    " "@ + decimal(f.total as nat) + (if f.total == 1 {
        " file changed (new: "@
    } else {
        " files changed (new: "@
    }) + decimal(f.new as nat) + ", modified: "@ + decimal(f.modified as nat) + ", deleted: "@
        + decimal(f.deleted as nat) + ")"@
}

/// The lines that a commit prints.
pub fn render_commit_output(out: &CommitOutput, quiet: bool) -> (r: Vec<String>)
    ensures
        texts(r@) == if quiet {
            Seq::<Seq<char>>::empty()
        } else if out.files_changed.total > 0 {
            seq![summary_line(*out), files_line(out.files_changed)]
        } else {
            seq![summary_line(*out)]
        },
{
    let mut lines: Vec<String> = Vec::new();
    if quiet {
        assert(texts(lines@) =~= Seq::<Seq<char>>::empty());
        return lines;
    }
    let gap = if out.root_commit {
        " (root-commit) "
    } else {
        " "
    };
    let line = concat6(
        "[",
        out.head.as_str(),
        gap,
        out.short_id.as_str(),
        "] ",
        out.subject.as_str(),
    );
    assert(line@ == summary_line(*out));
    lines.push(line);
    assert(texts(lines@) =~= seq![summary_line(*out)]);
    let f = out.files_changed;
    if f.total > 0 {
        let total = usize_text(f.total);
        let new = usize_text(f.new);
        let modified = usize_text(f.modified);
        let deleted = usize_text(f.deleted);
        let word = if f.total == 1 {
            " file changed (new: "
        } else {
            " files changed (new: "
        };
        let first = concat6(" ", total.as_str(), word, new.as_str(), ", modified: ", modified.as_str());
        let second = concat4(first.as_str(), ", deleted: ", deleted.as_str(), ")");
        assert(second@ == files_line(f));
        lines.push(second);
        assert(texts(lines@) =~= seq![summary_line(*out), files_line(f)]);
    }
    lines
}

/// What staging the tracked changes does: the files to stage anew and those to drop.
#[derive(Debug)]
pub struct AutoStagePlan {
    pub refresh: Vec<String>,
    pub drop: Vec<String>,
}

/// A modified file, and whether it is still there.
#[derive(Debug)]
pub struct ModifiedFile {
    pub path: String,
    pub exists: bool,
}

/// The modified files that are still there.
pub open spec fn present(files: Seq<ModifiedFile>) -> Seq<Seq<char>>
    decreases files.len(),
{
    if files.len() == 0 {
        Seq::empty()
    } else if files.last().exists {
        present(files.drop_last()).push(files.last().path@)
    } else {
        present(files.drop_last())
    }
}

/// Plan how tracked changes are staged: `None` where nothing is to be done to the index.
pub fn auto_stage_tracked_changes(modified: &Vec<ModifiedFile>, deleted: &Vec<String>) -> (r: Option<
    AutoStagePlan,
>)
    ensures
        match r {
            None => present(modified@).len() == 0 && deleted@.len() == 0,
            Some(plan) => texts(plan.refresh@) == present(modified@) && texts(plan.drop@) == texts(
                deleted@,
            ) && (present(modified@).len() > 0 || deleted@.len() > 0),
        },
{
    let mut refresh: Vec<String> = Vec::new();
    let ghost all = modified@;
    let mut i: usize = 0;
    assert(all.take(0) =~= Seq::<ModifiedFile>::empty());
    assert(texts(refresh@) =~= Seq::<Seq<char>>::empty());
    while i < modified.len()
        invariant
            i <= modified@.len(),
            all == modified@,
            texts(refresh@) == present(all.take(i as int)),
        decreases modified@.len() - i,
    {
        let ghost before = refresh@;
        proof {
            assert(all.take(i as int + 1).drop_last() =~= all.take(i as int));
            assert(all.take(i as int + 1).last() == all[i as int]);
        }
        if modified[i].exists {
            refresh.push(modified[i].path.clone());
            assert(texts(refresh@) =~= texts(before).push(all[i as int].path@));
        }
        i = i + 1;
    }
    assert(all.take(all.len() as int) =~= all);
    assert(texts(refresh@).len() == refresh@.len());
    if refresh.is_empty() && deleted.is_empty() {
        return None;
    }
    Some(AutoStagePlan { refresh, drop: clone_texts(deleted) })
}

/// A commit says what was given as its message, whether it is new or takes the place of another: the
/// message stands first in it, alone without a sign-off, and before the signer's line with one. Only
/// where the last commit is amended and its message is not to be edited does that message stand there.
/// An amended commit has the parents of the one it replaces, and a new one follows the head.
pub proof fn law_commit_says_what_was_given(
    args: CommitArgs,
    message: Seq<char>,
    name: Seq<char>,
    email: Seq<char>,
    heads: Seq<ObjectId>,
    amended: Result<AmendedCommit, String>,
)
    ensures
        draft(args, message, name, email, heads, amended) matches Ok((parents, text)) ==> {
            let signer = "\n\n"@ + ("Signed-off-by: "@ + name + " <"@ + email + ">"@);
            &&& !args.amend || !args.no_edit ==> {
                &&& message.is_prefix_of(text)
                &&& !args.signoff ==> text == message
                &&& args.signoff ==> text == message + signer
            }
            &&& args.amend && args.no_edit ==> (amended matches Ok(old) && {
                &&& old.message@.is_prefix_of(text)
                &&& !args.signoff ==> text == old.message@
                &&& args.signoff ==> text == old.message@ + signer
            })
            &&& args.amend ==> (amended matches Ok(old) && parents == old.parents@)
            &&& !args.amend ==> parents == heads
        },
{
}

/// A new commit can always be drafted. One can be amended where the head is one commit that can be read;
/// the reason is told where there is none, where there are several, and where it cannot be read.
pub proof fn law_what_can_be_amended(
    args: CommitArgs,
    message: Seq<char>,
    name: Seq<char>,
    email: Seq<char>,
    heads: Seq<ObjectId>,
    amended: Result<AmendedCommit, String>,
)
    ensures
        draft(args, message, name, email, heads, amended) is Ok <==> !args.amend || (heads.len() == 1
            && amended is Ok),
        args.amend && heads.len() == 0 ==> draft(args, message, name, email, heads, amended) == Err::<
            (Seq<ObjectId>, Seq<char>),
            CommitErrorView,
        >(CommitErrorView::NoCommitToAmend),
        args.amend && heads.len() > 1 ==> draft(args, message, name, email, heads, amended) == Err::<
            (Seq<ObjectId>, Seq<char>),
            CommitErrorView,
        >(CommitErrorView::AmendUnsupported),
        args.amend && heads.len() == 1 ==> (amended matches Err(why) ==> draft(
            args,
            message,
            name,
            email,
            heads,
            amended,
        ) == Err::<(Seq<ObjectId>, Seq<char>), CommitErrorView>(
            CommitErrorView::ParentCommitLoad { commit_id: heads[0].text(), detail: why@ },
        )),
{
}

/// Nothing is committed where nothing was staged, unless an empty commit was asked for or the last one
/// is amended; and nothing at all where what is staged is not known.
pub proof fn law_nothing_to_commit(
    args: CommitArgs,
    without_files: bool,
    auto_staged: bool,
    staged: Result<Changes, String>,
)
    ensures
        staged is Err ==> start_fault(args, without_files, auto_staged, staged) is Some,
        args.allow_empty || args.amend ==> (start_fault(args, without_files, auto_staged, staged) is None
            <==> staged is Ok),
        !args.allow_empty && !args.amend && without_files && !auto_staged ==> start_fault(
            args,
            without_files,
            auto_staged,
            staged,
        ) == Some(CommitErrorView::NothingToCommitNoTracked),
        staged matches Ok(c) ==> (!args.allow_empty && !args.amend && (!without_files || auto_staged) ==> {
            &&& c.new@.len() + c.modified@.len() + c.deleted@.len() == 0 <==> start_fault(
                args,
                without_files,
                auto_staged,
                staged,
            ) == Some(CommitErrorView::NothingToCommit)
            &&& c.new@.len() + c.modified@.len() + c.deleted@.len() > 0 <==> start_fault(
                args,
                without_files,
                auto_staged,
                staged,
            ) is None
        }),
{
}

/// The message of the command line is taken before that of a file, and a file's is taken whole. Without
/// either there is none, which only a commit whose message is not edited can do with.
pub proof fn law_message_is_the_one_given(args: CommitArgs, file: Option<Result<String, String>>)
    ensures
        args.message matches Some(m) ==> given_message(args, file) == Ok::<Seq<char>, CommitErrorView>(m@),
        args.message is None && args.file is Some ==> (file matches Some(Ok(text)) ==> given_message(
            args,
            file,
        ) == Ok::<Seq<char>, CommitErrorView>(text@)),
        args.message is None && args.file is Some && !(file matches Some(Ok(_))) ==> (given_message(
            args,
            file,
        ) matches Err(CommitErrorView::MessageFileRead { path, detail }) && path == args.file->0@ && (file
            matches Some(Err(why)) ==> detail == why@)),
        args.message is None && args.file is None && args.no_edit ==> given_message(args, file) == Ok::<
            Seq<char>,
            CommitErrorView,
        >(Seq::empty()),
        args.message is None && args.file is None && !args.no_edit ==> given_message(args, file) == Err::<
            Seq<char>,
            CommitErrorView,
        >(CommitErrorView::EmptyMessage),
{
}

/// What is shown of a commit names the branch, the commit and its subject, and counts what it changed.
pub proof fn law_commit_is_shown(out: CommitOutput)
    ensures
        !out.root_commit ==> summary_line(out) == "["@ + out.head@ + " "@ + out.short_id@ + "] "@
            + out.subject@,
        out.root_commit ==> summary_line(out) == "["@ + out.head@ + " (root-commit) "@ + out.short_id@
            + "] "@ + out.subject@,
        out.files_changed.total != 1 ==> files_line(out.files_changed) == " "@ + decimal(
            out.files_changed.total as nat,
        ) + " files changed (new: "@ + decimal(out.files_changed.new as nat) + ", modified: "@ + decimal(
            out.files_changed.modified as nat,
        ) + ", deleted: "@ + decimal(out.files_changed.deleted as nat) + ")"@,
        out.files_changed.total == 1 ==> files_line(out.files_changed) == " "@ + decimal(1)
            + " file changed (new: "@ + decimal(out.files_changed.new as nat) + ", modified: "@ + decimal(
            out.files_changed.modified as nat,
        ) + ", deleted: "@ + decimal(out.files_changed.deleted as nat) + ")"@,
{
}

/// The files that are staged again are those that are there, in their order.
pub proof fn law_files_that_are_there(a: Seq<ModifiedFile>, b: Seq<ModifiedFile>, file: ModifiedFile)
    ensures
        present(a + b) == present(a) + present(b),
        file.exists ==> present(seq![file]) == seq![file.path@],
        !file.exists ==> present(seq![file]) == Seq::<Seq<char>>::empty(),
        present(Seq::<ModifiedFile>::empty()) == Seq::<Seq<char>>::empty(),
    decreases b.len(),
{
    assert(seq![file].drop_last() =~= Seq::<ModifiedFile>::empty());
    assert(present(seq![file].drop_last()) =~= Seq::<Seq<char>>::empty());
    if b.len() == 0 {
        assert(a + b =~= a);
    } else {
        assert((a + b).drop_last() =~= a + b.drop_last());
        law_files_that_are_there(a, b.drop_last(), file);
    }
}

} // verus!
