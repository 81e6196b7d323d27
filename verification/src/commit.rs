//! Recording the staged changes as a commit.

use vstd::prelude::*;

use crate::error::{CliError, CliErrorKind, ErrorView, StableErrorCode};
use crate::text::{
    chars_of, clone_opt_text, concat2, concat3, concat4, is_space, lower, opt_text, string_of, text_eq,
    to_lower, trim, trim_end_seq, trim_seq,
};

pub mod draft;
pub mod objects;
pub mod run;
pub mod tree;

verus! {

/// What `commit` was asked to do.
#[derive(Debug, Clone)]
pub struct CommitArgs {
    /// Commit message body
    pub message: Option<String>,
    /// Read the message from this file
    pub file: Option<String>,
    /// Allow a commit with an empty index
    pub allow_empty: bool,
    /// Check that the message follows conventional commits
    pub conventional: bool,
    /// Amend the last commit
    pub amend: bool,
    /// Use the message of the original commit when amending
    pub no_edit: bool,
    /// Add a signed-off-by line at the end of the message
    pub signoff: bool,
    /// Skip pre-commit hooks
    pub disable_pre: bool,
    /// Stage tracked files that were modified or deleted
    pub all: bool,
    /// Skip all hooks and validations (`--no-verify`)
    pub skip_hooks: bool,
    /// Override the author
    pub author: Option<String>,
}

impl Default for CommitArgs {
    fn default() -> (r: CommitArgs)
        ensures
            r == (CommitArgs {
                message: None,
                file: None,
                allow_empty: false,
                conventional: false,
                amend: false,
                no_edit: false,
                signoff: false,
                disable_pre: false,
                all: false,
                skip_hooks: false,
                author: None,
            }),
    {
        CommitArgs {
            message: None,
            file: None,
            allow_empty: false,
            conventional: false,
            amend: false,
            no_edit: false,
            signoff: false,
            disable_pre: false,
            all: false,
            skip_hooks: false,
            author: None,
        }
    }
}

/// Why nothing was committed.
#[derive(Debug)]
pub enum CommitError {
    IndexLoad(String),
    IndexSave(String),
    NothingToCommit,
    NothingToCommitNoTracked,
    IdentityMissing(String),
    NoCommitToAmend,
    AmendUnsupported,
    InvalidAuthor(String),
    MessageFileRead { path: String, detail: String },
    EmptyMessage,
    TreeCreation(String),
    ObjectStorage(String),
    ParentCommitLoad { commit_id: String, detail: String },
    HeadUpdate(String),
    PreCommitHook(String),
    ConventionalCommit(String),
    VaultSign(String),
    AutoStage(String),
    StagedChanges(String),
}

/// A [`CommitError`] with its texts as sequences of characters.
pub enum CommitErrorView {
    IndexLoad(Seq<char>),
    IndexSave(Seq<char>),
    NothingToCommit,
    NothingToCommitNoTracked,
    IdentityMissing(Seq<char>),
    NoCommitToAmend,
    AmendUnsupported,
    InvalidAuthor(Seq<char>),
    MessageFileRead { path: Seq<char>, detail: Seq<char> },
    EmptyMessage,
    TreeCreation(Seq<char>),
    ObjectStorage(Seq<char>),
    ParentCommitLoad { commit_id: Seq<char>, detail: Seq<char> },
    HeadUpdate(Seq<char>),
    PreCommitHook(Seq<char>),
    ConventionalCommit(Seq<char>),
    VaultSign(Seq<char>),
    AutoStage(Seq<char>),
    StagedChanges(Seq<char>),
}

impl View for CommitError {
    type V = CommitErrorView;

    open spec fn view(&self) -> CommitErrorView {
        match *self {
            CommitError::IndexLoad(d) => CommitErrorView::IndexLoad(d@),
            CommitError::IndexSave(d) => CommitErrorView::IndexSave(d@),
            CommitError::NothingToCommit => CommitErrorView::NothingToCommit,
            CommitError::NothingToCommitNoTracked => CommitErrorView::NothingToCommitNoTracked,
            CommitError::IdentityMissing(d) => CommitErrorView::IdentityMissing(d@),
            CommitError::NoCommitToAmend => CommitErrorView::NoCommitToAmend,
            CommitError::AmendUnsupported => CommitErrorView::AmendUnsupported,
            CommitError::InvalidAuthor(d) => CommitErrorView::InvalidAuthor(d@),
            CommitError::MessageFileRead { path, detail } => CommitErrorView::MessageFileRead {
                path: path@,
                detail: detail@,
            },
            CommitError::EmptyMessage => CommitErrorView::EmptyMessage,
            CommitError::TreeCreation(d) => CommitErrorView::TreeCreation(d@),
            CommitError::ObjectStorage(d) => CommitErrorView::ObjectStorage(d@),
            CommitError::ParentCommitLoad { commit_id, detail } => CommitErrorView::ParentCommitLoad {
                commit_id: commit_id@,
                detail: detail@,
            },
            CommitError::HeadUpdate(d) => CommitErrorView::HeadUpdate(d@),
            CommitError::PreCommitHook(d) => CommitErrorView::PreCommitHook(d@),
            CommitError::ConventionalCommit(d) => CommitErrorView::ConventionalCommit(d@),
            CommitError::VaultSign(d) => CommitErrorView::VaultSign(d@),
            CommitError::AutoStage(d) => CommitErrorView::AutoStage(d@),
            CommitError::StagedChanges(d) => CommitErrorView::StagedChanges(d@),
        }
    }
}

pub open spec fn commit_error_text(e: CommitErrorView) -> Seq<char> {
    match e {
        CommitErrorView::IndexLoad(d) => "failed to load index: "@ + d,
        CommitErrorView::IndexSave(d) => "failed to save index: "@ + d,
        CommitErrorView::NothingToCommit => "nothing to commit, working tree clean"@,
        CommitErrorView::NothingToCommitNoTracked => "nothing to commit (create/copy files and use 'libra add' to track)"@,
        CommitErrorView::IdentityMissing(d) => d,
        CommitErrorView::NoCommitToAmend => "there is no commit to amend"@,
        CommitErrorView::AmendUnsupported => "amend is not supported for merge commits with multiple parents"@,
        CommitErrorView::InvalidAuthor(d) => "invalid author format: "@ + d,
        CommitErrorView::MessageFileRead { path, detail } => "failed to read message file '"@ + path
            + "': "@ + detail,
        CommitErrorView::EmptyMessage => "aborting commit due to empty commit message"@,
        CommitErrorView::TreeCreation(d) => "failed to create tree: "@ + d,
        CommitErrorView::ObjectStorage(d) => "failed to store commit object: "@ + d,
        CommitErrorView::ParentCommitLoad { commit_id, detail } => "failed to load parent commit '"@
            + commit_id + "': "@ + detail,
        CommitErrorView::HeadUpdate(d) => "failed to update HEAD: "@ + d,
        CommitErrorView::PreCommitHook(d) => "pre-commit hook failed: "@ + d,
        CommitErrorView::ConventionalCommit(d) => "conventional commit validation failed: "@ + d,
        CommitErrorView::VaultSign(d) => "failed to sign commit: "@ + d,
        CommitErrorView::AutoStage(d) => "failed to auto-stage tracked changes: "@ + d,
        CommitErrorView::StagedChanges(d) => "failed to calculate staged changes: "@ + d,
    }
}

/// The command error for each way not to commit.
pub open spec fn commit_error_view(e: CommitErrorView) -> ErrorView {
    let text = commit_error_text(e);
    let fatal = ErrorView::fatal(text);
    let failure = ErrorView::failure(text);
    let usage = ErrorView::usage(text);
    match e {
        CommitErrorView::IndexLoad(_) => fatal.coded(StableErrorCode::RepoCorrupt).hint(
            "the index file may be corrupted; try 'libra status' to verify"@,
        ),
        CommitErrorView::IndexSave(_) => fatal.coded(StableErrorCode::IoWriteFailed),
        CommitErrorView::NothingToCommit => failure.coded(StableErrorCode::RepoStateInvalid).hint(
            "use 'libra add' to stage changes"@,
        ).hint("use 'libra status' to see what changed"@),
        CommitErrorView::NothingToCommitNoTracked => failure.coded(
            StableErrorCode::RepoStateInvalid,
        ).hint("create/copy files and use 'libra add' to track"@),
        CommitErrorView::IdentityMissing(_) => fatal.coded(
            StableErrorCode::AuthMissingCredentials,
        ).hint(
            "run 'libra config --global user.name \"Your Name\"' and 'libra config --global user.email \"you@example.com\"'"@,
        ).hint("omit '--global' to set the identity only in this repository."@),
        CommitErrorView::NoCommitToAmend => failure.coded(StableErrorCode::RepoStateInvalid).hint(
            "create a commit before using --amend"@,
        ),
        CommitErrorView::AmendUnsupported => failure.coded(StableErrorCode::RepoStateInvalid).hint(
            "create a new commit instead of amending a merge commit"@,
        ),
        CommitErrorView::InvalidAuthor(_) => usage.coded(StableErrorCode::CliInvalidArguments).hint(
            "expected format: 'Name <email>'"@,
        ),
        CommitErrorView::MessageFileRead { .. } => fatal.coded(StableErrorCode::IoReadFailed),
        CommitErrorView::EmptyMessage => failure.coded(StableErrorCode::RepoStateInvalid).hint(
            "use -m to provide a commit message"@,
        ),
        CommitErrorView::TreeCreation(_) => fatal.coded(StableErrorCode::InternalInvariant).hint(
            "this is a bug; please report it at https://github.com/web3infra-foundation/libra/issues"@,
        ),
        CommitErrorView::ObjectStorage(_) => fatal.coded(StableErrorCode::IoWriteFailed),
        CommitErrorView::ParentCommitLoad { .. } => fatal.coded(StableErrorCode::RepoCorrupt).hint(
            "the parent commit is missing or corrupted"@,
        ),
        CommitErrorView::HeadUpdate(_) => fatal.coded(StableErrorCode::IoWriteFailed),
        CommitErrorView::PreCommitHook(_) => failure.coded(StableErrorCode::RepoStateInvalid).hint(
            "use --no-verify to bypass the hook"@,
        ),
        CommitErrorView::ConventionalCommit(_) => usage.coded(
            StableErrorCode::CliInvalidArguments,
        ).hint("see https://www.conventionalcommits.org for format rules"@),
        CommitErrorView::VaultSign(_) => fatal.coded(StableErrorCode::AuthMissingCredentials).hint(
            "check vault configuration with 'libra config --list'"@,
        ),
        CommitErrorView::AutoStage(_) => fatal.coded(StableErrorCode::IoReadFailed),
        CommitErrorView::StagedChanges(_) => fatal.coded(StableErrorCode::RepoCorrupt).hint(
            "failed to compute staged changes"@,
        ),
    }
}

impl CommitError {
    /// The text of the error.
    pub fn to_string(&self) -> (r: String)
        ensures
            r@ == commit_error_text(self@),
    {
        match self {
            CommitError::IndexLoad(d) => concat2("failed to load index: ", d.as_str()),
            CommitError::IndexSave(d) => concat2("failed to save index: ", d.as_str()),
            CommitError::NothingToCommit => "nothing to commit, working tree clean".to_owned(),
            CommitError::NothingToCommitNoTracked => "nothing to commit (create/copy files and use 'libra add' to track)".to_owned(),
            CommitError::IdentityMissing(d) => d.clone(),
            CommitError::NoCommitToAmend => "there is no commit to amend".to_owned(),
            CommitError::AmendUnsupported => "amend is not supported for merge commits with multiple parents".to_owned(),
            CommitError::InvalidAuthor(d) => concat2("invalid author format: ", d.as_str()),
            CommitError::MessageFileRead { path, detail } => concat4(
                "failed to read message file '",
                path.as_str(),
                "': ",
                detail.as_str(),
            ),
            CommitError::EmptyMessage => "aborting commit due to empty commit message".to_owned(),
            CommitError::TreeCreation(d) => concat2("failed to create tree: ", d.as_str()),
            CommitError::ObjectStorage(d) => concat2("failed to store commit object: ", d.as_str()),
            CommitError::ParentCommitLoad { commit_id, detail } => concat4(
                "failed to load parent commit '",
                commit_id.as_str(),
                "': ",
                detail.as_str(),
            ),
            CommitError::HeadUpdate(d) => concat2("failed to update HEAD: ", d.as_str()),
            CommitError::PreCommitHook(d) => concat2("pre-commit hook failed: ", d.as_str()),
            CommitError::ConventionalCommit(d) => concat2(
                "conventional commit validation failed: ",
                d.as_str(),
            ),
            CommitError::VaultSign(d) => concat2("failed to sign commit: ", d.as_str()),
            CommitError::AutoStage(d) => concat2(
                "failed to auto-stage tracked changes: ",
                d.as_str(),
            ),
            CommitError::StagedChanges(d) => concat2(
                "failed to calculate staged changes: ",
                d.as_str(),
            ),
        }
    }
}

impl CliError {
    /// The command error for a commit error.
    pub fn from_commit_error(error: &CommitError) -> (r: CliError)
        ensures
            r@ == commit_error_view(error@),
    {
        let text = error.to_string();
        match error {
            CommitError::IndexLoad(_) => CliError::fatal(text).with_stable_code(
                StableErrorCode::RepoCorrupt,
            ).with_hint("the index file may be corrupted; try 'libra status' to verify"),
            CommitError::IndexSave(_) => CliError::fatal(text).with_stable_code(
                StableErrorCode::IoWriteFailed,
            ),
            CommitError::NothingToCommit => CliError::failure(text).with_stable_code(
                StableErrorCode::RepoStateInvalid,
            ).with_hint("use 'libra add' to stage changes").with_hint(
                "use 'libra status' to see what changed",
            ),
            CommitError::NothingToCommitNoTracked => CliError::failure(text).with_stable_code(
                StableErrorCode::RepoStateInvalid,
            ).with_hint("create/copy files and use 'libra add' to track"),
            CommitError::IdentityMissing(_) => CliError::fatal(text).with_stable_code(
                StableErrorCode::AuthMissingCredentials,
            ).with_hint(
                "run 'libra config --global user.name \"Your Name\"' and 'libra config --global user.email \"you@example.com\"'",
            ).with_hint("omit '--global' to set the identity only in this repository."),
            CommitError::NoCommitToAmend => CliError::failure(text).with_stable_code(
                StableErrorCode::RepoStateInvalid,
            ).with_hint("create a commit before using --amend"),
            CommitError::AmendUnsupported => CliError::failure(text).with_stable_code(
                StableErrorCode::RepoStateInvalid,
            ).with_hint("create a new commit instead of amending a merge commit"),
            CommitError::InvalidAuthor(_) => CliError::command_usage(text).with_stable_code(
                StableErrorCode::CliInvalidArguments,
            ).with_hint("expected format: 'Name <email>'"),
            CommitError::MessageFileRead { .. } => CliError::fatal(text).with_stable_code(
                StableErrorCode::IoReadFailed,
            ),
            CommitError::EmptyMessage => CliError::failure(text).with_stable_code(
                StableErrorCode::RepoStateInvalid,
            ).with_hint("use -m to provide a commit message"),
            CommitError::TreeCreation(_) => CliError::fatal(text).with_stable_code(
                StableErrorCode::InternalInvariant,
            ).with_hint(
                "this is a bug; please report it at https://github.com/web3infra-foundation/libra/issues",
            ),
            CommitError::ObjectStorage(_) => CliError::fatal(text).with_stable_code(
                StableErrorCode::IoWriteFailed,
            ),
            CommitError::ParentCommitLoad { .. } => CliError::fatal(text).with_stable_code(
                StableErrorCode::RepoCorrupt,
            ).with_hint("the parent commit is missing or corrupted"),
            CommitError::HeadUpdate(_) => CliError::fatal(text).with_stable_code(
                StableErrorCode::IoWriteFailed,
            ),
            CommitError::PreCommitHook(_) => CliError::failure(text).with_stable_code(
                StableErrorCode::RepoStateInvalid,
            ).with_hint("use --no-verify to bypass the hook"),
            CommitError::ConventionalCommit(_) => CliError::command_usage(text).with_stable_code(
                StableErrorCode::CliInvalidArguments,
            ).with_hint("see https://www.conventionalcommits.org for format rules"),
            CommitError::VaultSign(_) => CliError::fatal(text).with_stable_code(
                StableErrorCode::AuthMissingCredentials,
            ).with_hint("check vault configuration with 'libra config --list'"),
            CommitError::AutoStage(_) => CliError::fatal(text).with_stable_code(
                StableErrorCode::IoReadFailed,
            ),
            CommitError::StagedChanges(_) => CliError::fatal(text).with_stable_code(
                StableErrorCode::RepoCorrupt,
            ).with_hint("failed to compute staged changes"),
        }
    }
}

/// `text` is `before`, an address in angle brackets and nothing more, where the name before the
/// first `<` and the address up to the first `>` after it are not blank.
pub open spec fn author_form(text: Seq<char>, before: Seq<char>, address: Seq<char>) -> bool {
    &&& text == before + seq!['<'] + address + seq!['>']
    &&& !before.contains('<')
    &&& !address.contains('>')
    &&& trim_seq(before).len() > 0
    &&& trim_seq(address).len() > 0
}

/// `text` names an author.
pub open spec fn is_author(text: Seq<char>) -> bool {
    exists|before: Seq<char>, address: Seq<char>| author_form(text, before, address)
}

/// The name and address are those of `text`.
pub open spec fn author_is(text: Seq<char>, name: Seq<char>, email: Seq<char>) -> bool {
    exists|before: Seq<char>, address: Seq<char>| #[trigger]
        author_form(text, before, address) && name == trim_seq(before) && email == trim_seq(address)
}

pub open spec fn author_error(author: Seq<char>) -> CommitErrorView {
    CommitErrorView::InvalidAuthor(
        "'"@ + trim_seq(author) + "'. Expected format: 'Name <email>'"@,
    )
}

proof fn lemma_author_form_unique(
    text: Seq<char>,
    a: Seq<char>,
    b: Seq<char>,
    c: Seq<char>,
    d: Seq<char>,
)
    requires
        author_form(text, a, b),
        author_form(text, c, d),
    ensures
        a == c,
        b == d,
{
    assert(text[a.len() as int] == '<');
    assert(text[c.len() as int] == '<');
    if a.len() < c.len() {
        assert(c[a.len() as int] == text[a.len() as int]);
        assert(c.contains('<'));
    }
    if c.len() < a.len() {
        assert(a[c.len() as int] == text[c.len() as int]);
        assert(a.contains('<'));
    }
    assert(a =~= text.take(a.len() as int));
    assert(c =~= text.take(a.len() as int));
    assert(b =~= text.subrange(a.len() as int + 1, text.len() - 1));
    assert(d =~= text.subrange(a.len() as int + 1, text.len() - 1));
}

/// Parse an author in the format `Name <email>`.
pub fn parse_author(author: &str) -> (r: Result<(String, String), CommitError>)
    ensures
        match r {
            Ok(pair) => author_is(trim_seq(author@), pair.0@, pair.1@),
            Err(e) => !is_author(trim_seq(author@)) && e@ == author_error(author@),
        },
{
    let text = trim(author);
    let cs = chars_of(text.as_str());
    let n: usize = cs.len();
    let ghost t = text@;
    let mut start: usize = 0;
    while start < n && cs[start] != '<'
        invariant
            n == cs@.len(),
            start <= n,
            forall|k: int| 0 <= k < start ==> cs@[k] != '<',
        decreases n - start,
    {
        start = start + 1;
    }
    if start < n {
        let mut end: usize = start;
        while end < n && cs[end] != '>'
            invariant
                n == cs@.len(),
                start <= end <= n,
                forall|k: int| start <= k < end ==> cs@[k] != '>',
            decreases n - end,
        {
            end = end + 1;
        }
        if end < n && end == n - 1 && start < end {
            let before = string_of(&cs, 0, start);
            let address = string_of(&cs, start + 1, end);
            let name = trim(before.as_str());
            let email = trim(address.as_str());
            proof {
                assert(t =~= before@ + seq!['<'] + address@ + seq!['>']);
                assert(!before@.contains('<'));
                assert(!address@.contains('>'));
            }
            if !name.as_str().is_empty() && !email.as_str().is_empty() {
                assert(author_form(t, before@, address@));
                return Ok((name, email));
            }
            proof {
                assert forall|a: Seq<char>, b: Seq<char>| !author_form(t, a, b) by {
                    if author_form(t, a, b) {
                        assert(t[a.len() as int] == '<');
                        if a.len() > start {
                            assert(a[start as int] == t[start as int]);
                            assert(a.contains('<'));
                        }
                        assert(a.len() == start);
                        assert(a =~= before@);
                        assert(b =~= address@);
                    }
                }
            }
        } else {
            proof {
                assert forall|a: Seq<char>, b: Seq<char>| !author_form(t, a, b) by {
                    if author_form(t, a, b) {
                        assert(t[a.len() as int] == '<');
                        if a.len() > start {
                            assert(a[start as int] == t[start as int]);
                            assert(a.contains('<'));
                        }
                        assert(a.len() == start);
                        assert(t[t.len() - 1] == '>');
                        if end < n - 1 {
                            assert(b[end - start - 1] == t[end as int]);
                            assert(b.contains('>'));
                        }
                    }
                }
            }
        }
    } else {
        proof {
            assert forall|a: Seq<char>, b: Seq<char>| !author_form(t, a, b) by {
                if author_form(t, a, b) {
                    assert(t[a.len() as int] == '<');
                }
            }
        }
    }
    Err(
        CommitError::InvalidAuthor(
            concat3("'", text.as_str(), "'. Expected format: 'Name <email>'"),
        ),
    )
}

/// An author that is written as a name, a space and an address in angle brackets is read back,
/// where neither has white space at its ends, the name has no `<` and the address no `>`.
pub proof fn law_author_is_read_back(name: Seq<char>, email: Seq<char>)
    requires
        name.len() > 0 && !is_space(name[0]) && !is_space(name.last()),
        email.len() > 0 && !is_space(email[0]) && !is_space(email.last()),
        !name.contains('<'),
        !email.contains('>'),
    ensures
        ({
            let text = trim_seq(name + seq![' ', '<'] + email + seq!['>']);
            &&& is_author(text)
            &&& author_is(text, name, email)
            &&& forall|n: Seq<char>, e: Seq<char>| #[trigger]
                author_is(text, n, e) ==> n == name && e == email
        }),
{
    let text = name + seq![' ', '<'] + email + seq!['>'];
    let before = name + seq![' '];
    assert(text[0] == name[0]);
    assert(text.last() == '>');
    assert(trim_seq(text) == text);
    assert(before[0] == name[0]);
    assert(before.drop_last() =~= name);
    reveal_with_fuel(trim_end_seq, 2);
    assert(trim_seq(before) == name);
    assert(trim_seq(email) == email);
    assert(text =~= before + seq!['<'] + email + seq!['>']);
    assert(!before.contains('<')) by {
        if before.contains('<') {
            let k = choose|k: int| 0 <= k < before.len() && before[k] == '<';
            if k < name.len() {
                assert(name[k] == '<');
            }
        }
    }
    assert(author_form(text, before, email));
    assert forall|n: Seq<char>, e: Seq<char>| #[trigger] author_is(text, n, e) implies n == name && e
        == email by {
        let (a, b) = choose|a: Seq<char>, b: Seq<char>| #[trigger]
            author_form(text, a, b) && n == trim_seq(a) && e == trim_seq(b);
        lemma_author_form_unique(text, before, email, a, b);
    }
}

pub open spec fn missing_identity_text(name_missing: bool, email_missing: bool) -> Seq<char> {
    if name_missing && email_missing {
        "author identity unknown: name and email are not configured"@
    } else if name_missing {
        "author identity unknown: name is not configured"@
    } else if email_missing {
        "author identity unknown: email is not configured"@
    } else {
        "author identity unknown"@
    }
}

/// Which part of the identity is missing.
pub fn missing_identity_error(name_missing: bool, email_missing: bool) -> (r: CommitError)
    ensures
        r@ == CommitErrorView::IdentityMissing(missing_identity_text(name_missing, email_missing)),
{
    let detail = if name_missing && email_missing {
        "author identity unknown: name and email are not configured"
    } else if name_missing {
        "author identity unknown: name is not configured"
    } else if email_missing {
        "author identity unknown: email is not configured"
    } else {
        "author identity unknown"
    };
    CommitError::IdentityMissing(detail.to_owned())
}

/// A name and an address to commit under.
#[derive(Debug, Clone)]
pub struct UserIdentity {
    pub name: String,
    pub email: String,
}

/// Where a name and an address may come from.
#[derive(Debug, Clone)]
pub struct IdentitySources {
    pub config_name: Option<String>,
    pub config_email: Option<String>,
    pub env_name: Option<String>,
    pub env_email: Option<String>,
    /// `user.useConfigOnly`
    pub use_config_only: Option<String>,
}

pub open spec fn config_only(s: IdentitySources) -> bool {
    s.use_config_only matches Some(v) && lower(v@) == "true"@
}

/// What the configuration gives, else what the environment does, unless that is excluded.
pub open spec fn chosen(config: Option<String>, env: Option<String>, config_only: bool) -> Option<
    Seq<char>,
> {
    match config {
        Some(v) => Some(v@),
        None => if config_only {
            None
        } else {
            opt_text(env)
        },
    }
}

/// The name and address to commit under, or what of them is missing.
pub open spec fn committer(s: IdentitySources) -> Result<(Seq<char>, Seq<char>), CommitErrorView> {
    let name = chosen(s.config_name, s.env_name, config_only(s));
    let email = chosen(s.config_email, s.env_email, config_only(s));
    match (name, email) {
        (Some(n), Some(e)) => Ok((n, e)),
        _ => Err(
            CommitErrorView::IdentityMissing(missing_identity_text(name is None, email is None)),
        ),
    }
}

fn choose_source(config: &Option<String>, env: &Option<String>, config_only: bool) -> (r: Option<
    String,
>)
    ensures
        opt_text(r) == chosen(*config, *env, config_only),
{
    match config {
        Some(v) => Some(v.clone()),
        None => {
            if config_only {
                None
            } else {
                clone_opt_text(env)
            }
        },
    }
}

/// The identity to commit under: the configuration before the environment, and the configuration
/// alone where `user.useConfigOnly` says so.
pub fn resolve_committer_identity(sources: &IdentitySources) -> (r: Result<UserIdentity, CommitError>)
    ensures
        match (r, committer(*sources)) {
            (Ok(id), Ok(want)) => (id.name@, id.email@) == want,
            (Err(e), Err(want)) => e@ == want,
            _ => false,
        },
{
    let only = match &sources.use_config_only {
        Some(v) => {
            let l = to_lower(v.as_str());
            text_eq(l.as_str(), "true")
        },
        None => false,
    };
    let name = choose_source(&sources.config_name, &sources.env_name, only);
    let email = choose_source(&sources.config_email, &sources.env_email, only);
    match (name, email) {
        (Some(name), Some(email)) => Ok(UserIdentity { name, email }),
        (Some(_), None) => Err(missing_identity_error(false, true)),
        (None, Some(_)) => Err(missing_identity_error(true, false)),
        (None, None) => Err(missing_identity_error(true, true)),
    }
}

/// The author is the one that was named, else the committer.
pub fn create_commit_signatures(author_override: Option<&str>, sources: &IdentitySources) -> (r: Result<
    (UserIdentity, UserIdentity),
    CommitError,
>)
    ensures
        match r {
            Ok((author, by)) => committer(*sources) == Ok::<_, CommitErrorView>(
                (by.name@, by.email@),
            ) && match author_override {
                Some(text) => author_is(trim_seq(text@), author.name@, author.email@),
                None => author.name@ == by.name@ && author.email@ == by.email@,
            },
            Err(e) => match committer(*sources) {
                Err(want) => e@ == want,
                Ok(_) => author_override matches Some(text) && !is_author(trim_seq(text@)) && e@
                    == author_error(text@),
            },
        },
{
    let by = match resolve_committer_identity(sources) {
        Ok(by) => by,
        Err(e) => {
            return Err(e);
        },
    };
    let author = match author_override {
        Some(text) => match parse_author(text) {
            Ok((name, email)) => UserIdentity { name, email },
            Err(e) => {
                return Err(e);
            },
        },
        None => UserIdentity { name: by.name.clone(), email: by.email.clone() },
    };
    Ok((author, by))
}

/// A committer's name is the configured one; only where none is configured, and the configuration is not
/// to be the only source, is it the environment's. The same holds of the address, and both are needed.
pub proof fn law_committer_is_the_configured_one(s: IdentitySources)
    ensures
        ({
            let only = s.use_config_only matches Some(v) && lower(v@) == "true"@;
            &&& committer(s) matches Ok((name, email)) ==> {
                &&& s.config_name matches Some(v) ==> name == v@
                &&& s.config_name is None ==> !only && (s.env_name matches Some(v) && name == v@)
                &&& s.config_email matches Some(v) ==> email == v@
                &&& s.config_email is None ==> !only && (s.env_email matches Some(v) && email == v@)
            }
            &&& committer(s) is Ok <==> (s.config_name is Some || (!only && s.env_name is Some)) && (
            s.config_email is Some || (!only && s.env_email is Some))
        }),
{
}

/// Where an identity lacks something, what it lacks is said: the name, the address or both.
pub proof fn law_missing_identity_is_named(s: IdentitySources)
    ensures
        committer(s) matches Err(e) ==> {
            let only = s.use_config_only matches Some(v) && lower(v@) == "true"@;
            let no_name = s.config_name is None && (only || s.env_name is None);
            let no_email = s.config_email is None && (only || s.env_email is None);
            &&& no_name || no_email
            &&& no_name && no_email ==> e == CommitErrorView::IdentityMissing(
                "author identity unknown: name and email are not configured"@,
            )
            &&& no_name && !no_email ==> e == CommitErrorView::IdentityMissing(
                "author identity unknown: name is not configured"@,
            )
            &&& !no_name && no_email ==> e == CommitErrorView::IdentityMissing(
                "author identity unknown: email is not configured"@,
            )
        },
{
}

/// An author is a name before an address in angle brackets: both are there, and nothing else follows.
pub proof fn law_author_has_name_and_address(text: Seq<char>, name: Seq<char>, email: Seq<char>)
    requires
        author_is(text, name, email),
    ensures
        is_author(text),
        name.len() > 0,
        email.len() > 0,
        text.last() == '>',
        exists|before: Seq<char>, address: Seq<char>|
            text == #[trigger] (before + seq!['<'] + address + seq!['>']) && name == trim_seq(before)
                && email == trim_seq(address) && !before.contains('<') && !address.contains('>'),
{
    let (before, address) = choose|before: Seq<char>, address: Seq<char>| #[trigger]
        author_form(text, before, address) && name == trim_seq(before) && email == trim_seq(address);
    assert(author_form(text, before, address));
    assert(text == before + seq!['<'] + address + seq!['>']);
}

/// What an error says ends with what was found out, and says what failed before it.
pub proof fn law_commit_errors_tell_the_cause(d: Seq<char>, at: Seq<char>)
    ensures
        commit_error_text(CommitErrorView::IndexLoad(d)) == "failed to load index: "@ + d,
        commit_error_text(CommitErrorView::IndexSave(d)) == "failed to save index: "@ + d,
        commit_error_text(CommitErrorView::IdentityMissing(d)) == d,
        commit_error_text(CommitErrorView::InvalidAuthor(d)) == "invalid author format: "@ + d,
        commit_error_text(CommitErrorView::MessageFileRead { path: at, detail: d })
            == "failed to read message file '"@ + at + "': "@ + d,
        commit_error_text(CommitErrorView::TreeCreation(d)) == "failed to create tree: "@ + d,
        commit_error_text(CommitErrorView::ObjectStorage(d)) == "failed to store commit object: "@ + d,
        commit_error_text(CommitErrorView::ParentCommitLoad { commit_id: at, detail: d })
            == "failed to load parent commit '"@ + at + "': "@ + d,
        commit_error_text(CommitErrorView::HeadUpdate(d)) == "failed to update HEAD: "@ + d,
        commit_error_text(CommitErrorView::PreCommitHook(d)) == "pre-commit hook failed: "@ + d,
        commit_error_text(CommitErrorView::ConventionalCommit(d))
            == "conventional commit validation failed: "@ + d,
        commit_error_text(CommitErrorView::VaultSign(d)) == "failed to sign commit: "@ + d,
        commit_error_text(CommitErrorView::AutoStage(d)) == "failed to auto-stage tracked changes: "@ + d,
        commit_error_text(CommitErrorView::StagedChanges(d)) == "failed to calculate staged changes: "@ + d,
        commit_error_text(CommitErrorView::NothingToCommit) == "nothing to commit, working tree clean"@,
        commit_error_text(CommitErrorView::NothingToCommitNoTracked)
            == "nothing to commit (create/copy files and use 'libra add' to track)"@,
        commit_error_text(CommitErrorView::NoCommitToAmend) == "there is no commit to amend"@,
        commit_error_text(CommitErrorView::AmendUnsupported)
            == "amend is not supported for merge commits with multiple parents"@,
        commit_error_text(CommitErrorView::EmptyMessage) == "aborting commit due to empty commit message"@,
{
}

/// An error of a commit is told with its own text. It is a wrong use of the command exactly where the
/// author or the form of the message is wrong, a refusal where the state does not allow a commit, and
/// fatal where reading, writing or signing failed.
pub proof fn law_commit_errors_are_told(e: CommitErrorView)
    ensures
        commit_error_view(e).message == commit_error_text(e),
        commit_error_view(e).exit is None,
        commit_error_view(e).kind == CliErrorKind::CommandUsage <==> e is InvalidAuthor
            || e is ConventionalCommit,
        commit_error_view(e).kind == CliErrorKind::Failure <==> e is NothingToCommit
            || e is NothingToCommitNoTracked || e is NoCommitToAmend || e is AmendUnsupported
            || e is EmptyMessage || e is PreCommitHook,
        commit_error_view(e).code == Some(StableErrorCode::CliInvalidArguments) <==> e is InvalidAuthor
            || e is ConventionalCommit,
        commit_error_view(e).code == Some(StableErrorCode::RepoStateInvalid) <==> e is NothingToCommit
            || e is NothingToCommitNoTracked || e is NoCommitToAmend || e is AmendUnsupported
            || e is EmptyMessage || e is PreCommitHook,
        commit_error_view(e).code == Some(StableErrorCode::RepoCorrupt) <==> e is IndexLoad
            || e is ParentCommitLoad || e is StagedChanges,
        commit_error_view(e).code == Some(StableErrorCode::IoWriteFailed) <==> e is IndexSave
            || e is ObjectStorage || e is HeadUpdate,
        commit_error_view(e).code == Some(StableErrorCode::IoReadFailed) <==> e is MessageFileRead
            || e is AutoStage,
        commit_error_view(e).code == Some(StableErrorCode::AuthMissingCredentials) <==> e is IdentityMissing
            || e is VaultSign,
        commit_error_view(e).code == Some(StableErrorCode::InternalInvariant) <==> e is TreeCreation,
        commit_error_view(e).kind == CliErrorKind::Fatal <==> !(commit_error_view(e).kind
            == CliErrorKind::CommandUsage) && !(commit_error_view(e).kind == CliErrorKind::Failure),
{
}

} // verus!
