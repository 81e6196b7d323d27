//! Command errors: a message, a stable code, hints and details, and the exit status.

use vstd::prelude::*;

use crate::text::{opt_text, text_eq, texts};

verus! {

/// Machine-readable class of a command error.
#[derive(Debug, Clone, Copy, PartialEq, Eq, Structural)]
pub enum StableErrorCode {
    AuthMissingCredentials,
    AuthPermissionDenied,
    BisectNoCandidates,
    BisectNotActive,
    BisectRunFailed,
    CliInvalidArguments,
    CliInvalidTarget,
    ConflictOperationBlocked,
    InternalInvariant,
    IoReadFailed,
    IoWriteFailed,
    NetworkProtocol,
    NetworkUnavailable,
    RepoCorrupt,
    RepoNotFound,
    RepoStateInvalid,
}

/// How an error is announced.
#[derive(Debug, Clone, Copy, PartialEq, Eq, Structural)]
pub enum CliErrorKind {
    Fatal,
    Failure,
    CommandUsage,
}

/// The text of a code: its published number. For a code whose number is not known here, the name of
/// the variant stands in.
pub open spec fn code_text(code: StableErrorCode) -> Seq<char> {
    match code {
        StableErrorCode::AuthMissingCredentials => "LBR-AUTH-001"@,
        StableErrorCode::AuthPermissionDenied => "AuthPermissionDenied"@,
        StableErrorCode::BisectNoCandidates => "BisectNoCandidates"@,
        StableErrorCode::BisectNotActive => "BisectNotActive"@,
        StableErrorCode::BisectRunFailed => "BisectRunFailed"@,
        StableErrorCode::CliInvalidArguments => "LBR-CLI-002"@,
        StableErrorCode::CliInvalidTarget => "CliInvalidTarget"@,
        StableErrorCode::ConflictOperationBlocked => "ConflictOperationBlocked"@,
        StableErrorCode::InternalInvariant => "LBR-INTERNAL-001"@,
        StableErrorCode::IoReadFailed => "LBR-IO-001"@,
        StableErrorCode::IoWriteFailed => "LBR-IO-002"@,
        StableErrorCode::NetworkProtocol => "NetworkProtocol"@,
        StableErrorCode::NetworkUnavailable => "NetworkUnavailable"@,
        StableErrorCode::RepoCorrupt => "LBR-REPO-002"@,
        StableErrorCode::RepoNotFound => "RepoNotFound"@,
        StableErrorCode::RepoStateInvalid => "LBR-REPO-003"@,
    }
}

/// Whether a code says that the command line itself is wrong.
pub open spec fn is_usage_code(code: StableErrorCode) -> bool {
    code == StableErrorCode::CliInvalidArguments || code == StableErrorCode::CliInvalidTarget
}

impl StableErrorCode {
    /// The text of the code.
    pub fn as_str(&self) -> (r: &'static str)
        ensures
            r@ == code_text(*self),
    {
        match self {
            StableErrorCode::AuthMissingCredentials => "LBR-AUTH-001",
            StableErrorCode::AuthPermissionDenied => "AuthPermissionDenied",
            StableErrorCode::BisectNoCandidates => "BisectNoCandidates",
            StableErrorCode::BisectNotActive => "BisectNotActive",
            StableErrorCode::BisectRunFailed => "BisectRunFailed",
            StableErrorCode::CliInvalidArguments => "LBR-CLI-002",
            StableErrorCode::CliInvalidTarget => "CliInvalidTarget",
            StableErrorCode::ConflictOperationBlocked => "ConflictOperationBlocked",
            StableErrorCode::InternalInvariant => "LBR-INTERNAL-001",
            StableErrorCode::IoReadFailed => "LBR-IO-001",
            StableErrorCode::IoWriteFailed => "LBR-IO-002",
            StableErrorCode::NetworkProtocol => "NetworkProtocol",
            StableErrorCode::NetworkUnavailable => "NetworkUnavailable",
            StableErrorCode::RepoCorrupt => "LBR-REPO-002",
            StableErrorCode::RepoNotFound => "RepoNotFound",
            StableErrorCode::RepoStateInvalid => "LBR-REPO-003",
        }
    }
}

/// One key and value that say more about an error.
#[derive(Debug, Clone)]
pub struct ErrorDetail {
    pub key: String,
    pub value: String,
}

/// What a command reports when it fails.
#[derive(Debug, Clone)]
pub struct CliError {
    pub kind: CliErrorKind,
    pub message: String,
    pub code: Option<StableErrorCode>,
    pub hints: Vec<String>,
    pub details: Vec<ErrorDetail>,
    pub exit: Option<i32>,
}

/// A [`CliError`] with its texts as sequences of characters.
pub struct ErrorView {
    pub kind: CliErrorKind,
    pub message: Seq<char>,
    pub code: Option<StableErrorCode>,
    pub hints: Seq<Seq<char>>,
    pub details: Seq<(Seq<char>, Seq<char>)>,
    pub exit: Option<i32>,
}

pub open spec fn detail_views(v: Seq<ErrorDetail>) -> Seq<(Seq<char>, Seq<char>)> {
    v.map_values(|d: ErrorDetail| (d.key@, d.value@))
}

impl View for CliError {
    type V = ErrorView;

    open spec fn view(&self) -> ErrorView {
        ErrorView {
            kind: self.kind,
            message: self.message@,
            code: self.code,
            hints: texts(self.hints@),
            details: detail_views(self.details@),
            exit: self.exit,
        }
    }
}

impl ErrorView {
    pub open spec fn of(kind: CliErrorKind, message: Seq<char>) -> ErrorView {
        ErrorView {
            kind,
            message,
            code: None,
            hints: Seq::empty(),
            details: Seq::empty(),
            exit: None,
        }
    }

    pub open spec fn fatal(message: Seq<char>) -> ErrorView {
        ErrorView::of(CliErrorKind::Fatal, message)
    }

    pub open spec fn failure(message: Seq<char>) -> ErrorView {
        ErrorView::of(CliErrorKind::Failure, message)
    }

    pub open spec fn usage(message: Seq<char>) -> ErrorView {
        ErrorView::of(CliErrorKind::CommandUsage, message)
    }

    pub open spec fn coded(self, code: StableErrorCode) -> ErrorView {
        ErrorView { code: Some(code), ..self }
    }

    pub open spec fn hint(self, hint: Seq<char>) -> ErrorView {
        ErrorView { hints: self.hints.push(hint), ..self }
    }

    pub open spec fn first_hint(self, hint: Seq<char>) -> ErrorView {
        ErrorView { hints: seq![hint] + self.hints, ..self }
    }

    pub open spec fn detail(self, key: Seq<char>, value: Seq<char>) -> ErrorView {
        ErrorView { details: self.details.push((key, value)), ..self }
    }

    pub open spec fn exits(self, exit: i32) -> ErrorView {
        ErrorView { exit: Some(exit), ..self }
    }

    /// The code: the one that was set, or the one that the kind implies.
    pub open spec fn stable_code(self) -> StableErrorCode {
        match self.code {
            Some(code) => code,
            None => match self.kind {
                CliErrorKind::CommandUsage => StableErrorCode::CliInvalidArguments,
                _ => StableErrorCode::InternalInvariant,
            },
        }
    }

    /// The exit status: the one that was set, else 129 for a wrong command line and 128
    /// for anything else.
    pub open spec fn exit_code(self) -> i32 {
        match self.exit {
            Some(exit) => exit,
            None => if is_usage_code(self.stable_code()) {
                129
            } else {
                128
            },
        }
    }
}

impl CliError {
    fn of(kind: CliErrorKind, message: String) -> (r: CliError)
        ensures
            r@ == ErrorView::of(kind, message@),
    {
        let r = CliError {
            kind,
            message,
            code: None,
            hints: Vec::new(),
            details: Vec::new(),
            exit: None,
        };
        assert(texts(r.hints@) =~= Seq::<Seq<char>>::empty());
        assert(detail_views(r.details@) =~= Seq::<(Seq<char>, Seq<char>)>::empty());
        r
    }

    /// An error that ends the command.
    pub fn fatal(message: String) -> (r: CliError)
        ensures
            r@ == ErrorView::fatal(message@),
    {
        CliError::of(CliErrorKind::Fatal, message)
    }

    /// A failure of the requested operation.
    pub fn failure(message: String) -> (r: CliError)
        ensures
            r@ == ErrorView::failure(message@),
    {
        CliError::of(CliErrorKind::Failure, message)
    }

    /// A mistake in how the command was called.
    pub fn command_usage(message: String) -> (r: CliError)
        ensures
            r@ == ErrorView::usage(message@),
    {
        CliError::of(CliErrorKind::CommandUsage, message)
    }

    pub fn with_stable_code(self, code: StableErrorCode) -> (r: CliError)
        ensures
            r@ == self@.coded(code),
    {
        CliError { code: Some(code), ..self }
    }

    pub fn with_exit_code(self, exit: i32) -> (r: CliError)
        ensures
            r@ == self@.exits(exit),
    {
        CliError { exit: Some(exit), ..self }
    }

    /// Adds a hint after the hints that are there.
    pub fn with_hint(self, hint: &str) -> (r: CliError)
        ensures
            r@ == self@.hint(hint@),
    {
        let mut e = self;
        let ghost before = e.hints@;
        let h = hint.to_owned();
        e.hints.push(h);
        assert(texts(e.hints@) =~= texts(before).push(hint@));
        e
    }

    /// Adds a hint before the hints that are there.
    pub fn with_priority_hint(self, hint: &str) -> (r: CliError)
        ensures
            r@ == self@.first_hint(hint@),
    {
        let mut e = self;
        let ghost before = e.hints@;
        let h = hint.to_owned();
        e.hints.insert(0, h);
        assert(texts(e.hints@) =~= seq![hint@] + texts(before));
        e
    }

    pub fn with_detail(self, key: &str, value: &str) -> (r: CliError)
        ensures
            r@ == self@.detail(key@, value@),
    {
        let mut e = self;
        let ghost before = e.details@;
        let d = ErrorDetail { key: key.to_owned(), value: value.to_owned() };
        e.details.push(d);
        assert(detail_views(e.details@) =~= detail_views(before).push((key@, value@)));
        e
    }

    pub fn stable_code(&self) -> (r: StableErrorCode)
        ensures
            r == self@.stable_code(),
    {
        match self.code {
            Some(code) => code,
            None => match self.kind {
                CliErrorKind::CommandUsage => StableErrorCode::CliInvalidArguments,
                _ => StableErrorCode::InternalInvariant,
            },
        }
    }

    pub fn exit_code(&self) -> (r: i32)
        ensures
            r == self@.exit_code(),
    {
        match self.exit {
            Some(exit) => exit,
            None => {
                let code = self.stable_code();
                if code == StableErrorCode::CliInvalidArguments || code
                    == StableErrorCode::CliInvalidTarget {
                    129
                } else {
                    128
                }
            },
        }
    }

    pub fn message(&self) -> (r: &str)
        ensures
            r@ == self@.message,
    {
        self.message.as_str()
    }

    pub fn hints(&self) -> (r: &Vec<String>)
        ensures
            texts(r@) == self@.hints,
    {
        &self.hints
    }

    /// The value of the last detail under `key`.
    pub fn detail(&self, key: &str) -> (r: Option<String>)
        ensures
            opt_text(r) == last_detail(self@.details, key@),
    {
        let mut i: usize = self.details.len();
        let ghost all = self@.details;
        assert(all.take(i as int) =~= all);
        while i > 0
            invariant
                i <= self.details@.len(),
                all == detail_views(self.details@),
                last_detail(all, key@) == last_detail(all.take(i as int), key@),
            decreases i,
        {
            proof {
                assert(all.take(i as int).last() == all[i - 1]);
                assert(all.take(i as int).drop_last() =~= all.take(i - 1));
                assert(all[i - 1] == (self.details@[i - 1].key@, self.details@[i - 1].value@));
            }
            if text_eq(self.details[i - 1].key.as_str(), key) {
                return Some(self.details[i - 1].value.clone());
            }
            i = i - 1;
        }
        None
    }
}

/// The value of the last pair under `key`.
pub open spec fn last_detail(details: Seq<(Seq<char>, Seq<char>)>, key: Seq<char>) -> Option<Seq<char>>
    decreases details.len(),
{
    if details.len() == 0 {
        None
    } else if details.last().0 == key {
        Some(details.last().1)
    } else {
        last_detail(details.drop_last(), key)
    }
}

/// An error says what it was made with: its kind and its message stay, what is set is set, a hint
/// follows those before it, or comes first where it has priority, and a detail follows those before it.
pub proof fn law_errors_keep_what_they_say(
    message: Seq<char>,
    e: ErrorView,
    code: StableErrorCode,
    text: Seq<char>,
    key: Seq<char>,
    exit: i32,
)
    ensures
        ErrorView::fatal(message).kind == CliErrorKind::Fatal,
        ErrorView::failure(message).kind == CliErrorKind::Failure,
        ErrorView::usage(message).kind == CliErrorKind::CommandUsage,
        ErrorView::fatal(message).message == message && ErrorView::failure(message).message == message
            && ErrorView::usage(message).message == message,
        ErrorView::fatal(message).code is None && ErrorView::fatal(message).hints.len() == 0
            && ErrorView::fatal(message).details.len() == 0 && ErrorView::fatal(message).exit is None,
        e.coded(code) == (ErrorView { code: Some(code), ..e }),
        e.hint(text) == (ErrorView { hints: e.hints.push(text), ..e }),
        e.first_hint(text) == (ErrorView { hints: seq![text] + e.hints, ..e }),
        e.detail(key, text) == (ErrorView { details: e.details.push((key, text)), ..e }),
        e.exits(exit) == (ErrorView { exit: Some(exit), ..e }),
{
}

/// A wrong use of the command ends it with another status than anything else, unless a status was set.
pub proof fn law_exit_status(e: ErrorView, exit: i32)
    ensures
        e.exits(exit).exit_code() == exit,
        e.exit is None && (e.code == Some(StableErrorCode::CliInvalidArguments) || e.code == Some(
            StableErrorCode::CliInvalidTarget,
        )) ==> e.exit_code() == 129,
        e.exit is None && e.code is None && e.kind == CliErrorKind::CommandUsage ==> e.exit_code() == 129,
        e.exit is None && e.code is None && e.kind != CliErrorKind::CommandUsage ==> e.exit_code() == 128,
        e.exit is None ==> (e.code matches Some(c) ==> (c != StableErrorCode::CliInvalidArguments && c
            != StableErrorCode::CliInvalidTarget ==> e.exit_code() == 128)),
        e.code matches Some(c) ==> e.stable_code() == c,
        e.code is None && e.kind == CliErrorKind::CommandUsage ==> e.stable_code()
            == StableErrorCode::CliInvalidArguments,
        e.code is None && e.kind != CliErrorKind::CommandUsage ==> e.stable_code()
            == StableErrorCode::InternalInvariant,
{
}

/// A detail is read back as it was last given, and others do not change it.
pub proof fn law_detail_is_read_back(
    details: Seq<(Seq<char>, Seq<char>)>,
    key: Seq<char>,
    value: Seq<char>,
    other: Seq<char>,
)
    ensures
        last_detail(Seq::empty(), key) is None,
        last_detail(details.push((key, value)), key) == Some(value),
        other != key ==> last_detail(details.push((key, value)), other) == last_detail(details, other),
{
    assert(details.push((key, value)).drop_last() =~= details);
}

/// The codes that have a number are told by it.
pub proof fn law_codes_are_told()
    ensures
        code_text(StableErrorCode::AuthMissingCredentials) == "LBR-AUTH-001"@,
        code_text(StableErrorCode::CliInvalidArguments) == "LBR-CLI-002"@,
        code_text(StableErrorCode::InternalInvariant) == "LBR-INTERNAL-001"@,
        code_text(StableErrorCode::IoReadFailed) == "LBR-IO-001"@,
        code_text(StableErrorCode::IoWriteFailed) == "LBR-IO-002"@,
        code_text(StableErrorCode::RepoCorrupt) == "LBR-REPO-002"@,
        code_text(StableErrorCode::RepoStateInvalid) == "LBR-REPO-003"@,
{
}

} // verus!
