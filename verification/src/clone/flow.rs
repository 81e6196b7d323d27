//! The decisions of a clone: where it goes, what it refuses, what it sets up and reports.

use vstd::prelude::*;

use crate::branch::BranchStoreError;
use crate::clone::errors::{clone_error_view, CloneError};
use crate::clone::restore::{
    branch_of, cloud_checkout_branch_name, cloud_object_format, has_long_name, indexed_id,
    is_index_fault, object_hash_from_cloud_index, CloudPublishRestorePlan,
};
use crate::clone::source::{CloudPublishSource, SourceView};
use crate::error::CliError;
use crate::object::{HashKind, ObjectId};
use crate::paths::{has_file_name, path_components, tree_item_name};
use crate::text::{
    chars_of, clone_opt_text, clone_texts, concat2, concat3, concat4, concat5, decimal, ends_with,
    has_prefix, has_suffix, join, join_seq, law_decimal_text, opt_text, starts_with, strip_prefix,
    text_eq, texts, trim, trim_seq, usize_text,
};

verus! {

/// What `clone` was asked to do.
#[derive(Debug, Clone)]
pub struct CloneArgs {
    /// The remote repository location to clone from
    pub remote_repo: String,
    /// The local path to clone to
    pub local_path: Option<String>,
    /// Checkout this branch instead of the remote's HEAD
    pub branch: Option<String>,
    /// Clone only one branch
    pub single_branch: bool,
    /// Create a bare repository
    pub bare: bool,
    /// Truncate the history to so many commits
    pub depth: Option<usize>,
}

/// What a clone reports.
#[derive(Debug, Clone)]
pub struct CloneOutput {
    /// Repository absolute path
    pub path: String,
    pub bare: bool,
    /// Normalized remote URL
    pub remote_url: String,
    /// Checked-out branch; `None` for empty remotes
    pub branch: Option<String>,
    /// `sha1` or `sha256`
    pub object_format: String,
    pub repo_id: String,
    pub vault_signing: bool,
    pub ssh_key_detected: Option<String>,
    /// Whether the history was truncated
    pub shallow: bool,
    /// Non-fatal warnings
    pub warnings: Vec<String>,
    /// Ignore files that were converted; empty for bare clones
    pub gitignore_converted: Vec<String>,
    /// Kind of source, for sources that are no Git remotes
    pub source_kind: Option<String>,
    /// The published site that was restored
    pub cloud_site: Option<CloudCloneSiteOutput>,
}

/// What a clone reports of a published site.
#[derive(Debug, Clone)]
pub struct CloudCloneSiteOutput {
    pub clone_domain: String,
    pub site_id: String,
    pub slug: String,
    pub repo_id: String,
    pub ref_name: Option<String>,
    pub revision: String,
}

/// Whether a source is restored from the cloud: such a source is no Git transport.
pub fn is_cloud_source(remote_repo: &str) -> (r: bool)
    ensures
        r == has_prefix(remote_repo@, "libra+cloud://"@),
{
    starts_with(remote_repo, "libra+cloud://")
}

/// One of the entries that a repository has.
pub open spec fn is_marker(name: Seq<char>) -> bool {
    name == "description"@ || name == "libra.db"@ || name == "info/exclude"@ || name == "objects"@
}

/// Whether a directory with those entries is a repository already.
pub fn contains_initialized_repo(entries: &Vec<String>) -> (r: bool)
    ensures
        r == exists|i: int| 0 <= i < entries@.len() && is_marker((#[trigger] entries@[i])@),
{
    let mut i: usize = 0;
    while i < entries.len()
        invariant
            i <= entries@.len(),
            forall|k: int| 0 <= k < i ==> !is_marker((#[trigger] entries@[k])@),
        decreases entries@.len() - i,
    {
        let name = entries[i].as_str();
        if text_eq(name, "description") || text_eq(name, "libra.db") || text_eq(
            name,
            "info/exclude",
        ) || text_eq(name, "objects") {
            assert(is_marker(entries@[i as int]@));
            return true;
        }
        i = i + 1;
    }
    false
}

pub open spec fn is_digit(c: char) -> bool {
    '0' <= c <= '9'
}

/// The number that decimal digits write.
pub open spec fn digits_value(s: Seq<char>) -> nat
    decreases s.len(),
{
    if s.len() == 0 {
        0
    } else {
        digits_value(s.drop_last()) * 10 + (s.last() as nat - '0' as nat) as nat
    }
}

/// What follows a plus sign, or all of `s`.
pub open spec fn without_plus(s: Seq<char>) -> Seq<char> {
    if s.len() > 0 && s[0] == '+' {
        s.skip(1)
    } else {
        s
    }
}

pub open spec fn all_digits(s: Seq<char>) -> bool {
    s.len() > 0 && forall|i: int| 0 <= i < s.len() ==> is_digit(#[trigger] s[i])
}

/// A number that is written as decimal digits, with a plus sign before them or not.
pub open spec fn number_text(s: Seq<char>) -> Option<nat> {
    if all_digits(without_plus(s)) {
        Some(digits_value(without_plus(s)))
    } else {
        None
    }
}

/// Read a number.
pub fn parse_usize(s: &str) -> (r: Option<usize>)
    ensures
        match (r, number_text(s@)) {
            (Some(n), Some(want)) => n == want,
            (None, Some(want)) => want > usize::MAX,
            (None, None) => true,
            _ => false,
        },
{
    let cs = chars_of(s);
    let n: usize = cs.len();
    let from: usize = if n > 0 && cs[0] == '+' {
        1
    } else {
        0
    };
    let ghost digits = without_plus(s@);
    assert(digits.len() == n - from);
    assert forall|k: int| 0 <= k < digits.len() implies digits[k] == s@[k + from] by {}
    if from == n {
        return None;
    }
    let mut value: usize = 0;
    let mut over = false;
    let mut i: usize = from;
    assert(digits.take(0) =~= Seq::<char>::empty());
    while i < n
        invariant
            n == cs@.len(),
            cs@ == s@,
            from <= i <= n,
            from < n,
            digits == without_plus(s@),
            digits.len() == n - from,
            forall|k: int| 0 <= k < digits.len() ==> digits[k] == s@[k + from],
            forall|k: int| 0 <= k < i - from ==> is_digit(#[trigger] digits[k]),
            !over ==> value == digits_value(digits.take(i - from)),
            over ==> digits_value(digits.take(i - from)) > usize::MAX,
        decreases n - i,
    {
        let c = cs[i];
        proof {
            let k = i - from;
            assert(digits[k] == c);
            assert(digits.take(k + 1).drop_last() =~= digits.take(k));
            assert(digits.take(k + 1).last() == c);
        }
        if !('0' <= c && c <= '9') {
            assert(!is_digit(digits[i - from]));
            assert(!all_digits(digits));
            return None;
        }
        let d: usize = c as usize - '0' as usize;
        if !over {
            match value.checked_mul(10) {
                Some(ten) => match ten.checked_add(d) {
                    Some(v) => {
                        value = v;
                    },
                    None => {
                        over = true;
                    },
                },
                None => {
                    over = true;
                },
            }
        }
        i = i + 1;
    }
    assert(digits.take(digits.len() as int) =~= digits);
    if over {
        None
    } else {
        Some(value)
    }
}

/// A depth is a number from 1 up.
pub fn validate_depth(s: &str) -> (r: Result<usize, String>)
    ensures
        match (r, number_text(s@)) {
            (Ok(n), Some(want)) => n == want && want >= 1,
            (Err(e), Some(want)) => (want == 0 && e@ == "DEPTH must be greater than or equal to 1"@)
                || (want > usize::MAX && e@ == "DEPTH must be a valid integer"@),
            (Err(e), None) => e@ == "DEPTH must be a valid integer"@,
            (Ok(_), None) => false,
        },
{
    match parse_usize(s) {
        Some(n) => {
            if n >= 1 {
                Ok(n)
            } else {
                Err("DEPTH must be greater than or equal to 1".to_owned())
            }
        },
        None => Err("DEPTH must be a valid integer".to_owned()),
    }
}

/// The error tells that an option has no place with cloud sources.
pub open spec fn is_unsupported(e: CloneError, name: Seq<char>) -> bool {
    e matches CloneError::UnsupportedCloudCloneOption { option, reason, hint } && option@ == name
        && if name == "--branch"@ {
        reason@ == "cloud source refs are selected in the source URL, not with Git branch flags"@ && hint@
            == "use `?ref=<branch|tag|full-ref>` on the libra+cloud:// URL instead of `--branch`."@
    } else if name == "--depth"@ {
        reason@ == "Cloudflare restore must download the complete published object set"@ && hint@
            == "`--depth` is only supported for Git remotes; omit it for libra+cloud:// sources."@
    } else if name == "--single-branch"@ {
        reason@ == "Cloudflare restore must preserve all published refs in the local repository"@
            && hint@
            == "`--single-branch` is only supported for Git remotes; use `?ref=<branch|tag|full-ref>` to select the checkout target."@
    } else {
        reason@ == "Cloudflare restore currently targets a non-bare working repository"@ && hint@
            == "`--bare` is only supported for Git remotes until libra+cloud:// restore grows bare-repository support."@
    }
}

/// The first option that has no place with cloud sources.
pub open spec fn unsupported_option(args: CloneArgs) -> Option<Seq<char>> {
    if args.branch is Some {
        Some("--branch"@)
    } else if args.depth is Some {
        Some("--depth"@)
    } else if args.single_branch {
        Some("--single-branch"@)
    } else if args.bare {
        Some("--bare"@)
    } else {
        None
    }
}

pub fn validate_cloud_clone_option_compatibility(args: &CloneArgs) -> (r: Result<(), CloneError>)
    ensures
        match (r, unsupported_option(*args)) {
            (Ok(_), None) => true,
            (Err(e), Some(name)) => is_unsupported(e, name),
            _ => false,
        },
{
    proof {
        reveal_strlit("--branch");
        reveal_strlit("--depth");
        reveal_strlit("--single-branch");
        reveal_strlit("--bare");
        assert("--depth"@.len() == 7 && "--branch"@.len() == 8 && "--single-branch"@.len() == 15
            && "--bare"@.len() == 6);
    }
    if args.branch.is_some() {
        return Err(
            CloneError::UnsupportedCloudCloneOption {
                option: "--branch",
                reason: "cloud source refs are selected in the source URL, not with Git branch flags",
                hint: "use `?ref=<branch|tag|full-ref>` on the libra+cloud:// URL instead of `--branch`.",
            },
        );
    }
    if args.depth.is_some() {
        return Err(
            CloneError::UnsupportedCloudCloneOption {
                option: "--depth",
                reason: "Cloudflare restore must download the complete published object set",
                hint: "`--depth` is only supported for Git remotes; omit it for libra+cloud:// sources.",
            },
        );
    }
    if args.single_branch {
        return Err(
            CloneError::UnsupportedCloudCloneOption {
                option: "--single-branch",
                reason: "Cloudflare restore must preserve all published refs in the local repository",
                hint: "`--single-branch` is only supported for Git remotes; use `?ref=<branch|tag|full-ref>` to select the checkout target.",
            },
        );
    }
    if args.bare {
        return Err(
            CloneError::UnsupportedCloudCloneOption {
                option: "--bare",
                reason: "Cloudflare restore currently targets a non-bare working repository",
                hint: "`--bare` is only supported for Git remotes until libra+cloud:// restore grows bare-repository support.",
            },
        );
    }
    Ok(())
}

/// A path below a directory; an absolute path stands for itself.
pub open spec fn joined(dir: Seq<char>, path: Seq<char>) -> Seq<char> {
    if has_prefix(path, "/"@) {
        path
    } else if dir.len() == 0 || has_suffix(dir, "/"@) {
        dir + path
    } else {
        dir + "/"@ + path
    }
}

pub fn join_path(dir: &str, path: &str) -> (r: String)
    ensures
        r@ == joined(dir@, path@),
{
    if starts_with(path, "/") {
        path.to_owned()
    } else if dir.unicode_len() == 0 || ends_with(dir, "/") {
        concat2(dir, path)
    } else {
        concat3(dir, "/", path)
    }
}

/// The remote with a slash at its end.
pub fn remote_with_slash(remote_repo: &str) -> (r: String)
    ensures
        r@ == if has_suffix(remote_repo@, "/"@) {
            remote_repo@
        } else {
            remote_repo@ + "/"@
        },
{
    if ends_with(remote_repo, "/") {
        remote_repo.to_owned()
    } else {
        concat2(remote_repo, "/")
    }
}

/// Where a clone goes: the path that was given, else a directory named after the repository.
pub fn clone_local_path(args: &CloneArgs, original_dir: &str, repo_name: &Option<String>) -> (r: Result<
    String,
    CloneError,
>)
    ensures
        match args.local_path {
            Some(path) => r matches Ok(p) && p@ == joined(original_dir@, path@),
            None => match *repo_name {
                Some(name) => r matches Ok(p) && p@ == joined(
                    original_dir@,
                    joined(original_dir@, name@),
                ),
                None => r matches Err(CloneError::CannotInferDestination),
            },
        },
{
    match &args.local_path {
        Some(path) => Ok(join_path(original_dir, path.as_str())),
        None => match repo_name {
            Some(name) => {
                let path = join_path(original_dir, name.as_str());
                Ok(join_path(original_dir, path.as_str()))
            },
            None => Err(CloneError::CannotInferDestination),
        },
    }
}

/// Where a cloud clone goes: the path that was given, else a directory named after the slug.
pub fn resolve_cloud_clone_local_path(args: &CloneArgs, original_dir: &str, slug: &str) -> (r: String)
    ensures
        r@ == joined(
            original_dir@,
            match args.local_path {
                Some(path) => path@,
                None => slug@,
            },
        ),
{
    match &args.local_path {
        Some(path) => join_path(original_dir, path.as_str()),
        None => join_path(original_dir, slug),
    }
}

/// Where the repository itself stands: in a bare clone the destination, else `.libra` in it.
pub fn metadata_root(bare: bool, local_path: &str) -> (r: String)
    ensures
        r@ == if bare {
            local_path@
        } else {
            joined(local_path@, ".libra"@)
        },
{
    if bare {
        local_path.to_owned()
    } else {
        join_path(local_path, ".libra")
    }
}

/// What stands at the destination.
#[derive(Debug, Clone, Copy, PartialEq, Eq, Structural)]
pub struct Destination {
    /// There is a repository
    pub has_repo: bool,
    pub exists: bool,
    /// It is a directory without entries
    pub empty: bool,
}

/// Whether the destination can be used. `Ok(true)`: it has to be created.
pub fn check_destination(local_path: &str, at: Destination) -> (r: Result<bool, CloneError>)
    ensures
        match r {
            Ok(create) => !at.has_repo && (at.exists ==> at.empty) && create == !at.exists,
            Err(CloneError::DestinationAlreadyRepo { path }) => at.has_repo && path@ == local_path@,
            Err(CloneError::DestinationExistsNonEmpty { path }) => !at.has_repo && at.exists
                && !at.empty && path@ == local_path@,
            Err(_) => false,
        },
{
    if at.has_repo {
        return Err(CloneError::DestinationAlreadyRepo { path: local_path.to_owned() });
    }
    if at.exists && !at.empty {
        return Err(CloneError::DestinationExistsNonEmpty { path: local_path.to_owned() });
    }
    Ok(!at.exists)
}

/// The branch that was asked for must be among those of the remote.
pub fn check_remote_branch(args: &CloneArgs, found: bool) -> (r: Result<(), CloneError>)
    ensures
        match r {
            Ok(_) => args.branch is None || found,
            Err(e) => !found && args.branch is Some && (e matches CloneError::RemoteBranchNotFound {
                branch,
            } && branch@ == args.branch->0@),
        },
{
    match &args.branch {
        Some(branch) => {
            if found {
                Ok(())
            } else {
                Err(CloneError::RemoteBranchNotFound { branch: branch.clone() })
            }
        },
        None => Ok(()),
    }
}

/// How a failed clone is cleaned up: what it created is removed, what was there is emptied.
#[derive(Debug, Clone, Copy, PartialEq, Eq, Structural)]
pub enum Cleanup {
    RemoveDirectory,
    ClearContents,
}

pub fn cleanup_of(created_by_clone: bool) -> (r: Cleanup)
    ensures
        r == if created_by_clone {
            Cleanup::RemoveDirectory
        } else {
            Cleanup::ClearContents
        },
{
    if created_by_clone {
        Cleanup::RemoveDirectory
    } else {
        Cleanup::ClearContents
    }
}

/// What is told of a cleanup that failed.
pub fn cleanup_failed_clone(local_path: &str, outcome: &Result<(), String>) -> (r: Option<String>)
    ensures
        match (r, *outcome) {
            (None, Ok(_)) => true,
            (Some(w), Err(e)) => w@ == "warning: failed to clean up '"@ + local_path@ + "': "@ + e@,
            _ => false,
        },
{
    match outcome {
        Ok(_) => None,
        Err(e) => Some(
            concat4("warning: failed to clean up '", local_path, "': ", e.as_str()),
        ),
    }
}

/// The command error of a failed clone: a cleanup that failed too is told first.
pub fn clone_failure(error: &CloneError, cleanup_warning: &Option<String>) -> (r: CliError)
    ensures
        r@ == match *cleanup_warning {
            Some(w) => clone_error_view(*error).first_hint(w@),
            None => clone_error_view(*error),
        },
{
    let e = CliError::from_clone_error(error);
    match cleanup_warning {
        Some(w) => e.with_priority_hint(w.as_str()),
        None => e,
    }
}

/// A setting to store.
#[derive(Debug)]
pub struct Setting {
    pub key: String,
    pub value: String,
}

pub open spec fn setting_views(v: Seq<Setting>) -> Seq<(Seq<char>, Seq<char>)> {
    v.map_values(|s: Setting| (s.key@, s.value@))
}

fn push_setting(out: &mut Vec<Setting>, key: String, value: &str)
    ensures
        setting_views(final(out)@) == setting_views(old(out)@).push((key@, value@)),
{
    let ghost before = out@;
    let ghost k = key@;
    let s = Setting { key, value: value.to_owned() };
    out.push(s);
    assert(setting_views(out@) =~= setting_views(before).push((k, value@)));
}

/// What a clone sets up: the branch to check out, the remote-tracking ref that it starts from,
/// and the settings.
#[derive(Debug)]
pub struct SetupPlan {
    pub branch: Option<String>,
    pub tracking_ref: Option<String>,
    pub settings: Vec<Setting>,
}

/// The branch that was asked for, else the one that the remote's HEAD is on.
pub open spec fn setup_branch(specified: Option<String>, remote_head: Option<String>) -> Option<Seq<char>> {
    match specified {
        Some(b) => Some(b@),
        None => opt_text(remote_head),
    }
}

/// The settings of a clone: the branch follows its remote counterpart. Without a branch `main`
/// will.
pub open spec fn setup_settings(branch: Option<Seq<char>>, remote: Seq<char>, url: Seq<char>) -> Seq<
    (Seq<char>, Seq<char>),
> {
    match branch {
        Some(b) => seq![
            ("branch."@ + b + ".merge"@, "refs/heads/"@ + b),
            ("branch."@ + b + ".remote"@, remote),
            ("remote."@ + remote + ".url"@, url),
        ],
        None => seq![
            ("remote."@ + remote + ".url"@, url),
            ("branch.main.merge"@, "refs/heads/main"@),
            ("branch.main.remote"@, remote),
        ],
    }
}

/// Plan how the repository is set up after the fetch.
pub fn setup_repository(
    remote: &str,
    url: &str,
    specified: &Option<String>,
    remote_head: &Option<String>,
) -> (r: SetupPlan)
    ensures
        opt_text(r.branch) == setup_branch(*specified, *remote_head),
        opt_text(r.tracking_ref) == (match setup_branch(*specified, *remote_head) {
            Some(b) => Some("refs/remotes/"@ + remote@ + "/"@ + b),
            None => None,
        }),
        setting_views(r.settings@) == setup_settings(
            setup_branch(*specified, *remote_head),
            remote@,
            url@,
        ),
{
    let branch = match specified {
        Some(b) => Some(b.clone()),
        None => clone_opt_text(remote_head),
    };
    let mut settings: Vec<Setting> = Vec::new();
    assert(setting_views(settings@) =~= Seq::<(Seq<char>, Seq<char>)>::empty());
    let url_key = concat3("remote.", remote, ".url");
    let tracking_ref = match &branch {
        Some(b) => {
            let merge = concat2("refs/heads/", b.as_str());
            push_setting(&mut settings, concat3("branch.", b.as_str(), ".merge"), merge.as_str());
            push_setting(&mut settings, concat3("branch.", b.as_str(), ".remote"), remote);
            push_setting(&mut settings, url_key, url);
            Some(concat4("refs/remotes/", remote, "/", b.as_str()))
        },
        None => {
            push_setting(&mut settings, url_key, url);
            push_setting(&mut settings, "branch.main.merge".to_owned(), "refs/heads/main");
            push_setting(&mut settings, "branch.main.remote".to_owned(), remote);
            None
        },
    };
    assert(setting_views(settings@) =~= setup_settings(
        setup_branch(*specified, *remote_head),
        remote@,
        url@,
    ));
    SetupPlan { branch, tracking_ref, settings }
}

/// The commit that the branch starts from must have been fetched.
pub fn setup_start_commit(branch: &str, found: Result<Option<ObjectId>, BranchStoreError>) -> (r: Result<
    ObjectId,
    CloneError,
>)
    ensures
        match (r, found) {
            (Ok(id), Ok(Some(want))) => id == want,
            (Err(CloneError::RemoteBranchNotFound { branch: b }), Ok(None)) => b@ == branch@,
            (Err(CloneError::LocalBranchState { source }), Err(e)) => source == e,
            _ => false,
        },
{
    match found {
        Ok(Some(id)) => Ok(id),
        Ok(None) => Err(CloneError::RemoteBranchNotFound { branch: branch.to_owned() }),
        Err(source) => Err(CloneError::LocalBranchState { source }),
    }
}

/// The name of an object format.
pub fn object_format_name(kind: HashKind) -> (r: String)
    ensures
        r@ == match kind {
            HashKind::Sha1 => "sha1"@,
            HashKind::Sha256 => "sha256"@,
        },
{
    match kind {
        HashKind::Sha1 => "sha1".to_owned(),
        HashKind::Sha256 => "sha256".to_owned(),
    }
}

/// What setting up the repository reported.
#[derive(Debug, Clone)]
pub struct InitReport {
    pub repo_id: String,
    pub vault_signing: bool,
    pub ssh_key_detected: Option<String>,
    pub warnings: Vec<String>,
}

/// Which ignore files were converted.
#[derive(Debug, Clone)]
pub struct IgnoreReport {
    pub converted: Vec<String>,
    pub warnings: Vec<String>,
}

fn append_texts(out: &mut Vec<String>, more: &Vec<String>)
    ensures
        texts(final(out)@) == texts(old(out)@) + texts(more@),
{
    let ghost start = texts(out@);
    let ghost all = texts(more@);
    let mut i: usize = 0;
    assert(start + all.take(0) =~= start);
    while i < more.len()
        invariant
            i <= more@.len(),
            all == texts(more@),
            texts(out@) == start + all.take(i as int),
        decreases more@.len() - i,
    {
        let ghost before = texts(out@);
        let t = more[i].clone();
        let ghost tv = t@;
        let ghost o = out@;
        out.push(t);
        assert(texts(out@) =~= texts(o).push(tv));
        assert(all.take(i as int + 1) =~= all.take(i as int).push(tv));
        assert(before.push(tv) =~= start + all.take(i as int + 1));
        i = i + 1;
    }
    assert(all.take(all.len() as int) =~= all);
}

/// What cloning a Git remote reports: the warnings of each phase in turn, and last that the remote
/// was empty.
pub fn clone_output(
    args: &CloneArgs,
    local_path: &str,
    remote_url: &str,
    branch: &Option<String>,
    kind: HashKind,
    init: &InitReport,
    ignores: &IgnoreReport,
) -> (r: CloneOutput)
    ensures
        r.path@ == local_path@,
        r.bare == args.bare,
        r.remote_url@ == remote_url@,
        opt_text(r.branch) == opt_text(*branch),
        r.object_format@ == (match kind {
            HashKind::Sha1 => "sha1"@,
            HashKind::Sha256 => "sha256"@,
        }),
        r.repo_id@ == init.repo_id@,
        r.vault_signing == init.vault_signing,
        opt_text(r.ssh_key_detected) == opt_text(init.ssh_key_detected),
        r.shallow == (args.depth is Some),
        texts(r.warnings@) == texts(init.warnings@) + (if args.bare {
            Seq::<Seq<char>>::empty()
        } else {
            texts(ignores.warnings@)
        }) + (if branch is None {
            seq!["You appear to have cloned an empty repository."@]
        } else {
            Seq::<Seq<char>>::empty()
        }),
        texts(r.gitignore_converted@) == (if args.bare {
            Seq::<Seq<char>>::empty()
        } else {
            texts(ignores.converted@)
        }),
        r.source_kind is None,
        r.cloud_site is None,
{
    let mut warnings = clone_texts(&init.warnings);
    let mut converted: Vec<String> = Vec::new();
    assert(texts(converted@) =~= Seq::<Seq<char>>::empty());
    if !args.bare {
        append_texts(&mut warnings, &ignores.warnings);
        append_texts(&mut converted, &ignores.converted);
        assert(texts(converted@) =~= texts(ignores.converted@));
    }
    let ghost so_far = texts(warnings@);
    let ghost w = warnings@;
    if branch.is_none() {
        warnings.push("You appear to have cloned an empty repository.".to_owned());
        assert(texts(warnings@) =~= texts(w).push(
            "You appear to have cloned an empty repository."@,
        ));
    }
    let out = CloneOutput {
        path: local_path.to_owned(),
        bare: args.bare,
        remote_url: remote_url.to_owned(),
        branch: clone_opt_text(branch),
        object_format: object_format_name(kind),
        repo_id: init.repo_id.clone(),
        vault_signing: init.vault_signing,
        ssh_key_detected: clone_opt_text(&init.ssh_key_detected),
        shallow: args.depth.is_some(),
        warnings,
        gitignore_converted: converted,
        source_kind: None,
        cloud_site: None,
    };
    assert(texts(out.warnings@) =~= texts(init.warnings@) + (if args.bare {
        Seq::<Seq<char>>::empty()
    } else {
        texts(ignores.warnings@)
    }) + (if branch is None {
        seq!["You appear to have cloned an empty repository."@]
    } else {
        Seq::<Seq<char>>::empty()
    }));
    out
}

/// What restoring a published site reports.
pub fn cloud_clone_output(
    args: &CloneArgs,
    source: &CloudPublishSource,
    plan: &CloudPublishRestorePlan,
    local_path: &str,
    init: &InitReport,
    object_warnings: &Vec<String>,
    ignores: &IgnoreReport,
) -> (r: CloneOutput)
    ensures
        r.path@ == local_path@,
        !r.bare,
        r.remote_url@ == args.remote_repo@,
        opt_text(r.branch) == branch_of(opt_text(plan.checkout.ref_name)),
        r.object_format@ == (if has_long_name(plan.object_indexes@) {
            "sha256"@
        } else {
            "sha1"@
        }),
        r.repo_id@ == init.repo_id@,
        r.vault_signing == init.vault_signing,
        opt_text(r.ssh_key_detected) == opt_text(init.ssh_key_detected),
        !r.shallow,
        texts(r.warnings@) == texts(init.warnings@) + texts(object_warnings@) + texts(
            ignores.warnings@,
        ),
        texts(r.gitignore_converted@) == texts(ignores.converted@),
        opt_text(r.source_kind) == Some("cloudflare"@),
        r.cloud_site matches Some(site) && site.clone_domain@ == source.clone_domain@ && site.site_id@
            == plan.site.site_id@ && site.slug@ == plan.site.slug@ && site.repo_id@
            == plan.site.repo_id@ && opt_text(site.ref_name) == opt_text(plan.checkout.ref_name)
            && site.revision@ == plan.checkout.revision_oid@,
{
    let mut warnings = clone_texts(&init.warnings);
    append_texts(&mut warnings, object_warnings);
    append_texts(&mut warnings, &ignores.warnings);
    CloneOutput {
        path: local_path.to_owned(),
        bare: false,
        remote_url: args.remote_repo.clone(),
        branch: cloud_checkout_branch_name(&plan.checkout),
        object_format: cloud_object_format(&plan.object_indexes),
        repo_id: init.repo_id.clone(),
        vault_signing: init.vault_signing,
        ssh_key_detected: clone_opt_text(&init.ssh_key_detected),
        shallow: false,
        warnings,
        gitignore_converted: clone_texts(&ignores.converted),
        source_kind: Some("cloudflare".to_owned()),
        cloud_site: Some(
            CloudCloneSiteOutput {
                clone_domain: source.clone_domain.clone(),
                site_id: plan.site.site_id.clone(),
                slug: plan.site.slug.clone(),
                repo_id: plan.site.repo_id.clone(),
                ref_name: clone_opt_text(&plan.checkout.ref_name),
                revision: plan.checkout.revision_oid.clone(),
            },
        ),
    }
}

/// A path with the home directory written as `~`.
pub open spec fn home_relative(path: Seq<char>, home: Option<Seq<char>>) -> Seq<char> {
    match home {
        Some(h) => if has_prefix(path, h) {
            "~"@ + path.skip(h.len() as int)
        } else {
            path
        },
        None => path,
    }
}

pub fn display_home_relative(path: &str, home: &Option<String>) -> (r: String)
    ensures
        r@ == home_relative(path@, opt_text(*home)),
{
    match home {
        Some(h) => match strip_prefix(path, h.as_str()) {
            Some(rest) => concat2("~", rest.as_str()),
            None => path.to_owned(),
        },
        None => path.to_owned(),
    }
}

/// The line that says where the clone went: for a bare one its path, else the last name of it.
pub open spec fn cloned_into(out: CloneOutput) -> Seq<char> {
    if out.bare {
        "Cloned into bare repository '"@ + out.path@ + "'"@
    } else {
        "Cloned into '"@ + (if has_file_name(out.path@) {
            path_components(out.path@).last()
        } else {
            out.path@
        }) + "'"@
    }
}

/// The lines that a clone prints.
pub open spec fn clone_lines(out: CloneOutput, home: Option<Seq<char>>) -> Seq<Seq<char>> {
    let none = Seq::<Seq<char>>::empty();
    seq![cloned_into(out), "  remote: origin → "@ + out.remote_url@] + (match out.branch {
        Some(b) => seq!["  branch: "@ + b@],
        None => none,
    }) + seq![
        "  signing: "@ + (if out.vault_signing {
            "enabled"@
        } else {
            "disabled"@
        }),
    ] + (match out.ssh_key_detected {
        Some(key) => seq![
            ""@,
            "Tip: using existing SSH key at "@ + home_relative(key@, home),
        ],
        None => none,
    }) + (if out.gitignore_converted@.len() > 0 {
        seq![
            ""@,
            "Tip: "@ + decimal(out.gitignore_converted@.len()) + " .gitignore file"@ + (if out.gitignore_converted@.len()
                == 1 {
                ""@
            } else {
                "s"@
            })
                + " converted to .libraignore — run 'libra add .libraignore' (or 'libra add -A') to track them, then 'libra commit' to record the change."@,
        ]
    } else {
        none
    })
}

pub open spec fn warning_lines(warnings: Seq<String>) -> Seq<Seq<char>> {
    warnings.map_values(|w: String| "warning: "@ + w@)
}

/// What a clone prints, and what it prints as warnings.
#[derive(Debug)]
pub struct CloneReport {
    pub lines: Vec<String>,
    pub warnings: Vec<String>,
}

fn push_line(out: &mut Vec<String>, line: String)
    ensures
        texts(final(out)@) == texts(old(out)@).push(line@),
{
    let ghost before = out@;
    let ghost t = line@;
    out.push(line);
    assert(texts(out@) =~= texts(before).push(t));
}

/// The lines of a clone; none where it is to be quiet.
pub fn render_clone_result(result: &CloneOutput, quiet: bool, home: &Option<String>) -> (r: CloneReport)
    ensures
        texts(r.lines@) == if quiet {
            Seq::<Seq<char>>::empty()
        } else {
            clone_lines(*result, opt_text(*home))
        },
        texts(r.warnings@) == if quiet {
            Seq::<Seq<char>>::empty()
        } else {
            warning_lines(result.warnings@)
        },
{
    let mut lines: Vec<String> = Vec::new();
    let mut warnings: Vec<String> = Vec::new();
    assert(texts(lines@) =~= Seq::<Seq<char>>::empty());
    assert(texts(warnings@) =~= Seq::<Seq<char>>::empty());
    if quiet {
        return CloneReport { lines, warnings };
    }
    if result.bare {
        push_line(&mut lines, concat3("Cloned into bare repository '", result.path.as_str(), "'"));
    } else {
        let shown = match tree_item_name(result.path.as_str()) {
            Ok(name) => name,
            Err(_) => result.path.clone(),
        };
        push_line(&mut lines, concat3("Cloned into '", shown.as_str(), "'"));
    }
    push_line(&mut lines, concat2("  remote: origin → ", result.remote_url.as_str()));
    if let Some(b) = &result.branch {
        push_line(&mut lines, concat2("  branch: ", b.as_str()));
    }
    push_line(
        &mut lines,
        concat2(
            "  signing: ",
            if result.vault_signing {
                "enabled"
            } else {
                "disabled"
            },
        ),
    );
    if let Some(key) = &result.ssh_key_detected {
        push_line(&mut lines, "".to_owned());
        let shown = display_home_relative(key.as_str(), home);
        push_line(&mut lines, concat2("Tip: using existing SSH key at ", shown.as_str()));
    }
    if !result.gitignore_converted.is_empty() {
        push_line(&mut lines, "".to_owned());
        let n = usize_text(result.gitignore_converted.len());
        let plural = if result.gitignore_converted.len() == 1 {
            ""
        } else {
            "s"
        };
        push_line(
            &mut lines,
            concat5(
                "Tip: ",
                n.as_str(),
                " .gitignore file",
                plural,
                " converted to .libraignore — run 'libra add .libraignore' (or 'libra add -A') to track them, then 'libra commit' to record the change.",
            ),
        );
    }
    assert(texts(lines@) =~= clone_lines(*result, opt_text(*home)));
    let ghost all = warning_lines(result.warnings@);
    let mut i: usize = 0;
    assert(texts(warnings@) =~= all.take(0));
    while i < result.warnings.len()
        invariant
            i <= result.warnings@.len(),
            all == warning_lines(result.warnings@),
            texts(warnings@) == all.take(i as int),
        decreases result.warnings@.len() - i,
    {
        push_line(&mut warnings, concat2("warning: ", result.warnings[i].as_str()));
        assert(all.take(i as int + 1) =~= all.take(i as int).push(all[i as int]));
        i = i + 1;
    }
    assert(all.take(all.len() as int) =~= all);
    CloneReport { lines, warnings }
}

/// How to reach the services of a clone domain.
#[derive(Debug)]
pub struct CloudCloneDomainConfig {
    pub account_id: String,
    pub api_token: String,
    pub d1_database_id: String,
    pub r2_bucket: String,
    pub credential_profile: Option<String>,
}

/// What the configuration says of a clone domain: each value, or why it could not be read.
#[derive(Debug)]
pub struct DomainValues {
    pub account_id: Result<Option<String>, String>,
    pub d1_database_id: Result<Option<String>, String>,
    pub r2_bucket: Result<Option<String>, String>,
    pub credential_profile: Result<Option<String>, String>,
    pub api_token: Result<Option<String>, String>,
}

pub open spec fn domain_key(domain: Seq<char>, suffix: Seq<char>) -> Seq<char> {
    "cloud.clone_domains."@ + domain + "."@ + suffix
}

/// The first of the values that could not be read, and why.
pub open spec fn read_fault(values: Seq<Result<Option<String>, String>>) -> Option<Seq<char>>
    decreases values.len(),
{
    if values.len() == 0 {
        None
    } else {
        match values[0] {
            Err(e) => Some(e@),
            Ok(_) => read_fault(values.drop_first()),
        }
    }
}

/// The keys of the values that are not there.
pub open spec fn missing_keys(v: DomainValues, domain: Seq<char>) -> Seq<Seq<char>> {
    let none = Seq::<Seq<char>>::empty();
    (if v.account_id matches Ok(None) {
        seq![domain_key(domain, "account_id"@)]
    } else {
        none
    }) + (if v.d1_database_id matches Ok(None) {
        seq![domain_key(domain, "d1_database_id"@)]
    } else {
        none
    }) + (if v.r2_bucket matches Ok(None) {
        seq![domain_key(domain, "r2_bucket"@)]
    } else {
        none
    })
}

/// What is wrong with the configuration of a clone domain.
pub open spec fn is_domain_fault(e: CloneError, v: DomainValues, name: Seq<char>) -> bool {
    match read_fault(seq![v.account_id, v.d1_database_id, v.r2_bucket]) {
        Some(why) => e matches CloneError::CloudCloneDomainConfigRead { domain, source } && domain@
            == name && source@ == why,
        None => if missing_keys(v, name).len() > 0 {
            e matches CloneError::CloudCloneDomainNotConfigured { domain, missing_keys: keys } && domain@
                == name && keys@ == join_seq(missing_keys(v, name), ", "@)
        } else {
            match read_fault(seq![v.credential_profile, v.api_token]) {
                Some(why) => e matches CloneError::CloudCloneDomainConfigRead { domain, source }
                    && domain@ == name && source@ == why,
                None => (v.api_token->Ok_0 matches Some(t) ==> t@.len() == 0) && (e matches CloneError::CloudCloneD1ApiTokenNotConfigured {
                    domain,
                } && domain@ == name),
            }
        },
    }
}

fn read_of(value: &Result<Option<String>, String>) -> (r: Option<String>)
    ensures
        opt_text(r) == (match *value {
            Err(e) => Some(e@),
            Ok(_) => None,
        }),
{
    match value {
        Err(e) => Some(e.clone()),
        Ok(_) => None,
    }
}

/// Collect the configuration of a clone domain. All missing keys are told at once; a token must
/// not be empty.
pub fn load_cloud_clone_domain_config(source: &CloudPublishSource, values: DomainValues) -> (r: Result<
    CloudCloneDomainConfig,
    CloneError,
>)
    ensures
        match r {
            Ok(c) => {
                &&& values.account_id matches Ok(Some(a)) && a@ == c.account_id@
                &&& values.d1_database_id matches Ok(Some(d)) && d@ == c.d1_database_id@
                &&& values.r2_bucket matches Ok(Some(b)) && b@ == c.r2_bucket@
                &&& values.credential_profile matches Ok(p) && opt_text(p) == opt_text(
                    c.credential_profile,
                )
                &&& values.api_token matches Ok(Some(t)) && t@ == c.api_token@ && t@.len() > 0
            },
            Err(e) => is_domain_fault(e, values, source.clone_domain@),
        },
{
    let domain = source.clone_domain.clone();
    proof {
        let first = seq![values.account_id, values.d1_database_id, values.r2_bucket];
        let second = seq![values.credential_profile, values.api_token];
        assert(first.drop_first() =~= seq![values.d1_database_id, values.r2_bucket]);
        assert(first.drop_first().drop_first() =~= seq![values.r2_bucket]);
        assert(first.drop_first().drop_first().drop_first() =~= Seq::empty());
        assert(second.drop_first() =~= seq![values.api_token]);
        assert(second.drop_first().drop_first() =~= Seq::empty());
        reveal_with_fuel(read_fault, 4);
    }
    if let Some(e) = read_of(&values.account_id) {
        return Err(CloneError::CloudCloneDomainConfigRead { domain, source: e });
    }
    if let Some(e) = read_of(&values.d1_database_id) {
        return Err(CloneError::CloudCloneDomainConfigRead { domain, source: e });
    }
    if let Some(e) = read_of(&values.r2_bucket) {
        return Err(CloneError::CloudCloneDomainConfigRead { domain, source: e });
    }
    let mut missing: Vec<String> = Vec::new();
    assert(texts(missing@) =~= Seq::<Seq<char>>::empty());
    if let Ok(None) = &values.account_id {
        push_line(
            &mut missing,
            concat4("cloud.clone_domains.", domain.as_str(), ".", "account_id"),
        );
    }
    if let Ok(None) = &values.d1_database_id {
        push_line(
            &mut missing,
            concat4("cloud.clone_domains.", domain.as_str(), ".", "d1_database_id"),
        );
    }
    if let Ok(None) = &values.r2_bucket {
        push_line(
            &mut missing,
            concat4("cloud.clone_domains.", domain.as_str(), ".", "r2_bucket"),
        );
    }
    assert(texts(missing@) =~= missing_keys(values, source.clone_domain@));
    assert(texts(missing@).len() == missing@.len());
    if !missing.is_empty() {
        return Err(
            CloneError::CloudCloneDomainNotConfigured { domain, missing_keys: join(&missing, ", ") },
        );
    }
    if let Some(e) = read_of(&values.credential_profile) {
        return Err(CloneError::CloudCloneDomainConfigRead { domain, source: e });
    }
    if let Some(e) = read_of(&values.api_token) {
        return Err(CloneError::CloudCloneDomainConfigRead { domain, source: e });
    }
    match (
        values.account_id,
        values.d1_database_id,
        values.r2_bucket,
        values.credential_profile,
        values.api_token,
    ) {
        (
            Ok(Some(account_id)),
            Ok(Some(d1_database_id)),
            Ok(Some(r2_bucket)),
            Ok(credential_profile),
            Ok(Some(api_token)),
        ) => {
            if api_token.as_str().is_empty() {
                Err(CloneError::CloudCloneD1ApiTokenNotConfigured { domain })
            } else {
                Ok(
                    CloudCloneDomainConfig {
                        account_id,
                        api_token,
                        d1_database_id,
                        r2_bucket,
                        credential_profile,
                    },
                )
            }
        },
        _ => Err(CloneError::CloudCloneD1ApiTokenNotConfigured { domain }),
    }
}

/// The base URL of the metadata service, where the environment names one that is not blank.
pub fn d1_base_url(env: &Option<String>) -> (r: Option<String>)
    ensures
        opt_text(r) == (match *env {
            Some(v) => if trim_seq(v@).len() > 0 {
                Some(v@)
            } else {
                None
            },
            None => None,
        }),
{
    match env {
        Some(v) => {
            let t = trim(v.as_str());
            if t.as_str().is_empty() {
                None
            } else {
                Some(v.clone())
            }
        },
        None => None,
    }
}

/// A setting of the object store, if there is one.
pub fn resolve_optional_cloud_clone_r2_env(
    source: &CloudPublishSource,
    value: Result<Option<String>, String>,
) -> (r: Result<Option<String>, CloneError>)
    ensures
        match (r, value) {
            (Ok(v), Ok(want)) => v == want,
            (Err(CloneError::CloudCloneR2ConfigRead { domain, source: s }), Err(e)) => domain@
                == source.clone_domain@ && s@ == e@,
            _ => false,
        },
{
    match value {
        Ok(v) => Ok(v),
        Err(e) => Err(
            CloneError::CloudCloneR2ConfigRead { domain: source.clone_domain.clone(), source: e },
        ),
    }
}

/// A setting of the object store that must be there and not be empty.
pub fn resolve_required_cloud_clone_r2_env(
    source: &CloudPublishSource,
    name: &str,
    value: Result<Option<String>, String>,
) -> (r: Result<String, CloneError>)
    ensures
        match value {
            Err(e) => r matches Err(CloneError::CloudCloneR2ConfigRead { domain, source: s }) && domain@
                == source.clone_domain@ && s@ == e@,
            Ok(v) => if v is Some && (v->0)@.len() > 0 {
                r matches Ok(t) && t@ == (v->0)@
            } else {
                r matches Err(CloneError::CloudCloneR2CredentialsNotConfigured { domain, missing_keys: keys })
                    && domain@ == source.clone_domain@ && keys@ == name@
            },
        },
{
    match resolve_optional_cloud_clone_r2_env(source, value) {
        Err(e) => Err(e),
        Ok(Some(v)) => {
            if v.as_str().is_empty() {
                Err(
                    CloneError::CloudCloneR2CredentialsNotConfigured {
                        domain: source.clone_domain.clone(),
                        missing_keys: name.to_owned(),
                    },
                )
            } else {
                Ok(v)
            }
        },
        Ok(None) => Err(
            CloneError::CloudCloneR2CredentialsNotConfigured {
                domain: source.clone_domain.clone(),
                missing_keys: name.to_owned(),
            },
        ),
    }
}

/// The region of the object store, `auto` unless one is set.
pub fn r2_region(value: Option<String>) -> (r: String)
    ensures
        r@ == match value {
            Some(v) => if v@.len() > 0 {
                v@
            } else {
                "auto"@
            },
            None => "auto"@,
        },
{
    match value {
        Some(v) => {
            if v.as_str().is_empty() {
                "auto".to_owned()
            } else {
                v
            }
        },
        None => "auto".to_owned(),
    }
}

/// Whose settings are read while there may be no repository yet.
#[derive(Debug, Clone, Copy, PartialEq, Eq, Structural)]
pub enum LocalIdentityTarget {
    CurrentRepo,
    NoRepo,
}

pub fn clone_config_local_target(in_repo: bool) -> (r: LocalIdentityTarget)
    ensures
        r == if in_repo {
            LocalIdentityTarget::CurrentRepo
        } else {
            LocalIdentityTarget::NoRepo
        },
{
    if in_repo {
        LocalIdentityTarget::CurrentRepo
    } else {
        LocalIdentityTarget::NoRepo
    }
}

/// What a cloud clone sets up: the commit to check out, the branch that HEAD is put on, if any,
/// and the settings.
#[derive(Debug)]
pub struct CloudCheckoutPlan {
    pub commit: ObjectId,
    pub branch: Option<String>,
    pub settings: Vec<Setting>,
}

/// The settings of a cloud clone.
pub open spec fn cloud_settings(
    source: SourceView,
    plan: CloudPublishRestorePlan,
    remote_url: Seq<char>,
) -> Seq<(Seq<char>, Seq<char>)> {
    (match branch_of(opt_text(plan.checkout.ref_name)) {
        Some(b) => seq![
            ("branch."@ + b + ".merge"@, "refs/heads/"@ + b),
            ("branch."@ + b + ".remote"@, "origin"@),
        ],
        None => Seq::empty(),
    }) + seq![
        ("remote.origin.url"@, remote_url),
        ("remote.origin.type"@, "libra+cloud"@),
        ("cloud.origin.clone_domain"@, source.clone_domain),
        ("cloud.origin.site_id"@, plan.site.site_id@),
        ("cloud.origin.repo_id"@, plan.site.repo_id@),
        ("cloud.origin.repository_name"@, plan.repository.name@),
        ("cloud.origin.slug"@, plan.site.slug@),
        ("cloud.origin.revision_status"@, plan.revision.status@),
        ("cloud.origin.revision_oid"@, plan.checkout.revision_oid@),
    ]
}

/// Plan the checkout of a restored site: a branch is checked out as such, anything else leaves
/// HEAD detached.
pub fn configure_cloud_publish_checkout(
    source: &CloudPublishSource,
    plan: &CloudPublishRestorePlan,
    remote_url: &str,
    kind: HashKind,
) -> (r: Result<CloudCheckoutPlan, CloneError>)
    ensures
        match (r, indexed_id(kind, plan.checkout.revision_oid@)) {
            (Ok(p), Ok(id)) => p.commit == id && opt_text(p.branch) == branch_of(
                opt_text(plan.checkout.ref_name),
            ) && setting_views(p.settings@) == cloud_settings(source@, *plan, remote_url@),
            (Err(e), Err(why)) => is_index_fault(
                e,
                source@,
                plan.site,
                plan.checkout.revision_oid@,
                why,
            ),
            _ => false,
        },
{
    let commit = match object_hash_from_cloud_index(
        source,
        &plan.site,
        plan.checkout.revision_oid.as_str(),
        kind,
    ) {
        Ok(id) => id,
        Err(e) => {
            return Err(e);
        },
    };
    let branch = cloud_checkout_branch_name(&plan.checkout);
    let mut settings: Vec<Setting> = Vec::new();
    assert(setting_views(settings@) =~= Seq::<(Seq<char>, Seq<char>)>::empty());
    if let Some(b) = &branch {
        let merge = concat2("refs/heads/", b.as_str());
        push_setting(&mut settings, concat3("branch.", b.as_str(), ".merge"), merge.as_str());
        push_setting(&mut settings, concat3("branch.", b.as_str(), ".remote"), "origin");
    }
    push_setting(&mut settings, "remote.origin.url".to_owned(), remote_url);
    push_setting(&mut settings, "remote.origin.type".to_owned(), "libra+cloud");
    push_setting(
        &mut settings,
        "cloud.origin.clone_domain".to_owned(),
        source.clone_domain.as_str(),
    );
    push_setting(&mut settings, "cloud.origin.site_id".to_owned(), plan.site.site_id.as_str());
    push_setting(&mut settings, "cloud.origin.repo_id".to_owned(), plan.site.repo_id.as_str());
    push_setting(
        &mut settings,
        "cloud.origin.repository_name".to_owned(),
        plan.repository.name.as_str(),
    );
    push_setting(&mut settings, "cloud.origin.slug".to_owned(), plan.site.slug.as_str());
    push_setting(
        &mut settings,
        "cloud.origin.revision_status".to_owned(),
        plan.revision.status.as_str(),
    );
    push_setting(
        &mut settings,
        "cloud.origin.revision_oid".to_owned(),
        plan.checkout.revision_oid.as_str(),
    );
    assert(setting_views(settings@) =~= cloud_settings(source@, *plan, remote_url@));
    Ok(CloudCheckoutPlan { commit, branch, settings })
}

/// The decimal text of a number is read back as that number.
pub proof fn law_number_is_read_back(n: nat)
    ensures
        number_text(decimal(n)) == Some(n),
        digits_value(decimal(n)) == n,
    decreases n,
{
    law_decimal_text(n, n);
    let s = decimal(n);
    assert(all_digits(s));
    assert(s[0] != '+');
    assert(digits_value(s) == digits_value(s.drop_last()) * 10 + n % 10);
    if n >= 10 {
        law_number_is_read_back(n / 10);
    } else {
        assert(s.drop_last() =~= Seq::<char>::empty());
    }
}

/// The branch that was asked for is the one that is set up, whatever the remote's own head says: the
/// remote's head counts only where no branch was asked for.
pub proof fn law_branch_asked_for_is_set_up(
    specified: Option<String>,
    remote_head: Option<String>,
    other_head: Option<String>,
    remote: Seq<char>,
    url: Seq<char>,
)
    ensures
        specified matches Some(b) ==> {
            let settings = setup_settings(setup_branch(specified, remote_head), remote, url);
            &&& setup_branch(specified, remote_head) == Some(b@)
            &&& setup_branch(specified, other_head) == setup_branch(specified, remote_head)
            &&& settings.contains(("branch."@ + b@ + ".merge"@, "refs/heads/"@ + b@))
            &&& settings.contains(("branch."@ + b@ + ".remote"@, remote))
            &&& settings.contains(("remote."@ + remote + ".url"@, url))
            &&& settings.len() == 3
        },
        specified is None ==> (remote_head matches Some(h) ==> {
            let settings = setup_settings(setup_branch(specified, remote_head), remote, url);
            &&& setup_branch(specified, remote_head) == Some(h@)
            &&& settings.contains(("branch."@ + h@ + ".merge"@, "refs/heads/"@ + h@))
            &&& settings.contains(("branch."@ + h@ + ".remote"@, remote))
            &&& settings.contains(("remote."@ + remote + ".url"@, url))
            &&& settings.len() == 3
        }),
        specified is None && remote_head is None ==> {
            let settings = setup_settings(setup_branch(specified, remote_head), remote, url);
            &&& setup_branch(specified, remote_head) is None
            &&& settings.contains(("branch.main.merge"@, "refs/heads/main"@))
            &&& settings.contains(("branch.main.remote"@, remote))
            &&& settings.contains(("remote."@ + remote + ".url"@, url))
            &&& settings.len() == 3
        },
{
    let settings = setup_settings(setup_branch(specified, remote_head), remote, url);
    assert(settings.len() == 3);
    assert(settings.contains(settings[0]));
    assert(settings.contains(settings[1]));
    assert(settings.contains(settings[2]));
}

/// A number is read digit by digit, with or without a plus before it; a text with anything else in it,
/// or with nothing in it, is no number.
pub proof fn law_number_digit_by_digit(s: Seq<char>, c: char)
    ensures
        s.len() > 0 && s[0] != '+' ==> number_text(seq!['+'] + s) == number_text(s),
        '0' <= c <= '9' ==> number_text(seq![c]) == Some((c as nat - '0' as nat) as nat),
        '0' <= c <= '9' ==> (number_text(s) matches Some(n) ==> number_text(s.push(c)) == Some(
            (10 * n + (c as nat - '0' as nat)) as nat,
        )),
        number_text(Seq::empty()) is None,
        forall|i: int|
            0 <= i < s.len() && !('0' <= #[trigger] s[i] <= '9') && !(i == 0 && s[i] == '+')
                ==> number_text(s) is None,
{
    assert((seq!['+'] + s).skip(1) =~= s);
    let one = seq![c];
    assert(one.drop_last() =~= Seq::<char>::empty());
    assert(digits_value(one.drop_last()) == 0);
    if '0' <= c <= '9' {
        assert(all_digits(one));
        if number_text(s) is Some {
            let d = without_plus(s);
            assert(without_plus(s.push(c)) =~= d.push(c));
            assert(d.push(c).drop_last() =~= d);
            assert forall|i: int| 0 <= i < d.push(c).len() implies is_digit(#[trigger] d.push(c)[i]) by {
                if i < d.len() {
                    assert(is_digit(d[i]));
                }
            }
        }
    }
    assert forall|i: int|
        0 <= i < s.len() && !('0' <= #[trigger] s[i] <= '9') && !(i == 0 && s[i] == '+') implies number_text(
        s,
    ) is None by {
        let d = without_plus(s);
        if s[0] == '+' {
            assert(d[i - 1] == s[i]);
        } else {
            assert(d[i] == s[i]);
        }
        assert(!all_digits(d));
    }
}

/// A destination holds a repository where one of the four names of a repository is in it.
pub proof fn law_names_of_a_repository(name: Seq<char>)
    ensures
        is_marker(name) <==> seq!["description"@, "libra.db"@, "info/exclude"@, "objects"@].contains(name),
{
    let all = seq!["description"@, "libra.db"@, "info/exclude"@, "objects"@];
    assert(all.contains(all[0]) && all.contains(all[1]) && all.contains(all[2]) && all.contains(all[3]));
    if all.contains(name) {
        let i = choose|i: int| 0 <= i < all.len() && all[i] == name;
        assert(i == 0 || i == 1 || i == 2 || i == 3);
    }
}

/// A clone from the cloud takes none of the four options that select a part of a repository, and the
/// refusal names an option that was given.
pub proof fn law_cloud_clone_is_whole(args: CloneArgs)
    ensures
        unsupported_option(args) is None <==> args.branch is None && args.depth is None
            && !args.single_branch && !args.bare,
        unsupported_option(args) == Some("--branch"@) ==> args.branch is Some,
        unsupported_option(args) == Some("--depth"@) ==> args.depth is Some,
        unsupported_option(args) == Some("--single-branch"@) ==> args.single_branch,
        unsupported_option(args) == Some("--bare"@) ==> args.bare,
        unsupported_option(args) matches Some(o) ==> o == "--branch"@ || o == "--depth"@ || o
            == "--single-branch"@ || o == "--bare"@,
{
    reveal_strlit("--branch");
    reveal_strlit("--depth");
    reveal_strlit("--single-branch");
    reveal_strlit("--bare");
    assert("--branch"@.len() == 8 && "--depth"@.len() == 7 && "--single-branch"@.len() == 15
        && "--bare"@.len() == 6);
}

/// A path that begins at the root stands for itself; another one lies below the directory.
pub proof fn law_path_below_a_directory(dir: Seq<char>, path: Seq<char>)
    ensures
        path.len() > 0 && path[0] == '/' ==> joined(dir, path) == path,
        path.len() == 0 || path[0] != '/' ==> {
            &&& dir.is_prefix_of(joined(dir, path))
            &&& path.is_suffix_of(joined(dir, path))
            &&& dir.len() > 0 ==> joined(dir, path)[joined(dir, path).len() - path.len() - 1] == '/'
            &&& dir.len() == 0 ==> joined(dir, path) == path
            &&& joined(dir, path).len() <= dir.len() + 1 + path.len()
        },
{
    reveal_strlit("/");
    assert("/"@ =~= seq!['/']);
    if path.len() > 0 && path[0] == '/' {
        assert(path.subrange(0, 1) =~= "/"@);
    } else {
        assert(!has_prefix(path, "/"@)) by {
            if has_prefix(path, "/"@) {
                assert(path[0] == "/"@[0]);
            }
        }
    }
    if has_suffix(dir, "/"@) {
        assert(dir.skip(dir.len() - 1)[0] == dir.last());
        assert(dir.last() == '/');
    }
}

/// A path below the home directory is shown from there on; any other is shown whole.
pub proof fn law_home_is_shortened(home: Seq<char>, rest: Seq<char>, path: Seq<char>)
    ensures
        home_relative(home + rest, Some(home)) == "~"@ + rest,
        !home.is_prefix_of(path) ==> home_relative(path, Some(home)) == path,
        home_relative(path, None) == path,
{
    assert((home + rest).skip(home.len() as int) =~= rest);
    assert(home.is_prefix_of(home + rest));
}

/// What is shown of a clone names its directory, the remote, the branch where there is one, and whether
/// commits are signed, in this order.
pub proof fn law_clone_is_shown(out: CloneOutput, home: Option<Seq<char>>)
    ensures
        clone_lines(out, home).len() >= 3,
        out.bare ==> clone_lines(out, home)[0] == "Cloned into bare repository '"@ + out.path@ + "'"@,
        !out.bare && has_file_name(out.path@) ==> clone_lines(out, home)[0] == "Cloned into '"@
            + path_components(out.path@).last() + "'"@,
        !out.bare && !has_file_name(out.path@) ==> clone_lines(out, home)[0] == "Cloned into '"@ + out.path@
            + "'"@,
        clone_lines(out, home)[1] == "  remote: origin → "@ + out.remote_url@,
        out.branch matches Some(b) ==> clone_lines(out, home)[2] == "  branch: "@ + b@,
        out.vault_signing ==> clone_lines(out, home)[if out.branch is Some {
            3
        } else {
            2
        }] == "  signing: "@ + "enabled"@,
        !out.vault_signing ==> clone_lines(out, home)[if out.branch is Some {
            3
        } else {
            2
        }] == "  signing: "@ + "disabled"@,
        out.ssh_key_detected is None && out.gitignore_converted@.len() == 0 ==> clone_lines(out, home).len()
            == if out.branch is Some {
            4int
        } else {
            3
        },
        out.ssh_key_detected matches Some(key) ==> clone_lines(out, home).contains(
            "Tip: using existing SSH key at "@ + home_relative(key@, home),
        ),
{
    let lines = clone_lines(out, home);
    if let Some(key) = out.ssh_key_detected {
        let at: int = if out.branch is Some {
            5
        } else {
            4
        };
        assert(lines[at] == "Tip: using existing SSH key at "@ + home_relative(key@, home));
    }
}

/// Each warning is shown once, in order, and as one.
pub proof fn law_warnings_are_shown(warnings: Seq<String>, i: int)
    requires
        0 <= i < warnings.len(),
    ensures
        warning_lines(warnings).len() == warnings.len(),
        warning_lines(warnings)[i] == "warning: "@ + warnings[i]@,
{
}

/// A domain's keys that are missing are those that were read and are not there, each under the domain's
/// name.
pub proof fn law_missing_keys_are_told(v: DomainValues, domain: Seq<char>)
    ensures
        missing_keys(v, domain).len() == 0 <==> !(v.account_id matches Ok(None)) && !(v.d1_database_id
            matches Ok(None)) && !(v.r2_bucket matches Ok(None)),
        (v.account_id matches Ok(None)) ==> missing_keys(v, domain).contains(
            "cloud.clone_domains."@ + domain + "."@ + "account_id"@,
        ),
        (v.d1_database_id matches Ok(None)) ==> missing_keys(v, domain).contains(
            "cloud.clone_domains."@ + domain + "."@ + "d1_database_id"@,
        ),
        (v.r2_bucket matches Ok(None)) ==> missing_keys(v, domain).contains(
            "cloud.clone_domains."@ + domain + "."@ + "r2_bucket"@,
        ),
        missing_keys(v, domain).len() == (if v.account_id matches Ok(None) {
            1int
        } else {
            0
        }) + (if v.d1_database_id matches Ok(None) {
            1int
        } else {
            0
        }) + (if v.r2_bucket matches Ok(None) {
            1int
        } else {
            0
        }),
{
    let keys = missing_keys(v, domain);
    let none = Seq::<Seq<char>>::empty();
    let a = if v.account_id matches Ok(None) {
        seq![domain_key(domain, "account_id"@)]
    } else {
        none
    };
    let d = if v.d1_database_id matches Ok(None) {
        seq![domain_key(domain, "d1_database_id"@)]
    } else {
        none
    };
    let b = if v.r2_bucket matches Ok(None) {
        seq![domain_key(domain, "r2_bucket"@)]
    } else {
        none
    };
    assert(keys =~= a + d + b);
    if v.account_id matches Ok(None) {
        assert(keys[0] == a[0]);
    }
    if v.d1_database_id matches Ok(None) {
        assert(keys[a.len() as int] == d[0]);
    }
    if v.r2_bucket matches Ok(None) {
        assert(keys[(a.len() + d.len()) as int] == b[0]);
    }
}

/// A domain is refused for the reason that comes first: a key that cannot be read, then keys that are
/// missing, then a token that cannot be read, then one that is not there.
pub proof fn law_domain_is_refused_for_a_reason(e: CloneError, v: DomainValues, name: Seq<char>)
    requires
        is_domain_fault(e, v, name),
    ensures
        (v.account_id is Err || v.d1_database_id is Err || v.r2_bucket is Err) ==> (e matches CloneError::CloudCloneDomainConfigRead {
            domain,
            source,
        } && domain@ == name && ((v.account_id matches Err(w) && source@ == w@) || (v.d1_database_id matches Err(
            w,
        ) && source@ == w@) || (v.r2_bucket matches Err(w) && source@ == w@))),
        (v.account_id is Ok && v.d1_database_id is Ok && v.r2_bucket is Ok && ((v.account_id matches Ok(None))
            || (v.d1_database_id matches Ok(None)) || (v.r2_bucket matches Ok(None)))) ==> (e matches CloneError::CloudCloneDomainNotConfigured {
            domain,
            ..
        } && domain@ == name),
        (v.account_id matches Ok(Some(_))) && (v.d1_database_id matches Ok(Some(_))) && (v.r2_bucket matches Ok(
            Some(_),
        )) && v.credential_profile is Ok && v.api_token is Ok ==> ((v.api_token matches Ok(Some(t)) ==> t@.len()
            == 0) && (e matches CloneError::CloudCloneD1ApiTokenNotConfigured { domain } && domain@ == name)),
{
    let s = seq![v.account_id, v.d1_database_id, v.r2_bucket];
    let s1 = s.drop_first();
    let s2 = s1.drop_first();
    let s3 = s2.drop_first();
    assert(s[0] == v.account_id && s1[0] == v.d1_database_id && s2[0] == v.r2_bucket && s3.len() == 0);
    assert(read_fault(s3) is None);
    assert(read_fault(s2) == (match v.r2_bucket {
        Err(w) => Some(w@),
        Ok(_) => None::<Seq<char>>,
    }));
    assert(v.d1_database_id is Ok ==> read_fault(s1) == read_fault(s2));
    assert(v.account_id is Ok ==> read_fault(s) == read_fault(s1));
    let t = seq![v.credential_profile, v.api_token];
    let t1 = t.drop_first();
    let t2 = t1.drop_first();
    assert(t[0] == v.credential_profile && t1[0] == v.api_token && t2.len() == 0);
    assert(read_fault(t2) is None);
    assert(v.api_token is Ok ==> read_fault(t1) is None);
    assert(v.credential_profile is Ok ==> read_fault(t) == read_fault(t1));
}

/// A clone from the cloud keeps where it came from: the remote, the site, the repository and the
/// revision; and its branch follows the remote's of the same name.
pub proof fn law_cloud_clone_knows_its_source(
    source: SourceView,
    plan: CloudPublishRestorePlan,
    remote_url: Seq<char>,
)
    ensures
        ({
            let s = cloud_settings(source, plan, remote_url);
            &&& s.contains(("remote.origin.url"@, remote_url))
            &&& s.contains(("remote.origin.type"@, "libra+cloud"@))
            &&& s.contains(("cloud.origin.clone_domain"@, source.clone_domain))
            &&& s.contains(("cloud.origin.site_id"@, plan.site.site_id@))
            &&& s.contains(("cloud.origin.repo_id"@, plan.site.repo_id@))
            &&& s.contains(("cloud.origin.repository_name"@, plan.repository.name@))
            &&& s.contains(("cloud.origin.slug"@, plan.site.slug@))
            &&& s.contains(("cloud.origin.revision_status"@, plan.revision.status@))
            &&& s.contains(("cloud.origin.revision_oid"@, plan.checkout.revision_oid@))
            &&& branch_of(opt_text(plan.checkout.ref_name)) matches Some(b) ==> {
                &&& s.contains(("branch."@ + b + ".merge"@, "refs/heads/"@ + b))
                &&& s.contains(("branch."@ + b + ".remote"@, "origin"@))
                &&& s.len() == 11
            }
            &&& branch_of(opt_text(plan.checkout.ref_name)) is None ==> s.len() == 9
        }),
{
    let s = cloud_settings(source, plan, remote_url);
    let at: int = if branch_of(opt_text(plan.checkout.ref_name)) is Some {
        2
    } else {
        0
    };
    assert(s[at] == ("remote.origin.url"@, remote_url));
    assert(s[at + 1] == ("remote.origin.type"@, "libra+cloud"@));
    assert(s[at + 2] == ("cloud.origin.clone_domain"@, source.clone_domain));
    assert(s[at + 3] == ("cloud.origin.site_id"@, plan.site.site_id@));
    assert(s[at + 4] == ("cloud.origin.repo_id"@, plan.site.repo_id@));
    assert(s[at + 5] == ("cloud.origin.repository_name"@, plan.repository.name@));
    assert(s[at + 6] == ("cloud.origin.slug"@, plan.site.slug@));
    assert(s[at + 7] == ("cloud.origin.revision_status"@, plan.revision.status@));
    assert(s[at + 8] == ("cloud.origin.revision_oid"@, plan.checkout.revision_oid@));
    if let Some(b) = branch_of(opt_text(plan.checkout.ref_name)) {
        assert(s[0] == ("branch."@ + b + ".merge"@, "refs/heads/"@ + b));
        assert(s[1] == ("branch."@ + b + ".remote"@, "origin"@));
    }
}

/// A refused option is named, with its own reason and its own advice.
pub proof fn law_refused_option_is_explained(e: CloneError, name: Seq<char>)
    requires
        is_unsupported(e, name),
    ensures
        e matches CloneError::UnsupportedCloudCloneOption { option, reason, hint } && option@ == name && {
            &&& name == "--branch"@ ==> reason@
                == "cloud source refs are selected in the source URL, not with Git branch flags"@ && hint@
                == "use `?ref=<branch|tag|full-ref>` on the libra+cloud:// URL instead of `--branch`."@
            &&& name == "--depth"@ ==> reason@
                == "Cloudflare restore must download the complete published object set"@ && hint@
                == "`--depth` is only supported for Git remotes; omit it for libra+cloud:// sources."@
            &&& name == "--single-branch"@ ==> reason@
                == "Cloudflare restore must preserve all published refs in the local repository"@ && hint@
                == "`--single-branch` is only supported for Git remotes; use `?ref=<branch|tag|full-ref>` to select the checkout target."@
            &&& name == "--bare"@ ==> reason@
                == "Cloudflare restore currently targets a non-bare working repository"@ && hint@
                == "`--bare` is only supported for Git remotes until libra+cloud:// restore grows bare-repository support."@
        },
{
    reveal_strlit("--branch");
    reveal_strlit("--depth");
    reveal_strlit("--single-branch");
    reveal_strlit("--bare");
    assert("--branch"@.len() == 8 && "--depth"@.len() == 7 && "--single-branch"@.len() == 15
        && "--bare"@.len() == 6);
}

} // verus!
