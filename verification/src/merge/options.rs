//! Options of a merge and how the command line and the configuration decide them.

use vstd::prelude::*;

use crate::merge::PullMergeError;
use crate::merge::whitespace::{mode_is_active, WhitespaceMode};
use crate::text::{clone_opt_text, lower, opt_str, opt_text, text_eq, to_lower, trim, trim_seq};

verus! {

/// The command line of a merge.
#[derive(Debug)]
pub struct MergeArgs {
    pub branches: Vec<String>,
    pub continue_merge: bool,
    pub abort: bool,
    pub quit: bool,
    pub ff_only: bool,
    pub no_ff: bool,
    pub squash: bool,
    pub no_commit: bool,
    pub commit: bool,
    pub allow_unrelated_histories: bool,
    pub autostash: bool,
    pub no_autostash: bool,
    pub message: Option<String>,
    pub file: Option<String>,
    pub signoff: bool,
    pub strategy: Option<MergeStrategy>,
    pub strategy_option: Option<MergeFavor>,
    pub log: Option<usize>,
    pub no_log: bool,
    pub no_signoff: bool,
    pub no_squash: bool,
    pub into_name: Option<String>,
    pub edit: bool,
    pub no_edit: bool,
    pub stat: bool,
    pub no_stat: bool,
    pub conflict: Option<MergeConflictStyle>,
    pub ignore_space_change: bool,
    pub ignore_all_space: bool,
    pub ignore_space_at_eol: bool,
    pub ignore_cr_at_eol: bool,
    pub find_renames: bool,
    pub no_renames: bool,
    pub diff_algorithm: Option<String>,
    pub cleanup: Option<String>,
    pub skip_hooks: bool,
    pub overwrite_ignore: bool,
    pub no_overwrite_ignore: bool,
    pub rerere_autoupdate: bool,
    pub no_rerere_autoupdate: bool,
    pub gpg_sign: bool,
    pub no_gpg_sign: bool,
    pub verify_signatures: bool,
    pub no_verify_signatures: bool,
}

/// The configuration values that a merge looks at; `None` for one that is not set.
#[derive(Debug)]
pub struct MergeConfig {
    pub stat: Option<String>,
    pub commit: Option<String>,
    pub renames: Option<String>,
    pub verify_signatures: Option<String>,
    pub auto_stash: Option<String>,
    pub conflict_style: Option<String>,
    pub ff: Option<String>,
}

#[derive(Debug, Clone, Copy, PartialEq, Eq, Structural)]
pub enum MergeStrategy {
    Ours,
}

#[derive(Debug, Clone, Copy, PartialEq, Eq, Structural)]
pub enum MergeFavor {
    Ours,
    Theirs,
}

#[derive(Debug, Clone, Copy, PartialEq, Eq, Structural)]
pub enum MergeConflictStyle {
    Merge,
    Diff3,
}

/// How a merge is to be done.
#[derive(Debug)]
pub struct PullMergeOptions {
    pub ff_only: bool,
    pub no_ff: bool,
    pub squash: bool,
    pub no_commit: bool,
    pub allow_unrelated_histories: bool,
    pub message: Option<String>,
    pub signoff: bool,
    pub strategy: Option<MergeStrategy>,
    pub strategy_option: Option<MergeFavor>,
    pub log: Option<usize>,
    pub conflict_style: MergeConflictStyle,
    pub into_name: Option<String>,
    pub autostash: bool,
    pub whitespace: WhitespaceMode,
    pub sign: bool,
    pub verify_signatures: bool,
    pub edit: bool,
    pub detect_renames: bool,
}

impl Default for MergeConflictStyle {
    fn default() -> (r: Self)
        ensures
            r == MergeConflictStyle::Merge,
    {
        MergeConflictStyle::Merge
    }
}

impl PullMergeOptions {
    /// The options of a merge for which nothing was asked.
    pub open spec fn is_plain(self, detect_renames: bool) -> bool {
        &&& !self.ff_only && !self.no_ff && !self.squash && !self.no_commit
        &&& !self.allow_unrelated_histories && !self.signoff && !self.autostash && !self.sign
        &&& !self.verify_signatures && !self.edit
        &&& self.message is None && self.strategy is None && self.strategy_option is None
        &&& self.log is None && self.into_name is None
        &&& self.conflict_style == MergeConflictStyle::Merge
        &&& !mode_is_active(self.whitespace)
        &&& self.detect_renames == detect_renames
    }

    pub fn plain(detect_renames: bool) -> (r: PullMergeOptions)
        ensures
            r.is_plain(detect_renames),
    {
        PullMergeOptions {
            ff_only: false,
            no_ff: false,
            squash: false,
            no_commit: false,
            allow_unrelated_histories: false,
            message: None,
            signoff: false,
            strategy: None,
            strategy_option: None,
            log: None,
            conflict_style: MergeConflictStyle::Merge,
            into_name: None,
            autostash: false,
            whitespace: WhitespaceMode::default(),
            sign: false,
            verify_signatures: false,
            edit: false,
            detect_renames,
        }
    }
}

/// A word as configuration values are read: trimmed, in lower case.
pub open spec fn word(value: Seq<char>) -> Seq<char> {
    lower(trim_seq(value))
}

pub open spec fn means_true(value: Seq<char>) -> bool {
    word(value) == "true"@ || word(value) == "yes"@ || word(value) == "on"@ || word(value) == "1"@
}

pub open spec fn means_false(value: Seq<char>) -> bool {
    word(value) == "false"@ || word(value) == "no"@ || word(value) == "off"@ || word(value) == "0"@
}

fn word_of(value: &str) -> (r: String)
    ensures
        r@ == word(value@),
{
    let trimmed = trim(value);
    to_lower(trimmed.as_str())
}

fn is_true_value(value: &str) -> (r: bool)
    ensures
        r == means_true(value@),
{
    let w = word_of(value);
    let w = w.as_str();
    text_eq(w, "true") || text_eq(w, "yes") || text_eq(w, "on") || text_eq(w, "1")
}

fn is_false_value(value: &str) -> (r: bool)
    ensures
        r == means_false(value@),
{
    let w = word_of(value);
    let w = w.as_str();
    text_eq(w, "false") || text_eq(w, "no") || text_eq(w, "off") || text_eq(w, "0")
}

/// No word means both yes and no.
pub proof fn law_no_value_means_both(value: Seq<char>)
    ensures
        !(means_true(value) && means_false(value)),
{
    reveal_strlit("true");
    reveal_strlit("yes");
    reveal_strlit("on");
    reveal_strlit("1");
    reveal_strlit("false");
    reveal_strlit("no");
    reveal_strlit("off");
    reveal_strlit("0");
    if means_true(value) && means_false(value) {
        let w = word(value);
        assert(w[0] == 't' || w[0] == 'y' || w[0] == 'o' || w[0] == '1');
        assert(w[0] == 'f' || w[0] == 'n' || w[0] == 'o' || w[0] == '0');
        assert(w.len() == 2);
        assert(w.len() == 3);
    }
}

/// A switch with a flag for and a flag against it: the flag against it wins, then the flag for
/// it, then the configuration, where only a word for yes turns it on.
pub open spec fn switched_on(against: bool, wanted: bool, config: Option<Seq<char>>) -> bool {
    !against && (wanted || (config matches Some(value) && means_true(value)))
}

fn resolve_switch(against: bool, wanted: bool, config: &Option<String>) -> (r: bool)
    ensures
        r == switched_on(against, wanted, opt_text(*config)),
{
    if against {
        return false;
    }
    if wanted {
        return true;
    }
    match config {
        Some(value) => is_true_value(value.as_str()),
        None => false,
    }
}

/// Whether a diffstat follows the merge: off unless asked for.
pub fn resolve_merge_stat(args: &MergeArgs, config: &MergeConfig) -> (r: bool)
    ensures
        r == switched_on(args.no_stat, args.stat, opt_text(config.stat)),
{
    resolve_switch(args.no_stat, args.stat, &config.stat)
}

/// Whether the merge target must be signed: off unless asked for.
pub fn resolve_verify_signatures(args: &MergeArgs, config: &MergeConfig) -> (r: bool)
    ensures
        r == switched_on(
            args.no_verify_signatures,
            args.verify_signatures,
            opt_text(config.verify_signatures),
        ),
{
    resolve_switch(args.no_verify_signatures, args.verify_signatures, &config.verify_signatures)
}

/// Whether local changes are stashed first: off unless asked for.
pub fn resolve_autostash(args: &MergeArgs, config: &MergeConfig) -> (r: bool)
    ensures
        r == switched_on(args.no_autostash, args.autostash, opt_text(config.auto_stash)),
{
    resolve_switch(args.no_autostash, args.autostash, &config.auto_stash)
}

/// Renames are detected unless a flag or a word for no turns that off.
pub open spec fn renames_wanted(args: MergeArgs, config: Option<Seq<char>>) -> bool {
    !args.no_renames && (args.find_renames || !(config matches Some(value) && means_false(value)))
}

/// Whether renames are detected.
pub fn resolve_detect_renames(args: &MergeArgs, config: &MergeConfig) -> (r: bool)
    ensures
        r == renames_wanted(*args, opt_text(config.renames)),
{
    if args.no_renames {
        return false;
    }
    if args.find_renames {
        return true;
    }
    match &config.renames {
        Some(value) => !is_false_value(value.as_str()),
        None => true,
    }
}

/// Whether to stop before the commit: the flags decide, else the configuration, where a word
/// for no means to stop; any other word is wrong (`None`).
pub open spec fn no_commit_wanted(args: MergeArgs, config: Option<Seq<char>>) -> Option<bool> {
    if args.commit {
        Some(false)
    } else if args.no_commit {
        Some(true)
    } else {
        match config {
            None => Some(false),
            Some(value) => if means_true(value) {
                Some(false)
            } else if means_false(value) {
                Some(true)
            } else {
                None
            },
        }
    }
}

/// Whether to stop before the merge commit.
pub fn resolve_no_commit(args: &MergeArgs, config: &MergeConfig) -> (r: Result<bool, PullMergeError>)
    ensures
        match r {
            Ok(stop) => no_commit_wanted(*args, opt_text(config.commit)) == Some(stop),
            Err(e) => no_commit_wanted(*args, opt_text(config.commit)) is None && (e matches PullMergeError::InvalidMergeCommitConfig {
                value,
            } && Some(value@) == opt_text(config.commit)),
        },
{
    if args.commit {
        return Ok(false);
    }
    if args.no_commit {
        return Ok(true);
    }
    match &config.commit {
        None => Ok(false),
        Some(value) => {
            if is_true_value(value.as_str()) {
                Ok(false)
            } else if is_false_value(value.as_str()) {
                Ok(true)
            } else {
                Err(PullMergeError::InvalidMergeCommitConfig { value: value.clone() })
            }
        },
    }
}

pub open spec fn is_diff_algorithm(w: Seq<char>) -> bool {
    w == "myers"@ || w == "histogram"@ || w == "patience"@ || w == "minimal"@
}

/// Accepts the name of a diff algorithm.
pub fn validate_diff_algorithm(algorithm: Option<&str>) -> (r: Result<(), PullMergeError>)
    ensures
        match (r, opt_str(algorithm)) {
            (Ok(_), None) => true,
            (Ok(_), Some(name)) => is_diff_algorithm(word(name)),
            (Err(e), Some(name)) => !is_diff_algorithm(word(name)) && (e matches PullMergeError::InvalidDiffAlgorithm {
                value,
            } && value@ == word(name)),
            (Err(_), None) => false,
        },
{
    match algorithm {
        None => Ok(()),
        Some(name) => {
            let value = word_of(name);
            let w = value.as_str();
            if text_eq(w, "myers") || text_eq(w, "histogram") || text_eq(w, "patience") || text_eq(
                w,
                "minimal",
            ) {
                Ok(())
            } else {
                Err(PullMergeError::InvalidDiffAlgorithm { value })
            }
        },
    }
}

pub open spec fn is_cleanup_mode(w: Seq<char>) -> bool {
    w == "strip"@ || w == "whitespace"@ || w == "verbatim"@ || w == "scissors"@ || w == "default"@
}

/// Accepts the name of a way to clean up the message.
pub fn validate_cleanup_mode(mode: Option<&str>) -> (r: Result<(), PullMergeError>)
    ensures
        match (r, opt_str(mode)) {
            (Ok(_), None) => true,
            (Ok(_), Some(name)) => is_cleanup_mode(word(name)),
            (Err(e), Some(name)) => !is_cleanup_mode(word(name)) && (e matches PullMergeError::InvalidCleanupMode {
                value,
            } && value@ == word(name)),
            (Err(_), None) => false,
        },
{
    match mode {
        None => Ok(()),
        Some(name) => {
            let value = word_of(name);
            let w = value.as_str();
            if text_eq(w, "strip") || text_eq(w, "whitespace") || text_eq(w, "verbatim") || text_eq(
                w,
                "scissors",
            ) || text_eq(w, "default") {
                Ok(())
            } else {
                Err(PullMergeError::InvalidCleanupMode { value })
            }
        },
    }
}

/// The style of conflict files: the flag, else the configuration; any word but `diff3` means
/// the plain style.
pub open spec fn conflict_style_wanted(
    flag: Option<MergeConflictStyle>,
    config: Option<Seq<char>>,
) -> MergeConflictStyle {
    match flag {
        Some(style) => style,
        None => match config {
            Some(value) => if word(value) == "diff3"@ {
                MergeConflictStyle::Diff3
            } else {
                MergeConflictStyle::Merge
            },
            None => MergeConflictStyle::Merge,
        },
    }
}

/// The style of conflict files.
pub fn resolve_conflict_style(
    cli_style: Option<MergeConflictStyle>,
    config: &MergeConfig,
) -> (r: MergeConflictStyle)
    ensures
        r == conflict_style_wanted(cli_style, opt_text(config.conflict_style)),
{
    match cli_style {
        Some(style) => style,
        None => match &config.conflict_style {
            Some(value) => {
                let w = word_of(value.as_str());
                if text_eq(w.as_str(), "diff3") {
                    MergeConflictStyle::Diff3
                } else {
                    MergeConflictStyle::Merge
                }
            },
            None => MergeConflictStyle::Merge,
        },
    }
}

/// What the configuration says of fast-forwards: only them, none of them; `None` for a word
/// that it does not know.
pub open spec fn ff_setting(config: Option<Seq<char>>) -> Option<(bool, bool)> {
    match config {
        None => Some((false, false)),
        Some(value) => if means_true(value) {
            Some((false, false))
        } else if means_false(value) {
            Some((false, true))
        } else if word(value) == "only"@ {
            Some((true, false))
        } else {
            None
        },
    }
}

/// Lets the configuration decide about fast-forwards.
pub fn apply_merge_ff_config(ff_only: &mut bool, no_ff: &mut bool, config: &MergeConfig) -> (r: Result<
    (),
    PullMergeError,
>)
    ensures
        match (r, ff_setting(opt_text(config.ff))) {
            (Ok(_), Some(set)) => *final(ff_only) == (*old(ff_only) || set.0) && *final(no_ff) == (
            *old(no_ff) || set.1),
            (Err(e), None) => *final(ff_only) == *old(ff_only) && *final(no_ff) == *old(no_ff) && (
            e matches PullMergeError::InvalidMergeFfConfig { value } && Some(value@) == opt_text(
                config.ff,
            )),
            _ => false,
        },
{
    match &config.ff {
        None => Ok(()),
        Some(value) => {
            if is_true_value(value.as_str()) {
                Ok(())
            } else if is_false_value(value.as_str()) {
                *no_ff = true;
                Ok(())
            } else {
                let w = word_of(value.as_str());
                if text_eq(w.as_str(), "only") {
                    *ff_only = true;
                    Ok(())
                } else {
                    Err(PullMergeError::InvalidMergeFfConfig { value: value.clone() })
                }
            }
        },
    }
}

/// The given message, or the contents of the given file, where `contents` is what reading that
/// file gave.
pub fn read_merge_message(args: &MergeArgs, contents: Result<String, String>) -> (r: Result<
    Option<String>,
    PullMergeError,
>)
    ensures
        match (args.message, args.file) {
            (Some(message), _) => r matches Ok(Some(m)) && m@ == message@,
            (None, Some(file)) => match contents {
                Ok(text) => r == Ok::<Option<String>, PullMergeError>(Some(text)),
                Err(why) => r matches Err(PullMergeError::MessageFileRead { path, detail }) && path@
                    == file@ && detail == why,
            },
            (None, None) => r matches Ok(None),
        },
{
    match (&args.message, &args.file) {
        (Some(message), _) => Ok(Some(message.clone())),
        (None, Some(file)) => match contents {
            Ok(text) => Ok(Some(text)),
            Err(detail) => Err(PullMergeError::MessageFileRead { path: file.clone(), detail }),
        },
        (None, None) => Ok(None),
    }
}

/// What is wrong with the options of a merge.
pub enum OptionsFault {
    SquashNoFf,
    SquashCommit,
    Algorithm(Seq<char>),
    Cleanup(Seq<char>),
    Ff(Seq<char>),
    Commit(Seq<char>),
    MessageFile(Seq<char>, Seq<char>),
}

/// The first thing that is wrong with the options, in the order in which they are looked at.
pub open spec fn options_fault(
    args: MergeArgs,
    config: MergeConfig,
    contents: Result<String, String>,
) -> Option<OptionsFault> {
    if args.squash && args.no_ff {
        Some(OptionsFault::SquashNoFf)
    } else if args.squash && args.commit {
        Some(OptionsFault::SquashCommit)
    } else if args.diff_algorithm matches Some(name) && !is_diff_algorithm(word(name@)) {
        Some(OptionsFault::Algorithm(word(args.diff_algorithm->0@)))
    } else if args.cleanup matches Some(name) && !is_cleanup_mode(word(name@)) {
        Some(OptionsFault::Cleanup(word(args.cleanup->0@)))
    } else if !args.ff_only && !args.no_ff && ff_setting(opt_text(config.ff)) is None {
        Some(OptionsFault::Ff(config.ff->0@))
    } else if no_commit_wanted(args, opt_text(config.commit)) is None {
        Some(OptionsFault::Commit(config.commit->0@))
    } else if args.message is None && args.file is Some && contents is Err {
        Some(OptionsFault::MessageFile(args.file->0@, contents->Err_0@))
    } else {
        None
    }
}

pub open spec fn reports(e: PullMergeError, fault: OptionsFault) -> bool {
    match fault {
        OptionsFault::SquashNoFf => e matches PullMergeError::SquashNoFf,
        OptionsFault::SquashCommit => e matches PullMergeError::SquashCommit,
        OptionsFault::Algorithm(w) => e matches PullMergeError::InvalidDiffAlgorithm { value } && value@
            == w,
        OptionsFault::Cleanup(w) => e matches PullMergeError::InvalidCleanupMode { value } && value@
            == w,
        OptionsFault::Ff(v) => e matches PullMergeError::InvalidMergeFfConfig { value } && value@ == v,
        OptionsFault::Commit(v) => e matches PullMergeError::InvalidMergeCommitConfig { value } && value@
            == v,
        OptionsFault::MessageFile(p, d) => e matches PullMergeError::MessageFileRead { path, detail }
            && path@ == p && detail@ == d,
    }
}

/// The message that the options give.
pub open spec fn options_message(
    args: MergeArgs,
    contents: Result<String, String>,
) -> Option<Seq<char>> {
    match (args.message, args.file) {
        (Some(message), _) => Some(message@),
        (None, Some(_)) => match contents {
            Ok(text) => Some(text@),
            Err(_) => None,
        },
        (None, None) => None,
    }
}

/// The options of a merge, from the command line and the configuration.
pub fn merge_options_from_args(
    args: &MergeArgs,
    config: &MergeConfig,
    contents: Result<String, String>,
) -> (r: Result<PullMergeOptions, PullMergeError>)
    ensures
        match (r, options_fault(*args, *config, contents)) {
            (Err(e), Some(fault)) => reports(e, fault),
            (Ok(o), None) => {
                let set = if args.ff_only || args.no_ff {
                    (args.ff_only, args.no_ff)
                } else {
                    ff_setting(opt_text(config.ff))->0
                };
                &&& o.ff_only == set.0
                &&& o.no_ff == set.1
                &&& o.squash == args.squash
                &&& Some(o.no_commit) == no_commit_wanted(*args, opt_text(config.commit))
                &&& o.allow_unrelated_histories == args.allow_unrelated_histories
                &&& opt_text(o.message) == options_message(*args, contents)
                &&& o.signoff == args.signoff
                &&& o.strategy == args.strategy
                &&& o.strategy_option == args.strategy_option
                &&& o.log == (if args.no_log {
                    None
                } else {
                    args.log
                })
                &&& o.conflict_style == conflict_style_wanted(
                    args.conflict,
                    opt_text(config.conflict_style),
                )
                &&& opt_text(o.into_name) == opt_text(args.into_name)
                &&& o.autostash == switched_on(
                    args.no_autostash,
                    args.autostash,
                    opt_text(config.auto_stash),
                )
                &&& o.whitespace.ignore_space_change == args.ignore_space_change
                &&& o.whitespace.ignore_all_space == args.ignore_all_space
                &&& o.whitespace.ignore_space_at_eol == args.ignore_space_at_eol
                &&& o.whitespace.ignore_cr_at_eol == args.ignore_cr_at_eol
                &&& o.sign == (args.gpg_sign && !args.no_gpg_sign)
                &&& o.verify_signatures == switched_on(
                    args.no_verify_signatures,
                    args.verify_signatures,
                    opt_text(config.verify_signatures),
                )
                &&& o.edit == (args.edit && !args.no_edit)
                &&& o.detect_renames == renames_wanted(*args, opt_text(config.renames))
            },
            _ => false,
        },
{
    if args.squash && args.no_ff {
        return Err(PullMergeError::SquashNoFf);
    }
    if args.squash && args.commit {
        return Err(PullMergeError::SquashCommit);
    }
    let algorithm = match &args.diff_algorithm {
        Some(name) => Some(name.as_str()),
        None => None,
    };
    if let Err(e) = validate_diff_algorithm(algorithm) {
        return Err(e);
    }
    let cleanup = match &args.cleanup {
        Some(name) => Some(name.as_str()),
        None => None,
    };
    if let Err(e) = validate_cleanup_mode(cleanup) {
        return Err(e);
    }
    let mut ff_only = args.ff_only;
    let mut no_ff = args.no_ff;
    if !ff_only && !no_ff {
        if let Err(e) = apply_merge_ff_config(&mut ff_only, &mut no_ff, config) {
            return Err(e);
        }
    }
    let no_commit = match resolve_no_commit(args, config) {
        Ok(no_commit) => no_commit,
        Err(e) => return Err(e),
    };
    let message = match read_merge_message(args, contents) {
        Ok(message) => message,
        Err(e) => return Err(e),
    };
    Ok(
        PullMergeOptions {
            ff_only,
            no_ff,
            squash: args.squash,
            no_commit,
            allow_unrelated_histories: args.allow_unrelated_histories,
            message,
            signoff: args.signoff,
            strategy: args.strategy,
            strategy_option: args.strategy_option,
            log: if args.no_log {
                None
            } else {
                args.log
            },
            conflict_style: resolve_conflict_style(args.conflict, config),
            into_name: clone_opt_text(&args.into_name),
            autostash: resolve_autostash(args, config),
            whitespace: WhitespaceMode {
                ignore_space_change: args.ignore_space_change,
                ignore_all_space: args.ignore_all_space,
                ignore_space_at_eol: args.ignore_space_at_eol,
                ignore_cr_at_eol: args.ignore_cr_at_eol,
            },
            sign: !args.no_gpg_sign && args.gpg_sign,
            verify_signatures: resolve_verify_signatures(args, config),
            edit: args.edit && !args.no_edit,
            detect_renames: resolve_detect_renames(args, config),
        },
    )
}

/// A flag against a switch wins over the flag for it and over the configuration.
pub proof fn law_flags_override_configuration(config: Option<Seq<char>>)
    ensures
        forall|wanted: bool| !(#[trigger] switched_on(true, wanted, config)),
        switched_on(false, true, config),
{
}

/// The words of a setting are read without regard to case or the space around them.
pub proof fn law_words_of_a_setting(value: Seq<char>)
    ensures
        means_true(value) <==> seq!["true"@, "yes"@, "on"@, "1"@].contains(lower(trim_seq(value))),
        means_false(value) <==> seq!["false"@, "no"@, "off"@, "0"@].contains(lower(trim_seq(value))),
{
    let yes = seq!["true"@, "yes"@, "on"@, "1"@];
    let no = seq!["false"@, "no"@, "off"@, "0"@];
    let w = lower(trim_seq(value));
    assert(yes.contains(yes[0]) && yes.contains(yes[1]) && yes.contains(yes[2]) && yes.contains(yes[3]));
    assert(no.contains(no[0]) && no.contains(no[1]) && no.contains(no[2]) && no.contains(no[3]));
    if yes.contains(w) {
        let i = choose|i: int| 0 <= i < yes.len() && yes[i] == w;
        assert(i == 0 || i == 1 || i == 2 || i == 3);
    }
    if no.contains(w) {
        let i = choose|i: int| 0 <= i < no.len() && no[i] == w;
        assert(i == 0 || i == 1 || i == 2 || i == 3);
    }
}

/// What is asked for on the command line decides; where nothing is, the configuration does, and where it
/// says nothing a switch is off, renames are looked for and a merge is committed.
pub proof fn law_configuration_decides_where_nothing_is_asked(
    args: MergeArgs,
    value: Seq<char>,
)
    ensures
        !switched_on(false, false, None),
        switched_on(false, false, Some(value)) <==> means_true(value),
        args.no_renames ==> !renames_wanted(args, Some(value)) && !renames_wanted(args, None),
        !args.no_renames && args.find_renames ==> renames_wanted(args, Some(value)) && renames_wanted(
            args,
            None,
        ),
        !args.no_renames && !args.find_renames ==> renames_wanted(args, None) && (renames_wanted(
            args,
            Some(value),
        ) <==> !means_false(value)),
        args.commit ==> no_commit_wanted(args, Some(value)) == Some(false) && no_commit_wanted(args, None)
            == Some(false),
        !args.commit && args.no_commit ==> no_commit_wanted(args, Some(value)) == Some(true)
            && no_commit_wanted(args, None) == Some(true),
        !args.commit && !args.no_commit ==> {
            &&& no_commit_wanted(args, None) == Some(false)
            &&& means_true(value) ==> no_commit_wanted(args, Some(value)) == Some(false)
            &&& means_false(value) ==> no_commit_wanted(args, Some(value)) == Some(true)
            &&& !means_true(value) && !means_false(value) ==> no_commit_wanted(args, Some(value)) is None
        },
{
    law_no_value_means_both(value);
}

/// Whether a merge may only move, or may never, is set by `only` and by a false value; a true one, and
/// none, leave both open, and nothing else is a value.
pub proof fn law_fast_forward_setting(value: Seq<char>)
    ensures
        ff_setting(None) == Some((false, false)),
        means_true(value) ==> ff_setting(Some(value)) == Some((false, false)),
        means_false(value) ==> ff_setting(Some(value)) == Some((false, true)),
        lower(trim_seq(value)) == "only"@ ==> ff_setting(Some(value)) == Some((true, false)),
        !means_true(value) && !means_false(value) && lower(trim_seq(value)) != "only"@ ==> ff_setting(
            Some(value),
        ) is None,
        !(ff_setting(Some(value)) matches Some((true, true))),
{
    law_no_value_means_both(value);
    reveal_strlit("only");
    reveal_strlit("true");
    reveal_strlit("yes");
    reveal_strlit("on");
    reveal_strlit("1");
    reveal_strlit("false");
    reveal_strlit("no");
    reveal_strlit("off");
    reveal_strlit("0");
    assert("only"@.len() == 4 && "true"@.len() == 4 && "yes"@.len() == 3 && "on"@.len() == 2 && "1"@.len()
        == 1 && "false"@.len() == 5 && "no"@.len() == 2 && "off"@.len() == 3 && "0"@.len() == 1);
    assert("only"@[0] != "true"@[0]);
}

/// Conflicts are shown with the base where that style is asked for, or configured where none is.
pub proof fn law_conflict_style(style: MergeConflictStyle, value: Seq<char>)
    ensures
        conflict_style_wanted(Some(style), Some(value)) == style,
        conflict_style_wanted(Some(style), None) == style,
        conflict_style_wanted(None, None) == MergeConflictStyle::Merge,
        conflict_style_wanted(None, Some(value)) == MergeConflictStyle::Diff3 <==> lower(trim_seq(value))
            == "diff3"@,
        conflict_style_wanted(None, Some(value)) == MergeConflictStyle::Merge <==> lower(trim_seq(value))
            != "diff3"@,
{
}

/// Options are refused for what does not go together or is not known, and for nothing else.
pub proof fn law_which_options_are_refused(
    args: MergeArgs,
    config: MergeConfig,
    contents: Result<String, String>,
)
    ensures
        ({
            let algorithms = seq!["myers"@, "histogram"@, "patience"@, "minimal"@];
            let modes = seq!["strip"@, "whitespace"@, "verbatim"@, "scissors"@, "default"@];
            options_fault(args, config, contents) is None <==> {
                &&& !(args.squash && (args.no_ff || args.commit))
                &&& args.diff_algorithm matches Some(name) ==> algorithms.contains(lower(trim_seq(name@)))
                &&& args.cleanup matches Some(name) ==> modes.contains(lower(trim_seq(name@)))
                &&& args.ff_only || args.no_ff || ff_setting(opt_text(config.ff)) is Some
                &&& no_commit_wanted(args, opt_text(config.commit)) is Some
                &&& args.message is Some || args.file is None || contents is Ok
            }
        }),
{
    let algorithms = seq!["myers"@, "histogram"@, "patience"@, "minimal"@];
    let modes = seq!["strip"@, "whitespace"@, "verbatim"@, "scissors"@, "default"@];
    assert forall|w: Seq<char>| algorithms.contains(w) == is_diff_algorithm(w) by {
        assert(algorithms.contains(algorithms[0]) && algorithms.contains(algorithms[1])
            && algorithms.contains(algorithms[2]) && algorithms.contains(algorithms[3]));
        if algorithms.contains(w) {
            let i = choose|i: int| 0 <= i < algorithms.len() && algorithms[i] == w;
            assert(i == 0 || i == 1 || i == 2 || i == 3);
        }
    }
    assert forall|w: Seq<char>| modes.contains(w) == is_cleanup_mode(w) by {
        assert(modes.contains(modes[0]) && modes.contains(modes[1]) && modes.contains(modes[2])
            && modes.contains(modes[3]) && modes.contains(modes[4]));
        if modes.contains(w) {
            let i = choose|i: int| 0 <= i < modes.len() && modes[i] == w;
            assert(i == 0 || i == 1 || i == 2 || i == 3 || i == 4);
        }
    }
}

/// A merge's message is the one that was given, before that of a file; without either it has none.
pub proof fn law_merge_message_is_the_one_given(args: MergeArgs, contents: Result<String, String>)
    ensures
        args.message matches Some(m) ==> options_message(args, contents) == Some(m@),
        args.message is None && args.file is Some ==> (contents matches Ok(text) ==> options_message(
            args,
            contents,
        ) == Some(text@)),
        args.message is None && args.file is None ==> options_message(args, contents) is None,
{
}

/// Plain options ask for nothing but what they were made with.
pub proof fn law_plain_options_ask_for_nothing(o: PullMergeOptions, detect_renames: bool)
    requires
        o.is_plain(detect_renames),
    ensures
        o.detect_renames == detect_renames,
        !o.ff_only && !o.no_ff && !o.squash && !o.no_commit && !o.allow_unrelated_histories && !o.signoff
            && !o.autostash && !o.sign && !o.verify_signatures && !o.edit,
        o.message is None && o.strategy is None && o.strategy_option is None && o.log is None
            && o.into_name is None,
        o.conflict_style == MergeConflictStyle::Merge,
        !o.whitespace.ignore_space_change && !o.whitespace.ignore_all_space
            && !o.whitespace.ignore_space_at_eol && !o.whitespace.ignore_cr_at_eol,
{
}

} // verus!
