//! Stored values: how they are read, filtered, brought into a type and written out.

use vstd::prelude::*;

use crate::clone::flow::{digits_value, join_path, joined, law_number_is_read_back};
use crate::config::{
    global_path, legacy_exit, scope_name, scope_text, ConfigScope, ConfigType, OutputFlags,
    ValueFilterSpec,
};
use crate::error::{CliError, ErrorView, StableErrorCode};
use crate::hexadecimal::{bytes_hex, hex_decode, hex_encode, hex_fault_text, is_hex_pairs};
use crate::text::{
    clone_opt_text, concat2, concat3, concat4, concat5, concat6, contains_str, has_infix,
    has_prefix, has_suffix, law_parts_of_a_text, law_signed_decimal_text, lower, opt_str, opt_text,
    signed_decimal, starts_with, strip_prefix, text_eq, to_lower, trim_seq, wide_text,
};
use crate::bisect::session::{git_bool, law_boolean_words};

verus! {

/// A stored value.
#[derive(Debug, Clone)]
pub struct ConfigKvEntry {
    pub key: String,
    /// The value, or the digits of its ciphertext
    pub value: String,
    pub encrypted: bool,
    /// The key names a credential of the vault itself
    pub vault_internal: bool,
    /// The key looks as if its value were a secret
    pub sensitive: bool,
}

impl ConfigKvEntry {
    pub fn copy(&self) -> (r: ConfigKvEntry)
        ensures
            r == *self,
    {
        ConfigKvEntry {
            key: self.key.clone(),
            value: self.value.clone(),
            encrypted: self.encrypted,
            vault_internal: self.vault_internal,
            sensitive: self.sensitive,
        }
    }
}

// Errors

pub fn config_read_cli_error(message: String) -> (r: CliError)
    ensures
        r@ == read_error(message@),
{
    CliError::fatal(message).with_stable_code(StableErrorCode::IoReadFailed).with_exit_code(128)
}

pub open spec fn read_error(message: Seq<char>) -> ErrorView {
    ErrorView::fatal(message).coded(StableErrorCode::IoReadFailed).exits(128)
}

/// The error for a value of the given scope that cannot be decrypted.
pub open spec fn decrypt_error(key: Seq<char>, scope_label: Seq<char>, error: Seq<char>) -> ErrorView {
    ErrorView::fatal(
        "failed to decrypt value for key '"@ + key + "' from "@ + scope_label + " config: "@ + error,
    ).coded(StableErrorCode::RepoStateInvalid).exits(128)
}

pub fn config_decrypt_cli_error(key: &str, scope_label: &str, error: &str) -> (r: CliError)
    ensures
        r@ == decrypt_error(key@, scope_label@, error@),
{
    let text = concat6(
        "failed to decrypt value for key '",
        key,
        "' from ",
        scope_label,
        " config: ",
        error,
    );
    CliError::fatal(text).with_stable_code(StableErrorCode::RepoStateInvalid).with_exit_code(128)
}

/// A pattern that is too long or not a regular expression.
pub fn regex_cli_error(err: &str) -> (r: CliError)
    ensures
        r@ == legacy_exit("error: "@ + err@, 6),
{
    CliError::from_legacy_string(concat2("error: ", err)).with_exit_code(6)
}

/// What the text of a failed write tells about its cause.
pub open spec fn write_cause(message: Seq<char>) -> Seq<char> {
    let text = lower(message);
    if has_infix(text, "sqlite_full"@) || has_infix(text, "disk is full"@) {
        "insufficient disk space"@
    } else if has_infix(text, "locked"@) || has_infix(text, "sqlite_busy"@) || has_infix(text, "busy"@) {
        "database is locked"@
    } else {
        "failed to write config"@
    }
}

pub open spec fn write_error(context: Seq<char>, message: Seq<char>) -> ErrorView {
    ErrorView::fatal(context + ": "@ + write_cause(message) + ": "@ + message).coded(
        StableErrorCode::IoWriteFailed,
    ).exits(4)
}

/// Map a failed write to an error that says what to do about it.
pub fn config_write_cli_error(context: &str, err: &str) -> (r: CliError)
    ensures
        r@ == write_error(context@, err@),
{
    let text = to_lower(err);
    let t = text.as_str();
    let hint = if contains_str(t, "sqlite_full") || contains_str(t, "disk is full") {
        "insufficient disk space"
    } else if contains_str(t, "locked") || contains_str(t, "sqlite_busy") || contains_str(t, "busy") {
        "database is locked"
    } else {
        "failed to write config"
    };
    CliError::fatal(concat5(context, ": ", hint, ": ", err)).with_stable_code(
        StableErrorCode::IoWriteFailed,
    ).with_exit_code(4)
}

pub open spec fn no_match_error() -> ErrorView {
    ErrorView::failure("no value matched the --value filter"@).coded(
        StableErrorCode::CliInvalidArguments,
    ).exits(1)
}

/// The error of a read whose filter matched nothing.
pub fn no_value_match_error() -> (r: CliError)
    ensures
        r@ == no_match_error(),
{
    CliError::failure("no value matched the --value filter".to_owned()).with_stable_code(
        StableErrorCode::CliInvalidArguments,
    ).with_exit_code(1)
}

// Patterns

/// Why `regex` does not compile a pattern, if it does not.
pub uninterp spec fn pattern_fault(pattern: Seq<char>, ignore_case: bool) -> Option<Seq<char>>;

/// Whether `regex` finds a pattern somewhere in a text.
pub uninterp spec fn pattern_found(pattern: Seq<char>, ignore_case: bool, text: Seq<char>) -> bool;

/// `regex::RegexBuilder::build`, with `case_insensitive` set as asked for: whether the pattern
/// compiles is a function of the pattern and of that setting, and so is what is said of one that
/// does not.
#[verifier::external_body]
fn try_pattern(pattern: &str, ignore_case: bool) -> (r: Option<String>)
    ensures
        opt_text(r) == pattern_fault(pattern@, ignore_case),
{
    match regex::RegexBuilder::new(pattern).case_insensitive(ignore_case).build() {
        Ok(_) => None,
        Err(error) => Some(error.to_string()),
    }
}

/// `regex::Regex::is_match` on a pattern that is compiled as `try_pattern` does: whether a match
/// exists is a function of the pattern, the setting and the text. A pattern that does not compile
/// matches nothing.
#[verifier::external_body]
fn match_pattern(pattern: &str, ignore_case: bool, text: &str) -> (r: bool)
    ensures
        r == pattern_found(pattern@, ignore_case, text@),
        r ==> pattern_fault(pattern@, ignore_case) is None,
{
    match regex::RegexBuilder::new(pattern).case_insensitive(ignore_case).build() {
        Ok(compiled) => compiled.is_match(text),
        Err(_) => false,
    }
}

/// Why a pattern is refused, if it is: the check that comes before it is compiled refuses it, as it
/// does an over-long one, or it is no regular expression. `refusal` is what that check says.
pub open spec fn refused_pattern(
    refusal: Option<String>,
    pattern: Seq<char>,
    ignore_case: bool,
) -> Option<Seq<char>> {
    match refusal {
        Some(text) => Some(text@),
        None => match pattern_fault(pattern, ignore_case) {
            Some(e) => Some("invalid regex pattern '"@ + pattern + "': "@ + e),
            None => None,
        },
    }
}

fn refuse_pattern(refusal: &Option<String>, pattern: &str, ignore_case: bool) -> (r: Option<String>)
    ensures
        opt_text(r) == refused_pattern(*refusal, pattern@, ignore_case),
{
    if let Some(text) = refusal {
        return Some(text.clone());
    }
    match try_pattern(pattern, ignore_case) {
        Some(e) => Some(
            concat4("invalid regex pattern '", pattern, "': ", e.as_str()),
        ),
        None => None,
    }
}

/// A pattern for keys.
#[derive(Debug, Clone)]
pub struct KeyPattern {
    pub pattern: String,
    pub ignore_case: bool,
}

impl KeyPattern {
    pub fn is_match(&self, key: &str) -> (r: bool)
        ensures
            r == pattern_found(self.pattern@, self.ignore_case, key@),
    {
        match_pattern(self.pattern.as_str(), self.ignore_case, key)
    }
}

/// Take a pattern for keys, or say why it is refused. `refusal` is what the check that comes before
/// says against the pattern, if anything.
pub fn compile_key_regex(
    pattern: &str,
    ignore_case: bool,
    refusal: &Option<String>,
) -> (r: Result<KeyPattern, CliError>)
    ensures
        match (r, refused_pattern(*refusal, pattern@, ignore_case)) {
            (Ok(p), None) => p.pattern@ == pattern@ && p.ignore_case == ignore_case,
            (Err(e), Some(text)) => e@ == legacy_exit("error: "@ + text, 6),
            _ => false,
        },
{
    match refuse_pattern(refusal, pattern, ignore_case) {
        Some(text) => Err(regex_cli_error(text.as_str())),
        None => Ok(KeyPattern { pattern: pattern.to_owned(), ignore_case }),
    }
}

/// A filter on values.
#[derive(Debug, Clone)]
pub enum ValueFilter {
    /// The value is this text
    Fixed { text: String },
    /// The value holds a match of this pattern
    Pattern { pattern: String, ignore_case: bool },
}

pub open spec fn filter_accepts(filter: ValueFilter, text: Seq<char>) -> bool {
    match filter {
        ValueFilter::Fixed { text: want } => text == want@,
        ValueFilter::Pattern { pattern, ignore_case } => pattern_found(pattern@, ignore_case, text),
    }
}

impl ValueFilter {
    pub fn matches(&self, text: &str) -> (r: bool)
        ensures
            r == filter_accepts(*self, text@),
    {
        match self {
            ValueFilter::Fixed { text: want } => text_eq(text, want.as_str()),
            ValueFilter::Pattern { pattern, ignore_case } => match_pattern(
                pattern.as_str(),
                *ignore_case,
                text,
            ),
        }
    }
}

/// The filter that was asked for, if any, or why it is refused. `refusal` is what the check that
/// comes before says against its pattern, if anything.
pub open spec fn compiled_filter(
    spec: ValueFilterSpec,
    refusal: Option<String>,
) -> Result<Option<ValueFilter>, ErrorView> {
    match spec.pattern {
        None => Ok(None),
        Some(pattern) => if spec.fixed && refusal is None {
            Ok(Some(ValueFilter::Fixed { text: pattern }))
        } else {
            match refused_pattern(refusal, pattern@, spec.ignore_case) {
                Some(text) => Err(legacy_exit("error: "@ + text, 6)),
                None => Ok(
                    Some(ValueFilter::Pattern { pattern, ignore_case: spec.ignore_case }),
                ),
            }
        },
    }
}

impl ValueFilterSpec {
    /// Compile to a filter, or `None` where none was asked for.
    pub fn compile(&self, refusal: &Option<String>) -> (r: Result<Option<ValueFilter>, CliError>)
        ensures
            match (r, compiled_filter(*self, *refusal)) {
                (Ok(got), Ok(want)) => got == want,
                (Err(e), Err(want)) => e@ == want,
                _ => false,
            },
    {
        match &self.pattern {
            None => Ok(None),
            Some(pattern) => {
                if self.fixed && refusal.is_none() {
                    return Ok(Some(ValueFilter::Fixed { text: pattern.clone() }));
                }
                match refuse_pattern(refusal, pattern.as_str(), self.ignore_case) {
                    Some(text) => Err(regex_cli_error(text.as_str())),
                    None => Ok(
                        Some(
                            ValueFilter::Pattern {
                                pattern: pattern.clone(),
                                ignore_case: self.ignore_case,
                            },
                        ),
                    ),
                }
            },
        }
    }
}

// Types

/// How a text reads as a boolean and as an integer.
#[derive(Debug)]
pub struct ValueReading {
    pub as_bool: Option<bool>,
    pub as_int: Result<i64, String>,
}

/// The home directory, where the environment names one.
pub open spec fn typed_home(home: Option<String>) -> Result<Seq<char>, ErrorView> {
    match home {
        Some(h) if h@.len() > 0 => Ok(h@),
        _ => Err(legacy_exit("error: cannot expand '~': HOME is not set or empty"@, 1)),
    }
}

/// Resolve the home directory from the value in the environment.
pub fn typed_path_home(home: &Option<String>) -> (r: Result<String, CliError>)
    ensures
        is_text_result(r, typed_home(*home)),
{
    if let Some(h) = home {
        if h.as_str().unicode_len() > 0 {
            return Ok(h.clone());
        }
    }
    Err(
        CliError::from_legacy_string(
            "error: cannot expand '~': HOME is not set or empty".to_owned(),
        ).with_exit_code(1),
    )
}

pub open spec fn is_text_result(r: Result<String, CliError>, want: Result<Seq<char>, ErrorView>) -> bool {
    match (r, want) {
        (Ok(text), Ok(want)) => text@ == want,
        (Err(e), Err(want)) => e@ == want,
        _ => false,
    }
}

/// A path with `~` at its start replaced by the home directory.
pub open spec fn expanded_path(value: Seq<char>, home: Option<String>) -> Result<Seq<char>, ErrorView> {
    if value == "~"@ {
        typed_home(home)
    } else if has_prefix(value, "~/"@) {
        match typed_home(home) {
            Ok(h) => Ok(joined(h, value.skip("~/"@.len() as int))),
            Err(e) => Err(e),
        }
    } else if has_prefix(value, "~"@) {
        Err(legacy_exit("~user path expansion is not supported by Libra config"@, 1))
    } else {
        Ok(value)
    }
}

/// Expand `~` or `~/child`; the home of another user is refused, and another path is kept.
pub fn expand_typed_path(value: &str, home: &Option<String>) -> (r: Result<String, CliError>)
    ensures
        is_text_result(r, expanded_path(value@, *home)),
{
    if text_eq(value, "~") {
        return typed_path_home(home);
    }
    if let Some(child) = strip_prefix(value, "~/") {
        return match typed_path_home(home) {
            Ok(h) => Ok(join_path(h.as_str(), child.as_str())),
            Err(e) => Err(e),
        };
    }
    if starts_with(value, "~") {
        return Err(
            CliError::from_legacy_string(
                "~user path expansion is not supported by Libra config".to_owned(),
            ).with_exit_code(1),
        );
    }
    Ok(value.to_owned())
}

/// A value in the one form that its type has.
pub open spec fn canonical_value(
    ty: ConfigType,
    value: Seq<char>,
    reading: ValueReading,
    home: Option<String>,
) -> Result<Seq<char>, ErrorView> {
    match ty {
        ConfigType::Bool => match reading.as_bool {
            Some(b) => Ok(
                if b {
                    "true"@
                } else {
                    "false"@
                },
            ),
            None => Err(legacy_exit("error: invalid boolean value (expected true/false)"@, 2)),
        },
        ConfigType::Int => match reading.as_int {
            Ok(n) => Ok(signed_decimal(n as int)),
            Err(e) => Err(legacy_exit("error: invalid integer value: "@ + e@, 2)),
        },
        ConfigType::Path => expanded_path(value, home),
    }
}

/// Bring a plain value into its type's form. No error holds the value.
pub fn canonicalize_typed_value(
    ty: ConfigType,
    value: &str,
    reading: &ValueReading,
    home: &Option<String>,
) -> (r: Result<String, CliError>)
    ensures
        is_text_result(r, canonical_value(ty, value@, *reading, *home)),
{
    match ty {
        ConfigType::Bool => match reading.as_bool {
            Some(b) => Ok(
                if b {
                    "true".to_owned()
                } else {
                    "false".to_owned()
                },
            ),
            None => Err(
                CliError::from_legacy_string(
                    "error: invalid boolean value (expected true/false)".to_owned(),
                ).with_exit_code(2),
            ),
        },
        ConfigType::Int => match &reading.as_int {
            Ok(n) => Ok(wide_text(*n)),
            Err(e) => Err(
                CliError::from_legacy_string(
                    concat2("error: invalid integer value: ", e.as_str()),
                ).with_exit_code(2),
            ),
        },
        ConfigType::Path => expand_typed_path(value, home),
    }
}

// Showing a value

/// Whether the value of an entry is not shown.
pub open spec fn stays_hidden(entry: ConfigKvEntry, reveal: bool) -> bool {
    entry.encrypted && (!reveal || entry.vault_internal)
}

/// Whether the value of an entry has to be decrypted to be shown.
pub fn needs_opening(entry: &ConfigKvEntry, reveal: bool) -> (r: bool)
    ensures
        r == (entry.encrypted && !stays_hidden(*entry, reveal)),
{
    entry.encrypted && reveal && !entry.vault_internal
}

/// The text that is shown for an entry; `opened` is what decrypting its value gave.
pub open spec fn rendered(
    entry: ConfigKvEntry,
    reveal: bool,
    scope: ConfigScope,
    opened: Result<String, String>,
) -> Result<Seq<char>, ErrorView> {
    if !entry.encrypted {
        Ok(entry.value@)
    } else if stays_hidden(entry, reveal) {
        Ok("<REDACTED>"@)
    } else {
        match opened {
            Ok(text) => Ok(text@),
            Err(e) => Err(decrypt_error(entry.key@, scope_text(scope), e@)),
        }
    }
}

/// The text to show for an entry, given what decrypting its value gave.
pub fn render_get_value(
    entry: &ConfigKvEntry,
    reveal: bool,
    scope: ConfigScope,
    opened: &Result<String, String>,
) -> (r: Result<String, CliError>)
    ensures
        is_text_result(r, rendered(*entry, reveal, scope, *opened)),
{
    if !entry.encrypted {
        return Ok(entry.value.clone());
    }
    if !reveal || entry.vault_internal {
        return Ok("<REDACTED>".to_owned());
    }
    match opened {
        Ok(text) => Ok(text.clone()),
        Err(e) => Err(
            config_decrypt_cli_error(entry.key.as_str(), scope_name(scope), e.as_str()),
        ),
    }
}

/// A shown text in its type's form; a hidden value is not read as a type.
pub open spec fn typed_text(
    entry: ConfigKvEntry,
    reveal: bool,
    shown: Seq<char>,
    ty: Option<ConfigType>,
    reading: ValueReading,
    home: Option<String>,
) -> Result<Seq<char>, ErrorView> {
    match ty {
        Some(t) if !stays_hidden(entry, reveal) => canonical_value(t, shown, reading, home),
        _ => Ok(shown),
    }
}

/// Apply a type to a shown text. A hidden value stays as it is.
pub fn typed_output(
    entry: &ConfigKvEntry,
    reveal: bool,
    shown: &str,
    ty: Option<ConfigType>,
    reading: &ValueReading,
    home: &Option<String>,
) -> (r: Result<String, CliError>)
    ensures
        is_text_result(r, typed_text(*entry, reveal, shown@, ty, *reading, *home)),
{
    match ty {
        None => Ok(shown.to_owned()),
        Some(t) => {
            if entry.encrypted && (!reveal || entry.vault_internal) {
                Ok(shown.to_owned())
            } else {
                canonicalize_typed_value(t, shown, reading, home)
            }
        },
    }
}

/// The text that a filter is held against: the shown text of a value that was decrypted, and else
/// the stored one.
pub open spec fn filter_text(entry: ConfigKvEntry, reveal: bool, shown: Seq<char>) -> Seq<char> {
    if entry.encrypted && !stays_hidden(entry, reveal) {
        shown
    } else {
        entry.value@
    }
}

/// The text that a filter is held against. A value is never decrypted only to be filtered.
pub fn value_filter_input<'a>(entry: &'a ConfigKvEntry, reveal: bool, display: &'a str) -> (r: &'a str)
    ensures
        r@ == filter_text(*entry, reveal, display@),
{
    if entry.encrypted && reveal && !entry.vault_internal {
        display
    } else {
        entry.value.as_str()
    }
}

/// Whatever the ciphertext of a hidden value opens to, and whatever type was asked for, the same text
/// is shown in its place; a filter sees its ciphertext alone.
pub proof fn law_hidden_value_is_not_shown(
    entry: ConfigKvEntry,
    reveal: bool,
    scope: ConfigScope,
    opened: Result<String, String>,
    ty: Option<ConfigType>,
    reading: ValueReading,
    home: Option<String>,
)
    requires
        stays_hidden(entry, reveal),
    ensures
        rendered(entry, reveal, scope, opened) == Ok::<Seq<char>, ErrorView>("<REDACTED>"@),
        typed_text(entry, reveal, "<REDACTED>"@, ty, reading, home) == Ok::<Seq<char>, ErrorView>(
            "<REDACTED>"@,
        ),
        filter_text(entry, reveal, "<REDACTED>"@) == entry.value@,
{
}

/// An error of bringing a value into its type is one of a few texts, none of which holds the value.
pub proof fn law_type_errors_do_not_hold_the_value(
    ty: ConfigType,
    value: Seq<char>,
    reading: ValueReading,
    home: Option<String>,
)
    ensures
        canonical_value(ty, value, reading, home) matches Err(e) ==> match ty {
            ConfigType::Bool => e == legacy_exit(
                "error: invalid boolean value (expected true/false)"@,
                2,
            ),
            ConfigType::Int => reading.as_int matches Err(why) && e == legacy_exit(
                "error: invalid integer value: "@ + why@,
                2,
            ),
            ConfigType::Path => e == legacy_exit(
                "error: cannot expand '~': HOME is not set or empty"@,
                1,
            ) || e == legacy_exit("~user path expansion is not supported by Libra config"@, 1),
        },
{
}

// Origins and records

/// The path of the database of a scope: that of the repository's storage directory, or the user's.
pub open spec fn origin_path(
    scope: ConfigScope,
    storage: Option<String>,
    env: Option<String>,
    home: Option<String>,
) -> Option<Seq<char>> {
    match scope {
        ConfigScope::Local => match storage {
            Some(dir) => Some(joined(dir@, "libra.db"@)),
            None => None,
        },
        ConfigScope::Global => global_path(env, home),
    }
}

/// Resolve the path of the database of a scope. There is none where the repository's storage
/// directory, or the user's home, is not known.
pub fn config_origin_path_string(
    scope: ConfigScope,
    storage: &Option<String>,
    env: &Option<String>,
    home: &Option<String>,
) -> (r: Option<String>)
    ensures
        opt_text(r) == origin_path(scope, *storage, *env, *home),
{
    match scope {
        ConfigScope::Local => match storage {
            Some(dir) => Some(join_path(dir.as_str(), "libra.db")),
            None => None,
        },
        ConfigScope::Global => scope.get_config_path(env, home),
    }
}

/// The paths of the databases, where they are known.
#[derive(Debug, Clone)]
pub struct OriginPaths {
    pub local: Option<String>,
    pub global: Option<String>,
}

impl OriginPaths {
    pub open spec fn path(self, scope: ConfigScope) -> Option<Seq<char>> {
        opt_text(
            match scope {
                ConfigScope::Local => self.local,
                ConfigScope::Global => self.global,
            },
        )
    }

    pub fn path_of(&self, scope: ConfigScope) -> (r: Option<String>)
        ensures
            opt_text(r) == self.path(scope),
    {
        match scope {
            ConfigScope::Local => clone_opt_text(&self.local),
            ConfigScope::Global => clone_opt_text(&self.global),
        }
    }
}

pub open spec fn origin_text(scope: ConfigScope, paths: OriginPaths) -> Seq<char> {
    "file:"@ + match paths.path(scope) {
        Some(path) => path,
        None => scope_text(scope),
    }
}

/// Where a scope is stored, as Git writes it.
pub fn format_config_origin(scope: ConfigScope, paths: &OriginPaths) -> (r: String)
    ensures
        r@ == origin_text(scope, *paths),
{
    match paths.path_of(scope) {
        Some(path) => concat2("file:", path.as_str()),
        None => concat2("file:", scope_name(scope)),
    }
}

/// What ends a field before a record.
pub open spec fn field_end(flags: OutputFlags) -> Seq<char> {
    if flags.null {
        "\0"@
    } else {
        "\t"@
    }
}

/// What ends a record.
pub open spec fn record_end(flags: OutputFlags) -> Seq<char> {
    if flags.null {
        "\0"@
    } else {
        "\n"@
    }
}

pub open spec fn scope_field(scope: ConfigScope, flags: OutputFlags) -> Seq<char> {
    if flags.show_scope {
        scope_text(scope) + field_end(flags)
    } else {
        Seq::empty()
    }
}

pub open spec fn origin_field(scope: ConfigScope, flags: OutputFlags, paths: OriginPaths) -> Seq<char> {
    if flags.show_origin {
        origin_text(scope, paths) + field_end(flags)
    } else {
        Seq::empty()
    }
}

/// What stands before a record: the scope and the origin, where they were asked for.
pub open spec fn prefix_fields(scope: ConfigScope, flags: OutputFlags, paths: OriginPaths) -> Seq<char> {
    scope_field(scope, flags) + origin_field(scope, flags, paths)
}

/// Put the fields before a record at the end of `out`.
pub fn push_prefix_fields(out: &mut String, scope: ConfigScope, flags: OutputFlags, paths: &OriginPaths)
    ensures
        final(out)@ == old(out)@ + prefix_fields(scope, flags, *paths),
{
    let sep = if flags.null {
        "\0"
    } else {
        "\t"
    };
    if flags.show_scope {
        *out = concat3(out.as_str(), scope_name(scope), sep);
    }
    assert(out@ =~= old(out)@ + scope_field(scope, flags));
    if flags.show_origin {
        let origin = format_config_origin(scope, paths);
        *out = concat3(out.as_str(), origin.as_str(), sep);
    }
    assert(out@ =~= old(out)@ + prefix_fields(scope, flags, *paths));
}

/// A record of a key and its value, or of the key alone.
pub open spec fn record_text(
    scope: ConfigScope,
    key: Seq<char>,
    value: Option<Seq<char>>,
    kv_sep: Seq<char>,
    flags: OutputFlags,
    paths: OriginPaths,
) -> Seq<char> {
    prefix_fields(scope, flags, paths) + key + (match value {
        None => Seq::empty(),
        Some(v) => (if flags.null {
            "\n"@
        } else {
            kv_sep
        }) + v,
    }) + record_end(flags)
}

/// Build one record of a key and its value. `kv_sep` joins them, but where records end in NUL: there
/// a line feed does. `None` for the value gives the key alone.
pub fn format_config_record(
    scope: ConfigScope,
    key: &str,
    value: Option<&str>,
    kv_sep: &str,
    flags: OutputFlags,
    paths: &OriginPaths,
) -> (r: String)
    ensures
        r@ == record_text(scope, key@, opt_str(value), kv_sep@, flags, *paths),
{
    let mut out = String::new();
    push_prefix_fields(&mut out, scope, flags, paths);
    assert(out@ =~= prefix_fields(scope, flags, *paths));
    let end = if flags.null {
        "\0"
    } else {
        "\n"
    };
    let r = match value {
        None => concat3(out.as_str(), key, end),
        Some(v) => {
            let sep = if flags.null {
                "\n"
            } else {
                kv_sep
            };
            concat5(out.as_str(), key, sep, v, end)
        },
    };
    assert(r@ =~= record_text(scope, key@, opt_str(value), kv_sep@, flags, *paths));
    r
}

/// A record of a value.
pub open spec fn value_record(
    scope: ConfigScope,
    value: Seq<char>,
    flags: OutputFlags,
    paths: OriginPaths,
) -> Seq<char> {
    prefix_fields(scope, flags, paths) + value + record_end(flags)
}

/// Build a record of a value alone.
pub fn format_get_value_record(scope: ConfigScope, value: &str, flags: OutputFlags, paths: &OriginPaths) -> (r:
    String)
    ensures
        r@ == value_record(scope, value@, flags, *paths),
{
    let mut out = String::new();
    push_prefix_fields(&mut out, scope, flags, paths);
    assert(out@ =~= prefix_fields(scope, flags, *paths));
    let end = if flags.null {
        "\0"
    } else {
        "\n"
    };
    concat3(out.as_str(), value, end)
}

/// The value that a listing shows, if it shows values.
pub open spec fn listed_value(entry: ConfigKvEntry, flags: OutputFlags) -> Option<Seq<char>> {
    if flags.name_only {
        None
    } else if entry.encrypted {
        Some("<REDACTED>"@)
    } else if !flags.null && entry.sensitive {
        Some(entry.value@ + " [PLAINTEXT]"@)
    } else {
        Some(entry.value@)
    }
}

/// The value to show in a listing: never an encrypted one, and a plain one that looks like a secret
/// with a mark, in text for people.
pub fn render_list_value(entry: &ConfigKvEntry, flags: OutputFlags) -> (r: Option<String>)
    ensures
        opt_text(r) == listed_value(*entry, flags),
{
    if flags.name_only {
        return None;
    }
    if entry.encrypted {
        return Some("<REDACTED>".to_owned());
    }
    if !flags.null && entry.sensitive {
        Some(concat2(entry.value.as_str(), " [PLAINTEXT]"))
    } else {
        Some(entry.value.clone())
    }
}

/// What a listing shows does not depend on the stored value of an encrypted entry, and with names
/// only it depends on no value.
pub proof fn law_listing_hides_values(a: ConfigKvEntry, b: ConfigKvEntry, flags: OutputFlags)
    requires
        a.encrypted && b.encrypted || flags.name_only,
    ensures
        listed_value(a, flags) == listed_value(b, flags),
{
}

/// An entry of a listing.
#[derive(Debug, Clone)]
pub struct ConfigListEntry {
    pub key: String,
    pub value: Option<String>,
    /// The scope's label
    pub origin: Option<String>,
    /// The scope's label, where it was asked for
    pub scope: Option<String>,
    /// What kind of origin it is, where it was asked for
    pub origin_type: Option<String>,
    /// The path of the database, where it was asked for
    pub origin_path: Option<String>,
    pub encrypted: Option<bool>,
}

pub struct ListEntryView {
    pub key: Seq<char>,
    pub value: Option<Seq<char>>,
    pub origin: Option<Seq<char>>,
    pub scope: Option<Seq<char>>,
    pub origin_type: Option<Seq<char>>,
    pub origin_path: Option<Seq<char>>,
    pub encrypted: Option<bool>,
}

impl View for ConfigListEntry {
    type V = ListEntryView;

    open spec fn view(&self) -> ListEntryView {
        ListEntryView {
            key: self.key@,
            value: opt_text(self.value),
            origin: opt_text(self.origin),
            scope: opt_text(self.scope),
            origin_type: opt_text(self.origin_type),
            origin_path: opt_text(self.origin_path),
            encrypted: self.encrypted,
        }
    }
}

/// An entry with its scope, and with what else of its origin was asked for.
pub open spec fn prefixed_entry(
    key: Seq<char>,
    value: Option<Seq<char>>,
    scope: ConfigScope,
    encrypted: bool,
    flags: OutputFlags,
    paths: OriginPaths,
) -> ListEntryView {
    ListEntryView {
        key,
        value,
        origin: Some(scope_text(scope)),
        scope: if flags.show_scope {
            Some(scope_text(scope))
        } else {
            None
        },
        origin_type: if flags.show_origin {
            Some("file"@)
        } else {
            None
        },
        origin_path: if flags.show_origin {
            paths.path(scope)
        } else {
            None
        },
        encrypted: Some(encrypted),
    }
}

/// Build an entry with its scope and origin.
pub fn build_prefixed_list_entry(
    key: String,
    value: Option<String>,
    scope: ConfigScope,
    encrypted: bool,
    flags: OutputFlags,
    paths: &OriginPaths,
) -> (r: ConfigListEntry)
    ensures
        r@ == prefixed_entry(key@, opt_text(value), scope, encrypted, flags, *paths),
{
    ConfigListEntry {
        key,
        value,
        origin: Some(scope_name(scope).to_owned()),
        scope: if flags.show_scope {
            Some(scope_name(scope).to_owned())
        } else {
            None
        },
        origin_type: if flags.show_origin {
            Some("file".to_owned())
        } else {
            None
        },
        origin_path: if flags.show_origin {
            paths.path_of(scope)
        } else {
            None
        },
        encrypted: Some(encrypted),
    }
}

pub open spec fn null_json_error() -> ErrorView {
    ErrorView::usage(
        "--null is not compatible with JSON output; JSON is already machine-readable"@,
    )
}

/// NUL-delimited records make no sense in JSON.
pub fn reject_null_with_json(flags: OutputFlags, json: bool) -> (r: Result<(), CliError>)
    ensures
        match r {
            Ok(_) => !(flags.null && json),
            Err(e) => flags.null && json && e@ == null_json_error(),
        },
{
    if flags.null && json {
        return Err(
            CliError::command_usage(
                "--null is not compatible with JSON output; JSON is already machine-readable".to_owned(),
            ),
        );
    }
    Ok(())
}

pub open spec fn name_only_json_error() -> ErrorView {
    ErrorView::usage(
        "--name-only is not compatible with JSON output; read the `key` field instead"@,
    )
}

/// In JSON every entry has its key in a field of its own.
pub fn reject_name_only_with_json(flags: OutputFlags, json: bool) -> (r: Result<(), CliError>)
    ensures
        match r {
            Ok(_) => !(flags.name_only && json),
            Err(e) => flags.name_only && json && e@ == name_only_json_error(),
        },
{
    if flags.name_only && json {
        return Err(
            CliError::command_usage(
                "--name-only is not compatible with JSON output; read the `key` field instead".to_owned(),
            ),
        );
    }
    Ok(())
}

// Encrypted values

/// Read the ciphertext of a stored value, given whether the vault of its scope is open.
pub fn config_ciphertext(hex_value: &str, scope: &str, unsealed: bool) -> (r: Result<Vec<u8>, String>)
    ensures
        match r {
            Ok(bytes) => unsealed && is_hex_pairs(hex_value@)
                && bytes_hex(bytes@) == lower(hex_value@),
            Err(e) => if !unsealed {
                e@ == "vault not initialized for "@ + scope@ + " scope \u{2014} cannot decrypt"@
            } else {
                !is_hex_pairs(hex_value@) && e@
                    == "failed to decode encrypted value: "@ + hex_fault_text(
                    hex_value@,
                )
            },
        },
{
    if !unsealed {
        return Err(
            concat3(
                "vault not initialized for ",
                scope,
                " scope \u{2014} cannot decrypt",
            ),
        );
    }
    match hex_decode(hex_value) {
        Ok(bytes) => Ok(bytes),
        Err(e) => Err(concat2("failed to decode encrypted value: ", e.as_str())),
    }
}

/// What is stored of a value: its ciphertext in hexadecimal digits, or the value itself.
pub fn stored_value(value: &str, ciphertext: &Option<Vec<u8>>) -> (r: String)
    ensures
        r@ == match *ciphertext {
            Some(bytes) => bytes_hex(bytes@),
            None => value@,
        },
{
    match ciphertext {
        Some(bytes) => hex_encode(bytes),
        None => value.to_owned(),
    }
}

/// A value that was read as a boolean or as a number is given the text of just that: the text reads
/// back as the same boolean, and different booleans or numbers have different texts.
pub proof fn law_typed_text_says_what_was_read(
    value: Seq<char>,
    reading: ValueReading,
    other: ValueReading,
    home: Option<String>,
)
    ensures
        reading.as_bool matches Some(b) ==> (canonical_value(ConfigType::Bool, value, reading, home)
            matches Ok(text) && git_bool(text) == Some(b) && (text == "true"@ <==> b) && (text
            == "false"@ <==> !b)),
        reading.as_bool is None ==> canonical_value(ConfigType::Bool, value, reading, home) is Err,
        reading.as_bool is Some && other.as_bool is Some ==> (canonical_value(
            ConfigType::Bool,
            value,
            reading,
            home,
        ) == canonical_value(ConfigType::Bool, value, other, home) <==> reading.as_bool
            == other.as_bool),
        reading.as_int matches Ok(n) ==> (canonical_value(ConfigType::Int, value, reading, home)
            matches Ok(text) && (n < 0 <==> text[0] == '-') && (n >= 0 ==> digits_value(text) == n) && (n
            < 0 ==> digits_value(text.drop_first()) == -n)),
        reading.as_int is Err ==> canonical_value(ConfigType::Int, value, reading, home) is Err,
        reading.as_int matches Ok(n) ==> (other.as_int matches Ok(m) ==> (canonical_value(
            ConfigType::Int,
            value,
            reading,
            home,
        ) == canonical_value(ConfigType::Int, value, other, home) <==> n == m)),
{
    reveal_strlit("true");
    reveal_strlit("false");
    assert("true"@.len() == 4 && "false"@.len() == 5);
    law_boolean_words("true"@);
    law_boolean_words("false"@);
    assert(trim_seq("true"@) == "true"@);
    assert(trim_seq("false"@) == "false"@);
    assert(lower("true"@) =~= "true"@);
    assert(lower("false"@) =~= "false"@);
    if let Ok(n) = reading.as_int {
        let size = if n < 0 {
            (-n) as nat
        } else {
            n as nat
        };
        law_signed_decimal_text(n as int, 0);
        law_number_is_read_back(size);
        if let Ok(m) = other.as_int {
            law_signed_decimal_text(n as int, m as int);
        }
    }
}

/// A path is left as it is, unless it starts with a tilde: alone that is the home directory, and before
/// a slash it stands for it. Another user's home is never guessed.
pub proof fn law_paths_are_expanded(value: Seq<char>, reading: ValueReading, home: Option<String>)
    ensures
        ({
            let r = canonical_value(ConfigType::Path, value, reading, home);
            let known = home is Some && home->0@.len() > 0;
            &&& value.len() == 0 || value[0] != '~' ==> r == Ok::<Seq<char>, ErrorView>(value)
            &&& value.len() == 1 && value[0] == '~' && known ==> r == Ok::<Seq<char>, ErrorView>(
                home->0@,
            )
            &&& value.len() > 2 && value[0] == '~' && value[1] == '/' && value[2] != '/' && known ==> (r
                matches Ok(path) && has_prefix(path, home->0@) && has_suffix(path, value.skip(2))
                && path.len() <= home->0@.len() + value.len() - 1)
            &&& value.len() > 0 && value[0] == '~' && !known ==> r is Err
            &&& value.len() > 1 && value[0] == '~' && value[1] != '/' ==> r is Err
        }),
{
    reveal_strlit("~");
    reveal_strlit("~/");
    reveal_strlit("/");
    if value.len() > 0 {
        assert(has_prefix(value, "~"@) <==> value[0] == '~') by {
            assert(value.take(1)[0] == value[0]);
            if value[0] == '~' {
                assert(value.take(1) =~= "~"@);
            }
        }
    }
    assert(value == "~"@ <==> value.len() == 1 && value[0] == '~') by {
        if value.len() == 1 && value[0] == '~' {
            assert(value =~= "~"@);
        }
    }
    if value.len() > 1 {
        assert(has_prefix(value, "~/"@) <==> value[0] == '~' && value[1] == '/') by {
            assert(value.take(2)[0] == value[0] && value.take(2)[1] == value[1]);
            if value[0] == '~' && value[1] == '/' {
                assert(value.take(2) =~= "~/"@);
            }
            if has_prefix(value, "~/"@) {
                assert(value.take(2) == "~/"@);
                assert("~/"@[0] == '~' && "~/"@[1] == '/');
            }
        }
    }
    if value.len() > 2 && value[0] == '~' && value[1] == '/' && value[2] != '/' && home is Some
        && home->0@.len() > 0 {
        let h = home->0@;
        let rest = value.skip(2);
        assert(rest[0] == value[2]);
        assert(!has_prefix(rest, "/"@)) by {
            assert(rest.take(1)[0] == rest[0]);
            assert("/"@[0] == '/');
        }
        law_parts_of_a_text(h, Seq::empty(), rest);
        law_parts_of_a_text(h, Seq::empty(), "/"@ + rest);
        law_parts_of_a_text(rest, h, Seq::empty());
        law_parts_of_a_text(rest, h + "/"@, Seq::empty());
        assert(h + "/"@ + rest =~= h + ("/"@ + rest));
    }
}

/// What is shown of a value: a plain one as it is stored; a secret as it was decrypted, where it was to
/// be revealed and is no credential of the vault itself; and else nothing of it.
pub proof fn law_secrets_are_shown_only_when_revealed(
    entry: ConfigKvEntry,
    reveal: bool,
    scope: ConfigScope,
    opened: Result<String, String>,
)
    ensures
        !entry.encrypted ==> rendered(entry, reveal, scope, opened) == Ok::<Seq<char>, ErrorView>(
            entry.value@,
        ),
        entry.encrypted && (!reveal || entry.vault_internal) ==> rendered(entry, reveal, scope, opened)
            == Ok::<Seq<char>, ErrorView>("<REDACTED>"@),
        entry.encrypted && reveal && !entry.vault_internal ==> match opened {
            Ok(text) => rendered(entry, reveal, scope, opened) == Ok::<Seq<char>, ErrorView>(text@),
            Err(_) => rendered(entry, reveal, scope, opened) is Err,
        },
{
}

/// A typed read brings what is shown into the type's form, unless it is hidden; one without a type
/// leaves it.
pub proof fn law_types_apply_to_what_is_shown(
    entry: ConfigKvEntry,
    reveal: bool,
    shown: Seq<char>,
    ty: ConfigType,
    reading: ValueReading,
    home: Option<String>,
)
    ensures
        typed_text(entry, reveal, shown, None, reading, home) == Ok::<Seq<char>, ErrorView>(shown),
        !entry.encrypted || (reveal && !entry.vault_internal) ==> typed_text(
            entry,
            reveal,
            shown,
            Some(ty),
            reading,
            home,
        ) == canonical_value(ty, shown, reading, home),
        entry.encrypted && (!reveal || entry.vault_internal) ==> typed_text(
            entry,
            reveal,
            shown,
            Some(ty),
            reading,
            home,
        ) == Ok::<Seq<char>, ErrorView>(shown),
{
}

/// A fixed filter takes the values that are its text, a pattern those in which it is found. One that
/// was not asked for is none; one that was refused, or is no pattern, is an error.
pub proof fn law_filters_take_what_they_name(
    spec: ValueFilterSpec,
    refusal: Option<String>,
    text: Seq<char>,
)
    ensures
        spec.pattern is None ==> compiled_filter(spec, refusal) == Ok::<Option<ValueFilter>, ErrorView>(
            None,
        ),
        spec.pattern matches Some(p) ==> (spec.fixed && refusal is None ==> (compiled_filter(
            spec,
            refusal,
        ) matches Ok(Some(f)) && (filter_accepts(f, text) <==> text == p@))),
        spec.pattern matches Some(p) ==> (!spec.fixed && refusal is None && pattern_fault(
            p@,
            spec.ignore_case,
        ) is None ==> (compiled_filter(spec, refusal) matches Ok(Some(f)) && (filter_accepts(f, text)
            <==> pattern_found(p@, spec.ignore_case, text)))),
        spec.pattern matches Some(p) ==> (refusal is Some || (!spec.fixed && pattern_fault(
            p@,
            spec.ignore_case,
        ) is Some) ==> compiled_filter(spec, refusal) is Err),
{
}

/// A filter is held against what was decrypted only where that is shown, and else against what is
/// stored.
pub proof fn law_filters_see_what_is_shown(entry: ConfigKvEntry, reveal: bool, shown: Seq<char>)
    ensures
        filter_text(entry, reveal, shown) == if entry.encrypted && reveal && !entry.vault_internal {
            shown
        } else {
            entry.value@
        },
{
}

/// A listing shows names alone where only they are asked for; a secret is never listed; a plain value
/// is, and a warning behind it where it looks like a secret and a person reads it.
pub proof fn law_listed_values(entry: ConfigKvEntry, flags: OutputFlags)
    ensures
        listed_value(entry, flags) is None <==> flags.name_only,
        listed_value(entry, flags) matches Some(text) ==> {
            &&& entry.encrypted ==> text == "<REDACTED>"@
            &&& !entry.encrypted ==> has_prefix(text, entry.value@)
            &&& !entry.encrypted && (flags.null || !entry.sensitive) ==> text == entry.value@
            &&& !entry.encrypted && !flags.null && entry.sensitive ==> text == entry.value@
                + " [PLAINTEXT]"@
        },
{
    law_parts_of_a_text(entry.value@, Seq::empty(), " [PLAINTEXT]"@);
    law_parts_of_a_text(entry.value@, Seq::empty(), Seq::empty());
    assert(entry.value@ + Seq::<char>::empty() =~= entry.value@);
}

/// A record holds the key, and the value behind a separator where there is one; its scope and origin
/// stand before it where they were asked for; a line feed ends it, or a zero where that was asked for.
pub proof fn law_records(
    scope: ConfigScope,
    key: Seq<char>,
    value: Seq<char>,
    sep: Seq<char>,
    flags: OutputFlags,
    paths: OriginPaths,
)
    ensures
        !flags.show_scope && !flags.show_origin && !flags.null ==> {
            &&& record_text(scope, key, Some(value), sep, flags, paths) == key + sep + value + "\n"@
            &&& record_text(scope, key, None, sep, flags, paths) == key + "\n"@
            &&& value_record(scope, value, flags, paths) == value + "\n"@
        },
        !flags.show_scope && !flags.show_origin && flags.null ==> {
            &&& record_text(scope, key, Some(value), sep, flags, paths) == key + "\n"@ + value + "\0"@
            &&& value_record(scope, value, flags, paths) == value + "\0"@
        },
        flags.show_scope ==> has_prefix(
            record_text(scope, key, Some(value), sep, flags, paths),
            match scope {
                ConfigScope::Local => "local"@,
                ConfigScope::Global => "global"@,
            },
        ),
        !flags.show_scope && flags.show_origin ==> has_prefix(
            record_text(scope, key, Some(value), sep, flags, paths),
            "file:"@,
        ),
        has_infix(record_text(scope, key, Some(value), sep, flags, paths), key),
        has_infix(record_text(scope, key, Some(value), sep, flags, paths), value),
        has_infix(value_record(scope, value, flags, paths), value),
{
    let none = Seq::<char>::empty();
    let full = record_text(scope, key, Some(value), sep, flags, paths);
    let short = record_text(scope, key, None, sep, flags, paths);
    let alone = value_record(scope, value, flags, paths);
    let head = prefix_fields(scope, flags, paths);
    let mid = if flags.null {
        "\n"@
    } else {
        sep
    };
    let end = record_end(flags);
    if !flags.show_scope && !flags.show_origin {
        assert(head =~= none);
        assert(full =~= key + mid + value + end);
        assert(short =~= key + end);
        assert(alone =~= value + end);
    }
    law_parts_of_a_text(key, head, mid + value + end);
    assert(head + key + (mid + value + end) =~= full);
    law_parts_of_a_text(value, head + key + mid, end);
    assert(head + key + mid + value + end =~= full);
    law_parts_of_a_text(value, head, end);
    if flags.show_scope {
        let s = scope_text(scope);
        let rest = field_end(flags) + origin_field(scope, flags, paths) + key + mid + value + end;
        law_parts_of_a_text(s, none, rest);
        assert(full =~= s + rest);
    } else if flags.show_origin {
        let path = match paths.path(scope) {
            Some(path) => path,
            None => scope_text(scope),
        };
        let rest = path + field_end(flags) + key + mid + value + end;
        law_parts_of_a_text("file:"@, none, rest);
        assert(full =~= "file:"@ + rest);
    }
}

/// A write that failed is told with its cause: a full disk, a locked database, or neither.
pub proof fn law_failed_write_is_told(context: Seq<char>, message: Seq<char>)
    ensures
        ({
            let t = lower(message);
            let full = has_infix(t, "sqlite_full"@) || has_infix(t, "disk is full"@);
            let locked = has_infix(t, "locked"@) || has_infix(t, "busy"@) || has_infix(t, "sqlite_busy"@);
            &&& full ==> write_error(context, message).message == context + ": "@ + "insufficient disk space"@
                + ": "@ + message
            &&& !full && locked ==> write_error(context, message).message == context + ": "@
                + "database is locked"@ + ": "@ + message
            &&& !full && !locked ==> write_error(context, message).message == context + ": "@
                + "failed to write config"@ + ": "@ + message
        }),
        write_error(context, message).code == Some(StableErrorCode::IoWriteFailed),
        write_error(context, message).exit == Some(4i32),
{
}

/// A record begins with the scope and then with the file it is from, each where it is to be shown, and
/// each ended as the records are.
pub proof fn law_record_begins_with_its_origin(
    scope: ConfigScope,
    value: Seq<char>,
    flags: OutputFlags,
    paths: OriginPaths,
)
    ensures
        ({
            let end = if flags.null {
                "\0"@
            } else {
                "\t"@
            };
            let last = if flags.null {
                "\0"@
            } else {
                "\n"@
            };
            let file = match paths.path(scope) {
                Some(path) => "file:"@ + path,
                None => "file:"@ + scope_text(scope),
            };
            &&& flags.show_scope && flags.show_origin ==> value_record(scope, value, flags, paths)
                == scope_text(scope) + end + file + end + value + last
            &&& flags.show_scope && !flags.show_origin ==> value_record(scope, value, flags, paths)
                == scope_text(scope) + end + value + last
            &&& !flags.show_scope && flags.show_origin ==> value_record(scope, value, flags, paths) == file
                + end + value + last
        }),
{
    let end = field_end(flags);
    let last = record_end(flags);
    let file = origin_text(scope, paths);
    let none = Seq::<char>::empty();
    let s = scope_text(scope);
    assert(s + end + (file + end) + value + last =~= s + end + file + end + value + last);
    assert(s + end + none + value + last =~= s + end + value + last);
    assert(none + (file + end) + value + last =~= file + end + value + last);
    assert(value_record(scope, value, flags, paths) =~= prefix_fields(scope, flags, paths) + value + last);
}

/// An entry tells its key, what is shown of its value and where it is from; its scope and its file are
/// told apart where that was asked for.
pub proof fn law_entry_tells_its_origin(
    key: Seq<char>,
    value: Option<Seq<char>>,
    scope: ConfigScope,
    encrypted: bool,
    flags: OutputFlags,
    paths: OriginPaths,
)
    ensures
        ({
            let e = prefixed_entry(key, value, scope, encrypted, flags, paths);
            &&& e.key == key && e.value == value && e.encrypted == Some(encrypted)
            &&& e.origin == Some(scope_text(scope))
            &&& flags.show_scope ==> e.scope == Some(scope_text(scope))
            &&& !flags.show_scope ==> e.scope is None
            &&& flags.show_origin ==> e.origin_type == Some("file"@)
            &&& !flags.show_origin ==> e.origin_type is None && e.origin_path is None
            &&& flags.show_origin && scope == ConfigScope::Local ==> e.origin_path == opt_text(paths.local)
            &&& flags.show_origin && scope == ConfigScope::Global ==> e.origin_path == opt_text(paths.global)
        }),
        scope_text(ConfigScope::Local) == "local"@,
        scope_text(ConfigScope::Global) == "global"@,
{
}

} // verus!
