//! Reading and writing configuration.

use vstd::prelude::*;

use crate::clone::flow::{join_path, joined};
use crate::error::{CliError, CliErrorKind, ErrorView};
use crate::text::{clone_opt_text, concat2, concat3, concat6, contains_char, opt_text, text_eq};

pub mod assign;
pub mod get;
pub mod import;
pub mod list;
pub mod set;
pub mod values;

verus! {

/// Where values are stored.
#[derive(Debug, Clone, Copy, PartialEq, Eq, Structural)]
pub enum ConfigScope {
    /// The repository's own configuration
    Local,
    /// The user's configuration
    Global,
}

/// The path of the user's configuration: the one that the environment names, else one in the
/// home directory.
pub open spec fn global_path(env: Option<String>, home: Option<String>) -> Option<Seq<char>> {
    match env {
        Some(path) => Some(path@),
        None => match home {
            Some(home) => Some(
                joined(
                    joined(home@, ".libra"@),
                    "config.db"@,
                ),
            ),
            None => None,
        },
    }
}

impl ConfigScope {
    /// The scopes in the order in which reads prefer them.
    pub fn cascade_order() -> (r: [ConfigScope; 2])
        ensures
            r@ == seq![ConfigScope::Local, ConfigScope::Global],
    {
        let r = [ConfigScope::Local, ConfigScope::Global];
        assert(r@ =~= seq![ConfigScope::Local, ConfigScope::Global]);
        r
    }

    /// The path of the scope's database, where it has one of its own.
    pub fn get_config_path(&self, env: &Option<String>, home: &Option<String>) -> (r: Option<String>)
        ensures
            opt_text(r) == (match *self {
                ConfigScope::Local => None,
                ConfigScope::Global => global_path(*env, *home),
            }),
    {
        match self {
            ConfigScope::Local => None,
            ConfigScope::Global => match env {
                Some(path) => Some(path.clone()),
                None => match home {
                    Some(home) => {
                        let dir = join_path(home.as_str(), ".libra");
                        Some(join_path(dir.as_str(), "config.db"))
                    },
                    None => None,
                },
            },
        }
    }
}

/// What has to be made before a scope can be used.
#[derive(Debug, Clone, Copy, PartialEq, Eq, Structural)]
pub struct ScopeSetup {
    pub create_directory: bool,
    pub create_database: bool,
}

impl ConfigScope {
    /// What has to be made before the scope can be used: for the user's, the directory and the
    /// database that are not there. The repository's is made with the repository.
    pub fn ensure_config_exists(&self, path: &Option<String>, directory_exists: bool, database_exists: bool) -> (r:
        Result<ScopeSetup, String>)
        ensures
            match *self {
                ConfigScope::Local => r matches Ok(setup) && setup == (ScopeSetup {
                    create_directory: false,
                    create_database: false,
                }),
                ConfigScope::Global => match *path {
                    Some(_) => r matches Ok(setup) && setup == (ScopeSetup {
                        create_directory: !directory_exists,
                        create_database: !database_exists,
                    }),
                    None => r matches Err(e) && e@
                        == "Could not determine global config path: home directory not available"@,
                },
            },
    {
        match self {
            ConfigScope::Local => Ok(
                ScopeSetup { create_directory: false, create_database: false },
            ),
            ConfigScope::Global => if path.is_some() {
                Ok(
                    ScopeSetup {
                        create_directory: !directory_exists,
                        create_database: !database_exists,
                    },
                )
            } else {
                Err(
                    "Could not determine global config path: home directory not available".to_owned(),
                )
            },
        }
    }
}

/// Access to the database of a scope.
pub struct ScopedConfig;

impl ScopedConfig {
    /// The database that serves a scope. `storage` is the repository's storage directory, `database_exists`
    /// whether a database is in it, and `global` the path of the user's.
    pub fn get_connection(
        scope: ConfigScope,
        storage: &Option<String>,
        database_exists: bool,
        global: &Option<String>,
    ) -> (r: Result<String, String>)
        ensures
            match scope {
                ConfigScope::Local => match *storage {
                    None => r matches Err(e) && e@
                        == "fatal: not a libra repository (or any of the parent directories): .libra"@,
                    Some(dir) => {
                        let path = joined(dir@, "libra.db"@);
                        if database_exists {
                            r matches Ok(p) && p@ == path
                        } else {
                            r matches Err(e) && e@ == "fatal: libra database not found at '"@ + path
                                + "'"@
                        }
                    },
                },
                ConfigScope::Global => match *global {
                    Some(path) => r matches Ok(p) && p@ == path@,
                    None => r matches Err(e) && e@
                        == "Could not determine config path for global scope"@,
                },
            },
    {
        match scope {
            ConfigScope::Local => match storage {
                None => Err(
                    "fatal: not a libra repository (or any of the parent directories): .libra".to_owned(),
                ),
                Some(dir) => {
                    let path = join_path(dir.as_str(), "libra.db");
                    if database_exists {
                        Ok(path)
                    } else {
                        Err(concat3("fatal: libra database not found at '", path.as_str(), "'"))
                    }
                },
            },
            ConfigScope::Global => match global {
                Some(path) => Ok(path.clone()),
                None => Err("Could not determine config path for global scope".to_owned()),
            },
        }
    }
}

pub open spec fn scope_text(scope: ConfigScope) -> Seq<char> {
    match scope {
        ConfigScope::Local => "local"@,
        ConfigScope::Global => "global"@,
    }
}

pub fn scope_name(scope: ConfigScope) -> (r: &'static str)
    ensures
        r@ == scope_text(scope),
{
    match scope {
        ConfigScope::Local => "local",
        ConfigScope::Global => "global",
    }
}

impl ErrorView {
    /// A failure that is told by one text alone.
    pub open spec fn legacy(text: Seq<char>) -> ErrorView {
        ErrorView::failure(text)
    }
}

impl CliError {
    /// A failure that is told by one text alone.
    pub fn from_legacy_string(text: String) -> (r: CliError)
        ensures
            r@ == ErrorView::legacy(text@),
    {
        CliError::failure(text)
    }
}

/// Flags that Git has too.
#[derive(Debug, Clone)]
pub struct GitExtraArgs {
    /// Filter values by regex, or a literal string with `fixed_value`
    pub value_filter: Option<String>,
    /// Treat the filter as a literal string
    pub fixed_value: bool,
    /// Case-insensitive regex matching
    pub ignore_case: bool,
    /// Replace all values for a key with a single new value
    pub replace_all: bool,
    /// Rename a section
    pub rename_section: bool,
    /// Remove a section
    pub remove_section: bool,
    /// Canonicalize the value as a type: bool, int or path
    pub value_type: Option<String>,
    /// The type is bool
    pub as_bool: bool,
    /// The type is int
    pub as_int: bool,
    /// The type is path
    pub as_path: bool,
    /// Worktree-scoped config (rejected)
    pub worktree: bool,
    /// Read or write a plaintext config file (rejected)
    pub file: Option<String>,
    /// Read config from a blob (rejected)
    pub blob: Option<String>,
    /// Follow directives to other files (rejected)
    pub includes: bool,
    /// Do not follow directives to other files (rejected)
    pub no_includes: bool,
    /// Legacy color helper (rejected)
    pub get_color: bool,
    /// Legacy colorbool helper (rejected)
    pub get_colorbool: bool,
    /// Clear a value pattern (rejected)
    pub no_value: bool,
    /// Show only names (rejected)
    pub show_names: bool,
    /// Hide names (rejected)
    pub no_show_names: bool,
    /// Clear the value type (rejected)
    pub no_type: bool,
    /// URL-matched lookup (rejected)
    pub url: Option<String>,
    /// URL-matched lookup (rejected)
    pub get_urlmatch: bool,
}

impl Default for GitExtraArgs {
    fn default() -> (r: GitExtraArgs)
        ensures
            r == (GitExtraArgs {
                value_filter: None,
                fixed_value: false,
                ignore_case: false,
                replace_all: false,
                rename_section: false,
                remove_section: false,
                value_type: None,
                as_bool: false,
                as_int: false,
                as_path: false,
                worktree: false,
                file: None,
                blob: None,
                includes: false,
                no_includes: false,
                get_color: false,
                get_colorbool: false,
                no_value: false,
                show_names: false,
                no_show_names: false,
                no_type: false,
                url: None,
                get_urlmatch: false,
            }),
    {
        GitExtraArgs {
            value_filter: None,
            fixed_value: false,
            ignore_case: false,
            replace_all: false,
            rename_section: false,
            remove_section: false,
            value_type: None,
            as_bool: false,
            as_int: false,
            as_path: false,
            worktree: false,
            file: None,
            blob: None,
            includes: false,
            no_includes: false,
            get_color: false,
            get_colorbool: false,
            no_value: false,
            show_names: false,
            no_show_names: false,
            no_type: false,
            url: None,
            get_urlmatch: false,
        }
    }
}

/// What `config` was asked to do.
#[derive(Debug, Clone)]
pub struct ConfigArgs {
    pub command: Option<ConfigCommand>,
    pub get: bool,
    pub get_all: bool,
    pub unset: bool,
    pub unset_all: bool,
    pub list: bool,
    pub add: bool,
    pub import: bool,
    pub get_regexp: bool,
    /// Show where each value is stored
    pub show_origin: bool,
    /// Show the scope of each value
    pub show_scope: bool,
    /// NUL-delimit output records
    pub null: bool,
    /// Show only key names
    pub name_only: bool,
    /// Reveal encrypted values
    pub reveal: bool,
    pub extra: GitExtraArgs,
    /// Use the repository's configuration
    pub local: bool,
    /// Use the user's configuration
    pub global: bool,
    /// System scope (always an error)
    pub system: bool,
    pub key: Option<String>,
    pub valuepattern: Option<String>,
    /// Value where the key is not found
    pub default: Option<String>,
}

/// A subcommand of `config`.
#[derive(Debug, Clone)]
pub enum ConfigCommand {
    /// Set a configuration value
    Assign {
        key: String,
        value: Option<String>,
        add: bool,
        append: bool,
        all: bool,
        encrypt: bool,
        plaintext: bool,
        stdin: bool,
    },
    /// Get a configuration value
    Get { key: String, all: bool, reveal: bool, regexp: bool, default: Option<String> },
    /// List configuration entries
    List { vault: bool, ssh_keys: bool, gpg_keys: bool },
    /// Remove a configuration entry
    Unset { key: String, all: bool },
    /// Rename a configuration section
    RenameSection { old_name: String, new_name: String },
    /// Remove a configuration section and all of its keys
    RemoveSection { section: String },
    /// Import configuration from Git
    Import,
    /// Show the path of the database
    Path,
    /// Open the configuration in an editor (not supported)
    Edit,
    /// Generate an SSH key for a remote
    GenerateSshKey { remote: String },
    /// Generate a GPG key for signing
    GenerateGpgKey { name: Option<String>, email: Option<String>, usage: Option<String> },
}

/// How records are shown.
#[derive(Debug, Clone, Copy, PartialEq, Eq, Structural)]
pub struct OutputFlags {
    /// NUL-delimit records
    pub null: bool,
    /// Put the scope before each record
    pub show_scope: bool,
    /// Put the origin before each record
    pub show_origin: bool,
    /// Show key names only
    pub name_only: bool,
}

pub open spec fn output_flags(args: ConfigArgs) -> OutputFlags {
    OutputFlags {
        null: args.null,
        show_scope: args.show_scope,
        show_origin: args.show_origin,
        name_only: args.name_only,
    }
}

impl OutputFlags {
    pub fn from_args(args: &ConfigArgs) -> (r: OutputFlags)
        ensures
            r == output_flags(*args),
    {
        OutputFlags {
            null: args.null,
            show_scope: args.show_scope,
            show_origin: args.show_origin,
            name_only: args.name_only,
        }
    }

    /// Whether something stands before each record.
    pub fn prefixed(&self) -> (r: bool)
        ensures
            r == (self.show_scope || self.show_origin),
    {
        self.show_scope || self.show_origin
    }
}

/// A filter on values, as it was asked for.
#[derive(Debug, Clone)]
pub struct ValueFilterSpec {
    pub pattern: Option<String>,
    pub fixed: bool,
    pub ignore_case: bool,
}

pub open spec fn filter_spec(args: ConfigArgs) -> ValueFilterSpec {
    ValueFilterSpec {
        pattern: args.extra.value_filter,
        fixed: args.extra.fixed_value,
        ignore_case: args.extra.ignore_case,
    }
}

impl ValueFilterSpec {
    pub fn from_args(args: &ConfigArgs) -> (r: ValueFilterSpec)
        ensures
            r == filter_spec(*args),
    {
        ValueFilterSpec {
            pattern: clone_opt_text(&args.extra.value_filter),
            fixed: args.extra.fixed_value,
            ignore_case: args.extra.ignore_case,
        }
    }
}

/// What is to be done, however it was asked for.
#[derive(Debug)]
pub enum ResolvedCommand {
    Assign {
        key: String,
        value: Option<String>,
        add: bool,
        replace_all: bool,
        encrypt: bool,
        plaintext: bool,
        stdin: bool,
        filter: ValueFilterSpec,
    },
    Get {
        key: String,
        all: bool,
        reveal: bool,
        regexp: bool,
        default: Option<String>,
        flags: OutputFlags,
        filter: ValueFilterSpec,
    },
    List { flags: OutputFlags, vault: bool, ssh_keys: bool, gpg_keys: bool },
    Unset { key: String, all: bool, filter: ValueFilterSpec },
    RenameSection { old_name: String, new_name: String },
    RemoveSection { section: String },
    Import,
    Path,
    Edit,
    GenerateSshKey { remote: String },
    GenerateGpgKey { name: Option<String>, email: Option<String>, usage: Option<String> },
}

/// What a subcommand asks for.
pub open spec fn subcommand(args: ConfigArgs, cmd: ConfigCommand) -> ResolvedCommand {
    match cmd {
        ConfigCommand::Assign { key, value, add, append, all, encrypt, plaintext, stdin } => ResolvedCommand::Assign {
            key,
            value,
            add: add || append,
            replace_all: all || args.extra.replace_all,
            encrypt,
            plaintext,
            stdin,
            filter: filter_spec(args),
        },
        ConfigCommand::Get { key, all, reveal, regexp, default } => ResolvedCommand::Get {
            key,
            all,
            reveal,
            regexp,
            default,
            flags: output_flags(args),
            filter: filter_spec(args),
        },
        ConfigCommand::List { vault, ssh_keys, gpg_keys } => ResolvedCommand::List {
            flags: output_flags(args),
            vault,
            ssh_keys,
            gpg_keys,
        },
        ConfigCommand::Unset { key, all } => ResolvedCommand::Unset {
            key,
            all,
            filter: filter_spec(args),
        },
        ConfigCommand::RenameSection { old_name, new_name } => ResolvedCommand::RenameSection {
            old_name,
            new_name,
        },
        ConfigCommand::RemoveSection { section } => ResolvedCommand::RemoveSection { section },
        ConfigCommand::Import => ResolvedCommand::Import,
        ConfigCommand::Path => ResolvedCommand::Path,
        ConfigCommand::Edit => ResolvedCommand::Edit,
        ConfigCommand::GenerateSshKey { remote } => ResolvedCommand::GenerateSshKey { remote },
        ConfigCommand::GenerateGpgKey { name, email, usage } => ResolvedCommand::GenerateGpgKey {
            name,
            email,
            usage,
        },
    }
}

pub open spec fn legacy_exit(text: Seq<char>, exit: i32) -> ErrorView {
    ErrorView::legacy(text).exits(exit)
}

fn legacy_error(text: &str, exit: i32) -> (r: CliError)
    ensures
        r@ == legacy_exit(text@, exit),
{
    CliError::from_legacy_string(text.to_owned()).with_exit_code(exit)
}

pub open spec fn key_is(args: ConfigArgs, word: Seq<char>) -> bool {
    opt_text(args.key) == Some(word)
}

/// A set of one value by flags.
pub open spec fn flag_set(args: ConfigArgs, key: String, value: Option<String>, add: bool, replace_all: bool) -> ResolvedCommand {
    ResolvedCommand::Assign {
        key,
        value,
        add,
        replace_all,
        encrypt: false,
        plaintext: false,
        stdin: false,
        filter: filter_spec(args),
    }
}

/// A get by flags.
pub open spec fn flag_get(args: ConfigArgs, key: String, all: bool, regexp: bool) -> ResolvedCommand {
    ResolvedCommand::Get {
        key,
        all,
        reveal: args.reveal,
        regexp,
        default: args.default,
        flags: output_flags(args),
        filter: filter_spec(args),
    }
}

/// The error for a key without a section.
pub open spec fn no_section_error(key: Seq<char>) -> ErrorView {
    let text = "error: key does not contain a section: "@ + key;
    legacy_exit(
        if key == "init"@ || key == "clone"@ {
            text + "\n\nhint: `"@ + key + "` is a top-level command. Try `libra "@ + key + "`."@
        } else {
            text
        },
        1,
    )
}

/// What flags with a key ask for.
pub open spec fn keyed_command(args: ConfigArgs, key: String) -> Result<ResolvedCommand, ErrorView> {
    if !args.get_regexp && !key@.contains('.') {
        Err(no_section_error(key@))
    } else if args.default is Some && !args.get && !args.get_all && !args.get_regexp {
        Err(
            legacy_exit(
                "error: --default (-d) can only be used with --get, --get-all, or --get-regexp"@,
                2,
            ),
        )
    } else if args.get_regexp {
        Ok(flag_get(args, key, false, true))
    } else if args.get {
        Ok(flag_get(args, key, false, false))
    } else if args.get_all {
        Ok(flag_get(args, key, true, false))
    } else if args.unset {
        Ok(ResolvedCommand::Unset { key, all: false, filter: filter_spec(args) })
    } else if args.unset_all {
        Ok(ResolvedCommand::Unset { key, all: true, filter: filter_spec(args) })
    } else if args.add || args.extra.replace_all {
        match args.valuepattern {
            Some(value) => Ok(flag_set(args, key, Some(value), args.add, !args.add)),
            None => Err(legacy_exit("error: missing required argument: <value>"@, 2)),
        }
    } else {
        Ok(flag_set(args, key, args.valuepattern, false, false))
    }
}

/// What the arguments ask for: the subcommand, or what the flags mean, or what is wrong.
pub open spec fn resolved(args: ConfigArgs) -> Result<ResolvedCommand, ErrorView> {
    match args.command {
        Some(cmd) => Ok(subcommand(args, cmd)),
        None => if args.extra.rename_section {
            match (args.key, args.valuepattern) {
                (Some(old_name), Some(new_name)) => Ok(
                    ResolvedCommand::RenameSection { old_name, new_name },
                ),
                _ => Err(legacy_exit("error: --rename-section requires <old> <new>"@, 2)),
            }
        } else if args.extra.remove_section {
            match (args.key, args.valuepattern) {
                (None, _) => Err(legacy_exit("error: --remove-section requires <section>"@, 2)),
                (Some(_), Some(_)) => Err(
                    legacy_exit("error: --remove-section takes exactly one <section>"@, 2),
                ),
                (Some(section), None) => Ok(ResolvedCommand::RemoveSection { section }),
            }
        } else if args.list {
            Ok(
                ResolvedCommand::List {
                    flags: output_flags(args),
                    vault: false,
                    ssh_keys: false,
                    gpg_keys: false,
                },
            )
        } else if args.import || key_is(args, "import"@) {
            if args.import && args.key is Some {
                Err(ErrorView::legacy("error: `libra config --import` does not accept <key>"@))
            } else {
                Ok(ResolvedCommand::Import)
            }
        } else if key_is(args, "edit"@) {
            Ok(ResolvedCommand::Edit)
        } else if key_is(args, "path"@) {
            Ok(ResolvedCommand::Path)
        } else {
            match args.key {
                None => Err(legacy_exit("error: missing required argument: <key>"@, 2)),
                Some(key) => keyed_command(args, key),
            }
        },
    }
}

pub open spec fn command_matches(r: Result<ResolvedCommand, CliError>, want: Result<ResolvedCommand, ErrorView>) -> bool {
    match (r, want) {
        (Ok(got), Ok(cmd)) => got == cmd,
        (Err(e), Err(view)) => e@ == view,
        _ => false,
    }
}

fn resolve_subcommand(args: &ConfigArgs, cmd: &ConfigCommand) -> (r: ResolvedCommand)
    ensures
        r == subcommand(*args, *cmd),
{
    match cmd {
        ConfigCommand::Assign { key, value, add, append, all, encrypt, plaintext, stdin } => ResolvedCommand::Assign {
            key: key.clone(),
            value: clone_opt_text(value),
            add: *add || *append,
            replace_all: *all || args.extra.replace_all,
            encrypt: *encrypt,
            plaintext: *plaintext,
            stdin: *stdin,
            filter: ValueFilterSpec::from_args(args),
        },
        ConfigCommand::Get { key, all, reveal, regexp, default } => ResolvedCommand::Get {
            key: key.clone(),
            all: *all,
            reveal: *reveal,
            regexp: *regexp,
            default: clone_opt_text(default),
            flags: OutputFlags::from_args(args),
            filter: ValueFilterSpec::from_args(args),
        },
        ConfigCommand::List { vault, ssh_keys, gpg_keys } => ResolvedCommand::List {
            flags: OutputFlags::from_args(args),
            vault: *vault,
            ssh_keys: *ssh_keys,
            gpg_keys: *gpg_keys,
        },
        ConfigCommand::Unset { key, all } => ResolvedCommand::Unset {
            key: key.clone(),
            all: *all,
            filter: ValueFilterSpec::from_args(args),
        },
        ConfigCommand::RenameSection { old_name, new_name } => ResolvedCommand::RenameSection {
            old_name: old_name.clone(),
            new_name: new_name.clone(),
        },
        ConfigCommand::RemoveSection { section } => ResolvedCommand::RemoveSection {
            section: section.clone(),
        },
        ConfigCommand::Import => ResolvedCommand::Import,
        ConfigCommand::Path => ResolvedCommand::Path,
        ConfigCommand::Edit => ResolvedCommand::Edit,
        ConfigCommand::GenerateSshKey { remote } => ResolvedCommand::GenerateSshKey {
            remote: remote.clone(),
        },
        ConfigCommand::GenerateGpgKey { name, email, usage } => ResolvedCommand::GenerateGpgKey {
            name: clone_opt_text(name),
            email: clone_opt_text(email),
            usage: clone_opt_text(usage),
        },
    }
}

fn get_command(args: &ConfigArgs, key: &String, all: bool, regexp: bool) -> (r: ResolvedCommand)
    ensures
        r == flag_get(*args, *key, all, regexp),
{
    ResolvedCommand::Get {
        key: key.clone(),
        all,
        reveal: args.reveal,
        regexp,
        default: clone_opt_text(&args.default),
        flags: OutputFlags::from_args(args),
        filter: ValueFilterSpec::from_args(args),
    }
}

fn set_command(args: &ConfigArgs, key: &String, add: bool, replace_all: bool) -> (r: ResolvedCommand)
    ensures
        r == flag_set(*args, *key, args.valuepattern, add, replace_all),
{
    ResolvedCommand::Assign {
        key: key.clone(),
        value: clone_opt_text(&args.valuepattern),
        add,
        replace_all,
        encrypt: false,
        plaintext: false,
        stdin: false,
        filter: ValueFilterSpec::from_args(args),
    }
}

fn resolve_keyed_command(args: &ConfigArgs, key: &String) -> (r: Result<ResolvedCommand, CliError>)
    ensures
        command_matches(r, keyed_command(*args, *key)),
{
    if !args.get_regexp && !contains_char(key.as_str(), '.') {
        let text = concat2("error: key does not contain a section: ", key.as_str());
        if text_eq(key.as_str(), "init") || text_eq(key.as_str(), "clone") {
            let more = concat6(
                text.as_str(),
                "\n\nhint: `",
                key.as_str(),
                "` is a top-level command. Try `libra ",
                key.as_str(),
                "`.",
            );
            return Err(legacy_error(more.as_str(), 1));
        }
        return Err(legacy_error(text.as_str(), 1));
    }
    if args.default.is_some() && !args.get && !args.get_all && !args.get_regexp {
        return Err(
            legacy_error(
                "error: --default (-d) can only be used with --get, --get-all, or --get-regexp",
                2,
            ),
        );
    }
    if args.get_regexp {
        return Ok(get_command(args, key, false, true));
    }
    if args.get {
        return Ok(get_command(args, key, false, false));
    }
    if args.get_all {
        return Ok(get_command(args, key, true, false));
    }
    if args.unset {
        return Ok(
            ResolvedCommand::Unset {
                key: key.clone(),
                all: false,
                filter: ValueFilterSpec::from_args(args),
            },
        );
    }
    if args.unset_all {
        return Ok(
            ResolvedCommand::Unset {
                key: key.clone(),
                all: true,
                filter: ValueFilterSpec::from_args(args),
            },
        );
    }
    if args.add || args.extra.replace_all {
        if args.valuepattern.is_none() {
            return Err(legacy_error("error: missing required argument: <value>", 2));
        }
        return Ok(set_command(args, key, args.add, !args.add));
    }
    Ok(set_command(args, key, false, false))
}

/// Resolve the subcommand: either explicit, or what the flags mean.
pub fn resolve_command(args: &ConfigArgs) -> (r: Result<ResolvedCommand, CliError>)
    ensures
        command_matches(r, resolved(*args)),
{
    if let Some(cmd) = &args.command {
        return Ok(resolve_subcommand(args, cmd));
    }
    if args.extra.rename_section {
        return match (&args.key, &args.valuepattern) {
            (Some(old_name), Some(new_name)) => Ok(
                ResolvedCommand::RenameSection {
                    old_name: old_name.clone(),
                    new_name: new_name.clone(),
                },
            ),
            _ => Err(legacy_error("error: --rename-section requires <old> <new>", 2)),
        };
    }
    if args.extra.remove_section {
        return match (&args.key, &args.valuepattern) {
            (None, _) => Err(legacy_error("error: --remove-section requires <section>", 2)),
            (Some(_), Some(_)) => Err(
                legacy_error("error: --remove-section takes exactly one <section>", 2),
            ),
            (Some(section), None) => Ok(
                ResolvedCommand::RemoveSection { section: section.clone() },
            ),
        };
    }
    if args.list {
        return Ok(
            ResolvedCommand::List {
                flags: OutputFlags::from_args(args),
                vault: false,
                ssh_keys: false,
                gpg_keys: false,
            },
        );
    }
    let (import, edit, path) = match &args.key {
        Some(k) => (
            text_eq(k.as_str(), "import"),
            text_eq(k.as_str(), "edit"),
            text_eq(k.as_str(), "path"),
        ),
        None => (false, false, false),
    };
    if args.import || import {
        if args.import && args.key.is_some() {
            return Err(
                CliError::from_legacy_string(
                    "error: `libra config --import` does not accept <key>".to_owned(),
                ),
            );
        }
        return Ok(ResolvedCommand::Import);
    }
    if edit {
        return Ok(ResolvedCommand::Edit);
    }
    if path {
        return Ok(ResolvedCommand::Path);
    }
    match &args.key {
        None => Err(legacy_error("error: missing required argument: <key>", 2)),
        Some(key) => resolve_keyed_command(args, key),
    }
}

/// The type that values are brought into.
#[derive(Debug, Clone, Copy, PartialEq, Eq, Structural)]
pub enum ConfigType {
    Bool,
    Int,
    Path,
}

/// What is wrong with the name of a type, or the type that it names.
pub open spec fn named_type(name: Seq<char>) -> Result<ConfigType, ErrorView> {
    if name == "bool"@ {
        Ok(ConfigType::Bool)
    } else if name == "int"@ {
        Ok(ConfigType::Int)
    } else if name == "path"@ {
        Ok(ConfigType::Path)
    } else if name == "bool-or-int"@ || name == "expiry-date"@ || name == "color"@ {
        Err(ErrorView::usage("--type="@ + name + " is not yet supported by Libra config"@))
    } else {
        Err(ErrorView::usage("unknown --type value: "@ + name))
    }
}

pub open spec fn picked(flag: bool, ty: ConfigType) -> Seq<ConfigType> {
    if flag {
        seq![ty]
    } else {
        Seq::empty()
    }
}

/// The types that flags pick, in a fixed order.
pub open spec fn flag_types(extra: GitExtraArgs) -> Seq<ConfigType> {
    picked(extra.as_bool, ConfigType::Bool) + picked(extra.as_int, ConfigType::Int) + picked(
        extra.as_path,
        ConfigType::Path,
    )
}

/// The one type that was asked for, if any; two are an error.
pub open spec fn chosen_type(args: ConfigArgs) -> Result<Option<ConfigType>, ErrorView> {
    let by_flags = flag_types(args.extra);
    let by_name = match args.extra.value_type {
        None => Ok(Seq::empty()),
        Some(name) => match named_type(name@) {
            Ok(ty) => Ok(seq![ty]),
            Err(e) => Err(e),
        },
    };
    match by_name {
        Err(e) => Err(e),
        Ok(more) => {
            let picks = by_flags + more;
            if args.extra.no_type {
                Err(ErrorView::usage("--no-type is not supported by Libra config"@))
            } else if picks.len() > 1 {
                Err(
                    ErrorView::usage(
                        "multiple type selectors specified (--type / --bool / --int / --path)"@,
                    ),
                )
            } else if picks.len() == 1 {
                Ok(Some(picks[0]))
            } else {
                Ok(None)
            }
        },
    }
}

/// Collapse the type flags into at most one type.
pub fn resolve_type(args: &ConfigArgs) -> (r: Result<Option<ConfigType>, CliError>)
    ensures
        match (r, chosen_type(*args)) {
            (Ok(got), Ok(want)) => got == want,
            (Err(e), Err(want)) => e@ == want,
            _ => false,
        },
{
    let mut picks: Vec<ConfigType> = Vec::new();
    if args.extra.as_bool {
        picks.push(ConfigType::Bool);
    }
    if args.extra.as_int {
        picks.push(ConfigType::Int);
    }
    if args.extra.as_path {
        picks.push(ConfigType::Path);
    }
    assert(picks@ =~= flag_types(args.extra));
    let ghost by_flags = picks@;
    let ghost mut more: Seq<ConfigType> = Seq::empty();
    if let Some(name) = &args.extra.value_type {
        let t = name.as_str();
        if text_eq(t, "bool") {
            picks.push(ConfigType::Bool);
            proof {
                more = seq![ConfigType::Bool];
            }
        } else if text_eq(t, "int") {
            picks.push(ConfigType::Int);
            proof {
                more = seq![ConfigType::Int];
            }
        } else if text_eq(t, "path") {
            picks.push(ConfigType::Path);
            proof {
                more = seq![ConfigType::Path];
            }
        } else if text_eq(t, "bool-or-int") || text_eq(t, "expiry-date") || text_eq(t, "color") {
            return Err(
                CliError::command_usage(
                    concat3("--type=", t, " is not yet supported by Libra config"),
                ),
            );
        } else {
            return Err(CliError::command_usage(concat2("unknown --type value: ", t)));
        }
    }
    assert(picks@ =~= by_flags + more);
    if args.extra.no_type {
        return Err(
            CliError::command_usage("--no-type is not supported by Libra config".to_owned()),
        );
    }
    if picks.len() > 1 {
        return Err(
            CliError::command_usage(
                "multiple type selectors specified (--type / --bool / --int / --path)".to_owned(),
            ),
        );
    }
    if picks.len() == 1 {
        Ok(Some(picks[0]))
    } else {
        Ok(None)
    }
}

pub fn get_scope(args: &ConfigArgs) -> (r: ConfigScope)
    ensures
        r == if args.global {
            ConfigScope::Global
        } else {
            ConfigScope::Local
        },
{
    if args.global {
        ConfigScope::Global
    } else {
        ConfigScope::Local
    }
}

pub fn has_explicit_scope(args: &ConfigArgs) -> (r: bool)
    ensures
        r == (args.local || args.global || args.system),
{
    args.local || args.global || args.system
}

/// The first flag that cannot be honoured, and what is said of it.
pub open spec fn rejected_flag(args: ConfigArgs) -> Option<Seq<char>> {
    if args.system {
        Some("--system scope is not supported\n\nhint: use --local or --global"@)
    } else if args.extra.worktree {
        Some(
            "--worktree scope is not supported by Libra's SQLite/vault-backed config\n\nhint: use --local or --global"@,
        )
    } else if args.extra.file is Some {
        Some(
            "--file is not supported (config is SQLite/vault-backed)\n\nhint: to import a Git config file use `libra config --import`"@,
        )
    } else if args.extra.blob is Some {
        Some("--blob is not supported: Libra config is SQLite/vault-backed, not blob-backed"@)
    } else if args.extra.includes || args.extra.no_includes {
        Some(
            "include directives are not supported: they are not part of Libra's SQLite-backed config"@,
        )
    } else if args.extra.get_color || args.extra.get_colorbool {
        Some(
            "--get-color / --get-colorbool are deferred legacy color helpers and not yet supported"@,
        )
    } else if args.extra.no_value || args.extra.show_names || args.extra.no_show_names {
        Some("--no-value / --show-names / --no-show-names are not supported by Libra config"@)
    } else if args.extra.url is Some || args.extra.get_urlmatch {
        Some(
            "--url / --get-urlmatch are deferred advanced Git compatibility features and not yet supported"@,
        )
    } else {
        None
    }
}

fn reject_flags(args: &ConfigArgs) -> (r: Option<&'static str>)
    ensures
        match (r, rejected_flag(*args)) {
            (Some(got), Some(want)) => got@ == want,
            (None, None) => true,
            _ => false,
        },
{
    if args.system {
        Some("--system scope is not supported\n\nhint: use --local or --global")
    } else if args.extra.worktree {
        Some(
            "--worktree scope is not supported by Libra's SQLite/vault-backed config\n\nhint: use --local or --global",
        )
    } else if args.extra.file.is_some() {
        Some(
            "--file is not supported (config is SQLite/vault-backed)\n\nhint: to import a Git config file use `libra config --import`",
        )
    } else if args.extra.blob.is_some() {
        Some("--blob is not supported: Libra config is SQLite/vault-backed, not blob-backed")
    } else if args.extra.includes || args.extra.no_includes {
        Some(
            "include directives are not supported: they are not part of Libra's SQLite-backed config",
        )
    } else if args.extra.get_color || args.extra.get_colorbool {
        Some(
            "--get-color / --get-colorbool are deferred legacy color helpers and not yet supported",
        )
    } else if args.extra.no_value || args.extra.show_names || args.extra.no_show_names {
        Some("--no-value / --show-names / --no-show-names are not supported by Libra config")
    } else if args.extra.url.is_some() || args.extra.get_urlmatch {
        Some(
            "--url / --get-urlmatch are deferred advanced Git compatibility features and not yet supported",
        )
    } else {
        None
    }
}

/// What is to be done, with which type, in which scope, and whether reads go on to other scopes.
#[derive(Debug)]
pub struct ConfigPlan {
    pub command: ResolvedCommand,
    pub config_type: Option<ConfigType>,
    pub scope: ConfigScope,
    pub use_cascade: bool,
}

/// Whether a type has no place with a command.
pub open spec fn untyped(cmd: ResolvedCommand) -> bool {
    cmd is List || cmd is RenameSection || cmd is RemoveSection
}

/// What the arguments ask for, or the first thing that is wrong with them: a flag that cannot be
/// honoured, the type, the command, a type that has no place there, or NUL-delimited input.
pub open spec fn planned(args: ConfigArgs) -> Result<ConfigPlan, ErrorView> {
    match rejected_flag(args) {
        Some(text) => Err(ErrorView::usage(text)),
        None => match chosen_type(args) {
            Err(e) => Err(e),
            Ok(config_type) => match resolved(args) {
                Err(e) => Err(e),
                Ok(command) => if config_type is Some && untyped(command) {
                    Err(
                        ErrorView::usage(
                            "--type can only be used with get/get-all/get-regexp or set"@,
                        ),
                    )
                } else if args.null && (command matches ResolvedCommand::Assign { stdin, .. } && stdin) {
                    Err(
                        ErrorView::usage(
                            "--null controls output delimiters and cannot be used to parse stdin values"@,
                        ),
                    )
                } else if command is Edit {
                    Err(ErrorView::legacy(edit_text()))
                } else {
                    Ok(
                        ConfigPlan {
                            command,
                            config_type,
                            scope: if args.global {
                                ConfigScope::Global
                            } else {
                                ConfigScope::Local
                            },
                            use_cascade: !(args.local || args.global || args.system),
                        },
                    )
                },
            },
        },
    }
}

pub open spec fn edit_text() -> Seq<char> {
    "error: config edit is not supported (SQLite storage does not support text-based editing)\n\nhint: use libra config set/unset/list to manage configuration\nhint: use libra config list --name-only to see all keys"@
}

/// Decide what is to be done, before anything is read or written.
pub fn execute_inner(args: &ConfigArgs) -> (r: Result<ConfigPlan, CliError>)
    ensures
        match (r, planned(*args)) {
            (Ok(got), Ok(want)) => got == want,
            (Err(e), Err(want)) => e@ == want,
            _ => false,
        },
{
    if let Some(text) = reject_flags(args) {
        return Err(CliError::command_usage(text.to_owned()));
    }
    let config_type = match resolve_type(args) {
        Ok(t) => t,
        Err(e) => {
            return Err(e);
        },
    };
    let scope = get_scope(args);
    let use_cascade = !has_explicit_scope(args);
    let command = match resolve_command(args) {
        Ok(command) => command,
        Err(e) => {
            return Err(e);
        },
    };
    let no_type = match &command {
        ResolvedCommand::List { .. } => true,
        ResolvedCommand::RenameSection { .. } => true,
        ResolvedCommand::RemoveSection { .. } => true,
        _ => false,
    };
    if config_type.is_some() && no_type {
        return Err(
            CliError::command_usage(
                "--type can only be used with get/get-all/get-regexp or set".to_owned(),
            ),
        );
    }
    let from_stdin = match &command {
        ResolvedCommand::Assign { stdin, .. } => *stdin,
        _ => false,
    };
    if args.null && from_stdin {
        return Err(
            CliError::command_usage(
                "--null controls output delimiters and cannot be used to parse stdin values".to_owned(),
            ),
        );
    }
    if let ResolvedCommand::Edit = &command {
        return Err(
            CliError::from_legacy_string(
                "error: config edit is not supported (SQLite storage does not support text-based editing)\n\nhint: use libra config set/unset/list to manage configuration\nhint: use libra config list --name-only to see all keys".to_owned(),
            ),
        );
    }
    Ok(ConfigPlan { command, config_type, scope, use_cascade })
}

/// A scope that was named is the only one that is read, and the system scope is always refused
/// before anything else.
pub proof fn law_scope_flags(args: ConfigArgs)
    ensures
        args.system ==> planned(args) is Err,
        planned(args) matches Ok(plan) ==> {
            &&& plan.use_cascade <==> !args.local && !args.global
            &&& plan.scope == ConfigScope::Global <==> args.global
        },
{
}

/// A subcommand does what it is called, with what was given to it and nothing else.
pub proof fn law_subcommands_do_what_they_are_called(args: ConfigArgs)
    ensures
        args.command matches Some(cmd) ==> (resolved(args) matches Ok(done) && match cmd {
            ConfigCommand::Assign { key, value, add, append, all, encrypt, plaintext, stdin } => done
                matches ResolvedCommand::Assign {
                key: k,
                value: v,
                add: a,
                replace_all,
                encrypt: e,
                plaintext: p,
                stdin: i,
                filter,
            } && k == key && v == value && (a <==> add || append) && (replace_all <==> all
                || args.extra.replace_all) && e == encrypt && p == plaintext && i == stdin
                && filter.pattern == args.extra.value_filter && filter.fixed == args.extra.fixed_value
                && filter.ignore_case == args.extra.ignore_case,
            ConfigCommand::Get { key, all, reveal, regexp, default } => done matches ResolvedCommand::Get {
                key: k,
                all: a,
                reveal: r,
                regexp: x,
                default: d,
                flags,
                filter,
            } && k == key && a == all && r == reveal && x == regexp && d == default && flags.null
                == args.null && flags.show_scope == args.show_scope && flags.show_origin
                == args.show_origin && flags.name_only == args.name_only && filter.pattern
                == args.extra.value_filter && filter.fixed == args.extra.fixed_value
                && filter.ignore_case == args.extra.ignore_case,
            ConfigCommand::List { vault, ssh_keys, gpg_keys } => done matches ResolvedCommand::List {
                flags,
                vault: v,
                ssh_keys: s,
                gpg_keys: g,
            } && v == vault && s == ssh_keys && g == gpg_keys && flags.null == args.null
                && flags.show_scope == args.show_scope && flags.show_origin == args.show_origin
                && flags.name_only == args.name_only,
            ConfigCommand::Unset { key, all } => done matches ResolvedCommand::Unset {
                key: k,
                all: a,
                filter,
            } && k == key && a == all && filter.pattern == args.extra.value_filter && filter.fixed
                == args.extra.fixed_value && filter.ignore_case == args.extra.ignore_case,
            ConfigCommand::RenameSection { old_name, new_name } => done
                == (ResolvedCommand::RenameSection { old_name, new_name }),
            ConfigCommand::RemoveSection { section } => done == (ResolvedCommand::RemoveSection {
                section,
            }),
            ConfigCommand::Import => done is Import,
            ConfigCommand::Path => done is Path,
            ConfigCommand::Edit => done is Edit,
            ConfigCommand::GenerateSshKey { remote } => done == (ResolvedCommand::GenerateSshKey {
                remote,
            }),
            ConfigCommand::GenerateGpgKey { name, email, usage } => done
                == (ResolvedCommand::GenerateGpgKey { name, email, usage }),
        }),
{
}

/// Without a subcommand the flags say what is done to the key that was given, and a key alone is read
/// or set: one flag is one action, on that key, and the value is the one behind it.
pub proof fn law_flags_say_what_is_done(args: ConfigArgs, key: String)
    requires
        args.command is None,
        !args.extra.rename_section && !args.extra.remove_section && !args.list && !args.import,
        args.key == Some(key),
        key@ != "import"@ && key@ != "edit"@ && key@ != "path"@,
    ensures
        match resolved(args) {
            Ok(ResolvedCommand::Get { key: k, all, reveal, regexp, default, flags, filter }) => {
                &&& k == key && reveal == args.reveal && default == args.default
                &&& args.get || args.get_all || args.get_regexp
                &&& regexp == args.get_regexp
                &&& all ==> args.get_all && !args.get
                &&& args.get_all && !args.get && !args.get_regexp ==> all
                &&& flags.null == args.null && flags.name_only == args.name_only && flags.show_scope
                    == args.show_scope && flags.show_origin == args.show_origin
                &&& filter.pattern == args.extra.value_filter
            },
            Ok(ResolvedCommand::Unset { key: k, all, filter }) => {
                &&& k == key && !args.get && !args.get_all && !args.get_regexp
                &&& args.unset || args.unset_all
                &&& all <==> !args.unset
                &&& filter.pattern == args.extra.value_filter
            },
            Ok(ResolvedCommand::Assign { key: k, value, add, replace_all, encrypt, plaintext, stdin, filter }) => {
                &&& k == key && value == args.valuepattern && !encrypt && !plaintext && !stdin
                &&& !args.get && !args.get_all && !args.get_regexp && !args.unset && !args.unset_all
                &&& add == args.add
                &&& replace_all <==> args.extra.replace_all && !args.add
                &&& args.add || args.extra.replace_all ==> value is Some
                &&& filter.pattern == args.extra.value_filter
            },
            Ok(_) => false,
            Err(_) => (!args.get_regexp && !key@.contains('.')) || (args.default is Some && !args.get
                && !args.get_all && !args.get_regexp) || ((args.add || args.extra.replace_all)
                && args.valuepattern is None),
        },
{
}

/// Sections are renamed and removed by the names that were given; a listing lists; an import imports.
pub proof fn law_other_flags_say_what_is_done(args: ConfigArgs)
    requires
        args.command is None,
    ensures
        args.extra.rename_section ==> match resolved(args) {
            Ok(cmd) => cmd matches ResolvedCommand::RenameSection { old_name, new_name } && args.key
                == Some(old_name) && args.valuepattern == Some(new_name),
            Err(_) => args.key is None || args.valuepattern is None,
        },
        !args.extra.rename_section && args.extra.remove_section ==> match resolved(args) {
            Ok(cmd) => cmd matches ResolvedCommand::RemoveSection { section } && args.key == Some(section)
                && args.valuepattern is None,
            Err(_) => args.key is None || args.valuepattern is Some,
        },
        !args.extra.rename_section && !args.extra.remove_section && args.list ==> (resolved(args)
            matches Ok(ResolvedCommand::List { flags, vault, ssh_keys, gpg_keys }) && !vault && !ssh_keys
            && !gpg_keys && flags.name_only == args.name_only && flags.null == args.null),
        !args.extra.rename_section && !args.extra.remove_section && !args.list && args.import
            && args.key is None ==> resolved(args) == Ok::<ResolvedCommand, ErrorView>(
            ResolvedCommand::Import,
        ),
{
}

/// The type of a value is the one that was asked for, by its flag or by its name; two are an error, and
/// none is none.
pub proof fn law_type_is_the_one_asked_for(args: ConfigArgs)
    ensures
        match chosen_type(args) {
            Ok(Some(ty)) => {
                &&& ty == ConfigType::Bool <==> args.extra.as_bool || opt_text(args.extra.value_type)
                    == Some("bool"@)
                &&& ty == ConfigType::Int <==> args.extra.as_int || opt_text(args.extra.value_type)
                    == Some("int"@)
                &&& ty == ConfigType::Path <==> args.extra.as_path || opt_text(args.extra.value_type)
                    == Some("path"@)
            },
            Ok(None) => !args.extra.as_bool && !args.extra.as_int && !args.extra.as_path
                && args.extra.value_type is None,
            Err(_) => args.extra.no_type || args.extra.value_type is Some || (args.extra.as_bool
                && args.extra.as_int) || (args.extra.as_bool && args.extra.as_path) || (
            args.extra.as_int && args.extra.as_path),
        },
        args.extra.no_type ==> chosen_type(args) is Err,
{
    reveal_strlit("bool");
    reveal_strlit("int");
    reveal_strlit("path");
    assert("bool"@.len() == 4 && "int"@.len() == 3 && "path"@.len() == 4);
    assert("bool"@ != "path"@) by {
        assert("bool"@[0] != "path"@[0]);
    }
    let e = args.extra;
    let picks = flag_types(e);
    assert(picks.len() == (if e.as_bool { 1int } else { 0 }) + (if e.as_int { 1int } else { 0 }) + (
    if e.as_path { 1int } else { 0 }));
}

/// What is planned is the action that was asked for, with the type that was asked for; a type on an
/// action that reads and sets no value, and a flag that is not supported, are errors.
pub proof fn law_plan_is_what_was_asked_for(args: ConfigArgs)
    ensures
        planned(args) matches Ok(plan) ==> {
            &&& resolved(args) == Ok::<ResolvedCommand, ErrorView>(plan.command)
            &&& chosen_type(args) == Ok::<Option<ConfigType>, ErrorView>(plan.config_type)
            &&& plan.config_type is Some ==> !(plan.command is List || plan.command is RenameSection
                || plan.command is RemoveSection)
            &&& !(plan.command is Edit)
            &&& !args.system && !args.extra.worktree && args.extra.file is None && args.extra.blob
                is None && !args.extra.includes && !args.extra.no_includes && !args.extra.get_color
                && !args.extra.get_colorbool && !args.extra.no_value && !args.extra.show_names
                && !args.extra.no_show_names && args.extra.url is None && !args.extra.get_urlmatch
            &&& args.null ==> !(plan.command matches ResolvedCommand::Assign { stdin, .. } && stdin)
        },
{
}

/// The global configuration is where the environment says, and else below the home directory; without
/// either it is nowhere.
pub proof fn law_place_of_the_global_configuration(env: Option<String>, home: Option<String>)
    ensures
        env matches Some(path) ==> global_path(env, home) == Some(path@),
        env is None ==> (home matches Some(h) ==> global_path(env, home) == Some(
            joined(joined(h@, ".libra"@), "config.db"@),
        )),
        env is None && home is None ==> global_path(env, home) is None,
{
}

/// A flag that the configuration cannot honour is refused, and no other is.
pub proof fn law_unsupported_flags_are_refused(args: ConfigArgs)
    ensures
        rejected_flag(args) is None <==> !args.system && !args.extra.worktree && args.extra.file is None
            && args.extra.blob is None && !args.extra.includes && !args.extra.no_includes
            && !args.extra.get_color && !args.extra.get_colorbool && !args.extra.no_value
            && !args.extra.show_names && !args.extra.no_show_names && args.extra.url is None
            && !args.extra.get_urlmatch,
        args.system ==> rejected_flag(args) == Some(
            "--system scope is not supported\n\nhint: use --local or --global"@,
        ),
{
}

/// A key without a section is refused by its name, and one that is a command of its own is pointed to it.
pub proof fn law_key_needs_a_section(args: ConfigArgs, key: String)
    ensures
        !args.get_regexp && !key@.contains('.') ==> (keyed_command(args, key) matches Err(e) && e.exit == Some(
            1i32,
        ) && ("error: key does not contain a section: "@ + key@).is_prefix_of(e.message)),
        !args.get_regexp && !key@.contains('.') && key@ != "init"@ && key@ != "clone"@ ==> (keyed_command(
            args,
            key,
        ) matches Err(e) && e.message == "error: key does not contain a section: "@ + key@),
        (args.get_regexp || key@.contains('.')) && args.default is Some && !args.get && !args.get_all
            && !args.get_regexp ==> (keyed_command(args, key) matches Err(e) && e.exit == Some(2i32)),
{
}

/// What is shown and which values are meant is told by the flags that were given, one for one.
pub proof fn law_flags_are_handed_on(args: ConfigArgs)
    ensures
        output_flags(args).null == args.null,
        output_flags(args).show_scope == args.show_scope,
        output_flags(args).show_origin == args.show_origin,
        output_flags(args).name_only == args.name_only,
        filter_spec(args).pattern == args.extra.value_filter,
        filter_spec(args).fixed == args.extra.fixed_value,
        filter_spec(args).ignore_case == args.extra.ignore_case,
{
}

/// An error that ends the command with a status of its own is a plain failure with that text.
pub proof fn law_plain_failures(text: Seq<char>, exit: i32)
    ensures
        ErrorView::legacy(text).message == text && ErrorView::legacy(text).kind == CliErrorKind::Failure
            && ErrorView::legacy(text).exit is None,
        legacy_exit(text, exit).message == text && legacy_exit(text, exit).exit == Some(exit),
{
}

} // verus!
