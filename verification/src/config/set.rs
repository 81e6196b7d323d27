//! Writing values: setting, unsetting, sections, and the keys that are generated.

use vstd::prelude::*;

use crate::config::{legacy_exit, scope_name, scope_text, ConfigScope, ConfigType, ValueFilterSpec};
use crate::config::list::{gpg_usage, ssh_key};
use crate::config::values::{
    canonical_value, canonicalize_typed_value, compiled_filter, config_read_cli_error,
    config_write_cli_error, read_error, write_error, ConfigKvEntry, OriginPaths, ValueFilter,
    ValueReading,
};
use crate::error::{CliError, ErrorView, StableErrorCode};
use crate::merge::whitespace::words_seq;
use crate::text::{
    chars_of, concat2, concat3, concat4, concat5, concat6, concat7, contains_str, decimal,
    has_infix, has_prefix, is_ascii_alnum, signed_decimal, starts_with, string_of, text_eq,
    usize_text,
};

verus! {

/// A value to be set.
#[derive(Debug)]
pub struct SetRequest {
    pub key: String,
    pub value: Option<String>,
    /// Keep the values that there are
    pub add: bool,
    /// Put the value in the place of all that there are
    pub replace_all: bool,
    pub encrypt: bool,
    pub plaintext: bool,
    /// Read the value from standard input
    pub stdin: bool,
    pub filter: ValueFilterSpec,
}

/// What is known of a key by its name, and of the pattern that its values are filtered by.
#[derive(Debug)]
pub struct KeyFacts {
    /// Why the name is malformed, if it is
    pub syntax_error: Option<String>,
    /// It names a credential of the vault itself
    pub vault_internal: bool,
    /// Its value looks as if it were a secret
    pub sensitive: bool,
    /// What the check that comes before a pattern is compiled says against it, if anything
    pub pattern_refusal: Option<String>,
}

/// What is wrong with a request to set a value, before anything is read.
pub open spec fn set_fault(req: SetRequest, facts: KeyFacts) -> Option<ErrorView> {
    match facts.syntax_error {
        Some(e) => Some(legacy_exit("error: "@ + e@, 1)),
        None => match compiled_filter(req.filter, facts.pattern_refusal) {
            Err(e) => Some(e),
            Ok(_) => if req.encrypt && req.plaintext {
                Some(ErrorView::usage("--encrypt and --plaintext are mutually exclusive"@))
            } else if req.plaintext && (facts.vault_internal || has_prefix(req.key@, "vault.env."@)) {
                Some(
                    ErrorView::failure(
                        "--plaintext cannot be used with vault internal/secret keys"@,
                    ).coded(StableErrorCode::RepoStateInvalid),
                )
            } else {
                None
            },
        },
    }
}

/// Check a request to set a value before anything is read.
pub fn check_set(req: &SetRequest, facts: &KeyFacts) -> (r: Result<Option<ValueFilter>, CliError>)
    ensures
        match (r, set_fault(*req, *facts)) {
            (Ok(filter), None) => compiled_filter(req.filter, facts.pattern_refusal) == Ok::<
                Option<ValueFilter>,
                ErrorView,
            >(filter),
            (Err(e), Some(want)) => e@ == want,
            _ => false,
        },
{
    if let Some(e) = &facts.syntax_error {
        return Err(
            CliError::from_legacy_string(concat2("error: ", e.as_str())).with_exit_code(1),
        );
    }
    let filter = match req.filter.compile(&facts.pattern_refusal) {
        Ok(f) => f,
        Err(e) => {
            return Err(e);
        },
    };
    if req.encrypt && req.plaintext {
        return Err(
            CliError::command_usage("--encrypt and --plaintext are mutually exclusive".to_owned()),
        );
    }
    if req.plaintext && (facts.vault_internal || starts_with(req.key.as_str(), "vault.env.")) {
        return Err(
            CliError::failure(
                "--plaintext cannot be used with vault internal/secret keys".to_owned(),
            ).with_stable_code(StableErrorCode::RepoStateInvalid),
        );
    }
    Ok(filter)
}

/// The values that a key already has cannot be read.
pub fn existing_values_error(scope: ConfigScope, key: &str, error: &str) -> (r: CliError)
    ensures
        r@ == read_error(
            "failed to read "@ + scope_text(scope)
                + " config while checking existing values for key '"@ + key@ + "': "@ + error@,
        ),
{
    config_read_cli_error(
        concat6(
            "failed to read ",
            scope_name(scope),
            " config while checking existing values for key '",
            key,
            "': ",
            error,
        ),
    )
}

/// Whether some of the values is stored encrypted, or plain.
pub open spec fn has_state(existing: Seq<ConfigKvEntry>, encrypted: bool) -> bool {
    exists|i: int| 0 <= i < existing.len() && (#[trigger] existing[i]).encrypted == encrypted
}

fn any_state(existing: &Vec<ConfigKvEntry>, encrypted: bool) -> (r: bool)
    ensures
        r == has_state(existing@, encrypted),
{
    let mut i: usize = 0;
    while i < existing.len()
        invariant
            i <= existing@.len(),
            forall|j: int| 0 <= j < i ==> (#[trigger] existing@[j]).encrypted != encrypted,
        decreases existing.len() - i,
    {
        if existing[i].encrypted == encrypted {
            assert(existing@[i as int].encrypted == encrypted);
            return true;
        }
        i = i + 1;
    }
    false
}

/// Where the value to set comes from.
#[derive(Debug)]
pub enum ValueSource {
    Stdin,
    Given { value: String },
    /// Ask for it without showing it
    Prompt,
}

/// Whether this is where the value comes from. `interactive` tells whether it can be asked for.
pub open spec fn is_value_source(
    r: Result<ValueSource, CliError>,
    req: SetRequest,
    facts: KeyFacts,
    existing: Seq<ConfigKvEntry>,
    interactive: bool,
) -> bool {
    if req.stdin {
        match req.value {
            Some(_) => r matches Err(e) && e@ == ErrorView::usage(
                "cannot use both value argument and --stdin"@,
            ),
            None => r matches Ok(ValueSource::Stdin),
        }
    } else {
        match req.value {
            Some(v) => r matches Ok(ValueSource::Given { value }) && value@ == v@,
            None => if !req.plaintext && (req.encrypt || facts.sensitive || has_state(existing, true)) {
                if interactive {
                    r matches Ok(ValueSource::Prompt)
                } else {
                    r matches Err(e) && e@ == legacy_exit(
                        "error: missing value for protected key '"@ + req.key@
                            + "' (non-interactive environment)"@,
                        2,
                    )
                }
            } else {
                r matches Err(e) && e@ == legacy_exit(
                    "error: missing value for key '"@ + req.key@ + "'"@,
                    2,
                )
            },
        }
    }
}

/// Decide where the value comes from. A secret may be asked for; another value may not.
pub fn value_source(
    req: &SetRequest,
    facts: &KeyFacts,
    existing: &Vec<ConfigKvEntry>,
    interactive: bool,
) -> (r: Result<ValueSource, CliError>)
    ensures
        is_value_source(r, *req, *facts, existing@, interactive),
{
    if req.stdin {
        if req.value.is_some() {
            return Err(
                CliError::command_usage("cannot use both value argument and --stdin".to_owned()),
            );
        }
        return Ok(ValueSource::Stdin);
    }
    if let Some(v) = &req.value {
        return Ok(ValueSource::Given { value: v.clone() });
    }
    let protected = !req.plaintext && (req.encrypt || facts.sensitive || any_state(existing, true));
    if protected {
        if !interactive {
            return Err(
                CliError::from_legacy_string(
                    concat3(
                        "error: missing value for protected key '",
                        req.key.as_str(),
                        "' (non-interactive environment)",
                    ),
                ).with_exit_code(2),
            );
        }
        return Ok(ValueSource::Prompt);
    }
    Err(
        CliError::from_legacy_string(
            concat3("error: missing value for key '", req.key.as_str(), "'"),
        ).with_exit_code(2),
    )
}

/// The value could not be read from its source.
pub fn input_error(prompted: bool, error: &str) -> (r: CliError)
    ensures
        r@ == ErrorView::legacy(
            (if prompted {
                "error: failed to read input: "@
            } else {
                "error: failed to read from stdin: "@
            }) + error@,
        ),
{
    if prompted {
        CliError::from_legacy_string(concat2("error: failed to read input: ", error))
    } else {
        CliError::from_legacy_string(concat2("error: failed to read from stdin: ", error))
    }
}

/// A text without the end of its last line.
pub open spec fn without_line_end(s: Seq<char>) -> Seq<char> {
    if s.len() > 0 && s.last() == '\n' {
        let t = s.drop_last();
        if t.len() > 0 && t.last() == '\r' {
            t.drop_last()
        } else {
            t
        }
    } else {
        s
    }
}

/// Take the end of the last line off what was read from standard input.
pub fn strip_line_end(s: &str) -> (r: String)
    ensures
        r@ == without_line_end(s@),
{
    let cs = chars_of(s);
    let mut n: usize = cs.len();
    if n > 0 && cs[n - 1] == '\n' {
        n = n - 1;
        if n > 0 && cs[n - 1] == '\r' {
            n = n - 1;
        }
    }
    assert(without_line_end(s@) =~= cs@.subrange(0, n as int));
    string_of(&cs, 0, n)
}

/// How a value is written.
#[derive(Debug, Clone, Copy, PartialEq, Eq, Structural)]
pub enum SetAction {
    /// Beside the values that there are
    Append,
    /// In the place of those that match, of which there may be only one where `enforce_single`
    ReplaceMatching { enforce_single: bool },
    /// In the place of the one that there is
    SetOne,
}

/// What is to be written.
#[derive(Debug)]
pub struct SetPlan {
    /// The value, in its type's form
    pub value: String,
    pub encrypt: bool,
    pub action: SetAction,
}

/// Whether the value is stored encrypted: as asked for, else as the values that there are, else by
/// the name of the key.
pub open spec fn stores_encrypted(req: SetRequest, facts: KeyFacts, existing: Seq<ConfigKvEntry>) -> bool {
    if req.encrypt {
        true
    } else if req.plaintext {
        false
    } else {
        has_state(existing, true) || facts.sensitive
    }
}

pub open spec fn set_action(req: SetRequest) -> SetAction {
    if req.add {
        SetAction::Append
    } else if req.replace_all || req.filter.pattern is Some {
        SetAction::ReplaceMatching { enforce_single: !req.replace_all }
    } else {
        SetAction::SetOne
    }
}

/// How a value is written.
pub fn action_of(req: &SetRequest) -> (r: SetAction)
    ensures
        r == set_action(*req),
{
    if req.add {
        SetAction::Append
    } else if req.replace_all || req.filter.pattern.is_some() {
        SetAction::ReplaceMatching { enforce_single: !req.replace_all }
    } else {
        SetAction::SetOne
    }
}

/// What is to be written: the text, whether it is encrypted, and how; or why it is not.
pub open spec fn planned_set(
    req: SetRequest,
    facts: KeyFacts,
    existing: Seq<ConfigKvEntry>,
    config_type: Option<ConfigType>,
    value: Seq<char>,
    reading: ValueReading,
) -> Result<(Seq<char>, bool, SetAction), ErrorView> {
    let typed = match config_type {
        Some(ConfigType::Bool) => canonical_value(ConfigType::Bool, value, reading, None),
        Some(ConfigType::Int) => canonical_value(ConfigType::Int, value, reading, None),
        _ => Ok(value),
    };
    let encrypt = stores_encrypted(req, facts, existing);
    match typed {
        Err(e) => Err(e),
        Ok(text) => if req.add && has_state(existing, !encrypt) {
            Err(
                ErrorView::legacy(
                    "error: cannot mix encrypted and plaintext values for the same key"@,
                ),
            )
        } else {
            Ok((text, encrypt, set_action(req)))
        },
    }
}

/// Plan the write of a value. A path is stored as it was given; a boolean or an integer in its one
/// form.
pub fn plan_set(
    req: &SetRequest,
    facts: &KeyFacts,
    existing: &Vec<ConfigKvEntry>,
    config_type: Option<ConfigType>,
    value: &str,
    reading: &ValueReading,
) -> (r: Result<SetPlan, CliError>)
    ensures
        match (r, planned_set(*req, *facts, existing@, config_type, value@, *reading)) {
            (Ok(plan), Ok((text, encrypt, action))) => plan.value@ == text && plan.encrypt == encrypt
                && plan.action == action,
            (Err(e), Err(want)) => e@ == want,
            _ => false,
        },
{
    let typed = match config_type {
        Some(ConfigType::Bool) => canonicalize_typed_value(ConfigType::Bool, value, reading, &None),
        Some(ConfigType::Int) => canonicalize_typed_value(ConfigType::Int, value, reading, &None),
        _ => Ok(value.to_owned()),
    };
    let text = match typed {
        Ok(text) => text,
        Err(e) => {
            return Err(e);
        },
    };
    let encrypt = if req.encrypt {
        true
    } else if req.plaintext {
        false
    } else {
        any_state(existing, true) || facts.sensitive
    };
    if req.add && any_state(existing, !encrypt) {
        return Err(
            CliError::from_legacy_string(
                "error: cannot mix encrypted and plaintext values for the same key".to_owned(),
            ),
        );
    }
    Ok(SetPlan { value: text, encrypt, action: action_of(req) })
}

/// After a value was added, all values of its key are encrypted or none is.
pub proof fn law_added_value_does_not_mix(
    req: SetRequest,
    facts: KeyFacts,
    existing: Seq<ConfigKvEntry>,
    config_type: Option<ConfigType>,
    value: Seq<char>,
    reading: ValueReading,
)
    requires
        planned_set(req, facts, existing, config_type, value, reading) is Ok,
        req.add,
    ensures
        forall|i: int|
            0 <= i < existing.len() ==> (#[trigger] existing[i]).encrypted == (planned_set(
                req,
                facts,
                existing,
                config_type,
                value,
                reading,
            )->Ok_0).1,
{
    let encrypt = stores_encrypted(req, facts, existing);
    assert forall|i: int| 0 <= i < existing.len() implies (#[trigger] existing[i]).encrypted == encrypt by {
        if existing[i].encrypted != encrypt {
            assert(has_state(existing, !encrypt));
        }
    }
}

/// A secret is stored encrypted unless plain text was asked for, and plain text cannot be asked for
/// where the key is the vault's.
pub proof fn law_secrets_are_encrypted(
    req: SetRequest,
    facts: KeyFacts,
    existing: Seq<ConfigKvEntry>,
)
    requires
        set_fault(req, facts) is None,
        facts.sensitive || has_state(existing, true),
    ensures
        stores_encrypted(req, facts, existing) <==> !req.plaintext,
        facts.vault_internal || has_prefix(req.key@, "vault.env."@) ==> stores_encrypted(
            req,
            facts,
            existing,
        ),
{
}

/// What a failed write of matching values means: more values than one matched, or it failed.
pub open spec fn matching_write_error(message: Seq<char>) -> ErrorView {
    if has_infix(message, "values exist"@) {
        legacy_exit("error: "@ + message, 5)
    } else {
        write_error("failed to write config"@, message)
    }
}

/// Map the failure of a write of matching values.
pub fn map_matching_write_error(message: &str) -> (r: CliError)
    ensures
        r@ == matching_write_error(message@),
{
    if contains_str(message, "values exist") {
        CliError::from_legacy_string(concat2("error: ", message)).with_exit_code(5)
    } else {
        config_write_cli_error("failed to write config", message)
    }
}

/// What a failed write of the one value means.
pub open spec fn single_write_error(message: Seq<char>) -> ErrorView {
    if has_infix(message, "values exist"@) {
        legacy_exit(message, 5)
    } else {
        ErrorView::legacy(message)
    }
}

/// Map the failure of a write, or of a removal, of the one value.
pub fn map_single_write_error(message: &str) -> (r: CliError)
    ensures
        r@ == single_write_error(message@),
{
    let err = CliError::from_legacy_string(message.to_owned());
    if contains_str(message, "values exist") {
        err.with_exit_code(5)
    } else {
        err
    }
}

/// What is said of a value that was set.
pub open spec fn set_line(added: bool, scope: ConfigScope, key: Seq<char>, encrypted: bool) -> Seq<char> {
    (if added {
        "Added "@
    } else {
        "Set "@
    }) + scope_text(scope) + (if encrypted {
        " (encrypted): "@
    } else {
        ": "@
    }) + key + "\n"@
}

/// Say that a value was set.
pub fn emit_set_ack(action: SetAction, scope: ConfigScope, key: &str, encrypted: bool) -> (r: String)
    ensures
        r@ == set_line(action == SetAction::Append, scope, key@, encrypted),
{
    let verb = match action {
        SetAction::Append => "Added ",
        _ => "Set ",
    };
    let colon = if encrypted {
        " (encrypted): "
    } else {
        ": "
    };
    concat5(verb, scope_name(scope), colon, key, "\n")
}

// Unsetting

/// How values are removed.
#[derive(Debug)]
pub enum UnsetAction {
    /// Those that match, of which there may be only one where `enforce_single`
    Matching { filter: ValueFilter, enforce_single: bool },
    All,
    /// The one that there is
    One,
}

/// Decide how the values of a key are removed. `refusal` is what the check that comes before says
/// against the filter's pattern, if anything.
pub fn plan_unset(
    all: bool,
    filter: &ValueFilterSpec,
    refusal: &Option<String>,
) -> (r: Result<UnsetAction, CliError>)
    ensures
        match (r, compiled_filter(*filter, *refusal)) {
            (Err(e), Err(want)) => e@ == want,
            (Ok(UnsetAction::Matching { filter: f, enforce_single }), Ok(Some(want))) => f == want
                && enforce_single == !all,
            (Ok(UnsetAction::All), Ok(None)) => all,
            (Ok(UnsetAction::One), Ok(None)) => !all,
            _ => false,
        },
{
    match filter.compile(refusal) {
        Err(e) => Err(e),
        Ok(Some(f)) => Ok(UnsetAction::Matching { filter: f, enforce_single: !all }),
        Ok(None) => if all {
            Ok(UnsetAction::All)
        } else {
            Ok(UnsetAction::One)
        },
    }
}

/// Say that values were removed; how many, where more than one could be.
pub fn render_unset(all: bool, scope: ConfigScope, key: &str, count: usize) -> (r: String)
    ensures
        r@ == "Unset "@ + scope_text(scope) + ": "@ + key@ + (if all && count > 1 {
            " (removed "@ + decimal(count as nat) + " values)"@
        } else {
            Seq::empty()
        }) + "\n"@,
{
    let line = concat4("Unset ", scope_name(scope), ": ", key);
    if all && count > 1 {
        let n = usize_text(count);
        let tail = concat3(" (removed ", n.as_str(), " values)");
        concat3(line.as_str(), tail.as_str(), "\n")
    } else {
        let r = concat2(line.as_str(), "\n");
        assert(line@ + Seq::<char>::empty() =~= line@);
        r
    }
}

// Sections

/// What is known of a section by its name.
#[derive(Debug)]
pub struct SectionFacts {
    /// Why the name is malformed, if it is
    pub syntax_error: Option<String>,
    /// It belongs to the vault
    pub protected: bool,
}

pub open spec fn protected_error() -> ErrorView {
    ErrorView::usage("vault sections must be managed by dedicated vault/config commands"@)
}

/// The sections of the vault have commands of their own.
pub fn reject_protected_vault_section(protected: bool) -> (r: Result<(), CliError>)
    ensures
        match r {
            Ok(_) => !protected,
            Err(e) => protected && e@ == protected_error(),
        },
{
    if protected {
        return Err(
            CliError::command_usage(
                "vault sections must be managed by dedicated vault/config commands".to_owned(),
            ),
        );
    }
    Ok(())
}

/// What is wrong with the names of sections: the first that is malformed, else whether one is
/// protected.
pub open spec fn sections_fault(sections: Seq<SectionFacts>) -> Option<ErrorView> {
    if exists|i: int| first_malformed(sections, i) {
        let i = choose|i: int| first_malformed(sections, i);
        Some(legacy_exit("error: "@ + sections[i].syntax_error->0@, 1))
    } else if exists|i: int| 0 <= i < sections.len() && (#[trigger] sections[i]).protected {
        Some(protected_error())
    } else {
        None
    }
}

pub open spec fn first_malformed(sections: Seq<SectionFacts>, i: int) -> bool {
    &&& 0 <= i < sections.len()
    &&& sections[i].syntax_error is Some
    &&& forall|j: int| 0 <= j < i ==> (#[trigger] sections[j]).syntax_error is None
}

/// Check the names of the sections that a command was given, before anything is read.
pub fn check_sections(sections: &Vec<SectionFacts>) -> (r: Result<(), CliError>)
    ensures
        match (r, sections_fault(sections@)) {
            (Ok(_), None) => true,
            (Err(e), Some(want)) => e@ == want,
            _ => false,
        },
{
    let mut i: usize = 0;
    while i < sections.len()
        invariant
            i <= sections@.len(),
            forall|j: int| 0 <= j < i ==> (#[trigger] sections@[j]).syntax_error is None,
        decreases sections.len() - i,
    {
        if let Some(e) = &sections[i].syntax_error {
            assert(first_malformed(sections@, i as int));
            let ghost w = choose|k: int| first_malformed(sections@, k);
            assert(w == i as int);
            return Err(
                CliError::from_legacy_string(concat2("error: ", e.as_str())).with_exit_code(1),
            );
        }
        i = i + 1;
    }
    assert(forall|k: int| !first_malformed(sections@, k));
    let mut j: usize = 0;
    while j < sections.len()
        invariant
            j <= sections@.len(),
            forall|k: int| !first_malformed(sections@, k),
            forall|k: int| 0 <= k < j ==> !(#[trigger] sections@[k]).protected,
        decreases sections.len() - j,
    {
        if let Err(e) = reject_protected_vault_section(sections[j].protected) {
            assert(sections@[j as int].protected);
            return Err(e);
        }
        j = j + 1;
    }
    Ok(())
}

/// A credential of the vault is never moved or removed with a section.
pub fn check_section_rows(rows: &Vec<ConfigKvEntry>) -> (r: Result<(), CliError>)
    ensures
        match r {
            Ok(_) => forall|i: int| 0 <= i < rows@.len() ==> !(#[trigger] rows@[i]).vault_internal,
            Err(e) => e@ == protected_error() && exists|i: int|
                0 <= i < rows@.len() && (#[trigger] rows@[i]).vault_internal,
        },
{
    let mut i: usize = 0;
    while i < rows.len()
        invariant
            i <= rows@.len(),
            forall|j: int| 0 <= j < i ==> !(#[trigger] rows@[j]).vault_internal,
        decreases rows.len() - i,
    {
        if let Err(e) = reject_protected_vault_section(rows[i].vault_internal) {
            assert(rows@[i as int].vault_internal);
            return Err(e);
        }
        i = i + 1;
    }
    Ok(())
}

/// The keys of a section start with its name and a dot.
pub fn section_prefix(section: &str) -> (r: String)
    ensures
        r@ == section@ + "."@,
{
    concat2(section, ".")
}

pub open spec fn no_section(name: Seq<char>) -> ErrorView {
    ErrorView::failure("section '"@ + name + "' does not exist"@).coded(
        StableErrorCode::RepoStateInvalid,
    ).exits(5)
}

fn no_section_error(name: &str) -> (r: CliError)
    ensures
        r@ == no_section(name@),
{
    CliError::failure(concat3("section '", name, "' does not exist")).with_stable_code(
        StableErrorCode::RepoStateInvalid,
    ).with_exit_code(5)
}

/// What the renaming of the rows of a section means for the command.
pub open spec fn rename_result(
    old_name: Seq<char>,
    new_name: Seq<char>,
    outcome: Result<usize, String>,
) -> Result<usize, ErrorView> {
    match outcome {
        Err(e) => if has_infix(e@, "already exists"@) {
            Err(
                ErrorView::failure("target section '"@ + new_name + "' already exists"@).coded(
                    StableErrorCode::RepoStateInvalid,
                ).exits(5),
            )
        } else {
            Err(write_error("failed to rename config section"@, e@))
        },
        Ok(moved) => if moved == 0 {
            Err(no_section(old_name))
        } else {
            Ok(moved)
        },
    }
}

pub open spec fn is_count_result(r: Result<usize, CliError>, want: Result<usize, ErrorView>) -> bool {
    match (r, want) {
        (Ok(n), Ok(want)) => n == want,
        (Err(e), Err(want)) => e@ == want,
        _ => false,
    }
}

/// Judge the renaming of the rows of a section, before it is committed.
pub fn check_renamed_section(old_name: &str, new_name: &str, outcome: &Result<usize, String>) -> (r: Result<
    usize,
    CliError,
>)
    ensures
        is_count_result(r, rename_result(old_name@, new_name@, *outcome)),
{
    match outcome {
        Err(e) => if contains_str(e.as_str(), "already exists") {
            Err(
                CliError::failure(
                    concat3("target section '", new_name, "' already exists"),
                ).with_stable_code(StableErrorCode::RepoStateInvalid).with_exit_code(5),
            )
        } else {
            Err(config_write_cli_error("failed to rename config section", e.as_str()))
        },
        Ok(moved) => if *moved == 0 {
            Err(no_section_error(old_name))
        } else {
            Ok(*moved)
        },
    }
}

/// What the removal of the rows of a section means for the command.
pub open spec fn remove_result(section: Seq<char>, outcome: Result<usize, String>) -> Result<usize, ErrorView> {
    match outcome {
        Err(e) => Err(write_error("failed to remove config section"@, e@)),
        Ok(removed) => if removed == 0 {
            Err(no_section(section))
        } else {
            Ok(removed)
        },
    }
}

/// Judge the removal of the rows of a section, before it is committed.
pub fn check_removed_section(section: &str, outcome: &Result<usize, String>) -> (r: Result<usize, CliError>)
    ensures
        is_count_result(r, remove_result(section@, *outcome)),
{
    match outcome {
        Err(e) => Err(config_write_cli_error("failed to remove config section", e.as_str())),
        Ok(removed) => if *removed == 0 {
            Err(no_section_error(section))
        } else {
            Ok(*removed)
        },
    }
}

pub open spec fn key_count(n: nat) -> Seq<char> {
    " ("@ + decimal(n) + (if n == 1 {
        " key)\n"@
    } else {
        " keys)\n"@
    })
}

fn key_count_text(n: usize) -> (r: String)
    ensures
        r@ == key_count(n as nat),
{
    let digits = usize_text(n);
    if n == 1 {
        concat3(" (", digits.as_str(), " key)\n")
    } else {
        concat3(" (", digits.as_str(), " keys)\n")
    }
}

/// Say that a section was renamed.
pub fn render_renamed_section(scope: ConfigScope, old_name: &str, new_name: &str, moved: usize) -> (r: String)
    ensures
        r@ == "Renamed "@ + scope_text(scope) + " section: "@ + old_name@ + " -> "@ + new_name@
            + key_count(moved as nat),
{
    let count = key_count_text(moved);
    concat7(
        "Renamed ",
        scope_name(scope),
        " section: ",
        old_name,
        " -> ",
        new_name,
        count.as_str(),
    )
}

/// Say that a section was removed.
pub fn render_removed_section(scope: ConfigScope, section: &str, removed: usize) -> (r: String)
    ensures
        r@ == "Removed "@ + scope_text(scope) + " section: "@ + section@ + key_count(removed as nat),
{
    let count = key_count_text(removed);
    concat5("Removed ", scope_name(scope), " section: ", section, count.as_str())
}

// Paths

/// The path of the database of a scope, given the ones that are known.
pub fn handle_path(scope: ConfigScope, paths: &OriginPaths) -> (r: Result<
    String,
    CliError,
>)
    ensures
        match (r, paths.path(scope)) {
            (Ok(path), Some(want)) => path@ == want,
            (Err(e), None) => e@ == ErrorView::legacy(
                match scope {
                    ConfigScope::Local => "error: not a libra repository (or any parent up to /)\n\nhint: use --global to read/write user-level config without a repository\nhint: use libra init to create a repository here"@,
                    ConfigScope::Global => "error: could not determine global config path"@,
                },
            ),
            _ => false,
        },
{
    match paths.path_of(scope) {
        Some(path) => Ok(path),
        None => Err(
            CliError::from_legacy_string(
                match scope {
                    ConfigScope::Local => "error: not a libra repository (or any parent up to /)\n\nhint: use --global to read/write user-level config without a repository\nhint: use libra init to create a repository here".to_owned(),
                    ConfigScope::Global => "error: could not determine global config path".to_owned(),
                },
            ),
        ),
    }
}

// Key generation

pub open spec fn global_generation_error(command: Seq<char>) -> ErrorView {
    ErrorView::usage(
        command + " only supports local scope; --global key generation is not supported yet"@,
    ).hint("run without --global to generate a repository-local key"@)
}

/// Keys are generated for the repository only.
pub fn reject_global_key_generation(scope: ConfigScope, command: &str) -> (r: Result<(), CliError>)
    ensures
        match r {
            Ok(_) => scope == ConfigScope::Local,
            Err(e) => scope == ConfigScope::Global && e@ == global_generation_error(command@),
        },
{
    match scope {
        ConfigScope::Local => Ok(()),
        ConfigScope::Global => Err(
            CliError::command_usage(
                concat2(
                    command,
                    " only supports local scope; --global key generation is not supported yet",
                ),
            ).with_hint("run without --global to generate a repository-local key"),
        ),
    }
}

/// Whether a remote's name can stand in a key: 1 to 64 letters, digits, underscores and hyphens.
pub open spec fn is_remote_name(remote: Seq<char>) -> bool {
    &&& 1 <= remote.len() <= 64
    &&& forall|i: int| 0 <= i < remote.len() ==> is_name_char(#[trigger] remote[i])
}

pub open spec fn is_name_char(c: char) -> bool {
    is_ascii_alnum(c) || c == '_' || c == '-'
}

fn valid_remote_name(remote: &str) -> (r: bool)
    ensures
        r == is_remote_name(remote@),
{
    let cs = chars_of(remote);
    if cs.len() == 0 || cs.len() > 64 {
        return false;
    }
    let mut i: usize = 0;
    while i < cs.len()
        invariant
            i <= cs@.len(),
            cs@ == remote@,
            forall|j: int| 0 <= j < i ==> is_name_char(#[trigger] cs@[j]),
        decreases cs.len() - i,
    {
        let c = cs[i];
        let ok = c >= 'a' && c <= 'z' || c >= 'A' && c <= 'Z' || c >= '0' && c <= '9' || c == '_' || c
            == '-';
        if !ok {
            assert(!is_name_char(cs@[i as int]));
            return false;
        }
        i = i + 1;
    }
    true
}

/// What is wrong with generating an SSH key, if anything.
pub open spec fn ssh_fault(remote: Seq<char>, scope: ConfigScope) -> Option<ErrorView> {
    if scope == ConfigScope::Global {
        Some(global_generation_error("generate-ssh-key"@))
    } else if !is_remote_name(remote) {
        Some(
            ErrorView::usage(
                "invalid remote name '"@ + remote
                    + "': only [a-zA-Z0-9_-] allowed, 1-64 chars"@,
            ),
        )
    } else {
        None
    }
}

/// Check whether an SSH key can be generated, before anything is read.
pub fn check_generate_ssh_key(remote: &str, scope: ConfigScope) -> (r: Result<(), CliError>)
    ensures
        match (r, ssh_fault(remote@, scope)) {
            (Ok(_), None) => true,
            (Err(e), Some(want)) => e@ == want,
            _ => false,
        },
{
    if let Err(e) = reject_global_key_generation(scope, "generate-ssh-key") {
        return Err(e);
    }
    if !valid_remote_name(remote) {
        return Err(
            CliError::command_usage(
                concat3(
                    "invalid remote name '",
                    remote,
                    "': only [a-zA-Z0-9_-] allowed, 1-64 chars",
                ),
            ),
        );
    }
    Ok(())
}

/// The remote has to be configured.
pub fn check_remote_exists(remote: &str, exists: bool) -> (r: Result<(), CliError>)
    ensures
        match r {
            Ok(_) => exists,
            Err(e) => !exists && e@ == ErrorView::failure(
                "remote '"@ + remote@ + "' not found, add it first with libra remote add"@,
            ).coded(StableErrorCode::RepoStateInvalid),
        },
{
    if exists {
        Ok(())
    } else {
        Err(
            CliError::failure(
                concat3("remote '", remote, "' not found, add it first with libra remote add"),
            ).with_stable_code(StableErrorCode::RepoStateInvalid),
        )
    }
}

/// The vault of a scope could not be initialized.
pub fn vault_init_error(scope: &str, error: &str) -> (r: CliError)
    ensures
        r@ == ErrorView::legacy(
            "error: failed to initialize vault for "@ + scope@ + " scope: "@ + error@,
        ),
{
    CliError::from_legacy_string(
        concat4("error: failed to initialize vault for ", scope, " scope: ", error),
    )
}

/// The value that was found, or a default.
pub fn or_default(value: &Option<String>, default: &str) -> (r: String)
    ensures
        r@ == match *value {
            Some(v) => v@,
            None => default@,
        },
{
    match value {
        Some(v) => v.clone(),
        None => default.to_owned(),
    }
}

/// The configuration keys that hold the public and the private key of a remote.
pub fn ssh_config_keys(remote: &str) -> (r: (String, String))
    ensures
        r.0@ == "vault.ssh."@ + remote@ + ".pubkey"@,
        r.1@ == "vault.ssh."@ + remote@ + ".privkey"@,
{
    (concat3("vault.ssh.", remote, ".pubkey"), concat3("vault.ssh.", remote, ".privkey"))
}

/// A key that was generated for a remote is found in the listing of SSH keys, under its remote.
pub proof fn law_generated_ssh_key_is_listed(remote: Seq<char>, public_key: Seq<char>, entry: ConfigKvEntry)
    requires
        entry.key@ == "vault.ssh."@ + remote + ".pubkey"@,
        entry.value@ == public_key,
        words_seq(public_key).len() >= 2,
    ensures
        ssh_key(entry) matches Some(k) && k.remote == remote && k.public_key
            == public_key,
{
    let key = entry.key@;
    let prefix = "vault.ssh."@;
    let suffix = ".pubkey"@;
    let rest = key.skip(prefix.len() as int);
    assert(key.take(prefix.len() as int) =~= prefix);
    assert(rest =~= remote + suffix);
    assert(rest.skip(rest.len() - suffix.len()) =~= suffix);
    assert(rest.take(rest.len() - suffix.len()) =~= remote);
}

/// Say that an SSH key was generated.
pub fn render_generated_ssh_key(remote: &str, public_key: &str) -> (r: String)
    ensures
        r@ == "Generated SSH key for remote '"@ + remote@ + "':\n  Type:       RSA 3072\n  Public key: "@
            + public_key@ + "\n\nStored:\n  public key:  vault.ssh."@ + remote@
            + ".pubkey (in config)\n  private key: vault.ssh."@ + remote@
            + ".privkey (vault-encrypted, temp file on use)\n\nNext steps:\n  - add to GitHub:  copy the public key above to your GitHub SSH settings\n  - push:           libra push "@
            + remote@ + " main\n"@,
{
    let head = concat5(
        "Generated SSH key for remote '",
        remote,
        "':\n  Type:       RSA 3072\n  Public key: ",
        public_key,
        "\n\nStored:\n  public key:  vault.ssh.",
    );
    concat7(
        head.as_str(),
        remote,
        ".pubkey (in config)\n  private key: vault.ssh.",
        remote,
        ".privkey (vault-encrypted, temp file on use)\n\nNext steps:\n  - add to GitHub:  copy the public key above to your GitHub SSH settings\n  - push:           libra push ",
        remote,
        " main\n",
    )
}

/// What a GPG key is for.
#[derive(Debug, Clone, Copy, PartialEq, Eq, Structural)]
pub enum GpgUsage {
    Signing,
    Encrypt,
}

impl GpgUsage {
    pub open spec fn text(self) -> Seq<char> {
        match self {
            GpgUsage::Signing => "signing"@,
            GpgUsage::Encrypt => "encrypt"@,
        }
    }

    pub fn label(&self) -> (r: &'static str)
        ensures
            r@ == self.text(),
    {
        match self {
            GpgUsage::Signing => "signing",
            GpgUsage::Encrypt => "encrypt",
        }
    }
}

/// What a GPG key is to be for, or what is wrong with generating it.
pub open spec fn gpg_request(usage: Option<String>, scope: ConfigScope) -> Result<GpgUsage, ErrorView> {
    if scope == ConfigScope::Global {
        Err(global_generation_error("generate-gpg-key"@))
    } else {
        match usage {
            None => Ok(GpgUsage::Signing),
            Some(u) => if u@ == "signing"@ {
                Ok(GpgUsage::Signing)
            } else if u@ == "encrypt"@ {
                Ok(GpgUsage::Encrypt)
            } else {
                Err(
                    ErrorView::legacy(
                        "error: invalid value '"@ + u@
                            + "' for '--usage <KIND>' (expected 'signing' or 'encrypt')"@,
                    ),
                )
            },
        }
    }
}

/// Check whether a GPG key can be generated, before anything is read.
pub fn check_generate_gpg_key(usage: &Option<String>, scope: ConfigScope) -> (r: Result<GpgUsage, CliError>)
    ensures
        match (r, gpg_request(*usage, scope)) {
            (Ok(got), Ok(want)) => got == want,
            (Err(e), Err(want)) => e@ == want,
            _ => false,
        },
{
    if let Err(e) = reject_global_key_generation(scope, "generate-gpg-key") {
        return Err(e);
    }
    match usage {
        None => Ok(GpgUsage::Signing),
        Some(u) => if text_eq(u.as_str(), "signing") {
            Ok(GpgUsage::Signing)
        } else if text_eq(u.as_str(), "encrypt") {
            Ok(GpgUsage::Encrypt)
        } else {
            Err(
                CliError::from_legacy_string(
                    concat3(
                        "error: invalid value '",
                        u.as_str(),
                        "' for '--usage <KIND>' (expected 'signing' or 'encrypt')",
                    ),
                ),
            )
        },
    }
}

pub open spec fn given_or(
    given: Option<String>,
    configured: Option<String>,
    default: Seq<char>,
) -> Seq<char> {
    match given {
        Some(v) => v@,
        None => match configured {
            Some(v) => v@,
            None => default,
        },
    }
}

/// The name and the address in a GPG key: as given, else as configured in `user.name` and
/// `user.email`, else fixed ones.
pub fn gpg_user(
    name: &Option<String>,
    email: &Option<String>,
    configured_name: &Option<String>,
    configured_email: &Option<String>,
) -> (r: (String, String))
    ensures
        r.0@ == given_or(*name, *configured_name, "Libra User"@),
        r.1@ == given_or(*email, *configured_email, "user@libra.local"@),
{
    let user_name = match name {
        Some(v) => v.clone(),
        None => or_default(configured_name, "Libra User"),
    };
    let user_email = match email {
        Some(v) => v.clone(),
        None => or_default(configured_email, "user@libra.local"),
    };
    (user_name, user_email)
}

pub open spec fn gpg_key_name(usage: GpgUsage) -> Seq<char> {
    match usage {
        GpgUsage::Signing => "vault.gpg.pubkey"@,
        GpgUsage::Encrypt => "vault.gpg.encrypt.pubkey"@,
    }
}

/// The configuration key that holds a GPG key.
pub fn gpg_config_key(usage: GpgUsage) -> (r: &'static str)
    ensures
        r@ == gpg_key_name(usage),
{
    match usage {
        GpgUsage::Signing => "vault.gpg.pubkey",
        GpgUsage::Encrypt => "vault.gpg.encrypt.pubkey",
    }
}

/// A key that was generated is listed under the use that it was generated for.
pub proof fn law_generated_gpg_key_is_listed(usage: GpgUsage)
    ensures
        gpg_usage(gpg_key_name(usage)) == Some(usage.text()),
{
    if usage == GpgUsage::Encrypt {
        let key = gpg_key_name(usage);
        reveal_strlit("vault.gpg.encrypt.pubkey");
        reveal_strlit("vault.gpg.pubkey");
        reveal_strlit("vault.gpg_pubkey");
        reveal_strlit("vault.gpg.");
        reveal_strlit(".pubkey");
        reveal_strlit("encrypt");
        assert(key.len() == 24);
        assert("vault.gpg.pubkey"@.len() == 16);
        assert("vault.gpg_pubkey"@.len() == 16);
        let prefix = "vault.gpg."@;
        let suffix = ".pubkey"@;
        let rest = key.skip(10);
        assert(key.take(10) =~= prefix);
        assert(rest.skip(7) =~= suffix);
        assert(rest.take(7) =~= "encrypt"@);
    }
}

/// Say that a GPG key was generated.
pub fn render_generated_gpg_key(usage: GpgUsage, user_name: &str, user_email: &str) -> (r: String)
    ensures
        r@ == (match usage {
            GpgUsage::Signing => "Generated GPG key:\n"@,
            GpgUsage::Encrypt => "Generated GPG key (usage: encrypt):\n"@,
        }) + "  Type:    PGP 2048-bit\n  User:    "@ + user_name@ + " <"@ + user_email@
            + ">\n  Valid:   10 years\n\nStored:\n  public key: "@ + gpg_key_name(usage) + (match usage {
            GpgUsage::Signing => " (in config)\n\nTip: commit signing is now enabled (vault.signing = true)\n"@,
            GpgUsage::Encrypt => " (in config)\n"@,
        }),
{
    let head = match usage {
        GpgUsage::Signing => "Generated GPG key:\n",
        GpgUsage::Encrypt => "Generated GPG key (usage: encrypt):\n",
    };
    let tail = match usage {
        GpgUsage::Signing => " (in config)\n\nTip: commit signing is now enabled (vault.signing = true)\n",
        GpgUsage::Encrypt => " (in config)\n",
    };
    let user = concat5(
        head,
        "  Type:    PGP 2048-bit\n  User:    ",
        user_name,
        " <",
        user_email,
    );
    concat4(
        user.as_str(),
        ">\n  Valid:   10 years\n\nStored:\n  public key: ",
        gpg_config_key(usage),
        tail,
    )
}

/// What is stored is the value that was given, in the form of its type where that is a boolean or a
/// number; encrypted where that was asked for, or where nothing else was and the key is a secret or has
/// an encrypted value; added where that was asked for, and else in place of what is there.
pub proof fn law_given_value_is_stored(
    req: SetRequest,
    facts: KeyFacts,
    existing: Seq<ConfigKvEntry>,
    config_type: Option<ConfigType>,
    value: Seq<char>,
    reading: ValueReading,
)
    ensures
        planned_set(req, facts, existing, config_type, value, reading) matches Ok((text, encrypt, action))
            ==> {
            let secret = exists|i: int| 0 <= i < existing.len() && (#[trigger] existing[i]).encrypted;
            &&& config_type is None || config_type == Some(ConfigType::Path) ==> text == value
            &&& config_type == Some(ConfigType::Bool) ==> (reading.as_bool matches Some(b) && (b
                ==> text == "true"@) && (!b ==> text == "false"@))
            &&& config_type == Some(ConfigType::Int) ==> (reading.as_int matches Ok(n) && text
                == signed_decimal(n as int))
            &&& encrypt <==> req.encrypt || (!req.plaintext && (facts.sensitive || secret))
            &&& action == SetAction::Append <==> req.add
            &&& action == SetAction::SetOne <==> !req.add && !req.replace_all && req.filter.pattern
                is None
            &&& action matches SetAction::ReplaceMatching { enforce_single } ==> enforce_single
                == !req.replace_all
        },
        planned_set(req, facts, existing, config_type, value, reading) is Err <==> (config_type == Some(
            ConfigType::Bool,
        ) && reading.as_bool is None) || (config_type == Some(ConfigType::Int) && reading.as_int is Err)
            || (req.add && exists|i: int|
            0 <= i < existing.len() && (#[trigger] existing[i]).encrypted != (req.encrypt || (
            !req.plaintext && (facts.sensitive || exists|j: int|
                0 <= j < existing.len() && (#[trigger] existing[j]).encrypted)))),
{
    let secret = exists|i: int| 0 <= i < existing.len() && (#[trigger] existing[i]).encrypted;
    assert(has_state(existing, true) <==> secret) by {
        if secret {
            let i = choose|i: int| 0 <= i < existing.len() && (#[trigger] existing[i]).encrypted;
            assert(existing[i].encrypted == true);
        }
        if has_state(existing, true) {
            let i = choose|i: int|
                0 <= i < existing.len() && (#[trigger] existing[i]).encrypted == true;
            assert(existing[i].encrypted);
        }
    }
    let want = stores_encrypted(req, facts, existing);
    assert(want <==> req.encrypt || (!req.plaintext && (facts.sensitive || secret)));
    let mixed = exists|i: int|
        0 <= i < existing.len() && (#[trigger] existing[i]).encrypted != want;
    assert(has_state(existing, !want) <==> mixed) by {
        if mixed {
            let i = choose|i: int| 0 <= i < existing.len() && (#[trigger] existing[i]).encrypted != want;
            assert(existing[i].encrypted == !want);
        }
        if has_state(existing, !want) {
            let i = choose|i: int|
                0 <= i < existing.len() && (#[trigger] existing[i]).encrypted == !want;
            assert(existing[i].encrypted != want);
        }
    }
}

/// A value may be set exactly where its key is well formed, its filter is one, it is not to be both
/// encrypted and plain, and it is not to be plain where the key is the vault's.
pub proof fn law_what_may_be_set(req: SetRequest, facts: KeyFacts)
    ensures
        set_fault(req, facts) is None <==> facts.syntax_error is None && compiled_filter(
            req.filter,
            facts.pattern_refusal,
        ) is Ok && !(req.encrypt && req.plaintext) && !(req.plaintext && (facts.vault_internal
            || has_prefix(req.key@, "vault.env."@))),
{
}

/// A value that was given on the command line is the one that is taken; without one it is read where
/// that was asked for, and asked for only for a secret, from a person. It cannot be given twice.
pub proof fn law_where_a_value_comes_from(
    r: Result<ValueSource, CliError>,
    req: SetRequest,
    facts: KeyFacts,
    existing: Seq<ConfigKvEntry>,
    interactive: bool,
)
    requires
        is_value_source(r, req, facts, existing, interactive),
    ensures
        req.value matches Some(v) ==> (!req.stdin ==> (r matches Ok(ValueSource::Given { value }) && value@
            == v@)),
        req.value is Some && req.stdin ==> r is Err,
        req.value is None && req.stdin ==> (r matches Ok(ValueSource::Stdin)),
        (r matches Ok(ValueSource::Prompt)) ==> interactive && req.value is None && !req.stdin
            && !req.plaintext,
        req.value is None && !req.stdin && interactive && !req.plaintext && (req.encrypt
            || facts.sensitive) ==> (r matches Ok(ValueSource::Prompt)),
        req.value is None && !req.stdin && (!interactive || req.plaintext) ==> r is Err,
{
}

/// One line end is taken from a text that was read, and nothing else.
pub proof fn law_one_line_end_is_taken(s: Seq<char>)
    ensures
        s.len() == 0 || s.last() != '\n' ==> without_line_end(s) == s,
        s.len() == 0 || s.last() != '\r' ==> without_line_end(s.push('\n')) == s,
        without_line_end(s.push('\r').push('\n')) == s,
{
    assert(s.push('\n').drop_last() =~= s);
    assert(s.push('\r').push('\n').drop_last() =~= s.push('\r'));
    assert(s.push('\r').drop_last() =~= s);
}

/// Sections may be renamed or removed exactly where all their names are well formed and none is the
/// vault's.
pub proof fn law_which_sections_may_change(sections: Seq<SectionFacts>)
    ensures
        sections_fault(sections) is None <==> forall|i: int|
            0 <= i < sections.len() ==> (#[trigger] sections[i]).syntax_error is None
                && !sections[i].protected,
{
    if exists|i: int| 0 <= i < sections.len() && (#[trigger] sections[i]).syntax_error is Some {
        lemma_first_malformed(sections, 0);
    }
    if sections_fault(sections) is None {
        assert forall|i: int| 0 <= i < sections.len() implies (#[trigger] sections[i]).syntax_error is None
            && !sections[i].protected by {}
    } else if exists|i: int| first_malformed(sections, i) {
        let i = choose|i: int| first_malformed(sections, i);
        assert(sections[i].syntax_error is Some);
    }
}

proof fn lemma_first_malformed(sections: Seq<SectionFacts>, from: int)
    requires
        0 <= from <= sections.len(),
        exists|i: int| from <= i < sections.len() && (#[trigger] sections[i]).syntax_error is Some,
        forall|j: int| 0 <= j < from ==> (#[trigger] sections[j]).syntax_error is None,
    ensures
        exists|i: int| first_malformed(sections, i),
    decreases sections.len() - from,
{
    if sections[from].syntax_error is Some {
        assert(first_malformed(sections, from));
    } else {
        lemma_first_malformed(sections, from + 1);
    }
}

/// A section was renamed or removed where its keys were, and as many are told as there were; a section
/// without keys does not exist.
pub proof fn law_changed_sections_had_keys(
    old_name: Seq<char>,
    new_name: Seq<char>,
    outcome: Result<usize, String>,
)
    ensures
        rename_result(old_name, new_name, outcome) is Ok <==> (outcome matches Ok(n) && n > 0),
        rename_result(old_name, new_name, outcome) matches Ok(n) ==> outcome == Ok::<usize, String>(n),
        remove_result(old_name, outcome) is Ok <==> (outcome matches Ok(n) && n > 0),
        remove_result(old_name, outcome) matches Ok(n) ==> outcome == Ok::<usize, String>(n),
{
}

/// What is said of a value that was set tells whether it was added, in which scope, whether it is
/// encrypted, and its key.
pub proof fn law_set_is_acknowledged(scope: ConfigScope, key: Seq<char>)
    ensures
        set_line(true, scope, key, false) == "Added "@ + scope_text(scope) + ": "@ + key + "\n"@,
        set_line(false, scope, key, false) == "Set "@ + scope_text(scope) + ": "@ + key + "\n"@,
        set_line(false, scope, key, true) == "Set "@ + scope_text(scope) + " (encrypted): "@ + key
            + "\n"@,
        set_line(true, scope, key, true) == "Added "@ + scope_text(scope) + " (encrypted): "@ + key
            + "\n"@,
{
}

/// A key for a remote is generated in the repository's configuration alone, for a name of one to
/// sixty-four letters, digits, dashes and underscores.
pub proof fn law_ssh_key_names(remote: Seq<char>, scope: ConfigScope)
    ensures
        ssh_fault(remote, scope) is None <==> scope == ConfigScope::Local && 1 <= remote.len() <= 64
            && forall|i: int|
            0 <= i < remote.len() ==> ('a' <= #[trigger] remote[i] <= 'z') || ('A' <= remote[i] <= 'Z')
                || ('0' <= remote[i] <= '9') || remote[i] == '_' || remote[i] == '-',
{
    if ssh_fault(remote, scope) is None {
        assert forall|i: int| 0 <= i < remote.len() implies ('a' <= #[trigger] remote[i] <= 'z') || ('A'
            <= remote[i] <= 'Z') || ('0' <= remote[i] <= '9') || remote[i] == '_' || remote[i] == '-' by {
            assert(is_name_char(remote[i]));
        }
    } else if scope == ConfigScope::Local && 1 <= remote.len() <= 64 {
        let i = choose|i: int| 0 <= i < remote.len() && !is_name_char(#[trigger] remote[i]);
        assert(!is_name_char(remote[i]));
    }
}

/// A key is generated for what it was asked for, for signing where nothing was said, and in the
/// repository's configuration alone. Keys for different uses have different names.
pub proof fn law_gpg_key_usage(usage: Option<String>, scope: ConfigScope)
    ensures
        gpg_request(usage, ConfigScope::Global) is Err,
        gpg_request(None, ConfigScope::Local) == Ok::<GpgUsage, ErrorView>(GpgUsage::Signing),
        usage matches Some(u) ==> {
            &&& gpg_request(usage, ConfigScope::Local) == Ok::<GpgUsage, ErrorView>(GpgUsage::Signing)
                <==> u@ == "signing"@
            &&& gpg_request(usage, ConfigScope::Local) == Ok::<GpgUsage, ErrorView>(GpgUsage::Encrypt)
                <==> u@ == "encrypt"@
        },
        gpg_key_name(GpgUsage::Signing) != gpg_key_name(GpgUsage::Encrypt),
{
    reveal_strlit("signing");
    reveal_strlit("encrypt");
    reveal_strlit("vault.gpg.pubkey");
    reveal_strlit("vault.gpg.encrypt.pubkey");
    assert("signing"@ != "encrypt"@) by {
        assert("signing"@[0] != "encrypt"@[0]);
    }
    assert("vault.gpg.pubkey"@.len() == 16 && "vault.gpg.encrypt.pubkey"@.len() == 24);
}

/// A name that was given is taken before one that is configured, and that before the default.
pub proof fn law_given_before_configured(
    given: Option<String>,
    configured: Option<String>,
    default: Seq<char>,
)
    ensures
        given matches Some(v) ==> given_or(given, configured, default) == v@,
        given is None ==> (configured matches Some(v) ==> given_or(given, configured, default) == v@),
        given is None && configured is None ==> given_or(given, configured, default) == default,
{
}

/// A value that would take the place of several is refused with a status of its own, and any other
/// failed write is told as it is.
pub proof fn law_failed_single_write_is_told(message: Seq<char>)
    ensures
        has_infix(message, "values exist"@) ==> single_write_error(message).exit == Some(5i32),
        !has_infix(message, "values exist"@) ==> single_write_error(message).exit is None,
        single_write_error(message).message == message,
        has_infix(message, "values exist"@) ==> matching_write_error(message).exit == Some(5i32)
            && matching_write_error(message).message == "error: "@ + message,
        !has_infix(message, "values exist"@) ==> matching_write_error(message).exit == Some(4i32)
            && message.is_suffix_of(matching_write_error(message).message),
{
}

/// As many keys are told as there were.
pub proof fn law_keys_are_counted(n: nat)
    ensures
        n == 1 ==> key_count(n) == " ("@ + decimal(n) + " key)\n"@,
        n != 1 ==> key_count(n) == " ("@ + decimal(n) + " keys)\n"@,
{
}

} // verus!
