//! Setting a value, step by step.

use vstd::prelude::*;

use crate::config::set::{
    action_of, check_set, existing_values_error, has_state, input_error, is_value_source,
    law_given_value_is_stored, law_one_line_end_is_taken, law_where_a_value_comes_from,
    map_matching_write_error, map_single_write_error, matching_write_error, plan_set, planned_set,
    set_action, set_fault, single_write_error, stores_encrypted, strip_line_end, value_source,
    vault_init_error, without_line_end, KeyFacts, SetAction, SetRequest, UnsetAction, ValueSource,
};
use crate::config::values::{
    compiled_filter, config_write_cli_error, read_error, stored_value, write_error, ConfigKvEntry,
    ValueFilter, ValueReading,
};
use crate::config::{scope_name, scope_text, ConfigScope, ConfigType};
use crate::error::{CliError, ErrorView};
use crate::hexadecimal::{bytes_hex, is_hex_pairs, law_hex_is_read_back};
use crate::text::{concat2, has_infix};

verus! {

/// Where the setting of a value stands: what is done next.
#[derive(Debug, Clone, Copy, PartialEq, Eq, Structural)]
pub enum SetStage {
    /// The values that the key has are read
    Reading,
    /// The value is asked for, or read from standard input
    Asking { prompt: bool },
    /// What the value reads as is found out
    Typing,
    /// The value is sealed
    Sealing,
    /// The value is written
    Storing,
    Done,
}

/// The setting of a value.
#[derive(Debug)]
pub struct SetRun {
    pub stage: SetStage,
    pub filter: Option<ValueFilter>,
    pub existing: Vec<ConfigKvEntry>,
    /// The value: as it was given, then in its type's form, then as it is stored
    pub value: String,
    pub encrypt: bool,
    pub action: SetAction,
}

/// Why a value was not sealed.
#[derive(Debug)]
pub enum SealFault {
    /// There is no vault, and none could be made
    NoVault { error: String },
    Encryption { error: String },
}

/// Why a value was not written.
#[derive(Debug)]
pub enum WriteFault {
    Connect { error: String },
    Begin { error: String },
    Write { error: String },
    Commit { error: String },
}

/// What came of a step.
#[derive(Debug)]
pub enum SetEvent {
    /// `interactive` tells whether a value can be asked for
    Existing { outcome: Result<Vec<ConfigKvEntry>, String>, interactive: bool },
    Answered { outcome: Result<String, String> },
    Read { reading: ValueReading },
    Sealed { outcome: Result<Vec<u8>, SealFault> },
    Stored { outcome: Result<(), WriteFault> },
}

/// What a value that could not be sealed is refused with.
pub open spec fn seal_error(fault: SealFault, scope: ConfigScope) -> ErrorView {
    match fault {
        SealFault::NoVault { error } => ErrorView::legacy(
            "error: failed to initialize vault for "@ + scope_text(scope) + " scope: "@ + error@,
        ),
        SealFault::Encryption { error } => ErrorView::legacy("error: encryption failed: "@ + error@),
    }
}

/// What a failed write of matching values is refused with.
pub open spec fn matching_fault_error(fault: WriteFault) -> ErrorView {
    match fault {
        WriteFault::Connect { error } => ErrorView::legacy(error@),
        WriteFault::Begin { error } => write_error("failed to begin config transaction"@, error@),
        WriteFault::Write { error } => matching_write_error(error@),
        WriteFault::Commit { error } => write_error("failed to commit config transaction"@, error@),
    }
}

pub open spec fn fault_text(fault: WriteFault) -> Seq<char> {
    match fault {
        WriteFault::Connect { error } => error@,
        WriteFault::Begin { error } => error@,
        WriteFault::Write { error } => error@,
        WriteFault::Commit { error } => error@,
    }
}

/// What a failed write is refused with.
pub open spec fn store_error(action: SetAction, fault: WriteFault) -> ErrorView {
    match action {
        SetAction::Append => ErrorView::legacy(fault_text(fault)),
        SetAction::ReplaceMatching { .. } => matching_fault_error(fault),
        SetAction::SetOne => single_write_error(fault_text(fault)),
    }
}

/// What a failed removal is refused with.
pub open spec fn removal_error(action: UnsetAction, fault: WriteFault) -> ErrorView {
    match action {
        UnsetAction::Matching { .. } => matching_fault_error(fault),
        UnsetAction::All => ErrorView::legacy(fault_text(fault)),
        UnsetAction::One => single_write_error(fault_text(fault)),
    }
}

fn map_seal_fault(fault: &SealFault, scope: ConfigScope) -> (r: CliError)
    ensures
        r@ == seal_error(*fault, scope),
{
    match fault {
        SealFault::NoVault { error } => vault_init_error(scope_name(scope), error.as_str()),
        SealFault::Encryption { error } => CliError::from_legacy_string(
            concat2("error: encryption failed: ", error.as_str()),
        ),
    }
}

fn map_matching_fault(fault: &WriteFault) -> (r: CliError)
    ensures
        r@ == matching_fault_error(*fault),
{
    match fault {
        WriteFault::Connect { error } => CliError::from_legacy_string(error.clone()),
        WriteFault::Begin { error } => config_write_cli_error(
            "failed to begin config transaction",
            error.as_str(),
        ),
        WriteFault::Write { error } => map_matching_write_error(error.as_str()),
        WriteFault::Commit { error } => config_write_cli_error(
            "failed to commit config transaction",
            error.as_str(),
        ),
    }
}

fn text_of_fault(fault: &WriteFault) -> (r: &str)
    ensures
        r@ == fault_text(*fault),
{
    match fault {
        WriteFault::Connect { error } => error.as_str(),
        WriteFault::Begin { error } => error.as_str(),
        WriteFault::Write { error } => error.as_str(),
        WriteFault::Commit { error } => error.as_str(),
    }
}

/// Map a write that failed.
pub fn map_store_fault(action: SetAction, fault: &WriteFault) -> (r: CliError)
    ensures
        r@ == store_error(action, *fault),
{
    match action {
        SetAction::Append => CliError::from_legacy_string(text_of_fault(fault).to_owned()),
        SetAction::ReplaceMatching { .. } => map_matching_fault(fault),
        SetAction::SetOne => map_single_write_error(text_of_fault(fault)),
    }
}

/// Map a removal that failed.
pub fn map_removal_fault(action: &UnsetAction, fault: &WriteFault) -> (r: CliError)
    ensures
        r@ == removal_error(*action, *fault),
{
    match action {
        UnsetAction::Matching { .. } => map_matching_fault(fault),
        UnsetAction::All => CliError::from_legacy_string(text_of_fault(fault).to_owned()),
        UnsetAction::One => map_single_write_error(text_of_fault(fault)),
    }
}

/// Begin to set a value: nothing is read before the request has been checked.
pub fn start_set(req: &SetRequest, facts: &KeyFacts) -> (r: Result<SetRun, CliError>)
    ensures
        match (r, set_fault(*req, *facts)) {
            (Ok(run), None) => {
                &&& run.stage is Reading
                &&& compiled_filter(req.filter, facts.pattern_refusal) == Ok::<
                    Option<ValueFilter>,
                    ErrorView,
                >(run.filter)
                &&& run.existing@.len() == 0
                &&& run.value@.len() == 0
                &&& !run.encrypt
                &&& run.action == set_action(*req)
                &&& set_in_course(*req, *facts, run)
            },
            (Err(e), Some(want)) => e@ == want,
            _ => false,
        },
{
    match check_set(req, facts) {
        Ok(filter) => Ok(
            SetRun {
                stage: SetStage::Reading,
                filter,
                existing: Vec::new(),
                value: String::new(),
                encrypt: false,
                action: action_of(req),
            },
        ),
        Err(e) => Err(e),
    }
}

/// The value is known, or is got next.
pub open spec fn is_sourced(
    r: Result<SetRun, CliError>,
    run: SetRun,
    req: SetRequest,
    facts: KeyFacts,
    existing: Seq<ConfigKvEntry>,
    interactive: bool,
) -> bool {
    match r {
        Err(e) => is_value_source(Err(e), req, facts, existing, interactive),
        Ok(next) => {
            &&& next.existing@ == existing
            &&& next.filter == run.filter
            &&& next.encrypt == run.encrypt
            &&& next.action == run.action
            &&& match next.stage {
                SetStage::Typing => exists|value: String|
                    #[trigger] is_value_source(
                        Ok(ValueSource::Given { value }),
                        req,
                        facts,
                        existing,
                        interactive,
                    ) && next.value@ == value@,
                SetStage::Asking { prompt: true } => is_value_source(
                    Ok(ValueSource::Prompt),
                    req,
                    facts,
                    existing,
                    interactive,
                ),
                SetStage::Asking { prompt: false } => is_value_source(
                    Ok(ValueSource::Stdin),
                    req,
                    facts,
                    existing,
                    interactive,
                ),
                _ => false,
            }
        },
    }
}

/// Where the setting of a value goes from `run` when a step gave `event`. What does not fit the
/// stage changes nothing.
pub open spec fn is_set_step(
    r: Result<SetRun, CliError>,
    req: SetRequest,
    facts: KeyFacts,
    config_type: Option<ConfigType>,
    scope: ConfigScope,
    run: SetRun,
    event: SetEvent,
) -> bool {
    match (run.stage, event) {
        (SetStage::Reading, SetEvent::Existing { outcome, interactive }) => match outcome {
            Err(error) => r matches Err(e) && e@ == read_error(
                "failed to read "@ + scope_text(scope)
                    + " config while checking existing values for key '"@ + req.key@ + "': "@ + error@,
            ),
            Ok(existing) => is_sourced(r, run, req, facts, existing@, interactive),
        },
        (SetStage::Asking { prompt }, SetEvent::Answered { outcome }) => match outcome {
            Err(error) => r matches Err(e) && e@ == ErrorView::legacy(
                (if prompt {
                    "error: failed to read input: "@
                } else {
                    "error: failed to read from stdin: "@
                }) + error@,
            ),
            Ok(text) => r matches Ok(next) && {
                &&& next.stage is Typing
                &&& next.value@ == (if prompt {
                    text@
                } else {
                    without_line_end(text@)
                })
                &&& next.filter == run.filter
                &&& next.existing == run.existing
                &&& next.encrypt == run.encrypt
                &&& next.action == run.action
            },
        },
        (SetStage::Typing, SetEvent::Read { reading }) => match (
            r,
            planned_set(req, facts, run.existing@, config_type, run.value@, reading),
        ) {
            (Ok(next), Ok((text, encrypt, action))) => {
                &&& next.stage == if encrypt {
                    SetStage::Sealing
                } else {
                    SetStage::Storing
                }
                &&& next.value@ == text
                &&& next.encrypt == encrypt
                &&& next.action == action
                &&& next.filter == run.filter
                &&& next.existing == run.existing
            },
            (Err(e), Err(want)) => e@ == want,
            _ => false,
        },
        (SetStage::Sealing, SetEvent::Sealed { outcome }) => match outcome {
            Err(fault) => r matches Err(e) && e@ == seal_error(fault, scope),
            Ok(bytes) => r matches Ok(next) && {
                &&& next.stage is Storing
                &&& next.value@ == bytes_hex(bytes@)
                &&& next.encrypt == run.encrypt
                &&& next.action == run.action
                &&& next.filter == run.filter
                &&& next.existing == run.existing
            },
        },
        (SetStage::Storing, SetEvent::Stored { outcome }) => match outcome {
            Err(fault) => r matches Err(e) && e@ == store_error(run.action, fault),
            Ok(_) => r matches Ok(next) && {
                &&& next.stage is Done
                &&& next.value == run.value
                &&& next.encrypt == run.encrypt
                &&& next.action == run.action
                &&& next.filter == run.filter
                &&& next.existing == run.existing
            },
        },
        _ => r == Ok::<SetRun, CliError>(run),
    }
}

/// Take the setting of a value one step further.
pub fn handle_set(
    req: &SetRequest,
    facts: &KeyFacts,
    config_type: Option<ConfigType>,
    scope: ConfigScope,
    run: SetRun,
    event: SetEvent,
) -> (r: Result<SetRun, CliError>)
    ensures
        is_set_step(r, *req, *facts, config_type, scope, run, event),
{
    match (run.stage, event) {
        (SetStage::Reading, SetEvent::Existing { outcome, interactive }) => {
            let existing = match outcome {
                Ok(existing) => existing,
                Err(error) => {
                    return Err(existing_values_error(scope, req.key.as_str(), error.as_str()));
                },
            };
            match value_source(req, facts, &existing, interactive) {
                Err(e) => Err(e),
                Ok(ValueSource::Given { value }) => Ok(
                    SetRun { stage: SetStage::Typing, existing, value, ..run },
                ),
                Ok(ValueSource::Prompt) => Ok(
                    SetRun { stage: SetStage::Asking { prompt: true }, existing, ..run },
                ),
                Ok(ValueSource::Stdin) => Ok(
                    SetRun { stage: SetStage::Asking { prompt: false }, existing, ..run },
                ),
            }
        },
        (SetStage::Asking { prompt }, SetEvent::Answered { outcome }) => match outcome {
            Err(error) => Err(input_error(prompt, error.as_str())),
            Ok(text) => {
                let value = if prompt {
                    text
                } else {
                    strip_line_end(text.as_str())
                };
                Ok(SetRun { stage: SetStage::Typing, value, ..run })
            },
        },
        (SetStage::Typing, SetEvent::Read { reading }) => match plan_set(
            req,
            facts,
            &run.existing,
            config_type,
            run.value.as_str(),
            &reading,
        ) {
            Err(e) => Err(e),
            Ok(plan) => {
                let stage = if plan.encrypt {
                    SetStage::Sealing
                } else {
                    SetStage::Storing
                };
                Ok(
                    SetRun {
                        stage,
                        value: plan.value,
                        encrypt: plan.encrypt,
                        action: plan.action,
                        ..run
                    },
                )
            },
        },
        (SetStage::Sealing, SetEvent::Sealed { outcome }) => match outcome {
            Err(fault) => Err(map_seal_fault(&fault, scope)),
            Ok(bytes) => {
                let value = stored_value("", &Some(bytes));
                Ok(SetRun { stage: SetStage::Storing, value, ..run })
            },
        },
        (SetStage::Storing, SetEvent::Stored { outcome }) => match outcome {
            Err(fault) => Err(map_store_fault(run.action, &fault)),
            Ok(_) => Ok(SetRun { stage: SetStage::Done, ..run }),
        },
        _ => Ok(run),
    }
}

/// What holds of a value at each stage: it is sealed where it is stored encrypted, it is stored
/// encrypted where that is owed, and it is stored beside others only where these are stored as it
/// is.
pub open spec fn set_in_course(req: SetRequest, facts: KeyFacts, run: SetRun) -> bool {
    &&& set_fault(req, facts) is None
    &&& run.action == set_action(req)
    &&& match run.stage {
        SetStage::Sealing => run.encrypt && stores_encrypted(req, facts, run.existing@),
        SetStage::Storing | SetStage::Done => {
            &&& run.encrypt == stores_encrypted(req, facts, run.existing@)
            &&& run.encrypt ==> is_hex_pairs(run.value@)
        },
        _ => true,
    }
    &&& (run.stage is Sealing || run.stage is Storing || run.stage is Done) && req.add
        ==> !has_state(run.existing@, !run.encrypt)
}

/// Whatever the steps give, the setting of a value stays in its course.
pub proof fn law_set_stays_in_course(
    r: Result<SetRun, CliError>,
    req: SetRequest,
    facts: KeyFacts,
    config_type: Option<ConfigType>,
    scope: ConfigScope,
    run: SetRun,
    event: SetEvent,
)
    requires
        set_in_course(req, facts, run),
        is_set_step(r, req, facts, config_type, scope, run, event),
    ensures
        r matches Ok(next) ==> set_in_course(req, facts, next),
{
    if let (SetStage::Sealing, SetEvent::Sealed { outcome: Ok(bytes) }) = (run.stage, event) {
        law_hex_is_read_back(bytes@, bytes@);
    }
}

pub open spec fn set_steps_left(stage: SetStage) -> nat {
    match stage {
        SetStage::Reading => 5,
        SetStage::Asking { .. } => 4,
        SetStage::Typing => 3,
        SetStage::Sealing => 2,
        SetStage::Storing => 1,
        SetStage::Done => 0,
    }
}

/// Every step that changes the setting of a value brings it nearer to its end.
pub proof fn law_set_ends(
    r: Result<SetRun, CliError>,
    req: SetRequest,
    facts: KeyFacts,
    config_type: Option<ConfigType>,
    scope: ConfigScope,
    run: SetRun,
    event: SetEvent,
)
    requires
        is_set_step(r, req, facts, config_type, scope, run, event),
    ensures
        r matches Ok(next) ==> next == run || set_steps_left(next.stage) < set_steps_left(run.stage),
{
}

/// A value goes the whole way unchanged, unless its type or its encryption changes it: the one that was
/// given is the one that is typed, and the typed one is stored, in place of it the digits of its
/// ciphertext where it is to be encrypted. Nothing is stored plain that is to be encrypted.
pub proof fn law_value_goes_the_whole_way(
    r: Result<SetRun, CliError>,
    req: SetRequest,
    facts: KeyFacts,
    config_type: Option<ConfigType>,
    scope: ConfigScope,
    run: SetRun,
    event: SetEvent,
)
    requires
        is_set_step(r, req, facts, config_type, scope, run, event),
    ensures
        match (run.stage, event) {
            (SetStage::Reading, SetEvent::Existing { outcome, interactive }) => {
                &&& outcome is Err ==> r is Err
                &&& outcome matches Ok(existing) ==> (req.value matches Some(v) ==> (!req.stdin ==> (r
                    matches Ok(next) && next.stage is Typing && next.value@ == v@ && next.existing@
                    == existing@)))
            },
            (SetStage::Asking { prompt }, SetEvent::Answered { outcome }) => {
                &&& outcome is Err ==> r is Err
                &&& outcome matches Ok(text) ==> (r matches Ok(next) && next.stage is Typing && (
                prompt || text@.len() == 0 || text@.last() != '\n' ==> next.value@ == text@))
            },
            (SetStage::Typing, SetEvent::Read { .. }) => r matches Ok(next) ==> {
                &&& config_type is None ==> next.value@ == run.value@
                &&& next.encrypt <==> next.stage is Sealing
                &&& next.stage is Sealing || next.stage is Storing
                &&& req.encrypt ==> next.stage is Sealing
                &&& facts.sensitive && !req.plaintext ==> next.stage is Sealing
                &&& req.plaintext && !req.encrypt ==> next.stage is Storing
            },
            (SetStage::Sealing, SetEvent::Sealed { outcome }) => {
                &&& outcome is Err ==> r is Err
                &&& outcome matches Ok(bytes) ==> (r matches Ok(next) && next.stage is Storing
                    && next.value@ == bytes_hex(bytes@) && next.encrypt == run.encrypt)
            },
            (SetStage::Storing, SetEvent::Stored { outcome }) => {
                &&& outcome is Err ==> r is Err
                &&& outcome is Ok ==> (r matches Ok(next) && next.stage is Done && next.value == run.value)
            },
            _ => r == Ok::<SetRun, CliError>(run),
        },
{
    if let (SetStage::Reading, SetEvent::Existing { outcome: Ok(existing), interactive }) = (
        run.stage,
        event,
    ) {
        if let Err(e) = r {
            law_where_a_value_comes_from(Err(e), req, facts, existing@, interactive);
        }
    }
    if let (SetStage::Typing, SetEvent::Read { reading }) = (run.stage, event) {
        law_given_value_is_stored(
            req,
            facts,
            run.existing@,
            config_type,
            run.value@,
            reading,
        );
    }
    if let (SetStage::Asking { prompt }, SetEvent::Answered { outcome: Ok(text) }) = (run.stage, event) {
        law_one_line_end_is_taken(text@);
    }
}

/// A store that failed is told with what was said of it: where a value would take the place of several,
/// with a status of its own.
pub proof fn law_failed_store_is_told(action: SetAction, message: String)
    ensures
        ({
            let e = store_error(action, WriteFault::Write { error: message });
            let many = has_infix(message@, "values exist"@);
            &&& message@.is_suffix_of(e.message)
            &&& action == SetAction::Append ==> e.message == message@ && e.exit is None
            &&& action == SetAction::SetOne && many ==> e.message == message@ && e.exit == Some(5i32)
            &&& action == SetAction::SetOne && !many ==> e.message == message@ && e.exit is None
            &&& action is ReplaceMatching && many ==> e.message == "error: "@ + message@ && e.exit == Some(
                5i32,
            )
            &&& action is ReplaceMatching && !many ==> e.exit == Some(4i32)
        }),
{
}

/// A removal that failed is told in the same way.
pub proof fn law_failed_removal_is_told(action: UnsetAction, message: String)
    ensures
        ({
            let e = removal_error(action, WriteFault::Write { error: message });
            let many = has_infix(message@, "values exist"@);
            &&& message@.is_suffix_of(e.message)
            &&& action is All ==> e.message == message@ && e.exit is None
            &&& action is One && many ==> e.message == message@ && e.exit == Some(5i32)
            &&& action is One && !many ==> e.message == message@ && e.exit is None
            &&& action is Matching && many ==> e.message == "error: "@ + message@ && e.exit == Some(5i32)
            &&& action is Matching && !many ==> e.exit == Some(4i32)
        }),
{
}

} // verus!
