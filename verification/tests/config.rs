//! Configuration: what was asked for, and reading, listing, writing and importing values.

use libra::config::assign::{
    handle_set, map_removal_fault, map_store_fault, start_set, SealFault, SetEvent, SetStage, WriteFault,
};
use libra::config::get::{
    check_get, collect_entries, get_all_cascaded, get_cascaded, get_query, handle_get, known_keys,
    read_values, render_report, scopes_to_query, scopes_to_read, select_keys, AllValues, FoundEntry,
    GetQuery, GetReport, GotValue, KnownKey, PatternRefusals, ScopeGet, ScopeRead, ScopedEntry,
    ShowOptions,
};
use libra::config::import::{
    collapse_warning_text, decide_multi, decide_single, git_import_failure, git_list_args,
    ignored_warning_text, is_known_multi_value_key, parse_git_listing, plan_import,
    print_import_summary, summarize_import, ConfigImportSummary, ImportDecision,
};
use libra::config::list::{
    build_list_entries, check_list, handle_list, list_entries, list_gpg_key_entries, list_kind,
    list_scope_label, list_ssh_key_entries, list_vault_entries, render_gpg_keys, render_list,
    render_listing, render_ssh_keys, render_vault_entries, scopes_to_list, ListKind, ListRows,
};
use libra::config::set::{
    check_generate_gpg_key, check_generate_ssh_key, check_remote_exists, check_removed_section,
    check_renamed_section, check_section_rows, check_sections, check_set, emit_set_ack,
    existing_values_error, gpg_config_key, gpg_user, handle_path, input_error,
    map_matching_write_error, map_single_write_error, plan_set, plan_unset,
    reject_global_key_generation, reject_protected_vault_section, render_generated_gpg_key,
    render_generated_ssh_key, render_removed_section, render_renamed_section, render_unset,
    section_prefix, ssh_config_keys, strip_line_end, value_source, vault_init_error, GpgUsage,
    KeyFacts, SectionFacts, SetAction, SetRequest, UnsetAction, ValueSource,
};
use libra::config::values::{
    canonicalize_typed_value, compile_key_regex, config_decrypt_cli_error,
    config_origin_path_string, config_read_cli_error, config_write_cli_error, expand_typed_path,
    format_config_origin, format_config_record, format_get_value_record, needs_opening,
    no_value_match_error, regex_cli_error, reject_name_only_with_json, reject_null_with_json,
    render_get_value, render_list_value, typed_output, value_filter_input, ConfigKvEntry,
    OriginPaths, ValueFilter, ValueReading,
};
use libra::config::{
    execute_inner, get_scope, has_explicit_scope, resolve_command, resolve_type, scope_name,
    ConfigArgs, ConfigCommand, ConfigScope, ConfigType, GitExtraArgs, OutputFlags, ResolvedCommand,
    ScopeSetup, ScopedConfig, ValueFilterSpec,
};
use libra::error::{CliErrorKind, StableErrorCode};

fn text(s: &str) -> Option<String> {
    Some(s.to_string())
}

fn args() -> ConfigArgs {
    ConfigArgs {
        command: None,
        get: false,
        get_all: false,
        unset: false,
        unset_all: false,
        list: false,
        add: false,
        import: false,
        get_regexp: false,
        show_origin: false,
        show_scope: false,
        null: false,
        name_only: false,
        reveal: false,
        extra: GitExtraArgs::default(),
        local: false,
        global: false,
        system: false,
        key: None,
        valuepattern: None,
        default: None,
    }
}

fn flags() -> OutputFlags {
    OutputFlags { null: false, show_scope: false, show_origin: false, name_only: false }
}

fn entry(key: &str, value: &str) -> ConfigKvEntry {
    ConfigKvEntry {
        key: key.to_string(),
        value: value.to_string(),
        encrypted: false,
        vault_internal: false,
        sensitive: false,
    }
}

fn secret(key: &str, value: &str) -> ConfigKvEntry {
    ConfigKvEntry { encrypted: true, sensitive: true, ..entry(key, value) }
}

fn reading() -> ValueReading {
    ValueReading { as_bool: None, as_int: Err("not a number".to_string()) }
}

fn found(e: ConfigKvEntry, opened: Result<String, String>) -> FoundEntry {
    FoundEntry { entry: e, scope: ConfigScope::Local, opened, reading: reading() }
}

fn paths() -> OriginPaths {
    OriginPaths { local: text("/r/.libra/libra.db"), global: None }
}

fn no_refusals() -> PatternRefusals {
    PatternRefusals { key: None, value: None }
}

fn no_filter() -> ValueFilterSpec {
    ValueFilterSpec { pattern: None, fixed: false, ignore_case: false }
}

fn show() -> ShowOptions {
    ShowOptions { reveal: false, filter: None, config_type: None, home: None }
}

#[test]
fn flags_become_commands() {
    let get = ConfigArgs { get: true, key: text("user.name"), ..args() };
    assert!(matches!(
        resolve_command(&get),
        Ok(ResolvedCommand::Get { key, all: false, regexp: false, .. }) if key == "user.name"
    ));
    let all = ConfigArgs { get_all: true, key: text("user.name"), ..args() };
    assert!(matches!(resolve_command(&all), Ok(ResolvedCommand::Get { all: true, .. })));
    let regexp = ConfigArgs { get_regexp: true, key: text("user"), ..args() };
    assert!(matches!(resolve_command(&regexp), Ok(ResolvedCommand::Get { regexp: true, .. })));
    let set = ConfigArgs { key: text("user.name"), valuepattern: text("A"), ..args() };
    assert!(matches!(
        resolve_command(&set),
        Ok(ResolvedCommand::Assign { add: false, replace_all: false, value: Some(v), .. }) if v == "A"
    ));
    let add = ConfigArgs { add: true, ..set.clone() };
    assert!(matches!(resolve_command(&add), Ok(ResolvedCommand::Assign { add: true, .. })));
    let unset = ConfigArgs { unset_all: true, key: text("user.name"), ..args() };
    assert!(matches!(resolve_command(&unset), Ok(ResolvedCommand::Unset { all: true, .. })));
    let list = ConfigArgs { list: true, ..args() };
    assert!(matches!(resolve_command(&list), Ok(ResolvedCommand::List { .. })));
    let import = ConfigArgs { key: text("import"), ..args() };
    assert!(matches!(resolve_command(&import), Ok(ResolvedCommand::Import)));
    let path = ConfigArgs { key: text("path"), ..args() };
    assert!(matches!(resolve_command(&path), Ok(ResolvedCommand::Path)));
    let explicit = ConfigArgs {
        command: Some(ConfigCommand::Assign {
            key: "a.b".to_string(),
            value: None,
            add: false,
            append: true,
            all: true,
            encrypt: true,
            plaintext: false,
            stdin: false,
        }),
        ..args()
    };
    assert!(matches!(
        resolve_command(&explicit),
        Ok(ResolvedCommand::Assign { add: true, replace_all: true, encrypt: true, .. })
    ));
}

#[test]
fn wrong_commands_are_refused() {
    let cases = [
        (args(), "error: missing required argument: <key>", 2),
        (
            ConfigArgs { key: text("name"), ..args() },
            "error: key does not contain a section: name",
            1,
        ),
        (
            ConfigArgs { key: text("init"), ..args() },
            "error: key does not contain a section: init\n\nhint: `init` is a top-level command. Try `libra init`.",
            1,
        ),
        (
            ConfigArgs { key: text("a.b"), default: text("x"), ..args() },
            "error: --default (-d) can only be used with --get, --get-all, or --get-regexp",
            2,
        ),
        (
            ConfigArgs { key: text("a.b"), add: true, ..args() },
            "error: missing required argument: <value>",
            2,
        ),
        (
            ConfigArgs {
                extra: GitExtraArgs { rename_section: true, ..GitExtraArgs::default() },
                key: text("a"),
                ..args()
            },
            "error: --rename-section requires <old> <new>",
            2,
        ),
        (
            ConfigArgs {
                extra: GitExtraArgs { remove_section: true, ..GitExtraArgs::default() },
                key: text("a"),
                valuepattern: text("b"),
                ..args()
            },
            "error: --remove-section takes exactly one <section>",
            2,
        ),
        (
            ConfigArgs { import: true, key: text("a.b"), ..args() },
            "error: `libra config --import` does not accept <key>",
            128,
        ),
    ];
    for (a, message, exit) in cases {
        let error = resolve_command(&a).expect_err(message);
        assert_eq!(error.message(), message);
        assert_eq!(error.exit_code(), exit, "{message}");
    }
}

#[test]
fn types_are_chosen_once() {
    let with = |extra: GitExtraArgs| ConfigArgs { extra, ..args() };
    let none = GitExtraArgs::default;
    assert_eq!(resolve_type(&args()).unwrap(), None);
    assert_eq!(
        resolve_type(&with(GitExtraArgs { as_bool: true, ..none() })).unwrap(),
        Some(ConfigType::Bool)
    );
    assert_eq!(
        resolve_type(&with(GitExtraArgs { value_type: text("path"), ..none() })).unwrap(),
        Some(ConfigType::Path)
    );
    for (extra, message) in [
        (
            GitExtraArgs { as_bool: true, as_int: true, ..none() },
            "multiple type selectors specified (--type / --bool / --int / --path)",
        ),
        (
            GitExtraArgs { value_type: text("color"), ..none() },
            "--type=color is not yet supported by Libra config",
        ),
        (GitExtraArgs { value_type: text("x"), ..none() }, "unknown --type value: x"),
        (GitExtraArgs { no_type: true, ..none() }, "--no-type is not supported by Libra config"),
    ] {
        let error = resolve_type(&with(extra)).expect_err(message);
        assert_eq!(error.message(), message);
        assert_eq!(error.exit_code(), 129);
    }
}

#[test]
fn unsupported_flags_are_refused_first() {
    let system = ConfigArgs { system: true, ..args() };
    let error = execute_inner(&system).expect_err("no system scope");
    assert!(error.message().starts_with("--system scope is not supported"));
    let blob = ConfigArgs {
        extra: GitExtraArgs { blob: text("x"), ..GitExtraArgs::default() },
        ..args()
    };
    assert!(execute_inner(&blob).expect_err("no blobs").message().starts_with("--blob"));
    let typed = ConfigArgs {
        list: true,
        extra: GitExtraArgs { as_int: true, ..GitExtraArgs::default() },
        ..args()
    };
    assert_eq!(
        execute_inner(&typed).expect_err("no types in listings").message(),
        "--type can only be used with get/get-all/get-regexp or set"
    );
    let edit = ConfigArgs { key: text("edit"), ..args() };
    assert!(execute_inner(&edit).expect_err("no editor").message().contains("config edit"));
    let plan = execute_inner(&ConfigArgs { list: true, global: true, ..args() }).unwrap();
    assert_eq!(plan.scope, ConfigScope::Global);
    assert!(!plan.use_cascade);
    assert!(execute_inner(&ConfigArgs { list: true, ..args() }).unwrap().use_cascade);
}

#[test]
fn scopes_have_names_and_paths() {
    assert_eq!(scope_name(ConfigScope::Local), "local");
    assert_eq!(get_scope(&ConfigArgs { global: true, ..args() }), ConfigScope::Global);
    assert!(!has_explicit_scope(&args()));
    assert!(has_explicit_scope(&ConfigArgs { local: true, ..args() }));
    assert_eq!(ConfigScope::cascade_order(), [ConfigScope::Local, ConfigScope::Global]);
    let home = text("/home/a");
    assert_eq!(ConfigScope::Local.get_config_path(&None, &home), None);
    assert_eq!(
        ConfigScope::Global.get_config_path(&None, &home).as_deref(),
        Some("/home/a/.libra/config.db")
    );
    assert_eq!(ConfigScope::Global.get_config_path(&text("/x.db"), &home).as_deref(), Some("/x.db"));
    assert_eq!(ConfigScope::Global.get_config_path(&None, &None), None);
    assert_eq!(
        config_origin_path_string(ConfigScope::Local, &text("/r/.libra"), &None, &None).as_deref(),
        Some("/r/.libra/libra.db")
    );
    assert_eq!(
        ConfigScope::Global.ensure_config_exists(&text("/x.db"), true, false).unwrap(),
        ScopeSetup { create_directory: false, create_database: true }
    );
    assert!(ConfigScope::Global.ensure_config_exists(&None, true, true).is_err());
    assert!(ConfigScope::Local.ensure_config_exists(&None, false, false).is_ok());
    assert_eq!(
        ScopedConfig::get_connection(ConfigScope::Local, &text("/r"), false, &None).unwrap_err(),
        "fatal: libra database not found at '/r/libra.db'"
    );
    assert!(ScopedConfig::get_connection(ConfigScope::Local, &None, true, &None).is_err());
    assert!(ScopedConfig::get_connection(ConfigScope::Global, &None, true, &None).is_err());
    assert_eq!(
        ScopedConfig::get_connection(ConfigScope::Global, &None, true, &text("/x.db")).unwrap(),
        "/x.db"
    );
    assert_eq!(format_config_origin(ConfigScope::Local, &paths()), "file:/r/.libra/libra.db");
    assert_eq!(format_config_origin(ConfigScope::Global, &paths()), "file:global");
}

#[test]
fn errors_have_exit_codes() {
    let busy = config_write_cli_error("failed to write config", "SQLITE_BUSY: retry");
    assert_eq!(busy.message(), "failed to write config: database is locked: SQLITE_BUSY: retry");
    assert_eq!(busy.exit_code(), 4);
    assert_eq!(busy.stable_code(), StableErrorCode::IoWriteFailed);
    assert!(config_write_cli_error("c", "Disk Is Full").message().contains("insufficient disk space"));
    assert!(config_write_cli_error("c", "odd").message().contains("failed to write config"));
    assert_eq!(config_read_cli_error("m".to_string()).stable_code(), StableErrorCode::IoReadFailed);
    assert_eq!(
        config_decrypt_cli_error("k", "local", "bad").message(),
        "failed to decrypt value for key 'k' from local config: bad"
    );
    assert_eq!(regex_cli_error("x").exit_code(), 6);
    assert_eq!(no_value_match_error().exit_code(), 1);
    assert_eq!(map_matching_write_error("2 values exist").exit_code(), 5);
    assert_eq!(map_matching_write_error("other").exit_code(), 4);
    assert_eq!(map_single_write_error("2 values exist").exit_code(), 5);
    assert_eq!(map_single_write_error("other").exit_code(), 128);
    assert_eq!(map_single_write_error("other").kind, CliErrorKind::Failure);
    assert!(existing_values_error(ConfigScope::Local, "k", "e").message().contains("key 'k': e"));
    assert!(input_error(true, "e").message().ends_with("read input: e"));
    assert!(vault_init_error("local", "e").message().ends_with("local scope: e"));
}

#[test]
fn patterns_match_or_are_refused() {
    let plain = compile_key_regex("^user\\.", false, &None).unwrap();
    assert!(plain.is_match("user.name"));
    assert!(!plain.is_match("USER.NAME"));
    assert!(!plain.is_match("a.user.name"));
    assert!(compile_key_regex("^user\\.", true, &None).unwrap().is_match("USER.NAME"));
    let broken = compile_key_regex("(", false, &None).expect_err("an open group");
    assert!(broken.message().starts_with("error: invalid regex pattern '(': "));
    assert_eq!(broken.exit_code(), 6);
    let long = compile_key_regex("aaaa", false, &text("too long")).expect_err("a refused pattern");
    assert_eq!((long.message(), long.exit_code()), ("error: too long", 6));
}

#[test]
fn filters_are_fixed_or_patterns() {
    assert!(no_filter().compile(&None).unwrap().is_none());
    let fixed = ValueFilterSpec { pattern: text("a.c"), fixed: true, ignore_case: false };
    let filter = fixed.compile(&None).unwrap().unwrap();
    assert!(filter.matches("a.c"));
    assert!(!filter.matches("abc"));
    let pattern = ValueFilterSpec { pattern: text("a.c"), fixed: false, ignore_case: true };
    let filter = pattern.compile(&None).unwrap().unwrap();
    assert!(filter.matches("xABCx"));
    assert!(!filter.matches("ac"));
    let broken = ValueFilterSpec { pattern: text("["), fixed: false, ignore_case: false };
    assert_eq!(broken.compile(&None).unwrap_err().exit_code(), 6);
    let literal = ValueFilterSpec { pattern: text("["), fixed: true, ignore_case: false };
    assert!(literal.compile(&None).is_ok());
    let refused = pattern.compile(&text("too long")).unwrap_err();
    assert_eq!((refused.message(), refused.exit_code()), ("error: too long", 6));
    assert!(no_filter().compile(&text("too long")).unwrap().is_none());
}

#[test]
fn typed_values_have_one_form() {
    let yes = ValueReading { as_bool: Some(true), as_int: Ok(-7) };
    assert_eq!(canonicalize_typed_value(ConfigType::Bool, "yes", &yes, &None).unwrap(), "true");
    assert_eq!(canonicalize_typed_value(ConfigType::Int, "-7", &yes, &None).unwrap(), "-7");
    let bad = canonicalize_typed_value(ConfigType::Bool, "hunter2", &reading(), &None).unwrap_err();
    assert_eq!(bad.exit_code(), 2);
    assert!(!bad.message().contains("hunter2"));
    let bad = canonicalize_typed_value(ConfigType::Int, "hunter2", &reading(), &None).unwrap_err();
    assert!(!bad.message().contains("hunter2"));
    let home = text("/home/a");
    assert_eq!(expand_typed_path("~", &home).unwrap(), "/home/a");
    assert_eq!(expand_typed_path("~/x/y", &home).unwrap(), "/home/a/x/y");
    assert_eq!(expand_typed_path("/x", &home).unwrap(), "/x");
    assert_eq!(expand_typed_path("~b/x", &home).unwrap_err().exit_code(), 1);
    assert_eq!(expand_typed_path("~", &text("")).unwrap_err().exit_code(), 1);
    assert_eq!(expand_typed_path("~/x", &None).unwrap_err().exit_code(), 1);
}

#[test]
fn secrets_are_shown_only_when_revealed() {
    let s = secret("api.token", "c0ffee");
    let open = Ok("hunter2".to_string());
    let shown = |e: &ConfigKvEntry, reveal: bool| {
        render_get_value(e, reveal, ConfigScope::Local, &open).unwrap()
    };
    assert_eq!(shown(&s, false), "<REDACTED>");
    assert_eq!(shown(&s, true), "hunter2");
    let internal = ConfigKvEntry { vault_internal: true, ..secret("vault.unseal", "c0ffee") };
    assert_eq!(shown(&internal, true), "<REDACTED>");
    assert_eq!(shown(&entry("a.b", "plain"), false), "plain");
    assert!(needs_opening(&s, true));
    assert!(!needs_opening(&s, false));
    assert!(!needs_opening(&internal, true));
    let failed = render_get_value(&s, true, ConfigScope::Global, &Err("sealed".to_string())).unwrap_err();
    assert_eq!(
        failed.message(),
        "failed to decrypt value for key 'api.token' from global config: sealed"
    );
    assert_eq!(value_filter_input(&s, false, "<REDACTED>"), "c0ffee");
    assert_eq!(value_filter_input(&s, true, "hunter2"), "hunter2");
    let kept = typed_output(&s, false, "<REDACTED>", Some(ConfigType::Int), &reading(), &None).unwrap();
    assert_eq!(kept, "<REDACTED>");
    assert_eq!(render_list_value(&s, flags()).as_deref(), Some("<REDACTED>"));
    let marked = ConfigKvEntry { encrypted: false, ..secret("api.token", "plain") };
    assert_eq!(render_list_value(&marked, flags()).as_deref(), Some("plain [PLAINTEXT]"));
    let raw = OutputFlags { null: true, ..flags() };
    assert_eq!(render_list_value(&marked, raw).as_deref(), Some("plain"));
    let names = OutputFlags { name_only: true, ..flags() };
    assert_eq!(render_list_value(&marked, names), None);
}

#[test]
fn records_have_their_delimiters() {
    let both = OutputFlags { show_scope: true, show_origin: true, ..flags() };
    assert_eq!(
        format_config_record(ConfigScope::Local, "a.b", Some("v"), "=", both, &paths()),
        "local\tfile:/r/.libra/libra.db\ta.b=v\n"
    );
    let null = OutputFlags { null: true, show_scope: true, ..flags() };
    assert_eq!(
        format_config_record(ConfigScope::Global, "a.b", Some("v"), " ", null, &paths()),
        "global\0a.b\nv\0"
    );
    assert_eq!(
        format_config_record(ConfigScope::Local, "a.b", None, "=", flags(), &paths()),
        "a.b\n"
    );
    assert_eq!(format_get_value_record(ConfigScope::Local, "v", flags(), &paths()), "v\n");
    assert_eq!(format_get_value_record(ConfigScope::Local, "v", null, &paths()), "local\0v\0");
}

#[test]
fn json_takes_no_text_flags() {
    let null = OutputFlags { null: true, ..flags() };
    let names = OutputFlags { name_only: true, ..flags() };
    assert!(reject_null_with_json(null, true).is_err());
    assert!(reject_null_with_json(null, false).is_ok());
    assert!(reject_name_only_with_json(names, true).is_err());
    assert!(check_list(null, true).unwrap_err().message().starts_with("--null"));
    assert!(check_list(names, true).unwrap_err().message().starts_with("--name-only"));
    assert!(check_list(names, false).is_ok());
}

fn local(outcome: Result<Vec<ConfigKvEntry>, String>) -> ScopeRead {
    ScopeRead { scope: ConfigScope::Local, outcome }
}

fn global(outcome: Result<Vec<ConfigKvEntry>, String>) -> ScopeRead {
    ScopeRead { scope: ConfigScope::Global, outcome }
}

#[test]
fn reads_go_from_local_to_global() {
    assert_eq!(
        scopes_to_read(ConfigScope::Local, true, true),
        vec![ConfigScope::Local, ConfigScope::Global]
    );
    assert_eq!(scopes_to_read(ConfigScope::Local, true, false), vec![ConfigScope::Local]);
    assert_eq!(scopes_to_read(ConfigScope::Global, false, false), Vec::<ConfigScope>::new());
    assert_eq!(
        scopes_to_query(GetQuery::Single, ConfigScope::Global, false, false),
        vec![ConfigScope::Global]
    );
    assert_eq!(
        scopes_to_query(GetQuery::ByPattern, ConfigScope::Global, false, false),
        Vec::<ConfigScope>::new()
    );
    let reads = vec![local(Ok(vec![entry("a.b", "1")])), global(Ok(vec![entry("a.b", "2")]))];
    let all = get_all_cascaded(&reads).unwrap();
    assert_eq!(all.len(), 2);
    assert_eq!(all[0].entry.value, "1");
    assert_eq!(all[1].scope, ConfigScope::Global);
    let failing = vec![local(Ok(Vec::new())), global(Err("locked".to_string()))];
    assert_eq!(get_all_cascaded(&failing).unwrap_err(), "failed to read global config: locked");
    assert_eq!(collect_entries(&failing).len(), 0);
    assert_eq!(
        read_values(&failing, true).unwrap_err().message(),
        "failed to read global config: locked"
    );
    assert_eq!(read_values(&vec![global(Err("locked".to_string()))], false).unwrap_err().message(), "locked");
}

#[test]
fn local_values_win() {
    let get = |scope, outcome| ScopeGet { scope, outcome };
    let found = get_cascaded(&vec![
        get(ConfigScope::Local, Ok(Some(entry("a.b", "1")))),
        get(ConfigScope::Global, Err("locked".to_string())),
    ])
    .unwrap()
    .unwrap();
    assert_eq!((found.entry.value.as_str(), found.scope), ("1", ConfigScope::Local));
    let fallback = get_cascaded(&vec![
        get(ConfigScope::Local, Ok(None)),
        get(ConfigScope::Global, Ok(Some(entry("a.b", "2")))),
    ])
    .unwrap()
    .unwrap();
    assert_eq!(fallback.scope, ConfigScope::Global);
    assert!(get_cascaded(&vec![get(ConfigScope::Local, Ok(None))]).unwrap().is_none());
    assert!(get_cascaded(&vec![get(ConfigScope::Local, Err("x".to_string()))]).is_err());
}

#[test]
fn reads_are_checked_before_anything_is_read() {
    let names = OutputFlags { name_only: true, ..flags() };
    assert!(check_get("a.b", false, false, false, names, &no_filter(), false, false, &no_refusals()).is_err());
    assert!(check_get("a", false, false, true, names, &no_filter(), false, false, &no_refusals()).is_ok());
    let internal = check_get("vault.x", false, true, false, flags(), &no_filter(), false, true, &no_refusals());
    assert_eq!(
        internal.unwrap_err().message(),
        "error: key 'vault.x' is a vault internal credential and cannot be revealed"
    );
    assert_eq!(
        check_get("(", false, false, true, flags(), &no_filter(), false, false, &no_refusals()).unwrap_err().exit_code(),
        6
    );
    let checks = check_get("^a", false, false, true, flags(), &no_filter(), false, false, &no_refusals()).unwrap();
    assert_eq!(checks.pattern.unwrap().pattern, "^a");
    let long = PatternRefusals { key: text("too long"), value: None };
    let refused = |regexp: bool| {
        check_get("^a", false, false, regexp, flags(), &no_filter(), false, false, &long)
    };
    assert_eq!(refused(true).unwrap_err().message(), "error: too long");
    // A key that is no pattern may have any length.
    assert!(refused(false).is_ok());
}

#[test]
fn queries_pick_their_branch() {
    let filter = Some(ValueFilter::Fixed { text: "x".to_string() });
    assert_eq!(get_query(true, true, &filter), GetQuery::ByPattern);
    assert_eq!(get_query(true, false, &filter), GetQuery::AllValues);
    assert_eq!(get_query(false, false, &filter), GetQuery::LastAccepted);
    assert_eq!(get_query(false, false, &None), GetQuery::Single);
}

#[test]
fn a_single_value_is_read_or_defaulted() {
    let none: Vec<KnownKey> = Vec::new();
    let one = vec![found(entry("a.b", "v"), Ok(String::new()))];
    let got = handle_get(GetQuery::Single, "a.b", &one, &text("d"), &none, &show()).unwrap();
    assert_eq!(render_report(&got, ConfigScope::Local, flags(), &paths()), "v\n");
    let got = handle_get(GetQuery::Single, "a.b", &Vec::new(), &text("d"), &none, &show()).unwrap();
    let scoped = OutputFlags { show_scope: true, ..flags() };
    assert_eq!(render_report(&got, ConfigScope::Local, scoped, &paths()), "d\n");
    assert!(matches!(got, GetReport::One { got: GotValue { scope: None, .. } }));
}

#[test]
fn unknown_keys_suggest_a_near_one() {
    let known = vec![
        KnownKey { key: "user.nome".to_string(), distance: 2 },
        KnownKey { key: "user.names".to_string(), distance: 1 },
        KnownKey { key: "user.nam".to_string(), distance: 1 },
    ];
    let error = handle_get(GetQuery::Single, "user.name", &Vec::new(), &None, &known, &show()).unwrap_err();
    assert_eq!(
        error.message(),
        "key 'user.name' not found in any scope\n\nhint: did you mean 'user.names'?\nhint: use libra config list to see all configured keys"
    );
    assert_eq!(error.exit_code(), 1);
    let far = vec![KnownKey { key: "core.editor".to_string(), distance: 9 }];
    let error = handle_get(GetQuery::Single, "user.name", &Vec::new(), &None, &far, &show()).unwrap_err();
    assert!(!error.message().contains("did you mean"));
    let entries = vec![
        ScopedEntry { entry: entry("a.b", "1"), scope: ConfigScope::Local },
        ScopedEntry { entry: entry("a.b", "2"), scope: ConfigScope::Global },
        ScopedEntry { entry: entry("c.d", "3"), scope: ConfigScope::Global },
    ];
    assert_eq!(known_keys(&entries), vec!["a.b", "c.d"]);
}

#[test]
fn filters_pick_the_last_match() {
    let none: Vec<KnownKey> = Vec::new();
    let values = vec![
        found(entry("a.b", "x1"), Ok(String::new())),
        found(entry("a.b", "x2"), Ok(String::new())),
        found(entry("a.b", "y"), Ok(String::new())),
    ];
    let filtered = ShowOptions {
        filter: Some(ValueFilter::Pattern { pattern: "^x".to_string(), ignore_case: false }),
        ..show()
    };
    let got = handle_get(GetQuery::LastAccepted, "a.b", &values, &None, &none, &filtered).unwrap();
    assert!(matches!(got, GetReport::One { got } if got.value == "x2"));
    let unmatched = ShowOptions { filter: Some(ValueFilter::Fixed { text: "z".to_string() }), ..show() };
    let error = handle_get(GetQuery::LastAccepted, "a.b", &values, &text("d"), &none, &unmatched).unwrap_err();
    assert_eq!(error.message(), "no value matched the --value filter");
    let absent = handle_get(GetQuery::LastAccepted, "a.b", &Vec::new(), &text("d"), &none, &unmatched).unwrap();
    assert!(matches!(absent, GetReport::One { got: GotValue { scope: None, .. } }));
    let all = handle_get(GetQuery::AllValues, "a.b", &values, &None, &none, &filtered).unwrap();
    assert_eq!(render_report(&all, ConfigScope::Local, flags(), &paths()), "x1\nx2\n");
    let default = handle_get(GetQuery::AllValues, "a.b", &Vec::new(), &text("d"), &none, &filtered).unwrap();
    assert!(matches!(default, GetReport::All { values: AllValues::Default { value } } if value == "d"));
    let by_pattern = handle_get(GetQuery::ByPattern, "a", &values, &None, &none, &show()).unwrap();
    assert_eq!(
        render_report(&by_pattern, ConfigScope::Local, flags(), &paths()),
        "a.b x1\na.b x2\na.b y\n"
    );
    let entries = vec![
        ScopedEntry { entry: entry("a.b", "1"), scope: ConfigScope::Local },
        ScopedEntry { entry: entry("c.d", "3"), scope: ConfigScope::Global },
    ];
    let pattern = compile_key_regex("^c", false, &None).unwrap();
    assert_eq!(select_keys(&entries, &pattern)[0].entry.key, "c.d");
}

#[test]
fn listings_redact_and_prefix() {
    let reads = vec![
        local(Ok(vec![entry("a.b", "1"), secret("api.token", "c0ffee")])),
        global(Err("locked".to_string())),
    ];
    let shown = OutputFlags { show_scope: true, ..flags() };
    let entries = list_entries(&reads, shown, true).expect("unreadable scopes are left out");
    assert_eq!(
        render_list(&entries, shown, &paths()),
        "local\ta.b=1\nlocal\tapi.token=<REDACTED>\n"
    );
    let data = build_list_entries(&entries, shown, &paths());
    assert_eq!(data[0].scope.as_deref(), Some("local"));
    assert_eq!(data[1].value.as_deref(), Some("<REDACTED>"));
    assert_eq!(list_scope_label(shown, ConfigScope::Local, true), "all");
    assert_eq!(list_scope_label(flags(), ConfigScope::Global, true), "global");
    assert_eq!(scopes_to_list(flags(), ConfigScope::Local, true, true), vec![ConfigScope::Local]);
    assert_eq!(
        list_entries(&vec![global(Err("locked".to_string()))], flags(), false).unwrap_err().message(),
        "locked"
    );
    assert_eq!(list_kind(true, true, true), ListKind::SshKeys);
    assert_eq!(list_kind(true, false, false), ListKind::Vault);
}

#[test]
fn ssh_keys_are_listed_by_remote() {
    let entries = vec![
        entry("vault.ssh.upstream.pubkey", "ssh-rsa BBBB me@host work"),
        entry("vault.ssh.origin.pubkey", "ssh-rsa AAAA"),
        entry("vault.ssh.broken.pubkey", "ssh-rsa"),
        entry("vault.ssh.origin.privkey", "secret stuff"),
        entry("vault.ssh.pubkey", "ssh-rsa CCCC"),
    ];
    let keys = list_ssh_key_entries(&entries);
    assert_eq!(keys.len(), 2);
    assert_eq!((keys[0].remote.as_str(), keys[0].key_id.as_deref()), ("origin", None));
    assert_eq!(
        (keys[1].remote.as_str(), keys[1].key_id.as_deref()),
        ("upstream", Some("me@host work"))
    );
    assert_eq!(keys[1].key_type, "ssh-rsa");
    let text = render_ssh_keys(&keys);
    assert!(text.starts_with("SSH keys:\n  origin     ssh-rsa AAAA\n"));
    assert!(text.contains("\n2 keys configured\n"));
    assert_eq!(render_ssh_keys(&Vec::new()), "No SSH keys configured.\n");
}

#[test]
fn gpg_keys_are_listed_once_by_use() {
    let entries = vec![
        entry("vault.gpg_pubkey", "x"),
        entry("vault.gpg.encrypt.pubkey", "y"),
        entry("vault.gpg.pubkey", "z"),
    ];
    let keys = list_gpg_key_entries(&entries, &text("TRUE"));
    assert_eq!(keys.len(), 2);
    assert_eq!((keys[0].usage.as_str(), keys[0].signing_enabled), ("encrypt", false));
    assert_eq!((keys[1].usage.as_str(), keys[1].signing_enabled), ("signing", true));
    assert_eq!(keys[1].pubkey_config_key, "vault.gpg_pubkey");
    assert!(render_gpg_keys(&keys).contains("  signing    vault.gpg_pubkey  (vault.signing = true)\n"));
    assert_eq!(render_gpg_keys(&Vec::new()), "No GPG keys configured.\n");
}

#[test]
fn vault_variables_are_listed_over_all_scopes() {
    let reads = vec![
        local(Ok(vec![secret("vault.env.A", "c0ffee")])),
        global(Ok(vec![entry("vault.env.B", "plain")])),
    ];
    let listed = list_vault_entries(&reads);
    let text = render_vault_entries(&listed);
    assert!(text.contains("  local    vault.env.A = <REDACTED>  (encrypted)\n"));
    assert!(text.contains("  global   vault.env.B = plain  (plaintext)\n"));
    assert!(text.contains("\n2 entries\n"));
    assert_eq!(
        render_vault_entries(&Vec::new()),
        "No vault environment variables configured.\n"
    );
}

fn request(key: &str, value: Option<&str>) -> SetRequest {
    SetRequest {
        key: key.to_string(),
        value: value.map(str::to_string),
        add: false,
        replace_all: false,
        encrypt: false,
        plaintext: false,
        stdin: false,
        filter: no_filter(),
    }
}

fn facts() -> KeyFacts {
    KeyFacts { syntax_error: None, vault_internal: false, sensitive: false, pattern_refusal: None }
}

#[test]
fn sets_are_checked_first() {
    assert!(check_set(&request("a.b", Some("v")), &facts()).is_ok());
    let malformed = KeyFacts { syntax_error: text("bad key"), ..facts() };
    let error = check_set(&request("a..b", Some("v")), &malformed).unwrap_err();
    assert_eq!((error.message(), error.exit_code()), ("error: bad key", 1));
    let long = KeyFacts { pattern_refusal: text("too long"), ..facts() };
    let filtered = SetRequest {
        filter: ValueFilterSpec { pattern: text("x"), fixed: false, ignore_case: false },
        ..request("a.b", Some("v"))
    };
    assert_eq!(check_set(&filtered, &long).unwrap_err().exit_code(), 6);
    assert!(check_set(&request("a.b", Some("v")), &long).is_ok());
    let both = SetRequest { encrypt: true, plaintext: true, ..request("a.b", Some("v")) };
    assert_eq!(check_set(&both, &facts()).unwrap_err().exit_code(), 129);
    let env = SetRequest { plaintext: true, ..request("vault.env.X", Some("v")) };
    assert_eq!(
        check_set(&env, &facts()).unwrap_err().stable_code(),
        StableErrorCode::RepoStateInvalid
    );
}

#[test]
fn values_come_from_one_source() {
    let none: Vec<ConfigKvEntry> = Vec::new();
    assert!(matches!(
        value_source(&request("a.b", Some("v")), &facts(), &none, false),
        Ok(ValueSource::Given { value }) if value == "v"
    ));
    let stdin = SetRequest { stdin: true, ..request("a.b", None) };
    assert!(matches!(value_source(&stdin, &facts(), &none, false), Ok(ValueSource::Stdin)));
    let both = SetRequest { stdin: true, ..request("a.b", Some("v")) };
    assert!(value_source(&both, &facts(), &none, false).is_err());
    assert_eq!(
        value_source(&request("a.b", None), &facts(), &none, true).unwrap_err().message(),
        "error: missing value for key 'a.b'"
    );
    let sensitive = KeyFacts { sensitive: true, ..facts() };
    assert!(matches!(
        value_source(&request("a.token", None), &sensitive, &none, true),
        Ok(ValueSource::Prompt)
    ));
    assert_eq!(
        value_source(&request("a.token", None), &sensitive, &none, false).unwrap_err().exit_code(),
        2
    );
    assert_eq!(strip_line_end("v\r\n"), "v");
    assert_eq!(strip_line_end("v\n\n"), "v\n");
    assert_eq!(strip_line_end("v\r"), "v\r");
    assert_eq!(strip_line_end(""), "");
}

#[test]
fn secrets_are_stored_encrypted() {
    let none: Vec<ConfigKvEntry> = Vec::new();
    let plan = |req: &SetRequest, f: &KeyFacts, existing: &Vec<ConfigKvEntry>| {
        plan_set(req, f, existing, None, "v", &reading())
    };
    assert!(!plan(&request("a.b", None), &facts(), &none).unwrap().encrypt);
    let sensitive = KeyFacts { sensitive: true, ..facts() };
    assert!(plan(&request("a.token", None), &sensitive, &none).unwrap().encrypt);
    assert!(plan(&request("a.b", None), &facts(), &vec![secret("a.b", "00")]).unwrap().encrypt);
    let plain = SetRequest { plaintext: true, ..request("a.token", None) };
    assert!(!plan(&plain, &sensitive, &none).unwrap().encrypt);
    let mixed = SetRequest { add: true, encrypt: true, ..request("a.b", None) };
    assert_eq!(
        plan(&mixed, &facts(), &vec![entry("a.b", "1")]).unwrap_err().message(),
        "error: cannot mix encrypted and plaintext values for the same key"
    );
}

#[test]
fn actions_follow_the_request() {
    let none: Vec<ConfigKvEntry> = Vec::new();
    let action = |req: SetRequest| plan_set(&req, &facts(), &none, None, "v", &reading()).unwrap().action;
    assert_eq!(action(request("a.b", None)), SetAction::SetOne);
    assert_eq!(action(SetRequest { add: true, ..request("a.b", None) }), SetAction::Append);
    assert_eq!(
        action(SetRequest { replace_all: true, ..request("a.b", None) }),
        SetAction::ReplaceMatching { enforce_single: false }
    );
    let filter = ValueFilterSpec { pattern: text("x"), fixed: true, ignore_case: false };
    assert_eq!(
        action(SetRequest { filter, ..request("a.b", None) }),
        SetAction::ReplaceMatching { enforce_single: true }
    );
    let yes = ValueReading { as_bool: Some(true), as_int: Ok(1) };
    let typed = plan_set(&request("a.b", None), &facts(), &none, Some(ConfigType::Bool), "on", &yes).unwrap();
    assert_eq!(typed.value, "true");
    let path = plan_set(&request("a.b", None), &facts(), &none, Some(ConfigType::Path), "~/x", &yes).unwrap();
    assert_eq!(path.value, "~/x");
    assert_eq!(
        emit_set_ack(SetAction::Append, ConfigScope::Local, "a.b", true),
        "Added local (encrypted): a.b\n"
    );
    assert_eq!(emit_set_ack(SetAction::SetOne, ConfigScope::Global, "a.b", false), "Set global: a.b\n");
}

#[test]
fn unsets_follow_the_request() {
    assert!(matches!(plan_unset(false, &no_filter(), &None), Ok(UnsetAction::One)));
    assert!(matches!(plan_unset(true, &no_filter(), &None), Ok(UnsetAction::All)));
    let filter = ValueFilterSpec { pattern: text("x"), fixed: true, ignore_case: false };
    assert!(matches!(
        plan_unset(false, &filter, &None),
        Ok(UnsetAction::Matching { enforce_single: true, .. })
    ));
    assert_eq!(
        render_unset(true, ConfigScope::Local, "a.b", 3),
        "Unset local: a.b (removed 3 values)\n"
    );
    assert_eq!(render_unset(true, ConfigScope::Local, "a.b", 1), "Unset local: a.b\n");
}

#[test]
fn sections_are_guarded() {
    let fine = || SectionFacts { syntax_error: None, protected: false };
    assert!(check_sections(&vec![fine(), fine()]).is_ok());
    let bad = SectionFacts { syntax_error: text("no name"), protected: false };
    let vault = SectionFacts { syntax_error: None, protected: true };
    assert_eq!(check_sections(&vec![vault, bad]).unwrap_err().message(), "error: no name");
    assert!(reject_protected_vault_section(true).is_err());
    let stray = ConfigKvEntry { vault_internal: true, ..entry("x.privkey", "00") };
    assert!(check_section_rows(&vec![entry("x.a", "1"), stray]).is_err());
    assert!(check_section_rows(&vec![entry("x.a", "1")]).is_ok());
    assert_eq!(section_prefix("remote.origin"), "remote.origin.");
    assert_eq!(check_renamed_section("a", "b", &Ok(2)).unwrap(), 2);
    assert_eq!(
        check_renamed_section("a", "b", &Ok(0)).unwrap_err().message(),
        "section 'a' does not exist"
    );
    assert_eq!(
        check_renamed_section("a", "b", &Err("b.x already exists".to_string())).unwrap_err().message(),
        "target section 'b' already exists"
    );
    assert_eq!(check_renamed_section("a", "b", &Err("locked".to_string())).unwrap_err().exit_code(), 4);
    assert_eq!(check_removed_section("a", &Ok(0)).unwrap_err().exit_code(), 5);
    assert_eq!(check_removed_section("a", &Ok(1)).unwrap(), 1);
    assert_eq!(
        render_renamed_section(ConfigScope::Local, "a", "b", 1),
        "Renamed local section: a -> b (1 key)\n"
    );
    assert_eq!(
        render_removed_section(ConfigScope::Global, "a", 2),
        "Removed global section: a (2 keys)\n"
    );
}

#[test]
fn paths_are_told_or_missing() {
    assert_eq!(handle_path(ConfigScope::Local, &paths()).unwrap(), "/r/.libra/libra.db");
    assert_eq!(
        handle_path(ConfigScope::Global, &paths()).unwrap_err().message(),
        "error: could not determine global config path"
    );
}

#[test]
fn keys_are_generated_for_the_repository() {
    assert!(reject_global_key_generation(ConfigScope::Local, "x").is_ok());
    let error = reject_global_key_generation(ConfigScope::Global, "generate-ssh-key").unwrap_err();
    assert_eq!(error.hints()[0], "run without --global to generate a repository-local key");
    assert!(check_generate_ssh_key("origin_2-x", ConfigScope::Local).is_ok());
    for remote in ["", "a b", "\u{e9}", &"a".repeat(65)] {
        let error = check_generate_ssh_key(remote, ConfigScope::Local).unwrap_err();
        assert_eq!(
            error.message(),
            format!("invalid remote name '{remote}': only [a-zA-Z0-9_-] allowed, 1-64 chars")
        );
    }
    assert!(check_remote_exists("origin", true).is_ok());
    assert_eq!(
        check_remote_exists("origin", false).unwrap_err().stable_code(),
        StableErrorCode::RepoStateInvalid
    );
    let (public, private) = ssh_config_keys("origin");
    assert_eq!(public, "vault.ssh.origin.pubkey");
    assert_eq!(private, "vault.ssh.origin.privkey");
    let text_of = render_generated_ssh_key("origin", "ssh-rsa AAAA");
    assert!(text_of.contains("  public key:  vault.ssh.origin.pubkey (in config)\n"));
    assert!(text_of.ends_with("libra push origin main\n"));
    let listed = list_ssh_key_entries(&vec![entry(&public, "ssh-rsa AAAA")]);
    assert_eq!(listed[0].remote, "origin");
    assert_eq!(check_generate_gpg_key(&None, ConfigScope::Local).unwrap(), GpgUsage::Signing);
    assert_eq!(
        check_generate_gpg_key(&text("encrypt"), ConfigScope::Local).unwrap(),
        GpgUsage::Encrypt
    );
    assert!(check_generate_gpg_key(&text("other"), ConfigScope::Local).is_err());
    assert_eq!(gpg_config_key(GpgUsage::Encrypt), "vault.gpg.encrypt.pubkey");
    assert_eq!(GpgUsage::Signing.label(), "signing");
    let user = gpg_user(&text("Given"), &None, &text("Config"), &text("config@x"));
    assert_eq!(user, ("Given".to_string(), "config@x".to_string()));
    let user = gpg_user(&None, &None, &None, &None);
    assert_eq!(user, ("Libra User".to_string(), "user@libra.local".to_string()));
    let text_of = render_generated_gpg_key(GpgUsage::Signing, "A", "a@x");
    assert!(text_of.starts_with("Generated GPG key:\n"));
    assert!(text_of.contains("  User:    A <a@x>\n"));
    assert!(text_of.ends_with("(vault.signing = true)\n"));
}

#[test]
fn git_listings_are_parsed() {
    let listing = parse_git_listing(&b"user.name\nA\nB\0core.bare\0nosection\n1\0\0 a.b \nv\0x".to_vec());
    let items: Vec<(&str, &str)> =
        listing.items.iter().map(|i| (i.key.as_str(), i.value.as_str())).collect();
    assert_eq!(items, vec![("user.name", "A\nB"), ("core.bare", "true"), ("a.b", "v")]);
    assert_eq!(listing.ignored, 2);
    let broken = parse_git_listing(&b"a.b\n\xff".to_vec());
    assert_eq!(broken.items[0].value, "\u{fffd}");
    assert_eq!(git_list_args(ConfigScope::Local), vec!["config", "--local", "--list", "-z"]);
    assert_eq!(git_list_args(ConfigScope::Global).last().unwrap(), "--no-includes");
    assert_eq!(
        git_import_failure(ConfigScope::Local, &b"fatal: not in a git directory\n".to_vec()),
        "error: failed to import Git local config\n  not in a git directory\n\nhint: Run this command inside a Git repository, or use `--global`."
    );
    assert_eq!(
        git_import_failure(ConfigScope::Global, &Vec::new()),
        "error: failed to import Git global config"
    );
}

#[test]
fn keys_with_several_values_are_known() {
    for key in [
        "credential.helper",
        "remote.origin.fetch",
        "remote.a.b.push",
        "branch.main.merge",
        "url.git@x:.insteadOf",
        "http.https://x.extraHeader",
    ] {
        assert!(is_known_multi_value_key(key), "{key}");
    }
    for key in ["remote.fetch", "user.name", "remote.origin.url", "core.fetch", "credential.x"] {
        assert!(!is_known_multi_value_key(key), "{key}");
    }
}

#[test]
fn the_last_value_is_imported() {
    let listing = parse_git_listing(
        &b"user.name\nA\0remote.o.fetch\n1\0user.name\nB\0remote.o.fetch\n2\0a.b\nx".to_vec(),
    );
    let plan = plan_import(&listing.items);
    assert_eq!(plan.multi.len(), 2);
    assert_eq!(plan.single.len(), 2);
    let name = plan.single.iter().find(|l| l.key == "user.name").unwrap();
    assert_eq!((name.value.as_str(), name.count), ("B", 2));
    assert_eq!(
        collapse_warning_text(name).as_deref(),
        Some("key 'user.name' has 2 values in Git config, only last value kept (not in known multi-value list)")
    );
    let other = plan.single.iter().find(|l| l.key == "a.b").unwrap();
    assert_eq!(collapse_warning_text(other), None);
    assert_eq!(decide_multi(&vec![entry("k", "1")], "1", false), ImportDecision::Skip);
    assert_eq!(
        decide_multi(&vec![entry("k", "1")], "2", true),
        ImportDecision::Store { encrypt: true }
    );
    assert_eq!(decide_single(&Some(entry("k", "1")), "1", false), ImportDecision::Skip);
    assert_eq!(decide_single(&None, "1", false), ImportDecision::Store { encrypt: false });
    let decisions = vec![
        ImportDecision::Skip,
        ImportDecision::Store { encrypt: true },
        ImportDecision::Store { encrypt: false },
    ];
    let summary = summarize_import(ConfigScope::Local, 1, &plan.single, &decisions);
    assert_eq!(
        summary,
        ConfigImportSummary {
            scope: ConfigScope::Local,
            imported: 2,
            skipped_duplicates: 1,
            ignored_invalid: 1,
            auto_encrypted: 1,
            collapsed_multivalue_warnings: 1,
        }
    );
    assert_eq!(
        print_import_summary(&summary),
        "Imported 2 entries from Git local config \u{2192} libra local config\n  skipped: 1 duplicates, 1 invalid keys\n  encrypted: 1 sensitive key auto-encrypted\n  warnings: 1 multi-value keys collapsed\n"
    );
    let nothing = ConfigImportSummary {
        imported: 0,
        skipped_duplicates: 0,
        ignored_invalid: 0,
        auto_encrypted: 0,
        collapsed_multivalue_warnings: 0,
        ..summary
    };
    assert_eq!(print_import_summary(&nothing), "No new entries to import from Git local config.\n");
    assert_eq!(ignored_warning_text(0), None);
    assert_eq!(
        ignored_warning_text(2).as_deref(),
        Some("ignored 2 unsupported Git config entries")
    );
}

#[test]
fn a_secret_is_sealed_before_it_is_stored() {
    let req = SetRequest { stdin: true, ..request("a.token", None) };
    let known = KeyFacts { sensitive: true, ..facts() };
    let step = |run, event| handle_set(&req, &known, None, ConfigScope::Local, run, event);
    let run = start_set(&req, &known).unwrap();
    assert_eq!(run.stage, SetStage::Reading);
    let run = step(run, SetEvent::Existing { outcome: Ok(Vec::new()), interactive: false }).unwrap();
    assert_eq!(run.stage, SetStage::Asking { prompt: false });
    let run = step(run, SetEvent::Stored { outcome: Ok(()) }).unwrap();
    assert_eq!(run.stage, SetStage::Asking { prompt: false });
    let run = step(run, SetEvent::Answered { outcome: Ok("hush\n".to_string()) }).unwrap();
    assert_eq!((run.stage, run.value.as_str()), (SetStage::Typing, "hush"));
    let run = step(run, SetEvent::Read { reading: reading() }).unwrap();
    assert_eq!((run.stage, run.encrypt), (SetStage::Sealing, true));
    let run = step(run, SetEvent::Sealed { outcome: Ok(vec![0xc0, 0xff, 0xee]) }).unwrap();
    assert_eq!((run.stage, run.value.as_str()), (SetStage::Storing, "c0ffee"));
    assert_eq!(run.action, SetAction::SetOne);
    let run = step(run, SetEvent::Stored { outcome: Ok(()) }).unwrap();
    assert_eq!(run.stage, SetStage::Done);
}

#[test]
fn each_step_of_a_set_can_fail() {
    let req = SetRequest { encrypt: true, ..request("a.b", Some("v")) };
    let step = |run, event| handle_set(&req, &facts(), None, ConfigScope::Global, run, event);
    let begun = || start_set(&req, &facts()).unwrap();
    let error = step(
        begun(),
        SetEvent::Existing { outcome: Err("locked".to_string()), interactive: true },
    )
    .unwrap_err();
    assert_eq!(
        error.message(),
        "failed to read global config while checking existing values for key 'a.b': locked"
    );
    let sealing = || {
        let run =
            step(begun(), SetEvent::Existing { outcome: Ok(Vec::new()), interactive: true }).unwrap();
        step(run, SetEvent::Read { reading: reading() }).unwrap()
    };
    let no_vault = SealFault::NoVault { error: "sealed".to_string() };
    assert_eq!(
        step(sealing(), SetEvent::Sealed { outcome: Err(no_vault) }).unwrap_err().message(),
        "error: failed to initialize vault for global scope: sealed"
    );
    let failed = SealFault::Encryption { error: "short".to_string() };
    assert_eq!(
        step(sealing(), SetEvent::Sealed { outcome: Err(failed) }).unwrap_err().message(),
        "error: encryption failed: short"
    );
    let several = || WriteFault::Write { error: "2 values exist".to_string() };
    let storing = step(sealing(), SetEvent::Sealed { outcome: Ok(vec![1]) }).unwrap();
    let error = step(storing, SetEvent::Stored { outcome: Err(several()) }).unwrap_err();
    assert_eq!((error.message(), error.exit_code()), ("2 values exist", 5));
    let matching = SetAction::ReplaceMatching { enforce_single: true };
    let error = map_store_fault(matching, &several());
    assert_eq!((error.message(), error.exit_code()), ("error: 2 values exist", 5));
    let begin = WriteFault::Begin { error: "SQLITE_BUSY".to_string() };
    assert_eq!(
        map_store_fault(matching, &begin).message(),
        "failed to begin config transaction: database is locked: SQLITE_BUSY"
    );
    let commit = WriteFault::Commit { error: "disk is full".to_string() };
    assert_eq!(
        map_store_fault(matching, &commit).message(),
        "failed to commit config transaction: insufficient disk space: disk is full"
    );
    let connect = WriteFault::Connect { error: "no database".to_string() };
    assert_eq!(map_store_fault(SetAction::Append, &connect).message(), "no database");
    assert_eq!(map_removal_fault(&UnsetAction::One, &several()).exit_code(), 5);
    assert_eq!(map_removal_fault(&UnsetAction::All, &connect).message(), "no database");
}

#[test]
fn listings_are_of_one_kind() {
    let ssh = ListRows::SshKeys {
        rows: Ok(vec![entry("vault.ssh.origin.pubkey", "ssh-rsa AAAA")]),
    };
    let listed = handle_list(&ssh, flags(), false, true).unwrap();
    assert!(render_listing(&listed, flags(), &paths()).starts_with("SSH keys:\n  origin "));
    let gpg = ListRows::GpgKeys {
        rows: Ok(vec![entry("vault.gpg.pubkey", "x")]),
        signing: Err("locked".to_string()),
    };
    assert_eq!(handle_list(&gpg, flags(), false, true).unwrap_err().message(), "locked");
    let vault = ListRows::Vault { reads: vec![local(Err("locked".to_string()))] };
    let listed = handle_list(&vault, flags(), false, true).unwrap();
    assert_eq!(
        render_listing(&listed, flags(), &paths()),
        "No vault environment variables configured.\n"
    );
    let values = ListRows::Values { reads: vec![local(Ok(vec![entry("a.b", "1")]))] };
    let listed = handle_list(&values, flags(), false, false).unwrap();
    assert_eq!(render_listing(&listed, flags(), &paths()), "a.b=1\n");
    let null = OutputFlags { null: true, ..flags() };
    assert!(handle_list(&values, null, true, false).is_err());
}
