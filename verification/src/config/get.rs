//! Reading values: over the scopes, by key or by pattern, and what is shown of them.

use vstd::prelude::*;

use crate::config::{
    legacy_exit, scope_name, scope_text, ConfigScope, ConfigType, OutputFlags, ValueFilterSpec,
};
use crate::config::values::{
    canonical_value, compile_key_regex, compiled_filter, config_read_cli_error, filter_accepts,
    filter_text, format_config_record, format_get_value_record, law_records, name_only_json_error,
    no_match_error, no_value_match_error, null_json_error, pattern_fault, pattern_found, read_error,
    record_text, refused_pattern, reject_name_only_with_json, reject_null_with_json,
    render_get_value, rendered, typed_output, typed_text, value_filter_input, value_record,
    ConfigKvEntry, KeyPattern, OriginPaths, ValueFilter, ValueReading,
};
use crate::error::{CliError, ErrorView, StableErrorCode};
use crate::text::{concat2, concat3, concat4, contains_text, opt_text, texts};

verus! {

/// A stored value with the scope that holds it.
#[derive(Debug, Clone)]
pub struct ScopedEntry {
    pub entry: ConfigKvEntry,
    pub scope: ConfigScope,
}

/// What reading one scope gave.
#[derive(Debug)]
pub struct ScopeRead {
    pub scope: ConfigScope,
    pub outcome: Result<Vec<ConfigKvEntry>, String>,
}

/// Whether a scope has a database that can be read: the user's may not exist.
pub open spec fn is_readable(scope: ConfigScope, global_exists: bool) -> bool {
    scope == ConfigScope::Local || global_exists
}

/// The scopes that a read goes through, in the order in which it prefers them.
pub open spec fn read_scopes(scope: ConfigScope, use_cascade: bool, global_exists: bool) -> Seq<ConfigScope> {
    if use_cascade {
        if global_exists {
            seq![ConfigScope::Local, ConfigScope::Global]
        } else {
            seq![ConfigScope::Local]
        }
    } else if is_readable(scope, global_exists) {
        seq![scope]
    } else {
        Seq::empty()
    }
}

/// List the scopes to read: all of them, or the given one, without those that have no database.
pub fn scopes_to_read(scope: ConfigScope, use_cascade: bool, global_exists: bool) -> (r: Vec<ConfigScope>)
    ensures
        r@ == read_scopes(scope, use_cascade, global_exists),
{
    let mut out: Vec<ConfigScope> = Vec::new();
    if use_cascade {
        out.push(ConfigScope::Local);
        if global_exists {
            out.push(ConfigScope::Global);
        }
    } else {
        let local = match scope {
            ConfigScope::Local => true,
            ConfigScope::Global => false,
        };
        if local || global_exists {
            out.push(scope);
        }
    }
    assert(out@ =~= read_scopes(scope, use_cascade, global_exists));
    out
}

/// The values that one read gave, with their scope.
pub open spec fn scoped(read: ScopeRead) -> Seq<ScopedEntry> {
    match read.outcome {
        Ok(v) => v@.map_values(|e: ConfigKvEntry| ScopedEntry { entry: e, scope: read.scope }),
        Err(_) => Seq::empty(),
    }
}

/// The values of all reads that succeeded, in order.
pub open spec fn entries_read(reads: Seq<ScopeRead>) -> Seq<ScopedEntry>
    decreases reads.len(),
{
    if reads.len() == 0 {
        Seq::empty()
    } else {
        entries_read(reads.drop_last()) + scoped(reads.last())
    }
}

/// The first read that failed.
pub open spec fn first_failed(reads: Seq<ScopeRead>) -> Option<(ConfigScope, Seq<char>)>
    decreases reads.len(),
{
    if reads.len() == 0 {
        None
    } else {
        match first_failed(reads.drop_last()) {
            Some(f) => Some(f),
            None => match reads.last().outcome {
                Ok(_) => None,
                Err(e) => Some((reads.last().scope, e@)),
            },
        }
    }
}

proof fn lemma_first_failed_prefix(reads: Seq<ScopeRead>, n: int)
    requires
        0 <= n <= reads.len(),
        first_failed(reads.take(n)) is Some,
    ensures
        first_failed(reads) == first_failed(reads.take(n)),
    decreases reads.len(),
{
    if n < reads.len() {
        assert(reads.drop_last().take(n) =~= reads.take(n));
        lemma_first_failed_prefix(reads.drop_last(), n);
    } else {
        assert(reads.take(n) =~= reads);
    }
}

/// Gather the values of the reads that succeeded.
pub fn collect_entries(reads: &Vec<ScopeRead>) -> (r: Vec<ScopedEntry>)
    ensures
        r@ == entries_read(reads@),
{
    let mut out: Vec<ScopedEntry> = Vec::new();
    let mut i: usize = 0;
    while i < reads.len()
        invariant
            i <= reads@.len(),
            out@ == entries_read(reads@.take(i as int)),
        decreases reads.len() - i,
    {
        let ghost before = out@;
        if let Ok(v) = &reads[i].outcome {
            let mut j: usize = 0;
            while j < v.len()
                invariant
                    i < reads@.len(),
                    j <= v@.len(),
                    reads@[i as int].outcome matches Ok(w) && w == *v,
                    before.len() + j == out@.len(),
                    out@ == before + scoped(reads@[i as int]).take(j as int),
                decreases v.len() - j,
            {
                out.push(ScopedEntry { entry: v[j].copy(), scope: reads[i].scope });
                assert(out@ =~= before + scoped(reads@[i as int]).take(j + 1));
                j = j + 1;
            }
            assert(scoped(reads@[i as int]).take(j as int) =~= scoped(reads@[i as int]));
        } else {
            assert(before + scoped(reads@[i as int]) =~= before);
        }
        assert(reads@.take(i + 1).drop_last() =~= reads@.take(i as int));
        i = i + 1;
    }
    assert(reads@.take(i as int) =~= reads@);
    out
}

/// What is said of a scope that cannot be read.
pub open spec fn failed_read_text(scope: ConfigScope, error: Seq<char>) -> Seq<char> {
    "failed to read "@ + scope_text(scope) + " config: "@ + error
}

fn find_failed(reads: &Vec<ScopeRead>) -> (r: Option<usize>)
    ensures
        match r {
            Some(i) => i < reads@.len() && (reads@[i as int].outcome matches Err(e) && first_failed(
                reads@,
            ) == Some((reads@[i as int].scope, e@))),
            None => first_failed(reads@) is None,
        },
{
    let mut i: usize = 0;
    while i < reads.len()
        invariant
            i <= reads@.len(),
            first_failed(reads@.take(i as int)) is None,
        decreases reads.len() - i,
    {
        assert(reads@.take(i + 1).drop_last() =~= reads@.take(i as int));
        assert(reads@.take(i + 1).last() == reads@[i as int]);
        if let Err(_) = &reads[i].outcome {
            proof {
                lemma_first_failed_prefix(reads@, i + 1);
            }
            return Some(i);
        }
        i = i + 1;
    }
    assert(reads@.take(i as int) =~= reads@);
    None
}

/// All values of a key over the scopes, in the order in which the scopes are preferred. A scope that
/// cannot be read fails the whole read.
pub fn get_all_cascaded(reads: &Vec<ScopeRead>) -> (r: Result<Vec<ScopedEntry>, String>)
    ensures
        match (r, first_failed(reads@)) {
            (Ok(v), None) => v@ == entries_read(reads@),
            (Err(e), Some((scope, error))) => e@ == failed_read_text(scope, error),
            _ => false,
        },
{
    match find_failed(reads) {
        Some(i) => match &reads[i].outcome {
            Err(e) => Err(
                concat4("failed to read ", scope_name(reads[i].scope), " config: ", e.as_str()),
            ),
            Ok(_) => Ok(Vec::new()),
        },
        None => Ok(collect_entries(reads)),
    }
}

/// The error of a read of which one scope failed: over several scopes it names the scope.
pub open spec fn failed_read_error(use_cascade: bool, scope: ConfigScope, error: Seq<char>) -> ErrorView {
    if use_cascade {
        read_error(failed_read_text(scope, error))
    } else {
        ErrorView::legacy(error)
    }
}

/// The values to choose from, or the error of the first scope that could not be read.
pub open spec fn values_read(reads: Seq<ScopeRead>, use_cascade: bool) -> Result<Seq<ScopedEntry>, ErrorView> {
    match first_failed(reads) {
        Some((scope, error)) => Err(failed_read_error(use_cascade, scope, error)),
        None => Ok(entries_read(reads)),
    }
}

/// The values that the reads gave.
pub fn read_values(reads: &Vec<ScopeRead>, use_cascade: bool) -> (r: Result<Vec<ScopedEntry>, CliError>)
    ensures
        match (r, values_read(reads@, use_cascade)) {
            (Ok(v), Ok(want)) => v@ == want,
            (Err(e), Err(want)) => e@ == want,
            _ => false,
        },
{
    match find_failed(reads) {
        Some(i) => match &reads[i].outcome {
            Err(e) => Err(
                if use_cascade {
                    config_read_cli_error(
                        concat4(
                            "failed to read ",
                            scope_name(reads[i].scope),
                            " config: ",
                            e.as_str(),
                        ),
                    )
                } else {
                    CliError::from_legacy_string(e.clone())
                },
            ),
            Ok(_) => Ok(Vec::new()),
        },
        None => Ok(collect_entries(reads)),
    }
}

/// What looking up one key in one scope gave.
#[derive(Debug)]
pub struct ScopeGet {
    pub scope: ConfigScope,
    pub outcome: Result<Option<ConfigKvEntry>, String>,
}

/// The first lookup that found the key, or that failed.
pub open spec fn first_found(gets: Seq<ScopeGet>) -> Result<Option<ScopedEntry>, Seq<char>>
    decreases gets.len(),
{
    if gets.len() == 0 {
        Ok(None)
    } else {
        match gets[0].outcome {
            Ok(Some(entry)) => Ok(Some(ScopedEntry { entry, scope: gets[0].scope })),
            Ok(None) => first_found(gets.drop_first()),
            Err(e) => Err(failed_read_text(gets[0].scope, e@)),
        }
    }
}

/// The value of a key: that of the first scope that has one. Later scopes are not looked at.
pub fn get_cascaded(gets: &Vec<ScopeGet>) -> (r: Result<Option<ScopedEntry>, String>)
    ensures
        match (r, first_found(gets@)) {
            (Ok(got), Ok(want)) => got == want,
            (Err(e), Err(want)) => e@ == want,
            _ => false,
        },
{
    let mut i: usize = 0;
    assert(gets@.skip(0) =~= gets@);
    while i < gets.len()
        invariant
            i <= gets@.len(),
            first_found(gets@) == first_found(gets@.skip(i as int)),
        decreases gets.len() - i,
    {
        assert(gets@.skip(i as int)[0] == gets@[i as int]);
        match &gets[i].outcome {
            Ok(Some(entry)) => {
                return Ok(Some(ScopedEntry { entry: entry.copy(), scope: gets[i].scope }));
            },
            Ok(None) => {},
            Err(e) => {
                return Err(
                    concat4("failed to read ", scope_name(gets[i].scope), " config: ", e.as_str()),
                );
            },
        }
        assert(gets@.skip(i as int).drop_first() =~= gets@.skip(i + 1));
        i = i + 1;
    }
    Ok(None)
}

/// A value that the repository has is the one that is read, whatever the user's configuration holds
/// and whether or not it can be read.
pub proof fn law_local_value_wins(gets: Seq<ScopeGet>, entry: ConfigKvEntry)
    requires
        gets.len() > 0,
        gets[0].scope == ConfigScope::Local,
        gets[0].outcome == Ok::<Option<ConfigKvEntry>, String>(Some(entry)),
    ensures
        first_found(gets) == Ok::<Option<ScopedEntry>, Seq<char>>(
            Some(ScopedEntry { entry, scope: ConfigScope::Local }),
        ),
{
}

/// The values whose keys match a pattern, in order.
pub open spec fn with_key(entries: Seq<ScopedEntry>, pattern: KeyPattern) -> Seq<ScopedEntry>
    decreases entries.len(),
{
    if entries.len() == 0 {
        Seq::empty()
    } else {
        let head = with_key(entries.drop_last(), pattern);
        if pattern_found(pattern.pattern@, pattern.ignore_case, entries.last().entry.key@) {
            head.push(entries.last())
        } else {
            head
        }
    }
}

/// Keep the values whose keys match a pattern.
pub fn select_keys(entries: &Vec<ScopedEntry>, pattern: &KeyPattern) -> (r: Vec<ScopedEntry>)
    ensures
        r@ == with_key(entries@, *pattern),
{
    let mut out: Vec<ScopedEntry> = Vec::new();
    let mut i: usize = 0;
    while i < entries.len()
        invariant
            i <= entries@.len(),
            out@ == with_key(entries@.take(i as int), *pattern),
        decreases entries.len() - i,
    {
        assert(entries@.take(i + 1).drop_last() =~= entries@.take(i as int));
        assert(entries@.take(i + 1).last() == entries@[i as int]);
        if pattern.is_match(entries[i].entry.key.as_str()) {
            out.push(ScopedEntry { entry: entries[i].entry.copy(), scope: entries[i].scope });
        }
        i = i + 1;
    }
    assert(entries@.take(i as int) =~= entries@);
    out
}

// What is shown

/// A value with what is needed to show it.
#[derive(Debug)]
pub struct FoundEntry {
    pub entry: ConfigKvEntry,
    pub scope: ConfigScope,
    /// What decrypting the value gave, where it has to be decrypted
    pub opened: Result<String, String>,
    /// How the text that is shown reads
    pub reading: ValueReading,
}

/// A value as it is shown.
#[derive(Debug, Clone)]
pub struct ShownEntry {
    pub key: String,
    pub scope: ConfigScope,
    pub value: String,
    pub encrypted: bool,
}

pub struct ShownView {
    pub key: Seq<char>,
    pub scope: ConfigScope,
    pub value: Seq<char>,
    pub encrypted: bool,
}

impl View for ShownEntry {
    type V = ShownView;

    open spec fn view(&self) -> ShownView {
        ShownView {
            key: self.key@,
            scope: self.scope,
            value: self.value@,
            encrypted: self.encrypted,
        }
    }
}

pub open spec fn shown_views(v: Seq<ShownEntry>) -> Seq<ShownView> {
    v.map_values(|e: ShownEntry| e@)
}

/// How values are to be shown.
#[derive(Debug)]
pub struct ShowOptions {
    pub reveal: bool,
    pub filter: Option<ValueFilter>,
    pub config_type: Option<ConfigType>,
    /// The home directory in the environment
    pub home: Option<String>,
}

/// One value as it is shown, if the filter accepts it.
pub open spec fn shown_one(found: FoundEntry, opts: ShowOptions) -> Result<Option<ShownView>, ErrorView> {
    match rendered(found.entry, opts.reveal, found.scope, found.opened) {
        Err(e) => Err(e),
        Ok(raw) => {
            let accepted = match opts.filter {
                Some(filter) => filter_accepts(filter, filter_text(found.entry, opts.reveal, raw)),
                None => true,
            };
            if !accepted {
                Ok(None)
            } else {
                match typed_text(
                    found.entry,
                    opts.reveal,
                    raw,
                    opts.config_type,
                    found.reading,
                    opts.home,
                ) {
                    Err(e) => Err(e),
                    Ok(value) => Ok(
                        Some(
                            ShownView {
                                key: found.entry.key@,
                                scope: found.scope,
                                value,
                                encrypted: found.entry.encrypted,
                            },
                        ),
                    ),
                }
            }
        },
    }
}

/// The values that the filter accepts as they are shown, in order, or the first error.
pub open spec fn shown_all(found: Seq<FoundEntry>, opts: ShowOptions) -> Result<Seq<ShownView>, ErrorView>
    decreases found.len(),
{
    if found.len() == 0 {
        Ok(Seq::empty())
    } else {
        match shown_all(found.drop_last(), opts) {
            Err(e) => Err(e),
            Ok(head) => match shown_one(found.last(), opts) {
                Err(e) => Err(e),
                Ok(None) => Ok(head),
                Ok(Some(v)) => Ok(head.push(v)),
            },
        }
    }
}

proof fn lemma_shown_error_prefix(found: Seq<FoundEntry>, opts: ShowOptions, n: int)
    requires
        0 <= n <= found.len(),
        shown_all(found.take(n), opts) is Err,
    ensures
        shown_all(found, opts) == shown_all(found.take(n), opts),
    decreases found.len(),
{
    if n < found.len() {
        assert(found.drop_last().take(n) =~= found.take(n));
        lemma_shown_error_prefix(found.drop_last(), opts, n);
    } else {
        assert(found.take(n) =~= found);
    }
}

fn show_one(found: &FoundEntry, opts: &ShowOptions) -> (r: Result<Option<ShownEntry>, CliError>)
    ensures
        match (r, shown_one(*found, *opts)) {
            (Ok(Some(got)), Ok(Some(want))) => got@ == want,
            (Ok(None), Ok(None)) => true,
            (Err(e), Err(want)) => e@ == want,
            _ => false,
        },
{
    let raw = match render_get_value(&found.entry, opts.reveal, found.scope, &found.opened) {
        Ok(raw) => raw,
        Err(e) => {
            return Err(e);
        },
    };
    if let Some(filter) = &opts.filter {
        if !filter.matches(value_filter_input(&found.entry, opts.reveal, raw.as_str())) {
            return Ok(None);
        }
    }
    match typed_output(
        &found.entry,
        opts.reveal,
        raw.as_str(),
        opts.config_type,
        &found.reading,
        &opts.home,
    ) {
        Ok(value) => Ok(
            Some(
                ShownEntry {
                    key: found.entry.key.clone(),
                    scope: found.scope,
                    value,
                    encrypted: found.entry.encrypted,
                },
            ),
        ),
        Err(e) => Err(e),
    }
}

/// Show the values that the filter accepts.
fn show_all(found: &Vec<FoundEntry>, opts: &ShowOptions) -> (r: Result<Vec<ShownEntry>, CliError>)
    ensures
        is_shown_list(r, shown_all(found@, *opts)),
{
    let mut out: Vec<ShownEntry> = Vec::new();
    let mut i: usize = 0;
    assert(shown_views(out@) =~= Seq::<ShownView>::empty());
    while i < found.len()
        invariant
            i <= found@.len(),
            shown_all(found@.take(i as int), *opts) matches Ok(s) && s == shown_views(out@),
        decreases found.len() - i,
    {
        assert(found@.take(i + 1).drop_last() =~= found@.take(i as int));
        assert(found@.take(i + 1).last() == found@[i as int]);
        match show_one(&found[i], opts) {
            Err(e) => {
                proof {
                    lemma_shown_error_prefix(found@, *opts, i + 1);
                }
                return Err(e);
            },
            Ok(None) => {},
            Ok(Some(v)) => {
                let ghost before = out@;
                out.push(v);
                assert(shown_views(out@) =~= shown_views(before).push(v@));
            },
        }
        i = i + 1;
    }
    assert(found@.take(i as int) =~= found@);
    Ok(out)
}

pub open spec fn is_shown_list(
    r: Result<Vec<ShownEntry>, CliError>,
    want: Result<Seq<ShownView>, ErrorView>,
) -> bool {
    match (r, want) {
        (Ok(v), Ok(want)) => shown_views(v@) == want,
        (Err(e), Err(want)) => e@ == want,
        _ => false,
    }
}

/// The values of a read by pattern: a filter that accepts none of them is an error.
pub open spec fn filtered_values(found: Seq<FoundEntry>, opts: ShowOptions) -> Result<
    Seq<ShownView>,
    ErrorView,
> {
    match shown_all(found, opts) {
        Ok(v) => if opts.filter is Some && v.len() == 0 {
            Err(no_match_error())
        } else {
            Ok(v)
        },
        Err(e) => Err(e),
    }
}

/// The values whose keys matched a pattern, as they are shown.
pub fn get_regexp(found: &Vec<FoundEntry>, opts: &ShowOptions) -> (r: Result<Vec<ShownEntry>, CliError>)
    ensures
        is_shown_list(r, filtered_values(found@, *opts)),
{
    match show_all(found, opts) {
        Ok(v) => if opts.filter.is_some() && v.len() == 0 {
            Err(no_value_match_error())
        } else {
            Ok(v)
        },
        Err(e) => Err(e),
    }
}

/// All values of a key, or the default in their place.
#[derive(Debug)]
pub enum AllValues {
    Default { value: String },
    Values { entries: Vec<ShownEntry> },
}

/// Whether these are all values of a key: the default where there are none, else those that the
/// filter accepts.
pub open spec fn is_all_values(
    r: Result<AllValues, CliError>,
    found: Seq<FoundEntry>,
    default: Option<String>,
    opts: ShowOptions,
) -> bool {
    match default {
        Some(d) if found.len() == 0 => r matches Ok(AllValues::Default { value }) && value@ == d@,
        _ => match (r, filtered_values(found, opts)) {
            (Ok(AllValues::Values { entries }), Ok(want)) => shown_views(entries@) == want,
            (Err(e), Err(want)) => e@ == want,
            _ => false,
        },
    }
}

/// All values of one key.
pub fn get_all(found: &Vec<FoundEntry>, default: &Option<String>, opts: &ShowOptions) -> (r: Result<
    AllValues,
    CliError,
>)
    ensures
        is_all_values(r, found@, *default, *opts),
{
    if found.len() == 0 {
        if let Some(d) = default {
            return Ok(AllValues::Default { value: d.clone() });
        }
    }
    match get_regexp(found, opts) {
        Ok(entries) => Ok(AllValues::Values { entries }),
        Err(e) => Err(e),
    }
}

/// One value that was read: that of a scope, or the default.
#[derive(Debug)]
pub struct GotValue {
    pub value: String,
    /// The scope that holds it; none holds the default
    pub scope: Option<ConfigScope>,
}

/// The value of a key under a filter: the last one that the filter accepts. The default stands in
/// only where the key has no value at all.
pub open spec fn last_accepted(
    found: Seq<FoundEntry>,
    default: Option<String>,
    opts: ShowOptions,
) -> Result<(Seq<char>, Option<ConfigScope>), ErrorView> {
    match shown_all(found, opts) {
        Err(e) => Err(e),
        Ok(v) => if v.len() > 0 {
            Ok((v.last().value, Some(v.last().scope)))
        } else {
            match default {
                Some(d) if found.len() == 0 => Ok((d@, None)),
                _ => Err(no_match_error()),
            }
        },
    }
}

pub open spec fn is_got_value(
    r: Result<GotValue, CliError>,
    want: Result<(Seq<char>, Option<ConfigScope>), ErrorView>,
) -> bool {
    match (r, want) {
        (Ok(got), Ok((value, scope))) => got.value@ == value && got.scope == scope,
        (Err(e), Err(want)) => e@ == want,
        _ => false,
    }
}

/// The one value of a key under a filter.
pub fn get_filtered(found: &Vec<FoundEntry>, default: &Option<String>, opts: &ShowOptions) -> (r: Result<
    GotValue,
    CliError,
>)
    ensures
        is_got_value(r, last_accepted(found@, *default, *opts)),
{
    let shown = match show_all(found, opts) {
        Ok(v) => v,
        Err(e) => {
            return Err(e);
        },
    };
    if shown.len() > 0 {
        let last = &shown[shown.len() - 1];
        assert(shown_views(shown@).last() == last@);
        return Ok(GotValue { value: last.value.clone(), scope: Some(last.scope) });
    }
    if found.len() == 0 {
        if let Some(d) = default {
            return Ok(GotValue { value: d.clone(), scope: None });
        }
    }
    Err(no_value_match_error())
}

/// A key that is known, and how far its spelling is from the one that was asked for.
#[derive(Debug, Clone)]
pub struct KnownKey {
    pub key: String,
    pub distance: usize,
}

/// Whether the key at `i` is the one to suggest: near enough, nearer than all before it, and as near
/// as all after it.
pub open spec fn is_closest(known: Seq<KnownKey>, i: int) -> bool {
    &&& 0 <= i < known.len()
    &&& known[i].distance <= 3
    &&& forall|j: int| 0 <= j < i ==> known[i].distance < (#[trigger] known[j]).distance
    &&& forall|j: int| 0 <= j < known.len() ==> known[i].distance <= (#[trigger] known[j]).distance
}

/// The key to suggest, if one is near enough.
pub open spec fn suggestion(known: Seq<KnownKey>) -> Option<Seq<char>> {
    if exists|i: int| is_closest(known, i) {
        Some(known[choose|i: int| is_closest(known, i)].key@)
    } else {
        None
    }
}

fn closest_key(known: &Vec<KnownKey>) -> (r: Option<String>)
    ensures
        opt_text(r) == suggestion(known@),
{
    let mut best: Option<usize> = None;
    let mut i: usize = 0;
    while i < known.len()
        invariant
            i <= known@.len(),
            match best {
                Some(b) => b < i && is_closest(known@.take(i as int), b as int),
                None => forall|j: int| 0 <= j < i ==> (#[trigger] known@[j]).distance > 3,
            },
        decreases known.len() - i,
    {
        let ghost head = known@.take(i as int);
        let ghost more = known@.take(i + 1);
        assert(forall|j: int| 0 <= j < i ==> more[j] == head[j] && #[trigger] head[j] == known@[j]);
        let nearer = match best {
            Some(b) => known[i].distance < known[b].distance,
            None => true,
        };
        if nearer && known[i].distance <= 3 {
            assert forall|j: int| 0 <= j < i implies known@[i as int].distance < (#[trigger] more[j]).distance by {
                assert(more[j] == head[j]);
            }
            assert(is_closest(more, i as int));
            best = Some(i);
        } else {
            if let Some(b) = best {
                assert(more[b as int] == head[b as int]);
                assert forall|j: int| 0 <= j < more.len() implies more[b as int].distance <= (
                #[trigger] more[j]).distance by {
                    if j < i {
                        assert(more[j] == head[j]);
                    }
                }
                assert forall|j: int| 0 <= j < b implies more[b as int].distance < (#[trigger] more[j]).distance by {
                    assert(more[j] == head[j]);
                }
                assert(is_closest(more, b as int));
            }
        }
        i = i + 1;
    }
    assert(known@.take(i as int) =~= known@);
    match best {
        Some(b) => {
            assert(is_closest(known@, b as int));
            let ghost w = choose|i: int| is_closest(known@, i);
            assert(known@[w].distance == known@[b as int].distance);
            assert(w == b as int);
            Some(known[b].key.clone())
        },
        None => {
            assert forall|i: int| !is_closest(known@, i) by {
                if 0 <= i < known@.len() {
                    assert(known@[i].distance > 3);
                }
            }
            None
        },
    }
}

/// The error for a key that has no value, with a key of like spelling where there is one.
pub open spec fn unknown_key_error(key: Seq<char>, known: Seq<KnownKey>) -> ErrorView {
    let text = "key '"@ + key + "' not found in any scope"@;
    let hinted = match suggestion(known) {
        Some(near) => text + "\n\nhint: did you mean '"@ + near + "'?"@,
        None => text,
    };
    ErrorView::failure(
        hinted + "\nhint: use libra config list to see all configured keys"@,
    ).coded(StableErrorCode::CliInvalidArguments).exits(1)
}

/// The value of a key: the one that was found, else the default, else an error.
pub open spec fn single_value(
    key: Seq<char>,
    found: Option<FoundEntry>,
    default: Option<String>,
    known: Seq<KnownKey>,
    opts: ShowOptions,
) -> Result<(Seq<char>, Option<ConfigScope>), ErrorView> {
    match found {
        Some(f) => match rendered(f.entry, opts.reveal, f.scope, f.opened) {
            Err(e) => Err(e),
            Ok(raw) => match typed_text(
                f.entry,
                opts.reveal,
                raw,
                opts.config_type,
                f.reading,
                opts.home,
            ) {
                Err(e) => Err(e),
                Ok(value) => Ok((value, Some(f.scope))),
            },
        },
        None => match default {
            Some(d) => Ok((d@, None)),
            None => Err(unknown_key_error(key, known)),
        },
    }
}

pub open spec fn plain(found: Option<&FoundEntry>) -> Option<FoundEntry> {
    match found {
        Some(f) => Some(*f),
        None => None,
    }
}

/// The one value of a key. `known` holds the keys that are stored, to suggest one of them.
pub fn get_single(
    key: &str,
    found: Option<&FoundEntry>,
    default: &Option<String>,
    known: &Vec<KnownKey>,
    opts: &ShowOptions,
) -> (r: Result<GotValue, CliError>)
    ensures
        is_got_value(r, single_value(key@, plain(found), *default, known@, *opts)),
{
    if let Some(f) = found {
        let raw = match render_get_value(&f.entry, opts.reveal, f.scope, &f.opened) {
            Ok(raw) => raw,
            Err(e) => {
                return Err(e);
            },
        };
        return match typed_output(
            &f.entry,
            opts.reveal,
            raw.as_str(),
            opts.config_type,
            &f.reading,
            &opts.home,
        ) {
            Ok(value) => Ok(GotValue { value, scope: Some(f.scope) }),
            Err(e) => Err(e),
        };
    }
    if let Some(d) = default {
        return Ok(GotValue { value: d.clone(), scope: None });
    }
    let text = concat3("key '", key, "' not found in any scope");
    let hinted = match closest_key(known) {
        Some(near) => concat4(text.as_str(), "\n\nhint: did you mean '", near.as_str(), "'?"),
        None => text,
    };
    let message = concat2(
        hinted.as_str(),
        "\nhint: use libra config list to see all configured keys",
    );
    Err(
        CliError::failure(message).with_stable_code(
            StableErrorCode::CliInvalidArguments,
        ).with_exit_code(1),
    )
}

/// A default never stands in for a value that is stored.
pub proof fn law_default_needs_an_absent_key(
    key: Seq<char>,
    found: FoundEntry,
    all: Seq<FoundEntry>,
    default: Option<String>,
    known: Seq<KnownKey>,
    opts: ShowOptions,
)
    requires
        all.len() > 0,
    ensures
        single_value(key, Some(found), default, known, opts) == single_value(
            key,
            Some(found),
            None,
            known,
            opts,
        ),
        last_accepted(all, default, opts) == last_accepted(all, None, opts),
{
}

/// The keys of some values, each once.
pub open spec fn distinct_keys(entries: Seq<ScopedEntry>) -> Seq<Seq<char>>
    decreases entries.len(),
{
    if entries.len() == 0 {
        Seq::empty()
    } else {
        let head = distinct_keys(entries.drop_last());
        if head.contains(entries.last().entry.key@) {
            head
        } else {
            head.push(entries.last().entry.key@)
        }
    }
}

/// The keys that are stored, each once, in the order in which they are met.
pub fn known_keys(entries: &Vec<ScopedEntry>) -> (r: Vec<String>)
    ensures
        texts(r@) == distinct_keys(entries@),
{
    let mut out: Vec<String> = Vec::new();
    let mut i: usize = 0;
    assert(texts(out@) =~= Seq::<Seq<char>>::empty());
    while i < entries.len()
        invariant
            i <= entries@.len(),
            texts(out@) == distinct_keys(entries@.take(i as int)),
        decreases entries.len() - i,
    {
        assert(entries@.take(i + 1).drop_last() =~= entries@.take(i as int));
        assert(entries@.take(i + 1).last() == entries@[i as int]);
        if !contains_text(&out, entries[i].entry.key.as_str()) {
            let ghost before = out@;
            out.push(entries[i].entry.key.clone());
            assert(texts(out@) =~= texts(before).push(entries@[i as int].entry.key@));
        }
        i = i + 1;
    }
    assert(entries@.take(i as int) =~= entries@);
    out
}

// Checks before anything is read

/// What a read was asked for, once it has been checked.
#[derive(Debug)]
pub struct GetChecks {
    pub filter: Option<ValueFilter>,
    /// The pattern for keys, where keys are given by one
    pub pattern: Option<KeyPattern>,
}

/// What the check of patterns that comes before anything is compiled says against them, if
/// anything.
#[derive(Debug)]
pub struct PatternRefusals {
    /// Against the pattern for keys
    pub key: Option<String>,
    /// Against the pattern for values
    pub value: Option<String>,
}

/// What is wrong with a read, if anything, before anything is read.
pub open spec fn get_fault(
    key: Seq<char>,
    all: bool,
    reveal: bool,
    regexp: bool,
    flags: OutputFlags,
    filter: ValueFilterSpec,
    json: bool,
    key_is_internal: bool,
    refusals: PatternRefusals,
) -> Option<ErrorView> {
    if flags.null && json {
        Some(null_json_error())
    } else if flags.name_only && json {
        Some(name_only_json_error())
    } else {
        match compiled_filter(filter, refusals.value) {
            Err(e) => Some(e),
            Ok(_) => if flags.name_only && !regexp {
                Some(
                    ErrorView::usage(
                        "--name-only is only supported for list and --get-regexp; it cannot be combined with a single-key get"@,
                    ),
                )
            } else if reveal && !regexp && !all && key_is_internal {
                Some(
                    ErrorView::legacy(
                        "error: key '"@ + key
                            + "' is a vault internal credential and cannot be revealed"@,
                    ),
                )
            } else if regexp {
                match refused_pattern(refusals.key, key, filter.ignore_case) {
                    Some(text) => Some(legacy_exit("error: "@ + text, 6)),
                    None => None,
                }
            } else {
                None
            },
        }
    }
}

/// Check a read before anything is read. `key_is_internal` tells whether the key names a credential
/// of the vault.
pub fn check_get(
    key: &str,
    all: bool,
    reveal: bool,
    regexp: bool,
    flags: OutputFlags,
    filter: &ValueFilterSpec,
    json: bool,
    key_is_internal: bool,
    refusals: &PatternRefusals,
) -> (r: Result<GetChecks, CliError>)
    ensures
        match (
            r,
            get_fault(key@, all, reveal, regexp, flags, *filter, json, key_is_internal, *refusals),
        ) {
            (Ok(checks), None) => {
                &&& compiled_filter(*filter, refusals.value) == Ok::<
                    Option<ValueFilter>,
                    ErrorView,
                >(checks.filter)
                &&& match checks.pattern {
                    Some(p) => regexp && p.pattern@ == key@ && p.ignore_case == filter.ignore_case,
                    None => !regexp,
                }
            },
            (Err(e), Some(want)) => e@ == want,
            _ => false,
        },
{
    if let Err(e) = reject_null_with_json(flags, json) {
        return Err(e);
    }
    if let Err(e) = reject_name_only_with_json(flags, json) {
        return Err(e);
    }
    let value_filter = match filter.compile(&refusals.value) {
        Ok(f) => f,
        Err(e) => {
            return Err(e);
        },
    };
    if flags.name_only && !regexp {
        return Err(
            CliError::command_usage(
                "--name-only is only supported for list and --get-regexp; it cannot be combined with a single-key get".to_owned(),
            ),
        );
    }
    if reveal && !regexp && !all && key_is_internal {
        return Err(
            CliError::from_legacy_string(
                concat3(
                    "error: key '",
                    key,
                    "' is a vault internal credential and cannot be revealed",
                ),
            ),
        );
    }
    if regexp {
        return match compile_key_regex(key, filter.ignore_case, &refusals.key) {
            Ok(pattern) => Ok(GetChecks { filter: value_filter, pattern: Some(pattern) }),
            Err(e) => Err(e),
        };
    }
    Ok(GetChecks { filter: value_filter, pattern: None })
}

// The whole read

/// What a read looks up.
#[derive(Debug, Clone, Copy, PartialEq, Eq, Structural)]
pub enum GetQuery {
    /// The values whose keys match a pattern
    ByPattern,
    /// All values of a key
    AllValues,
    /// The last value of a key that a filter accepts
    LastAccepted,
    /// The value of a key
    Single,
}

pub open spec fn query_of(all: bool, regexp: bool, filtered: bool) -> GetQuery {
    if regexp {
        GetQuery::ByPattern
    } else if all {
        GetQuery::AllValues
    } else if filtered {
        GetQuery::LastAccepted
    } else {
        GetQuery::Single
    }
}

/// Decide what a read looks up.
pub fn get_query(all: bool, regexp: bool, filter: &Option<ValueFilter>) -> (r: GetQuery)
    ensures
        r == query_of(all, regexp, *filter is Some),
{
    if regexp {
        GetQuery::ByPattern
    } else if all {
        GetQuery::AllValues
    } else if filter.is_some() {
        GetQuery::LastAccepted
    } else {
        GetQuery::Single
    }
}

/// The scopes that a read goes through. A key that is looked up in one scope is looked up there even
/// where its database has yet to be made.
pub open spec fn query_scopes(
    query: GetQuery,
    scope: ConfigScope,
    use_cascade: bool,
    global_exists: bool,
) -> Seq<ConfigScope> {
    if use_cascade || query == GetQuery::ByPattern {
        read_scopes(scope, use_cascade, global_exists)
    } else {
        seq![scope]
    }
}

/// List the scopes that a read goes through.
pub fn scopes_to_query(query: GetQuery, scope: ConfigScope, use_cascade: bool, global_exists: bool) -> (r:
    Vec<ConfigScope>)
    ensures
        r@ == query_scopes(query, scope, use_cascade, global_exists),
{
    let by_pattern = match query {
        GetQuery::ByPattern => true,
        _ => false,
    };
    if use_cascade || by_pattern {
        scopes_to_read(scope, use_cascade, global_exists)
    } else {
        let mut out: Vec<ConfigScope> = Vec::new();
        out.push(scope);
        assert(out@ =~= seq![scope]);
        out
    }
}

/// What a read gives.
#[derive(Debug)]
pub enum GetReport {
    ByPattern { entries: Vec<ShownEntry> },
    All { values: AllValues },
    One { got: GotValue },
}

/// Whether this is what a read gives of the values that were found.
pub open spec fn is_report(
    r: Result<GetReport, CliError>,
    query: GetQuery,
    key: Seq<char>,
    found: Seq<FoundEntry>,
    default: Option<String>,
    known: Seq<KnownKey>,
    opts: ShowOptions,
) -> bool {
    match query {
        GetQuery::ByPattern => match (r, filtered_values(found, opts)) {
            (Ok(GetReport::ByPattern { entries }), Ok(want)) => shown_views(entries@) == want,
            (Err(e), Err(want)) => e@ == want,
            _ => false,
        },
        GetQuery::AllValues => match r {
            Ok(GetReport::All { values }) => is_all_values(Ok(values), found, default, opts),
            Err(e) => is_all_values(Err(e), found, default, opts),
            _ => false,
        },
        GetQuery::LastAccepted => match r {
            Ok(GetReport::One { got }) => is_got_value(Ok(got), last_accepted(found, default, opts)),
            Err(e) => is_got_value(Err(e), last_accepted(found, default, opts)),
            _ => false,
        },
        GetQuery::Single => {
            let first = if found.len() > 0 {
                Some(found[0])
            } else {
                None
            };
            match r {
                Ok(GetReport::One { got }) => is_got_value(
                    Ok(got),
                    single_value(key, first, default, known, opts),
                ),
                Err(e) => is_got_value(Err(e), single_value(key, first, default, known, opts)),
                _ => false,
            }
        },
    }
}

/// Give what a read asks for of the values that were found: of those whose keys matched, of all
/// values of the key, or of the one that the scopes hold.
pub fn handle_get(
    query: GetQuery,
    key: &str,
    found: &Vec<FoundEntry>,
    default: &Option<String>,
    known: &Vec<KnownKey>,
    opts: &ShowOptions,
) -> (r: Result<GetReport, CliError>)
    ensures
        is_report(r, query, key@, found@, *default, known@, *opts),
{
    match query {
        GetQuery::ByPattern => match get_regexp(found, opts) {
            Ok(entries) => Ok(GetReport::ByPattern { entries }),
            Err(e) => Err(e),
        },
        GetQuery::AllValues => match get_all(found, default, opts) {
            Ok(values) => Ok(GetReport::All { values }),
            Err(e) => Err(e),
        },
        GetQuery::LastAccepted => match get_filtered(found, default, opts) {
            Ok(got) => Ok(GetReport::One { got }),
            Err(e) => Err(e),
        },
        GetQuery::Single => {
            let first = if found.len() > 0 {
                Some(&found[0])
            } else {
                None
            };
            match get_single(key, first, default, known, opts) {
                Ok(got) => Ok(GetReport::One { got }),
                Err(e) => Err(e),
            }
        },
    }
}

// Records

/// The records of the values that a pattern found.
pub open spec fn regexp_records(entries: Seq<ShownView>, flags: OutputFlags, paths: OriginPaths) -> Seq<char>
    decreases entries.len(),
{
    if entries.len() == 0 {
        Seq::empty()
    } else {
        let e = entries.last();
        regexp_records(entries.drop_last(), flags, paths) + record_text(
            e.scope,
            e.key,
            if flags.name_only {
                None
            } else {
                Some(e.value)
            },
            " "@,
            flags,
            paths,
        )
    }
}

/// Write out the values that a pattern found.
pub fn render_get_regexp(entries: &Vec<ShownEntry>, flags: OutputFlags, paths: &OriginPaths) -> (r: String)
    ensures
        r@ == regexp_records(shown_views(entries@), flags, *paths),
{
    let mut out = String::new();
    let mut i: usize = 0;
    let ghost all = shown_views(entries@);
    assert(out@ =~= Seq::<char>::empty());
    while i < entries.len()
        invariant
            i <= entries@.len(),
            all == shown_views(entries@),
            out@ == regexp_records(all.take(i as int), flags, *paths),
        decreases entries.len() - i,
    {
        assert(all.take(i + 1).drop_last() =~= all.take(i as int));
        assert(all.take(i + 1).last() == entries@[i as int]@);
        let value = if flags.name_only {
            None
        } else {
            Some(entries[i].value.as_str())
        };
        let record = format_config_record(
            entries[i].scope,
            entries[i].key.as_str(),
            value,
            " ",
            flags,
            paths,
        );
        out = concat2(out.as_str(), record.as_str());
        i = i + 1;
    }
    assert(all.take(i as int) =~= all);
    out
}

/// The records of some values.
pub open spec fn value_records(entries: Seq<ShownView>, flags: OutputFlags, paths: OriginPaths) -> Seq<char>
    decreases entries.len(),
{
    if entries.len() == 0 {
        Seq::empty()
    } else {
        value_records(entries.drop_last(), flags, paths) + value_record(
            entries.last().scope,
            entries.last().value,
            flags,
            paths,
        )
    }
}

/// The flags for a value that no scope holds.
pub open spec fn bare(flags: OutputFlags) -> OutputFlags {
    OutputFlags { show_scope: false, show_origin: false, ..flags }
}

fn bare_flags(flags: OutputFlags) -> (r: OutputFlags)
    ensures
        r == bare(flags),
{
    OutputFlags {
        null: flags.null,
        show_scope: false,
        show_origin: false,
        name_only: flags.name_only,
    }
}

/// Write out all values of a key. A default has no origin.
pub fn render_get_all(all: &AllValues, scope: ConfigScope, flags: OutputFlags, paths: &OriginPaths) -> (r:
    String)
    ensures
        r@ == match *all {
            AllValues::Default { value } => value_record(scope, value@, bare(flags), *paths),
            AllValues::Values { entries } => value_records(shown_views(entries@), flags, *paths),
        },
{
    match all {
        AllValues::Default { value } => format_get_value_record(
            scope,
            value.as_str(),
            bare_flags(flags),
            paths,
        ),
        AllValues::Values { entries } => {
            let mut out = String::new();
            let mut i: usize = 0;
            let ghost views = shown_views(entries@);
            assert(out@ =~= Seq::<char>::empty());
            while i < entries.len()
                invariant
                    i <= entries@.len(),
                    views == shown_views(entries@),
                    out@ == value_records(views.take(i as int), flags, *paths),
                decreases entries.len() - i,
            {
                assert(views.take(i + 1).drop_last() =~= views.take(i as int));
                assert(views.take(i + 1).last() == entries@[i as int]@);
                let record = format_get_value_record(
                    entries[i].scope,
                    entries[i].value.as_str(),
                    flags,
                    paths,
                );
                out = concat2(out.as_str(), record.as_str());
                i = i + 1;
            }
            assert(views.take(i as int) =~= views);
            out
        },
    }
}

/// Write out one value. A default has no origin.
pub fn render_get(got: &GotValue, scope: ConfigScope, flags: OutputFlags, paths: &OriginPaths) -> (r: String)
    ensures
        r@ == match got.scope {
            Some(s) => value_record(s, got.value@, flags, *paths),
            None => value_record(scope, got.value@, bare(flags), *paths),
        },
{
    match got.scope {
        Some(s) => format_get_value_record(s, got.value.as_str(), flags, paths),
        None => format_get_value_record(scope, got.value.as_str(), bare_flags(flags), paths),
    }
}

/// The records of what a read gives.
pub open spec fn report_text(
    report: GetReport,
    scope: ConfigScope,
    flags: OutputFlags,
    paths: OriginPaths,
) -> Seq<char> {
    match report {
        GetReport::ByPattern { entries } => regexp_records(shown_views(entries@), flags, paths),
        GetReport::All { values } => match values {
            AllValues::Default { value } => value_record(scope, value@, bare(flags), paths),
            AllValues::Values { entries } => value_records(shown_views(entries@), flags, paths),
        },
        GetReport::One { got } => match got.scope {
            Some(s) => value_record(s, got.value@, flags, paths),
            None => value_record(scope, got.value@, bare(flags), paths),
        },
    }
}

/// Write out what a read gives.
pub fn render_report(report: &GetReport, scope: ConfigScope, flags: OutputFlags, paths: &OriginPaths) -> (r:
    String)
    ensures
        r@ == report_text(*report, scope, flags, *paths),
{
    match report {
        GetReport::ByPattern { entries } => render_get_regexp(entries, flags, paths),
        GetReport::All { values } => render_get_all(values, scope, flags, paths),
        GetReport::One { got } => render_get(got, scope, flags, paths),
    }
}

/// Values are read from the scopes in turn, all of them and in their order: what is read of two lists of
/// scopes is what is read of the one and then of the other, and of one scope what it holds.
pub proof fn law_reads_keep_every_value(a: Seq<ScopeRead>, b: Seq<ScopeRead>, one: ScopeRead)
    ensures
        entries_read(a + b) == entries_read(a) + entries_read(b),
        one.outcome matches Ok(values) ==> {
            &&& entries_read(seq![one]).len() == values@.len()
            &&& forall|k: int|
                0 <= k < values@.len() ==> (#[trigger] entries_read(seq![one])[k]).entry == values@[k]
                    && entries_read(seq![one])[k].scope == one.scope
        },
        one.outcome is Err ==> entries_read(seq![one]).len() == 0,
    decreases b.len(),
{
    assert(seq![one].drop_last() =~= Seq::<ScopeRead>::empty());
    assert(seq![one].last() == one);
    assert(entries_read(seq![one].drop_last()) =~= Seq::<ScopedEntry>::empty());
    assert(entries_read(seq![one]) =~= scoped(one));
    if b.len() == 0 {
        assert(a + b =~= a);
        assert(entries_read(a) + entries_read(b) =~= entries_read(a));
    } else {
        assert((a + b).drop_last() =~= a + b.drop_last());
        assert((a + b).last() == b.last());
        law_reads_keep_every_value(a, b.drop_last(), one);
        assert(entries_read(a + b) =~= entries_read(a) + entries_read(b));
    }
}

/// A read fails exactly where a scope cannot be read, and tells of the first such scope.
pub proof fn law_first_failure_is_told(reads: Seq<ScopeRead>, use_cascade: bool)
    ensures
        values_read(reads, use_cascade) is Ok <==> forall|k: int|
            0 <= k < reads.len() ==> (#[trigger] reads[k]).outcome is Ok,
        values_read(reads, use_cascade) matches Ok(v) ==> v == entries_read(reads),
        first_failed(reads) matches Some((scope, error)) ==> exists|k: int|
            0 <= k < reads.len() && (#[trigger] reads[k]).scope == scope && (reads[k].outcome
                matches Err(e) && e@ == error) && forall|j: int|
                0 <= j < k ==> (#[trigger] reads[j]).outcome is Ok,
    decreases reads.len(),
{
    if reads.len() > 0 {
        let head = reads.drop_last();
        law_first_failure_is_told(head, use_cascade);
        assert forall|k: int| 0 <= k < head.len() implies #[trigger] head[k] == reads[k] by {}
        assert(reads[reads.len() - 1] == reads.last());
        if let Some((scope, error)) = first_failed(head) {
            let k = choose|k: int|
                0 <= k < head.len() && (#[trigger] head[k]).scope == scope && (head[k].outcome
                    matches Err(e) && e@ == error) && forall|j: int|
                    0 <= j < k ==> (#[trigger] head[j]).outcome is Ok;
            assert(reads[k] == head[k]);
            assert forall|j: int| 0 <= j < k implies (#[trigger] reads[j]).outcome is Ok by {
                assert(head[j].outcome is Ok);
            }
        } else {
            assert forall|j: int| 0 <= j < reads.len() - 1 implies (#[trigger] reads[j]).outcome is Ok by {
                assert(head[j].outcome is Ok);
            }
        }
    }
}

/// A key has the value of the first scope that has one, and none where no scope has.
pub proof fn law_first_scope_with_a_value_wins(gets: Seq<ScopeGet>)
    ensures
        first_found(gets) matches Ok(Some(found)) ==> exists|k: int|
            0 <= k < gets.len() && (#[trigger] gets[k]).outcome == Ok::<Option<ConfigKvEntry>, String>(
                Some(found.entry),
            ) && gets[k].scope == found.scope && forall|j: int|
                0 <= j < k ==> (#[trigger] gets[j]).outcome == Ok::<Option<ConfigKvEntry>, String>(None),
        first_found(gets) == Ok::<Option<ScopedEntry>, Seq<char>>(None) <==> forall|k: int|
            0 <= k < gets.len() ==> (#[trigger] gets[k]).outcome == Ok::<Option<ConfigKvEntry>, String>(
                None,
            ),
    decreases gets.len(),
{
    if gets.len() > 0 {
        let tail = gets.drop_first();
        if gets[0].outcome == Ok::<Option<ConfigKvEntry>, String>(None) {
            law_first_scope_with_a_value_wins(tail);
            if let Ok(Some(found)) = first_found(tail) {
                let k = choose|k: int|
                    0 <= k < tail.len() && (#[trigger] tail[k]).outcome == Ok::<
                        Option<ConfigKvEntry>,
                        String,
                    >(Some(found.entry)) && tail[k].scope == found.scope && forall|j: int|
                        0 <= j < k ==> (#[trigger] tail[j]).outcome == Ok::<Option<ConfigKvEntry>, String>(
                            None,
                        );
                assert(gets[k + 1] == tail[k]);
                assert forall|j: int| 0 <= j < k + 1 implies (#[trigger] gets[j]).outcome == Ok::<
                    Option<ConfigKvEntry>,
                    String,
                >(None) by {
                    if j > 0 {
                        assert(tail[j - 1] == gets[j]);
                    }
                }
            }
            if forall|k: int|
                0 <= k < tail.len() ==> (#[trigger] tail[k]).outcome == Ok::<
                    Option<ConfigKvEntry>,
                    String,
                >(None) {
                assert forall|k: int| 0 <= k < gets.len() implies (#[trigger] gets[k]).outcome == Ok::<
                    Option<ConfigKvEntry>,
                    String,
                >(None) by {
                    if k > 0 {
                        assert(tail[k - 1] == gets[k]);
                    }
                }
            } else {
                let k = choose|k: int|
                    0 <= k < tail.len() && (#[trigger] tail[k]).outcome != Ok::<
                        Option<ConfigKvEntry>,
                        String,
                    >(None);
                assert(gets[k + 1] == tail[k]);
            }
        }
    }
}

/// Without a scope a read looks into the repository's configuration first and into the user's next,
/// where there is one; with a scope it looks into that one and no other.
pub proof fn law_scopes_of_a_read(
    query: GetQuery,
    scope: ConfigScope,
    use_cascade: bool,
    global_exists: bool,
)
    ensures
        ({
            let scopes = query_scopes(query, scope, use_cascade, global_exists);
            &&& use_cascade ==> scopes.len() > 0 && scopes[0] == ConfigScope::Local && (scopes.len() == 2
                <==> global_exists) && (global_exists ==> scopes[1] == ConfigScope::Global)
                && scopes.len() <= 2
            &&& !use_cascade ==> scopes.len() <= 1 && (scopes.len() == 1 ==> scopes[0] == scope)
            &&& !use_cascade && (scope == ConfigScope::Local || global_exists || query
                != GetQuery::ByPattern) ==> scopes.len() == 1
        }),
{
}

/// A pattern for keys takes the entries whose key it is found in, in their order.
pub proof fn law_pattern_takes_keys(entries: Seq<ScopedEntry>, pattern: KeyPattern)
    ensures
        with_key(entries, pattern) == entries.filter(
            |e: ScopedEntry| pattern_found(pattern.pattern@, pattern.ignore_case, e.entry.key@),
        ),
    decreases entries.len(),
{
    reveal(Seq::filter);
    if entries.len() > 0 {
        law_pattern_takes_keys(entries.drop_last(), pattern);
    }
}

/// A value is left out exactly where a filter was given that does not take it; one that is shown keeps
/// its key, its scope and whether it is encrypted, and a plain one without a type its value.
pub proof fn law_filter_decides_what_is_shown(found: FoundEntry, opts: ShowOptions)
    ensures
        opts.filter is None ==> shown_one(found, opts) != Ok::<Option<ShownView>, ErrorView>(None),
        shown_one(found, opts) matches Ok(Some(v)) ==> {
            &&& v.key == found.entry.key@ && v.scope == found.scope && v.encrypted
                == found.entry.encrypted
            &&& !found.entry.encrypted && opts.config_type is None ==> v.value == found.entry.value@
            &&& found.entry.encrypted && (!opts.reveal || found.entry.vault_internal) ==> v.value
                == "<REDACTED>"@
            &&& found.entry.encrypted && opts.reveal && !found.entry.vault_internal
                && opts.config_type is None ==> (found.opened matches Ok(t) && v.value == t@)
            &&& opts.filter matches Some(f) ==> filter_accepts(
                f,
                if found.entry.encrypted && opts.reveal && !found.entry.vault_internal {
                    found.opened->Ok_0@
                } else {
                    found.entry.value@
                },
            )
        },
        !found.entry.encrypted ==> (opts.filter matches Some(f) ==> (shown_one(found, opts) == Ok::<
            Option<ShownView>,
            ErrorView,
        >(None) <==> !filter_accepts(f, found.entry.value@))),
{
}

/// Values are shown one by one and in their order: what is shown of two lists is what is shown of the
/// one and then of the other.
pub proof fn law_values_are_shown_in_order(a: Seq<FoundEntry>, b: Seq<FoundEntry>, opts: ShowOptions)
    ensures
        match (shown_all(a, opts), shown_all(b, opts)) {
            (Ok(x), Ok(y)) => shown_all(a + b, opts) == Ok::<Seq<ShownView>, ErrorView>(x + y),
            (Err(e), _) => shown_all(a + b, opts) == Err::<Seq<ShownView>, ErrorView>(e),
            (Ok(_), Err(e)) => shown_all(a + b, opts) == Err::<Seq<ShownView>, ErrorView>(e),
        },
        a.len() == 1 ==> match shown_one(a[0], opts) {
            Ok(Some(v)) => shown_all(a, opts) == Ok::<Seq<ShownView>, ErrorView>(seq![v]),
            Ok(None) => shown_all(a, opts) == Ok::<Seq<ShownView>, ErrorView>(Seq::empty()),
            Err(e) => shown_all(a, opts) == Err::<Seq<ShownView>, ErrorView>(e),
        },
    decreases b.len(),
{
    if a.len() == 1 {
        assert(a.drop_last() =~= Seq::<FoundEntry>::empty());
        assert(shown_all(a.drop_last(), opts) == Ok::<Seq<ShownView>, ErrorView>(Seq::empty()));
        if let Ok(Some(v)) = shown_one(a[0], opts) {
            assert(Seq::<ShownView>::empty().push(v) =~= seq![v]);
        }
    }
    if b.len() == 0 {
        assert(a + b =~= a);
        if let Ok(x) = shown_all(a, opts) {
            assert(x + Seq::<ShownView>::empty() =~= x);
        }
    } else {
        assert((a + b).drop_last() =~= a + b.drop_last());
        assert((a + b).last() == b.last());
        law_values_are_shown_in_order(a, b.drop_last(), opts);
        if let (Ok(x), Ok(y)) = (shown_all(a, opts), shown_all(b.drop_last(), opts)) {
            if let Ok(Some(v)) = shown_one(b.last(), opts) {
                assert((x + y).push(v) =~= x + y.push(v));
            }
        }
    }
}

/// The value of a key is the one that was found, from the scope in which it was found; the default
/// stands in only where none was, and without one a key that is not there is an error.
pub proof fn law_value_of_a_key(
    key: Seq<char>,
    found: FoundEntry,
    default: Option<String>,
    known: Seq<KnownKey>,
    opts: ShowOptions,
)
    ensures
        single_value(key, Some(found), default, known, opts) matches Ok((value, scope)) ==> scope
            == Some(found.scope),
        !found.entry.encrypted && opts.config_type is None ==> single_value(
            key,
            Some(found),
            default,
            known,
            opts,
        ) == Ok::<(Seq<char>, Option<ConfigScope>), ErrorView>((found.entry.value@, Some(found.scope))),
        !found.entry.encrypted ==> (opts.config_type matches Some(ty) ==> match (
            single_value(key, Some(found), default, known, opts),
            canonical_value(ty, found.entry.value@, found.reading, opts.home),
        ) {
            (Ok((value, _)), Ok(text)) => value == text,
            (Err(e), Err(want)) => e == want,
            _ => false,
        }),
        default matches Some(d) ==> single_value(key, None, default, known, opts) == Ok::<
            (Seq<char>, Option<ConfigScope>),
            ErrorView,
        >((d@, None)),
        single_value(key, None, None, known, opts) is Err,
{
}

/// With a filter the last value that it takes is given; the default stands in only for a key that has
/// no value at all.
pub proof fn law_last_value_that_is_taken(
    found: Seq<FoundEntry>,
    last: FoundEntry,
    default: Option<String>,
    opts: ShowOptions,
)
    ensures
        match (shown_all(found, opts), shown_one(last, opts)) {
            (Ok(_), Ok(Some(v))) => last_accepted(found.push(last), default, opts) == Ok::<
                (Seq<char>, Option<ConfigScope>),
                ErrorView,
            >((v.value, Some(v.scope))),
            (Ok(x), Ok(None)) => x.len() > 0 ==> last_accepted(found.push(last), default, opts)
                == last_accepted(found, default, opts),
            _ => last_accepted(found.push(last), default, opts) is Err,
        },
        default matches Some(d) ==> last_accepted(Seq::empty(), default, opts) == Ok::<
            (Seq<char>, Option<ConfigScope>),
            ErrorView,
        >((d@, None)),
        last_accepted(Seq::empty(), None, opts) is Err,
{
    assert(found.push(last).drop_last() =~= found);
    assert(found.push(last).last() == last);
}

/// The key that is suggested is near the one that was asked for, and none that is known is nearer.
pub proof fn law_suggestion_is_near(known: Seq<KnownKey>)
    ensures
        suggestion(known) matches Some(key) ==> exists|i: int|
            0 <= i < known.len() && (#[trigger] known[i]).key@ == key && known[i].distance <= 3
                && forall|j: int| 0 <= j < known.len() ==> known[i].distance <= (#[trigger] known[j]).distance,
{
    if suggestion(known) is Some {
        let i = choose|i: int| is_closest(known, i);
        assert(known[i].key@ == suggestion(known)->0);
    }
}

/// What kind of read is made: a pattern is looked for where one was given; else all values are where
/// they were asked for; else the last that a filter takes, or the value of the key.
pub proof fn law_kind_of_read(all: bool, regexp: bool, filtered: bool)
    ensures
        query_of(all, regexp, filtered) == GetQuery::ByPattern <==> regexp,
        query_of(all, regexp, filtered) == GetQuery::AllValues <==> !regexp && all,
        query_of(all, regexp, filtered) == GetQuery::LastAccepted <==> !regexp && !all && filtered,
        query_of(all, regexp, filtered) == GetQuery::Single <==> !regexp && !all && !filtered,
{
}

/// A read of a single key that reveals secrets is refused for a credential of the vault, and no other
/// key is refused for that.
pub proof fn law_vault_credentials_are_not_revealed(
    key: Seq<char>,
    all: bool,
    reveal: bool,
    regexp: bool,
    flags: OutputFlags,
    filter: ValueFilterSpec,
    refusals: PatternRefusals,
)
    requires
        compiled_filter(filter, refusals.value) is Ok,
        !flags.name_only,
    ensures
        reveal && !regexp && !all ==> get_fault(
            key,
            all,
            reveal,
            regexp,
            flags,
            filter,
            false,
            true,
            refusals,
        ) is Some,
        !regexp ==> get_fault(key, all, reveal, regexp, flags, filter, false, false, refusals) is None,
{
}

/// What is reported of a single read is the value of the key in the first place where it was found, and
/// of the others all values, in order.
pub proof fn law_report_gives_the_values(
    r: Result<GetReport, CliError>,
    key: Seq<char>,
    found: Seq<FoundEntry>,
    default: Option<String>,
    known: Seq<KnownKey>,
    opts: ShowOptions,
)
    ensures
        is_report(r, GetQuery::Single, key, found, default, known, opts) && found.len() > 0
            && !found[0].entry.encrypted && opts.config_type is None ==> (r matches Ok(
            GetReport::One { got },
        ) && got.value@ == found[0].entry.value@ && got.scope == Some(found[0].scope)),
        is_report(r, GetQuery::AllValues, key, found, default, known, opts) && found.len() > 0
            && opts.filter is None && shown_all(found, opts) is Ok ==> (r matches Ok(
            GetReport::All { values: AllValues::Values { entries } },
        ) && shown_views(entries@) == shown_all(found, opts)->Ok_0),
        is_report(r, GetQuery::ByPattern, key, found, default, known, opts) && opts.filter is None
            && shown_all(found, opts) is Ok ==> (r matches Ok(GetReport::ByPattern { entries })
            && shown_views(entries@) == shown_all(found, opts)->Ok_0),
        is_report(r, GetQuery::Single, key, Seq::empty(), None, known, opts) ==> r is Err,
        default matches Some(d) ==> (is_report(r, GetQuery::Single, key, Seq::empty(), default, known, opts)
            ==> (r matches Ok(GetReport::One { got }) && got.value@ == d@)),
{
}

/// What is written of a read: a record for each value, one after the other.
pub proof fn law_records_follow_each_other(
    a: Seq<ShownView>,
    b: Seq<ShownView>,
    flags: OutputFlags,
    paths: OriginPaths,
)
    ensures
        value_records(a + b, flags, paths) == value_records(a, flags, paths) + value_records(
            b,
            flags,
            paths,
        ),
        regexp_records(a + b, flags, paths) == regexp_records(a, flags, paths) + regexp_records(
            b,
            flags,
            paths,
        ),
        a.len() == 1 ==> value_records(a, flags, paths) == value_record(
            a[0].scope,
            a[0].value,
            flags,
            paths,
        ),
        a.len() == 1 ==> regexp_records(a, flags, paths) == record_text(
            a[0].scope,
            a[0].key,
            if flags.name_only {
                None
            } else {
                Some(a[0].value)
            },
            " "@,
            flags,
            paths,
        ),
    decreases b.len(),
{
    if a.len() == 1 {
        assert(a.drop_last() =~= Seq::<ShownView>::empty());
        assert(value_records(a.drop_last(), flags, paths) =~= Seq::<char>::empty());
        assert(regexp_records(a.drop_last(), flags, paths) =~= Seq::<char>::empty());
        assert(value_records(a, flags, paths) =~= value_record(a[0].scope, a[0].value, flags, paths));
        assert(regexp_records(a, flags, paths) =~= record_text(
            a[0].scope,
            a[0].key,
            if flags.name_only {
                None
            } else {
                Some(a[0].value)
            },
            " "@,
            flags,
            paths,
        ));
    }
    if b.len() == 0 {
        assert(a + b =~= a);
        assert(value_records(a + b, flags, paths) =~= value_records(a, flags, paths) + value_records(
            b,
            flags,
            paths,
        ));
        assert(regexp_records(a + b, flags, paths) =~= regexp_records(a, flags, paths)
            + regexp_records(b, flags, paths));
    } else {
        assert((a + b).drop_last() =~= a + b.drop_last());
        assert((a + b).last() == b.last());
        law_records_follow_each_other(a, b.drop_last(), flags, paths);
        assert(value_records(a + b, flags, paths) =~= value_records(a, flags, paths) + value_records(
            b,
            flags,
            paths,
        ));
        assert(regexp_records(a + b, flags, paths) =~= regexp_records(a, flags, paths)
            + regexp_records(b, flags, paths));
    }
}

/// What is written of one value is that value and the end of a record; the scope of a value that was
/// found is its own.
pub proof fn law_report_is_written(
    got: GotValue,
    scope: ConfigScope,
    flags: OutputFlags,
    paths: OriginPaths,
)
    ensures
        !flags.show_scope && !flags.show_origin && !flags.null ==> report_text(
            GetReport::One { got },
            scope,
            flags,
            paths,
        ) == got.value@ + "\n"@,
        got.scope matches Some(s) ==> report_text(GetReport::One { got }, scope, flags, paths)
            == value_record(s, got.value@, flags, paths),
        got.scope is None && !flags.null ==> report_text(GetReport::One { got }, scope, flags, paths)
            == got.value@ + "\n"@,
{
    law_records(scope, Seq::empty(), got.value@, Seq::empty(), flags, paths);
    law_records(scope, Seq::empty(), got.value@, Seq::empty(), bare(flags), paths);
    if let Some(s) = got.scope {
        law_records(s, Seq::empty(), got.value@, Seq::empty(), flags, paths);
    }
}

/// The scopes that are read: with the cascade the repository's and then the global one where it is there;
/// without it the one that was asked for, where it is there.
pub proof fn law_scopes_that_are_read(scope: ConfigScope, global_exists: bool)
    ensures
        read_scopes(scope, true, true) == seq![ConfigScope::Local, ConfigScope::Global],
        read_scopes(scope, true, false) == seq![ConfigScope::Local],
        read_scopes(ConfigScope::Local, false, global_exists) == seq![ConfigScope::Local],
        read_scopes(ConfigScope::Global, false, true) == seq![ConfigScope::Global],
        read_scopes(ConfigScope::Global, false, false) == Seq::<ConfigScope>::empty(),
{
}

/// A read that failed says which scope it was of where several were read, and why.
pub proof fn law_failed_read_is_told(scope: ConfigScope, why: Seq<char>)
    ensures
        failed_read_error(true, scope, why).message == "failed to read "@ + scope_text(scope) + " config: "@
            + why,
        failed_read_error(true, scope, why).code == Some(StableErrorCode::IoReadFailed),
        failed_read_error(true, scope, why).exit == Some(128i32),
        failed_read_error(false, scope, why).message == why,
        failed_read_error(false, scope, why).exit is None,
{
}

/// The keys of some entries are each named once.
pub proof fn law_each_key_once(entries: Seq<ScopedEntry>)
    ensures
        distinct_keys(entries).no_duplicates(),
        forall|key: Seq<char>| #[trigger]
            distinct_keys(entries).contains(key) <==> exists|i: int|
                0 <= i < entries.len() && (#[trigger] entries[i]).entry.key@ == key,
    decreases entries.len(),
{
    if entries.len() > 0 {
        let rest = entries.drop_last();
        let head = distinct_keys(rest);
        let last = entries.last().entry.key@;
        law_each_key_once(rest);
        assert forall|key: Seq<char>| #[trigger] distinct_keys(entries).contains(key) <==> exists|i: int|
            0 <= i < entries.len() && (#[trigger] entries[i]).entry.key@ == key by {
            if distinct_keys(entries).contains(key) {
                let j = choose|j: int|
                    0 <= j < distinct_keys(entries).len() && distinct_keys(entries)[j] == key;
                if j < head.len() {
                    assert(head[j] == key);
                    assert(head.contains(key));
                    let i = choose|i: int| 0 <= i < rest.len() && (#[trigger] rest[i]).entry.key@ == key;
                    assert(entries[i] == rest[i]);
                } else {
                    assert(entries[entries.len() - 1].entry.key@ == key);
                }
            }
            if exists|i: int| 0 <= i < entries.len() && (#[trigger] entries[i]).entry.key@ == key {
                let i = choose|i: int| 0 <= i < entries.len() && (#[trigger] entries[i]).entry.key@ == key;
                if i < rest.len() {
                    assert(rest[i] == entries[i]);
                    assert(head.contains(key));
                } else {
                    assert(key == last);
                }
                if head.contains(key) {
                    let j = choose|j: int| 0 <= j < head.len() && head[j] == key;
                    assert(distinct_keys(entries)[j] == key);
                } else {
                    assert(distinct_keys(entries)[head.len() as int] == key);
                }
            }
        }
    }
}

/// A key that is nowhere is told by its name, with the nearest one there is.
pub proof fn law_unknown_key_is_told(key: Seq<char>, known: Seq<KnownKey>)
    ensures
        ("key '"@ + key + "' not found in any scope"@).is_prefix_of(unknown_key_error(key, known).message),
        unknown_key_error(key, known).exit == Some(1i32),
        suggestion(known) matches Some(near) ==> unknown_key_error(key, known).message == "key '"@ + key
            + "' not found in any scope"@ + "\n\nhint: did you mean '"@ + near + "'?"@
            + "\nhint: use libra config list to see all configured keys"@,
        suggestion(known) is None ==> unknown_key_error(key, known).message == "key '"@ + key
            + "' not found in any scope"@ + "\nhint: use libra config list to see all configured keys"@,
{
}

/// A read is refused where its form does not go with its flags, where a pattern is none, or where it
/// would reveal a credential of the vault; and for nothing else.
pub proof fn law_which_reads_are_refused(
    key: Seq<char>,
    all: bool,
    reveal: bool,
    regexp: bool,
    flags: OutputFlags,
    filter: ValueFilterSpec,
    json: bool,
    internal: bool,
    refusals: PatternRefusals,
)
    ensures
        get_fault(key, all, reveal, regexp, flags, filter, json, internal, refusals) is None <==> {
            &&& !(json && (flags.null || flags.name_only))
            &&& compiled_filter(filter, refusals.value) is Ok
            &&& flags.name_only ==> regexp
            &&& reveal && internal ==> regexp || all
            &&& regexp ==> refusals.key is None && pattern_fault(key, filter.ignore_case) is None
        },
{
}

} // verus!
