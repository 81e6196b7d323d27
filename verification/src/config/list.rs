//! Listings: of all values, of the vault's variables, and of keys.

use vstd::prelude::*;

use crate::config::{scope_name, scope_text, ConfigScope, OutputFlags};
use crate::config::get::{
    collect_entries, entries_read, read_scopes, read_values, scopes_to_read, values_read,
    ScopedEntry, ScopeRead,
};
use crate::config::values::{
    build_prefixed_list_entry, format_config_record, listed_value, name_only_json_error,
    null_json_error, prefixed_entry, record_text, reject_name_only_with_json, reject_null_with_json,
    render_list_value, ConfigKvEntry, ConfigListEntry, ListEntryView, OriginPaths,
};
use crate::error::{CliError, ErrorView};
use crate::merge::whitespace::{words, words_seq};
use crate::paths::{lemma_text_lt_total, lemma_text_lt_transitive, text_before, text_lt};
use crate::text::{
    chars_of, clone_opt_text, concat2, concat5, concat6, concat7, decimal, ends_with, has_prefix,
    has_suffix, join, join_seq, lower, opt_str, opt_text, repeat, repeat_char, string_of,
    strip_prefix, text_eq, texts, to_lower, usize_text,
};

verus! {

// Stable order

/// `order` with `i` put in after the places whose names do not follow its name.
pub open spec fn insert_place(order: Seq<int>, names: Seq<Seq<char>>, i: int) -> Seq<int>
    decreases order.len(),
{
    if order.len() > 0 && text_lt(names[i], names[order.last()]) {
        insert_place(order.drop_last(), names, i).push(order.last())
    } else {
        order.push(i)
    }
}

/// The first `n` places in the order of their names; places of one name stay as they are.
pub open spec fn stable_order(names: Seq<Seq<char>>, n: nat) -> Seq<int>
    decreases n,
{
    if n == 0 {
        Seq::empty()
    } else {
        insert_place(stable_order(names, (n - 1) as nat), names, n - 1)
    }
}

pub open spec fn places(v: Seq<usize>) -> Seq<int> {
    v.map_values(|i: usize| i as int)
}

proof fn lemma_insert_place(order: Seq<int>, names: Seq<Seq<char>>, i: int, k: int)
    requires
        0 <= k <= order.len(),
        forall|j: int| k <= j < order.len() ==> text_lt(names[i], names[#[trigger] order[j]]),
        k == 0 || !text_lt(names[i], names[order[k - 1]]),
    ensures
        insert_place(order, names, i) == order.insert(k, i),
    decreases order.len(),
{
    if k < order.len() {
        assert(text_lt(names[i], names[order[order.len() - 1]]));
        let head = order.drop_last();
        lemma_insert_place(head, names, i, k);
        assert(head.insert(k, i).push(order.last()) =~= order.insert(k, i));
    } else {
        assert(order.insert(k, i) =~= order.push(i));
    }
}

fn order_by_name(names: &Vec<String>) -> (r: Vec<usize>)
    ensures
        places(r@) == stable_order(texts(names@), names@.len()),
        forall|j: int| 0 <= j < r@.len() ==> (#[trigger] r@[j]) < names@.len(),
{
    let mut out: Vec<usize> = Vec::new();
    let mut i: usize = 0;
    let ghost all = texts(names@);
    assert(places(out@) =~= Seq::<int>::empty());
    while i < names.len()
        invariant
            i <= names@.len(),
            all == texts(names@),
            places(out@) == stable_order(all, i as nat),
            forall|j: int| 0 <= j < out@.len() ==> (#[trigger] out@[j]) < i,
        decreases names.len() - i,
    {
        let ghost before = places(out@);
        let mut k: usize = out.len();
        let mut go: bool = true;
        while k > 0 && go
            invariant
                i < names@.len(),
                k <= out@.len(),
                all == texts(names@),
                before == places(out@),
                forall|j: int| 0 <= j < out@.len() ==> (#[trigger] out@[j]) < i,
                forall|j: int|
                    k <= j < out@.len() ==> text_lt(all[i as int], all[#[trigger] before[j]]),
                !go ==> k > 0 && !text_lt(all[i as int], all[before[k - 1]]),
            decreases k + (if go { 1int } else { 0 }),
        {
            assert(before[k - 1] == out@[k - 1]);
            if text_before(names[i].as_str(), names[out[k - 1]].as_str()) {
                k = k - 1;
            } else {
                go = false;
            }
        }
        proof {
            lemma_insert_place(before, all, i as int, k as int);
        }
        let ghost old_out = out@;
        out.insert(k, i);
        assert(places(out@) =~= before.insert(k as int, i as int));
        assert forall|j: int| 0 <= j < out@.len() implies (#[trigger] out@[j]) < i + 1 by {
            if j < k {
                assert(out@[j] == old_out[j]);
            } else if j > k {
                assert(out@[j] == old_out[j - 1]);
            }
        }
        i = i + 1;
    }
    out
}

/// Whether places are in the order of their names, and in their own where the names are equal.
pub open spec fn in_stable_order(order: Seq<int>, names: Seq<Seq<char>>) -> bool {
    forall|a: int, b: int|
        0 <= a < b < order.len() ==> place_before(
            names,
            #[trigger] order[a],
            #[trigger] order[b],
        )
}

pub open spec fn place_before(names: Seq<Seq<char>>, a: int, b: int) -> bool {
    text_lt(names[a], names[b]) || names[a] == names[b] && a < b
}

proof fn lemma_insert_place_order(order: Seq<int>, names: Seq<Seq<char>>, i: int)
    requires
        in_stable_order(order, names),
        forall|j: int| 0 <= j < order.len() ==> (#[trigger] order[j]) < i,
    ensures
        in_stable_order(insert_place(order, names, i), names),
        insert_place(order, names, i).len() == order.len() + 1,
        forall|x: int| #[trigger] insert_place(order, names, i).contains(x) <==> order.contains(x) || x == i,
    decreases order.len(),
{
    let r = insert_place(order, names, i);
    if order.len() > 0 && text_lt(names[i], names[order.last()]) {
        let head = order.drop_last();
        let inner = insert_place(head, names, i);
        assert forall|a: int, b: int| 0 <= a < b < head.len() implies place_before(
            names,
            #[trigger] head[a],
            #[trigger] head[b],
        ) by {
            assert(head[a] == order[a] && head[b] == order[b]);
        }
        assert forall|j: int| 0 <= j < head.len() implies (#[trigger] head[j]) < i by {
            assert(head[j] == order[j]);
        }
        lemma_insert_place_order(head, names, i);
        assert(r == inner.push(order.last()));
        assert forall|x: int| #[trigger] r.contains(x) <==> order.contains(x) || x == i by {
            assert(inner.contains(x) <==> head.contains(x) || x == i);
            if head.contains(x) {
                let k = choose|k: int| 0 <= k < head.len() && head[k] == x;
                assert(order[k] == x);
            }
            if order.contains(x) {
                let k = choose|k: int| 0 <= k < order.len() && order[k] == x;
                if k < head.len() {
                    assert(head[k] == x);
                } else {
                    assert(r[r.len() - 1] == x);
                }
            }
            if inner.contains(x) {
                let k = choose|k: int| 0 <= k < inner.len() && inner[k] == x;
                assert(r[k] == x);
            }
            if r.contains(x) {
                let k = choose|k: int| 0 <= k < r.len() && r[k] == x;
                if k < inner.len() {
                    assert(inner[k] == x);
                } else {
                    assert(order[order.len() - 1] == x);
                }
            }
        }
        assert forall|a: int, b: int| 0 <= a < b < r.len() implies place_before(
            names,
            #[trigger] r[a],
            #[trigger] r[b],
        ) by {
            if b < inner.len() {
                assert(r[a] == inner[a] && r[b] == inner[b]);
            } else {
                assert(r[b] == order.last());
                assert(r[a] == inner[a]);
                assert(inner.contains(inner[a]));
                if inner[a] != i {
                    assert(head.contains(inner[a]));
                    let k = choose|k: int| 0 <= k < head.len() && head[k] == inner[a];
                    assert(order[k] == inner[a]);
                    assert(place_before(names, order[k], order[order.len() - 1]));
                }
            }
        }
    } else {
        assert(r == order.push(i));
        assert forall|x: int| #[trigger] r.contains(x) <==> order.contains(x) || x == i by {
            if order.contains(x) {
                let k = choose|k: int| 0 <= k < order.len() && order[k] == x;
                assert(r[k] == x);
            }
            if x == i {
                assert(r[r.len() - 1] == x);
            }
            if r.contains(x) {
                let k = choose|k: int| 0 <= k < r.len() && r[k] == x;
                if k < order.len() {
                    assert(order[k] == x);
                }
            }
        }
        assert forall|a: int, b: int| 0 <= a < b < r.len() implies place_before(
            names,
            #[trigger] r[a],
            #[trigger] r[b],
        ) by {
            if b < order.len() {
                assert(r[a] == order[a] && r[b] == order[b]);
            } else {
                assert(r[a] == order[a] && r[b] == i);
                let last = order[order.len() - 1];
                lemma_text_lt_total(names[i], names[last]);
                if a < order.len() - 1 {
                    assert(place_before(names, order[a], order[order.len() - 1]));
                    if text_lt(names[order[a]], names[last]) && text_lt(names[last], names[i]) {
                        lemma_text_lt_transitive(
                            names[order[a]],
                            names[last],
                            names[i],
                        );
                    }
                }
            }
        }
    }
}

/// Ordering by name lists every place once, in the order of the names, and keeps places of one name
/// as they were.
pub proof fn law_ordering_is_stable(names: Seq<Seq<char>>, n: nat)
    requires
        n <= names.len(),
    ensures
        stable_order(names, n).len() == n,
        in_stable_order(stable_order(names, n), names),
        forall|x: int| #[trigger] stable_order(names, n).contains(x) <==> 0 <= x < n,
    decreases n,
{
    if n > 0 {
        let head = stable_order(names, (n - 1) as nat);
        law_ordering_is_stable(names, (n - 1) as nat);
        assert forall|j: int| 0 <= j < head.len() implies (#[trigger] head[j]) < n - 1 by {
            assert(head.contains(head[j]));
        }
        lemma_insert_place_order(head, names, n - 1);
        assert forall|x: int| #[trigger] stable_order(names, n).contains(x) <==> 0 <= x < n by {
            assert(head.contains(x) <==> 0 <= x < n - 1);
        }
    }
}

// Keys

/// What stands between a prefix and a suffix.
pub open spec fn between(key: Seq<char>, prefix: Seq<char>, suffix: Seq<char>) -> Option<Seq<char>> {
    if has_prefix(key, prefix) && has_suffix(key.skip(prefix.len() as int), suffix) {
        let rest = key.skip(prefix.len() as int);
        Some(rest.take(rest.len() - suffix.len()))
    } else {
        None
    }
}

fn middle(key: &str, prefix: &str, suffix: &str) -> (r: Option<String>)
    ensures
        opt_text(r) == between(key@, prefix@, suffix@),
{
    match strip_prefix(key, prefix) {
        Some(rest) => {
            if ends_with(rest.as_str(), suffix) {
                let cs = chars_of(rest.as_str());
                let n: usize = suffix.unicode_len();
                assert(rest@.take(rest@.len() - suffix@.len()) =~= cs@.subrange(
                    0,
                    cs@.len() - suffix@.len(),
                ));
                Some(string_of(&cs, 0, cs.len() - n))
            } else {
                None
            }
        },
        None => None,
    }
}

/// An SSH key of a remote.
#[derive(Debug, Clone)]
pub struct ConfigSshKeyEntry {
    pub remote: String,
    pub key_type: String,
    pub public_key: String,
    pub key_id: Option<String>,
}

pub struct SshKeyView {
    pub remote: Seq<char>,
    pub key_type: Seq<char>,
    pub public_key: Seq<char>,
    pub key_id: Option<Seq<char>>,
}

impl View for ConfigSshKeyEntry {
    type V = SshKeyView;

    open spec fn view(&self) -> SshKeyView {
        SshKeyView {
            remote: self.remote@,
            key_type: self.key_type@,
            public_key: self.public_key@,
            key_id: opt_text(self.key_id),
        }
    }
}

pub open spec fn ssh_views(v: Seq<ConfigSshKeyEntry>) -> Seq<SshKeyView> {
    v.map_values(|e: ConfigSshKeyEntry| e@)
}

/// The SSH key that an entry holds, if its key names one and its value has a type and key material;
/// what follows those two words tells the key apart.
pub open spec fn ssh_key(entry: ConfigKvEntry) -> Option<SshKeyView> {
    let w = words_seq(entry.value@);
    match between(entry.key@, "vault.ssh."@, ".pubkey"@) {
        Some(remote) if w.len() >= 2 => {
            let id = join_seq(w.skip(2), " "@);
            Some(
                SshKeyView {
                    remote,
                    key_type: w[0],
                    public_key: entry.value@,
                    key_id: if id.len() == 0 {
                        None
                    } else {
                        Some(id)
                    },
                },
            )
        },
        _ => None,
    }
}

fn read_ssh_key(entry: &ConfigKvEntry) -> (r: Option<ConfigSshKeyEntry>)
    ensures
        match (r, ssh_key(*entry)) {
            (Some(got), Some(want)) => got@ == want,
            (None, None) => true,
            _ => false,
        },
{
    let remote = match middle(entry.key.as_str(), "vault.ssh.", ".pubkey") {
        Some(remote) => remote,
        None => {
            return None;
        },
    };
    let w = words(entry.value.as_str());
    if w.len() < 2 {
        return None;
    }
    let mut rest: Vec<String> = Vec::new();
    let mut i: usize = 2;
    assert(texts(rest@) =~= texts(w@).subrange(2, 2));
    while i < w.len()
        invariant
            2 <= i <= w@.len(),
            texts(rest@) == texts(w@).subrange(2, i as int),
        decreases w.len() - i,
    {
        let ghost before = rest@;
        rest.push(w[i].clone());
        assert(texts(rest@) =~= texts(before).push(w@[i as int]@));
        assert(texts(w@).subrange(2, i + 1) =~= texts(w@).subrange(2, i as int).push(
            texts(w@)[i as int],
        ));
        i = i + 1;
    }
    assert(texts(w@).subrange(2, i as int) =~= texts(w@).skip(2));
    let id = join(&rest, " ");
    let key_id = if id.as_str().unicode_len() == 0 {
        None
    } else {
        Some(id)
    };
    assert(texts(w@)[0] == w@[0]@);
    Some(
        ConfigSshKeyEntry {
            remote,
            key_type: w[0].clone(),
            public_key: entry.value.clone(),
            key_id,
        },
    )
}

/// The SSH keys of some entries, as they are met.
pub open spec fn ssh_keys(entries: Seq<ConfigKvEntry>) -> Seq<SshKeyView>
    decreases entries.len(),
{
    if entries.len() == 0 {
        Seq::empty()
    } else {
        match ssh_key(entries.last()) {
            Some(k) => ssh_keys(entries.drop_last()).push(k),
            None => ssh_keys(entries.drop_last()),
        }
    }
}

pub open spec fn remotes(keys: Seq<SshKeyView>) -> Seq<Seq<char>> {
    keys.map_values(|k: SshKeyView| k.remote)
}

/// The SSH keys of some entries, in the order of their remotes.
pub open spec fn listed_ssh_keys(entries: Seq<ConfigKvEntry>) -> Seq<SshKeyView> {
    let keys = ssh_keys(entries);
    stable_order(remotes(keys), keys.len()).map_values(|i: int| keys[i])
}

/// The SSH keys that the entries under `vault.ssh.` hold, in the order of their remotes.
pub fn list_ssh_key_entries(entries: &Vec<ConfigKvEntry>) -> (r: Vec<ConfigSshKeyEntry>)
    ensures
        ssh_views(r@) == listed_ssh_keys(entries@),
{
    let mut keys: Vec<ConfigSshKeyEntry> = Vec::new();
    let mut names: Vec<String> = Vec::new();
    let mut i: usize = 0;
    assert(ssh_views(keys@) =~= Seq::<SshKeyView>::empty());
    assert(texts(names@) =~= remotes(ssh_views(keys@)));
    while i < entries.len()
        invariant
            i <= entries@.len(),
            ssh_views(keys@) == ssh_keys(entries@.take(i as int)),
            texts(names@) == remotes(ssh_views(keys@)),
            names@.len() == keys@.len(),
        decreases entries.len() - i,
    {
        assert(entries@.take(i + 1).drop_last() =~= entries@.take(i as int));
        assert(entries@.take(i + 1).last() == entries@[i as int]);
        if let Some(k) = read_ssh_key(&entries[i]) {
            let ghost before = keys@;
            let ghost before_names = names@;
            names.push(k.remote.clone());
            keys.push(k);
            assert(ssh_views(keys@) =~= ssh_views(before).push(k@));
            assert(texts(names@) =~= texts(before_names).push(k.remote@));
            assert(remotes(ssh_views(keys@)) =~= remotes(ssh_views(before)).push(k@.remote));
        }
        i = i + 1;
    }
    assert(entries@.take(i as int) =~= entries@);
    let order = order_by_name(&names);
    let ghost all = ssh_views(keys@);
    let ghost want = listed_ssh_keys(entries@);
    let mut out: Vec<ConfigSshKeyEntry> = Vec::new();
    let mut j: usize = 0;
    assert(ssh_views(out@) =~= want.take(0));
    while j < order.len()
        invariant
            j <= order@.len(),
            all == ssh_views(keys@),
            names@.len() == keys@.len(),
            order@.len() == want.len(),
            forall|m: int| 0 <= m < order@.len() ==> (#[trigger] order@[m]) < names@.len(),
            forall|m: int| 0 <= m < order@.len() ==> want[m] == all[(#[trigger] order@[m]) as int],
            ssh_views(out@) == want.take(j as int),
        decreases order.len() - j,
    {
        let k = &keys[order[j]];
        let ghost before = out@;
        let copy = ConfigSshKeyEntry {
            remote: k.remote.clone(),
            key_type: k.key_type.clone(),
            public_key: k.public_key.clone(),
            key_id: clone_opt_text(&k.key_id),
        };
        assert(copy@ == all[order@[j as int] as int]);
        out.push(copy);
        assert(ssh_views(out@) =~= ssh_views(before).push(copy@));
        assert(want.take(j + 1) =~= want.take(j as int).push(want[j as int]));
        j = j + 1;
    }
    assert(want.take(j as int) =~= want);
    out
}

/// What a GPG key is for, if the configuration key names one.
pub open spec fn gpg_usage(key: Seq<char>) -> Option<Seq<char>> {
    if key == "vault.gpg.pubkey"@ || key == "vault.gpg_pubkey"@ {
        Some("signing"@)
    } else {
        between(key, "vault.gpg."@, ".pubkey"@)
    }
}

fn read_gpg_usage(key: &str) -> (r: Option<String>)
    ensures
        opt_text(r) == gpg_usage(key@),
{
    if text_eq(key, "vault.gpg.pubkey") || text_eq(key, "vault.gpg_pubkey") {
        Some("signing".to_owned())
    } else {
        middle(key, "vault.gpg.", ".pubkey")
    }
}

/// The keys that name GPG keys, with what they are for, as they are met.
pub open spec fn gpg_pairs(entries: Seq<ConfigKvEntry>) -> Seq<(Seq<char>, Seq<char>)>
    decreases entries.len(),
{
    if entries.len() == 0 {
        Seq::empty()
    } else {
        match gpg_usage(entries.last().key@) {
            Some(usage) => gpg_pairs(entries.drop_last()).push((usage, entries.last().key@)),
            None => gpg_pairs(entries.drop_last()),
        }
    }
}

pub open spec fn usages(pairs: Seq<(Seq<char>, Seq<char>)>) -> Seq<Seq<char>> {
    pairs.map_values(|p: (Seq<char>, Seq<char>)| p.0)
}

/// The first of each run of places of one name.
pub open spec fn run_heads(order: Seq<int>, names: Seq<Seq<char>>) -> Seq<int>
    decreases order.len(),
{
    if order.len() == 0 {
        Seq::empty()
    } else if order.len() > 1 && names[order.last()] == names[order[order.len() - 2]] {
        run_heads(order.drop_last(), names)
    } else {
        run_heads(order.drop_last(), names).push(order.last())
    }
}

/// A GPG key.
#[derive(Debug, Clone)]
pub struct ConfigGpgKeyEntry {
    pub usage: String,
    pub key_type: String,
    pub pubkey_config_key: String,
    pub signing_enabled: bool,
}

pub struct GpgKeyView {
    pub usage: Seq<char>,
    pub key_type: Seq<char>,
    pub pubkey_config_key: Seq<char>,
    pub signing_enabled: bool,
}

impl View for ConfigGpgKeyEntry {
    type V = GpgKeyView;

    open spec fn view(&self) -> GpgKeyView {
        GpgKeyView {
            usage: self.usage@,
            key_type: self.key_type@,
            pubkey_config_key: self.pubkey_config_key@,
            signing_enabled: self.signing_enabled,
        }
    }
}

pub open spec fn gpg_views(v: Seq<ConfigGpgKeyEntry>) -> Seq<GpgKeyView> {
    v.map_values(|e: ConfigGpgKeyEntry| e@)
}

/// Whether commits are signed, by the value of `vault.signing`.
pub open spec fn signing_on(signing: Option<String>) -> bool {
    match signing {
        Some(v) => lower(v@) == "true"@,
        None => false,
    }
}

pub open spec fn gpg_key(pair: (Seq<char>, Seq<char>), signing: bool) -> GpgKeyView {
    GpgKeyView {
        usage: pair.0,
        key_type: "PGP 2048"@,
        pubkey_config_key: pair.1,
        signing_enabled: pair.0 == "signing"@ && signing,
    }
}

/// The GPG keys of some entries: one of each use, the first that is met, in the order of the uses.
pub open spec fn listed_gpg_keys(entries: Seq<ConfigKvEntry>, signing: Option<String>) -> Seq<GpgKeyView> {
    let pairs = gpg_pairs(entries);
    let names = usages(pairs);
    run_heads(stable_order(names, names.len()), names).map_values(
        |i: int| gpg_key(pairs[i], signing_on(signing)),
    )
}

/// The GPG keys that the configuration names; `signing` is the value of `vault.signing`.
pub fn list_gpg_key_entries(entries: &Vec<ConfigKvEntry>, signing: &Option<String>) -> (r: Vec<
    ConfigGpgKeyEntry,
>)
    ensures
        gpg_views(r@) == listed_gpg_keys(entries@, *signing),
{
    let mut names: Vec<String> = Vec::new();
    let mut keys: Vec<String> = Vec::new();
    let mut i: usize = 0;
    assert(texts(names@) =~= usages(gpg_pairs(entries@.take(0))));
    while i < entries.len()
        invariant
            i <= entries@.len(),
            names@.len() == keys@.len(),
            gpg_pairs(entries@.take(i as int)).len() == names@.len(),
            forall|m: int|
                0 <= m < names@.len() ==> #[trigger] gpg_pairs(entries@.take(i as int))[m] == (
                    names@[m]@,
                    keys@[m]@,
                ),
        decreases entries.len() - i,
    {
        assert(entries@.take(i + 1).drop_last() =~= entries@.take(i as int));
        assert(entries@.take(i + 1).last() == entries@[i as int]);
        if let Some(usage) = read_gpg_usage(entries[i].key.as_str()) {
            names.push(usage);
            keys.push(entries[i].key.clone());
        }
        i = i + 1;
    }
    assert(entries@.take(i as int) =~= entries@);
    let ghost pairs = gpg_pairs(entries@);
    assert(texts(names@) =~= usages(pairs));
    let on = match signing {
        Some(v) => text_eq(to_lower(v.as_str()).as_str(), "true"),
        None => false,
    };
    let order = order_by_name(&names);
    let ghost want = places(order@);
    let ghost all = usages(pairs);
    let mut out: Vec<ConfigGpgKeyEntry> = Vec::new();
    let mut j: usize = 0;
    assert(gpg_views(out@) =~= run_heads(want.take(0), all).map_values(
        |i: int| gpg_key(pairs[i], on),
    ));
    while j < order.len()
        invariant
            j <= order@.len(),
            names@.len() == keys@.len(),
            names@.len() == pairs.len(),
            all == usages(pairs),
            all == texts(names@),
            want == places(order@),
            forall|m: int|
                0 <= m < names@.len() ==> #[trigger] pairs[m] == (names@[m]@, keys@[m]@),
            forall|m: int| 0 <= m < order@.len() ==> (#[trigger] order@[m]) < names@.len(),
            gpg_views(out@) == run_heads(want.take(j as int), all).map_values(
                |i: int| gpg_key(pairs[i], on),
            ),
        decreases order.len() - j,
    {
        let ghost head = want.take(j as int);
        let ghost more = want.take(j + 1);
        let p: usize = order[j];
        proof {
            assert(more.drop_last() =~= head);
            assert(more.last() == p as int);
            assert(all[p as int] == names@[p as int]@);
        }
        let repeated = if j > 0 {
            let q: usize = order[j - 1];
            assert(more[more.len() - 2] == q as int);
            assert(all[q as int] == names@[q as int]@);
            text_eq(names[p].as_str(), names[q].as_str())
        } else {
            false
        };
        assert(repeated == (more.len() > 1 && all[more.last()] == all[more[more.len() - 2]]));
        if !repeated {
            let ghost before = out@;
            let entry = ConfigGpgKeyEntry {
                signing_enabled: text_eq(names[p].as_str(), "signing") && on,
                usage: names[p].clone(),
                key_type: "PGP 2048".to_owned(),
                pubkey_config_key: keys[p].clone(),
            };
            assert(pairs[p as int] == (names@[p as int]@, keys@[p as int]@));
            assert(entry@ == gpg_key(pairs[p as int], on));
            out.push(entry);
            assert(gpg_views(out@) =~= gpg_views(before).push(entry@));
            assert(run_heads(more, all) == run_heads(head, all).push(p as int));
        }
        assert(gpg_views(out@) =~= run_heads(more, all).map_values(
            |i: int| gpg_key(pairs[i], on),
        ));
        j = j + 1;
    }
    assert(want.take(j as int) =~= want);
    out
}

// Texts of the listings of keys

/// `s` with blanks behind it, so that it has at least `n` characters.
pub open spec fn padded(s: Seq<char>, n: nat) -> Seq<char> {
    if s.len() < n {
        s + repeat_char(' ', (n - s.len()) as nat)
    } else {
        s
    }
}

fn pad(s: &str, n: usize) -> (r: String)
    ensures
        r@ == padded(s@, n as nat),
{
    let len: usize = s.unicode_len();
    if len < n {
        let blanks = repeat(' ', n - len);
        concat2(s, blanks.as_str())
    } else {
        s.to_owned()
    }
}

pub open spec fn ssh_lines(keys: Seq<SshKeyView>) -> Seq<char>
    decreases keys.len(),
{
    if keys.len() == 0 {
        Seq::empty()
    } else {
        ssh_lines(keys.drop_last()) + ("  "@ + padded(keys.last().remote, 10) + " "@
            + keys.last().public_key + "\n"@)
    }
}

/// The listing of SSH keys.
pub open spec fn ssh_listing(keys: Seq<SshKeyView>) -> Seq<char> {
    if keys.len() == 0 {
        "No SSH keys configured.\n"@
    } else {
        "SSH keys:\n"@ + ssh_lines(keys) + "\n"@ + decimal(keys.len())
            + " keys configured\n\nTip: use libra config generate-ssh-key --remote <name> to add more\n"@
    }
}

/// Write out the SSH keys.
pub fn render_ssh_keys(entries: &Vec<ConfigSshKeyEntry>) -> (r: String)
    ensures
        r@ == ssh_listing(ssh_views(entries@)),
{
    if entries.len() == 0 {
        return "No SSH keys configured.\n".to_owned();
    }
    let ghost all = ssh_views(entries@);
    let mut lines = String::new();
    let mut i: usize = 0;
    assert(lines@ =~= ssh_lines(all.take(0)));
    while i < entries.len()
        invariant
            i <= entries@.len(),
            all == ssh_views(entries@),
            lines@ == ssh_lines(all.take(i as int)),
        decreases entries.len() - i,
    {
        assert(all.take(i + 1).drop_last() =~= all.take(i as int));
        assert(all.take(i + 1).last() == entries@[i as int]@);
        let name = pad(entries[i].remote.as_str(), 10);
        let line = concat5("  ", name.as_str(), " ", entries[i].public_key.as_str(), "\n");
        lines = concat2(lines.as_str(), line.as_str());
        i = i + 1;
    }
    assert(all.take(i as int) =~= all);
    let count = usize_text(entries.len());
    concat5(
        "SSH keys:\n",
        lines.as_str(),
        "\n",
        count.as_str(),
        " keys configured\n\nTip: use libra config generate-ssh-key --remote <name> to add more\n",
    )
}

pub open spec fn gpg_lines(keys: Seq<GpgKeyView>) -> Seq<char>
    decreases keys.len(),
{
    if keys.len() == 0 {
        Seq::empty()
    } else {
        let k = keys.last();
        gpg_lines(keys.drop_last()) + ("  "@ + padded(k.usage, 10) + " "@ + k.pubkey_config_key + (
        if k.usage == "signing"@ && k.signing_enabled {
            "  (vault.signing = true)"@
        } else {
            ""@
        }) + "\n"@)
    }
}

/// The listing of GPG keys.
pub open spec fn gpg_listing(keys: Seq<GpgKeyView>) -> Seq<char> {
    if keys.len() == 0 {
        "No GPG keys configured.\n"@
    } else {
        "GPG keys:\n"@ + gpg_lines(keys) + "\n"@ + decimal(keys.len()) + " keys configured\n"@
    }
}

/// Write out the GPG keys.
pub fn render_gpg_keys(entries: &Vec<ConfigGpgKeyEntry>) -> (r: String)
    ensures
        r@ == gpg_listing(gpg_views(entries@)),
{
    if entries.len() == 0 {
        return "No GPG keys configured.\n".to_owned();
    }
    let ghost all = gpg_views(entries@);
    let mut lines = String::new();
    let mut i: usize = 0;
    assert(lines@ =~= gpg_lines(all.take(0)));
    while i < entries.len()
        invariant
            i <= entries@.len(),
            all == gpg_views(entries@),
            lines@ == gpg_lines(all.take(i as int)),
        decreases entries.len() - i,
    {
        assert(all.take(i + 1).drop_last() =~= all.take(i as int));
        assert(all.take(i + 1).last() == entries@[i as int]@);
        let name = pad(entries[i].usage.as_str(), 10);
        let suffix = if text_eq(entries[i].usage.as_str(), "signing") && entries[i].signing_enabled {
            "  (vault.signing = true)"
        } else {
            ""
        };
        let line = concat6(
            "  ",
            name.as_str(),
            " ",
            entries[i].pubkey_config_key.as_str(),
            suffix,
            "\n",
        );
        lines = concat2(lines.as_str(), line.as_str());
        i = i + 1;
    }
    assert(all.take(i as int) =~= all);
    let count = usize_text(entries.len());
    concat5("GPG keys:\n", lines.as_str(), "\n", count.as_str(), " keys configured\n")
}

// The vault's variables

/// An entry of the listing of the vault's variables.
pub open spec fn vault_entry(e: ScopedEntry) -> ListEntryView {
    ListEntryView {
        key: e.entry.key@,
        value: Some(
            if e.entry.encrypted {
                "<REDACTED>"@
            } else if e.entry.sensitive {
                e.entry.value@ + " [PLAINTEXT]"@
            } else {
                e.entry.value@
            },
        ),
        origin: Some(scope_text(e.scope)),
        scope: None,
        origin_type: None,
        origin_path: None,
        encrypted: Some(e.entry.encrypted),
    }
}

pub open spec fn list_views(v: Seq<ConfigListEntry>) -> Seq<ListEntryView> {
    v.map_values(|e: ConfigListEntry| e@)
}

/// The vault's variables over all scopes; a scope that cannot be read is left out.
pub fn list_vault_entries(reads: &Vec<ScopeRead>) -> (r: Vec<ConfigListEntry>)
    ensures
        list_views(r@) == entries_read(reads@).map_values(|e: ScopedEntry| vault_entry(e)),
{
    let entries = collect_entries(reads);
    let ghost want = entries_read(reads@).map_values(|e: ScopedEntry| vault_entry(e));
    let mut out: Vec<ConfigListEntry> = Vec::new();
    let mut i: usize = 0;
    assert(list_views(out@) =~= want.take(0));
    while i < entries.len()
        invariant
            i <= entries@.len(),
            want == entries@.map_values(|e: ScopedEntry| vault_entry(e)),
            list_views(out@) == want.take(i as int),
        decreases entries.len() - i,
    {
        let e = &entries[i].entry;
        let value = if e.encrypted {
            "<REDACTED>".to_owned()
        } else if e.sensitive {
            concat2(e.value.as_str(), " [PLAINTEXT]")
        } else {
            e.value.clone()
        };
        let listed = ConfigListEntry {
            key: e.key.clone(),
            value: Some(value),
            origin: Some(scope_name(entries[i].scope).to_owned()),
            scope: None,
            origin_type: None,
            origin_path: None,
            encrypted: Some(e.encrypted),
        };
        let ghost before = out@;
        assert(listed@ == vault_entry(entries@[i as int]));
        out.push(listed);
        assert(list_views(out@) =~= list_views(before).push(listed@));
        assert(want.take(i + 1) =~= want.take(i as int).push(want[i as int]));
        i = i + 1;
    }
    assert(want.take(i as int) =~= want);
    out
}

pub open spec fn or_text(o: Option<Seq<char>>, other: Seq<char>) -> Seq<char> {
    match o {
        Some(t) => t,
        None => other,
    }
}

pub open spec fn vault_lines(entries: Seq<ListEntryView>) -> Seq<char>
    decreases entries.len(),
{
    if entries.len() == 0 {
        Seq::empty()
    } else {
        let e = entries.last();
        vault_lines(entries.drop_last()) + ("  "@ + padded(or_text(e.origin, "?"@), 8) + " "@ + e.key
            + " = "@ + or_text(e.value, ""@) + (if e.encrypted == Some(true) {
            "  (encrypted)\n"@
        } else {
            "  (plaintext)\n"@
        }))
    }
}

/// The listing of the vault's variables.
pub open spec fn vault_listing(entries: Seq<ListEntryView>) -> Seq<char> {
    if entries.len() == 0 {
        "No vault environment variables configured.\n"@
    } else {
        "Vault environment variables (cascade):\n"@ + vault_lines(entries) + "\n"@ + decimal(
            entries.len(),
        )
            + " entries\n\nNext steps:\n  - add:     libra config set vault.env.<ENV_VAR_NAME>\n  - remove:  libra config unset vault.env.<name>\n"@
    }
}

/// Write out the vault's variables.
pub fn render_vault_entries(entries: &Vec<ConfigListEntry>) -> (r: String)
    ensures
        r@ == vault_listing(list_views(entries@)),
{
    if entries.len() == 0 {
        return "No vault environment variables configured.\n".to_owned();
    }
    let ghost all = list_views(entries@);
    let mut lines = String::new();
    let mut i: usize = 0;
    assert(lines@ =~= vault_lines(all.take(0)));
    while i < entries.len()
        invariant
            i <= entries@.len(),
            all == list_views(entries@),
            lines@ == vault_lines(all.take(i as int)),
        decreases entries.len() - i,
    {
        assert(all.take(i + 1).drop_last() =~= all.take(i as int));
        assert(all.take(i + 1).last() == entries@[i as int]@);
        let e = &entries[i];
        let origin = match &e.origin {
            Some(o) => o.as_str(),
            None => "?",
        };
        let value = match &e.value {
            Some(v) => v.as_str(),
            None => "",
        };
        let label = match e.encrypted {
            Some(true) => "  (encrypted)\n",
            _ => "  (plaintext)\n",
        };
        let name = pad(origin, 8);
        let line = concat7("  ", name.as_str(), " ", e.key.as_str(), " = ", value, label);
        lines = concat2(lines.as_str(), line.as_str());
        i = i + 1;
    }
    assert(all.take(i as int) =~= all);
    let count = usize_text(entries.len());
    concat5(
        "Vault environment variables (cascade):\n",
        lines.as_str(),
        "\n",
        count.as_str(),
        " entries\n\nNext steps:\n  - add:     libra config set vault.env.<ENV_VAR_NAME>\n  - remove:  libra config unset vault.env.<name>\n",
    )
}

// General listing

/// What is listed.
#[derive(Debug, Clone, Copy, PartialEq, Eq, Structural)]
pub enum ListKind {
    SshKeys,
    GpgKeys,
    Vault,
    Values,
}

/// Decide what is listed: keys before the vault's variables before values.
pub fn list_kind(vault: bool, ssh_keys: bool, gpg_keys: bool) -> (r: ListKind)
    ensures
        r == if ssh_keys {
            ListKind::SshKeys
        } else if gpg_keys {
            ListKind::GpgKeys
        } else if vault {
            ListKind::Vault
        } else {
            ListKind::Values
        },
{
    if ssh_keys {
        ListKind::SshKeys
    } else if gpg_keys {
        ListKind::GpgKeys
    } else if vault {
        ListKind::Vault
    } else {
        ListKind::Values
    }
}

/// Check a listing before anything is read.
pub fn check_list(flags: OutputFlags, json: bool) -> (r: Result<(), CliError>)
    ensures
        match r {
            Ok(_) => !(json && (flags.null || flags.name_only)),
            Err(e) => json && (if flags.null {
                e@ == null_json_error()
            } else {
                flags.name_only && e@ == name_only_json_error()
            }),
        },
{
    match reject_null_with_json(flags, json) {
        Ok(_) => reject_name_only_with_json(flags, json),
        Err(e) => Err(e),
    }
}

/// Whether a listing goes over all scopes: only where each record tells its scope or origin.
pub open spec fn lists_all(flags: OutputFlags, use_cascade: bool) -> bool {
    (flags.show_scope || flags.show_origin) && use_cascade
}

/// The scopes to list.
pub fn scopes_to_list(flags: OutputFlags, scope: ConfigScope, use_cascade: bool, global_exists: bool) -> (r:
    Vec<ConfigScope>)
    ensures
        r@ == read_scopes(scope, lists_all(flags, use_cascade), global_exists),
{
    scopes_to_read(scope, flags.prefixed() && use_cascade, global_exists)
}

/// The entries to list: over all scopes those that can be read, and of one scope all or an error.
pub open spec fn entries_listed(reads: Seq<ScopeRead>, all_scopes: bool) -> Result<
    Seq<ScopedEntry>,
    ErrorView,
> {
    if all_scopes {
        Ok(entries_read(reads))
    } else {
        values_read(reads, false)
    }
}

/// Gather the entries to list.
pub fn list_entries(reads: &Vec<ScopeRead>, flags: OutputFlags, use_cascade: bool) -> (r: Result<
    Vec<ScopedEntry>,
    CliError,
>)
    ensures
        match (r, entries_listed(reads@, lists_all(flags, use_cascade))) {
            (Ok(v), Ok(want)) => v@ == want,
            (Err(e), Err(want)) => e@ == want,
            _ => false,
        },
{
    if flags.prefixed() && use_cascade {
        Ok(collect_entries(reads))
    } else {
        read_values(reads, false)
    }
}

/// What a listing as data holds of an entry.
pub open spec fn listed_entry(e: ScopedEntry, flags: OutputFlags, paths: OriginPaths) -> ListEntryView {
    if flags.show_scope || flags.show_origin {
        prefixed_entry(
            e.entry.key@,
            listed_value(e.entry, flags),
            e.scope,
            e.entry.encrypted,
            flags,
            paths,
        )
    } else {
        ListEntryView {
            key: e.entry.key@,
            value: listed_value(e.entry, flags),
            origin: None,
            scope: None,
            origin_type: None,
            origin_path: None,
            encrypted: Some(e.entry.encrypted),
        }
    }
}

/// A listing as data.
pub fn build_list_entries(entries: &Vec<ScopedEntry>, flags: OutputFlags, paths: &OriginPaths) -> (r: Vec<
    ConfigListEntry,
>)
    ensures
        list_views(r@) == entries@.map_values(|e: ScopedEntry| listed_entry(e, flags, *paths)),
{
    let ghost want = entries@.map_values(|e: ScopedEntry| listed_entry(e, flags, *paths));
    let mut out: Vec<ConfigListEntry> = Vec::new();
    let mut i: usize = 0;
    assert(list_views(out@) =~= want.take(0));
    while i < entries.len()
        invariant
            i <= entries@.len(),
            want == entries@.map_values(|e: ScopedEntry| listed_entry(e, flags, *paths)),
            list_views(out@) == want.take(i as int),
        decreases entries.len() - i,
    {
        let e = &entries[i].entry;
        let value = render_list_value(e, flags);
        let listed = if flags.prefixed() {
            build_prefixed_list_entry(
                e.key.clone(),
                value,
                entries[i].scope,
                e.encrypted,
                flags,
                paths,
            )
        } else {
            ConfigListEntry {
                key: e.key.clone(),
                value,
                origin: None,
                scope: None,
                origin_type: None,
                origin_path: None,
                encrypted: Some(e.encrypted),
            }
        };
        let ghost before = out@;
        assert(listed@ == listed_entry(entries@[i as int], flags, *paths));
        out.push(listed);
        assert(list_views(out@) =~= list_views(before).push(listed@));
        assert(want.take(i + 1) =~= want.take(i as int).push(want[i as int]));
        i = i + 1;
    }
    assert(want.take(i as int) =~= want);
    out
}

/// The label of the scope of a listing as data.
pub fn list_scope_label(flags: OutputFlags, scope: ConfigScope, use_cascade: bool) -> (r: &'static str)
    ensures
        r@ == if lists_all(flags, use_cascade) {
            "all"@
        } else {
            scope_text(scope)
        },
{
    if flags.prefixed() && use_cascade {
        "all"
    } else {
        scope_name(scope)
    }
}

/// The records of a listing.
pub open spec fn list_records(entries: Seq<ScopedEntry>, flags: OutputFlags, paths: OriginPaths) -> Seq<char>
    decreases entries.len(),
{
    if entries.len() == 0 {
        Seq::empty()
    } else {
        let e = entries.last();
        list_records(entries.drop_last(), flags, paths) + record_text(
            e.scope,
            e.entry.key@,
            listed_value(e.entry, flags),
            "="@,
            flags,
            paths,
        )
    }
}

/// Write out a listing.
pub fn render_list(entries: &Vec<ScopedEntry>, flags: OutputFlags, paths: &OriginPaths) -> (r: String)
    ensures
        r@ == list_records(entries@, flags, *paths),
{
    let mut out = String::new();
    let mut i: usize = 0;
    assert(out@ =~= Seq::<char>::empty());
    while i < entries.len()
        invariant
            i <= entries@.len(),
            out@ == list_records(entries@.take(i as int), flags, *paths),
        decreases entries.len() - i,
    {
        assert(entries@.take(i + 1).drop_last() =~= entries@.take(i as int));
        assert(entries@.take(i + 1).last() == entries@[i as int]);
        let value = render_list_value(&entries[i].entry, flags);
        let shown = match &value {
            Some(v) => Some(v.as_str()),
            None => None,
        };
        let record = format_config_record(
            entries[i].scope,
            entries[i].entry.key.as_str(),
            shown,
            "=",
            flags,
            paths,
        );
        assert(opt_str(shown) == opt_text(value));
        out = concat2(out.as_str(), record.as_str());
        i = i + 1;
    }
    assert(entries@.take(i as int) =~= entries@);
    out
}

/// The records of a listing do not depend on what encrypted entries hold.
pub proof fn law_list_is_blind_to_secrets(
    a: Seq<ScopedEntry>,
    b: Seq<ScopedEntry>,
    flags: OutputFlags,
    paths: OriginPaths,
)
    requires
        a.len() == b.len(),
        forall|i: int|
            0 <= i < a.len() ==> {
                &&& (#[trigger] a[i]).scope == b[i].scope
                &&& a[i].entry.key@ == b[i].entry.key@
                &&& a[i].entry.encrypted == b[i].entry.encrypted
                &&& a[i].entry.sensitive == b[i].entry.sensitive
                &&& a[i].entry.encrypted || a[i].entry.value@ == b[i].entry.value@
            },
    ensures
        list_records(a, flags, paths) == list_records(b, flags, paths),
    decreases a.len(),
{
    if a.len() > 0 {
        let x = a[a.len() - 1];
        let y = b[b.len() - 1];
        assert(x.scope == y.scope);
        assert(listed_value(x.entry, flags) == listed_value(y.entry, flags));
        assert forall|i: int| 0 <= i < a.drop_last().len() implies {
            &&& (#[trigger] a.drop_last()[i]).scope == b.drop_last()[i].scope
            &&& a.drop_last()[i].entry.key@ == b.drop_last()[i].entry.key@
            &&& a.drop_last()[i].entry.encrypted == b.drop_last()[i].entry.encrypted
            &&& a.drop_last()[i].entry.sensitive == b.drop_last()[i].entry.sensitive
            &&& a.drop_last()[i].entry.encrypted || a.drop_last()[i].entry.value@
                == b.drop_last()[i].entry.value@
        } by {
            assert(a.drop_last()[i] == a[i]);
            assert(b.drop_last()[i] == b[i]);
        }
        law_list_is_blind_to_secrets(a.drop_last(), b.drop_last(), flags, paths);
    }
}

// The command

/// What was read for a listing.
#[derive(Debug)]
pub enum ListRows {
    SshKeys { rows: Result<Vec<ConfigKvEntry>, String> },
    /// `signing` is what `vault.signing` is set to
    GpgKeys { rows: Result<Vec<ConfigKvEntry>, String>, signing: Result<Option<String>, String> },
    Vault { reads: Vec<ScopeRead> },
    Values { reads: Vec<ScopeRead> },
}

/// What is listed.
#[derive(Debug)]
pub enum ListReport {
    SshKeys { keys: Vec<ConfigSshKeyEntry> },
    GpgKeys { keys: Vec<ConfigGpgKeyEntry> },
    Vault { entries: Vec<ConfigListEntry> },
    Values { entries: Vec<ScopedEntry> },
}

/// A [`ListReport`] over views.
pub enum ListReportView {
    SshKeys(Seq<SshKeyView>),
    GpgKeys(Seq<GpgKeyView>),
    Vault(Seq<ListEntryView>),
    Values(Seq<ScopedEntry>),
}

impl View for ListReport {
    type V = ListReportView;

    open spec fn view(&self) -> ListReportView {
        match self {
            ListReport::SshKeys { keys } => ListReportView::SshKeys(ssh_views(keys@)),
            ListReport::GpgKeys { keys } => ListReportView::GpgKeys(gpg_views(keys@)),
            ListReport::Vault { entries } => ListReportView::Vault(list_views(entries@)),
            ListReport::Values { entries } => ListReportView::Values(entries@),
        }
    }
}

/// What a listing holds, or why there is none.
pub open spec fn listing(rows: ListRows, flags: OutputFlags, json: bool, use_cascade: bool) -> Result<
    ListReportView,
    ErrorView,
> {
    if json && flags.null {
        Err(null_json_error())
    } else if json && flags.name_only {
        Err(name_only_json_error())
    } else {
        match rows {
            ListRows::SshKeys { rows } => match rows {
                Ok(v) => Ok(ListReportView::SshKeys(listed_ssh_keys(v@))),
                Err(e) => Err(ErrorView::legacy(e@)),
            },
            ListRows::GpgKeys { rows, signing } => match (rows, signing) {
                (Err(e), _) => Err(ErrorView::legacy(e@)),
                (_, Err(e)) => Err(ErrorView::legacy(e@)),
                (Ok(v), Ok(signing)) => Ok(ListReportView::GpgKeys(listed_gpg_keys(v@, signing))),
            },
            ListRows::Vault { reads } => Ok(
                ListReportView::Vault(
                    entries_read(reads@).map_values(|e: ScopedEntry| vault_entry(e)),
                ),
            ),
            ListRows::Values { reads } => match entries_listed(reads@, lists_all(flags, use_cascade)) {
                Ok(entries) => Ok(ListReportView::Values(entries)),
                Err(e) => Err(e),
            },
        }
    }
}

/// List what was read.
pub fn handle_list(rows: &ListRows, flags: OutputFlags, json: bool, use_cascade: bool) -> (r: Result<
    ListReport,
    CliError,
>)
    ensures
        match (r, listing(*rows, flags, json, use_cascade)) {
            (Ok(report), Ok(want)) => report@ == want,
            (Err(e), Err(want)) => e@ == want,
            _ => false,
        },
{
    if let Err(e) = check_list(flags, json) {
        return Err(e);
    }
    match rows {
        ListRows::SshKeys { rows } => match rows {
            Ok(v) => Ok(ListReport::SshKeys { keys: list_ssh_key_entries(v) }),
            Err(e) => Err(CliError::from_legacy_string(e.clone())),
        },
        ListRows::GpgKeys { rows, signing } => match rows {
            Err(e) => Err(CliError::from_legacy_string(e.clone())),
            Ok(v) => match signing {
                Err(e) => Err(CliError::from_legacy_string(e.clone())),
                Ok(signing) => Ok(ListReport::GpgKeys { keys: list_gpg_key_entries(v, signing) }),
            },
        },
        ListRows::Vault { reads } => Ok(ListReport::Vault { entries: list_vault_entries(reads) }),
        ListRows::Values { reads } => match list_entries(reads, flags, use_cascade) {
            Ok(entries) => Ok(ListReport::Values { entries }),
            Err(e) => Err(e),
        },
    }
}

/// The text of a listing.
pub open spec fn listing_text(report: ListReportView, flags: OutputFlags, paths: OriginPaths) -> Seq<char> {
    match report {
        ListReportView::SshKeys(keys) => ssh_listing(keys),
        ListReportView::GpgKeys(keys) => gpg_listing(keys),
        ListReportView::Vault(entries) => vault_listing(entries),
        ListReportView::Values(entries) => list_records(entries, flags, paths),
    }
}

/// Write out a listing.
pub fn render_listing(report: &ListReport, flags: OutputFlags, paths: &OriginPaths) -> (r: String)
    ensures
        r@ == listing_text(report@, flags, *paths),
{
    match report {
        ListReport::SshKeys { keys } => render_ssh_keys(keys),
        ListReport::GpgKeys { keys } => render_gpg_keys(keys),
        ListReport::Vault { entries } => render_vault_entries(entries),
        ListReport::Values { entries } => render_list(entries, flags, paths),
    }
}

/// What stands between a beginning and an end of a key is what is left without them.
pub proof fn law_between_two_parts(key: Seq<char>, prefix: Seq<char>, name: Seq<char>, suffix: Seq<char>)
    ensures
        between(prefix + name + suffix, prefix, suffix) == Some(name),
        between(key, prefix, suffix) matches Some(n) ==> key == prefix + n + suffix,
{
    let full = prefix + name + suffix;
    assert(full.take(prefix.len() as int) =~= prefix);
    let rest = full.skip(prefix.len() as int);
    assert(rest =~= name + suffix);
    assert(rest.skip(rest.len() - suffix.len()) =~= suffix);
    assert(rest.take(rest.len() - suffix.len()) =~= name);
    if between(key, prefix, suffix) is Some {
        let n = between(key, prefix, suffix)->0;
        let r = key.skip(prefix.len() as int);
        assert(r =~= n + suffix) by {
            assert(r =~= r.take(r.len() - suffix.len()) + r.skip(r.len() - suffix.len()));
        }
        assert(key =~= key.take(prefix.len() as int) + r);
        assert(key =~= prefix + n + suffix);
    }
}

/// A key for a remote is listed under the remote's name, with the type that its first word says, whole,
/// and with what follows its second word where anything does. An entry of another key, or without two
/// words, is none.
pub proof fn law_ssh_key_is_listed(entry: ConfigKvEntry, remote: Seq<char>)
    ensures
        ({
            let w = words_seq(entry.value@);
            &&& entry.key@ == "vault.ssh."@ + remote + ".pubkey"@ && w.len() >= 2 ==> (ssh_key(entry) matches Some(
                k,
            ) && k.remote == remote && k.key_type == w[0] && k.public_key == entry.value@ && (k.key_id matches Some(
                id,
            ) ==> id.len() > 0 && id == join_seq(w.skip(2), " "@)) && (k.key_id is None ==> join_seq(
                w.skip(2),
                " "@,
            ).len() == 0))
            &&& w.len() < 2 ==> ssh_key(entry) is None
            &&& ssh_key(entry) matches Some(k) ==> entry.key@ == "vault.ssh."@ + k.remote + ".pubkey"@
        }),
{
    law_between_two_parts(entry.key@, "vault.ssh."@, remote, ".pubkey"@);
}

/// The keys are those of the entries that are one, in their order, and they are listed by the names of
/// their remotes.
pub proof fn law_ssh_keys_of_the_entries(entries: Seq<ConfigKvEntry>, e: ConfigKvEntry, i: int)
    ensures
        ssh_keys(Seq::empty()) == Seq::<SshKeyView>::empty(),
        ssh_key(e) matches Some(k) ==> ssh_keys(entries.push(e)) == ssh_keys(entries).push(k),
        ssh_key(e) is None ==> ssh_keys(entries.push(e)) == ssh_keys(entries),
        ({
            let keys = ssh_keys(entries);
            let order = stable_order(remotes(keys), keys.len());
            &&& listed_ssh_keys(entries).len() == keys.len()
            &&& 0 <= i < keys.len() ==> listed_ssh_keys(entries)[i] == keys[order[i]]
        }),
{
    assert(entries.push(e).drop_last() =~= entries);
    law_ordering_is_stable(remotes(ssh_keys(entries)), ssh_keys(entries).len());
}

/// A key is for what its name says between its two ends, and the two plain names are for signing.
pub proof fn law_gpg_key_is_for_its_use(usage: Seq<char>, key: Seq<char>)
    ensures
        gpg_usage("vault.gpg.pubkey"@) == Some("signing"@),
        gpg_usage("vault.gpg_pubkey"@) == Some("signing"@),
        gpg_usage(key) is Some ==> key == "vault.gpg.pubkey"@ || key == "vault.gpg_pubkey"@ || exists|
            name: Seq<char>,
        | key == #[trigger] ("vault.gpg."@ + name + ".pubkey"@) && gpg_usage(key) == Some(name),
        "vault.gpg."@ + usage + ".pubkey"@ != "vault.gpg.pubkey"@ && "vault.gpg."@ + usage + ".pubkey"@
            != "vault.gpg_pubkey"@ ==> gpg_usage("vault.gpg."@ + usage + ".pubkey"@) == Some(usage),
{
    law_between_two_parts(key, "vault.gpg."@, usage, ".pubkey"@);
    if gpg_usage(key) is Some && key != "vault.gpg.pubkey"@ && key != "vault.gpg_pubkey"@ {
        let name = gpg_usage(key)->0;
        assert(key == "vault.gpg."@ + name + ".pubkey"@);
    }
}

/// A key tells its use and its name, and that signing is on exactly where it is for signing and the
/// setting says so.
pub proof fn law_gpg_key_is_listed(usage: Seq<char>, key: Seq<char>, signing: bool, setting: Option<String>)
    ensures
        ({
            let k = gpg_key((usage, key), signing);
            k.usage == usage && k.pubkey_config_key == key && k.key_type == "PGP 2048"@ && (k.signing_enabled
                <==> signing && usage == "signing"@)
        }),
        signing_on(setting) <==> (setting matches Some(v) && lower(v@) == "true"@),
{
}

/// The pairs of uses and keys are those of the entries that are one, in their order.
pub proof fn law_gpg_keys_of_the_entries(entries: Seq<ConfigKvEntry>, e: ConfigKvEntry)
    ensures
        gpg_pairs(Seq::empty()) == Seq::<(Seq<char>, Seq<char>)>::empty(),
        gpg_usage(e.key@) matches Some(usage) ==> gpg_pairs(entries.push(e)) == gpg_pairs(entries).push(
            (usage, e.key@),
        ),
        gpg_usage(e.key@) is None ==> gpg_pairs(entries.push(e)) == gpg_pairs(entries),
{
    assert(entries.push(e).drop_last() =~= entries);
}

/// Of places in order, those stay whose name is not that of the one before: the first of each name.
pub proof fn law_first_of_each_name(order: Seq<int>, names: Seq<Seq<char>>, i: int)
    ensures
        run_heads(Seq::empty(), names) == Seq::<int>::empty(),
        order.len() == 0 ==> run_heads(order.push(i), names) == seq![i],
        order.len() > 0 && names[i] == names[order.last()] ==> run_heads(order.push(i), names) == run_heads(
            order,
            names,
        ),
        order.len() > 0 && names[i] != names[order.last()] ==> run_heads(order.push(i), names) == run_heads(
            order,
            names,
        ).push(i),
{
    let all = order.push(i);
    assert(all.drop_last() =~= order);
    assert(all.last() == i);
    if order.len() > 0 {
        assert(all[all.len() - 2] == order.last());
    } else {
        assert(run_heads(order, names) =~= Seq::<int>::empty());
        assert(run_heads(all, names) =~= seq![i]);
    }
}

/// A line is written for each key, in order, and the number of keys after them.
pub proof fn law_keys_are_shown(
    ssh: Seq<SshKeyView>,
    s: SshKeyView,
    gpg: Seq<GpgKeyView>,
    g: GpgKeyView,
)
    ensures
        ssh_lines(Seq::empty()) == Seq::<char>::empty() && gpg_lines(Seq::empty()) == Seq::<char>::empty(),
        ssh_lines(ssh.push(s)) == ssh_lines(ssh) + ("  "@ + padded(s.remote, 10) + " "@ + s.public_key
            + "\n"@),
        g.usage == "signing"@ && g.signing_enabled ==> gpg_lines(gpg.push(g)) == gpg_lines(gpg) + ("  "@
            + padded(g.usage, 10) + " "@ + g.pubkey_config_key + "  (vault.signing = true)"@ + "\n"@),
        g.usage != "signing"@ || !g.signing_enabled ==> gpg_lines(gpg.push(g)) == gpg_lines(gpg) + ("  "@
            + padded(g.usage, 10) + " "@ + g.pubkey_config_key + ""@ + "\n"@),
        ssh.len() == 0 ==> ssh_listing(ssh) == "No SSH keys configured.\n"@,
        gpg.len() == 0 ==> gpg_listing(gpg) == "No GPG keys configured.\n"@,
        ssh.len() > 0 ==> ("SSH keys:\n"@ + ssh_lines(ssh) + "\n"@ + decimal(ssh.len())).is_prefix_of(
            ssh_listing(ssh),
        ),
        gpg.len() > 0 ==> gpg_listing(gpg) == "GPG keys:\n"@ + gpg_lines(gpg) + "\n"@ + decimal(gpg.len())
            + " keys configured\n"@,
{
    assert(ssh.push(s).drop_last() =~= ssh);
    assert(gpg.push(g).drop_last() =~= gpg);
}

/// A text is padded with spaces up to a width and never cut.
pub proof fn law_padded(s: Seq<char>, n: nat, i: int)
    ensures
        s.len() >= n ==> padded(s, n) == s,
        s.len() < n ==> padded(s, n).len() == n && s.is_prefix_of(padded(s, n)) && (s.len() <= i < n ==> padded(
            s,
            n,
        )[i] == ' '),
{
}

/// An entry of the vault is listed with its key and its scope; its value only where it is not encrypted,
/// and with a mark where it is a secret all the same.
pub proof fn law_vault_entry_hides_what_is_encrypted(e: ScopedEntry)
    ensures
        vault_entry(e).key == e.entry.key@,
        vault_entry(e).origin == Some(scope_text(e.scope)),
        vault_entry(e).encrypted == Some(e.entry.encrypted),
        e.entry.encrypted ==> vault_entry(e).value == Some("<REDACTED>"@),
        !e.entry.encrypted && e.entry.sensitive ==> vault_entry(e).value == Some(
            e.entry.value@ + " [PLAINTEXT]"@,
        ),
        !e.entry.encrypted && !e.entry.sensitive ==> vault_entry(e).value == Some(e.entry.value@),
{
}

/// A line is written for each entry of the vault, in order: its scope, its key, its value and whether it
/// is encrypted.
pub proof fn law_vault_entries_are_shown(entries: Seq<ListEntryView>, e: ListEntryView)
    ensures
        vault_lines(Seq::empty()) == Seq::<char>::empty(),
        e.origin matches Some(origin) ==> (e.value matches Some(value) ==> {
            &&& e.encrypted == Some(true) ==> vault_lines(entries.push(e)) == vault_lines(entries) + ("  "@
                + padded(origin, 8) + " "@ + e.key + " = "@ + value + "  (encrypted)\n"@)
            &&& e.encrypted != Some(true) ==> vault_lines(entries.push(e)) == vault_lines(entries) + ("  "@
                + padded(origin, 8) + " "@ + e.key + " = "@ + value + "  (plaintext)\n"@)
        }),
        entries.len() == 0 ==> vault_listing(entries) == "No vault environment variables configured.\n"@,
        entries.len() > 0 ==> ("Vault environment variables (cascade):\n"@ + vault_lines(entries) + "\n"@
            + decimal(entries.len())).is_prefix_of(vault_listing(entries)),
{
    assert(entries.push(e).drop_last() =~= entries);
}

/// All scopes are listed where the scope or the origin is to be shown and none was asked for; then what
/// every scope holds is listed, and else what the one read gave, with its failure.
pub proof fn law_what_is_listed(flags: OutputFlags, use_cascade: bool, reads: Seq<ScopeRead>)
    ensures
        lists_all(flags, use_cascade) <==> use_cascade && (flags.show_scope || flags.show_origin),
        entries_listed(reads, true) == Ok::<Seq<ScopedEntry>, ErrorView>(entries_read(reads)),
        entries_listed(reads, false) == values_read(reads, false),
{
}

/// An entry is listed under its key, with what may be shown of its value and whether it is encrypted;
/// where it is from is told only where that was asked for.
pub proof fn law_entry_is_listed(e: ScopedEntry, flags: OutputFlags, paths: OriginPaths)
    ensures
        !flags.show_scope && !flags.show_origin ==> {
            let l = listed_entry(e, flags, paths);
            &&& l.key == e.entry.key@ && l.value == listed_value(e.entry, flags) && l.encrypted == Some(
                e.entry.encrypted,
            )
            &&& l.origin is None && l.scope is None && l.origin_type is None && l.origin_path is None
        },
        flags.show_scope || flags.show_origin ==> listed_entry(e, flags, paths) == prefixed_entry(
            e.entry.key@,
            listed_value(e.entry, flags),
            e.scope,
            e.entry.encrypted,
            flags,
            paths,
        ),
{
}

/// The records of a list follow one another, one for each entry, with its key and what may be shown of
/// its value.
pub proof fn law_list_has_a_record_for_each_entry(
    a: Seq<ScopedEntry>,
    b: Seq<ScopedEntry>,
    e: ScopedEntry,
    flags: OutputFlags,
    paths: OriginPaths,
)
    ensures
        list_records(a + b, flags, paths) == list_records(a, flags, paths) + list_records(b, flags, paths),
        list_records(seq![e], flags, paths) == record_text(
            e.scope,
            e.entry.key@,
            listed_value(e.entry, flags),
            "="@,
            flags,
            paths,
        ),
        list_records(Seq::empty(), flags, paths) == Seq::<char>::empty(),
    decreases b.len(),
{
    assert(seq![e].drop_last() =~= Seq::<ScopedEntry>::empty());
    assert(list_records(seq![e].drop_last(), flags, paths) =~= Seq::<char>::empty());
    assert(list_records(seq![e], flags, paths) =~= record_text(
        e.scope,
        e.entry.key@,
        listed_value(e.entry, flags),
        "="@,
        flags,
        paths,
    ));
    if b.len() == 0 {
        assert(a + b =~= a);
        assert(list_records(a, flags, paths) + list_records(b, flags, paths) =~= list_records(
            a,
            flags,
            paths,
        ));
    } else {
        assert((a + b).drop_last() =~= a + b.drop_last());
        law_list_has_a_record_for_each_entry(a, b.drop_last(), e, flags, paths);
        assert(list_records(a + b, flags, paths) =~= list_records(a, flags, paths) + list_records(
            b,
            flags,
            paths,
        ));
    }
}

/// A list is refused where its form does not go with the flags, or where it could not be read; else it
/// is of what was asked for.
pub proof fn law_list_is_of_what_was_asked_for(
    rows: ListRows,
    flags: OutputFlags,
    json: bool,
    use_cascade: bool,
)
    ensures
        json && (flags.null || flags.name_only) ==> listing(rows, flags, json, use_cascade) is Err,
        !(json && (flags.null || flags.name_only)) ==> match rows {
            ListRows::SshKeys { rows: read } => {
                &&& read is Err <==> listing(rows, flags, json, use_cascade) is Err
                &&& read matches Ok(v) ==> listing(rows, flags, json, use_cascade) == Ok::<
                    ListReportView,
                    ErrorView,
                >(ListReportView::SshKeys(listed_ssh_keys(v@)))
            },
            ListRows::GpgKeys { rows: read, signing } => {
                &&& read is Err || signing is Err <==> listing(rows, flags, json, use_cascade) is Err
                &&& read matches Ok(v) ==> (signing matches Ok(s) ==> listing(
                    rows,
                    flags,
                    json,
                    use_cascade,
                ) == Ok::<ListReportView, ErrorView>(ListReportView::GpgKeys(listed_gpg_keys(v@, s))))
            },
            ListRows::Vault { reads } => listing(rows, flags, json, use_cascade) == Ok::<
                ListReportView,
                ErrorView,
            >(
                ListReportView::Vault(
                    entries_read(reads@).map_values(|e: ScopedEntry| vault_entry(e)),
                ),
            ),
            ListRows::Values { reads } => match entries_listed(reads@, lists_all(flags, use_cascade)) {
                Ok(entries) => listing(rows, flags, json, use_cascade) == Ok::<ListReportView, ErrorView>(
                    ListReportView::Values(entries),
                ),
                Err(e) => listing(rows, flags, json, use_cascade) == Err::<ListReportView, ErrorView>(e),
            },
        },
{
}

} // verus!
