//! Sources of the form `libra+cloud://<clone-domain>/<slug>`.

use vstd::prelude::*;

use crate::clone::errors::CloneError;
use crate::text::{
    chars_of, concat2, concat3, contains_str, has_infix, is_ascii_alnum, lemma_split_len, lower,
    lower_char, opt_text, split, split_seq, text_eq, texts, to_lower, trim, trim_seq,
};

verus! {

/// What a cloud source names: a site by its slug, or a repository.
#[derive(Debug, Clone, PartialEq, Eq)]
pub enum CloudPublishTarget {
    Slug(String),
    RepoId(String),
}

/// Which revision of a cloud source is checked out.
#[derive(Debug, Clone, PartialEq, Eq)]
pub enum CloudPublishSelector {
    Ref(String),
    Revision(String),
}

/// Where a cloud clone restores from.
#[derive(Debug, Clone, PartialEq, Eq)]
pub struct CloudPublishSource {
    pub clone_domain: String,
    pub target: CloudPublishTarget,
    pub selector: Option<CloudPublishSelector>,
}

pub enum TargetView {
    Slug(Seq<char>),
    RepoId(Seq<char>),
}

pub enum SelectorView {
    Ref(Seq<char>),
    Revision(Seq<char>),
}

/// A [`CloudPublishSource`] with its texts as sequences of characters.
pub struct SourceView {
    pub clone_domain: Seq<char>,
    pub target: TargetView,
    pub selector: Option<SelectorView>,
}

impl View for CloudPublishTarget {
    type V = TargetView;

    open spec fn view(&self) -> TargetView {
        match *self {
            CloudPublishTarget::Slug(s) => TargetView::Slug(s@),
            CloudPublishTarget::RepoId(s) => TargetView::RepoId(s@),
        }
    }
}

impl View for CloudPublishSelector {
    type V = SelectorView;

    open spec fn view(&self) -> SelectorView {
        match *self {
            CloudPublishSelector::Ref(s) => SelectorView::Ref(s@),
            CloudPublishSelector::Revision(s) => SelectorView::Revision(s@),
        }
    }
}

impl View for CloudPublishSource {
    type V = SourceView;

    open spec fn view(&self) -> SourceView {
        SourceView {
            clone_domain: self.clone_domain@,
            target: self.target@,
            selector: match self.selector {
                Some(s) => Some(s@),
                None => None,
            },
        }
    }
}

pub open spec fn target_text(target: TargetView) -> Seq<char> {
    match target {
        TargetView::Slug(slug) => "slug:"@ + slug,
        TargetView::RepoId(repo_id) => "repo:"@ + repo_id,
    }
}

impl CloudPublishSource {
    /// How errors name the target.
    pub fn target_label(&self) -> (r: String)
        ensures
            r@ == target_text(self.target@),
    {
        match &self.target {
            CloudPublishTarget::Slug(slug) => concat2("slug:", slug.as_str()),
            CloudPublishTarget::RepoId(repo_id) => concat2("repo:", repo_id.as_str()),
        }
    }
}

/// The error says that `input` is no cloud source, and why.
pub open spec fn is_invalid_source(e: CloneError, input: Seq<char>, why: Seq<char>) -> bool {
    e matches CloneError::InvalidCloudPublishSource { input: i, reason } && i@ == input && reason@
        == why
}

pub fn invalid_cloud_source(input: &str, reason: &str) -> (r: CloneError)
    ensures
        is_invalid_source(r, input@, reason@),
{
    CloneError::InvalidCloudPublishSource { input: input.to_owned(), reason: reason.to_owned() }
}

pub open spec fn is_label_char(c: char) -> bool {
    is_ascii_alnum(c) || c == '-'
}

/// A label of a domain: letters, digits and inner hyphens, at most 63 of them.
pub open spec fn valid_label(label: Seq<char>) -> bool {
    &&& 0 < label.len() <= 63
    &&& label[0] != '-'
    &&& label.last() != '-'
    &&& forall|i: int| 0 <= i < label.len() ==> is_label_char(#[trigger] label[i])
}

/// A domain: valid labels between dots, at most 253 characters in all.
pub open spec fn valid_domain(domain: Seq<char>) -> bool {
    &&& 0 < domain.len() <= 253
    &&& forall|k: int|
        0 <= k < split_seq(domain, '.').len() ==> valid_label(#[trigger] split_seq(domain, '.')[k])
}

fn alnum(c: char) -> (r: bool)
    ensures
        r == is_ascii_alnum(c),
{
    ('a' <= c && c <= 'z') || ('A' <= c && c <= 'Z') || ('0' <= c && c <= '9')
}

fn label_is_valid(label: &str) -> (r: bool)
    ensures
        r == valid_label(label@),
{
    let cs = chars_of(label);
    let n: usize = cs.len();
    if n == 0 || n > 63 || cs[0] == '-' || cs[n - 1] == '-' {
        return false;
    }
    let mut i: usize = 0;
    while i < n
        invariant
            n == cs@.len(),
            cs@ == label@,
            i <= n,
            forall|k: int| 0 <= k < i ==> is_label_char(#[trigger] label@[k]),
        decreases n - i,
    {
        if !(alnum(cs[i]) || cs[i] == '-') {
            assert(!is_label_char(label@[i as int]));
            return false;
        }
        i = i + 1;
    }
    true
}

pub fn validate_cloud_clone_domain(input: &str, domain: &str) -> (r: Result<(), CloneError>)
    ensures
        match r {
            Ok(_) => valid_domain(domain@),
            Err(e) => !valid_domain(domain@) && is_invalid_source(
                e,
                input@,
                "clone domain is invalid"@,
            ),
        },
{
    let n: usize = domain.unicode_len();
    if n == 0 || n > 253 {
        return Err(invalid_cloud_source(input, "clone domain is invalid"));
    }
    let labels = split(domain, '.');
    let mut i: usize = 0;
    while i < labels.len()
        invariant
            i <= labels@.len(),
            texts(labels@) == split_seq(domain@, '.'),
            0 < domain@.len() <= 253,
            forall|k: int| 0 <= k < i ==> valid_label(#[trigger] split_seq(domain@, '.')[k]),
        decreases labels@.len() - i,
    {
        assert(texts(labels@)[i as int] == labels@[i as int]@);
        if !label_is_valid(labels[i].as_str()) {
            return Err(invalid_cloud_source(input, "clone domain is invalid"));
        }
        i = i + 1;
    }
    assert(texts(labels@).len() == labels@.len());
    Ok(())
}

pub open spec fn is_slug_char(c: char) -> bool {
    is_ascii_alnum(c) || c == '-' || c == '_' || c == '.'
}

/// A slug or a repository id: letters, digits, `-`, `_` and `.`, at most 128 of them, and neither
/// `.` nor `..`.
pub open spec fn valid_slug(s: Seq<char>) -> bool {
    &&& 0 < s.len() <= 128
    &&& s != "."@
    &&& s != ".."@
    &&& forall|i: int| 0 <= i < s.len() ==> is_slug_char(#[trigger] s[i])
}

pub fn validate_cloud_slug(input: &str, value: &str, label: &str) -> (r: Result<(), CloneError>)
    ensures
        match r {
            Ok(_) => valid_slug(value@),
            Err(e) => !valid_slug(value@) && is_invalid_source(
                e,
                input@,
                label@ + " is invalid"@,
            ),
        },
{
    let cs = chars_of(value);
    let n: usize = cs.len();
    let mut ok = n > 0 && n <= 128 && !text_eq(value, ".") && !text_eq(value, "..");
    let mut i: usize = 0;
    while i < n
        invariant
            n == cs@.len(),
            cs@ == value@,
            i <= n,
            ok == (0 < n <= 128 && value@ != "."@ && value@ != ".."@ && forall|k: int|
                0 <= k < i ==> is_slug_char(#[trigger] value@[k])),
        decreases n - i,
    {
        if !(alnum(cs[i]) || cs[i] == '-' || cs[i] == '_' || cs[i] == '.') {
            assert(!is_slug_char(value@[i as int]));
            ok = false;
        }
        i = i + 1;
    }
    if ok {
        return Ok(());
    }
    let reason = concat2(label, " is invalid");
    Err(invalid_cloud_source(input, reason.as_str()))
}

/// A control character.
pub open spec fn is_control(c: char) -> bool {
    (c as u32) < 0x20 || 0x7f <= (c as u32) <= 0x9f
}

pub open spec fn is_ref_char(c: char) -> bool {
    !is_control(c) && c != '?' && c != '#'
}

/// A ref selector: not empty, without space or slash at its ends, `..`, control characters, `?`
/// and `#`.
pub open spec fn valid_ref_selector(s: Seq<char>) -> bool {
    &&& s.len() > 0
    &&& trim_seq(s) == s
    &&& !has_infix(s, ".."@)
    &&& s[0] != '/'
    &&& s.last() != '/'
    &&& forall|i: int| 0 <= i < s.len() ==> is_ref_char(#[trigger] s[i])
}

pub fn validate_cloud_ref_selector(input: &str, value: &str) -> (r: Result<(), CloneError>)
    ensures
        match r {
            Ok(_) => valid_ref_selector(value@),
            Err(e) => !valid_ref_selector(value@) && is_invalid_source(
                e,
                input@,
                "ref selector is invalid"@,
            ),
        },
{
    let cs = chars_of(value);
    let n: usize = cs.len();
    let trimmed = trim(value);
    if n == 0 || !text_eq(trimmed.as_str(), value) || contains_str(value, "..") || cs[0] == '/'
        || cs[n - 1] == '/' {
        return Err(invalid_cloud_source(input, "ref selector is invalid"));
    }
    let mut i: usize = 0;
    while i < n
        invariant
            n == cs@.len(),
            cs@ == value@,
            i <= n,
            forall|k: int| 0 <= k < i ==> is_ref_char(#[trigger] value@[k]),
        decreases n - i,
    {
        let c = cs[i];
        if (c as u32) < 0x20 || (0x7f <= (c as u32) && (c as u32) <= 0x9f) || c == '?' || c == '#' {
            assert(!is_ref_char(value@[i as int]));
            return Err(invalid_cloud_source(input, "ref selector is invalid"));
        }
        i = i + 1;
    }
    Ok(())
}

pub open spec fn is_revision_char(c: char) -> bool {
    ('0' <= c <= '9') || ('a' <= c <= 'f')
}

/// A revision selector: `latest`, or 4 to 64 lower-case hexadecimal digits.
pub open spec fn valid_revision_selector(s: Seq<char>) -> bool {
    s == "latest"@ || (4 <= s.len() <= 64 && forall|i: int|
        0 <= i < s.len() ==> is_revision_char(#[trigger] s[i]))
}

pub fn validate_cloud_revision_selector(input: &str, value: &str) -> (r: Result<(), CloneError>)
    ensures
        match r {
            Ok(_) => valid_revision_selector(value@),
            Err(e) => !valid_revision_selector(value@) && is_invalid_source(
                e,
                input@,
                "revision selector is invalid"@,
            ),
        },
{
    if text_eq(value, "latest") {
        return Ok(());
    }
    let cs = chars_of(value);
    let n: usize = cs.len();
    if n < 4 || n > 64 {
        return Err(invalid_cloud_source(input, "revision selector is invalid"));
    }
    let mut i: usize = 0;
    while i < n
        invariant
            n == cs@.len(),
            cs@ == value@,
            value@ != "latest"@,
            i <= n,
            forall|k: int| 0 <= k < i ==> is_revision_char(#[trigger] value@[k]),
        decreases n - i,
    {
        if !(('0' <= cs[i] && cs[i] <= '9') || ('a' <= cs[i] && cs[i] <= 'f')) {
            assert(!is_revision_char(value@[i as int]));
            return Err(invalid_cloud_source(input, "revision selector is invalid"));
        }
        i = i + 1;
    }
    Ok(())
}

/// One parameter of a query.
#[derive(Debug, Clone)]
pub struct QueryPair {
    pub key: String,
    pub value: String,
}

/// The parts of a URL that a cloud source is read from.
#[derive(Debug, Clone)]
pub struct ParsedUrl {
    pub scheme: String,
    pub host: Option<String>,
    pub segments: Vec<String>,
    pub query: Vec<QueryPair>,
}

/// Scheme, host, path segments and query parameters of a URL.
pub type UrlParts = (Seq<char>, Option<Seq<char>>, Seq<Seq<char>>, Seq<(Seq<char>, Seq<char>)>);

pub open spec fn pair_views(pairs: Seq<QueryPair>) -> Seq<(Seq<char>, Seq<char>)> {
    pairs.map_values(|p: QueryPair| (p.key@, p.value@))
}

impl View for ParsedUrl {
    type V = UrlParts;

    open spec fn view(&self) -> UrlParts {
        (self.scheme@, opt_text(self.host), texts(self.segments@), pair_views(self.query@))
    }
}

/// What `url` reads in a text: the parts of a URL, or why it is none.
pub uninterp spec fn url_parts(input: Seq<char>) -> Result<UrlParts, Seq<char>>;

/// `Url::parse`, and `scheme`, `host_str`, `path_segments` and `query_pairs` of the URL; without
/// path segments the list is empty. The segments are as the URL has them, the query decoded.
#[verifier::external_body]
fn parse_url(input: &str) -> (r: Result<ParsedUrl, String>)
    ensures
        match r {
            Ok(u) => url_parts(input@) == Ok::<UrlParts, Seq<char>>(u@),
            Err(e) => url_parts(input@) == Err::<UrlParts, Seq<char>>(e@),
        },
{
    match url::Url::parse(input) {
        Ok(u) => Ok(ParsedUrl {
            scheme: u.scheme().to_string(),
            host: u.host_str().map(|h| h.to_string()),
            segments: u.path_segments().map(|s| s.map(|p| p.to_string()).collect()).unwrap_or_default(),
            query: u.query_pairs().map(|(k, v)| QueryPair { key: k.into_owned(), value: v.into_owned() }).collect(),
        }),
        Err(error) => Err(error.to_string()),
    }
}

/// The ref and revision selectors of a query, or what is wrong with it. The first fault counts.
pub open spec fn selectors(pairs: Seq<(Seq<char>, Seq<char>)>) -> Result<
    (Option<Seq<char>>, Option<Seq<char>>),
    Seq<char>,
>
    decreases pairs.len(),
{
    if pairs.len() == 0 {
        Ok((None, None))
    } else {
        match selectors(pairs.drop_last()) {
            Err(e) => Err(e),
            Ok((by_ref, by_revision)) => {
                let (key, value) = pairs.last();
                if key == "ref"@ {
                    if by_ref is Some {
                        Err("ref selector appears more than once"@)
                    } else {
                        Ok((Some(value), by_revision))
                    }
                } else if key == "revision"@ {
                    if by_revision is Some {
                        Err("revision selector appears more than once"@)
                    } else {
                        Ok((by_ref, Some(value)))
                    }
                } else {
                    Err("unsupported query parameter '"@ + key + "'"@)
                }
            },
        }
    }
}

/// The selector that a query names, or what is wrong with it.
pub open spec fn query_selector(pairs: Seq<(Seq<char>, Seq<char>)>) -> Result<
    Option<SelectorView>,
    Seq<char>,
> {
    match selectors(pairs) {
        Err(e) => Err(e),
        Ok((Some(_), Some(_))) => Err("ref and revision selectors are mutually exclusive"@),
        Ok((Some(s), None)) => if valid_ref_selector(s) {
            Ok(Some(SelectorView::Ref(s)))
        } else {
            Err("ref selector is invalid"@)
        },
        Ok((None, Some(s))) => if valid_revision_selector(s) {
            Ok(Some(SelectorView::Revision(s)))
        } else {
            Err("revision selector is invalid"@)
        },
        Ok((None, None)) => Ok(None),
    }
}

/// The target that a path names: `/<slug>` or `/repo/<repo_id>`.
pub open spec fn path_target(segments: Seq<Seq<char>>) -> Result<TargetView, Seq<char>> {
    if segments.len() == 0 || (segments.len() == 1 && segments[0] == ""@) {
        Err("slug or repo_id is required"@)
    } else if segments.len() == 1 {
        if valid_slug(segments[0]) {
            Ok(TargetView::Slug(segments[0]))
        } else {
            Err("slug"@ + " is invalid"@)
        }
    } else if segments.len() == 2 && segments[0] == "repo"@ {
        if valid_slug(segments[1]) {
            Ok(TargetView::RepoId(segments[1]))
        } else {
            Err("repo_id"@ + " is invalid"@)
        }
    } else {
        Err("path must be /<slug> or /repo/<repo_id>"@)
    }
}

/// The cloud source that a URL names, or why it names none.
pub open spec fn url_source(parts: UrlParts) -> Result<SourceView, Seq<char>> {
    if parts.0 != "libra+cloud"@ {
        Err("scheme must be libra+cloud"@)
    } else {
        match parts.1 {
            None => Err("clone domain is required"@),
            Some(domain) => if !valid_domain(domain) {
                Err("clone domain is invalid"@)
            } else {
                match path_target(parts.2) {
                    Err(e) => Err(e),
                    Ok(target) => match query_selector(parts.3) {
                        Err(e) => Err(e),
                        Ok(selector) => Ok(
                            SourceView { clone_domain: lower(domain), target, selector },
                        ),
                    },
                }
            },
        }
    }
}

fn target_of_path(input: &str, segments: &Vec<String>) -> (r: Result<CloudPublishTarget, CloneError>)
    ensures
        match (r, path_target(texts(segments@))) {
            (Ok(t), Ok(want)) => t@ == want,
            (Err(e), Err(why)) => is_invalid_source(e, input@, why),
            _ => false,
        },
{
    let n: usize = segments.len();
    proof {
        if n > 0 {
            assert(texts(segments@)[0] == segments@[0]@);
        }
        if n > 1 {
            assert(texts(segments@)[1] == segments@[1]@);
        }
    }
    if n == 0 {
        return Err(invalid_cloud_source(input, "slug or repo_id is required"));
    }
    if n == 1 {
        if text_eq(segments[0].as_str(), "") {
            return Err(invalid_cloud_source(input, "slug or repo_id is required"));
        }
        return match validate_cloud_slug(input, segments[0].as_str(), "slug") {
            Ok(_) => Ok(CloudPublishTarget::Slug(segments[0].clone())),
            Err(e) => Err(e),
        };
    }
    if n == 2 && text_eq(segments[0].as_str(), "repo") {
        return match validate_cloud_slug(input, segments[1].as_str(), "repo_id") {
            Ok(_) => Ok(CloudPublishTarget::RepoId(segments[1].clone())),
            Err(e) => Err(e),
        };
    }
    Err(invalid_cloud_source(input, "path must be /<slug> or /repo/<repo_id>"))
}

fn selector_of_query(input: &str, query: &Vec<QueryPair>) -> (r: Result<
    Option<CloudPublishSelector>,
    CloneError,
>)
    ensures
        match (r, query_selector(pair_views(query@))) {
            (Ok(None), Ok(None)) => true,
            (Ok(Some(s)), Ok(Some(want))) => s@ == want,
            (Err(e), Err(why)) => is_invalid_source(e, input@, why),
            _ => false,
        },
{
    let ghost all = pair_views(query@);
    let mut by_ref: Option<String> = None;
    let mut by_revision: Option<String> = None;
    let mut i: usize = 0;
    assert(all.take(0) =~= Seq::<(Seq<char>, Seq<char>)>::empty());
    while i < query.len()
        invariant
            i <= query@.len(),
            all == pair_views(query@),
            selectors(all.take(i as int)) == Ok::<_, Seq<char>>(
                (opt_text(by_ref), opt_text(by_revision)),
            ),
        decreases query@.len() - i,
    {
        proof {
            assert(all.take(i as int + 1).drop_last() =~= all.take(i as int));
            assert(all.take(i as int + 1).last() == (query@[i as int].key@, query@[i as int].value@));
            lemma_selectors_prefix(all, i as int + 1);
        }
        let key = query[i].key.as_str();
        if text_eq(key, "ref") {
            if by_ref.is_some() {
                return Err(invalid_cloud_source(input, "ref selector appears more than once"));
            }
            by_ref = Some(query[i].value.clone());
        } else if text_eq(key, "revision") {
            if by_revision.is_some() {
                return Err(
                    invalid_cloud_source(input, "revision selector appears more than once"),
                );
            }
            by_revision = Some(query[i].value.clone());
        } else {
            let reason = concat3("unsupported query parameter '", key, "'");
            return Err(invalid_cloud_source(input, reason.as_str()));
        }
        i = i + 1;
    }
    assert(all.take(all.len() as int) =~= all);
    match (by_ref, by_revision) {
        (Some(_), Some(_)) => Err(
            invalid_cloud_source(input, "ref and revision selectors are mutually exclusive"),
        ),
        (Some(s), None) => match validate_cloud_ref_selector(input, s.as_str()) {
            Ok(_) => Ok(Some(CloudPublishSelector::Ref(s))),
            Err(e) => Err(e),
        },
        (None, Some(s)) => match validate_cloud_revision_selector(input, s.as_str()) {
            Ok(_) => Ok(Some(CloudPublishSelector::Revision(s))),
            Err(e) => Err(e),
        },
        (None, None) => Ok(None),
    }
}

proof fn lemma_selectors_prefix(pairs: Seq<(Seq<char>, Seq<char>)>, n: int)
    requires
        0 <= n <= pairs.len(),
    ensures
        selectors(pairs.take(n)) matches Err(e) ==> selectors(pairs) == Err::<
            (Option<Seq<char>>, Option<Seq<char>>),
            Seq<char>,
        >(e),
    decreases pairs.len(),
{
    if n < pairs.len() {
        assert(pairs.drop_last().take(n) =~= pairs.take(n));
        lemma_selectors_prefix(pairs.drop_last(), n);
    } else {
        assert(pairs.take(n) =~= pairs);
    }
}

/// The cloud source that a URL names. `input` is the text that it was read from.
pub fn cloud_source_of_url(input: &str, url: &ParsedUrl) -> (r: Result<CloudPublishSource, CloneError>)
    ensures
        match (r, url_source(url@)) {
            (Ok(s), Ok(want)) => s@ == want,
            (Err(e), Err(why)) => is_invalid_source(e, input@, why),
            _ => false,
        },
{
    if !text_eq(url.scheme.as_str(), "libra+cloud") {
        return Err(invalid_cloud_source(input, "scheme must be libra+cloud"));
    }
    let domain = match &url.host {
        Some(domain) => domain,
        None => {
            return Err(invalid_cloud_source(input, "clone domain is required"));
        },
    };
    match validate_cloud_clone_domain(input, domain.as_str()) {
        Ok(_) => {},
        Err(e) => {
            return Err(e);
        },
    }
    let target = match target_of_path(input, &url.segments) {
        Ok(target) => target,
        Err(e) => {
            return Err(e);
        },
    };
    let selector = match selector_of_query(input, &url.query) {
        Ok(selector) => selector,
        Err(e) => {
            return Err(e);
        },
    };
    Ok(CloudPublishSource { clone_domain: to_lower(domain.as_str()), target, selector })
}

/// Parse a `libra+cloud://` source.
pub fn parse_cloud_publish_source(input: &str) -> (r: Result<CloudPublishSource, CloneError>)
    ensures
        match url_parts(input@) {
            Err(detail) => r matches Err(e) && is_invalid_source(
                e,
                input@,
                "URL parse failed: "@ + detail,
            ),
            Ok(parts) => match (r, url_source(parts)) {
                (Ok(s), Ok(want)) => s@ == want,
                (Err(e), Err(why)) => is_invalid_source(e, input@, why),
                _ => false,
            },
        },
{
    match parse_url(input) {
        Ok(url) => cloud_source_of_url(input, &url),
        Err(detail) => {
            let reason = concat2("URL parse failed: ", detail.as_str());
            Err(invalid_cloud_source(input, reason.as_str()))
        },
    }
}

/// A source names a valid domain in lower case, a valid slug or repository id, and a valid
/// selector if any.
pub proof fn law_cloud_source_is_valid(parts: UrlParts)
    ensures
        url_source(parts) matches Ok(s) ==> {
            &&& valid_domain(s.clone_domain)
            &&& lower(s.clone_domain) == s.clone_domain
            &&& match s.target {
                TargetView::Slug(slug) => valid_slug(slug),
                TargetView::RepoId(id) => valid_slug(id),
            }
            &&& match s.selector {
                Some(SelectorView::Ref(name)) => valid_ref_selector(name),
                Some(SelectorView::Revision(id)) => valid_revision_selector(id),
                None => parts.3.len() == 0,
            }
        },
{
    if let Ok(s) = url_source(parts) {
        assert(lower(s.clone_domain) =~= s.clone_domain);
        lemma_lower_domain(parts.1->Some_0);
        if s.selector is None {
            lemma_no_selector(parts.3);
        }
    }
}

proof fn lemma_lower_split(s: Seq<char>)
    ensures
        split_seq(lower(s), '.').len() == split_seq(s, '.').len(),
        forall|k: int|
            0 <= k < split_seq(s, '.').len() ==> #[trigger] split_seq(lower(s), '.')[k] == lower(
                split_seq(s, '.')[k],
            ),
    decreases s.len(),
{
    if s.len() > 0 {
        let init = s.drop_last();
        lemma_lower_split(init);
        lemma_split_len(init, '.');
        assert(lower(s).drop_last() =~= lower(init));
        assert forall|k: int| 0 <= k < split_seq(s, '.').len() implies #[trigger] split_seq(
            lower(s),
            '.',
        )[k] == lower(split_seq(s, '.')[k]) by {
            let head = split_seq(init, '.');
            if s.last() == '.' {
                if k == head.len() {
                    assert(lower(Seq::<char>::empty()) =~= Seq::<char>::empty());
                } else {
                    assert(split_seq(lower(init), '.')[k] == lower(head[k]));
                }
            } else {
                assert(split_seq(lower(init), '.')[k] == lower(head[k]));
                if k == head.len() - 1 {
                    assert(lower(head[k].push(s.last())) =~= lower(head[k]).push(
                        lower_char(s.last()),
                    ));
                }
            }
        }
    } else {
        assert(lower(s) =~= s);
    }
}

proof fn lemma_lower_domain(domain: Seq<char>)
    requires
        valid_domain(domain),
    ensures
        valid_domain(lower(domain)),
{
    lemma_lower_split(domain);
    assert forall|k: int| 0 <= k < split_seq(lower(domain), '.').len() implies valid_label(
        #[trigger] split_seq(lower(domain), '.')[k],
    ) by {
        let label = split_seq(domain, '.')[k];
        assert(valid_label(label));
        assert forall|i: int| 0 <= i < label.len() implies is_label_char(#[trigger] lower(label)[i]) by {
            assert(is_label_char(label[i]));
        }
    }
}

proof fn lemma_no_selector(pairs: Seq<(Seq<char>, Seq<char>)>)
    ensures
        selectors(pairs) == Ok::<(Option<Seq<char>>, Option<Seq<char>>), Seq<char>>((None, None))
            ==> pairs.len() == 0,
{
}

/// What names a clone domain, a site, a ref or a revision: a domain is of labels of letters, digits and
/// inner dashes, a site's name of letters, digits, dashes, underscores and dots, and a revision of four
/// to sixty-four digits unless it is the latest.
pub proof fn law_valid_names(s: Seq<char>)
    ensures
        valid_label(s) <==> 1 <= s.len() <= 63 && s[0] != '-' && s[s.len() - 1] != '-' && forall|i: int|
            0 <= i < s.len() ==> ('a' <= #[trigger] s[i] <= 'z') || ('A' <= s[i] <= 'Z') || ('0' <= s[i]
                <= '9') || s[i] == '-',
        valid_slug(s) <==> 1 <= s.len() <= 128 && s != "."@ && s != ".."@ && forall|i: int|
            0 <= i < s.len() ==> ('a' <= #[trigger] s[i] <= 'z') || ('A' <= s[i] <= 'Z') || ('0' <= s[i]
                <= '9') || s[i] == '-' || s[i] == '_' || s[i] == '.',
        valid_revision_selector(s) <==> s == "latest"@ || (4 <= s.len() <= 64 && forall|i: int|
            0 <= i < s.len() ==> ('0' <= #[trigger] s[i] <= '9') || ('a' <= s[i] <= 'f')),
        valid_ref_selector(s) <==> s.len() >= 1 && trim_seq(s) == s && !has_infix(s, ".."@) && s[0] != '/'
            && s[s.len() - 1] != '/' && forall|i: int|
            0 <= i < s.len() ==> #[trigger] s[i] != '?' && s[i] != '#' && s[i] as u32 >= 0x20 && !(0x7f
                <= s[i] as u32 <= 0x9f),
        valid_domain(s) <==> 1 <= s.len() <= 253 && forall|k: int|
            0 <= k < split_seq(s, '.').len() ==> valid_label(#[trigger] split_seq(s, '.')[k]),
{
    assert((forall|i: int| 0 <= i < s.len() ==> is_label_char(#[trigger] s[i])) <==> (forall|i: int|
        0 <= i < s.len() ==> ('a' <= #[trigger] s[i] <= 'z') || ('A' <= s[i] <= 'Z') || ('0' <= s[i] <= '9')
            || s[i] == '-'));
    assert((forall|i: int| 0 <= i < s.len() ==> is_slug_char(#[trigger] s[i])) <==> (forall|i: int|
        0 <= i < s.len() ==> ('a' <= #[trigger] s[i] <= 'z') || ('A' <= s[i] <= 'Z') || ('0' <= s[i] <= '9')
            || s[i] == '-' || s[i] == '_' || s[i] == '.'));
    assert((forall|i: int| 0 <= i < s.len() ==> is_revision_char(#[trigger] s[i])) <==> (forall|i: int|
        0 <= i < s.len() ==> ('0' <= #[trigger] s[i] <= '9') || ('a' <= s[i] <= 'f')));
    assert((forall|i: int| 0 <= i < s.len() ==> is_ref_char(#[trigger] s[i])) <==> (forall|i: int|
        0 <= i < s.len() ==> #[trigger] s[i] != '?' && s[i] != '#' && s[i] as u32 >= 0x20 && !(0x7f
            <= s[i] as u32 <= 0x9f)));
}

/// A source is taken from the address as it stands there: the domain in lower case, the site by the one
/// part of the path or by the part after `repo`, and the selector by the one parameter.
pub proof fn law_source_is_what_the_address_says(parts: UrlParts)
    ensures
        url_source(parts) matches Ok(s) ==> {
            &&& parts.0 == "libra+cloud"@
            &&& parts.1 matches Some(domain) && valid_domain(domain) && s.clone_domain == lower(domain)
            &&& s.target matches TargetView::Slug(slug) ==> parts.2 == seq![slug]
            &&& s.target matches TargetView::RepoId(id) ==> parts.2 == seq!["repo"@, id]
            &&& s.selector matches Some(SelectorView::Ref(name)) ==> parts.3 == seq![("ref"@, name)]
            &&& s.selector matches Some(SelectorView::Revision(id)) ==> parts.3 == seq![("revision"@, id)]
            &&& s.selector is None ==> parts.3.len() == 0
        },
{
    if url_source(parts) is Ok {
        lemma_selectors_len(parts.3);
        let s = url_source(parts)->Ok_0;
        match s.target {
            TargetView::Slug(slug) => {
                assert(parts.2 =~= seq![slug]);
            },
            TargetView::RepoId(id) => {
                assert(parts.2 =~= seq!["repo"@, id]);
            },
        }
        if parts.3.len() == 1 {
            assert(selectors(parts.3.drop_last()) == Ok::<
                (Option<Seq<char>>, Option<Seq<char>>),
                Seq<char>,
            >((None, None)));
            reveal_strlit("ref");
            reveal_strlit("revision");
            assert("ref"@.len() == 3 && "revision"@.len() == 8);
            match s.selector {
                Some(SelectorView::Ref(name)) => {
                    assert(parts.3 =~= seq![("ref"@, name)]);
                },
                Some(SelectorView::Revision(id)) => {
                    assert(parts.3 =~= seq![("revision"@, id)]);
                },
                None => {},
            }
        }
    }
}

proof fn lemma_selectors_len(pairs: Seq<(Seq<char>, Seq<char>)>)
    ensures
        selectors(pairs) matches Ok((by_ref, by_revision)) ==> pairs.len() == (if by_ref is Some {
            1int
        } else {
            0
        }) + (if by_revision is Some {
            1int
        } else {
            0
        }),
    decreases pairs.len(),
{
    if pairs.len() > 0 {
        lemma_selectors_len(pairs.drop_last());
    }
}

/// An address is a source where it is of the cloud's scheme and its domain, its site and its selector
/// are valid: it may name a site by its short name or its repository, and a ref, a revision or neither.
pub proof fn law_valid_address_is_a_source(domain: Seq<char>, name: Seq<char>, selector: Seq<char>)
    requires
        valid_domain(domain),
        valid_slug(name),
        name != ""@,
    ensures
        url_source(("libra+cloud"@, Some(domain), seq![name], seq![])) == Ok::<SourceView, Seq<char>>(
            (SourceView { clone_domain: lower(domain), target: TargetView::Slug(name), selector: None }),
        ),
        url_source(("libra+cloud"@, Some(domain), seq!["repo"@, name], seq![])) == Ok::<
            SourceView,
            Seq<char>,
        >((SourceView { clone_domain: lower(domain), target: TargetView::RepoId(name), selector: None })),
        valid_ref_selector(selector) ==> url_source(
            ("libra+cloud"@, Some(domain), seq![name], seq![("ref"@, selector)]),
        ) == Ok::<SourceView, Seq<char>>(
            (SourceView {
                clone_domain: lower(domain),
                target: TargetView::Slug(name),
                selector: Some(SelectorView::Ref(selector)),
            }),
        ),
        valid_revision_selector(selector) ==> url_source(
            ("libra+cloud"@, Some(domain), seq![name], seq![("revision"@, selector)]),
        ) == Ok::<SourceView, Seq<char>>(
            (SourceView {
                clone_domain: lower(domain),
                target: TargetView::Slug(name),
                selector: Some(SelectorView::Revision(selector)),
            }),
        ),
{
    let none = Seq::<(Seq<char>, Seq<char>)>::empty();
    assert(seq![("ref"@, selector)].drop_last() =~= none);
    assert(seq![("revision"@, selector)].drop_last() =~= none);
    assert(selectors(none) == Ok::<(Option<Seq<char>>, Option<Seq<char>>), Seq<char>>((None, None)));
    reveal_strlit("ref");
    reveal_strlit("revision");
    assert("ref"@.len() == 3 && "revision"@.len() == 8);
    assert(selectors(seq![("ref"@, selector)]) == Ok::<(Option<Seq<char>>, Option<Seq<char>>), Seq<char>>(
        (Some(selector), None),
    ));
    assert(selectors(seq![("revision"@, selector)]) == Ok::<
        (Option<Seq<char>>, Option<Seq<char>>),
        Seq<char>,
    >((None, Some(selector))));
}

/// A site is asked for by its short name or its repository, and the two are told apart.
pub proof fn law_name_of_a_target(name: Seq<char>)
    ensures
        target_text(TargetView::Slug(name)) == "slug:"@ + name,
        target_text(TargetView::RepoId(name)) == "repo:"@ + name,
{
}

} // verus!
