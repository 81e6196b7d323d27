//! Restoring a published site: what is looked up, what is checked out, what must agree.

use vstd::prelude::*;

use crate::clone::errors::CloneError;
use crate::clone::source::{
    target_text, CloudPublishSelector, CloudPublishSource, CloudPublishTarget, SelectorView,
    SourceView, TargetView,
};
use crate::hexadecimal::{bytes_hex, hex_decode, hex_fault_text, is_hex_pairs, lemma_bytes_hex};
use crate::object::{
    is_hex_char, is_object_text, law_object_name_has_its_digits, object_id_of_text, HashKind,
    ObjectId,
};
use crate::paths::{in_order, sort_texts};
use crate::text::{
    concat2, concat4, decimal, has_prefix, join, join_seq, lower, lower_char, opt_text,
    strip_prefix, text_eq, texts, usize_text,
};

verus! {

/// A failed query of the metadata service.
#[derive(Debug, Clone)]
pub struct D1Error {
    pub code: i32,
    pub message: String,
}

/// A published site.
#[derive(Debug, Clone)]
pub struct PublishSiteRow {
    pub site_id: String,
    pub repo_id: String,
    pub slug: String,
    pub status: String,
    pub default_ref: Option<String>,
    pub latest_revision_oid: Option<String>,
}

/// A repository that a site publishes.
#[derive(Debug, Clone)]
pub struct RepositoryRow {
    pub name: String,
}

/// A published branch or tag.
#[derive(Debug, Clone)]
pub struct PublishRefRow {
    pub ref_name: String,
    pub short_name: String,
    pub revision_oid: String,
}

/// A published revision.
#[derive(Debug, Clone)]
pub struct PublishRevisionRow {
    pub revision_oid: String,
    pub status: String,
    pub ai_index_key: Option<String>,
    pub ai_object_count: i64,
    pub ai_bundle_count: i64,
}

/// An object that must be restored.
#[derive(Debug, Clone)]
pub struct ObjectIndexRow {
    pub o_id: String,
}

/// How a checkout target was selected.
#[derive(Debug, Clone, Copy, PartialEq, Eq, Structural)]
pub enum CloudPublishCheckoutSelectorKind {
    DefaultRef,
    Ref,
    LatestRevision,
    Revision,
}

/// The revision to check out, and the ref that names it.
#[derive(Debug, Clone, PartialEq, Eq)]
pub struct CloudPublishCheckoutTarget {
    pub revision_oid: String,
    pub ref_name: Option<String>,
    pub selector_kind: CloudPublishCheckoutSelectorKind,
}

/// A [`CloudPublishCheckoutTarget`] with its texts as sequences of characters.
pub struct CheckoutView {
    pub revision_oid: Seq<char>,
    pub ref_name: Option<Seq<char>>,
    pub selector_kind: CloudPublishCheckoutSelectorKind,
}

impl View for CloudPublishCheckoutTarget {
    type V = CheckoutView;

    open spec fn view(&self) -> CheckoutView {
        CheckoutView {
            revision_oid: self.revision_oid@,
            ref_name: opt_text(self.ref_name),
            selector_kind: self.selector_kind,
        }
    }
}

/// How errors name a site that was found.
pub open spec fn site_label(source: SourceView, site: PublishSiteRow) -> Seq<char> {
    match source.target {
        TargetView::Slug(_) => "slug:"@ + site.slug@,
        TargetView::RepoId(_) => "repo:"@ + site.repo_id@,
    }
}

pub fn site_target_label(source: &CloudPublishSource, site: &PublishSiteRow) -> (r: String)
    ensures
        r@ == site_label(source@, *site),
{
    match &source.target {
        CloudPublishTarget::Slug(_) => concat2("slug:", site.slug.as_str()),
        CloudPublishTarget::RepoId(_) => concat2("repo:", site.repo_id.as_str()),
    }
}

/// The site must exist and be active.
pub fn resolve_cloud_publish_site(
    source: &CloudPublishSource,
    found: Result<Option<PublishSiteRow>, D1Error>,
) -> (r: Result<PublishSiteRow, CloneError>)
    ensures
        match found {
            Err(d1) => r matches Err(CloneError::CloudPublishSiteLookupFailed { domain, target, code, message })
                && domain@ == source.clone_domain@ && target@ == target_text(source.target@) && code
                == d1.code && message@ == d1.message@,
            Ok(None) => r matches Err(CloneError::CloudPublishSiteNotFound { domain, target })
                && domain@ == source.clone_domain@ && target@ == target_text(source.target@),
            Ok(Some(site)) => if site.status@ == "active"@ {
                r == Ok::<PublishSiteRow, CloneError>(site)
            } else {
                r matches Err(CloneError::CloudPublishSiteUnavailable { domain, target, status })
                    && domain@ == source.clone_domain@ && target@ == target_text(source.target@)
                    && status@ == site.status@
            },
        },
{
    let target = source.target_label();
    match found {
        Err(d1) => Err(
            CloneError::CloudPublishSiteLookupFailed {
                domain: source.clone_domain.clone(),
                target,
                code: d1.code,
                message: d1.message,
            },
        ),
        Ok(None) => Err(
            CloneError::CloudPublishSiteNotFound { domain: source.clone_domain.clone(), target },
        ),
        Ok(Some(site)) => {
            if text_eq(site.status.as_str(), "active") {
                Ok(site)
            } else {
                Err(
                    CloneError::CloudPublishSiteUnavailable {
                        domain: source.clone_domain.clone(),
                        target,
                        status: site.status,
                    },
                )
            }
        },
    }
}

/// The error tells which lookup of a site failed.
pub open spec fn is_lookup_fault(
    e: CloneError,
    source: SourceView,
    site: PublishSiteRow,
    during: Seq<char>,
    d1: D1Error,
) -> bool {
    e matches CloneError::CloudPublishMetadataLookupFailed { domain, site_id, operation, code, message }
        && domain@ == source.clone_domain && site_id@ == site.site_id@ && operation@ == during && code
        == d1.code && message@ == d1.message@
}

fn lookup_fault(
    source: &CloudPublishSource,
    site: &PublishSiteRow,
    operation: &'static str,
    d1: &D1Error,
) -> (r: CloneError)
    ensures
        is_lookup_fault(r, source@, *site, operation@, *d1),
{
    CloneError::CloudPublishMetadataLookupFailed {
        domain: source.clone_domain.clone(),
        site_id: site.site_id.clone(),
        operation,
        code: d1.code,
        message: d1.message.clone(),
    }
}

pub open spec fn named_refs(refs: Seq<PublishRefRow>, name: Seq<char>, short: bool) -> Seq<PublishRefRow>
    decreases refs.len(),
{
    if refs.len() == 0 {
        Seq::empty()
    } else {
        let head = named_refs(refs.drop_last(), name, short);
        let row = refs.last();
        if (if short {
            row.short_name@
        } else {
            row.ref_name@
        }) == name {
            head.push(row)
        } else {
            head
        }
    }
}

/// The refs that a selector means: those of that full name, and only where there is none those of
/// that short name.
pub open spec fn matching_refs(refs: Seq<PublishRefRow>, selector: Seq<char>) -> Seq<PublishRefRow> {
    if named_refs(refs, selector, false).len() > 0 {
        named_refs(refs, selector, false)
    } else {
        named_refs(refs, selector, true)
    }
}

/// The rows are those, in that order.
pub open spec fn rows_are(rows: Seq<&PublishRefRow>, want: Seq<PublishRefRow>) -> bool {
    rows.len() == want.len() && forall|i: int| 0 <= i < rows.len() ==> *(#[trigger] rows[i]) == want[i]
}

fn collect_refs<'a>(refs: &'a Vec<PublishRefRow>, name: &str, short: bool) -> (r: Vec<&'a PublishRefRow>)
    ensures
        rows_are(r@, named_refs(refs@, name@, short)),
{
    let mut out: Vec<&'a PublishRefRow> = Vec::new();
    let ghost all = refs@;
    let mut i: usize = 0;
    assert(all.take(0) =~= Seq::<PublishRefRow>::empty());
    while i < refs.len()
        invariant
            i <= refs@.len(),
            all == refs@,
            rows_are(out@, named_refs(all.take(i as int), name@, short)),
        decreases refs@.len() - i,
    {
        let ghost before = out@;
        proof {
            assert(all.take(i as int + 1).drop_last() =~= all.take(i as int));
            assert(all.take(i as int + 1).last() == all[i as int]);
        }
        let same = if short {
            text_eq(refs[i].short_name.as_str(), name)
        } else {
            text_eq(refs[i].ref_name.as_str(), name)
        };
        if same {
            out.push(&refs[i]);
        }
        i = i + 1;
    }
    assert(all.take(all.len() as int) =~= all);
    out
}

pub fn matching_cloud_publish_refs<'a>(refs: &'a Vec<PublishRefRow>, selector: &str) -> (r: Vec<
    &'a PublishRefRow,
>)
    ensures
        rows_are(r@, matching_refs(refs@, selector@)),
{
    let exact = collect_refs(refs, selector, false);
    if !exact.is_empty() {
        return exact;
    }
    collect_refs(refs, selector, true)
}

/// The first ref of that full name.
pub open spec fn first_ref(refs: Seq<PublishRefRow>, name: Seq<char>) -> Option<PublishRefRow>
    decreases refs.len(),
{
    if refs.len() == 0 {
        None
    } else if refs[0].ref_name@ == name {
        Some(refs[0])
    } else {
        first_ref(refs.drop_first(), name)
    }
}

/// The error tells that a selector matches no ref.
pub open spec fn is_unmatched(e: CloneError, source: SourceView, name: Seq<char>) -> bool {
    e matches CloneError::CloudPublishRefNotFound { domain, target, selector } && domain@
        == source.clone_domain && target@ == target_text(source.target) && selector@ == name
}

/// The error lists the refs that a selector may mean, in order.
pub open spec fn is_ambiguous(
    e: CloneError,
    source: SourceView,
    name: Seq<char>,
    names: Seq<Seq<char>>,
) -> bool {
    e matches CloneError::CloudPublishRefAmbiguous { domain, target, selector, matches: list } && domain@
        == source.clone_domain && target@ == target_text(source.target) && selector@ == name
        && exists|sorted: Seq<Seq<char>>| is_sorted_list(list@, sorted, names)
}

pub open spec fn is_sorted_list(list: Seq<char>, sorted: Seq<Seq<char>>, names: Seq<Seq<char>>) -> bool {
    list == join_seq(sorted, ", "@) && in_order(false, sorted) && sorted.to_multiset()
        == names.to_multiset()
}

pub open spec fn ref_names(rows: Seq<PublishRefRow>) -> Seq<Seq<char>> {
    rows.map_values(|row: PublishRefRow| row.ref_name@)
}

/// What is checked out: the default ref of the site; or the one ref that the selector means; or the
/// revision that it names, `latest` being the one of the site.
pub open spec fn is_checkout(
    r: Result<CloudPublishCheckoutTarget, CloneError>,
    source: SourceView,
    site: PublishSiteRow,
    refs: Seq<PublishRefRow>,
) -> bool {
    if refs.len() == 0 {
        r matches Err(CloneError::CloudPublishRefsMissing { domain, target }) && domain@
            == source.clone_domain && target@ == target_text(source.target)
    } else {
        match source.selector {
            None => match site.default_ref {
                None => r matches Err(CloneError::CloudPublishDefaultRefMissing { domain, target })
                    && domain@ == source.clone_domain && target@ == target_text(source.target),
                Some(name) => match (r, first_ref(refs, name@)) {
                    (Ok(t), Some(row)) => t@ == (CheckoutView {
                        revision_oid: row.revision_oid@,
                        ref_name: Some(row.ref_name@),
                        selector_kind: CloudPublishCheckoutSelectorKind::DefaultRef,
                    }),
                    (Err(e), None) => is_unmatched(e, source, name@),
                    _ => false,
                },
            },
            Some(SelectorView::Ref(name)) => {
                let rows = matching_refs(refs, name);
                match r {
                    Ok(t) => rows.len() == 1 && t@ == (CheckoutView {
                        revision_oid: rows[0].revision_oid@,
                        ref_name: Some(rows[0].ref_name@),
                        selector_kind: CloudPublishCheckoutSelectorKind::Ref,
                    }),
                    Err(e) => if rows.len() == 0 {
                        is_unmatched(e, source, name)
                    } else {
                        rows.len() > 1 && is_ambiguous(e, source, name, ref_names(rows))
                    },
                }
            },
            Some(SelectorView::Revision(id)) => if id == "latest"@ {
                match (r, site.latest_revision_oid) {
                    (Ok(t), Some(oid)) => t@ == (CheckoutView {
                        revision_oid: oid@,
                        ref_name: None,
                        selector_kind: CloudPublishCheckoutSelectorKind::LatestRevision,
                    }),
                    (Err(e), None) => e matches CloneError::CloudPublishLatestRevisionMissing {
                        domain,
                        target,
                    } && domain@ == source.clone_domain && target@ == target_text(source.target),
                    _ => false,
                }
            } else {
                r matches Ok(t) && t@ == (CheckoutView {
                    revision_oid: id,
                    ref_name: None,
                    selector_kind: CloudPublishCheckoutSelectorKind::Revision,
                })
            },
        }
    }
}

fn find_ref<'a>(refs: &'a Vec<PublishRefRow>, name: &str) -> (r: Option<&'a PublishRefRow>)
    ensures
        match (r, first_ref(refs@, name@)) {
            (Some(row), Some(want)) => *row == want,
            (None, None) => true,
            _ => false,
        },
{
    let mut i: usize = 0;
    assert(refs@.skip(0) =~= refs@);
    while i < refs.len()
        invariant
            i <= refs@.len(),
            first_ref(refs@, name@) == first_ref(refs@.skip(i as int), name@),
        decreases refs@.len() - i,
    {
        assert(refs@.skip(i as int)[0] == refs@[i as int]);
        assert(refs@.skip(i as int).drop_first() =~= refs@.skip(i as int + 1));
        if text_eq(refs[i].ref_name.as_str(), name) {
            return Some(&refs[i]);
        }
        i = i + 1;
    }
    None
}

/// Decide which revision is checked out.
pub fn resolve_cloud_publish_checkout_target(
    source: &CloudPublishSource,
    site: &PublishSiteRow,
    refs: &Vec<PublishRefRow>,
) -> (r: Result<CloudPublishCheckoutTarget, CloneError>)
    ensures
        is_checkout(r, source@, *site, refs@),
{
    let domain = source.clone_domain.clone();
    let target = source.target_label();
    if refs.is_empty() {
        return Err(CloneError::CloudPublishRefsMissing { domain, target });
    }
    match &source.selector {
        None => match &site.default_ref {
            None => Err(CloneError::CloudPublishDefaultRefMissing { domain, target }),
            Some(name) => match find_ref(refs, name.as_str()) {
                Some(row) => Ok(
                    CloudPublishCheckoutTarget {
                        revision_oid: row.revision_oid.clone(),
                        ref_name: Some(row.ref_name.clone()),
                        selector_kind: CloudPublishCheckoutSelectorKind::DefaultRef,
                    },
                ),
                None => Err(
                    CloneError::CloudPublishRefNotFound { domain, target, selector: name.clone() },
                ),
            },
        },
        Some(CloudPublishSelector::Ref(name)) => {
            let rows = matching_cloud_publish_refs(refs, name.as_str());
            if rows.len() == 0 {
                return Err(
                    CloneError::CloudPublishRefNotFound { domain, target, selector: name.clone() },
                );
            }
            if rows.len() == 1 {
                assert(*rows@[0] == matching_refs(refs@, name@)[0]);
                return Ok(
                    CloudPublishCheckoutTarget {
                        revision_oid: rows[0].revision_oid.clone(),
                        ref_name: Some(rows[0].ref_name.clone()),
                        selector_kind: CloudPublishCheckoutSelectorKind::Ref,
                    },
                );
            }
            let ghost want = ref_names(matching_refs(refs@, name@));
            let mut names: Vec<String> = Vec::new();
            let mut i: usize = 0;
            assert(texts(names@) =~= want.take(0));
            while i < rows.len()
                invariant
                    i <= rows@.len(),
                    rows_are(rows@, matching_refs(refs@, name@)),
                    want == ref_names(matching_refs(refs@, name@)),
                    texts(names@) == want.take(i as int),
                decreases rows@.len() - i,
            {
                let ghost before = names@;
                assert(*rows@[i as int] == matching_refs(refs@, name@)[i as int]);
                let text = rows[i].ref_name.clone();
                let ghost t = text@;
                names.push(text);
                assert(texts(names@) =~= texts(before).push(t));
                assert(want.take(i as int + 1) =~= want.take(i as int).push(t));
                i = i + 1;
            }
            assert(want.take(want.len() as int) =~= want);
            let sorted = sort_texts(names, false);
            let list = join(&sorted, ", ");
            assert(is_sorted_list(list@, texts(sorted@), want));
            let e = CloneError::CloudPublishRefAmbiguous {
                domain,
                target,
                selector: name.clone(),
                matches: list,
            };
            proof {
                if let CloneError::CloudPublishRefAmbiguous { matches: l, .. } = &e {
                    assert(is_sorted_list(l@, texts(sorted@), want));
                }
                assert(source@.clone_domain == source.clone_domain@);
                assert(is_ambiguous(e, source@, name@, want));
            }
            Err(e)
        },
        Some(CloudPublishSelector::Revision(id)) => {
            if text_eq(id.as_str(), "latest") {
                match &site.latest_revision_oid {
                    Some(oid) => Ok(
                        CloudPublishCheckoutTarget {
                            revision_oid: oid.clone(),
                            ref_name: None,
                            selector_kind: CloudPublishCheckoutSelectorKind::LatestRevision,
                        },
                    ),
                    None => Err(CloneError::CloudPublishLatestRevisionMissing { domain, target }),
                }
            } else {
                Ok(
                    CloudPublishCheckoutTarget {
                        revision_oid: id.clone(),
                        ref_name: None,
                        selector_kind: CloudPublishCheckoutSelectorKind::Revision,
                    },
                )
            }
        },
    }
}

/// A full ref name always wins over a short name that is spelled alike: where one ref has the
/// selector as its full name, that ref is checked out, whatever short names there are.
pub proof fn law_full_ref_name_beats_short_name(
    source: SourceView,
    site: PublishSiteRow,
    refs: Seq<PublishRefRow>,
    name: Seq<char>,
    r: Result<CloudPublishCheckoutTarget, CloneError>,
)
    requires
        source.selector == Some(SelectorView::Ref(name)),
        named_refs(refs, name, false).len() == 1,
        is_checkout(r, source, site, refs),
    ensures
        r matches Ok(t) && t@.revision_oid == named_refs(refs, name, false)[0].revision_oid@
            && t@.ref_name == Some(name),
{
    lemma_named_refs(refs, name, false);
    if refs.len() == 0 {
        assert(named_refs(refs, name, false).len() == 0);
    }
}

proof fn lemma_named_refs(refs: Seq<PublishRefRow>, name: Seq<char>, short: bool)
    ensures
        forall|i: int|
            0 <= i < named_refs(refs, name, short).len() ==> refs.contains(
                #[trigger] named_refs(refs, name, short)[i],
            ) && (if short {
                named_refs(refs, name, short)[i].short_name@ == name
            } else {
                named_refs(refs, name, short)[i].ref_name@ == name
            }),
    decreases refs.len(),
{
    if refs.len() > 0 {
        let head = refs.drop_last();
        lemma_named_refs(head, name, short);
        let rows = named_refs(refs, name, short);
        assert forall|i: int| 0 <= i < rows.len() implies refs.contains(#[trigger] rows[i]) && (
        if short {
            rows[i].short_name@ == name
        } else {
            rows[i].ref_name@ == name
        }) by {
            let before = named_refs(head, name, short);
            if i < before.len() {
                assert(rows[i] == before[i]);
                assert(head.contains(before[i]));
                let k = choose|k: int| 0 <= k < head.len() && head[k] == before[i];
                assert(refs[k] == rows[i]);
            } else {
                assert(refs[refs.len() - 1] == rows[i]);
            }
        }
    }
}

/// What is checked out by a ref is always one of the published refs.
pub proof fn law_checkout_is_published(
    source: SourceView,
    site: PublishSiteRow,
    refs: Seq<PublishRefRow>,
    r: Result<CloudPublishCheckoutTarget, CloneError>,
)
    requires
        is_checkout(r, source, site, refs),
    ensures
        r matches Ok(t) ==> (t@.ref_name matches Some(name) ==> exists|i: int|
            0 <= i < refs.len() && (#[trigger] refs[i]).ref_name@ == name && refs[i].revision_oid@
                == t@.revision_oid),
{
    if let Ok(t) = r {
        if let Some(name) = t@.ref_name {
            match source.selector {
                None => {
                    lemma_first_ref(refs, site.default_ref->0@);
                },
                Some(SelectorView::Ref(wanted)) => {
                    lemma_named_refs(refs, wanted, false);
                    lemma_named_refs(refs, wanted, true);
                    let rows = matching_refs(refs, wanted);
                    assert(refs.contains(rows[0]));
                    let k = choose|k: int| 0 <= k < refs.len() && refs[k] == rows[0];
                    assert(refs[k].ref_name@ == name);
                },
                Some(SelectorView::Revision(_)) => {},
            }
        }
    }
}

proof fn lemma_first_ref(refs: Seq<PublishRefRow>, name: Seq<char>)
    ensures
        first_ref(refs, name) matches Some(row) ==> row.ref_name@ == name && exists|i: int|
            0 <= i < refs.len() && #[trigger] refs[i] == row,
    decreases refs.len(),
{
    if refs.len() > 0 {
        if refs[0].ref_name@ == name {
            assert(refs[0] == first_ref(refs, name)->0);
        } else {
            let rest = refs.drop_first();
            lemma_first_ref(rest, name);
            if let Some(row) = first_ref(rest, name) {
                let k = choose|k: int| 0 <= k < rest.len() && #[trigger] rest[k] == row;
                assert(refs[k + 1] == row);
            }
        }
    }
}

/// What the metadata service answered about a site.
#[derive(Debug)]
pub struct RestoreLookups {
    pub repository: Result<Option<RepositoryRow>, D1Error>,
    pub refs: Result<Vec<PublishRefRow>, D1Error>,
    pub revision: Result<Option<PublishRevisionRow>, D1Error>,
    pub ai_objects: Result<Vec<PublishAiObjectRow>, D1Error>,
    pub ai_versions: Result<Vec<PublishAiVersionRow>, D1Error>,
    pub object_indexes: Result<Vec<ObjectIndexRow>, D1Error>,
}

/// Everything that restoring a site needs.
#[derive(Debug)]
pub struct CloudPublishRestorePlan {
    pub site: PublishSiteRow,
    pub repository: RepositoryRow,
    pub checkout: CloudPublishCheckoutTarget,
    pub revision: PublishRevisionRow,
    pub object_indexes: Vec<ObjectIndexRow>,
    pub ai_objects: Vec<PublishAiObjectRow>,
    pub ai_versions: Vec<PublishAiVersionRow>,
}

pub open spec fn wants_ai_objects(revision: PublishRevisionRow) -> bool {
    revision.ai_object_count > 0
}

pub open spec fn wants_ai_versions(revision: PublishRevisionRow) -> bool {
    revision.ai_bundle_count > 0 || revision.ai_object_count > 0
}

/// The repository of a site must be known.
pub fn plan_repository(
    source: &CloudPublishSource,
    site: &PublishSiteRow,
    found: Result<Option<RepositoryRow>, D1Error>,
) -> (r: Result<RepositoryRow, CloneError>)
    ensures
        match (r, found) {
            (Ok(row), Ok(Some(want))) => row == want,
            (Err(e), Err(d1)) => is_lookup_fault(e, source@, *site, "repositories lookup"@, d1),
            (Err(e), Ok(None)) => e matches CloneError::CloudPublishRepositoryNotFound {
                domain,
                target,
                repo_id,
            } && domain@ == source.clone_domain@ && target@ == target_text(source.target@) && repo_id@
                == site.repo_id@,
            _ => false,
        },
{
    match found {
        Ok(Some(row)) => Ok(row),
        Ok(None) => Err(
            CloneError::CloudPublishRepositoryNotFound {
                domain: source.clone_domain.clone(),
                target: source.target_label(),
                repo_id: site.repo_id.clone(),
            },
        ),
        Err(d1) => Err(lookup_fault(source, site, "repositories lookup", &d1)),
    }
}

/// Decide from the published refs which revision is checked out.
pub fn plan_checkout(
    source: &CloudPublishSource,
    site: &PublishSiteRow,
    refs: &Result<Vec<PublishRefRow>, D1Error>,
) -> (r: Result<CloudPublishCheckoutTarget, CloneError>)
    ensures
        match *refs {
            Err(d1) => r matches Err(e) && is_lookup_fault(
                e,
                source@,
                *site,
                "publish_refs lookup"@,
                d1,
            ),
            Ok(rows) => is_checkout(r, source@, *site, rows@),
        },
{
    match refs {
        Err(d1) => Err(lookup_fault(source, site, "publish_refs lookup", d1)),
        Ok(rows) => resolve_cloud_publish_checkout_target(source, site, rows),
    }
}

/// The revision to check out must be published.
pub fn plan_revision(
    source: &CloudPublishSource,
    site: &PublishSiteRow,
    checkout: &CloudPublishCheckoutTarget,
    found: Result<Option<PublishRevisionRow>, D1Error>,
) -> (r: Result<PublishRevisionRow, CloneError>)
    ensures
        match (r, found) {
            (Ok(row), Ok(Some(want))) => row == want,
            (Err(e), Err(d1)) => is_lookup_fault(e, source@, *site, "publish_revisions lookup"@, d1),
            (Err(e), Ok(None)) => e matches CloneError::CloudPublishRevisionNotFound {
                domain,
                target,
                revision_oid,
            } && domain@ == source.clone_domain@ && target@ == target_text(source.target@)
                && revision_oid@ == checkout.revision_oid@,
            _ => false,
        },
{
    match found {
        Ok(Some(row)) => Ok(row),
        Ok(None) => Err(
            CloneError::CloudPublishRevisionNotFound {
                domain: source.clone_domain.clone(),
                target: source.target_label(),
                revision_oid: checkout.revision_oid.clone(),
            },
        ),
        Err(d1) => Err(lookup_fault(source, site, "publish_revisions lookup", &d1)),
    }
}

/// There must be objects to restore.
pub fn plan_object_index(
    source: &CloudPublishSource,
    site: &PublishSiteRow,
    rows: Result<Vec<ObjectIndexRow>, D1Error>,
) -> (r: Result<Vec<ObjectIndexRow>, CloneError>)
    ensures
        match (r, rows) {
            (Ok(got), Ok(want)) => got == want && want@.len() > 0,
            (Err(e), Err(d1)) => is_lookup_fault(e, source@, *site, "object_index lookup"@, d1),
            (Err(e), Ok(want)) => want@.len() == 0 && (e matches CloneError::CloudPublishObjectIndexMissing {
                domain,
                target,
                repo_id,
            } && domain@ == source.clone_domain@ && target@ == target_text(source.target@) && repo_id@
                == site.repo_id@),
            _ => false,
        },
{
    match rows {
        Ok(rows) => {
            if rows.is_empty() {
                Err(
                    CloneError::CloudPublishObjectIndexMissing {
                        domain: source.clone_domain.clone(),
                        target: source.target_label(),
                        repo_id: site.repo_id.clone(),
                    },
                )
            } else {
                Ok(rows)
            }
        },
        Err(d1) => Err(lookup_fault(source, site, "object_index lookup", &d1)),
    }
}

/// A plan is made of what was looked up, each lookup being in order.
pub open spec fn is_restore_plan(
    plan: CloudPublishRestorePlan,
    source: SourceView,
    site: PublishSiteRow,
    found: RestoreLookups,
) -> bool {
    &&& plan.site == site
    &&& found.repository == Ok::<_, D1Error>(Some(plan.repository))
    &&& found.refs matches Ok(refs) && is_checkout(Ok(plan.checkout), source, site, refs@)
    &&& found.revision == Ok::<_, D1Error>(Some(plan.revision))
    &&& if wants_ai_objects(plan.revision) {
        found.ai_objects == Ok::<_, D1Error>(plan.ai_objects)
    } else {
        plan.ai_objects@.len() == 0
    }
    &&& if wants_ai_versions(plan.revision) {
        found.ai_versions == Ok::<_, D1Error>(plan.ai_versions)
    } else {
        plan.ai_versions@.len() == 0
    }
    &&& found.object_indexes == Ok::<_, D1Error>(plan.object_indexes)
    &&& plan.object_indexes@.len() > 0
}

/// The error is that of the first lookup that is not in order.
pub open spec fn is_restore_fault(
    e: CloneError,
    source: SourceView,
    site: PublishSiteRow,
    found: RestoreLookups,
) -> bool {
    match found.repository {
        Err(d1) => is_lookup_fault(e, source, site, "repositories lookup"@, d1),
        Ok(None) => e matches CloneError::CloudPublishRepositoryNotFound { domain, target, repo_id }
            && domain@ == source.clone_domain && target@ == target_text(source.target) && repo_id@
            == site.repo_id@,
        Ok(Some(_)) => match found.refs {
            Err(d1) => is_lookup_fault(e, source, site, "publish_refs lookup"@, d1),
            Ok(refs) => is_checkout(Err(e), source, site, refs@) || exists|
                checkout: CloudPublishCheckoutTarget,
            | #[trigger]
                is_late_fault(e, source, site, found, checkout) && is_checkout(
                    Ok(checkout),
                    source,
                    site,
                    refs@,
                ),
        },
    }
}

/// The error is that of the first lookup after the refs that is not in order.
pub open spec fn is_late_fault(
    e: CloneError,
    source: SourceView,
    site: PublishSiteRow,
    found: RestoreLookups,
    checkout: CloudPublishCheckoutTarget,
) -> bool {
    match found.revision {
        Err(d1) => is_lookup_fault(e, source, site, "publish_revisions lookup"@, d1),
        Ok(None) => e matches CloneError::CloudPublishRevisionNotFound {
            domain,
            target,
            revision_oid,
        } && domain@ == source.clone_domain && target@ == target_text(source.target) && revision_oid@
            == checkout.revision_oid@,
        Ok(Some(revision)) => {
            if wants_ai_objects(revision) && found.ai_objects is Err {
                is_lookup_fault(
                    e,
                    source,
                    site,
                    "publish_ai_objects lookup"@,
                    found.ai_objects->Err_0,
                )
            } else if wants_ai_versions(revision) && found.ai_versions is Err {
                is_lookup_fault(
                    e,
                    source,
                    site,
                    "publish_ai_versions lookup"@,
                    found.ai_versions->Err_0,
                )
            } else {
                match found.object_indexes {
                    Err(d1) => is_lookup_fault(e, source, site, "object_index lookup"@, d1),
                    Ok(rows) => rows@.len() == 0 && (e matches CloneError::CloudPublishObjectIndexMissing {
                        domain,
                        target,
                        repo_id,
                    } && domain@ == source.clone_domain && target@ == target_text(source.target)
                        && repo_id@ == site.repo_id@),
                }
            }
        },
    }
}

/// Make the plan of a restore from what the metadata service answered. What a revision has no use
/// for is not looked at. Whether the objects of the plan are there is for
/// [`validate_cloud_publish_objects_available`] to tell.
pub fn resolve_cloud_publish_restore_plan(
    source: &CloudPublishSource,
    site: PublishSiteRow,
    found: RestoreLookups,
) -> (r: Result<CloudPublishRestorePlan, CloneError>)
    ensures
        match r {
            Ok(plan) => is_restore_plan(plan, source@, site, found),
            Err(e) => is_restore_fault(e, source@, site, found),
        },
{
    let repository = match plan_repository(source, &site, found.repository) {
        Ok(row) => row,
        Err(e) => {
            return Err(e);
        },
    };
    let checkout = match plan_checkout(source, &site, &found.refs) {
        Ok(checkout) => checkout,
        Err(e) => {
            return Err(e);
        },
    };
    let revision = match plan_revision(source, &site, &checkout, found.revision) {
        Ok(row) => row,
        Err(e) => {
            assert(is_late_fault(e, source@, site, found, checkout));
            return Err(e);
        },
    };
    let ai_objects = if revision.ai_object_count > 0 {
        match found.ai_objects {
            Ok(rows) => rows,
            Err(d1) => {
                let e = lookup_fault(source, &site, "publish_ai_objects lookup", &d1);
                assert(is_late_fault(e, source@, site, found, checkout));
                return Err(e);
            },
        }
    } else {
        Vec::new()
    };
    let ai_versions = if revision.ai_bundle_count > 0 || revision.ai_object_count > 0 {
        match found.ai_versions {
            Ok(rows) => rows,
            Err(d1) => {
                let e = lookup_fault(source, &site, "publish_ai_versions lookup", &d1);
                assert(is_late_fault(e, source@, site, found, checkout));
                return Err(e);
            },
        }
    } else {
        Vec::new()
    };
    let object_indexes = match plan_object_index(source, &site, found.object_indexes) {
        Ok(rows) => rows,
        Err(e) => {
            assert(is_late_fault(e, source@, site, found, checkout));
            return Err(e);
        },
    };
    Ok(
        CloudPublishRestorePlan {
            site,
            repository,
            checkout,
            revision,
            object_indexes,
            ai_objects,
            ai_versions,
        },
    )
}

/// `ObjectHash::from_bytes_for_kind`, written out in hexadecimal digits: it takes 20 bytes for
/// SHA-1 and 32 for SHA-256, and no other number.
#[verifier::external_body]
fn hash_from_bytes(sha256: bool, bytes: &Vec<u8>) -> (r: Option<String>)
    ensures
        match r {
            Some(t) => bytes@.len() == (if sha256 { 32nat } else { 20nat }) && t@ == bytes_hex(bytes@),
            None => bytes@.len() != (if sha256 { 32nat } else { 20nat }),
        },
{
    let kind = if sha256 {
        git_internal::hash::HashKind::Sha256
    } else {
        git_internal::hash::HashKind::Sha1
    };
    match git_internal::hash::ObjectHash::from_bytes_for_kind(kind, bytes) {
        Ok(hash) => Some(hash.to_string()),
        Err(_) => None,
    }
}

/// How many bytes an object name has.
pub open spec fn hash_size(kind: HashKind) -> nat {
    match kind {
        HashKind::Sha1 => 20,
        HashKind::Sha256 => 32,
    }
}

/// The object name in an index row, or why it is none.
pub open spec fn indexed_id(kind: HashKind, oid: Seq<char>) -> Result<ObjectId, Seq<char>> {
    if !is_hex_pairs(oid) {
        Err(hex_fault_text(oid))
    } else if oid.len() / 2 != hash_size(kind) {
        Err(
            "Invalid byte length: got "@ + decimal(oid.len() / 2) + ", expected "@ + decimal(
                hash_size(kind),
            ),
        )
    } else {
        Ok(ObjectId::of_text(lower(oid)))
    }
}

/// The error tells what is wrong with an index row.
pub open spec fn is_index_fault(
    e: CloneError,
    source: SourceView,
    site: PublishSiteRow,
    oid: Seq<char>,
    why: Seq<char>,
) -> bool {
    e matches CloneError::CloudPublishObjectIndexInvalid { domain, target, object_oid, reason } && domain@
        == source.clone_domain && target@ == site_label(source, site) && object_oid@ == oid && reason@
        == why
}

pub fn object_hash_from_cloud_index(
    source: &CloudPublishSource,
    site: &PublishSiteRow,
    object_oid: &str,
    kind: HashKind,
) -> (r: Result<ObjectId, CloneError>)
    ensures
        match (r, indexed_id(kind, object_oid@)) {
            (Ok(id), Ok(want)) => id == want && id.wf() && id.kind == kind,
            (Err(e), Err(why)) => is_index_fault(e, source@, *site, object_oid@, why),
            _ => false,
        },
{
    let bytes = match hex_decode(object_oid) {
        Ok(bytes) => bytes,
        Err(reason) => {
            return Err(
                CloneError::CloudPublishObjectIndexInvalid {
                    domain: source.clone_domain.clone(),
                    target: site_target_label(source, site),
                    object_oid: object_oid.to_owned(),
                    reason,
                },
            );
        },
    };
    proof {
        lemma_bytes_hex(bytes@);
        assert(lower(object_oid@).len() == object_oid@.len());
    }
    match hash_from_bytes(kind == HashKind::Sha256, &bytes) {
        Some(text) => {
            proof {
                let s = object_oid@;
                assert forall|i: int| 0 <= i < text@.len() implies is_hex_char(#[trigger] text@[i]) by {
                    assert(is_hex_char(s[i]));
                    assert(text@[i] == lower_char(s[i]));
                }
            }
            Ok(object_id_of_text(text.as_str()))
        },
        None => {
            let got = usize_text(bytes.len());
            let size: usize = match kind {
                HashKind::Sha1 => 20,
                HashKind::Sha256 => 32,
            };
            let expected = usize_text(size);
            Err(
                CloneError::CloudPublishObjectIndexInvalid {
                    domain: source.clone_domain.clone(),
                    target: site_target_label(source, site),
                    object_oid: object_oid.to_owned(),
                    reason: concat4(
                        "Invalid byte length: got ",
                        got.as_str(),
                        ", expected ",
                        expected.as_str(),
                    ),
                },
            )
        },
    }
}

/// A row that names an object which the store has.
pub open spec fn row_is_available(
    kind: HashKind,
    row: ObjectIndexRow,
    present: Result<bool, CloneError>,
) -> bool {
    indexed_id(kind, row.o_id@) is Ok && present == Ok::<bool, CloneError>(true)
}

/// The first of the first `n` rows that is no object name, whose object is missing, or whose object
/// could not be asked for.
pub open spec fn first_unavailable(
    kind: HashKind,
    rows: Seq<ObjectIndexRow>,
    present: Seq<Result<bool, CloneError>>,
    n: nat,
) -> Option<int>
    decreases n,
{
    if n == 0 {
        None
    } else {
        match first_unavailable(kind, rows, present, (n - 1) as nat) {
            Some(k) => Some(k),
            None => if !row_is_available(kind, rows[n - 1], present[n - 1]) {
                Some(n - 1)
            } else {
                None
            },
        }
    }
}

/// Every indexed object must be in the store. `present` holds for each what the store answered when
/// it was asked; an answer that is an error is returned as it is.
pub fn validate_cloud_publish_objects_available(
    source: &CloudPublishSource,
    site: &PublishSiteRow,
    rows: &Vec<ObjectIndexRow>,
    present: Vec<Result<bool, CloneError>>,
    kind: HashKind,
) -> (r: Result<(), CloneError>)
    requires
        present@.len() == rows@.len(),
    ensures
        match (r, first_unavailable(kind, rows@, present@, rows@.len())) {
            (Ok(_), None) => true,
            (Err(e), Some(k)) => match (indexed_id(kind, rows@[k].o_id@), present@[k]) {
                (Err(why), _) => is_index_fault(e, source@, *site, rows@[k].o_id@, why),
                (Ok(_), Err(answer)) => e == answer,
                (Ok(_), Ok(_)) => e matches CloneError::CloudPublishObjectMissing {
                    domain,
                    target,
                    object_oid,
                } && domain@ == source.clone_domain@ && target@ == target_text(source.target@)
                    && object_oid@ == rows@[k].o_id@,
            },
            _ => false,
        },
{
    let ghost all = present@;
    let mut rest = present;
    let mut i: usize = 0;
    while i < rows.len()
        invariant
            i <= rows@.len(),
            all == present@,
            all.len() == rows@.len(),
            rest@ == all.skip(i as int),
            first_unavailable(kind, rows@, all, i as nat) is None,
        decreases rows@.len() - i,
    {
        proof {
            lemma_unavailable_prefix(kind, rows@, all, i as nat + 1, rows@.len());
        }
        match object_hash_from_cloud_index(source, site, rows[i].o_id.as_str(), kind) {
            Ok(_) => {},
            Err(e) => {
                return Err(e);
            },
        }
        let answer = rest.remove(0);
        match answer {
            Err(e) => {
                return Err(e);
            },
            Ok(false) => {
                return Err(
                    CloneError::CloudPublishObjectMissing {
                        domain: source.clone_domain.clone(),
                        target: source.target_label(),
                        object_oid: rows[i].o_id.clone(),
                    },
                );
            },
            Ok(true) => {},
        }
        i = i + 1;
        assert(rest@ =~= all.skip(i as int));
    }
    Ok(())
}

proof fn lemma_unavailable_prefix(
    kind: HashKind,
    rows: Seq<ObjectIndexRow>,
    present: Seq<Result<bool, CloneError>>,
    k: nat,
    n: nat,
)
    requires
        k <= n,
    ensures
        first_unavailable(kind, rows, present, k) matches Some(i) ==> first_unavailable(
            kind,
            rows,
            present,
            n,
        ) == Some(i),
    decreases n,
{
    if k < n {
        lemma_unavailable_prefix(kind, rows, present, k, (n - 1) as nat);
    }
}

/// SHA-256 where a name is that long.
pub fn cloud_object_format(rows: &Vec<ObjectIndexRow>) -> (r: String)
    ensures
        r@ == if has_long_name(rows@) {
            "sha256"@
        } else {
            "sha1"@
        },
{
    let mut i: usize = 0;
    while i < rows.len()
        invariant
            i <= rows@.len(),
            forall|k: int| 0 <= k < i ==> !is_long_name(#[trigger] rows@[k]),
        decreases rows@.len() - i,
    {
        if rows[i].o_id.as_str().as_bytes_vec().len() == 64 {
            assert(is_long_name(rows@[i as int]));
            return "sha256".to_owned();
        }
        i = i + 1;
    }
    "sha1".to_owned()
}

/// A name of 64 bytes.
pub open spec fn is_long_name(row: ObjectIndexRow) -> bool {
    vstd::utf8::encode_utf8(row.o_id@).len() == 64
}

pub open spec fn has_long_name(rows: Seq<ObjectIndexRow>) -> bool {
    exists|i: int| 0 <= i < rows.len() && is_long_name(#[trigger] rows[i])
}

/// The branch that a full ref name names.
pub open spec fn branch_of(ref_name: Option<Seq<char>>) -> Option<Seq<char>> {
    match ref_name {
        Some(name) => if has_prefix(name, "refs/heads/"@) {
            Some(name.skip("refs/heads/"@.len() as int))
        } else {
            None
        },
        None => None,
    }
}

pub fn cloud_checkout_branch_name(checkout: &CloudPublishCheckoutTarget) -> (r: Option<String>)
    ensures
        opt_text(r) == branch_of(opt_text(checkout.ref_name)),
{
    match &checkout.ref_name {
        Some(name) => strip_prefix(name.as_str(), "refs/heads/"),
        None => None,
    }
}

/// What is said of objects that could not be restored: the warnings, where there are any.
pub open spec fn restore_failure(warnings: Seq<Seq<char>>) -> Seq<char> {
    if warnings.len() == 0 {
        "one or more indexed objects failed to restore"@
    } else {
        join_seq(warnings, "; "@)
    }
}

pub fn cloud_object_restore_failure_message(warnings: &Vec<String>) -> (r: String)
    ensures
        r@ == restore_failure(texts(warnings@)),
{
    if warnings.is_empty() {
        "one or more indexed objects failed to restore".to_owned()
    } else {
        join(warnings, "; ")
    }
}

/// The indexed objects are restored where none of them failed. `warnings` tells of those that did.
pub fn check_restored_objects(
    source: &CloudPublishSource,
    site: &PublishSiteRow,
    failed: usize,
    warnings: &Vec<String>,
) -> (r: Result<(), CloneError>)
    ensures
        match r {
            Ok(_) => failed == 0,
            Err(e) => failed > 0 && (e matches CloneError::CloudPublishObjectRestoreFailed {
                domain,
                target,
                message,
            } && domain@ == source.clone_domain@ && target@ == site_label(source@, *site)
                && message@ == restore_failure(texts(warnings@))),
        },
{
    if failed == 0 {
        return Ok(());
    }
    Err(
        CloneError::CloudPublishObjectRestoreFailed {
            domain: source.clone_domain.clone(),
            target: site_target_label(source, site),
            message: cloud_object_restore_failure_message(warnings),
        },
    )
}

/// A published object of the AI history.
#[derive(Debug, Clone)]
pub struct PublishAiObjectRow {
    pub site_id: String,
    pub revision_oid: String,
    pub object_type: String,
    pub object_id: String,
    pub layer: String,
    pub r2_key: String,
    pub payload_sha256: String,
    pub redaction_mode: String,
    pub schema_version: i64,
}

/// A published version of the AI history.
#[derive(Debug, Clone)]
pub struct PublishAiVersionRow {
    pub site_id: String,
    pub revision_oid: String,
    pub ai_version_id: String,
    pub schema_version: i64,
    pub object_count: i64,
    pub redaction_mode: String,
    pub redaction_rules_version: String,
    pub bundle_key: String,
    pub bundle_sha256: String,
}

/// The refs of a name are those that bear it, in their order.
pub proof fn law_refs_of_a_name(refs: Seq<PublishRefRow>, name: Seq<char>)
    ensures
        named_refs(refs, name, false) == refs.filter(|row: PublishRefRow| row.ref_name@ == name),
        named_refs(refs, name, true) == refs.filter(|row: PublishRefRow| row.short_name@ == name),
    decreases refs.len(),
{
    reveal(Seq::filter);
    if refs.len() > 0 {
        law_refs_of_a_name(refs.drop_last(), name);
    }
}

/// A selector stands for the refs of that full name, and only where there is none for those of that
/// short name.
pub proof fn law_full_names_come_first(refs: Seq<PublishRefRow>, selector: Seq<char>)
    ensures
        ({
            let full = refs.filter(|row: PublishRefRow| row.ref_name@ == selector);
            &&& full.len() > 0 ==> matching_refs(refs, selector) == full
            &&& full.len() == 0 ==> matching_refs(refs, selector) == refs.filter(
                |row: PublishRefRow| row.short_name@ == selector,
            )
        }),
{
    law_refs_of_a_name(refs, selector);
}

/// The ref of a name is the first that bears it.
pub proof fn law_first_ref_of_a_name(refs: Seq<PublishRefRow>, name: Seq<char>)
    ensures
        match first_ref(refs, name) {
            Some(row) => exists|i: int|
                0 <= i < refs.len() && #[trigger] refs[i] == row && row.ref_name@ == name && forall|j: int|
                    0 <= j < i ==> (#[trigger] refs[j]).ref_name@ != name,
            None => forall|i: int| 0 <= i < refs.len() ==> (#[trigger] refs[i]).ref_name@ != name,
        },
    decreases refs.len(),
{
    if refs.len() > 0 {
        if refs[0].ref_name@ == name {
            assert(first_ref(refs, name) == Some(refs[0]));
        } else {
            let rest = refs.drop_first();
            law_first_ref_of_a_name(rest, name);
            assert forall|j: int| 0 <= j < refs.len() implies (#[trigger] refs[j] == if j == 0 {
                refs[0]
            } else {
                rest[j - 1]
            }) by {}
            match first_ref(rest, name) {
                Some(row) => {
                    let i = choose|i: int|
                        0 <= i < rest.len() && #[trigger] rest[i] == row && row.ref_name@ == name && forall|
                            j: int,
                        |
                            0 <= j < i ==> (#[trigger] rest[j]).ref_name@ != name;
                    assert(refs[i + 1] == row);
                    assert forall|j: int| 0 <= j < i + 1 implies (#[trigger] refs[j]).ref_name@ != name by {
                        if j > 0 {
                            assert(rest[j - 1].ref_name@ != name);
                        }
                    }
                },
                None => {
                    assert forall|j: int| 0 <= j < refs.len() implies (#[trigger] refs[j]).ref_name@ != name by {
                        if j > 0 {
                            assert(rest[j - 1].ref_name@ != name);
                        }
                    }
                },
            }
        }
    }
}

/// What is checked out is what was asked for: the first ref of the site's default name where nothing
/// was, the one ref that the selector stands for, the site's latest revision, or the revision itself.
pub proof fn law_checkout_is_what_was_asked_for(
    source: SourceView,
    site: PublishSiteRow,
    refs: Seq<PublishRefRow>,
    r: Result<CloudPublishCheckoutTarget, CloneError>,
)
    requires
        is_checkout(r, source, site, refs),
    ensures
        refs.len() == 0 ==> (r matches Err(CloneError::CloudPublishRefsMissing { .. })),
        refs.len() > 0 ==> match source.selector {
            None => match site.default_ref {
                None => r matches Err(CloneError::CloudPublishDefaultRefMissing { .. }),
                Some(name) => {
                    &&& r is Ok <==> exists|i: int|
                        0 <= i < refs.len() && (#[trigger] refs[i]).ref_name@ == name@
                    &&& r matches Ok(t) ==> opt_text(t.ref_name) == Some(name@) && t.selector_kind
                        == CloudPublishCheckoutSelectorKind::DefaultRef && exists|i: int|
                        0 <= i < refs.len() && (#[trigger] refs[i]).ref_name@ == name@
                            && refs[i].revision_oid@ == t.revision_oid@ && forall|j: int|
                            0 <= j < i ==> (#[trigger] refs[j]).ref_name@ != name@
                    &&& r matches Err(e) ==> (e matches CloneError::CloudPublishRefNotFound { selector, .. }
                        && selector@ == name@)
                },
            },
            Some(SelectorView::Ref(name)) => {
                let full = refs.filter(|row: PublishRefRow| row.ref_name@ == name);
                let rows = if full.len() > 0 {
                    full
                } else {
                    refs.filter(|row: PublishRefRow| row.short_name@ == name)
                };
                &&& r is Ok <==> rows.len() == 1
                &&& r matches Ok(t) ==> opt_text(t.ref_name) == Some(rows[0].ref_name@) && t.revision_oid@
                    == rows[0].revision_oid@ && t.selector_kind == CloudPublishCheckoutSelectorKind::Ref
                &&& rows.len() == 0 ==> (r matches Err(
                    CloneError::CloudPublishRefNotFound { selector, .. },
                ) && selector@ == name)
                &&& rows.len() > 1 ==> (r matches Err(
                    CloneError::CloudPublishRefAmbiguous { selector, .. },
                ) && selector@ == name)
            },
            Some(SelectorView::Revision(id)) => {
                &&& id != "latest"@ ==> (r matches Ok(t) && t.revision_oid@ == id && t.ref_name is None
                    && t.selector_kind == CloudPublishCheckoutSelectorKind::Revision)
                &&& id == "latest"@ ==> (site.latest_revision_oid matches Some(oid) ==> (r matches Ok(t)
                    && t.revision_oid@ == oid@ && t.ref_name is None && t.selector_kind
                    == CloudPublishCheckoutSelectorKind::LatestRevision))
                &&& id == "latest"@ && site.latest_revision_oid is None ==> (r matches Err(
                    CloneError::CloudPublishLatestRevisionMissing { .. },
                ))
            },
        },
{
    if let Some(name) = site.default_ref {
        law_first_ref_of_a_name(refs, name@);
    }
    if let Some(SelectorView::Ref(name)) = source.selector {
        law_full_names_come_first(refs, name);
    }
}

/// A plan to restore holds what the lookups gave, and the objects of the revision; what was published
/// beside the revision is in it exactly where the revision counts any.
pub proof fn law_plan_holds_what_was_found(
    plan: CloudPublishRestorePlan,
    source: SourceView,
    site: PublishSiteRow,
    found: RestoreLookups,
)
    requires
        is_restore_plan(plan, source, site, found),
    ensures
        plan.site == site,
        found.repository matches Ok(Some(row)) && row == plan.repository,
        found.revision matches Ok(Some(row)) && row == plan.revision,
        found.object_indexes matches Ok(rows) && rows == plan.object_indexes && rows@.len() > 0,
        found.refs matches Ok(rows) && rows@.len() > 0,
        plan.revision.ai_object_count > 0 ==> (found.ai_objects matches Ok(rows) && rows == plan.ai_objects),
        plan.revision.ai_object_count <= 0 ==> plan.ai_objects@.len() == 0,
        plan.revision.ai_bundle_count > 0 || plan.revision.ai_object_count > 0 ==> (found.ai_versions matches Ok(
            rows,
        ) && rows == plan.ai_versions),
        plan.revision.ai_bundle_count <= 0 && plan.revision.ai_object_count <= 0
            ==> plan.ai_versions@.len() == 0,
{
    let refs = found.refs->Ok_0@;
    law_checkout_is_what_was_asked_for(source, site, refs, Ok(plan.checkout));
}

/// A restore that is refused lacks something: a lookup failed or gave nothing, or what was asked for is
/// not among the refs.
pub proof fn law_restore_is_refused_for_a_reason(
    e: CloneError,
    source: SourceView,
    site: PublishSiteRow,
    found: RestoreLookups,
)
    requires
        is_restore_fault(e, source, site, found),
    ensures
        found.repository is Err ==> (e matches CloneError::CloudPublishMetadataLookupFailed { operation, .. }
            && operation@ == "repositories lookup"@),
        (found.repository matches Ok(None)) ==> (e matches CloneError::CloudPublishRepositoryNotFound { .. }),
        (found.repository matches Ok(Some(_))) ==> (found.refs is Err ==> (e matches CloneError::CloudPublishMetadataLookupFailed {
            operation,
            ..
        } && operation@ == "publish_refs lookup"@)),
        (found.repository matches Ok(Some(_))) ==> (found.refs matches Ok(refs) ==> is_checkout(
            Err(e),
            source,
            site,
            refs@,
        ) || found.revision is Err || (found.revision matches Ok(None)) || (found.revision matches Ok(Some(row))
            && ((row.ai_object_count > 0 && found.ai_objects is Err) || ((row.ai_bundle_count > 0
            || row.ai_object_count > 0) && found.ai_versions is Err))) || found.object_indexes is Err || (
        found.object_indexes matches Ok(rows) && rows@.len() == 0)),
{
}

/// A name of the index is taken exactly where it is of as many hexadecimal digits as names of its kind
/// have.
pub proof fn law_index_names(kind: HashKind, oid: Seq<char>)
    ensures
        kind == HashKind::Sha1 ==> (indexed_id(kind, oid) is Ok <==> oid.len() == 40 && is_object_text(oid)),
        kind == HashKind::Sha256 ==> (indexed_id(kind, oid) is Ok <==> oid.len() == 64 && is_object_text(
            oid,
        )),
        indexed_id(kind, oid) matches Ok(id) ==> id.kind == kind && id.text() == lower(oid),
{
    if oid.len() == 40 || oid.len() == 64 {
        law_object_name_has_its_digits(oid);
    }
    if is_hex_pairs(oid) && oid.len() / 2 == hash_size(kind) {
        assert(is_object_text(oid));
    }
}

/// All objects are available exactly where each of them is; else the first that is not is the one told.
pub proof fn law_first_missing_object(
    kind: HashKind,
    rows: Seq<ObjectIndexRow>,
    found: Seq<Result<bool, CloneError>>,
    n: nat,
)
    requires
        n <= rows.len(),
        n <= found.len(),
    ensures
        match first_unavailable(kind, rows, found, n) {
            Some(k) => {
                &&& 0 <= k < n
                &&& indexed_id(kind, rows[k].o_id@) is Err || !(found[k] matches Ok(true))
                &&& forall|j: int|
                    0 <= j < k ==> indexed_id(kind, (#[trigger] rows[j]).o_id@) is Ok && (found[j] matches Ok(
                        true,
                    ))
            },
            None => forall|j: int|
                0 <= j < n ==> indexed_id(kind, (#[trigger] rows[j]).o_id@) is Ok && (found[j] matches Ok(
                    true,
                )),
        },
    decreases n,
{
    if n > 0 {
        law_first_missing_object(kind, rows, found, (n - 1) as nat);
    }
}

/// The branch of a ref is what follows the place of branches; a tag or no ref is of no branch.
pub proof fn law_branch_of_a_ref(name: Seq<char>)
    ensures
        branch_of(Some("refs/heads/"@ + name)) == Some(name),
        !"refs/heads/"@.is_prefix_of(name) ==> branch_of(Some(name)) is None,
        branch_of(None) is None,
{
    let full = "refs/heads/"@ + name;
    assert("refs/heads/"@.is_prefix_of(full));
    assert(full.skip("refs/heads/"@.len() as int) =~= name);
}

/// A site is called by what it was asked for by: its short name or its repository.
pub proof fn law_name_of_a_site(source: SourceView, site: PublishSiteRow)
    ensures
        source.target is Slug ==> site_label(source, site) == "slug:"@ + site.slug@,
        source.target is RepoId ==> site_label(source, site) == "repo:"@ + site.repo_id@,
{
}

/// A failed restore tells every warning, one after the other, and that it failed where there is none.
pub proof fn law_failed_restore_is_told(warnings: Seq<Seq<char>>)
    ensures
        warnings.len() == 0 ==> restore_failure(warnings)
            == "one or more indexed objects failed to restore"@,
        warnings.len() > 0 ==> restore_failure(warnings) == join_seq(warnings, "; "@),
{
}

/// A lookup that failed is told with the domain, the site, what was looked up and what was answered.
pub proof fn law_failed_lookup_is_told(
    e: CloneError,
    source: SourceView,
    site: PublishSiteRow,
    during: Seq<char>,
    d1: D1Error,
)
    requires
        is_lookup_fault(e, source, site, during, d1),
    ensures
        e matches CloneError::CloudPublishMetadataLookupFailed { domain, site_id, operation, code, message }
            && domain@ == source.clone_domain && site_id@ == site.site_id@ && operation@ == during && code
            == d1.code && message@ == d1.message@,
{
}

/// A ref that is not there, or not the only one, is told with the domain, the site and what was asked
/// for; and the names that it could be, in order.
pub proof fn law_failed_selection_is_told(
    e: CloneError,
    source: SourceView,
    name: Seq<char>,
    names: Seq<Seq<char>>,
)
    ensures
        is_unmatched(e, source, name) ==> (e matches CloneError::CloudPublishRefNotFound {
            domain,
            target,
            selector,
        } && domain@ == source.clone_domain && target@ == target_text(source.target) && selector@ == name),
        is_ambiguous(e, source, name, names) ==> (e matches CloneError::CloudPublishRefAmbiguous {
            domain,
            target,
            selector,
            matches: list,
        } && domain@ == source.clone_domain && target@ == target_text(source.target) && selector@ == name
            && exists|sorted: Seq<Seq<char>>| #[trigger]
            join_seq(sorted, ", "@) == list@ && in_order(false, sorted) && sorted.to_multiset()
                == names.to_multiset()),
{
    if is_ambiguous(e, source, name, names) {
        if let CloneError::CloudPublishRefAmbiguous { matches: list, .. } = e {
            let sorted = choose|sorted: Seq<Seq<char>>| is_sorted_list(list@, sorted, names);
            assert(join_seq(sorted, ", "@) == list@);
        }
    }
}

/// Objects are of the longer kind where one of their names has sixty-four bytes.
pub proof fn law_long_names(rows: Seq<ObjectIndexRow>)
    ensures
        has_long_name(rows) <==> exists|i: int|
            0 <= i < rows.len() && vstd::utf8::encode_utf8((#[trigger] rows[i]).o_id@).len() == 64,
{
    if exists|i: int|
        0 <= i < rows.len() && vstd::utf8::encode_utf8((#[trigger] rows[i]).o_id@).len() == 64 {
        let i = choose|i: int|
            0 <= i < rows.len() && vstd::utf8::encode_utf8((#[trigger] rows[i]).o_id@).len() == 64;
        assert(is_long_name(rows[i]));
    }
    if has_long_name(rows) {
        let i = choose|i: int| 0 <= i < rows.len() && is_long_name(#[trigger] rows[i]);
        assert(vstd::utf8::encode_utf8(rows[i].o_id@).len() == 64);
    }
}

} // verus!
