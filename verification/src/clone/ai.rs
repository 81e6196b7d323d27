//! Restoring the AI history of a published revision: what must agree with what.

use vstd::prelude::*;

use crate::clone::errors::CloneError;
use crate::clone::restore::{
    site_label, site_target_label, CloudPublishRestorePlan, PublishAiObjectRow, PublishAiVersionRow,
    PublishSiteRow,
};
use crate::clone::source::{CloudPublishSource, SourceView};
use crate::text::{
    chars_of, concat2, concat3, concat4, concat6, has_prefix, is_ascii_alnum, lower_char,
    lower_letter, strip_prefix, text_eq,
};

verus! {

/// The layer of an object of the AI history.
#[derive(Debug, Clone, Copy, PartialEq, Eq, Structural)]
pub enum AiObjectLayer {
    Snapshot,
    Event,
    Projection,
}

/// How much was taken out before publishing.
#[derive(Debug, Clone, Copy, PartialEq, Eq, Structural)]
pub enum RedactionMode {
    Default,
    Strict,
}

pub open spec fn layer_label(layer: AiObjectLayer) -> Seq<char> {
    match layer {
        AiObjectLayer::Snapshot => "snapshot"@,
        AiObjectLayer::Event => "event"@,
        AiObjectLayer::Projection => "projection"@,
    }
}

pub fn cloud_publish_ai_layer_label(layer: AiObjectLayer) -> (r: &'static str)
    ensures
        r@ == layer_label(layer),
{
    match layer {
        AiObjectLayer::Snapshot => "snapshot",
        AiObjectLayer::Event => "event",
        AiObjectLayer::Projection => "projection",
    }
}

pub open spec fn mode_label(mode: RedactionMode) -> Seq<char> {
    match mode {
        RedactionMode::Default => "default"@,
        RedactionMode::Strict => "strict"@,
    }
}

pub fn cloud_publish_ai_redaction_mode_label(mode: RedactionMode) -> (r: &'static str)
    ensures
        r@ == mode_label(mode),
{
    match mode {
        RedactionMode::Default => "default",
        RedactionMode::Strict => "strict",
    }
}

/// How one character of an object type is written in a history type.
pub open spec fn history_chars(c: char) -> Seq<char> {
    if 'A' <= c <= 'Z' {
        seq!['_', lower_char(c)]
    } else if is_ascii_alnum(c) {
        seq![c]
    } else {
        seq!['_']
    }
}

pub open spec fn history_text(object_type: Seq<char>) -> Seq<char>
    decreases object_type.len(),
{
    if object_type.len() == 0 {
        "publish_ai"@
    } else {
        history_text(object_type.drop_last()) + history_chars(object_type.last())
    }
}

/// An object type in snake case, after `publish_ai`.
pub fn cloud_publish_ai_history_type(object_type: &str) -> (r: String)
    ensures
        r@ == history_text(object_type@),
{
    let cs = chars_of(object_type);
    let ghost all = object_type@;
    let mut out = "publish_ai".to_owned();
    let mut i: usize = 0;
    assert(all.take(0) =~= Seq::<char>::empty());
    while i < cs.len()
        invariant
            i <= cs@.len(),
            cs@ == all,
            out@ == history_text(all.take(i as int)),
        decreases cs@.len() - i,
    {
        proof {
            assert(all.take(i as int + 1).drop_last() =~= all.take(i as int));
            assert(all.take(i as int + 1).last() == all[i as int]);
        }
        let c = cs[i];
        let ghost before = out@;
        if 'A' <= c && c <= 'Z' {
            out.push('_');
            out.push(lower_letter(c));
            assert(out@ =~= before + history_chars(c));
        } else if ('a' <= c && c <= 'z') || ('0' <= c && c <= '9') {
            out.push(c);
            assert(out@ =~= before + history_chars(c));
        } else {
            out.push('_');
            assert(out@ =~= before + history_chars(c));
        }
        i = i + 1;
    }
    assert(all.take(all.len() as int) =~= all);
    out
}

/// The error tells why the AI history could not be restored.
pub open spec fn is_ai_fault(e: CloneError, source: SourceView, site: PublishSiteRow, why: Seq<char>) -> bool {
    e matches CloneError::CloudPublishAiRestoreFailed { domain, target, message } && domain@
        == source.clone_domain && target@ == site_label(source, site) && message@ == why
}

pub fn ai_fault(source: &CloudPublishSource, site: &PublishSiteRow, message: String) -> (r: CloneError)
    ensures
        is_ai_fault(r, source@, *site, message@),
{
    CloneError::CloudPublishAiRestoreFailed {
        domain: source.clone_domain.clone(),
        target: site_target_label(source, site),
        message,
    }
}

/// A result is in order exactly where there is no fault to tell.
pub open spec fn tells(
    r: Result<(), CloneError>,
    source: SourceView,
    site: PublishSiteRow,
    fault: Option<Seq<char>>,
) -> bool {
    match (r, fault) {
        (Ok(_), None) => true,
        (Err(e), Some(why)) => is_ai_fault(e, source, site, why),
        _ => false,
    }
}

/// The name of an object below the site's own keys.
pub open spec fn site_prefix(site: PublishSiteRow) -> Seq<char> {
    site.repo_id@ + "/publish/sites/"@ + site.site_id@ + "/"@
}

/// The key below the site that an artifact has; a key outside the site is an error.
pub fn cloud_publish_relative_r2_key(
    source: &CloudPublishSource,
    site: &PublishSiteRow,
    r2_key: &str,
    artifact: &str,
) -> (r: Result<String, CloneError>)
    ensures
        match r {
            Ok(key) => r2_key@ == site_prefix(*site) + key@,
            Err(e) => !has_prefix(r2_key@, site_prefix(*site)) && is_ai_fault(
                e,
                source@,
                *site,
                artifact@ + " key is outside site namespace: "@ + r2_key@,
            ),
        },
{
    let prefix = concat4(
        site.repo_id.as_str(),
        "/publish/sites/",
        site.site_id.as_str(),
        "/",
    );
    match strip_prefix(r2_key, prefix.as_str()) {
        Some(key) => {
            assert(r2_key@ =~= prefix@ + key@);
            Ok(key)
        },
        None => Err(
            ai_fault(
                source,
                site,
                concat3(artifact, " key is outside site namespace: ", r2_key),
            ),
        ),
    }
}

/// An object as the index lists it.
#[derive(Debug)]
pub struct AiIndexEntry {
    pub object_type: String,
    pub object_id: String,
    pub layer: AiObjectLayer,
    pub r2_key: String,
    pub payload_sha256: String,
}

/// The published list of a revision's objects.
#[derive(Debug)]
pub struct PublishAiIndex {
    pub site_id: String,
    pub revision_oid: String,
    pub objects: Vec<AiIndexEntry>,
}

/// An object as the graph holds it.
#[derive(Debug)]
pub struct AiGraphNode {
    pub object_type: String,
    pub object_id: String,
    pub layer: AiObjectLayer,
    pub r2_key: String,
}

/// The published graph of a revision's objects.
#[derive(Debug)]
pub struct PublishAiGraph {
    pub site_id: String,
    pub revision_oid: String,
    pub nodes: Vec<AiGraphNode>,
}

pub open spec fn entry_is(entry: AiIndexEntry, row: PublishAiObjectRow) -> bool {
    entry.object_type@ == row.object_type@ && entry.object_id@ == row.object_id@ && layer_label(
        entry.layer,
    ) == row.layer@ && entry.r2_key@ == row.r2_key@ && entry.payload_sha256@ == row.payload_sha256@
}

pub open spec fn node_is(node: AiGraphNode, row: PublishAiObjectRow) -> bool {
    node.object_type@ == row.object_type@ && node.object_id@ == row.object_id@ && layer_label(
        node.layer,
    ) == row.layer@ && node.r2_key@ == row.r2_key@
}

pub open spec fn indexed(index: PublishAiIndex, row: PublishAiObjectRow) -> bool {
    exists|i: int| 0 <= i < index.objects@.len() && entry_is(#[trigger] index.objects@[i], row)
}

pub open spec fn graphed(graph: PublishAiGraph, row: PublishAiObjectRow) -> bool {
    exists|i: int| 0 <= i < graph.nodes@.len() && node_is(#[trigger] graph.nodes@[i], row)
}

pub open spec fn row_name(row: PublishAiObjectRow) -> Seq<char> {
    row.object_type@ + "/"@ + row.object_id@
}

/// The first of the first `n` rows that the index does not list.
pub open spec fn first_unindexed(rows: Seq<PublishAiObjectRow>, index: PublishAiIndex, n: nat) -> Option<int>
    decreases n,
{
    if n == 0 {
        None
    } else {
        match first_unindexed(rows, index, (n - 1) as nat) {
            Some(k) => Some(k),
            None => if indexed(index, rows[n - 1]) {
                None
            } else {
                Some(n - 1)
            },
        }
    }
}

/// The first of the first `n` rows that the graph does not hold.
pub open spec fn first_ungraphed(rows: Seq<PublishAiObjectRow>, graph: PublishAiGraph, n: nat) -> Option<int>
    decreases n,
{
    if n == 0 {
        None
    } else {
        match first_ungraphed(rows, graph, (n - 1) as nat) {
            Some(k) => Some(k),
            None => if graphed(graph, rows[n - 1]) {
                None
            } else {
                Some(n - 1)
            },
        }
    }
}

/// What is wrong with an index: it is of another revision, or misses an object.
pub open spec fn index_fault(plan: CloudPublishRestorePlan, index: PublishAiIndex) -> Option<Seq<char>> {
    if index.site_id@ != plan.site.site_id@ || index.revision_oid@ != plan.revision.revision_oid@ {
        Some("AI index does not match published revision"@)
    } else {
        match first_unindexed(plan.ai_objects@, index, plan.ai_objects@.len()) {
            Some(k) => Some("AI index is missing object row "@ + row_name(plan.ai_objects@[k])),
            None => None,
        }
    }
}

/// What is wrong with a graph: it is of another revision, or misses an object.
pub open spec fn graph_fault(plan: CloudPublishRestorePlan, graph: PublishAiGraph) -> Option<Seq<char>> {
    if graph.site_id@ != plan.site.site_id@ || graph.revision_oid@ != plan.revision.revision_oid@ {
        Some("AI graph does not match published revision"@)
    } else {
        match first_ungraphed(plan.ai_objects@, graph, plan.ai_objects@.len()) {
            Some(k) => Some("AI graph is missing object row "@ + row_name(plan.ai_objects@[k])),
            None => None,
        }
    }
}

fn index_lists(index: &PublishAiIndex, row: &PublishAiObjectRow) -> (r: bool)
    ensures
        r == indexed(*index, *row),
{
    let mut i: usize = 0;
    while i < index.objects.len()
        invariant
            i <= index.objects@.len(),
            forall|k: int| 0 <= k < i ==> !entry_is(#[trigger] index.objects@[k], *row),
        decreases index.objects@.len() - i,
    {
        let entry = &index.objects[i];
        if text_eq(entry.object_type.as_str(), row.object_type.as_str()) && text_eq(
            entry.object_id.as_str(),
            row.object_id.as_str(),
        ) && text_eq(cloud_publish_ai_layer_label(entry.layer), row.layer.as_str()) && text_eq(
            entry.r2_key.as_str(),
            row.r2_key.as_str(),
        ) && text_eq(entry.payload_sha256.as_str(), row.payload_sha256.as_str()) {
            assert(entry_is(index.objects@[i as int], *row));
            return true;
        }
        i = i + 1;
    }
    false
}

fn graph_holds(graph: &PublishAiGraph, row: &PublishAiObjectRow) -> (r: bool)
    ensures
        r == graphed(*graph, *row),
{
    let mut i: usize = 0;
    while i < graph.nodes.len()
        invariant
            i <= graph.nodes@.len(),
            forall|k: int| 0 <= k < i ==> !node_is(#[trigger] graph.nodes@[k], *row),
        decreases graph.nodes@.len() - i,
    {
        let node = &graph.nodes[i];
        if text_eq(node.object_type.as_str(), row.object_type.as_str()) && text_eq(
            node.object_id.as_str(),
            row.object_id.as_str(),
        ) && text_eq(cloud_publish_ai_layer_label(node.layer), row.layer.as_str()) && text_eq(
            node.r2_key.as_str(),
            row.r2_key.as_str(),
        ) {
            assert(node_is(graph.nodes@[i as int], *row));
            return true;
        }
        i = i + 1;
    }
    false
}

proof fn lemma_unindexed_prefix(rows: Seq<PublishAiObjectRow>, index: PublishAiIndex, k: nat, n: nat)
    requires
        k <= n,
    ensures
        first_unindexed(rows, index, k) matches Some(i) ==> first_unindexed(rows, index, n) == Some(i),
    decreases n,
{
    if k < n {
        lemma_unindexed_prefix(rows, index, k, (n - 1) as nat);
    }
}

proof fn lemma_ungraphed_prefix(rows: Seq<PublishAiObjectRow>, graph: PublishAiGraph, k: nat, n: nat)
    requires
        k <= n,
    ensures
        first_ungraphed(rows, graph, k) matches Some(i) ==> first_ungraphed(rows, graph, n) == Some(i),
    decreases n,
{
    if k < n {
        lemma_ungraphed_prefix(rows, graph, k, (n - 1) as nat);
    }
}

/// The index must be of the revision, and list every object of it.
pub fn validate_cloud_publish_ai_index(
    source: &CloudPublishSource,
    plan: &CloudPublishRestorePlan,
    index: &PublishAiIndex,
) -> (r: Result<(), CloneError>)
    ensures
        tells(r, source@, plan.site, index_fault(*plan, *index)),
{
    if !text_eq(index.site_id.as_str(), plan.site.site_id.as_str()) || !text_eq(
        index.revision_oid.as_str(),
        plan.revision.revision_oid.as_str(),
    ) {
        return Err(
            ai_fault(
                source,
                &plan.site,
                "AI index does not match published revision".to_owned(),
            ),
        );
    }
    let rows = &plan.ai_objects;
    let mut i: usize = 0;
    while i < rows.len()
        invariant
            i <= rows@.len(),
            *rows == plan.ai_objects,
            index.site_id@ == plan.site.site_id@,
            index.revision_oid@ == plan.revision.revision_oid@,
            first_unindexed(rows@, *index, i as nat) is None,
        decreases rows@.len() - i,
    {
        proof {
            lemma_unindexed_prefix(rows@, *index, i as nat + 1, rows@.len());
        }
        if !index_lists(index, &rows[i]) {
            let name = concat3(rows[i].object_type.as_str(), "/", rows[i].object_id.as_str());
            return Err(
                ai_fault(
                    source,
                    &plan.site,
                    concat2("AI index is missing object row ", name.as_str()),
                ),
            );
        }
        i = i + 1;
    }
    Ok(())
}

/// The graph must be of the revision, and hold every object of it.
pub fn validate_cloud_publish_ai_graph(
    source: &CloudPublishSource,
    plan: &CloudPublishRestorePlan,
    graph: &PublishAiGraph,
) -> (r: Result<(), CloneError>)
    ensures
        tells(r, source@, plan.site, graph_fault(*plan, *graph)),
{
    if !text_eq(graph.site_id.as_str(), plan.site.site_id.as_str()) || !text_eq(
        graph.revision_oid.as_str(),
        plan.revision.revision_oid.as_str(),
    ) {
        return Err(
            ai_fault(
                source,
                &plan.site,
                "AI graph does not match published revision".to_owned(),
            ),
        );
    }
    let rows = &plan.ai_objects;
    let mut i: usize = 0;
    while i < rows.len()
        invariant
            i <= rows@.len(),
            *rows == plan.ai_objects,
            graph.site_id@ == plan.site.site_id@,
            graph.revision_oid@ == plan.revision.revision_oid@,
            first_ungraphed(rows@, *graph, i as nat) is None,
        decreases rows@.len() - i,
    {
        proof {
            lemma_ungraphed_prefix(rows@, *graph, i as nat + 1, rows@.len());
        }
        if !graph_holds(graph, &rows[i]) {
            let name = concat3(rows[i].object_type.as_str(), "/", rows[i].object_id.as_str());
            return Err(
                ai_fault(
                    source,
                    &plan.site,
                    concat2("AI graph is missing object row ", name.as_str()),
                ),
            );
        }
        i = i + 1;
    }
    Ok(())
}

/// A bundle as it was published, without the objects, of which it has `object_count`.
#[derive(Debug)]
pub struct PublishAiBundle {
    pub site_id: String,
    pub revision_oid: String,
    pub ai_version_id: String,
    pub schema_version: u32,
    pub object_count: usize,
    pub redaction_mode: RedactionMode,
    pub redaction_rules_version: String,
}

/// The bundle is the one that the version row tells of.
pub open spec fn bundle_matches(row: PublishAiVersionRow, bundle: PublishAiBundle) -> bool {
    &&& bundle.site_id@ == row.site_id@
    &&& bundle.revision_oid@ == row.revision_oid@
    &&& bundle.ai_version_id@ == row.ai_version_id@
    &&& bundle.schema_version == row.schema_version
    &&& bundle.object_count == row.object_count
    &&& mode_label(bundle.redaction_mode) == row.redaction_mode@
    &&& bundle.redaction_rules_version@ == row.redaction_rules_version@
}

/// What is wrong with a bundle: it does not match its row, or its checksum does not.
pub open spec fn bundle_fault(
    row: PublishAiVersionRow,
    bundle: PublishAiBundle,
    sha256: Result<String, String>,
) -> Option<Seq<char>> {
    if bundle.object_count > i64::MAX {
        Some(
            "AI bundle object count is too large: "@
                + "out of range integral type conversion attempted"@,
        )
    } else if !bundle_matches(row, bundle) {
        Some("AI bundle "@ + row.ai_version_id@ + " does not match D1 version row"@)
    } else {
        match sha256 {
            Err(detail) => Some(
                "failed to verify AI bundle "@ + row.ai_version_id@ + " checksum: "@ + detail@,
            ),
            Ok(actual) => if actual@ != row.bundle_sha256@ {
                Some("AI bundle "@ + row.ai_version_id@ + " checksum does not match D1 version row"@)
            } else {
                None
            },
        }
    }
}

/// The bundle must be the one that the version row tells of. `sha256` is the checksum of its
/// bytes, or why it has none.
pub fn validate_cloud_publish_ai_bundle(
    source: &CloudPublishSource,
    site: &PublishSiteRow,
    row: &PublishAiVersionRow,
    bundle: &PublishAiBundle,
    sha256: &Result<String, String>,
) -> (r: Result<(), CloneError>)
    ensures
        tells(r, source@, *site, bundle_fault(*row, *bundle, *sha256)),
{
    let wide: u64 = bundle.object_count as u64;
    if wide > 0x7fff_ffff_ffff_ffff {
        return Err(
            ai_fault(
                source,
                site,
                concat2(
                    "AI bundle object count is too large: ",
                    "out of range integral type conversion attempted",
                ),
            ),
        );
    }
    let count: i64 = wide as i64;
    let same = text_eq(bundle.site_id.as_str(), row.site_id.as_str()) && text_eq(
        bundle.revision_oid.as_str(),
        row.revision_oid.as_str(),
    ) && text_eq(bundle.ai_version_id.as_str(), row.ai_version_id.as_str())
        && bundle.schema_version as i64 == row.schema_version && count == row.object_count && text_eq(
        cloud_publish_ai_redaction_mode_label(bundle.redaction_mode),
        row.redaction_mode.as_str(),
    ) && text_eq(
        bundle.redaction_rules_version.as_str(),
        row.redaction_rules_version.as_str(),
    );
    if !same {
        return Err(
            ai_fault(
                source,
                site,
                concat3(
                    "AI bundle ",
                    row.ai_version_id.as_str(),
                    " does not match D1 version row",
                ),
            ),
        );
    }
    match sha256 {
        Err(detail) => Err(
            ai_fault(
                source,
                site,
                concat4(
                    "failed to verify AI bundle ",
                    row.ai_version_id.as_str(),
                    " checksum: ",
                    detail.as_str(),
                ),
            ),
        ),
        Ok(actual) => {
            if !text_eq(actual.as_str(), row.bundle_sha256.as_str()) {
                Err(
                    ai_fault(
                        source,
                        site,
                        concat3(
                            "AI bundle ",
                            row.ai_version_id.as_str(),
                            " checksum does not match D1 version row",
                        ),
                    ),
                )
            } else {
                Ok(())
            }
        },
    }
}

/// The envelope of a published object.
#[derive(Debug)]
pub struct PublishAiObject {
    pub site_id: String,
    pub revision_oid: String,
    pub object_type: String,
    pub object_id: String,
    pub layer: AiObjectLayer,
    pub redaction_mode: RedactionMode,
    pub schema_version: u32,
}

/// The envelope is the one that the object row tells of.
pub open spec fn object_matches(row: PublishAiObjectRow, object: PublishAiObject) -> bool {
    &&& object.site_id@ == row.site_id@
    &&& object.revision_oid@ == row.revision_oid@
    &&& object.object_type@ == row.object_type@
    &&& object.object_id@ == row.object_id@
    &&& layer_label(object.layer) == row.layer@
    &&& mode_label(object.redaction_mode) == row.redaction_mode@
    &&& object.schema_version == row.schema_version
}

/// What is wrong with an object: it does not match its row, or its checksum does not.
pub open spec fn object_fault(
    row: PublishAiObjectRow,
    object: PublishAiObject,
    sha256: Result<String, String>,
) -> Option<Seq<char>> {
    if !object_matches(row, object) {
        Some("AI object row "@ + row_name(row) + " does not match R2 object envelope"@)
    } else {
        match sha256 {
            Err(detail) => Some(
                "failed to verify AI object "@ + row_name(row) + " checksum: "@ + detail@,
            ),
            Ok(actual) => if actual@ != row.payload_sha256@ {
                Some(
                    "AI object row "@ + row_name(row)
                        + " payload checksum does not match R2 object"@,
                )
            } else {
                None
            },
        }
    }
}

/// The object must be the one that its row tells of. `sha256` is the checksum of its bytes, or why
/// it has none.
pub fn validate_cloud_publish_ai_object_row(
    source: &CloudPublishSource,
    site: &PublishSiteRow,
    row: &PublishAiObjectRow,
    object: &PublishAiObject,
    sha256: &Result<String, String>,
) -> (r: Result<(), CloneError>)
    ensures
        tells(r, source@, *site, object_fault(*row, *object, *sha256)),
{
    let name = concat3(row.object_type.as_str(), "/", row.object_id.as_str());
    let same = text_eq(object.site_id.as_str(), row.site_id.as_str()) && text_eq(
        object.revision_oid.as_str(),
        row.revision_oid.as_str(),
    ) && text_eq(object.object_type.as_str(), row.object_type.as_str()) && text_eq(
        object.object_id.as_str(),
        row.object_id.as_str(),
    ) && text_eq(cloud_publish_ai_layer_label(object.layer), row.layer.as_str()) && text_eq(
        cloud_publish_ai_redaction_mode_label(object.redaction_mode),
        row.redaction_mode.as_str(),
    ) && object.schema_version as i64 == row.schema_version;
    if !same {
        return Err(
            ai_fault(
                source,
                site,
                concat3("AI object row ", name.as_str(), " does not match R2 object envelope"),
            ),
        );
    }
    match sha256 {
        Err(detail) => Err(
            ai_fault(
                source,
                site,
                concat4(
                    "failed to verify AI object ",
                    name.as_str(),
                    " checksum: ",
                    detail.as_str(),
                ),
            ),
        ),
        Ok(actual) => {
            if !text_eq(actual.as_str(), row.payload_sha256.as_str()) {
                Err(
                    ai_fault(
                        source,
                        site,
                        concat3(
                            "AI object row ",
                            name.as_str(),
                            " payload checksum does not match R2 object",
                        ),
                    ),
                )
            } else {
                Ok(())
            }
        },
    }
}

/// One artifact to restore: the index, the graph, or a version or object by its place in the plan.
#[derive(Debug, Clone, Copy, PartialEq, Eq, Structural)]
pub enum AiRestoreStep {
    Index,
    Graph,
    Version(usize),
    Object(usize),
}

/// Rows that cannot be restored: objects without an index or without versions.
pub open spec fn ai_plan_fault(plan: CloudPublishRestorePlan) -> Option<Seq<char>> {
    if plan.ai_objects@.len() > 0 && plan.revision.ai_index_key is None {
        Some("published revision has AI object rows but no AI index key"@)
    } else if plan.ai_objects@.len() > 0 && plan.ai_versions@.len() == 0 {
        Some("published revision has AI object rows but no AI version rows"@)
    } else {
        None
    }
}

/// The artifacts in the order in which they are restored: the index, the graph where there are
/// objects, then each version and each object.
pub open spec fn ai_steps(plan: CloudPublishRestorePlan) -> Seq<AiRestoreStep> {
    (if plan.revision.ai_index_key is Some {
        seq![AiRestoreStep::Index]
    } else {
        Seq::empty()
    }) + (if plan.ai_objects@.len() > 0 {
        seq![AiRestoreStep::Graph]
    } else {
        Seq::empty()
    }) + Seq::new(plan.ai_versions@.len(), |i: int| AiRestoreStep::Version(i as usize)) + Seq::new(
        plan.ai_objects@.len(),
        |i: int| AiRestoreStep::Object(i as usize),
    )
}

/// What restoring the AI history of a revision takes, in order. A revision without any has no step.
pub fn restore_cloud_publish_ai_objects(source: &CloudPublishSource, plan: &CloudPublishRestorePlan) -> (r:
    Result<Vec<AiRestoreStep>, CloneError>)
    ensures
        match (r, ai_plan_fault(*plan)) {
            (Ok(steps), None) => steps@ == ai_steps(*plan),
            (Err(e), Some(why)) => is_ai_fault(e, source@, plan.site, why),
            _ => false,
        },
{
    if !plan.ai_objects.is_empty() && plan.revision.ai_index_key.is_none() {
        return Err(
            ai_fault(
                source,
                &plan.site,
                "published revision has AI object rows but no AI index key".to_owned(),
            ),
        );
    }
    if !plan.ai_objects.is_empty() && plan.ai_versions.is_empty() {
        return Err(
            ai_fault(
                source,
                &plan.site,
                "published revision has AI object rows but no AI version rows".to_owned(),
            ),
        );
    }
    let mut steps: Vec<AiRestoreStep> = Vec::new();
    if plan.revision.ai_index_key.is_some() {
        steps.push(AiRestoreStep::Index);
    }
    if !plan.ai_objects.is_empty() {
        steps.push(AiRestoreStep::Graph);
    }
    let ghost start = steps@;
    let ghost versions = Seq::new(
        plan.ai_versions@.len(),
        |i: int| AiRestoreStep::Version(i as usize),
    );
    let ghost objects = Seq::new(
        plan.ai_objects@.len(),
        |i: int| AiRestoreStep::Object(i as usize),
    );
    let mut i: usize = 0;
    assert(steps@ =~= start + versions.take(0));
    while i < plan.ai_versions.len()
        invariant
            i <= plan.ai_versions@.len(),
            versions == Seq::new(
                plan.ai_versions@.len(),
                |i: int| AiRestoreStep::Version(i as usize),
            ),
            steps@ == start + versions.take(i as int),
        decreases plan.ai_versions@.len() - i,
    {
        steps.push(AiRestoreStep::Version(i));
        assert(versions.take(i as int + 1) =~= versions.take(i as int).push(
            AiRestoreStep::Version(i),
        ));
        assert(steps@ =~= start + versions.take(i as int + 1));
        i = i + 1;
    }
    let mut j: usize = 0;
    assert(versions.take(versions.len() as int) =~= versions);
    assert(steps@ =~= start + versions + objects.take(0));
    while j < plan.ai_objects.len()
        invariant
            j <= plan.ai_objects@.len(),
            objects == Seq::new(
                plan.ai_objects@.len(),
                |i: int| AiRestoreStep::Object(i as usize),
            ),
            steps@ == start + versions + objects.take(j as int),
        decreases plan.ai_objects@.len() - j,
    {
        steps.push(AiRestoreStep::Object(j));
        assert(objects.take(j as int + 1) =~= objects.take(j as int).push(
            AiRestoreStep::Object(j),
        ));
        assert(steps@ =~= start + versions + objects.take(j as int + 1));
        j = j + 1;
    }
    assert(objects.take(objects.len() as int) =~= objects);
    assert(steps@ =~= ai_steps(*plan));
    Ok(steps)
}

/// A published artifact as it was read. `sha256` is the checksum of its bytes, or why it has none.
#[derive(Debug)]
pub enum AiArtifact {
    Index { index: PublishAiIndex },
    Graph { graph: PublishAiGraph },
    Version { bundle: PublishAiBundle, sha256: Result<String, String> },
    Object { object: PublishAiObject, sha256: Result<String, String> },
}

/// The step is one of the plan's.
pub open spec fn in_plan(plan: CloudPublishRestorePlan, step: AiRestoreStep) -> bool {
    match step {
        AiRestoreStep::Index => plan.revision.ai_index_key is Some,
        AiRestoreStep::Graph => true,
        AiRestoreStep::Version(i) => i < plan.ai_versions@.len(),
        AiRestoreStep::Object(i) => i < plan.ai_objects@.len(),
    }
}

/// The artifact is of the kind that the step restores.
pub open spec fn restores(step: AiRestoreStep, artifact: AiArtifact) -> bool {
    match step {
        AiRestoreStep::Index => artifact is Index,
        AiRestoreStep::Graph => artifact is Graph,
        AiRestoreStep::Version(_) => artifact is Version,
        AiRestoreStep::Object(_) => artifact is Object,
    }
}

/// The full key of a step's artifact and what the artifact is called; `None` for the graph, whose
/// key below the site is fixed.
pub open spec fn artifact_key(plan: CloudPublishRestorePlan, step: AiRestoreStep) -> Option<
    (Seq<char>, Seq<char>),
> {
    match step {
        AiRestoreStep::Index => Some((plan.revision.ai_index_key->0@, "AI index"@)),
        AiRestoreStep::Graph => None,
        AiRestoreStep::Version(i) => Some((plan.ai_versions@[i as int].bundle_key@, "AI bundle"@)),
        AiRestoreStep::Object(i) => Some((plan.ai_objects@[i as int].r2_key@, "AI object"@)),
    }
}

/// The key below the site under which a step's artifact is read.
pub fn ai_artifact_key(
    source: &CloudPublishSource,
    plan: &CloudPublishRestorePlan,
    step: AiRestoreStep,
    graph_key: &str,
) -> (r: Result<String, CloneError>)
    requires
        in_plan(*plan, step),
    ensures
        match artifact_key(*plan, step) {
            None => r matches Ok(key) && key@ == graph_key@,
            Some((full, what)) => match r {
                Ok(key) => full == site_prefix(plan.site) + key@,
                Err(e) => !has_prefix(full, site_prefix(plan.site)) && is_ai_fault(
                    e,
                    source@,
                    plan.site,
                    what + " key is outside site namespace: "@ + full,
                ),
            },
        },
{
    match step {
        AiRestoreStep::Index => match &plan.revision.ai_index_key {
            Some(key) => cloud_publish_relative_r2_key(source, &plan.site, key.as_str(), "AI index"),
            None => Ok(graph_key.to_owned()),
        },
        AiRestoreStep::Graph => Ok(graph_key.to_owned()),
        AiRestoreStep::Version(i) => cloud_publish_relative_r2_key(
            source,
            &plan.site,
            plan.ai_versions[i].bundle_key.as_str(),
            "AI bundle",
        ),
        AiRestoreStep::Object(i) => cloud_publish_relative_r2_key(
            source,
            &plan.site,
            plan.ai_objects[i].r2_key.as_str(),
            "AI object",
        ),
    }
}

/// What is wrong with the artifact of a step.
pub open spec fn artifact_fault(
    plan: CloudPublishRestorePlan,
    step: AiRestoreStep,
    artifact: AiArtifact,
) -> Option<Seq<char>> {
    match (step, artifact) {
        (AiRestoreStep::Index, AiArtifact::Index { index }) => index_fault(plan, index),
        (AiRestoreStep::Graph, AiArtifact::Graph { graph }) => graph_fault(plan, graph),
        (AiRestoreStep::Version(i), AiArtifact::Version { bundle, sha256 }) => bundle_fault(
            plan.ai_versions@[i as int],
            bundle,
            sha256,
        ),
        (AiRestoreStep::Object(i), AiArtifact::Object { object, sha256 }) => object_fault(
            plan.ai_objects@[i as int],
            object,
            sha256,
        ),
        _ => None,
    }
}

/// What is kept for an entry of the AI history.
#[derive(Debug, Clone, Copy, PartialEq, Eq, Structural)]
pub enum HistoryContent {
    /// The artifact that was read
    Artifact,
    /// The row of a version, by its place in the plan
    VersionRow(usize),
}

/// An entry of the AI history.
#[derive(Debug)]
pub struct HistoryEntry {
    pub history_type: String,
    pub object_id: String,
    pub content: HistoryContent,
}

pub open spec fn history_views(entries: Seq<HistoryEntry>) -> Seq<
    (Seq<char>, Seq<char>, HistoryContent),
> {
    entries.map_values(|e: HistoryEntry| (e.history_type@, e.object_id@, e.content))
}

/// Under what an artifact is entered in the history, and what is kept there: of a version both its
/// row and its bundle.
pub open spec fn artifact_history(
    plan: CloudPublishRestorePlan,
    step: AiRestoreStep,
    artifact: AiArtifact,
) -> Seq<(Seq<char>, Seq<char>, HistoryContent)> {
    match (step, artifact) {
        (AiRestoreStep::Index, AiArtifact::Index { index }) => seq![
            ("publish_ai_index"@, index.revision_oid@, HistoryContent::Artifact),
        ],
        (AiRestoreStep::Graph, AiArtifact::Graph { graph }) => seq![
            ("publish_ai_graph"@, graph.revision_oid@, HistoryContent::Artifact),
        ],
        (AiRestoreStep::Version(i), AiArtifact::Version { bundle, .. }) => seq![
            (
                "publish_ai_version"@,
                plan.ai_versions@[i as int].ai_version_id@,
                HistoryContent::VersionRow(i),
            ),
            ("publish_ai_bundle"@, bundle.ai_version_id@, HistoryContent::Artifact),
        ],
        (AiRestoreStep::Object(i), AiArtifact::Object { .. }) => {
            let row = plan.ai_objects@[i as int];
            seq![(history_text(row.object_type@), row.object_id@, HistoryContent::Artifact)]
        },
        _ => Seq::empty(),
    }
}

/// Check the artifact of a step and tell what is entered in the history for it.
pub fn restore_ai_artifact(
    source: &CloudPublishSource,
    plan: &CloudPublishRestorePlan,
    step: AiRestoreStep,
    artifact: &AiArtifact,
) -> (r: Result<Vec<HistoryEntry>, CloneError>)
    requires
        in_plan(*plan, step),
        restores(step, *artifact),
    ensures
        match (r, artifact_fault(*plan, step, *artifact)) {
            (Ok(entries), None) => history_views(entries@) == artifact_history(
                *plan,
                step,
                *artifact,
            ),
            (Err(e), Some(why)) => is_ai_fault(e, source@, plan.site, why),
            _ => false,
        },
{
    let mut entries: Vec<HistoryEntry> = Vec::new();
    match (step, artifact) {
        (AiRestoreStep::Index, AiArtifact::Index { index }) => {
            if let Err(e) = validate_cloud_publish_ai_index(source, plan, index) {
                return Err(e);
            }
            entries.push(
                HistoryEntry {
                    history_type: "publish_ai_index".to_owned(),
                    object_id: index.revision_oid.clone(),
                    content: HistoryContent::Artifact,
                },
            );
        },
        (AiRestoreStep::Graph, AiArtifact::Graph { graph }) => {
            if let Err(e) = validate_cloud_publish_ai_graph(source, plan, graph) {
                return Err(e);
            }
            entries.push(
                HistoryEntry {
                    history_type: "publish_ai_graph".to_owned(),
                    object_id: graph.revision_oid.clone(),
                    content: HistoryContent::Artifact,
                },
            );
        },
        (AiRestoreStep::Version(i), AiArtifact::Version { bundle, sha256 }) => {
            let row = &plan.ai_versions[i];
            if let Err(e) = validate_cloud_publish_ai_bundle(
                source,
                &plan.site,
                row,
                bundle,
                sha256,
            ) {
                return Err(e);
            }
            entries.push(
                HistoryEntry {
                    history_type: "publish_ai_version".to_owned(),
                    object_id: row.ai_version_id.clone(),
                    content: HistoryContent::VersionRow(i),
                },
            );
            entries.push(
                HistoryEntry {
                    history_type: "publish_ai_bundle".to_owned(),
                    object_id: bundle.ai_version_id.clone(),
                    content: HistoryContent::Artifact,
                },
            );
        },
        (AiRestoreStep::Object(i), AiArtifact::Object { object, sha256 }) => {
            let row = &plan.ai_objects[i];
            if let Err(e) = validate_cloud_publish_ai_object_row(
                source,
                &plan.site,
                row,
                object,
                sha256,
            ) {
                return Err(e);
            }
            entries.push(
                HistoryEntry {
                    history_type: cloud_publish_ai_history_type(row.object_type.as_str()),
                    object_id: row.object_id.clone(),
                    content: HistoryContent::Artifact,
                },
            );
        },
        _ => {},
    }
    assert(history_views(entries@) =~= artifact_history(*plan, step, *artifact));
    Ok(entries)
}

/// Every step that restoring takes is one of the plan's.
pub proof fn law_restore_steps_are_in_the_plan(plan: CloudPublishRestorePlan, k: int)
    requires
        0 <= k < ai_steps(plan).len(),
    ensures
        in_plan(plan, ai_steps(plan)[k]),
{
    assert(plan.ai_versions.len() == plan.ai_versions@.len());
    assert(plan.ai_objects.len() == plan.ai_objects@.len());
}

/// The error for an artifact that could not be kept locally.
pub fn append_cloud_publish_ai_history(
    source: &CloudPublishSource,
    site: &PublishSiteRow,
    history_type: &str,
    object_id: &str,
    stored: bool,
    detail: &str,
) -> (r: CloneError)
    ensures
        is_ai_fault(
            r,
            source@,
            *site,
            (if stored {
                "failed to index AI restore artifact "@
            } else {
                "failed to store AI restore artifact "@
            }) + history_type@ + "/"@ + object_id@ + " locally: "@ + detail@,
        ),
{
    let what = if stored {
        "failed to index AI restore artifact "
    } else {
        "failed to store AI restore artifact "
    };
    ai_fault(
        source,
        site,
        concat6(what, history_type, "/", object_id, " locally: ", detail),
    )
}

/// Where the index is in order, every object of the plan is listed in it.
pub proof fn law_accepted_index_lists_every_object(
    plan: CloudPublishRestorePlan,
    index: PublishAiIndex,
    k: int,
)
    requires
        index_fault(plan, index) is None,
        0 <= k < plan.ai_objects@.len(),
    ensures
        indexed(index, plan.ai_objects@[k]),
{
    lemma_unindexed_prefix(plan.ai_objects@, index, k as nat + 1, plan.ai_objects@.len());
}

/// Where the graph is in order, every object of the plan is in it.
pub proof fn law_accepted_graph_holds_every_object(
    plan: CloudPublishRestorePlan,
    graph: PublishAiGraph,
    k: int,
)
    requires
        graph_fault(plan, graph) is None,
        0 <= k < plan.ai_objects@.len(),
    ensures
        graphed(graph, plan.ai_objects@[k]),
{
    lemma_ungraphed_prefix(plan.ai_objects@, graph, k as nat + 1, plan.ai_objects@.len());
}

/// The kinds of what is restored beside a revision are called by their names.
pub proof fn law_labels()
    ensures
        layer_label(AiObjectLayer::Snapshot) == "snapshot"@,
        layer_label(AiObjectLayer::Event) == "event"@,
        layer_label(AiObjectLayer::Projection) == "projection"@,
        mode_label(RedactionMode::Default) == "default"@,
        mode_label(RedactionMode::Strict) == "strict"@,
{
}

/// A type is kept under its name in small letters, each capital after an underscore, and an underscore
/// for anything but a letter or a digit, all of it behind the common beginning.
pub proof fn law_name_of_a_type(s: Seq<char>, c: char)
    ensures
        history_text(Seq::empty()) == "publish_ai"@,
        'A' <= c <= 'Z' ==> history_text(s.push(c)) == history_text(s) + seq!['_', (c as u32 + 32) as char],
        ('a' <= c <= 'z') || ('0' <= c <= '9') ==> history_text(s.push(c)) == history_text(s).push(c),
        !('A' <= c <= 'Z') && !('a' <= c <= 'z') && !('0' <= c <= '9') ==> history_text(s.push(c))
            == history_text(s).push('_'),
{
    assert(s.push(c).drop_last() =~= s);
}

/// Everything of a site is kept below its repository and its own name.
pub proof fn law_place_of_a_site(site: PublishSiteRow)
    ensures
        site_prefix(site) == site.repo_id@ + "/publish/sites/"@ + site.site_id@ + "/"@,
{
}

/// An index is accepted exactly where it is of the site and the revision and lists every object with its
/// type, layer, place and checksum; a graph, where it is of them and holds every object.
pub proof fn law_accepted_index_and_graph(
    plan: CloudPublishRestorePlan,
    index: PublishAiIndex,
    graph: PublishAiGraph,
)
    ensures
        index_fault(plan, index) is None <==> index.site_id@ == plan.site.site_id@ && index.revision_oid@
            == plan.revision.revision_oid@ && forall|k: int|
            0 <= k < plan.ai_objects@.len() ==> {
                let row = #[trigger] plan.ai_objects@[k];
                exists|i: int|
                    0 <= i < index.objects@.len() && (#[trigger] index.objects@[i]).object_type@
                        == row.object_type@ && index.objects@[i].object_id@ == row.object_id@ && layer_label(
                        index.objects@[i].layer,
                    ) == row.layer@ && index.objects@[i].r2_key@ == row.r2_key@
                        && index.objects@[i].payload_sha256@ == row.payload_sha256@
            },
        graph_fault(plan, graph) is None <==> graph.site_id@ == plan.site.site_id@ && graph.revision_oid@
            == plan.revision.revision_oid@ && forall|k: int|
            0 <= k < plan.ai_objects@.len() ==> {
                let row = #[trigger] plan.ai_objects@[k];
                exists|i: int|
                    0 <= i < graph.nodes@.len() && (#[trigger] graph.nodes@[i]).object_type@
                        == row.object_type@ && graph.nodes@[i].object_id@ == row.object_id@ && layer_label(
                        graph.nodes@[i].layer,
                    ) == row.layer@ && graph.nodes@[i].r2_key@ == row.r2_key@
            },
{
    let rows = plan.ai_objects@;
    lemma_unlisted(rows, index, graph, rows.len());
    assert forall|k: int| 0 <= k < rows.len() implies (indexed(index, #[trigger] rows[k]) <==> exists|
        i: int,
    |
        0 <= i < index.objects@.len() && (#[trigger] index.objects@[i]).object_type@ == rows[k].object_type@
            && index.objects@[i].object_id@ == rows[k].object_id@ && layer_label(index.objects@[i].layer)
            == rows[k].layer@ && index.objects@[i].r2_key@ == rows[k].r2_key@
            && index.objects@[i].payload_sha256@ == rows[k].payload_sha256@) by {
        if indexed(index, rows[k]) {
            let i = choose|i: int|
                0 <= i < index.objects@.len() && entry_is(#[trigger] index.objects@[i], rows[k]);
            assert(entry_is(index.objects@[i], rows[k]));
        }
    }
    assert forall|k: int| 0 <= k < rows.len() implies (graphed(graph, #[trigger] rows[k]) <==> exists|
        i: int,
    |
        0 <= i < graph.nodes@.len() && (#[trigger] graph.nodes@[i]).object_type@ == rows[k].object_type@
            && graph.nodes@[i].object_id@ == rows[k].object_id@ && layer_label(graph.nodes@[i].layer)
            == rows[k].layer@ && graph.nodes@[i].r2_key@ == rows[k].r2_key@) by {
        if graphed(graph, rows[k]) {
            let i = choose|i: int|
                0 <= i < graph.nodes@.len() && node_is(#[trigger] graph.nodes@[i], rows[k]);
            assert(node_is(graph.nodes@[i], rows[k]));
        }
    }
    if first_unindexed(rows, index, rows.len()) is Some {
        let k = first_unindexed(rows, index, rows.len())->0;
        assert(!indexed(index, rows[k]));
    }
    if first_ungraphed(rows, graph, rows.len()) is Some {
        let k = first_ungraphed(rows, graph, rows.len())->0;
        assert(!graphed(graph, rows[k]));
    }
}

proof fn lemma_unlisted(
    rows: Seq<PublishAiObjectRow>,
    index: PublishAiIndex,
    graph: PublishAiGraph,
    n: nat,
)
    requires
        n <= rows.len(),
    ensures
        match first_unindexed(rows, index, n) {
            Some(k) => 0 <= k < n && !indexed(index, rows[k]),
            None => forall|k: int| 0 <= k < n ==> indexed(index, #[trigger] rows[k]),
        },
        match first_ungraphed(rows, graph, n) {
            Some(k) => 0 <= k < n && !graphed(graph, rows[k]),
            None => forall|k: int| 0 <= k < n ==> graphed(graph, #[trigger] rows[k]),
        },
    decreases n,
{
    if n > 0 {
        lemma_unlisted(rows, index, graph, (n - 1) as nat);
    }
}

/// A bundle is accepted exactly where it says of itself what its row says of it and its checksum could
/// be taken and is the row's.
pub proof fn law_accepted_bundle(
    row: PublishAiVersionRow,
    bundle: PublishAiBundle,
    sha256: Result<String, String>,
)
    ensures
        bundle_fault(row, bundle, sha256) is None <==> bundle.object_count <= i64::MAX && bundle.site_id@
            == row.site_id@ && bundle.revision_oid@ == row.revision_oid@ && bundle.ai_version_id@
            == row.ai_version_id@ && bundle.schema_version == row.schema_version && bundle.object_count
            == row.object_count && mode_label(bundle.redaction_mode) == row.redaction_mode@
            && bundle.redaction_rules_version@ == row.redaction_rules_version@ && (sha256 matches Ok(actual)
            && actual@ == row.bundle_sha256@),
{
}

/// An object is accepted exactly where it says of itself what its row says of it and its checksum could
/// be taken and is the row's.
pub proof fn law_accepted_object(
    row: PublishAiObjectRow,
    object: PublishAiObject,
    sha256: Result<String, String>,
)
    ensures
        object_fault(row, object, sha256) is None <==> object.site_id@ == row.site_id@
            && object.revision_oid@ == row.revision_oid@ && object.object_type@ == row.object_type@
            && object.object_id@ == row.object_id@ && layer_label(object.layer) == row.layer@ && mode_label(
            object.redaction_mode,
        ) == row.redaction_mode@ && object.schema_version == row.schema_version && (sha256 matches Ok(actual)
            && actual@ == row.payload_sha256@),
{
}

/// Every version and every object is restored once, after the index where there is one and after the
/// graph where there are objects.
pub proof fn law_everything_is_restored_once(plan: CloudPublishRestorePlan, i: int)
    ensures
        ai_plan_fault(plan) is None <==> plan.ai_objects@.len() == 0 || (plan.revision.ai_index_key is Some
            && plan.ai_versions@.len() > 0),
        ({
            let s = ai_steps(plan);
            let index: int = if plan.revision.ai_index_key is Some {
                1
            } else {
                0
            };
            let graph: int = if plan.ai_objects@.len() > 0 {
                1
            } else {
                0
            };
            &&& s.len() == index + graph + plan.ai_versions@.len() + plan.ai_objects@.len()
            &&& index == 1 ==> s[0] is Index
            &&& graph == 1 ==> s[index] is Graph
            &&& 0 <= i < plan.ai_versions@.len() ==> s[index + graph + i] == AiRestoreStep::Version(
                i as usize,
            )
            &&& 0 <= i < plan.ai_objects@.len() ==> s[index + graph + plan.ai_versions@.len() + i]
                == AiRestoreStep::Object(i as usize)
        }),
{
}

/// An artifact is judged by what it is for, is kept where its row says, and is recorded under its own
/// name; a version's row is recorded beside its bundle.
pub proof fn law_artifact_is_recorded(
    plan: CloudPublishRestorePlan,
    step: AiRestoreStep,
    artifact: AiArtifact,
)
    requires
        in_plan(plan, step),
        restores(step, artifact),
    ensures
        match (step, artifact) {
            (AiRestoreStep::Index, AiArtifact::Index { index }) => {
                &&& artifact_fault(plan, step, artifact) == index_fault(plan, index)
                &&& artifact_history(plan, step, artifact) == seq![
                    ("publish_ai_index"@, index.revision_oid@, HistoryContent::Artifact),
                ]
                &&& artifact_key(plan, step) matches Some((key, what)) && plan.revision.ai_index_key matches Some(
                    k,
                ) && key == k@ && what == "AI index"@
            },
            (AiRestoreStep::Graph, AiArtifact::Graph { graph }) => {
                &&& artifact_fault(plan, step, artifact) == graph_fault(plan, graph)
                &&& artifact_history(plan, step, artifact) == seq![
                    ("publish_ai_graph"@, graph.revision_oid@, HistoryContent::Artifact),
                ]
                &&& artifact_key(plan, step) is None
            },
            (AiRestoreStep::Version(i), AiArtifact::Version { bundle, sha256 }) => {
                let row = plan.ai_versions@[i as int];
                &&& artifact_fault(plan, step, artifact) == bundle_fault(row, bundle, sha256)
                &&& artifact_history(plan, step, artifact).len() == 2
                &&& artifact_history(plan, step, artifact)[0] == (
                    "publish_ai_version"@,
                    row.ai_version_id@,
                    HistoryContent::VersionRow(i),
                )
                &&& artifact_history(plan, step, artifact)[1] == (
                    "publish_ai_bundle"@,
                    bundle.ai_version_id@,
                    HistoryContent::Artifact,
                )
                &&& artifact_key(plan, step) == Some((row.bundle_key@, "AI bundle"@))
            },
            (AiRestoreStep::Object(i), AiArtifact::Object { object, sha256 }) => {
                let row = plan.ai_objects@[i as int];
                &&& artifact_fault(plan, step, artifact) == object_fault(row, object, sha256)
                &&& artifact_history(plan, step, artifact) == seq![
                    (history_text(row.object_type@), row.object_id@, HistoryContent::Artifact),
                ]
                &&& artifact_key(plan, step) == Some((row.r2_key@, "AI object"@))
            },
            _ => false,
        },
{
}

} // verus!
