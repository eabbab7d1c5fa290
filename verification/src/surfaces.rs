//! The export contracts each tool surface attaches: knowledge graph, symbol
//! graph, project status, learning memory, bootstrap and audit.
use vstd::prelude::*;

use crate::contracts::{
    contract_describes_status, export_contract_meta, opt_status, slice_view, with_frontier_contract,
    with_surface_guidance, with_traversal_defaults, ExportContractMeta, ExportIdentity,
};
use crate::types::{opt_view, strs_view, IndexStatus};

verus! {

pub open spec fn opt_str_view(o: Option<&str>) -> Option<Seq<char>> {
    match o {
        Some(s) => Some(s@),
        None => None,
    }
}

fn opt_owned(o: Option<&str>) -> (r: Option<String>)
    ensures
        opt_view(r) == opt_str_view(o),
{
    match o {
        Some(s) => Some(s.to_owned()),
        None => None,
    }
}

/// The identity with no identifiers and no promises.
pub open spec fn identity_is_default(i: ExportIdentity) -> bool {
    &&& i.project_id.is_none()
    &&& i.entity_id.is_none()
    &&& i.stable_memory_id.is_none()
    &&& i.stable_symbol_id.is_none()
    &&& !i.stable_node_ids
    &&& !i.node_ids_are_project_scoped
    &&& !i.stable_edge_ids
    &&& !i.edge_ids_are_local_only
    &&& i.node_id_semantics.is_none()
    &&& i.edge_id_semantics.is_none()
}

/// Identity promises of a payload, all identifiers absent.
pub open spec fn identity_flags(
    i: ExportIdentity,
    stable_node_ids: bool,
    node_ids_are_project_scoped: bool,
    node_id_semantics: Seq<char>,
    edge_id_semantics: Seq<char>,
) -> bool {
    &&& i.stable_node_ids == stable_node_ids
    &&& i.node_ids_are_project_scoped == node_ids_are_project_scoped
    &&& !i.stable_edge_ids
    &&& i.edge_ids_are_local_only
    &&& opt_view(i.node_id_semantics) == Some(node_id_semantics)
    &&& opt_view(i.edge_id_semantics) == Some(edge_id_semantics)
}

/// The contract of a knowledge-graph answer: stable public node ids, local
/// edge references, mixed traversal defaults exposing relation metadata, and
/// a frontier of stable node ids for manual follow-up.
pub fn graph_export_contract(entity_id: Option<&str>) -> (r: ExportContractMeta)
    ensures
        opt_view(r.identity.entity_id) == opt_str_view(entity_id),
        r.identity.project_id.is_none(),
        r.identity.stable_memory_id.is_none(),
        r.identity.stable_symbol_id.is_none(),
        identity_flags(r.identity, true, false, "stable_public_node_id"@, "local_only_edge_reference"@),
        contract_describes_status(r, r.identity, None),
        strs_view(r.surface_guidance.preferred_response_fields@) == seq!["nodes"@, "edges"@, "contract"@],
        strs_view(r.surface_guidance.legacy_compatibility_fields@) == seq!["entities"@, "relations"@],
        strs_view(r.surface_guidance.forbidden_to_depend_fields@) == seq!["relations[].id"@, "edges[].id"@],
        r.traversal_defaults matches Some(t) && {
            &&& t.default_relation_scope@ == "mixed"@
            &&& strs_view(t.relation_metadata_exposed@) == seq![
                "relation_class"@,
                "provenance"@,
                "confidence_class"@,
                "freshness_generation"@,
                "staleness_state"@,
            ]
            &&& opt_view(t.frontier_semantics) == Some("unexpanded_boundary_for_manual_follow_up"@)
            &&& opt_view(t.frontier_items_identity_basis) == Some("stable_public_node_id"@)
            &&& t.frontier_items_are_stable_node_ids == Some(true)
            &&& t.frontier_items_are_project_scoped == Some(false)
            &&& t.frontier_is_cursor == Some(false)
        },
{
    let mut identity = ExportIdentity::default();
    identity.entity_id = opt_owned(entity_id);
    identity.stable_node_ids = true;
    identity.node_ids_are_project_scoped = false;
    identity.stable_edge_ids = false;
    identity.edge_ids_are_local_only = true;
    identity.node_id_semantics = Some(String::from_str("stable_public_node_id"));
    identity.edge_id_semantics = Some(String::from_str("local_only_edge_reference"));
    let preferred: [&str; 3] = ["nodes", "edges", "contract"];
    let legacy: [&str; 2] = ["entities", "relations"];
    let forbidden: [&str; 2] = ["relations[].id", "edges[].id"];
    let exposed: [&str; 5] = [
        "relation_class",
        "provenance",
        "confidence_class",
        "freshness_generation",
        "staleness_state",
    ];
    let base = export_contract_meta(identity, None);
    let guided = with_surface_guidance(base, preferred.as_slice(), legacy.as_slice(), forbidden.as_slice());
    let traversed = with_traversal_defaults(guided, "mixed", exposed.as_slice());
    let r = with_frontier_contract(
        traversed,
        "unexpanded_boundary_for_manual_follow_up",
        "stable_public_node_id",
        true,
        false,
    );
    proof {
        assert(slice_view(preferred@) =~= seq!["nodes"@, "edges"@, "contract"@]);
        assert(slice_view(legacy@) =~= seq!["entities"@, "relations"@]);
        assert(slice_view(forbidden@) =~= seq!["relations[].id"@, "edges[].id"@]);
        assert(slice_view(exposed@) =~= seq![
            "relation_class"@,
            "provenance"@,
            "confidence_class"@,
            "freshness_generation"@,
            "staleness_state"@,
        ]);
    }
    r
}

/// The contract of a symbol-graph answer: stable project-scoped symbol ids,
/// local edge references, mixed traversal defaults exposing relation
/// metadata, and a project-scoped symbol frontier.
pub fn symbol_export_contract(symbol_id: &str) -> (r: ExportContractMeta)
    ensures
        opt_view(r.identity.stable_symbol_id) == Some(symbol_id@),
        r.identity.project_id.is_none(),
        r.identity.entity_id.is_none(),
        r.identity.stable_memory_id.is_none(),
        identity_flags(
            r.identity,
            true,
            true,
            "stable_project_scoped_symbol_id"@,
            "local_only_edge_reference"@,
        ),
        contract_describes_status(r, r.identity, None),
        strs_view(r.surface_guidance.preferred_response_fields@) == seq!["nodes"@, "edges"@, "contract"@],
        strs_view(r.surface_guidance.legacy_compatibility_fields@) == seq![
            "symbols"@,
            "relations"@,
            "results"@,
        ],
        strs_view(r.surface_guidance.forbidden_to_depend_fields@) == seq!["relations[].id"@, "edges[].id"@],
        r.traversal_defaults matches Some(t) && {
            &&& t.default_relation_scope@ == "mixed"@
            &&& strs_view(t.relation_metadata_exposed@) == seq![
                "relation_class"@,
                "provenance"@,
                "confidence_class"@,
                "freshness_generation"@,
                "staleness_state"@,
            ]
            &&& opt_view(t.frontier_semantics) == Some(
                "unexpanded_symbol_boundary_for_manual_follow_up"@,
            )
            &&& opt_view(t.frontier_items_identity_basis) == Some("stable_project_scoped_symbol_id"@)
            &&& t.frontier_items_are_stable_node_ids == Some(true)
            &&& t.frontier_items_are_project_scoped == Some(true)
            &&& t.frontier_is_cursor == Some(false)
        },
{
    let mut identity = ExportIdentity::default();
    identity.stable_symbol_id = Some(symbol_id.to_owned());
    identity.stable_node_ids = true;
    identity.node_ids_are_project_scoped = true;
    identity.stable_edge_ids = false;
    identity.edge_ids_are_local_only = true;
    identity.node_id_semantics = Some(String::from_str("stable_project_scoped_symbol_id"));
    identity.edge_id_semantics = Some(String::from_str("local_only_edge_reference"));
    let preferred: [&str; 3] = ["nodes", "edges", "contract"];
    let legacy: [&str; 3] = ["symbols", "relations", "results"];
    let forbidden: [&str; 2] = ["relations[].id", "edges[].id"];
    let exposed: [&str; 5] = [
        "relation_class",
        "provenance",
        "confidence_class",
        "freshness_generation",
        "staleness_state",
    ];
    let base = export_contract_meta(identity, None);
    let guided = with_surface_guidance(base, preferred.as_slice(), legacy.as_slice(), forbidden.as_slice());
    let traversed = with_traversal_defaults(guided, "mixed", exposed.as_slice());
    let r = with_frontier_contract(
        traversed,
        "unexpanded_symbol_boundary_for_manual_follow_up",
        "stable_project_scoped_symbol_id",
        true,
        true,
    );
    proof {
        assert(slice_view(preferred@) =~= seq!["nodes"@, "edges"@, "contract"@]);
        assert(slice_view(legacy@) =~= seq!["symbols"@, "relations"@, "results"@]);
        assert(slice_view(forbidden@) =~= seq!["relations[].id"@, "edges[].id"@]);
        assert(slice_view(exposed@) =~= seq![
            "relation_class"@,
            "provenance"@,
            "confidence_class"@,
            "freshness_generation"@,
            "staleness_state"@,
        ]);
    }
    r
}

/// The contract of a project status answer: stable project-scoped project
/// ids, no public edge ids, lifecycle-first surface guidance, and the
/// generations reported by the lifecycle (zero when it reports none), which
/// also give the projection's generation.
pub fn project_status_contract(
    project_id: Option<&str>,
    status: Option<&IndexStatus>,
    structural_generation: u64,
    semantic_generation: u64,
) -> (r: ExportContractMeta)
    ensures
        opt_view(r.identity.project_id) == opt_str_view(project_id),
        r.identity.entity_id.is_none(),
        r.identity.stable_memory_id.is_none(),
        r.identity.stable_symbol_id.is_none(),
        identity_flags(
            r.identity,
            true,
            true,
            "stable_project_scoped_project_id"@,
            "no_public_edge_ids"@,
        ),
        r.schema_version == 1,
        r.projection_state == crate::contracts::spec_projection_contract_state(opt_status(status)),
        r.generation_basis.structural_generation == structural_generation,
        r.generation_basis.semantic_generation == semantic_generation,
        r.projection.generation == semantic_generation,
        r.projection.materialization.current_generation == semantic_generation,
        strs_view(r.surface_guidance.preferred_response_fields@) == seq!["lifecycle"@, "contract"@],
        strs_view(r.surface_guidance.legacy_compatibility_fields@) == seq![
            "status"@,
            "total_files"@,
            "indexed_files"@,
            "total_chunks"@,
            "total_symbols"@,
        ],
        r.surface_guidance.forbidden_to_depend_fields@.len() == 0,
        r.traversal_defaults.is_none(),
{
    let mut identity = ExportIdentity::default();
    identity.project_id = opt_owned(project_id);
    identity.stable_node_ids = true;
    identity.node_ids_are_project_scoped = true;
    identity.stable_edge_ids = false;
    identity.edge_ids_are_local_only = true;
    identity.node_id_semantics = Some(String::from_str("stable_project_scoped_project_id"));
    identity.edge_id_semantics = Some(String::from_str("no_public_edge_ids"));
    let preferred: [&str; 2] = ["lifecycle", "contract"];
    let legacy: [&str; 5] = ["status", "total_files", "indexed_files", "total_chunks", "total_symbols"];
    let forbidden: [&str; 0] = [];
    let base = export_contract_meta(identity, status);
    let mut contract = with_surface_guidance(
        base,
        preferred.as_slice(),
        legacy.as_slice(),
        forbidden.as_slice(),
    );
    contract.generation_basis.structural_generation = structural_generation;
    contract.generation_basis.semantic_generation = semantic_generation;
    contract.projection.generation = semantic_generation;
    contract.projection.materialization.current_generation = semantic_generation;
    proof {
        assert(slice_view(preferred@) =~= seq!["lifecycle"@, "contract"@]);
        assert(slice_view(legacy@) =~= seq![
            "status"@,
            "total_files"@,
            "indexed_files"@,
            "total_chunks"@,
            "total_symbols"@,
        ]);
        assert(slice_view(forbidden@) =~= Seq::<Seq<char>>::empty());
    }
    contract
}

/// The contract of a learning-memory answer: stable public memory ids, no
/// public edge ids.
pub fn learning_export_contract(memory_id: Option<&str>) -> (r: ExportContractMeta)
    ensures
        opt_view(r.identity.stable_memory_id) == opt_str_view(memory_id),
        r.identity.project_id.is_none(),
        r.identity.entity_id.is_none(),
        r.identity.stable_symbol_id.is_none(),
        identity_flags(r.identity, true, false, "stable_public_memory_id"@, "no_public_edge_ids"@),
        contract_describes_status(r, r.identity, None),
        strs_view(r.surface_guidance.preferred_response_fields@) == seq![
            "learning"@,
            "memory"@,
            "contract"@,
            "summary"@,
        ],
        strs_view(r.surface_guidance.legacy_compatibility_fields@) == seq![
            "count"@,
            "total"@,
            "filters"@,
        ],
        r.surface_guidance.forbidden_to_depend_fields@.len() == 0,
        r.traversal_defaults.is_none(),
{
    let mut identity = ExportIdentity::default();
    identity.stable_memory_id = opt_owned(memory_id);
    identity.stable_node_ids = true;
    identity.node_ids_are_project_scoped = false;
    identity.stable_edge_ids = false;
    identity.edge_ids_are_local_only = true;
    identity.node_id_semantics = Some(String::from_str("stable_public_memory_id"));
    identity.edge_id_semantics = Some(String::from_str("no_public_edge_ids"));
    let preferred: [&str; 4] = ["learning", "memory", "contract", "summary"];
    let legacy: [&str; 3] = ["count", "total", "filters"];
    let forbidden: [&str; 0] = [];
    let base = export_contract_meta(identity, None);
    let r = with_surface_guidance(base, preferred.as_slice(), legacy.as_slice(), forbidden.as_slice());
    proof {
        assert(slice_view(preferred@) =~= seq!["learning"@, "memory"@, "contract"@, "summary"@]);
        assert(slice_view(legacy@) =~= seq!["count"@, "total"@, "filters"@]);
        assert(slice_view(forbidden@) =~= Seq::<Seq<char>>::empty());
        assert(r.surface_guidance.forbidden_to_depend_fields@.len() == strs_view(r.surface_guidance.forbidden_to_depend_fields@).len());
    }
    r
}

/// The contract of a bootstrap answer: default identity and the bootstrap
/// sections as preferred fields.
pub fn bootstrap_export_contract() -> (r: ExportContractMeta)
    ensures
        identity_is_default(r.identity),
        contract_describes_status(r, r.identity, None),
        strs_view(r.surface_guidance.preferred_response_fields@) == seq![
            "active_tasks"@,
            "stable_context"@,
            "recovery"@,
            "project"@,
            "memory_health"@,
            "selection_summary"@,
            "contract"@,
            "summary"@,
        ],
        r.surface_guidance.legacy_compatibility_fields@.len() == 0,
        r.surface_guidance.forbidden_to_depend_fields@.len() == 0,
        r.traversal_defaults.is_none(),
{
    let preferred: [&str; 8] = [
        "active_tasks",
        "stable_context",
        "recovery",
        "project",
        "memory_health",
        "selection_summary",
        "contract",
        "summary",
    ];
    let none: [&str; 0] = [];
    let base = export_contract_meta(ExportIdentity::default(), None);
    let r = with_surface_guidance(base, preferred.as_slice(), none.as_slice(), none.as_slice());
    proof {
        assert(slice_view(preferred@) =~= seq![
            "active_tasks"@,
            "stable_context"@,
            "recovery"@,
            "project"@,
            "memory_health"@,
            "selection_summary"@,
            "contract"@,
            "summary"@,
        ]);
        assert(slice_view(none@) =~= Seq::<Seq<char>>::empty());
        assert(r.surface_guidance.legacy_compatibility_fields@.len() == strs_view(r.surface_guidance.legacy_compatibility_fields@).len());
        assert(r.surface_guidance.forbidden_to_depend_fields@.len() == strs_view(r.surface_guidance.forbidden_to_depend_fields@).len());
    }
    r
}

/// The contract of an audit answer: default identity and the audit
/// sections as preferred fields.
pub fn audit_export_contract() -> (r: ExportContractMeta)
    ensures
        identity_is_default(r.identity),
        contract_describes_status(r, r.identity, None),
        strs_view(r.surface_guidance.preferred_response_fields@) == seq![
            "lifecycle_counts"@,
            "purge_readiness"@,
            "observation_counts"@,
            "operator_signals"@,
            "contract"@,
            "summary"@,
        ],
        r.surface_guidance.legacy_compatibility_fields@.len() == 0,
        r.surface_guidance.forbidden_to_depend_fields@.len() == 0,
        r.traversal_defaults.is_none(),
{
    let preferred: [&str; 6] = [
        "lifecycle_counts",
        "purge_readiness",
        "observation_counts",
        "operator_signals",
        "contract",
        "summary",
    ];
    let none: [&str; 0] = [];
    let base = export_contract_meta(ExportIdentity::default(), None);
    let r = with_surface_guidance(base, preferred.as_slice(), none.as_slice(), none.as_slice());
    proof {
        assert(slice_view(preferred@) =~= seq![
            "lifecycle_counts"@,
            "purge_readiness"@,
            "observation_counts"@,
            "operator_signals"@,
            "contract"@,
            "summary"@,
        ]);
        assert(slice_view(none@) =~= Seq::<Seq<char>>::empty());
        assert(r.surface_guidance.legacy_compatibility_fields@.len() == strs_view(r.surface_guidance.legacy_compatibility_fields@).len());
        assert(r.surface_guidance.forbidden_to_depend_fields@.len() == strs_view(r.surface_guidance.forbidden_to_depend_fields@).len());
    }
    r
}

} // verus!
