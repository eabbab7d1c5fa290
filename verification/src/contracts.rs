//! Export contract metadata and response summaries that every tool surface
//! attaches to its payload: identity semantics, generation basis, projection
//! lifecycle, surface guidance, traversal defaults and partial-result flags.
use vstd::prelude::*;

use crate::types::{
    clone_strings, opt_view, strs_to_strings, strs_view, IndexState, IndexStatus,
    ProjectionState, SemanticState, StructuralState,
};

verus! {

/// Machine-readable reason attached to a partial or degraded answer.
#[derive(Debug, Clone, Copy, PartialEq, Eq, Structural)]
pub enum ContractReasonCode {
    Stale,
    Missing,
    Partial,
    Degraded,
    InvalidLocator,
    GenerationMismatch,
    Unsupported,
}

impl ContractReasonCode {
    pub open spec fn spec_name(self) -> Seq<char> {
        match self {
            ContractReasonCode::Stale => "stale"@,
            ContractReasonCode::Missing => "missing"@,
            ContractReasonCode::Partial => "partial"@,
            ContractReasonCode::Degraded => "degraded"@,
            ContractReasonCode::InvalidLocator => "invalid_locator"@,
            ContractReasonCode::GenerationMismatch => "generation_mismatch"@,
            ContractReasonCode::Unsupported => "unsupported"@,
        }
    }

    /// The wire name of the reason code.
    pub fn name(&self) -> (s: String)
        ensures
            s@ == self.spec_name(),
    {
        match self {
            ContractReasonCode::Stale => String::from_str("stale"),
            ContractReasonCode::Missing => String::from_str("missing"),
            ContractReasonCode::Partial => String::from_str("partial"),
            ContractReasonCode::Degraded => String::from_str("degraded"),
            ContractReasonCode::InvalidLocator => String::from_str("invalid_locator"),
            ContractReasonCode::GenerationMismatch => String::from_str("generation_mismatch"),
            ContractReasonCode::Unsupported => String::from_str("unsupported"),
        }
    }
}

/// State of the graph projection as promised by a contract.
#[derive(Debug, Clone, Copy, PartialEq, Eq, Structural)]
pub enum ProjectionContractState {
    Missing,
    Stale,
    Current,
}

impl ProjectionContractState {
    pub open spec fn spec_name(self) -> Seq<char> {
        match self {
            ProjectionContractState::Missing => "missing"@,
            ProjectionContractState::Stale => "stale"@,
            ProjectionContractState::Current => "current"@,
        }
    }

    pub fn name(&self) -> (s: String)
        ensures
            s@ == self.spec_name(),
    {
        match self {
            ProjectionContractState::Missing => String::from_str("missing"),
            ProjectionContractState::Stale => String::from_str("stale"),
            ProjectionContractState::Current => String::from_str("current"),
        }
    }
}

/// Compatibility promise of the contract schema.
#[derive(Debug, Clone, Copy, PartialEq, Eq)]
pub struct ContractCompatibility {
    pub clients_must_ignore_unknown_fields: bool,
}

impl Default for ContractCompatibility {
    fn default() -> (r: Self)
        ensures
            r.clients_must_ignore_unknown_fields,
    {
        ContractCompatibility { clients_must_ignore_unknown_fields: true }
    }
}

/// Which identifiers in a payload are stable, and what they mean.
#[derive(Debug, PartialEq)]
pub struct ExportIdentity {
    pub project_id: Option<String>,
    pub entity_id: Option<String>,
    pub stable_memory_id: Option<String>,
    pub stable_symbol_id: Option<String>,
    pub stable_node_ids: bool,
    pub node_ids_are_project_scoped: bool,
    pub stable_edge_ids: bool,
    pub edge_ids_are_local_only: bool,
    pub node_id_semantics: Option<String>,
    pub edge_id_semantics: Option<String>,
}

impl Default for ExportIdentity {
    fn default() -> (r: Self)
        ensures
            r.project_id.is_none(),
            r.entity_id.is_none(),
            r.stable_memory_id.is_none(),
            r.stable_symbol_id.is_none(),
            !r.stable_node_ids,
            !r.node_ids_are_project_scoped,
            !r.stable_edge_ids,
            !r.edge_ids_are_local_only,
            r.node_id_semantics.is_none(),
            r.edge_id_semantics.is_none(),
    {
        ExportIdentity {
            project_id: None,
            entity_id: None,
            stable_memory_id: None,
            stable_symbol_id: None,
            stable_node_ids: false,
            node_ids_are_project_scoped: false,
            stable_edge_ids: false,
            edge_ids_are_local_only: false,
            node_id_semantics: None,
            edge_id_semantics: None,
        }
    }
}

#[derive(Debug, PartialEq)]
pub struct StructuralLifecycleView {
    pub state: String,
    pub is_ready: bool,
    pub generation: u64,
}

#[derive(Debug, PartialEq)]
pub struct SemanticLifecycleView {
    pub state: String,
    pub is_ready: bool,
    pub generation: u64,
    pub is_caught_up: bool,
}

#[derive(Debug, PartialEq)]
pub struct ProjectionLifecycleView {
    pub state: String,
    pub is_current: bool,
}

/// The three lifecycle layers of a project as exposed to clients.
#[derive(Debug, PartialEq)]
pub struct LifecycleView {
    pub structural: StructuralLifecycleView,
    pub semantic: SemanticLifecycleView,
    pub projection: ProjectionLifecycleView,
}

/// What a contract's generations are based on.
#[derive(Debug, PartialEq)]
pub struct GenerationBasis {
    pub project_status: Option<String>,
    pub lifecycle: Option<LifecycleView>,
    pub structural_generation: u64,
    pub semantic_generation: u64,
}

/// How (and whether) a projection is materialized and addressable.
#[derive(Debug, PartialEq)]
pub struct ProjectionMaterializationEnvelope {
    pub strategy: String,
    pub identity_basis: String,
    pub refresh_basis: String,
    pub persistence: String,
    pub persistence_semantics: String,
    pub shape_version: u32,
    pub shape_version_semantics: String,
    pub is_addressable: bool,
    pub addressability_semantics: String,
    pub locator_kind: Option<String>,
    pub locator: Option<String>,
    pub locator_semantics: String,
    pub locator_stability: String,
    pub locator_scope: String,
    pub locator_is_opaque: bool,
    pub locator_can_be_persisted_by_clients: bool,
    pub locator_survives_generation_change: bool,
    pub last_materialized_generation: Option<u64>,
    pub current_generation: u64,
    pub consistent_with_projection_state: bool,
}

#[derive(Debug, PartialEq)]
pub struct ProjectionEnvelope {
    pub state: ProjectionContractState,
    pub basis: String,
    pub generation: u64,
    pub materialization: ProjectionMaterializationEnvelope,
}

/// Which response fields clients should prefer, keep for compatibility, or
/// never depend on.
#[derive(Debug, PartialEq)]
pub struct SurfaceGuidance {
    pub preferred_response_fields: Vec<String>,
    pub legacy_compatibility_fields: Vec<String>,
    pub forbidden_to_depend_fields: Vec<String>,
}

/// Defaults and frontier semantics of graph traversals.
#[derive(Debug, PartialEq)]
pub struct TraversalDefaults {
    pub default_relation_scope: String,
    pub relation_metadata_exposed: Vec<String>,
    pub frontier_semantics: Option<String>,
    pub frontier_items_identity_basis: Option<String>,
    pub frontier_items_are_stable_node_ids: Option<bool>,
    pub frontier_items_are_project_scoped: Option<bool>,
    pub frontier_is_cursor: Option<bool>,
}

/// The contract metadata attached to exported payloads.
#[derive(Debug, PartialEq)]
pub struct ExportContractMeta {
    pub schema_version: u32,
    pub compatibility: ContractCompatibility,
    pub identity: ExportIdentity,
    pub generation_basis: GenerationBasis,
    pub projection_state: ProjectionContractState,
    pub projection: ProjectionEnvelope,
    pub surface_guidance: SurfaceGuidance,
    pub traversal_defaults: Option<TraversalDefaults>,
}

/// Counts reported in a response summary; absent counts do not apply.
#[derive(Debug, Clone, Copy, PartialEq, Eq)]
pub struct CountSummary {
    pub nodes: Option<usize>,
    pub edges: Option<usize>,
    pub results: Option<usize>,
    pub total: Option<usize>,
    pub files: Option<u32>,
    pub indexed_files: Option<u32>,
    pub chunks: Option<u32>,
    pub symbols: Option<u32>,
}

impl Default for CountSummary {
    fn default() -> (r: Self)
        ensures
            r == (CountSummary {
                nodes: None,
                edges: None,
                results: None,
                total: None,
                files: None,
                indexed_files: None,
                chunks: None,
                symbols: None,
            }),
    {
        CountSummary {
            nodes: None,
            edges: None,
            results: None,
            total: None,
            files: None,
            indexed_files: None,
            chunks: None,
            symbols: None,
        }
    }
}

#[derive(Debug, PartialEq)]
pub struct FrontierSummary {
    pub count: usize,
    pub items: Vec<String>,
}

#[derive(Debug, PartialEq)]
pub struct TraversalSummary {
    pub depth_reached: Option<u32>,
    pub truncated: Option<bool>,
    pub deferred_count: Option<usize>,
    pub frontier: Option<FrontierSummary>,
}

/// Whether an answer is partial, and why.
#[derive(Debug, PartialEq)]
pub struct PartialSummary {
    pub is_partial: bool,
    pub reason_code: Option<ContractReasonCode>,
    pub reason: Option<String>,
    pub message: Option<String>,
}

/// The summary block of a response.
#[derive(Debug, PartialEq)]
pub struct ExportResponseSummary {
    pub result_kind: String,
    pub counts: CountSummary,
    pub traversal: Option<TraversalSummary>,
    pub partial: Option<PartialSummary>,
}

// ─── lifecycle and projection helpers ───────────────────────────────────────

/// `view` shows the lifecycle layers of `s`.
pub open spec fn lifecycle_describes(view: LifecycleView, s: IndexStatus) -> bool {
    &&& view.structural.state@ == s.structural_state.spec_name()
    &&& view.structural.is_ready == (s.structural_state == StructuralState::Ready)
    &&& view.structural.generation == s.structural_generation
    &&& view.semantic.state@ == s.semantic_state.spec_name()
    &&& view.semantic.is_ready == (s.semantic_state == SemanticState::Ready)
    &&& view.semantic.generation == s.semantic_generation
    &&& view.semantic.is_caught_up == (s.semantic_state == SemanticState::Ready
        && s.semantic_generation == s.structural_generation)
    &&& view.projection.state@ == s.projection_state.spec_name()
    &&& view.projection.is_current == (s.projection_state == ProjectionState::Current)
}

/// The lifecycle layers of a project status.
pub fn lifecycle_view(status: &IndexStatus) -> (r: LifecycleView)
    ensures
        lifecycle_describes(r, *status),
{
    LifecycleView {
        structural: StructuralLifecycleView {
            state: status.structural_state.name(),
            is_ready: status.structural_state == StructuralState::Ready,
            generation: status.structural_generation,
        },
        semantic: SemanticLifecycleView {
            state: status.semantic_state.name(),
            is_ready: status.semantic_state == SemanticState::Ready,
            generation: status.semantic_generation,
            is_caught_up: status.semantic_state == SemanticState::Ready
                && status.semantic_generation == status.structural_generation,
        },
        projection: ProjectionLifecycleView {
            state: status.projection_state.name(),
            is_current: status.projection_state == ProjectionState::Current,
        },
    }
}

/// Contract projection state: missing without a status, otherwise the
/// status's projection currency.
pub open spec fn spec_projection_contract_state(status: Option<IndexStatus>) -> ProjectionContractState {
    match status {
        None => ProjectionContractState::Missing,
        Some(s) => match s.projection_state {
            ProjectionState::Current => ProjectionContractState::Current,
            ProjectionState::Stale => ProjectionContractState::Stale,
        },
    }
}

fn projection_contract_state(status: Option<&IndexStatus>) -> (r: ProjectionContractState)
    ensures
        r == spec_projection_contract_state(match status {
            Some(s) => Some(*s),
            None => None,
        }),
{
    match status {
        None => ProjectionContractState::Missing,
        Some(status) => match status.projection_state {
            ProjectionState::Current => ProjectionContractState::Current,
            ProjectionState::Stale => ProjectionContractState::Stale,
        },
    }
}

/// The optional status by value, as contracts talk about it.
pub open spec fn opt_status(status: Option<&IndexStatus>) -> Option<IndexStatus> {
    match status {
        Some(s) => Some(*s),
        None => None,
    }
}

/// Semantic generation of the status, zero without one.
pub open spec fn spec_projection_generation(status: Option<IndexStatus>) -> u64 {
    match status {
        Some(s) => s.semantic_generation,
        None => 0,
    }
}

/// Structural generation of the status, zero without one.
pub open spec fn spec_structural_generation(status: Option<IndexStatus>) -> u64 {
    match status {
        Some(s) => s.structural_generation,
        None => 0,
    }
}

fn projection_generation(status: Option<&IndexStatus>) -> (r: u64)
    ensures
        r == spec_projection_generation(opt_status(status)),
{
    match status {
        Some(s) => s.semantic_generation,
        None => 0,
    }
}

fn projection_basis_kind() -> (r: String)
    ensures
        r@ == "semantic_generation"@,
{
    String::from_str("semantic_generation")
}

/// The fixed description of the projection materialization at `generation`:
/// not materialized, not addressable, no locator.
pub open spec fn materialization_describes(m: ProjectionMaterializationEnvelope, generation: u64) -> bool {
    &&& m.strategy@ == "not_materialized"@
    &&& m.identity_basis@ == "project_id + semantic_generation"@
    &&& m.refresh_basis@ == "semantic_generation"@
    &&& m.persistence@ == "ephemeral_contract_only"@
    &&& m.persistence_semantics@
        == "contract is exposed on status surfaces only; no persisted projection artifact is promised yet"@
    &&& m.shape_version == 1
    &&& m.shape_version_semantics@ == "materialized_projection_payload_shape_version"@
    &&& !m.is_addressable
    &&& m.addressability_semantics@
        == "no_stable_external_read_target_is_promised_until_materialization_strategy_changes"@
    &&& m.locator_kind.is_none()
    &&& m.locator.is_none()
    &&& m.locator_semantics@
        == "absent_when_not_materialized; when present it identifies the externally consumable projection instance"@
    &&& m.locator_stability@ == "not_stable_until_materialization_strategy_changes"@
    &&& m.locator_scope@ == "none_when_not_materialized"@
    &&& m.locator_is_opaque
    &&& !m.locator_can_be_persisted_by_clients
    &&& !m.locator_survives_generation_change
    &&& m.last_materialized_generation.is_none()
    &&& m.current_generation == generation
    &&& m.consistent_with_projection_state
}

fn projection_materialization(status: Option<&IndexStatus>) -> (r: ProjectionMaterializationEnvelope)
    ensures
        materialization_describes(r, spec_projection_generation(opt_status(status))),
{
    let current_generation = projection_generation(status);
    let state = projection_contract_state(status);
    ProjectionMaterializationEnvelope {
        strategy: String::from_str("not_materialized"),
        identity_basis: String::from_str("project_id + semantic_generation"),
        refresh_basis: projection_basis_kind(),
        persistence: String::from_str("ephemeral_contract_only"),
        persistence_semantics: String::from_str(
            "contract is exposed on status surfaces only; no persisted projection artifact is promised yet",
        ),
        shape_version: 1,
        shape_version_semantics: String::from_str("materialized_projection_payload_shape_version"),
        is_addressable: false,
        addressability_semantics: String::from_str(
            "no_stable_external_read_target_is_promised_until_materialization_strategy_changes",
        ),
        locator_kind: None,
        locator: None,
        locator_semantics: String::from_str(
            "absent_when_not_materialized; when present it identifies the externally consumable projection instance",
        ),
        locator_stability: String::from_str("not_stable_until_materialization_strategy_changes"),
        locator_scope: String::from_str("none_when_not_materialized"),
        locator_is_opaque: true,
        locator_can_be_persisted_by_clients: false,
        locator_survives_generation_change: false,
        last_materialized_generation: None,
        current_generation,
        consistent_with_projection_state: match state {
            ProjectionContractState::Missing => true,
            ProjectionContractState::Stale => true,
            ProjectionContractState::Current => true,
        },
    }
}

/// `c` is the base contract for `identity` and `status`: schema version 1,
/// generations and lifecycle copied from the status (zero and absent
/// without one), projection state and envelope derived from it, empty
/// surface guidance and no traversal defaults.
pub open spec fn contract_describes_status(
    c: ExportContractMeta,
    identity: ExportIdentity,
    status: Option<IndexStatus>,
) -> bool {
    &&& c.schema_version == 1
    &&& c.compatibility.clients_must_ignore_unknown_fields
    &&& c.identity == identity
    &&& opt_view(c.generation_basis.project_status) == match status {
        Some(s) => Some(s.status.spec_name()),
        None => None::<Seq<char>>,
    }
    &&& match status {
        Some(s) => c.generation_basis.lifecycle matches Some(l) && lifecycle_describes(l, s),
        None => c.generation_basis.lifecycle.is_none(),
    }
    &&& c.generation_basis.structural_generation == spec_structural_generation(status)
    &&& c.generation_basis.semantic_generation == spec_projection_generation(status)
    &&& c.projection_state == spec_projection_contract_state(status)
    &&& c.projection.state == spec_projection_contract_state(status)
    &&& c.projection.basis@ == "semantic_generation"@
    &&& c.projection.generation == spec_projection_generation(status)
    &&& materialization_describes(c.projection.materialization, spec_projection_generation(status))
}

/// The base export contract for a payload with the given identity, derived
/// from the project status when there is one.
pub fn export_contract_meta(identity: ExportIdentity, status: Option<&IndexStatus>) -> (r: ExportContractMeta)
    ensures
        contract_describes_status(r, identity, opt_status(status)),
        r.surface_guidance.preferred_response_fields@.len() == 0,
        r.surface_guidance.legacy_compatibility_fields@.len() == 0,
        r.surface_guidance.forbidden_to_depend_fields@.len() == 0,
        r.traversal_defaults.is_none(),
{
    let (project_status, lifecycle, structural_generation, semantic_generation) = match status {
        Some(s) => (Some(s.status.name()), Some(lifecycle_view(s)), s.structural_generation, s.semantic_generation),
        None => (None, None, 0, 0),
    };
    ExportContractMeta {
        schema_version: 1,
        compatibility: ContractCompatibility::default(),
        identity,
        generation_basis: GenerationBasis {
            project_status,
            lifecycle,
            structural_generation,
            semantic_generation,
        },
        projection_state: projection_contract_state(status),
        projection: ProjectionEnvelope {
            state: projection_contract_state(status),
            basis: projection_basis_kind(),
            generation: projection_generation(status),
            materialization: projection_materialization(status),
        },
        surface_guidance: SurfaceGuidance {
            preferred_response_fields: Vec::new(),
            legacy_compatibility_fields: Vec::new(),
            forbidden_to_depend_fields: Vec::new(),
        },
        traversal_defaults: None,
    }
}

/// The character views of a slice of string slices.
pub open spec fn slice_view(v: Seq<&str>) -> Seq<Seq<char>> {
    v.map_values(|s: &str| s@)
}

/// Replaces the surface guidance of a contract; everything else is kept.
pub fn with_surface_guidance(
    contract: ExportContractMeta,
    preferred_response_fields: &[&str],
    legacy_compatibility_fields: &[&str],
    forbidden_to_depend_fields: &[&str],
) -> (r: ExportContractMeta)
    ensures
        r == (ExportContractMeta { surface_guidance: r.surface_guidance, ..contract }),
        strs_view(r.surface_guidance.preferred_response_fields@) == slice_view(preferred_response_fields@),
        strs_view(r.surface_guidance.legacy_compatibility_fields@) == slice_view(legacy_compatibility_fields@),
        strs_view(r.surface_guidance.forbidden_to_depend_fields@) == slice_view(forbidden_to_depend_fields@),
{
    let mut contract = contract;
    let preferred = strs_to_strings(preferred_response_fields);
    let legacy = strs_to_strings(legacy_compatibility_fields);
    let forbidden = strs_to_strings(forbidden_to_depend_fields);
    proof {
        assert(strs_view(preferred@) =~= slice_view(preferred_response_fields@));
        assert(strs_view(legacy@) =~= slice_view(legacy_compatibility_fields@));
        assert(strs_view(forbidden@) =~= slice_view(forbidden_to_depend_fields@));
    }
    contract.surface_guidance = SurfaceGuidance {
        preferred_response_fields: preferred,
        legacy_compatibility_fields: legacy,
        forbidden_to_depend_fields: forbidden,
    };
    contract
}

/// Sets traversal defaults with the given default scope and exposed relation
/// metadata and no frontier semantics; everything else is kept.
pub fn with_traversal_defaults(
    contract: ExportContractMeta,
    default_relation_scope: &str,
    relation_metadata_exposed: &[&str],
) -> (r: ExportContractMeta)
    ensures
        r == (ExportContractMeta { traversal_defaults: r.traversal_defaults, ..contract }),
        r.traversal_defaults matches Some(t) && {
            &&& t.default_relation_scope@ == default_relation_scope@
            &&& strs_view(t.relation_metadata_exposed@) == slice_view(relation_metadata_exposed@)
            &&& t.frontier_semantics.is_none()
            &&& t.frontier_items_identity_basis.is_none()
            &&& t.frontier_items_are_stable_node_ids.is_none()
            &&& t.frontier_items_are_project_scoped.is_none()
            &&& t.frontier_is_cursor.is_none()
        },
{
    let mut contract = contract;
    let exposed = strs_to_strings(relation_metadata_exposed);
    proof {
        assert(strs_view(exposed@) =~= slice_view(relation_metadata_exposed@));
    }
    contract.traversal_defaults = Some(TraversalDefaults {
        default_relation_scope: default_relation_scope.to_owned(),
        relation_metadata_exposed: exposed,
        frontier_semantics: None,
        frontier_items_identity_basis: None,
        frontier_items_are_stable_node_ids: None,
        frontier_items_are_project_scoped: None,
        frontier_is_cursor: None,
    });
    contract
}

/// Adds frontier semantics to the traversal defaults, creating "mixed"
/// defaults with no exposed metadata when there were none; frontier items
/// are never a cursor. Everything else is kept.
pub fn with_frontier_contract(
    contract: ExportContractMeta,
    frontier_semantics: &str,
    identity_basis: &str,
    are_stable_node_ids: bool,
    are_project_scoped: bool,
) -> (r: ExportContractMeta)
    ensures
        r == (ExportContractMeta { traversal_defaults: r.traversal_defaults, ..contract }),
        r.traversal_defaults matches Some(t) && {
            &&& match contract.traversal_defaults {
                Some(old) => {
                    &&& t.default_relation_scope == old.default_relation_scope
                    &&& t.relation_metadata_exposed == old.relation_metadata_exposed
                },
                None => {
                    &&& t.default_relation_scope@ == "mixed"@
                    &&& t.relation_metadata_exposed@.len() == 0
                },
            }
            &&& opt_view(t.frontier_semantics) == Some(frontier_semantics@)
            &&& opt_view(t.frontier_items_identity_basis) == Some(identity_basis@)
            &&& t.frontier_items_are_stable_node_ids == Some(are_stable_node_ids)
            &&& t.frontier_items_are_project_scoped == Some(are_project_scoped)
            &&& t.frontier_is_cursor == Some(false)
        },
{
    let mut contract = contract;
    let existing = contract.traversal_defaults.take();
    let mut defaults = match existing {
        Some(d) => d,
        None => TraversalDefaults {
            default_relation_scope: String::from_str("mixed"),
            relation_metadata_exposed: Vec::new(),
            frontier_semantics: None,
            frontier_items_identity_basis: None,
            frontier_items_are_stable_node_ids: None,
            frontier_items_are_project_scoped: None,
            frontier_is_cursor: None,
        },
    };
    defaults.frontier_semantics = Some(frontier_semantics.to_owned());
    defaults.frontier_items_identity_basis = Some(identity_basis.to_owned());
    defaults.frontier_items_are_stable_node_ids = Some(are_stable_node_ids);
    defaults.frontier_items_are_project_scoped = Some(are_project_scoped);
    defaults.frontier_is_cursor = Some(false);
    contract.traversal_defaults = Some(defaults);
    contract
}

// ─── response summaries ──────────────────────────────────────────────────────

/// Counts with only nodes and edges set.
pub open spec fn graph_counts(nodes: usize, edges: usize) -> CountSummary {
    CountSummary {
        nodes: Some(nodes),
        edges: Some(edges),
        results: None,
        total: None,
        files: None,
        indexed_files: None,
        chunks: None,
        symbols: None,
    }
}

/// Summary of a plain graph answer.
pub fn summary_graph_response(nodes: usize, edges: usize) -> (r: ExportResponseSummary)
    ensures
        r.result_kind@ == "graph"@,
        r.counts == graph_counts(nodes, edges),
        r.traversal.is_none(),
        r.partial.is_none(),
{
    ExportResponseSummary {
        result_kind: String::from_str("graph"),
        counts: CountSummary { nodes: Some(nodes), edges: Some(edges), ..CountSummary::default() },
        traversal: None,
        partial: None,
    }
}

/// Reason code for a partial projection: only a stale projection has one.
pub open spec fn spec_projection_partial_reason_code(s: IndexStatus) -> Option<ContractReasonCode> {
    match s.projection_state {
        ProjectionState::Current => None,
        ProjectionState::Stale => Some(ContractReasonCode::Stale),
    }
}

fn projection_partial_reason_code(status: &IndexStatus) -> (r: Option<ContractReasonCode>)
    ensures
        r == spec_projection_partial_reason_code(*status),
{
    match status.projection_state {
        ProjectionState::Current => None,
        ProjectionState::Stale => Some(ContractReasonCode::Stale),
    }
}

/// Slug of a projection reason code.
pub open spec fn projection_reason_slug(code: ContractReasonCode) -> Seq<char> {
    match code {
        ContractReasonCode::Stale => "projection_stale"@,
        ContractReasonCode::Missing => "projection_missing"@,
        ContractReasonCode::Partial => "projection_partial"@,
        ContractReasonCode::Degraded => "projection_degraded"@,
        ContractReasonCode::InvalidLocator => "projection_invalid_locator"@,
        ContractReasonCode::GenerationMismatch => "projection_generation_mismatch"@,
        ContractReasonCode::Unsupported => "projection_unsupported"@,
    }
}

fn projection_partial_reason_slug(status: &IndexStatus) -> (r: Option<String>)
    ensures
        opt_view(r) == match spec_projection_partial_reason_code(*status) {
            Some(code) => Some(projection_reason_slug(code)),
            None => None::<Seq<char>>,
        },
{
    match projection_partial_reason_code(status) {
        Some(code) => Some(match code {
            ContractReasonCode::Stale => String::from_str("projection_stale"),
            ContractReasonCode::Missing => String::from_str("projection_missing"),
            ContractReasonCode::Partial => String::from_str("projection_partial"),
            ContractReasonCode::Degraded => String::from_str("projection_degraded"),
            ContractReasonCode::InvalidLocator => String::from_str("projection_invalid_locator"),
            ContractReasonCode::GenerationMismatch => String::from_str(
                "projection_generation_mismatch",
            ),
            ContractReasonCode::Unsupported => String::from_str("projection_unsupported"),
        }),
        None => None,
    }
}

pub open spec fn projection_current_message() -> Seq<char> {
    "Projection is an on-demand export of the current semantic snapshot; no separately materialized artifact is promised."@
}

pub open spec fn projection_lagging_message() -> Seq<char> {
    "Projection is an on-demand export of the latest available semantic snapshot and may lag structural changes."@
}

/// `r` summarizes a projection of `s` with the given counts: partial exactly
/// when the projection is not current, with the stale reason and a message
/// saying whether the snapshot may lag.
pub open spec fn projection_summary_describes(
    r: ExportResponseSummary,
    s: IndexStatus,
    nodes: usize,
    edges: usize,
) -> bool {
    let is_partial = s.projection_state != ProjectionState::Current;
    &&& r.result_kind@ == "graph"@
    &&& r.counts == graph_counts(nodes, edges)
    &&& r.traversal.is_none()
    &&& r.partial matches Some(p) && {
        &&& p.is_partial == is_partial
        &&& p.reason_code == spec_projection_partial_reason_code(s)
        &&& opt_view(p.reason) == match spec_projection_partial_reason_code(s) {
            Some(code) => Some(projection_reason_slug(code)),
            None => None::<Seq<char>>,
        }
        &&& opt_view(p.message) == Some(
            if is_partial {
                projection_lagging_message()
            } else {
                projection_current_message()
            },
        )
    }
}

/// Summary of a project projection.
pub fn summary_project_projection_response(status: &IndexStatus, nodes: usize, edges: usize) -> (r: ExportResponseSummary)
    ensures
        projection_summary_describes(r, *status, nodes, edges),
{
    let is_partial = status.projection_state != ProjectionState::Current;
    ExportResponseSummary {
        result_kind: String::from_str("graph"),
        counts: CountSummary { nodes: Some(nodes), edges: Some(edges), ..CountSummary::default() },
        traversal: None,
        partial: Some(
            PartialSummary {
                is_partial,
                reason_code: projection_partial_reason_code(status),
                reason: projection_partial_reason_slug(status),
                message: Some(
                    if is_partial {
                        String::from_str(
                            "Projection is an on-demand export of the latest available semantic snapshot and may lag structural changes.",
                        )
                    } else {
                        String::from_str(
                            "Projection is an on-demand export of the current semantic snapshot; no separately materialized artifact is promised.",
                        )
                    },
                ),
            },
        ),
    }
}

/// Depth as reported: clamped to `u32::MAX`.
pub open spec fn clamp_depth(depth: usize) -> u32 {
    if depth <= u32::MAX {
        depth as u32
    } else {
        u32::MAX
    }
}

/// Summary of a symbol-graph traversal.
pub fn summary_symbol_graph_response(
    nodes: usize,
    edges: usize,
    depth_reached: usize,
    truncated: bool,
    deferred_count: usize,
    frontier: &[String],
) -> (r: ExportResponseSummary)
    ensures
        r.result_kind@ == "graph"@,
        r.counts == graph_counts(nodes, edges),
        r.partial.is_none(),
        r.traversal matches Some(t) && {
            &&& t.depth_reached == Some(clamp_depth(depth_reached))
            &&& t.truncated == Some(truncated)
            &&& t.deferred_count == Some(deferred_count)
            &&& t.frontier matches Some(f) && {
                &&& f.count == frontier@.len()
                &&& f.items@ == frontier@
            }
        },
{
    let depth: u32 = if depth_reached <= 4294967295usize {
        depth_reached as u32
    } else {
        4294967295u32
    };
    let mut items: Vec<String> = Vec::new();
    for i in 0..frontier.len()
        invariant
            items@ == frontier@.subrange(0, i as int),
    {
        items.push(frontier[i].clone());
    }
    proof {
        assert(frontier@.subrange(0, frontier@.len() as int) == frontier@);
    }
    ExportResponseSummary {
        result_kind: String::from_str("graph"),
        counts: CountSummary { nodes: Some(nodes), edges: Some(edges), ..CountSummary::default() },
        traversal: Some(
            TraversalSummary {
                depth_reached: Some(depth),
                truncated: Some(truncated),
                deferred_count: Some(deferred_count),
                frontier: Some(FrontierSummary { count: frontier.len(), items }),
            },
        ),
        partial: None,
    }
}

/// Counts with only results and total set.
pub open spec fn collection_counts(count: usize, total: Option<usize>) -> CountSummary {
    CountSummary {
        nodes: None,
        edges: None,
        results: Some(count),
        total,
        files: None,
        indexed_files: None,
        chunks: None,
        symbols: None,
    }
}

/// `p` flags an answer partial because indexing is in progress, or complete.
pub open spec fn in_progress_partial(p: PartialSummary, is_partial: bool, message: Option<String>) -> bool {
    &&& p.is_partial == is_partial
    &&& p.reason_code == if is_partial {
        Some(ContractReasonCode::Partial)
    } else {
        None
    }
    &&& opt_view(p.reason) == if is_partial {
        Some("indexing_in_progress"@)
    } else {
        None
    }
    &&& p.message == message
}

/// Summary of a collection answer.
pub fn summary_collection_response(
    result_kind: &str,
    count: usize,
    total: Option<usize>,
    is_partial: bool,
    message: Option<String>,
) -> (r: ExportResponseSummary)
    ensures
        r.result_kind@ == result_kind@,
        r.counts == collection_counts(count, total),
        r.traversal.is_none(),
        r.partial matches Some(p) && in_progress_partial(p, is_partial, message),
{
    ExportResponseSummary {
        result_kind: result_kind.to_owned(),
        counts: CountSummary { results: Some(count), total, ..CountSummary::default() },
        traversal: None,
        partial: Some(
            PartialSummary {
                is_partial,
                reason_code: if is_partial {
                    Some(ContractReasonCode::Partial)
                } else {
                    None
                },
                reason: if is_partial {
                    Some(String::from_str("indexing_in_progress"))
                } else {
                    None
                },
                message,
            },
        ),
    }
}

/// Counts of an index status summary.
pub open spec fn status_counts(files: u32, indexed: u32, chunks: u32, symbols: u32) -> CountSummary {
    CountSummary {
        nodes: None,
        edges: None,
        results: None,
        total: None,
        files: Some(files),
        indexed_files: Some(indexed),
        chunks: Some(chunks),
        symbols: Some(symbols),
    }
}

/// Summary of an index status answer. The progress slug (which the caller
/// formats from the progress percentage) is reported as the reason of a
/// partial answer; a complete answer has no reason code or reason.
pub fn summary_index_status_counts(
    total_files: u32,
    indexed_files: u32,
    total_chunks: u32,
    total_symbols: u32,
    progress_slug: String,
    is_partial: bool,
    message: Option<String>,
) -> (r: ExportResponseSummary)
    ensures
        r.result_kind@ == "status"@,
        r.counts == status_counts(total_files, indexed_files, total_chunks, total_symbols),
        r.traversal.is_none(),
        r.partial matches Some(p) && {
            &&& p.is_partial == is_partial
            &&& p.reason_code == if is_partial {
                Some(ContractReasonCode::Partial)
            } else {
                None
            }
            &&& p.reason == if is_partial {
                Some(progress_slug)
            } else {
                None
            }
            &&& p.message == message
        },
{
    ExportResponseSummary {
        result_kind: String::from_str("status"),
        counts: CountSummary {
            files: Some(total_files),
            indexed_files: Some(indexed_files),
            chunks: Some(total_chunks),
            symbols: Some(total_symbols),
            ..CountSummary::default()
        },
        traversal: None,
        partial: Some(
            PartialSummary {
                is_partial,
                reason_code: if is_partial {
                    Some(ContractReasonCode::Partial)
                } else {
                    None
                },
                reason: if is_partial {
                    Some(progress_slug)
                } else {
                    None
                },
                message,
            },
        ),
    }
}

} // verus!
