//! Code-intelligence serving rules: which project a code tool answers for,
//! which generation is serving or being indexed, and how fresh each returned
//! symbol, node and edge is.
use vstd::prelude::*;

use crate::contracts::ContractReasonCode;
use crate::types::{str_eq, IndexState, IndexStatus};

verus! {

// ─── tool context and project resolution ─────────────────────────────────────

/// The session a code tool call arrived in, when the transport has one.
#[derive(Debug, Clone, PartialEq, Eq)]
pub struct CodeToolContext {
    pub session_id: Option<String>,
}

impl CodeToolContext {
    pub fn from_session_id(session_id: Option<String>) -> (r: CodeToolContext)
        ensures
            r.session_id == session_id,
    {
        CodeToolContext { session_id }
    }

    pub fn session_id(&self) -> (r: Option<&str>)
        ensures
            match r {
                Some(s) => self.session_id matches Some(t) && s@ == t@,
                None => self.session_id is None,
            },
    {
        match &self.session_id {
            Some(s) => Some(s.as_str()),
            None => None,
        }
    }
}

/// Where the project a code tool answers for came from.
#[derive(Debug, Clone, Copy, PartialEq, Eq, Structural)]
pub enum ProjectResolutionSource {
    Explicit,
    SessionBinding,
    CrossProject,
}

impl ProjectResolutionSource {
    pub open spec fn spec_name(self) -> Seq<char> {
        match self {
            ProjectResolutionSource::Explicit => "explicit"@,
            ProjectResolutionSource::SessionBinding => "session_binding"@,
            ProjectResolutionSource::CrossProject => "cross_project"@,
        }
    }

    pub fn as_str(&self) -> (r: &'static str)
        ensures
            r@ == self.spec_name(),
    {
        match self {
            ProjectResolutionSource::Explicit => "explicit",
            ProjectResolutionSource::SessionBinding => "session_binding",
            ProjectResolutionSource::CrossProject => "cross_project",
        }
    }
}

/// The project a code tool answers for, and why.
#[derive(Debug, Clone, PartialEq, Eq)]
pub struct ProjectResolution {
    pub project_id: Option<String>,
    pub source: ProjectResolutionSource,
    pub reason_code: Option<ContractReasonCode>,
    /// `Some("stale_binding")` when the session is bound to a project that
    /// is no longer registered or indexed.
    pub binding_state: Option<String>,
}

impl ProjectResolution {
    pub open spec fn spec_is_stale_binding(self) -> bool {
        self.reason_code == Some(ContractReasonCode::Stale) && (self.binding_state matches Some(
            b,
        ) && b@ == "stale_binding"@)
    }

    pub fn project_id(&self) -> (r: Option<&str>)
        ensures
            match r {
                Some(s) => self.project_id matches Some(t) && s@ == t@,
                None => self.project_id is None,
            },
    {
        match &self.project_id {
            Some(s) => Some(s.as_str()),
            None => None,
        }
    }

    /// The session's bound project has disappeared.
    pub fn is_stale_binding(&self) -> (r: bool)
        ensures
            r == self.spec_is_stale_binding(),
    {
        self.reason_code == Some(ContractReasonCode::Stale) && match &self.binding_state {
            Some(b) => str_eq(b.as_str(), "stale_binding"),
            None => false,
        }
    }
}

/// Resolution of the project a code tool answers for: an explicit project
/// id wins; else the session's bound project (marked stale when it has
/// disappeared); else no project, across all projects.
pub open spec fn spec_resolution(
    explicit: Option<String>,
    session_id: Option<Seq<char>>,
    bound_project_id: Option<String>,
    bound_project_missing: bool,
) -> ProjectResolution {
    match explicit {
        Some(p) => ProjectResolution {
            project_id: Some(p),
            source: ProjectResolutionSource::Explicit,
            reason_code: None,
            binding_state: None,
        },
        None => match (session_id, bound_project_id) {
            (Some(_), Some(p)) => if bound_project_missing {
                ProjectResolution {
                    project_id: Some(p),
                    source: ProjectResolutionSource::SessionBinding,
                    reason_code: Some(ContractReasonCode::Stale),
                    binding_state: Some(arbitrary()),
                }
            } else {
                ProjectResolution {
                    project_id: Some(p),
                    source: ProjectResolutionSource::SessionBinding,
                    reason_code: None,
                    binding_state: None,
                }
            },
            _ => ProjectResolution {
                project_id: None,
                source: ProjectResolutionSource::CrossProject,
                reason_code: None,
                binding_state: None,
            },
        },
    }
}

/// Resolves the project for a code tool. `bound_project_id` is the session's
/// binding and `bound_project_missing` whether that project is neither
/// registered nor indexed; both matter only when there is a session.
pub fn resolve_project(
    explicit_project_id: Option<String>,
    session_id: Option<&str>,
    bound_project_id: Option<String>,
    bound_project_missing: bool,
) -> (r: ProjectResolution)
    ensures
        ({
            let s = spec_resolution(
                explicit_project_id,
                match session_id {
                    Some(x) => Some(x@),
                    None => None,
                },
                bound_project_id,
                bound_project_missing,
            );
            &&& r.project_id == s.project_id
            &&& r.source == s.source
            &&& r.reason_code == s.reason_code
            &&& r.binding_state.is_some() == s.binding_state.is_some()
            &&& (r.binding_state matches Some(b) ==> b@ == "stale_binding"@)
        }),
{
    if let Some(p) = explicit_project_id {
        return ProjectResolution {
            project_id: Some(p),
            source: ProjectResolutionSource::Explicit,
            reason_code: None,
            binding_state: None,
        };
    }
    match (session_id, bound_project_id) {
        (Some(_), Some(p)) => if bound_project_missing {
            ProjectResolution {
                project_id: Some(p),
                source: ProjectResolutionSource::SessionBinding,
                reason_code: Some(ContractReasonCode::Stale),
                binding_state: Some(String::from_str("stale_binding")),
            }
        } else {
            ProjectResolution {
                project_id: Some(p),
                source: ProjectResolutionSource::SessionBinding,
                reason_code: None,
                binding_state: None,
            }
        },
        _ => ProjectResolution {
            project_id: None,
            source: ProjectResolutionSource::CrossProject,
            reason_code: None,
            binding_state: None,
        },
    }
}

/// A stale session binding replaces the partial reason of a response, unless
/// that reason already says the project or its serving generation is missing.
pub fn stale_binding_overrides_reason(existing_reason: &str) -> (r: bool)
    ensures
        r == (existing_reason@ != "missing"@ && existing_reason@ != "no_serving_generation"@),
{
    !str_eq(existing_reason, "missing") && !str_eq(existing_reason, "no_serving_generation")
}

/// A project is missing for binding when it is not registered, has no index
/// status and no chunk, symbol or manifest rows.
pub fn project_binding_missing(
    registered: bool,
    has_index_status: bool,
    chunk_count: u64,
    symbol_count: u64,
    manifest_count: u64,
) -> (r: bool)
    ensures
        r == (!registered && !has_index_status && chunk_count == 0 && symbol_count == 0
            && manifest_count == 0),
{
    !registered && !has_index_status && !(chunk_count > 0 || symbol_count > 0 || manifest_count > 0)
}

/// The message for a project id that is neither registered nor indexed.
pub fn missing_project_binding_message(project_id: &str) -> (r: String)
    ensures
        r@ == "Requested project_id '"@ + project_id@
            + "' is not registered on this server and has no usable index status. Mount a server-visible project root, then register/index it via index_project (or startup PROJECT_PATH/--project-path). Client-local paths are not server-visible unless mounted."@,
{
    String::from_str("Requested project_id '").concat(project_id).concat(
        "' is not registered on this server and has no usable index status. Mount a server-visible project root, then register/index it via index_project (or startup PROJECT_PATH/--project-path). Client-local paths are not server-visible unless mounted.",
    )
}

// ─── generations ─────────────────────────────────────────────────────────────

/// The index completed and its semantic generation caught up with the
/// structural one.
pub open spec fn spec_caught_up(status: IndexStatus) -> bool {
    status.status == IndexState::Completed && status.semantic_generation
        == status.structural_generation
}

pub fn completed_semantic_generation_caught_up(status: &IndexStatus) -> (r: bool)
    ensures
        r == spec_caught_up(*status),
{
    status.status == IndexState::Completed && status.semantic_generation
        == status.structural_generation
}

/// The greatest abandoned generation other than the serving one.
pub open spec fn is_max_abandoned(abandoned: Seq<u64>, serving: Option<u64>, m: u64) -> bool {
    &&& exists|i: int| 0 <= i < abandoned.len() && abandoned[i] == m && Some(m) != serving
    &&& forall|i: int|
        0 <= i < abandoned.len() && Some(abandoned[i]) != serving ==> abandoned[i] <= m
}

/// The greatest abandoned generation that is not the serving one, if any.
pub fn max_abandoned_generation(abandoned: &Vec<u64>, serving: Option<u64>) -> (r: Option<u64>)
    ensures
        match r {
            Some(m) => is_max_abandoned(abandoned@, serving, m),
            None => forall|i: int| 0 <= i < abandoned@.len() ==> Some(abandoned@[i]) == serving,
        },
{
    let mut best: Option<u64> = None;
    for i in 0..abandoned.len()
        invariant
            match best {
                Some(m) => {
                    &&& exists|k: int| 0 <= k < i && abandoned@[k] == m && Some(m) != serving
                    &&& forall|k: int|
                        0 <= k < i && Some(abandoned@[k]) != serving ==> abandoned@[k] <= m
                },
                None => forall|k: int| 0 <= k < i ==> Some(abandoned@[k]) == serving,
            },
    {
        let g = abandoned[i];
        if Some(g) != serving {
            match best {
                Some(m) => {
                    if g > m {
                        best = Some(g);
                    }
                },
                None => {
                    best = Some(g);
                },
            }
        }
    }
    best
}

/// The generation being indexed as code tools report it: nothing once the
/// completed index caught up; else the explicit indexing generation, the
/// abandoned one, or the fallback, in that order. The run counts as
/// interrupted when no explicit generation exists and an abandoned one is
/// ahead of the serving one.
pub open spec fn spec_effective_indexing(
    caught_up: bool,
    explicit: Option<u64>,
    abandoned_max: Option<u64>,
    serving: Option<u64>,
    fallback: Option<u64>,
) -> (Option<u64>, bool) {
    if caught_up {
        (None, false)
    } else {
        (
            if explicit.is_some() {
                explicit
            } else if abandoned_max.is_some() {
                abandoned_max
            } else {
                fallback
            },
            explicit.is_none() && match (abandoned_max, serving) {
                (Some(a), Some(s)) => a > s,
                _ => false,
            },
        )
    }
}

pub fn effective_indexing_generation(
    caught_up: bool,
    explicit: Option<u64>,
    abandoned_max: Option<u64>,
    serving: Option<u64>,
    fallback: Option<u64>,
) -> (r: (Option<u64>, bool))
    ensures
        r == spec_effective_indexing(caught_up, explicit, abandoned_max, serving, fallback),
{
    if caught_up {
        return (None, false);
    }
    let interrupted = explicit.is_none() && match (abandoned_max, serving) {
        (Some(a), Some(s)) => a > s,
        _ => false,
    };
    let generation = match explicit {
        Some(e) => Some(e),
        None => match abandoned_max {
            Some(a) => Some(a),
            None => fallback,
        },
    };
    (generation, interrupted)
}

/// The indexing generation a status report shows: the explicit one, the
/// abandoned one or the serving structural one; interrupted when an
/// abandoned generation is ahead of the serving one.
pub fn status_indexing_generation(
    explicit: Option<u64>,
    abandoned_max: Option<u64>,
    serving_structural: Option<u64>,
) -> (r: (Option<u64>, bool))
    ensures
        r.0 == if explicit.is_some() {
            explicit
        } else if abandoned_max.is_some() {
            abandoned_max
        } else {
            serving_structural
        },
        r.1 == match (abandoned_max, serving_structural) {
            (Some(a), Some(s)) => a > s,
            _ => false,
        },
{
    let interrupted = match (abandoned_max, serving_structural) {
        (Some(a), Some(s)) => a > s,
        _ => false,
    };
    let generation = match explicit {
        Some(e) => Some(e),
        None => match abandoned_max {
            Some(a) => Some(a),
            None => serving_structural,
        },
    };
    (generation, interrupted)
}

/// The generations each capability is served from.
#[derive(Debug, Clone, Copy, PartialEq, Eq, Structural)]
pub struct ServingGenerationMetadata {
    pub structural: Option<u64>,
    pub bm25: Option<u64>,
    pub symbols: Option<u64>,
    pub graph: Option<u64>,
    pub vector: Option<u64>,
    pub semantic: Option<u64>,
    pub indexing: Option<u64>,
}

impl ServingGenerationMetadata {
    /// No capability served yet.
    pub fn none() -> (r: ServingGenerationMetadata)
        ensures
            r == (ServingGenerationMetadata {
                structural: None,
                bm25: None,
                symbols: None,
                graph: None,
                vector: None,
                semantic: None,
                indexing: None,
            }),
    {
        ServingGenerationMetadata {
            structural: None,
            bm25: None,
            symbols: None,
            graph: None,
            vector: None,
            semantic: None,
            indexing: None,
        }
    }
}

/// Serving metadata with the indexing generation dropped once the completed
/// index has caught up.
pub fn completed_serving_metadata(
    serving: ServingGenerationMetadata,
    status: Option<&IndexStatus>,
) -> (r: ServingGenerationMetadata)
    ensures
        r == if (status matches Some(s) && spec_caught_up(*s)) {
            ServingGenerationMetadata { indexing: None, ..serving }
        } else {
            serving
        },
{
    let caught_up = match status {
        Some(s) => completed_semantic_generation_caught_up(s),
        None => false,
    };
    if caught_up {
        ServingGenerationMetadata { indexing: None, ..serving }
    } else {
        serving
    }
}

/// Graph serving metadata: when neither graph nor symbols have a generation
/// of their own, both are served from the structural one.
pub fn effective_graph_serving_metadata(serving: &ServingGenerationMetadata) -> (r: ServingGenerationMetadata)
    ensures
        r == if serving.graph.is_some() || serving.symbols.is_some() {
            *serving
        } else {
            ServingGenerationMetadata {
                symbols: serving.structural,
                graph: serving.structural,
                ..*serving
            }
        },
{
    if serving.graph.is_some() || serving.symbols.is_some() {
        *serving
    } else {
        ServingGenerationMetadata {
            structural: serving.structural,
            bm25: serving.bm25,
            symbols: serving.structural,
            graph: serving.structural,
            vector: serving.vector,
            semantic: serving.semantic,
            indexing: serving.indexing,
        }
    }
}

/// The serving generation a project reports: structural, else BM25, else
/// vector.
pub fn reported_serving_generation(serving: &ServingGenerationMetadata) -> (r: Option<u64>)
    ensures
        r == if serving.structural.is_some() {
            serving.structural
        } else if serving.bm25.is_some() {
            serving.bm25
        } else {
            serving.vector
        },
{
    match serving.structural {
        Some(g) => Some(g),
        None => match serving.bm25 {
            Some(g) => Some(g),
            None => serving.vector,
        },
    }
}

// ─── freshness ───────────────────────────────────────────────────────────────

/// How current a returned item is relative to the serving generation.
#[derive(Debug, Clone, Copy, PartialEq, Eq, Structural)]
pub enum Freshness {
    Fresh,
    Stale,
    Unknown,
    Missing,
}

impl Freshness {
    pub open spec fn spec_name(self) -> Seq<char> {
        match self {
            Freshness::Fresh => "fresh"@,
            Freshness::Stale => "stale"@,
            Freshness::Unknown => "unknown"@,
            Freshness::Missing => "missing"@,
        }
    }

    pub fn name(&self) -> (r: &'static str)
        ensures
            r@ == self.spec_name(),
    {
        match self {
            Freshness::Fresh => "fresh",
            Freshness::Stale => "stale",
            Freshness::Unknown => "unknown",
            Freshness::Missing => "missing",
        }
    }
}

/// Freshness of an item from a file: of the serving generation and the file
/// checkpointed there, fresh; of the serving generation without a
/// checkpoint, fresh unless a newer generation is being indexed; without a
/// generation at serving generation zero with a checkpoint, fresh; any other
/// checkpointed item stale, any other item unknown; missing when nothing is
/// served.
pub open spec fn spec_file_freshness(
    item: Option<u64>,
    serving: Option<u64>,
    checkpointed: bool,
    indexing: Option<u64>,
) -> Freshness {
    match (item, serving) {
        (_, None) => Freshness::Missing,
        (Some(i), Some(s)) => if i == s && checkpointed {
            Freshness::Fresh
        } else if i == s {
            match indexing {
                Some(x) => if x > s {
                    Freshness::Stale
                } else {
                    Freshness::Fresh
                },
                None => Freshness::Fresh,
            }
        } else if checkpointed {
            Freshness::Stale
        } else {
            Freshness::Unknown
        },
        (None, Some(s)) => if s == 0 && checkpointed {
            Freshness::Fresh
        } else if checkpointed {
            Freshness::Stale
        } else {
            Freshness::Unknown
        },
    }
}

pub fn freshness_for_file(
    item_generation: Option<u64>,
    serving_generation: Option<u64>,
    file_has_serving_checkpoint: bool,
    indexing_generation: Option<u64>,
) -> (r: Freshness)
    ensures
        r == spec_file_freshness(
            item_generation,
            serving_generation,
            file_has_serving_checkpoint,
            indexing_generation,
        ),
{
    match (item_generation, serving_generation, file_has_serving_checkpoint) {
        (Some(item), Some(serving), true) if item == serving => Freshness::Fresh,
        (Some(item), Some(serving), false) if item == serving => match indexing_generation {
            Some(indexing) if indexing > serving => Freshness::Stale,
            _ => Freshness::Fresh,
        },
        (None, Some(0), true) => Freshness::Fresh,
        (_, Some(_), true) => Freshness::Stale,
        (_, Some(_), false) => Freshness::Unknown,
        _ => Freshness::Missing,
    }
}

/// Freshness of a relation: fresh at the serving generation, stale at
/// another, unknown without a generation, missing when nothing is served.
pub fn edge_freshness(edge_generation: Option<u64>, serving_generation: Option<u64>) -> (r: Freshness)
    ensures
        r == match (edge_generation, serving_generation) {
            (_, None) => Freshness::Missing,
            (Some(e), Some(s)) => if e == s {
                Freshness::Fresh
            } else {
                Freshness::Stale
            },
            (None, Some(_)) => Freshness::Unknown,
        },
{
    match (edge_generation, serving_generation) {
        (Some(e), Some(s)) if e == s => Freshness::Fresh,
        (Some(_), Some(_)) => Freshness::Stale,
        (None, Some(_)) => Freshness::Unknown,
        _ => Freshness::Missing,
    }
}

/// An item served at the serving generation from a checkpointed file is
/// fresh, and nothing is fresh when no generation is served.
pub proof fn lemma_freshness_follows_serving(
    item: Option<u64>,
    serving: Option<u64>,
    checkpointed: bool,
    indexing: Option<u64>,
)
    ensures
        (item is Some && item == serving && checkpointed) ==> spec_file_freshness(
            item,
            serving,
            checkpointed,
            indexing,
        ) == Freshness::Fresh,
        serving is None ==> spec_file_freshness(item, serving, checkpointed, indexing)
            == Freshness::Missing,
        (item is Some && serving is Some && item != serving && checkpointed) ==> spec_file_freshness(
            item,
            serving,
            checkpointed,
            indexing,
        ) == Freshness::Stale,
{
}

// ─── symbol identities ───────────────────────────────────────────────────────

/// The public id of a symbol record: its table, a colon and its key.
pub fn symbol_id(table: &str, key: &str) -> (r: String)
    ensures
        r@ == table@ + ":"@ + key@,
{
    String::from_str(table).concat(":").concat(key)
}

/// The key part of a symbol id (what follows its first colon).
pub fn symbol_key_of(id: &Vec<char>) -> (r: Option<Vec<char>>)
    ensures
        match r {
            Some(k) => exists|i: int|
                {
                    &&& 0 <= i < id@.len()
                    &&& id@[i] == ':'
                    &&& forall|j: int| 0 <= j < i ==> id@[j] != ':'
                    &&& k@ == id@.skip(i + 1)
                },
            None => forall|i: int| 0 <= i < id@.len() ==> id@[i] != ':',
        },
{
    let mut i: usize = 0;
    while i < id.len()
        invariant
            i <= id@.len(),
            forall|j: int| 0 <= j < i ==> id@[j] != ':',
        decreases id.len() - i,
    {
        if id[i] == ':' {
            let mut out: Vec<char> = Vec::new();
            let mut k = i + 1;
            while k < id.len()
                invariant
                    i < id@.len(),
                    i + 1 <= k <= id@.len(),
                    out@ == id@.subrange(i + 1, k as int),
                decreases id.len() - k,
            {
                out.push(id[k]);
                proof {
                    assert(out@ =~= id@.subrange(i + 1, k + 1));
                }
                k = k + 1;
            }
            proof {
                assert(out@ =~= id@.skip(i + 1));
            }
            return Some(out);
        }
        i = i + 1;
    }
    None
}

// ─── graph capability readiness ──────────────────────────────────────────────

/// Readiness of one capability in a graph answer.
#[derive(Debug, Clone, Copy, PartialEq, Eq, Structural)]
pub enum CapabilityFreshness {
    Fresh,
    Stale,
    Missing,
    Partial,
    Degraded,
}

/// What a symbol-graph answer reports about its graph and symbol
/// capabilities.
#[derive(Debug, Clone, Copy, PartialEq, Eq, Structural)]
pub struct GraphReadiness {
    /// A newer generation than the serving one is being indexed.
    pub is_stale: bool,
    pub graph: CapabilityFreshness,
    pub graph_reason_code: Option<ContractReasonCode>,
    pub symbols: CapabilityFreshness,
    pub symbols_generation: Option<u64>,
    pub symbols_reason_code: Option<ContractReasonCode>,
    /// An extra partial entry for the graph, while stale.
    pub graph_partial: bool,
    /// An extra degraded entry for the graph, while stale after an
    /// interrupted run.
    pub graph_degraded: bool,
}

/// Readiness of the graph and symbol capabilities given the serving
/// metadata and the generation being indexed.
pub fn graph_readiness(
    serving: &ServingGenerationMetadata,
    indexing_generation: Option<u64>,
    is_interrupted: bool,
) -> (r: GraphReadiness)
    ensures
        r.is_stale == match (indexing_generation, serving.structural) {
            (Some(i), Some(s)) => i > s,
            _ => false,
        },
        r.graph == if serving.graph.is_none() {
            CapabilityFreshness::Missing
        } else if r.is_stale {
            CapabilityFreshness::Stale
        } else {
            CapabilityFreshness::Fresh
        },
        r.graph_reason_code == if r.is_stale {
            Some(ContractReasonCode::Stale)
        } else if serving.graph.is_none() {
            Some(ContractReasonCode::Missing)
        } else {
            None
        },
        r.symbols_generation == if serving.symbols.is_some() {
            serving.symbols
        } else {
            serving.structural
        },
        r.symbols == if r.symbols_generation.is_none() {
            CapabilityFreshness::Missing
        } else if r.is_stale {
            CapabilityFreshness::Stale
        } else {
            CapabilityFreshness::Fresh
        },
        r.symbols_reason_code == if r.is_stale {
            Some(ContractReasonCode::Stale)
        } else if r.symbols_generation.is_none() {
            Some(ContractReasonCode::Missing)
        } else {
            None
        },
        r.graph_partial == r.is_stale,
        r.graph_degraded == (r.is_stale && is_interrupted),
{
    let is_stale = match (indexing_generation, serving.structural) {
        (Some(i), Some(s)) => i > s,
        _ => false,
    };
    let symbols_generation = match serving.symbols {
        Some(g) => Some(g),
        None => serving.structural,
    };
    let graph = if serving.graph.is_none() {
        CapabilityFreshness::Missing
    } else if is_stale {
        CapabilityFreshness::Stale
    } else {
        CapabilityFreshness::Fresh
    };
    let symbols = if symbols_generation.is_none() {
        CapabilityFreshness::Missing
    } else if is_stale {
        CapabilityFreshness::Stale
    } else {
        CapabilityFreshness::Fresh
    };
    GraphReadiness {
        is_stale,
        graph,
        graph_reason_code: if is_stale {
            Some(ContractReasonCode::Stale)
        } else if serving.graph.is_none() {
            Some(ContractReasonCode::Missing)
        } else {
            None
        },
        symbols,
        symbols_generation,
        symbols_reason_code: if is_stale {
            Some(ContractReasonCode::Stale)
        } else if symbols_generation.is_none() {
            Some(ContractReasonCode::Missing)
        } else {
            None
        },
        graph_partial: is_stale,
        graph_degraded: is_stale && is_interrupted,
    }
}


// ─── missing graph frontier ──────────────────────────────────────────────────

/// Positions of the symbols a graph answer without a serving graph returns
/// as its frontier: the first symbol whose id is the requested one, or, when
/// none is, the first ten symbols of the project.
pub open spec fn spec_frontier_positions(ids: Seq<Option<Seq<char>>>, target: Seq<char>) -> Seq<usize> {
    if exists|i: int| 0 <= i < ids.len() && ids[i] == Some(target) {
        let i = choose|i: int|
            0 <= i < ids.len() && ids[i] == Some(target) && forall|k: int| 0 <= k < i ==> ids[k] != Some(target);
        seq![i as usize]
    } else {
        Seq::new(if ids.len() < 10 { ids.len() } else { 10 }, |k: int| k as usize)
    }
}

/// The frontier positions for `target` among symbols with these ids.
pub fn frontier_symbol_positions(ids: &Vec<Option<String>>, target: &str) -> (r: Vec<usize>)
    ensures
        r@ == spec_frontier_positions(ids@.map_values(|o: Option<String>| crate::types::opt_view(o)), target@),
{
    let ghost v = ids@.map_values(|o: Option<String>| crate::types::opt_view(o));
    for i in 0..ids.len()
        invariant
            v == ids@.map_values(|o: Option<String>| crate::types::opt_view(o)),
            forall|k: int| 0 <= k < i ==> v[k] != Some(target@),
    {
        let hit = match &ids[i] {
            Some(id) => str_eq(id.as_str(), target),
            None => false,
        };
        assert(hit == (v[i as int] == Some(target@)));
        if hit {
            proof {
                let j = choose|j: int|
                    0 <= j < v.len() && v[j] == Some(target@) && forall|k: int| 0 <= k < j ==> v[k] != Some(target@);
                if j < i {
                } else if j > i {
                    assert(v[i as int] != Some(target@));
                }
                assert(j == i);
            }
            return vec![i];
        }
    }
    let n = if ids.len() < 10 { ids.len() } else { 10 };
    let mut out: Vec<usize> = Vec::new();
    for k in 0..n
        invariant
            out@ == Seq::new(k as nat, |j: int| j as usize),
    {
        out.push(k);
        proof {
            assert(out@ =~= Seq::new((k + 1) as nat, |j: int| j as usize));
        }
    }
    proof {
        assert(!(exists|i: int| 0 <= i < v.len() && v[i] == Some(target@)));
    }
    out
}


// ─── symbol search ───────────────────────────────────────────────────────────

/// Page size of a symbol search: 20 by default, kept within 1 to 100.
pub fn symbol_search_limit(limit: Option<usize>) -> (r: usize)
    ensures
        r == match limit {
            None => 20,
            Some(l) => if l < 1 {
                1
            } else if l > 100 {
                100
            } else {
                l
            },
        },
{
    match limit {
        None => 20,
        Some(l) => if l < 1 {
            1
        } else if l > 100 {
            100
        } else {
            l
        },
    }
}

/// How a symbol search is answered before the store is asked.
#[derive(Debug, Clone, Copy, PartialEq, Eq, Structural)]
pub enum SymbolSearchRoute {
    /// A project is named but none of its generations serves symbols.
    NoServingGeneration,
    /// The session's project is stale; no other project is searched.
    StaleBinding,
    Search,
}

/// Routes a symbol search: a project without a serving generation first,
/// then a stale session binding, else the search runs.
pub fn route_symbol_search(has_project: bool, serving_generation: Option<u64>, stale_binding: bool) -> (r: SymbolSearchRoute)
    ensures
        r == if serving_generation.is_none() && has_project {
            SymbolSearchRoute::NoServingGeneration
        } else if stale_binding {
            SymbolSearchRoute::StaleBinding
        } else {
            SymbolSearchRoute::Search
        },
{
    if serving_generation.is_none() && has_project {
        SymbolSearchRoute::NoServingGeneration
    } else if stale_binding {
        SymbolSearchRoute::StaleBinding
    } else {
        SymbolSearchRoute::Search
    }
}

/// What a symbol search answer reports about its page and its symbols
/// capability.
#[derive(Debug, Clone, Copy, PartialEq, Eq, Structural)]
pub struct SymbolSearchReadiness {
    /// More results follow this page.
    pub has_more: bool,
    /// A newer generation than the serving one is being indexed.
    pub is_stale: bool,
    pub freshness: CapabilityFreshness,
    /// An extra partial entry, while stale.
    pub partial_entry: bool,
    /// An extra degraded entry, while stale after an interrupted run.
    pub degraded_entry: bool,
}

/// Readiness of a symbol search page of `count` results from `offset`,
/// out of `total`.
pub fn symbol_search_readiness(
    serving_generation: Option<u64>,
    indexing_generation: Option<u64>,
    is_interrupted: bool,
    offset: usize,
    count: usize,
    total: u64,
) -> (r: SymbolSearchReadiness)
    ensures
        r.has_more == (offset + count < total),
        r.is_stale == match (indexing_generation, serving_generation) {
            (Some(i), Some(s)) => i > s,
            _ => false,
        },
        r.freshness == if serving_generation.is_none() {
            CapabilityFreshness::Missing
        } else if r.is_stale {
            CapabilityFreshness::Stale
        } else {
            CapabilityFreshness::Fresh
        },
        r.partial_entry == r.is_stale,
        r.degraded_entry == (r.is_stale && is_interrupted),
{
    let has_more = if (offset as u128) + (count as u128) < (total as u128) {
        true
    } else {
        false
    };
    let is_stale = match (indexing_generation, serving_generation) {
        (Some(i), Some(s)) => i > s,
        _ => false,
    };
    let freshness = if serving_generation.is_none() {
        CapabilityFreshness::Missing
    } else if is_stale {
        CapabilityFreshness::Stale
    } else {
        CapabilityFreshness::Fresh
    };
    SymbolSearchReadiness {
        has_more,
        is_stale,
        freshness,
        partial_entry: is_stale,
        degraded_entry: is_stale && is_interrupted,
    }
}


// ─── symbol graph ────────────────────────────────────────────────────────────

/// How a symbol-graph request is answered.
#[derive(Debug, Clone, Copy, PartialEq, Eq, Structural)]
pub enum SymbolGraphRoute {
    /// Neither the graph nor the symbols capability has a serving generation.
    NoServingGeneration,
    /// Symbols are served but the graph is not: answer with a frontier.
    MissingGraph,
    Callers,
    Callees,
    /// Related symbols, walking at most `depth` steps.
    Related { depth: u32 },
    /// The action is none of callers, callees and related.
    InvalidAction,
}

/// Routes a symbol-graph request by the effective serving metadata
/// (`effective_graph_serving_metadata`), then by its action; related
/// symbols are walked 1 step deep unless asked, at most 5.
pub fn route_symbol_graph(
    effective: &ServingGenerationMetadata,
    action: &str,
    depth: Option<u32>,
) -> (r: SymbolGraphRoute)
    ensures
        r == if effective.graph.is_none() && effective.symbols.is_none() {
            SymbolGraphRoute::NoServingGeneration
        } else if effective.graph.is_none() {
            SymbolGraphRoute::MissingGraph
        } else if action@ == "callers"@ {
            SymbolGraphRoute::Callers
        } else if action@ == "callees"@ {
            SymbolGraphRoute::Callees
        } else if action@ == "related"@ {
            SymbolGraphRoute::Related {
                depth: match depth {
                    Some(d) => if d < 5 { d } else { 5 },
                    None => 1,
                },
            }
        } else {
            SymbolGraphRoute::InvalidAction
        },
{
    if effective.graph.is_none() && effective.symbols.is_none() {
        SymbolGraphRoute::NoServingGeneration
    } else if effective.graph.is_none() {
        SymbolGraphRoute::MissingGraph
    } else if str_eq(action, "callers") {
        SymbolGraphRoute::Callers
    } else if str_eq(action, "callees") {
        SymbolGraphRoute::Callees
    } else if str_eq(action, "related") {
        let d = match depth {
            Some(d) => if d < 5 {
                d
            } else {
                5
            },
            None => 1,
        };
        SymbolGraphRoute::Related { depth: d }
    } else {
        SymbolGraphRoute::InvalidAction
    }
}

/// The error a symbol-graph request with an unknown action answers with.
pub fn invalid_graph_action_message(action: &str) -> (r: String)
    ensures
        r@ == "Invalid action '"@ + action@ + "'. Use: callers, callees, related"@,
{
    String::from_str("Invalid action '").concat(action).concat("'. Use: callers, callees, related")
}

} // verus!
