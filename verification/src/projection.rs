//! Exported graph documents: knowledge-graph and symbol nodes/edges in their
//! public shape, and the project projection, an induced symbol subgraph
//! filtered by relation scope and listed in canonical order.
use vstd::prelude::*;

use crate::contracts::{
    contract_describes_status, export_contract_meta, lifecycle_describes, lifecycle_view,
    projection_summary_describes, slice_view, summary_project_projection_response,
    with_surface_guidance, CountSummary, ExportContractMeta, ExportIdentity,
    ExportResponseSummary, LifecycleView,
};
use crate::order::{
    chars_of, lemma_keys_view_push, compare_text, is_stable_order, key_view, keys_view, lemma_sorted_positions, reorder,
    lemma_filter_all, lemma_reorder_identity, lemma_resort_is_identity, lemma_stable_order_covers,
    lemma_stable_order_exists,
    sorted_positions, stable_order, Comparison, SortKeyPart, SortKeyView,
};
use crate::types::{
    clone_opt_string, clone_symbol_relations, clone_symbols, opt_view, str_eq, strs_view,
    CodeRelationType, CodeSymbol, ConfidenceClass, Entity, IndexStatus, Relation, RelationClass,
    RelationProvenance, StalenessState, SymbolRelation, SymbolType,
};

verus! {

// ─── exported records ────────────────────────────────────────────────────────

/// A knowledge-graph entity in its public shape.
#[derive(Debug, PartialEq)]
pub struct ExportedGraphNode {
    pub id: String,
    pub name: String,
    pub entity_type: String,
    pub description: Option<String>,
}

/// A knowledge-graph relation in its public shape.
#[derive(Debug, PartialEq)]
pub struct ExportedGraphEdge {
    pub id: Option<String>,
    pub from_id: String,
    pub to_id: String,
    pub relation_type: String,
    pub relation_class: RelationClass,
    pub provenance: RelationProvenance,
    pub confidence_class: ConfidenceClass,
    pub freshness_generation: u64,
    pub staleness_state: StalenessState,
}

/// A code symbol in its public shape.
#[derive(Debug, PartialEq)]
pub struct ExportedSymbolNode {
    pub id: String,
    pub name: String,
    pub symbol_type: SymbolType,
    pub file_path: String,
    pub start_line: u32,
    pub end_line: u32,
    pub signature: Option<String>,
    pub project_id: String,
}

/// A symbol relation in its public shape.
#[derive(Debug, PartialEq)]
pub struct ExportedSymbolEdge {
    pub id: Option<String>,
    pub from_id: String,
    pub to_id: String,
    pub relation_type: String,
    pub relation_class: RelationClass,
    pub provenance: RelationProvenance,
    pub confidence_class: ConfidenceClass,
    pub freshness_generation: u64,
    pub staleness_state: StalenessState,
    pub file_path: String,
    pub line_number: u32,
    pub project_id: String,
}

/// How a projection was shaped.
#[derive(Debug, PartialEq)]
pub struct ProjectionShapingSummary {
    pub relation_scope_applied: String,
    pub sort_mode_applied: String,
    pub node_selection_basis: String,
    pub edge_selection_basis: String,
    pub output_kind: String,
}

/// Requested relation scope and sort mode of a projection.
#[derive(Debug, PartialEq)]
pub struct ProjectProjectionRequest {
    pub relation_scope: String,
    pub sort_mode: String,
}

/// Everything a projection is built from.
#[derive(Debug)]
pub struct ProjectProjectionInputs {
    pub status: IndexStatus,
    pub total_files: u32,
    pub indexed_files: u32,
    pub total_chunks: u32,
    pub total_symbols: u32,
    pub request: ProjectProjectionRequest,
    pub symbols: Vec<CodeSymbol>,
    pub relations: Vec<SymbolRelation>,
}

/// A project projection document.
#[derive(Debug)]
pub struct ExportedProjectProjection {
    pub project_id: String,
    pub request: ProjectProjectionRequest,
    pub summary: ExportResponseSummary,
    pub shaping: ProjectionShapingSummary,
    pub counts: CountSummary,
    pub nodes: Vec<ExportedSymbolNode>,
    pub edges: Vec<ExportedSymbolEdge>,
    pub lifecycle: LifecycleView,
    pub contract: ExportContractMeta,
}

// ─── knowledge-graph export ──────────────────────────────────────────────────

pub open spec fn entity_has_id() -> spec_fn(Entity) -> bool {
    |e: Entity| e.id is Some
}

/// The public node of an entity that has an id.
pub open spec fn entity_node(e: Entity) -> ExportedGraphNode {
    ExportedGraphNode {
        id: e.id->0.key,
        name: e.name,
        entity_type: e.entity_type,
        description: e.description,
    }
}

/// Public nodes of the entities that have an id, in input order.
pub open spec fn spec_exported_graph_nodes(entities: Seq<Entity>) -> Seq<ExportedGraphNode> {
    entities.filter(entity_has_id()).map_values(|e: Entity| entity_node(e))
}

/// Public nodes of the entities that have an id, in input order; entities
/// without an id are left out.
pub fn exported_graph_nodes(entities: &[Entity]) -> (r: Vec<ExportedGraphNode>)
    ensures
        r@ == spec_exported_graph_nodes(entities@),
{
    let mut out: Vec<ExportedGraphNode> = Vec::new();
    for i in 0..entities.len()
        invariant
            out@ == spec_exported_graph_nodes(entities@.subrange(0, i as int)),
    {
        let e = &entities[i];
        proof {
            reveal_with_fuel(Seq::filter, 1);
            assert(entities@.subrange(0, i + 1).drop_last() =~= entities@.subrange(0, i as int));
        }
        let ghost prefix = entities@.subrange(0, i as int);
        let ghost next = entities@.subrange(0, i + 1);
        match &e.id {
            Some(id) => {
                out.push(
                    ExportedGraphNode {
                        id: id.key.clone(),
                        name: e.name.clone(),
                        entity_type: e.entity_type.clone(),
                        description: clone_opt_string(&e.description),
                    },
                );
                proof {
                    assert(next.filter(entity_has_id()) == prefix.filter(entity_has_id()).push(
                        *e,
                    ));
                    assert(out@ =~= spec_exported_graph_nodes(next));
                }
            },
            None => {
                proof {
                    assert(next.filter(entity_has_id()) == prefix.filter(entity_has_id()));
                }
            },
        }
    }
    proof {
        assert(entities@.subrange(0, entities@.len() as int) =~= entities@);
    }
    out
}

/// The public edge of a relation: ids are the record keys.
pub open spec fn relation_edge(r: Relation) -> ExportedGraphEdge {
    ExportedGraphEdge {
        id: match r.id {
            Some(id) => Some(id.key),
            None => None,
        },
        from_id: r.from_entity.key,
        to_id: r.to_entity.key,
        relation_type: r.relation_type,
        relation_class: r.relation_class,
        provenance: r.provenance,
        confidence_class: r.confidence_class,
        freshness_generation: r.freshness_generation,
        staleness_state: r.staleness_state,
    }
}

/// Public edges of the relations, in input order.
pub fn exported_graph_edges(relations: &[Relation]) -> (r: Vec<ExportedGraphEdge>)
    ensures
        r@ == relations@.map_values(|x: Relation| relation_edge(x)),
{
    let mut out: Vec<ExportedGraphEdge> = Vec::new();
    for i in 0..relations.len()
        invariant
            out@ == relations@.subrange(0, i as int).map_values(|x: Relation| relation_edge(x)),
    {
        let rel = &relations[i];
        let id = match &rel.id {
            Some(id) => Some(id.key.clone()),
            None => None,
        };
        out.push(
            ExportedGraphEdge {
                id,
                from_id: rel.from_entity.key.clone(),
                to_id: rel.to_entity.key.clone(),
                relation_type: rel.relation_type.clone(),
                relation_class: rel.relation_class,
                provenance: rel.provenance,
                confidence_class: rel.confidence_class,
                freshness_generation: rel.freshness_generation,
                staleness_state: rel.staleness_state,
            },
        );
        proof {
            assert(out@ =~= relations@.subrange(0, i + 1).map_values(|x: Relation| relation_edge(x)));
        }
    }
    proof {
        assert(relations@.subrange(0, relations@.len() as int) =~= relations@);
    }
    out
}

// ─── symbol export ───────────────────────────────────────────────────────────

pub open spec fn symbol_has_id() -> spec_fn(CodeSymbol) -> bool {
    |s: CodeSymbol| s.id is Some
}

/// The public node of a symbol that has an id.
pub open spec fn symbol_node(s: CodeSymbol) -> ExportedSymbolNode {
    ExportedSymbolNode {
        id: s.id->0.key,
        name: s.name,
        symbol_type: s.symbol_type,
        file_path: s.file_path,
        start_line: s.start_line,
        end_line: s.end_line,
        signature: s.signature,
        project_id: s.project_id,
    }
}

/// Canonical order of exported nodes: id, project, file, start line, end line, name.
pub open spec fn node_key(s: CodeSymbol) -> Seq<SortKeyView> {
    seq![
        SortKeyView::Text(s.id->0.key@),
        SortKeyView::Text(s.project_id@),
        SortKeyView::Text(s.file_path@),
        SortKeyView::Num(s.start_line as u64),
        SortKeyView::Num(s.end_line as u64),
        SortKeyView::Text(s.name@),
    ]
}

/// Public nodes of the symbols that have an id, stably sorted by `node_key`.
pub open spec fn spec_exported_symbol_nodes(symbols: Seq<CodeSymbol>) -> Seq<ExportedSymbolNode> {
    let kept = symbols.filter(symbol_has_id());
    let order = sorted_positions(kept.map_values(|s: CodeSymbol| node_key(s)));
    reorder(kept, order).map_values(|s: CodeSymbol| symbol_node(s))
}

fn node_sort_key(s: &CodeSymbol) -> (k: Vec<SortKeyPart>)
    requires
        s.id is Some,
    ensures
        key_view(k@) == node_key(*s),
{
    let mut k: Vec<SortKeyPart> = Vec::new();
    match &s.id {
        Some(id) => k.push(SortKeyPart::Text(chars_of(id.key.as_str()))),
        None => {},
    }
    k.push(SortKeyPart::Text(chars_of(s.project_id.as_str())));
    k.push(SortKeyPart::Text(chars_of(s.file_path.as_str())));
    k.push(SortKeyPart::Num(s.start_line as u64));
    k.push(SortKeyPart::Num(s.end_line as u64));
    k.push(SortKeyPart::Text(chars_of(s.name.as_str())));
    proof {
        assert(key_view(k@) =~= node_key(*s));
    }
    k
}

/// The symbols of `v` that satisfy the spec predicate tested by `keep`, in order.
fn keep_symbols_with_ids(v: &[CodeSymbol]) -> (r: Vec<CodeSymbol>)
    ensures
        r@ == v@.filter(symbol_has_id()),
{
    let mut out: Vec<CodeSymbol> = Vec::new();
    for i in 0..v.len()
        invariant
            out@ == v@.subrange(0, i as int).filter(symbol_has_id()),
    {
        proof {
            reveal_with_fuel(Seq::filter, 1);
            assert(v@.subrange(0, i + 1).drop_last() =~= v@.subrange(0, i as int));
        }
        if v[i].id.is_some() {
            out.push(v[i].clone());
        }
    }
    proof {
        assert(v@.subrange(0, v@.len() as int) =~= v@);
    }
    out
}

/// Symbols listed in the order of `perm`.
fn reorder_symbols(v: &Vec<CodeSymbol>, perm: &Vec<usize>) -> (r: Vec<CodeSymbol>)
    requires
        forall|i: int| 0 <= i < perm@.len() ==> (#[trigger] perm@[i]) < v@.len(),
    ensures
        r@ == reorder(v@, perm@),
{
    let mut out: Vec<CodeSymbol> = Vec::new();
    for k in 0..perm.len()
        invariant
            forall|i: int| 0 <= i < perm@.len() ==> (#[trigger] perm@[i]) < v@.len(),
            out@ == reorder(v@, perm@.subrange(0, k as int)),
    {
        out.push(v[perm[k]].clone());
        proof {
            assert(reorder(v@, perm@.subrange(0, k + 1)) =~= reorder(v@, perm@.subrange(0, k as int)).push(
                v@[perm@[k as int] as int],
            ));
        }
    }
    proof {
        assert(perm@.subrange(0, perm@.len() as int) =~= perm@);
    }
    out
}

/// Relations listed in the order of `perm`.
fn reorder_relations(v: &Vec<SymbolRelation>, perm: &Vec<usize>) -> (r: Vec<SymbolRelation>)
    requires
        forall|i: int| 0 <= i < perm@.len() ==> (#[trigger] perm@[i]) < v@.len(),
    ensures
        r@ == reorder(v@, perm@),
{
    let mut out: Vec<SymbolRelation> = Vec::new();
    for k in 0..perm.len()
        invariant
            forall|i: int| 0 <= i < perm@.len() ==> (#[trigger] perm@[i]) < v@.len(),
            out@ == reorder(v@, perm@.subrange(0, k as int)),
    {
        out.push(v[perm[k]].clone());
        proof {
            assert(reorder(v@, perm@.subrange(0, k + 1)) =~= reorder(v@, perm@.subrange(0, k as int)).push(
                v@[perm@[k as int] as int],
            ));
        }
    }
    proof {
        assert(perm@.subrange(0, perm@.len() as int) =~= perm@);
    }
    out
}

/// Public nodes of the symbols that have an id, in canonical order: by id,
/// then project, file, start line, end line and name; ties keep input order.
pub fn exported_symbol_nodes(symbols: &[CodeSymbol]) -> (r: Vec<ExportedSymbolNode>)
    ensures
        r@ == spec_exported_symbol_nodes(symbols@),
{
    let kept = keep_symbols_with_ids(symbols);
    proof {
        assert forall|i: int| 0 <= i < kept@.len() implies (#[trigger] kept@[i]).id is Some by {
            symbols@.lemma_filter_pred(symbol_has_id(), i);
        }
    }
    let mut keys: Vec<Vec<SortKeyPart>> = Vec::new();
    for i in 0..kept.len()
        invariant
            forall|i: int| 0 <= i < kept@.len() ==> (#[trigger] kept@[i]).id is Some,
            keys_view(keys@) == kept@.subrange(0, i as int).map_values(|s: CodeSymbol| node_key(s)),
    {
        let k = node_sort_key(&kept[i]);
        proof {
            lemma_keys_view_push(keys@, k);
            assert(kept@.subrange(0, i + 1).map_values(|s: CodeSymbol| node_key(s)) =~= kept@.subrange(
                0,
                i as int,
            ).map_values(|s: CodeSymbol| node_key(s)).push(node_key(kept@[i as int])));
        }
        keys.push(k);
    }
    proof {
        assert(kept@.subrange(0, kept@.len() as int) =~= kept@);
    }
    let perm = stable_order(&keys);
    proof {
        lemma_sorted_positions(keys_view(keys@), perm@);
    }
    let sorted = reorder_symbols(&kept, &perm);
    let mut out: Vec<ExportedSymbolNode> = Vec::new();
    for k in 0..sorted.len()
        invariant
            forall|i: int| 0 <= i < kept@.len() ==> (#[trigger] kept@[i]).id is Some,
            forall|i: int| 0 <= i < perm@.len() ==> (#[trigger] perm@[i]) < kept@.len(),
            sorted@ == reorder(kept@, perm@),
            out@ == sorted@.subrange(0, k as int).map_values(|s: CodeSymbol| symbol_node(s)),
    {
        let s = &sorted[k];
        proof {
            assert(sorted@[k as int] == kept@[perm@[k as int] as int]);
        }
        let id = match &s.id {
            Some(id) => id.key.clone(),
            None => String::new(),
        };
        out.push(
            ExportedSymbolNode {
                id,
                name: s.name.clone(),
                symbol_type: s.symbol_type,
                file_path: s.file_path.clone(),
                start_line: s.start_line,
                end_line: s.end_line,
                signature: clone_opt_string(&s.signature),
                project_id: s.project_id.clone(),
            },
        );
        proof {
            assert(out@ =~= sorted@.subrange(0, k + 1).map_values(|s: CodeSymbol| symbol_node(s)));
        }
    }
    proof {
        assert(sorted@.subrange(0, sorted@.len() as int) =~= sorted@);
    }
    out
}

/// Canonical order of exported edges: from id, to id, relation type, file,
/// line, project.
pub open spec fn edge_key(r: SymbolRelation) -> Seq<SortKeyView> {
    seq![
        SortKeyView::Text(r.from_symbol.key@),
        SortKeyView::Text(r.to_symbol.key@),
        SortKeyView::Text(r.relation_type.spec_name()),
        SortKeyView::Text(r.file_path@),
        SortKeyView::Num(r.line_number as u64),
        SortKeyView::Text(r.project_id@),
    ]
}

/// `e` is the public edge of `r`: ids are the record keys, the relation type
/// its wire name, the rest copied.
pub open spec fn edge_describes(e: ExportedSymbolEdge, r: SymbolRelation) -> bool {
    &&& e.id == match r.id {
        Some(id) => Some(id.key),
        None => None,
    }
    &&& e.from_id == r.from_symbol.key
    &&& e.to_id == r.to_symbol.key
    &&& e.relation_type@ == r.relation_type.spec_name()
    &&& e.relation_class == r.relation_class
    &&& e.provenance == r.provenance
    &&& e.confidence_class == r.confidence_class
    &&& e.freshness_generation == r.freshness_generation
    &&& e.staleness_state == r.staleness_state
    &&& e.file_path == r.file_path
    &&& e.line_number == r.line_number
    &&& e.project_id == r.project_id
}

/// `edges` are the public edges of `relations`, stably sorted by `edge_key`.
pub open spec fn edges_describe(edges: Seq<ExportedSymbolEdge>, relations: Seq<SymbolRelation>) -> bool {
    let sorted = reorder(
        relations,
        sorted_positions(relations.map_values(|r: SymbolRelation| edge_key(r))),
    );
    &&& edges.len() == relations.len()
    &&& forall|i: int| 0 <= i < edges.len() ==> edge_describes(#[trigger] edges[i], sorted[i])
}

fn edge_sort_key(r: &SymbolRelation) -> (k: Vec<SortKeyPart>)
    ensures
        key_view(k@) == edge_key(*r),
{
    let mut k: Vec<SortKeyPart> = Vec::new();
    k.push(SortKeyPart::Text(chars_of(r.from_symbol.key.as_str())));
    k.push(SortKeyPart::Text(chars_of(r.to_symbol.key.as_str())));
    let t = r.relation_type.name();
    k.push(SortKeyPart::Text(chars_of(t.as_str())));
    k.push(SortKeyPart::Text(chars_of(r.file_path.as_str())));
    k.push(SortKeyPart::Num(r.line_number as u64));
    k.push(SortKeyPart::Text(chars_of(r.project_id.as_str())));
    proof {
        assert(key_view(k@) =~= edge_key(*r));
    }
    k
}

/// Public edges of the relations in canonical order: by from id, to id,
/// relation type, file, line and project; ties keep input order.
pub fn exported_symbol_edges(relations: &[SymbolRelation]) -> (r: Vec<ExportedSymbolEdge>)
    ensures
        edges_describe(r@, relations@),
{
    let mut keys: Vec<Vec<SortKeyPart>> = Vec::new();
    for i in 0..relations.len()
        invariant
            keys_view(keys@) == relations@.subrange(0, i as int).map_values(
                |r: SymbolRelation| edge_key(r),
            ),
    {
        let k = edge_sort_key(&relations[i]);
        proof {
            lemma_keys_view_push(keys@, k);
            assert(relations@.subrange(0, i + 1).map_values(|r: SymbolRelation| edge_key(r))
                =~= relations@.subrange(0, i as int).map_values(|r: SymbolRelation| edge_key(r)).push(
                edge_key(relations@[i as int]),
            ));
        }
        keys.push(k);
    }
    proof {
        assert(relations@.subrange(0, relations@.len() as int) =~= relations@);
    }
    let perm = stable_order(&keys);
    proof {
        lemma_sorted_positions(keys_view(keys@), perm@);
    }
    let ghost sorted = reorder(relations@, perm@);
    let mut out: Vec<ExportedSymbolEdge> = Vec::new();
    for k in 0..perm.len()
        invariant
            perm@.len() == relations@.len(),
            forall|i: int| 0 <= i < perm@.len() ==> (#[trigger] perm@[i]) < relations@.len(),
            sorted == reorder(relations@, perm@),
            out@.len() == k,
            forall|i: int| 0 <= i < k ==> edge_describes(#[trigger] out@[i], sorted[i]),
    {
        let rel = &relations[perm[k]];
        let id = match &rel.id {
            Some(id) => Some(id.key.clone()),
            None => None,
        };
        out.push(
            ExportedSymbolEdge {
                id,
                from_id: rel.from_symbol.key.clone(),
                to_id: rel.to_symbol.key.clone(),
                relation_type: rel.relation_type.name(),
                relation_class: rel.relation_class,
                provenance: rel.provenance,
                confidence_class: rel.confidence_class,
                freshness_generation: rel.freshness_generation,
                staleness_state: rel.staleness_state,
                file_path: rel.file_path.clone(),
                line_number: rel.line_number,
                project_id: rel.project_id.clone(),
            },
        );
    }
    out
}

// ─── projection shaping ──────────────────────────────────────────────────────

/// Known relation scopes are kept; anything else means "all".
pub open spec fn spec_normalize_relation_scope(scope: Seq<char>) -> Seq<char> {
    if scope == "calls"@ || scope == "imports"@ || scope == "type_links"@ || scope == "none"@ {
        scope
    } else {
        "all"@
    }
}

/// The relation scope a request is served with.
pub fn normalize_relation_scope(scope: &str) -> (r: String)
    ensures
        r@ == spec_normalize_relation_scope(scope@),
{
    if str_eq(scope, "calls") {
        String::from_str("calls")
    } else if str_eq(scope, "imports") {
        String::from_str("imports")
    } else if str_eq(scope, "type_links") {
        String::from_str("type_links")
    } else if str_eq(scope, "none") {
        String::from_str("none")
    } else {
        String::from_str("all")
    }
}

/// The only sort mode is canonical.
pub fn normalize_sort_mode(mode: &str) -> (r: String)
    ensures
        r@ == "canonical"@,
{
    String::from_str("canonical")
}

/// Whether a relation of type `t` is kept under the (normalized) scope.
pub open spec fn relation_in_scope(scope: Seq<char>, t: CodeRelationType) -> bool {
    if scope == "calls"@ {
        t == CodeRelationType::Calls
    } else if scope == "imports"@ {
        t == CodeRelationType::Imports
    } else if scope == "type_links"@ {
        t == CodeRelationType::Extends || t == CodeRelationType::Implements
    } else if scope == "none"@ {
        false
    } else {
        true
    }
}

pub open spec fn scope_pred(scope: Seq<char>) -> spec_fn(SymbolRelation) -> bool {
    |r: SymbolRelation| relation_in_scope(scope, r.relation_type)
}

/// `key` names an endpoint of one of the relations.
pub open spec fn is_endpoint(relations: Seq<SymbolRelation>, key: Seq<char>) -> bool {
    exists|i: int|
        0 <= i < relations.len() && (relations[i].from_symbol.key@ == key
            || relations[i].to_symbol.key@ == key)
}

pub open spec fn endpoint_pred(relations: Seq<SymbolRelation>) -> spec_fn(CodeSymbol) -> bool {
    |s: CodeSymbol| s.id is Some && is_endpoint(relations, s.id->0.key@)
}

/// Canonical order of projected symbols: project, file, start line, end
/// line, name.
pub open spec fn symbol_key(s: CodeSymbol) -> Seq<SortKeyView> {
    seq![
        SortKeyView::Text(s.project_id@),
        SortKeyView::Text(s.file_path@),
        SortKeyView::Num(s.start_line as u64),
        SortKeyView::Num(s.end_line as u64),
        SortKeyView::Text(s.name@),
    ]
}

/// Canonical order of projected relations: project, file, line, from key,
/// to key, relation type.
pub open spec fn relation_key(r: SymbolRelation) -> Seq<SortKeyView> {
    seq![
        SortKeyView::Text(r.project_id@),
        SortKeyView::Text(r.file_path@),
        SortKeyView::Num(r.line_number as u64),
        SortKeyView::Text(r.from_symbol.key@),
        SortKeyView::Text(r.to_symbol.key@),
        SortKeyView::Text(r.relation_type.spec_name()),
    ]
}

/// Relations within the scope, in canonical order.
pub open spec fn spec_scoped_relations(relations: Seq<SymbolRelation>, scope: Seq<char>) -> Seq<SymbolRelation> {
    let kept = relations.filter(scope_pred(scope));
    reorder(kept, sorted_positions(kept.map_values(|r: SymbolRelation| relation_key(r))))
}

/// Symbols that are endpoints of a relation within the scope, in canonical
/// order; none at all under the "none" scope.
pub open spec fn spec_scoped_symbols(
    symbols: Seq<CodeSymbol>,
    relations: Seq<SymbolRelation>,
    scope: Seq<char>,
) -> Seq<CodeSymbol> {
    if scope == "none"@ {
        Seq::empty()
    } else {
        let kept = symbols.filter(endpoint_pred(relations.filter(scope_pred(scope))));
        reorder(kept, sorted_positions(kept.map_values(|s: CodeSymbol| symbol_key(s))))
    }
}

fn symbol_sort_key(s: &CodeSymbol) -> (k: Vec<SortKeyPart>)
    ensures
        key_view(k@) == symbol_key(*s),
{
    let mut k: Vec<SortKeyPart> = Vec::new();
    k.push(SortKeyPart::Text(chars_of(s.project_id.as_str())));
    k.push(SortKeyPart::Text(chars_of(s.file_path.as_str())));
    k.push(SortKeyPart::Num(s.start_line as u64));
    k.push(SortKeyPart::Num(s.end_line as u64));
    k.push(SortKeyPart::Text(chars_of(s.name.as_str())));
    proof {
        assert(key_view(k@) =~= symbol_key(*s));
    }
    k
}

fn relation_sort_key(r: &SymbolRelation) -> (k: Vec<SortKeyPart>)
    ensures
        key_view(k@) == relation_key(*r),
{
    let mut k: Vec<SortKeyPart> = Vec::new();
    k.push(SortKeyPart::Text(chars_of(r.project_id.as_str())));
    k.push(SortKeyPart::Text(chars_of(r.file_path.as_str())));
    k.push(SortKeyPart::Num(r.line_number as u64));
    k.push(SortKeyPart::Text(chars_of(r.from_symbol.key.as_str())));
    k.push(SortKeyPart::Text(chars_of(r.to_symbol.key.as_str())));
    let t = r.relation_type.name();
    k.push(SortKeyPart::Text(chars_of(t.as_str())));
    proof {
        assert(key_view(k@) =~= relation_key(*r));
    }
    k
}

fn in_scope(scope: &String, t: CodeRelationType) -> (r: bool)
    ensures
        r == relation_in_scope(scope@, t),
{
    if str_eq(scope.as_str(), "calls") {
        t == CodeRelationType::Calls
    } else if str_eq(scope.as_str(), "imports") {
        t == CodeRelationType::Imports
    } else if str_eq(scope.as_str(), "type_links") {
        t == CodeRelationType::Extends || t == CodeRelationType::Implements
    } else if str_eq(scope.as_str(), "none") {
        false
    } else {
        true
    }
}

fn relations_in_scope(relations: &Vec<SymbolRelation>, scope: &String) -> (r: Vec<SymbolRelation>)
    ensures
        r@ == relations@.filter(scope_pred(scope@)),
{
    let mut out: Vec<SymbolRelation> = Vec::new();
    for i in 0..relations.len()
        invariant
            out@ == relations@.subrange(0, i as int).filter(scope_pred(scope@)),
    {
        proof {
            reveal_with_fuel(Seq::filter, 1);
            assert(relations@.subrange(0, i + 1).drop_last() =~= relations@.subrange(0, i as int));
        }
        if in_scope(scope, relations[i].relation_type) {
            out.push(relations[i].clone());
        }
    }
    proof {
        assert(relations@.subrange(0, relations@.len() as int) =~= relations@);
    }
    out
}

/// Whether `key` equals one of the texts.
fn contains_text(list: &Vec<Vec<char>>, key: &Vec<char>) -> (r: bool)
    ensures
        r == exists|i: int| 0 <= i < list@.len() && (#[trigger] list@[i])@ == key@,
{
    for i in 0..list.len()
        invariant
            forall|j: int| 0 <= j < i ==> (#[trigger] list@[j])@ != key@,
    {
        if compare_text(&list[i], key) == Comparison::Equal {
            return true;
        }
    }
    false
}

fn endpoint_symbols(symbols: &Vec<CodeSymbol>, relations: &Vec<SymbolRelation>) -> (r: Vec<CodeSymbol>)
    ensures
        r@ == symbols@.filter(endpoint_pred(relations@)),
{
    let mut froms: Vec<Vec<char>> = Vec::new();
    let mut tos: Vec<Vec<char>> = Vec::new();
    for i in 0..relations.len()
        invariant
            froms@.len() == i,
            tos@.len() == i,
            forall|j: int| 0 <= j < i ==> (#[trigger] froms@[j])@ == relations@[j].from_symbol.key@,
            forall|j: int| 0 <= j < i ==> (#[trigger] tos@[j])@ == relations@[j].to_symbol.key@,
    {
        froms.push(chars_of(relations[i].from_symbol.key.as_str()));
        tos.push(chars_of(relations[i].to_symbol.key.as_str()));
    }
    let mut out: Vec<CodeSymbol> = Vec::new();
    for i in 0..symbols.len()
        invariant
            froms@.len() == relations@.len(),
            tos@.len() == relations@.len(),
            forall|j: int| 0 <= j < froms@.len() ==> (#[trigger] froms@[j])@ == relations@[j].from_symbol.key@,
            forall|j: int| 0 <= j < tos@.len() ==> (#[trigger] tos@[j])@ == relations@[j].to_symbol.key@,
            out@ == symbols@.subrange(0, i as int).filter(endpoint_pred(relations@)),
    {
        proof {
            reveal_with_fuel(Seq::filter, 1);
            assert(symbols@.subrange(0, i + 1).drop_last() =~= symbols@.subrange(0, i as int));
        }
        let keep = match &symbols[i].id {
            Some(id) => {
                let key = chars_of(id.key.as_str());
                let hit = contains_text(&froms, &key) || contains_text(&tos, &key);
                proof {
                    if hit {
                        if exists|j: int| 0 <= j < froms@.len() && (#[trigger] froms@[j])@ == key@ {
                            let j = choose|j: int| 0 <= j < froms@.len() && (#[trigger] froms@[j])@ == key@;
                            assert(relations@[j].from_symbol.key@ == id.key@);
                        } else {
                            let j = choose|j: int| 0 <= j < tos@.len() && (#[trigger] tos@[j])@ == key@;
                            assert(relations@[j].to_symbol.key@ == id.key@);
                        }
                        assert(is_endpoint(relations@, id.key@));
                    } else {
                        assert forall|j: int| 0 <= j < relations@.len() implies !(
                        relations@[j].from_symbol.key@ == id.key@ || relations@[j].to_symbol.key@
                            == id.key@) by {
                            assert(froms@[j]@ == relations@[j].from_symbol.key@);
                            assert(tos@[j]@ == relations@[j].to_symbol.key@);
                        }
                    }
                }
                hit
            },
            None => false,
        };
        if keep {
            out.push(symbols[i].clone());
        }
    }
    proof {
        assert(symbols@.subrange(0, symbols@.len() as int) =~= symbols@);
    }
    out
}

/// Relations stably sorted by `relation_key`.
fn sort_relations(v: &Vec<SymbolRelation>) -> (r: Vec<SymbolRelation>)
    ensures
        r@ == reorder(v@, sorted_positions(v@.map_values(|x: SymbolRelation| relation_key(x)))),
{
    let mut keys: Vec<Vec<SortKeyPart>> = Vec::new();
    for i in 0..v.len()
        invariant
            keys_view(keys@) == v@.subrange(0, i as int).map_values(|x: SymbolRelation| relation_key(x)),
    {
        let k = relation_sort_key(&v[i]);
        proof {
            lemma_keys_view_push(keys@, k);
            assert(v@.subrange(0, i + 1).map_values(|x: SymbolRelation| relation_key(x))
                =~= v@.subrange(0, i as int).map_values(|x: SymbolRelation| relation_key(x)).push(
                relation_key(v@[i as int]),
            ));
        }
        keys.push(k);
    }
    proof {
        assert(v@.subrange(0, v@.len() as int) =~= v@);
    }
    let perm = stable_order(&keys);
    proof {
        lemma_sorted_positions(keys_view(keys@), perm@);
    }
    reorder_relations(v, &perm)
}

/// Symbols stably sorted by `symbol_key`.
fn sort_symbols(v: &Vec<CodeSymbol>) -> (r: Vec<CodeSymbol>)
    ensures
        r@ == reorder(v@, sorted_positions(v@.map_values(|x: CodeSymbol| symbol_key(x)))),
{
    let mut keys: Vec<Vec<SortKeyPart>> = Vec::new();
    for i in 0..v.len()
        invariant
            keys_view(keys@) == v@.subrange(0, i as int).map_values(|x: CodeSymbol| symbol_key(x)),
    {
        let k = symbol_sort_key(&v[i]);
        proof {
            lemma_keys_view_push(keys@, k);
            assert(v@.subrange(0, i + 1).map_values(|x: CodeSymbol| symbol_key(x)) =~= v@.subrange(
                0,
                i as int,
            ).map_values(|x: CodeSymbol| symbol_key(x)).push(symbol_key(v@[i as int])));
        }
        keys.push(k);
    }
    proof {
        assert(v@.subrange(0, v@.len() as int) =~= v@);
    }
    let perm = stable_order(&keys);
    proof {
        lemma_sorted_positions(keys_view(keys@), perm@);
    }
    reorder_symbols(v, &perm)
}

/// Bundles the projection inputs.
pub fn collect_project_projection_inputs(
    status: IndexStatus,
    total_files: u32,
    indexed_files: u32,
    total_chunks: u32,
    total_symbols: u32,
    request: ProjectProjectionRequest,
    symbols: Vec<CodeSymbol>,
    relations: Vec<SymbolRelation>,
) -> (r: ProjectProjectionInputs)
    ensures
        r == (ProjectProjectionInputs {
            status,
            total_files,
            indexed_files,
            total_chunks,
            total_symbols,
            request,
            symbols,
            relations,
        }),
{
    ProjectProjectionInputs {
        status,
        total_files,
        indexed_files,
        total_chunks,
        total_symbols,
        request,
        symbols,
        relations,
    }
}

/// `r` is `inputs` shaped: the request normalized, relations restricted to
/// the scope and the symbols to their endpoints, both in canonical order;
/// status and counts unchanged.
pub open spec fn shaped_from(r: ProjectProjectionInputs, inputs: ProjectProjectionInputs) -> bool {
    let scope = spec_normalize_relation_scope(inputs.request.relation_scope@);
    &&& r.status == inputs.status
    &&& r.total_files == inputs.total_files
    &&& r.indexed_files == inputs.indexed_files
    &&& r.total_chunks == inputs.total_chunks
    &&& r.total_symbols == inputs.total_symbols
    &&& r.request.relation_scope@ == scope
    &&& r.request.sort_mode@ == "canonical"@
    &&& r.relations@ == spec_scoped_relations(inputs.relations@, scope)
    &&& r.symbols@ == spec_scoped_symbols(inputs.symbols@, inputs.relations@, scope)
}

/// Shapes the projection graph: normalizes the request, keeps the relations
/// within the relation scope ("calls", "imports", "type_links" = extends and
/// implements, "none", anything else = all), keeps the symbols that are
/// endpoints of a kept relation (none under "none"), and sorts both
/// canonically.
pub fn shape_project_projection_graph(inputs: ProjectProjectionInputs) -> (r: ProjectProjectionInputs)
    ensures
        shaped_from(r, inputs),
{
    let ProjectProjectionInputs {
        status,
        total_files,
        indexed_files,
        total_chunks,
        total_symbols,
        request,
        symbols,
        relations,
    } = inputs;
    let scope = normalize_relation_scope(request.relation_scope.as_str());
    let sort_mode = normalize_sort_mode(request.sort_mode.as_str());
    let kept_relations = relations_in_scope(&relations, &scope);
    let kept_symbols = if str_eq(scope.as_str(), "none") {
        Vec::new()
    } else {
        endpoint_symbols(&symbols, &kept_relations)
    };
    let sorted_symbols = sort_symbols(&kept_symbols);
    let sorted_relations = sort_relations(&kept_relations);
    proof {
        if scope@ == "none"@ {
            assert(kept_symbols@.len() == 0);
            lemma_sorted_positions(kept_symbols@.map_values(|x: CodeSymbol| symbol_key(x)), Seq::empty());
            assert(sorted_symbols@ =~= Seq::<CodeSymbol>::empty());
        }
    }
    ProjectProjectionInputs {
        status,
        total_files,
        indexed_files,
        total_chunks,
        total_symbols,
        request: ProjectProjectionRequest { relation_scope: scope, sort_mode },
        symbols: sorted_symbols,
        relations: sorted_relations,
    }
}

/// Relations kept by the scope and sorted are kept again and stay in place.
proof fn lemma_scoped_relations_stable(relations: Seq<SymbolRelation>, scope: Seq<char>)
    requires
        relations.len() <= usize::MAX,
    ensures
        spec_scoped_relations(spec_scoped_relations(relations, scope), scope) == spec_scoped_relations(
            relations,
            scope,
        ),
        spec_scoped_relations(relations, scope).filter(scope_pred(scope)) == spec_scoped_relations(relations, scope),
        forall|j: int|
            0 <= j < relations.filter(scope_pred(scope)).len() ==> spec_scoped_relations(relations, scope).contains(
                #[trigger] relations.filter(scope_pred(scope))[j],
            ),
{
    let pred = scope_pred(scope);
    let kept = relations.filter(pred);
    relations.lemma_filter_len(pred);
    let keys = kept.map_values(|r: SymbolRelation| relation_key(r));
    let p = sorted_positions(keys);
    lemma_stable_order_exists(keys);
    lemma_stable_order_covers(keys, p);
    let once = reorder(kept, p);
    assert(once == spec_scoped_relations(relations, scope));
    assert forall|i: int| 0 <= i < once.len() implies pred(#[trigger] once[i]) by {
        assert(p[i] < kept.len());
        relations.lemma_filter_pred(pred, p[i] as int);
    }
    lemma_filter_all(once, pred);
    assert(once.map_values(|r: SymbolRelation| relation_key(r)) =~= reorder(keys, p));
    lemma_resort_is_identity(keys);
    lemma_reorder_identity(once);
    assert forall|j: int| 0 <= j < kept.len() implies exists|k: int|
        0 <= k < once.len() && once[k] == #[trigger] kept[j] by {
        assert(p.contains(j as usize));
        let k = choose|k: int| 0 <= k < p.len() && p[k] == j as usize;
        assert(once[k] == kept[j]);
        assert(spec_scoped_relations(relations, scope)[k] == kept[j]);
    }
    assert forall|j: int|
        0 <= j < relations.filter(scope_pred(scope)).len() implies spec_scoped_relations(relations, scope).contains(
            #[trigger] relations.filter(scope_pred(scope))[j],
        ) by {
        let k = choose|k: int| 0 <= k < once.len() && once[k] == #[trigger] kept[j];
        assert(spec_scoped_relations(relations, scope)[k] == kept[j]);
    }
}

/// Shaping is idempotent: shaping inputs that were shaped already gives
/// them back, with the same status, counts and request, and the same
/// relations and symbols in the same order.
pub proof fn lemma_shaping_idempotent(
    inputs: ProjectProjectionInputs,
    once: ProjectProjectionInputs,
    twice: ProjectProjectionInputs,
)
    requires
        shaped_from(once, inputs),
        shaped_from(twice, once),
        inputs.relations@.len() <= usize::MAX,
        inputs.symbols@.len() <= usize::MAX,
    ensures
        twice.status == once.status,
        twice.total_files == once.total_files,
        twice.indexed_files == once.indexed_files,
        twice.total_chunks == once.total_chunks,
        twice.total_symbols == once.total_symbols,
        twice.request.relation_scope@ == once.request.relation_scope@,
        twice.request.sort_mode@ == once.request.sort_mode@,
        twice.relations@ == once.relations@,
        twice.symbols@ == once.symbols@,
{
    let scope = spec_normalize_relation_scope(inputs.request.relation_scope@);
    assert(spec_normalize_relation_scope(scope) == scope);
    let rels = inputs.relations@;
    lemma_scoped_relations_stable(rels, scope);
    let r1 = once.relations@;
    assert(r1 == spec_scoped_relations(rels, scope));
    if scope != "none"@ {
        let pred = scope_pred(scope);
        let kept = rels.filter(pred);
        let epred = endpoint_pred(kept);
        let ks = inputs.symbols@.filter(epred);
        inputs.symbols@.lemma_filter_len(epred);
        let keys = ks.map_values(|s: CodeSymbol| symbol_key(s));
        let q = sorted_positions(keys);
        lemma_stable_order_exists(keys);
        let s1 = reorder(ks, q);
        assert(once.symbols@ == s1);
        assert(r1.filter(pred) == r1);
        let epred1 = endpoint_pred(r1);
        assert forall|i: int| 0 <= i < s1.len() implies epred1(#[trigger] s1[i]) by {
            assert(q[i] < ks.len());
            inputs.symbols@.lemma_filter_pred(epred, q[i] as int);
            let sym = s1[i];
            assert(epred(sym));
            let key = sym.id->0.key@;
            let j = choose|j: int|
                0 <= j < kept.len() && (kept[j].from_symbol.key@ == key || kept[j].to_symbol.key@ == key);
            assert(r1.contains(kept[j]));
            let k = choose|k: int| 0 <= k < r1.len() && r1[k] == kept[j];
            assert(is_endpoint(r1, key));
        }
        lemma_filter_all(s1, epred1);
        assert(s1.map_values(|s: CodeSymbol| symbol_key(s)) =~= reorder(keys, q));
        lemma_resort_is_identity(keys);
        lemma_reorder_identity(s1);
    }
}

// ─── projection assembly ─────────────────────────────────────────────────────

/// Edge-selection basis reported for a relation scope.
pub open spec fn edge_selection_basis(scope: Seq<char>) -> Seq<char> {
    if scope == "calls"@ {
        "only_call_edges"@
    } else if scope == "imports"@ {
        "only_import_edges"@
    } else if scope == "type_links"@ {
        "only_extends_and_implements_edges"@
    } else if scope == "none"@ {
        "no_edges_retained"@
    } else {
        "all_relation_edges"@
    }
}

/// `r` describes how a projection with the given request and sizes was shaped.
pub open spec fn shaping_describes(
    r: ProjectionShapingSummary,
    request: ProjectProjectionRequest,
    nodes: usize,
    edges: usize,
) -> bool {
    &&& r.relation_scope_applied == request.relation_scope
    &&& r.sort_mode_applied == request.sort_mode
    &&& r.edge_selection_basis@ == edge_selection_basis(request.relation_scope@)
    &&& r.node_selection_basis@ == if request.relation_scope@ == "none"@ {
        "empty_graph_when_no_edges_retained"@
    } else {
        "relation_endpoint_induced_subgraph"@
    }
    &&& r.output_kind@ == if nodes == 0 && edges == 0 {
        "empty_graph"@
    } else {
        "induced_symbol_graph"@
    }
}

/// Describes how the projection was shaped.
pub fn summary_project_projection_shaping(
    request: &ProjectProjectionRequest,
    nodes: usize,
    edges: usize,
) -> (r: ProjectionShapingSummary)
    ensures
        shaping_describes(r, *request, nodes, edges),
{
    let scope = request.relation_scope.as_str();
    let edge_selection_basis = if str_eq(scope, "calls") {
        String::from_str("only_call_edges")
    } else if str_eq(scope, "imports") {
        String::from_str("only_import_edges")
    } else if str_eq(scope, "type_links") {
        String::from_str("only_extends_and_implements_edges")
    } else if str_eq(scope, "none") {
        String::from_str("no_edges_retained")
    } else {
        String::from_str("all_relation_edges")
    };
    let node_selection_basis = if str_eq(scope, "none") {
        String::from_str("empty_graph_when_no_edges_retained")
    } else {
        String::from_str("relation_endpoint_induced_subgraph")
    };
    let output_kind = if nodes == 0 && edges == 0 {
        String::from_str("empty_graph")
    } else {
        String::from_str("induced_symbol_graph")
    };
    ProjectionShapingSummary {
        relation_scope_applied: request.relation_scope.clone(),
        sort_mode_applied: request.sort_mode.clone(),
        node_selection_basis,
        edge_selection_basis,
        output_kind,
    }
}

/// The identity of a projection contract for a project.
pub open spec fn projection_identity_describes(i: ExportIdentity, project_id: String) -> bool {
    &&& i.project_id == Some(project_id)
    &&& i.entity_id.is_none()
    &&& i.stable_memory_id.is_none()
    &&& i.stable_symbol_id.is_none()
    &&& i.stable_node_ids
    &&& i.node_ids_are_project_scoped
    &&& !i.stable_edge_ids
    &&& i.edge_ids_are_local_only
    &&& opt_view(i.node_id_semantics) == Some("stable_project_scoped_project_id"@)
    &&& opt_view(i.edge_id_semantics) == Some("no_public_edge_ids"@)
}

/// `p` is the projection document assembled from already shaped inputs.
pub open spec fn projection_assembled_from(p: ExportedProjectProjection, inputs: ProjectProjectionInputs) -> bool {
    let s = inputs.status;
    let nodes = inputs.symbols@.len() as usize;
    let edges = inputs.relations@.len() as usize;
    &&& p.project_id == s.project_id
    &&& p.request == inputs.request
    &&& projection_summary_describes(p.summary, s, nodes, edges)
    &&& shaping_describes(p.shaping, inputs.request, nodes, edges)
    &&& p.counts == (CountSummary {
        nodes: Some(nodes),
        edges: Some(edges),
        results: None,
        total: None,
        files: Some(inputs.total_files),
        indexed_files: Some(inputs.indexed_files),
        chunks: Some(inputs.total_chunks),
        symbols: Some(inputs.total_symbols),
    })
    &&& p.nodes@ == spec_exported_symbol_nodes(inputs.symbols@)
    &&& edges_describe(p.edges@, inputs.relations@)
    &&& lifecycle_describes(p.lifecycle, s)
    &&& contract_describes_status(p.contract, p.contract.identity, Some(s))
    &&& projection_identity_describes(p.contract.identity, s.project_id)
    &&& strs_view(p.contract.surface_guidance.preferred_response_fields@) == seq![
        "projection"@,
        "contract"@,
    ]
    &&& strs_view(p.contract.surface_guidance.legacy_compatibility_fields@) == seq![
        "status"@,
        "lifecycle"@,
    ]
    &&& p.contract.surface_guidance.forbidden_to_depend_fields@.len() == 0
    &&& p.contract.traversal_defaults.is_none()
}

/// Assembles the projection document from shaped inputs: summary, shaping,
/// counts, exported nodes and edges, lifecycle and a project-scoped contract.
pub fn assemble_project_projection(inputs: ProjectProjectionInputs) -> (r: ExportedProjectProjection)
    ensures
        projection_assembled_from(r, inputs),
{
    let ghost original = inputs;
    let ProjectProjectionInputs {
        status,
        total_files,
        indexed_files,
        total_chunks,
        total_symbols,
        request,
        symbols,
        relations,
    } = inputs;
    let lifecycle = lifecycle_view(&status);
    let identity = ExportIdentity {
        project_id: Some(status.project_id.clone()),
        entity_id: None,
        stable_memory_id: None,
        stable_symbol_id: None,
        stable_node_ids: true,
        node_ids_are_project_scoped: true,
        stable_edge_ids: false,
        edge_ids_are_local_only: true,
        node_id_semantics: Some(String::from_str("stable_project_scoped_project_id")),
        edge_id_semantics: Some(String::from_str("no_public_edge_ids")),
    };
    let preferred: [&str; 2] = ["projection", "contract"];
    let legacy: [&str; 2] = ["status", "lifecycle"];
    let forbidden: [&str; 0] = [];
    let base = export_contract_meta(identity, Some(&status));
    let contract = with_surface_guidance(
        base,
        preferred.as_slice(),
        legacy.as_slice(),
        forbidden.as_slice(),
    );
    proof {
        assert(slice_view(preferred@) =~= seq!["projection"@, "contract"@]);
        assert(slice_view(legacy@) =~= seq!["status"@, "lifecycle"@]);
        assert(forbidden@ =~= Seq::<&str>::empty());
        assert(slice_view(forbidden@).len() == 0);
        assert(strs_view(contract.surface_guidance.forbidden_to_depend_fields@).len() == 0);
        assert(contract.surface_guidance.forbidden_to_depend_fields@.len() == 0);
    }
    let nodes = symbols.len();
    let edges = relations.len();
    let shaping = summary_project_projection_shaping(&request, nodes, edges);
    let summary = summary_project_projection_response(&status, nodes, edges);
    let exported_nodes = exported_symbol_nodes(symbols.as_slice());
    let exported_edges = exported_symbol_edges(relations.as_slice());
    ExportedProjectProjection {
        project_id: status.project_id.clone(),
        request,
        summary,
        shaping,
        counts: CountSummary {
            files: Some(total_files),
            indexed_files: Some(indexed_files),
            chunks: Some(total_chunks),
            symbols: Some(total_symbols),
            nodes: Some(nodes),
            edges: Some(edges),
            results: None,
            total: None,
        },
        nodes: exported_nodes,
        edges: exported_edges,
        lifecycle,
        contract,
    }
}

/// Builds the projection document of a project: collects the inputs, shapes
/// the graph by the request and assembles the document.
pub fn build_project_projection(
    status: &IndexStatus,
    total_files: u32,
    indexed_files: u32,
    total_chunks: u32,
    total_symbols: u32,
    request: ProjectProjectionRequest,
    symbols: &[CodeSymbol],
    relations: &[SymbolRelation],
) -> (r: ExportedProjectProjection)
    ensures
        exists|shaped: ProjectProjectionInputs|
            {
                &&& shaped.status.same_as(*status)
                &&& shaped.total_files == total_files
                &&& shaped.indexed_files == indexed_files
                &&& shaped.total_chunks == total_chunks
                &&& shaped.total_symbols == total_symbols
                &&& shaped.request.relation_scope@ == spec_normalize_relation_scope(
                    request.relation_scope@,
                )
                &&& shaped.request.sort_mode@ == "canonical"@
                &&& shaped.relations@ == spec_scoped_relations(
                    relations@,
                    spec_normalize_relation_scope(request.relation_scope@),
                )
                &&& shaped.symbols@ == spec_scoped_symbols(
                    symbols@,
                    relations@,
                    spec_normalize_relation_scope(request.relation_scope@),
                )
                &&& projection_assembled_from(r, shaped)
            },
{
    let inputs = collect_project_projection_inputs(
        status.clone(),
        total_files,
        indexed_files,
        total_chunks,
        total_symbols,
        request,
        clone_symbols(symbols),
        clone_symbol_relations(relations),
    );
    let shaped = shape_project_projection_graph(inputs);
    let ghost shaped_ghost = shaped;
    let r = assemble_project_projection(shaped);
    proof {
        assert(shaped_ghost.status.same_as(*status));
    }
    r
}

} // verus!
