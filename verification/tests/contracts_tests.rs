use memory_mcp::contracts::{
    export_contract_meta, summary_collection_response, summary_graph_response,
    summary_index_status_counts, summary_symbol_graph_response, with_frontier_contract,
    with_surface_guidance, with_traversal_defaults, ContractReasonCode, ExportIdentity,
    ProjectionContractState,
};
use memory_mcp::projection::{
    build_project_projection, collect_project_projection_inputs, shape_project_projection_graph,
    ProjectProjectionRequest,
};
use memory_mcp::types::{
    CodeRelationType, CodeSymbol, ConfidenceClass, IndexState, IndexStatus, ProjectionState,
    RecordId, RelationClass, RelationProvenance, StalenessState, SymbolRelation, SymbolType,
};

fn symbol(
    key: &str,
    name: &str,
    symbol_type: SymbolType,
    file_path: &str,
    signature: Option<&str>,
    start_line: u32,
    end_line: u32,
    project_id: &str,
) -> CodeSymbol {
    CodeSymbol {
        id: Some(RecordId::new("code_symbols", key)),
        name: name.to_string(),
        symbol_type,
        file_path: file_path.to_string(),
        signature: signature.map(|s| s.to_string()),
        start_line,
        end_line,
        project_id: project_id.to_string(),
        generation: None,
    }
}

fn relation(
    from: &str,
    to: &str,
    relation_type: CodeRelationType,
    freshness_generation: u64,
    line_number: u32,
    project_id: &str,
) -> SymbolRelation {
    SymbolRelation {
        id: None,
        from_symbol: RecordId::new("code_symbols", from),
        to_symbol: RecordId::new("code_symbols", to),
        relation_type,
        relation_class: RelationClass::Observed,
        provenance: RelationProvenance::ParserExtracted,
        confidence_class: ConfidenceClass::Extracted,
        freshness_generation,
        staleness_state: StalenessState::Current,
        file_path: "src/lib.rs".to_string(),
        line_number,
        project_id: project_id.to_string(),
    }
}

fn request(scope: &str, mode: &str) -> ProjectProjectionRequest {
    ProjectProjectionRequest { relation_scope: scope.to_string(), sort_mode: mode.to_string() }
}

fn assert_fixed_materialization(contract: &memory_mcp::contracts::ExportContractMeta) {
    let m = &contract.projection.materialization;
    assert_eq!(m.strategy, "not_materialized");
    assert_eq!(m.refresh_basis, "semantic_generation");
    assert_eq!(m.persistence_semantics, "contract is exposed on status surfaces only; no persisted projection artifact is promised yet");
    assert_eq!(m.is_addressable, false);
    assert_eq!(m.shape_version_semantics, "materialized_projection_payload_shape_version");
    assert_eq!(m.addressability_semantics, "no_stable_external_read_target_is_promised_until_materialization_strategy_changes");
    assert_eq!(m.locator_kind, None);
    assert_eq!(m.locator_semantics, "absent_when_not_materialized; when present it identifies the externally consumable projection instance");
    assert_eq!(m.locator_stability, "not_stable_until_materialization_strategy_changes");
    assert_eq!(m.locator_scope, "none_when_not_materialized");
    assert_eq!(m.locator_is_opaque, true);
    assert_eq!(m.locator_can_be_persisted_by_clients, false);
    assert_eq!(m.locator_survives_generation_change, false);
    assert_eq!(m.last_materialized_generation, None);
    assert_eq!(m.consistent_with_projection_state, true);
}

#[test]
fn export_contract_meta_without_status_sets_missing_projection_and_zero_generations() {
    let contract = export_contract_meta(ExportIdentity::default(), None);

    assert_eq!(contract.projection_state, ProjectionContractState::Missing);
    assert_eq!(contract.projection.state, ProjectionContractState::Missing);
    assert_eq!(contract.projection.basis, "semantic_generation");
    assert_eq!(contract.projection.generation, 0);
    assert_eq!(contract.projection.materialization.identity_basis, "project_id + semantic_generation");
    assert_fixed_materialization(&contract);
    assert_eq!(contract.projection.materialization.current_generation, 0);
    assert_eq!(contract.generation_basis.structural_generation, 0);
    assert_eq!(contract.generation_basis.semantic_generation, 0);
    assert!(contract.generation_basis.lifecycle.is_none());
}

#[test]
fn export_contract_meta_with_stale_status_copies_generation_basis_and_lifecycle() {
    let mut status = IndexStatus::new("proj-stale".to_string());
    status.status = IndexState::EmbeddingPending;
    status.mark_structural_generation_advanced();
    status.refresh_lifecycle_states();

    let contract = export_contract_meta(ExportIdentity::default(), Some(&status));

    assert_eq!(contract.projection_state, ProjectionContractState::Stale);
    assert_eq!(contract.projection.state, ProjectionContractState::Stale);
    assert_eq!(contract.projection.generation, status.semantic_generation);
    assert_fixed_materialization(&contract);
    assert_eq!(contract.projection.materialization.current_generation, 0);
    assert_eq!(contract.generation_basis.structural_generation, 1);
    assert_eq!(contract.generation_basis.semantic_generation, 0);
    assert_eq!(contract.generation_basis.lifecycle.as_ref().unwrap().structural.generation, 1);
    assert_eq!(contract.generation_basis.lifecycle.as_ref().unwrap().semantic.generation, 0);
}

#[test]
fn export_contract_meta_with_current_projection_reports_current() {
    let mut status = IndexStatus::new("proj-current".to_string());
    status.status = IndexState::Completed;
    status.mark_structural_generation_advanced();
    status.mark_semantic_generation_caught_up();
    status.projection_state = ProjectionState::Current;
    status.refresh_lifecycle_states();

    let contract = export_contract_meta(ExportIdentity::default(), Some(&status));

    assert_eq!(contract.projection_state, ProjectionContractState::Current);
    assert_eq!(contract.projection.state, ProjectionContractState::Current);
    assert_eq!(contract.projection.basis, "semantic_generation");
    assert_eq!(contract.projection.generation, 1);
    assert_fixed_materialization(&contract);
    assert_eq!(contract.projection.materialization.current_generation, 1);
    assert_eq!(contract.generation_basis.semantic_generation, 1);
}

#[test]
fn build_project_projection_sets_projection_identity_and_counts() {
    let mut status = IndexStatus::new("proj-builder".to_string());
    status.status = IndexState::Completed;
    status.total_files = 3;
    status.mark_structural_generation_advanced();
    status.mark_semantic_generation_caught_up();
    status.mark_projection_current();
    status.refresh_lifecycle_states();

    let symbols = vec![
        symbol("caller", "caller", SymbolType::Function, "src/lib.rs", Some("fn caller()"), 2, 2, "proj-builder"),
        symbol("target", "target", SymbolType::Function, "src/lib.rs", Some("fn target()"), 1, 1, "proj-builder"),
    ];
    let relations = vec![relation("caller", "target", CodeRelationType::Calls, 1, 2, "proj-builder")];

    let projection =
        build_project_projection(&status, 3, 3, 5, 2, request("all", "canonical"), &symbols, &relations);

    assert_eq!(projection.project_id, "proj-builder");
    assert_eq!(projection.contract.schema_version, 1);
    assert_eq!(projection.contract.identity.project_id, Some("proj-builder".to_string()));
    assert_eq!(projection.contract.identity.stable_node_ids, true);
    assert_eq!(projection.contract.identity.node_ids_are_project_scoped, true);
    assert_eq!(projection.contract.identity.node_id_semantics, Some("stable_project_scoped_project_id".to_string()));
    assert_eq!(projection.contract.identity.edge_id_semantics, Some("no_public_edge_ids".to_string()));
    assert_eq!(projection.request.relation_scope, "all");
    assert_eq!(projection.request.sort_mode, "canonical");
    assert_eq!(projection.summary.result_kind, "graph");
    assert_eq!(projection.counts.files, Some(3));
    assert_eq!(projection.counts.indexed_files, Some(3));
    assert_eq!(projection.counts.chunks, Some(5));
    assert_eq!(projection.counts.symbols, Some(2));
    assert_eq!(projection.counts.nodes, Some(2));
    assert_eq!(projection.counts.edges, Some(1));
    assert_eq!(projection.nodes.len(), 2);
    assert_eq!(projection.edges.len(), 1);
}

#[test]
fn build_project_projection_preserves_current_projection_state() {
    let mut status = IndexStatus::new("proj-current-builder".to_string());
    status.status = IndexState::Completed;
    status.mark_structural_generation_advanced();
    status.mark_semantic_generation_caught_up();
    status.mark_projection_current();
    status.refresh_lifecycle_states();

    let projection = build_project_projection(&status, 1, 1, 0, 0, request("all", "canonical"), &[], &[]);

    assert_eq!(projection.lifecycle.projection.state, "current");
    assert_eq!(projection.lifecycle.projection.is_current, true);
    assert_eq!(projection.contract.projection.state, ProjectionContractState::Current);
    assert_eq!(projection.contract.projection.generation, 1);
    assert_eq!(projection.contract.projection.materialization.current_generation, 1);
    assert_eq!(projection.contract.projection.materialization.consistent_with_projection_state, true);
    assert_eq!(projection.request.relation_scope, "all");
    assert_eq!(projection.request.sort_mode, "canonical");
    assert_eq!(projection.summary.partial.as_ref().unwrap().is_partial, false);
    assert_eq!(projection.summary.partial.as_ref().unwrap().reason_code, None);
    assert_eq!(projection.summary.partial.as_ref().unwrap().reason, None);
    assert_eq!(
        projection.summary.partial.as_ref().unwrap().message.as_deref(),
        Some("Projection is an on-demand export of the current semantic snapshot; no separately materialized artifact is promised.")
    );
}

#[test]
fn build_project_projection_marks_stale_projection_as_partial() {
    let mut status = IndexStatus::new("proj-stale-builder".to_string());
    status.status = IndexState::EmbeddingPending;
    status.mark_structural_generation_advanced();
    status.refresh_lifecycle_states();

    let projection = build_project_projection(&status, 1, 1, 0, 0, request("all", "canonical"), &[], &[]);

    assert_eq!(projection.lifecycle.projection.state, "stale");
    assert_eq!(projection.contract.projection.state, ProjectionContractState::Stale);
    assert_eq!(projection.summary.partial.as_ref().unwrap().is_partial, true);
    assert_eq!(projection.summary.partial.as_ref().unwrap().reason_code, Some(ContractReasonCode::Stale));
    assert_eq!(projection.summary.partial.as_ref().unwrap().reason.as_deref(), Some("projection_stale"));
    assert_eq!(
        projection.summary.partial.as_ref().unwrap().message.as_deref(),
        Some("Projection is an on-demand export of the latest available semantic snapshot and may lag structural changes.")
    );
}

#[test]
fn build_project_projection_with_imports_scope_filters_non_import_edges() {
    let status = IndexStatus::new("proj-imports".to_string());
    let symbols = vec![
        symbol("caller", "caller", SymbolType::Function, "src/lib.rs", None, 2, 2, "proj-imports"),
        symbol("module", "module", SymbolType::Module, "src/lib.rs", None, 1, 1, "proj-imports"),
        symbol("dep", "dep", SymbolType::Module, "src/dep.rs", None, 1, 1, "proj-imports"),
        symbol("orphan", "orphan", SymbolType::Function, "src/orphan.rs", None, 1, 1, "proj-imports"),
    ];
    let relations = vec![
        relation("caller", "target", CodeRelationType::Calls, 0, 2, "proj-imports"),
        relation("module", "dep", CodeRelationType::Imports, 0, 1, "proj-imports"),
    ];

    let projection =
        build_project_projection(&status, 1, 1, 0, 0, request("imports", "canonical"), &symbols, &relations);

    assert_eq!(projection.request.relation_scope, "imports");
    assert_eq!(projection.edges.len(), 1);
    assert_eq!(projection.edges[0].relation_type, "imports");
    assert_eq!(projection.nodes.len(), 2);
    assert_eq!(projection.counts.nodes, Some(2));
    let node_ids: Vec<_> = projection.nodes.iter().map(|node| node.id.as_str()).collect();
    assert!(node_ids.contains(&"module"));
    assert!(node_ids.contains(&"dep"));
    assert!(!node_ids.contains(&"orphan"));
    assert_eq!(projection.counts.edges, Some(1));
}

#[test]
fn build_project_projection_with_type_links_scope_filters_to_extends_and_implements() {
    let status = IndexStatus::new("proj-type-links".to_string());
    let symbols = vec![
        symbol("caller", "caller", SymbolType::Function, "src/lib.rs", None, 2, 2, "proj-type-links"),
        symbol("child", "child", SymbolType::Class, "src/lib.rs", None, 3, 3, "proj-type-links"),
        symbol("parent", "parent", SymbolType::Class, "src/lib.rs", None, 4, 4, "proj-type-links"),
        symbol("impl", "impl", SymbolType::Class, "src/lib.rs", None, 5, 5, "proj-type-links"),
        symbol("trait", "trait", SymbolType::Trait, "src/lib.rs", None, 6, 6, "proj-type-links"),
        symbol("orphan", "orphan", SymbolType::Function, "src/orphan.rs", None, 1, 1, "proj-type-links"),
    ];
    let relations = vec![
        relation("caller", "target", CodeRelationType::Calls, 0, 2, "proj-type-links"),
        relation("child", "parent", CodeRelationType::Extends, 0, 3, "proj-type-links"),
        relation("impl", "trait", CodeRelationType::Implements, 0, 4, "proj-type-links"),
    ];

    let projection = build_project_projection(
        &status, 1, 1, 0, 0, request("type_links", "canonical"), &symbols, &relations,
    );

    assert_eq!(projection.request.relation_scope, "type_links");
    assert_eq!(projection.edges.len(), 2);
    assert!(projection
        .edges
        .iter()
        .all(|edge| edge.relation_type == "extends" || edge.relation_type == "implements"));
    assert_eq!(projection.nodes.len(), 4);
    assert_eq!(projection.counts.nodes, Some(4));
    let node_ids: Vec<_> = projection.nodes.iter().map(|node| node.id.as_str()).collect();
    assert!(node_ids.contains(&"child"));
    assert!(node_ids.contains(&"parent"));
    assert!(node_ids.contains(&"impl"));
    assert!(node_ids.contains(&"trait"));
    assert!(!node_ids.contains(&"orphan"));
    assert_eq!(projection.counts.edges, Some(2));
}

#[test]
fn build_project_projection_with_calls_scope_prunes_unrelated_nodes() {
    let status = IndexStatus::new("proj-calls-prune".to_string());
    let symbols = vec![
        symbol("caller", "caller", SymbolType::Function, "src/lib.rs", None, 2, 2, "proj-calls-prune"),
        symbol("target", "target", SymbolType::Function, "src/lib.rs", None, 1, 1, "proj-calls-prune"),
        symbol("orphan", "orphan", SymbolType::Function, "src/orphan.rs", None, 1, 1, "proj-calls-prune"),
    ];
    let relations = vec![
        relation("caller", "target", CodeRelationType::Calls, 0, 2, "proj-calls-prune"),
        relation("caller", "target", CodeRelationType::Imports, 0, 1, "proj-calls-prune"),
    ];

    let projection =
        build_project_projection(&status, 1, 1, 0, 0, request("calls", "canonical"), &symbols, &relations);

    assert_eq!(projection.request.relation_scope, "calls");
    assert_eq!(projection.edges.len(), 1);
    assert_eq!(projection.nodes.len(), 2);
    assert_eq!(projection.counts.nodes, Some(2));
    let node_ids: Vec<_> = projection.nodes.iter().map(|node| node.id.as_str()).collect();
    assert!(node_ids.contains(&"caller"));
    assert!(node_ids.contains(&"target"));
    assert!(!node_ids.contains(&"orphan"));
}

#[test]
fn build_project_projection_with_none_scope_returns_empty_graph() {
    let status = IndexStatus::new("proj-none-empty".to_string());
    let symbols = vec![symbol("orphan", "orphan", SymbolType::Function, "src/orphan.rs", None, 1, 1, "proj-none-empty")];

    let projection =
        build_project_projection(&status, 1, 1, 0, 1, request("none", "canonical"), &symbols, &[]);

    assert_eq!(projection.request.relation_scope, "none");
    assert_eq!(projection.nodes.len(), 0);
    assert_eq!(projection.edges.len(), 0);
    assert_eq!(projection.counts.nodes, Some(0));
    assert_eq!(projection.counts.edges, Some(0));
    assert_eq!(projection.shaping.relation_scope_applied, "none");
    assert_eq!(projection.shaping.sort_mode_applied, "canonical");
    assert_eq!(projection.shaping.node_selection_basis, "empty_graph_when_no_edges_retained");
    assert_eq!(projection.shaping.edge_selection_basis, "no_edges_retained");
    assert_eq!(projection.shaping.output_kind, "empty_graph");
}

#[test]
fn build_project_projection_reports_induced_subgraph_shaping_semantics() {
    let status = IndexStatus::new("proj-shaping".to_string());
    let symbols = vec![
        symbol("caller", "caller", SymbolType::Function, "src/lib.rs", None, 2, 2, "proj-shaping"),
        symbol("target", "target", SymbolType::Function, "src/lib.rs", None, 1, 1, "proj-shaping"),
        symbol("orphan", "orphan", SymbolType::Function, "src/orphan.rs", None, 1, 1, "proj-shaping"),
    ];
    let relations = vec![relation("caller", "target", CodeRelationType::Calls, 0, 2, "proj-shaping")];

    let projection =
        build_project_projection(&status, 1, 1, 0, 3, request("calls", "canonical"), &symbols, &relations);

    assert_eq!(projection.shaping.relation_scope_applied, "calls");
    assert_eq!(projection.shaping.sort_mode_applied, "canonical");
    assert_eq!(projection.shaping.node_selection_basis, "relation_endpoint_induced_subgraph");
    assert_eq!(projection.shaping.edge_selection_basis, "only_call_edges");
    assert_eq!(projection.shaping.output_kind, "induced_symbol_graph");
}

#[test]
fn build_project_projection_normalizes_unknown_request_values_to_defaults() {
    let status = IndexStatus::new("proj-defaults".to_string());

    let projection = build_project_projection(&status, 1, 1, 0, 0, request("weird", "odd"), &[], &[]);

    assert_eq!(projection.request.relation_scope, "all");
    assert_eq!(projection.request.sort_mode, "canonical");
}

#[test]
fn projection_nodes_and_edges_come_out_in_canonical_order() {
    let status = IndexStatus::new("p".to_string());
    let symbols = vec![
        symbol("b", "b", SymbolType::Function, "src/z.rs", None, 9, 9, "p"),
        symbol("a", "a", SymbolType::Function, "src/a.rs", None, 5, 5, "p"),
        symbol("c", "c", SymbolType::Function, "src/a.rs", None, 1, 1, "p"),
    ];
    let relations = vec![
        relation("b", "a", CodeRelationType::Calls, 0, 7, "p"),
        relation("a", "c", CodeRelationType::Calls, 0, 3, "p"),
    ];
    let projection = build_project_projection(&status, 0, 0, 0, 0, request("all", "x"), &symbols, &relations);
    let ids: Vec<_> = projection.nodes.iter().map(|n| n.id.as_str()).collect();
    assert_eq!(ids, vec!["a", "b", "c"]);
    let edges: Vec<_> = projection.edges.iter().map(|e| (e.from_id.as_str(), e.to_id.as_str())).collect();
    assert_eq!(edges, vec![("a", "c"), ("b", "a")]);
}

#[test]
fn surface_guidance_traversal_and_frontier_contracts_compose() {
    let contract = with_surface_guidance(
        export_contract_meta(ExportIdentity::default(), None),
        &["nodes", "edges"],
        &["entities"],
        &["relations[].id"],
    );
    assert_eq!(contract.surface_guidance.preferred_response_fields, vec!["nodes", "edges"]);
    assert_eq!(contract.surface_guidance.forbidden_to_depend_fields, vec!["relations[].id"]);
    let with_defaults = with_traversal_defaults(contract, "mixed", &["relation_class"]);
    let defaults = with_defaults.traversal_defaults.as_ref().unwrap();
    assert_eq!(defaults.default_relation_scope, "mixed");
    assert_eq!(defaults.relation_metadata_exposed, vec!["relation_class"]);
    assert_eq!(defaults.frontier_semantics, None);
    let framed = with_frontier_contract(with_defaults, "unexpanded_boundary_for_manual_follow_up", "stable_public_node_id", true, false);
    let defaults = framed.traversal_defaults.as_ref().unwrap();
    assert_eq!(defaults.relation_metadata_exposed, vec!["relation_class"]);
    assert_eq!(defaults.frontier_semantics.as_deref(), Some("unexpanded_boundary_for_manual_follow_up"));
    assert_eq!(defaults.frontier_items_identity_basis.as_deref(), Some("stable_public_node_id"));
    assert_eq!(defaults.frontier_items_are_stable_node_ids, Some(true));
    assert_eq!(defaults.frontier_items_are_project_scoped, Some(false));
    assert_eq!(defaults.frontier_is_cursor, Some(false));

    let fresh = with_frontier_contract(export_contract_meta(ExportIdentity::default(), None), "s", "b", false, true);
    let defaults = fresh.traversal_defaults.as_ref().unwrap();
    assert_eq!(defaults.default_relation_scope, "mixed");
    assert!(defaults.relation_metadata_exposed.is_empty());
}

#[test]
fn summaries_report_counts_and_partial_flags() {
    let graph = summary_graph_response(3, 2);
    assert_eq!(graph.result_kind, "graph");
    assert_eq!(graph.counts.nodes, Some(3));
    assert_eq!(graph.counts.edges, Some(2));
    assert!(graph.partial.is_none());

    let collection = summary_collection_response("collection", 4, Some(10), true, Some("m".to_string()));
    let partial = collection.partial.unwrap();
    assert_eq!(collection.counts.results, Some(4));
    assert_eq!(collection.counts.total, Some(10));
    assert_eq!(partial.reason_code, Some(ContractReasonCode::Partial));
    assert_eq!(partial.reason.as_deref(), Some("indexing_in_progress"));
    assert_eq!(partial.message.as_deref(), Some("m"));

    let complete = summary_collection_response("collection", 4, None, false, None);
    let partial = complete.partial.unwrap();
    assert_eq!(partial.reason_code, None);
    assert_eq!(partial.reason, None);

    let frontier = vec!["code_symbols:a".to_string()];
    let traversal = summary_symbol_graph_response(1, 0, usize::MAX, true, 1, &frontier);
    let t = traversal.traversal.unwrap();
    assert_eq!(t.depth_reached, Some(u32::MAX));
    assert_eq!(t.frontier.unwrap().items, frontier);

    let status = summary_index_status_counts(5, 3, 7, 9, "progress:42.0".to_string(), true, None);
    assert_eq!(status.result_kind, "status");
    assert_eq!(status.counts.files, Some(5));
    assert_eq!(status.partial.unwrap().reason.as_deref(), Some("progress:42.0"));
}

#[test]
fn shaping_twice_is_shaping_once() {
    let symbols = || {
        vec![
            symbol("b", "beta", SymbolType::Function, "src/b.rs", None, 3, 9, "p"),
            symbol("a", "alpha", SymbolType::Function, "src/a.rs", None, 1, 2, "p"),
            symbol("z", "lonely", SymbolType::Function, "src/z.rs", None, 1, 1, "p"),
        ]
    };
    let relations = || {
        vec![
            relation("b", "a", CodeRelationType::Calls, 1, 7, "p"),
            relation("a", "b", CodeRelationType::Imports, 1, 2, "p"),
        ]
    };
    for scope in ["calls", "bogus", "none", "imports"] {
        let once = shape_project_projection_graph(collect_project_projection_inputs(
            IndexStatus::new("p".to_string()),
            3,
            3,
            4,
            3,
            request(scope, "random"),
            symbols(),
            relations(),
        ));
        let twice = shape_project_projection_graph(collect_project_projection_inputs(
            IndexStatus::new("p".to_string()),
            once.total_files,
            once.indexed_files,
            once.total_chunks,
            once.total_symbols,
            request(&once.request.relation_scope, &once.request.sort_mode),
            once.symbols.iter().map(|s| s.clone()).collect(),
            once.relations.iter().map(|r| r.clone()).collect(),
        ));
        assert_eq!(twice.request, once.request);
        assert_eq!(twice.symbols, once.symbols);
        assert_eq!(twice.relations, once.relations);
        assert_eq!(twice.total_chunks, once.total_chunks);
    }
}
