use memory_mcp::code::{
    completed_semantic_generation_caught_up, completed_serving_metadata, edge_freshness,
    effective_graph_serving_metadata, effective_indexing_generation, freshness_for_file,
    graph_readiness, max_abandoned_generation, missing_project_binding_message,
    project_binding_missing, reported_serving_generation, resolve_project,
    stale_binding_overrides_reason, status_indexing_generation, symbol_id, symbol_key_of,
    CapabilityFreshness, CodeToolContext, Freshness, ProjectResolutionSource,
    ServingGenerationMetadata, frontier_symbol_positions, route_symbol_search,
    symbol_search_limit, symbol_search_readiness, SymbolSearchRoute, route_symbol_graph,
    invalid_graph_action_message, SymbolGraphRoute,
};
use memory_mcp::contracts::ContractReasonCode;
use memory_mcp::types::{IndexState, IndexStatus};

fn serving(structural: Option<u64>, graph: Option<u64>, symbols: Option<u64>) -> ServingGenerationMetadata {
    let mut s = ServingGenerationMetadata::none();
    s.structural = structural;
    s.graph = graph;
    s.symbols = symbols;
    s
}

#[test]
fn tool_context_keeps_session() {
    let ctx = CodeToolContext::from_session_id(Some("session-abc".to_string()));
    assert_eq!(ctx.session_id(), Some("session-abc"));
    assert_eq!(CodeToolContext::from_session_id(None).session_id(), None);
}

#[test]
fn explicit_project_wins_over_binding() {
    let r = resolve_project(Some("explicit".to_string()), Some("s"), Some("bound".to_string()), false);
    assert_eq!(r.project_id(), Some("explicit"));
    assert_eq!(r.source, ProjectResolutionSource::Explicit);
    assert!(!r.is_stale_binding());
}

#[test]
fn session_binding_scopes_and_marks_stale() {
    let r = resolve_project(None, Some("s"), Some("bound".to_string()), false);
    assert_eq!(r.source, ProjectResolutionSource::SessionBinding);
    assert_eq!(r.source.as_str(), "session_binding");
    assert!(!r.is_stale_binding());

    let stale = resolve_project(None, Some("s"), Some("gone".to_string()), true);
    assert_eq!(stale.project_id(), Some("gone"));
    assert_eq!(stale.reason_code, Some(ContractReasonCode::Stale));
    assert!(stale.is_stale_binding());
}

#[test]
fn no_binding_is_cross_project() {
    let r = resolve_project(None, None, Some("ignored".to_string()), true);
    assert_eq!(r.project_id, None);
    assert_eq!(r.source, ProjectResolutionSource::CrossProject);
    assert_eq!(r.source.as_str(), "cross_project");
    let unbound = resolve_project(None, Some("s"), None, false);
    assert_eq!(unbound.source, ProjectResolutionSource::CrossProject);
}

#[test]
fn stale_binding_keeps_missing_reasons() {
    assert!(stale_binding_overrides_reason(""));
    assert!(stale_binding_overrides_reason("partial"));
    assert!(!stale_binding_overrides_reason("missing"));
    assert!(!stale_binding_overrides_reason("no_serving_generation"));
}

#[test]
fn missing_binding_needs_no_registry_status_or_rows() {
    assert!(project_binding_missing(false, false, 0, 0, 0));
    assert!(!project_binding_missing(true, false, 0, 0, 0));
    assert!(!project_binding_missing(false, true, 0, 0, 0));
    assert!(!project_binding_missing(false, false, 0, 3, 0));
    let m = missing_project_binding_message("alpha");
    assert!(m.starts_with("Requested project_id 'alpha' is not registered on this server"));
    assert!(m.ends_with("Client-local paths are not server-visible unless mounted."));
}

#[test]
fn caught_up_needs_completed_and_equal_generations() {
    let mut s = IndexStatus::new("p".to_string());
    s.status = IndexState::Completed;
    s.structural_generation = 3;
    s.semantic_generation = 3;
    assert!(completed_semantic_generation_caught_up(&s));
    s.semantic_generation = 2;
    assert!(!completed_semantic_generation_caught_up(&s));
}

#[test]
fn abandoned_generation_skips_serving() {
    assert_eq!(max_abandoned_generation(&vec![3, 7, 5], Some(7)), Some(5));
    assert_eq!(max_abandoned_generation(&vec![3, 7, 5], None), Some(7));
    assert_eq!(max_abandoned_generation(&vec![4], Some(4)), None);
    assert_eq!(max_abandoned_generation(&vec![], Some(4)), None);
}

#[test]
fn effective_indexing_generation_order_and_interruption() {
    assert_eq!(effective_indexing_generation(true, Some(9), Some(8), Some(2), Some(1)), (None, false));
    assert_eq!(effective_indexing_generation(false, Some(9), Some(8), Some(2), Some(1)), (Some(9), false));
    assert_eq!(effective_indexing_generation(false, None, Some(8), Some(2), Some(1)), (Some(8), true));
    assert_eq!(effective_indexing_generation(false, None, None, Some(2), Some(1)), (Some(1), false));
    assert_eq!(status_indexing_generation(Some(9), Some(8), Some(2)), (Some(9), true));
    assert_eq!(status_indexing_generation(None, None, Some(2)), (Some(2), false));
}

#[test]
fn serving_metadata_helpers() {
    let mut s = serving(Some(4), None, None);
    s.indexing = Some(5);
    let mut status = IndexStatus::new("p".to_string());
    status.status = IndexState::Completed;
    assert_eq!(completed_serving_metadata(s, Some(&status)).indexing, None);
    status.status = IndexState::Indexing;
    assert_eq!(completed_serving_metadata(s, Some(&status)).indexing, Some(5));
    let g = effective_graph_serving_metadata(&s);
    assert_eq!(g.graph, Some(4));
    assert_eq!(g.symbols, Some(4));
    let own = serving(Some(4), Some(3), None);
    assert_eq!(effective_graph_serving_metadata(&own), own);
    let mut v = ServingGenerationMetadata::none();
    v.vector = Some(6);
    assert_eq!(reported_serving_generation(&v), Some(6));
    v.bm25 = Some(5);
    assert_eq!(reported_serving_generation(&v), Some(5));
}

#[test]
fn file_freshness_rules() {
    assert_eq!(freshness_for_file(Some(3), Some(3), true, None), Freshness::Fresh);
    assert_eq!(freshness_for_file(Some(3), Some(3), false, Some(4)), Freshness::Stale);
    assert_eq!(freshness_for_file(Some(3), Some(3), false, Some(3)), Freshness::Fresh);
    assert_eq!(freshness_for_file(None, Some(0), true, None), Freshness::Fresh);
    assert_eq!(freshness_for_file(Some(2), Some(3), true, None), Freshness::Stale);
    assert_eq!(freshness_for_file(Some(2), Some(3), false, None), Freshness::Unknown);
    assert_eq!(freshness_for_file(Some(2), None, true, None), Freshness::Missing);
    assert_eq!(Freshness::Unknown.name(), "unknown");
}

#[test]
fn edge_freshness_rules() {
    assert_eq!(edge_freshness(Some(2), Some(2)), Freshness::Fresh);
    assert_eq!(edge_freshness(Some(1), Some(2)), Freshness::Stale);
    assert_eq!(edge_freshness(None, Some(2)), Freshness::Unknown);
    assert_eq!(edge_freshness(Some(1), None), Freshness::Missing);
}

#[test]
fn symbol_ids_join_table_and_key() {
    assert_eq!(symbol_id("code_symbols", "abc"), "code_symbols:abc");
    let id: Vec<char> = "code_symbols:a:b".chars().collect();
    let key: String = symbol_key_of(&id).unwrap().into_iter().collect();
    assert_eq!(key, "a:b");
    let plain: Vec<char> = "plain".chars().collect();
    assert!(symbol_key_of(&plain).is_none());
}

#[test]
fn graph_readiness_reports_stale_and_missing() {
    let fresh = graph_readiness(&serving(Some(2), Some(2), None), Some(2), false);
    assert!(!fresh.is_stale);
    assert_eq!(fresh.graph, CapabilityFreshness::Fresh);
    assert_eq!(fresh.graph_reason_code, None);
    assert_eq!(fresh.symbols_generation, Some(2));

    let stale = graph_readiness(&serving(Some(2), Some(2), None), Some(3), true);
    assert!(stale.is_stale);
    assert_eq!(stale.graph, CapabilityFreshness::Stale);
    assert_eq!(stale.graph_reason_code, Some(ContractReasonCode::Stale));
    assert!(stale.graph_partial);
    assert!(stale.graph_degraded);

    let missing = graph_readiness(&serving(None, None, None), None, false);
    assert_eq!(missing.graph, CapabilityFreshness::Missing);
    assert_eq!(missing.graph_reason_code, Some(ContractReasonCode::Missing));
    assert_eq!(missing.symbols, CapabilityFreshness::Missing);
    assert_eq!(missing.symbols_reason_code, Some(ContractReasonCode::Missing));
}

fn ids(v: &[Option<&str>]) -> Vec<Option<String>> {
    v.iter().map(|o| o.map(|s| s.to_string())).collect()
}

#[test]
fn frontier_is_the_requested_symbol_when_present() {
    let v = ids(&[Some("symbol:a"), None, Some("symbol:b"), Some("symbol:b")]);
    assert_eq!(frontier_symbol_positions(&v, "symbol:b"), vec![2]);
}

#[test]
fn frontier_falls_back_to_the_first_ten_symbols() {
    let many: Vec<Option<String>> = (0..12).map(|i| Some(format!("symbol:{i}"))).collect();
    assert_eq!(frontier_symbol_positions(&many, "symbol:zz"), (0..10).collect::<Vec<usize>>());
    let few = ids(&[Some("symbol:a"), None]);
    assert_eq!(frontier_symbol_positions(&few, "symbol:zz"), vec![0, 1]);
    assert_eq!(frontier_symbol_positions(&Vec::new(), "symbol:zz"), Vec::<usize>::new());
}

#[test]
fn symbol_search_limit_defaults_and_clamps() {
    assert_eq!(symbol_search_limit(None), 20);
    assert_eq!(symbol_search_limit(Some(0)), 1);
    assert_eq!(symbol_search_limit(Some(50)), 50);
    assert_eq!(symbol_search_limit(Some(500)), 100);
}

#[test]
fn symbol_search_routes_missing_generation_before_stale_binding() {
    assert_eq!(route_symbol_search(true, None, true), SymbolSearchRoute::NoServingGeneration);
    assert_eq!(route_symbol_search(false, None, true), SymbolSearchRoute::StaleBinding);
    assert_eq!(route_symbol_search(true, Some(3), false), SymbolSearchRoute::Search);
}

#[test]
fn symbol_search_readiness_reports_paging_and_staleness() {
    let r = symbol_search_readiness(Some(3), Some(4), true, 0, 20, 45);
    assert!(r.has_more);
    assert!(r.is_stale);
    assert_eq!(r.freshness, CapabilityFreshness::Stale);
    assert!(r.partial_entry);
    assert!(r.degraded_entry);
    let r = symbol_search_readiness(Some(3), Some(3), true, 40, 5, 45);
    assert!(!r.has_more);
    assert!(!r.is_stale);
    assert_eq!(r.freshness, CapabilityFreshness::Fresh);
    assert!(!r.partial_entry && !r.degraded_entry);
    let r = symbol_search_readiness(None, Some(3), false, 0, 0, 0);
    assert_eq!(r.freshness, CapabilityFreshness::Missing);
    assert!(!r.is_stale);
}

#[test]
fn symbol_graph_routes_by_serving_then_action() {
    let none = serving(None, None, None);
    assert_eq!(route_symbol_graph(&none, "callers", None), SymbolGraphRoute::NoServingGeneration);
    let symbols_only = serving(Some(2), None, Some(2));
    assert_eq!(route_symbol_graph(&symbols_only, "callers", None), SymbolGraphRoute::MissingGraph);
    let full = serving(Some(2), Some(2), Some(2));
    assert_eq!(route_symbol_graph(&full, "callers", None), SymbolGraphRoute::Callers);
    assert_eq!(route_symbol_graph(&full, "callees", None), SymbolGraphRoute::Callees);
    assert_eq!(route_symbol_graph(&full, "related", None), SymbolGraphRoute::Related { depth: 1 });
    assert_eq!(route_symbol_graph(&full, "related", Some(9)), SymbolGraphRoute::Related { depth: 5 });
    assert_eq!(route_symbol_graph(&full, "related", Some(3)), SymbolGraphRoute::Related { depth: 3 });
    assert_eq!(route_symbol_graph(&full, "parents", None), SymbolGraphRoute::InvalidAction);
    assert_eq!(
        invalid_graph_action_message("parents"),
        "Invalid action 'parents'. Use: callers, callees, related"
    );
}
