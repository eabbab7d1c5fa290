use memory_mcp::surfaces::{
    audit_export_contract, bootstrap_export_contract, graph_export_contract,
    learning_export_contract, project_status_contract, symbol_export_contract,
};
use memory_mcp::types::{IndexState, IndexStatus};

#[test]
fn graph_contract_identity_and_frontier() {
    let c = graph_export_contract(Some("entities:alice"));
    assert_eq!(c.schema_version, 1);
    assert_eq!(c.identity.entity_id.as_deref(), Some("entities:alice"));
    assert!(c.identity.stable_node_ids);
    assert!(!c.identity.node_ids_are_project_scoped);
    assert!(c.identity.edge_ids_are_local_only);
    assert_eq!(c.identity.node_id_semantics.as_deref(), Some("stable_public_node_id"));
    assert_eq!(c.identity.edge_id_semantics.as_deref(), Some("local_only_edge_reference"));
    assert_eq!(c.projection_state.name(), "missing");
    assert_eq!(c.surface_guidance.preferred_response_fields[0], "nodes");
    assert_eq!(c.surface_guidance.legacy_compatibility_fields[0], "entities");
    assert_eq!(c.surface_guidance.forbidden_to_depend_fields[0], "relations[].id");
    let t = c.traversal_defaults.unwrap();
    assert_eq!(t.frontier_semantics.as_deref(), Some("unexpanded_boundary_for_manual_follow_up"));
    assert_eq!(t.frontier_items_identity_basis.as_deref(), Some("stable_public_node_id"));
    assert_eq!(t.frontier_items_are_stable_node_ids, Some(true));
    assert_eq!(t.frontier_items_are_project_scoped, Some(false));
    assert_eq!(t.frontier_is_cursor, Some(false));
}

#[test]
fn symbol_contract_is_project_scoped() {
    let c = symbol_export_contract("code_symbols:abc");
    assert_eq!(c.identity.stable_symbol_id.as_deref(), Some("code_symbols:abc"));
    assert!(c.identity.node_ids_are_project_scoped);
    let t = c.traversal_defaults.unwrap();
    assert_eq!(t.default_relation_scope, "mixed");
    assert_eq!(t.relation_metadata_exposed.len(), 5);
    assert_eq!(t.frontier_items_are_project_scoped, Some(true));
}

#[test]
fn project_status_contract_takes_lifecycle_generations() {
    let mut status = IndexStatus::new("p".to_string());
    status.status = IndexState::Completed;
    status.structural_generation = 4;
    status.semantic_generation = 3;
    let c = project_status_contract(Some("p"), Some(&status), 4, 3);
    assert_eq!(c.identity.project_id.as_deref(), Some("p"));
    assert_eq!(c.generation_basis.structural_generation, 4);
    assert_eq!(c.generation_basis.semantic_generation, 3);
    assert_eq!(c.projection.generation, 3);
    assert_eq!(c.projection.materialization.current_generation, 3);
    assert_eq!(c.surface_guidance.preferred_response_fields, vec!["lifecycle".to_string(), "contract".to_string()]);
    let none = project_status_contract(None, None, 0, 0);
    assert_eq!(none.projection_state.name(), "missing");
}

#[test]
fn learning_bootstrap_and_audit_contracts() {
    let l = learning_export_contract(Some("mem-1"));
    assert_eq!(l.identity.stable_memory_id.as_deref(), Some("mem-1"));
    assert_eq!(l.identity.node_id_semantics.as_deref(), Some("stable_public_memory_id"));
    assert_eq!(l.surface_guidance.legacy_compatibility_fields.len(), 3);
    let b = bootstrap_export_contract();
    assert_eq!(b.surface_guidance.preferred_response_fields.len(), 8);
    assert_eq!(b.surface_guidance.preferred_response_fields[0], "active_tasks");
    let a = audit_export_contract();
    assert_eq!(a.surface_guidance.preferred_response_fields[2], "observation_counts");
    assert!(a.identity.project_id.is_none());
}
