use memory_mcp::contracts::ContractReasonCode;
use memory_mcp::handler::{
    binding_state, binding_summary, normalize_project_id, related_depth, require_project_id,
    route_knowledge_graph, route_project_info, session_id_from_header, trim_str,
    KnowledgeGraphRoute, ProjectInfoRoute,
};
use memory_mcp::types::IndexState;

#[test]
fn trimming_and_blank_project_ids() {
    assert_eq!(trim_str("  a b \t\n"), "a b");
    assert_eq!(trim_str("   "), "");
    assert_eq!(normalize_project_id(Some("  proj  ".to_string())).as_deref(), Some("proj"));
    assert_eq!(normalize_project_id(Some("   ".to_string())), None);
    assert_eq!(normalize_project_id(None), None);
    assert_eq!(require_project_id(Some(" ".to_string()), "status").unwrap_err(), "project_id required for status action");
    assert_eq!(require_project_id(Some("p".to_string()), "stats").unwrap(), "p");
}

#[test]
fn session_headers_are_trimmed() {
    assert_eq!(session_id_from_header(Some(" session-abc ")).as_deref(), Some("session-abc"));
    assert_eq!(session_id_from_header(Some("  ")), None);
    assert_eq!(session_id_from_header(None), None);
}

#[test]
fn project_info_routes() {
    assert_eq!(route_project_info("list", None, None, None, false), Ok(ProjectInfoRoute::List));
    assert_eq!(
        route_project_info("index", None, Some("/p".to_string()), None, false),
        Ok(ProjectInfoRoute::Index { path: "/p".to_string() })
    );
    assert_eq!(
        route_project_info("index", None, None, None, false).unwrap_err(),
        "path required for index action"
    );
    assert_eq!(
        route_project_info("status", Some(" p ".to_string()), None, None, false),
        Ok(ProjectInfoRoute::Status { project_id: "p".to_string() })
    );
    assert_eq!(
        route_project_info("projection", None, None, None, false).unwrap_err(),
        "project_id required for projection action"
    );
    assert_eq!(
        route_project_info("projection_by_locator", None, None, None, false).unwrap_err(),
        "locator required for projection_by_locator action"
    );
    assert_eq!(
        route_project_info("bind", None, None, None, false),
        Ok(ProjectInfoRoute::BindingUnsupported { action: "bind".to_string() })
    );
    assert_eq!(
        route_project_info("bind", None, None, None, true).unwrap_err(),
        "project_id required for bind action"
    );
    assert_eq!(route_project_info("unbind", None, None, None, true), Ok(ProjectInfoRoute::Unbind));
    assert_eq!(route_project_info("binding_status", None, None, None, true), Ok(ProjectInfoRoute::BindingStatus));
    assert_eq!(
        route_project_info("explode", None, None, None, true).unwrap_err(),
        "Invalid action 'explode'. Use: list, index, status, stats, projection, projection_by_locator, bind, unbind, binding_status"
    );
}

#[test]
fn knowledge_graph_routes() {
    assert_eq!(
        route_knowledge_graph("create_entity", Some("Alice".to_string()), None, None, None, None),
        Ok(KnowledgeGraphRoute::CreateEntity { name: "Alice".to_string() })
    );
    assert_eq!(
        route_knowledge_graph("create_relation", None, Some("a".to_string()), None, None, None).unwrap_err(),
        "to_entity required for create_relation"
    );
    assert_eq!(
        route_knowledge_graph("create_relation", None, Some("a".to_string()), Some("b".to_string()), Some("knows".to_string()), None),
        Ok(KnowledgeGraphRoute::CreateRelation {
            from_entity: "a".to_string(),
            to_entity: "b".to_string(),
            relation_type: "knows".to_string()
        })
    );
    assert_eq!(
        route_knowledge_graph("get_related", None, None, None, None, None).unwrap_err(),
        "entity_id required for get_related"
    );
    assert_eq!(route_knowledge_graph("detect_communities", None, None, None, None, None), Ok(KnowledgeGraphRoute::DetectCommunities));
    assert_eq!(
        route_knowledge_graph("nope", None, None, None, None, None).unwrap_err(),
        "Invalid action 'nope'. Use: create_entity, create_relation, get_related, detect_communities"
    );
    assert_eq!(related_depth(None), 1);
    assert_eq!(related_depth(Some(9)), 3);
}

#[test]
fn binding_answers() {
    let done = binding_summary(Some(IndexState::Completed));
    assert!(!done.is_partial);
    assert_eq!(done.reason, "complete");
    let running = binding_summary(Some(IndexState::Indexing));
    assert!(running.is_partial);
    assert_eq!(running.reason_code, Some(ContractReasonCode::Partial));
    let missing = binding_summary(None);
    assert_eq!(missing.reason_code, Some(ContractReasonCode::Degraded));
    assert_eq!(missing.reason, "missing_index_status");
    assert_eq!(binding_state(&Some("p".to_string())), "bound");
    assert_eq!(binding_state(&None), "unbound");
}

#[test]
fn normalizing_twice_is_normalizing_once() {
    for raw in [Some(" \u{a0}proj x\t"), Some("proj"), Some(" \n "), None] {
        let once = normalize_project_id(raw.map(|s| s.to_string()));
        let twice = normalize_project_id(once.clone());
        assert_eq!(once, twice);
    }
    assert_eq!(trim_str(&trim_str("  a b  ")), trim_str("  a b  "));
}

#[test]
fn tool_context_session_identity() {
    assert_eq!(session_id_from_header(Some("session-abc")).as_deref(), Some("session-abc"));
}

#[test]
fn tool_context_without_session_is_none() {
    assert_eq!(session_id_from_header(None), None);
}
