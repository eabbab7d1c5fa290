use memory_mcp::graph::{build_graph, entity_embed_text, entity_type_or_unknown};

fn ids(v: &[Option<&str>]) -> Vec<Option<String>> {
    v.iter().map(|o| o.map(|s| s.to_string())).collect()
}

fn rels(v: &[(&str, &str)]) -> Vec<(String, String)> {
    v.iter().map(|(a, b)| (a.to_string(), b.to_string())).collect()
}

#[test]
fn graph_keeps_records_with_ids_and_known_edges() {
    let (nodes, edges) = build_graph(
        &ids(&[Some("a"), None, Some("b"), Some("c")]),
        &rels(&[("a", "b"), ("b", "zz"), ("c", "a"), ("c", "c")]),
    );
    assert_eq!(nodes, vec!["a".to_string(), "b".to_string(), "c".to_string()]);
    assert_eq!(edges, vec![(0, 1), (2, 0), (2, 2)]);
}

#[test]
fn repeated_ids_name_their_last_node() {
    let (nodes, edges) = build_graph(&ids(&[Some("a"), Some("b"), Some("a")]), &rels(&[("b", "a")]));
    assert_eq!(nodes.len(), 3);
    assert_eq!(edges, vec![(1, 2)]);
}

#[test]
fn empty_graph() {
    let (nodes, edges) = build_graph(&Vec::new(), &rels(&[("a", "b")]));
    assert!(nodes.is_empty());
    assert!(edges.is_empty());
}

#[test]
fn entity_text_and_type_defaults() {
    assert_eq!(entity_embed_text("Rust", Some("a language")), "Rust: a language");
    assert_eq!(entity_embed_text("Rust", None), "Rust: ");
    assert_eq!(entity_type_or_unknown(None), "unknown");
    assert_eq!(entity_type_or_unknown(Some("person".to_string())), "person");
}
