use memory_mcp::search::{
    chunk_matches_filters, first_occurrence_positions, indexing_in_progress_message,
    is_codeish_query, merge_search_hits, recall_fetch_limit, symbol_chunk_overlap, HitSource,
    MergedHit, OverlapTier, chunk_lexical_evidence, symbol_lexical_evidence, SymbolTermHit,
    TermHit, exact_symbol_files, symbol_seed_key,
};

fn strings(v: &[&str]) -> Vec<String> {
    v.iter().map(|s| s.to_string()).collect()
}

#[test]
fn codeish_queries() {
    assert!(is_codeish_query("split_identifier", &vec![]));
    assert!(is_codeish_query("crate::types", &vec![]));
    assert!(is_codeish_query("src/lib.rs", &vec![]));
    assert!(is_codeish_query("searchCode", &vec![]));
    assert!(is_codeish_query("find the struct", &strings(&["find", "the", "struct"])));
    assert!(!is_codeish_query("how does search work", &strings(&["how", "does", "search", "work"])));
    assert!(!is_codeish_query("Search", &vec![]));
}

#[test]
fn merge_puts_vector_first_and_skips_repeats() {
    let hits = merge_search_hits(&strings(&["a", "b"]), &strings(&["b", "c", "d"]), 3);
    assert_eq!(
        hits,
        vec![
            MergedHit { source: HitSource::Vector, index: 0 },
            MergedHit { source: HitSource::Vector, index: 1 },
            MergedHit { source: HitSource::Bm25, index: 1 },
        ]
    );
    assert_eq!(HitSource::Bm25.name(), "bm25");
}

#[test]
fn merge_respects_limit_and_duplicate_vectors() {
    let hits = merge_search_hits(&strings(&["a", "a", "b", "c"]), &strings(&["d"]), 2);
    assert_eq!(
        hits,
        vec![MergedHit { source: HitSource::Vector, index: 0 }, MergedHit { source: HitSource::Vector, index: 2 }]
    );
    let zero = merge_search_hits(&strings(&["a", "b"]), &strings(&["c"]), 0);
    assert_eq!(zero, vec![MergedHit { source: HitSource::Vector, index: 0 }]);
    let empty = merge_search_hits(&vec![], &strings(&["x", "x", "y"]), 5);
    assert_eq!(
        empty,
        vec![MergedHit { source: HitSource::Bm25, index: 0 }, MergedHit { source: HitSource::Bm25, index: 2 }]
    );
}

#[test]
fn recall_filters() {
    assert!(chunk_matches_filters("src/lib.rs", "rust", "function", Some("src/"), Some("Rust"), Some("FUNCTION")));
    assert!(!chunk_matches_filters("tests/a.rs", "rust", "function", Some("src/"), None, None));
    assert!(!chunk_matches_filters("src/a.py", "python", "function", None, Some("rust"), None));
    assert!(chunk_matches_filters("x", "y", "z", None, None, None));
}

#[test]
fn recall_fetch_limits() {
    assert_eq!(recall_fetch_limit(10, true), 100);
    assert_eq!(recall_fetch_limit(50, true), 300);
    assert_eq!(recall_fetch_limit(10, false), 80);
    assert_eq!(recall_fetch_limit(50, false), 250);
}

#[test]
fn overlap_tiers() {
    assert_eq!(symbol_chunk_overlap("a.rs", 10, 20, "a.rs", 15, 30), OverlapTier::Overlapping);
    assert_eq!(symbol_chunk_overlap("a.rs", 10, 20, "a.rs", 25, 30), OverlapTier::Near);
    assert_eq!(symbol_chunk_overlap("a.rs", 10, 20, "a.rs", 33, 40), OverlapTier::Close);
    assert_eq!(symbol_chunk_overlap("a.rs", 10, 20, "a.rs", 60, 70), OverlapTier::Unrelated);
    assert_eq!(symbol_chunk_overlap("a.rs", 10, 20, "b.rs", 15, 16), OverlapTier::Unrelated);
}

#[test]
fn first_occurrences_keep_order() {
    assert_eq!(first_occurrence_positions(&strings(&["x", "y", "x", "z", "y"])), vec![0, 1, 3]);
}

#[test]
fn indexing_message_counts_files() {
    assert_eq!(
        indexing_in_progress_message(3, 12),
        "Indexing in progress (3/12 files). Results may be incomplete."
    );
}

#[test]
fn chunk_evidence_ranks_each_term_by_strongest_field() {
    let terms = strings(&["parse", "config", "token", "zzz", "x"]);
    let ev = chunk_lexical_evidence(
        "src/Config/Loader.rs",
        Some("parse_file"),
        Some("mod Tokenizer"),
        "let value = read();",
        "parse config",
        &terms,
    );
    assert!(!ev.query_hit);
    assert_eq!(
        ev.hits,
        vec![TermHit::Name, TermHit::Path, TermHit::Context, TermHit::Missing, TermHit::Skipped]
    );
    assert!(ev.strong_hit);
    assert!(ev.short_chunk);
}

#[test]
fn chunk_evidence_query_hit_needs_four_bytes() {
    let ev = chunk_lexical_evidence("src/loader.rs", None, None, &"a".repeat(100), "loader", &Vec::new());
    assert!(ev.query_hit);
    assert!(ev.strong_hit);
    assert!(!ev.short_chunk);
    let ev = chunk_lexical_evidence("src/abc.rs", None, None, "body text", "abc", &strings(&["body"]));
    assert!(!ev.query_hit);
    assert_eq!(ev.hits, vec![TermHit::Content]);
    assert!(!ev.strong_hit);
}

#[test]
fn symbol_evidence_separates_tokens_from_substrings() {
    let terms = strings(&["http", "serv", "request", "q"]);
    let ev = symbol_lexical_evidence("HttpServer", Some("fn handle(request: Request)"), "httpserver", &terms);
    assert!(ev.name_exact);
    assert!(!ev.name_contains_query);
    assert!(!ev.signature_contains_query);
    assert_eq!(
        ev.hits,
        vec![
            SymbolTermHit::NameToken,
            SymbolTermHit::NameOrSignature,
            SymbolTermHit::NameOrSignature,
            SymbolTermHit::Skipped,
        ]
    );
}

#[test]
fn symbol_evidence_query_containment() {
    let ev = symbol_lexical_evidence("parse_config_file", None, "config", &Vec::new());
    assert!(!ev.name_exact);
    assert!(ev.name_contains_query);
    assert!(!ev.signature_contains_query);
    let ev = symbol_lexical_evidence("run", Some("fn run(cfg: Config)"), "config", &strings(&["missing"]));
    assert!(!ev.name_contains_query);
    assert!(ev.signature_contains_query);
    assert_eq!(ev.hits, vec![SymbolTermHit::Missing]);
}

#[test]
fn seed_key_prefers_the_symbol_id() {
    assert_eq!(symbol_seed_key(Some(("code_symbol", "abc")), "src/A.rs", "Foo", 7), "code_symbol:abc");
    assert_eq!(symbol_seed_key(None, "src/A.rs", "FooBar", 42), "src/a.rs:foobar:42");
}

#[test]
fn exact_symbol_files_are_the_eight_smallest_distinct_paths() {
    let paths = strings(&["j.rs", "b.rs", "a.rs", "b.rs", "i.rs", "h.rs", "g.rs", "f.rs", "e.rs", "d.rs", "c.rs"]);
    assert_eq!(
        exact_symbol_files(&paths),
        strings(&["a.rs", "b.rs", "c.rs", "d.rs", "e.rs", "f.rs", "g.rs", "h.rs"])
    );
    assert_eq!(exact_symbol_files(&strings(&["z.rs", "a.rs", "z.rs"])), strings(&["a.rs", "z.rs"]));
    assert_eq!(exact_symbol_files(&Vec::new()), Vec::<String>::new());
}
