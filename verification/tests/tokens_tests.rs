use memory_mcp::order::sorted_unique_strings;
use memory_mcp::search::build_symbol_probes;
use memory_mcp::text::decimal_string;
use memory_mcp::tokens::{split_identifier_tokens, word_overlap, words};

fn strings(v: &[&str]) -> Vec<String> {
    v.iter().map(|s| s.to_string()).collect()
}

#[test]
fn identifier_tokens_split_case_and_digit_boundaries() {
    let toks = split_identifier_tokens("searchCodeHTTPServer2x");
    assert_eq!(
        toks,
        strings(&["code", "http", "search", "searchcodehttpserver2x", "server2", "x"])
    );
}

#[test]
fn identifier_tokens_split_on_non_alphanumeric_and_dedup() {
    assert_eq!(split_identifier_tokens("foo_bar baz::foo"), strings(&["bar", "baz", "foo"]));
    assert_eq!(split_identifier_tokens(""), Vec::<String>::new());
    assert_eq!(split_identifier_tokens("--"), Vec::<String>::new());
}

#[test]
fn identifier_tokens_lowercase_non_ascii_words() {
    assert_eq!(split_identifier_tokens("Ärger"), strings(&["ärger"]));
}

#[test]
fn identifier_tokens_single_letters_are_kept() {
    assert_eq!(split_identifier_tokens("a B"), strings(&["a", "b"]));
}

#[test]
fn words_keep_long_lowercased_pieces_in_order() {
    assert_eq!(
        words("Hello, world-wide fo_o ab HELLO"),
        strings(&["hello", "world-wide", "fo_o", "hello"])
    );
    assert_eq!(words(""), Vec::<String>::new());
}

#[test]
fn word_overlap_counts_distinct_shared_and_total_words() {
    assert_eq!(word_overlap("alpha beta gamma", "beta gamma delta alpha?"), (3, 4));
    assert_eq!(word_overlap("alpha alpha", "ALPHA"), (1, 1));
    assert_eq!(word_overlap("", "beta"), (0, 1));
    assert_eq!(word_overlap("", ""), (0, 0));
}

#[test]
fn symbol_probes_take_query_and_four_longest_terms_sorted() {
    let probes = build_symbol_probes(
        "  parse config ",
        &strings(&["parse", "config", "io", "configuration"]),
    );
    assert_eq!(probes, strings(&["config", "configuration", "parse", "parse config"]));
}

#[test]
fn symbol_probes_truncate_to_four_terms() {
    let probes = build_symbol_probes(
        "",
        &strings(&["aaaaaaa", "bbbbbb", "ccccc", "dddd", "eee", "ff"]),
    );
    assert_eq!(probes, strings(&["aaaaaaa", "bbbbbb", "ccccc", "dddd"]));
}

#[test]
fn symbol_probes_dedup_query_and_term() {
    let probes = build_symbol_probes("parse", &strings(&["parse"]));
    assert_eq!(probes, strings(&["parse"]));
}

#[test]
fn sorted_unique_strings_sorts_and_removes_repeats() {
    assert_eq!(sorted_unique_strings(&strings(&["b", "a", "b", "ab"])), strings(&["a", "ab", "b"]));
    assert_eq!(sorted_unique_strings(&Vec::new()), Vec::<String>::new());
}

#[test]
fn decimal_string_prints_base_ten() {
    assert_eq!(decimal_string(0), "0");
    assert_eq!(decimal_string(1234567890), "1234567890");
    assert_eq!(decimal_string(u64::MAX), u64::MAX.to_string());
}
