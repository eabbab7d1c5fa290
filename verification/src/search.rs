//! Code search helpers: recognizing identifier-like queries, merging vector
//! and BM25 hits, result filters, symbol probes and symbol–chunk overlap.
use vstd::prelude::*;

use crate::order::{
    chars_of, has_text, is_stable_order, keys_view, lemma_keys_view_push, lemma_sorted_positions,
    reorder, sorted_positions, sorted_unique_strings, stable_order, strictly_sorted, SortKeyPart,
    SortKeyView,
};
use crate::handler::{trim, trim_str};
use crate::text::{ascii_lower, ascii_lower_chars, decimal, decimal_string, seq_contains, seq_starts_with, starts_with_chars, contains_str};
use crate::types::str_eq;
use crate::tokens::{holds_text, split_identifier_tokens, to_lowercase, tokens_from, unicode_lowercase};

verus! {

// ─── identifier-like queries ─────────────────────────────────────────────────

pub open spec fn is_ascii_lower(c: char) -> bool {
    'a' <= c && c <= 'z'
}

pub open spec fn is_ascii_upper(c: char) -> bool {
    'A' <= c && c <= 'Z'
}

/// Somewhere a lower-case ASCII letter is followed by an upper-case one.
pub open spec fn has_camel_hump(q: Seq<char>) -> bool {
    exists|i: int| 0 <= i && i + 1 < q.len() && is_ascii_lower(q[i]) && is_ascii_upper(q[i + 1])
}

/// Words that mark a query about code structure.
pub open spec fn is_code_keyword(t: Seq<char>) -> bool {
    t == "fn"@ || t == "impl"@ || t == "struct"@ || t == "trait"@ || t == "class"@ || t == "method"@
}

/// A query looks like code when it holds an underscore, a path separator
/// (`::` or `/`), a dot or a camel-case hump, or one of its terms is a
/// code keyword.
pub open spec fn spec_is_codeish(q: Seq<char>, terms: Seq<String>) -> bool {
    ||| seq_contains(q, "_"@)
    ||| seq_contains(q, "::"@)
    ||| seq_contains(q, "/"@)
    ||| seq_contains(q, "."@)
    ||| has_camel_hump(q)
    ||| exists|i: int| 0 <= i < terms.len() && is_code_keyword(#[trigger] terms[i]@)
}

fn has_camel_hump_exec(q: &Vec<char>) -> (r: bool)
    ensures
        r == has_camel_hump(q@),
{
    if q.len() < 2 {
        return false;
    }
    let mut i: usize = 0;
    while i + 1 < q.len()
        invariant
            q@.len() >= 2,
            i + 1 <= q@.len(),
            forall|k: int| 0 <= k < i ==> !(is_ascii_lower(q@[k]) && is_ascii_upper(q@[k + 1])),
        decreases q.len() - i,
    {
        let a = q[i];
        let b = q[i + 1];
        if 'a' <= a && a <= 'z' && 'A' <= b && b <= 'Z' {
            assert(is_ascii_lower(q@[i as int]) && is_ascii_upper(q@[i + 1]));
            return true;
        }
        i = i + 1;
    }
    false
}

fn is_code_keyword_exec(t: &str) -> (r: bool)
    ensures
        r == is_code_keyword(t@),
{
    str_eq(t, "fn") || str_eq(t, "impl") || str_eq(t, "struct") || str_eq(t, "trait") || str_eq(
        t,
        "class",
    ) || str_eq(t, "method")
}

/// Whether a query looks like code (see `spec_is_codeish`).
pub fn is_codeish_query(query: &str, terms: &Vec<String>) -> (r: bool)
    ensures
        r == spec_is_codeish(query@, terms@),
{
    let q = chars_of(query);
    if contains_str(&q, "_") || contains_str(&q, "::") || contains_str(&q, "/") || contains_str(
        &q,
        ".",
    ) || has_camel_hump_exec(&q) {
        return true;
    }
    for i in 0..terms.len()
        invariant
            forall|k: int| 0 <= k < i ==> !is_code_keyword(#[trigger] terms@[k]@),
    {
        if is_code_keyword_exec(terms[i].as_str()) {
            return true;
        }
    }
    false
}

// ─── merging hits ────────────────────────────────────────────────────────────

/// Which retrieval channel a hit came from.
#[derive(Debug, Clone, Copy, PartialEq, Eq, Structural)]
pub enum HitSource {
    Vector,
    Bm25,
}

impl HitSource {
    pub open spec fn spec_name(self) -> Seq<char> {
        match self {
            HitSource::Vector => "vector"@,
            HitSource::Bm25 => "bm25"@,
        }
    }

    pub fn name(&self) -> (r: &'static str)
        ensures
            r@ == self.spec_name(),
    {
        match self {
            HitSource::Vector => "vector",
            HitSource::Bm25 => "bm25",
        }
    }
}

/// A merged hit: its channel and its position in that channel's results.
#[derive(Debug, Clone, Copy, PartialEq, Eq, Structural)]
pub struct MergedHit {
    pub source: HitSource,
    pub index: usize,
}

pub open spec fn hit_id(vs: Seq<String>, bs: Seq<String>, h: MergedHit) -> Seq<char> {
    match h.source {
        HitSource::Vector => vs[h.index as int]@,
        HitSource::Bm25 => bs[h.index as int]@,
    }
}

pub open spec fn id_taken(vs: Seq<String>, bs: Seq<String>, hits: Seq<MergedHit>, id: Seq<char>) -> bool {
    exists|k: int| 0 <= k < hits.len() && hit_id(vs, bs, #[trigger] hits[k]) == id
}

/// Vector hits first, in order and without repeated ids; the channel stops
/// as soon as `limit` hits are merged (checked after each hit, so the first
/// hit is always considered).
pub open spec fn vector_phase(vs: Seq<String>, bs: Seq<String>, limit: nat, n: nat) -> Seq<MergedHit>
    decreases n,
{
    if n == 0 {
        seq![]
    } else {
        let prev = vector_phase(vs, bs, limit, (n - 1) as nat);
        if n - 1 > 0 && prev.len() >= limit {
            prev
        } else if id_taken(vs, bs, prev, vs[n - 1]@) {
            prev
        } else {
            prev.push(MergedHit { source: HitSource::Vector, index: (n - 1) as usize })
        }
    }
}

/// Then BM25 hits with ids not yet merged, while fewer than `limit` hits
/// are merged.
pub open spec fn merge_phase(vs: Seq<String>, bs: Seq<String>, limit: nat, n: nat) -> Seq<MergedHit>
    decreases n,
{
    if n == 0 {
        vector_phase(vs, bs, limit, vs.len())
    } else {
        let prev = merge_phase(vs, bs, limit, (n - 1) as nat);
        if prev.len() >= limit {
            prev
        } else if id_taken(vs, bs, prev, bs[n - 1]@) {
            prev
        } else {
            prev.push(MergedHit { source: HitSource::Bm25, index: (n - 1) as usize })
        }
    }
}

pub open spec fn spec_merge_hits(vs: Seq<String>, bs: Seq<String>, limit: nat) -> Seq<MergedHit> {
    merge_phase(vs, bs, limit, bs.len())
}

/// Whether an id is already among the merged hits.
fn taken(vector_ids: &Vec<String>, bm25_ids: &Vec<String>, hits: &Vec<MergedHit>, id: &str) -> (r: bool)
    requires
        forall|k: int|
            0 <= k < hits@.len() ==> (match (#[trigger] hits@[k]).source {
                HitSource::Vector => hits@[k].index < vector_ids@.len(),
                HitSource::Bm25 => hits@[k].index < bm25_ids@.len(),
            }),
    ensures
        r == id_taken(vector_ids@, bm25_ids@, hits@, id@),
{
    for k in 0..hits.len()
        invariant
            forall|j: int|
                0 <= j < hits@.len() ==> (match (#[trigger] hits@[j]).source {
                    HitSource::Vector => hits@[j].index < vector_ids@.len(),
                    HitSource::Bm25 => hits@[j].index < bm25_ids@.len(),
                }),
            forall|j: int| 0 <= j < k ==> hit_id(vector_ids@, bm25_ids@, #[trigger] hits@[j]) != id@,
    {
        let h = hits[k];
        let hid = match h.source {
            HitSource::Vector => vector_ids[h.index].as_str(),
            HitSource::Bm25 => bm25_ids[h.index].as_str(),
        };
        if str_eq(hid, id) {
            assert(hit_id(vector_ids@, bm25_ids@, hits@[k as int]) == id@);
            return true;
        }
    }
    false
}

pub open spec fn hits_in_range(vs: Seq<String>, bs: Seq<String>, hits: Seq<MergedHit>) -> bool {
    forall|k: int|
        0 <= k < hits.len() ==> (match (#[trigger] hits[k]).source {
            HitSource::Vector => hits[k].index < vs.len(),
            HitSource::Bm25 => hits[k].index < bs.len(),
        })
}

/// Merges vector and BM25 hits by id (see `vector_phase` and `merge_phase`).
pub fn merge_search_hits(vector_ids: &Vec<String>, bm25_ids: &Vec<String>, limit: usize) -> (r: Vec<MergedHit>)
    ensures
        r@ == spec_merge_hits(vector_ids@, bm25_ids@, limit as nat),
        hits_in_range(vector_ids@, bm25_ids@, r@),
{
    let ghost vs = vector_ids@;
    let ghost bs = bm25_ids@;
    let mut merged: Vec<MergedHit> = Vec::new();
    let mut i: usize = 0;
    while i < vector_ids.len()
        invariant_except_break
            i > 0 ==> merged@.len() < limit,
        invariant
            vs == vector_ids@,
            bs == bm25_ids@,
            i <= vs.len(),
            merged@ == vector_phase(vs, bs, limit as nat, i as nat),
            hits_in_range(vs, bs, merged@),
        ensures
            merged@ == vector_phase(vs, bs, limit as nat, vs.len()),
            hits_in_range(vs, bs, merged@),
        decreases vector_ids.len() - i,
    {
        let id = vector_ids[i].as_str();
        if !taken(vector_ids, bm25_ids, &merged, id) {
            merged.push(MergedHit { source: HitSource::Vector, index: i });
        }
        i = i + 1;
        if merged.len() >= limit {
            proof {
                lemma_vector_phase_stops(vs, bs, limit as nat, i as nat);
            }
            break;
        }
    }
    let mut j: usize = 0;
    while j < bm25_ids.len()
        invariant
            vs == vector_ids@,
            bs == bm25_ids@,
            j <= bs.len(),
            merged@ == merge_phase(vs, bs, limit as nat, j as nat),
            hits_in_range(vs, bs, merged@),
        ensures
            merged@ == merge_phase(vs, bs, limit as nat, bs.len()),
            hits_in_range(vs, bs, merged@),
        decreases bm25_ids.len() - j,
    {
        if merged.len() >= limit {
            proof {
                lemma_merge_phase_stops(vs, bs, limit as nat, j as nat);
            }
            break;
        }
        let id = bm25_ids[j].as_str();
        if !taken(vector_ids, bm25_ids, &merged, id) {
            merged.push(MergedHit { source: HitSource::Bm25, index: j });
        }
        j = j + 1;
    }
    merged
}

/// Once the vector channel has stopped it adds nothing more.
proof fn lemma_vector_phase_stops(vs: Seq<String>, bs: Seq<String>, limit: nat, n: nat)
    requires
        n > 0,
        n <= vs.len(),
        vector_phase(vs, bs, limit, n).len() >= limit,
    ensures
        vector_phase(vs, bs, limit, vs.len()) == vector_phase(vs, bs, limit, n),
    decreases vs.len() - n,
{
    if n < vs.len() {
        lemma_vector_phase_stops(vs, bs, limit, n + 1);
    }
}

/// Once `limit` hits are merged the BM25 channel adds nothing more.
proof fn lemma_merge_phase_stops(vs: Seq<String>, bs: Seq<String>, limit: nat, n: nat)
    requires
        n <= bs.len(),
        merge_phase(vs, bs, limit, n).len() >= limit,
    ensures
        merge_phase(vs, bs, limit, bs.len()) == merge_phase(vs, bs, limit, n),
    decreases bs.len() - n,
{
    if n < bs.len() {
        lemma_merge_phase_stops(vs, bs, limit, n + 1);
    }
}


pub open spec fn ids_distinct(vs: Seq<String>, bs: Seq<String>, hits: Seq<MergedHit>) -> bool {
    forall|a: int, b: int|
        0 <= a < b < hits.len() ==> hit_id(vs, bs, #[trigger] hits[a]) != hit_id(vs, bs, #[trigger] hits[b])
}

proof fn lemma_vector_phase_shape(vs: Seq<String>, bs: Seq<String>, limit: nat, n: nat)
    requires
        n <= vs.len(),
        vs.len() <= usize::MAX,
    ensures
        ids_distinct(vs, bs, vector_phase(vs, bs, limit, n)),
        vector_phase(vs, bs, limit, n).len() <= if limit == 0 { 1 } else { limit },
        hits_in_range(vs, bs, vector_phase(vs, bs, limit, n)),
    decreases n,
{
    if n > 0 {
        lemma_vector_phase_shape(vs, bs, limit, (n - 1) as nat);
        let prev = vector_phase(vs, bs, limit, (n - 1) as nat);
        let cur = vector_phase(vs, bs, limit, n);
        if !(n - 1 > 0 && prev.len() >= limit) && !id_taken(vs, bs, prev, vs[n - 1]@) {
            assert forall|a: int, b: int| 0 <= a < b < cur.len() implies hit_id(vs, bs, #[trigger] cur[a])
                != hit_id(vs, bs, #[trigger] cur[b]) by {
                if b == cur.len() - 1 {
                    assert(cur[a] == prev[a]);
                    assert(hit_id(vs, bs, cur[b]) == vs[n - 1]@);
                    if hit_id(vs, bs, prev[a]) == vs[n - 1]@ {
                        assert(id_taken(vs, bs, prev, vs[n - 1]@));
                    }
                } else {
                    assert(cur[a] == prev[a] && cur[b] == prev[b]);
                }
            }
            assert forall|k: int| 0 <= k < cur.len() implies (match (#[trigger] cur[k]).source {
                HitSource::Vector => cur[k].index < vs.len(),
                HitSource::Bm25 => cur[k].index < bs.len(),
            }) by {
                if k < prev.len() {
                    assert(cur[k] == prev[k]);
                }
            }
        }
    }
}

proof fn lemma_merge_phase_shape(vs: Seq<String>, bs: Seq<String>, limit: nat, n: nat)
    requires
        n <= bs.len(),
        vs.len() <= usize::MAX,
        bs.len() <= usize::MAX,
    ensures
        ids_distinct(vs, bs, merge_phase(vs, bs, limit, n)),
        merge_phase(vs, bs, limit, n).len() <= if limit == 0 { 1 } else { limit },
        hits_in_range(vs, bs, merge_phase(vs, bs, limit, n)),
    decreases n,
{
    if n == 0 {
        lemma_vector_phase_shape(vs, bs, limit, vs.len());
    } else {
        lemma_merge_phase_shape(vs, bs, limit, (n - 1) as nat);
        let prev = merge_phase(vs, bs, limit, (n - 1) as nat);
        let cur = merge_phase(vs, bs, limit, n);
        if !(prev.len() >= limit) && !id_taken(vs, bs, prev, bs[n - 1]@) {
            assert forall|a: int, b: int| 0 <= a < b < cur.len() implies hit_id(vs, bs, #[trigger] cur[a])
                != hit_id(vs, bs, #[trigger] cur[b]) by {
                if b == cur.len() - 1 {
                    assert(cur[a] == prev[a]);
                    assert(hit_id(vs, bs, cur[b]) == bs[n - 1]@);
                    if hit_id(vs, bs, prev[a]) == bs[n - 1]@ {
                        assert(id_taken(vs, bs, prev, bs[n - 1]@));
                    }
                } else {
                    assert(cur[a] == prev[a] && cur[b] == prev[b]);
                }
            }
            assert forall|k: int| 0 <= k < cur.len() implies (match (#[trigger] cur[k]).source {
                HitSource::Vector => cur[k].index < vs.len(),
                HitSource::Bm25 => cur[k].index < bs.len(),
            }) by {
                if k < prev.len() {
                    assert(cur[k] == prev[k]);
                }
            }
        }
    }
}

/// Merged search results never repeat an id and never exceed the limit
/// (a zero limit still lets the first vector hit through).
pub proof fn lemma_merged_hits_distinct_and_bounded(vs: Seq<String>, bs: Seq<String>, limit: nat)
    requires
        vs.len() <= usize::MAX,
        bs.len() <= usize::MAX,
    ensures
        ids_distinct(vs, bs, spec_merge_hits(vs, bs, limit)),
        spec_merge_hits(vs, bs, limit).len() <= if limit == 0 { 1 } else { limit },
{
    lemma_merge_phase_shape(vs, bs, limit, bs.len());
}


// ─── filters and limits ──────────────────────────────────────────────────────

/// Equal ignoring ASCII case.
pub open spec fn eq_ignore_ascii_case(a: Seq<char>, b: Seq<char>) -> bool {
    ascii_lower(a) == ascii_lower(b)
}

fn eq_ignore_ascii_case_exec(a: &str, b: &str) -> (r: bool)
    ensures
        r == eq_ignore_ascii_case(a@, b@),
{
    let la = ascii_lower_chars(&chars_of(a));
    let lb = ascii_lower_chars(&chars_of(b));
    if la.len() != lb.len() {
        proof {
            assert(ascii_lower(a@).len() != ascii_lower(b@).len());
        }
        return false;
    }
    let mut i: usize = 0;
    while i < la.len()
        invariant
            la@ == ascii_lower(a@),
            lb@ == ascii_lower(b@),
            la@.len() == lb@.len(),
            i <= la@.len(),
            forall|k: int| 0 <= k < i ==> la@[k] == lb@[k],
        decreases la.len() - i,
    {
        if la[i] != lb[i] {
            return false;
        }
        i = i + 1;
    }
    proof {
        assert(la@ =~= lb@);
    }
    true
}

/// A chunk passes the optional filters: its path starts with the prefix,
/// and its language and chunk type names equal the requested ones ignoring
/// ASCII case.
pub open spec fn spec_chunk_matches(
    file_path: Seq<char>,
    language: Seq<char>,
    chunk_type: Seq<char>,
    path_prefix: Option<Seq<char>>,
    language_filter: Option<Seq<char>>,
    chunk_type_filter: Option<Seq<char>>,
) -> bool {
    &&& (path_prefix matches Some(p) ==> seq_starts_with(file_path, p))
    &&& (language_filter matches Some(l) ==> eq_ignore_ascii_case(language, l))
    &&& (chunk_type_filter matches Some(c) ==> eq_ignore_ascii_case(chunk_type, c))
}

pub open spec fn opt_str_view(o: Option<&str>) -> Option<Seq<char>> {
    match o {
        Some(s) => Some(s@),
        None => None,
    }
}

/// Whether a chunk passes the recall filters (see `spec_chunk_matches`).
pub fn chunk_matches_filters(
    file_path: &str,
    language: &str,
    chunk_type: &str,
    path_prefix: Option<&str>,
    language_filter: Option<&str>,
    chunk_type_filter: Option<&str>,
) -> (r: bool)
    ensures
        r == spec_chunk_matches(
            file_path@,
            language@,
            chunk_type@,
            opt_str_view(path_prefix),
            opt_str_view(language_filter),
            opt_str_view(chunk_type_filter),
        ),
{
    if let Some(prefix) = path_prefix {
        if !starts_with_chars(&chars_of(file_path), &chars_of(prefix)) {
            return false;
        }
    }
    if let Some(lang) = language_filter {
        if !eq_ignore_ascii_case_exec(language, lang) {
            return false;
        }
    }
    if let Some(ct) = chunk_type_filter {
        if !eq_ignore_ascii_case_exec(chunk_type, ct) {
            return false;
        }
    }
    true
}

/// How many results each recall channel fetches before reranking: ten per
/// result up to 300 with filters, eight per result up to 250 without.
pub fn recall_fetch_limit(limit: usize, has_filters: bool) -> (r: usize)
    requires
        limit <= usize::MAX / 10,
    ensures
        r == if has_filters {
            if limit * 10 < 300 { limit * 10 } else { 300 }
        } else {
            if limit * 8 < 250 { limit * 8 } else { 250 }
        },
{
    if has_filters {
        let f = limit * 10;
        if f < 300 {
            f
        } else {
            300
        }
    } else {
        let f = limit * 8;
        if f < 250 {
            f
        } else {
            250
        }
    }
}

/// The partial note of a search while its project is indexing.
pub fn indexing_in_progress_message(indexed_files: u32, total_files: u32) -> (r: String)
    ensures
        r@ == "Indexing in progress ("@ + decimal(indexed_files as nat) + "/"@ + decimal(
            total_files as nat,
        ) + " files). Results may be incomplete."@,
{
    let a = decimal_string(indexed_files as u64);
    let b = decimal_string(total_files as u64);
    String::from_str("Indexing in progress (").concat(a.as_str()).concat("/").concat(b.as_str()).concat(
        " files). Results may be incomplete.",
    )
}

// ─── symbols near chunks ─────────────────────────────────────────────────────

/// How closely a symbol sits to a chunk of the same file.
#[derive(Debug, Clone, Copy, PartialEq, Eq, Structural)]
pub enum OverlapTier {
    /// Their line ranges intersect.
    Overlapping,
    /// The symbol starts within 6 lines of the chunk's start or end.
    Near,
    /// Within 16 lines.
    Close,
    /// Another file, or farther away.
    Unrelated,
}

pub open spec fn abs_diff(a: u32, b: u32) -> int {
    if a >= b {
        a - b
    } else {
        b - a
    }
}

pub open spec fn spec_overlap_tier(
    same_file: bool,
    chunk_start: u32,
    chunk_end: u32,
    sym_start: u32,
    sym_end: u32,
) -> OverlapTier {
    if !same_file {
        OverlapTier::Unrelated
    } else if chunk_start <= sym_end && sym_start <= chunk_end {
        OverlapTier::Overlapping
    } else {
        let d1 = abs_diff(chunk_start, sym_start);
        let d2 = abs_diff(chunk_end, sym_start);
        let dist = if d1 <= d2 { d1 } else { d2 };
        if dist <= 6 {
            OverlapTier::Near
        } else if dist <= 16 {
            OverlapTier::Close
        } else {
            OverlapTier::Unrelated
        }
    }
}

/// The symbol starts within `bound` lines of the chunk's start line or of
/// its end line.
pub open spec fn starts_within(chunk_start: u32, chunk_end: u32, sym_start: u32, bound: int) -> bool {
    ||| (chunk_start - sym_start <= bound && sym_start - chunk_start <= bound)
    ||| (chunk_end - sym_start <= bound && sym_start - chunk_end <= bound)
}

/// The tier follows the distance from the symbol's start to the nearer
/// chunk boundary: another file is unrelated; intersecting line ranges
/// overlap; otherwise a start within 6 lines of either boundary is near,
/// within 16 lines close, and farther unrelated.
pub proof fn lemma_overlap_tier_by_distance(
    same_file: bool,
    chunk_start: u32,
    chunk_end: u32,
    sym_start: u32,
    sym_end: u32,
)
    ensures
        ({
            let t = spec_overlap_tier(same_file, chunk_start, chunk_end, sym_start, sym_end);
            let overlaps = chunk_start <= sym_end && sym_start <= chunk_end;
            &&& !same_file ==> t == OverlapTier::Unrelated
            &&& same_file && overlaps ==> t == OverlapTier::Overlapping
            &&& same_file && !overlaps ==> {
                &&& t == OverlapTier::Near <==> starts_within(chunk_start, chunk_end, sym_start, 6)
                &&& t == OverlapTier::Close <==> (starts_within(chunk_start, chunk_end, sym_start, 16)
                    && !starts_within(chunk_start, chunk_end, sym_start, 6))
                &&& t == OverlapTier::Unrelated <==> !starts_within(chunk_start, chunk_end, sym_start, 16)
            }
        }),
{
}

/// How close a symbol is to a chunk (see `spec_overlap_tier`).
pub fn symbol_chunk_overlap(
    chunk_file: &str,
    chunk_start: u32,
    chunk_end: u32,
    sym_file: &str,
    sym_start: u32,
    sym_end: u32,
) -> (r: OverlapTier)
    ensures
        r == spec_overlap_tier(chunk_file@ == sym_file@, chunk_start, chunk_end, sym_start, sym_end),
        chunk_file@ != sym_file@ ==> r == OverlapTier::Unrelated,
        chunk_file@ == sym_file@ && chunk_start <= sym_end && sym_start <= chunk_end ==> r
            == OverlapTier::Overlapping,
        chunk_file@ == sym_file@ && !(chunk_start <= sym_end && sym_start <= chunk_end) ==> {
            &&& r == OverlapTier::Near <==> starts_within(chunk_start, chunk_end, sym_start, 6)
            &&& r == OverlapTier::Close <==> (starts_within(chunk_start, chunk_end, sym_start, 16)
                && !starts_within(chunk_start, chunk_end, sym_start, 6))
            &&& r == OverlapTier::Unrelated <==> !starts_within(chunk_start, chunk_end, sym_start, 16)
        },
{
    proof {
        lemma_overlap_tier_by_distance(chunk_file@ == sym_file@, chunk_start, chunk_end, sym_start, sym_end);
    }
    if !str_eq(chunk_file, sym_file) {
        return OverlapTier::Unrelated;
    }
    if chunk_start <= sym_end && sym_start <= chunk_end {
        return OverlapTier::Overlapping;
    }
    let d1 = if chunk_start >= sym_start {
        chunk_start - sym_start
    } else {
        sym_start - chunk_start
    };
    let d2 = if chunk_end >= sym_start {
        chunk_end - sym_start
    } else {
        sym_start - chunk_end
    };
    let dist = if d1 <= d2 {
        d1
    } else {
        d2
    };
    if dist <= 6 {
        OverlapTier::Near
    } else if dist <= 16 {
        OverlapTier::Close
    } else {
        OverlapTier::Unrelated
    }
}

// ─── first occurrences ───────────────────────────────────────────────────────

/// Positions of the first occurrence of each distinct id among the first
/// `n`.
pub open spec fn first_occurrences(ids: Seq<String>, n: nat) -> Seq<usize>
    decreases n,
{
    if n == 0 {
        seq![]
    } else {
        let prev = first_occurrences(ids, (n - 1) as nat);
        if exists|k: int| 0 <= k < n - 1 && (#[trigger] ids[k])@ == ids[n - 1]@ {
            prev
        } else {
            prev.push((n - 1) as usize)
        }
    }
}

/// Positions of the ids that occur for the first time, in order (the ids a
/// "keep the first of each" pass retains).
pub fn first_occurrence_positions(ids: &Vec<String>) -> (r: Vec<usize>)
    ensures
        r@ == first_occurrences(ids@, ids@.len()),
{
    let mut out: Vec<usize> = Vec::new();
    for i in 0..ids.len()
        invariant
            out@ == first_occurrences(ids@, i as nat),
    {
        let mut seen = false;
        let mut k: usize = 0;
        while k < i
            invariant
                i < ids@.len(),
                k <= i,
                seen == exists|j: int| 0 <= j < k && (#[trigger] ids@[j])@ == ids@[i as int]@,
            decreases i - k,
        {
            if str_eq(ids[k].as_str(), ids[i].as_str()) {
                seen = true;
            }
            k = k + 1;
        }
        if !seen {
            out.push(i);
        }
    }
    out
}


// ─── symbol probes ───────────────────────────────────────────────────────────

/// Some text of `s` equals `t`.
pub open spec fn in_texts(s: Seq<Seq<char>>, t: Seq<char>) -> bool {
    exists|i: int| 0 <= i < s.len() && s[i] == t
}

/// Byte length of a text in UTF-8, as `str::len` reports it.
pub open spec fn byte_len(t: Seq<char>) -> usize {
    vstd::utf8::encode_utf8(t).len() as usize
}

/// Positions, among the first `n`, of terms at least three bytes long.
pub open spec fn long_term_positions(terms: Seq<String>, n: nat) -> Seq<usize>
    decreases n,
{
    if n == 0 {
        seq![]
    } else {
        let r = long_term_positions(terms, (n - 1) as nat);
        if byte_len(terms[n - 1]@) >= 3 {
            r.push((n - 1) as usize)
        } else {
            r
        }
    }
}

/// Sort keys putting longer terms first.
pub open spec fn length_keys(terms: Seq<String>, positions: Seq<usize>) -> Seq<Seq<SortKeyView>> {
    positions.map_values(|i: usize| seq![SortKeyView::Num((u64::MAX - byte_len(terms[i as int]@)) as u64)])
}

/// The long terms, longest first (ties in given order).
pub open spec fn ranked_terms(terms: Seq<String>) -> Seq<usize> {
    let p = long_term_positions(terms, terms.len());
    reorder(p, sorted_positions(length_keys(terms, p)))
}

/// What the probes are drawn from: the trimmed query when not blank, and
/// the four longest terms of at least three bytes.
pub open spec fn probe_candidates(query: Seq<char>, terms: Seq<String>) -> Seq<Seq<char>> {
    let q = trim(query);
    let ranked = ranked_terms(terms);
    let top = if ranked.len() > 4 { ranked.take(4) } else { ranked };
    (if q.len() > 0 { seq![q] } else { seq![] }) + top.map_values(|i: usize| terms[i as int]@)
}

proof fn lemma_long_terms_bounded(terms: Seq<String>, n: nat)
    requires
        n <= terms.len(),
        terms.len() <= usize::MAX,
    ensures
        forall|k: int| 0 <= k < long_term_positions(terms, n).len() ==> #[trigger] long_term_positions(terms, n)[k] < n,
        long_term_positions(terms, n).len() <= n,
    decreases n,
{
    if n > 0 {
        let m = (n - 1) as nat;
        lemma_long_terms_bounded(terms, m);
        let a = long_term_positions(terms, m);
        assert forall|k: int| 0 <= k < long_term_positions(terms, n).len() implies #[trigger] long_term_positions(terms, n)[k] < n by {
            if k < a.len() {
                assert(long_term_positions(terms, n)[k] == a[k]);
            }
        }
    }
}

proof fn lemma_long_positions_facts(terms: Seq<String>, n: nat)
    requires
        n <= terms.len(),
        terms.len() <= usize::MAX,
    ensures
        forall|k: int| 0 <= k < long_term_positions(terms, n).len() ==> {
            &&& (#[trigger] long_term_positions(terms, n)[k]) < n
            &&& byte_len(terms[long_term_positions(terms, n)[k] as int]@) >= 3
        },
        forall|a: int, b: int|
            0 <= a < b < long_term_positions(terms, n).len() ==> (#[trigger] long_term_positions(terms, n)[a])
                < (#[trigger] long_term_positions(terms, n)[b]),
        forall|i: int| 0 <= i < n && byte_len((#[trigger] terms[i])@) >= 3 ==> long_term_positions(
            terms,
            n,
        ).contains(i as usize),
    decreases n,
{
    if n > 0 {
        let m = (n - 1) as nat;
        lemma_long_positions_facts(terms, m);
        let r = long_term_positions(terms, m);
        let lp = long_term_positions(terms, n);
        assert forall|i: int| 0 <= i < n && byte_len((#[trigger] terms[i])@) >= 3 implies lp.contains(
            i as usize,
        ) by {
            if i < m {
                let k = choose|k: int| 0 <= k < r.len() && r[k] == i as usize;
                assert(lp[k] == r[k]);
            } else {
                assert(lp[lp.len() - 1] == i as usize);
            }
        }
    }
}

/// The ranked terms are the terms of at least three bytes, each once,
/// longest first: a term listed before another is never shorter, and
/// terms of equal length keep their given order.
pub proof fn lemma_ranked_terms_longest_first(terms: Seq<String>)
    requires
        terms.len() <= usize::MAX,
    ensures
        forall|k: int| 0 <= k < ranked_terms(terms).len() ==> {
            &&& (#[trigger] ranked_terms(terms)[k]) < terms.len()
            &&& byte_len(terms[ranked_terms(terms)[k] as int]@) >= 3
        },
        forall|a: int, b: int|
            0 <= a < b < ranked_terms(terms).len() ==> {
                &&& (#[trigger] ranked_terms(terms)[a]) != (#[trigger] ranked_terms(terms)[b])
                &&& byte_len(terms[ranked_terms(terms)[a] as int]@) >= byte_len(
                    terms[ranked_terms(terms)[b] as int]@,
                )
                &&& byte_len(terms[ranked_terms(terms)[a] as int]@) == byte_len(
                    terms[ranked_terms(terms)[b] as int]@,
                ) ==> ranked_terms(terms)[a] < ranked_terms(terms)[b]
            },
        forall|i: int| 0 <= i < terms.len() && byte_len((#[trigger] terms[i])@) >= 3 ==> ranked_terms(
            terms,
        ).contains(i as usize),
{
    let lp = long_term_positions(terms, terms.len());
    lemma_long_positions_facts(terms, terms.len());
    lemma_long_terms_bounded(terms, terms.len());
    let keys = length_keys(terms, lp);
    let p = sorted_positions(keys);
    crate::order::lemma_stable_order_exists(keys);
    crate::order::lemma_stable_order_covers(keys, p);
    let rk = ranked_terms(terms);
    assert(rk == reorder(lp, p));
    assert forall|a: int, b: int| 0 <= a < b < rk.len() implies {
        &&& (#[trigger] rk[a]) != (#[trigger] rk[b])
        &&& byte_len(terms[rk[a] as int]@) >= byte_len(terms[rk[b] as int]@)
        &&& byte_len(terms[rk[a] as int]@) == byte_len(terms[rk[b] as int]@) ==> rk[a] < rk[b]
    } by {
        let x = p[a];
        let y = p[b];
        assert(crate::order::before(keys, x, y));
        let lx = byte_len(terms[lp[x as int] as int]@);
        let ly = byte_len(terms[lp[y as int] as int]@);
        assert(keys[x as int] == seq![SortKeyView::Num((u64::MAX - lx) as u64)]);
        assert(keys[y as int] == seq![SortKeyView::Num((u64::MAX - ly) as u64)]);
        assert(rk[a] == lp[x as int] && rk[b] == lp[y as int]);
        if keys[x as int] == keys[y as int] {
            crate::order::lemma_key_lt_irreflexive(keys[x as int]);
            assert(x < y);
            assert(lp[x as int] < lp[y as int]);
            assert(keys[x as int][0] == keys[y as int][0]);
            assert(lx == ly);
        } else {
            assert(crate::order::key_lt(keys[x as int], keys[y as int]));
            assert(keys[x as int][0] != keys[y as int][0]);
            assert(crate::order::part_lt(keys[x as int][0], keys[y as int][0]));
            assert(lx > ly);
        }
    }
    assert forall|k: int| 0 <= k < rk.len() implies (#[trigger] rk[k]) < terms.len() && byte_len(
        terms[rk[k] as int]@,
    ) >= 3 by {
        assert(p[k] < lp.len());
        assert(rk[k] == lp[p[k] as int]);
    }
    assert forall|i: int| 0 <= i < terms.len() && byte_len((#[trigger] terms[i])@) >= 3 implies rk.contains(
        i as usize,
    ) by {
        let j = choose|j: int| 0 <= j < lp.len() && lp[j] == i as usize;
        assert(p.contains(j as usize));
        let k = choose|k: int| 0 <= k < p.len() && p[k] == j as usize;
        assert(rk[k] == i as usize);
    }
}

/// `ps` names four different terms, each among the probes `r` and each at
/// least `min_len` bytes long.
pub open spec fn four_kept_at_least(r: Seq<String>, terms: Seq<String>, ps: Seq<usize>, min_len: usize) -> bool {
    &&& ps.len() == 4
    &&& forall|x: int, y: int| 0 <= x < y < 4 ==> ps[x] != ps[y]
    &&& forall|k: int|
        0 <= k < 4 ==> {
            &&& ps[k] < terms.len()
            &&& has_text(r, r.len() as int, terms[ps[k] as int]@)
            &&& byte_len(terms[ps[k] as int]@) >= min_len
        }
}

/// The lookup probes for a query: the trimmed query and its four longest
/// terms of at least three bytes, sorted with repeats removed.
pub fn build_symbol_probes(query: &str, terms: &Vec<String>) -> (r: Vec<String>)
    ensures
        strictly_sorted(r@.map_values(|s: String| s@)),
        forall|i: int|
            0 <= i < probe_candidates(query@, terms@).len() ==> has_text(
                r@,
                r@.len() as int,
                #[trigger] probe_candidates(query@, terms@)[i],
            ),
        forall|j: int| 0 <= j < r@.len() ==> in_texts(probe_candidates(query@, terms@), #[trigger] r@[j]@),
        r@.len() <= 5,
        forall|i: int|
            0 <= i < terms@.len() && byte_len((#[trigger] terms@[i])@) >= 3 && !has_text(
                r@,
                r@.len() as int,
                terms@[i]@,
            ) ==> exists|ps: Seq<usize>| #[trigger] four_kept_at_least(r@, terms@, ps, byte_len(terms@[i]@)),
{
    let mut pool: Vec<String> = Vec::new();
    let q = trim_str(query);
    let ghost qv = q@;
    if q.unicode_len() > 0 {
        pool.push(q);
    }
    let ghost head = pool@;
    assert(head.len() == (if qv.len() > 0 { 1int } else { 0int }));
    assert(head.len() > 0 ==> head[0]@ == trim(query@));
    // Long terms, in order.
    let mut long: Vec<usize> = Vec::new();
    for i in 0..terms.len()
        invariant
            long@ == long_term_positions(terms@, i as nat),
    {
        if terms[i].as_str().len() >= 3 {
            long.push(i);
        }
    }
    let n = terms.len();
    proof {
        lemma_long_terms_bounded(terms@, n as nat);
    }
    let mut keys: Vec<Vec<SortKeyPart>> = Vec::new();
    for k in 0..long.len()
        invariant
            forall|j: int| 0 <= j < long@.len() ==> #[trigger] long@[j] < terms@.len(),
            keys@.len() == k,
            keys_view(keys@) == length_keys(terms@, long@.subrange(0, k as int)),
    {
        let bl = terms[long[k]].as_str().len();
        let rank: u64 = u64::MAX - (bl as u64);
        let key: Vec<SortKeyPart> = vec![SortKeyPart::Num(rank)];
        let ghost old_keys = keys@;
        proof {
            assert(crate::order::key_view(key@) =~= seq![
                SortKeyView::Num((u64::MAX - byte_len(terms@[long@[k as int] as int]@)) as u64),
            ]);
        }
        keys.push(key);
        proof {
            lemma_keys_view_push(old_keys, key);
            assert(keys@ == old_keys.push(key));
            assert(keys_view(keys@) =~= length_keys(terms@, long@.subrange(0, k + 1)));
        }
    }
    proof {
        assert(long@.subrange(0, long@.len() as int) =~= long@);
    }
    let perm = stable_order(&keys);
    proof {
        lemma_sorted_positions(keys_view(keys@), perm@);
    }
    let ghost ranked = ranked_terms(terms@);
    let take = if perm.len() > 4 {
        4
    } else {
        perm.len()
    };
    for k in 0..take
        invariant
            take <= perm@.len(),
            perm@.len() == long@.len(),
            is_stable_order(keys_view(keys@), perm@),
            keys_view(keys@).len() == long@.len(),
            forall|j: int| 0 <= j < long@.len() ==> #[trigger] long@[j] < terms@.len(),
            ranked == reorder(long@, perm@),
            pool@.len() == head.len() + k,
            forall|j: int| 0 <= j < head.len() ==> pool@[j] == head[j],
            forall|j: int|
                0 <= j < k ==> (#[trigger] pool@[head.len() + j])@ == terms@[ranked[j] as int]@,
    {
        assert(perm@[k as int] < keys_view(keys@).len());
        let t = long[perm[k]];
        pool.push(terms[t].clone());
    }
    let r = sorted_unique_strings(&pool);
    proof {
        let cands = probe_candidates(query@, terms@);
        let top = if ranked.len() > 4 { ranked.take(4) } else { ranked };
        assert(ranked.len() == perm@.len());
        assert(top.len() == take);
        assert(head.len() == (if trim(query@).len() > 0 { 1int } else { 0int }));
        assert(cands.len() == pool@.len());
        let hv: Seq<Seq<char>> = if trim(query@).len() > 0 { seq![trim(query@)] } else { seq![] };
        let mapped = top.map_values(|i: usize| terms@[i as int]@);
        assert(cands == hv + mapped);
        assert(hv.len() == head.len());
        assert forall|i: int| 0 <= i < cands.len() implies #[trigger] cands[i] == pool@[i]@ by {
            if i < head.len() {
                assert(cands[i] == hv[i]);
                assert(pool@[i] == head[i]);
            } else {
                let j = i - head.len();
                assert(cands[i] == mapped[j]);
                assert(top[j] == ranked[j]);
                assert(mapped[j] == terms@[top[j] as int]@);
                assert(pool@[head.len() + j]@ == terms@[ranked[j] as int]@);
            }
        }
        assert forall|i: int| 0 <= i < cands.len() implies has_text(r@, r@.len() as int, #[trigger] cands[i]) by {
            assert(cands[i] == pool@[i]@);
            assert(has_text(r@, r@.len() as int, pool@[i]@));
        }
        assert forall|j: int| 0 <= j < r@.len() implies in_texts(cands, #[trigger] r@[j]@) by {
            assert(has_text(pool@, pool@.len() as int, r@[j]@));
            let i = choose|i: int| 0 <= i < pool@.len() && (#[trigger] pool@[i])@ == r@[j]@;
            assert(cands[i] == pool@[i]@);
            assert(0 <= i < cands.len() && cands[i] == r@[j]@);
        }
        let rv = r@.map_values(|t: String| t@);
        crate::order::lemma_strictly_sorted_no_dups(rv);
        rv.unique_seq_to_set();
        cands.lemma_cardinality_of_set();
        vstd::seq_lib::seq_to_set_is_finite(cands);
        assert forall|x: Seq<char>| rv.to_set().contains(x) implies cands.to_set().contains(x) by {
            let j = choose|j: int| 0 <= j < rv.len() && rv[j] == x;
            assert(in_texts(cands, r@[j]@));
        }
        vstd::set_lib::lemma_len_subset(rv.to_set(), cands.to_set());
        lemma_ranked_terms_longest_first(terms@);
        assert forall|i: int|
            0 <= i < terms@.len() && byte_len((#[trigger] terms@[i])@) >= 3 && !has_text(
                r@,
                r@.len() as int,
                terms@[i]@,
            ) implies exists|ps: Seq<usize>| #[trigger] four_kept_at_least(r@, terms@, ps, byte_len(terms@[i]@)) by {
            let k = choose|k: int| 0 <= k < ranked.len() && ranked[k] == i as usize;
            if k < 4 {
                assert(top[k] == ranked[k]);
                assert(cands[hv.len() + k] == terms@[i]@);
                assert(has_text(r@, r@.len() as int, cands[hv.len() + k]));
            }
            assert(ranked.len() > 4);
            let ps = top;
            assert forall|x: int| 0 <= x < 4 implies has_text(r@, r@.len() as int, terms@[ps[x] as int]@) by {
                assert(cands[hv.len() + x] == mapped[x]);
                assert(has_text(r@, r@.len() as int, cands[hv.len() + x]));
            }
            assert forall|x: int| 0 <= x < 4 implies byte_len(terms@[ps[x] as int]@) >= byte_len(terms@[i]@) by {
                assert(ps[x] == ranked[x]);
            }
            assert forall|x: int, y: int| 0 <= x < y < 4 implies ps[x] != ps[y] by {
                assert(ps[x] == ranked[x] && ps[y] == ranked[y]);
            }
            assert(four_kept_at_least(r@, terms@, ps, byte_len(terms@[i]@)));
        }
    }
    r
}


// ─── ranking evidence ────────────────────────────────────────────────────────

/// Optional text read as empty when absent.
pub open spec fn or_empty(o: Option<&str>) -> Seq<char> {
    match o {
        Some(s) => s@,
        None => Seq::empty(),
    }
}

/// Where a query term was found in a code chunk, strongest place first.
#[derive(Debug, Clone, Copy, PartialEq, Eq, Structural)]
pub enum TermHit {
    /// Terms shorter than two bytes are not looked for.
    Skipped,
    Name,
    Path,
    Context,
    Content,
    Missing,
}

/// The strongest place of the lower-cased chunk fields that holds the term.
pub open spec fn spec_term_hit(
    path: Seq<char>,
    name: Seq<char>,
    ctx: Seq<char>,
    content: Seq<char>,
    term: Seq<char>,
) -> TermHit {
    if byte_len(term) < 2 {
        TermHit::Skipped
    } else if name.len() > 0 && seq_contains(name, term) {
        TermHit::Name
    } else if seq_contains(path, term) {
        TermHit::Path
    } else if ctx.len() > 0 && seq_contains(ctx, term) {
        TermHit::Context
    } else if seq_contains(content, term) {
        TermHit::Content
    } else {
        TermHit::Missing
    }
}

/// What lexical re-ranking of a code chunk rests on.
#[derive(Debug, Clone, PartialEq, Eq)]
pub struct ChunkEvidence {
    /// The whole query (at least four bytes) occurs in the path, name or context path.
    pub query_hit: bool,
    /// Where each term was found, in the order of the terms.
    pub hits: Vec<TermHit>,
    /// The query hit, or some term was found in the name or path.
    pub strong_hit: bool,
    /// The chunk's content is under 96 bytes.
    pub short_chunk: bool,
}

fn text_contains(hay: &Vec<char>, needle: &str) -> (r: bool)
    ensures
        r == seq_contains(hay@, needle@),
{
    contains_str(hay, needle)
}

/// Gathers the lexical evidence for a chunk: its path, name, context path
/// and content are lower-cased, then searched for the lower-cased query and
/// for each term.
pub fn chunk_lexical_evidence(
    file_path: &str,
    name: Option<&str>,
    context_path: Option<&str>,
    content: &str,
    query_lower: &str,
    terms: &Vec<String>,
) -> (r: ChunkEvidence)
    ensures
        ({
            let path = unicode_lowercase(file_path@);
            let nm = unicode_lowercase(or_empty(name));
            let ctx = unicode_lowercase(or_empty(context_path));
            let body = unicode_lowercase(content@);
            let q = query_lower@;
            &&& r.query_hit == (byte_len(q) >= 4 && (seq_contains(path, q) || seq_contains(nm, q)
                || seq_contains(ctx, q)))
            &&& r.hits@.len() == terms@.len()
            &&& forall|i: int| #![trigger r.hits@[i]]
                0 <= i < terms@.len() ==> r.hits@[i] == spec_term_hit(path, nm, ctx, body, terms@[i]@)
            &&& r.strong_hit == (r.query_hit || exists|i: int|
                0 <= i < r.hits@.len() && (#[trigger] r.hits@[i] == TermHit::Name || r.hits@[i] == TermHit::Path))
            &&& r.short_chunk == (byte_len(content@) < 96)
        }),
{
    let path = chars_of(to_lowercase(file_path).as_str());
    let nm = chars_of(to_lowercase(match name {
        Some(n) => n,
        None => "",
    }).as_str());
    let ctx = chars_of(to_lowercase(match context_path {
        Some(c) => c,
        None => "",
    }).as_str());
    let body = chars_of(to_lowercase(content).as_str());
    proof {
        reveal_strlit("");
        assert(or_empty(name) == (match name { Some(n) => n@, None => ""@ }));
        assert(or_empty(context_path) == (match context_path { Some(c) => c@, None => ""@ }));
    }
    let query_hit = query_lower.len() >= 4 && (text_contains(&path, query_lower) || text_contains(
        &nm,
        query_lower,
    ) || text_contains(&ctx, query_lower));
    let mut hits: Vec<TermHit> = Vec::new();
    let mut strong = query_hit;
    for i in 0..terms.len()
        invariant
            hits@.len() == i,
            forall|k: int| #![trigger hits@[k]]
                0 <= k < i ==> hits@[k] == spec_term_hit(path@, nm@, ctx@, body@, terms@[k]@),
            strong == (query_hit || exists|k: int|
                0 <= k < hits@.len() && (#[trigger] hits@[k] == TermHit::Name || hits@[k] == TermHit::Path)),
    {
        let t = terms[i].as_str();
        let hit = if t.len() < 2 {
            TermHit::Skipped
        } else if nm.len() > 0 && text_contains(&nm, t) {
            TermHit::Name
        } else if text_contains(&path, t) {
            TermHit::Path
        } else if ctx.len() > 0 && text_contains(&ctx, t) {
            TermHit::Context
        } else if text_contains(&body, t) {
            TermHit::Content
        } else {
            TermHit::Missing
        };
        let ghost before = hits@;
        hits.push(hit);
        proof {
            assert(hits@[i as int] == hit);
            assert forall|k: int| 0 <= k < before.len() implies #[trigger] hits@[k] == before[k] by {}
        }
        if hit == TermHit::Name || hit == TermHit::Path {
            strong = true;
        }
        proof {
            let hs = hits@;
            if exists|k: int| 0 <= k < hs.len() && (#[trigger] hs[k] == TermHit::Name || hs[k] == TermHit::Path) {
                if !(hit == TermHit::Name || hit == TermHit::Path) {
                    let k = choose|k: int| 0 <= k < hs.len() && (#[trigger] hs[k] == TermHit::Name || hs[k] == TermHit::Path);
                    assert(k < before.len());
                    assert(before[k] == hs[k]);
                }
            }
            if exists|k: int| 0 <= k < before.len() && (#[trigger] before[k] == TermHit::Name || before[k] == TermHit::Path) {
                let k = choose|k: int| 0 <= k < before.len() && (#[trigger] before[k] == TermHit::Name || before[k] == TermHit::Path);
                assert(hs[k] == before[k]);
            }
        }
    }
    ChunkEvidence { query_hit, hits, strong_hit: strong, short_chunk: content.len() < 96 }
}

/// Where a query term was found for a symbol.
#[derive(Debug, Clone, Copy, PartialEq, Eq, Structural)]
pub enum SymbolTermHit {
    /// Terms shorter than two bytes are not looked for.
    Skipped,
    /// The term is one of the identifier tokens of the symbol's name.
    NameToken,
    /// The term occurs in the lower-cased name or signature.
    NameOrSignature,
    Missing,
}

pub open spec fn spec_symbol_term_hit(
    tokens: Seq<Seq<char>>,
    name: Seq<char>,
    signature: Seq<char>,
    term: Seq<char>,
) -> SymbolTermHit {
    if byte_len(term) < 2 {
        SymbolTermHit::Skipped
    } else if in_texts(tokens, term) {
        SymbolTermHit::NameToken
    } else if seq_contains(name, term) || seq_contains(signature, term) {
        SymbolTermHit::NameOrSignature
    } else {
        SymbolTermHit::Missing
    }
}

/// What the exactness score of a symbol rests on.
#[derive(Debug, Clone, PartialEq, Eq)]
pub struct SymbolEvidence {
    /// The lower-cased name is the query.
    pub name_exact: bool,
    /// Otherwise, the lower-cased name holds the query of at least four bytes.
    pub name_contains_query: bool,
    /// The lower-cased signature is not empty and holds the query of at least four bytes.
    pub signature_contains_query: bool,
    /// Where each term was found, in the order of the terms.
    pub hits: Vec<SymbolTermHit>,
}

/// Gathers the evidence for a symbol's exactness against the lower-cased
/// query and its terms.
pub fn symbol_lexical_evidence(
    name: &str,
    signature: Option<&str>,
    query_lower: &str,
    terms: &Vec<String>,
) -> (r: SymbolEvidence)
    ensures
        ({
            let nm = unicode_lowercase(name@);
            let sig = unicode_lowercase(or_empty(signature));
            let q = query_lower@;
            &&& r.name_exact == (nm == q)
            &&& r.name_contains_query == (nm != q && byte_len(q) >= 4 && seq_contains(nm, q))
            &&& r.signature_contains_query == (sig.len() > 0 && byte_len(q) >= 4 && seq_contains(sig, q))
            &&& r.hits@.len() == terms@.len()
            &&& forall|i: int| #![trigger r.hits@[i]]
                0 <= i < terms@.len() ==> r.hits@[i] == spec_symbol_term_hit(
                    tokens_from(name@, 0),
                    nm,
                    sig,
                    terms@[i]@,
                )
        }),
{
    let name_lower = to_lowercase(name);
    let sig_lower = to_lowercase(match signature {
        Some(s) => s,
        None => "",
    });
    proof {
        reveal_strlit("");
        assert(or_empty(signature) == (match signature { Some(s) => s@, None => ""@ }));
    }
    let nm = chars_of(name_lower.as_str());
    let sig = chars_of(sig_lower.as_str());
    let tokens = split_identifier_tokens(name);
    let ghost toks = tokens_from(name@, 0);
    let name_exact = str_eq(name_lower.as_str(), query_lower);
    let long_query = query_lower.len() >= 4;
    let name_contains_query = !name_exact && long_query && text_contains(&nm, query_lower);
    let signature_contains_query = sig.len() > 0 && long_query && text_contains(&sig, query_lower);
    let mut hits: Vec<SymbolTermHit> = Vec::new();
    for i in 0..terms.len()
        invariant
            hits@.len() == i,
            toks == tokens_from(name@, 0),
            forall|j: int| 0 <= j < toks.len() ==> has_text(tokens@, tokens@.len() as int, #[trigger] toks[j]),
            forall|j: int| 0 <= j < tokens@.len() ==> in_texts(toks, #[trigger] tokens@[j]@),
            forall|k: int| #![trigger hits@[k]]
                0 <= k < i ==> hits@[k] == spec_symbol_term_hit(toks, nm@, sig@, terms@[k]@),
    {
        let t = terms[i].as_str();
        let is_token = holds_text(&tokens, t);
        proof {
            if is_token {
                let j = choose|j: int| 0 <= j < tokens@.len() && (#[trigger] tokens@[j])@ == t@;
                assert(in_texts(toks, tokens@[j]@));
            }
            if in_texts(toks, t@) {
                let j = choose|j: int| 0 <= j < toks.len() && toks[j] == t@;
                assert(has_text(tokens@, tokens@.len() as int, toks[j]));
            }
        }
        let hit = if t.len() < 2 {
            SymbolTermHit::Skipped
        } else if is_token {
            SymbolTermHit::NameToken
        } else if text_contains(&nm, t) || text_contains(&sig, t) {
            SymbolTermHit::NameOrSignature
        } else {
            SymbolTermHit::Missing
        };
        let ghost before = hits@;
        hits.push(hit);
        proof {
            assert forall|k: int| 0 <= k < before.len() implies #[trigger] hits@[k] == before[k] by {}
        }
    }
    SymbolEvidence { name_exact, name_contains_query, signature_contains_query, hits }
}


// ─── recall seeding ──────────────────────────────────────────────────────────

/// The key under which recall deduplicates the symbols its probes found:
/// the symbol's id when it has one, else its lower-cased path and name and
/// its start line.
pub fn symbol_seed_key(id: Option<(&str, &str)>, file_path: &str, name: &str, start_line: u32) -> (r: String)
    ensures
        r@ == match id {
            Some((table, key)) => table@ + ":"@ + key@,
            None => unicode_lowercase(file_path@) + ":"@ + unicode_lowercase(name@) + ":"@ + decimal(
                start_line as nat,
            ),
        },
{
    match id {
        Some((table, key)) => crate::code::symbol_id(table, key),
        None => {
            let path = to_lowercase(file_path);
            let nm = to_lowercase(name);
            let line = decimal_string(start_line as u64);
            path.concat(":").concat(nm.as_str()).concat(":").concat(line.as_str())
        },
    }
}

/// The files recall reads chunks from for its exact symbols: the eight
/// smallest distinct paths, in sorted order.
pub fn exact_symbol_files(paths: &Vec<String>) -> (r: Vec<String>)
    ensures
        strictly_sorted(r@.map_values(|t: String| t@)),
        r@.len() <= 8,
        forall|j: int| 0 <= j < r@.len() ==> has_text(paths@, paths@.len() as int, #[trigger] r@[j]@),
        forall|i: int|
            0 <= i < paths@.len() && !has_text(r@, r@.len() as int, #[trigger] paths@[i]@) ==> r@.len() == 8
                && forall|j: int| 0 <= j < 8 ==> crate::order::text_lt(#[trigger] r@[j]@, paths@[i]@),
{
    let u = sorted_unique_strings(paths);
    let n = if u.len() < 8 {
        u.len()
    } else {
        8
    };
    let mut out: Vec<String> = Vec::new();
    for k in 0..n
        invariant
            n <= u@.len(),
            out@ == u@.take(k as int),
    {
        out.push(u[k].clone());
        proof {
            assert(out@ =~= u@.take(k + 1));
        }
    }
    proof {
        let uv = u@.map_values(|t: String| t@);
        let ov = out@.map_values(|t: String| t@);
        assert(ov =~= uv.take(n as int));
        assert forall|a: int, b: int| 0 <= a < b < ov.len() implies crate::order::text_lt(#[trigger] ov[a], #[trigger] ov[b]) by {
            assert(ov[a] == uv[a] && ov[b] == uv[b]);
        }
        assert forall|j: int| 0 <= j < out@.len() implies has_text(paths@, paths@.len() as int, #[trigger] out@[j]@) by {
            assert(out@[j] == u@[j]);
        }
        assert forall|i: int|
            0 <= i < paths@.len() && !has_text(out@, out@.len() as int, #[trigger] paths@[i]@) implies out@.len() == 8
                && forall|j: int| 0 <= j < 8 ==> crate::order::text_lt(#[trigger] out@[j]@, paths@[i]@) by {
            assert(has_text(u@, u@.len() as int, paths@[i]@));
            let k = choose|k: int| 0 <= k < u@.len() && (#[trigger] u@[k])@ == paths@[i]@;
            if k < n {
                assert(out@[k] == u@[k]);
                assert(has_text(out@, out@.len() as int, paths@[i]@));
            }
            assert forall|j: int| 0 <= j < 8 implies crate::order::text_lt(#[trigger] out@[j]@, paths@[i]@) by {
                assert(out@[j] == u@[j]);
                assert(uv[j] == u@[j]@ && uv[k] == u@[k]@);
            }
        }
    }
    out
}

} // verus!
