//! Session bootstrap: grouping stored memories by their content prefix,
//! spotting active tasks and recovery details, and selecting what fits a
//! result limit and a token budget.
use vstd::prelude::*;

use crate::order::{
    chars_of, is_stable_order, keys_view, lemma_sorted_positions, reorder, sorted_positions,
    stable_order, SortKeyPart, SortKeyView,
};
use crate::text::{
    contains_str, fold_lower, fold_lower_chars, seq_contains, seq_starts_with, starts_with_str,
    trim_start, trim_start_chars,
};

verus! {

// ─── content prefixes ────────────────────────────────────────────────────────

/// The tag a memory's content starts with.
#[derive(Debug, Clone, Copy, PartialEq, Eq, Structural)]
pub enum ContentPrefix {
    Task,
    Decision,
    User,
    Research,
    Project,
    Context,
    Epic,
}

impl ContentPrefix {
    pub open spec fn spec_text(self) -> Seq<char> {
        match self {
            ContentPrefix::Task => "TASK:"@,
            ContentPrefix::Decision => "DECISION:"@,
            ContentPrefix::User => "USER:"@,
            ContentPrefix::Research => "RESEARCH:"@,
            ContentPrefix::Project => "PROJECT:"@,
            ContentPrefix::Context => "CONTEXT:"@,
            ContentPrefix::Epic => "EPIC:"@,
        }
    }

    pub fn text(&self) -> (r: &'static str)
        ensures
            r@ == self.spec_text(),
    {
        match self {
            ContentPrefix::Task => "TASK:",
            ContentPrefix::Decision => "DECISION:",
            ContentPrefix::User => "USER:",
            ContentPrefix::Research => "RESEARCH:",
            ContentPrefix::Project => "PROJECT:",
            ContentPrefix::Context => "CONTEXT:",
            ContentPrefix::Epic => "EPIC:",
        }
    }
}

/// The first tag, in the order task, decision, user, research, project,
/// context, epic, that begins the content once leading whitespace is dropped.
pub open spec fn spec_content_prefix(content: Seq<char>) -> Option<ContentPrefix> {
    let t = trim_start(content);
    if seq_starts_with(t, "TASK:"@) {
        Some(ContentPrefix::Task)
    } else if seq_starts_with(t, "DECISION:"@) {
        Some(ContentPrefix::Decision)
    } else if seq_starts_with(t, "USER:"@) {
        Some(ContentPrefix::User)
    } else if seq_starts_with(t, "RESEARCH:"@) {
        Some(ContentPrefix::Research)
    } else if seq_starts_with(t, "PROJECT:"@) {
        Some(ContentPrefix::Project)
    } else if seq_starts_with(t, "CONTEXT:"@) {
        Some(ContentPrefix::Context)
    } else if seq_starts_with(t, "EPIC:"@) {
        Some(ContentPrefix::Epic)
    } else {
        None
    }
}

fn prefix_of_chars(content: &Vec<char>) -> (r: Option<ContentPrefix>)
    ensures
        r == spec_content_prefix(content@),
{
    let t = trim_start_chars(content);
    if starts_with_str(&t, "TASK:") {
        Some(ContentPrefix::Task)
    } else if starts_with_str(&t, "DECISION:") {
        Some(ContentPrefix::Decision)
    } else if starts_with_str(&t, "USER:") {
        Some(ContentPrefix::User)
    } else if starts_with_str(&t, "RESEARCH:") {
        Some(ContentPrefix::Research)
    } else if starts_with_str(&t, "PROJECT:") {
        Some(ContentPrefix::Project)
    } else if starts_with_str(&t, "CONTEXT:") {
        Some(ContentPrefix::Context)
    } else if starts_with_str(&t, "EPIC:") {
        Some(ContentPrefix::Epic)
    } else {
        None
    }
}

/// The tag the content starts with, if any (see `spec_content_prefix`).
pub fn content_prefix(content: &str) -> (r: Option<ContentPrefix>)
    ensures
        r == spec_content_prefix(content@),
{
    let chars = chars_of(content);
    prefix_of_chars(&chars)
}

/// Group of stable context a tag belongs to.
#[derive(Debug, Clone, Copy, PartialEq, Eq, Structural)]
pub enum StableGroup {
    Decision,
    User,
    Research,
    Project,
    Context,
    Epic,
    Other,
}

impl StableGroup {
    pub open spec fn spec_name(self) -> Seq<char> {
        match self {
            StableGroup::Decision => "decision"@,
            StableGroup::User => "user"@,
            StableGroup::Research => "research"@,
            StableGroup::Project => "project"@,
            StableGroup::Context => "context"@,
            StableGroup::Epic => "epic"@,
            StableGroup::Other => "other"@,
        }
    }

    pub fn name(&self) -> (r: &'static str)
        ensures
            r@ == self.spec_name(),
    {
        match self {
            StableGroup::Decision => "decision",
            StableGroup::User => "user",
            StableGroup::Research => "research",
            StableGroup::Project => "project",
            StableGroup::Context => "context",
            StableGroup::Epic => "epic",
            StableGroup::Other => "other",
        }
    }
}

pub open spec fn spec_stable_group(prefix: ContentPrefix) -> StableGroup {
    match prefix {
        ContentPrefix::Decision => StableGroup::Decision,
        ContentPrefix::User => StableGroup::User,
        ContentPrefix::Research => StableGroup::Research,
        ContentPrefix::Project => StableGroup::Project,
        ContentPrefix::Context => StableGroup::Context,
        ContentPrefix::Epic => StableGroup::Epic,
        ContentPrefix::Task => StableGroup::Other,
    }
}

/// The stable-context group of a tag; tasks belong to none of the groups.
pub fn stable_group(prefix: ContentPrefix) -> (r: StableGroup)
    ensures
        r == spec_stable_group(prefix),
{
    match prefix {
        ContentPrefix::Decision => StableGroup::Decision,
        ContentPrefix::User => StableGroup::User,
        ContentPrefix::Research => StableGroup::Research,
        ContentPrefix::Project => StableGroup::Project,
        ContentPrefix::Context => StableGroup::Context,
        ContentPrefix::Epic => StableGroup::Epic,
        ContentPrefix::Task => StableGroup::Other,
    }
}

// ─── tasks and recovery details ──────────────────────────────────────────────

/// A task record that looks in progress: it carries the task tag and its
/// lower-cased text mentions an in-progress status, a current step or an
/// open checkbox.
pub open spec fn spec_is_active_task(content: Seq<char>) -> bool {
    let lower = fold_lower(content);
    &&& spec_content_prefix(content) == Some(ContentPrefix::Task)
    &&& {
        ||| seq_contains(lower, "status: in_progress"@)
        ||| seq_contains(lower, "status=in_progress"@)
        ||| seq_contains(lower, "in_progress"@)
        ||| seq_contains(lower, "current:"@)
        ||| seq_contains(lower, "[ ]"@)
    }
}

/// Whether the memory is an active task.
pub fn is_active_task_candidate(content: &str) -> (r: bool)
    ensures
        r == spec_is_active_task(content@),
{
    let chars = chars_of(content);
    if prefix_of_chars(&chars) != Some(ContentPrefix::Task) {
        return false;
    }
    let lower = fold_lower_chars(&chars);
    contains_str(&lower, "status: in_progress") || contains_str(&lower, "status=in_progress")
        || contains_str(&lower, "in_progress") || contains_str(&lower, "current:") || contains_str(
        &lower,
        "[ ]",
    )
}

/// Priority of an active task: 4 for an in-progress status, 2 for a current
/// step, 1 for an open checkbox, added up.
pub open spec fn spec_task_priority(content: Seq<char>) -> nat {
    let lower = fold_lower(content);
    (if seq_contains(lower, "in_progress"@) { 4nat } else { 0nat }) + (if seq_contains(
        lower,
        "current:"@,
    ) {
        2nat
    } else {
        0nat
    }) + (if seq_contains(lower, "[ ]"@) { 1nat } else { 0nat })
}

/// The priority of a task record (see `spec_task_priority`).
pub fn task_priority(content: &str) -> (r: usize)
    ensures
        r == spec_task_priority(content@),
        r <= 7,
{
    let lower = fold_lower_chars(&chars_of(content));
    let mut p: usize = 0;
    if contains_str(&lower, "in_progress") {
        p = p + 4;
    }
    if contains_str(&lower, "current:") {
        p = p + 2;
    }
    if contains_str(&lower, "[ ]") {
        p = p + 1;
    }
    p
}

/// Operational detail worth keeping for recovery: commands, paths, current
/// steps, verification, failures, blockers, updates, to-dos, continuation
/// notes (case-insensitively), back-ticks or slashes.
pub open spec fn spec_mentions_recovery_detail(content: Seq<char>) -> bool {
    let lower = fold_lower(content);
    ||| seq_contains(lower, "command:"@)
    ||| seq_contains(lower, "path:"@)
    ||| seq_contains(lower, "current:"@)
    ||| seq_contains(lower, "verification"@)
    ||| seq_contains(lower, "failed"@)
    ||| seq_contains(lower, "blocker"@)
    ||| seq_contains(lower, "updated:"@)
    ||| seq_contains(lower, "todo"@)
    ||| seq_contains(lower, "continue"@)
    ||| seq_contains(content, "`"@)
    ||| seq_contains(content, "/"@)
}

/// Whether the content holds operational detail (the textual part of the
/// recovery test; the prompt-similarity part is a number comparison done by
/// the caller).
pub fn mentions_recovery_detail(content: &str) -> (r: bool)
    ensures
        r == spec_mentions_recovery_detail(content@),
{
    let chars = chars_of(content);
    let lower = fold_lower_chars(&chars);
    contains_str(&lower, "command:") || contains_str(&lower, "path:") || contains_str(
        &lower,
        "current:",
    ) || contains_str(&lower, "verification") || contains_str(&lower, "failed") || contains_str(
        &lower,
        "blocker",
    ) || contains_str(&lower, "updated:") || contains_str(&lower, "todo") || contains_str(
        &lower,
        "continue",
    ) || contains_str(&chars, "`") || contains_str(&chars, "/")
}

/// Rough token count of a text: a quarter of its characters, at least one.
pub open spec fn spec_estimate_tokens(len: nat) -> nat {
    if len / 4 >= 1 {
        len / 4
    } else {
        1
    }
}

/// Estimated tokens of a content.
pub fn estimate_tokens(content: &str) -> (r: usize)
    ensures
        r == spec_estimate_tokens(content@.len()),
{
    let n = content.unicode_len();
    let q = n / 4;
    if q >= 1 {
        q
    } else {
        1
    }
}


// ─── budgeted selection ──────────────────────────────────────────────────────

/// Outcome of a budgeted selection over a list of token counts: the chosen
/// positions, the tokens used and how many candidates each limit turned away.
pub struct SelectionView {
    pub selected: Seq<int>,
    pub used: nat,
    pub by_limit: nat,
    pub by_tokens: nat,
}

/// Candidates are taken in order: once `limit` are chosen the rest are turned
/// away by the limit; a candidate whose tokens would push the running total
/// past `budget` is turned away by the budget, and later smaller ones may
/// still fit.
pub open spec fn select_spec(limit: nat, budget: nat, used: nat, tokens: Seq<usize>) -> SelectionView
    decreases tokens.len(),
{
    if tokens.len() == 0 {
        SelectionView { selected: seq![], used, by_limit: 0, by_tokens: 0 }
    } else {
        let prev = select_spec(limit, budget, used, tokens.drop_last());
        let i = tokens.len() - 1;
        let t = tokens.last();
        if prev.selected.len() >= limit {
            SelectionView { by_limit: prev.by_limit + 1, ..prev }
        } else if prev.used + t > budget {
            SelectionView { by_tokens: prev.by_tokens + 1, ..prev }
        } else {
            SelectionView { selected: prev.selected.push(i), used: prev.used + t as nat, ..prev }
        }
    }
}

/// Sum of the token counts at the chosen positions.
pub open spec fn tokens_at(tokens: Seq<usize>, positions: Seq<int>) -> nat
    decreases positions.len(),
{
    if positions.len() == 0 {
        0
    } else {
        tokens_at(tokens, positions.drop_last()) + tokens[positions.last()] as nat
    }
}

/// A budgeted selection never goes over the limit or the budget, accounts
/// for every candidate exactly once, keeps the candidates' order, and uses
/// exactly the tokens of what it chose.
pub proof fn lemma_selection_respects_budget(limit: nat, budget: nat, used: nat, tokens: Seq<usize>)
    requires
        used <= budget,
    ensures
        ({
            let v = select_spec(limit, budget, used, tokens);
            &&& v.used <= budget
            &&& v.selected.len() <= limit || (limit == 0 && v.selected.len() == 0)
            &&& v.selected.len() + v.by_limit + v.by_tokens == tokens.len()
            &&& forall|a: int, b: int|
                0 <= a < b < v.selected.len() ==> v.selected[a] < v.selected[b]
            &&& forall|a: int| 0 <= a < v.selected.len() ==> 0 <= #[trigger] v.selected[a] < tokens.len()
            &&& v.used == used + tokens_at(tokens, v.selected)
        }),
    decreases tokens.len(),
{
    if tokens.len() > 0 {
        let prev = select_spec(limit, budget, used, tokens.drop_last());
        lemma_selection_respects_budget(limit, budget, used, tokens.drop_last());
        lemma_tokens_at_prefix(tokens, tokens.drop_last(), prev.selected);
        let v = select_spec(limit, budget, used, tokens);
        if prev.selected.len() < limit && prev.used + tokens.last() <= budget {
            assert(v.selected.drop_last() =~= prev.selected);
            assert(v.selected.last() == tokens.len() - 1);
        }
    }
}

/// Token sums over positions inside a prefix agree with the whole list.
proof fn lemma_tokens_at_prefix(tokens: Seq<usize>, prefix: Seq<usize>, positions: Seq<int>)
    requires
        prefix.len() <= tokens.len(),
        forall|k: int| 0 <= k < prefix.len() ==> prefix[k] == tokens[k],
        forall|a: int| 0 <= a < positions.len() ==> 0 <= #[trigger] positions[a] < prefix.len(),
    ensures
        tokens_at(prefix, positions) == tokens_at(tokens, positions),
    decreases positions.len(),
{
    if positions.len() > 0 {
        lemma_tokens_at_prefix(tokens, prefix, positions.drop_last());
    }
}

/// A result limit and a token budget, with what they have turned away so far.
#[derive(Debug, PartialEq, Eq, Structural)]
pub struct SelectionBudget {
    pub limit: usize,
    pub token_budget: usize,
    pub used_tokens: usize,
    pub truncated_by_limit: usize,
    pub truncated_by_token_budget: usize,
}

impl SelectionBudget {
    /// A fresh budget with nothing used or turned away.
    pub fn new(limit: usize, token_budget: usize) -> (r: SelectionBudget)
        ensures
            r == (SelectionBudget {
                limit,
                token_budget,
                used_tokens: 0,
                truncated_by_limit: 0,
                truncated_by_token_budget: 0,
            }),
    {
        SelectionBudget {
            limit,
            token_budget,
            used_tokens: 0,
            truncated_by_limit: 0,
            truncated_by_token_budget: 0,
        }
    }

    /// Selects from candidates with the given token counts (see
    /// `select_spec`); returns the chosen positions, in order.
    pub fn select(&mut self, tokens: &Vec<usize>) -> (r: Vec<usize>)
        requires
            old(self).used_tokens <= old(self).token_budget,
            old(self).truncated_by_limit + tokens@.len() <= usize::MAX,
            old(self).truncated_by_token_budget + tokens@.len() <= usize::MAX,
        ensures
            ({
                let v = select_spec(
                    old(self).limit as nat,
                    old(self).token_budget as nat,
                    old(self).used_tokens as nat,
                    tokens@,
                );
                &&& r@.len() == v.selected.len()
                &&& forall|k: int| 0 <= k < r@.len() ==> r@[k] as int == v.selected[k]
                &&& final(self).used_tokens == v.used
                &&& final(self).truncated_by_limit == old(self).truncated_by_limit + v.by_limit
                &&& final(self).truncated_by_token_budget == old(self).truncated_by_token_budget
                    + v.by_tokens
                &&& final(self).limit == old(self).limit
                &&& final(self).token_budget == old(self).token_budget
            }),
    {
        let ghost limit = self.limit as nat;
        let ghost budget = self.token_budget as nat;
        let ghost used0 = self.used_tokens as nat;
        let ghost tl0 = self.truncated_by_limit as nat;
        let ghost tt0 = self.truncated_by_token_budget as nat;
        let mut out: Vec<usize> = Vec::new();
        for i in 0..tokens.len()
            invariant
                limit == self.limit,
                budget == self.token_budget,
                tl0 + tokens@.len() <= usize::MAX,
                tt0 + tokens@.len() <= usize::MAX,
                used0 <= budget,
                ({
                    let v = select_spec(limit, budget, used0, tokens@.subrange(0, i as int));
                    &&& out@.len() == v.selected.len()
                    &&& forall|k: int| 0 <= k < out@.len() ==> out@[k] as int == v.selected[k]
                    &&& self.used_tokens == v.used
                    &&& self.truncated_by_limit == tl0 + v.by_limit
                    &&& self.truncated_by_token_budget == tt0 + v.by_tokens
                }),
        {
            proof {
                lemma_selection_respects_budget(limit, budget, used0, tokens@.subrange(0, i as int));
                assert(tokens@.subrange(0, i + 1).drop_last() =~= tokens@.subrange(0, i as int));
            }
            let t = tokens[i];
            if out.len() >= self.limit {
                self.truncated_by_limit = self.truncated_by_limit + 1;
            } else if t > self.token_budget - self.used_tokens {
                self.truncated_by_token_budget = self.truncated_by_token_budget + 1;
            } else {
                self.used_tokens = self.used_tokens + t;
                out.push(i);
            }
        }
        proof {
            assert(tokens@.subrange(0, tokens@.len() as int) =~= tokens@);
        }
        out
    }
}


// ─── bootstrap selection ─────────────────────────────────────────────────────

/// A stored memory offered to bootstrap, with the two number comparisons the
/// caller makes on word overlap.
#[derive(Debug)]
pub struct BootstrapMemory {
    pub content: String,
    /// The prompt shares enough words with the content to count as related.
    pub prompt_related: bool,
    /// The content repeats the compact summary closely enough to be dropped.
    pub repeats_compact_summary: bool,
}

/// The six stable-context groups, in the order bootstrap reports them.
pub open spec fn stable_group_order() -> Seq<StableGroup> {
    seq![
        StableGroup::Decision,
        StableGroup::User,
        StableGroup::Research,
        StableGroup::Project,
        StableGroup::Context,
        StableGroup::Epic,
    ]
}

pub open spec fn in_stable_group(m: BootstrapMemory, g: StableGroup) -> bool {
    match spec_content_prefix(m.content@) {
        Some(p) => p != ContentPrefix::Task && spec_stable_group(p) == g,
        None => false,
    }
}

pub open spec fn is_recovery_candidate(m: BootstrapMemory) -> bool {
    (spec_mentions_recovery_detail(m.content@) || m.prompt_related) && !m.repeats_compact_summary
}

/// Positions, among the first `n`, of active tasks.
pub open spec fn active_positions(ms: Seq<BootstrapMemory>, n: nat) -> Seq<usize>
    decreases n,
{
    if n == 0 {
        seq![]
    } else {
        let r = active_positions(ms, (n - 1) as nat);
        if spec_is_active_task(ms[n - 1].content@) {
            r.push((n - 1) as usize)
        } else {
            r
        }
    }
}

/// Positions, among the first `n`, of memories in group `g`.
pub open spec fn group_positions(ms: Seq<BootstrapMemory>, g: StableGroup, n: nat) -> Seq<usize>
    decreases n,
{
    if n == 0 {
        seq![]
    } else {
        let r = group_positions(ms, g, (n - 1) as nat);
        if in_stable_group(ms[n - 1], g) {
            r.push((n - 1) as usize)
        } else {
            r
        }
    }
}

/// Positions, among the first `n`, of recovery candidates.
pub open spec fn recovery_positions(ms: Seq<BootstrapMemory>, n: nat) -> Seq<usize>
    decreases n,
{
    if n == 0 {
        seq![]
    } else {
        let r = recovery_positions(ms, (n - 1) as nat);
        if is_recovery_candidate(ms[n - 1]) {
            r.push((n - 1) as usize)
        } else {
            r
        }
    }
}

/// Sort keys that put higher-priority tasks first.
pub open spec fn priority_keys(ms: Seq<BootstrapMemory>, cands: Seq<usize>) -> Seq<Seq<SortKeyView>> {
    cands.map_values(
        |i: usize| seq![SortKeyView::Num((7 - spec_task_priority(ms[i as int].content@)) as u64)],
    )
}

/// Active tasks by descending priority, ties in stored order.
pub open spec fn active_order(ms: Seq<BootstrapMemory>) -> Seq<usize> {
    let cands = active_positions(ms, ms.len());
    reorder(cands, sorted_positions(priority_keys(ms, cands)))
}

pub open spec fn tokens_of(ms: Seq<BootstrapMemory>, positions: Seq<usize>) -> Seq<usize> {
    positions.map_values(|i: usize| spec_estimate_tokens(ms[i as int].content@.len()) as usize)
}

/// The memories picked by a selection over `order`.
pub open spec fn picked(order: Seq<usize>, v: SelectionView) -> Seq<usize> {
    v.selected.map_values(|j: int| order[j])
}

pub open spec fn stable_group_budget(token_budget: nat) -> nat {
    if token_budget / 3 >= 128 {
        token_budget / 3
    } else {
        128
    }
}

pub open spec fn active_selection(ms: Seq<BootstrapMemory>, limit: nat, token_budget: nat) -> SelectionView {
    select_spec(limit, token_budget / 2, 0, tokens_of(ms, active_order(ms)))
}

pub open spec fn group_selection(
    ms: Seq<BootstrapMemory>,
    g: StableGroup,
    limit: nat,
    token_budget: nat,
) -> SelectionView {
    select_spec(
        limit,
        stable_group_budget(token_budget),
        0,
        tokens_of(ms, group_positions(ms, g, ms.len())),
    )
}

pub open spec fn recovery_selection(ms: Seq<BootstrapMemory>, limit: nat, token_budget: nat) -> SelectionView {
    select_spec(limit, token_budget / 3, 0, tokens_of(ms, recovery_positions(ms, ms.len())))
}

/// What bootstrap returns: positions into the offered memories.
#[derive(Debug)]
pub struct BootstrapSelection {
    pub active_tasks: Vec<usize>,
    /// One list per group, in the order decision, user, research, project,
    /// context, epic.
    pub stable_groups: Vec<Vec<usize>>,
    pub recovery: Vec<usize>,
    /// Tokens used by active tasks and recovery details.
    pub estimated_tokens_used: usize,
    pub returned_count: usize,
    pub truncated_by_limit: usize,
    pub truncated_by_token_budget: usize,
    pub is_partial: bool,
}

/// The token budget of a bootstrap request: 4000 unless given, kept within
/// 256 to 20000.
pub fn bootstrap_token_budget(requested: Option<usize>) -> (r: usize)
    ensures
        r == ({
            let b = match requested {
                Some(b) => b as int,
                None => 4000,
            };
            if b > 20000 {
                20000
            } else if b < 256 {
                256
            } else {
                b
            }
        }),
{
    let b = match requested {
        Some(b) => b,
        None => 4000,
    };
    let b = if b > 20000 {
        20000
    } else {
        b
    };
    if b < 256 {
        256
    } else {
        b
    }
}

/// The result limit of a bootstrap request: the normalized limit, at most 25.
pub fn bootstrap_limit(normalized_limit: usize) -> (r: usize)
    ensures
        r == if normalized_limit < 25 { normalized_limit } else { 25 },
{
    if normalized_limit < 25 {
        normalized_limit
    } else {
        25
    }
}

/// How many stored memories bootstrap reads: at least 200, eight per result.
pub fn bootstrap_fetch_limit(limit: usize) -> (r: usize)
    requires
        limit <= 25,
    ensures
        r == if 200 >= limit * 8 { 200 } else { limit * 8 },
{
    if 200 >= limit * 8 {
        200
    } else {
        limit * 8
    }
}

fn estimate_tokens_chars(content: &String) -> (r: usize)
    ensures
        r == spec_estimate_tokens(content@.len()),
{
    estimate_tokens(content.as_str())
}

/// Token counts of the memories at the given positions.
fn tokens_at_positions(ms: &Vec<BootstrapMemory>, positions: &Vec<usize>) -> (r: Vec<usize>)
    requires
        forall|k: int| 0 <= k < positions@.len() ==> #[trigger] positions@[k] < ms@.len(),
    ensures
        r@ == tokens_of(ms@, positions@),
{
    let mut out: Vec<usize> = Vec::new();
    for k in 0..positions.len()
        invariant
            forall|j: int| 0 <= j < positions@.len() ==> #[trigger] positions@[j] < ms@.len(),
            out@ == tokens_of(ms@, positions@.subrange(0, k as int)),
    {
        out.push(estimate_tokens_chars(&ms[positions[k]].content));
        proof {
            assert(tokens_of(ms@, positions@.subrange(0, k + 1)) =~= tokens_of(
                ms@,
                positions@.subrange(0, k as int),
            ).push(spec_estimate_tokens(ms@[positions@[k as int] as int].content@.len()) as usize));
        }
    }
    proof {
        assert(positions@.subrange(0, positions@.len() as int) =~= positions@);
    }
    out
}

/// Runs one budgeted selection over the memories at `order`.
fn select_from(ms: &Vec<BootstrapMemory>, order: &Vec<usize>, limit: usize, budget: usize) -> (r: (
    Vec<usize>,
    SelectionBudget,
))
    requires
        forall|k: int| 0 <= k < order@.len() ==> #[trigger] order@[k] < ms@.len(),
    ensures
        ({
            let v = select_spec(limit as nat, budget as nat, 0, tokens_of(ms@, order@));
            &&& r.0@ == picked(order@, v)
            &&& r.1.used_tokens == v.used
            &&& r.1.truncated_by_limit == v.by_limit
            &&& r.1.truncated_by_token_budget == v.by_tokens
            &&& v.selected.len() + v.by_limit + v.by_tokens == order@.len()
            &&& v.used <= budget
        }),
{
    let tokens = tokens_at_positions(ms, order);
    let n = tokens.len();
    assert(n == tokens@.len());
    let mut b = SelectionBudget::new(limit, budget);
    let chosen = b.select(&tokens);
    let ghost v = select_spec(limit as nat, budget as nat, 0, tokens@);
    proof {
        lemma_selection_respects_budget(limit as nat, budget as nat, 0, tokens@);
    }
    let mut out: Vec<usize> = Vec::new();
    for k in 0..chosen.len()
        invariant
            chosen@.len() == v.selected.len(),
            forall|j: int| 0 <= j < chosen@.len() ==> chosen@[j] as int == v.selected[j],
            forall|j: int| 0 <= j < v.selected.len() ==> 0 <= #[trigger] v.selected[j] < tokens@.len(),
            tokens@.len() == order@.len(),
            out@ == picked(order@, SelectionView { selected: v.selected.subrange(0, k as int), ..v }),
    {
        assert(0 <= v.selected[k as int] < tokens@.len());
        out.push(order[chosen[k]]);
        proof {
            assert(picked(order@, SelectionView { selected: v.selected.subrange(0, k + 1), ..v })
                =~= picked(order@, SelectionView { selected: v.selected.subrange(0, k as int), ..v }).push(
                order@[chosen@[k as int] as int],
            ));
        }
    }
    proof {
        assert(v.selected.subrange(0, v.selected.len() as int) =~= v.selected);
        assert(SelectionView { selected: v.selected, ..v } == v);
    }
    (out, b)
}


proof fn lemma_positions_bounded(ms: Seq<BootstrapMemory>, g: StableGroup, n: nat)
    requires
        n <= ms.len(),
        ms.len() <= usize::MAX,
    ensures
        forall|k: int| 0 <= k < active_positions(ms, n).len() ==> #[trigger] active_positions(ms, n)[k] < n,
        forall|k: int| 0 <= k < group_positions(ms, g, n).len() ==> #[trigger] group_positions(ms, g, n)[k] < n,
        forall|k: int| 0 <= k < recovery_positions(ms, n).len() ==> #[trigger] recovery_positions(ms, n)[k] < n,
    decreases n,
{
    if n > 0 {
        let m = (n - 1) as nat;
        lemma_positions_bounded(ms, g, m);
        let a = active_positions(ms, m);
        assert forall|k: int| 0 <= k < active_positions(ms, n).len() implies #[trigger] active_positions(ms, n)[k] < n by {
            if k < a.len() {
                assert(active_positions(ms, n)[k] == a[k]);
            }
        }
        let b = group_positions(ms, g, m);
        assert forall|k: int| 0 <= k < group_positions(ms, g, n).len() implies #[trigger] group_positions(ms, g, n)[k] < n by {
            if k < b.len() {
                assert(group_positions(ms, g, n)[k] == b[k]);
            }
        }
        let c = recovery_positions(ms, m);
        assert forall|k: int| 0 <= k < recovery_positions(ms, n).len() implies #[trigger] recovery_positions(ms, n)[k] < n by {
            if k < c.len() {
                assert(recovery_positions(ms, n)[k] == c[k]);
            }
        }
    }
}

/// Positions of the active tasks, in stored order.
fn active_candidates(ms: &Vec<BootstrapMemory>) -> (r: Vec<usize>)
    ensures
        r@ == active_positions(ms@, ms@.len()),
{
    let mut out: Vec<usize> = Vec::new();
    for i in 0..ms.len()
        invariant
            out@ == active_positions(ms@, i as nat),
    {
        if is_active_task_candidate(ms[i].content.as_str()) {
            out.push(i);
        }
    }
    out
}

/// Positions of the memories in group `g`, in stored order.
fn group_candidates(ms: &Vec<BootstrapMemory>, g: StableGroup) -> (r: Vec<usize>)
    ensures
        r@ == group_positions(ms@, g, ms@.len()),
{
    let mut out: Vec<usize> = Vec::new();
    for i in 0..ms.len()
        invariant
            out@ == group_positions(ms@, g, i as nat),
    {
        let member = match content_prefix(ms[i].content.as_str()) {
            Some(p) => p != ContentPrefix::Task && stable_group(p) == g,
            None => false,
        };
        if member {
            out.push(i);
        }
    }
    out
}

/// Positions of the recovery candidates, in stored order.
fn recovery_candidates(ms: &Vec<BootstrapMemory>) -> (r: Vec<usize>)
    ensures
        r@ == recovery_positions(ms@, ms@.len()),
{
    let mut out: Vec<usize> = Vec::new();
    for i in 0..ms.len()
        invariant
            out@ == recovery_positions(ms@, i as nat),
    {
        let m = &ms[i];
        if (mentions_recovery_detail(m.content.as_str()) || m.prompt_related)
            && !m.repeats_compact_summary {
            out.push(i);
        }
    }
    out
}

/// Active tasks by descending priority, ties in stored order.
fn ordered_active_tasks(ms: &Vec<BootstrapMemory>) -> (r: Vec<usize>)
    ensures
        r@ == active_order(ms@),
        r@.len() == active_positions(ms@, ms@.len()).len(),
        forall|k: int| 0 <= k < r@.len() ==> #[trigger] r@[k] < ms@.len(),
{
    let cands = active_candidates(ms);
    let n = ms.len();
    proof {
        lemma_positions_bounded(ms@, StableGroup::Other, n as nat);
    }
    let mut keys: Vec<Vec<SortKeyPart>> = Vec::new();
    for k in 0..cands.len()
        invariant
            forall|j: int| 0 <= j < cands@.len() ==> #[trigger] cands@[j] < ms@.len(),
            keys@.len() == k,
            keys_view(keys@) == priority_keys(ms@, cands@.subrange(0, k as int)),
    {
        let p = task_priority(ms[cands[k]].content.as_str());
        let rank: u64 = (7 - p) as u64;
        let key: Vec<SortKeyPart> = vec![SortKeyPart::Num(rank)];
        proof {
            assert(crate::order::key_view(key@) =~= seq![
                SortKeyView::Num((7 - spec_task_priority(ms@[cands@[k as int] as int].content@)) as u64),
            ]);
        }
        let ghost old_keys = keys@;
        keys.push(key);
        proof {
            crate::order::lemma_keys_view_push(old_keys, key);
            assert(keys@ == old_keys.push(key));
            assert(keys_view(keys@) =~= priority_keys(ms@, cands@.subrange(0, k + 1)));
        }
    }
    proof {
        assert(cands@.subrange(0, cands@.len() as int) =~= cands@);
    }
    let perm = stable_order(&keys);
    proof {
        lemma_sorted_positions(keys_view(keys@), perm@);
    }
    let mut out: Vec<usize> = Vec::new();
    for k in 0..perm.len()
        invariant
            perm@.len() == cands@.len(),
            is_stable_order(keys_view(keys@), perm@),
            keys_view(keys@).len() == cands@.len(),
            forall|j: int| 0 <= j < cands@.len() ==> #[trigger] cands@[j] < ms@.len(),
            out@ == reorder(cands@, perm@.subrange(0, k as int)),
            forall|j: int| 0 <= j < out@.len() ==> #[trigger] out@[j] < ms@.len(),
    {
        assert(perm@[k as int] < keys_view(keys@).len());
        out.push(cands[perm[k]]);
        proof {
            assert(reorder(cands@, perm@.subrange(0, k + 1)) =~= reorder(
                cands@,
                perm@.subrange(0, k as int),
            ).push(cands@[perm@[k as int] as int]));
        }
    }
    proof {
        assert(perm@.subrange(0, perm@.len() as int) =~= perm@);
    }
    out
}


/// Sum over the six groups of a selection measure.
pub open spec fn groups_total(
    ms: Seq<BootstrapMemory>,
    limit: nat,
    token_budget: nat,
    measure: spec_fn(SelectionView) -> nat,
    k: nat,
) -> nat
    decreases k,
{
    if k == 0 {
        0
    } else {
        groups_total(ms, limit, token_budget, measure, (k - 1) as nat) + measure(
            group_selection(ms, stable_group_order()[k - 1], limit, token_budget),
        )
    }
}

pub open spec fn selected_len(v: SelectionView) -> nat {
    v.selected.len()
}

pub open spec fn by_limit_of(v: SelectionView) -> nat {
    v.by_limit
}

pub open spec fn by_tokens_of(v: SelectionView) -> nat {
    v.by_tokens
}

/// Bootstrap selection: active tasks by priority within half the token
/// budget, each stable-context group within a third of it (at least 128),
/// recovery details within a third, every list within `limit`.
pub fn select_bootstrap(ms: &Vec<BootstrapMemory>, limit: usize, token_budget: usize) -> (r: BootstrapSelection)
    requires
        ms@.len() <= usize::MAX / 8,
    ensures
        ({
            let l = limit as nat;
            let tb = token_budget as nat;
            let a = active_selection(ms@, l, tb);
            let rec = recovery_selection(ms@, l, tb);
            &&& r.active_tasks@ == picked(active_order(ms@), a)
            &&& r.recovery@ == picked(recovery_positions(ms@, ms@.len()), rec)
            &&& r.stable_groups@.len() == 6
            &&& forall|k: int|
                0 <= k < 6 ==> #[trigger] r.stable_groups@[k]@ == picked(
                    group_positions(ms@, stable_group_order()[k], ms@.len()),
                    group_selection(ms@, stable_group_order()[k], l, tb),
                )
            &&& r.estimated_tokens_used == a.used + rec.used
            &&& r.returned_count == a.selected.len() + rec.selected.len() + groups_total(
                ms@,
                l,
                tb,
                |v: SelectionView| selected_len(v),
                6,
            )
            &&& r.truncated_by_limit == a.by_limit + rec.by_limit + groups_total(
                ms@,
                l,
                tb,
                |v: SelectionView| by_limit_of(v),
                6,
            )
            &&& r.truncated_by_token_budget == a.by_tokens + rec.by_tokens + groups_total(
                ms@,
                l,
                tb,
                |v: SelectionView| by_tokens_of(v),
                6,
            )
            &&& r.is_partial == (r.truncated_by_limit > 0 || r.truncated_by_token_budget > 0)
        }),
{
    let n = ms.len();
    proof {
        lemma_positions_bounded(ms@, StableGroup::Other, n as nat);
    }
    let active_order_v = ordered_active_tasks(ms);
    let (active, active_budget) = select_from(ms, &active_order_v, limit, token_budget / 2);

    let groups: [StableGroup; 6] = [
        StableGroup::Decision,
        StableGroup::User,
        StableGroup::Research,
        StableGroup::Project,
        StableGroup::Context,
        StableGroup::Epic,
    ];
    proof {
        assert(groups@ =~= stable_group_order());
    }
    let group_budget = if token_budget / 3 >= 128 {
        token_budget / 3
    } else {
        128
    };
    let mut stable_groups: Vec<Vec<usize>> = Vec::new();
    let mut returned: usize = 0;
    let mut by_limit: usize = 0;
    let mut by_tokens: usize = 0;
    let ghost l = limit as nat;
    let ghost tb = token_budget as nat;
    for k in 0..6
        invariant
            groups@ == stable_group_order(),
            group_budget == stable_group_budget(tb),
            l == limit,
            tb == token_budget,
            n == ms@.len(),
            n <= usize::MAX / 8,
            stable_groups@.len() == k,
            forall|j: int|
                0 <= j < k ==> #[trigger] stable_groups@[j]@ == picked(
                    group_positions(ms@, stable_group_order()[j], ms@.len()),
                    group_selection(ms@, stable_group_order()[j], l, tb),
                ),
            returned == groups_total(ms@, l, tb, |v: SelectionView| selected_len(v), k as nat),
            by_limit == groups_total(ms@, l, tb, |v: SelectionView| by_limit_of(v), k as nat),
            by_tokens == groups_total(ms@, l, tb, |v: SelectionView| by_tokens_of(v), k as nat),
            returned + by_limit + by_tokens <= k * n,
    {
        let g = groups[k];
        let members = group_candidates(ms, g);
        proof {
            lemma_positions_bounded(ms@, g, n as nat);
        }
        let (chosen, b) = select_from(ms, &members, limit, group_budget);
        proof {
            assert(members@.len() <= n) by {
                lemma_group_positions_len(ms@, g, n as nat);
            }
            assert(k * n + n == (k + 1) * n) by (nonlinear_arith);
            assert((k + 1) * n <= 6 * (usize::MAX / 8)) by (nonlinear_arith)
                requires
                    k < 6,
                    n <= usize::MAX / 8,
            ;
        }
        returned = returned + chosen.len();
        by_limit = by_limit + b.truncated_by_limit;
        by_tokens = by_tokens + b.truncated_by_token_budget;
        stable_groups.push(chosen);
    }

    let rec_positions = recovery_candidates(ms);
    let (recovery, recovery_budget) = select_from(ms, &rec_positions, limit, token_budget / 3);
    proof {
        lemma_active_positions_len(ms@, n as nat);
        lemma_recovery_positions_len(ms@, n as nat);
        assert(active_order_v@.len() <= n);
        assert(rec_positions@.len() <= n);
        assert(active@.len() == active_selection(ms@, l, tb).selected.len());
        assert(recovery@.len() == recovery_selection(ms@, l, tb).selected.len());
        assert(returned + by_limit + by_tokens <= 6 * n);
        assert(6 * n <= 6 * (usize::MAX / 8)) by (nonlinear_arith)
            requires
                n <= usize::MAX / 8,
        ;
    }
    let returned_count = active.len() + recovery.len() + returned;
    let truncated_by_limit = active_budget.truncated_by_limit + recovery_budget.truncated_by_limit
        + by_limit;
    let truncated_by_token_budget = active_budget.truncated_by_token_budget
        + recovery_budget.truncated_by_token_budget + by_tokens;
    let estimated_tokens_used = active_budget.used_tokens + recovery_budget.used_tokens;
    BootstrapSelection {
        active_tasks: active,
        stable_groups,
        recovery,
        estimated_tokens_used,
        returned_count,
        truncated_by_limit,
        truncated_by_token_budget,
        is_partial: truncated_by_limit > 0 || truncated_by_token_budget > 0,
    }
}

proof fn lemma_active_positions_facts(ms: Seq<BootstrapMemory>, n: nat)
    requires
        n <= ms.len(),
        ms.len() <= usize::MAX,
    ensures
        forall|k: int| 0 <= k < active_positions(ms, n).len() ==> {
            &&& (#[trigger] active_positions(ms, n)[k]) < n
            &&& spec_is_active_task(ms[active_positions(ms, n)[k] as int].content@)
        },
        forall|a: int, b: int|
            0 <= a < b < active_positions(ms, n).len() ==> (#[trigger] active_positions(ms, n)[a]) < (
            #[trigger] active_positions(ms, n)[b]),
        forall|i: int| 0 <= i < n && spec_is_active_task(#[trigger] ms[i].content@) ==> active_positions(
            ms,
            n,
        ).contains(i as usize),
    decreases n,
{
    if n > 0 {
        let m = (n - 1) as nat;
        lemma_active_positions_facts(ms, m);
        let r = active_positions(ms, m);
        let ap = active_positions(ms, n);
        assert forall|i: int| 0 <= i < n && spec_is_active_task(#[trigger] ms[i].content@) implies ap.contains(
            i as usize,
        ) by {
            if i < m {
                let k = choose|k: int| 0 <= k < r.len() && r[k] == i as usize;
                assert(ap[k] == r[k]);
            } else {
                assert(ap[ap.len() - 1] == i as usize);
            }
        }
    }
}

/// Active tasks come by priority: a task listed before another never has
/// a lower priority, tasks of equal priority keep their stored order, and
/// the list holds every active task and nothing else.
pub proof fn lemma_active_order_by_priority(ms: Seq<BootstrapMemory>)
    requires
        ms.len() <= usize::MAX,
    ensures
        forall|a: int, b: int|
            0 <= a < b < active_order(ms).len() ==> spec_task_priority(
                ms[(#[trigger] active_order(ms)[a]) as int].content@,
            ) >= spec_task_priority(ms[(#[trigger] active_order(ms)[b]) as int].content@),
        forall|a: int, b: int|
            0 <= a < b < active_order(ms).len() && spec_task_priority(
                ms[(#[trigger] active_order(ms)[a]) as int].content@,
            ) == spec_task_priority(ms[(#[trigger] active_order(ms)[b]) as int].content@) ==> active_order(
                ms,
            )[a] < active_order(ms)[b],
        forall|k: int| 0 <= k < active_order(ms).len() ==> {
            &&& (#[trigger] active_order(ms)[k]) < ms.len()
            &&& spec_is_active_task(ms[active_order(ms)[k] as int].content@)
        },
        forall|i: int| 0 <= i < ms.len() && spec_is_active_task(#[trigger] ms[i].content@) ==> active_order(
            ms,
        ).contains(i as usize),
{
    let cands = active_positions(ms, ms.len());
    lemma_active_positions_facts(ms, ms.len());
    lemma_active_positions_len(ms, ms.len());
    let keys = priority_keys(ms, cands);
    let p = sorted_positions(keys);
    crate::order::lemma_stable_order_exists(keys);
    crate::order::lemma_stable_order_covers(keys, p);
    let o = active_order(ms);
    assert(o == reorder(cands, p));
    assert forall|a: int, b: int| 0 <= a < b < o.len() implies spec_task_priority(ms[o[a] as int].content@)
        >= spec_task_priority(ms[o[b] as int].content@) && (spec_task_priority(ms[o[a] as int].content@)
        == spec_task_priority(ms[o[b] as int].content@) ==> o[a] < o[b]) by {
        let x = p[a];
        let y = p[b];
        assert(crate::order::before(keys, x, y));
        let px = spec_task_priority(ms[cands[x as int] as int].content@);
        let py = spec_task_priority(ms[cands[y as int] as int].content@);
        assert(px <= 7 && py <= 7);
        assert(keys[x as int] == seq![SortKeyView::Num((7 - px) as u64)]);
        assert(keys[y as int] == seq![SortKeyView::Num((7 - py) as u64)]);
        assert(o[a] == cands[x as int] && o[b] == cands[y as int]);
        if keys[x as int] == keys[y as int] {
            crate::order::lemma_key_lt_irreflexive(keys[x as int]);
            assert(x < y);
            assert(cands[x as int] < cands[y as int]);
            assert(keys[x as int][0] == keys[y as int][0]);
            assert(px == py);
        } else {
            assert(crate::order::key_lt(keys[x as int], keys[y as int]));
            assert(keys[x as int][0] != keys[y as int][0]);
            assert(crate::order::part_lt(keys[x as int][0], keys[y as int][0]));
            assert(px > py);
        }
    }
    assert forall|k: int| 0 <= k < o.len() implies (#[trigger] o[k]) < ms.len() && spec_is_active_task(
        ms[o[k] as int].content@,
    ) by {
        assert(p[k] < cands.len());
        assert(o[k] == cands[p[k] as int]);
    }
    assert forall|i: int| 0 <= i < ms.len() && spec_is_active_task(#[trigger] ms[i].content@) implies o.contains(
        i as usize,
    ) by {
        let j = choose|j: int| 0 <= j < cands.len() && cands[j] == i as usize;
        assert(p.contains(j as usize));
        let k = choose|k: int| 0 <= k < p.len() && p[k] == j as usize;
        assert(o[k] == i as usize);
    }
}

proof fn lemma_active_positions_len(ms: Seq<BootstrapMemory>, n: nat)
    ensures
        active_positions(ms, n).len() <= n,
    decreases n,
{
    if n > 0 {
        lemma_active_positions_len(ms, (n - 1) as nat);
    }
}

proof fn lemma_group_positions_len(ms: Seq<BootstrapMemory>, g: StableGroup, n: nat)
    ensures
        group_positions(ms, g, n).len() <= n,
    decreases n,
{
    if n > 0 {
        lemma_group_positions_len(ms, g, (n - 1) as nat);
    }
}

proof fn lemma_recovery_positions_len(ms: Seq<BootstrapMemory>, n: nat)
    ensures
        recovery_positions(ms, n).len() <= n,
    decreases n,
{
    if n > 0 {
        lemma_recovery_positions_len(ms, (n - 1) as nat);
    }
}


/// Bootstrap stays within its limits: active tasks and recovery details
/// together use no more than the token budget, and no list is longer than
/// the result limit.
pub proof fn lemma_bootstrap_within_budget(ms: Seq<BootstrapMemory>, limit: nat, token_budget: nat, g: StableGroup)
    ensures
        active_selection(ms, limit, token_budget).used + recovery_selection(ms, limit, token_budget).used
            <= token_budget,
        active_selection(ms, limit, token_budget).selected.len() <= limit,
        recovery_selection(ms, limit, token_budget).selected.len() <= limit,
        group_selection(ms, g, limit, token_budget).selected.len() <= limit,
        group_selection(ms, g, limit, token_budget).used <= stable_group_budget(token_budget),
{
    lemma_selection_respects_budget(limit, token_budget / 2, 0, tokens_of(ms, active_order(ms)));
    lemma_selection_respects_budget(
        limit,
        token_budget / 3,
        0,
        tokens_of(ms, recovery_positions(ms, ms.len())),
    );
    lemma_selection_respects_budget(
        limit,
        stable_group_budget(token_budget),
        0,
        tokens_of(ms, group_positions(ms, g, ms.len())),
    );
}


// ─── audit ───────────────────────────────────────────────────────────────────

/// What the audit reads of one memory for its operator signals.
#[derive(Debug, Clone, Copy, PartialEq, Eq, Structural)]
pub struct AuditFacts {
    /// A replacement is linked.
    pub has_superseded_by: bool,
    /// The memory has been invalidated.
    pub invalidated: bool,
    /// Characters of content.
    pub content_chars: usize,
    pub has_content_hash: bool,
}

/// A condition an operator should look at.
#[derive(Debug, Clone, Copy, PartialEq, Eq, Structural)]
pub enum OperatorSignal {
    ReplacementLinkedWithoutInvalidation,
    LongMemoryTruncationRisk,
    MissingContentFingerprint,
}

impl OperatorSignal {
    pub open spec fn spec_name(self) -> Seq<char> {
        match self {
            OperatorSignal::ReplacementLinkedWithoutInvalidation => "replacement_linked_without_invalidation"@,
            OperatorSignal::LongMemoryTruncationRisk => "long_memory_truncation_risk"@,
            OperatorSignal::MissingContentFingerprint => "missing_content_fingerprint"@,
        }
    }

    pub fn name(&self) -> (r: &'static str)
        ensures
            r@ == self.spec_name(),
    {
        match self {
            OperatorSignal::ReplacementLinkedWithoutInvalidation => "replacement_linked_without_invalidation",
            OperatorSignal::LongMemoryTruncationRisk => "long_memory_truncation_risk",
            OperatorSignal::MissingContentFingerprint => "missing_content_fingerprint",
        }
    }
}

/// The signals of one memory, in this order: a replacement linked to a
/// memory that was not invalidated, content over 8000 characters, no
/// content hash.
pub open spec fn spec_operator_signals(f: AuditFacts) -> Seq<OperatorSignal> {
    let a: Seq<OperatorSignal> = if f.has_superseded_by && !f.invalidated {
        seq![OperatorSignal::ReplacementLinkedWithoutInvalidation]
    } else {
        seq![]
    };
    let b: Seq<OperatorSignal> = if f.content_chars > 8000 {
        a.push(OperatorSignal::LongMemoryTruncationRisk)
    } else {
        a
    };
    if !f.has_content_hash {
        b.push(OperatorSignal::MissingContentFingerprint)
    } else {
        b
    }
}

pub fn operator_signals(f: AuditFacts) -> (r: Vec<OperatorSignal>)
    ensures
        r@ == spec_operator_signals(f),
{
    let mut out: Vec<OperatorSignal> = Vec::new();
    if f.has_superseded_by && !f.invalidated {
        out.push(OperatorSignal::ReplacementLinkedWithoutInvalidation);
    }
    if f.content_chars > 8000 {
        out.push(OperatorSignal::LongMemoryTruncationRisk);
    }
    if !f.has_content_hash {
        out.push(OperatorSignal::MissingContentFingerprint);
    }
    proof {
        assert(out@ =~= spec_operator_signals(f));
    }
    out
}

/// An audit answer is partial when the stored totals exceed what was
/// sampled.
pub fn audit_is_partial(active_count: usize, invalidated_count: usize, sampled: usize) -> (r: bool)
    ensures
        r == (active_count + invalidated_count > sampled),
{
    if active_count > sampled {
        true
    } else {
        invalidated_count > sampled - active_count
    }
}

/// The partial reason code of memory health: ok once embeddings are ready.
pub fn memory_health_reason(embedding_ready: bool) -> (r: &'static str)
    ensures
        r@ == if embedding_ready {
            "ok"@
        } else {
            "partial"@
        },
{
    if embedding_ready {
        "ok"
    } else {
        "partial"
    }
}

/// Number of projects whose index completed.
pub fn ready_project_count(states: &Vec<crate::types::IndexState>) -> (r: usize)
    ensures
        r == states@.filter(|s: crate::types::IndexState| s == crate::types::IndexState::Completed).len(),
{
    let mut n: usize = 0;
    for i in 0..states.len()
        invariant
            n == states@.subrange(0, i as int).filter(
                |s: crate::types::IndexState| s == crate::types::IndexState::Completed,
            ).len(),
            n <= i,
    {
        proof {
            let pre = states@.subrange(0, i as int);
            assert(states@.subrange(0, i + 1) =~= pre.push(states@[i as int]));
            pre.lemma_filter_push(
                states@[i as int],
                |s: crate::types::IndexState| s == crate::types::IndexState::Completed,
            );
        }
        if states[i] == crate::types::IndexState::Completed {
            n = n + 1;
        }
    }
    proof {
        assert(states@.subrange(0, states@.len() as int) =~= states@);
    }
    n
}


// ─── observation tally ───────────────────────────────────────────────────────

/// What a memory's observation metadata names.
#[derive(Debug, Clone, PartialEq, Eq)]
pub struct Observation {
    pub source: Option<String>,
    pub event_type: Option<String>,
}

/// A field of an observation, `unknown` when absent.
pub open spec fn or_unknown(o: Option<String>) -> Seq<char> {
    match o {
        Some(s) => s@,
        None => "unknown"@,
    }
}

/// The source and event type an observation is counted under.
pub open spec fn observation_key(o: Observation) -> (Seq<char>, Seq<char>) {
    (or_unknown(o.source), or_unknown(o.event_type))
}

/// Number of memories that carry an observation.
pub open spec fn observed_count(obs: Seq<Option<Observation>>) -> nat
    decreases obs.len(),
{
    if obs.len() == 0 {
        0
    } else {
        observed_count(obs.drop_last()) + if obs.last() is Some {
            1nat
        } else {
            0nat
        }
    }
}

/// Number of observations counted under `key`.
pub open spec fn key_count(obs: Seq<Option<Observation>>, key: (Seq<char>, Seq<char>)) -> nat
    decreases obs.len(),
{
    if obs.len() == 0 {
        0
    } else {
        key_count(obs.drop_last(), key) + if obs.last() matches Some(o) && observation_key(o) == key {
            1nat
        } else {
            0nat
        }
    }
}

/// How many observations share one source and event type.
#[derive(Debug, Clone, PartialEq, Eq)]
pub struct ObservationCount {
    pub source: String,
    pub event_type: String,
    pub count: usize,
}

impl ObservationCount {
    pub open spec fn key(self) -> (Seq<char>, Seq<char>) {
        (self.source@, self.event_type@)
    }
}

proof fn lemma_key_count_absent(obs: Seq<Option<Observation>>, key: (Seq<char>, Seq<char>))
    requires
        forall|m: int| 0 <= m < obs.len() ==> !(#[trigger] obs[m] matches Some(o) && observation_key(o) == key),
    ensures
        key_count(obs, key) == 0,
    decreases obs.len(),
{
    if obs.len() > 0 {
        let p = obs.drop_last();
        assert forall|m: int| 0 <= m < p.len() implies !(#[trigger] p[m] matches Some(o) && observation_key(o) == key) by {
            assert(p[m] == obs[m]);
        }
        lemma_key_count_absent(p, key);
        assert(obs.last() == obs[obs.len() - 1]);
    }
}

/// Sum of the tallied counts.
pub open spec fn counts_sum(cs: Seq<ObservationCount>) -> nat
    decreases cs.len(),
{
    if cs.len() == 0 {
        0
    } else {
        counts_sum(cs.drop_last()) + cs.last().count as nat
    }
}

spec fn usize_sum(s: Seq<usize>) -> nat
    decreases s.len(),
{
    if s.len() == 0 {
        0
    } else {
        usize_sum(s.drop_last()) + s.last() as nat
    }
}

proof fn lemma_usize_sum_update(s: Seq<usize>, i: int, v: usize)
    requires
        0 <= i < s.len(),
    ensures
        usize_sum(s.update(i, v)) + s[i] == usize_sum(s) + v,
    decreases s.len(),
{
    let t = s.update(i, v);
    if i == s.len() - 1 {
        assert(t.drop_last() =~= s.drop_last());
    } else {
        assert(t.drop_last() =~= s.drop_last().update(i, v));
        lemma_usize_sum_update(s.drop_last(), i, v);
    }
}

fn field_or_unknown(o: &Option<String>) -> (r: String)
    ensures
        r@ == or_unknown(*o),
{
    match o {
        Some(s) => s.clone(),
        None => String::from_str("unknown"),
    }
}

/// Counts the observations among the memories: the total, and one entry
/// per distinct source and event type (missing fields read as `unknown`).
/// The entries form a map from source and event type to a count; their
/// order in the vector carries no meaning.
pub fn tally_observations(obs: &Vec<Option<Observation>>) -> (r: (usize, Vec<ObservationCount>))
    ensures
        r.0 == observed_count(obs@),
        counts_sum(r.1@) == r.0,
        forall|i: int| #![trigger r.1@[i]]
            0 <= i < r.1@.len() ==> r.1@[i].count == key_count(obs@, r.1@[i].key()) && r.1@[i].count > 0,
        forall|i: int, j: int| 0 <= i < j < r.1@.len() ==> (#[trigger] r.1@[i]).key() != (#[trigger] r.1@[j]).key(),
        forall|k: int| #![trigger obs@[k]]
            0 <= k < obs@.len() && obs@[k] is Some ==> exists|i: int|
                0 <= i < r.1@.len() && (#[trigger] r.1@[i]).key() == observation_key(obs@[k]->0),
{
    let mut total: usize = 0;
    let mut srcs: Vec<String> = Vec::new();
    let mut evs: Vec<String> = Vec::new();
    let mut cnts: Vec<usize> = Vec::new();
    for k in 0..obs.len()
        invariant
            total == observed_count(obs@.take(k as int)),
            total <= k,
            usize_sum(cnts@) == total,
            srcs@.len() == evs@.len(),
            evs@.len() == cnts@.len(),
            forall|i: int| #![trigger cnts@[i]]
                0 <= i < cnts@.len() ==> cnts@[i] == key_count(obs@.take(k as int), (srcs@[i]@, evs@[i]@))
                    && 0 < cnts@[i] <= k,
            forall|i: int, j: int| 0 <= i < j < srcs@.len() ==> (#[trigger] srcs@[i]@, evs@[i]@) != (
                #[trigger] srcs@[j]@,
                evs@[j]@,
            ),
            forall|m: int| #![trigger obs@[m]]
                0 <= m < k && obs@[m] is Some ==> exists|i: int|
                    0 <= i < srcs@.len() && (#[trigger] srcs@[i]@, evs@[i]@) == observation_key(obs@[m]->0),
    {
        let ghost p = obs@.take(k as int);
        proof {
            assert(obs@.take(k + 1).drop_last() =~= p);
            assert(obs@.take(k + 1).last() == obs@[k as int]);
        }
        match &obs[k] {
            None => {
                proof {
                    assert forall|i: int| #![trigger cnts@[i]] 0 <= i < cnts@.len() implies cnts@[i] == key_count(
                        obs@.take(k + 1),
                        (srcs@[i]@, evs@[i]@),
                    ) && 0 < cnts@[i] <= k + 1 by {}
                }
            },
            Some(o) => {
                let s = field_or_unknown(&o.source);
                let e = field_or_unknown(&o.event_type);
                let ghost key = (s@, e@);
                assert(key == observation_key(*o));
                let mut found: usize = srcs.len();
                let mut j: usize = 0;
                while j < srcs.len()
                    invariant_except_break
                        found == srcs@.len(),
                    invariant
                        j <= srcs@.len(),
                        srcs@.len() == evs@.len(),
                        key == (s@, e@),
                        forall|i: int| 0 <= i < j ==> (#[trigger] srcs@[i]@, evs@[i]@) != key,
                    ensures
                        found <= srcs@.len(),
                        found < srcs@.len() ==> (srcs@[found as int]@, evs@[found as int]@) == key,
                        found == srcs@.len() ==> forall|i: int| 0 <= i < srcs@.len() ==> (#[trigger] srcs@[i]@, evs@[i]@) != key,
                    decreases srcs.len() - j,
                {
                    if crate::types::str_eq(srcs[j].as_str(), s.as_str()) && crate::types::str_eq(
                        evs[j].as_str(),
                        e.as_str(),
                    ) {
                        found = j;
                        break;
                    }
                    j = j + 1;
                }
                let ghost old_srcs = srcs@;
                let ghost old_evs = evs@;
                let ghost old_cnts = cnts@;
                if found < srcs.len() {
                    assert((srcs@[found as int]@, evs@[found as int]@) == key);
                    let c = cnts[found];
                    cnts.set(found, c + 1);
                    proof {
                        lemma_usize_sum_update(old_cnts, found as int, (c + 1) as usize);
                        assert forall|i: int| #![trigger cnts@[i]] 0 <= i < cnts@.len() implies cnts@[i] == key_count(
                            obs@.take(k + 1),
                            (srcs@[i]@, evs@[i]@),
                        ) && 0 < cnts@[i] <= k + 1 by {
                            assert(old_cnts[i] == key_count(p, (srcs@[i]@, evs@[i]@)));
                            if i != found {
                                assert((srcs@[i]@, evs@[i]@) != key) by {
                                    if i < found {
                                        assert((old_srcs[i]@, old_evs[i]@) != (old_srcs[found as int]@, old_evs[found as int]@));
                                    } else {
                                        assert((old_srcs[found as int]@, old_evs[found as int]@) != (old_srcs[i]@, old_evs[i]@));
                                    }
                                }
                            }
                        }
                        assert forall|m: int| #![trigger obs@[m]] 0 <= m < k + 1 && obs@[m] is Some implies exists|i: int|
                            0 <= i < srcs@.len() && (#[trigger] srcs@[i]@, evs@[i]@) == observation_key(obs@[m]->0) by {
                            if m == k {
                                assert((srcs@[found as int]@, evs@[found as int]@) == observation_key(obs@[m]->0));
                            }
                        }
                    }
                } else {
                    proof {
                        assert forall|m: int| 0 <= m < p.len() implies !(#[trigger] p[m] matches Some(o2) && observation_key(o2) == key) by {
                            assert(p[m] == obs@[m]);
                            if p[m] matches Some(o2) && observation_key(o2) == key {
                                let i = choose|i: int| 0 <= i < srcs@.len() && (#[trigger] srcs@[i]@, evs@[i]@) == observation_key(obs@[m]->0);
                                assert((srcs@[i]@, evs@[i]@) != key);
                            }
                        }
                        lemma_key_count_absent(p, key);
                    }
                    srcs.push(s);
                    evs.push(e);
                    cnts.push(1);
                    proof {
                        assert(cnts@.drop_last() =~= old_cnts);
                        let n = old_cnts.len() as int;
                        assert forall|i: int| #![trigger cnts@[i]] 0 <= i < cnts@.len() implies cnts@[i] == key_count(
                            obs@.take(k + 1),
                            (srcs@[i]@, evs@[i]@),
                        ) && 0 < cnts@[i] <= k + 1 by {
                            if i < n {
                                assert(srcs@[i] == old_srcs[i] && evs@[i] == old_evs[i] && cnts@[i] == old_cnts[i]);
                                assert((old_srcs[i]@, old_evs[i]@) != key);
                            }
                        }
                        assert forall|a: int, b: int| 0 <= a < b < srcs@.len() implies (#[trigger] srcs@[a]@, evs@[a]@) != (
                            #[trigger] srcs@[b]@,
                            evs@[b]@,
                        ) by {
                            if b == n {
                                assert(srcs@[a] == old_srcs[a] && evs@[a] == old_evs[a]);
                                assert((old_srcs[a]@, old_evs[a]@) != key);
                            } else {
                                assert(srcs@[a] == old_srcs[a] && evs@[a] == old_evs[a]);
                                assert(srcs@[b] == old_srcs[b] && evs@[b] == old_evs[b]);
                            }
                        }
                        assert forall|m: int| #![trigger obs@[m]] 0 <= m < k + 1 && obs@[m] is Some implies exists|i: int|
                            0 <= i < srcs@.len() && (#[trigger] srcs@[i]@, evs@[i]@) == observation_key(obs@[m]->0) by {
                            if m == k {
                                assert((srcs@[n]@, evs@[n]@) == observation_key(obs@[m]->0));
                            } else {
                                let i = choose|i: int| 0 <= i < old_srcs.len() && (#[trigger] old_srcs[i]@, old_evs[i]@) == observation_key(obs@[m]->0);
                                assert(srcs@[i] == old_srcs[i] && evs@[i] == old_evs[i]);
                            }
                        }
                    }
                }
                total = total + 1;
            },
        }
    }
    proof {
        assert(obs@.take(obs@.len() as int) =~= obs@);
    }
    let mut out: Vec<ObservationCount> = Vec::new();
    for i in 0..cnts.len()
        invariant
            srcs@.len() == evs@.len(),
            evs@.len() == cnts@.len(),
            out@.len() == i,
            counts_sum(out@) == usize_sum(cnts@.take(i as int)),
            forall|a: int| #![trigger out@[a]] 0 <= a < i ==> out@[a].source == srcs@[a] && out@[a].event_type
                == evs@[a] && out@[a].count == cnts@[a],
    {
        let ghost before = out@;
        out.push(ObservationCount { source: srcs[i].clone(), event_type: evs[i].clone(), count: cnts[i] });
        proof {
            assert(out@.drop_last() =~= before);
            assert(cnts@.take(i + 1).drop_last() =~= cnts@.take(i as int));
        }
    }
    proof {
        assert(cnts@.take(cnts@.len() as int) =~= cnts@);
    }
    let res = (total, out);
    proof {
        assert forall|a: int, b: int| 0 <= a < b < res.1@.len() implies (#[trigger] res.1@[a]).key() != (
            #[trigger] res.1@[b]).key() by {
            assert((srcs@[a]@, evs@[a]@) != (srcs@[b]@, evs@[b]@));
        }
        assert forall|m: int| #![trigger obs@[m]] 0 <= m < obs@.len() && obs@[m] is Some implies exists|i: int|
            0 <= i < res.1@.len() && (#[trigger] res.1@[i]).key() == observation_key(obs@[m]->0) by {
            let i = choose|i: int| 0 <= i < srcs@.len() && (#[trigger] srcs@[i]@, evs@[i]@) == observation_key(obs@[m]->0);
            assert(res.1@[i].key() == (srcs@[i]@, evs@[i]@));
        }
    }
    res
}

} // verus!
