use memory_mcp::bootstrap::{
    audit_is_partial, bootstrap_fetch_limit, bootstrap_limit, bootstrap_token_budget, content_prefix,
    estimate_tokens, is_active_task_candidate, memory_health_reason, mentions_recovery_detail,
    operator_signals, ready_project_count, select_bootstrap, stable_group, task_priority, AuditFacts,
    BootstrapMemory, ContentPrefix, OperatorSignal, SelectionBudget, StableGroup,
    tally_observations, Observation, ObservationCount,
};
use memory_mcp::types::IndexState;

fn memory(content: &str) -> BootstrapMemory {
    BootstrapMemory {
        content: content.to_string(),
        prompt_related: false,
        repeats_compact_summary: false,
    }
}

#[test]
fn content_prefix_skips_leading_whitespace_and_takes_first_tag() {
    assert_eq!(content_prefix("  TASK: do it"), Some(ContentPrefix::Task));
    assert_eq!(content_prefix("DECISION: use x"), Some(ContentPrefix::Decision));
    assert_eq!(content_prefix("\tEPIC: big"), Some(ContentPrefix::Epic));
    assert_eq!(content_prefix("task: lower"), None);
    assert_eq!(content_prefix("note"), None);
    assert_eq!(ContentPrefix::Research.text(), "RESEARCH:");
}

#[test]
fn stable_groups_follow_prefixes() {
    assert_eq!(stable_group(ContentPrefix::Decision), StableGroup::Decision);
    assert_eq!(stable_group(ContentPrefix::Context), StableGroup::Context);
    assert_eq!(stable_group(ContentPrefix::Task), StableGroup::Other);
    assert_eq!(StableGroup::Research.name(), "research");
}

#[test]
fn active_tasks_need_task_prefix_and_progress_marker() {
    assert!(is_active_task_candidate("TASK: WP01\nStatus: in_progress\nCurrent: T002"));
    assert!(is_active_task_candidate("TASK: list\n- [ ] open item"));
    assert!(is_active_task_candidate("TASK: WP01 IN_PROGRESS"));
    assert!(!is_active_task_candidate("TASK: WP01 done"));
    assert!(!is_active_task_candidate("DECISION: in_progress"));
}

#[test]
fn task_priority_adds_markers() {
    assert_eq!(task_priority("TASK: status: in_progress current: x [ ]"), 7);
    assert_eq!(task_priority("TASK: Current: T1"), 2);
    assert_eq!(task_priority("TASK: [ ]"), 1);
    assert_eq!(task_priority("TASK: nothing"), 0);
}

#[test]
fn recovery_detail_markers() {
    assert!(mentions_recovery_detail("Command: cargo test"));
    assert!(mentions_recovery_detail("see src/lib.rs"));
    assert!(mentions_recovery_detail("use `x`"));
    assert!(mentions_recovery_detail("BLOCKER found"));
    assert!(!mentions_recovery_detail("plain words only"));
}

#[test]
fn estimate_tokens_is_quarter_of_characters_at_least_one() {
    assert_eq!(estimate_tokens(""), 1);
    assert_eq!(estimate_tokens("abc"), 1);
    assert_eq!(estimate_tokens("abcdefgh"), 2);
    assert_eq!(estimate_tokens("ééééééééé"), 2);
}

#[test]
fn bootstrap_limits_are_clamped() {
    assert_eq!(bootstrap_token_budget(None), 4000);
    assert_eq!(bootstrap_token_budget(Some(10)), 256);
    assert_eq!(bootstrap_token_budget(Some(50_000)), 20_000);
    assert_eq!(bootstrap_limit(40), 25);
    assert_eq!(bootstrap_limit(5), 5);
    assert_eq!(bootstrap_fetch_limit(5), 200);
    assert_eq!(bootstrap_fetch_limit(25), 200);
}

#[test]
fn selection_budget_turns_away_by_limit_and_tokens() {
    let mut budget = SelectionBudget::new(2, 10);
    let chosen = budget.select(&vec![4, 8, 5, 1]);
    assert_eq!(chosen, vec![0, 2]);
    assert_eq!(budget.used_tokens, 9);
    assert_eq!(budget.truncated_by_token_budget, 1);
    assert_eq!(budget.truncated_by_limit, 1);
    assert!(budget.used_tokens <= budget.token_budget);
}

#[test]
fn bootstrap_selection_groups_memories() {
    let mut memories = vec![
        memory("TASK: WP01\nStatus: in_progress\nCurrent: T002"),
        memory("DECISION: Use explicit bootstrap contract"),
        memory("USER: prefers scoped server changes"),
        memory("RESEARCH: agentmemory suggests bootstrap"),
        memory("TASK: WP00 current: T1"),
    ];
    memories[2].prompt_related = true;
    let selection = select_bootstrap(&memories, 5, 2000);
    assert_eq!(selection.active_tasks, vec![0, 4]);
    assert_eq!(selection.stable_groups.len(), 6);
    assert_eq!(selection.stable_groups[0], vec![1]);
    assert_eq!(selection.stable_groups[1], vec![2]);
    assert_eq!(selection.stable_groups[2], vec![3]);
    assert!(selection.stable_groups[3].is_empty());
    assert_eq!(selection.recovery, vec![0, 2, 4]);
    assert_eq!(selection.returned_count, 8);
    assert!(!selection.is_partial);
}

#[test]
fn bootstrap_selection_reports_truncation() {
    let long = format!("DECISION: candidate {}", "word ".repeat(200));
    let memories: Vec<BootstrapMemory> = (0..4).map(|_| memory(&long)).collect();
    let selection = select_bootstrap(&memories, 1, 2000);
    assert_eq!(selection.stable_groups[0].len(), 1);
    assert_eq!(selection.truncated_by_limit, 3);
    assert_eq!(selection.truncated_by_token_budget, 0);
    assert!(selection.is_partial);

    let tight = select_bootstrap(&memories, 1, 256);
    assert!(tight.stable_groups[0].is_empty());
    assert_eq!(tight.truncated_by_token_budget, 4);
    assert!(tight.is_partial);
}

#[test]
fn compact_summary_repeats_are_not_recovered() {
    let mut m = memory("TASK: WP02\nStatus: in_progress\nPath: src/server/logic/bootstrap.rs");
    m.repeats_compact_summary = true;
    let selection = select_bootstrap(&vec![m], 5, 2000);
    assert!(selection.recovery.is_empty());
    assert_eq!(selection.active_tasks, vec![0]);
}

#[test]
fn audit_signals_and_partial_flag() {
    let facts = AuditFacts {
        has_superseded_by: true,
        invalidated: false,
        content_chars: 9000,
        has_content_hash: false,
    };
    assert_eq!(
        operator_signals(facts),
        vec![
            OperatorSignal::ReplacementLinkedWithoutInvalidation,
            OperatorSignal::LongMemoryTruncationRisk,
            OperatorSignal::MissingContentFingerprint,
        ]
    );
    let quiet = AuditFacts {
        has_superseded_by: true,
        invalidated: true,
        content_chars: 10,
        has_content_hash: true,
    };
    assert!(operator_signals(quiet).is_empty());
    assert_eq!(OperatorSignal::MissingContentFingerprint.name(), "missing_content_fingerprint");
    assert!(audit_is_partial(5, 3, 7));
    assert!(!audit_is_partial(5, 2, 7));
    assert_eq!(memory_health_reason(true), "ok");
    assert_eq!(memory_health_reason(false), "partial");
    assert_eq!(
        ready_project_count(&vec![IndexState::Completed, IndexState::Failed, IndexState::Completed]),
        2
    );
}

fn observation(source: Option<&str>, event_type: Option<&str>) -> Option<Observation> {
    Some(Observation {
        source: source.map(|s| s.to_string()),
        event_type: event_type.map(|s| s.to_string()),
    })
}

fn count(source: &str, event_type: &str, count: usize) -> ObservationCount {
    ObservationCount { source: source.to_string(), event_type: event_type.to_string(), count }
}

#[test]
fn observations_are_tallied_by_source_and_event_type() {
    let obs = vec![
        observation(Some("hook"), Some("edit")),
        None,
        observation(None, None),
        observation(Some("hook"), Some("edit")),
        observation(Some("hook"), None),
    ];
    let (total, counts) = tally_observations(&obs);
    assert_eq!(total, 4);
    assert_eq!(
        counts,
        vec![count("hook", "edit", 2), count("unknown", "unknown", 1), count("hook", "unknown", 1)]
    );
}

#[test]
fn no_observations_tally_to_nothing() {
    let (total, counts) = tally_observations(&vec![None, None]);
    assert_eq!(total, 0);
    assert!(counts.is_empty());
}
