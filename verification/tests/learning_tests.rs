use memory_mcp::learning::{
    classify_legacy_memory, decide_legacy_migration, decide_promotion, decide_supersede,
    decide_update, delete_removal, derive_lifecycle_state, find_already_migrated_match,
    kind_status_to_memory_type, legacy_scope, migration_limit, promotion_memory_type,
    scope_boost_applies, validate_promotion, CreatedFrom, LearningKind, LearningLifecycleState,
    LearningScope, LearningStatus, LegacyMemory, MatchConfidence, MemoryType, MigrateLegacyParams,
    MigratedLearning, MigratedLearningFields, MigrationCandidate, MigrationCounts,
    MigrationDecision, PromotionRefusal, ScopeLevel, SoftRemoval, SupersedeRefusal,
    learning_search_fetch_limit, parse_create_fields, promotion_refusal_message, promotion_target,
    search_scope_admits, status_allowed, supersede_refusal_message, update_refusal_message,
    merge_list_filter, merge_search_filter, search_reads_invalidated, SearchFilter,
    migration_action, migration_replaced_reason, MigrationAction,
};

fn migrate_params() -> MigrateLegacyParams {
    MigrateLegacyParams {
        prefix_allowlist: None,
        scope: Some("project".to_string()),
        project_id: Some("project-alpha".to_string()),
        dry_run: true,
        limit: None,
        include_invalidated: None,
        invalidate_source: None,
        extract_research_lessons: None,
    }
}

fn invalidated_lifecycle(reason: &str) -> LearningLifecycleState {
    derive_lifecycle_state(true, Some(reason), Some(LearningStatus::Candidate))
}

fn status_lifecycle(status: LearningStatus) -> LearningLifecycleState {
    derive_lifecycle_state(false, None, Some(status))
}

fn global_scope() -> LearningScope {
    LearningScope {
        level: ScopeLevel::Global,
        project_id: None,
        workspace: None,
        mode: None,
        user_id: None,
        agent_id: None,
        run_id: None,
        namespace: None,
    }
}

fn project_scope(project_id: &str) -> LearningScope {
    LearningScope {
        level: ScopeLevel::Project,
        project_id: Some(project_id.to_string()),
        workspace: None,
        mode: None,
        user_id: None,
        agent_id: None,
        run_id: None,
        namespace: None,
    }
}

// ─── promotion ladder ────────────────────────────────────────────────────────

#[test]
fn promote_candidate_to_confirmed_allowed() {
    assert!(validate_promotion(&LearningStatus::Candidate, &LearningStatus::Confirmed).is_ok());
}

#[test]
fn promote_candidate_to_rule_allowed() {
    assert!(validate_promotion(&LearningStatus::Candidate, &LearningStatus::Rule).is_ok());
}

#[test]
fn promote_confirmed_to_rule_allowed() {
    assert!(validate_promotion(&LearningStatus::Confirmed, &LearningStatus::Rule).is_ok());
}

#[test]
fn promote_confirmed_to_candidate_rejected() {
    assert!(validate_promotion(&LearningStatus::Confirmed, &LearningStatus::Candidate).is_err());
}

#[test]
fn promote_rule_to_confirmed_rejected() {
    assert!(validate_promotion(&LearningStatus::Rule, &LearningStatus::Confirmed).is_err());
}

#[test]
fn promote_rule_to_candidate_rejected() {
    assert!(validate_promotion(&LearningStatus::Rule, &LearningStatus::Candidate).is_err());
}

#[test]
fn promote_to_rule_requires_procedural_memory_type() {
    let new_memory_type = promotion_memory_type(&LearningStatus::Rule);
    assert_eq!(new_memory_type, Some(MemoryType::Procedural));
}

#[test]
fn promote_to_confirmed_does_not_change_memory_type() {
    let new_memory_type: Option<MemoryType> = promotion_memory_type(&LearningStatus::Confirmed);
    assert_eq!(new_memory_type, None);
}

#[test]
fn promotion_request_of_candidate_to_rule_makes_it_procedural() {
    let plan = decide_promotion("rule", LearningLifecycleState::Candidate, Some(LearningStatus::Candidate))
        .unwrap();
    assert_eq!(plan.target_status, LearningStatus::Rule);
    assert_eq!(plan.new_memory_type, Some(MemoryType::Procedural));
}

#[test]
fn promotion_request_refusals_name_their_cause() {
    assert_eq!(
        decide_promotion("bogus", LearningLifecycleState::Active, None).unwrap_err(),
        PromotionRefusal::UnknownTargetStatus
    );
    assert_eq!(
        decide_promotion("candidate", LearningLifecycleState::Active, None).unwrap_err(),
        PromotionRefusal::NotAPromotionTarget
    );
    assert_eq!(
        decide_promotion("rule", LearningLifecycleState::Archived, Some(LearningStatus::Confirmed))
            .unwrap_err(),
        PromotionRefusal::LifecycleLocked(LearningLifecycleState::Archived)
    );
    assert_eq!(
        decide_promotion("confirmed", LearningLifecycleState::Active, Some(LearningStatus::Rule))
            .unwrap_err(),
        PromotionRefusal::TransitionNotPermitted(LearningStatus::Rule, LearningStatus::Confirmed)
    );
}

#[test]
fn promotion_without_stored_status_starts_from_candidate() {
    let plan = decide_promotion("confirmed", LearningLifecycleState::Candidate, None).unwrap();
    assert_eq!(plan.target_status, LearningStatus::Confirmed);
    assert_eq!(plan.new_memory_type, None);
}

// ─── memory type ─────────────────────────────────────────────────────────────

#[test]
fn workflow_rule_kind_maps_to_procedural() {
    assert_eq!(
        kind_status_to_memory_type(&LearningKind::WorkflowRule, &LearningStatus::Candidate),
        MemoryType::Procedural
    );
}

#[test]
fn rule_status_maps_to_procedural_regardless_of_kind() {
    assert_eq!(
        kind_status_to_memory_type(&LearningKind::UserPreference, &LearningStatus::Rule),
        MemoryType::Procedural
    );
    assert_eq!(
        kind_status_to_memory_type(&LearningKind::ProjectLesson, &LearningStatus::Rule),
        MemoryType::Procedural
    );
}

#[test]
fn project_lesson_kind_maps_to_episodic() {
    assert_eq!(
        kind_status_to_memory_type(&LearningKind::ProjectLesson, &LearningStatus::Candidate),
        MemoryType::Episodic
    );
}

#[test]
fn user_preference_kind_maps_to_semantic() {
    assert_eq!(
        kind_status_to_memory_type(&LearningKind::UserPreference, &LearningStatus::Confirmed),
        MemoryType::Semantic
    );
}

#[test]
fn project_pattern_kind_maps_to_semantic() {
    assert_eq!(
        kind_status_to_memory_type(&LearningKind::ProjectPattern, &LearningStatus::Confirmed),
        MemoryType::Semantic
    );
}

#[test]
fn project_pitfall_kind_maps_to_semantic() {
    assert_eq!(
        kind_status_to_memory_type(&LearningKind::ProjectPitfall, &LearningStatus::Candidate),
        MemoryType::Semantic
    );
}

// ─── lifecycle ───────────────────────────────────────────────────────────────

#[test]
fn rejected_memory_has_rejected_lifecycle() {
    assert_eq!(invalidated_lifecycle("learning_rejected"), LearningLifecycleState::Rejected);
}

#[test]
fn archived_memory_has_archived_lifecycle() {
    assert_eq!(invalidated_lifecycle("learning_archived"), LearningLifecycleState::Archived);
}

#[test]
fn superseded_memory_has_superseded_lifecycle() {
    assert_eq!(invalidated_lifecycle("superseded"), LearningLifecycleState::Superseded);
}

#[test]
fn candidate_memory_has_candidate_lifecycle() {
    assert_eq!(status_lifecycle(LearningStatus::Candidate), LearningLifecycleState::Candidate);
}

#[test]
fn confirmed_memory_has_active_lifecycle() {
    assert_eq!(status_lifecycle(LearningStatus::Confirmed), LearningLifecycleState::Active);
}

#[test]
fn rule_memory_has_active_lifecycle() {
    assert_eq!(status_lifecycle(LearningStatus::Rule), LearningLifecycleState::Active);
}

#[test]
fn other_invalidation_reason_gives_invalidated_lifecycle() {
    assert_eq!(invalidated_lifecycle("migration_replaced"), LearningLifecycleState::Invalidated);
    assert_eq!(
        derive_lifecycle_state(true, None, Some(LearningStatus::Rule)),
        LearningLifecycleState::Invalidated
    );
    assert_eq!(derive_lifecycle_state(false, None, None), LearningLifecycleState::Unknown);
}

#[test]
fn terminal_states_are_rejected_archived_superseded() {
    for (reason, expected) in [
        ("learning_rejected", LearningLifecycleState::Rejected),
        ("learning_archived", LearningLifecycleState::Archived),
        ("superseded", LearningLifecycleState::Superseded),
    ] {
        let lifecycle = invalidated_lifecycle(reason);
        assert_eq!(lifecycle, expected, "reason={reason}");
        assert!(
            matches!(
                lifecycle,
                LearningLifecycleState::Rejected
                    | LearningLifecycleState::Archived
                    | LearningLifecycleState::Superseded
            ),
            "reason={reason} should be terminal"
        );
    }
}

#[test]
fn active_states_are_not_terminal() {
    for status in [LearningStatus::Candidate, LearningStatus::Confirmed, LearningStatus::Rule] {
        let lifecycle = status_lifecycle(status);
        assert!(
            !matches!(
                lifecycle,
                LearningLifecycleState::Rejected
                    | LearningLifecycleState::Archived
                    | LearningLifecycleState::Superseded
            ),
            "status={status:?} should not be terminal"
        );
    }
}

#[test]
fn soft_removals_write_terminal_reasons() {
    for removal in [SoftRemoval::Reject, SoftRemoval::Archive, SoftRemoval::Supersede] {
        let reason = removal.invalidation_reason();
        let lifecycle = derive_lifecycle_state(true, Some(reason.as_str()), Some(removal.status()));
        assert!(decide_update(lifecycle).is_err());
        assert_eq!(decide_supersede(true, lifecycle, true), Err(SupersedeRefusal::AlreadyTerminal(lifecycle)));
        assert!(decide_promotion("rule", lifecycle, Some(LearningStatus::Candidate)).is_err());
    }
    assert_eq!(SoftRemoval::Reject.invalidation_reason(), "learning_rejected");
    assert_eq!(SoftRemoval::Archive.status(), LearningStatus::Archived);
}

#[test]
fn learning_delete_shim_modes() {
    assert_eq!(delete_removal(None), SoftRemoval::Archive);
    assert_eq!(delete_removal(Some("soft_reject")), SoftRemoval::Reject);
    assert_eq!(delete_removal(Some("anything")), SoftRemoval::Archive);
}

#[test]
fn update_and_supersede_decisions() {
    assert_eq!(decide_update(LearningLifecycleState::Active), Ok(()));
    assert_eq!(
        decide_update(LearningLifecycleState::Invalidated),
        Err(LearningLifecycleState::Invalidated)
    );
    assert_eq!(
        decide_supersede(false, LearningLifecycleState::Active, true),
        Err(SupersedeRefusal::MissingLearningMetadata)
    );
    assert_eq!(
        decide_supersede(true, LearningLifecycleState::Active, false),
        Err(SupersedeRefusal::ReplacementNotFound)
    );
    assert_eq!(decide_supersede(true, LearningLifecycleState::Candidate, true), Ok(()));
}

// ─── scope matching ──────────────────────────────────────────────────────────

#[test]
fn exact_scope_match_applies_boost() {
    assert!(scope_boost_applies(&global_scope(), Some("global"), None));
    assert!(!scope_boost_applies(&global_scope(), Some("project"), None));
    assert!(!scope_boost_applies(&global_scope(), None, None));
}

#[test]
fn project_scope_match_needs_same_project_id() {
    let scope = project_scope("my-project");
    assert!(scope_boost_applies(&scope, Some("project"), Some("my-project")));
    assert!(!scope_boost_applies(&scope, Some("project"), Some("other-project")));
}

// ─── legacy migration ────────────────────────────────────────────────────────

#[test]
fn migrate_classifies_user_preference_prefix_as_confirmed() {
    let m = LegacyMemory::new("USER — Preference: Prefer concise replies".to_string());
    let result = classify_legacy_memory(&m, &migrate_params());
    assert_eq!(result.outcome, "eligible");
    assert_eq!(result.kind, Some(LearningKind::UserPreference));
    assert_eq!(result.status, Some(LearningStatus::Confirmed));
}

#[test]
fn migrate_marks_plain_user_prefix_ambiguous_without_metadata_hint() {
    let m = LegacyMemory::new("USER: Likes fast answers".to_string());
    let result = classify_legacy_memory(&m, &migrate_params());
    assert_eq!(result.outcome, "ambiguous");
}

#[test]
fn migrate_classifies_plain_user_prefix_with_preference_metadata() {
    let mut m = LegacyMemory::new("USER: Likes fast answers".to_string());
    m.metadata_json = Some("{\"legacy_kind\":\"preference\"}".to_string());
    let result = classify_legacy_memory(&m, &migrate_params());
    assert_eq!(result.outcome, "eligible");
    assert_eq!(result.kind, Some(LearningKind::UserPreference));
    assert_eq!(result.status, Some(LearningStatus::Confirmed));
}

#[test]
fn migrate_classifies_plain_user_prefix_with_rule_metadata_as_workflow_rule() {
    let mut m = LegacyMemory::new("USER: Always run the tests".to_string());
    m.metadata_json = Some("{\"legacy_kind\":\"Workflow Rule\"}".to_string());
    let result = classify_legacy_memory(&m, &migrate_params());
    assert_eq!(result.outcome, "eligible");
    assert_eq!(result.kind, Some(LearningKind::WorkflowRule));
    assert_eq!(result.status, Some(LearningStatus::Rule));
}

#[test]
fn migrate_classifies_context_as_project_pattern_only_with_project_scope() {
    let m = LegacyMemory::new("CONTEXT: Rust modules keep logic in src/server/logic".to_string());
    let result = classify_legacy_memory(&m, &migrate_params());
    assert_eq!(result.outcome, "eligible");
    assert_eq!(result.kind, Some(LearningKind::ProjectPattern));
    assert_eq!(result.status, Some(LearningStatus::Candidate));
    assert_eq!(result.scope.unwrap().level, ScopeLevel::Project);

    let mut global_params = migrate_params();
    global_params.scope = Some("global".to_string());
    global_params.project_id = None;
    let result = classify_legacy_memory(&m, &global_params);
    assert_eq!(result.outcome, "ambiguous");
}

#[test]
fn migrate_research_requires_explicit_lesson_extraction() {
    let m = LegacyMemory::new("RESEARCH: The cache warmed fastest with small batches".to_string());
    let result = classify_legacy_memory(&m, &migrate_params());
    assert_eq!(result.outcome, "ambiguous");

    let mut params = migrate_params();
    params.extract_research_lessons = Some(true);
    let result = classify_legacy_memory(&m, &params);
    assert_eq!(result.outcome, "eligible");
    assert_eq!(result.kind, Some(LearningKind::ProjectLesson));
    assert_eq!(result.status, Some(LearningStatus::Candidate));
}

#[test]
fn migrate_excludes_task_and_epic_by_default() {
    let task = LegacyMemory::new("TASK: WP01 in progress".to_string());
    let epic = LegacyMemory::new("EPIC: Learning memory".to_string());
    assert_eq!(classify_legacy_memory(&task, &migrate_params()).outcome, "skipped");
    assert_eq!(classify_legacy_memory(&epic, &migrate_params()).outcome, "skipped");
}

#[test]
fn migrate_marks_existing_learning_schema_as_already_migrated() {
    let mut m = LegacyMemory::new("test content".to_string());
    m.learning_schema_version = Some(1);
    let result = classify_legacy_memory(&m, &migrate_params());
    assert_eq!(result.outcome, "already_migrated");
}

#[test]
fn migrate_respects_prefix_allowlist_and_invalid_scope() {
    let m = LegacyMemory::new("  USER — Preference: tabs".to_string());
    let mut params = migrate_params();
    params.prefix_allowlist = Some(vec!["CONTEXT:".to_string()]);
    assert_eq!(classify_legacy_memory(&m, &params).outcome, "skipped");

    let mut params = migrate_params();
    params.scope = Some("galaxy".to_string());
    let result = classify_legacy_memory(&m, &params);
    assert_eq!(result.outcome, "skipped");
    assert_eq!(result.reason, "invalid target scope");
    assert_eq!(legacy_scope(&params).unwrap_err(), "Invalid scope: 'galaxy'");

    // Leading whitespace does not hide the prefix.
    assert_eq!(classify_legacy_memory(&m, &migrate_params()).outcome, "eligible");
}

#[test]
fn legacy_scope_defaults_to_project_or_global() {
    let mut params = migrate_params();
    params.scope = None;
    assert_eq!(legacy_scope(&params).unwrap().level, ScopeLevel::Project);
    params.project_id = None;
    assert_eq!(legacy_scope(&params).unwrap(), global_scope());
}

#[test]
fn migration_limit_defaults_and_caps() {
    assert_eq!(migration_limit(None), 50);
    assert_eq!(migration_limit(Some(7)), 7);
    assert_eq!(migration_limit(Some(500)), 100);
}

fn migrated(id: &str, from: CreatedFrom, sources: &[&str], hash: &str) -> MigratedLearning {
    MigratedLearning {
        memory_id: Some(id.to_string()),
        content_hash: Some(hash.to_string()),
        learning: Some(MigratedLearningFields {
            created_from: from,
            source_memory_ids: sources.iter().map(|s| s.to_string()).collect(),
            kind: LearningKind::UserPreference,
            scope: project_scope("project-alpha"),
        }),
    }
}

#[test]
fn already_migrated_match_prefers_the_first_matching_record() {
    let legacy = LegacyMemory::new("USER — Preference: Prefer concise replies".to_string());
    let classification = classify_legacy_memory(&legacy, &migrate_params());
    let existing = vec![
        MigratedLearning { memory_id: None, content_hash: None, learning: None },
        migrated("secondary-hit", CreatedFrom::Manual, &[], "h1"),
        migrated("primary-hit", CreatedFrom::Migration, &["legacy-1"], "other"),
    ];
    let found = find_already_migrated_match("legacy-1", "h1", &classification, &existing).unwrap();
    assert_eq!(found.confidence, MatchConfidence::Secondary);
    assert_eq!(found.matched_memory_id, "secondary-hit");
    assert_eq!(found.confidence.name(), "secondary");

    let found = find_already_migrated_match("legacy-1", "h2", &classification, &existing).unwrap();
    assert_eq!(found.confidence, MatchConfidence::Primary);
    assert_eq!(found.matched_memory_id, "primary-hit");

    assert!(find_already_migrated_match("legacy-2", "h2", &classification, &existing).is_none());
}

#[test]
fn migration_decisions_and_counts() {
    let existing = vec![migrated("done", CreatedFrom::Migration, &["legacy-done"], "x")];
    let candidate = |id: Option<&str>, invalidated: bool, content: &str| MigrationCandidate {
        id: id.map(|s| s.to_string()),
        invalidated,
        content_hash: "hash".to_string(),
        memory: LegacyMemory::new(content.to_string()),
    };
    let params = migrate_params();
    let cases = [
        candidate(None, false, "USER — Preference: a"),
        candidate(Some("inv"), true, "USER — Preference: a"),
        candidate(Some("amb"), false, "USER: a"),
        candidate(Some("task"), false, "TASK: a"),
        candidate(Some("legacy-done"), false, "USER — Preference: a"),
        candidate(Some("new"), false, "USER — Preference: a"),
    ];
    let mut counts = MigrationCounts::new();
    let mut decisions = Vec::new();
    for c in &cases {
        let step = decide_legacy_migration(c, &params, &existing);
        counts.record(&step.decision);
        decisions.push(step.decision);
    }
    assert!(matches!(decisions[0], MigrationDecision::MissingId));
    assert!(matches!(decisions[1], MigrationDecision::InvalidatedSkipped));
    assert!(matches!(decisions[2], MigrationDecision::Ambiguous));
    assert!(matches!(decisions[3], MigrationDecision::Skipped));
    match &decisions[4] {
        MigrationDecision::Matched(m) => {
            assert_eq!(m.confidence, MatchConfidence::Primary);
            assert_eq!(m.matched_memory_id, "done");
        }
        other => panic!("unexpected decision {other:?}"),
    }
    assert!(matches!(decisions[5], MigrationDecision::Eligible));
    counts.record_created();
    assert_eq!(
        counts,
        MigrationCounts {
            scanned: 6,
            eligible: 1,
            created: 1,
            skipped: 2,
            ambiguous: 1,
            already_migrated: 1,
            invalidated_skipped: 1,
        }
    );

    let mut with_invalidated = migrate_params();
    with_invalidated.include_invalidated = Some(true);
    let step = decide_legacy_migration(&cases[1], &with_invalidated, &existing);
    assert!(matches!(step.decision, MigrationDecision::Eligible));
    assert_eq!(step.classification.unwrap().reason, "USER — Preference prefix");
}

#[test]
fn create_fields_default_when_names_are_absent() {
    let f = parse_create_fields("project_pattern", None, None, None).unwrap();
    assert_eq!(f.kind, LearningKind::ProjectPattern);
    assert_eq!(f.status, LearningStatus::Candidate);
    assert_eq!(f.level, ScopeLevel::Global);
    assert_eq!(f.created_from, CreatedFrom::Manual);
}

#[test]
fn create_fields_parse_given_names() {
    let f = parse_create_fields("workflow_rule", Some("rule"), Some("project"), Some("migration")).unwrap();
    assert_eq!(f.kind, LearningKind::WorkflowRule);
    assert_eq!(f.status, LearningStatus::Rule);
    assert_eq!(f.level, ScopeLevel::Project);
    assert_eq!(f.created_from, CreatedFrom::Migration);
}

#[test]
fn create_fields_refusals_quote_the_name_in_order() {
    assert_eq!(
        parse_create_fields("nope", Some("bad"), None, None).unwrap_err(),
        "Invalid kind: 'nope'"
    );
    assert_eq!(
        parse_create_fields("project_lesson", Some("bad"), Some("bad2"), None).unwrap_err(),
        "Invalid status: 'bad'"
    );
    assert_eq!(
        parse_create_fields("project_lesson", None, Some("planet"), None).unwrap_err(),
        "Invalid scope: 'planet'"
    );
    assert_eq!(
        parse_create_fields("project_lesson", None, None, Some("import")).unwrap_err(),
        "Invalid source: 'import'"
    );
}

#[test]
fn status_filter_allows_and_denies() {
    let allowed = vec![LearningStatus::Confirmed, LearningStatus::Rule];
    let denied = vec![LearningStatus::Rule];
    assert!(status_allowed(Some(LearningStatus::Confirmed), Some(&allowed), None));
    assert!(!status_allowed(Some(LearningStatus::Candidate), Some(&allowed), None));
    assert!(!status_allowed(Some(LearningStatus::Rule), Some(&allowed), Some(&denied)));
    assert!(status_allowed(Some(LearningStatus::Candidate), Some(&Vec::new()), None));
    assert!(status_allowed(Some(LearningStatus::Candidate), None, None));
    assert!(!status_allowed(None, None, None));
}

#[test]
fn search_scope_admits_global_fallback_and_matching_scope() {
    assert!(search_scope_admits(ScopeLevel::Global, false, Some("project")));
    assert!(search_scope_admits(ScopeLevel::Project, true, Some("user")));
    assert!(search_scope_admits(ScopeLevel::Project, false, Some("project")));
    assert!(!search_scope_admits(ScopeLevel::Project, false, Some("user")));
    assert!(!search_scope_admits(ScopeLevel::Project, false, Some("galaxy")));
    assert!(search_scope_admits(ScopeLevel::Project, false, None));
}

#[test]
fn learning_search_fetches_four_per_result_at_least_fifty() {
    assert_eq!(learning_search_fetch_limit(5), 50);
    assert_eq!(learning_search_fetch_limit(13), 52);
    assert_eq!(learning_search_fetch_limit(0), 50);
}

#[test]
fn promotion_target_accepts_confirmed_and_rule_only() {
    assert_eq!(promotion_target("confirmed"), Ok(LearningStatus::Confirmed));
    assert_eq!(promotion_target("rule"), Ok(LearningStatus::Rule));
    assert_eq!(promotion_target("archived"), Err(PromotionRefusal::NotAPromotionTarget));
    assert_eq!(promotion_target("gold"), Err(PromotionRefusal::UnknownTargetStatus));
}

#[test]
fn refusal_messages_match_the_wording() {
    assert_eq!(
        promotion_refusal_message(PromotionRefusal::UnknownTargetStatus, "gold"),
        "Invalid target_status: 'gold'. Must be 'confirmed' or 'rule'"
    );
    assert_eq!(
        promotion_refusal_message(PromotionRefusal::NotAPromotionTarget, "archived"),
        "Invalid promotion target 'archived': only 'confirmed' and 'rule' are valid"
    );
    assert_eq!(
        promotion_refusal_message(
            PromotionRefusal::LifecycleLocked(LearningLifecycleState::Rejected),
            "rule"
        ),
        "Cannot promote record in lifecycle state Rejected"
    );
    assert_eq!(
        promotion_refusal_message(
            PromotionRefusal::TransitionNotPermitted(LearningStatus::Rule, LearningStatus::Confirmed),
            "confirmed"
        ),
        "Invalid promotion: Rule → Confirmed is not permitted"
    );
    assert_eq!(
        update_refusal_message(LearningLifecycleState::Archived),
        "Cannot update record in lifecycle state Archived"
    );
    assert_eq!(
        supersede_refusal_message(SupersedeRefusal::MissingLearningMetadata, "m1", "m2"),
        "Memory 'm1' does not have valid learning metadata"
    );
    assert_eq!(
        supersede_refusal_message(
            SupersedeRefusal::AlreadyTerminal(LearningLifecycleState::Superseded),
            "m1",
            "m2"
        ),
        "Record 'm1' is already in a terminal state (Superseded) and cannot be superseded"
    );
    assert_eq!(
        supersede_refusal_message(SupersedeRefusal::ReplacementNotFound, "m1", "m2"),
        "Replacement record not found: m2"
    );
}

fn filter(
    allowed: Option<Vec<LearningStatus>>,
    denied: Option<Vec<LearningStatus>>,
    include_invalidated: bool,
    audit: bool,
    include_global: bool,
) -> SearchFilter {
    SearchFilter { allowed, denied, include_invalidated, audit, include_global }
}

#[test]
fn caller_filter_replaces_given_lists_and_keeps_defaults() {
    let default = filter(
        Some(vec![LearningStatus::Confirmed, LearningStatus::Rule]),
        Some(vec![LearningStatus::Rejected]),
        false,
        false,
        true,
    );
    let caller = filter(Some(vec![LearningStatus::Candidate]), None, false, false, false);
    let merged = merge_search_filter(&default, &caller);
    assert_eq!(merged.allowed, Some(vec![LearningStatus::Candidate]));
    assert_eq!(merged.denied, Some(vec![LearningStatus::Rejected]));
    assert!(!merged.include_invalidated);
    assert!(!merged.audit);
    assert!(!merged.include_global);
    assert!(!search_reads_invalidated(&merged));
}

#[test]
fn audit_filter_drops_status_lists_and_reads_invalidated() {
    let default = filter(Some(vec![LearningStatus::Rule]), Some(vec![LearningStatus::Rejected]), false, false, true);
    let caller = filter(Some(vec![LearningStatus::Candidate]), None, false, true, true);
    let merged = merge_search_filter(&default, &caller);
    assert_eq!(merged.allowed, None);
    assert_eq!(merged.denied, None);
    assert!(merged.audit);
    assert!(search_reads_invalidated(&merged));
    let caller = filter(None, None, true, false, true);
    let merged = merge_search_filter(&default, &caller);
    assert!(merged.include_invalidated);
    assert!(search_reads_invalidated(&merged));
    assert_eq!(merged.allowed, Some(vec![LearningStatus::Rule]));
}

#[test]
fn list_filter_keeps_status_lists_in_audit_mode() {
    let default = filter(Some(vec![LearningStatus::Rule]), None, false, false, true);
    let caller = filter(None, Some(vec![LearningStatus::Archived]), false, true, false);
    let merged = merge_list_filter(&default, &caller);
    assert_eq!(merged.allowed, Some(vec![LearningStatus::Rule]));
    assert_eq!(merged.denied, Some(vec![LearningStatus::Archived]));
    assert!(merged.audit);
    assert!(!merged.include_global);
}

#[test]
fn learning_reject_sets_rejected_lifecycle() {
    let removal = SoftRemoval::Reject;
    assert_eq!(removal.invalidation_reason(), "learning_rejected");
    assert_eq!(invalidated_lifecycle("learning_rejected"), LearningLifecycleState::Rejected);
}

#[test]
fn learning_archive_sets_archived_lifecycle() {
    let removal = SoftRemoval::Archive;
    assert_eq!(removal.invalidation_reason(), "learning_archived");
    assert_eq!(invalidated_lifecycle("learning_archived"), LearningLifecycleState::Archived);
}

#[test]
fn learning_delete_shim_defaults_to_archive_behavior() {
    let removal = delete_removal(None);
    assert_eq!(removal, SoftRemoval::Archive);
    assert_eq!(
        invalidated_lifecycle(&removal.invalidation_reason()),
        LearningLifecycleState::Archived
    );
}

#[test]
fn learning_delete_shim_soft_reject_mode() {
    let removal = delete_removal(Some("soft_reject"));
    assert_eq!(removal, SoftRemoval::Reject);
    assert_eq!(
        invalidated_lifecycle(&removal.invalidation_reason()),
        LearningLifecycleState::Rejected
    );
}

#[test]
fn audit_filter_retrieves_rejected_via_invalidation_reason() {
    assert_eq!(invalidated_lifecycle("learning_rejected"), LearningLifecycleState::Rejected);
}

#[test]
fn audit_filter_retrieves_archived_via_invalidation_reason() {
    assert_eq!(invalidated_lifecycle("learning_archived"), LearningLifecycleState::Archived);
}

#[test]
fn superseded_memory_has_superseded_lifecycle_via_invalidation_reason() {
    assert_eq!(invalidated_lifecycle("superseded"), LearningLifecycleState::Superseded);
}

#[test]
fn migration_actions_follow_dry_run_and_invalidate_source() {
    let mut params = migrate_params();
    assert_eq!(
        migration_action(&MigrationDecision::Eligible, &params),
        MigrationAction::Preview { would_invalidate_source: false }
    );
    params.dry_run = false;
    assert_eq!(
        migration_action(&MigrationDecision::Eligible, &params),
        MigrationAction::Create { invalidate_source: false }
    );
    params.invalidate_source = Some(true);
    assert_eq!(
        migration_action(&MigrationDecision::Eligible, &params),
        MigrationAction::Create { invalidate_source: true }
    );
    assert_eq!(migration_action(&MigrationDecision::Ambiguous, &params), MigrationAction::Report);
    assert_eq!(migration_action(&MigrationDecision::MissingId, &params), MigrationAction::Report);
    assert_eq!(migration_replaced_reason(), "migration_replaced");
}
