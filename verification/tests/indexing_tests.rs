use memory_mcp::contracts::ContractReasonCode;
use memory_mcp::indexing::{
    aggregate_project_health, checkpoint_resume_token, cleanable_jobs, decide_cancel,
    decide_index_admission, embedding_status, failed_run_outcome, first_degraded_project,
    index_job_phase_str, index_job_reason_code_str, index_job_state_str, index_job_view,
    index_status_message, index_status_summary_plan, lost_one_shot_after_restart, lost_task_phase,
    lost_task_summary_plan, merge_monitor_progress, monitor_task_phase, next_structural_generation,
    one_shot_task_phase, orphaned_embedding_status, overall_complete, parsing_status,
    progress_text, project_list_message, project_state_diagnostic, project_stats_message,
    projection_locator, resumable_job_fields, resume_without_job_refused, root_diagnostic,
    status_from_orphaned_rows, CancelDecision, DiagnosticState, FileCheckpoint, IndexJobPhase,
    IndexJobReasonCode, IndexJobState, IndexRefusal, PhaseStatus, ProjectHealth,
};
use memory_mcp::types::{IndexState, IndexStatus, SemanticState, StructuralState};

#[test]
fn job_vocabulary_names() {
    assert_eq!(index_job_phase_str(&IndexJobPhase::EmbedEnqueue), "embed_enqueue");
    assert_eq!(index_job_state_str(&IndexJobState::CancelRequested), "cancel_requested");
    assert_eq!(
        index_job_reason_code_str(&IndexJobReasonCode::LostOneShotIndexingTaskAfterRestart),
        "lost_one_shot_indexing_task_after_restart"
    );
}

#[test]
fn resume_tokens_name_phase_and_files() {
    assert_eq!(checkpoint_resume_token(&IndexJobPhase::Discover, 0), "ckpt_v1_phase_discover_file_0");
    assert_eq!(checkpoint_resume_token(&IndexJobPhase::Parse, 1234), "ckpt_v1_phase_parse_file_1234");
}

#[test]
fn checkpoints_decide_resumability() {
    let cps = vec![
        FileCheckpoint { completed: true, phase: IndexJobPhase::Parse },
        FileCheckpoint { completed: false, phase: IndexJobPhase::Chunk },
        FileCheckpoint { completed: true, phase: IndexJobPhase::Symbols },
    ];
    let r = resumable_job_fields(Some(&cps), Some(10));
    assert!(r.can_resume);
    assert_eq!(r.files_done, Some(2));
    assert_eq!(r.files_total, Some(10));
    assert_eq!(r.phase, Some(IndexJobPhase::Symbols));
    assert_eq!(r.token.as_deref(), Some("ckpt_v1_phase_symbols_file_2"));

    let none = resumable_job_fields(Some(&vec![]), None);
    assert!(!none.can_resume);
    assert_eq!(none.files_done, Some(0));
    let unreadable = resumable_job_fields(None, Some(3));
    assert_eq!(unreadable.files_done, None);
    assert_eq!(unreadable.files_total, Some(3));
}

#[test]
fn job_view_prefers_resume() {
    let cps = vec![FileCheckpoint { completed: true, phase: IndexJobPhase::Parse }];
    let resume = resumable_job_fields(Some(&cps), None);
    let v = index_job_view(IndexJobState::Failed, Some(IndexJobReasonCode::Unknown), None, IndexJobPhase::Embed, &resume);
    assert!(v.can_resume);
    assert_eq!(v.state, IndexJobState::Resumable);
    assert_eq!(v.reason_code, Some(IndexJobReasonCode::ResumableInterruptedJob));
    assert!(!v.requires_force);
    assert_eq!(v.phase, IndexJobPhase::Parse);

    let blocked = resumable_job_fields(Some(&vec![]), None);
    let v = index_job_view(IndexJobState::Failed, None, Some(IndexJobReasonCode::StorageError), IndexJobPhase::Embed, &blocked);
    assert!(!v.can_resume);
    assert!(v.requires_force && v.requires_confirmation && v.restart_fallback);
    assert_eq!(v.reason_code, Some(IndexJobReasonCode::StorageError));
    assert_eq!(v.resume_token, None);
    assert_eq!(v.phase, IndexJobPhase::Embed);

    let running = index_job_view(IndexJobState::Running, None, None, IndexJobPhase::Discover, &resume);
    assert!(!running.can_resume);
    assert_eq!(running.state, IndexJobState::Running);
}

#[test]
fn failed_index_needs_force_and_confirmation() {
    assert_eq!(
        decide_index_admission(false, false, false, false, Some(IndexState::Failed), false),
        Err(IndexRefusal::FailedRestartNeedsConfirmation)
    );
    assert_eq!(
        decide_index_admission(true, false, false, false, Some(IndexState::Failed), false),
        Err(IndexRefusal::FailedRestartNeedsConfirmation)
    );
    assert_eq!(decide_index_admission(true, true, false, false, Some(IndexState::Failed), false), Ok(()));
}

#[test]
fn admission_rules() {
    assert_eq!(
        decide_index_admission(false, false, false, true, None, false),
        Err(IndexRefusal::ActiveJobRunning)
    );
    assert_eq!(decide_index_admission(false, false, true, true, None, false), Ok(()));
    assert_eq!(
        decide_index_admission(false, false, false, false, Some(IndexState::Completed), false),
        Err(IndexRefusal::AlreadyIndexed)
    );
    assert_eq!(decide_index_admission(true, false, false, false, Some(IndexState::Completed), false), Ok(()));
    assert_eq!(
        decide_index_admission(true, false, false, false, Some(IndexState::Indexing), true),
        Err(IndexRefusal::LostTaskNeedsConfirmation)
    );
    assert_eq!(decide_index_admission(false, false, false, false, Some(IndexState::Indexing), false), Ok(()));
}

#[test]
fn generations_and_failures() {
    assert_eq!(next_structural_generation(Some(7), Some(2)), 7);
    assert_eq!(next_structural_generation(None, Some(2)), 3);
    assert_eq!(next_structural_generation(None, Some(u64::MAX)), u64::MAX);
    assert_eq!(next_structural_generation(None, None), 1);
    let resumable = failed_run_outcome(3);
    assert_eq!(resumable.state, IndexJobState::Resumable);
    assert_eq!(resumable.reason_code, IndexJobReasonCode::ResumableInterruptedJob);
    assert_eq!(resumable.resume_token.as_deref(), Some("ckpt_v1_phase_parse_file_3"));
    let failed = failed_run_outcome(0);
    assert_eq!(failed.state, IndexJobState::Failed);
    assert_eq!(failed.reason_code, IndexJobReasonCode::Unknown);
    assert!(resume_without_job_refused(None));
    assert!(!resume_without_job_refused(Some(true)));
}

#[test]
fn lost_one_shot_detection() {
    let lost = |set: Option<bool>| {
        lost_one_shot_after_restart(
            IndexState::Indexing,
            0,
            Some("unknown_after_restart"),
            false,
            Some("local_tokio_task"),
            false,
            set,
        )
    };
    assert!(lost(Some(false)));
    assert!(!lost(Some(true)));
    assert!(!lost(None));
    assert!(!lost_one_shot_after_restart(IndexState::Indexing, 2, Some("unknown_after_restart"), false, Some("local_tokio_task"), false, Some(false)));
    assert!(!lost_one_shot_after_restart(IndexState::Completed, 0, Some("unknown_after_restart"), false, Some("local_tokio_task"), false, Some(false)));
    assert!(!lost_one_shot_after_restart(IndexState::Indexing, 0, Some("queued"), false, Some("local_tokio_task"), false, Some(false)));
}

#[test]
fn task_phases() {
    assert_eq!(monitor_task_phase("running"), "task_spawned");
    assert_eq!(monitor_task_phase("idle"), "accepted");
    assert_eq!(monitor_task_phase("queued"), "queued");
    assert_eq!(monitor_task_phase("failed"), "failed");
    assert_eq!(one_shot_task_phase("already_running"), "task_spawned");
    assert_eq!(one_shot_task_phase("queued"), "accepted");
    assert_eq!(lost_task_phase(0, 0), "before_file_enumeration");
    assert_eq!(lost_task_phase(3, 0), "lost_task_after_restart");
}

#[test]
fn cancel_and_cleanup() {
    assert_eq!(decide_cancel(None), CancelDecision::NotFound);
    assert_eq!(decide_cancel(Some(IndexJobState::Failed)), CancelDecision::AlreadyTerminal(IndexJobState::Failed));
    assert_eq!(decide_cancel(Some(IndexJobState::Running)), CancelDecision::CancelRequested);
    assert_eq!(
        cleanable_jobs(&vec![
            IndexJobState::Running,
            IndexJobState::Abandoned,
            IndexJobState::Completed,
            IndexJobState::Cancelled,
            IndexJobState::Failed,
        ]),
        vec![1, 3, 4]
    );
}

#[test]
fn diagnostics() {
    let d = project_state_diagnostic(IndexState::Completed, false);
    assert_eq!(d.state, DiagnosticState::Ready);
    assert_eq!(d.message, "Code intelligence is ready for this project.");
    assert_eq!(project_state_diagnostic(IndexState::Completed, true).state, DiagnosticState::Degraded);
    assert_eq!(project_state_diagnostic(IndexState::EmbeddingPending, false).state, DiagnosticState::Indexing);

    let missing = root_diagnostic(Some("/nope"), false, "/project", true);
    assert_eq!(missing.state, DiagnosticState::MissingRoot);
    assert_eq!(
        missing.message,
        "Configured project root is missing: /nope. Set PROJECT_PATH to an existing server-visible path."
    );
    let disabled = root_diagnostic(None, false, "/project", false);
    assert_eq!(disabled.state, DiagnosticState::Disabled);
    assert_eq!(root_diagnostic(None, false, "/project", true).state, DiagnosticState::Selected);
}

#[test]
fn project_listing_health() {
    let h = |status: Option<IndexState>, has_rows: bool| ProjectHealth { status, has_rows };
    assert_eq!(
        aggregate_project_health(&vec![h(Some(IndexState::Completed), true), h(Some(IndexState::Indexing), true)]),
        Some(DiagnosticState::Indexing)
    );
    assert_eq!(
        aggregate_project_health(&vec![h(Some(IndexState::Completed), true), h(None, true)]),
        Some(DiagnosticState::Degraded)
    );
    assert_eq!(aggregate_project_health(&vec![h(Some(IndexState::Completed), false)]), Some(DiagnosticState::Ready));
    assert_eq!(aggregate_project_health(&vec![h(None, false)]), None);
    assert_eq!(project_list_message(h(Some(IndexState::Completed), true)), None);
    assert_eq!(
        project_list_message(h(Some(IndexState::EmbeddingPending), true)).as_deref(),
        Some("Project indexing is still in progress.")
    );
    assert_eq!(first_degraded_project(&vec![Some(IndexState::Completed), None, Some(IndexState::EmbeddingPending)]), Some(2));
    assert_eq!(first_degraded_project(&vec![Some(IndexState::Failed)]), None);
}

#[test]
fn monitor_progress_merges_only_while_indexing() {
    let mut s = IndexStatus::new("p".to_string());
    s.indexed_files = 4;
    s.total_files = 10;
    merge_monitor_progress(&mut s, 6, 0);
    assert_eq!((s.indexed_files, s.total_files), (6, 10));
    merge_monitor_progress(&mut s, 2, 12);
    assert_eq!((s.indexed_files, s.total_files), (6, 12));
    s.status = IndexState::Completed;
    merge_monitor_progress(&mut s, 100, 100);
    assert_eq!((s.indexed_files, s.total_files), (6, 12));
}

#[test]
fn phase_statuses() {
    assert_eq!(progress_text(3, 10), "3/10");
    assert_eq!(parsing_status(false, 10, 10), PhaseStatus::Completed);
    assert_eq!(parsing_status(false, 3, 10), PhaseStatus::InProgress);
    assert_eq!(parsing_status(true, 10, 10), PhaseStatus::Failed);
    assert_eq!(embedding_status(false, IndexState::Indexing, 10, 10, 5, 5), PhaseStatus::Completed);
    assert_eq!(embedding_status(false, IndexState::Indexing, 10, 10, 0, 0), PhaseStatus::InProgress);
    assert_eq!(embedding_status(true, IndexState::Completed, 10, 10, 5, 5), PhaseStatus::Pending);
    assert_eq!(orphaned_embedding_status(5, 5), PhaseStatus::Completed);
    assert_eq!(orphaned_embedding_status(0, 0), PhaseStatus::Pending);
    assert!(overall_complete(false, IndexState::Completed, 0, 0, 0, 0, 0, 0));
    assert!(overall_complete(false, IndexState::Indexing, 4, 4, 9, 9, 2, 2));
    assert!(!overall_complete(true, IndexState::Completed, 0, 0, 0, 0, 0, 0));
    assert_eq!(PhaseStatus::InProgress.name(), "in_progress");
}

#[test]
fn status_messages_and_summaries() {
    assert_eq!(index_status_message(IndexState::Completed, &None), None);
    assert_eq!(
        index_status_message(IndexState::Failed, &Some("boom".to_string())).as_deref(),
        Some("boom")
    );
    assert_eq!(
        index_status_message(IndexState::Indexing, &None).as_deref(),
        Some("Indexing in progress. Status and counts may still change.")
    );
    assert_eq!(project_stats_message(IndexState::Completed, true, &Some("x".to_string())).as_deref(), Some("x"));
    assert_eq!(
        project_stats_message(IndexState::Failed, false, &None).as_deref(),
        Some("Indexing failed. Project stats are incomplete.")
    );
    let failed = index_status_summary_plan(IndexState::Failed, None);
    assert!(failed.is_partial);
    assert_eq!(failed.reason_code, Some(ContractReasonCode::Degraded));
    assert_eq!(failed.fixed_reason.as_deref(), Some("indexing_failed"));
    let done = index_status_summary_plan(IndexState::Completed, None);
    assert!(!done.is_partial);
    let lost = lost_task_summary_plan();
    assert_eq!(lost.fixed_reason.as_deref(), Some("lost_one_shot_indexing_task_after_restart"));
}

#[test]
fn orphaned_rows_status() {
    let failed = status_from_orphaned_rows("p".to_string(), 3, 7, 9, false);
    assert_eq!(failed.status, IndexState::Failed);
    assert_eq!((failed.total_files, failed.indexed_files, failed.total_chunks, failed.total_symbols), (3, 3, 7, 9));
    assert_eq!(failed.structural_state, StructuralState::Failed);
    assert!(failed.error_message.unwrap().starts_with("Index status metadata is missing"));
    let served = status_from_orphaned_rows("p".to_string(), 3, 7, 9, true);
    assert_eq!(served.status, IndexState::Completed);
    assert_eq!(served.semantic_state, SemanticState::Ready);
    assert!(served.error_message.is_none());
}

#[test]
fn projection_locators() {
    assert_eq!(projection_locator("p", "all", "canonical", 4), "projection:p:all:canonical:4");
}

#[test]
fn code_intelligence_root_diagnostic_serializes_selected_when_root_exists() {
    let diagnostic = root_diagnostic(Some("/project"), true, "/project", true);
    assert_eq!(diagnostic.state.name(), "selected");
    assert_eq!(diagnostic.state, DiagnosticState::Selected);
    assert_eq!(diagnostic.message, "Configured project root is available: /project");
}
