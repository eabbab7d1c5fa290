use memory_mcp::types::{IndexState, IndexStatus, ProjectionState, SemanticState, StructuralState};

#[test]
fn completed_status_preserves_projection_current_on_refresh() {
    let mut status = IndexStatus::new("projection-current".to_string());
    status.status = IndexState::Completed;
    status.mark_projection_current();

    status.refresh_lifecycle_states();

    assert_eq!(status.structural_state, StructuralState::Ready);
    assert_eq!(status.semantic_state, SemanticState::Ready);
    assert_eq!(status.projection_state, ProjectionState::Current);
}

#[test]
fn structural_generation_advances_before_semantic_completion() {
    let mut status = IndexStatus::new("generation-progress".to_string());

    status.mark_structural_generation_advanced();
    status.status = IndexState::EmbeddingPending;
    status.refresh_lifecycle_states();

    assert_eq!(status.structural_generation, 1);
    assert_eq!(status.semantic_generation, 0);
    assert_eq!(status.structural_state, StructuralState::Ready);
    assert_eq!(status.semantic_state, SemanticState::Pending);
    assert_eq!(status.projection_state, ProjectionState::Stale);
}

#[test]
fn semantic_generation_catches_up_on_completion() {
    let mut status = IndexStatus::new("generation-complete".to_string());

    status.mark_structural_generation_advanced();
    status.status = IndexState::EmbeddingPending;
    status.refresh_lifecycle_states();
    status.status = IndexState::Completed;
    status.mark_semantic_generation_caught_up();
    status.refresh_lifecycle_states();

    assert_eq!(status.structural_generation, 1);
    assert_eq!(status.semantic_generation, 1);
    assert_eq!(status.semantic_state, SemanticState::Ready);
}

#[test]
fn refreshing_twice_equals_refreshing_once() {
    let mut once = IndexStatus::new("p".to_string());
    once.status = IndexState::Completed;
    once.mark_projection_current();
    once.refresh_lifecycle_states();
    let mut twice = once.clone();
    twice.refresh_lifecycle_states();
    assert_eq!(once, twice);
}

#[test]
fn failed_status_reports_failed_layers_and_stale_projection() {
    let mut status = IndexStatus::new("p".to_string());
    status.status = IndexState::Failed;
    status.mark_projection_current();
    status.refresh_lifecycle_states();
    assert_eq!(status.structural_state, StructuralState::Failed);
    assert_eq!(status.semantic_state, SemanticState::Failed);
    assert_eq!(status.projection_state, ProjectionState::Stale);
}

#[test]
fn structural_generation_saturates() {
    let mut status = IndexStatus::new("p".to_string());
    status.structural_generation = u64::MAX;
    status.mark_structural_generation_advanced();
    assert_eq!(status.structural_generation, u64::MAX);
}
