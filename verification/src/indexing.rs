//! Indexing jobs and project status reports: job phases, states and reason
//! codes, checkpoint resume tokens, the admission rules for a new index run,
//! the outcome of a failed run, and the progress and diagnostics a status
//! report shows.
use vstd::prelude::*;

use crate::contracts::ContractReasonCode;
use crate::text::{decimal, decimal_string};
use crate::types::{str_eq, IndexState, IndexStatus, ProjectionState};

verus! {

// ─── job vocabulary ──────────────────────────────────────────────────────────

/// Phase of an indexing job.
#[derive(Debug, Clone, Copy, PartialEq, Eq, Structural)]
pub enum IndexJobPhase {
    Discover,
    Parse,
    Chunk,
    Symbols,
    Relations,
    Embed,
    EmbedEnqueue,
    Bm25,
    Finalize,
    Promote,
    Cleanup,
}

impl IndexJobPhase {
    pub open spec fn spec_name(self) -> Seq<char> {
        match self {
            IndexJobPhase::Discover => "discover"@,
            IndexJobPhase::Parse => "parse"@,
            IndexJobPhase::Chunk => "chunk"@,
            IndexJobPhase::Symbols => "symbols"@,
            IndexJobPhase::Relations => "relations"@,
            IndexJobPhase::Embed => "embed"@,
            IndexJobPhase::EmbedEnqueue => "embed_enqueue"@,
            IndexJobPhase::Bm25 => "bm25"@,
            IndexJobPhase::Finalize => "finalize"@,
            IndexJobPhase::Promote => "promote"@,
            IndexJobPhase::Cleanup => "cleanup"@,
        }
    }
}

/// The wire name of a job phase.
pub fn index_job_phase_str(phase: &IndexJobPhase) -> (r: &'static str)
    ensures
        r@ == phase.spec_name(),
{
    match phase {
        IndexJobPhase::Discover => "discover",
        IndexJobPhase::Parse => "parse",
        IndexJobPhase::Chunk => "chunk",
        IndexJobPhase::Symbols => "symbols",
        IndexJobPhase::Relations => "relations",
        IndexJobPhase::Embed => "embed",
        IndexJobPhase::EmbedEnqueue => "embed_enqueue",
        IndexJobPhase::Bm25 => "bm25",
        IndexJobPhase::Finalize => "finalize",
        IndexJobPhase::Promote => "promote",
        IndexJobPhase::Cleanup => "cleanup",
    }
}

/// State of an indexing job.
#[derive(Debug, Clone, Copy, PartialEq, Eq, Structural)]
pub enum IndexJobState {
    Queued,
    Running,
    Paused,
    Interrupted,
    Resumable,
    Completed,
    Failed,
    CancelRequested,
    Cancelled,
    Abandoned,
}

impl IndexJobState {
    pub open spec fn spec_name(self) -> Seq<char> {
        match self {
            IndexJobState::Queued => "queued"@,
            IndexJobState::Running => "running"@,
            IndexJobState::Paused => "paused"@,
            IndexJobState::Interrupted => "interrupted"@,
            IndexJobState::Resumable => "resumable"@,
            IndexJobState::Completed => "completed"@,
            IndexJobState::Failed => "failed"@,
            IndexJobState::CancelRequested => "cancel_requested"@,
            IndexJobState::Cancelled => "cancelled"@,
            IndexJobState::Abandoned => "abandoned"@,
        }
    }
}

/// The wire name of a job state.
pub fn index_job_state_str(state: &IndexJobState) -> (r: &'static str)
    ensures
        r@ == state.spec_name(),
{
    match state {
        IndexJobState::Queued => "queued",
        IndexJobState::Running => "running",
        IndexJobState::Paused => "paused",
        IndexJobState::Interrupted => "interrupted",
        IndexJobState::Resumable => "resumable",
        IndexJobState::Completed => "completed",
        IndexJobState::Failed => "failed",
        IndexJobState::CancelRequested => "cancel_requested",
        IndexJobState::Cancelled => "cancelled",
        IndexJobState::Abandoned => "abandoned",
    }
}

/// Why a job is in its state.
#[derive(Debug, Clone, Copy, PartialEq, Eq, Structural)]
pub enum IndexJobReasonCode {
    CancelledByUser,
    InterruptedByShutdown,
    LostSameProcessTask,
    StorageError,
    ParseError,
    EmbeddingError,
    Bm25Error,
    Unknown,
    ActiveIndexRunning,
    ResumableInterruptedJob,
    LostOneShotIndexingTaskAfterRestart,
    CheckpointGenerationMissing,
    WorkspaceChangedSinceCheckpoint,
    StaleGeneration,
    IndexStorageCorrupt,
    IllegalStateTransition,
    ResumeTokenRequired,
    ForceRestartConfirmationRequired,
    CancellationRequested,
    CleanupRequested,
}

impl IndexJobReasonCode {
    pub open spec fn spec_name(self) -> Seq<char> {
        match self {
            IndexJobReasonCode::CancelledByUser => "cancelled_by_user"@,
            IndexJobReasonCode::InterruptedByShutdown => "interrupted_by_shutdown"@,
            IndexJobReasonCode::LostSameProcessTask => "lost_same_process_task"@,
            IndexJobReasonCode::StorageError => "storage_error"@,
            IndexJobReasonCode::ParseError => "parse_error"@,
            IndexJobReasonCode::EmbeddingError => "embedding_error"@,
            IndexJobReasonCode::Bm25Error => "bm25_error"@,
            IndexJobReasonCode::Unknown => "unknown"@,
            IndexJobReasonCode::ActiveIndexRunning => "active_index_running"@,
            IndexJobReasonCode::ResumableInterruptedJob => "resumable_interrupted_job"@,
            IndexJobReasonCode::LostOneShotIndexingTaskAfterRestart => "lost_one_shot_indexing_task_after_restart"@,
            IndexJobReasonCode::CheckpointGenerationMissing => "checkpoint_generation_missing"@,
            IndexJobReasonCode::WorkspaceChangedSinceCheckpoint => "workspace_changed_since_checkpoint"@,
            IndexJobReasonCode::StaleGeneration => "stale_generation"@,
            IndexJobReasonCode::IndexStorageCorrupt => "index_storage_corrupt"@,
            IndexJobReasonCode::IllegalStateTransition => "illegal_state_transition"@,
            IndexJobReasonCode::ResumeTokenRequired => "resume_token_required"@,
            IndexJobReasonCode::ForceRestartConfirmationRequired => "force_restart_confirmation_required"@,
            IndexJobReasonCode::CancellationRequested => "cancellation_requested"@,
            IndexJobReasonCode::CleanupRequested => "cleanup_requested"@,
        }
    }
}

/// The wire name of a job reason code.
pub fn index_job_reason_code_str(reason: &IndexJobReasonCode) -> (r: &'static str)
    ensures
        r@ == reason.spec_name(),
{
    match reason {
        IndexJobReasonCode::CancelledByUser => "cancelled_by_user",
        IndexJobReasonCode::InterruptedByShutdown => "interrupted_by_shutdown",
        IndexJobReasonCode::LostSameProcessTask => "lost_same_process_task",
        IndexJobReasonCode::StorageError => "storage_error",
        IndexJobReasonCode::ParseError => "parse_error",
        IndexJobReasonCode::EmbeddingError => "embedding_error",
        IndexJobReasonCode::Bm25Error => "bm25_error",
        IndexJobReasonCode::Unknown => "unknown",
        IndexJobReasonCode::ActiveIndexRunning => "active_index_running",
        IndexJobReasonCode::ResumableInterruptedJob => "resumable_interrupted_job",
        IndexJobReasonCode::LostOneShotIndexingTaskAfterRestart => {
            "lost_one_shot_indexing_task_after_restart"
        },
        IndexJobReasonCode::CheckpointGenerationMissing => "checkpoint_generation_missing",
        IndexJobReasonCode::WorkspaceChangedSinceCheckpoint => "workspace_changed_since_checkpoint",
        IndexJobReasonCode::StaleGeneration => "stale_generation",
        IndexJobReasonCode::IndexStorageCorrupt => "index_storage_corrupt",
        IndexJobReasonCode::IllegalStateTransition => "illegal_state_transition",
        IndexJobReasonCode::ResumeTokenRequired => "resume_token_required",
        IndexJobReasonCode::ForceRestartConfirmationRequired => "force_restart_confirmation_required",
        IndexJobReasonCode::CancellationRequested => "cancellation_requested",
        IndexJobReasonCode::CleanupRequested => "cleanup_requested",
    }
}

// ─── checkpoints and resume ──────────────────────────────────────────────────

/// The resume token of a checkpoint: version, phase and files done.
pub open spec fn spec_resume_token(phase: IndexJobPhase, files_done: u64) -> Seq<char> {
    "ckpt_v1_phase_"@ + phase.spec_name() + "_file_"@ + decimal(files_done as nat)
}

/// The resume token for a job checkpointed at `phase` with `files_done`
/// files complete.
pub fn checkpoint_resume_token(phase: &IndexJobPhase, files_done: u64) -> (r: String)
    ensures
        r@ == spec_resume_token(*phase, files_done),
{
    let digits = decimal_string(files_done);
    String::from_str("ckpt_v1_phase_").concat(index_job_phase_str(phase)).concat("_file_").concat(
        digits.as_str(),
    )
}

/// One file checkpoint of a job.
#[derive(Debug, Clone, Copy, PartialEq, Eq, Structural)]
pub struct FileCheckpoint {
    pub completed: bool,
    pub phase: IndexJobPhase,
}

/// Number of completed checkpoints among the first `n`.
pub open spec fn completed_count(cs: Seq<FileCheckpoint>, n: nat) -> nat
    decreases n,
{
    if n == 0 {
        0
    } else {
        completed_count(cs, (n - 1) as nat) + if cs[n - 1].completed {
            1nat
        } else {
            0nat
        }
    }
}

/// Phase of the last completed checkpoint among the first `n`.
pub open spec fn last_completed_phase(cs: Seq<FileCheckpoint>, n: nat) -> Option<IndexJobPhase>
    decreases n,
{
    if n == 0 {
        None
    } else if cs[n - 1].completed {
        Some(cs[n - 1].phase)
    } else {
        last_completed_phase(cs, (n - 1) as nat)
    }
}

proof fn lemma_completed_phase_exists(cs: Seq<FileCheckpoint>, n: nat)
    requires
        n <= cs.len(),
    ensures
        completed_count(cs, n) > 0 <==> last_completed_phase(cs, n).is_some(),
        completed_count(cs, n) <= n,
    decreases n,
{
    if n > 0 {
        lemma_completed_phase_exists(cs, (n - 1) as nat);
    }
}

/// No checkpoint strictly between `i` and `n` completed.
pub open spec fn none_completed_after(cs: Seq<FileCheckpoint>, i: int, n: int) -> bool {
    forall|j: int| i < j < n ==> !(#[trigger] cs[j]).completed
}

/// Checkpoint `i`, among the first `n`, is the last one that completed.
pub open spec fn is_last_completed(cs: Seq<FileCheckpoint>, i: int, n: int) -> bool {
    0 <= i < n && cs[i].completed && none_completed_after(cs, i, n)
}

/// A job resumes from the phase of its last completed checkpoint: when
/// some checkpoint completed, the phase named is that of a completed
/// checkpoint after which none completed; otherwise none is named. The
/// number of completed files counts exactly the completed checkpoints.
pub proof fn lemma_resume_phase_is_last_completed(cs: Seq<FileCheckpoint>)
    ensures
        match last_completed_phase(cs, cs.len()) {
            Some(p) => exists|i: int| #[trigger] is_last_completed(cs, i, cs.len() as int) && cs[i].phase == p,
            None => none_completed_after(cs, -1, cs.len() as int),
        },
        completed_count(cs, cs.len()) == cs.filter(|c: FileCheckpoint| c.completed).len(),
{
    lemma_last_completed_prefix(cs, cs.len());
    lemma_completed_count_filter(cs, cs.len());
    assert(cs.take(cs.len() as int) =~= cs);
}

proof fn lemma_last_completed_prefix(cs: Seq<FileCheckpoint>, n: nat)
    requires
        n <= cs.len(),
    ensures
        match last_completed_phase(cs, n) {
            Some(p) => exists|i: int| #[trigger] is_last_completed(cs, i, n as int) && cs[i].phase == p,
            None => none_completed_after(cs, -1, n as int),
        },
    decreases n,
{
    if n > 0 {
        let m = (n - 1) as nat;
        lemma_last_completed_prefix(cs, m);
        if cs[m as int].completed {
            assert(is_last_completed(cs, m as int, n as int));
        } else {
            match last_completed_phase(cs, m) {
                Some(p) => {
                    let i = choose|i: int| #[trigger] is_last_completed(cs, i, m as int) && cs[i].phase == p;
                    assert(is_last_completed(cs, i, n as int));
                },
                None => {
                    assert(none_completed_after(cs, -1, n as int));
                },
            }
        }
    }
}

proof fn lemma_completed_count_filter(cs: Seq<FileCheckpoint>, n: nat)
    requires
        n <= cs.len(),
    ensures
        completed_count(cs, n) == cs.take(n as int).filter(|c: FileCheckpoint| c.completed).len(),
    decreases n,
{
    reveal(Seq::filter);
    if n > 0 {
        let m = (n - 1) as nat;
        lemma_completed_count_filter(cs, m);
        assert(cs.take(n as int).drop_last() =~= cs.take(m as int));
        assert(cs.take(n as int).last() == cs[m as int]);
    }
}

/// What a job's checkpoints allow for resuming it.
#[derive(Debug, Clone, PartialEq, Eq)]
pub struct ResumeFields {
    pub can_resume: bool,
    pub token: Option<String>,
    pub files_done: Option<u64>,
    pub files_total: Option<u64>,
    pub phase: Option<IndexJobPhase>,
}

/// Resume information from a job's checkpoints (`None` when they could not
/// be read): resumable once some file completed, from the phase of the last
/// completed checkpoint.
pub fn resumable_job_fields(checkpoints: Option<&Vec<FileCheckpoint>>, total_files: Option<u64>) -> (r: ResumeFields)
    ensures
        r.files_total == total_files,
        match checkpoints {
            None => !r.can_resume && r.token.is_none() && r.files_done.is_none() && r.phase.is_none(),
            Some(cs) => {
                let done = completed_count(cs@, cs@.len());
                &&& r.files_done == Some(done as u64)
                &&& r.can_resume == (done > 0)
                &&& r.phase == last_completed_phase(cs@, cs@.len())
                &&& match r.phase {
                    Some(p) => exists|i: int| #[trigger] is_last_completed(cs@, i, cs@.len() as int) && cs@[i].phase == p,
                    None => none_completed_after(cs@, -1, cs@.len() as int),
                }
                &&& match r.token {
                    Some(t) => done > 0 && t@ == spec_resume_token(r.phase->0, done as u64),
                    None => done == 0,
                }
            },
        },
{
    match checkpoints {
        None => ResumeFields {
            can_resume: false,
            token: None,
            files_done: None,
            files_total: total_files,
            phase: None,
        },
        Some(cs) => {
            let mut done: u64 = 0;
            let mut phase: Option<IndexJobPhase> = None;
            for i in 0..cs.len()
                invariant
                    done == completed_count(cs@, i as nat),
                    done <= i,
                    phase == last_completed_phase(cs@, i as nat),
                    cs@.len() <= usize::MAX,
            {
                if cs[i].completed {
                    done = done + 1;
                    phase = Some(cs[i].phase);
                }
            }
            proof {
                lemma_completed_phase_exists(cs@, cs@.len());
                lemma_resume_phase_is_last_completed(cs@);
            }
            if done == 0 {
                return ResumeFields {
                    can_resume: false,
                    token: None,
                    files_done: Some(0),
                    files_total: total_files,
                    phase: None,
                };
            }
            let p = match phase {
                Some(p) => p,
                None => IndexJobPhase::Parse,
            };
            ResumeFields {
                can_resume: true,
                token: Some(checkpoint_resume_token(&p, done)),
                files_done: Some(done),
                files_total: total_files,
                phase: Some(p),
            }
        },
    }
}

/// How a durable job is reported.
#[derive(Debug, Clone, PartialEq, Eq)]
pub struct IndexJobView {
    pub state: IndexJobState,
    pub can_resume: bool,
    pub reason_code: Option<IndexJobReasonCode>,
    pub requires_force: bool,
    pub requires_confirmation: bool,
    /// A restart needs force and confirmation (the restart fallback shown).
    pub restart_fallback: bool,
    pub resume_token: Option<String>,
    pub phase: IndexJobPhase,
}

/// A resumable, interrupted or failed job with a completed checkpoint can be
/// resumed; it is then reported as resumable with the resume reason. A
/// failed job that cannot be resumed needs a forced, confirmed restart.
pub fn index_job_view(
    state: IndexJobState,
    reason_code: Option<IndexJobReasonCode>,
    error_code: Option<IndexJobReasonCode>,
    job_phase: IndexJobPhase,
    resume: &ResumeFields,
) -> (r: IndexJobView)
    ensures
        r.can_resume == ((state == IndexJobState::Resumable || state == IndexJobState::Interrupted
            || state == IndexJobState::Failed) && resume.can_resume),
        r.state == if r.can_resume {
            IndexJobState::Resumable
        } else {
            state
        },
        r.reason_code == if r.can_resume {
            Some(IndexJobReasonCode::ResumableInterruptedJob)
        } else if reason_code.is_some() {
            reason_code
        } else {
            error_code
        },
        r.requires_force == (state == IndexJobState::Failed && !r.can_resume),
        r.requires_confirmation == r.requires_force,
        r.restart_fallback == r.requires_force,
        r.resume_token == if r.can_resume {
            resume.token
        } else {
            None
        },
        r.phase == match resume.phase {
            Some(p) => p,
            None => job_phase,
        },
{
    let can_resume = match state {
        IndexJobState::Resumable | IndexJobState::Interrupted | IndexJobState::Failed => resume.can_resume,
        _ => false,
    };
    let requires_force = state == IndexJobState::Failed && !can_resume;
    IndexJobView {
        state: if can_resume {
            IndexJobState::Resumable
        } else {
            state
        },
        can_resume,
        reason_code: if can_resume {
            Some(IndexJobReasonCode::ResumableInterruptedJob)
        } else {
            match reason_code {
                Some(c) => Some(c),
                None => error_code,
            }
        },
        requires_force,
        requires_confirmation: requires_force,
        restart_fallback: requires_force,
        resume_token: if can_resume {
            match &resume.token {
                Some(t) => Some(t.clone()),
                None => None,
            }
        } else {
            None
        },
        phase: match resume.phase {
            Some(p) => p,
            None => job_phase,
        },
    }
}


// ─── starting a run ──────────────────────────────────────────────────────────

/// Why a new index run is not started.
#[derive(Debug, Clone, Copy, PartialEq, Eq, Structural)]
pub enum IndexRefusal {
    /// A durable job is already running.
    ActiveJobRunning,
    /// The project is indexed (or its embeddings are pending); only force
    /// re-indexes it.
    AlreadyIndexed,
    /// The previous run failed; a restart needs force and confirmation.
    FailedRestartNeedsConfirmation,
    /// The previous one-shot run was lost in a restart; a retry needs force
    /// and confirmation.
    LostTaskNeedsConfirmation,
}

/// Admission of a new index run, checked in order: without both force and
/// confirmation and without resume, a running durable job refuses it; a
/// completed or embedding-pending project needs force; a failed one force
/// and confirmation; a project still marked indexing whose one-shot task was
/// lost in a restart needs force and confirmation too.
pub open spec fn spec_admission(
    force: bool,
    confirm_failed_restart: bool,
    resume_requested: bool,
    running_job_exists: bool,
    current: Option<IndexState>,
    lost_one_shot_task: bool,
) -> Result<(), IndexRefusal> {
    let confirmed = force && confirm_failed_restart;
    if !confirmed && !resume_requested && running_job_exists {
        Err(IndexRefusal::ActiveJobRunning)
    } else {
        match current {
            Some(IndexState::Completed) | Some(IndexState::EmbeddingPending) => if !force {
                Err(IndexRefusal::AlreadyIndexed)
            } else {
                Ok(())
            },
            Some(IndexState::Failed) => if !confirmed {
                Err(IndexRefusal::FailedRestartNeedsConfirmation)
            } else {
                Ok(())
            },
            Some(IndexState::Indexing) => if lost_one_shot_task && !confirmed {
                Err(IndexRefusal::LostTaskNeedsConfirmation)
            } else {
                Ok(())
            },
            None => Ok(()),
        }
    }
}

/// Decides whether a new index run may start (see `spec_admission`).
pub fn decide_index_admission(
    force: bool,
    confirm_failed_restart: bool,
    resume_requested: bool,
    running_job_exists: bool,
    current: Option<IndexState>,
    lost_one_shot_task: bool,
) -> (r: Result<(), IndexRefusal>)
    ensures
        r == spec_admission(
            force,
            confirm_failed_restart,
            resume_requested,
            running_job_exists,
            current,
            lost_one_shot_task,
        ),
{
    let confirmed = force && confirm_failed_restart;
    if !confirmed && !resume_requested && running_job_exists {
        return Err(IndexRefusal::ActiveJobRunning);
    }
    match current {
        Some(IndexState::Completed) | Some(IndexState::EmbeddingPending) => if !force {
            Err(IndexRefusal::AlreadyIndexed)
        } else {
            Ok(())
        },
        Some(IndexState::Failed) => if !confirmed {
            Err(IndexRefusal::FailedRestartNeedsConfirmation)
        } else {
            Ok(())
        },
        Some(IndexState::Indexing) => if lost_one_shot_task && !confirmed {
            Err(IndexRefusal::LostTaskNeedsConfirmation)
        } else {
            Ok(())
        },
        None => Ok(()),
    }
}

/// A failed index is never restarted without force and confirmation, and an
/// indexed project is never re-indexed without force.
pub proof fn lemma_no_silent_restart(
    force: bool,
    confirm: bool,
    resume: bool,
    running: bool,
    current: Option<IndexState>,
    lost: bool,
)
    ensures
        current == Some(IndexState::Failed) && !(force && confirm) ==> spec_admission(
            force,
            confirm,
            resume,
            running,
            current,
            lost,
        ) is Err,
        (current == Some(IndexState::Completed) || current == Some(IndexState::EmbeddingPending))
            && !force ==> spec_admission(force, confirm, resume, running, current, lost) is Err,
        current == Some(IndexState::Indexing) && lost && !(force && confirm) ==> spec_admission(
            force,
            confirm,
            resume,
            running,
            current,
            lost,
        ) is Err,
        force && confirm ==> spec_admission(force, confirm, resume, running, current, lost) is Ok,
{
}

/// The structural generation a run writes: the resumed job's target, else
/// one past the previous generation (saturating), else the first.
pub fn next_structural_generation(resume_target: Option<u64>, previous: Option<u64>) -> (r: u64)
    ensures
        r == match resume_target {
            Some(t) => t,
            None => match previous {
                Some(p) => if p < u64::MAX {
                    (p + 1) as u64
                } else {
                    u64::MAX
                },
                None => 1,
            },
        },
{
    match resume_target {
        Some(t) => t,
        None => match previous {
            Some(p) => p.saturating_add(1),
            None => 1,
        },
    }
}

/// What a failed run leaves behind.
#[derive(Debug, Clone, PartialEq, Eq)]
pub struct FailedRunOutcome {
    pub state: IndexJobState,
    pub reason_code: IndexJobReasonCode,
    /// The resume token, for a resumable job.
    pub resume_token: Option<String>,
    pub completed_files: u64,
}

/// A failed run with completed files becomes resumable from the parse phase;
/// one with none fails outright.
pub fn failed_run_outcome(completed_files: u64) -> (r: FailedRunOutcome)
    ensures
        r.completed_files == completed_files,
        completed_files > 0 ==> r.state == IndexJobState::Resumable && r.reason_code
            == IndexJobReasonCode::ResumableInterruptedJob && (r.resume_token matches Some(t) && t@
            == spec_resume_token(IndexJobPhase::Parse, completed_files)),
        completed_files == 0 ==> r.state == IndexJobState::Failed && r.reason_code
            == IndexJobReasonCode::Unknown && r.resume_token.is_none(),
{
    if completed_files > 0 {
        FailedRunOutcome {
            state: IndexJobState::Resumable,
            reason_code: IndexJobReasonCode::ResumableInterruptedJob,
            resume_token: Some(checkpoint_resume_token(&IndexJobPhase::Parse, completed_files)),
            completed_files,
        }
    } else {
        FailedRunOutcome {
            state: IndexJobState::Failed,
            reason_code: IndexJobReasonCode::Unknown,
            resume_token: None,
            completed_files,
        }
    }
}

/// A resume request for a job that no longer exists: without the full
/// restart fallback it is refused with the missing-checkpoint reason.
pub fn resume_without_job_refused(allow_full_restart_fallback: Option<bool>) -> (r: bool)
    ensures
        r == (allow_full_restart_fallback != Some(true)),
{
    match allow_full_restart_fallback {
        Some(b) => !b,
        None => true,
    }
}

// ─── the same-process one-shot task ──────────────────────────────────────────

/// A project persisted as indexing lost its one-shot task in a restart when
/// nothing is queued for sync, the reported task is in the unknown after
/// restart state with no operation id and the local task runner, no
/// progress monitor exists, and the project is not in the set being indexed
/// (`None` when that set could not be read, which counts as not lost).
pub open spec fn spec_lost_one_shot(
    status: IndexState,
    sync_queue_size: usize,
    task_state: Option<Seq<char>>,
    operation_id_present: bool,
    runner: Option<Seq<char>>,
    monitor_present: bool,
    project_in_indexing_set: Option<bool>,
) -> bool {
    &&& status == IndexState::Indexing
    &&& sync_queue_size == 0
    &&& task_state == Some("unknown_after_restart"@)
    &&& !operation_id_present
    &&& runner == Some("local_tokio_task"@)
    &&& !monitor_present
    &&& project_in_indexing_set == Some(false)
}

pub fn lost_one_shot_after_restart(
    status: IndexState,
    sync_queue_size: usize,
    task_state: Option<&str>,
    operation_id_present: bool,
    runner: Option<&str>,
    monitor_present: bool,
    project_in_indexing_set: Option<bool>,
) -> (r: bool)
    ensures
        r == spec_lost_one_shot(
            status,
            sync_queue_size,
            match task_state {
                Some(s) => Some(s@),
                None => None,
            },
            operation_id_present,
            match runner {
                Some(s) => Some(s@),
                None => None,
            },
            monitor_present,
            project_in_indexing_set,
        ),
{
    if status != IndexState::Indexing || sync_queue_size > 0 {
        return false;
    }
    let state_ok = match task_state {
        Some(s) => str_eq(s, "unknown_after_restart"),
        None => false,
    };
    let runner_ok = match runner {
        Some(s) => str_eq(s, "local_tokio_task"),
        None => false,
    };
    if !state_ok || operation_id_present || !runner_ok {
        return false;
    }
    if monitor_present {
        return false;
    }
    match project_in_indexing_set {
        Some(present) => !present,
        None => false,
    }
}

/// The phase a progress monitor's task state is reported as.
pub fn monitor_task_phase(task_state: &str) -> (r: String)
    ensures
        r@ == if task_state@ == "queued"@ {
            "queued"@
        } else if task_state@ == "running"@ {
            "task_spawned"@
        } else if task_state@ == "idle"@ {
            "accepted"@
        } else {
            task_state@
        },
{
    if str_eq(task_state, "queued") {
        String::from_str("queued")
    } else if str_eq(task_state, "running") {
        String::from_str("task_spawned")
    } else if str_eq(task_state, "idle") {
        String::from_str("accepted")
    } else {
        String::from_str(task_state)
    }
}

/// Phase of a one-shot task without a monitor: spawned when it was already
/// running, else accepted.
pub fn one_shot_task_phase(task_state: &str) -> (r: &'static str)
    ensures
        r@ == if task_state@ == "already_running"@ {
            "task_spawned"@
        } else {
            "accepted"@
        },
{
    if str_eq(task_state, "already_running") {
        "task_spawned"
    } else {
        "accepted"
    }
}

/// Phase reported for a persisted indexing run without a live task: before
/// file enumeration when nothing was counted yet, else lost after restart.
pub fn lost_task_phase(total_files: u32, total_chunks: u32) -> (r: &'static str)
    ensures
        r@ == if total_files == 0 && total_chunks == 0 {
            "before_file_enumeration"@
        } else {
            "lost_task_after_restart"@
        },
{
    if total_files == 0 && total_chunks == 0 {
        "before_file_enumeration"
    } else {
        "lost_task_after_restart"
    }
}


// ─── cancel and cleanup ──────────────────────────────────────────────────────

/// A job that has completed, failed, or been cancelled or abandoned.
pub open spec fn is_terminal_job(state: IndexJobState) -> bool {
    state == IndexJobState::Completed || state == IndexJobState::Cancelled || state
        == IndexJobState::Abandoned || state == IndexJobState::Failed
}

/// Outcome of a cancel request.
#[derive(Debug, Clone, Copy, PartialEq, Eq, Structural)]
pub enum CancelDecision {
    NotFound,
    AlreadyTerminal(IndexJobState),
    /// The job is marked cancel-requested with the cancellation reason.
    CancelRequested,
}

/// Cancelling a job: unknown jobs are not found, terminal jobs stay as they
/// are, anything else is asked to cancel.
pub fn decide_cancel(job_state: Option<IndexJobState>) -> (r: CancelDecision)
    ensures
        r == match job_state {
            None => CancelDecision::NotFound,
            Some(s) => if is_terminal_job(s) {
                CancelDecision::AlreadyTerminal(s)
            } else {
                CancelDecision::CancelRequested
            },
        },
{
    match job_state {
        None => CancelDecision::NotFound,
        Some(s) => match s {
            IndexJobState::Completed | IndexJobState::Cancelled | IndexJobState::Abandoned
            | IndexJobState::Failed => CancelDecision::AlreadyTerminal(s),
            _ => CancelDecision::CancelRequested,
        },
    }
}

/// Jobs whose data cleanup removes: abandoned, failed or cancelled ones.
pub open spec fn is_cleanable_job(state: IndexJobState) -> bool {
    state == IndexJobState::Abandoned || state == IndexJobState::Failed || state
        == IndexJobState::Cancelled
}

/// Positions, among the first `n`, of cleanable jobs.
pub open spec fn cleanable_positions(states: Seq<IndexJobState>, n: nat) -> Seq<usize>
    decreases n,
{
    if n == 0 {
        seq![]
    } else {
        let r = cleanable_positions(states, (n - 1) as nat);
        if is_cleanable_job(states[n - 1]) {
            r.push((n - 1) as usize)
        } else {
            r
        }
    }
}

/// Positions of the jobs cleanup removes, in listed order.
pub fn cleanable_jobs(states: &Vec<IndexJobState>) -> (r: Vec<usize>)
    ensures
        r@ == cleanable_positions(states@, states@.len()),
{
    let mut out: Vec<usize> = Vec::new();
    for i in 0..states.len()
        invariant
            out@ == cleanable_positions(states@, i as nat),
    {
        match states[i] {
            IndexJobState::Abandoned | IndexJobState::Failed | IndexJobState::Cancelled => {
                out.push(i);
            },
            _ => {},
        }
    }
    out
}

// ─── diagnostics ─────────────────────────────────────────────────────────────

/// State of code intelligence as a diagnostic reports it.
#[derive(Debug, Clone, Copy, PartialEq, Eq, Structural)]
pub enum DiagnosticState {
    Selected,
    MissingRoot,
    Disabled,
    Degraded,
    Ready,
    Indexing,
}

impl DiagnosticState {
    /// The state's name, which a diagnostic reports as both its status and
    /// its reason code.
    pub open spec fn spec_name(self) -> Seq<char> {
        match self {
            DiagnosticState::Selected => "selected"@,
            DiagnosticState::MissingRoot => "missing_root"@,
            DiagnosticState::Disabled => "disabled"@,
            DiagnosticState::Degraded => "degraded"@,
            DiagnosticState::Ready => "ready"@,
            DiagnosticState::Indexing => "indexing"@,
        }
    }

    pub fn name(&self) -> (r: &'static str)
        ensures
            r@ == self.spec_name(),
    {
        match self {
            DiagnosticState::Selected => "selected",
            DiagnosticState::MissingRoot => "missing_root",
            DiagnosticState::Disabled => "disabled",
            DiagnosticState::Degraded => "degraded",
            DiagnosticState::Ready => "ready",
            DiagnosticState::Indexing => "indexing",
        }
    }
}

/// A code-intelligence diagnostic.
#[derive(Debug, Clone, PartialEq, Eq)]
pub struct Diagnostic {
    pub state: DiagnosticState,
    pub message: String,
}

/// Diagnostic of one project: degraded when status metadata is missing
/// though rows exist, else by its index state.
pub fn project_state_diagnostic(status: IndexState, status_metadata_missing: bool) -> (r: Diagnostic)
    ensures
        status_metadata_missing ==> r.state == DiagnosticState::Degraded && r.message@
            == "Index status metadata is missing while code intelligence rows exist."@,
        !status_metadata_missing ==> match status {
            IndexState::Completed => r.state == DiagnosticState::Ready && r.message@
                == "Code intelligence is ready for this project."@,
            IndexState::Indexing | IndexState::EmbeddingPending => r.state == DiagnosticState::Indexing
                && r.message@ == "Code intelligence indexing is in progress for this project."@,
            IndexState::Failed => r.state == DiagnosticState::Degraded && r.message@
                == "Code intelligence is degraded for this project."@,
        },
{
    if status_metadata_missing {
        return Diagnostic {
            state: DiagnosticState::Degraded,
            message: String::from_str("Index status metadata is missing while code intelligence rows exist."),
        };
    }
    match status {
        IndexState::Completed => Diagnostic {
            state: DiagnosticState::Ready,
            message: String::from_str("Code intelligence is ready for this project."),
        },
        IndexState::Indexing | IndexState::EmbeddingPending => Diagnostic {
            state: DiagnosticState::Indexing,
            message: String::from_str("Code intelligence indexing is in progress for this project."),
        },
        IndexState::Failed => Diagnostic {
            state: DiagnosticState::Degraded,
            message: String::from_str("Code intelligence is degraded for this project."),
        },
    }
}

/// Diagnostic of the startup project root: a configured root is selected
/// when it exists and missing otherwise; without one, the compatibility root
/// is selected when it exists and code intelligence is disabled otherwise.
/// Paths are given as displayed.
pub fn root_diagnostic(
    configured_root: Option<&str>,
    configured_exists: bool,
    fallback_root: &str,
    fallback_exists: bool,
) -> (r: Diagnostic)
    ensures
        match configured_root {
            Some(c) => if configured_exists {
                r.state == DiagnosticState::Selected && r.message@
                    == "Configured project root is available: "@ + c@
            } else {
                r.state == DiagnosticState::MissingRoot && r.message@
                    == "Configured project root is missing: "@ + c@
                    + ". Set PROJECT_PATH to an existing server-visible path."@
            },
            None => if fallback_exists {
                r.state == DiagnosticState::Selected && r.message@
                    == "Compatibility project root is available: "@ + fallback_root@
            } else {
                r.state == DiagnosticState::Disabled && r.message@
                    == "Code intelligence startup root is unavailable. Mount "@ + fallback_root@
                    + " or set PROJECT_PATH to a server-visible directory."@
            },
        },
{
    match configured_root {
        Some(c) => if configured_exists {
            Diagnostic {
                state: DiagnosticState::Selected,
                message: String::from_str("Configured project root is available: ").concat(c),
            }
        } else {
            Diagnostic {
                state: DiagnosticState::MissingRoot,
                message: String::from_str("Configured project root is missing: ").concat(c).concat(
                    ". Set PROJECT_PATH to an existing server-visible path.",
                ),
            }
        },
        None => if fallback_exists {
            Diagnostic {
                state: DiagnosticState::Selected,
                message: String::from_str("Compatibility project root is available: ").concat(
                    fallback_root,
                ),
            }
        } else {
            Diagnostic {
                state: DiagnosticState::Disabled,
                message: String::from_str(
                    "Code intelligence startup root is unavailable. Mount ",
                ).concat(fallback_root).concat(" or set PROJECT_PATH to a server-visible directory."),
            }
        },
    }
}

/// What listing reads of one project.
#[derive(Debug, Clone, Copy, PartialEq, Eq, Structural)]
pub struct ProjectHealth {
    pub status: Option<IndexState>,
    /// The project has chunk or symbol rows.
    pub has_rows: bool,
}

pub open spec fn health_indexing(h: ProjectHealth) -> bool {
    h.status == Some(IndexState::Indexing) || h.status == Some(IndexState::EmbeddingPending)
}

pub open spec fn health_degraded(h: ProjectHealth) -> bool {
    h.status == Some(IndexState::Failed) || (h.status.is_none() && h.has_rows)
}

pub open spec fn health_ready(h: ProjectHealth) -> bool {
    h.status == Some(IndexState::Completed)
}

/// Overall health of the listed projects: indexing if any project is, else
/// degraded if any is, else ready if any is; `None` when nothing applies
/// (the runtime root diagnostic is reported then).
pub fn aggregate_project_health(projects: &Vec<ProjectHealth>) -> (r: Option<DiagnosticState>)
    ensures
        r == if exists|i: int| 0 <= i < projects@.len() && health_indexing(#[trigger] projects@[i]) {
            Some(DiagnosticState::Indexing)
        } else if exists|i: int| 0 <= i < projects@.len() && health_degraded(#[trigger] projects@[i]) {
            Some(DiagnosticState::Degraded)
        } else if exists|i: int| 0 <= i < projects@.len() && health_ready(#[trigger] projects@[i]) {
            Some(DiagnosticState::Ready)
        } else {
            None
        },
{
    let mut has_ready = false;
    let mut has_indexing = false;
    let mut has_degraded = false;
    for i in 0..projects.len()
        invariant
            has_indexing == exists|k: int| 0 <= k < i && health_indexing(#[trigger] projects@[k]),
            has_degraded == exists|k: int| 0 <= k < i && health_degraded(#[trigger] projects@[k]),
            has_ready == exists|k: int| 0 <= k < i && health_ready(#[trigger] projects@[k]),
    {
        let h = projects[i];
        match h.status {
            Some(IndexState::Completed) => {
                has_ready = true;
            },
            Some(IndexState::Indexing) | Some(IndexState::EmbeddingPending) => {
                has_indexing = true;
            },
            Some(IndexState::Failed) => {
                has_degraded = true;
            },
            None => {
                if h.has_rows {
                    has_degraded = true;
                }
            },
        }
        proof {
            assert(health_indexing(projects@[i as int]) == (h.status == Some(IndexState::Indexing)
                || h.status == Some(IndexState::EmbeddingPending)));
        }
    }
    if has_indexing {
        Some(DiagnosticState::Indexing)
    } else if has_degraded {
        Some(DiagnosticState::Degraded)
    } else if has_ready {
        Some(DiagnosticState::Ready)
    } else {
        None
    }
}

/// The summary message of a listed project.
pub fn project_list_message(h: ProjectHealth) -> (r: Option<String>)
    ensures
        match h.status {
            Some(IndexState::Completed) => r.is_none(),
            Some(IndexState::Failed) => r matches Some(m) && m@
                == "Project indexing failed. Results are incomplete until a force rebuild succeeds."@,
            Some(_) => r matches Some(m) && m@ == "Project indexing is still in progress."@,
            None => if h.has_rows {
                r matches Some(m) && m@
                    == "Index status metadata is missing while code intelligence rows exist."@
            } else {
                r.is_none()
            },
        },
{
    match h.status {
        Some(IndexState::Completed) => None,
        Some(IndexState::Failed) => Some(
            String::from_str(
                "Project indexing failed. Results are incomplete until a force rebuild succeeds.",
            ),
        ),
        Some(_) => Some(String::from_str("Project indexing is still in progress.")),
        None => if h.has_rows {
            Some(String::from_str("Index status metadata is missing while code intelligence rows exist."))
        } else {
            None
        },
    }
}

/// The first listed project still indexing (its embeddings may be
/// pending), whose degradation code tools report.
pub fn first_degraded_project(statuses: &Vec<Option<IndexState>>) -> (r: Option<usize>)
    ensures
        match r {
            Some(i) => {
                &&& i < statuses@.len()
                &&& (statuses@[i as int] == Some(IndexState::Indexing) || statuses@[i as int]
                    == Some(IndexState::EmbeddingPending))
                &&& forall|k: int|
                    0 <= k < i ==> !(statuses@[k] == Some(IndexState::Indexing) || statuses@[k]
                        == Some(IndexState::EmbeddingPending))
            },
            None => forall|k: int|
                0 <= k < statuses@.len() ==> !(statuses@[k] == Some(IndexState::Indexing)
                    || statuses@[k] == Some(IndexState::EmbeddingPending)),
        },
{
    for i in 0..statuses.len()
        invariant
            forall|k: int|
                0 <= k < i ==> !(statuses@[k] == Some(IndexState::Indexing) || statuses@[k]
                    == Some(IndexState::EmbeddingPending)),
    {
        match statuses[i] {
            Some(IndexState::Indexing) | Some(IndexState::EmbeddingPending) => {
                return Some(i);
            },
            _ => {},
        }
    }
    None
}


// ─── status reports ──────────────────────────────────────────────────────────

/// While a project is indexing, a progress monitor's non-zero counters raise
/// the persisted file counts; otherwise the status is unchanged.
pub open spec fn merged_progress(s: IndexStatus, monitor_indexed: u32, monitor_total: u32) -> IndexStatus {
    if s.status == IndexState::Indexing {
        IndexStatus {
            indexed_files: if monitor_indexed > 0 && monitor_indexed > s.indexed_files {
                monitor_indexed
            } else {
                s.indexed_files
            },
            total_files: if monitor_total > 0 && monitor_total > s.total_files {
                monitor_total
            } else {
                s.total_files
            },
            ..s
        }
    } else {
        s
    }
}

/// Raises the status's file counts from a progress monitor (see
/// `merged_progress`).
pub fn merge_monitor_progress(status: &mut IndexStatus, monitor_indexed: u32, monitor_total: u32)
    ensures
        final(status).same_as(merged_progress(*old(status), monitor_indexed, monitor_total)),
{
    if status.status == IndexState::Indexing {
        if monitor_indexed > 0 && monitor_indexed > status.indexed_files {
            status.indexed_files = monitor_indexed;
        }
        if monitor_total > 0 && monitor_total > status.total_files {
            status.total_files = monitor_total;
        }
    }
}

/// `done/total`, as a status report writes file progress.
pub fn progress_text(done: u64, total: u64) -> (r: String)
    ensures
        r@ == decimal(done as nat) + "/"@ + decimal(total as nat),
{
    let a = decimal_string(done);
    let b = decimal_string(total);
    a.concat("/").concat(b.as_str())
}

/// Progress of a reported phase.
#[derive(Debug, Clone, Copy, PartialEq, Eq, Structural)]
pub enum PhaseStatus {
    Failed,
    Pending,
    Completed,
    InProgress,
    Degraded,
    Queued,
}

impl PhaseStatus {
    pub open spec fn spec_name(self) -> Seq<char> {
        match self {
            PhaseStatus::Failed => "failed"@,
            PhaseStatus::Pending => "pending"@,
            PhaseStatus::Completed => "completed"@,
            PhaseStatus::InProgress => "in_progress"@,
            PhaseStatus::Degraded => "degraded"@,
            PhaseStatus::Queued => "queued"@,
        }
    }

    pub fn name(&self) -> (r: &'static str)
        ensures
            r@ == self.spec_name(),
    {
        match self {
            PhaseStatus::Failed => "failed",
            PhaseStatus::Pending => "pending",
            PhaseStatus::Completed => "completed",
            PhaseStatus::InProgress => "in_progress",
            PhaseStatus::Degraded => "degraded",
            PhaseStatus::Queued => "queued",
        }
    }
}

/// Parsing is failed after a lost task, completed once every file is
/// indexed, in progress otherwise.
pub fn parsing_status(lost_task: bool, indexed_files: u32, total_files: u32) -> (r: PhaseStatus)
    ensures
        r == if lost_task {
            PhaseStatus::Failed
        } else if indexed_files >= total_files {
            PhaseStatus::Completed
        } else {
            PhaseStatus::InProgress
        },
{
    if lost_task {
        PhaseStatus::Failed
    } else if indexed_files >= total_files {
        PhaseStatus::Completed
    } else {
        PhaseStatus::InProgress
    }
}

/// All files are parsed: there are files and every one is indexed.
pub open spec fn spec_parsing_done(indexed_files: u32, total_files: u32) -> bool {
    total_files > 0 && indexed_files >= total_files
}

/// An embedding phase is pending after a lost task; completed when the
/// index completed or, with parsing done, every item is embedded and there
/// are items; in progress otherwise.
pub fn embedding_status(
    lost_task: bool,
    state: IndexState,
    indexed_files: u32,
    total_files: u32,
    embedded: u64,
    total: u64,
) -> (r: PhaseStatus)
    ensures
        r == if lost_task {
            PhaseStatus::Pending
        } else if state == IndexState::Completed || (spec_parsing_done(indexed_files, total_files)
            && embedded >= total && total > 0) {
            PhaseStatus::Completed
        } else {
            PhaseStatus::InProgress
        },
{
    let parsing_done = total_files > 0 && indexed_files >= total_files;
    if lost_task {
        PhaseStatus::Pending
    } else if state == IndexState::Completed || (parsing_done && embedded >= total && total > 0) {
        PhaseStatus::Completed
    } else {
        PhaseStatus::InProgress
    }
}

/// An embedding phase of a project whose status metadata is missing:
/// completed when every existing item is embedded, else pending.
pub fn orphaned_embedding_status(embedded: u64, total: u64) -> (r: PhaseStatus)
    ensures
        r == if total > 0 && embedded >= total {
            PhaseStatus::Completed
        } else {
            PhaseStatus::Pending
        },
{
    if total > 0 && embedded >= total {
        PhaseStatus::Completed
    } else {
        PhaseStatus::Pending
    }
}

/// A status report is complete when no task was lost and the index
/// completed or, with parsing done, every chunk and symbol is embedded and
/// there are chunks.
pub fn overall_complete(
    lost_task: bool,
    state: IndexState,
    indexed_files: u32,
    total_files: u32,
    embedded_chunks: u64,
    total_chunks: u64,
    embedded_symbols: u64,
    total_symbols: u64,
) -> (r: bool)
    ensures
        r == (!lost_task && (state == IndexState::Completed || (spec_parsing_done(
            indexed_files,
            total_files,
        ) && embedded_chunks >= total_chunks && embedded_symbols >= total_symbols && total_chunks
            > 0))),
{
    let parsing_done = total_files > 0 && indexed_files >= total_files;
    !lost_task && (state == IndexState::Completed || (parsing_done && embedded_chunks >= total_chunks
        && embedded_symbols >= total_symbols && total_chunks > 0))
}

/// The message of an index status report: none once completed; the stored
/// error (or a default) after a failure; an in-progress note otherwise.
pub fn index_status_message(state: IndexState, error_message: &Option<String>) -> (r: Option<String>)
    ensures
        match state {
            IndexState::Completed => r.is_none(),
            IndexState::Failed => match error_message {
                Some(e) => r == Some(*e),
                None => r matches Some(m) && m@
                    == "Indexing failed. Status and counts are incomplete."@,
            },
            _ => r matches Some(m) && m@
                == "Indexing in progress. Status and counts may still change."@,
        },
{
    match state {
        IndexState::Completed => None,
        IndexState::Failed => match error_message {
            Some(e) => Some(e.clone()),
            None => Some(String::from_str("Indexing failed. Status and counts are incomplete.")),
        },
        _ => Some(String::from_str("Indexing in progress. Status and counts may still change.")),
    }
}

/// The message of a project stats report: the stored error when status
/// metadata was missing; otherwise as for status, worded for stats.
pub fn project_stats_message(
    state: IndexState,
    status_metadata_missing: bool,
    error_message: &Option<String>,
) -> (r: Option<String>)
    ensures
        status_metadata_missing ==> r == *error_message,
        !status_metadata_missing ==> match state {
            IndexState::Completed => r.is_none(),
            IndexState::Failed => match error_message {
                Some(e) => r == Some(*e),
                None => r matches Some(m) && m@ == "Indexing failed. Project stats are incomplete."@,
            },
            _ => r matches Some(m) && m@
                == "Indexing in progress. Project stats may still change."@,
        },
{
    if status_metadata_missing {
        return match error_message {
            Some(e) => Some(e.clone()),
            None => None,
        };
    }
    match state {
        IndexState::Completed => None,
        IndexState::Failed => match error_message {
            Some(e) => Some(e.clone()),
            None => Some(String::from_str("Indexing failed. Project stats are incomplete.")),
        },
        _ => Some(String::from_str("Indexing in progress. Project stats may still change.")),
    }
}

pub open spec fn orphaned_rows_message() -> Seq<char> {
    "Index status metadata is missing while code intelligence rows exist; re-run index_project with force=true and confirm_failed_restart=true to rebuild metadata."@
}

/// A status for a project whose status metadata is missing though index rows
/// exist: completed when a structural generation is being served, failed
/// with a rebuild note otherwise; counts from the rows, lifecycle refreshed.
pub fn status_from_orphaned_rows(
    project_id: String,
    indexed_files: u32,
    total_chunks: u64,
    total_symbols: u64,
    serving_structural: bool,
) -> (r: IndexStatus)
    ensures
        r.project_id == project_id,
        r.status == if serving_structural {
            IndexState::Completed
        } else {
            IndexState::Failed
        },
        r.total_files == indexed_files,
        r.indexed_files == indexed_files,
        r.total_chunks == total_chunks as u32,
        r.total_symbols == total_symbols as u32,
        r.structural_generation == 0,
        r.semantic_generation == 0,
        r.root_path.is_none(),
        r.failed_files@.len() == 0,
        serving_structural ==> r.error_message.is_none(),
        !serving_structural ==> (r.error_message matches Some(m) && m@ == orphaned_rows_message()),
        r == (IndexStatus { projection_state: ProjectionState::Stale, ..r }).refreshed(),
{
    let mut status = IndexStatus::new(project_id);
    status.status = if serving_structural {
        IndexState::Completed
    } else {
        IndexState::Failed
    };
    status.total_files = indexed_files;
    status.indexed_files = indexed_files;
    status.total_chunks = total_chunks as u32;
    status.total_symbols = total_symbols as u32;
    if !serving_structural {
        status.error_message = Some(
            String::from_str(
                "Index status metadata is missing while code intelligence rows exist; re-run index_project with force=true and confirm_failed_restart=true to rebuild metadata.",
            ),
        );
    }
    status.refresh_lifecycle_states();
    status
}

/// How the summary of a status report describes partial results.
#[derive(Debug, Clone, PartialEq, Eq)]
pub struct StatusSummaryPlan {
    pub is_partial: bool,
    pub reason_code: Option<ContractReasonCode>,
    /// The reason, when it is a fixed word; a partial answer without one
    /// gives its progress slug as the reason.
    pub fixed_reason: Option<String>,
    pub message: Option<String>,
}

/// The summary plan of a status report: complete once completed; degraded
/// with reason `indexing_failed` after a failure (with a default message);
/// partial while indexing.
pub fn index_status_summary_plan(state: IndexState, message: Option<String>) -> (r: StatusSummaryPlan)
    ensures
        match state {
            IndexState::Completed => !r.is_partial && r.reason_code.is_none() && r.fixed_reason.is_none()
                && r.message == message,
            IndexState::Failed => {
                &&& r.is_partial
                &&& r.reason_code == Some(ContractReasonCode::Degraded)
                &&& r.fixed_reason matches Some(x) && x@ == "indexing_failed"@
                &&& match message {
                    Some(m) => r.message == Some(m),
                    None => r.message matches Some(m) && m@
                        == "Indexing failed. Project stats are incomplete until a force rebuild succeeds."@,
                }
            },
            _ => r.is_partial && r.reason_code == Some(ContractReasonCode::Partial)
                && r.fixed_reason.is_none() && r.message == message,
        },
{
    match state {
        IndexState::Completed => StatusSummaryPlan {
            is_partial: false,
            reason_code: None,
            fixed_reason: None,
            message,
        },
        IndexState::Failed => StatusSummaryPlan {
            is_partial: true,
            reason_code: Some(ContractReasonCode::Degraded),
            fixed_reason: Some(String::from_str("indexing_failed")),
            message: match message {
                Some(m) => Some(m),
                None => Some(
                    String::from_str(
                        "Indexing failed. Project stats are incomplete until a force rebuild succeeds.",
                    ),
                ),
            },
        },
        _ => StatusSummaryPlan {
            is_partial: true,
            reason_code: Some(ContractReasonCode::Partial),
            fixed_reason: None,
            message,
        },
    }
}

/// The summary plan of a report whose one-shot task was lost in a restart.
pub fn lost_task_summary_plan() -> (r: StatusSummaryPlan)
    ensures
        r.is_partial,
        r.reason_code == Some(ContractReasonCode::Degraded),
        r.fixed_reason matches Some(x) && x@ == "lost_one_shot_indexing_task_after_restart"@,
        r.message matches Some(m) && m@
            == "Indexing cannot be observed in this process because the local one-shot task was lost after restart. Retry with force=true and confirm_failed_restart=true."@,
{
    StatusSummaryPlan {
        is_partial: true,
        reason_code: Some(ContractReasonCode::Degraded),
        fixed_reason: Some(String::from_str("lost_one_shot_indexing_task_after_restart")),
        message: Some(
            String::from_str(
                "Indexing cannot be observed in this process because the local one-shot task was lost after restart. Retry with force=true and confirm_failed_restart=true.",
            ),
        ),
    }
}

/// The same-process locator of a projection.
pub fn projection_locator(project_id: &str, relation_scope: &str, sort_mode: &str, generation: u64) -> (r: String)
    ensures
        r@ == "projection:"@ + project_id@ + ":"@ + relation_scope@ + ":"@ + sort_mode@ + ":"@
            + decimal(generation as nat),
{
    let g = decimal_string(generation);
    String::from_str("projection:").concat(project_id).concat(":").concat(relation_scope).concat(
        ":",
    ).concat(sort_mode).concat(":").concat(g.as_str())
}

} // verus!
