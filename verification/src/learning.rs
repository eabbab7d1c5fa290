//! Learning memory rules: kinds and statuses and the memory type they map to,
//! lifecycle of learning records, the promotion ladder, refusals of updates
//! and supersession, soft deletion, and classification of legacy memories
//! for migration.
use vstd::prelude::*;

use crate::order::chars_of;
use crate::text::{
    ascii_lower, ascii_lower_chars, contains_str, seq_contains, seq_starts_with, starts_with_chars,
    starts_with_str, trim_start, trim_start_chars,
};
use crate::types::{clone_opt_string, opt_view, str_eq};

verus! {

/// Kind of a learning record.
#[derive(Debug, Clone, Copy, PartialEq, Eq, Structural)]
pub enum LearningKind {
    UserPreference,
    ProjectPattern,
    ProjectPitfall,
    ProjectLesson,
    WorkflowRule,
}

impl LearningKind {
    pub open spec fn spec_name(self) -> Seq<char> {
        match self {
            LearningKind::UserPreference => "user_preference"@,
            LearningKind::ProjectPattern => "project_pattern"@,
            LearningKind::ProjectPitfall => "project_pitfall"@,
            LearningKind::ProjectLesson => "project_lesson"@,
            LearningKind::WorkflowRule => "workflow_rule"@,
        }
    }

    /// The kind named `s`, if any.
    pub fn parse(s: &str) -> (r: Option<LearningKind>)
        ensures
            r matches Some(k) ==> k.spec_name() == s@,
            r is None ==> forall|k: LearningKind| k.spec_name() != s@,
    {
        if str_eq(s, "user_preference") {
            Some(LearningKind::UserPreference)
        } else if str_eq(s, "project_pattern") {
            Some(LearningKind::ProjectPattern)
        } else if str_eq(s, "project_pitfall") {
            Some(LearningKind::ProjectPitfall)
        } else if str_eq(s, "project_lesson") {
            Some(LearningKind::ProjectLesson)
        } else if str_eq(s, "workflow_rule") {
            Some(LearningKind::WorkflowRule)
        } else {
            None
        }
    }
}

/// Review status of a learning record.
#[derive(Debug, Clone, Copy, PartialEq, Eq, Structural)]
pub enum LearningStatus {
    Candidate,
    Confirmed,
    Rule,
    Rejected,
    Superseded,
    Archived,
}

impl LearningStatus {
    pub open spec fn spec_name(self) -> Seq<char> {
        match self {
            LearningStatus::Candidate => "candidate"@,
            LearningStatus::Confirmed => "confirmed"@,
            LearningStatus::Rule => "rule"@,
            LearningStatus::Rejected => "rejected"@,
            LearningStatus::Superseded => "superseded"@,
            LearningStatus::Archived => "archived"@,
        }
    }

    /// The status named `s`, if any.
    pub fn parse(s: &str) -> (r: Option<LearningStatus>)
        ensures
            r matches Some(k) ==> k.spec_name() == s@,
            r is None ==> forall|k: LearningStatus| k.spec_name() != s@,
    {
        if str_eq(s, "candidate") {
            Some(LearningStatus::Candidate)
        } else if str_eq(s, "confirmed") {
            Some(LearningStatus::Confirmed)
        } else if str_eq(s, "rule") {
            Some(LearningStatus::Rule)
        } else if str_eq(s, "rejected") {
            Some(LearningStatus::Rejected)
        } else if str_eq(s, "superseded") {
            Some(LearningStatus::Superseded)
        } else if str_eq(s, "archived") {
            Some(LearningStatus::Archived)
        } else {
            None
        }
    }
}

/// Level at which a learning record applies.
#[derive(Debug, Clone, Copy, PartialEq, Eq, Structural)]
pub enum ScopeLevel {
    Global,
    Project,
    Workspace,
    Mode,
    User,
    Agent,
    Run,
    Namespace,
}

impl ScopeLevel {
    pub open spec fn spec_name(self) -> Seq<char> {
        match self {
            ScopeLevel::Global => "global"@,
            ScopeLevel::Project => "project"@,
            ScopeLevel::Workspace => "workspace"@,
            ScopeLevel::Mode => "mode"@,
            ScopeLevel::User => "user"@,
            ScopeLevel::Agent => "agent"@,
            ScopeLevel::Run => "run"@,
            ScopeLevel::Namespace => "namespace"@,
        }
    }

    /// The level named `s`, if any.
    pub fn parse(s: &str) -> (r: Option<ScopeLevel>)
        ensures
            r matches Some(k) ==> k.spec_name() == s@,
            r is None ==> forall|k: ScopeLevel| k.spec_name() != s@,
    {
        if str_eq(s, "global") {
            Some(ScopeLevel::Global)
        } else if str_eq(s, "project") {
            Some(ScopeLevel::Project)
        } else if str_eq(s, "workspace") {
            Some(ScopeLevel::Workspace)
        } else if str_eq(s, "mode") {
            Some(ScopeLevel::Mode)
        } else if str_eq(s, "user") {
            Some(ScopeLevel::User)
        } else if str_eq(s, "agent") {
            Some(ScopeLevel::Agent)
        } else if str_eq(s, "run") {
            Some(ScopeLevel::Run)
        } else if str_eq(s, "namespace") {
            Some(ScopeLevel::Namespace)
        } else {
            None
        }
    }
}

/// The level named by `s`, if any.
pub open spec fn spec_scope_level(s: Seq<char>) -> Option<ScopeLevel> {
    if s == ScopeLevel::Global.spec_name() {
        Some(ScopeLevel::Global)
    } else if s == ScopeLevel::Project.spec_name() {
        Some(ScopeLevel::Project)
    } else if s == ScopeLevel::Workspace.spec_name() {
        Some(ScopeLevel::Workspace)
    } else if s == ScopeLevel::Mode.spec_name() {
        Some(ScopeLevel::Mode)
    } else if s == ScopeLevel::User.spec_name() {
        Some(ScopeLevel::User)
    } else if s == ScopeLevel::Agent.spec_name() {
        Some(ScopeLevel::Agent)
    } else if s == ScopeLevel::Run.spec_name() {
        Some(ScopeLevel::Run)
    } else if s == ScopeLevel::Namespace.spec_name() {
        Some(ScopeLevel::Namespace)
    } else {
        None
    }
}

/// The first letter of each level's name tells the levels apart.
proof fn lemma_scope_name_head(k: ScopeLevel)
    ensures
        k.spec_name().len() > 0,
        k.spec_name()[0] == match k {
            ScopeLevel::Global => 'g',
            ScopeLevel::Project => 'p',
            ScopeLevel::Workspace => 'w',
            ScopeLevel::Mode => 'm',
            ScopeLevel::User => 'u',
            ScopeLevel::Agent => 'a',
            ScopeLevel::Run => 'r',
            ScopeLevel::Namespace => 'n',
        },
{
    match k {
        ScopeLevel::Global => { reveal_strlit("global"); },
        ScopeLevel::Project => { reveal_strlit("project"); },
        ScopeLevel::Workspace => { reveal_strlit("workspace"); },
        ScopeLevel::Mode => { reveal_strlit("mode"); },
        ScopeLevel::User => { reveal_strlit("user"); },
        ScopeLevel::Agent => { reveal_strlit("agent"); },
        ScopeLevel::Run => { reveal_strlit("run"); },
        ScopeLevel::Namespace => { reveal_strlit("namespace"); },
    }
}

proof fn lemma_scope_parse(s: Seq<char>, r: Option<ScopeLevel>)
    requires
        r matches Some(k) ==> k.spec_name() == s,
        r is None ==> forall|k: ScopeLevel| k.spec_name() != s,
    ensures
        r == spec_scope_level(s),
{
    if r is None {
        assert(ScopeLevel::Global.spec_name() != s);
        assert(ScopeLevel::Project.spec_name() != s);
        assert(ScopeLevel::Workspace.spec_name() != s);
        assert(ScopeLevel::Mode.spec_name() != s);
        assert(ScopeLevel::User.spec_name() != s);
        assert(ScopeLevel::Agent.spec_name() != s);
        assert(ScopeLevel::Run.spec_name() != s);
        assert(ScopeLevel::Namespace.spec_name() != s);
    } else {
        let k = r.unwrap();
        lemma_scope_name_head(k);
        lemma_scope_name_head(ScopeLevel::Global);
        lemma_scope_name_head(ScopeLevel::Project);
        lemma_scope_name_head(ScopeLevel::Workspace);
        lemma_scope_name_head(ScopeLevel::Mode);
        lemma_scope_name_head(ScopeLevel::User);
        lemma_scope_name_head(ScopeLevel::Agent);
        lemma_scope_name_head(ScopeLevel::Run);
        lemma_scope_name_head(ScopeLevel::Namespace);
    }
}

/// Kind of memory a record is stored as.
#[derive(Debug, Clone, Copy, PartialEq, Eq, Structural)]
pub enum MemoryType {
    Episodic,
    Semantic,
    Procedural,
}

/// How a learning record was created.
#[derive(Debug, Clone, Copy, PartialEq, Eq, Structural)]
pub enum CreatedFrom {
    Manual,
    Migration,
}

impl CreatedFrom {
    pub open spec fn spec_name(self) -> Seq<char> {
        match self {
            CreatedFrom::Manual => "manual"@,
            CreatedFrom::Migration => "migration"@,
        }
    }

    /// The origin named `s`, if any.
    pub fn parse(s: &str) -> (r: Option<CreatedFrom>)
        ensures
            r matches Some(k) ==> k.spec_name() == s@,
            r is None ==> forall|k: CreatedFrom| k.spec_name() != s@,
    {
        if str_eq(s, "manual") {
            Some(CreatedFrom::Manual)
        } else if str_eq(s, "migration") {
            Some(CreatedFrom::Migration)
        } else {
            None
        }
    }
}

/// Where a learning record applies.
#[derive(Debug, PartialEq)]
pub struct LearningScope {
    pub level: ScopeLevel,
    pub project_id: Option<String>,
    pub workspace: Option<String>,
    pub mode: Option<String>,
    pub user_id: Option<String>,
    pub agent_id: Option<String>,
    pub run_id: Option<String>,
    pub namespace: Option<String>,
}

// ─── memory type ─────────────────────────────────────────────────────────────

/// Memory type of a learning record: rules and workflow rules are
/// procedural, lessons episodic, everything else semantic.
pub open spec fn spec_memory_type(kind: LearningKind, status: LearningStatus) -> MemoryType {
    if kind == LearningKind::WorkflowRule || status == LearningStatus::Rule {
        MemoryType::Procedural
    } else if kind == LearningKind::ProjectLesson {
        MemoryType::Episodic
    } else {
        MemoryType::Semantic
    }
}

/// The memory type a learning record of this kind and status is stored as.
pub fn kind_status_to_memory_type(kind: &LearningKind, status: &LearningStatus) -> (r: MemoryType)
    ensures
        r == spec_memory_type(*kind, *status),
{
    if *kind == LearningKind::WorkflowRule || *status == LearningStatus::Rule {
        return MemoryType::Procedural;
    }
    match kind {
        LearningKind::ProjectLesson => MemoryType::Episodic,
        LearningKind::UserPreference | LearningKind::ProjectPattern | LearningKind::ProjectPitfall => {
            MemoryType::Semantic
        },
        LearningKind::WorkflowRule => MemoryType::Procedural,
    }
}

// ─── lifecycle ───────────────────────────────────────────────────────────────

/// Lifecycle of a learning record as derived from its validity and status.
#[derive(Debug, Clone, Copy, PartialEq, Eq, Structural)]
pub enum LearningLifecycleState {
    Candidate,
    Active,
    Rejected,
    Archived,
    Superseded,
    Invalidated,
    Unknown,
}

/// Lifecycle of a record: an invalidated record is rejected, archived or
/// superseded by its invalidation reason (otherwise plainly invalidated); a
/// valid record follows its learning status, unknown without one.
pub open spec fn spec_lifecycle(
    invalidated: bool,
    reason: Option<Seq<char>>,
    status: Option<LearningStatus>,
) -> LearningLifecycleState {
    if invalidated {
        if reason == Some("learning_rejected"@) {
            LearningLifecycleState::Rejected
        } else if reason == Some("learning_archived"@) {
            LearningLifecycleState::Archived
        } else if reason == Some("superseded"@) {
            LearningLifecycleState::Superseded
        } else {
            LearningLifecycleState::Invalidated
        }
    } else {
        match status {
            None => LearningLifecycleState::Unknown,
            Some(LearningStatus::Candidate) => LearningLifecycleState::Candidate,
            Some(LearningStatus::Confirmed) => LearningLifecycleState::Active,
            Some(LearningStatus::Rule) => LearningLifecycleState::Active,
            Some(LearningStatus::Rejected) => LearningLifecycleState::Rejected,
            Some(LearningStatus::Archived) => LearningLifecycleState::Archived,
            Some(LearningStatus::Superseded) => LearningLifecycleState::Superseded,
        }
    }
}

/// Derives the lifecycle of a learning record.
pub fn derive_lifecycle_state(
    invalidated: bool,
    invalidation_reason: Option<&str>,
    status: Option<LearningStatus>,
) -> (r: LearningLifecycleState)
    ensures
        r == spec_lifecycle(
            invalidated,
            match invalidation_reason {
                Some(s) => Some(s@),
                None => None,
            },
            status,
        ),
{
    if invalidated {
        match invalidation_reason {
            Some(reason) => {
                if str_eq(reason, "learning_rejected") {
                    LearningLifecycleState::Rejected
                } else if str_eq(reason, "learning_archived") {
                    LearningLifecycleState::Archived
                } else if str_eq(reason, "superseded") {
                    LearningLifecycleState::Superseded
                } else {
                    LearningLifecycleState::Invalidated
                }
            },
            None => LearningLifecycleState::Invalidated,
        }
    } else {
        match status {
            None => LearningLifecycleState::Unknown,
            Some(LearningStatus::Candidate) => LearningLifecycleState::Candidate,
            Some(LearningStatus::Confirmed) => LearningLifecycleState::Active,
            Some(LearningStatus::Rule) => LearningLifecycleState::Active,
            Some(LearningStatus::Rejected) => LearningLifecycleState::Rejected,
            Some(LearningStatus::Archived) => LearningLifecycleState::Archived,
            Some(LearningStatus::Superseded) => LearningLifecycleState::Superseded,
        }
    }
}

/// Rejected, archived and superseded records are final.
pub open spec fn is_terminal(l: LearningLifecycleState) -> bool {
    l == LearningLifecycleState::Rejected || l == LearningLifecycleState::Archived || l
        == LearningLifecycleState::Superseded
}

// ─── promotion ───────────────────────────────────────────────────────────────

/// The promotion ladder: candidate to confirmed or rule, confirmed to rule.
pub open spec fn promotion_allowed(current: LearningStatus, target: LearningStatus) -> bool {
    (current == LearningStatus::Candidate && target == LearningStatus::Confirmed) || (current
        == LearningStatus::Candidate && target == LearningStatus::Rule) || (current
        == LearningStatus::Confirmed && target == LearningStatus::Rule)
}

/// Why a promotion was refused.
#[derive(Debug, Clone, Copy, PartialEq, Eq, Structural)]
pub enum PromotionRefusal {
    /// The target status is not a status name.
    UnknownTargetStatus,
    /// The target status is a status, but only confirmed and rule are targets.
    NotAPromotionTarget,
    /// The record is rejected, archived, superseded, invalidated or unknown.
    LifecycleLocked(LearningLifecycleState),
    /// The ladder does not lead from the current status to the target.
    TransitionNotPermitted(LearningStatus, LearningStatus),
}

/// What a permitted promotion writes.
#[derive(Debug, Clone, Copy, PartialEq, Eq, Structural)]
pub struct PromotionPlan {
    pub target_status: LearningStatus,
    /// The memory type to store, when it changes (rules are procedural).
    pub new_memory_type: Option<MemoryType>,
}

/// Whether the ladder leads from `current` to `target`.
pub fn validate_promotion(current: &LearningStatus, target: &LearningStatus) -> (r: Result<(), PromotionRefusal>)
    ensures
        r is Ok <==> promotion_allowed(*current, *target),
        r matches Err(e) ==> e == PromotionRefusal::TransitionNotPermitted(*current, *target),
{
    let allowed = (*current == LearningStatus::Candidate && *target == LearningStatus::Confirmed)
        || (*current == LearningStatus::Candidate && *target == LearningStatus::Rule) || (*current
        == LearningStatus::Confirmed && *target == LearningStatus::Rule);
    if allowed {
        Ok(())
    } else {
        Err(PromotionRefusal::TransitionNotPermitted(*current, *target))
    }
}

/// A promotion to rule stores the record as procedural memory; any other
/// promotion keeps the memory type.
pub fn promotion_memory_type(target: &LearningStatus) -> (r: Option<MemoryType>)
    ensures
        r == if *target == LearningStatus::Rule {
            Some(MemoryType::Procedural)
        } else {
            None
        },
{
    if *target == LearningStatus::Rule {
        Some(MemoryType::Procedural)
    } else {
        None
    }
}

/// The lifecycles that cannot be promoted.
pub open spec fn promotion_locked(l: LearningLifecycleState) -> bool {
    is_terminal(l) || l == LearningLifecycleState::Invalidated || l == LearningLifecycleState::Unknown
}

/// Outcome of a promotion request: the target must name confirmed or rule,
/// the record must be a live candidate or active record, and the ladder must
/// lead from its current status (candidate when it has none) to the target.
pub open spec fn spec_promotion(
    target: Seq<char>,
    lifecycle: LearningLifecycleState,
    current: Option<LearningStatus>,
) -> Result<PromotionPlan, PromotionRefusal> {
    let from = match current {
        Some(s) => s,
        None => LearningStatus::Candidate,
    };
    if !(exists|s: LearningStatus| s.spec_name() == target) {
        Err(PromotionRefusal::UnknownTargetStatus)
    } else {
        let t = choose|s: LearningStatus| s.spec_name() == target;
        if !(t == LearningStatus::Confirmed || t == LearningStatus::Rule) {
            Err(PromotionRefusal::NotAPromotionTarget)
        } else if promotion_locked(lifecycle) {
            Err(PromotionRefusal::LifecycleLocked(lifecycle))
        } else if !promotion_allowed(from, t) {
            Err(PromotionRefusal::TransitionNotPermitted(from, t))
        } else {
            Ok(
                PromotionPlan {
                    target_status: t,
                    new_memory_type: if t == LearningStatus::Rule {
                        Some(MemoryType::Procedural)
                    } else {
                        None
                    },
                },
            )
        }
    }
}

/// The first two letters of each status name tell the statuses apart.
proof fn lemma_status_name_head(a: LearningStatus)
    ensures
        a.spec_name().len() > 1,
        (a.spec_name()[0], a.spec_name()[1]) == match a {
            LearningStatus::Candidate => ('c', 'a'),
            LearningStatus::Confirmed => ('c', 'o'),
            LearningStatus::Rule => ('r', 'u'),
            LearningStatus::Rejected => ('r', 'e'),
            LearningStatus::Superseded => ('s', 'u'),
            LearningStatus::Archived => ('a', 'r'),
        },
{
    match a {
        LearningStatus::Candidate => { reveal_strlit("candidate"); },
        LearningStatus::Confirmed => { reveal_strlit("confirmed"); },
        LearningStatus::Rule => { reveal_strlit("rule"); },
        LearningStatus::Rejected => { reveal_strlit("rejected"); },
        LearningStatus::Superseded => { reveal_strlit("superseded"); },
        LearningStatus::Archived => { reveal_strlit("archived"); },
    }
}

proof fn lemma_status_names_distinct(a: LearningStatus, b: LearningStatus)
    requires
        a.spec_name() == b.spec_name(),
    ensures
        a == b,
{
    lemma_status_name_head(a);
    lemma_status_name_head(b);
}

/// Decides a promotion request.
pub fn promotion_target(target_status: &str) -> (r: Result<LearningStatus, PromotionRefusal>)
    ensures
        match spec_promotion(target_status@, LearningLifecycleState::Active, None) {
            Err(PromotionRefusal::UnknownTargetStatus) => r == Err::<LearningStatus, PromotionRefusal>(
                PromotionRefusal::UnknownTargetStatus,
            ),
            Err(PromotionRefusal::NotAPromotionTarget) => r == Err::<LearningStatus, PromotionRefusal>(
                PromotionRefusal::NotAPromotionTarget,
            ),
            _ => r matches Ok(t) && t.spec_name() == target_status@ && (t == LearningStatus::Confirmed
                || t == LearningStatus::Rule),
        },
{
    let target = match LearningStatus::parse(target_status) {
        Some(t) => t,
        None => {
            return Err(PromotionRefusal::UnknownTargetStatus);
        },
    };
    proof {
        let t = choose|s: LearningStatus| s.spec_name() == target_status@;
        lemma_status_names_distinct(t, target);
    }
    if !(target == LearningStatus::Confirmed || target == LearningStatus::Rule) {
        return Err(PromotionRefusal::NotAPromotionTarget);
    }
    Ok(target)
}

/// Decides a promotion request (see `spec_promotion`); the target is checked
/// first, as `promotion_target` does before the record is looked up.
pub fn decide_promotion(
    target_status: &str,
    lifecycle: LearningLifecycleState,
    current_status: Option<LearningStatus>,
) -> (r: Result<PromotionPlan, PromotionRefusal>)
    ensures
        r == spec_promotion(target_status@, lifecycle, current_status),
{
    let target = match LearningStatus::parse(target_status) {
        Some(t) => t,
        None => {
            return Err(PromotionRefusal::UnknownTargetStatus);
        },
    };
    proof {
        let t = choose|s: LearningStatus| s.spec_name() == target_status@;
        lemma_status_names_distinct(t, target);
    }
    if !(target == LearningStatus::Confirmed || target == LearningStatus::Rule) {
        return Err(PromotionRefusal::NotAPromotionTarget);
    }
    let locked = match lifecycle {
        LearningLifecycleState::Rejected | LearningLifecycleState::Archived
        | LearningLifecycleState::Superseded | LearningLifecycleState::Invalidated
        | LearningLifecycleState::Unknown => true,
        _ => false,
    };
    if locked {
        return Err(PromotionRefusal::LifecycleLocked(lifecycle));
    }
    let current = match current_status {
        Some(s) => s,
        None => LearningStatus::Candidate,
    };
    match validate_promotion(&current, &target) {
        Err(e) => Err(e),
        Ok(()) => Ok(PromotionPlan { target_status: target, new_memory_type: promotion_memory_type(&target) }),
    }
}

// ─── update, supersede, soft delete ─────────────────────────────────────────

/// Records that can no longer be edited.
pub open spec fn update_locked(l: LearningLifecycleState) -> bool {
    is_terminal(l) || l == LearningLifecycleState::Invalidated
}

/// An update is refused for rejected, archived, superseded or invalidated
/// records; the refusal names the lifecycle.
pub fn decide_update(lifecycle: LearningLifecycleState) -> (r: Result<(), LearningLifecycleState>)
    ensures
        r is Err <==> update_locked(lifecycle),
        r matches Err(l) ==> l == lifecycle,
{
    match lifecycle {
        LearningLifecycleState::Rejected | LearningLifecycleState::Archived
        | LearningLifecycleState::Superseded | LearningLifecycleState::Invalidated => Err(lifecycle),
        _ => Ok(()),
    }
}

/// Why a supersession was refused.
#[derive(Debug, Clone, Copy, PartialEq, Eq, Structural)]
pub enum SupersedeRefusal {
    MissingLearningMetadata,
    AlreadyTerminal(LearningLifecycleState),
    ReplacementNotFound,
}

/// Supersession needs learning metadata, a record that is not yet final,
/// and an existing replacement, checked in that order.
pub open spec fn spec_supersede(
    has_learning_metadata: bool,
    lifecycle: LearningLifecycleState,
    replacement_exists: bool,
) -> Result<(), SupersedeRefusal> {
    if !has_learning_metadata {
        Err(SupersedeRefusal::MissingLearningMetadata)
    } else if is_terminal(lifecycle) {
        Err(SupersedeRefusal::AlreadyTerminal(lifecycle))
    } else if !replacement_exists {
        Err(SupersedeRefusal::ReplacementNotFound)
    } else {
        Ok(())
    }
}

/// Decides a supersession request (see `spec_supersede`).
pub fn decide_supersede(
    has_learning_metadata: bool,
    lifecycle: LearningLifecycleState,
    replacement_exists: bool,
) -> (r: Result<(), SupersedeRefusal>)
    ensures
        r == spec_supersede(has_learning_metadata, lifecycle, replacement_exists),
{
    if !has_learning_metadata {
        return Err(SupersedeRefusal::MissingLearningMetadata);
    }
    match lifecycle {
        LearningLifecycleState::Rejected | LearningLifecycleState::Archived
        | LearningLifecycleState::Superseded => {
            return Err(SupersedeRefusal::AlreadyTerminal(lifecycle));
        },
        _ => {},
    }
    if !replacement_exists {
        return Err(SupersedeRefusal::ReplacementNotFound);
    }
    Ok(())
}

/// A soft removal of a learning record; nothing is ever hard-deleted.
#[derive(Debug, Clone, Copy, PartialEq, Eq, Structural)]
pub enum SoftRemoval {
    Reject,
    Archive,
    Supersede,
}

impl SoftRemoval {
    /// Status the removal writes.
    pub open spec fn spec_status(self) -> LearningStatus {
        match self {
            SoftRemoval::Reject => LearningStatus::Rejected,
            SoftRemoval::Archive => LearningStatus::Archived,
            SoftRemoval::Supersede => LearningStatus::Superseded,
        }
    }

    /// Invalidation reason the removal records.
    pub open spec fn spec_reason(self) -> Seq<char> {
        match self {
            SoftRemoval::Reject => "learning_rejected"@,
            SoftRemoval::Archive => "learning_archived"@,
            SoftRemoval::Supersede => "superseded"@,
        }
    }

    pub fn status(&self) -> (r: LearningStatus)
        ensures
            r == self.spec_status(),
    {
        match self {
            SoftRemoval::Reject => LearningStatus::Rejected,
            SoftRemoval::Archive => LearningStatus::Archived,
            SoftRemoval::Supersede => LearningStatus::Superseded,
        }
    }

    pub fn invalidation_reason(&self) -> (r: String)
        ensures
            r@ == self.spec_reason(),
    {
        match self {
            SoftRemoval::Reject => String::from_str("learning_rejected"),
            SoftRemoval::Archive => String::from_str("learning_archived"),
            SoftRemoval::Supersede => String::from_str("superseded"),
        }
    }
}

/// The delete shim: mode "soft_reject" rejects, anything else archives.
pub fn delete_removal(mode: Option<&str>) -> (r: SoftRemoval)
    ensures
        r == match mode {
            Some(m) => if m@ == "soft_reject"@ {
                SoftRemoval::Reject
            } else {
                SoftRemoval::Archive
            },
            None => SoftRemoval::Archive,
        },
{
    match mode {
        Some(m) => if str_eq(m, "soft_reject") {
            SoftRemoval::Reject
        } else {
            SoftRemoval::Archive
        },
        None => SoftRemoval::Archive,
    }
}

/// Rank on the promotion ladder: candidate, then confirmed, then rule.
pub open spec fn ladder_rank(s: LearningStatus) -> int {
    match s {
        LearningStatus::Candidate => 0,
        LearningStatus::Confirmed => 1,
        LearningStatus::Rule => 2,
        _ => -1,
    }
}

/// A soft removal leaves a final record: its invalidation reason gives the
/// rejected, archived or superseded lifecycle, whatever status is stored, and
/// such a record can then be neither promoted, updated nor superseded.
pub proof fn lemma_soft_removal_is_final(
    removal: SoftRemoval,
    status: Option<LearningStatus>,
    target: Seq<char>,
    current: Option<LearningStatus>,
    has_learning_metadata: bool,
)
    ensures
        is_terminal(spec_lifecycle(true, Some(removal.spec_reason()), status)),
        spec_lifecycle(true, Some(removal.spec_reason()), status) == match removal {
            SoftRemoval::Reject => LearningLifecycleState::Rejected,
            SoftRemoval::Archive => LearningLifecycleState::Archived,
            SoftRemoval::Supersede => LearningLifecycleState::Superseded,
        },
        spec_promotion(target, spec_lifecycle(true, Some(removal.spec_reason()), status), current) is Err,
        update_locked(spec_lifecycle(true, Some(removal.spec_reason()), status)),
        has_learning_metadata ==> spec_supersede(
            has_learning_metadata,
            spec_lifecycle(true, Some(removal.spec_reason()), status),
            true,
        ) == Err::<(), SupersedeRefusal>(
            SupersedeRefusal::AlreadyTerminal(spec_lifecycle(true, Some(removal.spec_reason()), status)),
        ),
{
    reveal_strlit("learning_rejected");
    reveal_strlit("learning_archived");
    reveal_strlit("superseded");
    assert("learning_rejected"@.len() == 17);
    assert("learning_archived"@.len() == 17);
    assert("learning_rejected"@[9] != "learning_archived"@[9]);
}

/// A permitted promotion moves a record strictly up the ladder, and a
/// promotion to rule stores it as procedural memory, the type that a rule of
/// any kind has.
pub proof fn lemma_promotion_moves_up(
    target: Seq<char>,
    lifecycle: LearningLifecycleState,
    current: Option<LearningStatus>,
    kind: LearningKind,
)
    ensures
        spec_promotion(target, lifecycle, current) matches Ok(plan) ==> {
            &&& ladder_rank(plan.target_status) > ladder_rank(
                match current {
                    Some(s) => s,
                    None => LearningStatus::Candidate,
                },
            )
            &&& ladder_rank(
                match current {
                    Some(s) => s,
                    None => LearningStatus::Candidate,
                },
            ) >= 0
            &&& !is_terminal(lifecycle)
            &&& plan.target_status == LearningStatus::Rule ==> plan.new_memory_type == Some(
                spec_memory_type(kind, plan.target_status),
            )
            &&& plan.target_status == LearningStatus::Confirmed ==> plan.new_memory_type.is_none()
        },
{
}

// ─── scope matching ──────────────────────────────────────────────────────────

/// A record's scope matches the request exactly: same level and, for the
/// project level, the same project id.
pub open spec fn spec_scope_matches(
    record: LearningScope,
    requested_scope: Option<Seq<char>>,
    requested_project_id: Option<Seq<char>>,
) -> bool {
    match requested_scope {
        Some(s) => match spec_scope_level(s) {
            Some(level) => level == record.level && (level == ScopeLevel::Project
                ==> requested_project_id == opt_view(record.project_id)),
            None => false,
        },
        None => false,
    }
}

/// Whether a search request's scope matches a record's scope exactly (the
/// case in which ranking boosts the record).
pub fn scope_boost_applies(
    record_scope: &LearningScope,
    requested_scope: Option<&str>,
    requested_project_id: Option<&str>,
) -> (r: bool)
    ensures
        r == spec_scope_matches(
            *record_scope,
            match requested_scope {
                Some(s) => Some(s@),
                None => None,
            },
            match requested_project_id {
                Some(s) => Some(s@),
                None => None,
            },
        ),
{
    let level = match requested_scope {
        Some(s) => {
            let l = ScopeLevel::parse(s);
            proof {
                lemma_scope_parse(s@, l);
            }
            l
        },
        None => None,
    };
    match level {
        Some(level) => {
            if level != record_scope.level {
                return false;
            }
            if level == ScopeLevel::Project {
                match (requested_project_id, &record_scope.project_id) {
                    (Some(a), Some(b)) => str_eq(a, b.as_str()),
                    (None, None) => true,
                    _ => false,
                }
            } else {
                true
            }
        },
        None => false,
    }
}

// ─── legacy migration ────────────────────────────────────────────────────────

/// Parameters of a legacy migration run.
#[derive(Debug, PartialEq)]
pub struct MigrateLegacyParams {
    pub prefix_allowlist: Option<Vec<String>>,
    pub scope: Option<String>,
    pub project_id: Option<String>,
    pub dry_run: bool,
    pub limit: Option<usize>,
    pub include_invalidated: Option<bool>,
    pub invalidate_source: Option<bool>,
    pub extract_research_lessons: Option<bool>,
}

/// What classification reads of a legacy memory.
#[derive(Debug, PartialEq)]
pub struct LegacyMemory {
    pub content: String,
    /// `metadata.learning.schema_version`, when it is an unsigned integer.
    pub learning_schema_version: Option<u64>,
    /// The metadata serialized as JSON text, when there is metadata.
    pub metadata_json: Option<String>,
}

impl LegacyMemory {
    /// A memory with content only.
    pub fn new(content: String) -> (r: LegacyMemory)
        ensures
            r.content == content,
            r.learning_schema_version.is_none(),
            r.metadata_json.is_none(),
    {
        LegacyMemory { content, learning_schema_version: None, metadata_json: None }
    }
}

/// How a legacy memory is classified for migration.
#[derive(Debug, PartialEq)]
pub struct LegacyMigrationClassification {
    pub kind: Option<LearningKind>,
    pub status: Option<LearningStatus>,
    pub scope: Option<LearningScope>,
    pub outcome: String,
    pub reason: String,
}

/// Target scope level of a migration: the named level, or project when a
/// project id is given, else global; `None` for an unknown level name.
pub open spec fn spec_legacy_scope_level(p: MigrateLegacyParams) -> Option<ScopeLevel> {
    match p.scope {
        Some(s) => spec_scope_level(s@),
        None => if p.project_id.is_some() {
            Some(ScopeLevel::Project)
        } else {
            Some(ScopeLevel::Global)
        },
    }
}

/// The target scope of a migration, or the message for an unknown level.
pub fn legacy_scope(params: &MigrateLegacyParams) -> (r: Result<LearningScope, String>)
    ensures
        match r {
            Ok(scope) => {
                &&& spec_legacy_scope_level(*params) == Some(scope.level)
                &&& scope.project_id == params.project_id
                &&& scope.workspace.is_none()
                &&& scope.mode.is_none()
                &&& scope.user_id.is_none()
                &&& scope.agent_id.is_none()
                &&& scope.run_id.is_none()
                &&& scope.namespace.is_none()
            },
            Err(message) => {
                &&& spec_legacy_scope_level(*params).is_none()
                &&& message@ == "Invalid scope: '"@ + params.scope->0@ + "'"@
            },
        },
{
    let level = match &params.scope {
        Some(s) => {
            let l = ScopeLevel::parse(s.as_str());
            proof {
                lemma_scope_parse(s@, l);
            }
            match l {
                Some(level) => level,
                None => {
                    let message = String::from_str("Invalid scope: '").concat(s.as_str()).concat(
                        "'",
                    );
                    return Err(message);
                },
            }
        },
        None => if params.project_id.is_some() {
            ScopeLevel::Project
        } else {
            ScopeLevel::Global
        },
    };
    Ok(
        LearningScope {
            level,
            project_id: clone_opt_string(&params.project_id),
            workspace: None,
            mode: None,
            user_id: None,
            agent_id: None,
            run_id: None,
            namespace: None,
        },
    )
}

/// Classification as contracts see it: kind, status, scope level, outcome
/// and reason.
pub struct ClassificationView {
    pub kind: Option<LearningKind>,
    pub status: Option<LearningStatus>,
    pub level: Option<ScopeLevel>,
    pub outcome: Seq<char>,
    pub reason: Seq<char>,
}

pub open spec fn not_classified(outcome: Seq<char>, reason: Seq<char>) -> ClassificationView {
    ClassificationView { kind: None, status: None, level: None, outcome, reason }
}

pub open spec fn eligible_as(
    kind: LearningKind,
    status: LearningStatus,
    level: ScopeLevel,
    reason: Seq<char>,
) -> ClassificationView {
    ClassificationView {
        kind: Some(kind),
        status: Some(status),
        level: Some(level),
        outcome: "eligible"@,
        reason,
    }
}

/// The lower-cased metadata text contains one of the needles.
pub open spec fn metadata_mentions(m: LegacyMemory, needles: Seq<Seq<char>>) -> bool {
    match m.metadata_json {
        Some(t) => exists|i: int| 0 <= i < needles.len() && seq_contains(ascii_lower(t@), needles[i]),
        None => false,
    }
}

pub open spec fn preference_or_rule_hints() -> Seq<Seq<char>> {
    seq!["preference"@, "workflow_rule"@, "workflow rule"@, "rule"@]
}

pub open spec fn rule_hints() -> Seq<Seq<char>> {
    seq!["workflow_rule"@, "workflow rule"@, "rule"@]
}

/// Some prefix of the allowlist begins the content.
pub open spec fn allowlisted(content: Seq<char>, allowlist: Seq<String>) -> bool {
    exists|i: int| 0 <= i < allowlist.len() && seq_starts_with(content, allowlist[i]@)
}

/// Classification of a legacy memory for migration: records that already
/// carry a learning schema are already migrated; records outside the prefix
/// allowlist or with an unknown target scope are skipped; then the content
/// (leading whitespace ignored) decides by its prefix.
pub open spec fn spec_classify(m: LegacyMemory, p: MigrateLegacyParams) -> ClassificationView {
    let content = trim_start(m.content@);
    let level = spec_legacy_scope_level(p);
    if m.learning_schema_version.is_some() {
        not_classified("already_migrated"@, "record already has metadata.learning.schema_version"@)
    } else if p.prefix_allowlist matches Some(list) && !allowlisted(m.content@, list@) {
        not_classified("skipped"@, "content prefix is not in prefix_allowlist"@)
    } else if level.is_none() {
        not_classified("skipped"@, "invalid target scope"@)
    } else if seq_starts_with(content, "USER — Preference:"@) {
        eligible_as(
            LearningKind::UserPreference,
            LearningStatus::Confirmed,
            level->0,
            "USER — Preference prefix"@,
        )
    } else if seq_starts_with(content, "USER:"@) {
        if metadata_mentions(m, preference_or_rule_hints()) {
            if metadata_mentions(m, rule_hints()) {
                eligible_as(
                    LearningKind::WorkflowRule,
                    LearningStatus::Rule,
                    level->0,
                    "USER metadata rule hint"@,
                )
            } else {
                eligible_as(
                    LearningKind::UserPreference,
                    LearningStatus::Confirmed,
                    level->0,
                    "USER metadata preference hint"@,
                )
            }
        } else {
            not_classified(
                "ambiguous"@,
                "USER prefix requires preference/rule metadata or caller rule"@,
            )
        }
    } else if seq_starts_with(content, "CONTEXT:"@) && level == Some(ScopeLevel::Project) {
        eligible_as(
            LearningKind::ProjectPattern,
            LearningStatus::Candidate,
            level->0,
            "CONTEXT project scope"@,
        )
    } else if seq_starts_with(content, "RESEARCH:"@) && p.extract_research_lessons == Some(true) {
        eligible_as(
            LearningKind::ProjectLesson,
            LearningStatus::Candidate,
            level->0,
            "RESEARCH explicit lesson extraction"@,
        )
    } else if seq_starts_with(content, "TASK:"@) || seq_starts_with(content, "EPIC:"@) {
        not_classified("skipped"@, "TASK and EPIC records are excluded by default"@)
    } else {
        not_classified("ambiguous"@, "no eligible legacy learning prefix matched"@)
    }
}

/// A needle that ends with `suffix` occurs only where the suffix occurs.
proof fn lemma_contains_suffix(t: Seq<char>, needle: Seq<char>, suffix: Seq<char>)
    requires
        seq_contains(t, needle),
        suffix.len() <= needle.len(),
        needle.subrange(needle.len() - suffix.len(), needle.len() as int) == suffix,
    ensures
        seq_contains(t, suffix),
{
    let i = choose|i: int| crate::text::occurs_at(t, needle, i);
    let j = i + needle.len() - suffix.len();
    assert(t.subrange(j, j + suffix.len()) =~= needle.subrange(
        needle.len() - suffix.len(),
        needle.len() as int,
    ));
    assert(crate::text::occurs_at(t, suffix, j));
}

/// A legacy `USER:` record (one that is otherwise eligible for
/// classification) is classified by its lower-cased metadata text: one that
/// mentions "rule" becomes a workflow rule with status rule; one that
/// mentions "preference" but not "rule" becomes a confirmed user
/// preference; one with neither (or without metadata) is ambiguous.
pub proof fn lemma_user_records_by_metadata(m: LegacyMemory, p: MigrateLegacyParams)
    requires
        m.learning_schema_version is None,
        p.prefix_allowlist matches Some(list) ==> allowlisted(m.content@, list@),
        spec_legacy_scope_level(p) is Some,
        seq_starts_with(trim_start(m.content@), "USER:"@),
    ensures
        ({
            let c = spec_classify(m, p);
            let mentions = |needle: Seq<char>|
                m.metadata_json matches Some(t) && seq_contains(ascii_lower(t@), needle);
            &&& mentions("rule"@) ==> {
                &&& c.kind == Some(LearningKind::WorkflowRule)
                &&& c.status == Some(LearningStatus::Rule)
                &&& c.outcome == "eligible"@
                &&& c.reason == "USER metadata rule hint"@
            }
            &&& mentions("preference"@) && !mentions("rule"@) ==> {
                &&& c.kind == Some(LearningKind::UserPreference)
                &&& c.status == Some(LearningStatus::Confirmed)
                &&& c.outcome == "eligible"@
                &&& c.reason == "USER metadata preference hint"@
            }
            &&& !mentions("preference"@) && !mentions("rule"@) ==> {
                &&& c.kind is None
                &&& c.status is None
                &&& c.outcome == "ambiguous"@
            }
        }),
{
    reveal_strlit("USER:");
    reveal_strlit("USER — Preference:");
    reveal_strlit("rule");
    reveal_strlit("preference");
    reveal_strlit("workflow_rule");
    reveal_strlit("workflow rule");
    let content = trim_start(m.content@);
    assert(!seq_starts_with(content, "USER — Preference:"@)) by {
        if seq_starts_with(content, "USER — Preference:"@) {
            assert(content[4] == "USER:"@[4]);
            assert(content[4] == "USER — Preference:"@[4]);
        }
    }
    let pr = preference_or_rule_hints();
    let rh = rule_hints();
    match m.metadata_json {
        Some(t) => {
            let lt = ascii_lower(t@);
            if seq_contains(lt, "rule"@) {
                assert(pr[3] == "rule"@);
                assert(rh[2] == "rule"@);
                assert(metadata_mentions(m, pr));
                assert(metadata_mentions(m, rh));
            } else {
                assert forall|i: int| 0 <= i < rh.len() implies !seq_contains(lt, #[trigger] rh[i]) by {
                    if seq_contains(lt, rh[i]) {
                        assert(rh[i].subrange(rh[i].len() - 4, rh[i].len() as int) =~= "rule"@);
                        lemma_contains_suffix(lt, rh[i], "rule"@);
                    }
                }
                assert(!metadata_mentions(m, rh));
                if seq_contains(lt, "preference"@) {
                    assert(pr[0] == "preference"@);
                    assert(metadata_mentions(m, pr));
                } else {
                    assert forall|i: int| 0 <= i < pr.len() implies !seq_contains(lt, #[trigger] pr[i]) by {
                        if i > 0 && seq_contains(lt, pr[i]) {
                            assert(pr[i].subrange(pr[i].len() - 4, pr[i].len() as int) =~= "rule"@);
                            lemma_contains_suffix(lt, pr[i], "rule"@);
                        }
                    }
                    assert(!metadata_mentions(m, pr));
                }
            }
        },
        None => {},
    }
}

/// `c` is the classification `v` with the scope built for `p`.
pub open spec fn classification_describes(
    c: LegacyMigrationClassification,
    v: ClassificationView,
    p: MigrateLegacyParams,
) -> bool {
    &&& c.kind == v.kind
    &&& c.status == v.status
    &&& c.outcome@ == v.outcome
    &&& c.reason@ == v.reason
    &&& match v.level {
        Some(level) => c.scope matches Some(s) && {
            &&& s.level == level
            &&& s.project_id == p.project_id
            &&& s.workspace.is_none()
            &&& s.mode.is_none()
            &&& s.user_id.is_none()
            &&& s.agent_id.is_none()
            &&& s.run_id.is_none()
            &&& s.namespace.is_none()
        },
        None => c.scope.is_none(),
    }
}

fn classification(
    kind: Option<LearningKind>,
    status: Option<LearningStatus>,
    scope: Option<LearningScope>,
    outcome: &str,
    reason: &str,
) -> (r: LegacyMigrationClassification)
    ensures
        r.kind == kind,
        r.status == status,
        r.scope == scope,
        r.outcome@ == outcome@,
        r.reason@ == reason@,
{
    LegacyMigrationClassification { kind, status, scope, outcome: outcome.to_owned(), reason: reason.to_owned() }
}

/// Whether the text contains one of the needles.
fn contains_any(t: &Vec<char>, needles: &[&str]) -> (r: bool)
    ensures
        r == exists|i: int| 0 <= i < needles@.len() && seq_contains(t@, needles@[i]@),
{
    for i in 0..needles.len()
        invariant
            forall|j: int| 0 <= j < i ==> !seq_contains(t@, needles@[j]@),
    {
        if contains_str(t, needles[i]) {
            assert(seq_contains(t@, needles@[i as int]@));
            return true;
        }
    }
    false
}

/// Whether the lower-cased metadata text contains one of the needles.
fn mentions_any(text: &Option<Vec<char>>, needles: &[&str]) -> (r: bool)
    ensures
        r == match text {
            Some(t) => exists|i: int| 0 <= i < needles@.len() && seq_contains(t@, needles@[i]@),
            None => false,
        },
{
    match text {
        None => false,
        Some(t) => contains_any(t, needles),
    }
}

/// Whether some prefix of the allowlist begins the content.
fn allowlist_admits(content: &Vec<char>, allowlist: &Vec<String>) -> (r: bool)
    ensures
        r == allowlisted(content@, allowlist@),
{
    for i in 0..allowlist.len()
        invariant
            forall|j: int| 0 <= j < i ==> !seq_starts_with(content@, allowlist@[j]@),
    {
        let prefix = chars_of(allowlist[i].as_str());
        if starts_with_chars(content, &prefix) {
            return true;
        }
    }
    false
}

/// Classifies a legacy memory for migration (see `spec_classify`).
pub fn classify_legacy_memory(memory: &LegacyMemory, params: &MigrateLegacyParams) -> (r: LegacyMigrationClassification)
    ensures
        classification_describes(r, spec_classify(*memory, *params), *params),
{
    if memory.learning_schema_version.is_some() {
        return classification(
            None,
            None,
            None,
            "already_migrated",
            "record already has metadata.learning.schema_version",
        );
    }
    let raw = chars_of(memory.content.as_str());
    if let Some(allowlist) = &params.prefix_allowlist {
        if !allowlist_admits(&raw, allowlist) {
            return classification(
                None,
                None,
                None,
                "skipped",
                "content prefix is not in prefix_allowlist",
            );
        }
    }
    let scope = match legacy_scope(params) {
        Ok(scope) => scope,
        Err(_) => {
            return classification(None, None, None, "skipped", "invalid target scope");
        },
    };
    let level = scope.level;
    let content = trim_start_chars(&raw);
    let lowered: Option<Vec<char>> = match &memory.metadata_json {
        Some(t) => Some(ascii_lower_chars(&chars_of(t.as_str()))),
        None => None,
    };
    let preference_needles: [&str; 4] = ["preference", "workflow_rule", "workflow rule", "rule"];
    let rule_needles: [&str; 3] = ["workflow_rule", "workflow rule", "rule"];
    proof {
        assert(preference_needles@.map_values(|s: &str| s@) =~= preference_or_rule_hints());
        assert(rule_needles@.map_values(|s: &str| s@) =~= rule_hints());
        let pv = preference_needles@.map_values(|s: &str| s@);
        let rv = rule_needles@.map_values(|s: &str| s@);
        assert forall|i: int| 0 <= i < 4 implies preference_needles@[i]@ == preference_or_rule_hints()[i] by {
            assert(pv[i] == preference_needles@[i]@);
        }
        assert forall|i: int| 0 <= i < 3 implies rule_needles@[i]@ == rule_hints()[i] by {
            assert(rv[i] == rule_needles@[i]@);
        }
    }
    if starts_with_str(&content, "USER — Preference:") {
        classification(
            Some(LearningKind::UserPreference),
            Some(LearningStatus::Confirmed),
            Some(scope),
            "eligible",
            "USER — Preference prefix",
        )
    } else if starts_with_str(&content, "USER:") {
        if mentions_any(&lowered, preference_needles.as_slice()) {
            if mentions_any(&lowered, rule_needles.as_slice()) {
                classification(
                    Some(LearningKind::WorkflowRule),
                    Some(LearningStatus::Rule),
                    Some(scope),
                    "eligible",
                    "USER metadata rule hint",
                )
            } else {
                classification(
                    Some(LearningKind::UserPreference),
                    Some(LearningStatus::Confirmed),
                    Some(scope),
                    "eligible",
                    "USER metadata preference hint",
                )
            }
        } else {
            classification(
                None,
                None,
                None,
                "ambiguous",
                "USER prefix requires preference/rule metadata or caller rule",
            )
        }
    } else if starts_with_str(&content, "CONTEXT:") && level == ScopeLevel::Project {
        classification(
            Some(LearningKind::ProjectPattern),
            Some(LearningStatus::Candidate),
            Some(scope),
            "eligible",
            "CONTEXT project scope",
        )
    } else if starts_with_str(&content, "RESEARCH:") && params.extract_research_lessons == Some(true) {
        classification(
            Some(LearningKind::ProjectLesson),
            Some(LearningStatus::Candidate),
            Some(scope),
            "eligible",
            "RESEARCH explicit lesson extraction",
        )
    } else if starts_with_str(&content, "TASK:") || starts_with_str(&content, "EPIC:") {
        classification(None, None, None, "skipped", "TASK and EPIC records are excluded by default")
    } else {
        classification(None, None, None, "ambiguous", "no eligible legacy learning prefix matched")
    }
}


// ─── migration runs ──────────────────────────────────────────────────────────

/// How many legacy records one run scans: 50 unless given, at most 100.
pub fn migration_limit(limit: Option<usize>) -> (r: usize)
    ensures
        r == match limit {
            Some(l) => if l < 100 { l } else { 100 },
            None => 50,
        },
{
    let l = match limit {
        Some(l) => l,
        None => 50,
    };
    if l < 100 {
        l
    } else {
        100
    }
}

impl LearningScope {
    /// Same level and the same optional fields.
    pub open spec fn spec_same(self, other: LearningScope) -> bool {
        &&& self.level == other.level
        &&& opt_view(self.project_id) == opt_view(other.project_id)
        &&& opt_view(self.workspace) == opt_view(other.workspace)
        &&& opt_view(self.mode) == opt_view(other.mode)
        &&& opt_view(self.user_id) == opt_view(other.user_id)
        &&& opt_view(self.agent_id) == opt_view(other.agent_id)
        &&& opt_view(self.run_id) == opt_view(other.run_id)
        &&& opt_view(self.namespace) == opt_view(other.namespace)
    }

    /// Whether two scopes are the same.
    pub fn same(&self, other: &LearningScope) -> (r: bool)
        ensures
            r == self.spec_same(*other),
    {
        self.level == other.level && opt_str_eq(&self.project_id, &other.project_id)
            && opt_str_eq(&self.workspace, &other.workspace) && opt_str_eq(&self.mode, &other.mode)
            && opt_str_eq(&self.user_id, &other.user_id) && opt_str_eq(
            &self.agent_id,
            &other.agent_id,
        ) && opt_str_eq(&self.run_id, &other.run_id) && opt_str_eq(
            &self.namespace,
            &other.namespace,
        )
    }
}

/// Whether two optional strings hold the same characters.
fn opt_str_eq(a: &Option<String>, b: &Option<String>) -> (r: bool)
    ensures
        r == (opt_view(*a) == opt_view(*b)),
{
    match (a, b) {
        (Some(x), Some(y)) => str_eq(x.as_str(), y.as_str()),
        (None, None) => true,
        _ => false,
    }
}

/// Whether the list holds a string with the characters of `s`.
fn holds_string(v: &Vec<String>, s: &str) -> (r: bool)
    ensures
        r == exists|k: int| 0 <= k < v@.len() && #[trigger] v@[k]@ == s@,
{
    for k in 0..v.len()
        invariant
            forall|j: int| 0 <= j < k ==> #[trigger] v@[j]@ != s@,
    {
        if str_eq(v[k].as_str(), s) {
            return true;
        }
    }
    false
}

/// The learning metadata of an existing learning record, as far as the
/// migration reads it.
#[derive(Debug)]
pub struct MigratedLearningFields {
    pub created_from: CreatedFrom,
    pub source_memory_ids: Vec<String>,
    pub kind: LearningKind,
    pub scope: LearningScope,
}

/// An existing learning record; `learning` is `None` when its metadata holds
/// no valid learning section.
#[derive(Debug)]
pub struct MigratedLearning {
    pub memory_id: Option<String>,
    pub content_hash: Option<String>,
    pub learning: Option<MigratedLearningFields>,
}

/// How a legacy record was found to be migrated already.
#[derive(Debug, Clone, Copy, PartialEq, Eq, Structural)]
pub enum MatchConfidence {
    /// A migrated record names the legacy record as its source.
    Primary,
    /// A record with the same content hash, kind and scope exists.
    Secondary,
}

impl MatchConfidence {
    pub open spec fn spec_name(self) -> Seq<char> {
        match self {
            MatchConfidence::Primary => "primary"@,
            MatchConfidence::Secondary => "secondary"@,
        }
    }

    pub fn name(&self) -> (r: String)
        ensures
            r@ == self.spec_name(),
    {
        match self {
            MatchConfidence::Primary => String::from_str("primary"),
            MatchConfidence::Secondary => String::from_str("secondary"),
        }
    }
}

/// A learning record that a legacy record was already migrated to.
#[derive(Debug)]
pub struct AlreadyMigratedMatch {
    pub confidence: MatchConfidence,
    pub matched_memory_id: String,
}

/// `e` is a migration of the legacy record `legacy_id`.
pub open spec fn primary_match(e: MigratedLearning, legacy_id: Seq<char>) -> bool {
    &&& e.memory_id.is_some()
    &&& e.learning matches Some(l)
    &&& l.created_from == CreatedFrom::Migration
    &&& exists|k: int| 0 <= k < l.source_memory_ids@.len() && #[trigger] l.source_memory_ids@[k]@ == legacy_id
}

/// `e` holds the same content, kind and scope as the classified legacy record.
pub open spec fn secondary_match(
    e: MigratedLearning,
    legacy_hash: Seq<char>,
    kind: Option<LearningKind>,
    scope: Option<LearningScope>,
) -> bool {
    &&& e.memory_id.is_some()
    &&& e.learning matches Some(l)
    &&& kind matches Some(k)
    &&& scope matches Some(sc)
    &&& opt_view(e.content_hash) == Some(legacy_hash)
    &&& l.kind == k
    &&& l.scope.spec_same(sc)
}

pub open spec fn migration_match(
    e: MigratedLearning,
    legacy_id: Seq<char>,
    legacy_hash: Seq<char>,
    kind: Option<LearningKind>,
    scope: Option<LearningScope>,
) -> bool {
    primary_match(e, legacy_id) || secondary_match(e, legacy_hash, kind, scope)
}

/// The first existing learning record that the legacy record was migrated to:
/// one that names it as its migration source (primary), or else one with its
/// content hash, kind and scope (secondary).
pub fn find_already_migrated_match(
    legacy_id: &str,
    legacy_hash: &str,
    classification: &LegacyMigrationClassification,
    existing_learning: &Vec<MigratedLearning>,
) -> (r: Option<AlreadyMigratedMatch>)
    ensures
        match r {
            None => forall|i: int|
                0 <= i < existing_learning@.len() ==> !#[trigger] migration_match(
                    existing_learning@[i],
                    legacy_id@,
                    legacy_hash@,
                    classification.kind,
                    classification.scope,
                ),
            Some(m) => exists|i: int|
                {
                    &&& 0 <= i < existing_learning@.len()
                    &&& #[trigger] migration_match(
                        existing_learning@[i],
                        legacy_id@,
                        legacy_hash@,
                        classification.kind,
                        classification.scope,
                    )
                    &&& forall|j: int|
                        0 <= j < i ==> !#[trigger] migration_match(
                            existing_learning@[j],
                            legacy_id@,
                            legacy_hash@,
                            classification.kind,
                            classification.scope,
                        )
                    &&& opt_view(existing_learning@[i].memory_id) == Some(m.matched_memory_id@)
                    &&& m.confidence == if primary_match(existing_learning@[i], legacy_id@) {
                        MatchConfidence::Primary
                    } else {
                        MatchConfidence::Secondary
                    }
                },
        },
{
    for i in 0..existing_learning.len()
        invariant
            forall|j: int|
                0 <= j < i ==> !#[trigger] migration_match(
                    existing_learning@[j],
                    legacy_id@,
                    legacy_hash@,
                    classification.kind,
                    classification.scope,
                ),
    {
        let candidate = &existing_learning[i];
        if let (Some(learning), Some(candidate_id)) = (&candidate.learning, &candidate.memory_id) {
            if learning.created_from == CreatedFrom::Migration && holds_string(
                &learning.source_memory_ids,
                legacy_id,
            ) {
                let m = AlreadyMigratedMatch {
                    confidence: MatchConfidence::Primary,
                    matched_memory_id: candidate_id.clone(),
                };
                assert(migration_match(
                    existing_learning@[i as int],
                    legacy_id@,
                    legacy_hash@,
                    classification.kind,
                    classification.scope,
                ));
                return Some(m);
            }
            if let (Some(kind), Some(scope)) = (&classification.kind, &classification.scope) {
                let same_hash = match &candidate.content_hash {
                    Some(h) => str_eq(h.as_str(), legacy_hash),
                    None => false,
                };
                if same_hash && learning.kind == *kind && learning.scope.same(scope) {
                    let m = AlreadyMigratedMatch {
                        confidence: MatchConfidence::Secondary,
                        matched_memory_id: candidate_id.clone(),
                    };
                    assert(migration_match(
                        existing_learning@[i as int],
                        legacy_id@,
                        legacy_hash@,
                        classification.kind,
                        classification.scope,
                    ));
                    return Some(m);
                }
            }
        }
    }
    None
}


/// The four classification outcomes are different words.
proof fn lemma_outcome_names_distinct()
    ensures
        "already_migrated"@ != "ambiguous"@,
        "already_migrated"@ != "skipped"@,
        "already_migrated"@ != "eligible"@,
        "ambiguous"@ != "skipped"@,
        "ambiguous"@ != "eligible"@,
        "skipped"@ != "eligible"@,
{
    reveal_strlit("already_migrated");
    reveal_strlit("ambiguous");
    reveal_strlit("skipped");
    reveal_strlit("eligible");
    assert("already_migrated"@.len() == 16);
    assert("ambiguous"@.len() == 9);
    assert("skipped"@.len() == 7);
}

/// A legacy record offered to a migration run, as far as the run reads it.
#[derive(Debug)]
pub struct MigrationCandidate {
    /// Stable id of the record, when it has one.
    pub id: Option<String>,
    /// The record has been invalidated.
    pub invalidated: bool,
    /// The stored content hash, or the hash of the content when none is stored.
    pub content_hash: String,
    pub memory: LegacyMemory,
}

/// What a migration run does with one legacy record.
#[derive(Debug)]
pub enum MigrationDecision {
    /// Skipped: the record has no stable id.
    MissingId,
    /// Skipped: invalidated records are excluded unless asked for.
    InvalidatedSkipped,
    /// The classification says the record is already migrated.
    AlreadyMigrated,
    Ambiguous,
    Skipped,
    /// A learning record migrated from it already exists.
    Matched(AlreadyMigratedMatch),
    /// A learning record is to be created from it.
    Eligible,
}

/// One decided legacy record: the decision and, once the record got that
/// far, its classification.
#[derive(Debug)]
pub struct MigrationStep {
    pub decision: MigrationDecision,
    pub classification: Option<LegacyMigrationClassification>,
}

/// The decision on one legacy record: records without an id are skipped,
/// invalidated ones are skipped unless `include_invalidated`; then the
/// classification decides, and an eligible record that matches an existing
/// learning record counts as already migrated.
pub fn decide_legacy_migration(
    candidate: &MigrationCandidate,
    params: &MigrateLegacyParams,
    existing_learning: &Vec<MigratedLearning>,
) -> (r: MigrationStep)
    ensures
        candidate.id is None ==> r.decision is MissingId && r.classification is None,
        candidate.id is Some && candidate.invalidated && params.include_invalidated != Some(true)
            ==> r.decision is InvalidatedSkipped && r.classification is None,
        candidate.id is Some && (!candidate.invalidated || params.include_invalidated
            == Some(true)) ==> {
            let v = spec_classify(candidate.memory, *params);
            &&& r.classification matches Some(c)
            &&& classification_describes(c, v, *params)
            &&& v.outcome == "already_migrated"@ ==> r.decision is AlreadyMigrated
            &&& v.outcome == "ambiguous"@ ==> r.decision is Ambiguous
            &&& v.outcome == "skipped"@ ==> r.decision is Skipped
            &&& v.outcome == "eligible"@ ==> match r.decision {
                MigrationDecision::Matched(m) => exists|i: int|
                    {
                        &&& 0 <= i < existing_learning@.len()
                        &&& #[trigger] migration_match(
                            existing_learning@[i],
                            candidate.id->0@,
                            candidate.content_hash@,
                            c.kind,
                            c.scope,
                        )
                        &&& forall|j: int|
                            0 <= j < i ==> !#[trigger] migration_match(
                                existing_learning@[j],
                                candidate.id->0@,
                                candidate.content_hash@,
                                c.kind,
                                c.scope,
                            )
                        &&& opt_view(existing_learning@[i].memory_id) == Some(m.matched_memory_id@)
                        &&& m.confidence == if primary_match(existing_learning@[i], candidate.id->0@) {
                            MatchConfidence::Primary
                        } else {
                            MatchConfidence::Secondary
                        }
                    },
                MigrationDecision::Eligible => forall|i: int|
                    0 <= i < existing_learning@.len() ==> !#[trigger] migration_match(
                        existing_learning@[i],
                        candidate.id->0@,
                        candidate.content_hash@,
                        c.kind,
                        c.scope,
                    ),
                _ => false,
            }
        },
{
    let id = match &candidate.id {
        Some(id) => id,
        None => {
            return MigrationStep { decision: MigrationDecision::MissingId, classification: None };
        },
    };
    let include_invalidated = match params.include_invalidated {
        Some(b) => b,
        None => false,
    };
    if candidate.invalidated && !include_invalidated {
        return MigrationStep { decision: MigrationDecision::InvalidatedSkipped, classification: None };
    }
    let c = classify_legacy_memory(&candidate.memory, params);
    proof {
        lemma_outcome_names_distinct();
    }
    if str_eq(c.outcome.as_str(), "already_migrated") {
        return MigrationStep { decision: MigrationDecision::AlreadyMigrated, classification: Some(c) };
    }
    if str_eq(c.outcome.as_str(), "ambiguous") {
        return MigrationStep { decision: MigrationDecision::Ambiguous, classification: Some(c) };
    }
    if str_eq(c.outcome.as_str(), "skipped") {
        return MigrationStep { decision: MigrationDecision::Skipped, classification: Some(c) };
    }
    let found = find_already_migrated_match(
        id.as_str(),
        candidate.content_hash.as_str(),
        &c,
        existing_learning,
    );
    match found {
        Some(m) => MigrationStep { decision: MigrationDecision::Matched(m), classification: Some(c) },
        None => MigrationStep { decision: MigrationDecision::Eligible, classification: Some(c) },
    }
}

/// What a migration run does with one legacy record once it is decided.
#[derive(Debug, Clone, Copy, PartialEq, Eq, Structural)]
pub enum MigrationAction {
    /// Only reported: the record is skipped or already migrated.
    Report,
    /// A dry run: reported as eligible, with what would be done.
    Preview { would_invalidate_source: bool },
    /// A learning record is created; the source is invalidated (as replaced
    /// by it) when asked.
    Create { invalidate_source: bool },
}

/// The action for a decided record: eligible records are previewed in a dry
/// run and created otherwise, the source invalidated only when
/// `invalidate_source` is set; every other decision is only reported.
pub fn migration_action(decision: &MigrationDecision, params: &MigrateLegacyParams) -> (r: MigrationAction)
    ensures
        r == match decision {
            MigrationDecision::Eligible => {
                let inv = match params.invalidate_source {
                    Some(b) => b,
                    None => false,
                };
                if params.dry_run {
                    MigrationAction::Preview { would_invalidate_source: inv }
                } else {
                    MigrationAction::Create { invalidate_source: inv }
                }
            },
            _ => MigrationAction::Report,
        },
{
    match decision {
        MigrationDecision::Eligible => {
            let inv = match params.invalidate_source {
                Some(b) => b,
                None => false,
            };
            if params.dry_run {
                MigrationAction::Preview { would_invalidate_source: inv }
            } else {
                MigrationAction::Create { invalidate_source: inv }
            }
        },
        _ => MigrationAction::Report,
    }
}

/// The invalidation reason a source replaced by its migrated record gets.
pub fn migration_replaced_reason() -> (r: &'static str)
    ensures
        r@ == "migration_replaced"@,
{
    "migration_replaced"
}

/// Tallies of a migration run.
#[derive(Debug, PartialEq, Eq, Structural)]
pub struct MigrationCounts {
    pub scanned: usize,
    pub eligible: usize,
    pub created: usize,
    pub skipped: usize,
    pub ambiguous: usize,
    pub already_migrated: usize,
    pub invalidated_skipped: usize,
}

impl MigrationCounts {
    /// Every scanned record falls in exactly one outcome, and only eligible
    /// records are created.
    pub open spec fn balanced(self) -> bool {
        &&& self.scanned == self.eligible + self.skipped + self.ambiguous + self.already_migrated
            + self.invalidated_skipped
        &&& self.created <= self.eligible
    }

    /// The tallies after one more decision.
    pub open spec fn spec_record(self, d: MigrationDecision) -> MigrationCounts {
        let c = MigrationCounts { scanned: (self.scanned + 1) as usize, ..self };
        match d {
            MigrationDecision::MissingId | MigrationDecision::Skipped => MigrationCounts {
                skipped: (self.skipped + 1) as usize,
                ..c
            },
            MigrationDecision::InvalidatedSkipped => MigrationCounts {
                invalidated_skipped: (self.invalidated_skipped + 1) as usize,
                ..c
            },
            MigrationDecision::AlreadyMigrated | MigrationDecision::Matched(_) => MigrationCounts {
                already_migrated: (self.already_migrated + 1) as usize,
                ..c
            },
            MigrationDecision::Ambiguous => MigrationCounts {
                ambiguous: (self.ambiguous + 1) as usize,
                ..c
            },
            MigrationDecision::Eligible => MigrationCounts {
                eligible: (self.eligible + 1) as usize,
                ..c
            },
        }
    }

    /// All tallies zero.
    pub fn new() -> (r: MigrationCounts)
        ensures
            r == (MigrationCounts {
                scanned: 0,
                eligible: 0,
                created: 0,
                skipped: 0,
                ambiguous: 0,
                already_migrated: 0,
                invalidated_skipped: 0,
            }),
            r.balanced(),
    {
        MigrationCounts {
            scanned: 0,
            eligible: 0,
            created: 0,
            skipped: 0,
            ambiguous: 0,
            already_migrated: 0,
            invalidated_skipped: 0,
        }
    }

    /// Counts one scanned record under its decision.
    pub fn record(&mut self, decision: &MigrationDecision)
        requires
            old(self).balanced(),
            old(self).scanned < usize::MAX,
        ensures
            *final(self) == old(self).spec_record(*decision),
    {
        self.scanned = self.scanned + 1;
        match decision {
            MigrationDecision::MissingId | MigrationDecision::Skipped => {
                self.skipped = self.skipped + 1;
            },
            MigrationDecision::InvalidatedSkipped => {
                self.invalidated_skipped = self.invalidated_skipped + 1;
            },
            MigrationDecision::AlreadyMigrated | MigrationDecision::Matched(_) => {
                self.already_migrated = self.already_migrated + 1;
            },
            MigrationDecision::Ambiguous => {
                self.ambiguous = self.ambiguous + 1;
            },
            MigrationDecision::Eligible => {
                self.eligible = self.eligible + 1;
            },
        }
    }

    /// Counts one created learning record.
    pub fn record_created(&mut self)
        requires
            old(self).created < old(self).eligible,
        ensures
            *final(self) == (MigrationCounts { created: (old(self).created + 1) as usize, ..*old(self) }),
    {
        self.created = self.created + 1;
    }
}

/// Counting a decision keeps the tallies balanced, and counting a creation
/// below the number of eligible records does too.
pub proof fn lemma_migration_counts_stay_balanced(c: MigrationCounts, d: MigrationDecision)
    requires
        c.balanced(),
        c.scanned < usize::MAX,
    ensures
        c.spec_record(d).balanced(),
        c.spec_record(d).scanned == c.scanned + 1,
        c.created < c.eligible ==> (MigrationCounts { created: (c.created + 1) as usize, ..c }).balanced(),
{
}


// ─── creating and searching ──────────────────────────────────────────────────

/// The fields a create request names, parsed.
#[derive(Debug, Clone, Copy, PartialEq, Eq, Structural)]
pub struct CreateFields {
    pub kind: LearningKind,
    pub status: LearningStatus,
    pub level: ScopeLevel,
    pub created_from: CreatedFrom,
}

/// Parses the names of a create request, checked in order: the kind must be
/// a kind; the status (candidate by default), the scope level (global by
/// default) and the source (manual by default) must name one when given.
/// Each refusal quotes the offending name.
pub fn parse_create_fields(
    kind: &str,
    status: Option<&str>,
    scope: Option<&str>,
    source: Option<&str>,
) -> (r: Result<CreateFields, String>)
    ensures
        match r {
            Ok(f) => {
                &&& f.kind.spec_name() == kind@
                &&& match status {
                    Some(s) => f.status.spec_name() == s@,
                    None => f.status == LearningStatus::Candidate,
                }
                &&& match scope {
                    Some(s) => f.level.spec_name() == s@,
                    None => f.level == ScopeLevel::Global,
                }
                &&& match source {
                    Some(s) => f.created_from.spec_name() == s@,
                    None => f.created_from == CreatedFrom::Manual,
                }
            },
            Err(m) => if forall|k: LearningKind| k.spec_name() != kind@ {
                m@ == "Invalid kind: '"@ + kind@ + "'"@
            } else if status matches Some(s) && forall|k: LearningStatus| k.spec_name() != s@ {
                m@ == "Invalid status: '"@ + status->0@ + "'"@
            } else if scope matches Some(s) && forall|k: ScopeLevel| k.spec_name() != s@ {
                m@ == "Invalid scope: '"@ + scope->0@ + "'"@
            } else {
                &&& source matches Some(s)
                &&& forall|k: CreatedFrom| k.spec_name() != s@
                &&& m@ == "Invalid source: '"@ + source->0@ + "'"@
            },
        },
{
    let kind_v = match LearningKind::parse(kind) {
        Some(k) => k,
        None => {
            return Err(String::from_str("Invalid kind: '").concat(kind).concat("'"));
        },
    };
    let status_v = match status {
        Some(s) => match LearningStatus::parse(s) {
            Some(st) => st,
            None => {
                return Err(String::from_str("Invalid status: '").concat(s).concat("'"));
            },
        },
        None => LearningStatus::Candidate,
    };
    let level = match scope {
        Some(s) => match ScopeLevel::parse(s) {
            Some(l) => l,
            None => {
                return Err(String::from_str("Invalid scope: '").concat(s).concat("'"));
            },
        },
        None => ScopeLevel::Global,
    };
    let created_from = match source {
        Some(s) => match CreatedFrom::parse(s) {
            Some(c) => c,
            None => {
                return Err(String::from_str("Invalid source: '").concat(s).concat("'"));
            },
        },
        None => CreatedFrom::Manual,
    };
    Ok(CreateFields { kind: kind_v, status: status_v, level, created_from })
}

/// Whether a status passes a status filter: on the allowed list when that
/// list is given and not empty, and not on the denied list.
pub open spec fn spec_status_allowed(
    status: LearningStatus,
    allowed: Option<Seq<LearningStatus>>,
    denied: Option<Seq<LearningStatus>>,
) -> bool {
    &&& (allowed is Some && allowed->0.len() > 0 ==> allowed->0.contains(status))
    &&& (denied is Some ==> !denied->0.contains(status))
}

fn holds_status(v: &Vec<LearningStatus>, s: LearningStatus) -> (r: bool)
    ensures
        r == v@.contains(s),
{
    for i in 0..v.len()
        invariant
            forall|k: int| 0 <= k < i ==> v@[k] != s,
    {
        if v[i] == s {
            assert(v@[i as int] == s);
            return true;
        }
    }
    false
}

pub open spec fn opt_statuses(o: Option<&Vec<LearningStatus>>) -> Option<Seq<LearningStatus>> {
    match o {
        Some(v) => Some(v@),
        None => None,
    }
}

/// Whether a learning record with this status passes the filter; records
/// without a readable status never do.
pub fn status_allowed(
    status: Option<LearningStatus>,
    allowed: Option<&Vec<LearningStatus>>,
    denied: Option<&Vec<LearningStatus>>,
) -> (r: bool)
    ensures
        r == match status {
            Some(s) => spec_status_allowed(s, opt_statuses(allowed), opt_statuses(denied)),
            None => false,
        },
{
    let s = match status {
        Some(s) => s,
        None => {
            return false;
        },
    };
    if let Some(inc) = allowed {
        if inc.len() > 0 && !holds_status(inc, s) {
            return false;
        }
    }
    if let Some(exc) = denied {
        if holds_status(exc, s) {
            return false;
        }
    }
    true
}

/// The status and fallback options of a learning search.
#[derive(Debug, Clone, PartialEq, Eq)]
pub struct SearchFilter {
    /// Statuses to keep; an empty list keeps every status.
    pub allowed: Option<Vec<LearningStatus>>,
    /// Statuses to drop.
    pub denied: Option<Vec<LearningStatus>>,
    pub include_invalidated: bool,
    /// Audit mode: every status, invalidated records included.
    pub audit: bool,
    /// Records of other scopes are kept as a fallback.
    pub include_global: bool,
}

pub open spec fn status_list_view(o: Option<Vec<LearningStatus>>) -> Option<Seq<LearningStatus>> {
    match o {
        Some(v) => Some(v@),
        None => None,
    }
}

fn clone_statuses(v: &Vec<LearningStatus>) -> (r: Vec<LearningStatus>)
    ensures
        r@ == v@,
{
    let mut out: Vec<LearningStatus> = Vec::new();
    for i in 0..v.len()
        invariant
            out@ == v@.take(i as int),
    {
        out.push(v[i]);
        proof {
            assert(out@ =~= v@.take(i + 1));
        }
    }
    proof {
        assert(v@.take(v@.len() as int) =~= v@);
    }
    out
}

fn clone_status_list(o: &Option<Vec<LearningStatus>>) -> (r: Option<Vec<LearningStatus>>)
    ensures
        status_list_view(r) == status_list_view(*o),
{
    match o {
        Some(v) => Some(clone_statuses(v)),
        None => None,
    }
}

/// Lays a caller's listing filter over the default one: given status lists
/// replace the default ones, invalidated records and audit mode are switched
/// on when either asks, and the fallback is the caller's.
pub fn merge_list_filter(default: &SearchFilter, caller: &SearchFilter) -> (r: SearchFilter)
    ensures
        r.audit == (default.audit || caller.audit),
        r.include_invalidated == (default.include_invalidated || caller.include_invalidated),
        r.include_global == caller.include_global,
        status_list_view(r.allowed) == if caller.allowed is Some {
            status_list_view(caller.allowed)
        } else {
            status_list_view(default.allowed)
        },
        status_list_view(r.denied) == if caller.denied is Some {
            status_list_view(caller.denied)
        } else {
            status_list_view(default.denied)
        },
{
    let allowed = if caller.allowed.is_some() {
        clone_status_list(&caller.allowed)
    } else {
        clone_status_list(&default.allowed)
    };
    let denied = if caller.denied.is_some() {
        clone_status_list(&caller.denied)
    } else {
        clone_status_list(&default.denied)
    };
    SearchFilter {
        allowed,
        denied,
        include_invalidated: default.include_invalidated || caller.include_invalidated,
        audit: default.audit || caller.audit,
        include_global: caller.include_global,
    }
}

/// Lays a caller's search filter over the default one as listing does,
/// except that a caller's audit mode drops both status lists.
pub fn merge_search_filter(default: &SearchFilter, caller: &SearchFilter) -> (r: SearchFilter)
    ensures
        r.audit == (default.audit || caller.audit),
        r.include_invalidated == (default.include_invalidated || caller.include_invalidated),
        r.include_global == caller.include_global,
        status_list_view(r.allowed) == if caller.audit {
            None
        } else if caller.allowed is Some {
            status_list_view(caller.allowed)
        } else {
            status_list_view(default.allowed)
        },
        status_list_view(r.denied) == if caller.audit {
            None
        } else if caller.denied is Some {
            status_list_view(caller.denied)
        } else {
            status_list_view(default.denied)
        },
{
    let mut merged = merge_list_filter(default, caller);
    if caller.audit {
        merged.allowed = None;
        merged.denied = None;
    }
    merged
}

/// Search reads invalidated records in audit mode or when asked to.
pub fn search_reads_invalidated(filter: &SearchFilter) -> (r: bool)
    ensures
        r == (filter.include_invalidated || filter.audit),
{
    filter.include_invalidated || filter.audit
}

/// Search keeps a record of a non-global scope, when global fallback is
/// off and a scope was requested, only if it names the record's level.
pub fn search_scope_admits(
    record_level: ScopeLevel,
    include_global: bool,
    requested_scope: Option<&str>,
) -> (r: bool)
    ensures
        r == (record_level == ScopeLevel::Global || include_global || match requested_scope {
            Some(s) => spec_scope_level(s@) == Some(record_level),
            None => true,
        }),
{
    if record_level != ScopeLevel::Global && !include_global {
        if let Some(req) = requested_scope {
            let l = ScopeLevel::parse(req);
            proof {
                lemma_scope_parse(req@, l);
            }
            if l != Some(record_level) {
                return false;
            }
        }
    }
    true
}

/// How many candidates learning search fetches before ranking: four per
/// result, at least 50.
pub fn learning_search_fetch_limit(limit: usize) -> (r: usize)
    requires
        limit <= usize::MAX / 4,
    ensures
        r == if limit * 4 >= 50 { limit * 4 } else { 50 },
{
    let f = limit * 4;
    if f >= 50 {
        f
    } else {
        50
    }
}


// ─── refusal messages ────────────────────────────────────────────────────────

impl LearningStatus {
    /// The variant name, as debug output prints it.
    pub open spec fn spec_debug_name(self) -> Seq<char> {
        match self {
            LearningStatus::Candidate => "Candidate"@,
            LearningStatus::Confirmed => "Confirmed"@,
            LearningStatus::Rule => "Rule"@,
            LearningStatus::Rejected => "Rejected"@,
            LearningStatus::Superseded => "Superseded"@,
            LearningStatus::Archived => "Archived"@,
        }
    }

    pub fn debug_name(&self) -> (r: &'static str)
        ensures
            r@ == self.spec_debug_name(),
    {
        match self {
            LearningStatus::Candidate => "Candidate",
            LearningStatus::Confirmed => "Confirmed",
            LearningStatus::Rule => "Rule",
            LearningStatus::Rejected => "Rejected",
            LearningStatus::Superseded => "Superseded",
            LearningStatus::Archived => "Archived",
        }
    }
}

impl LearningLifecycleState {
    /// The variant name, as debug output prints it.
    pub open spec fn spec_debug_name(self) -> Seq<char> {
        match self {
            LearningLifecycleState::Candidate => "Candidate"@,
            LearningLifecycleState::Active => "Active"@,
            LearningLifecycleState::Rejected => "Rejected"@,
            LearningLifecycleState::Archived => "Archived"@,
            LearningLifecycleState::Superseded => "Superseded"@,
            LearningLifecycleState::Invalidated => "Invalidated"@,
            LearningLifecycleState::Unknown => "Unknown"@,
        }
    }

    pub fn debug_name(&self) -> (r: &'static str)
        ensures
            r@ == self.spec_debug_name(),
    {
        match self {
            LearningLifecycleState::Candidate => "Candidate",
            LearningLifecycleState::Active => "Active",
            LearningLifecycleState::Rejected => "Rejected",
            LearningLifecycleState::Archived => "Archived",
            LearningLifecycleState::Superseded => "Superseded",
            LearningLifecycleState::Invalidated => "Invalidated",
            LearningLifecycleState::Unknown => "Unknown",
        }
    }
}

/// The message a refused promotion answers with; `target` is the requested
/// target status as given.
pub fn promotion_refusal_message(refusal: PromotionRefusal, target: &str) -> (r: String)
    ensures
        r@ == match refusal {
            PromotionRefusal::UnknownTargetStatus => "Invalid target_status: '"@ + target@
                + "'. Must be 'confirmed' or 'rule'"@,
            PromotionRefusal::NotAPromotionTarget => "Invalid promotion target '"@ + target@
                + "': only 'confirmed' and 'rule' are valid"@,
            PromotionRefusal::LifecycleLocked(l) => "Cannot promote record in lifecycle state "@
                + l.spec_debug_name(),
            PromotionRefusal::TransitionNotPermitted(from, to) => "Invalid promotion: "@
                + from.spec_debug_name() + " → "@ + to.spec_debug_name() + " is not permitted"@,
        },
{
    match refusal {
        PromotionRefusal::UnknownTargetStatus => String::from_str("Invalid target_status: '").concat(
            target,
        ).concat("'. Must be 'confirmed' or 'rule'"),
        PromotionRefusal::NotAPromotionTarget => String::from_str("Invalid promotion target '").concat(
            target,
        ).concat("': only 'confirmed' and 'rule' are valid"),
        PromotionRefusal::LifecycleLocked(l) => String::from_str(
            "Cannot promote record in lifecycle state ",
        ).concat(l.debug_name()),
        PromotionRefusal::TransitionNotPermitted(from, to) => String::from_str(
            "Invalid promotion: ",
        ).concat(from.debug_name()).concat(" → ").concat(to.debug_name()).concat(
            " is not permitted",
        ),
    }
}

/// The message a refused update answers with.
pub fn update_refusal_message(lifecycle: LearningLifecycleState) -> (r: String)
    ensures
        r@ == "Cannot update record in lifecycle state "@ + lifecycle.spec_debug_name(),
{
    String::from_str("Cannot update record in lifecycle state ").concat(lifecycle.debug_name())
}

/// The message a refused supersession of record `id` by `replacement_id`
/// answers with.
pub fn supersede_refusal_message(refusal: SupersedeRefusal, id: &str, replacement_id: &str) -> (r: String)
    ensures
        r@ == match refusal {
            SupersedeRefusal::MissingLearningMetadata => "Memory '"@ + id@
                + "' does not have valid learning metadata"@,
            SupersedeRefusal::AlreadyTerminal(l) => "Record '"@ + id@
                + "' is already in a terminal state ("@ + l.spec_debug_name()
                + ") and cannot be superseded"@,
            SupersedeRefusal::ReplacementNotFound => "Replacement record not found: "@ + replacement_id@,
        },
{
    match refusal {
        SupersedeRefusal::MissingLearningMetadata => String::from_str("Memory '").concat(id).concat(
            "' does not have valid learning metadata",
        ),
        SupersedeRefusal::AlreadyTerminal(l) => String::from_str("Record '").concat(id).concat(
            "' is already in a terminal state (",
        ).concat(l.debug_name()).concat(") and cannot be superseded"),
        SupersedeRefusal::ReplacementNotFound => String::from_str(
            "Replacement record not found: ",
        ).concat(replacement_id),
    }
}

} // verus!
