//! Tool request routing: which operation a tool call asks for, which
//! parameters it must carry, and the answers for session bindings.
use vstd::prelude::*;

use crate::contracts::ContractReasonCode;
use crate::text::{is_whitespace, is_whitespace_char, leading_whitespace, trim_start};
use crate::types::{str_eq, IndexState};

verus! {

// ─── trimming ────────────────────────────────────────────────────────────────

/// Number of trailing whitespace characters of `s`.
pub open spec fn trailing_whitespace(s: Seq<char>) -> nat
    decreases s.len(),
{
    if s.len() > 0 && is_whitespace(s.last()) {
        1 + trailing_whitespace(s.drop_last())
    } else {
        0
    }
}

/// `s` without leading and trailing whitespace, as `str::trim` gives it.
pub open spec fn trim(s: Seq<char>) -> Seq<char> {
    let t = trim_start(s);
    t.take(t.len() - trailing_whitespace(t))
}

proof fn lemma_trailing_whitespace_is(s: Seq<char>, n: nat)
    requires
        n <= s.len(),
        forall|j: int| s.len() - n <= j < s.len() ==> is_whitespace(#[trigger] s[j]),
        n == s.len() || !is_whitespace(s[s.len() - n - 1]),
    ensures
        trailing_whitespace(s) == n,
    decreases n,
{
    if n > 0 {
        let t = s.drop_last();
        assert forall|j: int| t.len() - (n - 1) <= j < t.len() implies is_whitespace(#[trigger] t[j]) by {
            assert(t[j] == s[j]);
        }
        if n - 1 < t.len() {
            assert(t[t.len() - (n - 1) - 1] == s[s.len() - n - 1]);
        }
        lemma_trailing_whitespace_is(t, (n - 1) as nat);
    }
}

proof fn lemma_leading_whitespace_le(s: Seq<char>)
    ensures
        leading_whitespace(s) <= s.len(),
    decreases s.len(),
{
    if s.len() > 0 && is_whitespace(s[0]) {
        lemma_leading_whitespace_le(s.drop_first());
    }
}

proof fn lemma_leading_whitespace_prefix(s: Seq<char>)
    ensures
        forall|j: int| 0 <= j < leading_whitespace(s) ==> is_whitespace(#[trigger] s[j]),
        leading_whitespace(s) == s.len() || !is_whitespace(s[leading_whitespace(s) as int]),
    decreases s.len(),
{
    lemma_leading_whitespace_le(s);
    if s.len() > 0 && is_whitespace(s[0]) {
        let t = s.drop_first();
        lemma_leading_whitespace_prefix(t);
        assert forall|j: int| 0 <= j < leading_whitespace(s) implies is_whitespace(#[trigger] s[j]) by {
            if j > 0 {
                assert(s[j] == t[j - 1]);
            }
        }
        if leading_whitespace(s) < s.len() {
            assert(s[leading_whitespace(s) as int] == t[leading_whitespace(t) as int]);
        }
    }
}

/// The text without leading and trailing whitespace.
pub fn trim_str(s: &str) -> (r: String)
    ensures
        r@ == trim(s@),
{
    let n = s.unicode_len();
    let mut a: usize = 0;
    loop
        invariant
            n == s@.len(),
            a <= n,
            forall|j: int| 0 <= j < a ==> is_whitespace(#[trigger] s@[j]),
        ensures
            a <= n,
            forall|j: int| 0 <= j < a ==> is_whitespace(#[trigger] s@[j]),
            a == n || !is_whitespace(s@[a as int]),
        decreases n - a,
    {
        if a >= n {
            break;
        }
        let c = s.get_char(a);
        if !is_whitespace_char(c) {
            break;
        }
        a = a + 1;
    }
    let mut b: usize = n;
    loop
        invariant
            n == s@.len(),
            a <= b <= n,
            forall|j: int| b <= j < n ==> is_whitespace(#[trigger] s@[j]),
        ensures
            a <= b <= n,
            forall|j: int| b <= j < n ==> is_whitespace(#[trigger] s@[j]),
            b == a || !is_whitespace(s@[b - 1]),
        decreases b - a,
    {
        if b <= a {
            break;
        }
        let c = s.get_char(b - 1);
        if !is_whitespace_char(c) {
            break;
        }
        b = b - 1;
    }
    proof {
        lemma_leading_whitespace_prefix(s@);
        lemma_leading_whitespace_le(s@);
        let lw = leading_whitespace(s@);
        if lw < a {
            assert(is_whitespace(s@[lw as int]));
            assert(lw != s@.len());
            assert(!is_whitespace(s@[lw as int]));
        }
        if a < lw {
            assert(is_whitespace(s@[a as int]));
            assert(a != n);
            assert(!is_whitespace(s@[a as int]));
        }
        assert(lw == a);
        let t = trim_start(s@);
        assert(t =~= s@.subrange(a as int, n as int));
        assert forall|j: int| t.len() - (n - b) <= j < t.len() implies is_whitespace(#[trigger] t[j]) by {
            assert(t[j] == s@[a + j]);
        }
        if b > a {
            assert(t[t.len() - (n - b) - 1] == s@[b - 1]);
        }
        lemma_trailing_whitespace_is(t, (n - b) as nat);
        assert(trim(s@) =~= s@.subrange(a as int, b as int));
    }
    String::from_str(s.substring_char(a, b))
}

// ─── project ids and sessions ────────────────────────────────────────────────

/// A project id with surrounding whitespace removed; blank ones count as
/// absent.
pub open spec fn spec_normalize_project_id(p: Option<Seq<char>>) -> Option<Seq<char>> {
    match p {
        Some(s) => if trim(s).len() == 0 {
            None
        } else {
            Some(trim(s))
        },
        None => None,
    }
}

pub open spec fn opt_string_view(o: Option<String>) -> Option<Seq<char>> {
    match o {
        Some(s) => Some(s@),
        None => None,
    }
}

proof fn lemma_leading_stops(s: Seq<char>)
    ensures
        leading_whitespace(s) <= s.len(),
        leading_whitespace(s) < s.len() ==> !is_whitespace(s[leading_whitespace(s) as int]),
    decreases s.len(),
{
    if s.len() > 0 && is_whitespace(s[0]) {
        let t = s.drop_first();
        lemma_leading_stops(t);
        if leading_whitespace(s) < s.len() {
            assert(s[leading_whitespace(s) as int] == t[leading_whitespace(t) as int]);
        }
    }
}

proof fn lemma_trailing_stops(s: Seq<char>)
    ensures
        trailing_whitespace(s) <= s.len(),
        trailing_whitespace(s) < s.len() ==> !is_whitespace(s[s.len() - trailing_whitespace(s) - 1]),
    decreases s.len(),
{
    if s.len() > 0 && is_whitespace(s.last()) {
        let t = s.drop_last();
        lemma_trailing_stops(t);
        if trailing_whitespace(s) < s.len() {
            assert(s[s.len() - trailing_whitespace(s) - 1] == t[t.len() - trailing_whitespace(t) - 1]);
        }
    }
}

/// Trimming a trimmed text changes nothing.
pub proof fn lemma_trim_idempotent(s: Seq<char>)
    ensures
        trim(trim(s)) == trim(s),
{
    let u = trim_start(s);
    lemma_leading_stops(s);
    lemma_trailing_stops(u);
    let t = trim(s);
    assert(t == u.take(u.len() - trailing_whitespace(u)));
    if t.len() == 0 {
        assert(leading_whitespace(t) == 0);
        assert(trim_start(t) =~= t);
        assert(trailing_whitespace(t) == 0);
        assert(trim(t) =~= t);
    } else {
        assert(t[0] == u[0]);
        assert(u[0] == s[leading_whitespace(s) as int]);
        assert(!is_whitespace(t[0]));
        assert(leading_whitespace(t) == 0);
        assert(trim_start(t) =~= t);
        assert(t.last() == u[u.len() - trailing_whitespace(u) - 1]);
        assert(!is_whitespace(t.last()));
        assert(trailing_whitespace(t) == 0);
        assert(t.take(t.len() as int) =~= t);
    }
}

/// Normalizing a normalized project id changes nothing.
pub proof fn lemma_normalize_project_id_idempotent(p: Option<Seq<char>>)
    ensures
        spec_normalize_project_id(spec_normalize_project_id(p)) == spec_normalize_project_id(p),
{
    if let Some(s) = p {
        lemma_trim_idempotent(s);
    }
}

/// Normalizes an optional project id (see `spec_normalize_project_id`).
pub fn normalize_project_id(project_id: Option<String>) -> (r: Option<String>)
    ensures
        opt_string_view(r) == spec_normalize_project_id(opt_string_view(project_id)),
{
    match project_id {
        Some(p) => {
            let t = trim_str(p.as_str());
            if t.unicode_len() == 0 {
                None
            } else {
                Some(t)
            }
        },
        None => None,
    }
}

/// The project id an action needs, or the invalid-parameter message naming
/// the action.
pub fn require_project_id(project_id: Option<String>, action: &str) -> (r: Result<String, String>)
    ensures
        match spec_normalize_project_id(opt_string_view(project_id)) {
            Some(p) => r matches Ok(s) && s@ == p,
            None => r matches Err(m) && m@ == "project_id required for "@ + action@ + " action"@,
        },
{
    match normalize_project_id(project_id) {
        Some(p) => Ok(p),
        None => Err(String::from_str("project_id required for ").concat(action).concat(" action")),
    }
}

/// The session id a transport header carries: trimmed, and absent when
/// blank.
pub fn session_id_from_header(header: Option<&str>) -> (r: Option<String>)
    ensures
        opt_string_view(r) == match header {
            Some(h) => if trim(h@).len() == 0 {
                None
            } else {
                Some(trim(h@))
            },
            None => None,
        },
{
    match header {
        Some(h) => {
            let t = trim_str(h);
            if t.unicode_len() == 0 {
                None
            } else {
                Some(t)
            }
        },
        None => None,
    }
}

// ─── project_info routing ────────────────────────────────────────────────────

/// What a project_info call asks for.
#[derive(Debug, Clone, PartialEq, Eq)]
pub enum ProjectInfoRoute {
    List,
    Index { path: String },
    Status { project_id: String },
    Stats { project_id: String },
    Projection { project_id: String },
    ProjectionByLocator { locator: String },
    Bind { project_id: String },
    Unbind,
    BindingStatus,
    /// A binding action without a session: answered as unsupported.
    BindingUnsupported { action: String },
}

/// The routing of a project_info call: each action with the parameter it
/// requires; binding actions need a session (without one they are answered
/// as unsupported, before any parameter is checked); unknown actions are
/// refused with the list of actions.
pub fn route_project_info(
    action: &str,
    project_id: Option<String>,
    path: Option<String>,
    locator: Option<String>,
    has_session: bool,
) -> (r: Result<ProjectInfoRoute, String>)
    ensures
        action@ == "list"@ ==> r == Ok::<ProjectInfoRoute, String>(ProjectInfoRoute::List),
        action@ == "index"@ ==> match path {
            Some(p) => r == Ok::<ProjectInfoRoute, String>(ProjectInfoRoute::Index { path: p }),
            None => r matches Err(m) && m@ == "path required for index action"@,
        },
        action@ == "status"@ ==> match spec_normalize_project_id(opt_string_view(project_id)) {
            Some(p) => r matches Ok(ProjectInfoRoute::Status { project_id: s }) && s@ == p,
            None => r matches Err(m) && m@ == "project_id required for "@ + "status"@ + " action"@,
        },
        action@ == "stats"@ ==> match spec_normalize_project_id(opt_string_view(project_id)) {
            Some(p) => r matches Ok(ProjectInfoRoute::Stats { project_id: s }) && s@ == p,
            None => r matches Err(m) && m@ == "project_id required for "@ + "stats"@ + " action"@,
        },
        action@ == "projection"@ ==> match spec_normalize_project_id(opt_string_view(project_id)) {
            Some(p) => r matches Ok(ProjectInfoRoute::Projection { project_id: s }) && s@ == p,
            None => r matches Err(m) && m@ == "project_id required for "@ + "projection"@ + " action"@,
        },
        action@ == "projection_by_locator"@ ==> match locator {
            Some(l) => r == Ok::<ProjectInfoRoute, String>(ProjectInfoRoute::ProjectionByLocator { locator: l }),
            None => r matches Err(m) && m@ == "locator required for projection_by_locator action"@,
        },
        (action@ == "bind"@ || action@ == "unbind"@ || action@ == "binding_status"@) && !has_session
            ==> (r matches Ok(ProjectInfoRoute::BindingUnsupported { action: a }) && a@ == action@),
        action@ == "bind"@ && has_session ==> match spec_normalize_project_id(opt_string_view(project_id)) {
            Some(p) => r matches Ok(ProjectInfoRoute::Bind { project_id: s }) && s@ == p,
            None => r matches Err(m) && m@ == "project_id required for "@ + "bind"@ + " action"@,
        },
        action@ == "unbind"@ && has_session ==> r == Ok::<ProjectInfoRoute, String>(ProjectInfoRoute::Unbind),
        action@ == "binding_status"@ && has_session ==> r == Ok::<ProjectInfoRoute, String>(
            ProjectInfoRoute::BindingStatus,
        ),
        !(action@ == "list"@ || action@ == "index"@ || action@ == "status"@ || action@ == "stats"@
            || action@ == "projection"@ || action@ == "projection_by_locator"@ || action@ == "bind"@
            || action@ == "unbind"@ || action@ == "binding_status"@) ==> (r matches Err(m) && m@
            == "Invalid action '"@ + action@
            + "'. Use: list, index, status, stats, projection, projection_by_locator, bind, unbind, binding_status"@),
{
    proof {
        lemma_project_info_actions_distinct();
    }
    if str_eq(action, "list") {
        Ok(ProjectInfoRoute::List)
    } else if str_eq(action, "index") {
        match path {
            Some(p) => Ok(ProjectInfoRoute::Index { path: p }),
            None => Err(String::from_str("path required for index action")),
        }
    } else if str_eq(action, "status") {
        match require_project_id(project_id, "status") {
            Ok(p) => Ok(ProjectInfoRoute::Status { project_id: p }),
            Err(m) => Err(m),
        }
    } else if str_eq(action, "stats") {
        match require_project_id(project_id, "stats") {
            Ok(p) => Ok(ProjectInfoRoute::Stats { project_id: p }),
            Err(m) => Err(m),
        }
    } else if str_eq(action, "projection") {
        match require_project_id(project_id, "projection") {
            Ok(p) => Ok(ProjectInfoRoute::Projection { project_id: p }),
            Err(m) => Err(m),
        }
    } else if str_eq(action, "projection_by_locator") {
        match locator {
            Some(l) => Ok(ProjectInfoRoute::ProjectionByLocator { locator: l }),
            None => Err(String::from_str("locator required for projection_by_locator action")),
        }
    } else if str_eq(action, "bind") || str_eq(action, "unbind") || str_eq(action, "binding_status") {
        if !has_session {
            return Ok(ProjectInfoRoute::BindingUnsupported { action: String::from_str(action) });
        }
        if str_eq(action, "bind") {
            match require_project_id(project_id, "bind") {
                Ok(p) => Ok(ProjectInfoRoute::Bind { project_id: p }),
                Err(m) => Err(m),
            }
        } else if str_eq(action, "unbind") {
            Ok(ProjectInfoRoute::Unbind)
        } else {
            Ok(ProjectInfoRoute::BindingStatus)
        }
    } else {
        Err(
            String::from_str("Invalid action '").concat(action).concat(
                "'. Use: list, index, status, stats, projection, projection_by_locator, bind, unbind, binding_status",
            ),
        )
    }
}

/// The project_info action names are different words.
proof fn lemma_project_info_actions_distinct()
    ensures
        "list"@ != "index"@,
        "list"@ != "status"@,
        "list"@ != "stats"@,
        "list"@ != "projection"@,
        "list"@ != "projection_by_locator"@,
        "list"@ != "bind"@,
        "list"@ != "unbind"@,
        "list"@ != "binding_status"@,
        "index"@ != "status"@,
        "index"@ != "stats"@,
        "index"@ != "projection"@,
        "index"@ != "projection_by_locator"@,
        "index"@ != "bind"@,
        "index"@ != "unbind"@,
        "index"@ != "binding_status"@,
        "status"@ != "stats"@,
        "status"@ != "projection"@,
        "status"@ != "projection_by_locator"@,
        "status"@ != "bind"@,
        "status"@ != "unbind"@,
        "status"@ != "binding_status"@,
        "stats"@ != "projection"@,
        "stats"@ != "projection_by_locator"@,
        "stats"@ != "bind"@,
        "stats"@ != "unbind"@,
        "stats"@ != "binding_status"@,
        "projection"@ != "projection_by_locator"@,
        "projection"@ != "bind"@,
        "projection"@ != "unbind"@,
        "projection"@ != "binding_status"@,
        "projection_by_locator"@ != "bind"@,
        "projection_by_locator"@ != "unbind"@,
        "projection_by_locator"@ != "binding_status"@,
        "bind"@ != "unbind"@,
        "bind"@ != "binding_status"@,
        "unbind"@ != "binding_status"@,
{
    reveal_strlit("list");
    reveal_strlit("index");
    reveal_strlit("status");
    reveal_strlit("stats");
    reveal_strlit("projection");
    reveal_strlit("projection_by_locator");
    reveal_strlit("bind");
    reveal_strlit("unbind");
    reveal_strlit("binding_status");
    assert("list"@.len() == 4);
    assert("index"@.len() == 5);
    assert("status"@.len() == 6);
    assert("stats"@.len() == 5);
    assert("projection"@.len() == 10);
    assert("projection_by_locator"@.len() == 21);
    assert("bind"@.len() == 4);
    assert("unbind"@.len() == 6);
    assert("binding_status"@.len() == 14);
    assert("list"@[0] != "bind"@[0]);
    assert("index"@[0] != "stats"@[0]);
    assert("status"@[0] != "unbind"@[0]);
}

// ─── knowledge_graph routing ─────────────────────────────────────────────────

/// What a knowledge_graph call asks for.
#[derive(Debug, Clone, PartialEq, Eq)]
pub enum KnowledgeGraphRoute {
    CreateEntity { name: String },
    CreateRelation { from_entity: String, to_entity: String, relation_type: String },
    GetRelated { entity_id: String },
    DetectCommunities,
}

/// The routing of a knowledge_graph call: each action with its required
/// parameters, checked in order; unknown actions are refused with the list
/// of actions.
pub fn route_knowledge_graph(
    action: &str,
    name: Option<String>,
    from_entity: Option<String>,
    to_entity: Option<String>,
    relation_type: Option<String>,
    entity_id: Option<String>,
) -> (r: Result<KnowledgeGraphRoute, String>)
    ensures
        action@ == "create_entity"@ ==> match name {
            Some(n) => r == Ok::<KnowledgeGraphRoute, String>(KnowledgeGraphRoute::CreateEntity { name: n }),
            None => r matches Err(m) && m@ == "name required for create_entity"@,
        },
        action@ == "create_relation"@ ==> match (from_entity, to_entity, relation_type) {
            (Some(f), Some(t), Some(k)) => r == Ok::<KnowledgeGraphRoute, String>(
                KnowledgeGraphRoute::CreateRelation { from_entity: f, to_entity: t, relation_type: k },
            ),
            (None, _, _) => r matches Err(m) && m@ == "from_entity required for create_relation"@,
            (Some(_), None, _) => r matches Err(m) && m@ == "to_entity required for create_relation"@,
            (Some(_), Some(_), None) => r matches Err(m) && m@
                == "relation_type required for create_relation"@,
        },
        action@ == "get_related"@ ==> match entity_id {
            Some(e) => r == Ok::<KnowledgeGraphRoute, String>(KnowledgeGraphRoute::GetRelated { entity_id: e }),
            None => r matches Err(m) && m@ == "entity_id required for get_related"@,
        },
        action@ == "detect_communities"@ ==> r == Ok::<KnowledgeGraphRoute, String>(
            KnowledgeGraphRoute::DetectCommunities,
        ),
        !(action@ == "create_entity"@ || action@ == "create_relation"@ || action@ == "get_related"@
            || action@ == "detect_communities"@) ==> (r matches Err(m) && m@ == "Invalid action '"@
            + action@ + "'. Use: create_entity, create_relation, get_related, detect_communities"@),
{
    proof {
        reveal_strlit("create_entity");
        reveal_strlit("create_relation");
        reveal_strlit("get_related");
        reveal_strlit("detect_communities");
        assert("create_entity"@.len() == 13);
        assert("create_relation"@.len() == 15);
        assert("get_related"@.len() == 11);
        assert("detect_communities"@.len() == 18);
    }
    if str_eq(action, "create_entity") {
        match name {
            Some(n) => Ok(KnowledgeGraphRoute::CreateEntity { name: n }),
            None => Err(String::from_str("name required for create_entity")),
        }
    } else if str_eq(action, "create_relation") {
        let f = match from_entity {
            Some(f) => f,
            None => {
                return Err(String::from_str("from_entity required for create_relation"));
            },
        };
        let t = match to_entity {
            Some(t) => t,
            None => {
                return Err(String::from_str("to_entity required for create_relation"));
            },
        };
        let k = match relation_type {
            Some(k) => k,
            None => {
                return Err(String::from_str("relation_type required for create_relation"));
            },
        };
        Ok(KnowledgeGraphRoute::CreateRelation { from_entity: f, to_entity: t, relation_type: k })
    } else if str_eq(action, "get_related") {
        match entity_id {
            Some(e) => Ok(KnowledgeGraphRoute::GetRelated { entity_id: e }),
            None => Err(String::from_str("entity_id required for get_related")),
        }
    } else if str_eq(action, "detect_communities") {
        Ok(KnowledgeGraphRoute::DetectCommunities)
    } else {
        Err(
            String::from_str("Invalid action '").concat(action).concat(
                "'. Use: create_entity, create_relation, get_related, detect_communities",
            ),
        )
    }
}

/// Traversal depth of a related-entities request: 1 unless given, at most 3.
pub fn related_depth(depth: Option<u32>) -> (r: u32)
    ensures
        r == match depth {
            Some(d) => if d < 3 { d } else { 3 },
            None => 1,
        },
{
    match depth {
        Some(d) => if d < 3 {
            d
        } else {
            3
        },
        None => 1,
    }
}

// ─── session bindings ────────────────────────────────────────────────────────

/// How a binding answer qualifies the bound project's results.
#[derive(Debug, Clone, PartialEq, Eq)]
pub struct BindingSummary {
    pub is_partial: bool,
    /// `None` is reported as the ok reason code.
    pub reason_code: Option<ContractReasonCode>,
    pub reason: String,
    pub message: String,
}

/// The partial summary of a binding answer: complete when the bound project
/// finished indexing, partial while it indexes, degraded without a status.
pub fn binding_summary(status: Option<IndexState>) -> (r: BindingSummary)
    ensures
        match status {
            Some(s) => if s == IndexState::Completed {
                &&& !r.is_partial
                &&& r.reason_code.is_none()
                &&& r.reason@ == "complete"@
                &&& r.message@ == "Bound project indexing is complete."@
            } else {
                &&& r.is_partial
                &&& r.reason_code == Some(ContractReasonCode::Partial)
                &&& r.reason@ == "indexing_in_progress"@
                &&& r.message@ == "Bound project is still indexing; results may be partial."@
            },
            None => {
                &&& r.is_partial
                &&& r.reason_code == Some(ContractReasonCode::Degraded)
                &&& r.reason@ == "missing_index_status"@
                &&& r.message@ == "Bound project has no persisted index status metadata yet."@
            },
        },
{
    match status {
        Some(s) => if s == IndexState::Completed {
            BindingSummary {
                is_partial: false,
                reason_code: None,
                reason: String::from_str("complete"),
                message: String::from_str("Bound project indexing is complete."),
            }
        } else {
            BindingSummary {
                is_partial: true,
                reason_code: Some(ContractReasonCode::Partial),
                reason: String::from_str("indexing_in_progress"),
                message: String::from_str("Bound project is still indexing; results may be partial."),
            }
        },
        None => BindingSummary {
            is_partial: true,
            reason_code: Some(ContractReasonCode::Degraded),
            reason: String::from_str("missing_index_status"),
            message: String::from_str("Bound project has no persisted index status metadata yet."),
        },
    }
}

/// The state of a session binding: bound when it names a project.
pub fn binding_state(bound_project_id: &Option<String>) -> (r: &'static str)
    ensures
        r@ == if bound_project_id.is_some() {
            "bound"@
        } else {
            "unbound"@
        },
{
    if bound_project_id.is_some() {
        "bound"
    } else {
        "unbound"
    }
}

} // verus!
