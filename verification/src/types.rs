//! Domain records shared by the code-intelligence and memory surfaces:
//! project index status with its lifecycle, code symbols and relations,
//! knowledge-graph entities, and small string/option helpers.
use vstd::prelude::*;

verus! {

// ─── string helpers ──────────────────────────────────────────────────────────

/// The character view of an optional string.
pub open spec fn opt_view(o: Option<String>) -> Option<Seq<char>> {
    match o {
        Some(s) => Some(s@),
        None => None,
    }
}

/// The character views of a sequence of strings.
pub open spec fn strs_view(v: Seq<String>) -> Seq<Seq<char>> {
    v.map_values(|s: String| s@)
}

/// Copies an optional string.
pub fn clone_opt_string(s: &Option<String>) -> (r: Option<String>)
    ensures
        r == *s,
{
    match s {
        Some(x) => Some(x.clone()),
        None => None,
    }
}

/// Copies a vector of strings element by element.
pub fn clone_strings(v: &Vec<String>) -> (r: Vec<String>)
    ensures
        r@ == v@,
{
    let mut out: Vec<String> = Vec::new();
    for i in 0..v.len()
        invariant
            out@ == v@.subrange(0, i as int),
    {
        out.push(v[i].clone());
    }
    proof {
        assert(v@.subrange(0, v@.len() as int) == v@);
    }
    out
}

/// Turns a slice of string slices into owned strings, keeping their order.
pub fn strs_to_strings(v: &[&str]) -> (r: Vec<String>)
    ensures
        r@.len() == v@.len(),
        forall|i: int| 0 <= i < v@.len() ==> #[trigger] r@[i]@ == v@[i]@,
{
    let mut out: Vec<String> = Vec::new();
    for i in 0..v.len()
        invariant
            out@.len() == i,
            forall|j: int| 0 <= j < i ==> #[trigger] out@[j]@ == v@[j]@,
    {
        out.push(v[i].to_owned());
    }
    out
}

/// Whether two string slices hold the same characters.
pub fn str_eq(a: &str, b: &str) -> (r: bool)
    ensures
        r == (a@ == b@),
{
    let n = a.unicode_len();
    let m = b.unicode_len();
    if n != m {
        return false;
    }
    let mut i: usize = 0;
    while i < n
        invariant
            n == a@.len(),
            m == b@.len(),
            n == m,
            i <= n,
            forall|j: int| 0 <= j < i ==> a@[j] == b@[j],
        decreases n - i,
    {
        if a.get_char(i) != b.get_char(i) {
            return false;
        }
        i = i + 1;
    }
    proof {
        assert(a@ =~= b@);
    }
    true
}

// ─── record identities ───────────────────────────────────────────────────────

/// A table-qualified record identity, such as `code_symbols:caller`.
#[derive(Debug, PartialEq, Eq)]
pub struct RecordId {
    pub table: String,
    pub key: String,
}

impl RecordId {
    pub fn new(table: &str, key: &str) -> (r: RecordId)
        ensures
            r.table@ == table@,
            r.key@ == key@,
    {
        RecordId { table: table.to_owned(), key: key.to_owned() }
    }
}

impl Clone for RecordId {
    fn clone(&self) -> (r: Self)
        ensures
            r == *self,
    {
        RecordId { table: self.table.clone(), key: self.key.clone() }
    }
}

pub fn clone_opt_record_id(s: &Option<RecordId>) -> (r: Option<RecordId>)
    ensures
        r == *s,
{
    match s {
        Some(x) => Some(x.clone()),
        None => None,
    }
}

// ─── index status and lifecycle ─────────────────────────────────────────────

/// Overall indexing state persisted for a project.
#[derive(Debug, Clone, Copy, PartialEq, Eq, Structural)]
pub enum IndexState {
    Indexing,
    EmbeddingPending,
    Completed,
    Failed,
}

impl IndexState {
    pub open spec fn spec_name(self) -> Seq<char> {
        match self {
            IndexState::Indexing => "indexing"@,
            IndexState::EmbeddingPending => "embedding_pending"@,
            IndexState::Completed => "completed"@,
            IndexState::Failed => "failed"@,
        }
    }

    /// The wire name of the state.
    pub fn name(&self) -> (s: String)
        ensures
            s@ == self.spec_name(),
    {
        match self {
            IndexState::Indexing => String::from_str("indexing"),
            IndexState::EmbeddingPending => String::from_str("embedding_pending"),
            IndexState::Completed => String::from_str("completed"),
            IndexState::Failed => String::from_str("failed"),
        }
    }
}

/// Readiness of the structural (parse/symbol) layer.
#[derive(Debug, Clone, Copy, PartialEq, Eq, Structural)]
pub enum StructuralState {
    Pending,
    Ready,
    Failed,
}

impl StructuralState {
    pub open spec fn spec_name(self) -> Seq<char> {
        match self {
            StructuralState::Pending => "pending"@,
            StructuralState::Ready => "ready"@,
            StructuralState::Failed => "failed"@,
        }
    }

    pub fn name(&self) -> (s: String)
        ensures
            s@ == self.spec_name(),
    {
        match self {
            StructuralState::Pending => String::from_str("pending"),
            StructuralState::Ready => String::from_str("ready"),
            StructuralState::Failed => String::from_str("failed"),
        }
    }
}

/// Readiness of the semantic (embedding) layer.
#[derive(Debug, Clone, Copy, PartialEq, Eq, Structural)]
pub enum SemanticState {
    Pending,
    Ready,
    Failed,
}

impl SemanticState {
    pub open spec fn spec_name(self) -> Seq<char> {
        match self {
            SemanticState::Pending => "pending"@,
            SemanticState::Ready => "ready"@,
            SemanticState::Failed => "failed"@,
        }
    }

    pub fn name(&self) -> (s: String)
        ensures
            s@ == self.spec_name(),
    {
        match self {
            SemanticState::Pending => String::from_str("pending"),
            SemanticState::Ready => String::from_str("ready"),
            SemanticState::Failed => String::from_str("failed"),
        }
    }
}

/// Whether the graph projection reflects the current semantic snapshot.
#[derive(Debug, Clone, Copy, PartialEq, Eq, Structural)]
pub enum ProjectionState {
    Current,
    Stale,
}

impl ProjectionState {
    pub open spec fn spec_name(self) -> Seq<char> {
        match self {
            ProjectionState::Current => "current"@,
            ProjectionState::Stale => "stale"@,
        }
    }

    pub fn name(&self) -> (s: String)
        ensures
            s@ == self.spec_name(),
    {
        match self {
            ProjectionState::Current => String::from_str("current"),
            ProjectionState::Stale => String::from_str("stale"),
        }
    }
}

/// Structural readiness implied by the overall index state.
pub open spec fn structural_state_for(status: IndexState) -> StructuralState {
    match status {
        IndexState::Indexing => StructuralState::Pending,
        IndexState::EmbeddingPending => StructuralState::Ready,
        IndexState::Completed => StructuralState::Ready,
        IndexState::Failed => StructuralState::Failed,
    }
}

/// Semantic readiness implied by the overall index state and the generations:
/// ready only once indexing completed and the semantic generation caught up.
pub open spec fn semantic_state_for(
    status: IndexState,
    structural_generation: u64,
    semantic_generation: u64,
) -> SemanticState {
    match status {
        IndexState::Completed => if semantic_generation == structural_generation {
            SemanticState::Ready
        } else {
            SemanticState::Pending
        },
        IndexState::Failed => SemanticState::Failed,
        _ => SemanticState::Pending,
    }
}

/// Projection currency after a refresh: a current projection stays current only
/// while the semantic layer is ready; otherwise it becomes stale.
pub open spec fn projection_state_for(
    semantic: SemanticState,
    previous: ProjectionState,
) -> ProjectionState {
    if semantic == SemanticState::Ready && previous == ProjectionState::Current {
        ProjectionState::Current
    } else {
        ProjectionState::Stale
    }
}

/// Persisted indexing status of one project.
#[derive(Debug, PartialEq)]
pub struct IndexStatus {
    pub project_id: String,
    pub status: IndexState,
    pub total_files: u32,
    pub indexed_files: u32,
    pub total_chunks: u32,
    pub total_symbols: u32,
    pub structural_state: StructuralState,
    pub semantic_state: SemanticState,
    pub projection_state: ProjectionState,
    pub structural_generation: u64,
    pub semantic_generation: u64,
    pub root_path: Option<String>,
    pub error_message: Option<String>,
    pub failed_files: Vec<String>,
}

impl Clone for IndexStatus {
    fn clone(&self) -> (r: Self)
        ensures
            r.same_as(*self),
    {
        IndexStatus {
            project_id: self.project_id.clone(),
            status: self.status,
            total_files: self.total_files,
            indexed_files: self.indexed_files,
            total_chunks: self.total_chunks,
            total_symbols: self.total_symbols,
            structural_state: self.structural_state,
            semantic_state: self.semantic_state,
            projection_state: self.projection_state,
            structural_generation: self.structural_generation,
            semantic_generation: self.semantic_generation,
            root_path: clone_opt_string(&self.root_path),
            error_message: clone_opt_string(&self.error_message),
            failed_files: clone_strings(&self.failed_files),
        }
    }
}

impl IndexStatus {
    /// Equal in every field, the list of failed files compared by content.
    pub open spec fn same_as(self, other: IndexStatus) -> bool {
        &&& self.project_id == other.project_id
        &&& self.status == other.status
        &&& self.total_files == other.total_files
        &&& self.indexed_files == other.indexed_files
        &&& self.total_chunks == other.total_chunks
        &&& self.total_symbols == other.total_symbols
        &&& self.structural_state == other.structural_state
        &&& self.semantic_state == other.semantic_state
        &&& self.projection_state == other.projection_state
        &&& self.structural_generation == other.structural_generation
        &&& self.semantic_generation == other.semantic_generation
        &&& self.root_path == other.root_path
        &&& self.error_message == other.error_message
        &&& self.failed_files@ == other.failed_files@
    }

    /// The lifecycle fields as `refresh_lifecycle_states` recomputes them.
    pub open spec fn refreshed(self) -> IndexStatus {
        let structural = structural_state_for(self.status);
        let semantic = semantic_state_for(
            self.status,
            self.structural_generation,
            self.semantic_generation,
        );
        IndexStatus {
            structural_state: structural,
            semantic_state: semantic,
            projection_state: projection_state_for(semantic, self.projection_state),
            ..self
        }
    }

    /// A fresh status for a project whose indexing just started: no counts,
    /// generation zero on both layers, and a stale projection.
    pub fn new(project_id: String) -> (s: Self)
        ensures
            s.project_id == project_id,
            s.status == IndexState::Indexing,
            s.total_files == 0,
            s.indexed_files == 0,
            s.total_chunks == 0,
            s.total_symbols == 0,
            s.structural_state == StructuralState::Pending,
            s.semantic_state == SemanticState::Pending,
            s.projection_state == ProjectionState::Stale,
            s.structural_generation == 0,
            s.semantic_generation == 0,
            s.root_path.is_none(),
            s.error_message.is_none(),
            s.failed_files@.len() == 0,
    {
        IndexStatus {
            project_id,
            status: IndexState::Indexing,
            total_files: 0,
            indexed_files: 0,
            total_chunks: 0,
            total_symbols: 0,
            structural_state: StructuralState::Pending,
            semantic_state: SemanticState::Pending,
            projection_state: ProjectionState::Stale,
            structural_generation: 0,
            semantic_generation: 0,
            root_path: None,
            error_message: None,
            failed_files: Vec::new(),
        }
    }

    /// Records that a new structural generation was written; the projection
    /// no longer reflects it. The counter saturates at `u64::MAX`.
    pub fn mark_structural_generation_advanced(&mut self)
        ensures
            *final(self) == (IndexStatus {
                structural_generation: if old(self).structural_generation < u64::MAX {
                    (old(self).structural_generation + 1) as u64
                } else {
                    old(self).structural_generation
                },
                projection_state: ProjectionState::Stale,
                ..*old(self)
            }),
    {
        if self.structural_generation < u64::MAX {
            self.structural_generation = self.structural_generation + 1;
        }
        self.projection_state = ProjectionState::Stale;
    }

    /// Records that embeddings caught up with the structural generation.
    pub fn mark_semantic_generation_caught_up(&mut self)
        ensures
            *final(self) == (IndexStatus {
                semantic_generation: old(self).structural_generation,
                ..*old(self)
            }),
    {
        self.semantic_generation = self.structural_generation;
    }

    /// Records that the projection reflects the current semantic snapshot.
    pub fn mark_projection_current(&mut self)
        ensures
            *final(self) == (IndexStatus { projection_state: ProjectionState::Current, ..*old(self) }),
    {
        self.projection_state = ProjectionState::Current;
    }

    /// Recomputes the three lifecycle layers from the overall state and the
    /// generations.
    pub fn refresh_lifecycle_states(&mut self)
        ensures
            *final(self) == old(self).refreshed(),
    {
        self.structural_state = match self.status {
            IndexState::Indexing => StructuralState::Pending,
            IndexState::EmbeddingPending => StructuralState::Ready,
            IndexState::Completed => StructuralState::Ready,
            IndexState::Failed => StructuralState::Failed,
        };
        self.semantic_state = match self.status {
            IndexState::Completed => if self.semantic_generation == self.structural_generation {
                SemanticState::Ready
            } else {
                SemanticState::Pending
            },
            IndexState::Failed => SemanticState::Failed,
            _ => SemanticState::Pending,
        };
        if !(self.semantic_state == SemanticState::Ready && self.projection_state
            == ProjectionState::Current) {
            self.projection_state = ProjectionState::Stale;
        }
    }
}

/// Refreshing the lifecycle twice gives the same status as refreshing once.
pub proof fn lemma_refresh_idempotent(s: IndexStatus)
    ensures
        s.refreshed().refreshed() == s.refreshed(),
{
}

/// After a refresh, a current projection implies that indexing completed and
/// the semantic generation equals the structural generation.
pub proof fn lemma_refreshed_current_projection_is_caught_up(s: IndexStatus)
    ensures
        s.refreshed().projection_state == ProjectionState::Current ==> {
            &&& s.status == IndexState::Completed
            &&& s.semantic_generation == s.structural_generation
            &&& s.refreshed().semantic_state == SemanticState::Ready
            &&& s.refreshed().structural_state == StructuralState::Ready
        },
{
}

/// Refreshing never turns a stale projection current.
pub proof fn lemma_refresh_never_promotes_projection(s: IndexStatus)
    ensures
        s.projection_state == ProjectionState::Stale ==> s.refreshed().projection_state
            == ProjectionState::Stale,
{
}


// ─── code records ────────────────────────────────────────────────────────────

/// Kind of a code symbol.
#[derive(Debug, Clone, Copy, PartialEq, Eq, Structural)]
pub enum SymbolType {
    Function,
    Method,
    Class,
    Struct,
    Enum,
    Trait,
    Interface,
    Module,
    Constant,
    Variable,
    TypeAlias,
}

impl SymbolType {
    pub open spec fn spec_name(self) -> Seq<char> {
        match self {
            SymbolType::Function => "function"@,
            SymbolType::Method => "method"@,
            SymbolType::Class => "class"@,
            SymbolType::Struct => "struct"@,
            SymbolType::Enum => "enum"@,
            SymbolType::Trait => "trait"@,
            SymbolType::Interface => "interface"@,
            SymbolType::Module => "module"@,
            SymbolType::Constant => "constant"@,
            SymbolType::Variable => "variable"@,
            SymbolType::TypeAlias => "type_alias"@,
        }
    }

    pub fn name(&self) -> (s: String)
        ensures
            s@ == self.spec_name(),
    {
        match self {
            SymbolType::Function => String::from_str("function"),
            SymbolType::Method => String::from_str("method"),
            SymbolType::Class => String::from_str("class"),
            SymbolType::Struct => String::from_str("struct"),
            SymbolType::Enum => String::from_str("enum"),
            SymbolType::Trait => String::from_str("trait"),
            SymbolType::Interface => String::from_str("interface"),
            SymbolType::Module => String::from_str("module"),
            SymbolType::Constant => String::from_str("constant"),
            SymbolType::Variable => String::from_str("variable"),
            SymbolType::TypeAlias => String::from_str("type_alias"),
        }
    }
}

/// Kind of a relation between two code symbols.
#[derive(Debug, Clone, Copy, PartialEq, Eq, Structural)]
pub enum CodeRelationType {
    Calls,
    Imports,
    Contains,
    Extends,
    Implements,
    References,
}

impl CodeRelationType {
    pub open spec fn spec_name(self) -> Seq<char> {
        match self {
            CodeRelationType::Calls => "calls"@,
            CodeRelationType::Imports => "imports"@,
            CodeRelationType::Contains => "contains"@,
            CodeRelationType::Extends => "extends"@,
            CodeRelationType::Implements => "implements"@,
            CodeRelationType::References => "references"@,
        }
    }

    pub fn name(&self) -> (s: String)
        ensures
            s@ == self.spec_name(),
    {
        match self {
            CodeRelationType::Calls => String::from_str("calls"),
            CodeRelationType::Imports => String::from_str("imports"),
            CodeRelationType::Contains => String::from_str("contains"),
            CodeRelationType::Extends => String::from_str("extends"),
            CodeRelationType::Implements => String::from_str("implements"),
            CodeRelationType::References => String::from_str("references"),
        }
    }
}

/// Whether a relation was observed in source or inferred.
#[derive(Debug, Clone, Copy, PartialEq, Eq, Structural)]
pub enum RelationClass {
    Observed,
    Inferred,
}

/// Where a relation came from.
#[derive(Debug, Clone, Copy, PartialEq, Eq, Structural)]
pub enum RelationProvenance {
    ParserExtracted,
    ImportedManual,
    Heuristic,
}

/// How confident the relation is.
#[derive(Debug, Clone, Copy, PartialEq, Eq, Structural)]
pub enum ConfidenceClass {
    Extracted,
    Inferred,
    Ambiguous,
}

/// Whether a relation belongs to the current generation.
#[derive(Debug, Clone, Copy, PartialEq, Eq, Structural)]
pub enum StalenessState {
    Current,
    Stale,
}

/// A symbol found by the code indexer.
#[derive(Debug, PartialEq)]
pub struct CodeSymbol {
    pub id: Option<RecordId>,
    pub name: String,
    pub symbol_type: SymbolType,
    pub file_path: String,
    pub signature: Option<String>,
    pub start_line: u32,
    pub end_line: u32,
    pub project_id: String,
    pub generation: Option<u64>,
}

impl Clone for CodeSymbol {
    fn clone(&self) -> (r: Self)
        ensures
            r == *self,
    {
        CodeSymbol {
            id: clone_opt_record_id(&self.id),
            name: self.name.clone(),
            symbol_type: self.symbol_type,
            file_path: self.file_path.clone(),
            signature: clone_opt_string(&self.signature),
            start_line: self.start_line,
            end_line: self.end_line,
            project_id: self.project_id.clone(),
            generation: self.generation,
        }
    }
}

/// A relation between two code symbols.
#[derive(Debug, PartialEq)]
pub struct SymbolRelation {
    pub id: Option<RecordId>,
    pub from_symbol: RecordId,
    pub to_symbol: RecordId,
    pub relation_type: CodeRelationType,
    pub relation_class: RelationClass,
    pub provenance: RelationProvenance,
    pub confidence_class: ConfidenceClass,
    pub freshness_generation: u64,
    pub staleness_state: StalenessState,
    pub file_path: String,
    pub line_number: u32,
    pub project_id: String,
}

impl Clone for SymbolRelation {
    fn clone(&self) -> (r: Self)
        ensures
            r == *self,
    {
        SymbolRelation {
            id: clone_opt_record_id(&self.id),
            from_symbol: self.from_symbol.clone(),
            to_symbol: self.to_symbol.clone(),
            relation_type: self.relation_type,
            relation_class: self.relation_class,
            provenance: self.provenance,
            confidence_class: self.confidence_class,
            freshness_generation: self.freshness_generation,
            staleness_state: self.staleness_state,
            file_path: self.file_path.clone(),
            line_number: self.line_number,
            project_id: self.project_id.clone(),
        }
    }
}

/// A knowledge-graph entity.
#[derive(Debug, PartialEq)]
pub struct Entity {
    pub id: Option<RecordId>,
    pub name: String,
    pub entity_type: String,
    pub description: Option<String>,
    pub user_id: Option<String>,
}

/// A knowledge-graph relation between two entities.
#[derive(Debug, PartialEq)]
pub struct Relation {
    pub id: Option<RecordId>,
    pub from_entity: RecordId,
    pub to_entity: RecordId,
    pub relation_type: String,
    pub relation_class: RelationClass,
    pub provenance: RelationProvenance,
    pub confidence_class: ConfidenceClass,
    pub freshness_generation: u64,
    pub staleness_state: StalenessState,
}

/// Copies a slice of values one by one.
pub fn clone_symbols(v: &[CodeSymbol]) -> (r: Vec<CodeSymbol>)
    ensures
        r@ == v@,
{
    let mut out: Vec<CodeSymbol> = Vec::new();
    for i in 0..v.len()
        invariant
            out@ == v@.subrange(0, i as int),
    {
        out.push(v[i].clone());
    }
    proof {
        assert(v@.subrange(0, v@.len() as int) == v@);
    }
    out
}

/// Copies a slice of relations one by one.
pub fn clone_symbol_relations(v: &[SymbolRelation]) -> (r: Vec<SymbolRelation>)
    ensures
        r@ == v@,
{
    let mut out: Vec<SymbolRelation> = Vec::new();
    for i in 0..v.len()
        invariant
            out@ == v@.subrange(0, i as int),
    {
        out.push(v[i].clone());
    }
    proof {
        assert(v@.subrange(0, v@.len() as int) == v@);
    }
    out
}

} // verus!
