//! The wiki kernel's store and its operations: ingesting redacted sources,
//! filing claims and superseding them, attaching sources, promoting claims
//! along the consolidation ladder, entities and typed edges under the domain
//! schema, crystallized pages, the audit trail and the event outbox.
//!
//! Every store is keyed by a 128-bit id (the application draws fresh ids);
//! writing under an id that is present replaces the record, as a map does.
use crate::graph::{allow_view, walk_entities, within, GraphSnapshot, GraphWalkOptions};
use crate::kernel::{contradicts, contradicts_heuristic, NoopWikiHook, WikiHook};
use crate::lint::{basic_lint, basic_lint_findings, findings_view, LintClaim, LintPage};
use crate::wiki_core::LintFinding;
use crate::text::{
    chars_of, dec, extend_chars, extend_str, string_of, uuid_string, uuid_text,
};
use crate::wiki_core::{
    draft_from_session, next_tier, redact_for_ingest, AuditOperation,
    CrystallizationDraft, EntityKind, MemoryTier, RelationKind, Scope, SessionCrystallizationInput,
    WikiEvent,
};
use vstd::prelude::*;
use vstd::string::StringExecFns;

verus! {

broadcast use vstd::string::group_string_axioms;

// ───────────────────────── keyed stores ─────────────────────────

/// A record stored under a 128-bit id.
pub trait Keyed: View {
    spec fn key(&self) -> u128;

    fn key_of(&self) -> (r: u128)
        ensures
            r == self.key(),
    ;
}

/// No two records share an id.
pub open spec fn keys_unique<T: Keyed>(s: Seq<T>) -> bool {
    forall|i: int, j: int| 0 <= i < j < s.len() ==> #[trigger] s[i].key() != #[trigger] s[j].key()
}

/// Whether a record is stored under `k`.
pub open spec fn has_key<T: Keyed>(s: Seq<T>, k: u128) -> bool {
    exists|i: int| 0 <= i < s.len() && #[trigger] s[i].key() == k
}

/// Position of the record stored under `k`.
pub open spec fn key_pos<T: Keyed>(s: Seq<T>, k: u128) -> int {
    choose|i: int| 0 <= i < s.len() && #[trigger] s[i].key() == k
}

/// The store as a map from id to the record's view.
pub open spec fn keyed_map<T: Keyed>(s: Seq<T>) -> Map<u128, T::V> {
    Map::new(|k: u128| has_key(s, k), |k: u128| s[key_pos(s, k)]@)
}

/// The store after writing `x` under its id: in place where the id is
/// present, at the end otherwise.
pub open spec fn put<T: Keyed>(s: Seq<T>, x: T) -> Seq<T> {
    if has_key(s, x.key()) {
        s.update(key_pos(s, x.key()), x)
    } else {
        s.push(x)
    }
}

proof fn lemma_pos_unique<T: Keyed>(s: Seq<T>, i: int)
    requires
        keys_unique(s),
        0 <= i < s.len(),
    ensures
        has_key(s, s[i].key()),
        key_pos(s, s[i].key()) == i,
{
    assert(has_key(s, s[i].key()));
    let p = key_pos(s, s[i].key());
    if p != i {
        if p < i {
            assert(s[p].key() != s[i].key());
        } else {
            assert(s[i].key() != s[p].key());
        }
    }
}

/// Writing a record keeps ids unique and writes the map at its id.
pub proof fn lemma_put<T: Keyed>(s: Seq<T>, x: T)
    requires
        keys_unique(s),
    ensures
        keys_unique(put(s, x)),
        keyed_map(put(s, x)) == keyed_map(s).insert(x.key(), x@),
{
    let t = put(s, x);
    if has_key(s, x.key()) {
        let p = key_pos(s, x.key());
        assert forall|i: int, j: int| 0 <= i < j < t.len() implies #[trigger] t[i].key()
            != #[trigger] t[j].key() by {
            if i == p {
                assert(s[j].key() != s[p].key());
            } else if j == p {
                assert(s[i].key() != s[p].key());
            } else {
                assert(s[i].key() != s[j].key());
            }
        }
    } else {
        assert forall|i: int, j: int| 0 <= i < j < t.len() implies #[trigger] t[i].key()
            != #[trigger] t[j].key() by {
            if j == s.len() {
                assert(s[i].key() == t[i].key());
            } else {
                assert(s[i].key() != s[j].key());
            }
        }
    }
    let m = keyed_map(s).insert(x.key(), x@);
    assert forall|k: u128| #[trigger] keyed_map(t).dom().contains(k) <==> m.dom().contains(k) by {
        if has_key(t, k) && k != x.key() {
            let i = key_pos(t, k);
            assert(s[i].key() == k);
        }
        if has_key(s, k) && k != x.key() {
            let i = key_pos(s, k);
            assert(t[i].key() == k);
        }
        if k == x.key() {
            if has_key(s, x.key()) {
                assert(t[key_pos(s, x.key())].key() == k);
            } else {
                assert(t[s.len() as int].key() == k);
            }
        }
    }
    assert forall|k: u128| #[trigger] keyed_map(t).dom().contains(k) implies keyed_map(t)[k] == m[k] by {
        let i = key_pos(t, k);
        lemma_pos_unique(t, i);
        if k == x.key() {
            if has_key(s, x.key()) {
                lemma_pos_unique(t, key_pos(s, x.key()));
            } else {
                lemma_pos_unique(t, s.len() as int);
            }
        } else {
            assert(s[i].key() == k);
            lemma_pos_unique(s, i);
        }
    }
    assert(keyed_map(t) =~= m);
}

/// Position of the record stored under `k`, if any.
fn find_key<T: Keyed>(v: &Vec<T>, k: u128) -> (r: Option<usize>)
    requires
        keys_unique(v@),
    ensures
        r is None <==> !has_key(v@, k),
        r matches Some(i) ==> i < v@.len() && i == key_pos(v@, k) && v@[i as int].key() == k,
{
    let mut i: usize = 0;
    while i < v.len()
        invariant
            i <= v.len(),
            keys_unique(v@),
            forall|j: int| 0 <= j < i ==> #[trigger] v@[j].key() != k,
        decreases v.len() - i,
    {
        if v[i].key_of() == k {
            proof {
                lemma_pos_unique(v@, i as int);
            }
            return Some(i);
        }
        i = i + 1;
    }
    None
}

/// Writes `x` under its id.
fn put_exec<T: Keyed>(v: &mut Vec<T>, x: T)
    requires
        keys_unique(old(v)@),
    ensures
        final(v)@ == put(old(v)@, x),
{
    match find_key(v, x.key_of()) {
        Some(i) => {
            v.remove(i);
            v.insert(i, x);
            assert(v@ =~= put(old(v)@, x));
        },
        None => {
            v.push(x);
        },
    }
}

// ───────────────────────── records ─────────────────────────

/// A scope as plain values: whether it is shared, and the agent or team id.
pub open spec fn scope_view(s: Scope) -> (bool, Seq<char>) {
    match s {
        Scope::Private { agent_id } => (false, agent_id@),
        Scope::Shared { team_id } => (true, team_id@),
    }
}

/// A copy of a scope.
pub fn copy_scope(s: &Scope) -> (r: Scope)
    ensures
        scope_view(r) == scope_view(*s),
{
    match s {
        Scope::Private { agent_id } => Scope::Private { agent_id: agent_id.clone() },
        Scope::Shared { team_id } => Scope::Shared { team_id: team_id.clone() },
    }
}

/// An entity kind as plain values: its variant and, for `Other`, its name.
pub open spec fn kind_view(k: EntityKind) -> (int, Seq<char>) {
    match k {
        EntityKind::Person => (0, seq![]),
        EntityKind::Project => (1, seq![]),
        EntityKind::Library => (2, seq![]),
        EntityKind::Concept => (3, seq![]),
        EntityKind::FilePath => (4, seq![]),
        EntityKind::Decision => (5, seq![]),
        EntityKind::Other(name) => (6, name@),
    }
}

/// A raw source, stored after redaction.
#[derive(Debug, Clone)]
pub struct SourceRecord {
    pub id: u128,
    pub uri: String,
    pub body: String,
    pub scope: Scope,
}

pub struct SourceView {
    pub uri: Seq<char>,
    pub body: Seq<char>,
    pub scope: (bool, Seq<char>),
}

impl View for SourceRecord {
    type V = SourceView;

    open spec fn view(&self) -> SourceView {
        SourceView { uri: self.uri@, body: self.body@, scope: scope_view(self.scope) }
    }
}

impl Keyed for SourceRecord {
    open spec fn key(&self) -> u128 {
        self.id
    }

    fn key_of(&self) -> (r: u128) {
        self.id
    }
}

/// A claim: its text, tier and scope, the sources behind it, the claim it
/// supersedes, whether it has been superseded, and how often it was
/// reinforced. (Confidence, quality and times are kept by the application.)
#[derive(Debug, Clone)]
pub struct ClaimRecord {
    pub id: u128,
    pub text: String,
    pub tier: MemoryTier,
    pub scope: Scope,
    pub source_ids: Vec<u128>,
    pub supersedes: Option<u128>,
    pub stale: bool,
    pub access_count: u32,
}

pub struct ClaimView {
    pub text: Seq<char>,
    pub tier: MemoryTier,
    pub scope: (bool, Seq<char>),
    pub source_ids: Seq<u128>,
    pub supersedes: Option<u128>,
    pub stale: bool,
    pub access_count: u32,
}

impl View for ClaimRecord {
    type V = ClaimView;

    open spec fn view(&self) -> ClaimView {
        ClaimView {
            text: self.text@,
            tier: self.tier,
            scope: scope_view(self.scope),
            source_ids: self.source_ids@,
            supersedes: self.supersedes,
            stale: self.stale,
            access_count: self.access_count,
        }
    }
}

impl Keyed for ClaimRecord {
    open spec fn key(&self) -> u128 {
        self.id
    }

    fn key_of(&self) -> (r: u128) {
        self.id
    }
}

/// A wiki page written by the kernel.
#[derive(Debug, Clone)]
pub struct PageRecord {
    pub id: u128,
    pub title: String,
    pub markdown: String,
    pub scope: Scope,
    /// Titles of the pages its `[[...]]` links name, as last refreshed.
    pub outbound_page_titles: Vec<String>,
}

pub struct PageView {
    pub title: Seq<char>,
    pub markdown: Seq<char>,
    pub scope: (bool, Seq<char>),
    pub outbound: Seq<Seq<char>>,
}

impl View for PageRecord {
    type V = PageView;

    open spec fn view(&self) -> PageView {
        PageView {
            title: self.title@,
            markdown: self.markdown@,
            scope: scope_view(self.scope),
            outbound: crate::text::string_views(self.outbound_page_titles@),
        }
    }
}

impl PageRecord {
    /// Re-reads from the markdown the titles the page's `[[...]]` links name.
    pub fn refresh_outbound_links(&mut self)
        ensures
            final(self).id == old(self).id,
            final(self).title == old(self).title,
            final(self).markdown == old(self).markdown,
            final(self).scope == old(self).scope,
            crate::text::string_views(final(self).outbound_page_titles@) == crate::wiki_core::wikilinks(
                old(self).markdown@,
            ),
    {
        self.outbound_page_titles = crate::wiki_core::extract_wikilinks(self.markdown.as_str());
    }
}

/// Whether `p` is `q` with its outbound titles refreshed from its markdown.
pub open spec fn links_refreshed(p: PageRecord, q: PageRecord) -> bool {
    &&& p.id == q.id
    &&& p.title == q.title
    &&& p.markdown == q.markdown
    &&& p.scope == q.scope
    &&& crate::text::string_views(p.outbound_page_titles@) == crate::wiki_core::wikilinks(q.markdown@)
}

impl Keyed for PageRecord {
    open spec fn key(&self) -> u128 {
        self.id
    }

    fn key_of(&self) -> (r: u128) {
        self.id
    }
}

/// An entity of the knowledge graph.
#[derive(Debug, Clone)]
pub struct EntityRecord {
    pub id: u128,
    pub kind: EntityKind,
    pub label: String,
    pub scope: Scope,
}

pub struct EntityView {
    pub kind: (int, Seq<char>),
    pub label: Seq<char>,
    pub scope: (bool, Seq<char>),
}

impl View for EntityRecord {
    type V = EntityView;

    open spec fn view(&self) -> EntityView {
        EntityView { kind: kind_view(self.kind), label: self.label@, scope: scope_view(self.scope) }
    }
}

impl Keyed for EntityRecord {
    open spec fn key(&self) -> u128 {
        self.id
    }

    fn key_of(&self) -> (r: u128) {
        self.id
    }
}

/// A typed edge between two entities, with the sources behind it.
#[derive(Debug, Clone)]
pub struct EdgeRecord {
    pub from: u128,
    pub to: u128,
    pub relation: RelationKind,
    pub source_ids: Vec<u128>,
}

/// An entry of the audit trail.
#[derive(Debug, Clone)]
pub struct AuditNote {
    pub op: AuditOperation,
    pub actor: String,
    pub summary: String,
}

/// An audit entry as plain values.
pub open spec fn note_view(a: AuditNote) -> (AuditOperation, Seq<char>, Seq<char>) {
    (a.op, a.actor@, a.summary@)
}

/// Two claims that look contradictory.
#[derive(Debug, Clone)]
pub struct ContradictionHint {
    pub a: u128,
    pub b: u128,
    pub reason: String,
}

// ───────────────────────── schema ─────────────────────────

/// Which entity kinds and relations the domain admits.
#[derive(Debug, Clone)]
pub struct DomainSchema {
    pub title: String,
    pub allowed_entity_kinds: Vec<EntityKind>,
    pub allowed_relations: Vec<RelationKind>,
}

impl DomainSchema {
    /// The schema that admits the six named entity kinds and all seven relations.
    pub fn permissive_default() -> (r: Self)
        ensures
            r.title@ == "default-permissive"@,
            r.allowed_entity_kinds@.map_values(|k: EntityKind| kind_view(k)) == seq![
                (0int, Seq::<char>::empty()),
                (1int, Seq::<char>::empty()),
                (2int, Seq::<char>::empty()),
                (3int, Seq::<char>::empty()),
                (4int, Seq::<char>::empty()),
                (5int, Seq::<char>::empty()),
            ],
            r.allowed_relations@ == seq![
                RelationKind::Uses,
                RelationKind::DependsOn,
                RelationKind::Contradicts,
                RelationKind::Caused,
                RelationKind::Fixed,
                RelationKind::Supersedes,
                RelationKind::Related,
            ],
    {
        let kinds = vec![
            EntityKind::Person,
            EntityKind::Project,
            EntityKind::Library,
            EntityKind::Concept,
            EntityKind::FilePath,
            EntityKind::Decision,
        ];
        assert(kinds@.map_values(|k: EntityKind| kind_view(k)) =~= seq![
            (0int, Seq::<char>::empty()),
            (1int, Seq::<char>::empty()),
            (2int, Seq::<char>::empty()),
            (3int, Seq::<char>::empty()),
            (4int, Seq::<char>::empty()),
            (5int, Seq::<char>::empty()),
        ]);
        DomainSchema {
            title: String::from_str("default-permissive"),
            allowed_entity_kinds: kinds,
            allowed_relations: vec![
                RelationKind::Uses,
                RelationKind::DependsOn,
                RelationKind::Contradicts,
                RelationKind::Caused,
                RelationKind::Fixed,
                RelationKind::Supersedes,
                RelationKind::Related,
            ],
        }
    }

    /// Whether the schema admits a relation.
    pub fn relation_allowed(&self, r: RelationKind) -> (b: bool)
        ensures
            b == self.allowed_relations@.contains(r),
    {
        let mut i: usize = 0;
        while i < self.allowed_relations.len()
            invariant
                i <= self.allowed_relations.len(),
                forall|j: int| 0 <= j < i ==> self.allowed_relations@[j] != r,
            decreases self.allowed_relations.len() - i,
        {
            if self.allowed_relations[i] == r {
                return true;
            }
            i = i + 1;
        }
        false
    }

    /// Whether the schema admits an entity kind.
    pub fn entity_kind_allowed(&self, k: &EntityKind) -> (b: bool)
        ensures
            b == self.allowed_entity_kinds@.map_values(|x: EntityKind| kind_view(x)).contains(kind_view(*k)),
    {
        let ghost kv = self.allowed_entity_kinds@.map_values(|x: EntityKind| kind_view(x));
        let mut i: usize = 0;
        while i < self.allowed_entity_kinds.len()
            invariant
                i <= self.allowed_entity_kinds.len(),
                kv == self.allowed_entity_kinds@.map_values(|x: EntityKind| kind_view(x)),
                forall|j: int| 0 <= j < i ==> kv[j] != kind_view(*k),
            decreases self.allowed_entity_kinds.len() - i,
        {
            if same_kind(&self.allowed_entity_kinds[i], k) {
                assert(kv[i as int] == kind_view(*k));
                return true;
            }
            i = i + 1;
        }
        false
    }
}

fn same_kind(a: &EntityKind, b: &EntityKind) -> (r: bool)
    ensures
        r == (kind_view(*a) == kind_view(*b)),
{
    match (a, b) {
        (EntityKind::Person, EntityKind::Person) => true,
        (EntityKind::Project, EntityKind::Project) => true,
        (EntityKind::Library, EntityKind::Library) => true,
        (EntityKind::Concept, EntityKind::Concept) => true,
        (EntityKind::FilePath, EntityKind::FilePath) => true,
        (EntityKind::Decision, EntityKind::Decision) => true,
        (EntityKind::Other(x), EntityKind::Other(y)) => crate::text::chars_eq(&chars_of(x.as_str()), &chars_of(y.as_str())),
        _ => false,
    }
}

// ───────────────────────── errors ─────────────────────────

/// Why a kernel operation was refused.
#[derive(Debug, Clone, PartialEq, Eq)]
pub enum EngineError {
    ClaimNotFound(u128),
    RelationNotAllowed(RelationKind),
    EntityKindNotAllowed,
    PromotionDenied,
}

/// Name of a relation, as it is printed.
pub open spec fn relation_name(r: RelationKind) -> Seq<char> {
    match r {
        RelationKind::Uses => "Uses"@,
        RelationKind::DependsOn => "DependsOn"@,
        RelationKind::Contradicts => "Contradicts"@,
        RelationKind::Caused => "Caused"@,
        RelationKind::Fixed => "Fixed"@,
        RelationKind::Supersedes => "Supersedes"@,
        RelationKind::Related => "Related"@,
    }
}

fn relation_name_exec(r: RelationKind) -> (s: &'static str)
    ensures
        s@ == relation_name(r),
{
    match r {
        RelationKind::Uses => "Uses",
        RelationKind::DependsOn => "DependsOn",
        RelationKind::Contradicts => "Contradicts",
        RelationKind::Caused => "Caused",
        RelationKind::Fixed => "Fixed",
        RelationKind::Supersedes => "Supersedes",
        RelationKind::Related => "Related",
    }
}

/// How a refusal reads.
pub open spec fn engine_error_text(e: EngineError) -> Seq<char> {
    match e {
        EngineError::ClaimNotFound(id) => "claim not found: ClaimId("@ + uuid_text(id) + ")"@,
        EngineError::RelationNotAllowed(r) => "schema rejected relation: "@ + relation_name(r),
        EngineError::EntityKindNotAllowed => "schema rejected entity kind"@,
        EngineError::PromotionDenied => "promotion threshold not met"@,
    }
}

impl EngineError {
    /// The message of the refusal.
    pub fn to_string(&self) -> (r: String)
        ensures
            r@ == engine_error_text(*self),
    {
        match self {
            EngineError::ClaimNotFound(id) => {
                let mut v = chars_of("claim not found: ClaimId(");
                extend_str(&mut v, uuid_string(*id).as_str());
                extend_str(&mut v, ")");
                string_of(&v)
            },
            EngineError::RelationNotAllowed(r) => {
                let mut v = chars_of("schema rejected relation: ");
                extend_str(&mut v, relation_name_exec(*r));
                string_of(&v)
            },
            EngineError::EntityKindNotAllowed => String::from_str("schema rejected entity kind"),
            EngineError::PromotionDenied => String::from_str("promotion threshold not met"),
        }
    }
}

// ───────────────────────── the engine ─────────────────────────

/// The kernel: schema, stores, audit trail and outbox, and the hook told
/// of each event.
pub struct LlmWikiEngine<H: WikiHook> {
    pub schema: DomainSchema,
    pub sources: Vec<SourceRecord>,
    pub claims: Vec<ClaimRecord>,
    pub pages: Vec<PageRecord>,
    pub entities: Vec<EntityRecord>,
    pub edges: Vec<EdgeRecord>,
    pub audits: Vec<AuditNote>,
    pub outbox: Vec<WikiEvent>,
    pub hooks: H,
}

/// Number of secrets redacted from a body on ingest.
pub open spec fn redaction_count(body: Seq<char>) -> nat {
    crate::wiki_core::secret_kinds(crate::wiki_core::lines(body)).len()
}

/// A claim as first filed.
pub open spec fn fresh_claim(text: Seq<char>, scope: Scope, tier: MemoryTier, supersedes: Option<u128>) -> ClaimView {
    ClaimView {
        text,
        tier,
        scope: scope_view(scope),
        source_ids: seq![],
        supersedes,
        stale: false,
        access_count: 0,
    }
}

/// Ids of `b` appended to `a`, each only if not already there.
pub open spec fn merge_ids(a: Seq<u128>, b: Seq<u128>) -> Seq<u128>
    decreases b.len(),
{
    if b.len() == 0 {
        a
    } else {
        let m = merge_ids(a, b.drop_last());
        if m.contains(b.last()) {
            m
        } else {
            m.push(b.last())
        }
    }
}

/// A claim marked superseded.
pub open spec fn marked_stale(c: ClaimView) -> ClaimView {
    ClaimView {
        text: c.text,
        tier: c.tier,
        scope: c.scope,
        source_ids: c.source_ids,
        supersedes: c.supersedes,
        stale: true,
        access_count: c.access_count,
    }
}

/// A claim that records which claim it supersedes.
pub open spec fn superseding(c: ClaimView, old_id: u128) -> ClaimView {
    ClaimView {
        text: c.text,
        tier: c.tier,
        scope: c.scope,
        source_ids: c.source_ids,
        supersedes: Some(old_id),
        stale: c.stale,
        access_count: c.access_count,
    }
}

/// A claim reinforced once (the count saturates).
pub open spec fn reinforced(c: ClaimView) -> ClaimView {
    ClaimView {
        text: c.text,
        tier: c.tier,
        scope: c.scope,
        source_ids: c.source_ids,
        supersedes: c.supersedes,
        stale: c.stale,
        access_count: if c.access_count < u32::MAX {
            (c.access_count + 1) as u32
        } else {
            c.access_count
        },
    }
}

/// An explicit supersession of one claim by another: the old claim turns
/// stale and the new one records the old one's id. (The new claim's
/// reinforcement time and confidence are kept by the application.)
pub fn supersede_claim(old_claim: &mut ClaimRecord, new_claim: &mut ClaimRecord)
    ensures
        final(old_claim)@ == marked_stale(old(old_claim)@),
        final(old_claim).id == old(old_claim).id,
        final(new_claim)@ == superseding(old(new_claim)@, old(old_claim).id),
        final(new_claim).id == old(new_claim).id,
{
    old_claim.stale = true;
    new_claim.supersedes = Some(old_claim.id);
}

/// A claim confirmed once more by an access or a new source: its count goes
/// up by one, saturating. (Its reinforcement time and confidence are kept by
/// the application.)
pub fn reinforce_claim(claim: &mut ClaimRecord)
    ensures
        final(claim)@ == reinforced(old(claim)@),
        final(claim).id == old(claim).id,
{
    claim.access_count = claim.access_count.saturating_add(1);
}

/// A claim with more sources behind it, reinforced once (the count saturates).
pub open spec fn with_sources(c: ClaimView, more: Seq<u128>) -> ClaimView {
    ClaimView {
        text: c.text,
        tier: c.tier,
        scope: c.scope,
        source_ids: merge_ids(c.source_ids, more),
        supersedes: c.supersedes,
        stale: c.stale,
        access_count: if c.access_count < u32::MAX {
            (c.access_count + 1) as u32
        } else {
            c.access_count
        },
    }
}

/// A claim one step up the consolidation ladder.
pub open spec fn promoted(c: ClaimView) -> ClaimView {
    ClaimView {
        text: c.text,
        tier: next_tier(c.tier),
        scope: c.scope,
        source_ids: c.source_ids,
        supersedes: c.supersedes,
        stale: c.stale,
        access_count: c.access_count,
    }
}

/// The pairs `(claims[i], claims[j])`, `i < j < j_end`, of live claims whose
/// texts look contradictory.
pub open spec fn hint_row(cs: Seq<ClaimRecord>, i: int, j_end: int) -> Seq<(u128, u128)>
    decreases j_end - i,
{
    if j_end <= i + 1 {
        seq![]
    } else {
        let prev = hint_row(cs, i, j_end - 1);
        let j = j_end - 1;
        if !cs[i].stale && !cs[j].stale && contradicts(cs[i].text@, cs[j].text@) {
            prev.push((cs[i].id, cs[j].id))
        } else {
            prev
        }
    }
}

/// The contradictory pairs of live claims whose first member comes before `i_end`.
pub open spec fn hint_rows(cs: Seq<ClaimRecord>, i_end: int) -> Seq<(u128, u128)>
    decreases i_end,
{
    if i_end <= 0 {
        seq![]
    } else {
        hint_rows(cs, i_end - 1) + hint_row(cs, i_end - 1, cs.len() as int)
    }
}

/// Hints as pairs of ids.
pub open spec fn hint_pairs(hs: Seq<ContradictionHint>) -> Seq<(u128, u128)> {
    hs.map_values(|h: ContradictionHint| (h.a, h.b))
}

/// The edges of a store as a graph.
pub open spec fn edge_triples(es: Seq<EdgeRecord>) -> Seq<(u128, u128, RelationKind)> {
    es.map_values(|e: EdgeRecord| (e.from, e.to, e.relation))
}

/// Attaching sources never duplicates one: the merged ids keep the old
/// ones first and in order, hold each attached id, and nothing else.
pub proof fn lemma_merge_ids(a: Seq<u128>, b: Seq<u128>)
    requires
        a.no_duplicates(),
    ensures
        merge_ids(a, b).no_duplicates(),
        merge_ids(a, b).len() >= a.len(),
        merge_ids(a, b).take(a.len() as int) == a,
        forall|x: u128| #[trigger] merge_ids(a, b).contains(x) <==> a.contains(x) || b.contains(x),
    decreases b.len(),
{
    if b.len() > 0 {
        let m = merge_ids(a, b.drop_last());
        lemma_merge_ids(a, b.drop_last());
        if !m.contains(b.last()) {
            let t = m.push(b.last());
            assert(t.take(a.len() as int) =~= m.take(a.len() as int));
            assert forall|x: u128| #[trigger] t.contains(x) <==> m.contains(x) || x == b.last() by {
                if t.contains(x) && x != b.last() {
                    let k = choose|k: int| 0 <= k < t.len() && t[k] == x;
                    assert(m[k] == x);
                }
                if m.contains(x) {
                    let k = choose|k: int| 0 <= k < m.len() && m[k] == x;
                    assert(t[k] == x);
                }
                if x == b.last() {
                    assert(t[m.len() as int] == x);
                }
            }
        }
        assert forall|x: u128| #[trigger] b.contains(x) <==> b.drop_last().contains(x) || x == b.last() by {
            if b.contains(x) && x != b.last() {
                let k = choose|k: int| 0 <= k < b.len() && b[k] == x;
                assert(b.drop_last()[k] == x);
            }
            if b.drop_last().contains(x) {
                let k = choose|k: int| 0 <= k < b.drop_last().len() && b.drop_last()[k] == x;
                assert(b[k] == x);
            }
            if x == b.last() {
                assert(b[b.len() - 1] == x);
            }
        }
    } else {
        assert(a.take(a.len() as int) =~= a);
    }
}

/// Contradiction hints only pair live claims, the first before the second
/// in store order: a superseded (stale) claim is never reported.
pub proof fn lemma_hints_pair_live_claims(cs: Seq<ClaimRecord>, i_end: int, k: int)
    requires
        0 <= i_end <= cs.len(),
        0 <= k < hint_rows(cs, i_end).len(),
    ensures
        exists|i: int, j: int|
            0 <= i < j < cs.len() && #[trigger] cs[i].id == hint_rows(cs, i_end)[k].0 && #[trigger] cs[j].id
                == hint_rows(cs, i_end)[k].1 && !cs[i].stale && !cs[j].stale && contradicts(cs[i].text@, cs[j].text@),
    decreases i_end,
{
    let prev = hint_rows(cs, i_end - 1);
    if k < prev.len() {
        lemma_hints_pair_live_claims(cs, i_end - 1, k);
        assert(hint_rows(cs, i_end)[k] == prev[k]);
    } else {
        lemma_hint_row_live(cs, i_end - 1, cs.len() as int, k - prev.len());
        assert(hint_rows(cs, i_end)[k] == hint_row(cs, i_end - 1, cs.len() as int)[k - prev.len()]);
    }
}

proof fn lemma_hint_row_live(cs: Seq<ClaimRecord>, i: int, j_end: int, k: int)
    requires
        0 <= i < cs.len(),
        j_end <= cs.len(),
        0 <= k < hint_row(cs, i, j_end).len(),
    ensures
        exists|j: int|
            i < j < cs.len() && #[trigger] cs[j].id == hint_row(cs, i, j_end)[k].1 && hint_row(cs, i, j_end)[k].0
                == cs[i].id && !cs[i].stale && !cs[j].stale && contradicts(cs[i].text@, cs[j].text@),
    decreases j_end - i,
{
    let prev = hint_row(cs, i, j_end - 1);
    let j = j_end - 1;
    if k < prev.len() {
        lemma_hint_row_live(cs, i, j_end - 1, k);
        assert(hint_row(cs, i, j_end)[k] == prev[k]);
    } else {
        assert(hint_row(cs, i, j_end)[k] == (cs[i].id, cs[j].id));
    }
}

impl<H: WikiHook> LlmWikiEngine<H> {
    /// Stores hold at most one record per id.
    pub open spec fn wf(&self) -> bool {
        &&& keys_unique(self.sources@)
        &&& keys_unique(self.claims@)
        &&& keys_unique(self.pages@)
        &&& keys_unique(self.entities@)
    }

    pub open spec fn source_map(&self) -> Map<u128, SourceView> {
        keyed_map(self.sources@)
    }

    pub open spec fn claim_map(&self) -> Map<u128, ClaimView> {
        keyed_map(self.claims@)
    }

    pub open spec fn page_map(&self) -> Map<u128, PageView> {
        keyed_map(self.pages@)
    }

    pub open spec fn entity_map(&self) -> Map<u128, EntityView> {
        keyed_map(self.entities@)
    }

    pub open spec fn audit_log(&self) -> Seq<(AuditOperation, Seq<char>, Seq<char>)> {
        self.audits@.map_values(|a: AuditNote| note_view(a))
    }

    /// Whether a source with this id is stored.
    pub fn has_source(&self, id: u128) -> (r: bool)
        requires
            self.wf(),
        ensures
            r == self.source_map().dom().contains(id),
    {
        find_key(&self.sources, id).is_some()
    }

    /// Whether a claim with this id is stored.
    pub fn has_claim(&self, id: u128) -> (r: bool)
        requires
            self.wf(),
        ensures
            r == self.claim_map().dom().contains(id),
    {
        find_key(&self.claims, id).is_some()
    }

    /// Whether a page with this id is stored.
    pub fn has_page(&self, id: u128) -> (r: bool)
        requires
            self.wf(),
        ensures
            r == self.page_map().dom().contains(id),
    {
        find_key(&self.pages, id).is_some()
    }

    /// An empty kernel under a schema, telling `hooks` of its events.
    pub fn with_hooks(schema: DomainSchema, hooks: H) -> (r: Self)
        ensures
            r.wf(),
            r.schema == schema,
            r.sources@.len() == 0,
            r.claims@.len() == 0,
            r.pages@.len() == 0,
            r.entities@.len() == 0,
            r.edges@.len() == 0,
            r.audits@.len() == 0,
            r.outbox@.len() == 0,
    {
        LlmWikiEngine {
            schema,
            sources: Vec::new(),
            claims: Vec::new(),
            pages: Vec::new(),
            entities: Vec::new(),
            edges: Vec::new(),
            audits: Vec::new(),
            outbox: Vec::new(),
            hooks,
        }
    }

    fn emit(&mut self, e: WikiEvent)
        ensures
            final(self).outbox@ == old(self).outbox@.push(e),
            final(self).schema == old(self).schema,
            final(self).sources@ == old(self).sources@,
            final(self).claims@ == old(self).claims@,
            final(self).pages@ == old(self).pages@,
            final(self).entities@ == old(self).entities@,
            final(self).edges@ == old(self).edges@,
            final(self).audits@ == old(self).audits@,
    {
        self.hooks.on_event(&e);
        self.outbox.push(e);
    }

    /// Refreshes every page's outbound titles from its markdown.
    fn refresh_page_links(&mut self)
        requires
            old(self).wf(),
        ensures
            final(self).wf(),
            final(self).pages@.len() == old(self).pages@.len(),
            forall|i: int| 0 <= i < old(self).pages@.len() ==> #[trigger] links_refreshed(final(self).pages@[i], old(self).pages@[i]),
            final(self).audit_log() == old(self).audit_log(),
            final(self).outbox@ == old(self).outbox@,
            final(self).schema == old(self).schema,
            final(self).sources@ == old(self).sources@,
            final(self).claims@ == old(self).claims@,
            final(self).entities@ == old(self).entities@,
            final(self).edges@ == old(self).edges@,
    {
        let ghost pages0 = self.pages@;
        let mut j: usize = 0;
        while j < self.pages.len()
            invariant
                j <= self.pages.len(),
                self.pages@.len() == pages0.len(),
                keys_unique(pages0),
                forall|i: int| 0 <= i < j ==> #[trigger] links_refreshed(self.pages@[i], pages0[i]),
                forall|i: int| j <= i < pages0.len() ==> self.pages@[i] == pages0[i],
                self.audit_log() == old(self).audit_log(),
                self.outbox@ == old(self).outbox@,
                self.schema == old(self).schema,
                self.sources@ == old(self).sources@,
                self.claims@ == old(self).claims@,
                self.entities@ == old(self).entities@,
                self.edges@ == old(self).edges@,
                keys_unique(self.sources@),
                keys_unique(self.claims@),
                keys_unique(self.entities@),
            decreases self.pages.len() - j,
        {
            let ghost before = self.pages@;
            let mut p = self.pages.remove(j);
            p.refresh_outbound_links();
            self.pages.insert(j, p);
            assert(self.pages@ =~= before.update(j as int, p));
            assert(links_refreshed(self.pages@[j as int], pages0[j as int]));
            j = j + 1;
        }
        assert forall|a: int, b: int| 0 <= a < b < self.pages@.len() implies #[trigger] self.pages@[a].key()
            != #[trigger] self.pages@[b].key() by {
            assert(links_refreshed(self.pages@[a], pages0[a]));
            assert(links_refreshed(self.pages@[b], pages0[b]));
            assert(pages0[a].key() != pages0[b].key());
        }
    }

    fn audit(&mut self, op: AuditOperation, actor: &str, summary: &Vec<char>)
        ensures
            final(self).audit_log() == old(self).audit_log().push((op, actor@, summary@)),
            final(self).audits@.len() == old(self).audits@.len() + 1,
            final(self).outbox@ == old(self).outbox@,
            final(self).schema == old(self).schema,
            final(self).sources@ == old(self).sources@,
            final(self).claims@ == old(self).claims@,
            final(self).pages@ == old(self).pages@,
            final(self).entities@ == old(self).entities@,
            final(self).edges@ == old(self).edges@,
    {
        let ghost before = self.audit_log();
        self.audits.push(AuditNote { op, actor: String::from_str(actor), summary: string_of(summary) });
        assert(self.audit_log() =~= before.push((op, actor@, summary@)));
    }
    /// Schema, sources, pages, entities and edges are as in `o`.
    pub open spec fn same_but_claims(&self, o: &Self) -> bool {
        &&& self.schema == o.schema
        &&& self.sources@ == o.sources@
        &&& self.pages@ == o.pages@
        &&& self.entities@ == o.entities@
        &&& self.edges@ == o.edges@
    }

    /// Files a new claim under `id`, audited and announced.
    pub fn file_claim(&mut self, id: u128, text: String, scope: Scope, tier: MemoryTier, actor: &str) -> (r: u128)
        requires
            old(self).wf(),
            !old(self).claim_map().dom().contains(id),
        ensures
            r == id,
            final(self).wf(),
            final(self).claim_map() == old(self).claim_map().insert(id, fresh_claim(text@, scope, tier, None)),
            final(self).audit_log() == old(self).audit_log().push(
                (AuditOperation::WriteClaim, actor@, "claim "@ + uuid_text(id)),
            ),
            final(self).outbox@ == old(self).outbox@.push(WikiEvent::ClaimUpserted { claim_id: id }),
            final(self).same_but_claims(&*old(self)),
    {
        let c = ClaimRecord {
            id,
            text,
            tier,
            scope,
            source_ids: Vec::new(),
            supersedes: None,
            stale: false,
            access_count: 0,
        };
        proof {
            lemma_put(self.claims@, c);
        }
        put_exec(&mut self.claims, c);
        let mut summary = chars_of("claim ");
        extend_str(&mut summary, uuid_string(id).as_str());
        self.audit(AuditOperation::WriteClaim, actor, &summary);
        self.emit(WikiEvent::ClaimUpserted { claim_id: id });
        id
    }

    /// Attaches sources to a claim (each once) and reinforces it.
    pub fn attach_sources(&mut self, claim_id: u128, sources: &[u128]) -> (r: Result<(), EngineError>)
        requires
            old(self).wf(),
        ensures
            final(self).wf(),
            r is Err <==> !old(self).claim_map().dom().contains(claim_id),
            r matches Err(e) ==> e == EngineError::ClaimNotFound(claim_id),
            r is Err ==> final(self).claims@ == old(self).claims@,
            r is Ok ==> final(self).claim_map() == old(self).claim_map().insert(
                claim_id,
                with_sources(old(self).claim_map()[claim_id], sources@),
            ),
            final(self).audits@ == old(self).audits@,
            final(self).outbox@ == old(self).outbox@,
            final(self).same_but_claims(&*old(self)),
    {
        let i = match find_key(&self.claims, claim_id) {
            None => {
                return Err(EngineError::ClaimNotFound(claim_id));
            },
            Some(i) => i,
        };
        proof {
            lemma_pos_unique(self.claims@, i as int);
        }
        let ghost before = self.claims@;
        let mut c = self.claims.remove(i);
        let ghost c0 = c;
        let ghost orig = c.source_ids@;
        let mut k: usize = 0;
        while k < sources.len()
            invariant
                k <= sources.len(),
                c.source_ids@ == merge_ids(orig, sources@.take(k as int)),
                c.id == c0.id && c.text == c0.text && c.tier == c0.tier && c.scope == c0.scope,
                c.supersedes == c0.supersedes && c.stale == c0.stale && c.access_count == c0.access_count,
                self.claims@ == before.remove(i as int),
            decreases sources.len() - k,
        {
            assert(sources@.take(k + 1).drop_last() =~= sources@.take(k as int));
            if !contains_id_slice(c.source_ids.as_slice(), sources[k]) {
                c.source_ids.push(sources[k]);
            }
            k = k + 1;
        }
        assert(sources@.take(sources.len() as int) =~= sources@);
        if c.access_count < u32::MAX {
            c.access_count = c.access_count + 1;
        }
        self.claims.insert(i, c);
        assert(self.claims@ =~= put(before, c));
        proof {
            lemma_put(before, c);
        }
        Ok(())
    }

    /// Replaces a claim by a new one filed under `new_id`: the old claim is
    /// marked stale and the new one records which claim it supersedes.
    pub fn supersede(
        &mut self,
        old_id: u128,
        new_id: u128,
        new_text: String,
        scope: Scope,
        tier: MemoryTier,
        actor: &str,
    ) -> (r: Result<u128, EngineError>)
        requires
            old(self).wf(),
            !old(self).claim_map().dom().contains(new_id),
        ensures
            final(self).wf(),
            r is Err <==> !old(self).claim_map().dom().contains(old_id),
            r matches Err(e) ==> e == EngineError::ClaimNotFound(old_id),
            r is Err ==> final(self).claims@ == old(self).claims@ && final(self).audits@ == old(self).audits@
                && final(self).outbox@ == old(self).outbox@,
            r matches Ok(id) ==> id == new_id && final(self).claim_map() == old(self).claim_map().insert(
                old_id,
                marked_stale(old(self).claim_map()[old_id]),
            ).insert(new_id, fresh_claim(new_text@, scope, tier, Some(old_id))) && final(self).audit_log()
                == old(self).audit_log().push(
                (AuditOperation::SupersedeClaim, actor@, uuid_text(new_id) + " supersedes "@ + uuid_text(old_id)),
            ) && final(self).outbox@ == old(self).outbox@.push(
                WikiEvent::ClaimSuperseded { old: old_id, new: new_id },
            ),
            final(self).same_but_claims(&*old(self)),
    {
        let i = match find_key(&self.claims, old_id) {
            None => {
                return Err(EngineError::ClaimNotFound(old_id));
            },
            Some(i) => i,
        };
        proof {
            lemma_pos_unique(self.claims@, i as int);
        }
        let ghost before = self.claims@;
        let mut c = self.claims.remove(i);
        c.stale = true;
        self.claims.insert(i, c);
        assert(self.claims@ =~= put(before, c));
        proof {
            lemma_put(before, c);
        }
        let n = ClaimRecord {
            id: new_id,
            text: new_text,
            tier,
            scope,
            source_ids: Vec::new(),
            supersedes: Some(old_id),
            stale: false,
            access_count: 0,
        };
        proof {
            lemma_put(self.claims@, n);
        }
        put_exec(&mut self.claims, n);
        let mut summary = chars_of(uuid_string(new_id).as_str());
        extend_str(&mut summary, " supersedes ");
        extend_str(&mut summary, uuid_string(old_id).as_str());
        self.audit(AuditOperation::SupersedeClaim, actor, &summary);
        self.emit(WikiEvent::ClaimSuperseded { old: old_id, new: new_id });
        Ok(new_id)
    }

    /// Moves a claim one step up the consolidation ladder, when the
    /// application has found its confidence and quality to meet the
    /// schema's thresholds (`qualified`).
    pub fn promote_if_qualified(&mut self, claim_id: u128, qualified: bool, actor: &str) -> (r: Result<
        (),
        EngineError,
    >)
        requires
            old(self).wf(),
        ensures
            final(self).wf(),
            !old(self).claim_map().dom().contains(claim_id) ==> r == Err::<(), EngineError>(
                EngineError::ClaimNotFound(claim_id),
            ),
            old(self).claim_map().dom().contains(claim_id) && !qualified ==> r == Err::<(), EngineError>(
                EngineError::PromotionDenied,
            ),
            r is Err ==> final(self).claims@ == old(self).claims@ && final(self).audits@ == old(self).audits@,
            r is Ok <==> old(self).claim_map().dom().contains(claim_id) && qualified,
            r is Ok ==> final(self).claim_map() == old(self).claim_map().insert(
                claim_id,
                promoted(old(self).claim_map()[claim_id]),
            ) && final(self).audit_log() == old(self).audit_log().push(
                (AuditOperation::WriteClaim, actor@, "promoted claim "@ + uuid_text(claim_id)),
            ),
            final(self).outbox@ == old(self).outbox@,
            final(self).same_but_claims(&*old(self)),
    {
        let i = match find_key(&self.claims, claim_id) {
            None => {
                return Err(EngineError::ClaimNotFound(claim_id));
            },
            Some(i) => i,
        };
        if !qualified {
            return Err(EngineError::PromotionDenied);
        }
        proof {
            lemma_pos_unique(self.claims@, i as int);
        }
        let ghost before = self.claims@;
        let mut c = self.claims.remove(i);
        c.tier = crate::wiki_core::advance_tier(c.tier);
        self.claims.insert(i, c);
        assert(self.claims@ =~= put(before, c));
        proof {
            lemma_put(before, c);
        }
        let mut summary = chars_of("promoted claim ");
        extend_str(&mut summary, uuid_string(claim_id).as_str());
        self.audit(AuditOperation::WriteClaim, actor, &summary);
        Ok(())
    }
}

impl<H: WikiHook> LlmWikiEngine<H> {
    /// Ingests a raw source under `id`: its body is stored redacted; the
    /// ingest is audited (and the redaction, when there was one) and announced.
    pub fn ingest_raw(&mut self, id: u128, uri: String, body: &str, scope: Scope, actor: &str) -> (r: u128)
        requires
            old(self).wf(),
            !old(self).source_map().dom().contains(id),
        ensures
            r == id,
            final(self).wf(),
            final(self).source_map() == old(self).source_map().insert(
                id,
                SourceView { uri: uri@, body: crate::wiki_core::redacted_text(body@), scope: scope_view(scope) },
            ),
            final(self).outbox@ == old(self).outbox@.push(
                WikiEvent::SourceIngested { source_id: id, redacted: redaction_count(body@) > 0 },
            ),
            final(self).audit_log() == old(self).audit_log().push(
                (
                    AuditOperation::IngestSource,
                    actor@,
                    "ingested "@ + uuid_text(id) + " redactions="@ + dec(redaction_count(body@)),
                ),
            ) + if redaction_count(body@) > 0 {
                seq![(AuditOperation::RedactSensitive, actor@, "redaction findings="@ + dec(redaction_count(body@)))]
            } else {
                seq![]
            },
            final(self).schema == old(self).schema,
            final(self).claims@ == old(self).claims@,
            final(self).pages@ == old(self).pages@,
            final(self).entities@ == old(self).entities@,
            final(self).edges@ == old(self).edges@,
    {
        let (clean, findings) = redact_for_ingest(body);
        let n = findings.len();
        assert(findings@.map_values(|f: crate::wiki_core::RedactionFinding| f.kind).len() == n);
        let art = SourceRecord { id, uri, body: clean, scope };
        proof {
            lemma_put(self.sources@, art);
        }
        put_exec(&mut self.sources, art);
        let mut summary = chars_of("ingested ");
        extend_str(&mut summary, uuid_string(id).as_str());
        extend_str(&mut summary, " redactions=");
        crate::text::extend_dec(&mut summary, n as u64);
        self.audit(AuditOperation::IngestSource, actor, &summary);
        self.emit(WikiEvent::SourceIngested { source_id: id, redacted: n > 0 });
        if n > 0 {
            let mut note = chars_of("redaction findings=");
            crate::text::extend_dec(&mut note, n as u64);
            self.audit(AuditOperation::RedactSensitive, actor, &note);
        }
        assert(self.audit_log() =~= old(self).audit_log().push(
            (
                AuditOperation::IngestSource,
                actor@,
                "ingested "@ + uuid_text(id) + " redactions="@ + dec(redaction_count(body@)),
            ),
        ) + if redaction_count(body@) > 0 {
            seq![(AuditOperation::RedactSensitive, actor@, "redaction findings="@ + dec(redaction_count(body@)))]
        } else {
            seq![]
        });
        id
    }

    /// Adds an entity, when the schema admits its kind.
    pub fn add_entity(&mut self, entity: EntityRecord) -> (r: Result<(), EngineError>)
        requires
            old(self).wf(),
        ensures
            final(self).wf(),
            r is Ok <==> old(self).schema.allowed_entity_kinds@.map_values(|x: EntityKind| kind_view(x)).contains(
                kind_view(entity.kind),
            ),
            r matches Err(e) ==> e == EngineError::EntityKindNotAllowed && final(self).entities@ == old(
                self,
            ).entities@,
            r is Ok ==> final(self).entity_map() == old(self).entity_map().insert(entity.id, entity@),
            final(self).schema == old(self).schema,
            final(self).sources@ == old(self).sources@,
            final(self).claims@ == old(self).claims@,
            final(self).pages@ == old(self).pages@,
            final(self).edges@ == old(self).edges@,
            final(self).audits@ == old(self).audits@,
            final(self).outbox@ == old(self).outbox@,
    {
        if !self.schema.entity_kind_allowed(&entity.kind) {
            return Err(EngineError::EntityKindNotAllowed);
        }
        proof {
            lemma_put(self.entities@, entity);
        }
        put_exec(&mut self.entities, entity);
        Ok(())
    }

    /// Adds a typed edge, when the schema admits its relation.
    pub fn add_edge(&mut self, edge: EdgeRecord) -> (r: Result<(), EngineError>)
        requires
            old(self).wf(),
        ensures
            final(self).wf(),
            r is Ok <==> old(self).schema.allowed_relations@.contains(edge.relation),
            r matches Err(e) ==> e == EngineError::RelationNotAllowed(edge.relation) && final(self).edges@
                == old(self).edges@,
            r is Ok ==> final(self).edges@ == old(self).edges@.push(edge),
            final(self).schema == old(self).schema,
            final(self).sources@ == old(self).sources@,
            final(self).claims@ == old(self).claims@,
            final(self).pages@ == old(self).pages@,
            final(self).entities@ == old(self).entities@,
            final(self).audits@ == old(self).audits@,
            final(self).outbox@ == old(self).outbox@,
    {
        if !self.schema.relation_allowed(edge.relation) {
            return Err(EngineError::RelationNotAllowed(edge.relation));
        }
        self.edges.push(edge);
        Ok(())
    }

    /// Crystallizes a session into a page stored under `page_id`, audited
    /// and announced; the draft is returned.
    pub fn crystallize(&mut self, page_id: u128, input: SessionCrystallizationInput, actor: &str) -> (r: Result<
        CrystallizationDraft,
        EngineError,
    >)
        requires
            old(self).wf(),
            !old(self).page_map().dom().contains(page_id),
        ensures
            final(self).wf(),
            r matches Ok(d) && d.title@ == "结晶: "@ + crate::wiki_core::one_line(input.question@)
                && d.markdown@ == crate::wiki_core::crystallized_markdown(input) && d.claim_candidates@
                == input.lessons@ && final(self).page_map() == old(self).page_map().insert(
                page_id,
                PageView { title: d.title@, markdown: d.markdown@, scope: scope_view(input.scope), outbound: seq![] },
            ) && d.scope == input.scope && d.outbound_page_titles@.len() == 0,
            final(self).audit_log() == old(self).audit_log().push(
                (AuditOperation::CrystallizeSession, actor@, "crystallized page "@ + uuid_text(page_id)),
            ),
            final(self).outbox@ == old(self).outbox@.push(WikiEvent::SessionCrystallized { page_id }),
            final(self).schema == old(self).schema,
            final(self).sources@ == old(self).sources@,
            final(self).claims@ == old(self).claims@,
            final(self).entities@ == old(self).entities@,
            final(self).edges@ == old(self).edges@,
    {
        let scope = copy_scope(&input.scope);
        let draft = draft_from_session(input);
        let page = PageRecord {
            id: page_id,
            title: draft.title.clone(),
            markdown: draft.markdown.clone(),
            scope,
            outbound_page_titles: Vec::new(),
        };
        assert(crate::text::string_views(page.outbound_page_titles@) =~= seq![]);
        proof {
            lemma_put(self.pages@, page);
        }
        put_exec(&mut self.pages, page);
        let mut summary = chars_of("crystallized page ");
        extend_str(&mut summary, uuid_string(page_id).as_str());
        self.audit(AuditOperation::CrystallizeSession, actor, &summary);
        self.emit(WikiEvent::SessionCrystallized { page_id });
        Ok(draft)
    }

    /// Records a served query: audited with its fingerprint, announced
    /// with its top documents.
    pub fn record_query(&mut self, query_fingerprint: String, top_doc_ids: Vec<String>, actor: &str)
        requires
            old(self).wf(),
        ensures
            final(self).wf(),
            final(self).audit_log() == old(self).audit_log().push(
                (AuditOperation::RunQuery, actor@, "query fp="@ + query_fingerprint@),
            ),
            final(self).outbox@ == old(self).outbox@.push(
                WikiEvent::QueryServed { query_fingerprint, top_doc_ids },
            ),
            final(self).schema == old(self).schema,
            final(self).sources@ == old(self).sources@,
            final(self).claims@ == old(self).claims@,
            final(self).pages@ == old(self).pages@,
            final(self).entities@ == old(self).entities@,
            final(self).edges@ == old(self).edges@,
    {
        let mut summary = chars_of("query fp=");
        extend_str(&mut summary, query_fingerprint.as_str());
        self.audit(AuditOperation::RunQuery, actor, &summary);
        self.emit(WikiEvent::QueryServed { query_fingerprint, top_doc_ids });
    }

    /// Pairs of live claims whose texts look contradictory (a negation on
    /// one side only), in store order.
    pub fn naive_contradiction_pairs(&self) -> (r: Vec<ContradictionHint>)
        ensures
            hint_pairs(r@) == hint_rows(self.claims@, self.claims@.len() as int),
            forall|k: int| 0 <= k < r@.len() ==> #[trigger] r@[k].reason@ == "heuristic negation / mismatch"@,
    {
        let ghost cs = self.claims@;
        let n = self.claims.len();
        let mut out: Vec<ContradictionHint> = Vec::new();
        let mut i: usize = 0;
        while i < n
            invariant
                i <= n,
                n == cs.len(),
                cs == self.claims@,
                hint_pairs(out@) == hint_rows(cs, i as int),
                forall|k: int| 0 <= k < out@.len() ==> #[trigger] out@[k].reason@ == "heuristic negation / mismatch"@,
            decreases n - i,
        {
            let mut j: usize = i + 1;
            assert(hint_row(cs, i as int, j as int) =~= Seq::<(u128, u128)>::empty());
            while j < n
                invariant
                    i < n,
                    i + 1 <= j <= n,
                    n == cs.len(),
                    cs == self.claims@,
                    hint_pairs(out@) == hint_rows(cs, i as int) + hint_row(cs, i as int, j as int),
                    forall|k: int| 0 <= k < out@.len() ==> #[trigger] out@[k].reason@
                        == "heuristic negation / mismatch"@,
                decreases n - j,
            {
                let a = &self.claims[i];
                let b = &self.claims[j];
                if !a.stale && !b.stale && contradicts_heuristic(a.text.as_str(), b.text.as_str()) {
                    let ghost before = hint_pairs(out@);
                    out.push(
                        ContradictionHint { a: a.id, b: b.id, reason: String::from_str("heuristic negation / mismatch") },
                    );
                    assert(hint_pairs(out@) =~= before.push((a.id, b.id)));
                }
                j = j + 1;
            }
            i = i + 1;
        }
        out
    }

    /// The typed edges as a graph.
    pub fn graph_snapshot(&self) -> (r: GraphSnapshot)
        ensures
            r.edges@ == edge_triples(self.edges@),
    {
        let mut v: Vec<(u128, u128, RelationKind)> = Vec::new();
        let mut i: usize = 0;
        while i < self.edges.len()
            invariant
                i <= self.edges.len(),
                v@ == edge_triples(self.edges@).take(i as int),
            decreases self.edges.len() - i,
        {
            let e = &self.edges[i];
            v.push((e.from, e.to, e.relation));
            assert(v@ =~= edge_triples(self.edges@).take(i + 1));
            i = i + 1;
        }
        assert(edge_triples(self.edges@).take(i as int) =~= edge_triples(self.edges@));
        GraphSnapshot { edges: v }
    }

    /// The entities reachable from the seeds along the typed edges, within
    /// the walk's bounds.
    pub fn expand_graph(&self, seeds: &[u128], opts: &GraphWalkOptions) -> (r: Vec<u128>)
        requires
            seeds.len() + self.edges.len() <= usize::MAX,
        ensures
            r@.no_duplicates(),
            forall|y: u128|
                r@.contains(y) <==> within(
                    edge_triples(self.edges@),
                    allow_view(*opts),
                    seeds@,
                    y,
                    opts.max_depth as nat,
                ),
    {
        let snap = self.graph_snapshot();
        walk_entities(&snap, seeds, opts)
    }
}

impl LlmWikiEngine<NoopWikiHook> {
    /// An empty kernel under a schema, with no hook.
    pub fn new(schema: DomainSchema) -> (r: Self)
        ensures
            r.wf(),
            r.schema == schema,
            r.sources@.len() == 0,
            r.claims@.len() == 0,
            r.pages@.len() == 0,
            r.entities@.len() == 0,
            r.edges@.len() == 0,
            r.audits@.len() == 0,
            r.outbox@.len() == 0,
    {
        Self::with_hooks(schema, NoopWikiHook)
    }
}

// ───────────────────────── flushing the outbox ─────────────────────────

/// How many times an outbox event is retried, by default, after a failed append.
pub const OUTBOX_RETRY_COUNT: usize = 3;

/// What the flush asks for next: append event `i` of the outbox, stop
/// having appended `n` events (the outbox may then be cleared), or stop
/// on a failure.
#[derive(Debug, Clone, Copy, PartialEq, Eq)]
pub enum FlushStep {
    Append(usize),
    Done(usize),
    Failed,
}

/// Progress of appending the outbox, in order, to a repository: each event
/// is tried up to `retry_count + 1` times before the flush gives up.
#[derive(Debug, Clone, Copy)]
pub struct OutboxFlush {
    pub total: usize,
    pub retry_count: usize,
    /// Index of the event being appended.
    pub next: usize,
    /// Failed attempts on it so far.
    pub failures: usize,
    pub failed: bool,
}

impl OutboxFlush {
    /// Counters within bounds.
    pub open spec fn wf(&self) -> bool {
        &&& self.next <= self.total
        &&& self.failures <= self.retry_count
        &&& self.failed ==> self.next < self.total
    }

    /// The step the state calls for.
    pub open spec fn step_of(&self) -> FlushStep {
        if self.failed {
            FlushStep::Failed
        } else if self.next < self.total {
            FlushStep::Append(self.next)
        } else {
            FlushStep::Done(self.total)
        }
    }

    /// A flush of `total` events, none appended yet.
    pub fn new(total: usize, retry_count: usize) -> (r: Self)
        ensures
            r.wf(),
            r.total == total,
            r.retry_count == retry_count,
            r.next == 0,
            r.failures == 0,
            !r.failed,
    {
        OutboxFlush { total, retry_count, next: 0, failures: 0, failed: false }
    }

    /// The next step.
    pub fn step(&self) -> (r: FlushStep)
        ensures
            r == self.step_of(),
    {
        if self.failed {
            FlushStep::Failed
        } else if self.next < self.total {
            FlushStep::Append(self.next)
        } else {
            FlushStep::Done(self.total)
        }
    }

    /// Takes the outcome of the append asked for: a success moves to the
    /// next event; a failure retries the same event while retries are left,
    /// and fails the flush after the last one.
    pub fn on_append(&mut self, ok: bool) -> (r: FlushStep)
        requires
            old(self).wf(),
            old(self).step_of() is Append,
        ensures
            final(self).wf(),
            final(self).total == old(self).total,
            final(self).retry_count == old(self).retry_count,
            ok ==> final(self).next == old(self).next + 1 && final(self).failures == 0 && !final(self).failed,
            !ok && old(self).failures < old(self).retry_count ==> final(self).next == old(self).next
                && final(self).failures == old(self).failures + 1 && !final(self).failed,
            !ok && old(self).failures == old(self).retry_count ==> final(self).next == old(self).next
                && final(self).failed,
            *final(self) == flush_after(*old(self), ok),
            r == final(self).step_of(),
    {
        if ok {
            self.next = self.next + 1;
            self.failures = 0;
        } else if self.failures < self.retry_count {
            self.failures = self.failures + 1;
        } else {
            self.failed = true;
        }
        self.step()
    }
}

/// The state after the outcome of an append.
pub open spec fn flush_after(f: OutboxFlush, ok: bool) -> OutboxFlush {
    if ok {
        OutboxFlush { next: (f.next + 1) as usize, failures: 0, ..f }
    } else if f.failures < f.retry_count {
        OutboxFlush { failures: (f.failures + 1) as usize, ..f }
    } else {
        OutboxFlush { failed: true, ..f }
    }
}

/// The state after a run of append outcomes, each taken while an append is
/// asked for (outcomes after the flush stopped are not used).
pub open spec fn flush_run(f: OutboxFlush, outcomes: Seq<bool>) -> OutboxFlush
    decreases outcomes.len(),
{
    if outcomes.len() == 0 {
        f
    } else {
        let g = flush_run(f, outcomes.drop_last());
        if g.step_of() is Append {
            flush_after(g, outcomes.last())
        } else {
            g
        }
    }
}

/// How many appends succeeded in a run of outcomes.
pub open spec fn successes(outcomes: Seq<bool>) -> nat
    decreases outcomes.len(),
{
    if outcomes.len() == 0 {
        0
    } else {
        successes(outcomes.drop_last()) + if outcomes.last() {
            1nat
        } else {
            0nat
        }
    }
}

/// A flush only moves past an event on a successful append: whatever the
/// outcomes, it has moved past no more events than appends succeeded, and
/// it reports `Done` only with every event of the outbox appended.
pub proof fn lemma_flush_done_counts_all(total: usize, retry_count: usize, outcomes: Seq<bool>)
    ensures
        flush_run(OutboxFlush { total, retry_count, next: 0, failures: 0, failed: false }, outcomes).wf(),
        flush_run(OutboxFlush { total, retry_count, next: 0, failures: 0, failed: false }, outcomes).total == total,
        flush_run(OutboxFlush { total, retry_count, next: 0, failures: 0, failed: false }, outcomes).retry_count
            == retry_count,
        flush_run(OutboxFlush { total, retry_count, next: 0, failures: 0, failed: false }, outcomes).next
            <= successes(outcomes),
        flush_run(OutboxFlush { total, retry_count, next: 0, failures: 0, failed: false }, outcomes).step_of() matches FlushStep::Done(n)
            ==> n == total && successes(outcomes) >= total,
    decreases outcomes.len(),
{
    let f0 = OutboxFlush { total, retry_count, next: 0, failures: 0, failed: false };
    if outcomes.len() > 0 {
        lemma_flush_done_counts_all(total, retry_count, outcomes.drop_last());
    }
    let g = flush_run(f0, outcomes);
    if g.step_of() is Done {
        assert(!g.failed && g.next >= g.total);
        assert(g.next == g.total);
    }
}

/// The appends a run of outcomes makes: for each outcome taken while an
/// append is asked for, the index of the event appended and the outcome.
pub open spec fn flush_trace(f: OutboxFlush, outcomes: Seq<bool>) -> Seq<(usize, bool)>
    decreases outcomes.len(),
{
    if outcomes.len() == 0 {
        seq![]
    } else {
        let g = flush_run(f, outcomes.drop_last());
        if g.step_of() is Append {
            flush_trace(f, outcomes.drop_last()).push((g.next, outcomes.last()))
        } else {
            flush_trace(f, outcomes.drop_last())
        }
    }
}

/// The events appended successfully in a trace, in order.
pub open spec fn appended(t: Seq<(usize, bool)>) -> Seq<usize>
    decreases t.len(),
{
    if t.len() == 0 {
        seq![]
    } else if t.last().1 {
        appended(t.drop_last()).push(t.last().0)
    } else {
        appended(t.drop_last())
    }
}

/// How many appends of event `i` a trace holds.
pub open spec fn attempts_on(t: Seq<(usize, bool)>, i: usize) -> nat
    decreases t.len(),
{
    if t.len() == 0 {
        0
    } else {
        attempts_on(t.drop_last(), i) + if t.last().0 == i {
            1nat
        } else {
            0nat
        }
    }
}

/// The flush over a whole run, from the start: the events reach the
/// repository successfully exactly once each and in outbox order (the
/// successful appends are events `0, 1, .., next - 1`); no event past the
/// current one is tried; each event is tried at most `retry_count + 1`
/// times; and a flush that failed did so after `retry_count + 1` failed
/// appends of the event it stopped at. So a `Done` flush has appended the
/// whole outbox once, in order, and a failed one has appended only the
/// events before the one that failed.
pub proof fn lemma_flush_run_appends(total: usize, retry_count: usize, outcomes: Seq<bool>)
    ensures
        ({
            let f0 = OutboxFlush { total, retry_count, next: 0, failures: 0, failed: false };
            let g = flush_run(f0, outcomes);
            let t = flush_trace(f0, outcomes);
            &&& appended(t) == Seq::new(g.next as nat, |i: int| i as usize)
            &&& forall|k: int| 0 <= k < t.len() ==> (#[trigger] t[k]).0 <= g.next
            &&& forall|i: usize| i < g.next ==> #[trigger] attempts_on(t, i) <= retry_count + 1
            &&& attempts_on(t, g.next) == g.failures + if g.failed { 1nat } else { 0nat }
            &&& g.step_of() is Failed ==> attempts_on(t, g.next) == retry_count + 1
        }),
    decreases outcomes.len(),
{
    let f0 = OutboxFlush { total, retry_count, next: 0, failures: 0, failed: false };
    lemma_flush_done_counts_all(total, retry_count, outcomes);
    if outcomes.len() == 0 {
        assert(appended(flush_trace(f0, outcomes)) =~= Seq::new(0nat, |i: int| i as usize));
    } else {
        let o = outcomes.drop_last();
        lemma_flush_run_appends(total, retry_count, o);
        lemma_flush_done_counts_all(total, retry_count, o);
        let g0 = flush_run(f0, o);
        let t0 = flush_trace(f0, o);
        let g = flush_run(f0, outcomes);
        let t = flush_trace(f0, outcomes);
        if g0.step_of() is Append {
            let e = (g0.next, outcomes.last());
            assert(t == t0.push(e));
            assert(t.drop_last() =~= t0);
            assert(t.last() == e);
            assert forall|i: usize| attempts_on(t, i) == attempts_on(t0, i) + if i == g0.next { 1nat } else { 0nat } by {}
            if outcomes.last() {
                assert(appended(t) =~= Seq::new(g.next as nat, |i: int| i as usize));
                assert forall|k: int| 0 <= k < t.len() implies (#[trigger] t[k]).0 <= g.next by {
                    if k < t0.len() {
                        assert(t[k] == t0[k]);
                    }
                }
                lemma_no_attempts_past(t, g.next);
            } else {
                assert(appended(t) =~= appended(t0));
                assert forall|k: int| 0 <= k < t.len() implies (#[trigger] t[k]).0 <= g.next by {
                    if k < t0.len() {
                        assert(t[k] == t0[k]);
                    }
                }
            }
        } else {
            assert(t == t0);
        }
    }
}

/// A trace whose events all lie before `n` holds no append of `n`.
proof fn lemma_no_attempts_past(t: Seq<(usize, bool)>, n: usize)
    requires
        forall|k: int| 0 <= k < t.len() ==> (#[trigger] t[k]).0 < n,
    ensures
        attempts_on(t, n) == 0,
    decreases t.len(),
{
    if t.len() > 0 {
        assert forall|k: int| 0 <= k < t.drop_last().len() implies (#[trigger] t.drop_last()[k]).0 < n by {
            assert(t.drop_last()[k] == t[k]);
        }
        lemma_no_attempts_past(t.drop_last(), n);
        assert(t.last() == t[t.len() - 1]);
    }
}

impl<H: WikiHook> LlmWikiEngine<H> {
    /// Empties the outbox (after a flush that reached `Done`).
    pub fn clear_outbox(&mut self)
        ensures
            final(self).outbox@.len() == 0,
            final(self).schema == old(self).schema,
            final(self).sources@ == old(self).sources@,
            final(self).claims@ == old(self).claims@,
            final(self).pages@ == old(self).pages@,
            final(self).entities@ == old(self).entities@,
            final(self).edges@ == old(self).edges@,
            final(self).audits@ == old(self).audits@,
    {
        self.outbox.clear();
    }
}

/// A claim as the lint reads it: its id in hyphenated form, whether the
/// application found its quality low, and whether it is stale.
pub open spec fn lint_claim_matches(l: LintClaim, c: ClaimRecord, low: Seq<u128>) -> bool {
    &&& l.id@ == uuid_text(c.id)
    &&& l.text@ == c.text@
    &&& l.low_quality == low.contains(c.id)
    &&& l.stale == c.stale
}

/// A page as the lint reads it.
pub open spec fn lint_page_matches(l: LintPage, p: PageRecord) -> bool {
    &&& l.id@ == uuid_text(p.id)
    &&& l.title@ == p.title@
    &&& l.markdown@ == p.markdown@
}

impl<H: WikiHook> LlmWikiEngine<H> {
    /// Lints the stored claims and pages (claims whose quality the
    /// application found below the threshold are listed in `low_quality`);
    /// the run is audited and announced with its number of findings.
    pub fn run_basic_lint(&mut self, low_quality: &[u128], actor: &str) -> (r: Vec<LintFinding>)
        requires
            old(self).wf(),
        ensures
            final(self).wf(),
            exists|cs: Seq<LintClaim>, ps: Seq<LintPage>|
                {
                    &&& cs.len() == old(self).claims@.len()
                    &&& forall|i: int| 0 <= i < cs.len() ==> #[trigger] lint_claim_matches(cs[i], old(self).claims@[i], low_quality@)
                    &&& ps.len() == old(self).pages@.len()
                    &&& forall|i: int| 0 <= i < ps.len() ==> #[trigger] lint_page_matches(ps[i], old(self).pages@[i])
                    &&& findings_view(r@) == basic_lint_findings(cs, ps)
                },
            final(self).audit_log() == old(self).audit_log().push(
                (AuditOperation::RunLint, actor@, "lint findings="@ + dec(r@.len())),
            ),
            final(self).outbox@ == old(self).outbox@.push(WikiEvent::LintRunFinished { findings: r@.len() as usize }),
            final(self).schema == old(self).schema,
            final(self).sources@ == old(self).sources@,
            final(self).claims@ == old(self).claims@,
            final(self).pages@.len() == old(self).pages@.len(),
            forall|i: int| 0 <= i < old(self).pages@.len() ==> #[trigger] links_refreshed(final(self).pages@[i], old(self).pages@[i]),
            final(self).entities@ == old(self).entities@,
            final(self).edges@ == old(self).edges@,
    {
        let mut cs: Vec<LintClaim> = Vec::new();
        let mut i: usize = 0;
        while i < self.claims.len()
            invariant
                i <= self.claims.len(),
                cs@.len() == i,
                forall|k: int| 0 <= k < i ==> #[trigger] lint_claim_matches(cs@[k], self.claims@[k], low_quality@),
            decreases self.claims.len() - i,
        {
            let c = &self.claims[i];
            let low = contains_id_slice(low_quality, c.id);
            cs.push(LintClaim { id: uuid_string(c.id), text: c.text.clone(), low_quality: low, stale: c.stale });
            i = i + 1;
        }
        let mut ps: Vec<LintPage> = Vec::new();
        let mut j: usize = 0;
        while j < self.pages.len()
            invariant
                j <= self.pages.len(),
                ps@.len() == j,
                forall|k: int| 0 <= k < j ==> #[trigger] lint_page_matches(ps@[k], self.pages@[k]),
            decreases self.pages.len() - j,
        {
            let p = &self.pages[j];
            ps.push(LintPage { id: uuid_string(p.id), title: p.title.clone(), markdown: p.markdown.clone() });
            j = j + 1;
        }
        let findings = basic_lint(&cs, &ps);
        self.refresh_page_links();
        let n = findings.len();
        let mut summary = chars_of("lint findings=");
        crate::text::extend_dec(&mut summary, n as u64);
        self.audit(AuditOperation::RunLint, actor, &summary);
        self.emit(WikiEvent::LintRunFinished { findings: n });
        findings
    }
}

fn contains_id_slice(v: &[u128], x: u128) -> (b: bool)
    ensures
        b == v@.contains(x),
{
    let mut i: usize = 0;
    while i < v.len()
        invariant
            i <= v.len(),
            forall|j: int| 0 <= j < i ==> v@[j] != x,
        decreases v.len() - i,
    {
        if v[i] == x {
            assert(v@[i as int] == x);
            return true;
        }
        i = i + 1;
    }
    false
}

} // verus!
