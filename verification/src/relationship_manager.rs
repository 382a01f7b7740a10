//! The relationship store: the ledger of pairwise agent relationships,
//! strength dynamics, and connection-kind evolution.
//!
//! Strengths are carried in thousandths (`1000` is the maximum `1.0`);
//! timestamps are milliseconds.

use vstd::prelude::*;

use crate::ids::fresh_id;
use crate::clock::now_millis;
use crate::labels::{label_eq, labels_match};
use crate::search::{first_idx, lemma_first_idx, lemma_first_idx_none, lemma_first_idx_of};
use crate::types::{clamp_milli, AgentId, AgentInteraction, ConnectionType, IntelligenceError,
    InteractionOutcome};

verus! {

/// One direction of a pairwise relationship: the record owned by
/// `agent_id` about `other_agent_id`.
#[derive(Clone, Copy, Debug, PartialEq, Eq, Structural)]
pub struct AgentRelationship {
    pub id: u128,
    pub agent_id: AgentId,
    pub other_agent_id: AgentId,
    pub connection_type: ConnectionType,
    /// Strength in thousandths; always within `0 ..= 1000`.
    pub strength: u32,
    pub established_at: i64,
    pub last_interaction: i64,
    pub interaction_count: u32,
}

/// Kind of a recorded connection event.
#[derive(Clone, Copy, Debug, PartialEq, Eq, Structural)]
pub enum ConnectionEventType {
    Established,
    StrengthChanged,
    TypeChanged,
    Dissolved,
}

/// Immutable audit record of one strength change.
#[derive(Clone, Copy, Debug, PartialEq, Eq, Structural)]
pub struct ConnectionEvent {
    pub id: u128,
    pub agent1_id: AgentId,
    pub agent2_id: AgentId,
    pub event_type: ConnectionEventType,
    pub timestamp: i64,
    /// Signed strength delta in thousandths.
    pub strength_change: i32,
}

/// Process-wide constants of the relationship dynamics, in thousandths.
#[derive(Clone, Copy, Debug, PartialEq, Eq, Structural)]
pub struct RelationshipConfigs {
    pub max_strength: u32,
    pub min_strength: u32,
    pub decay_rate: u32,
    pub evolution_threshold: u32,
}

/// The default relationship dynamics, in thousandths.
pub open spec fn default_configs() -> RelationshipConfigs {
    RelationshipConfigs { max_strength: 1000u32, min_strength: 0u32, decay_rate: 1u32, evolution_threshold: 800u32 }
}

impl Default for RelationshipConfigs {
    /// The default dynamics: strengths span the whole unit interval, the
    /// decay rate is one thousandth, and kinds evolve at strength `0.8`.
    fn default() -> (r: Self)
        ensures
            r == default_configs(),
    {
        RelationshipConfigs { max_strength: 1000, min_strength: 0, decay_rate: 1, evolution_threshold: 800 }
    }
}

/// The outcome of one relationship update: the strengths observed before
/// and after, and the resulting connection kind.
#[derive(Clone, Copy, Debug, PartialEq, Eq, Structural)]
pub struct RelationshipUpdate {
    pub agent1_id: AgentId,
    pub agent2_id: AgentId,
    pub old_strength: u32,
    pub new_strength: u32,
    pub connection_type: ConnectionType,
}

/// All relationship records owned by one agent.
#[derive(Clone, Debug)]
pub struct AgentEdgeList {
    pub agent_id: AgentId,
    pub edges: Vec<AgentRelationship>,
}

/// The relationship store: a ledger of per-agent relationship lists and
/// an append-only log of connection events.
#[derive(Clone, Debug)]
pub struct RelationshipManager {
    pub relationships: Vec<AgentEdgeList>,
    pub connection_history: Vec<ConnectionEvent>,
    pub relationship_configs: RelationshipConfigs,
}

// ---------------------------------------------------------------------
// The strength-change formula.
// ---------------------------------------------------------------------

/// Base strength change of an interaction outcome, in thousandths.
pub open spec fn base_change_of(o: InteractionOutcome) -> int {
    match o {
        InteractionOutcome::Successful => 100,
        InteractionOutcome::Partial => 50,
        InteractionOutcome::Failed => -50,
        InteractionOutcome::Pending => 0,
    }
}

/// Multiplier applied to the base change, keyed on the interaction-kind
/// label without regard to ASCII case, in thousandths.
pub open spec fn type_modifier_of(label: Seq<char>) -> int {
    if label_eq(label, "collaboration"@) {
        1500
    } else if label_eq(label, "mentorship"@) {
        1300
    } else if label_eq(label, "competition"@) {
        800
    } else if label_eq(label, "data_sharing"@) {
        1200
    } else if label_eq(label, "consultation"@) {
        1100
    } else {
        1000
    }
}

/// The signed strength change of an interaction, in thousandths:
/// the outcome's base change scaled by the kind's modifier.
pub open spec fn strength_change_spec(o: InteractionOutcome, label: Seq<char>) -> int {
    base_change_of(o) * type_modifier_of(label) / 1000
}

/// Multiplier applied to the base change, keyed on the interaction-kind
/// label.
fn type_modifier_for(label: &str) -> (m: u32)
    ensures
        m == type_modifier_of(label@),
{
    if labels_match(label, "collaboration") {
        1500
    } else if labels_match(label, "mentorship") {
        1300
    } else if labels_match(label, "competition") {
        800
    } else if labels_match(label, "data_sharing") {
        1200
    } else if labels_match(label, "consultation") {
        1100
    } else {
        1000
    }
}

// ---------------------------------------------------------------------
// Connection-kind evolution.
// ---------------------------------------------------------------------

/// The fixed promotion map of connection kinds. Kinds without a mapped
/// promotion stay what they are.
pub open spec fn promotion_target(k: ConnectionType) -> ConnectionType {
    match k {
        ConnectionType::Professional => ConnectionType::Friendship,
        ConnectionType::Mentorship => ConnectionType::Collaboration,
        ConnectionType::Competition => ConnectionType::Professional,
        ConnectionType::DataSharing => ConnectionType::Collaboration,
        ConnectionType::Consultation => ConnectionType::Mentorship,
        _ => k,
    }
}

/// The kind a relationship carries after an update that left it with
/// strength `s` (thousandths) and interaction count `c`: promoted along
/// the fixed map exactly when `s > 0.9` and `c > 10`.
pub open spec fn evolved_kind(k: ConnectionType, s: int, c: int) -> ConnectionType {
    if s > 900 && c > 10 {
        promotion_target(k)
    } else {
        k
    }
}

/// An interaction count, one higher; the count stops at the machine
/// limit rather than wrap.
pub open spec fn inc_count(c: u32) -> u32 {
    if c < u32::MAX {
        (c + 1) as u32
    } else {
        c
    }
}

/// A freshly created relationship record: kind Professional, strength
/// `0.1`, no interactions yet.
pub open spec fn initial_edge(id: u128, owner: AgentId, other: AgentId, ts: i64) -> AgentRelationship {
    AgentRelationship {
        id: id,
        agent_id: owner,
        other_agent_id: other,
        connection_type: ConnectionType::Professional,
        strength: 100u32,
        established_at: ts,
        last_interaction: ts,
        interaction_count: 0u32,
    }
}

/// A relationship record after one interaction with signed strength
/// change `delta` at time `ts`: strength clamped into the unit interval,
/// count one higher, and the kind evolved.
pub open spec fn updated_edge(e: AgentRelationship, delta: int, ts: i64) -> AgentRelationship {
    let ns = clamp_milli(e.strength + delta) as u32;
    let nc = inc_count(e.interaction_count);
    AgentRelationship {
        connection_type: evolved_kind(e.connection_type, ns as int, nc as int),
        strength: ns,
        last_interaction: ts,
        interaction_count: nc,
        ..e
    }
}

// ---------------------------------------------------------------------
// The ledger model.
// ---------------------------------------------------------------------

/// The position of agent `a`'s edge list, or `-1` if the agent owns no
/// records yet.
pub open spec fn agent_idx(s: Seq<AgentEdgeList>, a: AgentId) -> int {
    first_idx(s, |el: AgentEdgeList| el.agent_id == a)
}

/// Whether agent `a` owns any records.
pub open spec fn has_rels_for(s: Seq<AgentEdgeList>, a: AgentId) -> bool {
    agent_idx(s, a) >= 0
}

/// The records agent `a` owns, oldest first; empty if none.
pub open spec fn edges_of(s: Seq<AgentEdgeList>, a: AgentId) -> Seq<AgentRelationship> {
    if has_rels_for(s, a) {
        s[agent_idx(s, a)].edges@
    } else {
        Seq::empty()
    }
}

/// The position of the first record `owner` holds about `other`, or
/// `-1` if there is none.
pub open spec fn edge_idx(es: Seq<AgentRelationship>, other: AgentId) -> int {
    first_idx(es, |e: AgentRelationship| e.other_agent_id == other)
}

/// Whether a relationship record from `a1` to `a2` exists.
pub open spec fn has_edge(s: Seq<AgentEdgeList>, a1: AgentId, a2: AgentId) -> bool {
    edge_idx(edges_of(s, a1), a2) >= 0
}

/// Two edge lists carry the same data.
pub open spec fn entry_eq(x: AgentEdgeList, y: AgentEdgeList) -> bool {
    x.agent_id == y.agent_id && x.edges@ == y.edges@
}

/// The number of relationship records in the whole ledger.
pub open spec fn total_edges(s: Seq<AgentEdgeList>) -> int
    decreases s.len(),
{
    if s.len() == 0 {
        0
    } else {
        total_edges(s.drop_last()) + s.last().edges@.len()
    }
}

/// The sum of all stored strengths, in thousandths.
pub open spec fn strength_sum_of(es: Seq<AgentRelationship>) -> int
    decreases es.len(),
{
    if es.len() == 0 {
        0
    } else {
        strength_sum_of(es.drop_last()) + es.last().strength
    }
}

/// The sum of all stored strengths over the whole ledger.
pub open spec fn strength_total(s: Seq<AgentEdgeList>) -> int
    decreases s.len(),
{
    if s.len() == 0 {
        0
    } else {
        strength_total(s.drop_last()) + strength_sum_of(s.last().edges@)
    }
}

/// No two edge lists belong to the same agent.
pub open spec fn keys_unique(s: Seq<AgentEdgeList>) -> bool {
    forall|i: int, j: int|
        0 <= i < j < s.len() ==> (#[trigger] s[i]).agent_id != (#[trigger] s[j]).agent_id
}

/// Every record is owned by the agent whose list holds it, and every
/// strength lies in the unit interval.
pub open spec fn edges_owned_bounded(s: Seq<AgentEdgeList>) -> bool {
    forall|i: int, k: int|
        0 <= i < s.len() && 0 <= k < (#[trigger] s[i]).edges@.len() ==> {
            &&& (#[trigger] s[i].edges@[k]).agent_id == s[i].agent_id
            &&& s[i].edges@[k].strength <= 1000
        }
}

/// The ledger `t` is the ledger `s` with record `e` appended to
/// `owner`'s list; the list itself is created when `owner` had none.
pub open spec fn edge_pushed(
    s: Seq<AgentEdgeList>,
    t: Seq<AgentEdgeList>,
    owner: AgentId,
    e: AgentRelationship,
) -> bool {
    if has_rels_for(s, owner) {
        let i = agent_idx(s, owner);
        &&& t.len() == s.len()
        &&& forall|k: int| 0 <= k < s.len() && k != i ==> entry_eq(#[trigger] t[k], s[k])
        &&& t[i].agent_id == owner
        &&& t[i].edges@ == s[i].edges@.push(e)
    } else {
        &&& t.len() == s.len() + 1
        &&& forall|k: int| 0 <= k < s.len() ==> entry_eq(#[trigger] t[k], s[k])
        &&& t[s.len() as int].agent_id == owner
        &&& t[s.len() as int].edges@ == seq![e]
    }
}

/// The ledger `t` is the ledger `s` with the record at list `i`,
/// position `j`, updated by one interaction of strength change `delta`
/// at time `ts`.
pub open spec fn edge_updated_at(
    s: Seq<AgentEdgeList>,
    t: Seq<AgentEdgeList>,
    i: int,
    j: int,
    delta: int,
    ts: i64,
) -> bool {
    &&& 0 <= i < s.len()
    &&& 0 <= j < s[i].edges@.len()
    &&& t.len() == s.len()
    &&& forall|k: int| 0 <= k < s.len() && k != i ==> entry_eq(#[trigger] t[k], s[k])
    &&& t[i].agent_id == s[i].agent_id
    &&& t[i].edges@ == s[i].edges@.update(j, updated_edge(s[i].edges@[j], delta, ts))
}

/// The ledger `t` is the ledger `s` with the newest record of `owner`
/// updated by one interaction.
pub open spec fn last_edge_updated(
    s: Seq<AgentEdgeList>,
    t: Seq<AgentEdgeList>,
    owner: AgentId,
    delta: int,
    ts: i64,
) -> bool {
    &&& has_rels_for(s, owner)
    &&& s[agent_idx(s, owner)].edges@.len() > 0
    &&& edge_updated_at(
        s,
        t,
        agent_idx(s, owner),
        s[agent_idx(s, owner)].edges@.len() - 1,
        delta,
        ts,
    )
}

/// The log `h2` is the log `h` with one strength-change event appended
/// for the pair `(a1, a2)`.
pub open spec fn event_logged(
    h: Seq<ConnectionEvent>,
    h2: Seq<ConnectionEvent>,
    a1: AgentId,
    a2: AgentId,
    delta: int,
    ts: i64,
) -> bool {
    &&& h2.len() == h.len() + 1
    &&& forall|k: int| 0 <= k < h.len() ==> h2[k] == h[k]
    &&& h2.last().agent1_id == a1
    &&& h2.last().agent2_id == a2
    &&& h2.last().event_type == ConnectionEventType::StrengthChanged
    &&& h2.last().timestamp == ts
    &&& h2.last().strength_change as int == delta
}

/// What one relationship update does to the ledger. When a record from
/// `a1` to `a2` already exists, that record alone absorbs the
/// interaction. Otherwise a fresh pair of records is created — one for
/// each direction, both at strength `0.1`, kind Professional, count `0`
/// — and the newly created owning-direction record absorbs the
/// interaction. The identifiers of created records are freshly drawn.
pub open spec fn rel_update_applied(
    s: Seq<AgentEdgeList>,
    t: Seq<AgentEdgeList>,
    a1: AgentId,
    a2: AgentId,
    delta: int,
    ts: i64,
    upd: RelationshipUpdate,
) -> bool {
    if has_edge(s, a1, a2) {
        let i = agent_idx(s, a1);
        let j = edge_idx(s[i].edges@, a2);
        let e0 = s[i].edges@[j];
        let e1 = updated_edge(e0, delta, ts);
        &&& edge_updated_at(s, t, i, j, delta, ts)
        &&& upd == (RelationshipUpdate {
            agent1_id: a1,
            agent2_id: a2,
            old_strength: e0.strength,
            new_strength: e1.strength,
            connection_type: e1.connection_type,
        })
    } else {
        exists|id1: u128, id2: u128, m1: Seq<AgentEdgeList>, m2: Seq<AgentEdgeList>|
            #[trigger] pair_created_via(s, t, a1, a2, delta, ts, upd, id1, id2, m1, m2)
    }
}

/// One way a fresh relationship pair comes to be: the forward record
/// (with identity `id1`) is appended to `a1`'s list, the mirror record
/// (with identity `id2`) to `a2`'s list, and the forward record — the
/// newest of `a1`'s list — absorbs the interaction.
pub open spec fn pair_created_via(
    s: Seq<AgentEdgeList>,
    t: Seq<AgentEdgeList>,
    a1: AgentId,
    a2: AgentId,
    delta: int,
    ts: i64,
    upd: RelationshipUpdate,
    id1: u128,
    id2: u128,
    m1: Seq<AgentEdgeList>,
    m2: Seq<AgentEdgeList>,
) -> bool {
    let fwd = initial_edge(id1, a1, a2, ts);
    let rev = initial_edge(id2, a2, a1, ts);
    let e1 = updated_edge(fwd, delta, ts);
    &&& edge_pushed(s, m1, a1, fwd)
    &&& edge_pushed(m1, m2, a2, rev)
    &&& last_edge_updated(m2, t, a1, delta, ts)
    &&& upd == (RelationshipUpdate {
        agent1_id: a1,
        agent2_id: a2,
        old_strength: 100u32,
        new_strength: e1.strength,
        connection_type: e1.connection_type,
    })
}

/// Ledgers whose lists are pointwise equally long hold equally many
/// records.
proof fn lemma_total_edges_pointwise(s: Seq<AgentEdgeList>, t: Seq<AgentEdgeList>)
    requires
        t.len() == s.len(),
        forall|k: int| 0 <= k < s.len() ==> (#[trigger] t[k]).edges@.len() == s[k].edges@.len(),
    ensures
        total_edges(t) == total_edges(s),
    decreases s.len(),
{
    if s.len() > 0 {
        lemma_total_edges_pointwise(s.drop_last(), t.drop_last());
    }
}

/// Growing one list by `d` records grows the ledger by `d` records.
proof fn lemma_total_edges_update(s: Seq<AgentEdgeList>, t: Seq<AgentEdgeList>, i: int, d: int)
    requires
        t.len() == s.len(),
        0 <= i < s.len(),
        forall|k: int|
            0 <= k < s.len() && k != i ==> (#[trigger] t[k]).edges@.len() == s[k].edges@.len(),
        t[i].edges@.len() == s[i].edges@.len() + d,
    ensures
        total_edges(t) == total_edges(s) + d,
    decreases s.len(),
{
    if i == s.len() - 1 {
        lemma_total_edges_pointwise(s.drop_last(), t.drop_last());
    } else {
        lemma_total_edges_update(s.drop_last(), t.drop_last(), i, d);
    }
}

/// Appending a list appends its records to the ledger's count.
proof fn lemma_total_edges_push(s: Seq<AgentEdgeList>, el: AgentEdgeList)
    ensures
        total_edges(s.push(el)) == total_edges(s) + el.edges@.len(),
{
    assert(s.push(el).drop_last() =~= s);
}

/// What appending a record does to the ledger: well-formedness is kept,
/// the owner's list grows by that record, and every other agent's list
/// is untouched.
proof fn lemma_push_effects(s: Seq<AgentEdgeList>, t: Seq<AgentEdgeList>, owner: AgentId, e: AgentRelationship)
    requires
        edge_pushed(s, t, owner, e),
        keys_unique(s),
        edges_owned_bounded(s),
        e.agent_id == owner,
        e.strength <= 1000,
    ensures
        keys_unique(t),
        edges_owned_bounded(t),
        total_edges(t) == total_edges(s) + 1,
        has_rels_for(t, owner),
        edges_of(t, owner) == edges_of(s, owner).push(e),
        forall|b: AgentId| b != owner ==> #[trigger] agent_idx(t, b) == agent_idx(s, b),
        forall|b: AgentId| b != owner ==> #[trigger] edges_of(t, b) == edges_of(s, b),
{
    let p = |el: AgentEdgeList| el.agent_id == owner;
    lemma_first_idx(s, p);
    if has_rels_for(s, owner) {
        let i = agent_idx(s, owner);
        assert forall|k: int| 0 <= k < i implies !p(t[k]) by {
            assert(entry_eq(t[k], s[k]));
        }
        lemma_first_idx_of(t, p, i);
        lemma_total_edges_update(s, t, i, 1);
        assert forall|b: AgentId| b != owner implies #[trigger] agent_idx(t, b) == agent_idx(
            s,
            b,
        ) by {
            let q = |el: AgentEdgeList| el.agent_id == b;
            lemma_first_idx(s, q);
            let r = agent_idx(s, b);
            if r >= 0 {
                assert forall|k: int| 0 <= k < r implies !q(t[k]) by {
                    if k == i {
                        assert(t[k].agent_id == owner);
                    } else {
                        assert(entry_eq(t[k], s[k]));
                    }
                }
                assert(s[r].agent_id == b && b != owner && s[i].agent_id == owner);
                assert(entry_eq(t[r], s[r]));
                lemma_first_idx_of(t, q, r);
            } else {
                assert forall|k: int| 0 <= k < t.len() implies !q(t[k]) by {
                    if k != i {
                        assert(entry_eq(t[k], s[k]));
                    }
                }
                lemma_first_idx_none(t, q);
            }
        }
        assert forall|b: AgentId| b != owner implies #[trigger] edges_of(t, b) == edges_of(
            s,
            b,
        ) by {
            let q = |el: AgentEdgeList| el.agent_id == b;
            lemma_first_idx(s, q);
            let r = agent_idx(s, b);
            if r >= 0 {
                assert(s[r].agent_id == b && s[i].agent_id == owner);
                assert(entry_eq(t[r], s[r]));
            }
        }
    } else {
        let n = s.len() as int;
        assert forall|k: int| 0 <= k < n implies !p(t[k]) by {
            assert(entry_eq(t[k], s[k]));
        }
        lemma_first_idx_of(t, p, n);
        lemma_total_edges_pointwise(s, t.drop_last());
        assert(t.drop_last().len() == s.len());
        assert(t.last().edges@.len() == 1);
        assert(edges_of(t, owner) =~= edges_of(s, owner).push(e));
        assert forall|b: AgentId| b != owner implies #[trigger] agent_idx(t, b) == agent_idx(
            s,
            b,
        ) by {
            let q = |el: AgentEdgeList| el.agent_id == b;
            lemma_first_idx(s, q);
            let r = agent_idx(s, b);
            if r >= 0 {
                assert forall|k: int| 0 <= k < r implies !q(t[k]) by {
                    assert(entry_eq(t[k], s[k]));
                }
                assert(entry_eq(t[r], s[r]));
                lemma_first_idx_of(t, q, r);
            } else {
                assert forall|k: int| 0 <= k < t.len() implies !q(t[k]) by {
                    if k < n {
                        assert(entry_eq(t[k], s[k]));
                    }
                }
                lemma_first_idx_none(t, q);
            }
        }
        assert forall|b: AgentId| b != owner implies #[trigger] edges_of(t, b) == edges_of(
            s,
            b,
        ) by {
            let q = |el: AgentEdgeList| el.agent_id == b;
            lemma_first_idx(s, q);
            let r = agent_idx(s, b);
            if r >= 0 {
                assert(entry_eq(t[r], s[r]));
            }
        }
    }
}

/// What updating one record in place does to the ledger:
/// well-formedness is kept and the record count is unchanged.
proof fn lemma_update_effects(
    s: Seq<AgentEdgeList>,
    t: Seq<AgentEdgeList>,
    i: int,
    j: int,
    delta: int,
    ts: i64,
)
    requires
        edge_updated_at(s, t, i, j, delta, ts),
        keys_unique(s),
        edges_owned_bounded(s),
    ensures
        keys_unique(t),
        edges_owned_bounded(t),
        total_edges(t) == total_edges(s),
{
    lemma_total_edges_update(s, t, i, 0);
    assert forall|a: int, k: int|
        0 <= a < t.len() && 0 <= k < (#[trigger] t[a]).edges@.len() implies {
        &&& (#[trigger] t[a].edges@[k]).agent_id == t[a].agent_id
        &&& t[a].edges@[k].strength <= 1000
    } by {
        if a != i {
            assert(entry_eq(t[a], s[a]));
        }
    }
    assert forall|a: int, b: int|
        0 <= a < b < t.len() implies (#[trigger] t[a]).agent_id != (#[trigger] t[b]).agent_id by {
        if a != i {
            assert(entry_eq(t[a], s[a]));
        }
        if b != i {
            assert(entry_eq(t[b], s[b]));
        }
    }
}

/// A ledger never holds a negative number of records.
proof fn lemma_total_edges_nonneg(s: Seq<AgentEdgeList>)
    ensures
        0 <= total_edges(s),
    decreases s.len(),
{
    if s.len() > 0 {
        lemma_total_edges_nonneg(s.drop_last());
    }
}

/// Counting a prefix of the ledger counts at most the whole ledger.
proof fn lemma_total_edges_take_le(s: Seq<AgentEdgeList>, i: int)
    requires
        0 <= i <= s.len(),
    ensures
        total_edges(s.take(i)) <= total_edges(s),
    decreases s.len() - i,
{
    if i == s.len() {
        assert(s.take(i) =~= s);
    } else {
        lemma_total_edges_take_le(s, i + 1);
        assert(s.take(i + 1).drop_last() =~= s.take(i));
        assert(s.take(i + 1).last() == s[i]);
    }
}

/// A list whose strengths lie in the unit interval sums to at most one
/// thousand per record.
proof fn lemma_strength_sum_bounds(es: Seq<AgentRelationship>)
    requires
        forall|k: int| 0 <= k < es.len() ==> (#[trigger] es[k]).strength <= 1000,
    ensures
        0 <= strength_sum_of(es) <= 1000 * es.len(),
    decreases es.len(),
{
    if es.len() > 0 {
        lemma_strength_sum_bounds(es.drop_last());
    }
}

/// Locate the edge list owned by agent `a`.
fn find_agent_entry(rels: &Vec<AgentEdgeList>, a: AgentId) -> (r: Option<usize>)
    ensures
        match r {
            Some(i) => i < rels@.len() && agent_idx(rels@, a) == i as int,
            None => agent_idx(rels@, a) == -1,
        },
{
    let n = rels.len();
    let mut i: usize = 0;
    while i < n
        invariant
            i <= n,
            n == rels@.len(),
            forall|j: int| 0 <= j < i ==> (#[trigger] rels@[j]).agent_id != a,
        decreases n - i,
    {
        if rels[i].agent_id == a {
            proof {
                lemma_first_idx_of(rels@, |el: AgentEdgeList| el.agent_id == a, i as int);
            }
            return Some(i);
        }
        i = i + 1;
    }
    proof {
        lemma_first_idx_none(rels@, |el: AgentEdgeList| el.agent_id == a);
    }
    None
}

/// Locate the first record about `other` in one agent's list.
fn find_edge(edges: &Vec<AgentRelationship>, other: AgentId) -> (r: Option<usize>)
    ensures
        match r {
            Some(j) => j < edges@.len() && edge_idx(edges@, other) == j as int,
            None => edge_idx(edges@, other) == -1,
        },
{
    let n = edges.len();
    let mut i: usize = 0;
    while i < n
        invariant
            i <= n,
            n == edges@.len(),
            forall|j: int| 0 <= j < i ==> (#[trigger] edges@[j]).other_agent_id != other,
        decreases n - i,
    {
        if edges[i].other_agent_id == other {
            proof {
                lemma_first_idx_of(
                    edges@,
                    |e: AgentRelationship| e.other_agent_id == other,
                    i as int,
                );
            }
            return Some(i);
        }
        i = i + 1;
    }
    proof {
        lemma_first_idx_none(edges@, |e: AgentRelationship| e.other_agent_id == other);
    }
    None
}

/// The promotion map as executable code.
fn promote(k: ConnectionType) -> (r: ConnectionType)
    ensures
        r == promotion_target(k),
{
    match k {
        ConnectionType::Professional => ConnectionType::Friendship,
        ConnectionType::Mentorship => ConnectionType::Collaboration,
        ConnectionType::Competition => ConnectionType::Professional,
        ConnectionType::DataSharing => ConnectionType::Collaboration,
        ConnectionType::Consultation => ConnectionType::Mentorship,
        _ => k,
    }
}

/// Append `e` to `owner`'s edge list, creating the list when `owner`
/// has none yet.
fn push_edge(rels: &mut Vec<AgentEdgeList>, owner: AgentId, e: AgentRelationship)
    ensures
        edge_pushed(old(rels)@, final(rels)@, owner, e),
{
    match find_agent_entry(rels, owner) {
        Some(i) => {
            proof {
                lemma_first_idx(rels@, |el: AgentEdgeList| el.agent_id == owner);
            }
            let el = &mut rels[i];
            el.edges.push(e);
        }
        None => {
            let mut edges: Vec<AgentRelationship> = Vec::new();
            edges.push(e);
            rels.push(AgentEdgeList { agent_id: owner, edges });
        }
    }
}

/// Apply one interaction's strength change to the record at list `i`,
/// position `j`.
fn apply_interaction_at(rels: &mut Vec<AgentEdgeList>, i: usize, j: usize, delta: i32, ts: i64)
    requires
        i < old(rels)@.len(),
        j < old(rels)@[i as int].edges@.len(),
    ensures
        edge_updated_at(old(rels)@, final(rels)@, i as int, j as int, delta as int, ts),
{
    let el = &mut rels[i];
    let e0 = el.edges[j];
    let sum: i64 = e0.strength as i64 + delta as i64;
    let ns: u32 = if sum < 0 {
        0
    } else if sum > 1000 {
        1000
    } else {
        sum as u32
    };
    let nc: u32 = if e0.interaction_count < u32::MAX {
        e0.interaction_count + 1
    } else {
        e0.interaction_count
    };
    let nk: ConnectionType = if ns > 900 && nc > 10 {
        promote(e0.connection_type)
    } else {
        e0.connection_type
    };
    el.edges[j] = AgentRelationship {
        connection_type: nk,
        strength: ns,
        last_interaction: ts,
        interaction_count: nc,
        ..e0
    };
}

impl RelationshipManager {
    /// Well-formedness of the ledger: each agent has at most one edge
    /// list, every record is owned by the agent whose list holds it,
    /// every strength lies in the unit interval, and the ledger holds at
    /// most two records per logged event.
    pub open spec fn wf(self) -> bool {
        &&& keys_unique(self.relationships@)
        &&& edges_owned_bounded(self.relationships@)
        &&& total_edges(self.relationships@) <= 2 * self.connection_history@.len()
    }

    /// A fresh, empty relationship store.
    pub fn new() -> (r: Self)
        ensures
            r.wf(),
            r.relationships@.len() == 0,
            r.connection_history@.len() == 0,
            r.relationship_configs == default_configs(),
    {
        RelationshipManager {
            relationships: Vec::new(),
            connection_history: Vec::new(),
            relationship_configs: RelationshipConfigs::default(),
        }
    }

    /// The signed strength change an interaction causes, in thousandths:
    /// the outcome's base change scaled by the interaction kind's
    /// modifier.
    pub fn calculate_strength_change(&self, interaction: &AgentInteraction) -> (d: i32)
        ensures
            d == strength_change_spec(interaction.outcome, interaction.interaction_type@),
            -75 <= d <= 150,
    {
        let m = type_modifier_for(interaction.interaction_type.as_str());
        let mag: u32 = match interaction.outcome {
            InteractionOutcome::Successful => 100,
            InteractionOutcome::Partial => 50,
            InteractionOutcome::Failed => 50,
            InteractionOutcome::Pending => 0,
        };
        let scaled = (mag * m) / 1000;
        match interaction.outcome {
            InteractionOutcome::Failed => -(scaled as i32),
            _ => scaled as i32,
        }
    }

    /// Update the relationship a submitted interaction names. Rejects an
    /// interaction whose participant count is not exactly two, leaving
    /// the store untouched; otherwise applies the interaction's strength
    /// change to the owning-direction record — creating the pair of
    /// records first if the two agents were strangers — logs one
    /// strength-change event, and reports the strengths observed before
    /// and after together with the resulting connection kind.
    pub fn update_relationship(&mut self, interaction: &AgentInteraction) -> (r: Result<
        RelationshipUpdate,
        IntelligenceError,
    >)
        requires
            old(self).wf(),
        ensures
            final(self).wf(),
            final(self).relationship_configs == old(self).relationship_configs,
            match r {
                Err(e) => {
                    &&& e == IntelligenceError::InvalidInteraction
                    &&& interaction.participants@.len() != 2
                    &&& *final(self) == *old(self)
                },
                Ok(upd) => {
                    &&& interaction.participants@.len() == 2
                    &&& rel_update_applied(
                        old(self).relationships@,
                        final(self).relationships@,
                        interaction.participants@[0],
                        interaction.participants@[1],
                        strength_change_spec(interaction.outcome, interaction.interaction_type@),
                        interaction.timestamp,
                        upd,
                    )
                    &&& event_logged(
                        old(self).connection_history@,
                        final(self).connection_history@,
                        interaction.participants@[0],
                        interaction.participants@[1],
                        strength_change_spec(interaction.outcome, interaction.interaction_type@),
                        interaction.timestamp,
                    )
                },
            },
    {
        if interaction.participants.len() != 2 {
            return Err(IntelligenceError::InvalidInteraction);
        }
        let a1 = interaction.participants[0];
        let a2 = interaction.participants[1];
        let delta = self.calculate_strength_change(interaction);
        let ts = interaction.timestamp;
        let ghost s0 = self.relationships@;

        let mut at: Option<(usize, usize)> = None;
        match find_agent_entry(&self.relationships, a1) {
            Some(i) => {
                match find_edge(&self.relationships[i].edges, a2) {
                    Some(j) => {
                        at = Some((i, j));
                    },
                    None => {
                    },
                }
            },
            None => {
            },
        }

        let upd: RelationshipUpdate = match at {
            Some((i, j)) => {
                let e0 = self.relationships[i].edges[j];
                apply_interaction_at(&mut self.relationships, i, j, delta, ts);
                let e1 = self.relationships[i].edges[j];
                proof {
                    lemma_update_effects(
                        s0,
                        self.relationships@,
                        i as int,
                        j as int,
                        delta as int,
                        ts,
                    );
                }
                RelationshipUpdate {
                    agent1_id: a1,
                    agent2_id: a2,
                    old_strength: e0.strength,
                    new_strength: e1.strength,
                    connection_type: e1.connection_type,
                }
            },
            None => {
                let id1 = fresh_id();
                let id2 = fresh_id();
                let fwd = AgentRelationship {
                    id: id1,
                    agent_id: a1,
                    other_agent_id: a2,
                    connection_type: ConnectionType::Professional,
                    strength: 100,
                    established_at: ts,
                    last_interaction: ts,
                    interaction_count: 0,
                };
                let rev = AgentRelationship {
                    id: id2,
                    agent_id: a2,
                    other_agent_id: a1,
                    connection_type: ConnectionType::Professional,
                    strength: 100,
                    established_at: ts,
                    last_interaction: ts,
                    interaction_count: 0,
                };
                push_edge(&mut self.relationships, a1, fwd);
                let ghost m1 = self.relationships@;
                proof {
                    lemma_push_effects(s0, m1, a1, fwd);
                }
                push_edge(&mut self.relationships, a2, rev);
                let ghost m2 = self.relationships@;
                proof {
                    lemma_push_effects(m1, m2, a2, rev);
                }
                let i = match find_agent_entry(&self.relationships, a1) {
                    Some(i) => i,
                    None => {
                        proof {
                            assert(has_rels_for(m2, a1));
                        }
                        vstd::pervasive::unreached()
                    },
                };
                proof {
                    assert(fwd == initial_edge(id1, a1, a2, ts));
                    assert(rev == initial_edge(id2, a2, a1, ts));
                    assert(edges_of(m1, a1) == edges_of(s0, a1).push(fwd));
                    if a1 == a2 {
                        assert(edges_of(m2, a1) == edges_of(m1, a1).push(rev));
                    } else {
                        assert(edges_of(m2, a1) == edges_of(m1, a1));
                    }
                    assert(m2[i as int].edges@ == edges_of(m2, a1));
                }
                let j = self.relationships[i].edges.len() - 1;
                let e0 = self.relationships[i].edges[j];
                proof {
                    assert(e0 == if a1 == a2 {
                        rev
                    } else {
                        fwd
                    });
                }
                apply_interaction_at(&mut self.relationships, i, j, delta, ts);
                let e1 = self.relationships[i].edges[j];
                let upd = RelationshipUpdate {
                    agent1_id: a1,
                    agent2_id: a2,
                    old_strength: e0.strength,
                    new_strength: e1.strength,
                    connection_type: e1.connection_type,
                };
                proof {
                    lemma_update_effects(
                        m2,
                        self.relationships@,
                        i as int,
                        j as int,
                        delta as int,
                        ts,
                    );
                    assert(last_edge_updated(m2, self.relationships@, a1, delta as int, ts));
                    assert(e1 == updated_edge(e0, delta as int, ts));
                    assert(pair_created_via(
                        s0,
                        self.relationships@,
                        a1,
                        a2,
                        delta as int,
                        ts,
                        upd,
                        id1,
                        id2,
                        m1,
                        m2,
                    ));
                    assert(rel_update_applied(
                        s0,
                        self.relationships@,
                        a1,
                        a2,
                        delta as int,
                        ts,
                        upd,
                    ));
                }
                upd
            },
        };

        let eid = fresh_id();
        self.connection_history.push(ConnectionEvent {
            id: eid,
            agent1_id: a1,
            agent2_id: a2,
            event_type: ConnectionEventType::StrengthChanged,
            timestamp: ts,
            strength_change: delta,
        });
        Ok(upd)
    }

    /// A copy of all relationship records agent `agent_id` owns, oldest
    /// first; empty when the agent owns none.
    pub fn get_agent_relationships(&self, agent_id: AgentId) -> (r: Vec<AgentRelationship>)
        ensures
            r@ == edges_of(self.relationships@, agent_id),
    {
        match find_agent_entry(&self.relationships, agent_id) {
            Some(i) => {
                let edges = &self.relationships[i].edges;
                let n = edges.len();
                let mut out: Vec<AgentRelationship> = Vec::new();
                let mut k: usize = 0;
                while k < n
                    invariant
                        k <= n,
                        n == edges@.len(),
                        out@ == edges@.take(k as int),
                    decreases n - k,
                {
                    out.push(edges[k]);
                    proof {
                        assert(edges@.take(k as int).push(edges@[k as int]) =~= edges@.take(
                            k as int + 1,
                        ));
                    }
                    k = k + 1;
                }
                proof {
                    assert(edges@.take(n as int) =~= edges@);
                }
                out
            },
            None => Vec::new(),
        }
    }

    /// The exact number of relationship records in the ledger.
    pub(crate) fn count_edges_exact(&self) -> (r: u128)
        ensures
            r as int == total_edges(self.relationships@),
    {
        let s = &self.relationships;
        let n = s.len();
        let mut acc: u128 = 0;
        let mut i: usize = 0;
        while i < n
            invariant
                i <= n,
                n == s@.len(),
                acc == total_edges(s@.take(i as int)),
                acc <= (i as int) * (usize::MAX as int),
            decreases n - i,
        {
            proof {
                assert(s@.take(i as int + 1).drop_last() =~= s@.take(i as int));
                assert(s@.take(i as int + 1).last() == s@[i as int]);
            }
            acc = acc + s[i].edges.len() as u128;
            i = i + 1;
        }
        proof {
            assert(s@.take(n as int) =~= s@);
        }
        acc
    }

    /// How many relationship records the ledger holds, counting each
    /// direction of a pair; capped at the machine limit.
    pub fn get_total_relationships(&self) -> (r: usize)
        ensures
            r as int == if total_edges(self.relationships@) <= usize::MAX as int {
                total_edges(self.relationships@)
            } else {
                usize::MAX as int
            },
    {
        let acc = self.count_edges_exact();
        proof {
            lemma_total_edges_nonneg(self.relationships@);
        }
        if acc > usize::MAX as u128 {
            usize::MAX
        } else {
            acc as usize
        }
    }

    /// How many agents own at least one relationship record.
    pub fn get_total_agents(&self) -> (r: usize)
        ensures
            r == self.relationships@.len(),
    {
        self.relationships.len()
    }

    /// The mean stored strength over all relationship records, in
    /// thousandths; zero when no record exists.
    pub fn get_average_relationship_strength(&self) -> (r: u32)
        requires
            self.wf(),
        ensures
            r as int == if total_edges(self.relationships@) == 0 {
                0
            } else {
                strength_total(self.relationships@) / total_edges(self.relationships@)
            },
    {
        let s = &self.relationships;
        let n = s.len();
        let hl = self.connection_history.len();
        let mut cnt: u128 = 0;
        let mut sum: u128 = 0;
        let mut i: usize = 0;
        proof {
            lemma_total_edges_nonneg(s@);
        }
        while i < n
            invariant
                i <= n,
                n == s@.len(),
                self.wf(),
                s == &self.relationships,
                hl == self.connection_history@.len(),
                cnt == total_edges(s@.take(i as int)),
                sum == strength_total(s@.take(i as int)),
                cnt <= total_edges(s@),
                total_edges(s@) <= 2 * (hl as int),
                0 <= sum <= 1000 * cnt,
            decreases n - i,
        {
            proof {
                assert(s@.take(i as int + 1).drop_last() =~= s@.take(i as int));
                assert(s@.take(i as int + 1).last() == s@[i as int]);
                lemma_total_edges_take_le(s@, i as int + 1);
                assert(forall|k: int|
                    0 <= k < s@[i as int].edges@.len() ==> (#[trigger] s@[i as int].edges@[k]).strength
                        <= 1000);
                lemma_strength_sum_bounds(s@[i as int].edges@);
                assert(total_edges(s@.take(i as int + 1)) == cnt + s@[i as int].edges@.len());
                assert(cnt + s@[i as int].edges@.len() <= 2 * (hl as int));
            }
            let entry_sum = sum_strengths(&s[i].edges);
            sum = sum + entry_sum;
            cnt = cnt + s[i].edges.len() as u128;
            i = i + 1;
        }
        proof {
            assert(s@.take(n as int) =~= s@);
        }
        if cnt == 0 {
            0
        } else {
            proof {
                vstd::arithmetic::div_mod::lemma_div_is_ordered(
                    sum as int,
                    1000 * cnt as int,
                    cnt as int,
                );
                vstd::arithmetic::div_mod::lemma_div_multiples_vanish(1000, cnt as int);
            }
            (sum / cnt) as u32
        }
    }
}

// ---------------------------------------------------------------------
// Dynamic strength: a read-time recomputation, distinct from the stored
// ledger strength.
// ---------------------------------------------------------------------

/// Days elapsed from `last` to `now` (both in milliseconds), truncated
/// toward zero; negative when `now` lies before `last`.
pub open spec fn days_between(last: i64, now: i64) -> int {
    if now >= last {
        (now - last) / 86400000
    } else {
        -((last - now) / 86400000)
    }
}

/// Time-decay factor in thousandths: one percent lost per elapsed day,
/// never below one half; above one when the elapsed time is negative.
pub open spec fn decay_factor(d: int) -> int {
    if 1000 - 10 * d >= 500 {
        1000 - 10 * d
    } else {
        500
    }
}

/// Interaction-frequency boost in thousandths: one percent per recorded
/// interaction, capped at one fifth.
pub open spec fn frequency_boost(c: int) -> int {
    if 10 * c < 200 {
        10 * c
    } else {
        200
    }
}

/// Connection-kind modifier of the dynamic strength, in thousandths.
pub open spec fn dynamic_modifier(k: ConnectionType) -> int {
    match k {
        ConnectionType::Friendship => 1200,
        ConnectionType::Collaboration => 1100,
        ConnectionType::Mentorship => 1000,
        ConnectionType::Professional => 900,
        ConnectionType::Learning => 800,
        ConnectionType::Competition => 400,
        ConnectionType::DataSharing => 900,
        ConnectionType::Consultation => 800,
    }
}

/// The live strength of a relationship read at time `now`, in
/// thousandths: the stored strength decayed by elapsed time, boosted by
/// interaction frequency, scaled by the kind's modifier, and clamped
/// into the unit interval. Reading it never changes the ledger.
pub open spec fn dynamic_strength_spec(e: AgentRelationship, now: i64) -> int {
    clamp_milli(
        (e.strength * decay_factor(days_between(e.last_interaction, now)) / 1000 + frequency_boost(
            e.interaction_count as int,
        )) * dynamic_modifier(e.connection_type) / 1000,
    )
}

impl AgentRelationship {
    /// The live strength of this relationship as read at time `now`
    /// (milliseconds), in thousandths. The stored strength is left
    /// untouched.
    pub fn calculate_dynamic_strength_at(&self, now: i64) -> (r: u32)
        ensures
            r as int == dynamic_strength_spec(*self, now),
            r <= 1000,
    {
        let decay: u128 = if now >= self.last_interaction {
            let diff = (now as i128 - self.last_interaction as i128) as u128;
            let d = diff / 86400000;
            if d >= 50 {
                500
            } else {
                1000 - 10 * d
            }
        } else {
            let diff = (self.last_interaction as i128 - now as i128) as u128;
            let d = diff / 86400000;
            proof {
                assert(diff <= u64::MAX as u128);
                assert(d <= 250000000000) by {
                    vstd::arithmetic::div_mod::lemma_div_is_ordered(
                        diff as int,
                        u64::MAX as int,
                        86400000,
                    );
                }
            }
            1000 + 10 * d
        };
        proof {
            assert(decay <= 2500000001000);
            vstd::arithmetic::mul::lemma_mul_upper_bound(
                self.strength as int,
                u32::MAX as int,
                decay as int,
                2500000001000,
            );
        }
        let base: u128 = (self.strength as u128) * decay / 1000;
        let boost: u128 = if self.interaction_count >= 20 {
            200
        } else {
            (self.interaction_count as u128) * 10
        };
        let m: u128 = match self.connection_type {
            ConnectionType::Friendship => 1200,
            ConnectionType::Collaboration => 1100,
            ConnectionType::Mentorship => 1000,
            ConnectionType::Professional => 900,
            ConnectionType::Learning => 800,
            ConnectionType::Competition => 400,
            ConnectionType::DataSharing => 900,
            ConnectionType::Consultation => 800,
        };
        proof {
            assert(base <= 0x8000000000000000000) by {
                vstd::arithmetic::div_mod::lemma_div_is_ordered(
                    self.strength as int * decay as int,
                    u32::MAX as int * 2500000001000,
                    1000,
                );
            }
            vstd::arithmetic::mul::lemma_mul_upper_bound(
                base as int + boost as int,
                0x8000000000000000000int + 200,
                m as int,
                1200int,
            );
        }
        let scaled: u128 = (base + boost) * m / 1000;
        if scaled > 1000 {
            1000
        } else {
            scaled as u32
        }
    }

    /// The live strength of this relationship read off the wall clock
    /// now, in thousandths. Some read time gives exactly this value; the
    /// stored strength is left untouched.
    pub fn calculate_dynamic_strength(&self) -> (r: u32)
        ensures
            exists|now: i64| r as int == dynamic_strength_spec(*self, now),
            r <= 1000,
    {
        let now = now_millis();
        let r = self.calculate_dynamic_strength_at(now);
        proof {
            assert(r as int == dynamic_strength_spec(*self, now));
        }
        r
    }
}

/// What updating one record in place does to each agent's view of the
/// ledger: only the list holding the record changes, and only at the
/// record's position.
proof fn lemma_update_edges_of(
    s: Seq<AgentEdgeList>,
    t: Seq<AgentEdgeList>,
    i: int,
    j: int,
    delta: int,
    ts: i64,
)
    requires
        edge_updated_at(s, t, i, j, delta, ts),
        keys_unique(s),
    ensures
        forall|b: AgentId| #[trigger] agent_idx(t, b) == agent_idx(s, b),
        forall|b: AgentId|
            b != s[i].agent_id ==> #[trigger] edges_of(t, b) == edges_of(s, b),
        agent_idx(s, s[i].agent_id) == i,
        edges_of(t, s[i].agent_id) == s[i].edges@.update(
            j,
            updated_edge(s[i].edges@[j], delta, ts),
        ),
{
    let a = s[i].agent_id;
    let p = |el: AgentEdgeList| el.agent_id == a;
    assert forall|k: int| 0 <= k < i implies !p(s[k]) by {}
    lemma_first_idx_of(s, p, i);
    assert forall|b: AgentId| #[trigger] agent_idx(t, b) == agent_idx(s, b) by {
        let q = |el: AgentEdgeList| el.agent_id == b;
        lemma_first_idx(s, q);
        let r = agent_idx(s, b);
        if r >= 0 {
            assert forall|k: int| 0 <= k < r implies !q(t[k]) by {
                if k != i {
                    assert(entry_eq(t[k], s[k]));
                }
            }
            if r != i {
                assert(entry_eq(t[r], s[r]));
            }
            lemma_first_idx_of(t, q, r);
        } else {
            assert forall|k: int| 0 <= k < t.len() implies !q(t[k]) by {
                if k != i {
                    assert(entry_eq(t[k], s[k]));
                }
            }
            lemma_first_idx_none(t, q);
        }
    }
    assert forall|b: AgentId| b != s[i].agent_id implies #[trigger] edges_of(t, b) == edges_of(
        s,
        b,
    ) by {
        let q = |el: AgentEdgeList| el.agent_id == b;
        lemma_first_idx(s, q);
        let r = agent_idx(s, b);
        if r >= 0 {
            assert(s[r].agent_id == b);
            assert(entry_eq(t[r], s[r]));
        }
    }
}

// ---------------------------------------------------------------------
// Laws of the relationship store.
// ---------------------------------------------------------------------

/// However large or small the strength change of an interaction, the
/// updated record's strength lies in the unit interval.
pub proof fn law_strength_in_unit_interval(e: AgentRelationship, delta: int, ts: i64)
    ensures
        0 <= updated_edge(e, delta, ts).strength <= 1000,
{
}

/// Connection-kind promotion triggers exactly when the strength exceeds
/// `0.9` and the interaction count exceeds ten; it follows the fixed
/// promotion map, and kinds without a mapped promotion never change,
/// however often the condition holds again.
pub proof fn law_promotion(k: ConnectionType, s: int, c: int)
    ensures
        evolved_kind(k, s, c) != k ==> s > 900 && c > 10,
        s > 900 && c > 10 ==> evolved_kind(k, s, c) == promotion_target(k),
        promotion_target(ConnectionType::Friendship) == ConnectionType::Friendship,
        promotion_target(ConnectionType::Collaboration) == ConnectionType::Collaboration,
        promotion_target(ConnectionType::Learning) == ConnectionType::Learning,
{
}

/// Recomputing the dynamic strength is a pure read: two recomputations
/// over the same record with equally many elapsed days — in particular,
/// two back-to-back recomputations with no time elapsed and no new
/// interactions — give the same value.
pub proof fn law_dynamic_strength_stable(e: AgentRelationship, t1: i64, t2: i64)
    requires
        days_between(e.last_interaction, t1) == days_between(e.last_interaction, t2),
    ensures
        dynamic_strength_spec(e, t1) == dynamic_strength_spec(e, t2),
{
}

/// A first interaction between two strangers creates records in both
/// directions. The mirror record starts at strength `0.1`, kind
/// Professional, count zero; the owning-direction record starts from
/// those same values and absorbs the one interaction, leaving it with
/// the clamped strength, count one, and kind Professional.
pub proof fn law_first_interaction_creates_pair(
    s: Seq<AgentEdgeList>,
    t: Seq<AgentEdgeList>,
    a1: AgentId,
    a2: AgentId,
    delta: int,
    ts: i64,
    upd: RelationshipUpdate,
)
    requires
        rel_update_applied(s, t, a1, a2, delta, ts, upd),
        !has_edge(s, a1, a2),
        !has_edge(s, a2, a1),
        a1 != a2,
        keys_unique(s),
        edges_owned_bounded(s),
    ensures
        has_edge(t, a1, a2),
        has_edge(t, a2, a1),
        ({
            let eb = edges_of(t, a2)[edge_idx(edges_of(t, a2), a1)];
            &&& eb.strength == 100
            &&& eb.connection_type == ConnectionType::Professional
            &&& eb.interaction_count == 0
            &&& eb.established_at == ts
        }),
        ({
            let ea = edges_of(t, a1)[edge_idx(edges_of(t, a1), a2)];
            &&& ea.strength as int == clamp_milli(100 + delta)
            &&& ea.connection_type == ConnectionType::Professional
            &&& ea.interaction_count == 1
            &&& ea.established_at == ts
        }),
        upd.old_strength == 100,
        upd.new_strength as int == clamp_milli(100 + delta),
{
    let (id1, id2, m1, m2) = choose|id1: u128, id2: u128, m1: Seq<AgentEdgeList>, m2: Seq<
        AgentEdgeList,
    >| #[trigger] pair_created_via(s, t, a1, a2, delta, ts, upd, id1, id2, m1, m2);
    let fwd = initial_edge(id1, a1, a2, ts);
    let rev = initial_edge(id2, a2, a1, ts);
    lemma_push_effects(s, m1, a1, fwd);
    lemma_push_effects(m1, m2, a2, rev);
    let i2 = agent_idx(m2, a1);
    let ea2 = m2[i2].edges@;
    let j2 = ea2.len() - 1;
    assert(ea2 == edges_of(m2, a1));
    assert(edges_of(m2, a1) == edges_of(s, a1).push(fwd));
    lemma_update_edges_of(m2, t, i2, j2, delta, ts);
    // the owning direction: the updated forward record is the first (and
    // only) record of a1 about a2
    let la = edges_of(t, a1);
    assert(la == ea2.update(j2, updated_edge(fwd, delta, ts)));
    let pa = |e: AgentRelationship| e.other_agent_id == a2;
    assert forall|k: int| 0 <= k < j2 implies !pa(la[k]) by {
        assert(la[k] == edges_of(s, a1)[k]);
        lemma_first_idx(edges_of(s, a1), pa);
    }
    assert(pa(la[j2]));
    lemma_first_idx_of(la, pa, j2);
    // the mirror direction: the pristine reverse record is the first
    // (and only) record of a2 about a1
    assert(edges_of(t, a2) == edges_of(m2, a2));
    assert(edges_of(m2, a2) == edges_of(s, a2).push(rev));
    let lb = edges_of(t, a2);
    let nb = edges_of(s, a2).len() as int;
    let pb = |e: AgentRelationship| e.other_agent_id == a1;
    assert forall|k: int| 0 <= k < nb implies !pb(lb[k]) by {
        assert(lb[k] == edges_of(s, a2)[k]);
        lemma_first_idx(edges_of(s, a2), pb);
    }
    assert(pb(lb[nb]));
    lemma_first_idx_of(lb, pb, nb);
}

/// Sum the strengths of one agent's records, in thousandths.
fn sum_strengths(edges: &Vec<AgentRelationship>) -> (r: u128)
    requires
        forall|k: int| 0 <= k < edges@.len() ==> (#[trigger] edges@[k]).strength <= 1000,
    ensures
        r == strength_sum_of(edges@),
        r <= 1000 * edges@.len(),
{
    let n = edges.len();
    let mut acc: u128 = 0;
    let mut k: usize = 0;
    while k < n
        invariant
            k <= n,
            n == edges@.len(),
            forall|m: int| 0 <= m < edges@.len() ==> (#[trigger] edges@[m]).strength <= 1000,
            acc == strength_sum_of(edges@.take(k as int)),
            acc <= 1000 * (k as int),
        decreases n - k,
    {
        proof {
            assert(edges@.take(k as int + 1).drop_last() =~= edges@.take(k as int));
            assert(edges@.take(k as int + 1).last() == edges@[k as int]);
        }
        acc = acc + edges[k].strength as u128;
        k = k + 1;
    }
    proof {
        assert(edges@.take(n as int) =~= edges@);
    }
    acc
}

} // verus!
