//! The network analyzer: per-agent derived metrics, influence rankings,
//! connection recommendations and collaboration clusters.
//!
//! Scores are carried in thousandths (`1000` is `1.0`); timestamps are
//! milliseconds.

use vstd::prelude::*;
use vstd::seq_lib::group_to_multiset_ensures;

use crate::clock::now_millis;
use crate::ids::fresh_id;
use crate::search::{first_idx, lemma_first_idx, lemma_first_idx_none, lemma_first_idx_of};
use crate::types::{AgentId, SocialInteractionType};

verus! {

broadcast use group_to_multiset_ensures;

/// Derived network metrics of one agent, updated incrementally as
/// interactions stream in — not recomputed from global graph structure.
/// `active_relationships` counts interaction touches, not deduplicated
/// edges, and can exceed the relationship store's edge count.
#[derive(Clone, Copy, Debug, PartialEq, Eq, Structural)]
pub struct AgentNetworkMetrics {
    pub agent_id: AgentId,
    /// Centrality in thousandths; within `0 ..= 1000`.
    pub centrality: u32,
    /// Betweenness in thousandths; held, not updated incrementally.
    pub betweenness: u32,
    /// Clustering coefficient in thousandths; held, unused by updates.
    pub clustering_coefficient: u32,
    /// Influence in thousandths; within `0 ..= 1000`.
    pub influence_score: u32,
    pub active_relationships: usize,
    /// Held, unused by updates.
    pub network_reach: usize,
    pub last_updated: i64,
}

/// The fixed network-impact estimate of one interaction, in thousandths.
#[derive(Clone, Copy, Debug, PartialEq, Eq, Structural)]
pub struct NetworkImpact {
    pub centrality_change: u32,
    pub clustering_change: u32,
    pub betweenness_change: u32,
    pub influence_change: u32,
}

/// A recommended new connection.
#[derive(Debug)]
pub struct ConnectionRecommendation {
    pub target_agent: AgentId,
    pub reason: String,
    /// Benefit estimate in thousandths.
    pub potential_benefit: u32,
    /// Confidence in thousandths.
    pub confidence: u32,
}

/// A ranked influential agent.
#[derive(Clone, Copy, Debug, PartialEq, Eq, Structural)]
pub struct InfluentialAgent {
    pub agent_id: AgentId,
    /// Influence in thousandths.
    pub influence_score: u32,
    /// Centrality in thousandths.
    pub centrality: u32,
    pub active_relationships: usize,
}

/// A cluster of agents that collaborate closely.
#[derive(Debug)]
pub struct CollaborationCluster {
    pub cluster_id: u128,
    pub agents: Vec<AgentId>,
    /// Strength of the cluster in thousandths.
    pub collaboration_strength: u32,
    pub focus_areas: Vec<String>,
}

/// A historical snapshot of the whole network; held for callers that
/// record trends, not written by the incremental update path.
#[derive(Debug, Clone)]
pub struct NetworkSnapshot {
    pub timestamp: i64,
    pub total_agents: usize,
    pub total_connections: usize,
    /// Density in thousandths.
    pub network_density: u64,
    /// Mean clustering in thousandths.
    pub average_clustering: u32,
}

/// The network analyzer: one metrics record per agent seen so far.
#[derive(Debug)]
pub struct NetworkAnalyzer {
    pub network_metrics: Vec<AgentNetworkMetrics>,
    pub network_history: Vec<NetworkSnapshot>,
}

// ---------------------------------------------------------------------
// The metrics model.
// ---------------------------------------------------------------------

/// Network impact of an interaction kind, in thousandths.
pub open spec fn impact_of(k: SocialInteractionType) -> int {
    match k {
        SocialInteractionType::Collaboration => 100,
        SocialInteractionType::Mentorship => 80,
        SocialInteractionType::KnowledgeSharing => 60,
        _ => 30,
    }
}

/// A fresh metrics record: everything at zero.
pub open spec fn zero_metrics(a: AgentId) -> AgentNetworkMetrics {
    AgentNetworkMetrics {
        agent_id: a,
        centrality: 0u32,
        betweenness: 0u32,
        clustering_coefficient: 0u32,
        influence_score: 0u32,
        active_relationships: 0usize,
        network_reach: 0usize,
        last_updated: 0i64,
    }
}

/// Cap a non-negative score at the unit interval's top.
pub open spec fn cap_milli(x: int) -> int {
    if x > 1000 {
        1000
    } else {
        x
    }
}

/// A counter, one higher; it stops at the machine limit rather than
/// wrap.
pub open spec fn inc_counter(c: usize) -> usize {
    if c < usize::MAX {
        (c + 1) as usize
    } else {
        c
    }
}

/// A metrics record after absorbing one interaction of impact `impact`
/// at time `ts`: centrality gains half the impact and influence the
/// whole impact, each capped at one; the touch counter grows by one.
pub open spec fn bumped_metrics(m: AgentNetworkMetrics, impact: int, ts: i64) -> AgentNetworkMetrics {
    AgentNetworkMetrics {
        centrality: cap_milli(m.centrality + impact / 2) as u32,
        influence_score: cap_milli(m.influence_score + impact) as u32,
        active_relationships: inc_counter(m.active_relationships),
        last_updated: ts,
        ..m
    }
}

/// The position of agent `a`'s metrics record, or `-1` when the agent
/// has not been seen yet.
pub open spec fn metrics_idx(s: Seq<AgentNetworkMetrics>, a: AgentId) -> int {
    first_idx(s, |m: AgentNetworkMetrics| m.agent_id == a)
}

/// Whether agent `a` has a metrics record.
pub open spec fn has_metrics_for(s: Seq<AgentNetworkMetrics>, a: AgentId) -> bool {
    metrics_idx(s, a) >= 0
}

/// The metrics record of agent `a`, or a fresh zeroed one when the agent
/// has not been seen.
pub open spec fn metrics_of(s: Seq<AgentNetworkMetrics>, a: AgentId) -> AgentNetworkMetrics {
    if has_metrics_for(s, a) {
        s[metrics_idx(s, a)]
    } else {
        zero_metrics(a)
    }
}

/// The metrics table after agent `a` absorbs one interaction of impact
/// `impact` at time `ts`: the agent's record — freshly created when
/// missing — is bumped, and nothing else changes.
pub open spec fn touched(
    s: Seq<AgentNetworkMetrics>,
    a: AgentId,
    impact: int,
    ts: i64,
) -> Seq<AgentNetworkMetrics> {
    if has_metrics_for(s, a) {
        s.update(metrics_idx(s, a), bumped_metrics(s[metrics_idx(s, a)], impact, ts))
    } else {
        s.push(bumped_metrics(zero_metrics(a), impact, ts))
    }
}

/// The metrics table after one interaction between `source` and
/// `target`: first the source absorbs the interaction's impact, then the
/// target.
pub open spec fn metrics_updated(
    s: Seq<AgentNetworkMetrics>,
    source: AgentId,
    target: AgentId,
    kind: SocialInteractionType,
    ts: i64,
) -> Seq<AgentNetworkMetrics> {
    touched(touched(s, source, impact_of(kind), ts), target, impact_of(kind), ts)
}

impl AgentNetworkMetrics {
    /// A fresh metrics record for one agent: everything at zero.
    pub fn new(agent_id: AgentId) -> (r: Self)
        ensures
            r == zero_metrics(agent_id),
    {
        AgentNetworkMetrics {
            agent_id,
            centrality: 0,
            betweenness: 0,
            clustering_coefficient: 0,
            influence_score: 0,
            active_relationships: 0,
            network_reach: 0,
            last_updated: 0,
        }
    }

    /// Absorb one interaction of the given kind at time `ts`.
    pub fn update_for_interaction(&mut self, interaction_type: &SocialInteractionType, ts: i64)
        ensures
            *final(self) == bumped_metrics(*old(self), impact_of(*interaction_type), ts),
    {
        let impact: u32 = match interaction_type {
            SocialInteractionType::Collaboration => 100,
            SocialInteractionType::Mentorship => 80,
            SocialInteractionType::KnowledgeSharing => 60,
            _ => 30,
        };
        let c: u64 = self.centrality as u64 + (impact / 2) as u64;
        self.centrality = if c > 1000 {
            1000
        } else {
            c as u32
        };
        let f: u64 = self.influence_score as u64 + impact as u64;
        self.influence_score = if f > 1000 {
            1000
        } else {
            f as u32
        };
        if self.active_relationships < usize::MAX {
            self.active_relationships = self.active_relationships + 1;
        }
        self.last_updated = ts;
    }
}

impl NetworkAnalyzer {
    /// Well-formedness of the metrics table: one record per agent, each
    /// under its own identifier, with centrality and influence in the
    /// unit interval.
    pub open spec fn wf(self) -> bool {
        let s = self.network_metrics@;
        &&& forall|i: int, j: int|
            0 <= i < j < s.len() ==> (#[trigger] s[i]).agent_id != (#[trigger] s[j]).agent_id
        &&& forall|i: int|
            0 <= i < s.len() ==> (#[trigger] s[i]).centrality <= 1000 && s[i].influence_score
                <= 1000
    }

    /// A fresh, empty network analyzer.
    pub fn new() -> (r: Self)
        ensures
            r.wf(),
            r.network_metrics@.len() == 0,
            r.network_history@.len() == 0,
    {
        NetworkAnalyzer { network_metrics: Vec::new(), network_history: Vec::new() }
    }

    /// Absorb one interaction at time `ts` (milliseconds) into both
    /// agents' metrics, creating zeroed records for agents not seen yet.
    pub fn update_network_metrics_at(
        &mut self,
        source_agent: AgentId,
        target_agent: AgentId,
        interaction_type: &SocialInteractionType,
        ts: i64,
    )
        requires
            old(self).wf(),
        ensures
            final(self).wf(),
            final(self).network_metrics@ == metrics_updated(
                old(self).network_metrics@,
                source_agent,
                target_agent,
                *interaction_type,
                ts,
            ),
            final(self).network_history@ == old(self).network_history@,
    {
        self.touch_agent(source_agent, interaction_type, ts);
        self.touch_agent(target_agent, interaction_type, ts);
    }

    /// Absorb one interaction, read off the wall clock. Some read time
    /// gives exactly the update that `update_network_metrics_at` states.
    pub fn update_network_metrics(
        &mut self,
        source_agent: AgentId,
        target_agent: AgentId,
        interaction_type: &SocialInteractionType,
    )
        requires
            old(self).wf(),
        ensures
            final(self).wf(),
            exists|ts: i64|
                final(self).network_metrics@ == #[trigger] metrics_updated(
                    old(self).network_metrics@,
                    source_agent,
                    target_agent,
                    *interaction_type,
                    ts,
                ),
            final(self).network_history@ == old(self).network_history@,
    {
        let ts = now_millis();
        self.update_network_metrics_at(source_agent, target_agent, interaction_type, ts);
    }

    /// Bump one agent's metrics record, creating it when missing.
    fn touch_agent(&mut self, a: AgentId, interaction_type: &SocialInteractionType, ts: i64)
        requires
            old(self).wf(),
        ensures
            final(self).wf(),
            final(self).network_metrics@ == touched(
                old(self).network_metrics@,
                a,
                impact_of(*interaction_type),
                ts,
            ),
            final(self).network_history@ == old(self).network_history@,
    {
        match find_metrics(&self.network_metrics, a) {
            Some(i) => {
                let m = &mut self.network_metrics[i];
                m.update_for_interaction(interaction_type, ts);
                proof {
                    let s = old(self).network_metrics@;
                    let t = self.network_metrics@;
                    assert forall|x: int, y: int|
                        0 <= x < y < t.len() implies (#[trigger] t[x]).agent_id != (
                    #[trigger] t[y]).agent_id by {
                        assert(t[x].agent_id == s[x].agent_id);
                        assert(t[y].agent_id == s[y].agent_id);
                    }
                }
            },
            None => {
                let mut m = AgentNetworkMetrics::new(a);
                m.update_for_interaction(interaction_type, ts);
                self.network_metrics.push(m);
                proof {
                    let s = old(self).network_metrics@;
                    let t = self.network_metrics@;
                    lemma_first_idx(s, |x: AgentNetworkMetrics| x.agent_id == a);
                    assert forall|x: int, y: int|
                        0 <= x < y < t.len() implies (#[trigger] t[x]).agent_id != (
                    #[trigger] t[y]).agent_id by {
                        if y < s.len() {
                            assert(t[x] == s[x]);
                            assert(t[y] == s[y]);
                        } else {
                            assert(t[x] == s[x]);
                        }
                    }
                }
            },
        }
    }

    /// The fixed network-impact estimate of one interaction between two
    /// agents: a small constant vector, not a recomputed graph diff.
    pub fn get_network_impact(
        &self,
        _source_agent: AgentId,
        _target_agent: AgentId,
    ) -> (r: NetworkImpact)
        ensures
            r == (NetworkImpact {
                centrality_change: 10u32,
                clustering_change: 5u32,
                betweenness_change: 8u32,
                influence_change: 20u32,
            }),
    {
        NetworkImpact {
            centrality_change: 10,
            clustering_change: 5,
            betweenness_change: 8,
            influence_change: 20,
        }
    }

    /// The stored metrics record of one agent, or a fresh zeroed one
    /// when the agent has not been seen.
    pub fn get_agent_metrics(&self, agent_id: AgentId) -> (r: AgentNetworkMetrics)
        ensures
            r == metrics_of(self.network_metrics@, agent_id),
    {
        match find_metrics(&self.network_metrics, agent_id) {
            Some(i) => self.network_metrics[i],
            None => AgentNetworkMetrics::new(agent_id),
        }
    }
}

// ---------------------------------------------------------------------
// Rankings, recommendations and clusters.
// ---------------------------------------------------------------------

/// The ranking entry a metrics record maps to.
pub open spec fn influential_of(m: AgentNetworkMetrics) -> InfluentialAgent {
    InfluentialAgent {
        agent_id: m.agent_id,
        influence_score: m.influence_score,
        centrality: m.centrality,
        active_relationships: m.active_relationships,
    }
}

/// A ranking sorted by influence, highest first.
pub open spec fn sorted_desc(s: Seq<InfluentialAgent>) -> bool {
    forall|i: int, j: int|
        0 <= i < j < s.len() ==> (#[trigger] s[i]).influence_score >= (#[trigger] s[j]).influence_score
}

/// A metrics record that belongs to another agent and whose influence no
/// other agent's record exceeds.
pub open spec fn is_best_other(
    s: Seq<AgentNetworkMetrics>,
    a: AgentId,
    m: AgentNetworkMetrics,
) -> bool {
    &&& m.agent_id != a
    &&& forall|k: int|
        0 <= k < s.len() && (#[trigger] s[k]).agent_id != a ==> s[k].influence_score
            <= m.influence_score
}

/// Whether any record belongs to an agent other than `a`.
pub open spec fn has_other(s: Seq<AgentNetworkMetrics>, a: AgentId) -> bool {
    exists|k: int| 0 <= k < s.len() && (#[trigger] s[k]).agent_id != a
}

/// The agents of the one collaboration cluster: everyone whose influence
/// exceeds one half, in table order.
pub open spec fn cluster_members(s: Seq<AgentNetworkMetrics>) -> Seq<AgentId>
    decreases s.len(),
{
    if s.len() == 0 {
        Seq::empty()
    } else {
        cluster_members(s.drop_last()) + if s.last().influence_score > 500 {
            seq![s.last().agent_id]
        } else {
            Seq::empty()
        }
    }
}

/// The smallest influence among the cluster's members; `1001` when the
/// cluster is empty.
pub open spec fn cluster_min(s: Seq<AgentNetworkMetrics>) -> int
    decreases s.len(),
{
    if s.len() == 0 {
        1001
    } else {
        let r = cluster_min(s.drop_last());
        if s.last().influence_score > 500 && s.last().influence_score < r {
            s.last().influence_score as int
        } else {
            r
        }
    }
}

/// The position of the record `recommend_connections` picks for agent
/// `a`: the earliest record, not the agent's own, whose influence no
/// other foreign record exceeds.
pub open spec fn best_other_idx(s: Seq<AgentNetworkMetrics>, a: AgentId) -> int {
    first_idx(s, |m: AgentNetworkMetrics| is_best_other(s, a, m))
}

/// A valid influence ranking of the metrics table `s`: the first up to
/// ten entries of some influence-sorted arrangement of the whole table.
pub open spec fn ranking_ok(s: Seq<AgentNetworkMetrics>, r: Seq<InfluentialAgent>) -> bool {
    exists|sorted: Seq<InfluentialAgent>|
        {
            &&& #[trigger] sorted.to_multiset() == s.map_values(
                |m: AgentNetworkMetrics| influential_of(m),
            ).to_multiset()
            &&& sorted_desc(sorted)
            &&& sorted.len() == s.len()
            &&& r == if sorted.len() <= 10 {
                sorted
            } else {
                sorted.take(10)
            }
        }
}

/// The valid cluster list of the metrics table `s`: one cluster of all
/// agents above the influence threshold when at least two exist, with
/// the smallest member influence as its strength; none otherwise.
pub open spec fn clusters_ok(s: Seq<AgentNetworkMetrics>, r: Seq<CollaborationCluster>) -> bool {
    let members = cluster_members(s);
    if members.len() >= 2 {
        &&& r.len() == 1
        &&& r[0].agents@ == members
        &&& r[0].collaboration_strength as int == cluster_min(s)
        &&& r[0].focus_areas@.len() == 0
    } else {
        r.len() == 0
    }
}

/// The valid connection-recommendation list for agent `a` over the
/// metrics table `s`: the most influential other agent, or nothing when
/// no other agent is on record.
pub open spec fn connection_recs_ok(
    s: Seq<AgentNetworkMetrics>,
    a: AgentId,
    r: Seq<ConnectionRecommendation>,
) -> bool {
    if has_other(s, a) {
        let b = best_other_idx(s, a);
        &&& r.len() == 1
        &&& 0 <= b < s.len()
        &&& r[0].target_agent == s[b].agent_id
        &&& r[0].potential_benefit == s[b].influence_score
        &&& r[0].confidence == 600
        &&& r[0].reason@ == "most influential agent in the network"@
    } else {
        r.len() == 0
    }
}

/// What one touch does to the agents' read models: the touched agent's
/// record is the bumped one, and every other agent reads what it read
/// before; the table stays well-formed.
pub proof fn lemma_touched_effects(s: Seq<AgentNetworkMetrics>, a: AgentId, impact: int, ts: i64)
    requires
        forall|i: int, j: int|
            0 <= i < j < s.len() ==> (#[trigger] s[i]).agent_id != (#[trigger] s[j]).agent_id,
    ensures
        metrics_of(touched(s, a, impact, ts), a) == bumped_metrics(metrics_of(s, a), impact, ts),
        forall|b: AgentId|
            b != a ==> #[trigger] metrics_of(touched(s, a, impact, ts), b) == metrics_of(s, b),
        touched(s, a, impact, ts).len() == s.len() + if has_metrics_for(s, a) {
            0int
        } else {
            1int
        },
        forall|i: int, j: int|
            0 <= i < j < touched(s, a, impact, ts).len() ==> (#[trigger] touched(
                s,
                a,
                impact,
                ts,
            )[i]).agent_id != (#[trigger] touched(s, a, impact, ts)[j]).agent_id,
{
    let t = touched(s, a, impact, ts);
    let p = |m: AgentNetworkMetrics| m.agent_id == a;
    lemma_first_idx(s, p);
    assert forall|i: int, j: int| 0 <= i < j < t.len() implies (#[trigger] t[i]).agent_id != (
    #[trigger] t[j]).agent_id by {
        if has_metrics_for(s, a) {
            assert(t[i].agent_id == s[i].agent_id);
            assert(t[j].agent_id == s[j].agent_id);
        } else {
            if j < s.len() {
                assert(t[i] == s[i]);
                assert(t[j] == s[j]);
            } else {
                assert(t[i] == s[i]);
                assert(t[j].agent_id == a);
            }
        }
    }
    if has_metrics_for(s, a) {
        let i = metrics_idx(s, a);
        lemma_first_idx_of(t, p, i);
        assert forall|b: AgentId| b != a implies #[trigger] metrics_of(t, b) == metrics_of(
            s,
            b,
        ) by {
            let q = |m: AgentNetworkMetrics| m.agent_id == b;
            lemma_first_idx(s, q);
            let r = metrics_idx(s, b);
            if r >= 0 {
                lemma_first_idx_of(t, q, r);
            } else {
                lemma_first_idx_none(t, q);
            }
        }
    } else {
        let n = s.len() as int;
        lemma_first_idx_of(t, p, n);
        assert forall|b: AgentId| b != a implies #[trigger] metrics_of(t, b) == metrics_of(
            s,
            b,
        ) by {
            let q = |m: AgentNetworkMetrics| m.agent_id == b;
            lemma_first_idx(s, q);
            let r = metrics_idx(s, b);
            if r >= 0 {
                lemma_first_idx_of(t, q, r);
            } else {
                lemma_first_idx_none(t, q);
            }
        }
    }
}

impl NetworkAnalyzer {
    /// The up-to-ten most influential agents, sorted by influence score,
    /// highest first; agents of equal influence keep their table order.
    pub fn get_most_influential_agents(&self) -> (r: Vec<InfluentialAgent>)
        ensures
            ranking_ok(self.network_metrics@, r@),
    {
        let s = &self.network_metrics;
        let n = s.len();
        let mut all: Vec<InfluentialAgent> = Vec::new();
        let mut i: usize = 0;
        while i < n
            invariant
                i <= n,
                n == s@.len(),
                all@ == s@.take(i as int).map_values(|m: AgentNetworkMetrics| influential_of(m)),
            decreases n - i,
        {
            all.push(InfluentialAgent {
                agent_id: s[i].agent_id,
                influence_score: s[i].influence_score,
                centrality: s[i].centrality,
                active_relationships: s[i].active_relationships,
            });
            proof {
                assert(s@.take(i as int + 1).map_values(
                    |m: AgentNetworkMetrics| influential_of(m),
                ) =~= s@.take(i as int).map_values(|m: AgentNetworkMetrics| influential_of(m)).push(
                    influential_of(s@[i as int]),
                ));
            }
            i = i + 1;
        }
        proof {
            assert(s@.take(n as int) =~= s@);
        }
        let mut ranked = sort_influential_desc(all);
        let ghost whole = ranked@;
        if ranked.len() > 10 {
            ranked.truncate(10);
            proof {
                assert(whole.subrange(0, 10) =~= whole.take(10));
            }
        }
        ranked
    }

    /// Recommend a new connection for an agent: the most influential
    /// agent in the table other than the asker — the earliest such
    /// record among ties — with that agent's influence as the benefit
    /// estimate and a fixed confidence. With no other agent on record,
    /// no recommendation is made.
    pub fn recommend_connections(&self, agent_id: AgentId) -> (r: Vec<ConnectionRecommendation>)
        ensures
            connection_recs_ok(self.network_metrics@, agent_id, r@),
    {
        let s = &self.network_metrics;
        let n = s.len();
        let mut bi: Option<usize> = None;
        let mut k: usize = 0;
        while k < n
            invariant
                k <= n,
                n == s@.len(),
                match bi {
                    Some(b) => {
                        &&& b < k
                        &&& s@[b as int].agent_id != agent_id
                        &&& forall|q: int|
                            0 <= q < k && (#[trigger] s@[q]).agent_id != agent_id
                                ==> s@[q].influence_score <= s@[b as int].influence_score
                        &&& forall|q: int|
                            0 <= q < b && (#[trigger] s@[q]).agent_id != agent_id
                                ==> s@[q].influence_score < s@[b as int].influence_score
                    },
                    None => forall|q: int| 0 <= q < k ==> (#[trigger] s@[q]).agent_id == agent_id,
                },
            decreases n - k,
        {
            if s[k].agent_id != agent_id {
                match bi {
                    Some(b) => {
                        if s[k].influence_score > s[b].influence_score {
                            bi = Some(k);
                        }
                    },
                    None => {
                        bi = Some(k);
                    },
                }
            }
            k = k + 1;
        }
        let mut out: Vec<ConnectionRecommendation> = Vec::new();
        match bi {
            Some(b) => {
                proof {
                    let sv = s@;
                    let p = |m: AgentNetworkMetrics| is_best_other(sv, agent_id, m);
                    assert(p(sv[b as int]));
                    assert forall|q: int| 0 <= q < b implies !p(sv[q]) by {
                        if sv[q].agent_id != agent_id {
                            assert(sv[b as int].agent_id != agent_id);
                            assert(sv[b as int].influence_score > sv[q].influence_score);
                        }
                    }
                    lemma_first_idx_of(sv, p, b as int);
                }
                out.push(ConnectionRecommendation {
                    target_agent: s[b].agent_id,
                    reason: "most influential agent in the network".to_owned(),
                    potential_benefit: s[b].influence_score,
                    confidence: 600,
                });
            },
            None => {
            },
        }
        out
    }

    /// The collaboration clusters of the network, as a documented
    /// deterministic stand-in for community detection: one cluster of
    /// all agents whose influence exceeds one half, carrying the
    /// smallest member influence as its strength, when at least two such
    /// agents exist; no clusters otherwise. The cluster's identity is
    /// freshly drawn.
    pub fn get_collaboration_clusters(&self) -> (r: Vec<CollaborationCluster>)
        ensures
            clusters_ok(self.network_metrics@, r@),
    {
        let s = &self.network_metrics;
        let n = s.len();
        let mut members: Vec<AgentId> = Vec::new();
        let mut lowest: u32 = 1001;
        let mut i: usize = 0;
        while i < n
            invariant
                i <= n,
                n == s@.len(),
                members@ == cluster_members(s@.take(i as int)),
                lowest as int == cluster_min(s@.take(i as int)),
            decreases n - i,
        {
            proof {
                assert(s@.take(i as int + 1).drop_last() =~= s@.take(i as int));
                assert(s@.take(i as int + 1).last() == s@[i as int]);
            }
            if s[i].influence_score > 500 {
                members.push(s[i].agent_id);
                if s[i].influence_score < lowest {
                    lowest = s[i].influence_score;
                }
            } else {
                proof {
                    assert(cluster_members(s@.take(i as int + 1)) =~= members@);
                }
            }
            proof {
                if s@[i as int].influence_score > 500 {
                    assert(cluster_members(s@.take(i as int + 1)) =~= members@);
                }
            }
            i = i + 1;
        }
        proof {
            assert(s@.take(n as int) =~= s@);
        }
        let mut out: Vec<CollaborationCluster> = Vec::new();
        if members.len() >= 2 {
            out.push(CollaborationCluster {
                cluster_id: fresh_id(),
                agents: members,
                collaboration_strength: lowest,
                focus_areas: Vec::new(),
            });
        }
        out
    }
}

/// Sort a ranking by influence score, highest first, by repeatedly
/// extracting the most influential remaining entry; entries of equal
/// influence keep their order.
fn sort_influential_desc(input: Vec<InfluentialAgent>) -> (out: Vec<InfluentialAgent>)
    ensures
        out@.to_multiset() == input@.to_multiset(),
        sorted_desc(out@),
        out@.len() == input@.len(),
{
    let ghost orig = input@;
    let mut v = input;
    let mut out: Vec<InfluentialAgent> = Vec::new();
    proof {
        assert(out@.to_multiset().add(v@.to_multiset()) =~= orig.to_multiset());
    }
    while v.len() > 0
        invariant
            out@.to_multiset().add(v@.to_multiset()) == orig.to_multiset(),
            out@.len() + v@.len() == orig.len(),
            sorted_desc(out@),
            forall|x: int, y: int|
                0 <= x < out@.len() && 0 <= y < v@.len() ==> (#[trigger] out@[x]).influence_score
                    >= (#[trigger] v@[y]).influence_score,
        decreases v.len(),
    {
        let n = v.len();
        let mut mi: usize = 0;
        let mut k: usize = 1;
        while k < n
            invariant
                1 <= k <= n,
                mi < k,
                n == v@.len(),
                forall|q: int|
                    0 <= q < k ==> (#[trigger] v@[q]).influence_score
                        <= v@[mi as int].influence_score,
            decreases n - k,
        {
            if v[k].influence_score > v[mi].influence_score {
                mi = k;
            }
            k = k + 1;
        }
        let ghost vold = v@;
        let ghost outold = out@;
        let x = v.remove(mi);
        out.push(x);
        proof {
            assert(vold.contains(x));
            assert(v@.to_multiset() =~= vold.to_multiset().remove(x));
            assert(out@.to_multiset() =~= outold.to_multiset().insert(x));
            assert(out@.to_multiset().add(v@.to_multiset()) =~= orig.to_multiset());
            assert forall|y: int| 0 <= y < v@.len() implies x.influence_score >= (
            #[trigger] v@[y]).influence_score by {
                if y < mi {
                    assert(v@[y] == vold[y]);
                } else {
                    assert(v@[y] == vold[y + 1]);
                }
            }
        }
    }
    out
}

impl Default for NetworkAnalyzer {
    /// A fresh, empty network analyzer.
    fn default() -> (r: Self)
        ensures
            r.wf(),
            r.network_metrics@.len() == 0,
            r.network_history@.len() == 0,
    {
        NetworkAnalyzer::new()
    }
}

/// Locate the metrics record of agent `a`.
fn find_metrics(s: &Vec<AgentNetworkMetrics>, a: AgentId) -> (r: Option<usize>)
    ensures
        match r {
            Some(i) => i < s@.len() && metrics_idx(s@, a) == i as int,
            None => metrics_idx(s@, a) == -1,
        },
{
    let n = s.len();
    let mut i: usize = 0;
    while i < n
        invariant
            i <= n,
            n == s@.len(),
            forall|j: int| 0 <= j < i ==> (#[trigger] s@[j]).agent_id != a,
        decreases n - i,
    {
        if s[i].agent_id == a {
            proof {
                lemma_first_idx_of(s@, |m: AgentNetworkMetrics| m.agent_id == a, i as int);
            }
            return Some(i);
        }
        i = i + 1;
    }
    proof {
        lemma_first_idx_none(s@, |m: AgentNetworkMetrics| m.agent_id == a);
    }
    None
}

} // verus!
