//! The social orchestrator: composes the relationship store, the
//! learning tracker and the network analyzer into one interaction
//! pipeline, keeps the social-event log, and derives composite influence
//! scores, recommendations and network analytics.

use vstd::prelude::*;
use vstd::seq_lib::group_to_multiset_ensures;

use crate::clock::now_millis;
use crate::ids::fresh_id;
use crate::network_analyzer::{
    clusters_ok, has_other, lemma_touched_effects, metrics_of, metrics_updated, ranking_ok,
    AgentNetworkMetrics, CollaborationCluster, InfluentialAgent, NetworkAnalyzer, NetworkImpact,
};
use crate::relationship_manager::{
    edges_of, event_logged, rel_update_applied, strength_change_spec, total_edges,
    AgentRelationship, RelationshipManager, RelationshipUpdate,
};
use crate::search::lemma_first_idx;
use crate::social_learning::{
    learning_processed, progress_like, records_of, result_like, total_records, LearningProgress,
    SocialLearningResult, SocialLearningSystem,
};
use crate::types::{
    label_of_kind, AgentId, AgentInteraction, ConnectionType, IntelligenceError,
    InteractionOutcome, SocialInteractionType,
};

verus! {

broadcast use group_to_multiset_ensures;

/// One completed orchestrated interaction, as recorded on the
/// append-only social-event log.
#[derive(Debug)]
pub struct SocialEvent {
    pub id: u128,
    pub source_agent: AgentId,
    pub target_agent: AgentId,
    pub interaction_type: SocialInteractionType,
    pub context: String,
    pub timestamp: i64,
    pub learning_outcome: SocialLearningResult,
    /// The absolute relationship-strength change, in thousandths.
    pub relationship_impact: u32,
}

/// The composite result of one orchestrated interaction.
#[derive(Debug)]
pub struct SocialInteractionResult {
    pub relationship_update: RelationshipUpdate,
    pub learning_result: SocialLearningResult,
    pub network_impact: NetworkImpact,
}

/// An agent's complete social read model.
#[derive(Debug)]
pub struct AgentSocialNetwork {
    pub agent_id: AgentId,
    pub relationships: Vec<AgentRelationship>,
    pub learning_progress: LearningProgress,
    pub network_metrics: AgentNetworkMetrics,
    /// Social influence in thousandths; never above `1000`.
    pub social_influence: u32,
}

/// Kinds of social recommendations.
#[derive(Clone, Copy, Debug, PartialEq, Eq, Structural)]
pub enum SocialRecommendationType {
    NewConnection,
    LearningOpportunity,
    Collaboration,
    Mentorship,
    KnowledgeSharing,
}

/// One social recommendation.
#[derive(Debug)]
pub struct SocialRecommendation {
    pub recommendation_type: SocialRecommendationType,
    pub target_agent: AgentId,
    pub reason: String,
    /// Benefit estimate in thousandths.
    pub potential_benefit: u32,
    /// Confidence in thousandths.
    pub confidence: u32,
}

/// A system-wide snapshot of the network.
#[derive(Debug)]
pub struct NetworkAnalytics {
    pub total_agents: usize,
    pub total_relationships: usize,
    /// Density in thousandths. Both directions of a pair count as
    /// records, so a fully connected network reads `2.0`.
    pub network_density: u64,
    pub learning_events: usize,
    /// Mean stored strength in thousandths.
    pub average_relationship_strength: u32,
    pub most_influential_agents: Vec<InfluentialAgent>,
    pub collaboration_clusters: Vec<CollaborationCluster>,
}

/// The social engine: the three owned stores and the social-event log.
#[derive(Debug)]
pub struct SocialEngine {
    pub relationship_manager: RelationshipManager,
    pub social_learning_system: SocialLearningSystem,
    pub network_analyzer: NetworkAnalyzer,
    pub social_events: Vec<SocialEvent>,
}

// ---------------------------------------------------------------------
// The social-influence score.
// ---------------------------------------------------------------------

/// Influence multiplier of a connection kind, in thousandths.
pub open spec fn connection_multiplier(k: ConnectionType) -> int {
    match k {
        ConnectionType::Mentorship => 1200,
        ConnectionType::Collaboration => 1100,
        ConnectionType::Professional => 1000,
        ConnectionType::Learning => 800,
        ConnectionType::Friendship => 900,
        ConnectionType::DataSharing => 700,
        ConnectionType::Consultation => 800,
        ConnectionType::Competition => 600,
    }
}

/// Influence an agent draws from its relationships: the sum over its
/// records of strength scaled by the kind's multiplier, in thousandths.
pub open spec fn relationship_influence(rels: Seq<AgentRelationship>) -> int
    decreases rels.len(),
{
    if rels.len() == 0 {
        0
    } else {
        relationship_influence(rels.drop_last()) + rels.last().strength * connection_multiplier(
            rels.last().connection_type,
        ) / 1000
    }
}

/// Influence an agent draws from its network position, in thousandths.
pub open spec fn network_influence(m: AgentNetworkMetrics) -> int {
    m.centrality * 300 / 1000 + m.betweenness * 200 / 1000
}

/// Whether a social event involves agent `a` and happened within the 24
/// hours before `now`; events stamped in the future count as recent.
pub open spec fn is_recent(e: SocialEvent, a: AgentId, now: i64) -> bool {
    (e.source_agent == a || e.target_agent == a) && now - e.timestamp < 86400000
}

/// How many logged social events involve agent `a` within the 24 hours
/// before `now`.
pub open spec fn recent_count(events: Seq<SocialEvent>, a: AgentId, now: i64) -> int
    decreases events.len(),
{
    if events.len() == 0 {
        0
    } else {
        recent_count(events.drop_last(), a, now) + if is_recent(events.last(), a, now) {
            1int
        } else {
            0int
        }
    }
}

/// Cap a score at the unit interval's top.
pub open spec fn capped_at_one(x: int) -> int {
    if x > 1000 {
        1000
    } else {
        x
    }
}

/// The social-influence score of agent `a` read at time `now`, in
/// thousandths: relationship influence, plus network-position influence,
/// plus one tenth per recent social event, capped at one.
pub open spec fn social_influence_spec(e: SocialEngine, a: AgentId, now: i64) -> int {
    capped_at_one(
        relationship_influence(edges_of(e.relationship_manager.relationships@, a))
            + network_influence(metrics_of(e.network_analyzer.network_metrics@, a)) + 100
            * recent_count(e.social_events@, a, now),
    )
}

/// However large its three contributing terms, a social-influence score
/// never exceeds one.
pub proof fn law_social_influence_bounded(e: SocialEngine, a: AgentId, now: i64)
    ensures
        social_influence_spec(e, a, now) <= 1000,
{
}

/// The absolute difference of two scores.
pub open spec fn abs_diff(x: int, y: int) -> int {
    if x >= y {
        x - y
    } else {
        y - x
    }
}

/// Everything one orchestrated interaction does, in the fixed order:
/// the relationship store absorbs an interaction with outcome
/// Successful under the kind's label and logs one connection event; the
/// learning tracker appends one record and produces the learning
/// result; both agents' network metrics absorb the kind's impact; and
/// one social event is appended whose relationship impact is the
/// absolute strength change. The returned network impact is the real
/// before/after difference of the source agent's centrality and
/// influence.
pub open spec fn interaction_processed(
    pre: SocialEngine,
    post: SocialEngine,
    source: AgentId,
    target: AgentId,
    kind: SocialInteractionType,
    context: Seq<char>,
    now: i64,
    res: SocialInteractionResult,
) -> bool {
    let delta = strength_change_spec(InteractionOutcome::Successful, label_of_kind(kind));
    &&& rel_update_applied(
        pre.relationship_manager.relationships@,
        post.relationship_manager.relationships@,
        source,
        target,
        delta,
        now,
        res.relationship_update,
    )
    &&& event_logged(
        pre.relationship_manager.connection_history@,
        post.relationship_manager.connection_history@,
        source,
        target,
        delta,
        now,
    )
    &&& post.relationship_manager.relationship_configs
        == pre.relationship_manager.relationship_configs
    &&& learning_processed(
        pre.social_learning_system.learning_records@,
        post.social_learning_system.learning_records@,
        source,
        target,
        kind,
        context,
        now,
        res.learning_result,
    )
    &&& post.network_analyzer.network_metrics@ == metrics_updated(
        pre.network_analyzer.network_metrics@,
        source,
        target,
        kind,
        now,
    )
    &&& post.network_analyzer.network_history@ == pre.network_analyzer.network_history@
    &&& post.social_events@.len() == pre.social_events@.len() + 1
    &&& forall|k: int|
        0 <= k < pre.social_events@.len() ==> post.social_events@[k] == pre.social_events@[k]
    &&& ({
        let ev = post.social_events@.last();
        &&& ev.source_agent == source
        &&& ev.target_agent == target
        &&& ev.interaction_type == kind
        &&& ev.context@ == context
        &&& ev.timestamp == now
        &&& result_like(ev.learning_outcome, res.learning_result)
        &&& ev.relationship_impact as int == abs_diff(
            res.relationship_update.new_strength as int,
            res.relationship_update.old_strength as int,
        )
    })
    &&& ({
        let before = metrics_of(pre.network_analyzer.network_metrics@, source);
        let after = metrics_of(post.network_analyzer.network_metrics@, source);
        &&& res.network_impact.centrality_change as int == after.centrality - before.centrality
        &&& res.network_impact.influence_change as int == after.influence_score
            - before.influence_score
        &&& res.network_impact.clustering_change == 0
        &&& res.network_impact.betweenness_change == 0
    })
}

impl SocialEngine {
    /// Well-formedness: the three owned stores are well-formed.
    pub open spec fn wf(self) -> bool {
        &&& self.relationship_manager.wf()
        &&& self.social_learning_system.wf()
        &&& self.network_analyzer.wf()
    }

    /// A fresh, empty social engine.
    pub fn new() -> (r: Self)
        ensures
            r.wf(),
            r.relationship_manager.relationships@.len() == 0,
            r.relationship_manager.connection_history@.len() == 0,
            r.social_learning_system.learning_records@.len() == 0,
            r.network_analyzer.network_metrics@.len() == 0,
            r.social_events@.len() == 0,
    {
        SocialEngine {
            relationship_manager: RelationshipManager::new(),
            social_learning_system: SocialLearningSystem::new(),
            network_analyzer: NetworkAnalyzer::new(),
            social_events: Vec::new(),
        }
    }

    /// Run one social interaction through the pipeline at time `now`
    /// (milliseconds): relationship store, then learning tracker, then
    /// network metrics, then the social-event log. The outcome is fixed
    /// to Successful at this layer.
    pub fn process_social_interaction_at(
        &mut self,
        source_agent: AgentId,
        target_agent: AgentId,
        interaction_type: SocialInteractionType,
        context: &str,
        now: i64,
    ) -> (r: Result<SocialInteractionResult, IntelligenceError>)
        requires
            old(self).wf(),
        ensures
            final(self).wf(),
            match r {
                Ok(res) => interaction_processed(
                    *old(self),
                    *final(self),
                    source_agent,
                    target_agent,
                    interaction_type,
                    context@,
                    now,
                    res,
                ),
                Err(_) => false,
            },
    {
        let mut participants: Vec<AgentId> = Vec::new();
        participants.push(source_agent);
        participants.push(target_agent);
        let interaction = AgentInteraction {
            id: fresh_id(),
            timestamp: now,
            participants,
            interaction_type: interaction_type.label(),
            content: context.to_owned(),
            outcome: InteractionOutcome::Successful,
        };
        let relationship_update = match self.relationship_manager.update_relationship(
            &interaction,
        ) {
            Ok(u) => u,
            Err(_) => {
                proof {
                    assert(interaction.participants@.len() == 2);
                }
                vstd::pervasive::unreached()
            },
        };
        let learning_result = self.social_learning_system.process_interaction_at(
            source_agent,
            target_agent,
            &interaction_type,
            context,
            now,
        );
        let before = self.network_analyzer.get_agent_metrics(source_agent);
        self.network_analyzer.update_network_metrics_at(
            source_agent,
            target_agent,
            &interaction_type,
            now,
        );
        let after = self.network_analyzer.get_agent_metrics(source_agent);
        proof {
            let s0 = old(self).network_analyzer.network_metrics@;
            let imp = crate::network_analyzer::impact_of(interaction_type);
            let s1 = crate::network_analyzer::touched(s0, source_agent, imp, now);
            lemma_touched_effects(s0, source_agent, imp, now);
            lemma_touched_effects(s1, target_agent, imp, now);
            if crate::network_analyzer::has_metrics_for(s0, source_agent) {
                let bidx = crate::network_analyzer::metrics_idx(s0, source_agent);
                lemma_first_idx(s0, |m: AgentNetworkMetrics| m.agent_id == source_agent);
                assert(s0[bidx].centrality <= 1000 && s0[bidx].influence_score <= 1000);
            }
            assert(before.centrality <= 1000 && before.influence_score <= 1000);
            assert(after.centrality >= before.centrality);
            assert(after.influence_score >= before.influence_score);
        }
        let network_impact = NetworkImpact {
            centrality_change: after.centrality - before.centrality,
            clustering_change: 0,
            betweenness_change: 0,
            influence_change: after.influence_score - before.influence_score,
        };
        let event_outcome = learning_result.clone();
        let impact_abs: u32 = if relationship_update.new_strength
            >= relationship_update.old_strength {
            relationship_update.new_strength - relationship_update.old_strength
        } else {
            relationship_update.old_strength - relationship_update.new_strength
        };
        self.social_events.push(SocialEvent {
            id: fresh_id(),
            source_agent,
            target_agent,
            interaction_type,
            context: context.to_owned(),
            timestamp: now,
            learning_outcome: event_outcome,
            relationship_impact: impact_abs,
        });
        Ok(SocialInteractionResult { relationship_update, learning_result, network_impact })
    }

    /// Run one social interaction through the pipeline, read off the
    /// wall clock: some read time gives exactly the transition that
    /// `process_social_interaction_at` states.
    pub fn process_social_interaction(
        &mut self,
        source_agent: AgentId,
        target_agent: AgentId,
        interaction_type: SocialInteractionType,
        context: &str,
    ) -> (r: Result<SocialInteractionResult, IntelligenceError>)
        requires
            old(self).wf(),
        ensures
            final(self).wf(),
            match r {
                Ok(res) => exists|now: i64|
                    #[trigger] interaction_processed(
                        *old(self),
                        *final(self),
                        source_agent,
                        target_agent,
                        interaction_type,
                        context@,
                        now,
                        res,
                    ),
                Err(_) => false,
            },
    {
        let now = now_millis();
        self.process_social_interaction_at(
            source_agent,
            target_agent,
            interaction_type,
            context,
            now,
        )
    }

    /// The social-influence score of one agent read at time `now`
    /// (milliseconds), in thousandths; never above `1000`.
    pub fn calculate_social_influence_at(&self, agent_id: AgentId, now: i64) -> (r: u32)
        ensures
            r as int == social_influence_spec(*self, agent_id, now),
            r <= 1000,
    {
        let rels = self.relationship_manager.get_agent_relationships(agent_id);
        let n = rels.len();
        let mut rel_inf: u128 = 0;
        let mut i: usize = 0;
        while i < n
            invariant
                i <= n,
                n == rels@.len(),
                rel_inf == relationship_influence(rels@.take(i as int)),
                rel_inf <= (i as int) * 6000000000,
            decreases n - i,
        {
            proof {
                assert(rels@.take(i as int + 1).drop_last() =~= rels@.take(i as int));
                assert(rels@.take(i as int + 1).last() == rels@[i as int]);
            }
            let e = rels[i];
            let mult: u128 = match e.connection_type {
                ConnectionType::Mentorship => 1200,
                ConnectionType::Collaboration => 1100,
                ConnectionType::Professional => 1000,
                ConnectionType::Learning => 800,
                ConnectionType::Friendship => 900,
                ConnectionType::DataSharing => 700,
                ConnectionType::Consultation => 800,
                ConnectionType::Competition => 600,
            };
            rel_inf = rel_inf + (e.strength as u128) * mult / 1000;
            i = i + 1;
        }
        proof {
            assert(rels@.take(n as int) =~= rels@);
        }
        let m = self.network_analyzer.get_agent_metrics(agent_id);
        let net_inf: u128 = (m.centrality as u128) * 300 / 1000 + (m.betweenness as u128) * 200
            / 1000;
        let events = &self.social_events;
        let en = events.len();
        let mut recent: u128 = 0;
        let mut k: usize = 0;
        while k < en
            invariant
                k <= en,
                en == events@.len(),
                recent == recent_count(events@.take(k as int), agent_id, now),
                recent <= k as int,
            decreases en - k,
        {
            proof {
                assert(events@.take(k as int + 1).drop_last() =~= events@.take(k as int));
                assert(events@.take(k as int + 1).last() == events@[k as int]);
            }
            let e = &events[k];
            if (e.source_agent == agent_id || e.target_agent == agent_id) && (now as i128
                - e.timestamp as i128) < 86400000 {
                recent = recent + 1;
            }
            k = k + 1;
        }
        proof {
            assert(events@.take(en as int) =~= events@);
        }
        let total: u128 = rel_inf + net_inf + 100 * recent;
        if total > 1000 {
            1000
        } else {
            total as u32
        }
    }

    /// The social-influence score of one agent read off the wall clock,
    /// in thousandths: some read time gives exactly this score; it never
    /// exceeds `1000`.
    pub fn calculate_social_influence(&self, agent_id: AgentId) -> (r: u32)
        ensures
            exists|now: i64| r as int == #[trigger] social_influence_spec(*self, agent_id, now),
            r <= 1000,
    {
        let now = now_millis();
        let r = self.calculate_social_influence_at(agent_id, now);
        proof {
            assert(r as int == social_influence_spec(*self, agent_id, now));
        }
        r
    }

    /// An agent's complete social read model at time `now`
    /// (milliseconds): its relationships, learning progress, network
    /// metrics, and social-influence score.
    pub fn get_agent_network_at(&self, agent_id: AgentId, now: i64) -> (r: AgentSocialNetwork)
        ensures
            r.agent_id == agent_id,
            r.relationships@ == edges_of(self.relationship_manager.relationships@, agent_id),
            progress_like(
                self.social_learning_system.learning_records@,
                agent_id,
                r.learning_progress,
            ),
            r.network_metrics == metrics_of(self.network_analyzer.network_metrics@, agent_id),
            r.social_influence as int == social_influence_spec(*self, agent_id, now),
            r.social_influence <= 1000,
    {
        AgentSocialNetwork {
            agent_id,
            relationships: self.relationship_manager.get_agent_relationships(agent_id),
            learning_progress: self.social_learning_system.get_learning_progress(agent_id),
            network_metrics: self.network_analyzer.get_agent_metrics(agent_id),
            social_influence: self.calculate_social_influence_at(agent_id, now),
        }
    }

    /// An agent's complete social read model, with the influence score
    /// read off the wall clock: some read time gives exactly its value.
    pub fn get_agent_network(&self, agent_id: AgentId) -> (r: AgentSocialNetwork)
        ensures
            r.agent_id == agent_id,
            r.relationships@ == edges_of(self.relationship_manager.relationships@, agent_id),
            progress_like(
                self.social_learning_system.learning_records@,
                agent_id,
                r.learning_progress,
            ),
            r.network_metrics == metrics_of(self.network_analyzer.network_metrics@, agent_id),
            exists|now: i64|
                r.social_influence as int == #[trigger] social_influence_spec(
                    *self,
                    agent_id,
                    now,
                ),
            r.social_influence <= 1000,
    {
        let now = now_millis();
        let r = self.get_agent_network_at(agent_id, now);
        proof {
            assert(r.social_influence as int == social_influence_spec(*self, agent_id, now));
        }
        r
    }

    /// Recommend collaborations for an agent: one recommendation for
    /// each existing Collaboration-kind relationship stronger than
    /// `0.6`, in ledger order, with a benefit of four fifths of the
    /// strength and a fixed confidence.
    pub fn recommend_collaborations(&self, agent_id: AgentId) -> (r: Vec<SocialRecommendation>)
        ensures
            collab_recs_ok(edges_of(self.relationship_manager.relationships@, agent_id), r@),
    {
        let rels = self.relationship_manager.get_agent_relationships(agent_id);
        let n = rels.len();
        let mut out: Vec<SocialRecommendation> = Vec::new();
        let mut i: usize = 0;
        while i < n
            invariant
                i <= n,
                n == rels@.len(),
                out@.len() == qualifying_edges(rels@.take(i as int)).len(),
                forall|k: int|
                    0 <= k < out@.len() ==> collab_rec_matches(
                        #[trigger] out@[k],
                        qualifying_edges(rels@.take(i as int))[k],
                    ),
            decreases n - i,
        {
            proof {
                assert(rels@.take(i as int + 1).drop_last() =~= rels@.take(i as int));
                assert(rels@.take(i as int + 1).last() == rels@[i as int]);
            }
            let e = rels[i];
            if matches!(e.connection_type, ConnectionType::Collaboration) && e.strength > 600 {
                proof {
                    assert(qualifying_edges(rels@.take(i as int + 1)) =~= qualifying_edges(
                        rels@.take(i as int),
                    ).push(rels@[i as int]));
                }
                let benefit_wide: u64 = (e.strength as u64) * 800 / 1000;
                proof {
                    vstd::arithmetic::div_mod::lemma_div_is_ordered(
                        e.strength as int * 800,
                        u32::MAX as int * 800,
                        1000,
                    );
                }
                out.push(SocialRecommendation {
                    recommendation_type: SocialRecommendationType::Collaboration,
                    target_agent: e.other_agent_id,
                    reason: "Strong collaboration history and complementary skills".to_owned(),
                    potential_benefit: benefit_wide as u32,
                    confidence: 850,
                });
            } else {
                proof {
                    assert(qualifying_edges(rels@.take(i as int + 1)) =~= qualifying_edges(
                        rels@.take(i as int),
                    ));
                }
            }
            i = i + 1;
        }
        proof {
            assert(rels@.take(n as int) =~= rels@);
        }
        out
    }

    /// All social recommendations for an agent: new connections,
    /// learning opportunities and collaborations, merged and sorted by
    /// potential benefit, highest first.
    pub fn get_social_recommendations(&self, agent_id: AgentId) -> (r: Vec<SocialRecommendation>)
        ensures
            exists|pre: Seq<SocialRecommendation>|
                {
                    &&& #[trigger] streams_ok(*self, agent_id, pre)
                    &&& r@.to_multiset() == pre.to_multiset()
                    &&& r@.len() == pre.len()
                },
            sorted_by_benefit(r@),
    {
        let mut recs: Vec<SocialRecommendation> = Vec::new();
        let mut conns = self.network_analyzer.recommend_connections(agent_id);
        if conns.len() > 0 {
            match conns.pop() {
                Some(c) => {
                    recs.push(SocialRecommendation {
                        recommendation_type: SocialRecommendationType::NewConnection,
                        target_agent: c.target_agent,
                        reason: c.reason,
                        potential_benefit: c.potential_benefit,
                        confidence: c.confidence,
                    });
                },
                None => {
                },
            }
        }
        let ghost z1 = recs@;
        let mut lops = self.social_learning_system.recommend_learning_opportunities(agent_id);
        if lops.len() > 0 {
            match lops.pop() {
                Some(l) => {
                    recs.push(SocialRecommendation {
                        recommendation_type: SocialRecommendationType::LearningOpportunity,
                        target_agent: l.mentor_agent,
                        reason: l.reason,
                        potential_benefit: l.potential_benefit,
                        confidence: l.confidence,
                    });
                },
                None => {
                },
            }
        }
        let ghost z12 = recs@;
        let ghost z2 = z12.skip(z1.len() as int);
        let mut collabs = self.recommend_collaborations(agent_id);
        recs.append(&mut collabs);
        let ghost pre = recs@;
        let ghost z3 = pre.skip(z12.len() as int);
        proof {
            assert(z12 =~= z1 + z2);
            assert(pre =~= z12 + z3);
            assert(pre =~= z1 + z2 + z3);
            assert(conn_stream_ok(self.network_analyzer.network_metrics@, agent_id, z1));
            assert(learn_stream_ok(
                records_of(self.social_learning_system.learning_records@, agent_id),
                z2,
            ));
            assert(collab_recs_ok(
                edges_of(self.relationship_manager.relationships@, agent_id),
                z3,
            ));
            assert(streams_ok(*self, agent_id, pre));
        }
        let sorted = sort_recommendations_desc(recs);
        sorted
    }

    /// A system-wide analytics snapshot: agent and record counts, the
    /// network density, learning-event count, mean stored strength, the
    /// influence ranking, and the collaboration clusters.
    pub fn get_network_analytics(&self) -> (r: NetworkAnalytics)
        requires
            self.wf(),
        ensures
            r.total_agents == self.relationship_manager.relationships@.len(),
            r.total_relationships as int == if total_edges(
                self.relationship_manager.relationships@,
            ) <= usize::MAX as int {
                total_edges(self.relationship_manager.relationships@)
            } else {
                usize::MAX as int
            },
            r.network_density as int == ({
                let d = density_milli(
                    self.relationship_manager.relationships@.len() as int,
                    total_edges(self.relationship_manager.relationships@),
                );
                if d <= u64::MAX as int {
                    d
                } else {
                    u64::MAX as int
                }
            }),
            r.learning_events as int == if total_records(
                self.social_learning_system.learning_records@,
            ) <= usize::MAX as int {
                total_records(self.social_learning_system.learning_records@)
            } else {
                usize::MAX as int
            },
            r.average_relationship_strength as int == if total_edges(
                self.relationship_manager.relationships@,
            ) == 0 {
                0int
            } else {
                crate::relationship_manager::strength_total(
                    self.relationship_manager.relationships@,
                ) / total_edges(self.relationship_manager.relationships@)
            },
            ranking_ok(self.network_analyzer.network_metrics@, r.most_influential_agents@),
            clusters_ok(self.network_analyzer.network_metrics@, r.collaboration_clusters@),
    {
        let total_agents = self.relationship_manager.get_total_agents();
        let rels_exact = self.relationship_manager.count_edges_exact();
        let total_relationships = self.relationship_manager.get_total_relationships();
        let hl = self.relationship_manager.connection_history.len();
        let network_density: u64 = if total_agents > 1 {
            proof {
                assert(rels_exact <= 2 * (hl as u128));
                vstd::arithmetic::mul::lemma_mul_upper_bound(
                    total_agents as int,
                    usize::MAX as int,
                    total_agents as int - 1,
                    usize::MAX as int,
                );
                assert((total_agents as int) * (total_agents as int - 1) >= 1) by (nonlinear_arith)
                    requires
                        total_agents as int > 1,
                ;
            }
            let denom: u128 = (total_agents as u128) * (total_agents as u128 - 1);
            let d: u128 = rels_exact * 2000 / denom;
            if d > u64::MAX as u128 {
                u64::MAX
            } else {
                d as u64
            }
        } else {
            0
        };
        NetworkAnalytics {
            total_agents,
            total_relationships,
            network_density,
            learning_events: self.social_learning_system.get_total_learning_events(),
            average_relationship_strength: self.relationship_manager
                .get_average_relationship_strength(),
            most_influential_agents: self.network_analyzer.get_most_influential_agents(),
            collaboration_clusters: self.network_analyzer.get_collaboration_clusters(),
        }
    }
}

impl Default for SocialEngine {
    /// A fresh, empty social engine.
    fn default() -> (r: Self)
        ensures
            r.wf(),
            r.relationship_manager.relationships@.len() == 0,
            r.relationship_manager.connection_history@.len() == 0,
            r.social_learning_system.learning_records@.len() == 0,
            r.network_analyzer.network_metrics@.len() == 0,
            r.social_events@.len() == 0,
    {
        SocialEngine::new()
    }
}

// ---------------------------------------------------------------------
// Recommendation streams and their merge.
// ---------------------------------------------------------------------

/// The relationships that qualify for a collaboration recommendation,
/// in ledger order: Collaboration-kind and stronger than `0.6`.
pub open spec fn qualifying_edges(es: Seq<AgentRelationship>) -> Seq<AgentRelationship>
    decreases es.len(),
{
    if es.len() == 0 {
        Seq::empty()
    } else {
        qualifying_edges(es.drop_last()) + if es.last().connection_type
            == ConnectionType::Collaboration && es.last().strength > 600 {
            seq![es.last()]
        } else {
            Seq::empty()
        }
    }
}

/// The collaboration recommendation a qualifying relationship maps to.
pub open spec fn collab_rec_matches(r: SocialRecommendation, e: AgentRelationship) -> bool {
    &&& r.recommendation_type == SocialRecommendationType::Collaboration
    &&& r.target_agent == e.other_agent_id
    &&& r.potential_benefit as int == e.strength * 800 / 1000
    &&& r.confidence == 850
    &&& r.reason@ == "Strong collaboration history and complementary skills"@
}

/// The valid collaboration-recommendation stream over one agent's
/// relationships: one entry per qualifying relationship, in ledger
/// order.
pub open spec fn collab_recs_ok(es: Seq<AgentRelationship>, r: Seq<SocialRecommendation>) -> bool {
    let q = qualifying_edges(es);
    &&& r.len() == q.len()
    &&& forall|k: int| 0 <= k < r.len() ==> collab_rec_matches(#[trigger] r[k], q[k])
}

/// The valid new-connection stream over the metrics table, as a social
/// recommendation.
pub open spec fn conn_stream_ok(
    s: Seq<AgentNetworkMetrics>,
    a: AgentId,
    z: Seq<SocialRecommendation>,
) -> bool {
    if has_other(s, a) {
        let b = crate::network_analyzer::best_other_idx(s, a);
        &&& z.len() == 1
        &&& z[0].recommendation_type == SocialRecommendationType::NewConnection
        &&& z[0].target_agent == s[b].agent_id
        &&& z[0].potential_benefit == s[b].influence_score
        &&& z[0].confidence == 600
        &&& z[0].reason@ == "most influential agent in the network"@
    } else {
        z.len() == 0
    }
}

/// The valid learning-opportunity stream over one agent's records, as a
/// social recommendation.
pub open spec fn learn_stream_ok(
    recs: Seq<crate::social_learning::LearningRecord>,
    z: Seq<SocialRecommendation>,
) -> bool {
    if recs.len() == 0 {
        z.len() == 0
    } else {
        let b = crate::social_learning::best_record_idx(recs);
        &&& z.len() == 1
        &&& 0 <= b < recs.len()
        &&& z[0].recommendation_type == SocialRecommendationType::LearningOpportunity
        &&& z[0].target_agent == recs[b].mentor_agent
        &&& z[0].potential_benefit == recs[b].effectiveness
        &&& z[0].confidence == 700
        &&& z[0].reason@ == "most effective past mentor"@
    }
}

/// The merged recommendation list before sorting: the new-connection
/// stream, then the learning stream, then the collaboration stream.
pub open spec fn streams_ok(e: SocialEngine, a: AgentId, pre: Seq<SocialRecommendation>) -> bool {
    exists|z1: Seq<SocialRecommendation>, z2: Seq<SocialRecommendation>, z3: Seq<
        SocialRecommendation,
    >|
        #![trigger z1 + z2 + z3]
        {
            &&& pre == z1 + z2 + z3
            &&& conn_stream_ok(e.network_analyzer.network_metrics@, a, z1)
            &&& learn_stream_ok(records_of(e.social_learning_system.learning_records@, a), z2)
            &&& collab_recs_ok(edges_of(e.relationship_manager.relationships@, a), z3)
        }
}

/// A recommendation list sorted by potential benefit, highest first.
pub open spec fn sorted_by_benefit(s: Seq<SocialRecommendation>) -> bool {
    forall|i: int, j: int|
        0 <= i < j < s.len() ==> (#[trigger] s[i]).potential_benefit >= (#[trigger] s[j]).potential_benefit
}

/// Sort recommendations by potential benefit, highest first, by
/// repeatedly extracting the most beneficial remaining entry; entries of
/// equal benefit keep their order.
fn sort_recommendations_desc(input: Vec<SocialRecommendation>) -> (out: Vec<SocialRecommendation>)
    ensures
        out@.to_multiset() == input@.to_multiset(),
        sorted_by_benefit(out@),
        out@.len() == input@.len(),
{
    let ghost orig = input@;
    let mut v = input;
    let mut out: Vec<SocialRecommendation> = Vec::new();
    proof {
        assert(out@.to_multiset().add(v@.to_multiset()) =~= orig.to_multiset());
    }
    while v.len() > 0
        invariant
            out@.to_multiset().add(v@.to_multiset()) == orig.to_multiset(),
            out@.len() + v@.len() == orig.len(),
            sorted_by_benefit(out@),
            forall|x: int, y: int|
                0 <= x < out@.len() && 0 <= y < v@.len() ==> (#[trigger] out@[x]).potential_benefit
                    >= (#[trigger] v@[y]).potential_benefit,
        decreases v.len(),
    {
        let n = v.len();
        let mut mi: usize = 0;
        let mut k: usize = 1;
        while k < n
            invariant
                1 <= k <= n,
                mi < k,
                n == v@.len(),
                forall|q: int|
                    0 <= q < k ==> (#[trigger] v@[q]).potential_benefit
                        <= v@[mi as int].potential_benefit,
            decreases n - k,
        {
            if v[k].potential_benefit > v[mi].potential_benefit {
                mi = k;
            }
            k = k + 1;
        }
        let ghost vold = v@;
        let ghost outold = out@;
        let x = v.remove(mi);
        let ghost gx = x;
        out.push(x);
        proof {
            assert(vold.contains(gx));
            assert(v@.to_multiset() =~= vold.to_multiset().remove(gx));
            assert(out@.to_multiset() =~= outold.to_multiset().insert(gx));
            assert(out@.to_multiset().add(v@.to_multiset()) =~= orig.to_multiset());
            assert forall|y: int| 0 <= y < v@.len() implies gx.potential_benefit >= (
            #[trigger] v@[y]).potential_benefit by {
                if y < mi {
                    assert(v@[y] == vold[y]);
                } else {
                    assert(v@[y] == vold[y + 1]);
                }
            }
        }
    }
    out
}

// ---------------------------------------------------------------------
// Network density.
// ---------------------------------------------------------------------

/// Network density in thousandths: the record count over the number of
/// unordered agent pairs; zero for one agent or none.
pub open spec fn density_milli(agents: int, rels: int) -> int {
    if agents > 1 {
        rels * 2000 / (agents * (agents - 1))
    } else {
        0
    }
}

/// Density at the extremes: a network of one agent or none has density
/// exactly zero, and a network holding one record per unordered pair of
/// agents has density exactly one.
pub proof fn law_network_density_extremes(agents: int, rels: int)
    ensures
        agents <= 1 ==> density_milli(agents, rels) == 0,
        agents > 1 && rels == agents * (agents - 1) / 2 ==> density_milli(agents, rels) == 1000,
{
    if agents > 1 && rels == agents * (agents - 1) / 2 {
        let a = agents;
        let h = a / 2;
        let p = a * (a - 1);
        assert(a * (a - 1) >= 2) by (nonlinear_arith)
            requires
                a > 1,
        ;
        vstd::arithmetic::div_mod::lemma_fundamental_div_mod(a, 2);
        if a % 2 == 0 {
            assert(p == (h * (a - 1)) * 2) by (nonlinear_arith)
                requires
                    p == a * (a - 1),
                    a == 2 * h,
            ;
            vstd::arithmetic::div_mod::lemma_mod_multiples_basic(h * (a - 1), 2);
        } else {
            assert(p == (a * h) * 2) by (nonlinear_arith)
                requires
                    p == a * (a - 1),
                    a - 1 == 2 * h,
            ;
            vstd::arithmetic::div_mod::lemma_mod_multiples_basic(a * h, 2);
        }
        assert(p % 2 == 0);
        vstd::arithmetic::div_mod::lemma_fundamental_div_mod(p, 2);
        assert(p == 2 * (p / 2));
        assert(rels * 2000 == p * 1000);
        vstd::arithmetic::div_mod::lemma_div_multiples_vanish(1000, p);
        assert((p * 1000) / p == 1000);
    }
}

} // verus!
