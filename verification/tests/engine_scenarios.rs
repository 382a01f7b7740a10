//! End-to-end scenarios through the social orchestrator.

use social_engine::engine::SocialEngine;
use social_engine::relationship_manager::{AgentEdgeList, AgentRelationship};
use social_engine::types::{ConnectionType, SocialInteractionType};

const T0: i64 = 1_700_000_000_000;

#[test]
fn collaboration_interaction_full_pipeline() {
    let mut engine = SocialEngine::new();
    let x: u64 = 1;
    let y: u64 = 2;
    let res = engine
        .process_social_interaction_at(x, y, SocialInteractionType::Collaboration, "joint work", T0)
        .unwrap();

    // strength delta 0.10 * 1.5 = 0.15; new strength 0.1 + 0.15 = 0.25
    assert_eq!(res.relationship_update.old_strength, 100);
    assert_eq!(res.relationship_update.new_strength, 250);
    assert_eq!(res.relationship_update.agent1_id, x);
    assert_eq!(res.relationship_update.agent2_id, y);

    // learning effectiveness of a collaboration is 0.7
    assert_eq!(res.learning_result.learning_effectiveness, 700);
    assert_eq!(res.learning_result.relationship_impact, 350);

    // both agents' centrality grew by 0.10 * 0.5 = 0.05 and influence by 0.10
    let mx = engine.network_analyzer.get_agent_metrics(x);
    let my = engine.network_analyzer.get_agent_metrics(y);
    assert_eq!(mx.centrality, 50);
    assert_eq!(mx.influence_score, 100);
    assert_eq!(my.centrality, 50);
    assert_eq!(my.influence_score, 100);
    assert_eq!(mx.active_relationships, 1);

    // the network impact reports the source agent's real diff
    assert_eq!(res.network_impact.centrality_change, 50);
    assert_eq!(res.network_impact.influence_change, 100);

    // exactly one social event was appended
    assert_eq!(engine.social_events.len(), 1);
    assert_eq!(engine.social_events[0].source_agent, x);
    assert_eq!(engine.social_events[0].target_agent, y);
    assert_eq!(engine.social_events[0].relationship_impact, 150);
}

#[test]
fn first_interaction_creates_both_directions() {
    let mut engine = SocialEngine::new();
    let a: u64 = 10;
    let b: u64 = 20;
    engine
        .process_social_interaction_at(a, b, SocialInteractionType::CasualChat, "hello", T0)
        .unwrap();

    let forward = engine.relationship_manager.get_agent_relationships(a);
    let mirror = engine.relationship_manager.get_agent_relationships(b);
    assert_eq!(forward.len(), 1);
    assert_eq!(mirror.len(), 1);
    assert_eq!(forward[0].other_agent_id, b);
    assert_eq!(mirror[0].other_agent_id, a);

    // the mirror record keeps its starting values: strength 0.1,
    // Professional, count 0
    assert_eq!(mirror[0].strength, 100);
    assert_eq!(mirror[0].interaction_count, 0);
    assert!(matches!(
        mirror[0].connection_type,
        social_engine::types::ConnectionType::Professional
    ));

    // the owning record absorbed the one interaction: casual chat has no
    // modifier, so 0.1 + 0.1 = 0.2
    assert_eq!(forward[0].strength, 200);
    assert_eq!(forward[0].interaction_count, 1);
}

#[test]
fn eleven_mentorship_interactions_promote_once() {
    let mut engine = SocialEngine::new();
    let a: u64 = 1;
    let b: u64 = 2;
    // the pair starts out as mentor and mentee
    let seed = AgentRelationship {
        id: 7,
        agent_id: a,
        other_agent_id: b,
        connection_type: ConnectionType::Mentorship,
        strength: 100,
        established_at: T0,
        last_interaction: T0,
        interaction_count: 0,
    };
    let seed_back = AgentRelationship {
        id: 8,
        agent_id: b,
        other_agent_id: a,
        connection_type: ConnectionType::Mentorship,
        strength: 100,
        established_at: T0,
        last_interaction: T0,
        interaction_count: 0,
    };
    engine.relationship_manager.relationships.push(AgentEdgeList {
        agent_id: a,
        edges: vec![seed],
    });
    engine.relationship_manager.relationships.push(AgentEdgeList {
        agent_id: b,
        edges: vec![seed_back],
    });

    let mut last_kind = ConnectionType::Mentorship;
    for i in 0..11 {
        let res = engine
            .process_social_interaction_at(
                a,
                b,
                SocialInteractionType::Mentorship,
                "lesson",
                T0 + i,
            )
            .unwrap();
        last_kind = res.relationship_update.connection_type;
        if i < 10 {
            // count not yet above ten: the kind holds
            assert!(matches!(last_kind, ConnectionType::Mentorship));
        }
    }
    // after the 11th interaction (count 11 > 10, strength clamped at 1.0
    // > 0.9) the kind flips along the promotion map
    assert!(matches!(last_kind, ConnectionType::Collaboration));

    // a 12th interaction does not promote again: Collaboration has no
    // mapped successor
    let res = engine
        .process_social_interaction_at(a, b, SocialInteractionType::Mentorship, "lesson", T0 + 11)
        .unwrap();
    assert!(matches!(
        res.relationship_update.connection_type,
        ConnectionType::Collaboration
    ));
}

#[test]
fn wall_clock_pipeline_runs() {
    // the same pipeline driven by the wall clock: the identifiers come
    // from the random generator and the timestamps from the clock
    let mut engine = SocialEngine::new();
    let res = engine
        .process_social_interaction(1, 2, SocialInteractionType::Mentorship, "hello")
        .unwrap();
    assert_eq!(res.relationship_update.old_strength, 100);
    assert_eq!(res.relationship_update.new_strength, 230);
    assert_eq!(res.learning_result.learning_effectiveness, 900);
    assert_eq!(engine.social_events.len(), 1);
    // two fresh records drew distinct random identifiers
    let rels = engine.relationship_manager.get_agent_relationships(1);
    let back = engine.relationship_manager.get_agent_relationships(2);
    assert_ne!(rels[0].id, back[0].id);
    // the recorded timestamp is a plausible wall-clock reading: after
    // the start of 2020
    assert!(rels[0].last_interaction > 1_577_836_800_000);
    // a freshly touched relationship read off the wall clock decays
    // nothing yet: (0.23 + 0.01) * 0.9 for a Professional record
    assert_eq!(rels[0].calculate_dynamic_strength(), 216);
    let influence = engine.calculate_social_influence(1);
    assert!(influence <= 1000);
    let net = engine.get_agent_network(1);
    assert_eq!(net.agent_id, 1);
    assert_eq!(net.relationships.len(), 1);
}

#[test]
fn analytics_on_empty_network() {
    let engine = SocialEngine::new();
    let analytics = engine.get_network_analytics();
    assert_eq!(analytics.total_agents, 0);
    assert_eq!(analytics.total_relationships, 0);
    assert_eq!(analytics.network_density, 0);
    assert_eq!(analytics.learning_events, 0);
    assert_eq!(analytics.average_relationship_strength, 0);
    assert!(analytics.most_influential_agents.is_empty());
    assert!(analytics.collaboration_clusters.is_empty());
}

#[test]
fn analytics_after_interactions() {
    let mut engine = SocialEngine::new();
    engine
        .process_social_interaction_at(1, 2, SocialInteractionType::Collaboration, "c", T0)
        .unwrap();
    engine
        .process_social_interaction_at(2, 3, SocialInteractionType::Teaching, "t", T0 + 1)
        .unwrap();
    engine
        .process_social_interaction_at(1, 3, SocialInteractionType::Mentorship, "m", T0 + 2)
        .unwrap();

    let analytics = engine.get_network_analytics();
    assert_eq!(analytics.total_agents, 3);
    // each pair holds a record in both directions
    assert_eq!(analytics.total_relationships, 6);
    // density = 6 / (3 * 2 / 2) = 2.0: both directions count
    assert_eq!(analytics.network_density, 2000);
    assert_eq!(analytics.learning_events, 3);
    assert_eq!(analytics.most_influential_agents.len(), 3);
    // the ranking is sorted by influence, highest first
    let ranked = &analytics.most_influential_agents;
    assert!(ranked[0].influence_score >= ranked[1].influence_score);
    assert!(ranked[1].influence_score >= ranked[2].influence_score);
}

#[test]
fn social_influence_is_capped_at_one() {
    let mut engine = SocialEngine::new();
    // drive one agent's scores far up: many strong interactions
    for i in 0..30 {
        engine
            .process_social_interaction_at(
                1,
                2,
                SocialInteractionType::Collaboration,
                "c",
                T0 + i,
            )
            .unwrap();
    }
    let influence = engine.calculate_social_influence_at(1, T0 + 30);
    assert!(influence <= 1000);
    // relationship influence alone already exceeds the cap: strength 1.0
    // at multiplier 1.1, plus recent activity
    assert_eq!(influence, 1000);
}

#[test]
fn agent_network_read_model() {
    let mut engine = SocialEngine::new();
    engine
        .process_social_interaction_at(5, 6, SocialInteractionType::KnowledgeSharing, "k", T0)
        .unwrap();
    let net = engine.get_agent_network_at(5, T0);
    assert_eq!(net.agent_id, 5);
    assert_eq!(net.relationships.len(), 1);
    assert_eq!(net.learning_progress.total_learning_events, 1);
    assert_eq!(net.network_metrics.agent_id, 5);
    assert!(net.social_influence <= 1000);
    // strength 0.2 at multiplier 1.0 (Professional), plus centrality
    // 0.03 * 0.3, plus one recent event * 0.1
    assert_eq!(net.social_influence, 200 + 9 + 100);
}

#[test]
fn recommendations_are_sorted_by_benefit() {
    let mut engine = SocialEngine::new();
    // a strong collaboration edge for agent 1
    for i in 0..10 {
        engine
            .process_social_interaction_at(
                1,
                2,
                SocialInteractionType::Collaboration,
                "c",
                T0 + i,
            )
            .unwrap();
    }
    // promote the stored kind to Collaboration by seeding it directly
    {
        let lists = &mut engine.relationship_manager.relationships;
        for list in lists.iter_mut() {
            for e in list.edges.iter_mut() {
                e.connection_type = social_engine::types::ConnectionType::Collaboration;
            }
        }
    }
    // another agent with some influence for the new-connection stream
    engine
        .process_social_interaction_at(3, 4, SocialInteractionType::Mentorship, "m", T0 + 20)
        .unwrap();

    let recs = engine.get_social_recommendations(1);
    for w in recs.windows(2) {
        assert!(w[0].potential_benefit >= w[1].potential_benefit);
    }
    // all three streams are present and sorted by benefit: the most
    // influential other agent (agent 2 at 1.0), the collaboration with
    // agent 2 (strength 1.0, benefit 0.8), and the best past mentor
    // (agent 2 at effectiveness 0.7)
    assert_eq!(recs.len(), 3);
    assert!(matches!(
        recs[0].recommendation_type,
        social_engine::engine::SocialRecommendationType::NewConnection
    ));
    assert_eq!(recs[0].target_agent, 2);
    assert_eq!(recs[0].potential_benefit, 1000);
    assert!(matches!(
        recs[1].recommendation_type,
        social_engine::engine::SocialRecommendationType::Collaboration
    ));
    assert_eq!(recs[1].target_agent, 2);
    assert_eq!(recs[1].potential_benefit, 800);
    assert_eq!(recs[1].confidence, 850);
    assert!(matches!(
        recs[2].recommendation_type,
        social_engine::engine::SocialRecommendationType::LearningOpportunity
    ));
    assert_eq!(recs[2].target_agent, 2);
    assert_eq!(recs[2].potential_benefit, 700);
}
