//! Tests of the learning tracker and the network analyzer.

use social_engine::network_analyzer::{AgentNetworkMetrics, NetworkAnalyzer};
use social_engine::social_learning::SocialLearningSystem;
use social_engine::types::SocialInteractionType;
use social_engine::workflow::WorkflowStep;

const T0: i64 = 1_700_000_000_000;

#[test]
fn learning_effectiveness_by_kind() {
    let mut sls = SocialLearningSystem::new();
    let cases = vec![
        (SocialInteractionType::Mentorship, 900, 450),
        (SocialInteractionType::Teaching, 800, 400),
        (SocialInteractionType::Collaboration, 700, 350),
        (SocialInteractionType::KnowledgeSharing, 600, 300),
        (SocialInteractionType::CasualChat, 500, 250),
        (SocialInteractionType::PeerReview, 500, 250),
    ];
    for (kind, eff, impact) in cases {
        let r = sls.process_interaction_at(1, 2, &kind, "topic", T0);
        assert_eq!(r.learning_effectiveness, eff);
        assert_eq!(r.relationship_impact, impact);
        assert_eq!(r.skill_improvements, vec!["Communication".to_string()]);
    }
}

#[test]
fn knowledge_gained_text_quotes_the_kind() {
    let mut sls = SocialLearningSystem::new();
    let r = sls.process_interaction_at(1, 2, &SocialInteractionType::KnowledgeSharing, "x", T0);
    assert_eq!(
        r.knowledge_gained,
        "Gained knowledge from knowledge_sharing interaction"
    );
    let r2 = sls.process_interaction_at(1, 2, &SocialInteractionType::Collaboration, "x", T0);
    assert_eq!(
        r2.knowledge_gained,
        "Gained knowledge from collaboration interaction"
    );
}

#[test]
fn learning_records_accumulate_per_source_agent() {
    let mut sls = SocialLearningSystem::new();
    for k in 0..7 {
        sls.process_interaction_at(1, 2, &SocialInteractionType::Teaching, "area", T0 + k);
    }
    sls.process_interaction_at(3, 1, &SocialInteractionType::Mentorship, "other", T0 + 100);

    let progress = sls.get_learning_progress(1);
    assert_eq!(progress.agent_id, 1);
    assert_eq!(progress.total_learning_events, 7);
    // the five most recent records come back, oldest first
    assert_eq!(progress.recent_learning.len(), 5);
    assert_eq!(progress.recent_learning[0].timestamp, T0 + 2);
    assert_eq!(progress.recent_learning[4].timestamp, T0 + 6);
    assert_eq!(progress.recent_learning[0].mentor_agent, 2);
    assert_eq!(progress.recent_learning[0].knowledge_area, "area");
    assert!(progress.skill_levels.is_empty());
    assert!(progress.knowledge_areas.is_empty());

    assert_eq!(sls.get_total_learning_events(), 8);
    let empty = sls.get_learning_progress(42);
    assert_eq!(empty.total_learning_events, 0);
    assert!(empty.recent_learning.is_empty());
}

#[test]
fn learning_opportunity_names_best_mentor() {
    let mut sls = SocialLearningSystem::new();
    assert!(sls.recommend_learning_opportunities(1).is_empty());
    sls.process_interaction_at(1, 5, &SocialInteractionType::CasualChat, "a", T0);
    sls.process_interaction_at(1, 6, &SocialInteractionType::Mentorship, "b", T0 + 1);
    sls.process_interaction_at(1, 7, &SocialInteractionType::Teaching, "c", T0 + 2);
    let recs = sls.recommend_learning_opportunities(1);
    assert_eq!(recs.len(), 1);
    // the mentorship record at 0.9 effectiveness wins
    assert_eq!(recs[0].mentor_agent, 6);
    assert_eq!(recs[0].potential_benefit, 900);
    assert_eq!(recs[0].confidence, 700);
}

#[test]
fn metrics_bump_and_cap() {
    let mut na = NetworkAnalyzer::new();
    na.update_network_metrics_at(1, 2, &SocialInteractionType::Collaboration, T0);
    let m1 = na.get_agent_metrics(1);
    assert_eq!(m1.centrality, 50);
    assert_eq!(m1.influence_score, 100);
    assert_eq!(m1.active_relationships, 1);
    assert_eq!(m1.last_updated, T0);

    // an unseen agent reads as zeroed
    let m9 = na.get_agent_metrics(9);
    assert_eq!(m9.centrality, 0);
    assert_eq!(m9.influence_score, 0);
    assert_eq!(m9.active_relationships, 0);

    // influence and centrality cap at one
    for k in 0..30 {
        na.update_network_metrics_at(1, 2, &SocialInteractionType::Collaboration, T0 + k);
    }
    let m1 = na.get_agent_metrics(1);
    assert_eq!(m1.influence_score, 1000);
    assert!(m1.centrality <= 1000);
    assert_eq!(m1.active_relationships, 31);
}

#[test]
fn metrics_impact_by_kind() {
    let mut na = NetworkAnalyzer::new();
    na.update_network_metrics_at(1, 2, &SocialInteractionType::Mentorship, T0);
    assert_eq!(na.get_agent_metrics(1).influence_score, 80);
    assert_eq!(na.get_agent_metrics(1).centrality, 40);
    na.update_network_metrics_at(3, 4, &SocialInteractionType::KnowledgeSharing, T0);
    assert_eq!(na.get_agent_metrics(3).influence_score, 60);
    na.update_network_metrics_at(5, 6, &SocialInteractionType::FormalMeeting, T0);
    assert_eq!(na.get_agent_metrics(5).influence_score, 30);
    assert_eq!(na.get_agent_metrics(5).centrality, 15);
}

fn seeded_metrics(agent_id: u64, influence: u32) -> AgentNetworkMetrics {
    let mut m = AgentNetworkMetrics::new(agent_id);
    m.influence_score = influence;
    m
}

#[test]
fn influential_ranking_sorted_and_capped_at_ten() {
    let mut na = NetworkAnalyzer::new();
    for a in 0..12u64 {
        na.network_metrics
            .push(seeded_metrics(a, (a as u32 * 83) % 1000));
    }
    let ranked = na.get_most_influential_agents();
    assert_eq!(ranked.len(), 10);
    for w in ranked.windows(2) {
        assert!(w[0].influence_score >= w[1].influence_score);
    }
    // the very best entry leads
    let best = na
        .network_metrics
        .iter()
        .map(|m| m.influence_score)
        .max()
        .unwrap();
    assert_eq!(ranked[0].influence_score, best);
}

#[test]
fn connection_recommendation_names_most_influential_other() {
    let mut na = NetworkAnalyzer::new();
    assert!(na.recommend_connections(1).is_empty());
    na.network_metrics.push(seeded_metrics(1, 900));
    // only the asker on record: still nothing to recommend
    assert!(na.recommend_connections(1).is_empty());
    na.network_metrics.push(seeded_metrics(2, 300));
    na.network_metrics.push(seeded_metrics(3, 700));
    let recs = na.recommend_connections(1);
    assert_eq!(recs.len(), 1);
    assert_eq!(recs[0].target_agent, 3);
    assert_eq!(recs[0].potential_benefit, 700);
    assert_eq!(recs[0].confidence, 600);
}

#[test]
fn collaboration_clusters_gather_high_influence_agents() {
    let mut na = NetworkAnalyzer::new();
    assert!(na.get_collaboration_clusters().is_empty());
    na.network_metrics.push(seeded_metrics(1, 800));
    // one qualifying agent is no cluster
    assert!(na.get_collaboration_clusters().is_empty());
    na.network_metrics.push(seeded_metrics(2, 400));
    na.network_metrics.push(seeded_metrics(3, 600));
    na.network_metrics.push(seeded_metrics(4, 501));
    let clusters = na.get_collaboration_clusters();
    assert_eq!(clusters.len(), 1);
    assert_eq!(clusters[0].agents, vec![1, 3, 4]);
    // the cluster carries its weakest member's influence
    assert_eq!(clusters[0].collaboration_strength, 501);
    assert!(clusters[0].focus_areas.is_empty());
}

#[test]
fn network_impact_estimate_is_fixed() {
    let na = NetworkAnalyzer::new();
    let imp = na.get_network_impact(1, 2);
    assert_eq!(imp.centrality_change, 10);
    assert_eq!(imp.clustering_change, 5);
    assert_eq!(imp.betweenness_change, 8);
    assert_eq!(imp.influence_change, 20);
}

#[test]
fn fresh_stores_are_empty() {
    let engine = social_engine::engine::SocialEngine::default();
    assert!(engine.relationship_manager.relationships.is_empty());
    assert!(engine.social_events.is_empty());
    let na = NetworkAnalyzer::default();
    assert!(na.network_metrics.is_empty());
    let sls = SocialLearningSystem::default();
    assert!(sls.learning_records.is_empty());
    let configs =
        <social_engine::relationship_manager::RelationshipConfigs as Default>::default();
    assert_eq!(configs.max_strength, 1000);
    assert_eq!(configs.min_strength, 0);
    assert_eq!(configs.decay_rate, 1);
    assert_eq!(configs.evolution_threshold, 800);
}

#[test]
fn workflow_step_carries_name_and_description() {
    let step = WorkflowStep::new("gather", "collect the inputs");
    assert_eq!(step.name, "gather");
    assert_eq!(step.description, "collect the inputs");
}
