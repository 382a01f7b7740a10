//! Tests of the relationship store: strength changes, clamping,
//! promotion, dynamic strength and queries.

use social_engine::relationship_manager::{
    AgentEdgeList, AgentRelationship, RelationshipManager,
};
use social_engine::types::{ConnectionType, IntelligenceError, InteractionOutcome};

const T0: i64 = 1_700_000_000_000;
const DAY_MS: i64 = 86_400_000;

fn interaction(
    participants: Vec<u64>,
    label: &str,
    outcome: InteractionOutcome,
    ts: i64,
) -> social_engine::types::AgentInteraction {
    social_engine::types::AgentInteraction {
        id: 1,
        timestamp: ts,
        participants,
        interaction_type: label.to_string(),
        content: String::new(),
        outcome,
    }
}

#[test]
fn rejects_wrong_participant_count() {
    let mut m = RelationshipManager::new();
    let bad = interaction(vec![1], "collaboration", InteractionOutcome::Successful, T0);
    let err = m.update_relationship(&bad).unwrap_err();
    assert!(matches!(err, IntelligenceError::InvalidInteraction));
    assert_eq!(m.relationships.len(), 0);
    assert_eq!(m.connection_history.len(), 0);
    assert_eq!(
        err.message(),
        "interaction must have exactly 2 participants"
    );

    let bad3 = interaction(
        vec![1, 2, 3],
        "collaboration",
        InteractionOutcome::Successful,
        T0,
    );
    assert!(m.update_relationship(&bad3).is_err());
}

#[test]
fn strength_change_formula_exact_values() {
    let m = RelationshipManager::new();
    let cases: Vec<(&str, InteractionOutcome, i32)> = vec![
        ("collaboration", InteractionOutcome::Successful, 150),
        ("mentorship", InteractionOutcome::Successful, 130),
        ("competition", InteractionOutcome::Successful, 80),
        ("data_sharing", InteractionOutcome::Successful, 120),
        ("consultation", InteractionOutcome::Successful, 110),
        ("anything_else", InteractionOutcome::Successful, 100),
        ("collaboration", InteractionOutcome::Partial, 75),
        ("mentorship", InteractionOutcome::Partial, 65),
        ("collaboration", InteractionOutcome::Failed, -75),
        ("competition", InteractionOutcome::Failed, -40),
        ("collaboration", InteractionOutcome::Pending, 0),
    ];
    for (label, outcome, expected) in cases {
        let i = interaction(vec![1, 2], label, outcome, T0);
        assert_eq!(m.calculate_strength_change(&i), expected, "label {label}");
    }
}

#[test]
fn label_matching_ignores_ascii_case() {
    let m = RelationshipManager::new();
    for label in ["Collaboration", "COLLABORATION", "cOlLaBoRaTiOn"] {
        let i = interaction(vec![1, 2], label, InteractionOutcome::Successful, T0);
        assert_eq!(m.calculate_strength_change(&i), 150);
    }
    // a different word is no match, whatever its case
    let i = interaction(vec![1, 2], "collaborations", InteractionOutcome::Successful, T0);
    assert_eq!(m.calculate_strength_change(&i), 100);
}

#[test]
fn strength_is_clamped_to_unit_interval() {
    let mut m = RelationshipManager::new();
    // repeated failures drive the strength to the floor, never below
    for k in 0..5 {
        let i = interaction(
            vec![1, 2],
            "collaboration",
            InteractionOutcome::Failed,
            T0 + k,
        );
        let upd = m.update_relationship(&i).unwrap();
        assert!(upd.new_strength <= 1000);
    }
    let rels = m.get_agent_relationships(1);
    assert_eq!(rels[0].strength, 0);

    // repeated successes reach the ceiling, never above
    for k in 0..20 {
        let i = interaction(
            vec![1, 2],
            "collaboration",
            InteractionOutcome::Successful,
            T0 + 10 + k,
        );
        let upd = m.update_relationship(&i).unwrap();
        assert!(upd.new_strength <= 1000);
    }
    let rels = m.get_agent_relationships(1);
    assert_eq!(rels[0].strength, 1000);
}

#[test]
fn update_touches_owning_direction_only() {
    let mut m = RelationshipManager::new();
    let i = interaction(
        vec![1, 2],
        "collaboration",
        InteractionOutcome::Successful,
        T0,
    );
    m.update_relationship(&i).unwrap();
    // again, same direction
    let i2 = interaction(
        vec![1, 2],
        "collaboration",
        InteractionOutcome::Successful,
        T0 + 1,
    );
    m.update_relationship(&i2).unwrap();

    let forward = m.get_agent_relationships(1);
    let mirror = m.get_agent_relationships(2);
    assert_eq!(forward[0].strength, 400);
    assert_eq!(forward[0].interaction_count, 2);
    // the mirror record evolves only when named as the owning direction
    assert_eq!(mirror[0].strength, 100);
    assert_eq!(mirror[0].interaction_count, 0);
}

#[test]
fn connection_events_are_logged() {
    let mut m = RelationshipManager::new();
    let i = interaction(vec![7, 8], "mentorship", InteractionOutcome::Partial, T0);
    m.update_relationship(&i).unwrap();
    assert_eq!(m.connection_history.len(), 1);
    let ev = &m.connection_history[0];
    assert_eq!(ev.agent1_id, 7);
    assert_eq!(ev.agent2_id, 8);
    assert_eq!(ev.strength_change, 65);
    assert_eq!(ev.timestamp, T0);
    assert!(matches!(
        ev.event_type,
        social_engine::relationship_manager::ConnectionEventType::StrengthChanged
    ));
}

#[test]
fn promotion_map_fixed_points() {
    // kinds with no mapped promotion never change, however strong the
    // relationship grows
    let mut m = RelationshipManager::new();
    m.relationships.push(AgentEdgeList {
        agent_id: 1,
        edges: vec![AgentRelationship {
            id: 1,
            agent_id: 1,
            other_agent_id: 2,
            connection_type: ConnectionType::Friendship,
            strength: 950,
            established_at: T0,
            last_interaction: T0,
            interaction_count: 50,
        }],
    });
    let i = interaction(vec![1, 2], "x", InteractionOutcome::Successful, T0 + 1);
    let upd = m.update_relationship(&i).unwrap();
    assert!(matches!(upd.connection_type, ConnectionType::Friendship));
}

#[test]
fn promotion_requires_both_thresholds() {
    // strong but few interactions: no promotion
    let mut m = RelationshipManager::new();
    m.relationships.push(AgentEdgeList {
        agent_id: 1,
        edges: vec![AgentRelationship {
            id: 1,
            agent_id: 1,
            other_agent_id: 2,
            connection_type: ConnectionType::Professional,
            strength: 950,
            established_at: T0,
            last_interaction: T0,
            interaction_count: 3,
        }],
    });
    let i = interaction(vec![1, 2], "x", InteractionOutcome::Successful, T0 + 1);
    let upd = m.update_relationship(&i).unwrap();
    assert!(matches!(upd.connection_type, ConnectionType::Professional));

    // many interactions but weak: no promotion either
    let mut m2 = RelationshipManager::new();
    m2.relationships.push(AgentEdgeList {
        agent_id: 1,
        edges: vec![AgentRelationship {
            id: 1,
            agent_id: 1,
            other_agent_id: 2,
            connection_type: ConnectionType::Professional,
            strength: 300,
            established_at: T0,
            last_interaction: T0,
            interaction_count: 40,
        }],
    });
    let i2 = interaction(vec![1, 2], "x", InteractionOutcome::Successful, T0 + 1);
    let upd2 = m2.update_relationship(&i2).unwrap();
    assert!(matches!(upd2.connection_type, ConnectionType::Professional));

    // both thresholds crossed: Professional promotes to Friendship
    let mut m3 = RelationshipManager::new();
    m3.relationships.push(AgentEdgeList {
        agent_id: 1,
        edges: vec![AgentRelationship {
            id: 1,
            agent_id: 1,
            other_agent_id: 2,
            connection_type: ConnectionType::Professional,
            strength: 950,
            established_at: T0,
            last_interaction: T0,
            interaction_count: 40,
        }],
    });
    let i3 = interaction(vec![1, 2], "x", InteractionOutcome::Successful, T0 + 1);
    let upd3 = m3.update_relationship(&i3).unwrap();
    assert!(matches!(upd3.connection_type, ConnectionType::Friendship));
}

#[test]
fn dynamic_strength_formula() {
    let rel = AgentRelationship {
        id: 1,
        agent_id: 1,
        other_agent_id: 2,
        connection_type: ConnectionType::Friendship,
        strength: 500,
        established_at: T0,
        last_interaction: T0,
        interaction_count: 50,
    };
    // ten elapsed days: decay 0.9; 0.5 * 0.9 = 0.45; boost capped at 0.2
    // gives 0.65; Friendship modifier 1.2 gives 0.78
    assert_eq!(rel.calculate_dynamic_strength_at(T0 + 10 * DAY_MS), 780);
    // no elapsed time: no decay; (0.5 + 0.2) * 1.2 = 0.84
    assert_eq!(rel.calculate_dynamic_strength_at(T0), 840);
    // far in the past: decay floored at 0.5; (0.25 + 0.2) * 1.2 = 0.54
    assert_eq!(rel.calculate_dynamic_strength_at(T0 + 200 * DAY_MS), 540);
    // the ledger itself is untouched by reads
    assert_eq!(rel.strength, 500);
}

#[test]
fn dynamic_strength_recomputation_is_stable() {
    let rel = AgentRelationship {
        id: 1,
        agent_id: 1,
        other_agent_id: 2,
        connection_type: ConnectionType::Competition,
        strength: 700,
        established_at: T0,
        last_interaction: T0,
        interaction_count: 4,
    };
    // two back-to-back reads with no elapsed time agree
    let first = rel.calculate_dynamic_strength_at(T0 + 5);
    let second = rel.calculate_dynamic_strength_at(T0 + 5);
    assert_eq!(first, second);
    // 0.7 * 1.0 decay + 0.04 boost, times 0.4: 0.296
    assert_eq!(first, 296);
}

#[test]
fn self_interaction_keeps_two_records() {
    // an interaction naming the same agent twice creates both directions
    // in the agent's own list; the record created last absorbs it
    let mut m = RelationshipManager::new();
    let i = interaction(
        vec![9, 9],
        "collaboration",
        InteractionOutcome::Successful,
        T0,
    );
    let upd = m.update_relationship(&i).unwrap();
    assert_eq!(upd.old_strength, 100);
    assert_eq!(upd.new_strength, 250);
    let rels = m.get_agent_relationships(9);
    assert_eq!(rels.len(), 2);
    assert_eq!(rels[0].strength, 100);
    assert_eq!(rels[0].interaction_count, 0);
    assert_eq!(rels[1].strength, 250);
    assert_eq!(rels[1].interaction_count, 1);

    // a second such interaction finds the earliest record and updates it
    let i2 = interaction(
        vec![9, 9],
        "collaboration",
        InteractionOutcome::Successful,
        T0 + 1,
    );
    let upd2 = m.update_relationship(&i2).unwrap();
    assert_eq!(upd2.old_strength, 100);
    assert_eq!(upd2.new_strength, 250);
    let rels = m.get_agent_relationships(9);
    assert_eq!(rels.len(), 2);
    assert_eq!(rels[0].strength, 250);
    assert_eq!(rels[1].strength, 250);
}

#[test]
fn store_queries() {
    let mut m = RelationshipManager::new();
    let i1 = interaction(vec![1, 2], "x", InteractionOutcome::Successful, T0);
    let i2 = interaction(vec![3, 4], "x", InteractionOutcome::Pending, T0);
    m.update_relationship(&i1).unwrap();
    m.update_relationship(&i2).unwrap();
    assert_eq!(m.get_total_agents(), 4);
    assert_eq!(m.get_total_relationships(), 4);
    // strengths: 0.2, 0.1, 0.1, 0.1 -> mean 0.125
    assert_eq!(m.get_average_relationship_strength(), 125);
    assert!(m.get_agent_relationships(99).is_empty());
}
