//! Shared data types of the social engine: identifiers, interaction
//! records, connection kinds and the error taxonomy.

use vstd::prelude::*;

verus! {

/// An agent identifier.
pub type AgentId = u64;

/// Kind of a pairwise connection between two agents. The kind scales
/// scoring multipliers and can be promoted when a relationship grows
/// strong enough.
#[derive(Clone, Copy, Debug, PartialEq, Eq, Structural)]
pub enum ConnectionType {
    Collaboration,
    Mentorship,
    Competition,
    DataSharing,
    Learning,
    Consultation,
    Friendship,
    Professional,
}

/// Outcome of one interaction between agents.
#[derive(Clone, Copy, Debug, PartialEq, Eq, Structural)]
pub enum InteractionOutcome {
    Successful,
    Failed,
    Partial,
    Pending,
}

/// One interaction event handed to the relationship store: who took
/// part, what kind of interaction it was (a free-form label), and how
/// it ended. The timestamp is milliseconds.
pub struct AgentInteraction {
    pub id: u128,
    pub timestamp: i64,
    pub participants: Vec<AgentId>,
    pub interaction_type: String,
    pub content: String,
    pub outcome: InteractionOutcome,
}

/// Errors surfaced by the engine. Validation of the participant count is
/// the only failure: every other operation is total over its inputs.
#[derive(Clone, Copy, Debug, PartialEq, Eq, Structural)]
pub enum IntelligenceError {
    /// An interaction did not name exactly two participants.
    InvalidInteraction,
}

impl IntelligenceError {
    /// A human-readable description of the error.
    pub fn message(&self) -> (r: String)
        ensures
            r@ == "interaction must have exactly 2 participants"@,
    {
        "interaction must have exactly 2 participants".to_owned()
    }
}

/// Kinds of orchestrated social interactions.
#[derive(Clone, Copy, Debug, PartialEq, Eq, Structural)]
pub enum SocialInteractionType {
    Collaboration,
    Mentorship,
    KnowledgeSharing,
    ProblemSolving,
    CreativeSession,
    FormalMeeting,
    CasualChat,
    PeerReview,
    Teaching,
    Learning,
}

/// The label under which an interaction kind is submitted to the
/// relationship store.
pub open spec fn label_of_kind(k: SocialInteractionType) -> Seq<char> {
    match k {
        SocialInteractionType::Collaboration => "Collaboration"@,
        SocialInteractionType::Mentorship => "Mentorship"@,
        SocialInteractionType::KnowledgeSharing => "KnowledgeSharing"@,
        SocialInteractionType::ProblemSolving => "ProblemSolving"@,
        SocialInteractionType::CreativeSession => "CreativeSession"@,
        SocialInteractionType::FormalMeeting => "FormalMeeting"@,
        SocialInteractionType::CasualChat => "CasualChat"@,
        SocialInteractionType::PeerReview => "PeerReview"@,
        SocialInteractionType::Teaching => "Teaching"@,
        SocialInteractionType::Learning => "Learning"@,
    }
}

impl SocialInteractionType {
    /// The interaction-kind label carried on the interaction record.
    pub fn label(&self) -> (r: String)
        ensures
            r@ == label_of_kind(*self),
    {
        match self {
            SocialInteractionType::Collaboration => "Collaboration".to_owned(),
            SocialInteractionType::Mentorship => "Mentorship".to_owned(),
            SocialInteractionType::KnowledgeSharing => "KnowledgeSharing".to_owned(),
            SocialInteractionType::ProblemSolving => "ProblemSolving".to_owned(),
            SocialInteractionType::CreativeSession => "CreativeSession".to_owned(),
            SocialInteractionType::FormalMeeting => "FormalMeeting".to_owned(),
            SocialInteractionType::CasualChat => "CasualChat".to_owned(),
            SocialInteractionType::PeerReview => "PeerReview".to_owned(),
            SocialInteractionType::Teaching => "Teaching".to_owned(),
            SocialInteractionType::Learning => "Learning".to_owned(),
        }
    }
}

/// The lower-case label under which an interaction kind is displayed,
/// and which learning results quote.
pub open spec fn snake_label_of(k: SocialInteractionType) -> Seq<char> {
    match k {
        SocialInteractionType::Collaboration => "collaboration"@,
        SocialInteractionType::Mentorship => "mentorship"@,
        SocialInteractionType::KnowledgeSharing => "knowledge_sharing"@,
        SocialInteractionType::ProblemSolving => "problem_solving"@,
        SocialInteractionType::CreativeSession => "creative_session"@,
        SocialInteractionType::FormalMeeting => "formal_meeting"@,
        SocialInteractionType::CasualChat => "casual_chat"@,
        SocialInteractionType::PeerReview => "peer_review"@,
        SocialInteractionType::Teaching => "teaching"@,
        SocialInteractionType::Learning => "learning"@,
    }
}

impl SocialInteractionType {
    /// The lower-case display label of this interaction kind.
    pub fn display_label(&self) -> (r: String)
        ensures
            r@ == snake_label_of(*self),
    {
        match self {
            SocialInteractionType::Collaboration => "collaboration".to_owned(),
            SocialInteractionType::Mentorship => "mentorship".to_owned(),
            SocialInteractionType::KnowledgeSharing => "knowledge_sharing".to_owned(),
            SocialInteractionType::ProblemSolving => "problem_solving".to_owned(),
            SocialInteractionType::CreativeSession => "creative_session".to_owned(),
            SocialInteractionType::FormalMeeting => "formal_meeting".to_owned(),
            SocialInteractionType::CasualChat => "casual_chat".to_owned(),
            SocialInteractionType::PeerReview => "peer_review".to_owned(),
            SocialInteractionType::Teaching => "teaching".to_owned(),
            SocialInteractionType::Learning => "learning".to_owned(),
        }
    }
}

/// Clamp a score expressed in thousandths into the unit interval.
pub open spec fn clamp_milli(x: int) -> int {
    if x < 0 {
        0
    } else if x > 1000 {
        1000
    } else {
        x
    }
}

/// The clamped value always lies in the unit interval, whatever the
/// magnitude or sign of its argument.
pub proof fn law_clamp_in_unit_interval(x: int)
    ensures
        0 <= clamp_milli(x) <= 1000,
{
}

} // verus!
