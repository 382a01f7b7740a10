//! The learning tracker: per-agent learning records and transfer
//! effectiveness.
//!
//! Effectiveness scores are carried in thousandths (`1000` is `1.0`);
//! timestamps are milliseconds.

use vstd::prelude::*;
use vstd::string::StringExecFns;

use crate::clock::now_millis;
use crate::ids::fresh_id;
use crate::search::{first_idx, lemma_first_idx, lemma_first_idx_none, lemma_first_idx_of};
use crate::types::{snake_label_of, AgentId, SocialInteractionType};

verus! {

/// Kinds of learning an interaction can carry.
#[derive(Clone, Copy, Debug, PartialEq, Eq, Structural)]
pub enum LearningType {
    SkillDevelopment,
    KnowledgeTransfer,
    ExperienceSharing,
    ProblemSolving,
}

/// One learning event: who learned, from whom, about what, how
/// effectively, and when.
#[derive(Debug)]
pub struct LearningRecord {
    pub id: u128,
    pub agent_id: AgentId,
    pub mentor_agent: AgentId,
    pub knowledge_area: String,
    pub learning_type: LearningType,
    /// Effectiveness in thousandths.
    pub effectiveness: u32,
    pub timestamp: i64,
}

/// Two learning records carry the same data.
pub open spec fn record_like(x: LearningRecord, y: LearningRecord) -> bool {
    &&& x.id == y.id
    &&& x.agent_id == y.agent_id
    &&& x.mentor_agent == y.mentor_agent
    &&& x.knowledge_area@ == y.knowledge_area@
    &&& x.learning_type == y.learning_type
    &&& x.effectiveness == y.effectiveness
    &&& x.timestamp == y.timestamp
}

impl Clone for LearningRecord {
    /// A copy that carries the same data.
    fn clone(&self) -> (r: Self)
        ensures
            record_like(*self, r),
    {
        LearningRecord {
            id: self.id,
            agent_id: self.agent_id,
            mentor_agent: self.mentor_agent,
            knowledge_area: self.knowledge_area.clone(),
            learning_type: self.learning_type,
            effectiveness: self.effectiveness,
            timestamp: self.timestamp,
        }
    }
}

/// The outcome of processing one learning interaction.
#[derive(Debug)]
pub struct SocialLearningResult {
    /// Effectiveness in thousandths.
    pub learning_effectiveness: u32,
    pub knowledge_gained: String,
    pub skill_improvements: Vec<String>,
    /// Estimated relationship impact in thousandths.
    pub relationship_impact: u32,
}

/// Two learning results carry the same data.
pub open spec fn result_like(x: SocialLearningResult, y: SocialLearningResult) -> bool {
    &&& x.learning_effectiveness == y.learning_effectiveness
    &&& x.knowledge_gained@ == y.knowledge_gained@
    &&& x.skill_improvements@.len() == y.skill_improvements@.len()
    &&& forall|i: int|
        0 <= i < x.skill_improvements@.len() ==> (#[trigger] x.skill_improvements@[i])@
            == y.skill_improvements@[i]@
    &&& x.relationship_impact == y.relationship_impact
}

impl Clone for SocialLearningResult {
    /// A copy that carries the same data.
    fn clone(&self) -> (r: Self)
        ensures
            result_like(*self, r),
    {
        let mut skills: Vec<String> = Vec::new();
        let n = self.skill_improvements.len();
        let mut i: usize = 0;
        while i < n
            invariant
                i <= n,
                n == self.skill_improvements@.len(),
                skills@.len() == i,
                forall|k: int|
                    0 <= k < i ==> (#[trigger] skills@[k])@ == self.skill_improvements@[k]@,
            decreases n - i,
        {
            skills.push(self.skill_improvements[i].clone());
            i = i + 1;
        }
        SocialLearningResult {
            learning_effectiveness: self.learning_effectiveness,
            knowledge_gained: self.knowledge_gained.clone(),
            skill_improvements: skills,
            relationship_impact: self.relationship_impact,
        }
    }
}

/// An agent's learning read model: how many events it has, and its most
/// recent records. Skill levels and knowledge areas are carried but not
/// yet populated.
#[derive(Debug)]
pub struct LearningProgress {
    pub agent_id: AgentId,
    pub total_learning_events: usize,
    pub skill_levels: Vec<(String, u32)>,
    pub knowledge_areas: Vec<String>,
    pub recent_learning: Vec<LearningRecord>,
}

/// A recommended learning opportunity.
#[derive(Debug)]
pub struct LearningOpportunity {
    pub mentor_agent: AgentId,
    pub reason: String,
    /// Benefit estimate in thousandths.
    pub potential_benefit: u32,
    /// Confidence in thousandths.
    pub confidence: u32,
}

/// A node of the knowledge graph.
#[derive(Debug, Clone)]
pub struct KnowledgeNode {
    pub id: String,
    pub knowledge_area: String,
    /// Expertise in thousandths.
    pub expertise_level: u32,
    pub associated_agents: Vec<AgentId>,
}

/// An edge of the knowledge graph.
#[derive(Debug, Clone)]
pub struct KnowledgeConnection {
    pub from_node: String,
    pub to_node: String,
    /// Connection strength in thousandths.
    pub connection_strength: u32,
    pub connection_type: String,
}

/// A graph of knowledge areas and how they relate.
#[derive(Debug)]
pub struct KnowledgeGraph {
    pub nodes: Vec<KnowledgeNode>,
    pub connections: Vec<KnowledgeConnection>,
}

impl KnowledgeGraph {
    /// A fresh, empty knowledge graph.
    pub fn new() -> (r: Self)
        ensures
            r.nodes@.len() == 0,
            r.connections@.len() == 0,
    {
        KnowledgeGraph { nodes: Vec::new(), connections: Vec::new() }
    }
}

/// All learning records of one agent.
#[derive(Debug)]
pub struct AgentLearningList {
    pub agent_id: AgentId,
    pub records: Vec<LearningRecord>,
}

/// The learning tracker: a ledger of per-agent learning records and a
/// knowledge graph.
#[derive(Debug)]
pub struct SocialLearningSystem {
    pub learning_records: Vec<AgentLearningList>,
    pub knowledge_graph: KnowledgeGraph,
}

// ---------------------------------------------------------------------
// The effectiveness formula and the learning-kind mapping.
// ---------------------------------------------------------------------

/// Learning effectiveness of an interaction kind, in thousandths. The
/// formula reads the kind alone, not the participants' history.
pub open spec fn effectiveness_of(k: SocialInteractionType) -> int {
    match k {
        SocialInteractionType::Mentorship => 900,
        SocialInteractionType::Teaching => 800,
        SocialInteractionType::Collaboration => 700,
        SocialInteractionType::KnowledgeSharing => 600,
        _ => 500,
    }
}

/// The kind of learning an interaction kind carries: mentorship develops
/// skills; teaching, knowledge sharing and learning transfer knowledge;
/// problem solving stays problem solving; everything else shares
/// experience.
pub open spec fn learning_kind_of(k: SocialInteractionType) -> LearningType {
    match k {
        SocialInteractionType::Mentorship => LearningType::SkillDevelopment,
        SocialInteractionType::Teaching => LearningType::KnowledgeTransfer,
        SocialInteractionType::KnowledgeSharing => LearningType::KnowledgeTransfer,
        SocialInteractionType::Learning => LearningType::KnowledgeTransfer,
        SocialInteractionType::ProblemSolving => LearningType::ProblemSolving,
        _ => LearningType::ExperienceSharing,
    }
}

/// The text a learning result quotes for an interaction kind.
pub open spec fn knowledge_gained_text(k: SocialInteractionType) -> Seq<char> {
    "Gained knowledge from "@ + snake_label_of(k) + " interaction"@
}

// ---------------------------------------------------------------------
// The ledger model.
// ---------------------------------------------------------------------

/// The position of agent `a`'s record list, or `-1` when the agent has
/// no records yet.
pub open spec fn learning_idx(s: Seq<AgentLearningList>, a: AgentId) -> int {
    first_idx(s, |l: AgentLearningList| l.agent_id == a)
}

/// Whether agent `a` has any learning records.
pub open spec fn has_records_for(s: Seq<AgentLearningList>, a: AgentId) -> bool {
    learning_idx(s, a) >= 0
}

/// The learning records of agent `a`, oldest first; empty if none.
pub open spec fn records_of(s: Seq<AgentLearningList>, a: AgentId) -> Seq<LearningRecord> {
    if has_records_for(s, a) {
        s[learning_idx(s, a)].records@
    } else {
        Seq::empty()
    }
}

/// Two record lists carry the same data.
pub open spec fn list_eq(x: AgentLearningList, y: AgentLearningList) -> bool {
    x.agent_id == y.agent_id && x.records@ == y.records@
}

/// The ledger `t` is the ledger `s` with record `rec` appended to
/// agent `a`'s list; the list itself is created when `a` had none.
pub open spec fn record_appended(
    s: Seq<AgentLearningList>,
    t: Seq<AgentLearningList>,
    a: AgentId,
    rec: LearningRecord,
) -> bool {
    if has_records_for(s, a) {
        let i = learning_idx(s, a);
        &&& t.len() == s.len()
        &&& forall|k: int| 0 <= k < s.len() && k != i ==> list_eq(#[trigger] t[k], s[k])
        &&& t[i].agent_id == a
        &&& t[i].records@ == s[i].records@.push(rec)
    } else {
        &&& t.len() == s.len() + 1
        &&& forall|k: int| 0 <= k < s.len() ==> list_eq(#[trigger] t[k], s[k])
        &&& t[s.len() as int].agent_id == a
        &&& t[s.len() as int].records@ == seq![rec]
    }
}

/// The number of learning records in the whole ledger.
pub open spec fn total_records(s: Seq<AgentLearningList>) -> int
    decreases s.len(),
{
    if s.len() == 0 {
        0
    } else {
        total_records(s.drop_last()) + s.last().records@.len()
    }
}

/// Everything one processed learning interaction does: one record with
/// the interaction's data is appended for the source agent, naming the
/// target as mentor, and the returned result carries the kind's
/// effectiveness, the knowledge-gained text, one skill improvement, and
/// a relationship-impact estimate of half the effectiveness.
pub open spec fn learning_processed(
    s: Seq<AgentLearningList>,
    t: Seq<AgentLearningList>,
    source: AgentId,
    target: AgentId,
    kind: SocialInteractionType,
    context: Seq<char>,
    ts: i64,
    r: SocialLearningResult,
) -> bool {
    &&& exists|rec: LearningRecord|
        {
            &&& #[trigger] record_appended(s, t, source, rec)
            &&& rec.agent_id == source
            &&& rec.mentor_agent == target
            &&& rec.knowledge_area@ == context
            &&& rec.learning_type == learning_kind_of(kind)
            &&& rec.effectiveness as int == effectiveness_of(kind)
            &&& rec.timestamp == ts
        }
    &&& r.learning_effectiveness as int == effectiveness_of(kind)
    &&& r.knowledge_gained@ == knowledge_gained_text(kind)
    &&& r.skill_improvements@.len() == 1
    &&& r.skill_improvements@[0]@ == "Communication"@
    &&& r.relationship_impact as int == effectiveness_of(kind) / 2
}

/// The position of the record `recommend_learning_opportunities` picks:
/// the earliest record whose effectiveness no other record exceeds.
pub open spec fn best_record_idx(recs: Seq<LearningRecord>) -> int {
    first_idx(
        recs,
        |x: LearningRecord|
            forall|m: int|
                0 <= m < recs.len() ==> (#[trigger] recs[m]).effectiveness <= x.effectiveness,
    )
}

/// A valid learning read model of agent `a` over the ledger `s`: the
/// agent's event count and copies of its up-to-five most recent records,
/// oldest first; skill levels and knowledge areas empty.
pub open spec fn progress_like(s: Seq<AgentLearningList>, a: AgentId, p: LearningProgress) -> bool {
    let recs = records_of(s, a);
    let k = if recs.len() <= 5 {
        recs.len() as int
    } else {
        5
    };
    &&& p.agent_id == a
    &&& p.total_learning_events == recs.len()
    &&& p.skill_levels@.len() == 0
    &&& p.knowledge_areas@.len() == 0
    &&& p.recent_learning@.len() == k
    &&& forall|m: int|
        0 <= m < k ==> record_like(recs[recs.len() - k + m], #[trigger] p.recent_learning@[m])
}

/// The valid learning-opportunity list for agent `a` over the ledger
/// `s`: the mentor of the agent's most effective record so far, or
/// nothing when the agent has no records.
pub open spec fn learning_recs_ok(
    s: Seq<AgentLearningList>,
    a: AgentId,
    r: Seq<LearningOpportunity>,
) -> bool {
    let recs = records_of(s, a);
    if recs.len() == 0 {
        r.len() == 0
    } else {
        let b = best_record_idx(recs);
        &&& r.len() == 1
        &&& 0 <= b < recs.len()
        &&& r[0].mentor_agent == recs[b].mentor_agent
        &&& r[0].potential_benefit == recs[b].effectiveness
        &&& r[0].confidence == 700
        &&& r[0].reason@ == "most effective past mentor"@
    }
}

impl SocialLearningSystem {
    /// Well-formedness of the ledger: each agent has at most one record
    /// list, and every record sits in the list of the agent who learned.
    pub open spec fn wf(self) -> bool {
        let s = self.learning_records@;
        &&& forall|i: int, j: int|
            0 <= i < j < s.len() ==> (#[trigger] s[i]).agent_id != (#[trigger] s[j]).agent_id
        &&& forall|i: int, k: int|
            0 <= i < s.len() && 0 <= k < (#[trigger] s[i]).records@.len() ==> (#[trigger] s[i].records@[k]).agent_id
                == s[i].agent_id
    }

    /// A fresh, empty learning tracker.
    pub fn new() -> (r: Self)
        ensures
            r.wf(),
            r.learning_records@.len() == 0,
    {
        SocialLearningSystem { learning_records: Vec::new(), knowledge_graph: KnowledgeGraph::new() }
    }

    /// The learning effectiveness of one interaction, in thousandths.
    /// The participants are accepted but do not influence the value: the
    /// formula reads the interaction kind alone.
    fn calculate_learning_effectiveness(
        &self,
        _source_agent: AgentId,
        _target_agent: AgentId,
        interaction_type: &SocialInteractionType,
    ) -> (r: u32)
        ensures
            r as int == effectiveness_of(*interaction_type),
    {
        match interaction_type {
            SocialInteractionType::Mentorship => 900,
            SocialInteractionType::Teaching => 800,
            SocialInteractionType::Collaboration => 700,
            SocialInteractionType::KnowledgeSharing => 600,
            _ => 500,
        }
    }

    /// Process one learning interaction at time `ts` (milliseconds):
    /// append a learning record for the source agent and return the
    /// learning result.
    pub fn process_interaction_at(
        &mut self,
        source_agent: AgentId,
        target_agent: AgentId,
        interaction_type: &SocialInteractionType,
        context: &str,
        ts: i64,
    ) -> (r: SocialLearningResult)
        requires
            old(self).wf(),
        ensures
            final(self).wf(),
            learning_processed(
                old(self).learning_records@,
                final(self).learning_records@,
                source_agent,
                target_agent,
                *interaction_type,
                context@,
                ts,
                r,
            ),
    {
        let effectiveness = self.calculate_learning_effectiveness(
            source_agent,
            target_agent,
            interaction_type,
        );
        let kind: LearningType = match interaction_type {
            SocialInteractionType::Mentorship => LearningType::SkillDevelopment,
            SocialInteractionType::Teaching => LearningType::KnowledgeTransfer,
            SocialInteractionType::KnowledgeSharing => LearningType::KnowledgeTransfer,
            SocialInteractionType::Learning => LearningType::KnowledgeTransfer,
            SocialInteractionType::ProblemSolving => LearningType::ProblemSolving,
            _ => LearningType::ExperienceSharing,
        };
        let rec = LearningRecord {
            id: fresh_id(),
            agent_id: source_agent,
            mentor_agent: target_agent,
            knowledge_area: context.to_owned(),
            learning_type: kind,
            effectiveness,
            timestamp: ts,
        };
        let ghost grec = rec;
        push_record(&mut self.learning_records, source_agent, rec);
        proof {
            assert(record_appended(
                old(self).learning_records@,
                self.learning_records@,
                source_agent,
                grec,
            ));
        }
        let mut knowledge_gained = "Gained knowledge from ".to_owned();
        let label = interaction_type.display_label();
        knowledge_gained.append(label.as_str());
        knowledge_gained.append(" interaction");
        let mut skill_improvements: Vec<String> = Vec::new();
        skill_improvements.push("Communication".to_owned());
        SocialLearningResult {
            learning_effectiveness: effectiveness,
            knowledge_gained,
            skill_improvements,
            relationship_impact: effectiveness / 2,
        }
    }

    /// Process one learning interaction, read off the wall clock. The
    /// record's timestamp is whatever the clock handed back; everything
    /// else is as `process_interaction_at` states.
    pub fn process_interaction(
        &mut self,
        source_agent: AgentId,
        target_agent: AgentId,
        interaction_type: &SocialInteractionType,
        context: &str,
    ) -> (r: SocialLearningResult)
        requires
            old(self).wf(),
        ensures
            final(self).wf(),
            exists|ts: i64|
                #[trigger] learning_processed(
                    old(self).learning_records@,
                    final(self).learning_records@,
                    source_agent,
                    target_agent,
                    *interaction_type,
                    context@,
                    ts,
                    r,
                ),
    {
        let ts = now_millis();
        let r = self.process_interaction_at(source_agent, target_agent, interaction_type, context, ts);
        proof {
            assert(learning_processed(
                old(self).learning_records@,
                self.learning_records@,
                source_agent,
                target_agent,
                *interaction_type,
                context@,
                ts,
                r,
            ));
        }
        r
    }

    /// The learning read model of one agent: its event count and copies
    /// of its five most recent records, oldest first. Skill levels and
    /// knowledge areas are not yet populated and come back empty.
    pub fn get_learning_progress(&self, agent_id: AgentId) -> (r: LearningProgress)
        ensures
            progress_like(self.learning_records@, agent_id, r),
    {
        match find_learning_list(&self.learning_records, agent_id) {
            Some(i) => {
                let records = &self.learning_records[i].records;
                let n = records.len();
                let start = if n <= 5 {
                    0
                } else {
                    n - 5
                };
                let mut recent: Vec<LearningRecord> = Vec::new();
                let mut m: usize = start;
                while m < n
                    invariant
                        start <= m <= n,
                        n == records@.len(),
                        recent@.len() == m - start,
                        forall|q: int|
                            0 <= q < m - start ==> record_like(
                                records@[start + q],
                                #[trigger] recent@[q],
                            ),
                    decreases n - m,
                {
                    recent.push(records[m].clone());
                    m = m + 1;
                }
                LearningProgress {
                    agent_id,
                    total_learning_events: n,
                    skill_levels: Vec::new(),
                    knowledge_areas: Vec::new(),
                    recent_learning: recent,
                }
            },
            None => LearningProgress {
                agent_id,
                total_learning_events: 0,
                skill_levels: Vec::new(),
                knowledge_areas: Vec::new(),
                recent_learning: Vec::new(),
            },
        }
    }

    /// How many learning events the whole ledger holds; capped at the
    /// machine limit.
    pub fn get_total_learning_events(&self) -> (r: usize)
        ensures
            r as int == if total_records(self.learning_records@) <= usize::MAX as int {
                total_records(self.learning_records@)
            } else {
                usize::MAX as int
            },
    {
        let s = &self.learning_records;
        let n = s.len();
        let mut acc: u128 = 0;
        let mut i: usize = 0;
        while i < n
            invariant
                i <= n,
                n == s@.len(),
                acc == total_records(s@.take(i as int)),
                acc <= (i as int) * (usize::MAX as int),
            decreases n - i,
        {
            proof {
                assert(s@.take(i as int + 1).drop_last() =~= s@.take(i as int));
                assert(s@.take(i as int + 1).last() == s@[i as int]);
            }
            acc = acc + s[i].records.len() as u128;
            i = i + 1;
        }
        proof {
            assert(s@.take(n as int) =~= s@);
        }
        if acc > usize::MAX as u128 {
            usize::MAX
        } else {
            acc as usize
        }
    }

    /// Recommend learning opportunities for an agent: the mentor of the
    /// agent's most effective learning record so far — the earliest such
    /// record among ties — with the record's effectiveness as the
    /// benefit estimate and a fixed confidence. An agent without records
    /// gets no recommendation.
    pub fn recommend_learning_opportunities(&self, agent_id: AgentId) -> (r: Vec<
        LearningOpportunity,
    >)
        ensures
            learning_recs_ok(self.learning_records@, agent_id, r@),
    {
        let mut out: Vec<LearningOpportunity> = Vec::new();
        match find_learning_list(&self.learning_records, agent_id) {
            Some(i) => {
                let records = &self.learning_records[i].records;
                let n = records.len();
                if n == 0 {
                    return out;
                }
                let mut best: usize = 0;
                let mut m: usize = 1;
                while m < n
                    invariant
                        1 <= m <= n,
                        best < m,
                        n == records@.len(),
                        forall|q: int|
                            0 <= q < m ==> (#[trigger] records@[q]).effectiveness
                                <= records@[best as int].effectiveness,
                        forall|q: int|
                            0 <= q < best ==> (#[trigger] records@[q]).effectiveness
                                < records@[best as int].effectiveness,
                    decreases n - m,
                {
                    if records[m].effectiveness > records[best].effectiveness {
                        best = m;
                    }
                    m = m + 1;
                }
                proof {
                    let recs = records@;
                    let p = |x: LearningRecord|
                        forall|q: int|
                            0 <= q < recs.len() ==> (#[trigger] recs[q]).effectiveness
                                <= x.effectiveness;
                    assert(p(recs[best as int]));
                    assert forall|k: int| 0 <= k < best implies !p(recs[k]) by {
                        assert(recs[best as int].effectiveness > recs[k].effectiveness);
                    }
                    lemma_first_idx_of(recs, p, best as int);
                }
                out.push(LearningOpportunity {
                    mentor_agent: records[best].mentor_agent,
                    reason: "most effective past mentor".to_owned(),
                    potential_benefit: records[best].effectiveness,
                    confidence: 700,
                });
                out
            },
            None => out,
        }
    }
}

impl Default for SocialLearningSystem {
    /// A fresh, empty learning tracker.
    fn default() -> (r: Self)
        ensures
            r.wf(),
            r.learning_records@.len() == 0,
    {
        SocialLearningSystem::new()
    }
}

/// Locate the record list of agent `a`.
fn find_learning_list(s: &Vec<AgentLearningList>, a: AgentId) -> (r: Option<usize>)
    ensures
        match r {
            Some(i) => i < s@.len() && learning_idx(s@, a) == i as int,
            None => learning_idx(s@, a) == -1,
        },
{
    let n = s.len();
    let mut i: usize = 0;
    while i < n
        invariant
            i <= n,
            n == s@.len(),
            forall|j: int| 0 <= j < i ==> (#[trigger] s@[j]).agent_id != a,
        decreases n - i,
    {
        if s[i].agent_id == a {
            proof {
                lemma_first_idx_of(s@, |l: AgentLearningList| l.agent_id == a, i as int);
            }
            return Some(i);
        }
        i = i + 1;
    }
    proof {
        lemma_first_idx_none(s@, |l: AgentLearningList| l.agent_id == a);
    }
    None
}

/// Append `rec` to agent `a`'s record list, creating the list when the
/// agent has none yet.
fn push_record(s: &mut Vec<AgentLearningList>, a: AgentId, rec: LearningRecord)
    requires
        rec.agent_id == a,
        forall|i: int, j: int|
            0 <= i < j < old(s)@.len() ==> (#[trigger] old(s)@[i]).agent_id != (#[trigger] old(
                s,
            )@[j]).agent_id,
        forall|i: int, k: int|
            0 <= i < old(s)@.len() && 0 <= k < (#[trigger] old(s)@[i]).records@.len() ==> (
            #[trigger] old(s)@[i].records@[k]).agent_id == old(s)@[i].agent_id,
    ensures
        record_appended(old(s)@, final(s)@, a, rec),
        forall|i: int, j: int|
            0 <= i < j < final(s)@.len() ==> (#[trigger] final(s)@[i]).agent_id != (#[trigger] final(s)@[j]).agent_id,
        forall|i: int, k: int|
            0 <= i < final(s)@.len() && 0 <= k < (#[trigger] final(s)@[i]).records@.len() ==> (
            #[trigger] final(s)@[i].records@[k]).agent_id == final(s)@[i].agent_id,
{
    match find_learning_list(s, a) {
        Some(i) => {
            proof {
                lemma_first_idx(s@, |l: AgentLearningList| l.agent_id == a);
            }
            let l = &mut s[i];
            l.records.push(rec);
            proof {
                assert forall|x: int, y: int|
                    0 <= x < y < s@.len() implies (#[trigger] s@[x]).agent_id != (
                #[trigger] s@[y]).agent_id by {
                    if x != i as int {
                        assert(list_eq(s@[x], old(s)@[x]));
                    }
                    if y != i as int {
                        assert(list_eq(s@[y], old(s)@[y]));
                    }
                }
                assert forall|x: int, k: int|
                    0 <= x < s@.len() && 0 <= k < (#[trigger] s@[x]).records@.len() implies (
                #[trigger] s@[x].records@[k]).agent_id == s@[x].agent_id by {
                    if x != i as int {
                        assert(list_eq(s@[x], old(s)@[x]));
                    }
                }
            }
        },
        None => {
            let mut records: Vec<LearningRecord> = Vec::new();
            records.push(rec);
            s.push(AgentLearningList { agent_id: a, records });
            proof {
                lemma_first_idx(old(s)@, |l: AgentLearningList| l.agent_id == a);
                assert forall|x: int, y: int|
                    0 <= x < y < s@.len() implies (#[trigger] s@[x]).agent_id != (
                #[trigger] s@[y]).agent_id by {
                    if y < old(s)@.len() {
                        assert(s@[x] == old(s)@[x]);
                        assert(s@[y] == old(s)@[y]);
                    } else {
                        assert(s@[x] == old(s)@[x]);
                    }
                }
                assert forall|x: int, k: int|
                    0 <= x < s@.len() && 0 <= k < (#[trigger] s@[x]).records@.len() implies (
                #[trigger] s@[x].records@[k]).agent_id == s@[x].agent_id by {
                    if x < old(s)@.len() {
                        assert(s@[x] == old(s)@[x]);
                    }
                }
            }
        },
    }
}

} // verus!
