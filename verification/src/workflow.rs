//! Workflow steps: the named units of work that multi-agent workflow
//! templates are built from.

use vstd::prelude::*;

verus! {

/// One step of an agent workflow: a name and what the step does.
#[derive(Debug, Clone)]
pub struct WorkflowStep {
    pub name: String,
    pub description: String,
}

impl WorkflowStep {
    /// A step carrying the given name and description.
    pub fn new(name: &str, description: &str) -> (r: Self)
        ensures
            r.name@ == name@,
            r.description@ == description@,
    {
        WorkflowStep { name: name.to_owned(), description: description.to_owned() }
    }
}

} // verus!
