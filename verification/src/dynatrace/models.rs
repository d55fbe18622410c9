//! Records returned by the monitoring API.

use vstd::prelude::*;
use vstd::string::*;

verus! {

/// One page of the answer to a query for problems.
#[derive(Debug, Clone)]
pub struct ProblemsResponse {
    pub total_count: i32,
    pub page_size: i32,
    pub problems: Vec<Problem>,
    pub next_page_key: Option<String>,
}

/// A problem as the monitoring API reports it. The relay decides on
/// `problem_id` and `status`; `title` and `severity_level` describe the
/// problem in the tracking store; everything else is passed on untouched.
#[derive(Debug, Clone)]
pub struct Problem {
    pub problem_id: String,
    pub display_id: String,
    pub title: String,
    pub impact_level: String,
    pub severity_level: String,
    pub status: ProblemStatus,
    pub affected_entities: Vec<AffectedEntity>,
    pub impacted_entities: Vec<AffectedEntity>,
    pub root_cause_entity: Option<Entity>,
    pub management_zones: Vec<ManagementZone>,
    pub entity_tags: Vec<EntityTag>,
    pub problem_filters: Vec<ProblemFilter>,
    pub start_time: i64,
    pub end_time: i64,
}

/// The status of a problem.
#[derive(Debug, Clone, Copy, PartialEq, Eq, Structural)]
pub enum ProblemStatus {
    Open,
    Closed,
    Resolved,
}

#[derive(Debug, Clone)]
pub struct AffectedEntity {
    pub entity_id: EntityId,
    pub name: String,
}

#[derive(Debug, Clone)]
pub struct Entity {
    pub entity_id: EntityId,
    pub name: String,
}

#[derive(Debug, Clone)]
pub struct EntityId {
    pub id: String,
    pub entity_type: String,
}

#[derive(Debug, Clone)]
pub struct ManagementZone {
    pub id: String,
    pub name: String,
}

#[derive(Debug, Clone)]
pub struct EntityTag {
    pub context: String,
    pub key: String,
    pub value: Option<String>,
    pub string_representation: String,
}

#[derive(Debug, Clone)]
pub struct ProblemFilter {
    pub id: String,
    pub name: String,
}

impl ProblemStatus {
    /// The status as the monitoring API and the tracking store spell it.
    pub open spec fn text(self) -> Seq<char> {
        match self {
            ProblemStatus::Open => "OPEN"@,
            ProblemStatus::Closed => "CLOSED"@,
            ProblemStatus::Resolved => "RESOLVED"@,
        }
    }

    /// Renders the status in upper case.
    pub fn to_string(&self) -> (s: String)
        ensures
            s@ == self.text(),
    {
        match self {
            ProblemStatus::Open => String::from_str("OPEN"),
            ProblemStatus::Closed => String::from_str("CLOSED"),
            ProblemStatus::Resolved => String::from_str("RESOLVED"),
        }
    }

    /// Two statuses are spelled alike only if they are the same status.
    pub proof fn lemma_text_injective(a: ProblemStatus, b: ProblemStatus)
        ensures
            a.text() == b.text() <==> a == b,
    {
        reveal_strlit("OPEN");
        reveal_strlit("CLOSED");
        reveal_strlit("RESOLVED");
        if a != b {
            assert(a.text().len() != b.text().len());
        }
    }
}

impl Problem {
    /// The one-line description of the problem: display identifier in
    /// brackets, title, status and, in parentheses, severity.
    pub open spec fn summary_text(self) -> Seq<char> {
        "["@ + self.display_id@ + "] "@ + self.title@ + " - "@ + self.status.text() + " ("@
            + self.severity_level@ + ")"@
    }

    /// Whether the problem is currently open.
    pub fn is_open(&self) -> (open: bool)
        ensures
            open == (self.status == ProblemStatus::Open),
    {
        self.status == ProblemStatus::Open
    }

    /// A one-line description of the problem.
    pub fn summary(&self) -> (s: String)
        ensures
            s@ == self.summary_text(),
    {
        let status = self.status.to_string();
        String::from_str("[").concat(self.display_id.as_str()).concat("] ").concat(
            self.title.as_str(),
        ).concat(" - ").concat(status.as_str()).concat(" (").concat(
            self.severity_level.as_str(),
        ).concat(")")
    }
}

} // verus!
