//! Rows of the tracking store and the aggregate snapshot over them.

use crate::storage::clock::unix_seconds;
use vstd::prelude::*;

verus! {

/// The status text under which a delivery that was accepted is recorded.
pub open spec fn outcome_success() -> Seq<char> {
    "success"@
}

/// The status text under which a delivery that failed is recorded.
pub open spec fn outcome_failed() -> Seq<char> {
    "failed"@
}

/// One row of the tracking table: the last status seen for a problem.
#[derive(Debug)]
pub struct ForwardedProblem {
    pub id: Option<i64>,
    pub problem_id: String,
    pub status: String,
    pub severity_level: Option<String>,
    pub title: String,
    pub first_seen_at: i64,
    pub last_forwarded_at: i64,
    pub last_status_change_at: i64,
    pub forward_count: i32,
    pub created_at: i64,
    pub updated_at: i64,
}

/// A tracking row as a plain value.
pub struct ForwardedProblemView {
    pub id: Option<int>,
    pub problem_id: Seq<char>,
    pub status: Seq<char>,
    pub severity_level: Option<Seq<char>>,
    pub title: Seq<char>,
    pub first_seen_at: int,
    pub last_forwarded_at: int,
    pub last_status_change_at: int,
    pub forward_count: int,
    pub created_at: int,
    pub updated_at: int,
}

/// The view of an optional text.
pub open spec fn text_view(t: Option<String>) -> Option<Seq<char>> {
    match t {
        Some(s) => Some(s@),
        None => None,
    }
}

/// The view of an optional row identity.
pub open spec fn identity_view(id: Option<i64>) -> Option<int> {
    match id {
        Some(k) => Some(k as int),
        None => None,
    }
}

/// The view of an optional response code.
pub open spec fn code_view(code: Option<i32>) -> Option<int> {
    match code {
        Some(k) => Some(k as int),
        None => None,
    }
}

impl View for ForwardedProblem {
    type V = ForwardedProblemView;

    open spec fn view(&self) -> ForwardedProblemView {
        ForwardedProblemView {
            id: identity_view(self.id),
            problem_id: self.problem_id@,
            status: self.status@,
            severity_level: text_view(self.severity_level),
            title: self.title@,
            first_seen_at: self.first_seen_at as int,
            last_forwarded_at: self.last_forwarded_at as int,
            last_status_change_at: self.last_status_change_at as int,
            forward_count: self.forward_count as int,
            created_at: self.created_at as int,
            updated_at: self.updated_at as int,
        }
    }
}

impl ForwardedProblemView {
    /// The row of a problem seen for the first time at `now`: not yet stored,
    /// counted as forwarded once, every timestamp equal to `now`.
    pub open spec fn first_seen(
        problem_id: Seq<char>,
        status: Seq<char>,
        severity_level: Option<Seq<char>>,
        title: Seq<char>,
        now: int,
    ) -> ForwardedProblemView {
        ForwardedProblemView {
            id: None,
            problem_id,
            status,
            severity_level,
            title,
            first_seen_at: now,
            last_forwarded_at: now,
            last_status_change_at: now,
            forward_count: 1,
            created_at: now,
            updated_at: now,
        }
    }

    /// The row after a status change observed at `now`.
    pub open spec fn with_status(self, status: Seq<char>, now: int) -> ForwardedProblemView {
        ForwardedProblemView {
            status,
            last_forwarded_at: now,
            last_status_change_at: now,
            forward_count: self.forward_count + 1,
            updated_at: now,
            ..self
        }
    }

    /// The row after one more forward at `now` that left the status alone.
    pub open spec fn forwarded_again(self, now: int) -> ForwardedProblemView {
        ForwardedProblemView {
            last_forwarded_at: now,
            forward_count: self.forward_count + 1,
            updated_at: now,
            ..self
        }
    }

    /// The row as the table holds it under identity `row`.
    pub open spec fn stored_as(self, row: int) -> ForwardedProblemView {
        ForwardedProblemView { id: Some(row), ..self }
    }
}

pub(crate) fn clone_text(t: &Option<String>) -> (c: Option<String>)
    ensures
        c == *t,
{
    match t {
        Some(s) => Some(s.clone()),
        None => None,
    }
}

impl Clone for ForwardedProblem {
    fn clone(&self) -> (c: Self)
        ensures
            c == *self,
    {
        ForwardedProblem {
            id: self.id,
            problem_id: self.problem_id.clone(),
            status: self.status.clone(),
            severity_level: clone_text(&self.severity_level),
            title: self.title.clone(),
            first_seen_at: self.first_seen_at,
            last_forwarded_at: self.last_forwarded_at,
            last_status_change_at: self.last_status_change_at,
            forward_count: self.forward_count,
            created_at: self.created_at,
            updated_at: self.updated_at,
        }
    }
}

impl ForwardedProblem {
    /// The row of a problem first seen at `now`.
    pub fn new_at(
        problem_id: String,
        status: String,
        severity_level: Option<String>,
        title: String,
        now: i64,
    ) -> (row: Self)
        ensures
            row@ == ForwardedProblemView::first_seen(
                problem_id@,
                status@,
                text_view(severity_level),
                title@,
                now as int,
            ),
    {
        ForwardedProblem {
            id: None,
            problem_id,
            status,
            severity_level,
            title,
            first_seen_at: now,
            last_forwarded_at: now,
            last_status_change_at: now,
            forward_count: 1,
            created_at: now,
            updated_at: now,
        }
    }

    /// The row of a problem first seen now, by the system clock.
    pub fn new(
        problem_id: String,
        status: String,
        severity_level: Option<String>,
        title: String,
    ) -> (row: Self)
        ensures
            exists|now: i64|
                row@ == #[trigger] ForwardedProblemView::first_seen(
                    problem_id@,
                    status@,
                    text_view(severity_level),
                    title@,
                    now as int,
                ),
    {
        let now = unix_seconds();
        ForwardedProblem::new_at(problem_id, status, severity_level, title, now)
    }
}

/// One entry of the delivery ledger: the outcome of handing one problem to
/// one connector.
#[derive(Debug)]
pub struct ForwardHistory {
    pub id: Option<i64>,
    pub problem_id: String,
    pub connector_name: String,
    pub status: String,
    pub response_code: Option<i32>,
    pub error_message: Option<String>,
    pub forwarded_at: i64,
}

/// A ledger entry as a plain value.
pub struct ForwardHistoryView {
    pub id: Option<int>,
    pub problem_id: Seq<char>,
    pub connector_name: Seq<char>,
    pub status: Seq<char>,
    pub response_code: Option<int>,
    pub error_message: Option<Seq<char>>,
    pub forwarded_at: int,
}

impl View for ForwardHistory {
    type V = ForwardHistoryView;

    open spec fn view(&self) -> ForwardHistoryView {
        ForwardHistoryView {
            id: identity_view(self.id),
            problem_id: self.problem_id@,
            connector_name: self.connector_name@,
            status: self.status@,
            response_code: code_view(self.response_code),
            error_message: text_view(self.error_message),
            forwarded_at: self.forwarded_at as int,
        }
    }
}

impl ForwardHistoryView {
    /// The entry of an attempt made at `now`, not yet stored.
    pub open spec fn attempted(
        problem_id: Seq<char>,
        connector_name: Seq<char>,
        status: Seq<char>,
        response_code: Option<int>,
        error_message: Option<Seq<char>>,
        now: int,
    ) -> ForwardHistoryView {
        ForwardHistoryView {
            id: None,
            problem_id,
            connector_name,
            status,
            response_code,
            error_message,
            forwarded_at: now,
        }
    }

    /// The entry as the ledger holds it under identity `row`.
    pub open spec fn stored_as(self, row: int) -> ForwardHistoryView {
        ForwardHistoryView { id: Some(row), ..self }
    }
}

impl Clone for ForwardHistory {
    fn clone(&self) -> (c: Self)
        ensures
            c == *self,
    {
        ForwardHistory {
            id: self.id,
            problem_id: self.problem_id.clone(),
            connector_name: self.connector_name.clone(),
            status: self.status.clone(),
            response_code: self.response_code,
            error_message: clone_text(&self.error_message),
            forwarded_at: self.forwarded_at,
        }
    }
}

impl ForwardHistory {
    /// The entry of an attempt made at `now`.
    pub fn new_at(
        problem_id: String,
        connector_name: String,
        status: String,
        response_code: Option<i32>,
        error_message: Option<String>,
        now: i64,
    ) -> (entry: Self)
        ensures
            entry@ == ForwardHistoryView::attempted(
                problem_id@,
                connector_name@,
                status@,
                code_view(response_code),
                text_view(error_message),
                now as int,
            ),
    {
        ForwardHistory {
            id: None,
            problem_id,
            connector_name,
            status,
            response_code,
            error_message,
            forwarded_at: now,
        }
    }

    /// The entry of an attempt made now, by the system clock.
    pub fn new(
        problem_id: String,
        connector_name: String,
        status: String,
        response_code: Option<i32>,
        error_message: Option<String>,
    ) -> (entry: Self)
        ensures
            exists|now: i64|
                entry@ == #[trigger] ForwardHistoryView::attempted(
                    problem_id@,
                    connector_name@,
                    status@,
                    code_view(response_code),
                    text_view(error_message),
                    now as int,
                ),
    {
        let now = unix_seconds();
        ForwardHistory::new_at(problem_id, connector_name, status, response_code, error_message, now)
    }
}

/// Aggregate counts over the tracking table and the delivery ledger.
#[derive(Debug, Clone, Copy, PartialEq, Eq, Structural)]
pub struct DatabaseStats {
    pub total_problems: i64,
    pub open_problems: i64,
    pub closed_problems: i64,
    pub total_forwards: i64,
    pub successful_forwards: i64,
    pub failed_forwards: i64,
}

} // verus!
