//! The tracking store itself: a table of problems keyed by problem
//! identifier, and the ledger of delivery attempts.
//!
//! The store is held in memory; whoever owns it mirrors it to durable
//! storage. Row identities are handed out in increasing order and never
//! reused, also not after the table was cleared.

use crate::error::{ForwarderError, StoreError};
use crate::storage::clock::unix_seconds;
use crate::storage::models::{
    clone_text, outcome_failed, outcome_success, DatabaseStats, ForwardHistory,
    ForwardHistoryView, ForwardedProblem, ForwardedProblemView,
};
use vstd::prelude::*;
use vstd::string::*;

verus! {

/// The status text of a problem that is still open.
pub open spec fn status_open() -> Seq<char> {
    "OPEN"@
}

/// The views of a run of tracking rows.
pub open spec fn problem_rows(rows: Seq<ForwardedProblem>) -> Seq<ForwardedProblemView> {
    rows.map_values(|r: ForwardedProblem| r@)
}

/// The views of a run of ledger entries.
pub open spec fn history_rows(rows: Seq<ForwardHistory>) -> Seq<ForwardHistoryView> {
    rows.map_values(|r: ForwardHistory| r@)
}

/// How many of the tracking rows carry `status`.
pub open spec fn problems_with_status(rows: Seq<ForwardedProblemView>, status: Seq<char>) -> nat
    decreases rows.len(),
{
    if rows.len() == 0 {
        0
    } else {
        problems_with_status(rows.drop_last(), status) + if rows.last().status == status {
            1nat
        } else {
            0nat
        }
    }
}

/// How many of the ledger entries carry `status`.
pub open spec fn history_with_status(rows: Seq<ForwardHistoryView>, status: Seq<char>) -> nat
    decreases rows.len(),
{
    if rows.len() == 0 {
        0
    } else {
        history_with_status(rows.drop_last(), status) + if rows.last().status == status {
            1nat
        } else {
            0nat
        }
    }
}

/// The store as a plain value.
pub struct DatabaseView {
    /// The tracking rows, oldest first.
    pub problems: Seq<ForwardedProblemView>,
    /// The ledger, oldest first.
    pub history: Seq<ForwardHistoryView>,
    /// The identity that the next tracking row receives.
    pub next_problem_row: int,
    /// The identity that the next ledger entry receives.
    pub next_history_row: int,
}

impl DatabaseView {
    /// A store that has never held anything.
    pub open spec fn empty() -> DatabaseView {
        DatabaseView {
            problems: Seq::empty(),
            history: Seq::empty(),
            next_problem_row: 1,
            next_history_row: 1,
        }
    }

    /// Whether a tracking row holds only values that fit its columns.
    pub open spec fn problem_fits(row: ForwardedProblemView) -> bool {
        &&& i64::MIN <= row.first_seen_at <= i64::MAX
        &&& i64::MIN <= row.last_forwarded_at <= i64::MAX
        &&& i64::MIN <= row.last_status_change_at <= i64::MAX
        &&& i64::MIN <= row.created_at <= i64::MAX
        &&& i64::MIN <= row.updated_at <= i64::MAX
        &&& i32::MIN <= row.forward_count <= i32::MAX
    }

    /// Whether a ledger entry holds only values that fit its columns.
    pub open spec fn history_fits(row: ForwardHistoryView) -> bool {
        &&& i64::MIN <= row.forwarded_at <= i64::MAX
        &&& (row.response_code matches Some(c) ==> i32::MIN <= c <= i32::MAX)
    }

    /// The invariant of the store: no problem identifier occurs twice, every
    /// stored row has an identity below the next one to be handed out, and
    /// identities grow in the order of insertion.
    pub open spec fn wf(self) -> bool {
        &&& 1 <= self.next_problem_row <= i64::MAX
        &&& 1 <= self.next_history_row <= i64::MAX
        &&& self.problems.len() < self.next_problem_row
        &&& self.history.len() < self.next_history_row
        &&& forall|i: int|
            0 <= i < self.problems.len() ==> {
                &&& (#[trigger] self.problems[i]).id matches Some(k)
                &&& 1 <= k < self.next_problem_row
                &&& Self::problem_fits(self.problems[i])
            }
        &&& forall|i: int, j: int|
            0 <= i < j < self.problems.len() ==> {
                &&& (#[trigger] self.problems[i]).problem_id != (
                #[trigger] self.problems[j]).problem_id
                &&& self.problems[i].id->0 < self.problems[j].id->0
            }
        &&& forall|i: int|
            0 <= i < self.history.len() ==> {
                &&& (#[trigger] self.history[i]).id matches Some(k)
                &&& 1 <= k < self.next_history_row
                &&& Self::history_fits(self.history[i])
            }
        &&& forall|i: int, j: int|
            0 <= i < j < self.history.len() ==> (#[trigger] self.history[i]).id->0 < (
            #[trigger] self.history[j]).id->0
    }

    /// Whether row `i` of the table is the one of problem `id`.
    pub open spec fn holds_at(self, id: Seq<char>, i: int) -> bool {
        0 <= i < self.problems.len() && self.problems[i].problem_id == id
    }

    /// Whether the table has a row for problem `id`.
    pub open spec fn has(self, id: Seq<char>) -> bool {
        exists|i: int| self.holds_at(id, i)
    }

    /// Where the row of problem `id` stands, if the table has one.
    pub open spec fn slot(self, id: Seq<char>) -> int {
        choose|i: int| self.holds_at(id, i)
    }

    /// The row of problem `id`, if the table has one.
    pub open spec fn lookup(self, id: Seq<char>) -> Option<ForwardedProblemView> {
        if self.has(id) {
            Some(self.problems[self.slot(id)])
        } else {
            None
        }
    }

    /// Why an insert of a row for problem `id` is refused, if it is.
    pub open spec fn insert_refusal(self, id: Seq<char>) -> Option<StoreError> {
        if self.has(id) {
            Some(StoreError::Conflict)
        } else if self.next_problem_row >= i64::MAX {
            Some(StoreError::Exhausted)
        } else {
            None
        }
    }

    /// The store after `row` was inserted under the next identity.
    pub open spec fn inserted(self, row: ForwardedProblemView) -> DatabaseView {
        DatabaseView {
            problems: self.problems.push(row.stored_as(self.next_problem_row)),
            next_problem_row: self.next_problem_row + 1,
            ..self
        }
    }

    /// Why one more forward of problem `id` cannot be counted, if it cannot.
    pub open spec fn update_refusal(self, id: Seq<char>) -> Option<StoreError> {
        if !self.has(id) {
            Some(StoreError::NotFound)
        } else if self.problems[self.slot(id)].forward_count >= i32::MAX {
            Some(StoreError::Exhausted)
        } else {
            None
        }
    }

    /// The store after the row of problem `id` took `status` at `now`.
    pub open spec fn with_status(self, id: Seq<char>, status: Seq<char>, now: int) -> DatabaseView {
        let i = self.slot(id);
        DatabaseView {
            problems: self.problems.update(i, self.problems[i].with_status(status, now)),
            ..self
        }
    }

    /// The store after the row of problem `id` was forwarded once more at `now`.
    pub open spec fn forwarded_again(self, id: Seq<char>, now: int) -> DatabaseView {
        let i = self.slot(id);
        DatabaseView {
            problems: self.problems.update(i, self.problems[i].forwarded_again(now)),
            ..self
        }
    }

    /// Why an append to the ledger is refused, if it is.
    pub open spec fn append_refusal(self) -> Option<StoreError> {
        if self.next_history_row >= i64::MAX {
            Some(StoreError::Exhausted)
        } else {
            None
        }
    }

    /// The store after `entry` was appended to the ledger under the next identity.
    pub open spec fn appended(self, entry: ForwardHistoryView) -> DatabaseView {
        DatabaseView {
            history: self.history.push(entry.stored_as(self.next_history_row)),
            next_history_row: self.next_history_row + 1,
            ..self
        }
    }

    /// The store after a best-effort append: the entry is there unless the
    /// ledger refused it.
    pub open spec fn recorded(self, entry: ForwardHistoryView) -> DatabaseView {
        if self.append_refusal() is None {
            self.appended(entry)
        } else {
            self
        }
    }

    /// The store after every tracking row was removed. The ledger stays.
    pub open spec fn cleared(self) -> DatabaseView {
        DatabaseView { problems: Seq::empty(), ..self }
    }

    /// The aggregate snapshot of the store.
    pub open spec fn stats(self) -> DatabaseStats {
        let open = problems_with_status(self.problems, status_open());
        DatabaseStats {
            total_problems: self.problems.len() as i64,
            open_problems: open as i64,
            closed_problems: (self.problems.len() - open) as i64,
            total_forwards: self.history.len() as i64,
            successful_forwards: history_with_status(self.history, outcome_success()) as i64,
            failed_forwards: history_with_status(self.history, outcome_failed()) as i64,
        }
    }

    /// In a well-formed store, the row of a problem stands in one place only.
    pub proof fn lemma_slot_unique(self, id: Seq<char>, i: int)
        requires
            self.wf(),
            self.holds_at(id, i),
        ensures
            self.has(id),
            self.slot(id) == i,
            self.lookup(id) == Some(self.problems[i]),
    {
        let j = self.slot(id);
        assert(self.holds_at(id, j));
        if i < j {
            assert(self.problems[i].problem_id != self.problems[j].problem_id);
        } else if j < i {
            assert(self.problems[j].problem_id != self.problems[i].problem_id);
        }
    }

    /// An accepted insert keeps the store well formed.
    pub proof fn lemma_inserted_wf(self, row: ForwardedProblemView)
        requires
            self.wf(),
            self.insert_refusal(row.problem_id) is None,
            Self::problem_fits(row),
        ensures
            self.inserted(row).wf(),
            self.inserted(row).holds_at(row.problem_id, self.problems.len() as int),
    {
        let after = self.inserted(row);
        assert forall|i: int| 0 <= i < after.problems.len() implies {
            &&& (#[trigger] after.problems[i]).id matches Some(k)
            &&& 1 <= k < after.next_problem_row
            &&& Self::problem_fits(after.problems[i])
        } by {
            if i < self.problems.len() {
                assert(after.problems[i] == self.problems[i]);
            }
        }
        assert forall|i: int, j: int| 0 <= i < j < after.problems.len() implies {
            &&& (#[trigger] after.problems[i]).problem_id != (
            #[trigger] after.problems[j]).problem_id
            &&& after.problems[i].id->0 < after.problems[j].id->0
        } by {
            assert(after.problems[i] == self.problems[i]);
            if j < self.problems.len() {
                assert(after.problems[j] == self.problems[j]);
            } else {
                assert(!self.holds_at(row.problem_id, i));
            }
        }
    }

    /// Replacing a row by one with the same problem identifier and identity
    /// keeps the store well formed and leaves every row where it stood.
    pub proof fn lemma_replaced_wf(self, i: int, row: ForwardedProblemView)
        requires
            self.wf(),
            0 <= i < self.problems.len(),
            row.problem_id == self.problems[i].problem_id,
            row.id == self.problems[i].id,
            Self::problem_fits(row),
        ensures
            (DatabaseView { problems: self.problems.update(i, row), ..self }).wf(),
            forall|id: Seq<char>, j: int|
                self.holds_at(id, j) <==> #[trigger] (DatabaseView {
                    problems: self.problems.update(i, row),
                    ..self
                }).holds_at(id, j),
    {
        let after = DatabaseView { problems: self.problems.update(i, row), ..self };
        assert forall|a: int| 0 <= a < after.problems.len() implies {
            &&& (#[trigger] after.problems[a]).id matches Some(k)
            &&& 1 <= k < after.next_problem_row
            &&& Self::problem_fits(after.problems[a])
        } by {
            if a != i {
                assert(after.problems[a] == self.problems[a]);
            } else {
                assert(self.problems[i].id is Some);
            }
        }
        assert forall|a: int, b: int| 0 <= a < b < after.problems.len() implies {
            &&& (#[trigger] after.problems[a]).problem_id != (
            #[trigger] after.problems[b]).problem_id
            &&& after.problems[a].id->0 < after.problems[b].id->0
        } by {
            assert(after.problems[a].problem_id == self.problems[a].problem_id);
            assert(after.problems[b].problem_id == self.problems[b].problem_id);
            assert(after.problems[a].id == self.problems[a].id);
            assert(after.problems[b].id == self.problems[b].id);
        }
        assert forall|id: Seq<char>, j: int| self.holds_at(id, j) <==> #[trigger] after.holds_at(
            id,
            j,
        ) by {
            if 0 <= j < self.problems.len() {
                assert(after.problems[j].problem_id == self.problems[j].problem_id);
            }
        }
    }

    /// An accepted status change keeps the store well formed and keeps every
    /// problem where it stood.
    pub proof fn lemma_with_status_wf(self, id: Seq<char>, status: Seq<char>, now: int)
        requires
            self.wf(),
            self.update_refusal(id) is None,
            i64::MIN <= now <= i64::MAX,
        ensures
            self.with_status(id, status, now).wf(),
            forall|other: Seq<char>|
                self.has(other) <==> #[trigger] self.with_status(id, status, now).has(other),
            self.with_status(id, status, now).lookup(id) == Some(
                self.lookup(id)->0.with_status(status, now),
            ),
    {
        let i = self.slot(id);
        assert(self.holds_at(id, i));
        let row = self.problems[i].with_status(status, now);
        let after = self.with_status(id, status, now);
        self.lemma_replaced_wf(i, row);
        assert forall|other: Seq<char>| self.has(other) <==> #[trigger] after.has(other) by {
            if self.has(other) {
                let j = self.slot(other);
                assert(self.holds_at(other, j));
                assert(after.holds_at(other, j));
            }
            if after.has(other) {
                let j = after.slot(other);
                assert(after.holds_at(other, j));
                assert(self.holds_at(other, j));
            }
        }
        assert(after.holds_at(id, i));
        after.lemma_slot_unique(id, i);
    }

    /// One more counted forward keeps the store well formed.
    pub proof fn lemma_forwarded_again_wf(self, id: Seq<char>, now: int)
        requires
            self.wf(),
            self.update_refusal(id) is None,
            i64::MIN <= now <= i64::MAX,
        ensures
            self.forwarded_again(id, now).wf(),
    {
        let i = self.slot(id);
        assert(self.holds_at(id, i));
        self.lemma_replaced_wf(i, self.problems[i].forwarded_again(now));
    }

    /// An accepted append keeps the store well formed.
    pub proof fn lemma_appended_wf(self, entry: ForwardHistoryView)
        requires
            self.wf(),
            self.append_refusal() is None,
            Self::history_fits(entry),
        ensures
            self.appended(entry).wf(),
    {
        let after = self.appended(entry);
        assert forall|i: int| 0 <= i < after.history.len() implies {
            &&& (#[trigger] after.history[i]).id matches Some(k)
            &&& 1 <= k < after.next_history_row
            &&& Self::history_fits(after.history[i])
        } by {
            if i < self.history.len() {
                assert(after.history[i] == self.history[i]);
            }
        }
        assert forall|i: int, j: int| 0 <= i < j < after.history.len() implies (
        #[trigger] after.history[i]).id->0 < (#[trigger] after.history[j]).id->0 by {
            assert(after.history[i] == self.history[i]);
            if j < self.history.len() {
                assert(after.history[j] == self.history[j]);
            }
        }
    }

    /// Clearing the table keeps the store well formed, leaves the ledger as
    /// it was, and leaves no problem behind.
    pub proof fn lemma_cleared(self)
        requires
            self.wf(),
        ensures
            self.cleared().wf(),
            self.cleared().history == self.history,
            forall|id: Seq<char>| !(#[trigger] self.cleared().has(id)),
    {
        assert forall|id: Seq<char>| !(#[trigger] self.cleared().has(id)) by {
            if self.cleared().has(id) {
                let j = self.cleared().slot(id);
                assert(self.cleared().holds_at(id, j));
            }
        }
    }
}

/// The tracking store.
pub struct Database {
    problems: Vec<ForwardedProblem>,
    history: Vec<ForwardHistory>,
    next_problem_row: i64,
    next_history_row: i64,
}

impl View for Database {
    type V = DatabaseView;

    closed spec fn view(&self) -> DatabaseView {
        DatabaseView {
            problems: problem_rows(self.problems@),
            history: history_rows(self.history@),
            next_problem_row: self.next_problem_row as int,
            next_history_row: self.next_history_row as int,
        }
    }
}

impl Database {
    /// Every store that exists is well formed.
    #[verifier::type_invariant]
    pub open spec fn valid(self) -> bool {
        self@.wf()
    }

    /// A store that holds nothing.
    pub fn new() -> (db: Self)
        ensures
            db@ == DatabaseView::empty(),
    {
        let db = Database {
            problems: Vec::new(),
            history: Vec::new(),
            next_problem_row: 1,
            next_history_row: 1,
        };
        assert(db@.problems =~= Seq::empty());
        assert(db@.history =~= Seq::empty());
        db
    }

    /// Where the row of problem `key` stands.
    fn position(&self, key: &String) -> (at: Option<usize>)
        ensures
            match at {
                Some(i) => self@.holds_at(key@, i as int) && self@.slot(key@) == i && i
                    < self.problems.len(),
                None => !self@.has(key@),
            },
    {
        proof {
            use_type_invariant(self);
        }
        let mut i: usize = 0;
        while i < self.problems.len()
            invariant
                i <= self.problems.len(),
                self@.wf(),
                forall|j: int| 0 <= j < i ==> !self@.holds_at(key@, j),
            decreases self.problems.len() - i,
        {
            if self.problems[i].problem_id == *key {
                proof {
                    self@.lemma_slot_unique(key@, i as int);
                }
                return Some(i);
            }
            i += 1;
        }
        None
    }

    /// The row of problem `problem_id`, if the table has one. Nothing changes.
    pub fn get_problem(&self, problem_id: &str) -> (found: Option<ForwardedProblem>)
        ensures
            match found {
                Some(row) => self@.lookup(problem_id@) == Some(row@),
                None => self@.lookup(problem_id@) is None,
            },
    {
        let key = problem_id.to_owned();
        match self.position(&key) {
            Some(i) => Some(self.problems[i].clone()),
            None => None,
        }
    }

    /// Inserts a row for a problem that the table does not hold yet and
    /// returns the identity it was stored under. The identity that `problem`
    /// carries is not looked at.
    pub fn insert_problem(&mut self, problem: &ForwardedProblem) -> (r: Result<i64, ForwarderError>)
        ensures
            match old(self)@.insert_refusal(problem.problem_id@) {
                Some(e) => r == Err::<i64, ForwarderError>(ForwarderError::Database(e))
                    && final(self)@ == old(self)@,
                None => r == Ok::<i64, ForwarderError>(old(self)@.next_problem_row as i64)
                    && final(self)@ == old(self)@.inserted(problem@),
            },
            final(self)@.wf(),
    {
        proof {
            use_type_invariant(&*self);
        }
        if self.position(&problem.problem_id).is_some() {
            return Err(ForwarderError::Database(StoreError::Conflict));
        }
        if self.next_problem_row == i64::MAX {
            return Err(ForwarderError::Database(StoreError::Exhausted));
        }
        let row = self.next_problem_row;
        let mut stored = problem.clone();
        stored.id = Some(row);
        let ghost before = self@;
        assert(forall|j: int|
            0 <= j < before.problems.len() ==> !before.holds_at(problem.problem_id@, j));
        let mut rows: Vec<ForwardedProblem> = Vec::new();
        core::mem::swap(&mut self.problems, &mut rows);
        rows.push(stored);
        self.next_problem_row = row + 1;
        proof {
            before.lemma_inserted_wf(problem@);
            assert(problem_rows(rows@) =~= before.inserted(problem@).problems);
        }
        self.problems = rows;
        Ok(row)
    }

    /// Sets the status of a tracked problem, counts one more forward and
    /// refreshes the timestamps of the last forward and the last status
    /// change to `now`.
    pub fn update_problem_status_at(&mut self, problem_id: &str, new_status: &str, now: i64) -> (r:
        Result<(), ForwarderError>)
        ensures
            match old(self)@.update_refusal(problem_id@) {
                Some(e) => r == Err::<(), ForwarderError>(ForwarderError::Database(e))
                    && final(self)@ == old(self)@,
                None => r is Ok && final(self)@ == old(self)@.with_status(
                    problem_id@,
                    new_status@,
                    now as int,
                ),
            },
            final(self)@.wf(),
    {
        proof {
            use_type_invariant(&*self);
        }
        let key = problem_id.to_owned();
        let i = match self.position(&key) {
            Some(i) => i,
            None => {
                return Err(ForwarderError::Database(StoreError::NotFound));
            },
        };
        if self.problems[i].forward_count == i32::MAX {
            return Err(ForwarderError::Database(StoreError::Exhausted));
        }
        let current = &self.problems[i];
        let row = ForwardedProblem {
            id: current.id,
            problem_id: current.problem_id.clone(),
            status: new_status.to_owned(),
            severity_level: clone_text(&current.severity_level),
            title: current.title.clone(),
            first_seen_at: current.first_seen_at,
            last_forwarded_at: now,
            last_status_change_at: now,
            forward_count: current.forward_count + 1,
            created_at: current.created_at,
            updated_at: now,
        };
        let ghost before = self@;
        let mut rows: Vec<ForwardedProblem> = Vec::new();
        core::mem::swap(&mut self.problems, &mut rows);
        rows.set(i, row);
        proof {
            before.lemma_with_status_wf(problem_id@, new_status@, now as int);
            assert(problem_rows(rows@) =~= before.with_status(
                problem_id@,
                new_status@,
                now as int,
            ).problems);
        }
        self.problems = rows;
        Ok(())
    }

    /// Sets the status of a tracked problem as of now, by the system clock.
    pub fn update_problem_status(&mut self, problem_id: &str, new_status: &str) -> (r: Result<
        (),
        ForwarderError,
    >)
        ensures
            match old(self)@.update_refusal(problem_id@) {
                Some(e) => r == Err::<(), ForwarderError>(ForwarderError::Database(e))
                    && final(self)@ == old(self)@,
                None => r is Ok && exists|now: i64|
                    final(self)@ == #[trigger] old(self)@.with_status(
                        problem_id@,
                        new_status@,
                        now as int,
                    ),
            },
            final(self)@.wf(),
    {
        let now = unix_seconds();
        self.update_problem_status_at(problem_id, new_status, now)
    }

    /// Counts one more forward of a tracked problem at `now` and leaves its
    /// status alone.
    pub fn update_last_forwarded_at(&mut self, problem_id: &str, now: i64) -> (r: Result<
        (),
        ForwarderError,
    >)
        ensures
            match old(self)@.update_refusal(problem_id@) {
                Some(e) => r == Err::<(), ForwarderError>(ForwarderError::Database(e))
                    && final(self)@ == old(self)@,
                None => r is Ok && final(self)@ == old(self)@.forwarded_again(
                    problem_id@,
                    now as int,
                ),
            },
            final(self)@.wf(),
    {
        proof {
            use_type_invariant(&*self);
        }
        let key = problem_id.to_owned();
        let i = match self.position(&key) {
            Some(i) => i,
            None => {
                return Err(ForwarderError::Database(StoreError::NotFound));
            },
        };
        if self.problems[i].forward_count == i32::MAX {
            return Err(ForwarderError::Database(StoreError::Exhausted));
        }
        let mut row = self.problems[i].clone();
        row.last_forwarded_at = now;
        row.forward_count = row.forward_count + 1;
        row.updated_at = now;
        let ghost before = self@;
        let mut rows: Vec<ForwardedProblem> = Vec::new();
        core::mem::swap(&mut self.problems, &mut rows);
        rows.set(i, row);
        proof {
            before.lemma_forwarded_again_wf(problem_id@, now as int);
            assert(problem_rows(rows@) =~= before.forwarded_again(problem_id@, now as int).problems);
        }
        self.problems = rows;
        Ok(())
    }

    /// Counts one more forward of a tracked problem as of now, by the system clock.
    pub fn update_last_forwarded(&mut self, problem_id: &str) -> (r: Result<(), ForwarderError>)
        ensures
            match old(self)@.update_refusal(problem_id@) {
                Some(e) => r == Err::<(), ForwarderError>(ForwarderError::Database(e))
                    && final(self)@ == old(self)@,
                None => r is Ok && exists|now: i64|
                    final(self)@ == #[trigger] old(self)@.forwarded_again(problem_id@, now as int),
            },
            final(self)@.wf(),
    {
        let now = unix_seconds();
        self.update_last_forwarded_at(problem_id, now)
    }

    /// Appends an entry to the ledger and returns the identity it was stored
    /// under. The identity that `history` carries is not looked at.
    pub fn insert_forward_history(&mut self, history: &ForwardHistory) -> (r: Result<
        i64,
        ForwarderError,
    >)
        ensures
            match old(self)@.append_refusal() {
                Some(e) => r == Err::<i64, ForwarderError>(ForwarderError::Database(e))
                    && final(self)@ == old(self)@,
                None => r == Ok::<i64, ForwarderError>(old(self)@.next_history_row as i64)
                    && final(self)@ == old(self)@.appended(history@),
            },
            final(self)@.wf(),
    {
        proof {
            use_type_invariant(&*self);
        }
        if self.next_history_row == i64::MAX {
            return Err(ForwarderError::Database(StoreError::Exhausted));
        }
        let row = self.next_history_row;
        let mut stored = history.clone();
        stored.id = Some(row);
        let ghost before = self@;
        let mut rows: Vec<ForwardHistory> = Vec::new();
        core::mem::swap(&mut self.history, &mut rows);
        rows.push(stored);
        self.next_history_row = row + 1;
        proof {
            before.lemma_appended_wf(history@);
            assert(history_rows(rows@) =~= before.appended(history@).history);
        }
        self.history = rows;
        Ok(row)
    }

    /// Appends an entry to the ledger on a best-effort basis: a refusal is
    /// dropped here and never reaches the caller. No other operation of the
    /// store drops its own failure.
    pub fn record_history(&mut self, history: &ForwardHistory)
        ensures
            final(self)@ == old(self)@.recorded(history@),
            final(self)@.wf(),
    {
        let _ = self.insert_forward_history(history);
    }

    /// Removes every tracking row and returns how many there were. The
    /// ledger is left untouched.
    pub fn clear_all_problems(&mut self) -> (removed: u64)
        ensures
            removed == old(self)@.problems.len(),
            final(self)@ == old(self)@.cleared(),
            final(self)@.wf(),
    {
        proof {
            use_type_invariant(&*self);
        }
        let ghost before = self@;
        let mut rows: Vec<ForwardedProblem> = Vec::new();
        core::mem::swap(&mut self.problems, &mut rows);
        proof {
            before.lemma_cleared();
            assert(self@.problems =~= before.cleared().problems);
        }
        rows.len() as u64
    }

    /// The aggregate snapshot: how many problems are tracked, how many of
    /// them are open and how many are not, and how many deliveries were
    /// recorded in all, as accepted and as failed.
    pub fn get_stats(&self) -> (stats: DatabaseStats)
        ensures
            stats == self@.stats(),
    {
        proof {
            use_type_invariant(self);
        }
        let open_text = String::from_str("OPEN");
        let success_text = String::from_str("success");
        let failed_text = String::from_str("failed");
        let mut open: usize = 0;
        let mut i: usize = 0;
        while i < self.problems.len()
            invariant
                i <= self.problems.len(),
                open_text@ == status_open(),
                open == problems_with_status(self@.problems.take(i as int), status_open()),
                open <= i,
            decreases self.problems.len() - i,
        {
            proof {
                let next = self@.problems.take(i + 1);
                assert(next.drop_last() =~= self@.problems.take(i as int));
                assert(next.last() == self.problems[i as int]@);
            }
            if self.problems[i].status == open_text {
                open += 1;
            }
            i += 1;
        }
        let mut success: usize = 0;
        let mut failed: usize = 0;
        let mut k: usize = 0;
        while k < self.history.len()
            invariant
                k <= self.history.len(),
                success_text@ == outcome_success(),
                failed_text@ == outcome_failed(),
                success == history_with_status(self@.history.take(k as int), outcome_success()),
                failed == history_with_status(self@.history.take(k as int), outcome_failed()),
                success <= k,
                failed <= k,
            decreases self.history.len() - k,
        {
            proof {
                let next = self@.history.take(k + 1);
                assert(next.drop_last() =~= self@.history.take(k as int));
                assert(next.last() == self.history[k as int]@);
            }
            if self.history[k].status == success_text {
                success += 1;
            }
            if self.history[k].status == failed_text {
                failed += 1;
            }
            k += 1;
        }
        proof {
            assert(self@.problems.take(self.problems.len() as int) =~= self@.problems);
            assert(self@.history.take(self.history.len() as int) =~= self@.history);
        }
        DatabaseStats {
            total_problems: self.problems.len() as i64,
            open_problems: open as i64,
            closed_problems: (self.problems.len() - open) as i64,
            total_forwards: self.history.len() as i64,
            successful_forwards: success as i64,
            failed_forwards: failed as i64,
        }
    }

    /// The tracking rows, oldest first.
    pub fn problems(&self) -> (rows: &Vec<ForwardedProblem>)
        ensures
            problem_rows(rows@) == self@.problems,
    {
        &self.problems
    }

    /// The ledger, oldest first.
    pub fn history(&self) -> (rows: &Vec<ForwardHistory>)
        ensures
            history_rows(rows@) == self@.history,
    {
        &self.history
    }
}

} // verus!
