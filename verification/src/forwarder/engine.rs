//! The engine of a poll cycle: it classifies every fetched problem against
//! the tracking store, records what it saw, plans the deliveries to the
//! connectors and books their outcomes.
//!
//! A problem is recorded as seen before any delivery is tried. A delivery
//! that fails afterwards does not take the record back: the same status is
//! never handed to the connectors again, and clearing the store is the only
//! way to have it sent once more.

use crate::config::settings::{connector_views, problems_url, ConnectorConfigView, Settings};
use crate::dynatrace::client::{DynatraceClient, DynatraceClientView};
use crate::dynatrace::models::Problem;
use crate::error::{ForwarderError, StoreError};
use crate::forwarder::connector::{starts_test, Connector, Delivery, HttpStatus};
use crate::storage::clock::unix_seconds;
use crate::storage::database::{Database, DatabaseView};
use crate::storage::models::{
    outcome_failed, outcome_success, DatabaseStats, ForwardHistory, ForwardHistoryView,
    ForwardedProblem, ForwardedProblemView,
};
use vstd::prelude::*;
use vstd::string::*;

verus! {

/// What the engine found out about a fetched problem.
#[derive(Debug, Clone, Copy, PartialEq, Eq, Structural)]
pub enum ProcessAction {
    /// The store held no row for the problem.
    NewProblem,
    /// The store held a row with another status.
    StatusChange,
    /// The store held a row with the same status.
    Skipped,
}

impl Problem {
    /// The row under which the problem is tracked when first seen at `now`.
    pub open spec fn tracked_row(self, now: int) -> ForwardedProblemView {
        ForwardedProblemView::first_seen(
            self.problem_id@,
            self.status.text(),
            Some(self.severity_level@),
            self.title@,
            now,
        )
    }
}

/// How a problem compares with the store.
pub open spec fn classify(db: DatabaseView, p: Problem) -> ProcessAction {
    match db.lookup(p.problem_id@) {
        None => ProcessAction::NewProblem,
        Some(row) => if row.status != p.status.text() {
            ProcessAction::StatusChange
        } else {
            ProcessAction::Skipped
        },
    }
}

/// Why the store cannot take the record of a problem, if it cannot.
pub open spec fn check_refusal(db: DatabaseView, p: Problem) -> Option<StoreError> {
    match classify(db, p) {
        ProcessAction::NewProblem => db.insert_refusal(p.problem_id@),
        ProcessAction::StatusChange => db.update_refusal(p.problem_id@),
        ProcessAction::Skipped => None,
    }
}

/// The store after a problem was classified at `now`: a new problem has its
/// row inserted, a changed one has its status updated, an unchanged one
/// leaves the store alone, and so does one whose record the store refuses.
pub open spec fn after_check(db: DatabaseView, p: Problem, now: int) -> DatabaseView {
    if check_refusal(db, p) is Some {
        db
    } else {
        match classify(db, p) {
            ProcessAction::NewProblem => db.inserted(p.tracked_row(now)),
            ProcessAction::StatusChange => db.with_status(p.problem_id@, p.status.text(), now),
            ProcessAction::Skipped => db,
        }
    }
}

/// Which problems of a cycle a delivery task carries.
#[derive(Debug, Clone, Copy, PartialEq, Eq, Structural)]
pub enum DeliveryScope {
    /// All of them, in one request.
    Batch,
    /// Only the one at this place among the problems to forward.
    Individual(usize),
}

/// One delivery to make: the place of the connector among the engine's
/// connectors, and what to hand it.
#[derive(Debug, Clone, Copy, PartialEq, Eq, Structural)]
pub struct DeliveryTask {
    pub connector: usize,
    pub scope: DeliveryScope,
}

/// The tasks of the batch-mode connectors among `modes`: one for each, in
/// the connectors' order. `modes[c]` says whether connector `c` is in batch
/// mode.
pub open spec fn batch_tasks(modes: Seq<bool>) -> Seq<DeliveryTask>
    decreases modes.len(),
{
    if modes.len() == 0 {
        Seq::empty()
    } else {
        batch_tasks(modes.drop_last()) + if modes.last() {
            seq![DeliveryTask { connector: (modes.len() - 1) as usize, scope: DeliveryScope::Batch }]
        } else {
            Seq::empty()
        }
    }
}

/// The tasks that hand each of `n` problems to connector `c`, in the
/// problems' order.
pub open spec fn tasks_per_problem(c: usize, n: nat) -> Seq<DeliveryTask> {
    Seq::new(n, |j: int| DeliveryTask { connector: c, scope: DeliveryScope::Individual(j as usize) })
}

/// The tasks of the individual-mode connectors among `modes` for `n`
/// problems: for each such connector, in the connectors' order, one task
/// per problem.
pub open spec fn individual_tasks(modes: Seq<bool>, n: nat) -> Seq<DeliveryTask>
    decreases modes.len(),
{
    if modes.len() == 0 {
        Seq::empty()
    } else {
        individual_tasks(modes.drop_last(), n) + if modes.last() {
            Seq::empty()
        } else {
            tasks_per_problem((modes.len() - 1) as usize, n)
        }
    }
}

/// The deliveries of a cycle with `n` problems to forward: first those of
/// the batch-mode connectors, then those of the individual-mode connectors.
pub open spec fn plan(modes: Seq<bool>, n: nat) -> Seq<DeliveryTask> {
    batch_tasks(modes) + individual_tasks(modes, n)
}

/// The deliveries that a cycle schedules: none where nothing is to be
/// forwarded, else the plan for the problems to forward.
pub open spec fn scheduled(modes: Seq<bool>, n: nat) -> Seq<DeliveryTask> {
    if n == 0 {
        Seq::empty()
    } else {
        plan(modes, n)
    }
}

/// Which connectors are in batch mode.
pub open spec fn batch_modes(cs: Seq<ConnectorConfigView>) -> Seq<bool> {
    cs.map_values(|c: ConnectorConfigView| c.batch_mode)
}

/// Those of `tasks` that go to connector `c`, in their order.
pub open spec fn tasks_of(tasks: Seq<DeliveryTask>, c: usize) -> Seq<DeliveryTask>
    decreases tasks.len(),
{
    if tasks.len() == 0 {
        Seq::empty()
    } else {
        tasks_of(tasks.drop_last(), c) + if tasks.last().connector == c {
            seq![tasks.last()]
        } else {
            Seq::empty()
        }
    }
}

/// The state of a cycle while its problems are classified one by one.
pub struct CycleView {
    /// The store as the problems classified so far left it.
    pub database: DatabaseView,
    /// How many problems were new.
    pub new_problems: nat,
    /// How many problems had changed their status.
    pub status_changes: nat,
    /// How many problems were unchanged.
    pub skipped: nat,
    /// How many problems the store could not take the record of.
    pub failed: nat,
    /// The problems to forward: the new and the changed ones, in the order
    /// in which they were fetched.
    pub to_forward: Seq<Problem>,
}

impl CycleView {
    /// A cycle before its first problem.
    pub open spec fn start(db: DatabaseView) -> CycleView {
        CycleView {
            database: db,
            new_problems: 0,
            status_changes: 0,
            skipped: 0,
            failed: 0,
            to_forward: Seq::empty(),
        }
    }

    /// The cycle after one more problem was classified at `now`. A problem
    /// whose record the store refuses is counted as failed and holds up
    /// nothing else.
    pub open spec fn step(self, p: Problem, now: int) -> CycleView {
        if check_refusal(self.database, p) is Some {
            CycleView { failed: self.failed + 1, ..self }
        } else {
            match classify(self.database, p) {
                ProcessAction::NewProblem => CycleView {
                    database: after_check(self.database, p, now),
                    new_problems: self.new_problems + 1,
                    to_forward: self.to_forward.push(p),
                    ..self
                },
                ProcessAction::StatusChange => CycleView {
                    database: after_check(self.database, p, now),
                    status_changes: self.status_changes + 1,
                    to_forward: self.to_forward.push(p),
                    ..self
                },
                ProcessAction::Skipped => CycleView { skipped: self.skipped + 1, ..self },
            }
        }
    }
}

/// The cycle that classifies `problems` in order against `db`, problem `i`
/// at the time `times[i]`.
pub open spec fn cycle(db: DatabaseView, problems: Seq<Problem>, times: Seq<int>) -> CycleView
    decreases problems.len(),
{
    if problems.len() == 0 {
        CycleView::start(db)
    } else {
        cycle(db, problems.drop_last(), times).step(problems.last(), times[problems.len() - 1])
    }
}

/// Whether `times` gives every one of `n` problems a time that a clock can show.
pub open spec fn clock_readings(times: Seq<int>, n: nat) -> bool {
    &&& times.len() == n
    &&& forall|i: int| 0 <= i < n ==> i64::MIN <= #[trigger] times[i] <= i64::MAX
}

/// The outcome of a delivery as a plain value: the status code that
/// accepted it, or the rendering of the error it failed with.
pub open spec fn delivery_view(outcome: Result<HttpStatus, ForwarderError>) -> Result<u16, Seq<char>> {
    match outcome {
        Ok(s) => Ok(s@),
        Err(e) => Err(e.text()),
    }
}

/// The ledger entry for one problem that a delivery to `connector` handled
/// at `now`: `success` with the response code, or `failed` with the error.
pub open spec fn history_entry(
    problem_id: Seq<char>,
    connector: Seq<char>,
    outcome: Result<u16, Seq<char>>,
    now: int,
) -> ForwardHistoryView {
    match outcome {
        Ok(code) => ForwardHistoryView::attempted(
            problem_id,
            connector,
            outcome_success(),
            Some(code as int),
            None,
            now,
        ),
        Err(message) => ForwardHistoryView::attempted(
            problem_id,
            connector,
            outcome_failed(),
            None,
            Some(message),
            now,
        ),
    }
}

/// The store after the outcome of a delivery to `connector` was booked for
/// each of `handled` in order, problem `i` at the time `times[i]`: one
/// ledger entry per problem, best effort.
pub open spec fn booked(
    db: DatabaseView,
    handled: Seq<Problem>,
    connector: Seq<char>,
    outcome: Result<u16, Seq<char>>,
    times: Seq<int>,
) -> DatabaseView
    decreases handled.len(),
{
    if handled.len() == 0 {
        db
    } else {
        booked(db, handled.drop_last(), connector, outcome, times).recorded(
            history_entry(
                handled.last().problem_id@,
                connector,
                outcome,
                times[handled.len() - 1],
            ),
        )
    }
}

/// A cycle reads one time per problem: times that agree on those give the
/// same cycle.
pub proof fn lemma_cycle_reads_its_times(
    db: DatabaseView,
    problems: Seq<Problem>,
    a: Seq<int>,
    b: Seq<int>,
)
    requires
        forall|i: int| 0 <= i < problems.len() ==> a[i] == b[i],
    ensures
        cycle(db, problems, a) == cycle(db, problems, b),
    decreases problems.len(),
{
    if problems.len() > 0 {
        lemma_cycle_reads_its_times(db, problems.drop_last(), a, b);
    }
}

/// Booking reads one time per problem: times that agree on those give the
/// same store.
pub proof fn lemma_booked_reads_its_times(
    db: DatabaseView,
    handled: Seq<Problem>,
    connector: Seq<char>,
    outcome: Result<u16, Seq<char>>,
    a: Seq<int>,
    b: Seq<int>,
)
    requires
        forall|i: int| 0 <= i < handled.len() ==> a[i] == b[i],
    ensures
        booked(db, handled, connector, outcome, a) == booked(db, handled, connector, outcome, b),
    decreases handled.len(),
{
    if handled.len() > 0 {
        lemma_booked_reads_its_times(db, handled.drop_last(), connector, outcome, a, b);
    }
}

/// What a cycle did.
#[derive(Debug)]
pub struct CycleReport {
    pub new_problems: usize,
    pub status_changes: usize,
    pub skipped: usize,
    pub failed: usize,
    /// The problems to forward, in the order in which they were fetched.
    pub problems_to_forward: Vec<Problem>,
    /// The deliveries to make for them.
    pub tasks: Vec<DeliveryTask>,
}

impl CycleReport {
    /// Whether the report says what the cycle `c` says, and plans the
    /// deliveries that a cycle schedules for the problems to forward where
    /// `modes` says which connectors are in batch mode.
    pub open spec fn matches_cycle(self, c: CycleView, modes: Seq<bool>) -> bool {
        &&& self.tasks@ == scheduled(modes, c.to_forward.len())
        &&& self.new_problems == c.new_problems
        &&& self.status_changes == c.status_changes
        &&& self.skipped == c.skipped
        &&& self.failed == c.failed
        &&& self.problems_to_forward@ == c.to_forward
    }
}

/// The engine as a plain value.
pub struct EngineView {
    pub database: DatabaseView,
    pub connectors: Seq<ConnectorConfigView>,
    /// The access data for the monitoring API.
    pub client: DynatraceClientView,
    /// The seconds between the end of one cycle and the start of the next.
    pub poll_interval_seconds: u64,
}

/// The warnings that are owed at startup: one for every connector that
/// does not verify certificates, in the connectors' order.
pub open spec fn tls_warnings(cs: Seq<ConnectorConfigView>) -> Seq<Seq<char>>
    decreases cs.len(),
{
    if cs.len() == 0 {
        Seq::empty()
    } else {
        tls_warnings(cs.drop_last()) + if cs.last().verify_ssl {
            Seq::empty()
        } else {
            seq![cs.last().tls_warning()]
        }
    }
}

/// Whether `i` is the place of the first connector named `name`.
pub open spec fn first_named(cs: Seq<ConnectorConfigView>, name: Seq<char>, i: int) -> bool {
    &&& 0 <= i < cs.len()
    &&& cs[i].name == name
    &&& forall|j: int| 0 <= j < i ==> (#[trigger] cs[j]).name != name
}

/// Whether no connector is named `name`.
pub open spec fn none_named(cs: Seq<ConnectorConfigView>, name: Seq<char>) -> bool {
    forall|j: int| 0 <= j < cs.len() ==> (#[trigger] cs[j]).name != name
}

/// A run of texts as plain values.
pub open spec fn texts_view(ts: Seq<String>) -> Seq<Seq<char>> {
    ts.map_values(|t: String| t@)
}

/// The relay engine: the polling interval it runs under, the access data for the
/// monitoring API, the connectors and the tracking store.
pub struct ForwardingEngine {
    poll_interval_seconds: u64,
    dynatrace_client: DynatraceClient,
    connectors: Vec<Connector>,
    database: Database,
}

/// The descriptors of a run of connectors.
pub open spec fn connectors_view(cs: Seq<Connector>) -> Seq<ConnectorConfigView> {
    cs.map_values(|c: Connector| c@)
}

impl View for ForwardingEngine {
    type V = EngineView;

    closed spec fn view(&self) -> EngineView {
        EngineView {
            database: self.database@,
            connectors: connectors_view(self.connectors@),
            client: self.dynatrace_client@,
            poll_interval_seconds: self.poll_interval_seconds,
        }
    }
}

impl ForwardingEngine {
    /// An engine with an empty store and one connector per descriptor in
    /// the settings. Without an API token there is none.
    pub fn new(settings: Settings) -> (r: Result<Self, ForwarderError>)
        ensures
            match settings.dynatrace.api_token {
                Some(token) => r matches Ok(engine) && engine@ == (EngineView {
                    database: DatabaseView::empty(),
                    connectors: connector_views(settings.connectors@),
                    client: DynatraceClientView {
                        api_token: token@,
                        problems_url: problems_url(
                            settings.dynatrace.base_url@,
                            settings.dynatrace.tenant@,
                            crate::storage::models::text_view(settings.dynatrace.problem_selector),
                        ),
                    },
                    poll_interval_seconds: settings.polling.interval_seconds,
                }),
                None => r matches Err(ForwarderError::Config(m)) && m@
                    == "Missing DYNATRACE_API_TOKEN"@,
            },
    {
        let dynatrace_client = match DynatraceClient::new(&settings) {
            Ok(c) => c,
            Err(e) => {
                return Err(e);
            },
        };
        let database = Database::new();
        let mut connectors: Vec<Connector> = Vec::new();
        let mut i: usize = 0;
        while i < settings.connectors.len()
            invariant
                i <= settings.connectors.len(),
                connectors.len() == i,
                forall|j: int| 0 <= j < i ==> (#[trigger] connectors[j])@ == settings.connectors[j]@,
            decreases settings.connectors.len() - i,
        {
            connectors.push(Connector::new(settings.connectors[i].clone()));
            i += 1;
        }
        assert(connectors_view(connectors@) =~= connector_views(settings.connectors@));
        Ok(
            ForwardingEngine {
                poll_interval_seconds: settings.polling.interval_seconds,
                dynatrace_client,
                connectors,
                database,
            },
        )
    }

    /// The tracking store.
    pub fn database(&self) -> (db: &Database)
        ensures
            db@ == self@.database,
    {
        &self.database
    }

    /// The access data for the monitoring API.
    pub fn dynatrace_client(&self) -> (client: &DynatraceClient)
        ensures
            client@ == self@.client,
    {
        &self.dynatrace_client
    }

    /// The connectors.
    pub fn connectors(&self) -> (cs: &Vec<Connector>)
        ensures
            connectors_view(cs@) == self@.connectors,
    {
        &self.connectors
    }

    /// The warnings that are owed at startup: one for every connector that
    /// does not verify certificates.
    pub fn startup_warnings(&self) -> (warnings: Vec<String>)
        ensures
            texts_view(warnings@) == tls_warnings(self@.connectors),
    {
        let ghost cs = self@.connectors;
        let mut warnings: Vec<String> = Vec::new();
        let mut i: usize = 0;
        while i < self.connectors.len()
            invariant
                i <= self.connectors.len(),
                cs == connectors_view(self.connectors@),
                texts_view(warnings@) == tls_warnings(cs.take(i as int)),
            decreases self.connectors.len() - i,
        {
            proof {
                assert(cs.take(i + 1).drop_last() =~= cs.take(i as int));
                assert(cs.take(i + 1).last() == self.connectors[i as int]@);
            }
            let ghost before = warnings@;
            match self.connectors[i].tls_warning() {
                Some(w) => {
                    warnings.push(w);
                    proof {
                        assert(texts_view(warnings@) =~= texts_view(before) + seq![w@]);
                    }
                },
                None => {
                    proof {
                        assert(texts_view(before) + Seq::<Seq<char>>::empty() =~= texts_view(before));
                    }
                },
            }
            i += 1;
        }
        proof {
            assert(cs.take(cs.len() as int) =~= cs);
        }
        warnings
    }

    /// The place of the first connector named `name`.
    pub fn find_connector(&self, name: &str) -> (at: Option<usize>)
        ensures
            match at {
                Some(i) => first_named(self@.connectors, name@, i as int),
                None => none_named(self@.connectors, name@),
            },
    {
        let key = name.to_owned();
        let mut i: usize = 0;
        while i < self.connectors.len()
            invariant
                i <= self.connectors.len(),
                key@ == name@,
                forall|j: int| 0 <= j < i ==> (#[trigger] self@.connectors[j]).name != name@,
            decreases self.connectors.len() - i,
        {
            assert(self@.connectors[i as int] == self.connectors[i as int]@);
            if self.connectors[i].name().to_owned() == key {
                return Some(i);
            }
            i += 1;
        }
        None
    }

    /// Starts a test of the first connector named `name`: the test problem
    /// and its delivery. There is nothing to start where no connector has
    /// that name. The tracking store is not involved.
    pub fn test_connector(&self, name: &str) -> (r: Option<(Problem, Delivery)>)
        ensures
            match r {
                Some(started) => exists|i: int|
                    #[trigger] first_named(self@.connectors, name@, i) && starts_test(
                        self@.connectors[i],
                        started.0,
                        started.1,
                    ),
                None => none_named(self@.connectors, name@),
            },
    {
        match self.find_connector(name) {
            Some(i) => {
                assert(self@.connectors[i as int] == self.connectors[i as int]@);
                let started = self.connectors[i].test();
                assert(first_named(self@.connectors, name@, i as int));
                Some(started)
            },
            None => None,
        }
    }

    /// How many seconds lie between the end of one cycle and the start of
    /// the next.
    pub fn poll_interval_seconds(&self) -> (secs: u64)
        ensures
            secs == self@.poll_interval_seconds,
    {
        self.poll_interval_seconds
    }

    /// The aggregate snapshot of the store.
    pub fn get_stats(&self) -> (stats: DatabaseStats)
        ensures
            stats == self@.database.stats(),
    {
        self.database.get_stats()
    }

    /// Puts a row back that was read from durable storage: the row enters
    /// the store as an insert does, under a fresh identity, with the status,
    /// the forward count and the timestamps it carries.
    pub fn restore_problem(&mut self, row: &ForwardedProblem) -> (r: Result<i64, ForwarderError>)
        ensures
            match old(self)@.database.insert_refusal(row.problem_id@) {
                Some(e) => r == Err::<i64, ForwarderError>(ForwarderError::Database(e))
                    && final(self)@ == old(self)@,
                None => r == Ok::<i64, ForwarderError>(
                    old(self)@.database.next_problem_row as i64,
                ) && final(self)@ == (EngineView {
                    database: old(self)@.database.inserted(row@),
                    ..old(self)@
                }),
            },
            final(self)@.database.wf(),
    {
        self.database.insert_problem(row)
    }

    /// Puts a ledger entry back that was read from durable storage, best
    /// effort.
    pub fn restore_history(&mut self, entry: &ForwardHistory)
        ensures
            final(self)@ == (EngineView {
                database: old(self)@.database.recorded(entry@),
                ..old(self)@
            }),
            final(self)@.database.wf(),
    {
        self.database.record_history(entry)
    }

    /// Forgets every tracked problem and returns how many there were. The
    /// ledger is left untouched; the next cycle sees every problem as new.
    pub fn clear_cache(&mut self) -> (removed: u64)
        ensures
            removed == old(self)@.database.problems.len(),
            final(self)@ == (EngineView { database: old(self)@.database.cleared(), ..old(self)@ }),
            final(self)@.database.wf(),
    {
        self.database.clear_all_problems()
    }

    /// Classifies a problem against the store at `now` and records what was
    /// seen: a new problem is inserted, a changed one has its status
    /// updated, an unchanged one leaves the store alone.
    pub fn check_problem_at(&mut self, problem: &Problem, now: i64) -> (r: Result<
        ProcessAction,
        ForwarderError,
    >)
        ensures
            match check_refusal(old(self)@.database, *problem) {
                Some(e) => r == Err::<ProcessAction, ForwarderError>(ForwarderError::Database(e)),
                None => r == Ok::<ProcessAction, ForwarderError>(
                    classify(old(self)@.database, *problem),
                ),
            },
            final(self)@ == (EngineView {
                database: after_check(old(self)@.database, *problem, now as int),
                ..old(self)@
            }),
            final(self)@.database.wf(),
    {
        proof {
            use_type_invariant(&self.database);
        }
        let status = problem.status.to_string();
        match self.database.get_problem(problem.problem_id.as_str()) {
            None => {
                let row = ForwardedProblem::new_at(
                    problem.problem_id.clone(),
                    status,
                    Some(problem.severity_level.clone()),
                    problem.title.clone(),
                    now,
                );
                match self.database.insert_problem(&row) {
                    Ok(_) => Ok(ProcessAction::NewProblem),
                    Err(e) => Err(e),
                }
            },
            Some(stored) => {
                if stored.status != status {
                    match self.database.update_problem_status_at(
                        problem.problem_id.as_str(),
                        status.as_str(),
                        now,
                    ) {
                        Ok(()) => Ok(ProcessAction::StatusChange),
                        Err(e) => Err(e),
                    }
                } else {
                    Ok(ProcessAction::Skipped)
                }
            },
        }
    }

    /// Classifies a problem against the store as of now, by the system
    /// clock, and records what was seen.
    pub fn check_problem(&mut self, problem: &Problem) -> (r: Result<ProcessAction, ForwarderError>)
        ensures
            match check_refusal(old(self)@.database, *problem) {
                Some(e) => r == Err::<ProcessAction, ForwarderError>(ForwarderError::Database(e)),
                None => r == Ok::<ProcessAction, ForwarderError>(
                    classify(old(self)@.database, *problem),
                ),
            },
            exists|now: i64|
                final(self)@ == (EngineView {
                    database: #[trigger] after_check(old(self)@.database, *problem, now as int),
                    ..old(self)@
                }),
            final(self)@.database.wf(),
    {
        let now = unix_seconds();
        self.check_problem_at(problem, now)
    }

    /// The deliveries for the problems to forward: one task for every
    /// batch-mode connector, which carries all of them, then one task per
    /// problem for every individual-mode connector.
    pub fn forward_collected_problems(&self, problems: &[Problem]) -> (tasks: Vec<DeliveryTask>)
        ensures
            tasks@ == plan(batch_modes(self@.connectors), problems@.len()),
    {
        let count = problems.len();
        let ghost modes = batch_modes(self@.connectors);
        let mut tasks: Vec<DeliveryTask> = Vec::new();
        let mut c: usize = 0;
        while c < self.connectors.len()
            invariant
                c <= self.connectors.len(),
                modes == batch_modes(self@.connectors),
                modes.len() == self.connectors.len(),
                tasks@ == batch_tasks(modes.take(c as int)),
            decreases self.connectors.len() - c,
        {
            proof {
                assert(modes.take(c + 1).drop_last() =~= modes.take(c as int));
                assert(modes.take(c + 1).last() == self.connectors[c as int]@.batch_mode);
            }
            if self.connectors[c].is_batch_mode() {
                tasks.push(DeliveryTask { connector: c, scope: DeliveryScope::Batch });
            }
            c += 1;
        }
        proof {
            assert(modes.take(modes.len() as int) =~= modes);
        }
        let ghost batch = tasks@;
        let mut c: usize = 0;
        while c < self.connectors.len()
            invariant
                c <= self.connectors.len(),
                modes == batch_modes(self@.connectors),
                modes.len() == self.connectors.len(),
                tasks@ == batch + individual_tasks(modes.take(c as int), count as nat),
            decreases self.connectors.len() - c,
        {
            proof {
                assert(modes.take(c + 1).drop_last() =~= modes.take(c as int));
                assert(modes.take(c + 1).last() == self.connectors[c as int]@.batch_mode);
            }
            if !self.connectors[c].is_batch_mode() {
                let ghost before = tasks@;
                let mut j: usize = 0;
                while j < count
                    invariant
                        j <= count,
                        tasks@ == before + tasks_per_problem(c, j as nat),
                    decreases count - j,
                {
                    tasks.push(DeliveryTask { connector: c, scope: DeliveryScope::Individual(j) });
                    proof {
                        assert(tasks_per_problem(c, (j + 1) as nat) =~= tasks_per_problem(
                            c,
                            j as nat,
                        ).push(DeliveryTask { connector: c, scope: DeliveryScope::Individual(j) }));
                    }
                    j += 1;
                }
                proof {
                    assert(before + tasks_per_problem(c, count as nat) =~= batch + (
                    individual_tasks(modes.take(c as int), count as nat) + tasks_per_problem(
                        c,
                        count as nat,
                    )));
                }
            } else {
                proof {
                    assert(individual_tasks(modes.take(c as int), count as nat) + Seq::<
                        DeliveryTask,
                    >::empty() =~= individual_tasks(modes.take(c as int), count as nat));
                }
            }
            c += 1;
        }
        proof {
            assert(modes.take(modes.len() as int) =~= modes);
        }
        tasks
    }

    /// Classifies `problems` in order, each at the time `fixed` or, where
    /// there is none, at the time the clock shows when its turn comes, and
    /// plans the deliveries for those to forward.
    fn run_cycle(&mut self, problems: Vec<Problem>, fixed: Option<i64>) -> (out: (
        CycleReport,
        Ghost<Seq<int>>,
    ))
        ensures
            clock_readings(out.1@, problems@.len()),
            fixed matches Some(t) ==> forall|i: int|
                0 <= i < problems@.len() ==> (#[trigger] out.1@[i]) == t,
            out.0.matches_cycle(
                cycle(old(self)@.database, problems@, out.1@),
                batch_modes(old(self)@.connectors),
            ),
            final(self)@ == (EngineView {
                database: cycle(old(self)@.database, problems@, out.1@).database,
                ..old(self)@
            }),
            final(self)@.database.wf(),
    {
        proof {
            use_type_invariant(&self.database);
        }
        let ghost all = problems@;
        let ghost engine0 = self@;
        let ghost mut times: Seq<int> = Seq::empty();
        let count = problems.len();
        let mut new_problems: usize = 0;
        let mut status_changes: usize = 0;
        let mut skipped: usize = 0;
        let mut failed: usize = 0;
        let mut to_forward: Vec<Problem> = Vec::new();
        for p in it: problems
            invariant
                it.seq() == all,
                clock_readings(times, it.index() as nat),
                fixed matches Some(t) ==> forall|i: int|
                    0 <= i < it.index() ==> (#[trigger] times[i]) == t,
                self@ == (EngineView {
                    database: cycle(engine0.database, all.take(it.index() as int), times).database,
                    ..engine0
                }),
                self@.database.wf(),
                new_problems == cycle(
                    engine0.database,
                    all.take(it.index() as int),
                    times,
                ).new_problems,
                status_changes == cycle(
                    engine0.database,
                    all.take(it.index() as int),
                    times,
                ).status_changes,
                skipped == cycle(engine0.database, all.take(it.index() as int), times).skipped,
                failed == cycle(engine0.database, all.take(it.index() as int), times).failed,
                to_forward@ == cycle(
                    engine0.database,
                    all.take(it.index() as int),
                    times,
                ).to_forward,
                new_problems + status_changes + skipped + failed == it.index(),
                all.len() == count,
        {
            assert(it.index() < all.len());
            let now = match fixed {
                Some(t) => t,
                None => unix_seconds(),
            };
            proof {
                let before = all.take(it.index() as int);
                let after = all.take(it.index() + 1);
                assert(after.drop_last() =~= before);
                assert(after.last() == p);
                let longer = times.push(now as int);
                lemma_cycle_reads_its_times(engine0.database, before, times, longer);
                times = longer;
            }
            match self.check_problem_at(&p, now) {
                Ok(ProcessAction::NewProblem) => {
                    new_problems += 1;
                    to_forward.push(p);
                },
                Ok(ProcessAction::StatusChange) => {
                    status_changes += 1;
                    to_forward.push(p);
                },
                Ok(ProcessAction::Skipped) => {
                    skipped += 1;
                },
                Err(_) => {
                    failed += 1;
                },
            }
        }
        proof {
            assert(all.take(all.len() as int) =~= all);
        }
        let tasks = if to_forward.len() == 0 {
            Vec::new()
        } else {
            self.forward_collected_problems(to_forward.as_slice())
        };
        (
            CycleReport {
                new_problems,
                status_changes,
                skipped,
                failed,
                problems_to_forward: to_forward,
                tasks,
            },
            Ghost(times),
        )
    }

    /// Runs the classifying half of a poll cycle over the problems that
    /// were fetched, all of them at the time `now`: every problem is
    /// classified and recorded before any delivery is planned, and a
    /// problem whose record the store refuses holds up none of the others.
    pub fn poll_and_forward_at(&mut self, problems: Vec<Problem>, now: i64) -> (report: CycleReport)
        ensures
            report.matches_cycle(
                cycle(
                    old(self)@.database,
                    problems@,
                    Seq::new(problems@.len(), |i: int| now as int),
                ),
                batch_modes(old(self)@.connectors),
            ),
            final(self)@ == (EngineView {
                database: cycle(
                    old(self)@.database,
                    problems@,
                    Seq::new(problems@.len(), |i: int| now as int),
                ).database,
                ..old(self)@
            }),
            final(self)@.database.wf(),
    {
        let ghost all = problems@;
        let (report, Ghost(times)) = self.run_cycle(problems, Some(now));
        proof {
            assert(times =~= Seq::new(all.len(), |i: int| now as int));
        }
        report
    }

    /// Runs the classifying half of a poll cycle over the problems that
    /// were fetched, each at the time the system clock shows when its turn
    /// comes.
    pub fn poll_and_forward(&mut self, problems: Vec<Problem>) -> (report: CycleReport)
        ensures
            exists|times: Seq<int>|
                {
                    &&& clock_readings(times, problems@.len())
                    &&& report.matches_cycle(
                        #[trigger] cycle(old(self)@.database, problems@, times),
                        batch_modes(old(self)@.connectors),
                    )
                    &&& final(self)@ == (EngineView {
                        database: cycle(old(self)@.database, problems@, times).database,
                        ..old(self)@
                    })
                },
            final(self)@.database.wf(),
    {
        let (report, Ghost(times)) = self.run_cycle(problems, None);
        report
    }

    /// Books the outcome of a delivery for each problem it handled, each at
    /// the time `fixed` or, where there is none, at the time the clock
    /// shows when its turn comes.
    fn book(
        &mut self,
        connector_name: &str,
        handled: &[Problem],
        outcome: &Result<HttpStatus, ForwarderError>,
        fixed: Option<i64>,
    ) -> (times: Ghost<Seq<int>>)
        ensures
            clock_readings(times@, handled@.len()),
            fixed matches Some(t) ==> forall|i: int|
                0 <= i < handled@.len() ==> (#[trigger] times@[i]) == t,
            final(self)@ == (EngineView {
                database: booked(
                    old(self)@.database,
                    handled@,
                    connector_name@,
                    delivery_view(*outcome),
                    times@,
                ),
                ..old(self)@
            }),
            final(self)@.database.wf(),
    {
        proof {
            use_type_invariant(&self.database);
        }
        let ghost engine0 = self@;
        let ghost result = delivery_view(*outcome);
        let ghost mut times: Seq<int> = Seq::empty();
        let mut i: usize = 0;
        while i < handled.len()
            invariant
                i <= handled.len(),
                result == delivery_view(*outcome),
                clock_readings(times, i as nat),
                fixed matches Some(t) ==> forall|k: int| 0 <= k < i ==> (#[trigger] times[k]) == t,
                self@ == (EngineView {
                    database: booked(
                        engine0.database,
                        handled@.take(i as int),
                        connector_name@,
                        result,
                        times,
                    ),
                    ..engine0
                }),
                self@.database.wf(),
            decreases handled.len() - i,
        {
            let now = match fixed {
                Some(t) => t,
                None => unix_seconds(),
            };
            proof {
                let before = handled@.take(i as int);
                let after = handled@.take(i + 1);
                assert(after.drop_last() =~= before);
                assert(after.last() == handled@[i as int]);
                let longer = times.push(now as int);
                lemma_booked_reads_its_times(
                    engine0.database,
                    before,
                    connector_name@,
                    result,
                    times,
                    longer,
                );
                times = longer;
            }
            let entry = match outcome {
                Ok(status) => ForwardHistory::new_at(
                    handled[i].problem_id.clone(),
                    connector_name.to_owned(),
                    String::from_str("success"),
                    Some(status.as_u16() as i32),
                    None,
                    now,
                ),
                Err(e) => ForwardHistory::new_at(
                    handled[i].problem_id.clone(),
                    connector_name.to_owned(),
                    String::from_str("failed"),
                    None,
                    Some(e.to_string()),
                    now,
                ),
            };
            self.database.record_history(&entry);
            i += 1;
        }
        proof {
            assert(handled@.take(handled@.len() as int) =~= handled@);
        }
        Ghost(times)
    }

    /// Books the outcome of a delivery to the connector named
    /// `connector_name`, all entries at the time `now`: one ledger entry
    /// for every problem that the delivery handled, marked as a success
    /// with the response code or as failed with the error. The tracking
    /// rows are not touched, and a refusal by the ledger is dropped.
    pub fn record_delivery_at(
        &mut self,
        connector_name: &str,
        handled: &[Problem],
        outcome: &Result<HttpStatus, ForwarderError>,
        now: i64,
    )
        ensures
            final(self)@ == (EngineView {
                database: booked(
                    old(self)@.database,
                    handled@,
                    connector_name@,
                    delivery_view(*outcome),
                    Seq::new(handled@.len(), |i: int| now as int),
                ),
                ..old(self)@
            }),
            final(self)@.database.wf(),
    {
        let Ghost(times) = self.book(connector_name, handled, outcome, Some(now));
        proof {
            assert(times =~= Seq::new(handled@.len(), |i: int| now as int));
        }
    }

    /// Books the outcome of a delivery to the connector named
    /// `connector_name`, each entry at the time the system clock shows when
    /// it is written.
    pub fn record_delivery(
        &mut self,
        connector_name: &str,
        handled: &[Problem],
        outcome: &Result<HttpStatus, ForwarderError>,
    )
        ensures
            exists|times: Seq<int>|
                {
                    &&& clock_readings(times, handled@.len())
                    &&& final(self)@ == (EngineView {
                        database: #[trigger] booked(
                            old(self)@.database,
                            handled@,
                            connector_name@,
                            delivery_view(*outcome),
                            times,
                        ),
                        ..old(self)@
                    })
                },
            final(self)@.database.wf(),
    {
        let Ghost(times) = self.book(connector_name, handled, outcome, None);
    }
}

} // verus!
