//! What classification holds across fetches: what a second look at a
//! problem finds, and what a cleared store finds.

use crate::dynatrace::models::{Problem, ProblemStatus};
use crate::forwarder::engine::{
    after_check, booked, check_refusal, classify, clock_readings, cycle, history_entry, CycleView,
    ProcessAction,
};
use crate::storage::database::DatabaseView;
use crate::storage::models::ForwardedProblemView;
use vstd::prelude::*;

verus! {

/// After an accepted insert the store holds exactly the problems it held
/// before and the one inserted.
pub proof fn lemma_inserted_has(db: DatabaseView, row: ForwardedProblemView, id: Seq<char>)
    requires
        db.wf(),
        db.insert_refusal(row.problem_id) is None,
        DatabaseView::problem_fits(row),
    ensures
        db.inserted(row).has(id) <==> (db.has(id) || id == row.problem_id),
        db.inserted(row).lookup(row.problem_id) == Some(row.stored_as(db.next_problem_row)),
        db.has(id) ==> db.inserted(row).lookup(id) == db.lookup(id),
{
    let after = db.inserted(row);
    db.lemma_inserted_wf(row);
    after.lemma_slot_unique(row.problem_id, db.problems.len() as int);
    if db.has(id) {
        let i = db.slot(id);
        assert(db.holds_at(id, i));
        assert(after.problems[i] == db.problems[i]);
        assert(after.holds_at(id, i));
        after.lemma_slot_unique(id, i);
    }
    if after.has(id) && id != row.problem_id {
        let i = after.slot(id);
        assert(after.holds_at(id, i));
        assert(i < db.problems.len());
        assert(after.problems[i] == db.problems[i]);
        assert(db.holds_at(id, i));
    }
}

/// Once a problem was classified and recorded, the store is well formed
/// and holds it with the status it was seen with.
pub proof fn lemma_recorded_status(db: DatabaseView, p: Problem, now: int)
    requires
        db.wf(),
        i64::MIN <= now <= i64::MAX,
        check_refusal(db, p) is None,
    ensures
        after_check(db, p, now).wf(),
        after_check(db, p, now).lookup(p.problem_id@) is Some,
        after_check(db, p, now).lookup(p.problem_id@)->0.status == p.status.text(),
        after_check(db, p, now).history == db.history,
{
    let id = p.problem_id@;
    match classify(db, p) {
        ProcessAction::NewProblem => {
            lemma_inserted_has(db, p.tracked_row(now), id);
            db.lemma_inserted_wf(p.tracked_row(now));
        },
        ProcessAction::StatusChange => {
            db.lemma_with_status_wf(id, p.status.text(), now);
        },
        ProcessAction::Skipped => {},
    }
}

/// A problem that is fetched again with the status it was recorded with is
/// unchanged: the store stays as it is, and a cycle counts the problem as
/// skipped and adds it to nothing that is forwarded.
pub proof fn lemma_same_status_is_unchanged(
    db: DatabaseView,
    first: Problem,
    again: Problem,
    t1: int,
    t2: int,
    c: CycleView,
)
    requires
        db.wf(),
        i64::MIN <= t1 <= i64::MAX,
        check_refusal(db, first) is None,
        again.problem_id@ == first.problem_id@,
        again.status == first.status,
        c.database == after_check(db, first, t1),
    ensures
        classify(after_check(db, first, t1), again) == ProcessAction::Skipped,
        check_refusal(after_check(db, first, t1), again) is None,
        after_check(after_check(db, first, t1), again, t2) == after_check(db, first, t1),
        c.step(again, t2) == (CycleView { skipped: c.skipped + 1, ..c }),
{
    lemma_recorded_status(db, first, t1);
}

/// A problem that is fetched with another status than the store holds for
/// it is changed: its row takes the new status and counts exactly one more
/// forward, and a further fetch with that status finds it unchanged.
pub proof fn lemma_status_change_counts_once(db: DatabaseView, p: Problem, now: int)
    requires
        db.wf(),
        i64::MIN <= now <= i64::MAX,
        db.lookup(p.problem_id@) is Some,
        db.lookup(p.problem_id@)->0.status != p.status.text(),
        db.lookup(p.problem_id@)->0.forward_count < i32::MAX,
    ensures
        classify(db, p) == ProcessAction::StatusChange,
        check_refusal(db, p) is None,
        after_check(db, p, now).wf(),
        after_check(db, p, now).lookup(p.problem_id@) == Some(
            db.lookup(p.problem_id@)->0.with_status(p.status.text(), now),
        ),
        after_check(db, p, now).lookup(p.problem_id@)->0.forward_count == db.lookup(
            p.problem_id@,
        )->0.forward_count + 1,
        after_check(db, p, now).lookup(p.problem_id@)->0.status == p.status.text(),
        classify(after_check(db, p, now), p) == ProcessAction::Skipped,
{
    db.lemma_with_status_wf(p.problem_id@, p.status.text(), now);
}

/// A problem whose status is another one than the status the store holds
/// for it is changed, whichever two statuses they are.
pub proof fn lemma_other_status_is_changed(
    db: DatabaseView,
    p: Problem,
    held: ProblemStatus,
)
    requires
        db.lookup(p.problem_id@) is Some,
        db.lookup(p.problem_id@)->0.status == held.text(),
    ensures
        classify(db, p) == if p.status == held {
            ProcessAction::Skipped
        } else {
            ProcessAction::StatusChange
        },
{
    ProblemStatus::lemma_text_injective(p.status, held);
}

/// A problem that the store has never held is new: it is inserted with the
/// status it was seen with, counted as forwarded once, and a further fetch
/// of it with the same status finds it unchanged.
pub proof fn lemma_first_sight_is_new(db: DatabaseView, p: Problem, again: Problem, now: int)
    requires
        db.wf(),
        i64::MIN <= now <= i64::MAX,
        !db.has(p.problem_id@),
        db.next_problem_row < i64::MAX,
        again.problem_id@ == p.problem_id@,
        again.status == p.status,
    ensures
        classify(db, p) == ProcessAction::NewProblem,
        check_refusal(db, p) is None,
        after_check(db, p, now) == db.inserted(p.tracked_row(now)),
        after_check(db, p, now).lookup(p.problem_id@) == Some(
            p.tracked_row(now).stored_as(db.next_problem_row),
        ),
        after_check(db, p, now).lookup(p.problem_id@)->0.forward_count == 1,
        classify(after_check(db, p, now), again) == ProcessAction::Skipped,
        classify(after_check(db, p, now), p) != ProcessAction::NewProblem,
{
    lemma_inserted_has(db, p.tracked_row(now), p.problem_id@);
}

/// Booking the outcome of a delivery only appends to the ledger: the
/// tracking rows stay as they are, every entry that was there stays where
/// it was, and while the ledger has identities left there is one new entry
/// for each problem handled, in the problems' order.
pub proof fn lemma_booking_appends(
    db: DatabaseView,
    handled: Seq<Problem>,
    connector: Seq<char>,
    outcome: Result<u16, Seq<char>>,
    times: Seq<int>,
)
    requires
        db.wf(),
        clock_readings(times, handled.len()),
    ensures
        booked(db, handled, connector, outcome, times).wf(),
        booked(db, handled, connector, outcome, times).problems == db.problems,
        booked(db, handled, connector, outcome, times).next_problem_row == db.next_problem_row,
        db.history.is_prefix_of(booked(db, handled, connector, outcome, times).history),
        db.next_history_row + handled.len() <= i64::MAX ==> {
            &&& booked(db, handled, connector, outcome, times).history.len() == db.history.len()
                + handled.len()
            &&& forall|i: int|
                0 <= i < handled.len() ==> #[trigger] booked(
                    db,
                    handled,
                    connector,
                    outcome,
                    times,
                ).history[db.history.len() + i] == history_entry(
                    handled[i].problem_id@,
                    connector,
                    outcome,
                    times[i],
                ).stored_as(db.next_history_row + i)
        },
    decreases handled.len(),
{
    if handled.len() > 0 {
        let head = handled.drop_last();
        let shorter = times.take(head.len() as int);
        lemma_booking_appends(db, head, connector, outcome, shorter);
        crate::forwarder::engine::lemma_booked_reads_its_times(
            db,
            head,
            connector,
            outcome,
            shorter,
            times,
        );
        let before = booked(db, head, connector, outcome, times);
        let entry = history_entry(
            handled.last().problem_id@,
            connector,
            outcome,
            times[handled.len() - 1],
        );
        let after = booked(db, handled, connector, outcome, times);
        assert(after == before.recorded(entry));
        if before.append_refusal() is None {
            before.lemma_appended_wf(entry);
        }
        assert(db.history.is_prefix_of(after.history)) by {
            assert(db.history =~= before.history.subrange(0, db.history.len() as int));
            assert(db.history =~= after.history.subrange(0, db.history.len() as int));
        }
        if db.next_history_row + handled.len() <= i64::MAX {
            assert(before.next_history_row == db.next_history_row + head.len()) by {
                lemma_booking_counts(db, head, connector, outcome, times);
            }
            assert forall|i: int| 0 <= i < handled.len() implies #[trigger] after.history[db.history.len()
                + i] == history_entry(handled[i].problem_id@, connector, outcome, times[i]).stored_as(
                db.next_history_row + i,
            ) by {
                if i < head.len() {
                    assert(after.history[db.history.len() + i] == before.history[db.history.len()
                        + i]);
                    assert(head[i] == handled[i]);
                    assert(shorter[i] == times[i]);
                }
            }
        }
    } else {
        assert(db.history =~= db.history.subrange(0, db.history.len() as int));
    }
}

/// While the ledger has identities left, booking hands out one identity
/// per problem handled.
proof fn lemma_booking_counts(
    db: DatabaseView,
    handled: Seq<Problem>,
    connector: Seq<char>,
    outcome: Result<u16, Seq<char>>,
    times: Seq<int>,
)
    requires
        db.wf(),
        db.next_history_row + handled.len() <= i64::MAX,
    ensures
        booked(db, handled, connector, outcome, times).next_history_row == db.next_history_row
            + handled.len(),
        booked(db, handled, connector, outcome, times).history.len() == db.history.len()
            + handled.len(),
    decreases handled.len(),
{
    if handled.len() > 0 {
        lemma_booking_counts(db, handled.drop_last(), connector, outcome, times);
    }
}

/// What was recorded stays recorded whatever becomes of the delivery: once
/// a problem was classified and recorded, booking any outcome of any
/// delivery changes nothing about how the problem is classified next, so a
/// further fetch with the same status is unchanged also after a delivery
/// that failed.
pub proof fn lemma_booking_keeps_the_record(
    db: DatabaseView,
    p: Problem,
    now: int,
    handled: Seq<Problem>,
    connector: Seq<char>,
    outcome: Result<u16, Seq<char>>,
    times: Seq<int>,
    again: Problem,
)
    requires
        db.wf(),
        i64::MIN <= now <= i64::MAX,
        check_refusal(db, p) is None,
        clock_readings(times, handled.len()),
        again.problem_id@ == p.problem_id@,
        again.status == p.status,
    ensures
        classify(
            booked(after_check(db, p, now), handled, connector, outcome, times),
            again,
        ) == ProcessAction::Skipped,
        forall|q: Problem|
            classify(booked(after_check(db, p, now), handled, connector, outcome, times), q)
                == #[trigger] classify(after_check(db, p, now), q),
{
    let seen = after_check(db, p, now);
    lemma_recorded_status(db, p, now);
    lemma_booking_appends(seen, handled, connector, outcome, times);
    let later = booked(seen, handled, connector, outcome, times);
    assert forall|q: Problem| classify(later, q) == #[trigger] classify(seen, q) by {
        let id = q.problem_id@;
        if seen.has(id) {
            let i = seen.slot(id);
            assert(seen.holds_at(id, i));
            assert(later.holds_at(id, i));
            later.lemma_slot_unique(id, i);
        }
        if later.has(id) {
            let i = later.slot(id);
            assert(later.holds_at(id, i));
            assert(seen.holds_at(id, i));
            seen.lemma_slot_unique(id, i);
        }
    }
    lemma_same_status_is_unchanged(db, p, again, now, now, CycleView::start(seen));
}

/// A cycle counts every problem once, as new, changed, unchanged or
/// refused, and forwards exactly the new and the changed ones.
pub proof fn lemma_cycle_counts(db: DatabaseView, problems: Seq<Problem>, times: Seq<int>)
    ensures
        cycle(db, problems, times).new_problems + cycle(db, problems, times).status_changes
            + cycle(db, problems, times).skipped + cycle(db, problems, times).failed
            == problems.len(),
        cycle(db, problems, times).to_forward.len() == cycle(db, problems, times).new_problems
            + cycle(db, problems, times).status_changes,
    decreases problems.len(),
{
    if problems.len() > 0 {
        lemma_cycle_counts(db, problems.drop_last(), times);
    }
}

/// Whether no problem identifier occurs twice among `problems`.
pub open spec fn distinct_problems(problems: Seq<Problem>) -> bool {
    forall|i: int, j: int|
        0 <= i < j < problems.len() ==> (#[trigger] problems[i]).problem_id@ != (
        #[trigger] problems[j]).problem_id@
}

/// A cycle over problems with distinct identifiers, run against a store
/// that holds none of them and has identities left for all, finds every
/// problem new and forwards them all; the ledger is not touched.
pub proof fn lemma_unknown_problems_are_new(
    db: DatabaseView,
    problems: Seq<Problem>,
    times: Seq<int>,
)
    requires
        db.wf(),
        clock_readings(times, problems.len()),
        distinct_problems(problems),
        forall|i: int| 0 <= i < problems.len() ==> !db.has(#[trigger] problems[i].problem_id@),
        db.next_problem_row + problems.len() <= i64::MAX,
    ensures
        cycle(db, problems, times).new_problems == problems.len(),
        cycle(db, problems, times).status_changes == 0,
        cycle(db, problems, times).skipped == 0,
        cycle(db, problems, times).failed == 0,
        cycle(db, problems, times).to_forward == problems,
        cycle(db, problems, times).database.wf(),
        cycle(db, problems, times).database.history == db.history,
        cycle(db, problems, times).database.next_problem_row == db.next_problem_row
            + problems.len(),
        forall|id: Seq<char>|
            cycle(db, problems, times).database.has(id) <==> (db.has(id) || exists|i: int|
                0 <= i < problems.len() && #[trigger] problems[i].problem_id@ == id),
    decreases problems.len(),
{
    if problems.len() == 0 {
        assert(cycle(db, problems, times).to_forward =~= problems);
    } else {
        let head = problems.drop_last();
        let p = problems.last();
        let now = times[problems.len() - 1];
        let shorter = times.take(head.len() as int);
        assert forall|i: int| 0 <= i < head.len() implies !db.has(
            #[trigger] head[i].problem_id@,
        ) by {
            assert(head[i] == problems[i]);
        }
        assert(distinct_problems(head)) by {
            assert forall|i: int, j: int| 0 <= i < j < head.len() implies (
            #[trigger] head[i]).problem_id@ != (#[trigger] head[j]).problem_id@ by {
                assert(head[i] == problems[i]);
                assert(head[j] == problems[j]);
            }
        }
        lemma_unknown_problems_are_new(db, head, shorter);
        crate::forwarder::engine::lemma_cycle_reads_its_times(db, head, shorter, times);
        let c = cycle(db, head, times);
        assert(!c.database.has(p.problem_id@)) by {
            if c.database.has(p.problem_id@) {
                assert(!db.has(problems[problems.len() - 1].problem_id@));
                let i = choose|i: int|
                    0 <= i < head.len() && #[trigger] head[i].problem_id@ == p.problem_id@;
                assert(head[i] == problems[i]);
            }
        }
        lemma_inserted_has(c.database, p.tracked_row(now), p.problem_id@);
        c.database.lemma_inserted_wf(p.tracked_row(now));
        let after = cycle(db, problems, times);
        assert(after.to_forward =~= problems);
        assert forall|id: Seq<char>| after.database.has(id) <==> (db.has(id) || exists|i: int|
            0 <= i < problems.len() && #[trigger] problems[i].problem_id@ == id) by {
            lemma_inserted_has(c.database, p.tracked_row(now), id);
            if after.database.has(id) {
                if id == p.problem_id@ {
                    assert(problems[problems.len() - 1].problem_id@ == id);
                } else if !db.has(id) {
                    let i = choose|i: int| 0 <= i < head.len() && #[trigger] head[i].problem_id@ == id;
                    assert(head[i] == problems[i]);
                    assert(problems[i].problem_id@ == id);
                }
            }
            if exists|i: int| 0 <= i < problems.len() && #[trigger] problems[i].problem_id@ == id {
                let i = choose|i: int|
                    0 <= i < problems.len() && #[trigger] problems[i].problem_id@ == id;
                if i < head.len() {
                    assert(head[i] == problems[i]);
                    assert(head[i].problem_id@ == id);
                }
            }
        }
    }
}

/// Clearing the store leaves the ledger as it was and removes every
/// tracked problem, so that the next cycle finds every fetched problem
/// new, whatever the store held before; problems are told apart by their
/// identifiers.
pub proof fn lemma_clear_makes_all_new(db: DatabaseView, problems: Seq<Problem>, times: Seq<int>)
    requires
        db.wf(),
        clock_readings(times, problems.len()),
        distinct_problems(problems),
        db.next_problem_row + problems.len() <= i64::MAX,
    ensures
        db.cleared().problems.len() == 0,
        db.cleared().history == db.history,
        forall|p: Problem| #[trigger] classify(db.cleared(), p) == ProcessAction::NewProblem,
        cycle(db.cleared(), problems, times).new_problems == problems.len(),
        cycle(db.cleared(), problems, times).to_forward == problems,
        cycle(db.cleared(), problems, times).database.history == db.history,
{
    db.lemma_cleared();
    lemma_unknown_problems_are_new(db.cleared(), problems, times);
}

} // verus!
