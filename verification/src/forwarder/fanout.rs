//! What the plan of deliveries holds for each connector.

use crate::forwarder::engine::{
    batch_tasks, individual_tasks, plan, tasks_of, tasks_per_problem, DeliveryScope, DeliveryTask,
};
use vstd::prelude::*;

verus! {

/// Picking the tasks of a connector out of two runs of tasks, one after the
/// other, picks them out of each.
pub proof fn lemma_tasks_of_concat(a: Seq<DeliveryTask>, b: Seq<DeliveryTask>, c: usize)
    ensures
        tasks_of(a + b, c) == tasks_of(a, c) + tasks_of(b, c),
    decreases b.len(),
{
    if b.len() == 0 {
        assert(a + b =~= a);
        assert(tasks_of(a, c) + tasks_of(b, c) =~= tasks_of(a, c));
    } else {
        lemma_tasks_of_concat(a, b.drop_last(), c);
        assert((a + b).drop_last() =~= a + b.drop_last());
        assert((a + b).last() == b.last());
        let tail = if b.last().connector == c {
            seq![b.last()]
        } else {
            Seq::empty()
        };
        assert(tasks_of(a, c) + tasks_of(b.drop_last(), c) + tail =~= tasks_of(a, c) + (tasks_of(
            b.drop_last(),
            c,
        ) + tail));
    }
}

/// The tasks that hand every problem to one connector all go to that
/// connector and to no other.
pub proof fn lemma_tasks_of_per_problem(k: usize, n: nat, c: usize)
    ensures
        tasks_of(tasks_per_problem(k, n), c) == if k == c {
            tasks_per_problem(k, n)
        } else {
            Seq::empty()
        },
    decreases n,
{
    if n > 0 {
        lemma_tasks_of_per_problem(k, (n - 1) as nat, c);
        assert(tasks_per_problem(k, n).drop_last() =~= tasks_per_problem(k, (n - 1) as nat));
        if k == c {
            assert(tasks_per_problem(k, (n - 1) as nat) + seq![tasks_per_problem(k, n).last()]
                =~= tasks_per_problem(k, n));
        } else {
            assert(Seq::<DeliveryTask>::empty() + Seq::<DeliveryTask>::empty() =~= Seq::<
                DeliveryTask,
            >::empty());
        }
    } else {
        assert(tasks_per_problem(k, n) =~= Seq::<DeliveryTask>::empty());
    }
}

/// Among the batch tasks a batch-mode connector has one task, and an
/// individual-mode connector has none.
pub proof fn lemma_tasks_of_batch(modes: Seq<bool>, c: usize)
    requires
        modes.len() <= usize::MAX,
    ensures
        tasks_of(batch_tasks(modes), c) == if c < modes.len() && modes[c as int] {
            seq![DeliveryTask { connector: c, scope: DeliveryScope::Batch }]
        } else {
            Seq::empty()
        },
    decreases modes.len(),
{
    if modes.len() > 0 {
        let head = modes.drop_last();
        let k = (modes.len() - 1) as usize;
        lemma_tasks_of_batch(head, c);
        let last = if modes.last() {
            seq![DeliveryTask { connector: k, scope: DeliveryScope::Batch }]
        } else {
            Seq::empty()
        };
        lemma_tasks_of_concat(batch_tasks(head), last, c);
        if modes.last() {
            assert(last.drop_last() =~= Seq::<DeliveryTask>::empty());
            assert(tasks_of(Seq::<DeliveryTask>::empty(), c) =~= Seq::<DeliveryTask>::empty());
            assert(last.last() == DeliveryTask { connector: k, scope: DeliveryScope::Batch });
            assert(Seq::<DeliveryTask>::empty() + seq![last.last()] =~= last);
            assert(tasks_of(last, c) =~= if k == c {
                last
            } else {
                Seq::empty()
            });
        }
        if c < head.len() {
            assert(head[c as int] == modes[c as int]);
        }
        assert(tasks_of(batch_tasks(modes), c) =~= if c < modes.len() && modes[c as int] {
            seq![DeliveryTask { connector: c, scope: DeliveryScope::Batch }]
        } else {
            Seq::empty()
        });
    }
}

/// Among the individual tasks an individual-mode connector has one task
/// per problem, and a batch-mode connector has none.
pub proof fn lemma_tasks_of_individual(modes: Seq<bool>, n: nat, c: usize)
    requires
        modes.len() <= usize::MAX,
    ensures
        tasks_of(individual_tasks(modes, n), c) == if c < modes.len() && !modes[c as int] {
            tasks_per_problem(c, n)
        } else {
            Seq::empty()
        },
    decreases modes.len(),
{
    if modes.len() > 0 {
        let head = modes.drop_last();
        let k = (modes.len() - 1) as usize;
        lemma_tasks_of_individual(head, n, c);
        let last = if modes.last() {
            Seq::empty()
        } else {
            tasks_per_problem(k, n)
        };
        lemma_tasks_of_concat(individual_tasks(head, n), last, c);
        lemma_tasks_of_per_problem(k, n, c);
        if c < head.len() {
            assert(head[c as int] == modes[c as int]);
        }
        assert(tasks_of(individual_tasks(modes, n), c) =~= if c < modes.len() && !modes[c as int] {
            tasks_per_problem(c, n)
        } else {
            Seq::empty()
        });
    }
}

/// For `n` problems to forward, the plan holds exactly one delivery for a
/// batch-mode connector, which carries all `n` problems, and exactly `n`
/// deliveries for an individual-mode connector, one for each problem in the
/// problems' order.
pub proof fn lemma_deliveries_per_connector(modes: Seq<bool>, n: nat, c: usize)
    requires
        c < modes.len() <= usize::MAX,
    ensures
        modes[c as int] ==> tasks_of(plan(modes, n), c) == seq![
            DeliveryTask { connector: c, scope: DeliveryScope::Batch },
        ],
        !modes[c as int] ==> tasks_of(plan(modes, n), c) == tasks_per_problem(c, n),
        tasks_of(plan(modes, n), c).len() == if modes[c as int] {
            1
        } else {
            n
        },
{
    lemma_tasks_of_concat(batch_tasks(modes), individual_tasks(modes, n), c);
    lemma_tasks_of_batch(modes, c);
    lemma_tasks_of_individual(modes, n, c);
    if modes[c as int] {
        assert(seq![DeliveryTask { connector: c, scope: DeliveryScope::Batch }] + Seq::<
            DeliveryTask,
        >::empty() =~= seq![DeliveryTask { connector: c, scope: DeliveryScope::Batch }]);
    } else {
        assert(Seq::<DeliveryTask>::empty() + tasks_per_problem(c, n) =~= tasks_per_problem(c, n));
    }
}

} // verus!
