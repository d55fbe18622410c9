//! Bounded retries with exponential backoff, as a machine that is told how
//! each attempt ended and answers what to do next.
//!
//! Whoever drives the machine runs the operation, hands its result to
//! [`RetryState::on_result`], and on `Retry` waits for the delay before it
//! runs the operation again.

use vstd::arithmetic::power2::{lemma2_to64_rest, lemma_pow2_strictly_increases, lemma_pow2_unfold, pow2};
use vstd::prelude::*;

verus! {

/// The delay in seconds before the attempt that follows `failed` failed
/// attempts in a row: none before the first attempt, one second after the
/// first failure, doubled after each further one.
pub open spec fn backoff_delay(failed: nat) -> nat {
    if failed == 0 {
        0
    } else {
        pow2((failed - 1) as nat)
    }
}

/// The delay as a number of seconds that fits in 64 bits: the delay itself
/// while it fits, which it does up to the 64th failure in a row, and the
/// largest such number from then on.
pub open spec fn delay_seconds(failed: nat) -> nat {
    if backoff_delay(failed) <= u64::MAX {
        backoff_delay(failed)
    } else {
        u64::MAX as nat
    }
}

/// What the machine answers to the result of an attempt.
pub enum RetryDecision<T, E> {
    /// The operation is over with this result.
    Finished(Result<T, E>),
    /// The operation is to be tried again after so many seconds.
    RetryAfter(nat),
}

/// The answer to the result of attempt number `made + 1` out of at most
/// `max`: the first success ends the operation at once; a failure is
/// followed by another attempt while fewer than `max` attempts were made,
/// and ends the operation with that failure otherwise.
pub open spec fn decide<T, E>(made: nat, max: nat, outcome: Result<T, E>) -> RetryDecision<T, E> {
    match outcome {
        Ok(v) => RetryDecision::Finished(Ok(v)),
        Err(e) => if made + 1 < max {
            RetryDecision::RetryAfter(backoff_delay(made + 1))
        } else {
            RetryDecision::Finished(Err(e))
        },
    }
}

/// How a run of the machine over a list of results ended.
pub struct RetryOutcome<T, E> {
    /// The final result, if the list was long enough to reach one.
    pub result: Option<Result<T, E>>,
    /// How often the operation was invoked.
    pub invocations: nat,
    /// The delays between the invocations, in order, in seconds.
    pub delays: Seq<nat>,
}

/// The run of the machine from the state after `made` attempts, where
/// attempt number `i + 1` ends as `outcomes[i]` says.
pub open spec fn run_from<T, E>(max: nat, outcomes: Seq<Result<T, E>>, made: nat) -> RetryOutcome<
    T,
    E,
>
    decreases outcomes.len() - made,
{
    if made >= outcomes.len() {
        RetryOutcome { result: None, invocations: made, delays: Seq::empty() }
    } else {
        match decide(made, max, outcomes[made as int]) {
            RetryDecision::Finished(r) => RetryOutcome {
                result: Some(r),
                invocations: made + 1,
                delays: Seq::empty(),
            },
            RetryDecision::RetryAfter(d) => {
                let rest = run_from(max, outcomes, made + 1);
                RetryOutcome { delays: seq![d] + rest.delays, ..rest }
            },
        }
    }
}

/// The run of the machine from its first attempt.
pub open spec fn run<T, E>(max: nat, outcomes: Seq<Result<T, E>>) -> RetryOutcome<T, E> {
    run_from(max, outcomes, 0)
}

/// The delays after failures number `from + 1` to `to`.
pub open spec fn delays_between(from: nat, to: nat) -> Seq<nat> {
    Seq::new((to - from) as nat, |i: int| backoff_delay((from + i + 1) as nat))
}

/// The state of the machine as a plain value.
pub struct RetryStateView {
    /// How many attempts were made so far; all of them failed.
    pub attempts_made: nat,
    /// How many attempts may be made in all.
    pub max_attempts: nat,
}

/// The state of one retried operation.
pub struct RetryState {
    attempts_made: u32,
    max_attempts: u32,
}

impl View for RetryState {
    type V = RetryStateView;

    closed spec fn view(&self) -> RetryStateView {
        RetryStateView {
            attempts_made: self.attempts_made as nat,
            max_attempts: self.max_attempts as nat,
        }
    }
}

/// What the machine tells its driver.
pub enum RetryStep<T, E> {
    /// The operation is over with this result.
    Done(Result<T, E>),
    /// Wait `delay_secs` seconds, run the operation again and hand its
    /// result to `state`.
    Retry { state: RetryState, delay_secs: u64 },
}

/// The delay in seconds before the attempt that follows `failed` failed
/// ones, cut off at the largest number that fits in 64 bits.
pub fn backoff_delay_secs(failed: u32) -> (d: u64)
    ensures
        d == delay_seconds(failed as nat),
        1 <= failed <= 64 ==> d == backoff_delay(failed as nat),
{
    proof {
        lemma2_to64_rest();
        vstd::arithmetic::power2::lemma2_to64();
    }
    if failed == 0 {
        return 0;
    }
    if failed > 64 {
        proof {
            if failed > 65 {
                lemma_pow2_strictly_increases(64, (failed - 1) as nat);
            }
        }
        return u64::MAX;
    }
    let mut d: u64 = 1;
    let mut i: u32 = 1;
    while i < failed
        invariant
            1 <= i <= failed <= 64,
            d == pow2((i - 1) as nat),
            pow2(63) == 0x8000000000000000,
        decreases failed - i,
    {
        proof {
            lemma_pow2_unfold(i as nat);
            if i < 63 {
                lemma_pow2_strictly_increases(i as nat, 63);
            }
        }
        d = d * 2;
        i += 1;
    }
    proof {
        if failed < 64 {
            lemma_pow2_strictly_increases((failed - 1) as nat, 63);
        }
    }
    d
}

impl RetryState {
    #[verifier::type_invariant]
    spec fn valid(self) -> bool {
        self.attempts_made == 0 || self.attempts_made < self.max_attempts
    }

    /// The state before the first attempt of an operation that may be tried
    /// `max_attempts` times. With 0 or 1 the operation is tried once.
    pub fn new(max_attempts: u32) -> (state: Self)
        ensures
            state@ == (RetryStateView { attempts_made: 0, max_attempts: max_attempts as nat }),
    {
        RetryState { attempts_made: 0, max_attempts }
    }

    /// How many attempts were made so far.
    pub fn attempts_made(&self) -> (n: u32)
        ensures
            n == self@.attempts_made,
    {
        self.attempts_made
    }

    /// How many attempts may be made in all.
    pub fn max_attempts(&self) -> (n: u32)
        ensures
            n == self@.max_attempts,
    {
        self.max_attempts
    }

    /// Takes the result of the attempt that was just made and answers what
    /// to do next. The delay before the next attempt is exact while it fits
    /// in 64 bits, and the largest number that does from then on.
    pub fn on_result<T, E>(self, outcome: Result<T, E>) -> (step: RetryStep<T, E>)
        ensures
            match decide(self@.attempts_made, self@.max_attempts, outcome) {
                RetryDecision::Finished(r) => step == RetryStep::Done(r),
                RetryDecision::RetryAfter(d) => {
                    &&& step matches RetryStep::Retry { state, delay_secs }
                    &&& delay_secs == delay_seconds(self@.attempts_made + 1)
                    &&& (d <= u64::MAX ==> delay_secs == d)
                    &&& state@ == (RetryStateView {
                        attempts_made: self@.attempts_made + 1,
                        max_attempts: self@.max_attempts,
                    })
                },
            },
    {
        proof {
            use_type_invariant(&self);
        }
        match outcome {
            Ok(v) => RetryStep::Done(Ok(v)),
            Err(e) => {
                let attempt = self.attempts_made + 1;
                if attempt < self.max_attempts {
                    let delay_secs = backoff_delay_secs(attempt);
                    RetryStep::Retry {
                        state: RetryState {
                            attempts_made: attempt,
                            max_attempts: self.max_attempts,
                        },
                        delay_secs,
                    }
                } else {
                    RetryStep::Done(Err(e))
                }
            },
        }
    }
}

/// An operation that fails `k` times and then succeeds, with `k` below the
/// number of attempts allowed, ends in that success after `k + 1`
/// invocations, with delays of 1, 2, 4, ... seconds between them: one
/// delay after each failure, each twice the one before.
pub proof fn lemma_success_after_failures<T, E>(max: nat, outcomes: Seq<Result<T, E>>, k: nat)
    requires
        k < max,
        k < outcomes.len(),
        forall|i: int| 0 <= i < k ==> (#[trigger] outcomes[i]) is Err,
        outcomes[k as int] is Ok,
    ensures
        run(max, outcomes).result == Some(outcomes[k as int]),
        run(max, outcomes).invocations == k + 1,
        run(max, outcomes).delays == Seq::new(k, |i: int| pow2(i as nat)),
{
    lemma_run_through_failures(max, outcomes, k, 0);
    assert(delays_between(0, k) =~= Seq::new(k, |i: int| pow2(i as nat)));
}

/// An operation that always fails is invoked exactly as often as attempts
/// are allowed and ends in the failure of the last attempt, with delays of
/// 1, 2, 4, ... seconds between the invocations.
pub proof fn lemma_all_failures<T, E>(max: nat, outcomes: Seq<Result<T, E>>)
    requires
        1 <= max <= outcomes.len(),
        forall|i: int| 0 <= i < max ==> (#[trigger] outcomes[i]) is Err,
    ensures
        run(max, outcomes).result == Some(outcomes[max - 1]),
        run(max, outcomes).invocations == max,
        run(max, outcomes).delays == Seq::new((max - 1) as nat, |i: int| pow2(i as nat)),
{
    lemma_run_through_failures(max, outcomes, (max - 1) as nat, 0);
    assert(delays_between(0, (max - 1) as nat) =~= Seq::new(
        (max - 1) as nat,
        |i: int| pow2(i as nat),
    ));
}

/// From the state after `made` failed attempts, a run in which the
/// attempts up to number `last` fail and attempt number `last + 1` ends the
/// operation is over after `last + 1` invocations with the result of that
/// attempt.
proof fn lemma_run_through_failures<T, E>(
    max: nat,
    outcomes: Seq<Result<T, E>>,
    last: nat,
    made: nat,
)
    requires
        made <= last < outcomes.len(),
        last < max,
        forall|i: int| 0 <= i < last ==> (#[trigger] outcomes[i]) is Err,
        outcomes[last as int] is Ok || last + 1 == max,
    ensures
        run_from(max, outcomes, made).result == Some(outcomes[last as int]),
        run_from(max, outcomes, made).invocations == last + 1,
        run_from(max, outcomes, made).delays == delays_between(made, last),
    decreases last - made,
{
    if made == last {
        assert(delays_between(made, last) =~= Seq::<nat>::empty());
    } else {
        assert(outcomes[made as int] is Err);
        lemma_run_through_failures(max, outcomes, last, made + 1);
        assert(delays_between(made, last) =~= seq![backoff_delay(made + 1)] + delays_between(
            made + 1,
            last,
        ));
    }
}

} // verus!
