//! Asking a server again until it has an answer.
//!
//! A server that is still indexing answers with an empty list, or with an error, where it would
//! have an answer a moment later. The machines here say how often to ask, how long to wait in
//! between, and what to make of the replies.

use crate::delay::Delay;
#[allow(unused_imports)]
use crate::delay::NANOS_PER_MILLI;
use crate::protocol::{FileRequest, Step};
#[allow(unused_imports)]
use crate::protocol::{reply_view, RequestView};
use vstd::prelude::*;

verus! {

/// How often document symbols are asked for.
pub const SYMBOL_ATTEMPTS: usize = 10;

/// How often locations and call hierarchies are asked for.
pub const LOCATION_ATTEMPTS: usize = 3;

/// The step by which waits grow, in milliseconds.
pub const WAIT_STEP_MILLIS: u64 = 200;

/// The longest wait between two requests for document symbols, in milliseconds.
pub const MAX_WAIT_MILLIS: u64 = 1_000;

/// Whose replies are waited for.
#[derive(Debug, Clone, Copy)]
pub enum RetryPolicy {
    /// Document symbols: many attempts, and after a first empty reply the warm-up delay once more.
    Symbols { warmup: Delay },
    /// Locations: few attempts.
    Locations,
}

impl RetryPolicy {
    /// The number of requests after which the machine gives up.
    pub open spec fn attempts(self) -> nat {
        match self {
            RetryPolicy::Symbols { .. } => SYMBOL_ATTEMPTS as nat,
            RetryPolicy::Locations => LOCATION_ATTEMPTS as nat,
        }
    }

    fn limit(&self) -> (limit: usize)
        ensures
            limit == self.attempts(),
    {
        match self {
            RetryPolicy::Symbols { .. } => SYMBOL_ATTEMPTS,
            RetryPolicy::Locations => LOCATION_ATTEMPTS,
        }
    }
}

/// Whether a reply ends the asking: it is a list that is not empty.
pub open spec fn usable<T, E>(reply: Result<Seq<T>, E>) -> bool {
    reply matches Ok(items) && items.len() > 0
}

/// How many of the replies are empty lists.
pub open spec fn empty_replies<T, E>(replies: Seq<Result<Seq<T>, E>>) -> nat
    decreases replies.len(),
{
    if replies.len() == 0 {
        0
    } else {
        let earlier = empty_replies(replies.drop_last());
        if replies.last() matches Ok(items) && items.len() == 0 {
            earlier + 1
        } else {
            earlier
        }
    }
}

/// The error of the last reply that is one.
pub open spec fn last_error<T, E>(replies: Seq<Result<T, E>>) -> Option<E>
    decreases replies.len(),
{
    if replies.len() == 0 {
        None
    } else {
        match replies.last() {
            Err(error) => Some(error),
            Ok(_) => last_error(replies.drop_last()),
        }
    }
}

/// What asking comes to after `replies`: the last reply if it is usable; after `attempts` replies
/// of which none was, the last error, or the empty list where no reply was an error; and nothing
/// yet before that.
pub open spec fn retry_outcome<T, E>(attempts: nat, replies: Seq<Result<Seq<T>, E>>) -> Option<
    Result<Seq<T>, E>,
> {
    if replies.len() > 0 && usable(replies.last()) {
        Some(replies.last())
    } else if replies.len() >= attempts {
        match last_error(replies) {
            Some(error) => Some(Err(error)),
            None => Some(Ok(Seq::empty())),
        }
    } else {
        None
    }
}

/// The waits after the last of `replies`. There are some only after an empty list.
pub open spec fn retry_waits<T, E>(policy: RetryPolicy, replies: Seq<Result<Seq<T>, E>>) -> Seq<
    Delay,
> {
    if replies.last() matches Ok(items) && items.len() == 0 {
        match policy {
            RetryPolicy::Symbols { warmup } => {
                let grown = WAIT_STEP_MILLIS * empty_replies(replies);
                let capped = if grown <= MAX_WAIT_MILLIS { grown } else { MAX_WAIT_MILLIS as int };
                if replies.len() == 1 && warmup.nanos != 0 {
                    seq![warmup, Delay::of_millis(capped)]
                } else {
                    seq![Delay::of_millis(capped)]
                }
            },
            RetryPolicy::Locations => seq![Delay::of_millis(WAIT_STEP_MILLIS * replies.len())],
        }
    } else {
        Seq::empty()
    }
}

/// What a [`Retry`] is about: its request, its policy and the replies so far.
pub ghost struct RetryView<T, E> {
    pub request: RequestView,
    pub policy: RetryPolicy,
    pub replies: Seq<Result<Seq<T>, E>>,
}

/// A request for a list that is repeated while the list is empty or the server fails.
pub struct Retry<T, E> {
    request: FileRequest,
    policy: RetryPolicy,
    attempt: usize,
    delay_millis: u64,
    last_error: Option<E>,
    replies: Ghost<Seq<Result<Seq<T>, E>>>,
}

impl<T, E> View for Retry<T, E> {
    type V = RetryView<T, E>;

    closed spec fn view(&self) -> RetryView<T, E> {
        RetryView { request: self.request@, policy: self.policy, replies: self.replies@ }
    }
}

impl<T, E> Retry<T, E> {
    #[verifier::type_invariant]
    closed spec fn consistent(self) -> bool {
        let grown = WAIT_STEP_MILLIS * (empty_replies(self.replies@) + 1);
        &&& self.attempt == self.replies@.len()
        &&& self.attempt < self.policy.attempts()
        &&& retry_heard(self.policy.attempts(), self.replies@)
        &&& self.attempt > 0 ==> retry_outcome(self.policy.attempts(), self.replies@) is None
        &&& empty_replies(self.replies@) <= self.attempt
        &&& self.last_error == last_error(self.replies@)
        &&& self.delay_millis == if grown <= MAX_WAIT_MILLIS {
            grown
        } else {
            MAX_WAIT_MILLIS as int
        }
    }

    /// A machine that has not heard anything yet.
    pub fn new(request: FileRequest, policy: RetryPolicy) -> (retry: Self)
        ensures
            retry@ == (RetryView::<T, E> { request: request@, policy, replies: Seq::empty() }),
    {
        Retry {
            request,
            policy,
            attempt: 0,
            delay_millis: WAIT_STEP_MILLIS,
            last_error: None,
            replies: Ghost(Seq::empty()),
        }
    }

    /// What to ask the server.
    pub fn request(&self) -> (request: &FileRequest)
        ensures
            request@ == self@.request,
    {
        &self.request
    }

    /// Takes the server's reply to the request.
    pub fn resume(self, reply: Result<Vec<T>, E>) -> (step: Step<Self, Result<Vec<T>, E>>)
        ensures
            self@.replies.len() < self@.policy.attempts(),
            ({
                let replies = self@.replies.push(reply_view(reply));
                &&& retry_heard(self@.policy.attempts(), replies)
                &&& step.waits() == retry_waits(self@.policy, replies)
                &&& match retry_outcome(self@.policy.attempts(), replies) {
                    Some(outcome) => step.done() is Some && reply_view(step.done()->0) == outcome,
                    None => step.again() is Some && step.again()->0@ == (RetryView {
                        replies,
                        ..self@
                    }),
                }
            }),
    {
        proof {
            use_type_invariant(&self);
        }
        let ghost replies = self.replies@.push(reply_view(reply));
        assert(replies.drop_last() =~= self.replies@);
        proof {
            law_retry_heard_grows(self.policy.attempts(), self.replies@, reply_view(reply));
        }
        let mut waits: Vec<Delay> = Vec::new();
        let mut delay_millis: u64 = self.delay_millis;
        let last_error: Option<E> = match reply {
            Ok(items) => {
                if items.len() > 0 {
                    return Step::Done { waits, result: Ok(items) };
                }
                match self.policy {
                    RetryPolicy::Symbols { warmup } => {
                        if self.attempt == 0 && !warmup.is_zero() {
                            waits.push(warmup);
                        }
                        waits.push(Delay::from_millis(delay_millis));
                    },
                    RetryPolicy::Locations => {
                        waits.push(
                            Delay::from_millis(WAIT_STEP_MILLIS * (self.attempt as u64 + 1)),
                        );
                    },
                }
                delay_millis = if delay_millis + WAIT_STEP_MILLIS <= MAX_WAIT_MILLIS {
                    delay_millis + WAIT_STEP_MILLIS
                } else {
                    MAX_WAIT_MILLIS
                };
                self.last_error
            },
            Err(error) => Some(error),
        };
        let attempt: usize = self.attempt + 1;
        assert(waits@ == retry_waits(self.policy, replies));
        if attempt < self.policy.limit() {
            Step::Again {
                waits,
                op: Retry {
                    request: self.request,
                    policy: self.policy,
                    attempt,
                    delay_millis,
                    last_error,
                    replies: Ghost(replies),
                },
            }
        } else {
            let result: Result<Vec<T>, E> = match last_error {
                Some(error) => Err(error),
                None => Ok(Vec::new()),
            };
            Step::Done { waits, result }
        }
    }
}

/// What preparing a call hierarchy comes to after `replies`: the first reply that is no error, or
/// the last reply once there were [`LOCATION_ATTEMPTS`] of them.
pub open spec fn prepare_outcome<V, E>(replies: Seq<Result<V, E>>) -> Option<Result<V, E>> {
    if replies.len() > 0 && (replies.last() is Ok || replies.len() >= LOCATION_ATTEMPTS) {
        Some(replies.last())
    } else {
        None
    }
}

/// The waits after the last of `replies`. There are some only after an error.
pub open spec fn prepare_waits<V, E>(replies: Seq<Result<V, E>>) -> Seq<Delay> {
    if replies.last() is Err {
        seq![Delay::of_millis(WAIT_STEP_MILLIS * replies.len())]
    } else {
        Seq::empty()
    }
}

/// What a [`PrepareRetry`] is about: its request and the replies so far.
pub ghost struct PrepareView<V, E> {
    pub request: RequestView,
    pub replies: Seq<Result<V, E>>,
}

/// A request that is repeated while the server fails.
pub struct PrepareRetry<V, E> {
    request: FileRequest,
    attempt: usize,
    replies: Ghost<Seq<Result<V, E>>>,
}

impl<V, E> View for PrepareRetry<V, E> {
    type V = PrepareView<V, E>;

    closed spec fn view(&self) -> PrepareView<V, E> {
        PrepareView { request: self.request@, replies: self.replies@ }
    }
}

impl<V, E> PrepareRetry<V, E> {
    #[verifier::type_invariant]
    closed spec fn consistent(self) -> bool {
        &&& self.attempt == self.replies@.len()
        &&& self.attempt < LOCATION_ATTEMPTS
        &&& prepare_heard(self.replies@)
        &&& prepare_outcome(self.replies@) is None
    }

    /// A machine that has not heard anything yet.
    pub fn new(request: FileRequest) -> (retry: Self)
        ensures
            retry@ == (PrepareView::<V, E> { request: request@, replies: Seq::empty() }),
    {
        PrepareRetry { request, attempt: 0, replies: Ghost(Seq::empty()) }
    }

    /// What to ask the server.
    pub fn request(&self) -> (request: &FileRequest)
        ensures
            request@ == self@.request,
    {
        &self.request
    }

    /// Takes the server's reply to the request.
    pub fn resume(self, reply: Result<V, E>) -> (step: Step<Self, Result<V, E>>)
        ensures
            self@.replies.len() < LOCATION_ATTEMPTS,
            ({
                let replies = self@.replies.push(reply);
                &&& prepare_heard(replies)
                &&& step.waits() == prepare_waits(replies)
                &&& match prepare_outcome(replies) {
                    Some(outcome) => step.done() == Some(outcome),
                    None => step.again() is Some && step.again()->0@ == (PrepareView {
                        replies,
                        ..self@
                    }),
                }
            }),
    {
        proof {
            use_type_invariant(&self);
        }
        let ghost replies = self.replies@.push(reply);
        proof {
            law_prepare_heard_grows(self.replies@, reply);
        }
        let mut waits: Vec<Delay> = Vec::new();
        let attempt: usize = self.attempt + 1;
        match reply {
            Ok(value) => Step::Done { waits, result: Ok(value) },
            Err(error) => {
                waits.push(Delay::from_millis(WAIT_STEP_MILLIS * attempt as u64));
                if attempt < LOCATION_ATTEMPTS {
                    Step::Again {
                        waits,
                        op: PrepareRetry {
                            request: self.request,
                            attempt,
                            replies: Ghost(replies),
                        },
                    }
                } else {
                    Step::Done { waits, result: Err(error) }
                }
            },
        }
    }
}

/// Whether `replies` can have been heard by one machine: it was still asking before the last one.
pub open spec fn retry_heard<T, E>(attempts: nat, replies: Seq<Result<Seq<T>, E>>) -> bool {
    forall|k: int|
        0 < k < replies.len() ==> retry_outcome(attempts, #[trigger] replies.take(k)) is None
}

/// Whether `replies` can have been heard by one [`PrepareRetry`].
pub open spec fn prepare_heard<V, E>(replies: Seq<Result<V, E>>) -> bool {
    forall|k: int| 0 < k < replies.len() ==> prepare_outcome(#[trigger] replies.take(k)) is None
}

/// While a machine asks on, its replies stay ones that one machine can have heard.
pub proof fn law_retry_heard_grows<T, E>(
    attempts: nat,
    replies: Seq<Result<Seq<T>, E>>,
    reply: Result<Seq<T>, E>,
)
    requires
        retry_heard(attempts, replies),
        replies.len() == 0 || retry_outcome(attempts, replies) is None,
    ensures
        retry_heard(attempts, replies.push(reply)),
{
    assert forall|k: int| 0 < k < replies.push(reply).len() implies retry_outcome(
        attempts,
        #[trigger] replies.push(reply).take(k),
    ) is None by {
        assert(replies.push(reply).take(k) =~= replies.take(k));
        if k == replies.len() {
            assert(replies.take(k) =~= replies);
        }
    }
}

/// While a [`PrepareRetry`] asks on, its replies stay ones that one machine can have heard.
pub proof fn law_prepare_heard_grows<V, E>(replies: Seq<Result<V, E>>, reply: Result<V, E>)
    requires
        prepare_heard(replies),
        prepare_outcome(replies) is None,
    ensures
        prepare_heard(replies.push(reply)),
{
    assert forall|k: int| 0 < k < replies.push(reply).len() implies prepare_outcome(
        #[trigger] replies.push(reply).take(k),
    ) is None by {
        assert(replies.push(reply).take(k) =~= replies.take(k));
        if k == replies.len() {
            assert(replies.take(k) =~= replies);
        }
    }
}

proof fn lemma_last_error<T, E>(replies: Seq<Result<T, E>>)
    ensures
        match last_error(replies) {
            Some(error) => exists|i: int|
                0 <= i < replies.len() && replies[i] == Err::<T, E>(error) && forall|j: int|
                    i < j < replies.len() ==> replies[j] is Ok,
            None => forall|i: int| 0 <= i < replies.len() ==> replies[i] is Ok,
        },
    decreases replies.len(),
{
    if replies.len() > 0 {
        if replies.last() is Err {
            assert(replies[replies.len() - 1] == Err::<T, E>(last_error(replies)->0));
        } else {
            let earlier = replies.drop_last();
            lemma_last_error(earlier);
            assert(forall|i: int| 0 <= i < earlier.len() ==> earlier[i] == replies[i]);
            if let Some(error) = last_error(earlier) {
                let i = choose|i: int|
                    0 <= i < earlier.len() && earlier[i] == Err::<T, E>(error) && forall|j: int|
                        i < j < earlier.len() ==> earlier[j] is Ok;
                assert(replies[i] == Err::<T, E>(error));
                assert forall|j: int| i < j < replies.len() implies replies[j] is Ok by {
                    if j < earlier.len() {
                        assert(earlier[j] is Ok);
                    }
                }
            }
        }
    }
}

/// A list is asked for at most as often as the policy allows.
pub proof fn law_retry_asks_at_most<T, E>(policy: RetryPolicy, replies: Seq<Result<Seq<T>, E>>)
    requires
        retry_heard(policy.attempts(), replies),
    ensures
        replies.len() <= policy.attempts(),
{
    let attempts = policy.attempts();
    if replies.len() > attempts {
        assert(retry_outcome(attempts, replies.take(attempts as int)) is None);
    }
}

/// The first list that is not empty ends the asking and is the result.
pub proof fn law_retry_returns_first_answer<T, E>(
    policy: RetryPolicy,
    replies: Seq<Result<Seq<T>, E>>,
    first: int,
)
    requires
        retry_heard(policy.attempts(), replies),
        0 <= first < replies.len(),
        usable(replies[first]),
    ensures
        first == replies.len() - 1,
        retry_outcome(policy.attempts(), replies) == Some(replies[first]),
        forall|i: int| 0 <= i < first ==> !usable(#[trigger] replies[i]),
{
    if first < replies.len() - 1 {
        let heard = replies.take(first + 1);
        assert(heard.last() == replies[first]);
        assert(retry_outcome(policy.attempts(), heard) is None);
    }
    assert forall|i: int| 0 <= i < first implies !usable(#[trigger] replies[i]) by {
        let heard = replies.take(i + 1);
        assert(heard.last() == replies[i]);
        assert(retry_outcome(policy.attempts(), heard) is None);
    }
}

/// An error is given up with only after every attempt, and then it is the most recent one: the
/// replies after it were empty lists.
pub proof fn law_retry_fails_with_last_error<T, E>(
    policy: RetryPolicy,
    replies: Seq<Result<Seq<T>, E>>,
    error: E,
)
    requires
        retry_heard(policy.attempts(), replies),
        retry_outcome(policy.attempts(), replies) == Some(Err::<Seq<T>, E>(error)),
    ensures
        replies.len() == policy.attempts(),
        forall|i: int| 0 <= i < replies.len() ==> !usable(#[trigger] replies[i]),
        exists|i: int|
            0 <= i < replies.len() && replies[i] == Err::<Seq<T>, E>(error) && forall|j: int|
                i < j < replies.len() ==> replies[j] == Ok::<Seq<T>, E>(Seq::empty()),
{
    law_retry_asks_at_most(policy, replies);
    assert forall|i: int| 0 <= i < replies.len() implies !usable(#[trigger] replies[i]) by {
        if usable(replies[i]) {
            law_retry_returns_first_answer(policy, replies, i);
        }
    }
    lemma_last_error(replies);
    let i = choose|i: int|
        0 <= i < replies.len() && replies[i] == Err::<Seq<T>, E>(error) && forall|j: int|
            i < j < replies.len() ==> replies[j] is Ok;
    assert forall|j: int| i < j < replies.len() implies replies[j] == Ok::<Seq<T>, E>(
        Seq::empty(),
    ) by {
        assert(replies[j] is Ok);
        assert(!usable(replies[j]));
        assert(replies[j]->Ok_0 =~= Seq::empty());
    }
}

/// An empty result means that the server was asked as often as the policy allows and answered
/// every time, with nothing.
pub proof fn law_retry_empty_means_always_empty<T, E>(
    policy: RetryPolicy,
    replies: Seq<Result<Seq<T>, E>>,
)
    requires
        retry_heard(policy.attempts(), replies),
        retry_outcome(policy.attempts(), replies) == Some(Ok::<Seq<T>, E>(Seq::empty())),
    ensures
        replies.len() == policy.attempts(),
        forall|i: int|
            0 <= i < replies.len() ==> #[trigger] replies[i] == Ok::<Seq<T>, E>(Seq::empty()),
{
    law_retry_asks_at_most(policy, replies);
    lemma_last_error(replies);
    if usable(replies.last()) {
        assert(replies.last()->Ok_0.len() > 0);
    }
    assert forall|i: int| 0 <= i < replies.len() implies #[trigger] replies[i] == Ok::<
        Seq<T>,
        E,
    >(Seq::empty()) by {
        if usable(replies[i]) {
            law_retry_returns_first_answer(policy, replies, i);
        }
        assert(replies[i]->Ok_0 =~= Seq::empty());
    }
}

/// The nanoseconds of all the waits after each of `replies`.
pub open spec fn total_wait<T, E>(policy: RetryPolicy, replies: Seq<Result<Seq<T>, E>>) -> nat
    decreases replies.len(),
{
    if replies.len() == 0 {
        0
    } else {
        total_wait(policy, replies.drop_last()) + sum_of(retry_waits(policy, replies))
    }
}

/// The nanoseconds of all the waits in a list.
pub open spec fn sum_of(waits: Seq<Delay>) -> nat
    decreases waits.len(),
{
    if waits.len() == 0 {
        0
    } else {
        sum_of(waits.drop_last()) + waits.last().nanos as nat
    }
}

/// The milliseconds waited after `count` empty lists of symbols.
spec fn symbol_wait_millis(count: nat) -> nat
    decreases count,
{
    if count == 0 {
        0
    } else {
        symbol_wait_millis((count - 1) as nat) + if count <= 5 { 200 * count } else { 1_000 }
    }
}

proof fn lemma_symbol_wait_millis(count: nat)
    requires
        count <= SYMBOL_ATTEMPTS,
    ensures
        symbol_wait_millis(count) <= 8_000,
{
    reveal_with_fuel(symbol_wait_millis, 11);
}

proof fn lemma_total_symbol_wait<T, E>(warmup: Delay, replies: Seq<Result<Seq<T>, E>>)
    requires
        replies.len() <= SYMBOL_ATTEMPTS,
    ensures
        empty_replies(replies) <= replies.len(),
        replies.len() == 0 ==> total_wait(RetryPolicy::Symbols { warmup }, replies) == 0,
        total_wait(RetryPolicy::Symbols { warmup }, replies) <= warmup.nanos + symbol_wait_millis(
            empty_replies(replies),
        ) * NANOS_PER_MILLI,
    decreases replies.len(),
{
    let policy = RetryPolicy::Symbols { warmup };
    reveal_with_fuel(sum_of, 3);
    if replies.len() > 0 {
        let earlier = replies.drop_last();
        lemma_total_symbol_wait(warmup, earlier);
        let waits = retry_waits(policy, replies);
        let count = empty_replies(replies);
        if replies.last() matches Ok(items) && items.len() == 0 {
            let grown = WAIT_STEP_MILLIS * count;
            let capped = if grown <= MAX_WAIT_MILLIS { grown } else { MAX_WAIT_MILLIS as int };
            assert(capped == if count <= 5 { 200 * count } else { 1_000 });
            assert(Delay::of_millis(capped).nanos == capped * NANOS_PER_MILLI);
            assert(symbol_wait_millis(count) == symbol_wait_millis(empty_replies(earlier))
                + capped);
            if replies.len() == 1 && warmup.nanos != 0 {
                assert(waits.drop_last() =~= seq![warmup]);
                assert(waits.drop_last().drop_last() =~= Seq::empty());
                assert(sum_of(waits) == warmup.nanos + capped * NANOS_PER_MILLI);
            } else {
                assert(waits.drop_last() =~= Seq::empty());
                assert(sum_of(waits) == capped * NANOS_PER_MILLI);
            }
        } else {
            assert(sum_of(waits) == 0);
        }
    }
}

/// All the waiting for document symbols takes at most eight seconds beyond the warm-up delay.
pub proof fn law_symbol_waits_bounded<T, E>(warmup: Delay, replies: Seq<Result<Seq<T>, E>>)
    requires
        retry_heard(RetryPolicy::Symbols { warmup }.attempts(), replies),
    ensures
        total_wait(RetryPolicy::Symbols { warmup }, replies) <= warmup.nanos + 8_000
            * NANOS_PER_MILLI,
{
    law_retry_asks_at_most(RetryPolicy::Symbols { warmup }, replies);
    lemma_total_symbol_wait(warmup, replies);
    lemma_symbol_wait_millis(empty_replies(replies));
}

/// The milliseconds waited at most after `count` replies about locations.
spec fn location_wait_millis(count: nat) -> nat
    decreases count,
{
    if count == 0 {
        0
    } else {
        location_wait_millis((count - 1) as nat) + 200 * count
    }
}

proof fn lemma_total_location_wait<T, E>(replies: Seq<Result<Seq<T>, E>>)
    requires
        replies.len() <= LOCATION_ATTEMPTS,
    ensures
        total_wait(RetryPolicy::Locations, replies) <= location_wait_millis(replies.len())
            * NANOS_PER_MILLI,
    decreases replies.len(),
{
    reveal_with_fuel(sum_of, 2);
    if replies.len() > 0 {
        lemma_total_location_wait(replies.drop_last());
        let waits = retry_waits(RetryPolicy::Locations, replies);
        let millis = WAIT_STEP_MILLIS * replies.len();
        assert(Delay::of_millis(millis).nanos == millis * NANOS_PER_MILLI);
        if waits.len() > 0 {
            assert(waits.drop_last() =~= Seq::empty());
        }
        assert(sum_of(waits) <= millis * NANOS_PER_MILLI);
    }
}

/// All the waiting for locations takes at most one and two tenths of a second.
pub proof fn law_location_waits_bounded<T, E>(replies: Seq<Result<Seq<T>, E>>)
    requires
        retry_heard(RetryPolicy::Locations.attempts(), replies),
    ensures
        total_wait(RetryPolicy::Locations, replies) <= 1_200 * NANOS_PER_MILLI,
{
    law_retry_asks_at_most(RetryPolicy::Locations, replies);
    lemma_total_location_wait(replies);
    reveal_with_fuel(location_wait_millis, 4);
}

/// The nanoseconds of all the waits after each of `replies` to preparing a call hierarchy.
pub open spec fn total_prepare_wait<V, E>(replies: Seq<Result<V, E>>) -> nat
    decreases replies.len(),
{
    if replies.len() == 0 {
        0
    } else {
        total_prepare_wait(replies.drop_last()) + sum_of(prepare_waits(replies))
    }
}

proof fn lemma_total_prepare_wait<V, E>(replies: Seq<Result<V, E>>)
    requires
        replies.len() <= LOCATION_ATTEMPTS,
    ensures
        total_prepare_wait(replies) <= location_wait_millis(replies.len()) * NANOS_PER_MILLI,
    decreases replies.len(),
{
    reveal_with_fuel(sum_of, 2);
    if replies.len() > 0 {
        lemma_total_prepare_wait(replies.drop_last());
        let waits = prepare_waits(replies);
        let millis = WAIT_STEP_MILLIS * replies.len();
        assert(Delay::of_millis(millis).nanos == millis * NANOS_PER_MILLI);
        if waits.len() > 0 {
            assert(waits.drop_last() =~= Seq::empty());
        }
        assert(sum_of(waits) <= millis * NANOS_PER_MILLI);
    }
}

/// All the waiting for a call hierarchy takes at most one and two tenths of a second.
pub proof fn law_prepare_waits_bounded<V, E>(replies: Seq<Result<V, E>>)
    requires
        prepare_heard(replies),
    ensures
        total_prepare_wait(replies) <= 1_200 * NANOS_PER_MILLI,
{
    law_prepare_returns_first_answer(replies);
    lemma_total_prepare_wait(replies);
    reveal_with_fuel(location_wait_millis, 4);
}

/// A call hierarchy is prepared with at most [`LOCATION_ATTEMPTS`] requests, the first reply that
/// is no error is the result, and an error is the result only where every reply was one.
pub proof fn law_prepare_returns_first_answer<V, E>(replies: Seq<Result<V, E>>)
    requires
        prepare_heard(replies),
    ensures
        replies.len() <= LOCATION_ATTEMPTS,
        forall|i: int| 0 <= i < replies.len() - 1 ==> #[trigger] replies[i] is Err,
        prepare_outcome(replies) is Some <==> replies.len() > 0 && (replies.last() is Ok
            || replies.len() == LOCATION_ATTEMPTS),
        prepare_outcome(replies) is Some ==> prepare_outcome(replies) == Some(replies.last()),
{
    if replies.len() > LOCATION_ATTEMPTS {
        assert(prepare_outcome(replies.take(LOCATION_ATTEMPTS as int)) is None);
    }
    assert forall|i: int| 0 <= i < replies.len() - 1 implies #[trigger] replies[i] is Err by {
        let heard = replies.take(i + 1);
        assert(heard.last() == replies[i]);
        assert(prepare_outcome(heard) is None);
    }
}

} // verus!
