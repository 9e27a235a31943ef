//! Asking a server again, and how long that takes.

use crate::delay::Delay;
#[allow(unused_imports)]
use crate::protocol::reply_view;
use crate::protocol::{FileRequest, Step};
#[allow(unused_imports)]
use crate::retry::{empty_replies, last_error, retry_outcome, retry_waits};
use crate::retry::{PrepareRetry, Retry, RetryPolicy};
use vstd::prelude::*;

verus! {

/// A reply that is neither an error nor empty.
pub open spec fn answers<T, E>(reply: Result<Seq<T>, E>) -> bool {
    match reply {
        Ok(items) => items.len() >= 1,
        Err(_) => false,
    }
}

/// A reply that is an empty list.
pub open spec fn is_empty_list<T, E>(reply: Result<Seq<T>, E>) -> bool {
    match reply {
        Ok(items) => items.len() == 0,
        Err(_) => false,
    }
}

/// How many of some replies are empty lists.
pub open spec fn empty_lists<T, E>(replies: Seq<Result<Seq<T>, E>>) -> nat {
    replies.filter(|reply: Result<Seq<T>, E>| is_empty_list(reply)).len()
}

/// Whether `error` is the last error among some replies.
pub open spec fn fails_last_with<T, E>(replies: Seq<Result<T, E>>, error: E) -> bool {
    exists|i: int|
        0 <= i < replies.len() && #[trigger] replies[i] == Err::<T, E>(error) && forall|j: int|
            i < j < replies.len() ==> #[trigger] replies[j] is Ok
}

/// How often a policy has a server asked.
pub open spec fn times(policy: RetryPolicy) -> nat {
    match policy {
        RetryPolicy::Symbols { .. } => 10,
        RetryPolicy::Locations => 3,
    }
}

/// Whether asking `times` times comes to `outcome` with the last of `replies`, where none of the
/// earlier ones was an answer: to that reply if it is an answer; to nothing yet if there is another
/// attempt; else to the last error, or to an empty list where there was no error.
pub open spec fn comes_to<T, E>(
    times: nat,
    replies: Seq<Result<Seq<T>, E>>,
    outcome: Option<Result<Seq<T>, E>>,
) -> bool {
    let reply = replies[replies.len() - 1];
    if answers(reply) {
        outcome == Some(reply)
    } else if replies.len() < times {
        outcome is None
    } else if exists|i: int| 0 <= i < replies.len() && (#[trigger] replies[i]) is Err {
        outcome matches Some(Err(error)) && fails_last_with(replies, error)
    } else {
        outcome matches Some(Ok(items)) && items.len() == 0
    }
}

/// Whether `waits` are what follows the last of `replies`. There is a wait only after an empty
/// list. For locations it is 200 ms, 400 ms, 600 ms by the number of the reply. For symbols it is
/// 200 ms for the first empty list and 200 ms more for each further one, up to a second, and the
/// warm-up delay comes before it if the very first reply is empty.
pub open spec fn pauses<T, E>(
    policy: RetryPolicy,
    replies: Seq<Result<Seq<T>, E>>,
    waits: Seq<Delay>,
) -> bool {
    if !is_empty_list(replies[replies.len() - 1]) {
        waits.len() == 0
    } else {
        match policy {
            RetryPolicy::Locations => waits.len() == 1 && waits[0].nanos == 200_000_000
                * replies.len(),
            RetryPolicy::Symbols { warmup } => {
                let last = waits[waits.len() - 1].nanos;
                &&& if replies.len() == 1 && warmup.nanos > 0 {
                    waits.len() == 2 && waits[0].nanos == warmup.nanos
                } else {
                    waits.len() == 1
                }
                &&& empty_lists(replies) <= 5 ==> last == 200_000_000 * empty_lists(replies)
                &&& empty_lists(replies) > 5 ==> last == 1_000_000_000
            },
        }
    }
}

/// Whether `waits` are what follows the last of the replies to preparing a call hierarchy: after an
/// error 200 ms, 400 ms, 600 ms by the number of the reply.
pub open spec fn pauses_after_errors<V, E>(replies: Seq<Result<V, E>>, waits: Seq<Delay>) -> bool {
    match replies[replies.len() - 1] {
        Ok(_) => waits.len() == 0,
        Err(_) => waits.len() == 1 && waits[0].nanos == 200_000_000 * replies.len(),
    }
}

/// A delay of so many milliseconds has a million nanoseconds for each, and only the delay of none
/// is no delay.
pub proof fn law_delays_are_in_milliseconds(millis: u64, delay: Delay, zero: bool)
    requires
        call_ensures(Delay::from_millis, (millis,), delay),
        call_ensures(Delay::is_zero, (&delay,), zero),
    ensures
        delay.nanos == millis * 1_000_000,
        zero <==> millis == 0,
{
}

proof fn lemma_empty_replies<T, E>(replies: Seq<Result<Seq<T>, E>>)
    ensures
        empty_replies(replies) == empty_lists(replies),
        empty_lists(replies) <= replies.len(),
    decreases replies.len(),
{
    reveal(Seq::filter);
    if replies.len() > 0 {
        lemma_empty_replies(replies.drop_last());
    }
}

proof fn lemma_last_error<T, E>(replies: Seq<Result<T, E>>)
    ensures
        match last_error(replies) {
            Some(error) => fails_last_with(replies, error),
            None => forall|i: int| 0 <= i < replies.len() ==> (#[trigger] replies[i]) is Ok,
        },
    decreases replies.len(),
{
    if replies.len() > 0 {
        let earlier = replies.drop_last();
        lemma_last_error(earlier);
        assert(forall|i: int| 0 <= i < earlier.len() ==> earlier[i] == replies[i]);
        match replies.last() {
            Err(error) => {
                assert(replies[replies.len() - 1] == Err::<T, E>(error));
            },
            Ok(_) => {
                if let Some(error) = last_error(earlier) {
                    let i = choose|i: int|
                        0 <= i < earlier.len() && #[trigger] earlier[i] == Err::<T, E>(error)
                            && forall|j: int|
                            i < j < earlier.len() ==> #[trigger] earlier[j] is Ok;
                    assert(replies[i] == Err::<T, E>(error));
                    assert forall|j: int| i < j < replies.len() implies #[trigger] replies[
                        j
                    ] is Ok by {
                        if j < earlier.len() {
                            assert(earlier[j] is Ok);
                        }
                    }
                }
            },
        }
    }
}

/// What replies come to is what [`retry_outcome`] says, and nothing else.
pub proof fn law_replies_come_to_their_outcome<T, E>(
    policy: RetryPolicy,
    replies: Seq<Result<Seq<T>, E>>,
    outcome: Option<Result<Seq<T>, E>>,
)
    requires
        replies.len() > 0,
    ensures
        comes_to(times(policy), replies, outcome) <==> outcome == retry_outcome(
            policy.attempts(),
            replies,
        ),
        policy.attempts() == times(policy),
{
    lemma_last_error(replies);
    if let Some(error) = last_error(replies) {
        let i = choose|i: int|
            0 <= i < replies.len() && #[trigger] replies[i] == Err::<Seq<T>, E>(error)
                && forall|j: int| i < j < replies.len() ==> #[trigger] replies[j] is Ok;
        if let Some(Err(other)) = outcome {
            if fails_last_with(replies, other) {
                let k = choose|k: int|
                    0 <= k < replies.len() && #[trigger] replies[k] == Err::<Seq<T>, E>(other)
                        && forall|j: int| k < j < replies.len() ==> #[trigger] replies[j] is Ok;
                assert(i == k);
            }
        }
    }
    if let Some(Ok(items)) = outcome {
        if items.len() == 0 {
            assert(items =~= Seq::empty());
        }
    }
}

/// The waits after replies are what [`retry_waits`] says.
pub proof fn law_replies_are_followed_by_waits<T, E>(
    policy: RetryPolicy,
    replies: Seq<Result<Seq<T>, E>>,
)
    requires
        0 < replies.len() <= times(policy),
    ensures
        pauses(policy, replies, retry_waits(policy, replies)),
{
    lemma_empty_replies(replies);
}

/// A new machine asks what it was told to ask.
pub proof fn law_retry_asks_what_it_is_told<T, E>(
    request: FileRequest,
    policy: RetryPolicy,
    retry: Retry<T, E>,
    asked: &FileRequest,
)
    requires
        call_ensures(Retry::<T, E>::new, (request, policy), retry),
        call_ensures(Retry::<T, E>::request, (&retry,), asked),
    ensures
        asked.file@ == request.file@,
        asked.query == request.query,
        retry@.policy == policy,
        retry@.replies.len() == 0,
{
}

/// A machine that is handed a reply waits and comes to what the replies so far say. While it comes
/// to nothing it asks the same again.
pub proof fn law_retry_steps<T, E>(
    retry: Retry<T, E>,
    reply: Result<Vec<T>, E>,
    step: Step<Retry<T, E>, Result<Vec<T>, E>>,
    outcome: Option<Result<Seq<T>, E>>,
    asked: &FileRequest,
    asks: &FileRequest,
)
    requires
        call_ensures(Retry::<T, E>::resume, (retry, reply), step),
        comes_to(
            times(retry@.policy),
            retry@.replies.push(
                match reply {
                    Ok(items) => Ok(items@),
                    Err(error) => Err(error),
                },
            ),
            outcome,
        ),
        call_ensures(Retry::<T, E>::request, (&retry,), asked),
        step matches Step::Again { op, .. } ==> call_ensures(
            Retry::<T, E>::request,
            (&op,),
            asks,
        ),
    ensures
        ({
            let replies = retry@.replies.push(
                match reply {
                    Ok(items) => Ok(items@),
                    Err(error) => Err(error),
                },
            );
            match step {
                Step::Again { waits, op } => {
                    &&& outcome is None
                    &&& pauses(retry@.policy, replies, waits@)
                    &&& op@.replies == replies
                    &&& op@.policy == retry@.policy
                    &&& asks.file@ == asked.file@
                    &&& asks.query == asked.query
                },
                Step::Done { waits, result } => {
                    &&& pauses(retry@.policy, replies, waits@)
                    &&& match outcome {
                        Some(Ok(items)) => result is Ok && result->Ok_0@ == items,
                        Some(Err(error)) => result is Err && result->Err_0 == error,
                        None => false,
                    }
                },
            }
        }),
{
    let replies = retry@.replies.push(reply_view(reply));
    law_replies_come_to_their_outcome(retry@.policy, replies, outcome);
    law_replies_are_followed_by_waits(retry@.policy, replies);
}

/// A new machine that prepares a call hierarchy asks what it was told to ask.
pub proof fn law_prepare_asks_what_it_is_told<V, E>(
    request: FileRequest,
    retry: PrepareRetry<V, E>,
    asked: &FileRequest,
)
    requires
        call_ensures(PrepareRetry::<V, E>::new, (request,), retry),
        call_ensures(PrepareRetry::<V, E>::request, (&retry,), asked),
    ensures
        asked.file@ == request.file@,
        asked.query == request.query,
        retry@.replies.len() == 0,
{
}

/// Preparing a call hierarchy ends with the first reply that is no error, or with the third error;
/// until then the same is asked again.
pub proof fn law_prepare_steps<V, E>(
    retry: PrepareRetry<V, E>,
    reply: Result<V, E>,
    step: Step<PrepareRetry<V, E>, Result<V, E>>,
    asked: &FileRequest,
    asks: &FileRequest,
)
    requires
        call_ensures(PrepareRetry::<V, E>::resume, (retry, reply), step),
        call_ensures(PrepareRetry::<V, E>::request, (&retry,), asked),
        step matches Step::Again { op, .. } ==> call_ensures(
            PrepareRetry::<V, E>::request,
            (&op,),
            asks,
        ),
    ensures
        ({
            let replies = retry@.replies.push(reply);
            match step {
                Step::Again { waits, op } => {
                    &&& reply is Err
                    &&& retry@.replies.len() < 2
                    &&& pauses_after_errors(replies, waits@)
                    &&& op@.replies == replies
                    &&& asks.file@ == asked.file@
                    &&& asks.query == asked.query
                },
                Step::Done { waits, result } => {
                    &&& reply is Ok || retry@.replies.len() == 2
                    &&& pauses_after_errors(replies, waits@)
                    &&& result == reply
                },
            }
        }),
{
}

} // verus!
