//! Which calls are reported, and of which item.

#[allow(unused_imports)]
use crate::calls::{array_items, last_failure, last_parsed};
use crate::calls::{CallDirection, CallHierarchyResult, CallOutcome, CallReply, CallWalk, CallsAt};
#[allow(unused_imports)]
use crate::guarantees::asking::pauses_after_errors;
use crate::protocol::{FileRequest, Step};
#[allow(unused_imports)]
use vstd::math::{max, min};
use vstd::prelude::*;

verus! {

/// Whether `calls` are the calls of the last of some items whose calls could be read.
pub open spec fn read_last<I, C, E>(replies: Seq<CallReply<I, C, E>>, calls: Seq<C>) -> bool {
    exists|i: int|
        0 <= i < replies.len() && (#[trigger] replies[i]).outcome is Parsed
            && replies[i].outcome->Parsed_0@ == calls && forall|j: int|
            i < j < replies.len() ==> !((#[trigger] replies[j]).outcome is Parsed)
}

/// Whether `error` is what the server failed with on the last of some items that it failed on.
pub open spec fn failed_last<I, C, E>(replies: Seq<CallReply<I, C, E>>, error: E) -> bool {
    exists|i: int|
        0 <= i < replies.len() && (#[trigger] replies[i]).outcome == CallOutcome::<C, E>::Failed(
            error,
        ) && forall|j: int|
            i < j < replies.len() ==> !((#[trigger] replies[j]).outcome is Failed)
}

proof fn lemma_last_parsed<I, C, E>(replies: Seq<CallReply<I, C, E>>)
    ensures
        match last_parsed(replies) {
            Some(calls) => read_last(replies, calls),
            None => forall|i: int|
                0 <= i < replies.len() ==> !((#[trigger] replies[i]).outcome is Parsed),
        },
    decreases replies.len(),
{
    if replies.len() > 0 {
        let earlier = replies.drop_last();
        lemma_last_parsed(earlier);
        assert(forall|i: int| 0 <= i < earlier.len() ==> #[trigger] earlier[i] == replies[i]);
        let n = replies.len() - 1;
        match replies.last().outcome {
            CallOutcome::Parsed(calls) => {
                assert(replies[n].outcome is Parsed && replies[n].outcome->Parsed_0@ == calls@);
            },
            _ => {
                if let Some(calls) = last_parsed(earlier) {
                    let i = choose|i: int|
                        0 <= i < earlier.len() && (#[trigger] earlier[i]).outcome is Parsed
                            && earlier[i].outcome->Parsed_0@ == calls && forall|j: int|
                            i < j < earlier.len() ==> !((#[trigger] earlier[j]).outcome is Parsed);
                    assert(replies[i].outcome is Parsed);
                    assert forall|j: int| i < j < replies.len() implies !((
                    #[trigger] replies[j]).outcome is Parsed) by {
                        if j < n {
                            assert(!(earlier[j].outcome is Parsed));
                        }
                    }
                } else {
                    assert forall|j: int| 0 <= j < replies.len() implies !((
                    #[trigger] replies[j]).outcome is Parsed) by {
                        if j < n {
                            assert(!(earlier[j].outcome is Parsed));
                        }
                    }
                }
            },
        }
    }
}

proof fn lemma_last_failure<I, C, E>(replies: Seq<CallReply<I, C, E>>)
    ensures
        match last_failure(replies) {
            Some(error) => failed_last(replies, error),
            None => forall|i: int|
                0 <= i < replies.len() ==> !((#[trigger] replies[i]).outcome is Failed),
        },
    decreases replies.len(),
{
    if replies.len() > 0 {
        let earlier = replies.drop_last();
        lemma_last_failure(earlier);
        assert(forall|i: int| 0 <= i < earlier.len() ==> #[trigger] earlier[i] == replies[i]);
        let n = replies.len() - 1;
        match replies.last().outcome {
            CallOutcome::Failed(error) => {
                assert(replies[n].outcome == CallOutcome::<C, E>::Failed(error));
            },
            _ => {
                if let Some(error) = last_failure(earlier) {
                    let i = choose|i: int|
                        0 <= i < earlier.len() && (#[trigger] earlier[i]).outcome == CallOutcome::<
                            C,
                            E,
                        >::Failed(error) && forall|j: int|
                            i < j < earlier.len() ==> !((#[trigger] earlier[j]).outcome is Failed);
                    assert(replies[i].outcome == CallOutcome::<C, E>::Failed(error));
                    assert forall|j: int| i < j < replies.len() implies !((
                    #[trigger] replies[j]).outcome is Failed) by {
                        if j < n {
                            assert(!(earlier[j].outcome is Failed));
                        }
                    }
                } else {
                    assert forall|j: int| 0 <= j < replies.len() implies !((
                    #[trigger] replies[j]).outcome is Failed) by {
                        if j < n {
                            assert(!(earlier[j].outcome is Failed));
                        }
                    }
                }
            },
        }
    }
}

/// A walk asks about the next item of the hierarchy, for the calls in its direction.
pub proof fn law_walk_asks_about_next_item<I, C, E>(
    walk: CallWalk<I, C, E>,
    item: &serde_json::Value,
    direction: CallDirection,
)
    requires
        call_ensures(CallWalk::<I, C, E>::item, (&walk,), item),
        call_ensures(CallWalk::<I, C, E>::direction, (&walk,), direction),
    ensures
        walk@.replies.len() < walk@.items.len(),
        *item == walk@.items[walk@.replies.len() as int],
        direction == walk@.direction,
{
}

/// A walk that is told the calls of an item ends there and reports that item with them: all of them
/// where there are no more than were asked for, else the first so many and at least one.
pub proof fn law_calls_of_an_item_are_reported<I, C, E>(
    walk: CallWalk<I, C, E>,
    target: Option<I>,
    calls: Vec<C>,
    step: Step<CallWalk<I, C, E>, Result<CallHierarchyResult<I, C>, E>>,
)
    requires
        calls@.len() > 0,
        call_ensures(
            CallWalk::<I, C, E>::resume,
            (walk, CallReply { target, outcome: CallOutcome::<C, E>::Parsed(calls) }),
            step,
        ),
    ensures
        step matches Step::Done { waits, result: Ok(result) } && {
            &&& waits@.len() == 0
            &&& result.target == target
            &&& result.calls@ == calls@.take(min(calls@.len() as int, max(1, walk@.max as int)))
            &&& calls@.len() <= walk@.max ==> result.calls@ == calls@
        },
{
    assert(calls@.take(calls@.len() as int) =~= calls@);
}

/// What a walk does with what it is told of an item. An answer that could not be read ends it with
/// that error. An item with calls ends it with them. After any other item but the last it goes on
/// to the next. After the last item it reports that item, with the calls that were read last; and
/// where none were read, it fails with what the server failed with last.
pub proof fn law_call_walk_steps<I, C, E>(
    walk: CallWalk<I, C, E>,
    reply: CallReply<I, C, E>,
    step: Step<CallWalk<I, C, E>, Result<CallHierarchyResult<I, C>, E>>,
)
    requires
        call_ensures(CallWalk::<I, C, E>::resume, (walk, reply), step),
    ensures
        ({
            let replies = walk@.replies.push(reply);
            let ends = match reply.outcome {
                CallOutcome::Malformed(_) => true,
                CallOutcome::Parsed(calls) => calls@.len() > 0 || replies.len()
                    == walk@.items.len(),
                CallOutcome::Failed(_) => replies.len() == walk@.items.len(),
            };
            match step {
                Step::Again { waits, op } => {
                    &&& !ends
                    &&& waits@.len() == 0
                    &&& op@.items == walk@.items
                    &&& op@.direction == walk@.direction
                    &&& op@.max == walk@.max
                    &&& op@.replies == replies
                },
                Step::Done { waits, result } => {
                    &&& ends
                    &&& waits@.len() == 0
                    &&& match result {
                        Ok(result) => {
                            &&& !(reply.outcome is Malformed)
                            &&& result.target == reply.target
                            &&& exists|calls: Seq<C>| #[trigger]
                                read_last(replies, calls) && result.calls@ == calls.take(
                                    min(calls.len() as int, max(1, walk@.max as int)),
                                )
                        },
                        Err(error) => reply.outcome == CallOutcome::<C, E>::Malformed(error) || {
                            &&& !(reply.outcome is Malformed)
                            &&& forall|i: int|
                                0 <= i < replies.len() ==> !((
                                #[trigger] replies[i]).outcome is Parsed)
                            &&& failed_last(replies, error)
                        },
                    }
                },
            }
        }),
{
    let replies = walk@.replies.push(reply);
    assert(replies.last() == reply);
    lemma_last_parsed(replies);
    lemma_last_failure(replies);
    if let Some(calls) = last_parsed(replies) {
        assert(read_last(replies, calls));
        if let Step::Done { result: Ok(result), .. } = step {
            assert(result.calls@ =~= calls.take(
                min(calls.len() as int, max(1, walk@.max as int)),
            ));
        }
    }
}

/// What asking for the calls at a position does with the reply to preparing the hierarchy. An
/// error that is not the third is followed by asking the same again. A hierarchy with items is
/// followed by the walk through them; one without items, or a value that is no hierarchy, has no
/// item and no Asking for the calls at a position asks what it was made to ask.
pub proof fn law_calls_at_asks<E>(at: CallsAt<E>, asked: &FileRequest)
    requires
        call_ensures(CallsAt::<E>::request, (&at,), asked),
    ensures
        asked.file@ == at@.prepare.request.file,
        asked.query == at@.prepare.request.query,
{
}

/// calls.
pub proof fn law_calls_at_steps<I, C, E>(
    at: CallsAt<E>,
    reply: Result<serde_json::Value, E>,
    step: Step<CallsAt<E>, Step<CallWalk<I, C, E>, Result<CallHierarchyResult<I, C>, E>>>,
)
    requires
        call_ensures(CallsAt::<E>::resume::<I, C>, (at, reply), step),
    ensures
        ({
            let replies = at@.prepare.replies.push(reply);
            match step {
                Step::Again { waits, op } => {
                    &&& reply is Err
                    &&& at@.prepare.replies.len() < 2
                    &&& pauses_after_errors(replies, waits@)
                    &&& op@.prepare.request == at@.prepare.request
                    &&& op@.prepare.replies == replies
                    &&& op@.direction == at@.direction
                    &&& op@.max == at@.max
                },
                Step::Done { waits, result } => {
                    &&& pauses_after_errors(replies, waits@)
                    &&& match reply {
                        Err(error) => {
                            &&& at@.prepare.replies.len() == 2
                            &&& result matches Step::Done { waits, result: Err(given) } && given
                                == error && waits@.len() == 0
                        },
                        Ok(prepared) => match array_items(prepared) {
                            Some(items) => if items.len() > 0 {
                                result matches Step::Again { waits, op } && {
                                    &&& waits@.len() == 0
                                    &&& op@.items == items
                                    &&& op@.direction == at@.direction
                                    &&& op@.max == at@.max
                                    &&& op@.replies.len() == 0
                                }
                            } else {
                                result matches Step::Done { waits, result: Ok(nothing) }
                                    && waits@.len() == 0 && nothing.target is None
                                    && nothing.calls@.len() == 0
                            },
                            None => result matches Step::Done { waits, result: Ok(nothing) }
                                && waits@.len() == 0 && nothing.target is None
                                && nothing.calls@.len() == 0,
                        },
                    }
                },
            }
        }),
{
}

} // verus!
