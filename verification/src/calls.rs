//! Walking a call hierarchy one step up or down.

use crate::delay::Delay;
#[allow(unused_imports)]
use crate::locations::{at_least_one, up_to};
use crate::locations::max_one;
use crate::protocol::{FileRequest, Step};
#[allow(unused_imports)]
use crate::retry::{prepare_outcome, prepare_waits, PrepareView, LOCATION_ATTEMPTS};
use crate::retry::PrepareRetry;
use vstd::pervasive::unreached;
use vstd::prelude::*;

verus! {

/// The elements of a JSON value that is an array; nothing for any other.
pub uninterp spec fn array_items(value: serde_json::Value) -> Option<Seq<serde_json::Value>>;

/// [`serde_json::Value::as_array`] gives the elements of a value that is an array, and nothing for
/// any other.
pub assume_specification[ serde_json::Value::as_array ](value: &serde_json::Value) -> (items:
    Option<&Vec<serde_json::Value>>)
    ensures
        match array_items(*value) {
            Some(elements) => items is Some && items->0@ == elements,
            None => items is None,
        },
;

/// Which calls are asked for.
#[derive(Debug, Clone, Copy, PartialEq, Eq, Structural)]
pub enum CallDirection {
    /// The calls of a function.
    Incoming,
    /// The calls that a function makes.
    Outgoing,
}

/// What asking for the calls of one item came to.
#[derive(Debug, PartialEq, Eq)]
pub enum CallOutcome<C, E> {
    /// The server failed.
    Failed(E),
    /// The server's answer could not be read.
    Malformed(E),
    /// The server answered with these calls.
    Parsed(Vec<C>),
}

/// What is known of one item after it was asked about: the item itself, where it could be read,
/// and its calls.
#[derive(Debug, PartialEq, Eq)]
pub struct CallReply<I, C, E> {
    pub target: Option<I>,
    pub outcome: CallOutcome<C, E>,
}

/// An item and its calls. There is no item where the hierarchy has none.
#[derive(Debug, PartialEq, Eq)]
pub struct CallHierarchyResult<I, C> {
    pub target: Option<I>,
    pub calls: Vec<C>,
}

/// The calls of the last item that had its calls read.
pub open spec fn last_parsed<I, C, E>(replies: Seq<CallReply<I, C, E>>) -> Option<Seq<C>>
    decreases replies.len(),
{
    if replies.len() == 0 {
        None
    } else {
        match replies.last().outcome {
            CallOutcome::Parsed(calls) => Some(calls@),
            _ => last_parsed(replies.drop_last()),
        }
    }
}

/// The error of the last item that the server failed on.
pub open spec fn last_failure<I, C, E>(replies: Seq<CallReply<I, C, E>>) -> Option<E>
    decreases replies.len(),
{
    if replies.len() == 0 {
        None
    } else {
        match replies.last().outcome {
            CallOutcome::Failed(error) => Some(error),
            _ => last_failure(replies.drop_last()),
        }
    }
}

/// Whether an item ends the walk: it has calls.
pub open spec fn has_calls<I, C, E>(reply: CallReply<I, C, E>) -> bool {
    reply.outcome matches CallOutcome::Parsed(calls) && calls@.len() > 0
}

/// What a [`CallWalk`] is about: the items, how many calls are reported at most, and the replies
/// to the first items.
pub ghost struct CallWalkView<I, C, E> {
    pub items: Seq<serde_json::Value>,
    pub direction: CallDirection,
    pub max: usize,
    pub replies: Seq<CallReply<I, C, E>>,
}

impl<I, C, E> CallWalkView<I, C, E> {
    /// What the walk comes to after `replies`: the error of an answer that could not be read; or,
    /// once an item has calls or every item was asked about, the most recent item with the most
    /// recent calls, or the most recent error where no calls were read at all; and nothing yet
    /// before that.
    pub open spec fn outcome(self, replies: Seq<CallReply<I, C, E>>) -> Option<
        Result<(Option<I>, Seq<C>), E>,
    > {
        match replies.last().outcome {
            CallOutcome::Malformed(error) => Some(Err(error)),
            _ => if has_calls(replies.last()) || replies.len() >= self.items.len() {
                match last_parsed(replies) {
                    Some(calls) => Some(
                        Ok((replies.last().target, up_to(calls, at_least_one(self.max)))),
                    ),
                    None => Some(Err(last_failure(replies)->0)),
                }
            } else {
                None
            },
        }
    }
}

/// Asks about one item after another until one has calls.
pub struct CallWalk<I, C, E> {
    prepared: serde_json::Value,
    direction: CallDirection,
    max: usize,
    asked: usize,
    calls: Option<Vec<C>>,
    last_error: Option<E>,
    replies: Ghost<Seq<CallReply<I, C, E>>>,
}

impl<I, C, E> View for CallWalk<I, C, E> {
    type V = CallWalkView<I, C, E>;

    closed spec fn view(&self) -> CallWalkView<I, C, E> {
        CallWalkView {
            items: array_items(self.prepared)->0,
            direction: self.direction,
            max: self.max,
            replies: self.replies@,
        }
    }
}

impl<I, C, E> CallWalk<I, C, E> {
    #[verifier::type_invariant]
    closed spec fn consistent(self) -> bool {
        &&& array_items(self.prepared) is Some
        &&& self.asked == self.replies@.len()
        &&& self.asked < array_items(self.prepared)->0.len()
        &&& calls_heard(self@, self.replies@)
        &&& self.asked > 0 ==> self@.outcome(self.replies@) is None
        &&& self.last_error == last_failure(self.replies@)
        &&& match last_parsed(self.replies@) {
            Some(calls) => self.calls is Some && self.calls->0@ == up_to(
                calls,
                at_least_one(self.max),
            ),
            None => self.calls is None,
        }
        &&& self.asked > 0 ==> self.calls is Some || self.last_error is Some
    }

    /// Begins with the first item of what the server prepared, where there is one.
    pub(crate) fn begin(
        prepared: serde_json::Value,
        direction: CallDirection,
        max: usize,
    ) -> (step: Step<Self, Result<CallHierarchyResult<I, C>, E>>)
        ensures
            step.waits() == Seq::<Delay>::empty(),
            if array_items(prepared) is None || array_items(prepared)->0.len() == 0 {
                &&& step.done() is Some
                &&& step.done()->0 is Ok
                &&& step.done()->0->Ok_0.target is None
                &&& step.done()->0->Ok_0.calls@ == Seq::<C>::empty()
            } else {
                step.again() is Some && step.again()->0@ == (CallWalkView::<I, C, E> {
                    items: array_items(prepared)->0,
                    direction,
                    max,
                    replies: Seq::empty(),
                })
            },
    {
        let nothing: bool = match prepared.as_array() {
            Some(items) => items.len() == 0,
            None => true,
        };
        if nothing {
            return Step::Done {
                waits: Vec::new(),
                result: Ok(CallHierarchyResult { target: None, calls: Vec::new() }),
            };
        }
        Step::Again {
            waits: Vec::new(),
            op: CallWalk {
                prepared,
                direction,
                max,
                asked: 0,
                calls: None,
                last_error: None,
                replies: Ghost(Seq::empty()),
            },
        }
    }

    /// Which calls to ask for.
    pub fn direction(&self) -> (direction: CallDirection)
        ensures
            direction == self@.direction,
    {
        self.direction
    }

    /// The item to ask about.
    pub fn item(&self) -> (item: &serde_json::Value)
        ensures
            self@.replies.len() < self@.items.len(),
            *item == self@.items[self@.replies.len() as int],
    {
        proof {
            use_type_invariant(self);
        }
        match self.prepared.as_array() {
            Some(items) => &items[self.asked],
            None => unreached(),
        }
    }

    /// Takes what is known of the item now.
    pub fn resume(self, reply: CallReply<I, C, E>) -> (step: Step<
        Self,
        Result<CallHierarchyResult<I, C>, E>,
    >)
        ensures
            self@.replies.len() < self@.items.len(),
            ({
                let replies = self@.replies.push(reply);
                &&& calls_heard(self@, replies)
                &&& step.waits() == Seq::<Delay>::empty()
                &&& match self@.outcome(replies) {
                    Some(Ok((target, calls))) => {
                        &&& step.done() is Some
                        &&& step.done()->0 is Ok
                        &&& step.done()->0->Ok_0.target == target
                        &&& step.done()->0->Ok_0.calls@ == calls
                    },
                    Some(Err(error)) => step.done() == Some(
                        Err::<CallHierarchyResult<I, C>, E>(error),
                    ),
                    None => step.again() is Some && step.again()->0@ == (CallWalkView {
                        replies,
                        ..self@
                    }),
                }
            }),
    {
        proof {
            use_type_invariant(&self);
        }
        let waits: Vec<Delay> = Vec::new();
        let ghost replies = self.replies@.push(reply);
        assert(replies.drop_last() =~= self.replies@);
        proof {
            law_calls_heard_grows(self@, self.replies@, reply);
        }
        let length: usize = match self.prepared.as_array() {
            Some(items) => items.len(),
            None => 0,
        };
        let asked: usize = self.asked + 1;
        let mut calls: Option<Vec<C>> = self.calls;
        let mut last_error: Option<E> = self.last_error;
        let mut found: bool = false;
        match reply.outcome {
            CallOutcome::Failed(error) => {
                last_error = Some(error);
            },
            CallOutcome::Malformed(error) => {
                return Step::Done { waits, result: Err(error) };
            },
            CallOutcome::Parsed(parsed) => {
                let ghost all = parsed@;
                let mut kept: Vec<C> = parsed;
                kept.truncate(max_one(self.max));
                assert(kept@ =~= up_to(all, at_least_one(self.max)));
                found = kept.len() > 0;
                calls = Some(kept);
            },
        }
        if found || asked >= length {
            let result: Result<CallHierarchyResult<I, C>, E> = match calls {
                Some(calls) => Ok(CallHierarchyResult { target: reply.target, calls }),
                None => match last_error {
                    Some(error) => Err(error),
                    None => unreached(),
                },
            };
            Step::Done { waits, result }
        } else {
            Step::Again {
                waits,
                op: CallWalk {
                    prepared: self.prepared,
                    direction: self.direction,
                    max: self.max,
                    asked,
                    calls,
                    last_error,
                    replies: Ghost(replies),
                },
            }
        }
    }
}

/// What a [`CallsAt`] is about: the request that prepares the hierarchy, and what is then asked.
pub ghost struct CallsAtView<E> {
    pub prepare: PrepareView<serde_json::Value, E>,
    pub direction: CallDirection,
    pub max: usize,
}

/// Prepares the call hierarchy at a position, whose items are then asked about.
pub struct CallsAt<E> {
    prepare: PrepareRetry<serde_json::Value, E>,
    direction: CallDirection,
    max: usize,
}

impl<E> View for CallsAt<E> {
    type V = CallsAtView<E>;

    closed spec fn view(&self) -> CallsAtView<E> {
        CallsAtView { prepare: self.prepare@, direction: self.direction, max: self.max }
    }
}

impl<E> CallsAt<E> {
    /// Asks for the calls in what `prepare` brings.
    pub(crate) fn new(
        prepare: PrepareRetry<serde_json::Value, E>,
        direction: CallDirection,
        max: usize,
    ) -> (at: Self)
        ensures
            at@ == (CallsAtView { prepare: prepare@, direction, max }),
    {
        CallsAt { prepare, direction, max }
    }

    /// What to ask the server.
    pub fn request(&self) -> (request: &FileRequest)
        ensures
            request@ == self@.prepare.request,
    {
        self.prepare.request()
    }

    /// Takes the hierarchy that the server prepared. When it has items, the result is the walk
    /// through them.
    pub fn resume<I, C>(self, reply: Result<serde_json::Value, E>) -> (step: Step<
        Self,
        Step<CallWalk<I, C, E>, Result<CallHierarchyResult<I, C>, E>>,
    >)
        ensures
            self@.prepare.replies.len() < LOCATION_ATTEMPTS,
            ({
                let replies = self@.prepare.replies.push(reply);
                &&& step.waits() == prepare_waits(replies)
                &&& match prepare_outcome(replies) {
                    None => step.again() is Some && step.again()->0@ == (CallsAtView {
                        prepare: PrepareView { replies, ..self@.prepare },
                        ..self@
                    }),
                    Some(Err(error)) => {
                        &&& step.done() is Some
                        &&& step.done()->0.waits() == Seq::<Delay>::empty()
                        &&& step.done()->0.done() == Some(
                            Err::<CallHierarchyResult<I, C>, E>(error),
                        )
                    },
                    Some(Ok(prepared)) => {
                        &&& step.done() is Some
                        &&& step.done()->0.waits() == Seq::<Delay>::empty()
                        &&& if array_items(prepared) is None || array_items(prepared)->0.len()
                            == 0 {
                            &&& step.done()->0.done() is Some
                            &&& step.done()->0.done()->0 is Ok
                            &&& step.done()->0.done()->0->Ok_0.target is None
                            &&& step.done()->0.done()->0->Ok_0.calls@ == Seq::<C>::empty()
                        } else {
                            step.done()->0.again() is Some && step.done()->0.again()->0@ == (
                            CallWalkView::<I, C, E> {
                                items: array_items(prepared)->0,
                                direction: self@.direction,
                                max: self@.max,
                                replies: Seq::empty(),
                            })
                        }
                    },
                }
            }),
    {
        match self.prepare.resume(reply) {
            Step::Again { waits, op } => Step::Again {
                waits,
                op: CallsAt { prepare: op, direction: self.direction, max: self.max },
            },
            Step::Done { waits, result } => {
                let walk: Step<CallWalk<I, C, E>, Result<CallHierarchyResult<I, C>, E>> =
                    match result {
                    Ok(prepared) => CallWalk::begin(prepared, self.direction, self.max),
                    Err(error) => Step::Done { waits: Vec::new(), result: Err(error) },
                };
                Step::Done { waits, result: walk }
            },
        }
    }
}

/// Whether `replies` can have been heard by one walk: it was still asking before the last one.
pub open spec fn calls_heard<I, C, E>(
    walk: CallWalkView<I, C, E>,
    replies: Seq<CallReply<I, C, E>>,
) -> bool {
    forall|k: int| 0 < k < replies.len() ==> walk.outcome(#[trigger] replies.take(k)) is None
}

/// While a walk goes on, its replies stay ones that one walk can have heard.
pub proof fn law_calls_heard_grows<I, C, E>(
    walk: CallWalkView<I, C, E>,
    replies: Seq<CallReply<I, C, E>>,
    reply: CallReply<I, C, E>,
)
    requires
        calls_heard(walk, replies),
        replies.len() == 0 || walk.outcome(replies) is None,
    ensures
        calls_heard(walk, replies.push(reply)),
{
    assert forall|k: int| 0 < k < replies.push(reply).len() implies walk.outcome(
        #[trigger] replies.push(reply).take(k),
    ) is None by {
        assert(replies.push(reply).take(k) =~= replies.take(k));
        if k == replies.len() {
            assert(replies.take(k) =~= replies);
        }
    }
}

proof fn lemma_last_parsed<I, C, E>(replies: Seq<CallReply<I, C, E>>)
    ensures
        last_parsed(replies) is None ==> forall|i: int|
            0 <= i < replies.len() ==> !((#[trigger] replies[i]).outcome is Parsed),
    decreases replies.len(),
{
    if replies.len() > 0 {
        let earlier = replies.drop_last();
        lemma_last_parsed(earlier);
        assert(forall|i: int| 0 <= i < earlier.len() ==> earlier[i] == replies[i]);
    }
}

/// A walk asks about each item at most once, and goes on past an item only if the server failed
/// on it or gave it no calls.
pub proof fn law_call_walk_stops_at_first_calls<I, C, E>(
    walk: CallWalkView<I, C, E>,
    replies: Seq<CallReply<I, C, E>>,
)
    requires
        walk.items.len() > 0,
        calls_heard(walk, replies),
    ensures
        replies.len() <= walk.items.len(),
        forall|i: int|
            0 <= i < replies.len() - 1 ==> !has_calls(#[trigger] replies[i]) && !(
            replies[i].outcome is Malformed),
{
    if replies.len() > walk.items.len() {
        assert(walk.outcome(replies.take(walk.items.len() as int)) is None);
    }
    assert forall|i: int| 0 <= i < replies.len() - 1 implies !has_calls(#[trigger] replies[i]) && !(
    replies[i].outcome is Malformed) by {
        let heard = replies.take(i + 1);
        assert(heard.last() == replies[i]);
        assert(walk.outcome(heard) is None);
    }
}

/// A walk that fails does so with an error that it was handed: the one of an answer that could
/// not be read, or the server's last one where the server failed on every item.
pub proof fn law_call_walk_fails_with_given_error<I, C, E>(
    walk: CallWalkView<I, C, E>,
    replies: Seq<CallReply<I, C, E>>,
    error: E,
)
    requires
        calls_heard(walk, replies),
        0 < replies.len() <= walk.items.len(),
        walk.outcome(replies) == Some(Err::<(Option<I>, Seq<C>), E>(error)),
    ensures
        replies.last().outcome == CallOutcome::<C, E>::Malformed(error) || {
            &&& replies.len() == walk.items.len()
            &&& forall|i: int|
                0 <= i < replies.len() ==> (#[trigger] replies[i]).outcome is Failed
            &&& replies.last().outcome == CallOutcome::<C, E>::Failed(error)
        },
{
    if !(replies.last().outcome is Malformed) {
        law_call_walk_stops_at_first_calls(walk, replies);
        lemma_last_parsed(replies);
        if has_calls(replies.last()) {
            assert(last_parsed(replies) is Some);
        }
        assert forall|i: int| 0 <= i < replies.len() implies (
        #[trigger] replies[i]).outcome is Failed by {
            assert(!(replies[i].outcome is Parsed));
            if i == replies.len() - 1 {
                assert(replies[i] == replies.last());
            }
        }
        assert(replies[replies.len() - 1].outcome is Failed);
    }
}

} // verus!
