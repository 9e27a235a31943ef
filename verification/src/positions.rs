//! What is at a position: definitions, implementations, type definitions and references.

#[allow(unused_imports)]
use crate::locations::{
    at_least_one, collected, law_read_up_to_limit, read_length, resolved, up_to,
};
use crate::locations::{collect_locations, max_one, read_locations, LocationOutcome};
#[allow(unused_imports)]
use crate::protocol::reply_view;
use crate::protocol::{FileRequest, Step};
#[allow(unused_imports)]
use crate::retry::{retry_outcome, retry_waits, RetryView};
use crate::retry::Retry;
use vstd::prelude::*;

verus! {

/// What a [`LocationsAt`] or a [`ReferencesAt`] is about: the request for locations, and how many
/// of them count.
pub ghost struct LocationsAtView<L, E> {
    pub fetch: RetryView<LocationOutcome<L, E>, E>,
    pub max: usize,
}

/// Lists the locations that belong to a position.
pub struct LocationsAt<L, E> {
    fetch: Retry<LocationOutcome<L, E>, E>,
    max: usize,
}

impl<L, E> View for LocationsAt<L, E> {
    type V = LocationsAtView<L, E>;

    closed spec fn view(&self) -> LocationsAtView<L, E> {
        LocationsAtView { fetch: self.fetch@, max: self.max }
    }
}

impl<L, E> LocationsAt<L, E> {
    /// A list of what `fetch` brings.
    pub(crate) fn new(fetch: Retry<LocationOutcome<L, E>, E>, max: usize) -> (at: Self)
        ensures
            at@ == (LocationsAtView { fetch: fetch@, max }),
    {
        LocationsAt { fetch, max }
    }

    /// What to ask the server.
    pub fn request(&self) -> (request: &FileRequest)
        ensures
            request@ == self@.fetch.request,
    {
        self.fetch.request()
    }

    /// Takes the server's list of locations. Of the list that ends the asking the first `max`
    /// entries count, and at least one.
    pub fn resume(self, reply: Result<Vec<LocationOutcome<L, E>>, E>) -> (step: Step<
        Self,
        Result<Vec<L>, E>,
    >)
        ensures
            self@.fetch.replies.len() < self@.fetch.policy.attempts(),
            ({
                let fetch = self@.fetch;
                let replies = fetch.replies.push(reply_view(reply));
                &&& step.waits() == retry_waits(fetch.policy, replies)
                &&& match retry_outcome(fetch.policy.attempts(), replies) {
                    Some(Ok(answer)) => step.done() is Some && reply_view(step.done()->0)
                        == collected(up_to(answer, at_least_one(self@.max))),
                    Some(Err(error)) => step.done() == Some(Err::<Vec<L>, E>(error)),
                    None => step.again() is Some && step.again()->0@ == (LocationsAtView {
                        fetch: RetryView { replies, ..fetch },
                        ..self@
                    }),
                }
            }),
    {
        match self.fetch.resume(reply) {
            Step::Again { waits, op } => Step::Again {
                waits,
                op: LocationsAt { fetch: op, max: self.max },
            },
            Step::Done { waits, result } => {
                let result: Result<Vec<L>, E> = match result {
                    Ok(answer) => collect_locations(answer, max_one(self.max)),
                    Err(error) => Err(error),
                };
                Step::Done { waits, result }
            },
        }
    }
}

/// Lists the references to what is at a position.
pub struct ReferencesAt<L, E> {
    fetch: Retry<LocationOutcome<L, E>, E>,
    max: usize,
}

impl<L, E> View for ReferencesAt<L, E> {
    type V = LocationsAtView<L, E>;

    closed spec fn view(&self) -> LocationsAtView<L, E> {
        LocationsAtView { fetch: self.fetch@, max: self.max }
    }
}

/// The references in an answer, and whether some of it was left unread: reading stops when `limit`
/// references were found.
pub open spec fn limited_references<L, E>(
    answer: Seq<LocationOutcome<L, E>>,
    limit: nat,
) -> Result<(Seq<L>, bool), E> {
    let read = read_length(answer, limit);
    match collected(answer.take(read as int)) {
        Ok(references) => Ok((references, read < answer.len())),
        Err(error) => Err(error),
    }
}

impl<L, E> ReferencesAt<L, E> {
    /// A list of what `fetch` brings.
    pub(crate) fn new(fetch: Retry<LocationOutcome<L, E>, E>, max: usize) -> (at: Self)
        ensures
            at@ == (LocationsAtView { fetch: fetch@, max }),
    {
        ReferencesAt { fetch, max }
    }

    /// What to ask the server.
    pub fn request(&self) -> (request: &FileRequest)
        ensures
            request@ == self@.fetch.request,
    {
        self.fetch.request()
    }

    /// Takes the server's list of locations. The list that ends the asking is read until `max`
    /// references were found, and at least one.
    pub fn resume(self, reply: Result<Vec<LocationOutcome<L, E>>, E>) -> (step: Step<
        Self,
        Result<(Vec<L>, bool), E>,
    >)
        ensures
            self@.fetch.replies.len() < self@.fetch.policy.attempts(),
            ({
                let fetch = self@.fetch;
                let replies = fetch.replies.push(reply_view(reply));
                &&& step.waits() == retry_waits(fetch.policy, replies)
                &&& match retry_outcome(fetch.policy.attempts(), replies) {
                    Some(Ok(answer)) => step.done() is Some && match limited_references(
                        answer,
                        at_least_one(self@.max),
                    ) {
                        Ok((references, truncated)) => {
                            &&& step.done()->0 is Ok
                            &&& step.done()->0->Ok_0.0@ == references
                            &&& step.done()->0->Ok_0.1 == truncated
                        },
                        Err(error) => step.done()->0 == Err::<(Vec<L>, bool), E>(error),
                    },
                    Some(Err(error)) => step.done() == Some(Err::<(Vec<L>, bool), E>(error)),
                    None => step.again() is Some && step.again()->0@ == (LocationsAtView {
                        fetch: RetryView { replies, ..fetch },
                        ..self@
                    }),
                }
            }),
    {
        match self.fetch.resume(reply) {
            Step::Again { waits, op } => Step::Again {
                waits,
                op: ReferencesAt { fetch: op, max: self.max },
            },
            Step::Done { waits, result } => {
                let result: Result<(Vec<L>, bool), E> = match result {
                    Ok(answer) => {
                        let length: usize = answer.len();
                        match read_locations(answer, max_one(self.max)) {
                            Ok((references, read)) => Ok((references, read < length)),
                            Err(error) => Err(error),
                        }
                    },
                    Err(error) => Err(error),
                };
                Step::Done { waits, result }
            },
        }
    }
}

/// Listing references reports no more than the limit; it says that it left something unread only
/// where it reached the limit; and where it left nothing unread, it reports every reference.
pub proof fn law_references_up_to_limit<L, E>(answer: Seq<LocationOutcome<L, E>>, limit: nat)
    ensures
        limited_references(answer, limit) matches Ok((references, truncated)) ==> {
            &&& references.len() <= limit
            &&& truncated ==> references.len() == limit
            &&& !truncated ==> references == resolved(answer)
        },
{
    law_read_up_to_limit(answer, limit);
    if read_length(answer, limit) == answer.len() {
        assert(answer.take(answer.len() as int) =~= answer);
    }
}

} // verus!
