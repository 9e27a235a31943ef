//! Which locations of a reply are reported.

#[allow(unused_imports)]
use crate::guarantees::asking::{
    comes_to, law_replies_are_followed_by_waits, law_replies_come_to_their_outcome, pauses, times,
};
#[allow(unused_imports)]
use crate::locations::{
    at_least_one, collect_all_locations, collect_locations, collected, first_invalid,
    law_read_are_the_first, law_read_up_to_limit, read_length, read_locations, resolved, up_to,
};
use crate::locations::LocationOutcome;
use crate::positions::{LocationsAt, ReferencesAt};
#[allow(unused_imports)]
use crate::protocol::reply_view;
use crate::protocol::{FileRequest, Step};
#[allow(unused_imports)]
use vstd::math::{max, min};
use vstd::prelude::*;

verus! {

/// The locations among some entries, in their order.
pub open spec fn found<L, E>(entries: Seq<LocationOutcome<L, E>>) -> Seq<L> {
    entries.filter(|entry: LocationOutcome<L, E>| entry is Resolved).map_values(
        |entry: LocationOutcome<L, E>| entry->Resolved_0,
    )
}

/// Whether the first entry that is no location has this error.
pub open spec fn breaks_with<L, E>(entries: Seq<LocationOutcome<L, E>>, error: E) -> bool {
    exists|i: int|
        0 <= i < entries.len() && #[trigger] entries[i] == LocationOutcome::<L, E>::Invalid(error)
            && forall|j: int| 0 <= j < i ==> !((#[trigger] entries[j]) is Invalid)
}

/// Whether every entry is a location, of whatever file.
pub open spec fn is_sound<L, E>(entries: Seq<LocationOutcome<L, E>>) -> bool {
    forall|i: int| 0 <= i < entries.len() ==> !((#[trigger] entries[i]) is Invalid)
}

pub(crate) proof fn lemma_resolved_are_found<L, E>(entries: Seq<LocationOutcome<L, E>>)
    ensures
        resolved(entries) == found(entries),
    decreases entries.len(),
{
    reveal(Seq::filter);
    if entries.len() > 0 {
        let earlier = entries.drop_last();
        lemma_resolved_are_found(earlier);
        let kept = |entry: LocationOutcome<L, E>| entry is Resolved;
        let location = |entry: LocationOutcome<L, E>| entry->Resolved_0;
        if entries.last() is Resolved {
            assert(entries.filter(kept) == earlier.filter(kept).push(entries.last()));
            assert(earlier.filter(kept).push(entries.last()).map_values(location)
                =~= earlier.filter(kept).map_values(location).push(location(entries.last())));
        }
    } else {
        assert(found(entries) =~= resolved(entries));
    }
}

pub(crate) proof fn lemma_first_invalid<L, E>(entries: Seq<LocationOutcome<L, E>>)
    ensures
        match first_invalid(entries) {
            Some(error) => breaks_with(entries, error),
            None => is_sound(entries),
        },
        forall|error: E|
            #[trigger] breaks_with(entries, error) ==> first_invalid(entries) == Some(error),
        is_sound(entries) ==> first_invalid(entries) is None,
    decreases entries.len(),
{
    if entries.len() > 0 {
        let earlier = entries.drop_last();
        lemma_first_invalid(earlier);
        assert(forall|i: int| 0 <= i < earlier.len() ==> #[trigger] earlier[i] == entries[i]);
        let n = entries.len() - 1;
        match first_invalid(earlier) {
            Some(error) => {
                let i = choose|i: int|
                    0 <= i < earlier.len() && #[trigger] earlier[i] == LocationOutcome::<
                        L,
                        E,
                    >::Invalid(error) && forall|j: int|
                        0 <= j < i ==> !((#[trigger] earlier[j]) is Invalid);
                assert(entries[i] == LocationOutcome::<L, E>::Invalid(error));
                assert forall|j: int| 0 <= j < i implies !((#[trigger] entries[j]) is Invalid) by {
                    assert(!(earlier[j] is Invalid));
                }
                assert forall|other: E| #[trigger] breaks_with(entries, other) implies other
                    == error by {
                    let k = choose|k: int|
                        0 <= k < entries.len() && #[trigger] entries[k] == LocationOutcome::<
                            L,
                            E,
                        >::Invalid(other) && forall|j: int|
                            0 <= j < k ==> !((#[trigger] entries[j]) is Invalid);
                    assert(i == k);
                }
            },
            None => {
                assert forall|j: int| 0 <= j < n implies !((#[trigger] entries[j]) is Invalid) by {
                    assert(!(earlier[j] is Invalid));
                }
                if let LocationOutcome::Invalid(error) = entries.last() {
                    assert(entries[n] == LocationOutcome::<L, E>::Invalid(error));
                }
                assert forall|other: E| #[trigger] breaks_with(
                    entries,
                    other,
                ) implies first_invalid(entries) == Some(other) by {
                    let k = choose|k: int|
                        0 <= k < entries.len() && #[trigger] entries[k] == LocationOutcome::<
                            L,
                            E,
                        >::Invalid(other) && forall|j: int|
                            0 <= j < k ==> !((#[trigger] entries[j]) is Invalid);
                    assert(k == n);
                }
            },
        }
    }
}

/// What is found in two lists of entries, one after the other, is what is found in the first and
/// then what is found in the second; an entry by itself gives its location, if it has one.
pub proof fn law_locations_are_found_one_by_one<L, E>(
    before: Seq<LocationOutcome<L, E>>,
    after: Seq<LocationOutcome<L, E>>,
    location: L,
    error: E,
)
    ensures
        resolved(before + after) == resolved(before) + resolved(after),
        resolved(seq![LocationOutcome::<L, E>::Resolved(location)]) == seq![location],
        resolved(seq![LocationOutcome::<L, E>::Unresolvable]).len() == 0,
        resolved(seq![LocationOutcome::<L, E>::Invalid(error)]).len() == 0,
    decreases after.len(),
{
    lemma_found_in_both(before, after);
    lemma_resolved_are_found(before);
    lemma_resolved_are_found(after);
    lemma_resolved_are_found(before + after);
    reveal_with_fuel(resolved, 2);
    let one = seq![LocationOutcome::<L, E>::Resolved(location)];
    assert(one.drop_last() =~= Seq::empty());
    assert(resolved(one) =~= seq![location]);
    let other = seq![LocationOutcome::<L, E>::Unresolvable];
    assert(other.drop_last() =~= Seq::empty());
    let third = seq![LocationOutcome::<L, E>::Invalid(error)];
    assert(third.drop_last() =~= Seq::empty());
}

pub(crate) proof fn lemma_found_in_both<L, E>(
    before: Seq<LocationOutcome<L, E>>,
    after: Seq<LocationOutcome<L, E>>,
)
    ensures
        found(before + after) == found(before) + found(after),
{
    let kept = |entry: LocationOutcome<L, E>| entry is Resolved;
    Seq::filter_distributes_over_add(before, after, kept);
    assert(found(before + after) =~= found(before) + found(after));
}

proof fn lemma_read_length<L, E>(entries: Seq<LocationOutcome<L, E>>, limit: nat)
    ensures
        read_length(entries, limit) <= entries.len(),
        forall|i: int|
            0 <= i < entries.len() ==> (i < read_length(entries, limit) <==> found(
                #[trigger] entries.take(i),
            ).len() < limit),
    decreases entries.len(),
{
    law_read_up_to_limit(entries, limit);
    assert forall|i: int| 0 <= i < entries.len() implies (i < read_length(entries, limit)
        <==> found(#[trigger] entries.take(i)).len() < limit) by {
        let seen = entries.take(i);
        if limit == 0 {
        } else if i == 0 {
            assert(seen =~= Seq::empty());
            lemma_resolved_are_found(seen);
        } else {
            let rest = entries.drop_first();
            let left = match entries.first() {
                LocationOutcome::Resolved(_) => (limit - 1) as nat,
                _ => limit,
            };
            lemma_read_length(rest, left);
            assert(rest.take(i - 1) =~= seen.drop_first());
            let one = seq![entries.first()];
            assert(seen =~= one + rest.take(i - 1));
            lemma_found_in_both(one, rest.take(i - 1));
            lemma_resolved_are_found(one);
            reveal_with_fuel(resolved, 2);
            assert(one.drop_last() =~= Seq::empty());
        }
    }
}

/// What the first entries of a reply come to: the locations among them, or the error of the first
/// that is none.
pub proof fn law_first_entries_are_collected<L, E>(
    entries: Vec<LocationOutcome<L, E>>,
    most: usize,
    result: Result<Vec<L>, E>,
)
    requires
        call_ensures(collect_locations::<L, E>, (entries, most), result),
    ensures
        ({
            let counting = entries@.take(min(entries@.len() as int, most as int));
            match result {
                Ok(locations) => is_sound(counting) && locations@ == found(counting),
                Err(error) => breaks_with(counting, error),
            }
        }),
{
    let counting = entries@.take(min(entries@.len() as int, most as int));
    assert(counting =~= up_to(entries@, most as nat));
    lemma_first_invalid(counting);
    lemma_resolved_are_found(counting);
}

/// What all the entries of a reply come to.
pub proof fn law_all_entries_are_collected<L, E>(
    entries: Vec<LocationOutcome<L, E>>,
    result: Result<Vec<L>, E>,
)
    requires
        call_ensures(collect_all_locations::<L, E>, (entries,), result),
    ensures
        match result {
            Ok(locations) => is_sound(entries@) && locations@ == found(entries@),
            Err(error) => breaks_with(entries@, error),
        },
{
    lemma_first_invalid(entries@);
    lemma_resolved_are_found(entries@);
}

/// Reading a reply stops when enough locations were found. What is read comes to its locations,
/// which are the first of all that the reply holds; an entry that is no location counts only if it
/// is read.
pub proof fn law_entries_are_read_until_enough<L, E>(
    entries: Vec<LocationOutcome<L, E>>,
    limit: usize,
    result: Result<(Vec<L>, usize), E>,
)
    requires
        call_ensures(read_locations::<L, E>, (entries, limit), result),
    ensures
        match result {
            Ok((locations, read)) => {
                &&& locations@ == found(entries@).take(
                    min(found(entries@).len() as int, limit as int),
                )
                &&& read <= entries@.len()
                &&& forall|i: int|
                    0 <= i < entries@.len() ==> (i < read <==> found(
                        #[trigger] entries@.take(i),
                    ).len() < limit)
                &&& is_sound(entries@.take(read as int))
            },
            Err(error) => breaks_early(entries@, limit as int, error),
        },
{
    lemma_reading(entries@, limit as nat);
}

/// Whether the first entry that is no location has this error and is read by someone who stops when
/// `limit` locations were found.
pub open spec fn breaks_early<L, E>(
    entries: Seq<LocationOutcome<L, E>>,
    limit: int,
    error: E,
) -> bool {
    exists|i: int|
        0 <= i < entries.len() && #[trigger] entries[i] == LocationOutcome::<L, E>::Invalid(error)
            && found(entries.take(i)).len() < limit && forall|j: int|
            0 <= j < i ==> !((#[trigger] entries[j]) is Invalid)
}

pub(crate) proof fn lemma_reading<L, E>(entries: Seq<LocationOutcome<L, E>>, limit: nat)
    ensures
        ({
            let length = read_length(entries, limit);
            let read = entries.take(length as int);
            &&& length <= entries.len()
            &&& forall|i: int|
                0 <= i < entries.len() ==> (i < length <==> found(#[trigger] entries.take(i)).len()
                    < limit)
            &&& match collected(read) {
                Ok(locations) => {
                    &&& locations == found(entries).take(
                        min(found(entries).len() as int, limit as int),
                    )
                    &&& is_sound(read)
                },
                Err(error) => breaks_early(entries, limit as int, error),
            }
        }),
{
    let length = read_length(entries, limit);
    let read = entries.take(length as int);
    lemma_read_length(entries, limit);
    law_read_are_the_first(entries, limit);
    lemma_resolved_are_found(entries);
    lemma_first_invalid(read);
    assert(up_to(found(entries), limit) =~= found(entries).take(
        min(found(entries).len() as int, limit as int),
    ));
    if let Err(error) = collected(read) {
        let i = choose|i: int|
            0 <= i < read.len() && #[trigger] read[i] == LocationOutcome::<L, E>::Invalid(error)
                && forall|j: int| 0 <= j < i ==> !((#[trigger] read[j]) is Invalid);
        assert(entries[i] == read[i]);
        assert(found(entries.take(i)).len() < limit);
        assert forall|j: int| 0 <= j < i implies !((#[trigger] entries[j]) is Invalid) by {
            assert(!(read[j] is Invalid));
        }
    }
}

/// A list of the locations at a position asks on like any request for locations. Of the answer the
/// A list of the locations at a position asks what it was made to ask.
pub proof fn law_locations_at_asks<L, E>(at: LocationsAt<L, E>, asked: &FileRequest)
    requires
        call_ensures(LocationsAt::<L, E>::request, (&at,), asked),
    ensures
        asked.file@ == at@.fetch.request.file,
        asked.query == at@.fetch.request.query,
{
}

/// first entries count, as many as were asked for and at least one.
pub proof fn law_locations_at_steps<L, E>(
    at: LocationsAt<L, E>,
    reply: Result<Vec<LocationOutcome<L, E>>, E>,
    step: Step<LocationsAt<L, E>, Result<Vec<L>, E>>,
    outcome: Option<Result<Seq<LocationOutcome<L, E>>, E>>,
)
    requires
        call_ensures(LocationsAt::<L, E>::resume, (at, reply), step),
        comes_to(
            times(at@.fetch.policy),
            at@.fetch.replies.push(
                match reply {
                    Ok(items) => Ok(items@),
                    Err(error) => Err(error),
                },
            ),
            outcome,
        ),
    ensures
        ({
            let replies = at@.fetch.replies.push(
                match reply {
                    Ok(items) => Ok(items@),
                    Err(error) => Err(error),
                },
            );
            match step {
                Step::Again { waits, op } => {
                    &&& outcome is None
                    &&& pauses(at@.fetch.policy, replies, waits@)
                    &&& op@.fetch.replies == replies
                    &&& op@.fetch.policy == at@.fetch.policy
                    &&& op@.fetch.request == at@.fetch.request
                    &&& op@.max == at@.max
                },
                Step::Done { waits, result } => {
                    &&& pauses(at@.fetch.policy, replies, waits@)
                    &&& match outcome {
                        Some(Ok(answer)) => {
                            let counting = answer.take(
                                min(answer.len() as int, max(1, at@.max as int)),
                            );
                            match result {
                                Ok(locations) => is_sound(counting) && locations@ == found(
                                    counting,
                                ),
                                Err(error) => breaks_with(counting, error),
                            }
                        },
                        Some(Err(error)) => result is Err && result->Err_0 == error,
                        None => false,
                    }
                },
            }
        }),
{
    let replies = at@.fetch.replies.push(reply_view(reply));
    law_replies_come_to_their_outcome(at@.fetch.policy, replies, outcome);
    law_replies_are_followed_by_waits(at@.fetch.policy, replies);
    if let Some(Ok(answer)) = outcome {
        let counting = answer.take(min(answer.len() as int, max(1, at@.max as int)));
        assert(counting =~= up_to(answer, at_least_one(at@.max)));
        lemma_first_invalid(counting);
        lemma_resolved_are_found(counting);
    }
}

/// A list of the references at a position asks on like any request for locations. The answer is
/// read until as many references were found as were asked for, and at least one; the result says
/// A list of the references at a position asks what it was made to ask.
pub proof fn law_references_at_asks<L, E>(at: ReferencesAt<L, E>, asked: &FileRequest)
    requires
        call_ensures(ReferencesAt::<L, E>::request, (&at,), asked),
    ensures
        asked.file@ == at@.fetch.request.file,
        asked.query == at@.fetch.request.query,
{
}

/// whether an entry was left unread.
pub proof fn law_references_at_steps<L, E>(
    at: ReferencesAt<L, E>,
    reply: Result<Vec<LocationOutcome<L, E>>, E>,
    step: Step<ReferencesAt<L, E>, Result<(Vec<L>, bool), E>>,
    outcome: Option<Result<Seq<LocationOutcome<L, E>>, E>>,
)
    requires
        call_ensures(ReferencesAt::<L, E>::resume, (at, reply), step),
        comes_to(
            times(at@.fetch.policy),
            at@.fetch.replies.push(
                match reply {
                    Ok(items) => Ok(items@),
                    Err(error) => Err(error),
                },
            ),
            outcome,
        ),
    ensures
        ({
            let replies = at@.fetch.replies.push(
                match reply {
                    Ok(items) => Ok(items@),
                    Err(error) => Err(error),
                },
            );
            match step {
                Step::Again { waits, op } => {
                    &&& outcome is None
                    &&& pauses(at@.fetch.policy, replies, waits@)
                    &&& op@.fetch.replies == replies
                    &&& op@.fetch.policy == at@.fetch.policy
                    &&& op@.fetch.request == at@.fetch.request
                    &&& op@.max == at@.max
                },
                Step::Done { waits, result } => {
                    &&& pauses(at@.fetch.policy, replies, waits@)
                    &&& match outcome {
                        Some(Ok(answer)) => {
                            let limit = max(1, at@.max as int);
                            match result {
                                Ok((references, truncated)) => {
                                    &&& references@ == found(answer).take(
                                        min(found(answer).len() as int, limit),
                                    )
                                    &&& truncated <==> exists|i: int|
                                        0 <= i < answer.len() && found(
                                            #[trigger] answer.take(i),
                                        ).len() >= limit
                                    &&& forall|i: int|
                                        0 <= i < answer.len() && (#[trigger] answer[i]) is Invalid
                                            ==> found(answer.take(i)).len() >= limit
                                },
                                Err(error) => breaks_early(answer, limit, error),
                            }
                        },
                        Some(Err(error)) => result is Err && result->Err_0 == error,
                        None => false,
                    }
                },
            }
        }),
{
    let replies = at@.fetch.replies.push(reply_view(reply));
    law_replies_come_to_their_outcome(at@.fetch.policy, replies, outcome);
    law_replies_are_followed_by_waits(at@.fetch.policy, replies);
    if let Some(Ok(answer)) = outcome {
        let limit = at_least_one(at@.max);
        assert(limit == max(1, at@.max as int));
        lemma_reading(answer, limit);
        let length = read_length(answer, limit) as int;
        let read = answer.take(length);
        if length < answer.len() {
            assert(found(answer.take(length)).len() >= limit);
        }
        if is_sound(read) {
            assert forall|i: int|
                0 <= i < answer.len() && (#[trigger] answer[i]) is Invalid implies found(
                answer.take(i),
            ).len() >= limit by {
                if i < length {
                    assert(read[i] == answer[i]);
                }
            }
        }
    }
}

} // verus!
