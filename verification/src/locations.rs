//! Turning the locations of a reply into the locations that are reported.

#[allow(unused_imports)]
use crate::protocol::reply_view;
use vstd::prelude::*;

verus! {

/// What one location of a reply was found to be.
#[derive(Debug, PartialEq, Eq)]
pub enum LocationOutcome<L, E> {
    /// It is not a location at all.
    Invalid(E),
    /// It is a location, but not one in a file that can be reported.
    Unresolvable,
    /// It is this location.
    Resolved(L),
}

/// The locations that resolve, in their order.
pub open spec fn resolved<L, E>(outcomes: Seq<LocationOutcome<L, E>>) -> Seq<L>
    decreases outcomes.len(),
{
    if outcomes.len() == 0 {
        Seq::empty()
    } else {
        match outcomes.last() {
            LocationOutcome::Resolved(location) => resolved(outcomes.drop_last()).push(location),
            _ => resolved(outcomes.drop_last()),
        }
    }
}

/// The error of the first entry that is no location.
pub open spec fn first_invalid<L, E>(outcomes: Seq<LocationOutcome<L, E>>) -> Option<E>
    decreases outcomes.len(),
{
    if outcomes.len() == 0 {
        None
    } else {
        match (first_invalid(outcomes.drop_last()), outcomes.last()) {
            (Some(error), _) => Some(error),
            (None, LocationOutcome::Invalid(error)) => Some(error),
            (None, _) => None,
        }
    }
}

/// The locations that resolve, or the first error.
pub open spec fn collected<L, E>(outcomes: Seq<LocationOutcome<L, E>>) -> Result<Seq<L>, E> {
    match first_invalid(outcomes) {
        Some(error) => Err(error),
        None => Ok(resolved(outcomes)),
    }
}

/// How many entries are read until `limit` of them resolved: all of them, where fewer do.
pub open spec fn read_length<L, E>(outcomes: Seq<LocationOutcome<L, E>>, limit: nat) -> nat
    decreases outcomes.len(),
{
    if limit == 0 || outcomes.len() == 0 {
        0
    } else {
        let rest = outcomes.drop_first();
        match outcomes.first() {
            LocationOutcome::Resolved(_) => 1 + read_length(rest, (limit - 1) as nat),
            _ => 1 + read_length(rest, limit),
        }
    }
}

/// A limit that lets at least one entry through.
pub open spec fn at_least_one(limit: usize) -> nat {
    if limit == 0 {
        1
    } else {
        limit as nat
    }
}

/// The first `count` entries, or all where there are fewer.
pub open spec fn up_to<T>(items: Seq<T>, count: nat) -> Seq<T> {
    if count < items.len() {
        items.take(count as int)
    } else {
        items
    }
}

/// Raises a limit of zero to one.
pub(crate) fn max_one(limit: usize) -> (raised: usize)
    ensures
        raised == at_least_one(limit),
{
    if limit == 0 {
        1
    } else {
        limit
    }
}

proof fn lemma_first_invalid_stays<L, E>(outcomes: Seq<LocationOutcome<L, E>>, seen: int)
    requires
        0 <= seen <= outcomes.len(),
        first_invalid(outcomes.take(seen)) is Some,
    ensures
        first_invalid(outcomes) == first_invalid(outcomes.take(seen)),
    decreases outcomes.len(),
{
    if seen == outcomes.len() {
        assert(outcomes.take(seen) =~= outcomes);
    } else {
        let shorter = outcomes.drop_last();
        assert(shorter.take(seen) =~= outcomes.take(seen));
        lemma_first_invalid_stays(shorter, seen);
    }
}

proof fn lemma_read_length_bounds<L, E>(outcomes: Seq<LocationOutcome<L, E>>, limit: nat)
    ensures
        read_length(outcomes, limit) <= outcomes.len(),
    decreases outcomes.len(),
{
    if limit > 0 && outcomes.len() > 0 {
        let rest = outcomes.drop_first();
        match outcomes.first() {
            LocationOutcome::Resolved(_) => lemma_read_length_bounds(rest, (limit - 1) as nat),
            _ => lemma_read_length_bounds(rest, limit),
        }
    }
}

/// What the first `limit` entries come to.
pub fn collect_locations<L, E>(outcomes: Vec<LocationOutcome<L, E>>, limit: usize) -> (result:
    Result<Vec<L>, E>)
    ensures
        reply_view(result) == collected(up_to(outcomes@, limit as nat)),
{
    let ghost all = outcomes@;
    let mut kept: Vec<LocationOutcome<L, E>> = outcomes;
    kept.truncate(limit);
    assert(kept@ =~= up_to(all, limit as nat));
    collect_all_locations(kept)
}

/// What all the entries come to.
pub fn collect_all_locations<L, E>(outcomes: Vec<LocationOutcome<L, E>>) -> (result: Result<
    Vec<L>,
    E,
>)
    ensures
        reply_view(result) == collected(outcomes@),
{
    let mut locations: Vec<L> = Vec::new();
    let ghost all = outcomes@;
    for outcome in iter: outcomes
        invariant
            iter.seq() == all,
            locations@ == resolved(all.take(iter.index())),
            first_invalid(all.take(iter.index())) is None,
    {
        let ghost seen = all.take(iter.index() + 1);
        assert(seen.drop_last() =~= all.take(iter.index()));
        assert(seen.last() == outcome);
        match outcome {
            LocationOutcome::Invalid(error) => {
                proof {
                    lemma_first_invalid_stays(all, iter.index() + 1);
                }
                return Err(error);
            },
            LocationOutcome::Unresolvable => {},
            LocationOutcome::Resolved(location) => {
                locations.push(location);
            },
        }
    }
    assert(all.take(all.len() as int) =~= all);
    Ok(locations)
}

/// Reads entries until `limit` of them resolved. Gives what they come to, and how many were read.
pub fn read_locations<L, E>(outcomes: Vec<LocationOutcome<L, E>>, limit: usize) -> (result: Result<
    (Vec<L>, usize),
    E,
>)
    ensures
        match collected(outcomes@.take(read_length(outcomes@, limit as nat) as int)) {
            Ok(locations) => result is Ok && result->Ok_0.0@ == locations && result->Ok_0.1
                == read_length(outcomes@, limit as nat),
            Err(error) => result == Err::<(Vec<L>, usize), E>(error),
        },
        read_length(outcomes@, limit as nat) <= outcomes@.len(),
{
    let mut locations: Vec<L> = Vec::new();
    let mut read: usize = 0;
    let ghost all = outcomes@;
    let ghost end = read_length(all, limit as nat);
    proof {
        lemma_read_length_bounds(all, limit as nat);
        assert(all.skip(0) =~= all);
        assert(outcomes.len() == all.len());
    }
    for outcome in iter: outcomes
        invariant
            iter.seq() == all,
            all.len() <= usize::MAX,
            read == iter.index(),
            locations@.len() <= limit,
            locations@ == resolved(all.take(iter.index())),
            first_invalid(all.take(iter.index())) is None,
            end == read_length(all, limit as nat),
            end == read + read_length(all.skip(read as int), (limit - locations@.len()) as nat),
            end <= all.len(),
    {
        if locations.len() >= limit {
            return Ok((locations, read));
        }
        let ghost seen = all.take(read + 1);
        assert(seen.drop_last() =~= all.take(read as int));
        assert(seen.last() == outcome);
        assert(all.skip(read as int).first() == outcome);
        assert(all.skip(read as int).drop_first() =~= all.skip(read + 1));
        match outcome {
            LocationOutcome::Invalid(error) => {
                proof {
                    assert(all.take(end as int).take(read + 1) =~= seen);
                    lemma_first_invalid_stays(all.take(end as int), read + 1);
                }
                return Err(error);
            },
            LocationOutcome::Unresolvable => {},
            LocationOutcome::Resolved(location) => {
                locations.push(location);
            },
        }
        read = read + 1;
    }
    assert(all.take(all.len() as int) =~= all);
    Ok((locations, read))
}

/// At most `limit` locations are read off a reply, and none is left out that the entries read
/// hold: where something was left unread, exactly `limit` were found.
pub proof fn law_read_up_to_limit<L, E>(outcomes: Seq<LocationOutcome<L, E>>, limit: nat)
    ensures
        read_length(outcomes, limit) <= outcomes.len(),
        resolved(outcomes.take(read_length(outcomes, limit) as int)).len() <= limit,
        read_length(outcomes, limit) < outcomes.len() ==> resolved(
            outcomes.take(read_length(outcomes, limit) as int),
        ).len() == limit,
    decreases outcomes.len(),
{
    lemma_read_length_bounds(outcomes, limit);
    if limit > 0 && outcomes.len() > 0 {
        let rest = outcomes.drop_first();
        let left = match outcomes.first() {
            LocationOutcome::Resolved(_) => (limit - 1) as nat,
            _ => limit,
        };
        law_read_up_to_limit(rest, left);
        let read = outcomes.take(read_length(outcomes, limit) as int);
        assert(read.drop_first() =~= rest.take(read_length(rest, left) as int));
        lemma_resolved_first(read);
    }
}

proof fn lemma_resolved_first<L, E>(outcomes: Seq<LocationOutcome<L, E>>)
    requires
        outcomes.len() > 0,
    ensures
        resolved(outcomes) == match outcomes.first() {
            LocationOutcome::Resolved(location) => seq![location] + resolved(outcomes.drop_first()),
            _ => resolved(outcomes.drop_first()),
        },
    decreases outcomes.len(),
{
    if outcomes.len() == 1 {
        assert(outcomes.drop_first() =~= Seq::empty());
        assert(outcomes.drop_last() =~= Seq::empty());
        assert(resolved(outcomes.drop_last()) =~= Seq::<L>::empty());
        assert(resolved(outcomes) =~= match outcomes.first() {
            LocationOutcome::Resolved(location) => seq![location] + resolved(outcomes.drop_first()),
            _ => resolved(outcomes.drop_first()),
        });
    } else {
        let shorter = outcomes.drop_last();
        lemma_resolved_first(shorter);
        assert(shorter.drop_first() =~= outcomes.drop_first().drop_last());
        assert(outcomes.drop_first().last() == outcomes.last());
        assert(resolved(outcomes) =~= match outcomes.first() {
            LocationOutcome::Resolved(location) => seq![location] + resolved(outcomes.drop_first()),
            _ => resolved(outcomes.drop_first()),
        });
    }
}

/// What is read off a reply is the first `limit` of all the locations that it holds.
pub proof fn law_read_are_the_first<L, E>(outcomes: Seq<LocationOutcome<L, E>>, limit: nat)
    ensures
        resolved(outcomes.take(read_length(outcomes, limit) as int)) == up_to(
            resolved(outcomes),
            limit,
        ),
    decreases outcomes.len(),
{
    lemma_read_length_bounds(outcomes, limit);
    let read = outcomes.take(read_length(outcomes, limit) as int);
    if limit == 0 || outcomes.len() == 0 {
        assert(read =~= Seq::empty());
        assert(resolved(read) =~= up_to(resolved(outcomes), limit));
    } else {
        let rest = outcomes.drop_first();
        let left = match outcomes.first() {
            LocationOutcome::Resolved(_) => (limit - 1) as nat,
            _ => limit,
        };
        law_read_are_the_first(rest, left);
        assert(read.drop_first() =~= rest.take(read_length(rest, left) as int));
        lemma_resolved_first(read);
        lemma_resolved_first(outcomes);
        assert(resolved(read) =~= up_to(resolved(outcomes), limit));
    }
}

/// With a larger limit no less is read, and what fails with a smaller limit fails with a larger
/// one.
pub proof fn law_larger_limit_reads_on<L, E>(
    outcomes: Seq<LocationOutcome<L, E>>,
    limit: nat,
    larger: nat,
)
    requires
        limit <= larger,
    ensures
        read_length(outcomes, limit) <= read_length(outcomes, larger) <= outcomes.len(),
        first_invalid(outcomes.take(read_length(outcomes, larger) as int)) is None
            ==> first_invalid(outcomes.take(read_length(outcomes, limit) as int)) is None,
{
    lemma_read_length_grows(outcomes, limit, larger);
    lemma_read_length_bounds(outcomes, larger);
    let read = outcomes.take(read_length(outcomes, larger) as int);
    let length = read_length(outcomes, limit) as int;
    assert(read.take(length) =~= outcomes.take(length));
    if first_invalid(read.take(length)) is Some {
        lemma_first_invalid_stays(read, length);
    }
}

proof fn lemma_read_length_grows<L, E>(
    outcomes: Seq<LocationOutcome<L, E>>,
    limit: nat,
    larger: nat,
)
    requires
        limit <= larger,
    ensures
        read_length(outcomes, limit) <= read_length(outcomes, larger),
    decreases outcomes.len(),
{
    if limit > 0 && outcomes.len() > 0 {
        let rest = outcomes.drop_first();
        match outcomes.first() {
            LocationOutcome::Resolved(_) => lemma_read_length_grows(
                rest,
                (limit - 1) as nat,
                (larger - 1) as nat,
            ),
            _ => lemma_read_length_grows(rest, limit, larger),
        }
    }
}

/// Entries that do not resolve are passed over in silence: without them the reply comes to the
/// same.
pub proof fn law_unresolvable_is_skipped<L, E>(
    before: Seq<LocationOutcome<L, E>>,
    after: Seq<LocationOutcome<L, E>>,
)
    ensures
        collected(before.push(LocationOutcome::Unresolvable) + after) == collected(before + after),
{
    lemma_unresolvable_is_skipped(before, after);
}

proof fn lemma_unresolvable_is_skipped<L, E>(
    before: Seq<LocationOutcome<L, E>>,
    after: Seq<LocationOutcome<L, E>>,
)
    ensures
        resolved(before.push(LocationOutcome::Unresolvable) + after) == resolved(before + after),
        first_invalid(before.push(LocationOutcome::Unresolvable) + after) == first_invalid(
            before + after,
        ),
    decreases after.len(),
{
    let with = before.push(LocationOutcome::<L, E>::Unresolvable) + after;
    let without = before + after;
    if after.len() == 0 {
        assert(with.drop_last() =~= before);
        assert(without =~= before);
    } else {
        lemma_unresolvable_is_skipped(before, after.drop_last());
        assert(with.drop_last() =~= before.push(LocationOutcome::<L, E>::Unresolvable)
            + after.drop_last());
        assert(without.drop_last() =~= before + after.drop_last());
        assert(with.last() == without.last());
    }
}

proof fn lemma_resolved_length<L, E>(outcomes: Seq<LocationOutcome<L, E>>)
    ensures
        resolved(outcomes).len() <= outcomes.len(),
    decreases outcomes.len(),
{
    if outcomes.len() > 0 {
        lemma_resolved_length(outcomes.drop_last());
    }
}

/// No more locations are reported than entries count.
pub proof fn law_collected_within_limit<L, E>(outcomes: Seq<LocationOutcome<L, E>>, limit: nat)
    ensures
        collected(up_to(outcomes, limit)) matches Ok(locations) ==> locations.len() <= limit,
{
    lemma_resolved_length(up_to(outcomes, limit));
}

/// An entry that is no location makes the whole reply fail, if it counts.
pub proof fn law_invalid_entry_fails<L, E>(outcomes: Seq<LocationOutcome<L, E>>, i: int)
    requires
        0 <= i < outcomes.len(),
        outcomes[i] is Invalid,
    ensures
        collected(outcomes) is Err,
{
    let seen = outcomes.take(i + 1);
    assert(seen.last() == outcomes[i]);
    lemma_first_invalid_stays(outcomes, i + 1);
}

} // verus!
