//! What is reported of the references to symbols.

#[allow(unused_imports)]
use crate::guarantees::asking::{
    comes_to, law_replies_are_followed_by_waits, law_replies_come_to_their_outcome, pauses, times,
};
#[allow(unused_imports)]
use crate::guarantees::locations::{
    breaks_early, found, is_sound, lemma_reading, lemma_resolved_are_found,
};
#[allow(unused_imports)]
use crate::guarantees::symbols::{called, is_shown, lemma_chosen_are_called};
#[allow(unused_imports)]
use crate::locations::{read_length, resolved};
use crate::locations::LocationOutcome;
use crate::protocol::{FileRequest, FlatSymbol, Query, Step};
#[allow(unused_imports)]
use crate::protocol::reply_view;
#[allow(unused_imports)]
use crate::references::{
    all_resolved, law_references_are_the_first, left_after, read_part, reference_matches,
    reference_views, ReferenceView,
};
use crate::references::{FindReferences, ReferenceMatch, ReferenceWalk};
#[allow(unused_imports)]
use crate::retry::RetryPolicy;
#[allow(unused_imports)]
use vstd::math::{max, min};
use vstd::prelude::*;

verus! {

/// All the locations in some answers, one answer after the other.
pub open spec fn found_in_all<L, E>(answers: Seq<Seq<LocationOutcome<L, E>>>) -> Seq<L> {
    answers.map_values(|answer: Seq<LocationOutcome<L, E>>| found(answer)).flatten()
}

/// All the references in some matches, one match after the other.
pub open spec fn reported_in_all<L>(matches: Seq<ReferenceMatch<L>>) -> Seq<L> {
    matches.map_values(|one: ReferenceMatch<L>| one.references@).flatten()
}

/// How many references may still be reported, of `budget`, after some answers.
pub open spec fn still_allowed<L, E>(
    budget: nat,
    answers: Seq<Seq<LocationOutcome<L, E>>>,
) -> int {
    max(0, budget - found_in_all(answers).len())
}

/// Whether the matches are those for the first symbols, one for each answer: the symbol as it is,
/// with the locations in the answer as far as the budget goes. However many of the matches are
/// taken, their references are the first of all that their answers hold. A match is truncated if
/// the budget is used up with it.
pub open spec fn refers<L, E>(
    symbols: Seq<FlatSymbol>,
    budget: nat,
    answers: Seq<Seq<LocationOutcome<L, E>>>,
    matches: Seq<ReferenceMatch<L>>,
) -> bool {
    &&& matches.len() == answers.len()
    &&& forall|i: int|
        0 <= i < answers.len() ==> is_shown(symbols[i], (#[trigger] matches[i]).symbol)
    &&& forall|k: int|
        0 <= k <= answers.len() ==> reported_in_all(#[trigger] matches.take(k)) == found_in_all(
            answers.take(k),
        ).take(min(found_in_all(answers.take(k)).len() as int, budget as int))
    &&& forall|i: int|
        0 <= i < answers.len() ==> ((#[trigger] matches[i]).truncated <==> found_in_all(
            answers.take(i + 1),
        ).len() >= budget)
}

proof fn lemma_all_resolved_are_found<L, E>(answers: Seq<Seq<LocationOutcome<L, E>>>)
    ensures
        all_resolved(answers) == found_in_all(answers),
{
    assert forall|i: int| 0 <= i < answers.len() implies resolved(answers[i]) == found(
        #[trigger] answers[i],
    ) by {
        lemma_resolved_are_found(answers[i]);
    }
    assert(answers.map_values(|answer: Seq<LocationOutcome<L, E>>| resolved(answer))
        =~= answers.map_values(|answer: Seq<LocationOutcome<L, E>>| found(answer)));
}

proof fn lemma_left_is_allowed<L, E>(
    symbols: Seq<FlatSymbol>,
    budget: nat,
    answers: Seq<Seq<LocationOutcome<L, E>>>,
)
    ensures
        left_after(budget, answers) == still_allowed(budget, answers),
{
    law_references_are_the_first(symbols, budget, answers);
    lemma_all_resolved_are_found(answers);
}

proof fn lemma_matches_refer<L, E>(
    symbols: Seq<FlatSymbol>,
    budget: nat,
    answers: Seq<Seq<LocationOutcome<L, E>>>,
    matches: Seq<ReferenceMatch<L>>,
)
    requires
        reference_views(matches) == reference_matches(symbols, budget, answers),
    ensures
        refers(symbols, budget, answers, matches),
{
    assert(reference_views(matches).len() == matches.len());
    assert forall|i: int| 0 <= i < answers.len() implies is_shown(
        symbols[i],
        (#[trigger] matches[i]).symbol,
    ) && (matches[i].truncated <==> found_in_all(answers.take(i + 1)).len() >= budget) by {
        assert(reference_views(matches)[i] == matches[i]@);
        lemma_left_is_allowed(symbols, budget, answers.take(i + 1));
    }
    assert forall|k: int| 0 <= k <= answers.len() implies reported_in_all(
        #[trigger] matches.take(k),
    ) == found_in_all(answers.take(k)).take(
        min(found_in_all(answers.take(k)).len() as int, budget as int),
    ) by {
        let seen = answers.take(k);
        law_references_are_the_first(symbols, budget, seen);
        lemma_all_resolved_are_found(seen);
        let views = reference_matches(symbols, budget, seen);
        assert forall|i: int| 0 <= i < k implies views[i].references == (
        #[trigger] matches[i]).references@ by {
            assert(reference_views(matches)[i] == matches[i]@);
            assert(seen.take(i) =~= answers.take(i));
            assert(seen.take(i + 1) =~= answers.take(i + 1));
        }
        assert(matches.take(k).map_values(|one: ReferenceMatch<L>| one.references@)
            =~= views.map_values(|one: ReferenceView<L>| one.references));
        assert(reported_in_all(matches.take(k)) =~= found_in_all(seen).take(
            min(found_in_all(seen).len() as int, budget as int),
        ));
    }
}

/// A walk asks for the references to the next symbol, at the place of its name, with or without
/// its declaration as it was told.
pub proof fn law_references_are_asked_at_the_name<L, E>(
    walk: ReferenceWalk<L, E>,
    asked: &FileRequest,
)
    requires
        call_ensures(ReferenceWalk::<L, E>::request, (&walk,), asked),
    ensures
        walk@.answers.len() < walk@.symbols.len(),
        asked.file@ == walk@.file,
        asked.query matches Query::References { position, include_declaration } && {
            let next = walk@.symbols[walk@.answers.len() as int];
            &&& position.line == next.selection_range.start.line
            &&& position.character == next.selection_range.start.character
            &&& include_declaration == walk@.include_declaration
        },
{
}

/// Walks that differ in whether declarations count ask for different things.
pub proof fn law_declarations_make_a_difference<L, E>(
    with: ReferenceWalk<L, E>,
    without: ReferenceWalk<L, E>,
    asked_with: &FileRequest,
    asked_without: &FileRequest,
)
    requires
        with@.include_declaration,
        !without@.include_declaration,
        call_ensures(ReferenceWalk::<L, E>::request, (&with,), asked_with),
        call_ensures(ReferenceWalk::<L, E>::request, (&without,), asked_without),
    ensures
        asked_with.query != asked_without.query,
{
}

/// What a walk does with a reply: it asks on about the same symbol like any request for locations;
/// with an answer it goes on to the next symbol, while there is one and references may still be
/// reported; then it reports each symbol with its references. An error ends it, and so does an
/// entry that is no location, if it is read before the budget is used up.
pub proof fn law_reference_walk_steps<L, E>(
    walk: ReferenceWalk<L, E>,
    reply: Result<Vec<LocationOutcome<L, E>>, E>,
    step: Step<ReferenceWalk<L, E>, Result<Vec<ReferenceMatch<L>>, E>>,
    outcome: Option<Result<Seq<LocationOutcome<L, E>>, E>>,
)
    requires
        call_ensures(ReferenceWalk::<L, E>::resume, (walk, reply), step),
        comes_to(
            3,
            walk@.replies.push(
                match reply {
                    Ok(items) => Ok(items@),
                    Err(error) => Err(error),
                },
            ),
            outcome,
        ),
    ensures
        still_allowed(walk@.budget, walk@.answers) > 0,
        ({
            let replies = walk@.replies.push(
                match reply {
                    Ok(items) => Ok(items@),
                    Err(error) => Err(error),
                },
            );
            match step {
                Step::Again { waits, op } => {
                    &&& pauses(RetryPolicy::Locations, replies, waits@)
                    &&& op@.file == walk@.file
                    &&& op@.symbols == walk@.symbols
                    &&& op@.include_declaration == walk@.include_declaration
                    &&& op@.budget == walk@.budget
                    &&& match outcome {
                        None => op@.answers == walk@.answers && op@.replies == replies,
                        Some(Ok(answer)) => {
                            let answers = walk@.answers.push(answer);
                            &&& is_sound(answer)
                            &&& answers.len() < walk@.symbols.len()
                            &&& found_in_all(answers).len() < walk@.budget
                            &&& op@.answers == answers
                            &&& op@.replies.len() == 0
                        },
                        Some(Err(_)) => false,
                    }
                },
                Step::Done { waits, result } => {
                    &&& pauses(RetryPolicy::Locations, replies, waits@)
                    &&& match outcome {
                        None => false,
                        Some(Ok(answer)) => {
                            let answers = walk@.answers.push(answer);
                            match result {
                                Ok(matches) => {
                                    &&& answers.len() == walk@.symbols.len() || found_in_all(
                                        answers,
                                    ).len() >= walk@.budget
                                    &&& refers(walk@.symbols, walk@.budget, answers, matches@)
                                    &&& forall|i: int|
                                        0 <= i < answer.len() && (#[trigger] answer[i]) is Invalid
                                            ==> found(answer.take(i)).len() >= still_allowed(
                                            walk@.budget,
                                            walk@.answers,
                                        )
                                },
                                Err(error) => breaks_early(
                                    answer,
                                    still_allowed(walk@.budget, walk@.answers),
                                    error,
                                ),
                            }
                        },
                        Some(Err(error)) => result is Err && result->Err_0 == error,
                    }
                },
            }
        }),
{
    let replies = walk@.replies.push(reply_view(reply));
    law_replies_come_to_their_outcome(RetryPolicy::Locations, replies, outcome);
    law_replies_are_followed_by_waits(RetryPolicy::Locations, replies);
    lemma_left_is_allowed(walk@.symbols, walk@.budget, walk@.answers);
    if let Some(Ok(answer)) = outcome {
        let left = left_after(walk@.budget, walk@.answers);
        let answers = walk@.answers.push(answer);
        lemma_reading(answer, left);
        lemma_left_is_allowed(walk@.symbols, walk@.budget, answers);
        let length = read_length(answer, left) as int;
        let read = read_part(answer, left);
        if is_sound(read) {
            assert forall|i: int|
                0 <= i < answer.len() && (#[trigger] answer[i]) is Invalid implies found(
                answer.take(i),
            ).len() >= left by {
                if i < length {
                    assert(read[i] == answer[i]);
                }
            }
        }
        match step {
            Step::Done { result: Ok(matches), .. } => {
                lemma_matches_refer(walk@.symbols, walk@.budget, answers, matches@);
            },
            Step::Again { .. } => {
                let found_now = |answer: Seq<LocationOutcome<L, E>>| found(answer);
                assert(answers.map_values(found_now) =~= walk@.answers.map_values(found_now).push(
                    found(answer),
                ));
                walk@.answers.map_values(found_now).lemma_flatten_push(found(answer));
                assert(found_in_all(answers).len() < walk@.budget);
                if length < answer.len() {
                    assert(found(answer.take(length)).len() >= left);
                    assert(answer =~= answer.take(length) + answer.skip(length));
                    crate::guarantees::locations::lemma_found_in_both(
                        answer.take(length),
                        answer.skip(length),
                    );
                }
                assert(read =~= answer);
            },
            _ => {},
        }
    }
}

/// What finding references does with a list of symbols: it asks on like any request for symbols;
/// then it walks through those of the name and kind that it was made for, in their order, with the
/// Finding references asks what it was made to ask.
pub proof fn law_find_references_asks<E>(find: FindReferences<E>, asked: &FileRequest)
    requires
        call_ensures(FindReferences::<E>::request, (&find,), asked),
    ensures
        asked.file@ == find@.search.fetch.request.file,
        asked.query == find@.search.fetch.request.query,
{
}

/// budget and the flag that it was made with, or is done with no match where there are none.
pub proof fn law_find_references_steps<L, E>(
    find: FindReferences<E>,
    reply: Result<Vec<FlatSymbol>, E>,
    step: Step<FindReferences<E>, Step<ReferenceWalk<L, E>, Result<Vec<ReferenceMatch<L>>, E>>>,
    outcome: Option<Result<Seq<FlatSymbol>, E>>,
)
    requires
        call_ensures(FindReferences::<E>::resume::<L>, (find, reply), step),
        comes_to(
            times(find@.search.fetch.policy),
            find@.search.fetch.replies.push(
                match reply {
                    Ok(items) => Ok(items@),
                    Err(error) => Err(error),
                },
            ),
            outcome,
        ),
    ensures
        ({
            let fetch = find@.search.fetch;
            let filter = find@.search.filter;
            let replies = fetch.replies.push(
                match reply {
                    Ok(items) => Ok(items@),
                    Err(error) => Err(error),
                },
            );
            match step {
                Step::Again { waits, op } => {
                    &&& outcome is None
                    &&& pauses(fetch.policy, replies, waits@)
                    &&& op@.search.fetch.replies == replies
                    &&& op@.search.fetch.policy == fetch.policy
                    &&& op@.search.fetch.request == fetch.request
                    &&& op@.search.filter == filter
                    &&& op@.file == find@.file
                    &&& op@.include_declaration == find@.include_declaration
                    &&& op@.max_references == find@.max_references
                },
                Step::Done { waits, result } => {
                    &&& pauses(fetch.policy, replies, waits@)
                    &&& match outcome {
                        None => false,
                        Some(Err(error)) => result matches Step::Done { waits, result: Err(given) }
                            && waits@.len() == 0 && given == error,
                        Some(Ok(symbols)) => {
                            let chosen = called(
                                symbols,
                                filter.name@,
                                filter.kind,
                                filter.max as int,
                            );
                            match result {
                                Step::Again { waits, op } => {
                                    &&& waits@.len() == 0
                                    &&& chosen.len() > 0
                                    &&& op@.file == find@.file
                                    &&& op@.symbols == chosen
                                    &&& op@.include_declaration == find@.include_declaration
                                    &&& op@.budget == max(1, find@.max_references as int)
                                    &&& op@.answers.len() == 0
                                    &&& op@.replies.len() == 0
                                },
                                Step::Done { waits, result } => {
                                    &&& waits@.len() == 0
                                    &&& chosen.len() == 0
                                    &&& result is Ok
                                    &&& result->Ok_0@.len() == 0
                                },
                            }
                        },
                    }
                },
            }
        }),
{
    let fetch = find@.search.fetch;
    let replies = fetch.replies.push(reply_view(reply));
    law_replies_come_to_their_outcome(fetch.policy, replies, outcome);
    law_replies_are_followed_by_waits(fetch.policy, replies);
    if let Some(Ok(symbols)) = outcome {
        lemma_chosen_are_called(find@.search.filter, symbols);
    }
}

} // verus!
