//! What is reported of the definitions of symbols.

use crate::definitions::{DefinitionMatch, DefinitionWalk, FindDefinitions};
#[allow(unused_imports)]
use crate::definitions::definition_views;
#[allow(unused_imports)]
use crate::guarantees::asking::{
    comes_to, law_replies_are_followed_by_waits, law_replies_come_to_their_outcome, pauses, times,
};
#[allow(unused_imports)]
use crate::guarantees::locations::{
    breaks_with, found, is_sound, lemma_first_invalid, lemma_resolved_are_found,
};
#[allow(unused_imports)]
use crate::guarantees::symbols::{called, is_shown, lemma_chosen_are_called};
use crate::locations::LocationOutcome;
use crate::protocol::{FileRequest, FlatSymbol, Query, Step};
#[allow(unused_imports)]
use crate::protocol::reply_view;
#[allow(unused_imports)]
use crate::retry::RetryPolicy;
use vstd::prelude::*;

verus! {

/// Whether the matches are those for the first symbols, one for each answer: the symbol as it is,
/// with the locations in the answer.
pub open spec fn defines<L, E>(
    symbols: Seq<FlatSymbol>,
    answers: Seq<Seq<LocationOutcome<L, E>>>,
    matches: Seq<DefinitionMatch<L>>,
) -> bool {
    &&& matches.len() == answers.len()
    &&& forall|i: int|
        0 <= i < answers.len() ==> is_shown(symbols[i], (#[trigger] matches[i]).symbol)
            && matches[i].definitions@ == found(answers[i])
}

/// A walk asks for the definitions of the next symbol, at the place of its name.
pub proof fn law_definitions_are_asked_at_the_name<L, E>(
    walk: DefinitionWalk<L, E>,
    asked: &FileRequest,
)
    requires
        call_ensures(DefinitionWalk::<L, E>::request, (&walk,), asked),
    ensures
        walk@.answers.len() < walk@.symbols.len(),
        asked.file@ == walk@.file,
        asked.query matches Query::Definition { position } && {
            let next = walk@.symbols[walk@.answers.len() as int];
            &&& position.line == next.selection_range.start.line
            &&& position.character == next.selection_range.start.character
        },
{
}

/// What a walk does with a reply: it asks on about the same symbol like any request for locations;
/// with an answer it goes on to the next symbol, and after the last it reports each symbol with its
/// definitions. An error, or an entry that is no location, ends it.
pub proof fn law_definition_walk_steps<L, E>(
    walk: DefinitionWalk<L, E>,
    reply: Result<Vec<LocationOutcome<L, E>>, E>,
    step: Step<DefinitionWalk<L, E>, Result<Vec<DefinitionMatch<L>>, E>>,
    outcome: Option<Result<Seq<LocationOutcome<L, E>>, E>>,
)
    requires
        call_ensures(DefinitionWalk::<L, E>::resume, (walk, reply), step),
        comes_to(
            3,
            walk@.replies.push(
                match reply {
                    Ok(items) => Ok(items@),
                    Err(error) => Err(error),
                },
            ),
            outcome,
        ),
    ensures
        ({
            let replies = walk@.replies.push(
                match reply {
                    Ok(items) => Ok(items@),
                    Err(error) => Err(error),
                },
            );
            match step {
                Step::Again { waits, op } => {
                    &&& pauses(RetryPolicy::Locations, replies, waits@)
                    &&& op@.file == walk@.file
                    &&& op@.symbols == walk@.symbols
                    &&& match outcome {
                        None => op@.answers == walk@.answers && op@.replies == replies,
                        Some(Ok(answer)) => {
                            &&& is_sound(answer)
                            &&& walk@.answers.len() + 1 < walk@.symbols.len()
                            &&& op@.answers == walk@.answers.push(answer)
                            &&& op@.replies.len() == 0
                        },
                        Some(Err(_)) => false,
                    }
                },
                Step::Done { waits, result } => {
                    &&& pauses(RetryPolicy::Locations, replies, waits@)
                    &&& match outcome {
                        None => false,
                        Some(Ok(answer)) => match result {
                            Ok(matches) => {
                                &&& is_sound(answer)
                                &&& walk@.answers.len() + 1 == walk@.symbols.len()
                                &&& defines(walk@.symbols, walk@.answers.push(answer), matches@)
                            },
                            Err(error) => breaks_with(answer, error),
                        },
                        Some(Err(error)) => result is Err && result->Err_0 == error,
                    }
                },
            }
        }),
{
    let replies = walk@.replies.push(reply_view(reply));
    law_replies_come_to_their_outcome(RetryPolicy::Locations, replies, outcome);
    law_replies_are_followed_by_waits(RetryPolicy::Locations, replies);
    if let Some(Ok(answer)) = outcome {
        lemma_first_invalid(answer);
        let answers = walk@.answers.push(answer);
        if let Step::Done { result: Ok(matches), .. } = step {
            assert(definition_views(matches@).len() == matches@.len());
            assert forall|i: int| 0 <= i < answers.len() implies is_shown(
                walk@.symbols[i],
                (#[trigger] matches@[i]).symbol,
            ) && matches@[i].definitions@ == found(answers[i]) by {
                lemma_resolved_are_found(answers[i]);
                assert(definition_views(matches@)[i] == matches@[i]@);
            }
        }
    }
}

/// What finding definitions does with a list of symbols: it asks on like any request for symbols;
/// then it walks through those of the name and kind that it was made for, in their order, or is
/// done Finding definitions asks what it was made to ask.
pub proof fn law_find_definitions_asks<E>(find: FindDefinitions<E>, asked: &FileRequest)
    requires
        call_ensures(FindDefinitions::<E>::request, (&find,), asked),
    ensures
        asked.file@ == find@.search.fetch.request.file,
        asked.query == find@.search.fetch.request.query,
{
}

/// with no match where there are none.
pub proof fn law_find_definitions_steps<L, E>(
    find: FindDefinitions<E>,
    reply: Result<Vec<FlatSymbol>, E>,
    step: Step<FindDefinitions<E>, Step<DefinitionWalk<L, E>, Result<Vec<DefinitionMatch<L>>, E>>>,
    outcome: Option<Result<Seq<FlatSymbol>, E>>,
)
    requires
        call_ensures(FindDefinitions::<E>::resume::<L>, (find, reply), step),
        comes_to(
            times(find@.search.fetch.policy),
            find@.search.fetch.replies.push(
                match reply {
                    Ok(items) => Ok(items@),
                    Err(error) => Err(error),
                },
            ),
            outcome,
        ),
    ensures
        ({
            let fetch = find@.search.fetch;
            let filter = find@.search.filter;
            let replies = fetch.replies.push(
                match reply {
                    Ok(items) => Ok(items@),
                    Err(error) => Err(error),
                },
            );
            match step {
                Step::Again { waits, op } => {
                    &&& outcome is None
                    &&& pauses(fetch.policy, replies, waits@)
                    &&& op@.search.fetch.replies == replies
                    &&& op@.search.fetch.policy == fetch.policy
                    &&& op@.search.fetch.request == fetch.request
                    &&& op@.search.filter == filter
                    &&& op@.file == find@.file
                },
                Step::Done { waits, result } => {
                    &&& pauses(fetch.policy, replies, waits@)
                    &&& match outcome {
                        None => false,
                        Some(Err(error)) => result matches Step::Done { waits, result: Err(given) }
                            && waits@.len() == 0 && given == error,
                        Some(Ok(symbols)) => {
                            let chosen = called(
                                symbols,
                                filter.name@,
                                filter.kind,
                                filter.max as int,
                            );
                            match result {
                                Step::Again { waits, op } => {
                                    &&& waits@.len() == 0
                                    &&& chosen.len() > 0
                                    &&& op@.file == find@.file
                                    &&& op@.symbols == chosen
                                    &&& op@.answers.len() == 0
                                    &&& op@.replies.len() == 0
                                },
                                Step::Done { waits, result } => {
                                    &&& waits@.len() == 0
                                    &&& chosen.len() == 0
                                    &&& result is Ok
                                    &&& result->Ok_0@.len() == 0
                                },
                            }
                        },
                    }
                },
            }
        }),
{
    let fetch = find@.search.fetch;
    let replies = fetch.replies.push(reply_view(reply));
    law_replies_come_to_their_outcome(fetch.policy, replies, outcome);
    law_replies_are_followed_by_waits(fetch.policy, replies);
    if let Some(Ok(symbols)) = outcome {
        lemma_chosen_are_called(find@.search.filter, symbols);
    }
}

} // verus!
