//! Finding the definitions of symbols by name.

#[allow(unused_imports)]
use crate::delay::Delay;
use crate::documents::copy_path;
#[allow(unused_imports)]
use crate::locations::{first_invalid, resolved};
use crate::locations::{collect_all_locations, LocationOutcome};
#[allow(unused_imports)]
use crate::protocol::{reply_view, RequestView};
use crate::protocol::{FileRequest, FlatSymbol, Query, ResolvedSymbol, Step};
#[allow(unused_imports)]
use crate::retry::{retry_outcome, retry_waits, RetryView, LOCATION_ATTEMPTS};
use crate::retry::{Retry, RetryPolicy};
#[allow(unused_imports)]
use crate::symbols::reported;
#[allow(unused_imports)]
use crate::symbols::SymbolSearchView;
use crate::symbols::{report, SymbolSearch};
use vstd::prelude::*;

verus! {

/// A symbol and where it is defined.
#[derive(Debug, PartialEq, Eq)]
pub struct DefinitionMatch<L> {
    pub symbol: ResolvedSymbol,
    pub definitions: Vec<L>,
}

/// A [`DefinitionMatch`] with its definitions taken as a sequence.
pub ghost struct DefinitionView<L> {
    pub symbol: ResolvedSymbol,
    pub definitions: Seq<L>,
}

impl<L> View for DefinitionMatch<L> {
    type V = DefinitionView<L>;

    open spec fn view(&self) -> DefinitionView<L> {
        DefinitionView { symbol: self.symbol, definitions: self.definitions@ }
    }
}

/// Matches as values.
pub open spec fn definition_views<L>(matches: Seq<DefinitionMatch<L>>) -> Seq<DefinitionView<L>> {
    matches.map_values(|found: DefinitionMatch<L>| found@)
}

/// The matches for the first symbols, where `answers` are the locations that the server gave for
/// each of them.
pub open spec fn definition_matches<L, E>(
    symbols: Seq<FlatSymbol>,
    answers: Seq<Seq<LocationOutcome<L, E>>>,
) -> Seq<DefinitionView<L>> {
    Seq::new(
        answers.len(),
        |i: int|
            DefinitionView { symbol: reported(symbols[i]), definitions: resolved(answers[i]) },
    )
}

/// What a [`DefinitionWalk`] is about: the file, the symbols to look up, the answers to those
/// that were looked up, and the replies to the next one.
pub ghost struct DefinitionWalkView<L, E> {
    pub file: Seq<u8>,
    pub symbols: Seq<FlatSymbol>,
    pub answers: Seq<Seq<LocationOutcome<L, E>>>,
    pub replies: Seq<Result<Seq<LocationOutcome<L, E>>, E>>,
}

impl<L, E> DefinitionWalkView<L, E> {
    /// The walk at its beginning.
    pub open spec fn start(file: Seq<u8>, symbols: Seq<FlatSymbol>) -> Self {
        DefinitionWalkView { file, symbols, answers: Seq::empty(), replies: Seq::empty() }
    }
}

/// Looks up the definitions of one symbol after another.
pub struct DefinitionWalk<L, E> {
    file: Vec<u8>,
    symbols: Vec<FlatSymbol>,
    matches: Vec<DefinitionMatch<L>>,
    fetch: Retry<LocationOutcome<L, E>, E>,
    answers: Ghost<Seq<Seq<LocationOutcome<L, E>>>>,
}

impl<L, E> View for DefinitionWalk<L, E> {
    type V = DefinitionWalkView<L, E>;

    closed spec fn view(&self) -> DefinitionWalkView<L, E> {
        DefinitionWalkView {
            file: self.file@,
            symbols: self.symbols@,
            answers: self.answers@,
            replies: self.fetch@.replies,
        }
    }
}

/// The request for the definitions of a symbol.
pub open spec fn definition_request(file: Seq<u8>, symbol: FlatSymbol) -> RequestView {
    RequestView { file, query: Query::Definition { position: symbol.selection_range.start } }
}

fn fetch_definitions<L, E>(file: &Vec<u8>, symbol: &FlatSymbol) -> (fetch: Retry<
    LocationOutcome<L, E>,
    E,
>)
    ensures
        fetch@ == (RetryView::<LocationOutcome<L, E>, E> {
            request: definition_request(file@, *symbol),
            policy: RetryPolicy::Locations,
            replies: Seq::empty(),
        }),
{
    Retry::new(
        FileRequest {
            file: copy_path(file),
            query: Query::Definition { position: symbol.selection_range.start },
        },
        RetryPolicy::Locations,
    )
}

impl<L, E> DefinitionWalk<L, E> {
    #[verifier::type_invariant]
    closed spec fn consistent(self) -> bool {
        let next = self.answers@.len() as int;
        &&& next < self.symbols@.len()
        &&& definition_views(self.matches@) == definition_matches(self.symbols@, self.answers@)
        &&& self.fetch@.policy == RetryPolicy::Locations
        &&& self.fetch@.request == definition_request(self.file@, self.symbols@[next])
    }

    /// Begins with the first symbol, where there is one.
    pub(crate) fn begin(file: Vec<u8>, symbols: Vec<FlatSymbol>) -> (step: Step<
        Self,
        Result<Vec<DefinitionMatch<L>>, E>,
    >)
        ensures
            step.waits() == Seq::<Delay>::empty(),
            if symbols@.len() == 0 {
                &&& step.done() is Some
                &&& step.done()->0 is Ok
                &&& step.done()->0->Ok_0@ == Seq::<DefinitionMatch<L>>::empty()
            } else {
                step.again() is Some && step.again()->0@ == DefinitionWalkView::<L, E>::start(
                    file@,
                    symbols@,
                )
            },
    {
        if symbols.len() == 0 {
            return Step::Done { waits: Vec::new(), result: Ok(Vec::new()) };
        }
        let fetch: Retry<LocationOutcome<L, E>, E> = fetch_definitions(&file, &symbols[0]);
        let matches: Vec<DefinitionMatch<L>> = Vec::new();
        assert(definition_views(matches@) =~= definition_matches(
            symbols@,
            Seq::<Seq<LocationOutcome<L, E>>>::empty(),
        ));
        Step::Again {
            waits: Vec::new(),
            op: DefinitionWalk { file, symbols, matches, fetch, answers: Ghost(Seq::empty()) },
        }
    }

    /// What to ask the server.
    pub fn request(&self) -> (request: &FileRequest)
        ensures
            self@.answers.len() < self@.symbols.len(),
            request@ == definition_request(
                self@.file,
                self@.symbols[self@.answers.len() as int],
            ),
            request.file@ == self@.file,
            request.query == (Query::Definition {
                position: self@.symbols[self@.answers.len() as int].selection_range.start,
            }),
    {
        proof {
            use_type_invariant(self);
        }
        self.fetch.request()
    }

    /// Takes the server's list of locations.
    pub fn resume(self, reply: Result<Vec<LocationOutcome<L, E>>, E>) -> (step: Step<
        Self,
        Result<Vec<DefinitionMatch<L>>, E>,
    >)
        ensures
            self@.answers.len() < self@.symbols.len(),
            self@.replies.len() < LOCATION_ATTEMPTS,
            ({
                let replies = self@.replies.push(reply_view(reply));
                &&& step.waits() == retry_waits(RetryPolicy::Locations, replies)
                &&& match retry_outcome(LOCATION_ATTEMPTS as nat, replies) {
                    None => step.again() is Some && step.again()->0@ == (DefinitionWalkView {
                        replies,
                        ..self@
                    }),
                    Some(Err(error)) => step.done() == Some(
                        Err::<Vec<DefinitionMatch<L>>, E>(error),
                    ),
                    Some(Ok(answer)) => match first_invalid(answer) {
                        Some(error) => step.done() == Some(
                            Err::<Vec<DefinitionMatch<L>>, E>(error),
                        ),
                        None => {
                            let answers = self@.answers.push(answer);
                            if answers.len() < self@.symbols.len() {
                                step.again() is Some && step.again()->0@ == (DefinitionWalkView {
                                    answers,
                                    replies: Seq::empty(),
                                    ..self@
                                })
                            } else {
                                &&& step.done() is Some
                                &&& step.done()->0 is Ok
                                &&& definition_views(step.done()->0->Ok_0@) == definition_matches(
                                    self@.symbols,
                                    answers,
                                )
                            }
                        },
                    },
                }
            }),
    {
        proof {
            use_type_invariant(&self);
        }
        let ghost earlier = self.answers@;
        let ghost symbols = self.symbols@;
        match self.fetch.resume(reply) {
            Step::Again { waits, op } => Step::Again {
                waits,
                op: DefinitionWalk {
                    file: self.file,
                    symbols: self.symbols,
                    matches: self.matches,
                    fetch: op,
                    answers: self.answers,
                },
            },
            Step::Done { waits, result } => {
                let answer: Vec<LocationOutcome<L, E>> = match result {
                    Ok(answer) => answer,
                    Err(error) => {
                        return Step::Done { waits, result: Err(error) };
                    },
                };
                let ghost answers = earlier.push(answer@);
                let definitions: Vec<L> = match collect_all_locations(answer) {
                    Ok(definitions) => definitions,
                    Err(error) => {
                        return Step::Done { waits, result: Err(error) };
                    },
                };
                let mut matches: Vec<DefinitionMatch<L>> = self.matches;
                assert(definition_views(matches@).len() == matches@.len());
                assert(definition_matches(symbols, earlier).len() == earlier.len());
                let symbol: ResolvedSymbol = report(&self.symbols[matches.len()]);
                let ghost before = matches@;
                matches.push(DefinitionMatch { symbol, definitions });
                assert(definition_views(matches@) =~= definition_matches(symbols, answers)) by {
                    assert forall|i: int| 0 <= i < matches@.len() implies definition_views(
                        matches@,
                    )[i] == definition_matches(symbols, answers)[i] by {
                        if i < before.len() {
                            assert(definition_views(before)[i] == definition_matches(
                                symbols,
                                earlier,
                            )[i]);
                        }
                    }
                }
                if matches.len() < self.symbols.len() {
                    let fetch: Retry<LocationOutcome<L, E>, E> = fetch_definitions(
                        &self.file,
                        &self.symbols[matches.len()],
                    );
                    Step::Again {
                        waits,
                        op: DefinitionWalk {
                            file: self.file,
                            symbols: self.symbols,
                            matches,
                            fetch,
                            answers: Ghost(answers),
                        },
                    }
                } else {
                    Step::Done { waits, result: Ok(matches) }
                }
            },
        }
    }
}

/// Finds the symbols whose definitions are then looked up.
pub struct FindDefinitions<E> {
    file: Vec<u8>,
    search: SymbolSearch<E>,
}

/// What a [`FindDefinitions`] is about.
pub ghost struct FindDefinitionsView<E> {
    pub file: Seq<u8>,
    pub search: SymbolSearchView<E>,
}

impl<E> View for FindDefinitions<E> {
    type V = FindDefinitionsView<E>;

    closed spec fn view(&self) -> FindDefinitionsView<E> {
        FindDefinitionsView { file: self.file@, search: self.search@ }
    }
}

impl<E> FindDefinitions<E> {
    /// Looks up, in `file`, what `search` finds there.
    pub(crate) fn new(file: Vec<u8>, search: SymbolSearch<E>) -> (find: Self)
        ensures
            find@ == (FindDefinitionsView { file: file@, search: search@ }),
    {
        FindDefinitions { file, search }
    }

    /// What to ask the server.
    pub fn request(&self) -> (request: &FileRequest)
        ensures
            request@ == self@.search.fetch.request,
    {
        self.search.request()
    }

    /// Takes the server's list of symbols. When there are symbols to look up, the result is the
    /// walk through them.
    pub fn resume<L>(self, reply: Result<Vec<FlatSymbol>, E>) -> (step: Step<
        Self,
        Step<DefinitionWalk<L, E>, Result<Vec<DefinitionMatch<L>>, E>>,
    >)
        ensures
            self@.search.fetch.replies.len() < self@.search.fetch.policy.attempts(),
            ({
                let fetch = self@.search.fetch;
                let replies = fetch.replies.push(reply_view(reply));
                &&& step.waits() == retry_waits(fetch.policy, replies)
                &&& match retry_outcome(fetch.policy.attempts(), replies) {
                    None => step.again() is Some && step.again()->0@ == (FindDefinitionsView {
                        search: SymbolSearchView {
                            fetch: RetryView { replies, ..fetch },
                            ..self@.search
                        },
                        ..self@
                    }),
                    Some(Err(error)) => {
                        &&& step.done() is Some
                        &&& step.done()->0.waits() == Seq::<Delay>::empty()
                        &&& step.done()->0.done() == Some(
                            Err::<Vec<DefinitionMatch<L>>, E>(error),
                        )
                    },
                    Some(Ok(symbols)) => {
                        let chosen = self@.search.filter.chosen(symbols);
                        &&& step.done() is Some
                        &&& step.done()->0.waits() == Seq::<Delay>::empty()
                        &&& if chosen.len() == 0 {
                            &&& step.done()->0.done() is Some
                            &&& step.done()->0.done()->0 is Ok
                            &&& step.done()->0.done()->0->Ok_0@ == Seq::<
                                DefinitionMatch<L>,
                            >::empty()
                        } else {
                            step.done()->0.again() is Some && step.done()->0.again()->0@
                                == DefinitionWalkView::<L, E>::start(self@.file, chosen)
                        }
                    },
                }
            }),
    {
        match self.search.resume(reply) {
            Step::Again { waits, op } => Step::Again {
                waits,
                op: FindDefinitions { file: self.file, search: op },
            },
            Step::Done { waits, result } => {
                let walk: Step<DefinitionWalk<L, E>, Result<Vec<DefinitionMatch<L>>, E>> =
                    match result {
                    Ok(symbols) => DefinitionWalk::begin(self.file, symbols),
                    Err(error) => Step::Done { waits: Vec::new(), result: Err(error) },
                };
                Step::Done { waits, result: walk }
            },
        }
    }
}

/// There is one match for each symbol that was looked up, in their order, with the definitions
/// that the server's answer for that symbol resolved to.
pub proof fn law_one_match_per_symbol<L, E>(
    symbols: Seq<FlatSymbol>,
    answers: Seq<Seq<LocationOutcome<L, E>>>,
)
    ensures
        definition_matches(symbols, answers).len() == answers.len(),
        forall|i: int|
            0 <= i < answers.len() ==> (#[trigger] definition_matches(symbols, answers)[i]).symbol
                == reported(symbols[i]) && definition_matches(symbols, answers)[i].definitions
                == resolved(answers[i]),
{
}

} // verus!
