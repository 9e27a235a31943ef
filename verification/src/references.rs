//! Finding the references to symbols by name.

#[allow(unused_imports)]
use crate::delay::Delay;
use crate::documents::copy_path;
#[allow(unused_imports)]
use crate::locations::{
    at_least_one, first_invalid, law_larger_limit_reads_on, law_read_are_the_first,
    law_read_up_to_limit, read_length, resolved, up_to,
};
use crate::locations::{max_one, read_locations, LocationOutcome};
#[allow(unused_imports)]
use crate::protocol::{reply_view, RequestView};
use crate::protocol::{FileRequest, FlatSymbol, Query, ResolvedSymbol, Step};
#[allow(unused_imports)]
use crate::retry::{retry_outcome, retry_waits, RetryView, LOCATION_ATTEMPTS};
use crate::retry::{Retry, RetryPolicy};
#[allow(unused_imports)]
use crate::symbols::{reported, SymbolSearchView};
use crate::symbols::{report, SymbolSearch};
use vstd::prelude::*;

verus! {

/// A symbol and what refers to it. The list is cut off where the budget for references ran out.
#[derive(Debug, PartialEq, Eq)]
pub struct ReferenceMatch<L> {
    pub symbol: ResolvedSymbol,
    pub references: Vec<L>,
    pub truncated: bool,
}

/// A [`ReferenceMatch`] with its references taken as a sequence.
pub ghost struct ReferenceView<L> {
    pub symbol: ResolvedSymbol,
    pub references: Seq<L>,
    pub truncated: bool,
}

impl<L> View for ReferenceMatch<L> {
    type V = ReferenceView<L>;

    open spec fn view(&self) -> ReferenceView<L> {
        ReferenceView {
            symbol: self.symbol,
            references: self.references@,
            truncated: self.truncated,
        }
    }
}

/// Matches as values.
pub open spec fn reference_views<L>(matches: Seq<ReferenceMatch<L>>) -> Seq<ReferenceView<L>> {
    matches.map_values(|found: ReferenceMatch<L>| found@)
}

/// The part of an answer that is read while `left` more references may be reported.
pub open spec fn read_part<L, E>(answer: Seq<LocationOutcome<L, E>>, left: nat) -> Seq<
    LocationOutcome<L, E>,
> {
    answer.take(read_length(answer, left) as int)
}

/// How many more references may be reported after `answers`, out of `budget`.
pub open spec fn left_after<L, E>(budget: nat, answers: Seq<Seq<LocationOutcome<L, E>>>) -> nat
    decreases answers.len(),
{
    if answers.len() == 0 {
        budget
    } else {
        let left = left_after(budget, answers.drop_last());
        (left - resolved(read_part(answers.last(), left)).len()) as nat
    }
}

/// The match for the symbol `i`: its references as far as the budget went, marked as truncated
/// where that was used up.
pub open spec fn reference_match<L, E>(
    symbols: Seq<FlatSymbol>,
    budget: nat,
    answers: Seq<Seq<LocationOutcome<L, E>>>,
    i: int,
) -> ReferenceView<L> {
    ReferenceView {
        symbol: reported(symbols[i]),
        references: resolved(read_part(answers[i], left_after(budget, answers.take(i)))),
        truncated: left_after(budget, answers.take(i + 1)) == 0,
    }
}

/// The matches for the first symbols, where `answers` are the locations that the server gave for
/// each of them.
pub open spec fn reference_matches<L, E>(
    symbols: Seq<FlatSymbol>,
    budget: nat,
    answers: Seq<Seq<LocationOutcome<L, E>>>,
) -> Seq<ReferenceView<L>> {
    Seq::new(answers.len(), |i: int| reference_match(symbols, budget, answers, i))
}

/// What a [`ReferenceWalk`] is about: the file, the symbols to look up, whether their declarations
/// count, how many references are reported at most, the answers to the symbols that were looked
/// up, and the replies to the next one.
pub ghost struct ReferenceWalkView<L, E> {
    pub file: Seq<u8>,
    pub symbols: Seq<FlatSymbol>,
    pub include_declaration: bool,
    pub budget: nat,
    pub answers: Seq<Seq<LocationOutcome<L, E>>>,
    pub replies: Seq<Result<Seq<LocationOutcome<L, E>>, E>>,
}

impl<L, E> ReferenceWalkView<L, E> {
    /// The walk at its beginning.
    pub open spec fn start(
        file: Seq<u8>,
        symbols: Seq<FlatSymbol>,
        include_declaration: bool,
        max_references: usize,
    ) -> Self {
        ReferenceWalkView {
            file,
            symbols,
            include_declaration,
            budget: at_least_one(max_references),
            answers: Seq::empty(),
            replies: Seq::empty(),
        }
    }
}

/// Looks up the references to one symbol after another.
pub struct ReferenceWalk<L, E> {
    file: Vec<u8>,
    symbols: Vec<FlatSymbol>,
    include_declaration: bool,
    remaining: usize,
    matches: Vec<ReferenceMatch<L>>,
    fetch: Retry<LocationOutcome<L, E>, E>,
    budget: Ghost<nat>,
    answers: Ghost<Seq<Seq<LocationOutcome<L, E>>>>,
}

impl<L, E> View for ReferenceWalk<L, E> {
    type V = ReferenceWalkView<L, E>;

    closed spec fn view(&self) -> ReferenceWalkView<L, E> {
        ReferenceWalkView {
            file: self.file@,
            symbols: self.symbols@,
            include_declaration: self.include_declaration,
            budget: self.budget@,
            answers: self.answers@,
            replies: self.fetch@.replies,
        }
    }
}

/// The request for the references to a symbol.
pub open spec fn reference_request(
    file: Seq<u8>,
    symbol: FlatSymbol,
    include_declaration: bool,
) -> RequestView {
    RequestView {
        file,
        query: Query::References { position: symbol.selection_range.start, include_declaration },
    }
}

fn fetch_references<L, E>(
    file: &Vec<u8>,
    symbol: &FlatSymbol,
    include_declaration: bool,
) -> (fetch: Retry<LocationOutcome<L, E>, E>)
    ensures
        fetch@ == (RetryView::<LocationOutcome<L, E>, E> {
            request: reference_request(file@, *symbol, include_declaration),
            policy: RetryPolicy::Locations,
            replies: Seq::empty(),
        }),
{
    Retry::new(
        FileRequest {
            file: copy_path(file),
            query: Query::References {
                position: symbol.selection_range.start,
                include_declaration,
            },
        },
        RetryPolicy::Locations,
    )
}

proof fn lemma_matches_push<L, E>(
    symbols: Seq<FlatSymbol>,
    budget: nat,
    earlier: Seq<Seq<LocationOutcome<L, E>>>,
    answer: Seq<LocationOutcome<L, E>>,
)
    ensures
        ({
            let answers = earlier.push(answer);
            let left = left_after(budget, earlier);
            &&& left_after(budget, answers) == left - resolved(read_part(answer, left)).len()
            &&& reference_matches(symbols, budget, answers) == reference_matches(
                symbols,
                budget,
                earlier,
            ).push(
                ReferenceView {
                    symbol: reported(symbols[earlier.len() as int]),
                    references: resolved(read_part(answer, left)),
                    truncated: left_after(budget, answers) == 0,
                },
            )
        }),
{
    let answers = earlier.push(answer);
    let left = left_after(budget, earlier);
    law_read_up_to_limit(answer, left);
    assert(answers.drop_last() =~= earlier);
    assert(answers.take(earlier.len() as int) =~= earlier);
    assert(answers.take(answers.len() as int) =~= answers);
    assert forall|i: int| 0 <= i < earlier.len() implies reference_match(
        symbols,
        budget,
        answers,
        i,
    ) == reference_match(symbols, budget, earlier, i) by {
        assert(answers.take(i) =~= earlier.take(i));
        assert(answers.take(i + 1) =~= earlier.take(i + 1));
    }
    assert(reference_matches(symbols, budget, answers) =~= reference_matches(
        symbols,
        budget,
        earlier,
    ).push(
        ReferenceView {
            symbol: reported(symbols[earlier.len() as int]),
            references: resolved(read_part(answer, left)),
            truncated: left_after(budget, answers) == 0,
        },
    ));
}

proof fn lemma_walk_goes_on<L, E>(
    budget: nat,
    earlier: Seq<Seq<LocationOutcome<L, E>>>,
    answer: Seq<LocationOutcome<L, E>>,
)
    requires
        reference_walk_went_on(budget, earlier),
        left_after(budget, earlier) > 0,
        first_invalid(read_part(answer, left_after(budget, earlier))) is None,
    ensures
        reference_walk_went_on(budget, earlier.push(answer)),
{
    let answers = earlier.push(answer);
    assert forall|k: int| 0 <= k < answers.len() implies {
        &&& left_after(budget, #[trigger] answers.take(k)) > 0
        &&& first_invalid(read_part(answers[k], left_after(budget, answers.take(k)))) is None
    } by {
        if k < earlier.len() {
            assert(answers.take(k) =~= earlier.take(k));
        } else {
            assert(answers.take(k) =~= earlier);
        }
    }
}

impl<L, E> ReferenceWalk<L, E> {
    #[verifier::type_invariant]
    closed spec fn consistent(self) -> bool {
        let next = self.answers@.len() as int;
        &&& next < self.symbols@.len()
        &&& self.remaining > 0
        &&& reference_walk_went_on(self.budget@, self.answers@)
        &&& self.remaining == left_after(self.budget@, self.answers@)
        &&& reference_views(self.matches@) == reference_matches(
            self.symbols@,
            self.budget@,
            self.answers@,
        )
        &&& self.fetch@.policy == RetryPolicy::Locations
        &&& self.fetch@.request == reference_request(
            self.file@,
            self.symbols@[next],
            self.include_declaration,
        )
    }

    /// Begins with the first symbol, where there is one.
    pub(crate) fn begin(
        file: Vec<u8>,
        symbols: Vec<FlatSymbol>,
        include_declaration: bool,
        max_references: usize,
    ) -> (step: Step<Self, Result<Vec<ReferenceMatch<L>>, E>>)
        ensures
            step.waits() == Seq::<Delay>::empty(),
            if symbols@.len() == 0 {
                &&& step.done() is Some
                &&& step.done()->0 is Ok
                &&& step.done()->0->Ok_0@ == Seq::<ReferenceMatch<L>>::empty()
            } else {
                step.again() is Some && step.again()->0@ == ReferenceWalkView::<L, E>::start(
                    file@,
                    symbols@,
                    include_declaration,
                    max_references,
                )
            },
    {
        if symbols.len() == 0 {
            return Step::Done { waits: Vec::new(), result: Ok(Vec::new()) };
        }
        let fetch: Retry<LocationOutcome<L, E>, E> = fetch_references(
            &file,
            &symbols[0],
            include_declaration,
        );
        let matches: Vec<ReferenceMatch<L>> = Vec::new();
        assert(reference_views(matches@) =~= reference_matches(
            symbols@,
            at_least_one(max_references),
            Seq::<Seq<LocationOutcome<L, E>>>::empty(),
        ));
        Step::Again {
            waits: Vec::new(),
            op: ReferenceWalk {
                file,
                symbols,
                include_declaration,
                remaining: max_one(max_references),
                matches,
                fetch,
                budget: Ghost(at_least_one(max_references)),
                answers: Ghost(Seq::empty()),
            },
        }
    }

    /// What to ask the server.
    pub fn request(&self) -> (request: &FileRequest)
        ensures
            self@.answers.len() < self@.symbols.len(),
            request@ == reference_request(
                self@.file,
                self@.symbols[self@.answers.len() as int],
                self@.include_declaration,
            ),
            request.file@ == self@.file,
            request.query == (Query::References {
                position: self@.symbols[self@.answers.len() as int].selection_range.start,
                include_declaration: self@.include_declaration,
            }),
    {
        proof {
            use_type_invariant(self);
        }
        self.fetch.request()
    }

    /// Takes the server's list of locations.
    pub fn resume(self, reply: Result<Vec<LocationOutcome<L, E>>, E>) -> (step: Step<
        Self,
        Result<Vec<ReferenceMatch<L>>, E>,
    >)
        ensures
            self@.answers.len() < self@.symbols.len(),
            left_after(self@.budget, self@.answers) > 0,
            self@.replies.len() < LOCATION_ATTEMPTS,
            ({
                let replies = self@.replies.push(reply_view(reply));
                let left = left_after(self@.budget, self@.answers);
                &&& step.waits() == retry_waits(RetryPolicy::Locations, replies)
                &&& match retry_outcome(LOCATION_ATTEMPTS as nat, replies) {
                    None => step.again() is Some && step.again()->0@ == (ReferenceWalkView {
                        replies,
                        ..self@
                    }),
                    Some(Err(error)) => step.done() == Some(
                        Err::<Vec<ReferenceMatch<L>>, E>(error),
                    ),
                    Some(Ok(answer)) => match first_invalid(read_part(answer, left)) {
                        Some(error) => step.done() == Some(
                            Err::<Vec<ReferenceMatch<L>>, E>(error),
                        ),
                        None => {
                            let answers = self@.answers.push(answer);
                            &&& reference_walk_went_on(self@.budget, answers)
                            &&& if answers.len() < self@.symbols.len() && left_after(
                                self@.budget,
                                answers,
                            ) > 0 {
                                step.again() is Some && step.again()->0@ == (ReferenceWalkView {
                                    answers,
                                    replies: Seq::empty(),
                                    ..self@
                                })
                            } else {
                                &&& step.done() is Some
                                &&& step.done()->0 is Ok
                                &&& reference_walk_ended(self@.symbols, self@.budget, answers)
                                &&& reference_views(step.done()->0->Ok_0@) == reference_matches(
                                    self@.symbols,
                                    self@.budget,
                                    answers,
                                )
                            }
                        },
                    },
                }
            }),
    {
        proof {
            use_type_invariant(&self);
        }
        let ghost earlier = self.answers@;
        let ghost symbols = self.symbols@;
        let ghost budget = self.budget@;
        match self.fetch.resume(reply) {
            Step::Again { waits, op } => Step::Again {
                waits,
                op: ReferenceWalk {
                    file: self.file,
                    symbols: self.symbols,
                    include_declaration: self.include_declaration,
                    remaining: self.remaining,
                    matches: self.matches,
                    fetch: op,
                    budget: self.budget,
                    answers: self.answers,
                },
            },
            Step::Done { waits, result } => {
                let answer: Vec<LocationOutcome<L, E>> = match result {
                    Ok(answer) => answer,
                    Err(error) => {
                        return Step::Done { waits, result: Err(error) };
                    },
                };
                let ghost given = answer@;
                let ghost answers = earlier.push(given);
                proof {
                    lemma_matches_push(symbols, budget, earlier, answer@);
                    law_read_up_to_limit(answer@, self.remaining as nat);
                }
                let references: Vec<L> = match read_locations(answer, self.remaining) {
                    Ok((references, _)) => references,
                    Err(error) => {
                        return Step::Done { waits, result: Err(error) };
                    },
                };
                proof {
                    lemma_walk_goes_on(budget, earlier, given);
                }
                let remaining: usize = self.remaining - references.len();
                let mut matches: Vec<ReferenceMatch<L>> = self.matches;
                assert(reference_views(matches@).len() == matches@.len());
                assert(reference_matches(symbols, budget, earlier).len() == earlier.len());
                let symbol: ResolvedSymbol = report(&self.symbols[matches.len()]);
                let ghost before = matches@;
                let ghost found = ReferenceView {
                    symbol,
                    references: references@,
                    truncated: remaining == 0,
                };
                matches.push(ReferenceMatch { symbol, references, truncated: remaining == 0 });
                assert(reference_views(matches@) =~= reference_views(before).push(found));
                if remaining > 0 && matches.len() < self.symbols.len() {
                    let fetch: Retry<LocationOutcome<L, E>, E> = fetch_references(
                        &self.file,
                        &self.symbols[matches.len()],
                        self.include_declaration,
                    );
                    Step::Again {
                        waits,
                        op: ReferenceWalk {
                            file: self.file,
                            symbols: self.symbols,
                            include_declaration: self.include_declaration,
                            remaining,
                            matches,
                            fetch,
                            budget: self.budget,
                            answers: Ghost(answers),
                        },
                    }
                } else {
                    Step::Done { waits, result: Ok(matches) }
                }
            },
        }
    }
}

/// Finds the symbols whose references are then looked up.
pub struct FindReferences<E> {
    file: Vec<u8>,
    search: SymbolSearch<E>,
    include_declaration: bool,
    max_references: usize,
}

/// What a [`FindReferences`] is about.
pub ghost struct FindReferencesView<E> {
    pub file: Seq<u8>,
    pub search: SymbolSearchView<E>,
    pub include_declaration: bool,
    pub max_references: usize,
}

impl<E> View for FindReferences<E> {
    type V = FindReferencesView<E>;

    closed spec fn view(&self) -> FindReferencesView<E> {
        FindReferencesView {
            file: self.file@,
            search: self.search@,
            include_declaration: self.include_declaration,
            max_references: self.max_references,
        }
    }
}

impl<E> FindReferences<E> {
    /// Looks up, in `file`, what refers to what `search` finds there.
    pub(crate) fn new(
        file: Vec<u8>,
        search: SymbolSearch<E>,
        include_declaration: bool,
        max_references: usize,
    ) -> (find: Self)
        ensures
            find@ == (FindReferencesView {
                file: file@,
                search: search@,
                include_declaration,
                max_references,
            }),
    {
        FindReferences { file, search, include_declaration, max_references }
    }

    /// What to ask the server.
    pub fn request(&self) -> (request: &FileRequest)
        ensures
            request@ == self@.search.fetch.request,
    {
        self.search.request()
    }

    /// Takes the server's list of symbols. When there are symbols to look up, the result is the
    /// walk through them.
    pub fn resume<L>(self, reply: Result<Vec<FlatSymbol>, E>) -> (step: Step<
        Self,
        Step<ReferenceWalk<L, E>, Result<Vec<ReferenceMatch<L>>, E>>,
    >)
        ensures
            self@.search.fetch.replies.len() < self@.search.fetch.policy.attempts(),
            ({
                let fetch = self@.search.fetch;
                let replies = fetch.replies.push(reply_view(reply));
                &&& step.waits() == retry_waits(fetch.policy, replies)
                &&& match retry_outcome(fetch.policy.attempts(), replies) {
                    None => step.again() is Some && step.again()->0@ == (FindReferencesView {
                        search: SymbolSearchView {
                            fetch: RetryView { replies, ..fetch },
                            ..self@.search
                        },
                        ..self@
                    }),
                    Some(Err(error)) => {
                        &&& step.done() is Some
                        &&& step.done()->0.waits() == Seq::<Delay>::empty()
                        &&& step.done()->0.done() == Some(Err::<Vec<ReferenceMatch<L>>, E>(error))
                    },
                    Some(Ok(symbols)) => {
                        let chosen = self@.search.filter.chosen(symbols);
                        &&& step.done() is Some
                        &&& step.done()->0.waits() == Seq::<Delay>::empty()
                        &&& if chosen.len() == 0 {
                            &&& step.done()->0.done() is Some
                            &&& step.done()->0.done()->0 is Ok
                            &&& step.done()->0.done()->0->Ok_0@ == Seq::<ReferenceMatch<L>>::empty()
                        } else {
                            step.done()->0.again() is Some && step.done()->0.again()->0@
                                == ReferenceWalkView::<L, E>::start(
                                self@.file,
                                chosen,
                                self@.include_declaration,
                                self@.max_references,
                            )
                        }
                    },
                }
            }),
    {
        match self.search.resume(reply) {
            Step::Again { waits, op } => Step::Again {
                waits,
                op: FindReferences {
                    file: self.file,
                    search: op,
                    include_declaration: self.include_declaration,
                    max_references: self.max_references,
                },
            },
            Step::Done { waits, result } => {
                let walk: Step<ReferenceWalk<L, E>, Result<Vec<ReferenceMatch<L>>, E>> =
                    match result {
                    Ok(symbols) => ReferenceWalk::begin(
                        self.file,
                        symbols,
                        self.include_declaration,
                        self.max_references,
                    ),
                    Err(error) => Step::Done { waits: Vec::new(), result: Err(error) },
                };
                Step::Done { waits, result: walk }
            },
        }
    }
}

/// How many references some matches report in all.
pub open spec fn reference_count<L>(matches: Seq<ReferenceView<L>>) -> nat
    decreases matches.len(),
{
    if matches.len() == 0 {
        0
    } else {
        reference_count(matches.drop_last()) + matches.last().references.len()
    }
}

/// All the matches together report no more references than the budget allows, and what they
/// leave of it is what is left.
pub proof fn law_references_within_budget<L, E>(
    symbols: Seq<FlatSymbol>,
    budget: nat,
    answers: Seq<Seq<LocationOutcome<L, E>>>,
)
    ensures
        reference_count(reference_matches(symbols, budget, answers)) + left_after(budget, answers)
            == budget,
    decreases answers.len(),
{
    if answers.len() == 0 {
        assert(reference_matches(symbols, budget, answers) =~= Seq::empty());
    } else {
        let earlier = answers.drop_last();
        law_references_within_budget(symbols, budget, earlier);
        lemma_matches_push(symbols, budget, earlier, answers.last());
        law_read_up_to_limit(answers.last(), left_after(budget, earlier));
        assert(earlier.push(answers.last()) =~= answers);
        let matches = reference_matches(symbols, budget, answers);
        assert(matches.drop_last() =~= reference_matches(symbols, budget, earlier));
    }
}

/// Whether `answers` can be those of one walk: before each of them there was budget left, and what
/// was read of it held no entry that is no location.
pub open spec fn reference_walk_went_on<L, E>(
    budget: nat,
    answers: Seq<Seq<LocationOutcome<L, E>>>,
) -> bool {
    forall|k: int|
        0 <= k < answers.len() ==> {
            &&& left_after(budget, #[trigger] answers.take(k)) > 0
            &&& first_invalid(read_part(answers[k], left_after(budget, answers.take(k)))) is None
        }
}

/// Whether `answers` are those of a walk that came to its end and gave matches: it went on until
/// every symbol was looked up or the budget was used up.
pub open spec fn reference_walk_ended<L, E>(
    symbols: Seq<FlatSymbol>,
    budget: nat,
    answers: Seq<Seq<LocationOutcome<L, E>>>,
) -> bool {
    &&& reference_walk_went_on(budget, answers)
    &&& answers.len() == symbols.len() || answers.len() < symbols.len() && left_after(
        budget,
        answers,
    ) == 0
}

/// Only the last match of a walk can be truncated, and it is exactly when the budget is used up.
pub proof fn law_only_last_match_truncated<L, E>(
    symbols: Seq<FlatSymbol>,
    budget: nat,
    answers: Seq<Seq<LocationOutcome<L, E>>>,
    i: int,
)
    requires
        reference_walk_went_on(budget, answers),
        0 <= i < answers.len(),
    ensures
        reference_matches(symbols, budget, answers)[i].truncated <==> i == answers.len() - 1
            && reference_count(reference_matches(symbols, budget, answers)) == budget,
{
    law_references_within_budget(symbols, budget, answers);
    if i < answers.len() - 1 {
        assert(left_after(budget, answers.take(i + 1)) > 0);
    } else {
        assert(answers.take(i + 1) =~= answers);
    }
}

/// The references that some matches report, put end to end.
pub open spec fn all_references<L>(matches: Seq<ReferenceView<L>>) -> Seq<L> {
    matches.map_values(|found: ReferenceView<L>| found.references).flatten()
}

/// All the locations that some answers hold, put end to end.
pub open spec fn all_resolved<L, E>(answers: Seq<Seq<LocationOutcome<L, E>>>) -> Seq<L> {
    answers.map_values(|answer: Seq<LocationOutcome<L, E>>| resolved(answer)).flatten()
}

/// The references that the matches report, put end to end, are the first that the answers hold, as
/// many as the budget allows.
pub proof fn law_references_are_the_first<L, E>(
    symbols: Seq<FlatSymbol>,
    budget: nat,
    answers: Seq<Seq<LocationOutcome<L, E>>>,
)
    ensures
        all_references(reference_matches(symbols, budget, answers)) == up_to(
            all_resolved(answers),
            budget,
        ),
        left_after(budget, answers) == budget - up_to(all_resolved(answers), budget).len(),
    decreases answers.len(),
{
    let matches = reference_matches(symbols, budget, answers);
    if answers.len() == 0 {
        assert(all_references(matches) =~= Seq::empty());
        assert(all_resolved(answers) =~= Seq::empty());
    } else {
        let earlier = answers.drop_last();
        let answer = answers.last();
        let left = left_after(budget, earlier);
        law_references_are_the_first(symbols, budget, earlier);
        lemma_matches_push(symbols, budget, earlier, answer);
        assert(earlier.push(answer) =~= answers);
        law_read_are_the_first(answer, left);
        let before = reference_matches(symbols, budget, earlier);
        let references = |found: ReferenceView<L>| found.references;
        assert(matches.map_values(references) =~= before.map_values(references).push(
            matches.last().references,
        ));
        before.map_values(references).lemma_flatten_push(matches.last().references);
        let locations = |answer: Seq<LocationOutcome<L, E>>| resolved(answer);
        assert(answers.map_values(locations) =~= earlier.map_values(locations).push(
            resolved(answer),
        ));
        earlier.map_values(locations).lemma_flatten_push(resolved(answer));
        assert(all_references(matches) =~= up_to(all_resolved(answers), budget));
    }
}

/// How many of the answers a walk asks for: it stops once the budget is used up.
pub open spec fn answers_asked<L, E>(
    budget: nat,
    answers: Seq<Seq<LocationOutcome<L, E>>>,
) -> nat
    decreases answers.len(),
{
    if answers.len() == 0 {
        0
    } else {
        let asked = answers_asked(budget, answers.drop_last());
        if left_after(budget, answers.drop_last()) > 0 {
            asked + 1
        } else {
            asked
        }
    }
}

proof fn lemma_answers_asked<L, E>(budget: nat, answers: Seq<Seq<LocationOutcome<L, E>>>)
    ensures
        answers_asked(budget, answers) <= answers.len(),
        forall|k: int|
            0 <= k < answers_asked(budget, answers) ==> left_after(
                budget,
                #[trigger] answers.take(k),
            ) > 0,
        answers_asked(budget, answers) < answers.len() ==> left_after(
            budget,
            answers.take(answers_asked(budget, answers) as int),
        ) == 0,
    decreases answers.len(),
{
    if answers.len() > 0 {
        let earlier = answers.drop_last();
        lemma_answers_asked(budget, earlier);
        let asked = answers_asked(budget, earlier) as int;
        assert(answers.take(asked) =~= earlier.take(asked));
        assert(answers.take(earlier.len() as int) =~= earlier);
        assert(earlier.take(earlier.len() as int) =~= earlier);
        lemma_left_shrinks(budget, earlier, asked);
        assert forall|k: int| 0 <= k < answers_asked(budget, answers) implies left_after(
            budget,
            #[trigger] answers.take(k),
        ) > 0 by {
            if k < earlier.len() {
                assert(answers.take(k) =~= earlier.take(k));
            }
        }
    }
}

proof fn lemma_left_shrinks<L, E>(budget: nat, answers: Seq<Seq<LocationOutcome<L, E>>>, k: int)
    requires
        0 <= k <= answers.len(),
    ensures
        left_after(budget, answers) <= left_after(budget, answers.take(k)),
    decreases answers.len(),
{
    if k < answers.len() {
        let earlier = answers.drop_last();
        lemma_left_shrinks(budget, earlier, k);
        assert(earlier.take(k) =~= answers.take(k));
        law_read_up_to_limit(answers.last(), left_after(budget, earlier));
    } else {
        assert(answers.take(k) =~= answers);
    }
}

proof fn lemma_resolved_prefix<L, E>(answers: Seq<Seq<LocationOutcome<L, E>>>, k: int)
    requires
        0 <= k <= answers.len(),
    ensures
        all_resolved(answers.take(k)).is_prefix_of(all_resolved(answers)),
    decreases answers.len(),
{
    if k < answers.len() {
        let earlier = answers.drop_last();
        lemma_resolved_prefix(earlier, k);
        assert(earlier.take(k) =~= answers.take(k));
        let locations = |answer: Seq<LocationOutcome<L, E>>| resolved(answer);
        assert(answers.map_values(locations) =~= earlier.map_values(locations).push(
            resolved(answers.last()),
        ));
        earlier.map_values(locations).lemma_flatten_push(resolved(answers.last()));
    } else {
        assert(answers.take(k) =~= answers);
    }
}

/// Allowing more references only adds to what is reported. Where a walk that may report `larger`
/// ended with matches after `answers`, one that may report fewer and is given the same answers ends
/// with matches too, after the first of them; its references, put end to end, are the first of the
/// other's, and its symbols are the first of the other's.
pub proof fn law_larger_maximum_only_extends<L, E>(
    symbols: Seq<FlatSymbol>,
    max_references: usize,
    larger: usize,
    answers: Seq<Seq<LocationOutcome<L, E>>>,
)
    requires
        max_references <= larger,
        reference_walk_ended(symbols, at_least_one(larger), answers),
    ensures
        ({
            let budget = at_least_one(max_references);
            let asked = answers.take(answers_asked(budget, answers) as int);
            let fewer = reference_matches(symbols, budget, asked);
            let more = reference_matches(symbols, at_least_one(larger), answers);
            &&& answers_asked(budget, answers) <= answers.len()
            &&& reference_walk_ended(symbols, budget, asked)
            &&& all_references(fewer).is_prefix_of(all_references(more))
            &&& fewer.len() <= more.len()
            &&& forall|i: int|
                0 <= i < fewer.len() ==> (#[trigger] fewer[i]).symbol == more[i].symbol
        }),
{
    let budget = at_least_one(max_references);
    let most = at_least_one(larger);
    let length = answers_asked(budget, answers) as int;
    let asked = answers.take(length);
    lemma_answers_asked(budget, answers);
    assert forall|k: int| 0 <= k < asked.len() implies {
        &&& left_after(budget, #[trigger] asked.take(k)) > 0
        &&& first_invalid(read_part(asked[k], left_after(budget, asked.take(k)))) is None
    } by {
        let seen = answers.take(k);
        assert(asked.take(k) =~= seen);
        law_references_are_the_first(symbols, budget, seen);
        law_references_are_the_first(symbols, most, seen);
        law_larger_limit_reads_on(answers[k], left_after(budget, seen), left_after(most, seen));
    }
    law_references_are_the_first(symbols, budget, asked);
    law_references_are_the_first(symbols, most, answers);
    lemma_resolved_prefix(answers, length);
    if length == answers.len() {
        assert(asked =~= answers);
        if answers.len() < symbols.len() {
            assert(left_after(budget, answers) == 0);
        }
    }
}

/// Asking for no references is asking for one.
pub proof fn law_at_least_one_reference<L, E>(
    file: Seq<u8>,
    symbols: Seq<FlatSymbol>,
    include_declaration: bool,
)
    ensures
        ReferenceWalkView::<L, E>::start(file, symbols, include_declaration, 0)
            == ReferenceWalkView::<L, E>::start(file, symbols, include_declaration, 1),
{
}

} // verus!
