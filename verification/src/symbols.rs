//! Choosing among the symbols of a document.

#[allow(unused_imports)]
use crate::locations::{at_least_one, max_one, up_to};
#[allow(unused_imports)]
use crate::protocol::reply_view;
use crate::protocol::{FileRequest, FlatSymbol, LspPosition, RenameCandidate, ResolvedSymbol, Step};
#[allow(unused_imports)]
use crate::retry::{retry_outcome, retry_waits, RetryView};
use crate::retry::Retry;
use vstd::prelude::*;

verus! {

/// Which symbols of a document are meant: those of a name and, where one is given, a kind; and
/// no more than `max` of them.
#[derive(Debug, PartialEq, Eq)]
pub struct SymbolFilter {
    pub name: String,
    pub kind: Option<u32>,
    pub max: usize,
}

impl SymbolFilter {
    /// Whether a symbol has the name and the kind.
    pub open spec fn matches(self, symbol: FlatSymbol) -> bool {
        &&& symbol.name@ == self.name@
        &&& self.kind matches Some(kind) ==> symbol.kind == kind
    }

    /// The symbols that are meant, in the order of the document.
    pub open spec fn chosen(self, symbols: Seq<FlatSymbol>) -> Seq<FlatSymbol> {
        up_to(symbols.filter(|symbol: FlatSymbol| self.matches(symbol)), self.max as nat)
    }

    fn admits(&self, symbol: &FlatSymbol) -> (result: bool)
        ensures
            result == self.matches(*symbol),
    {
        symbol.name == self.name && match self.kind {
            Some(kind) => symbol.kind == kind,
            None => true,
        }
    }

    /// Picks the symbols that are meant.
    pub fn choose_from(&self, symbols: Vec<FlatSymbol>) -> (chosen: Vec<FlatSymbol>)
        ensures
            chosen@ == self.chosen(symbols@),
            forall|i: int|
                0 <= i < chosen@.len() ==> {
                    &&& (#[trigger] chosen@[i]).name@ == self.name@
                    &&& self.kind matches Some(kind) ==> chosen@[i].kind == kind
                },
    {
        let ghost all = symbols@;
        let ghost wanted = |symbol: FlatSymbol| self.matches(symbol);
        let mut chosen: Vec<FlatSymbol> = Vec::new();
        proof {
            reveal(Seq::filter);
            assert(all.take(0) =~= Seq::empty());
        }
        for symbol in iter: symbols
            invariant
                iter.seq() == all,
                wanted == (|symbol: FlatSymbol| self.matches(symbol)),
                chosen@ == all.take(iter.index()).filter(wanted),
        {
            proof {
                reveal(Seq::filter);
                assert(all.take(iter.index() + 1).drop_last() =~= all.take(iter.index()));
                assert(all.take(iter.index() + 1).last() == symbol);
            }
            if self.admits(&symbol) {
                chosen.push(symbol);
            }
        }
        assert(all.take(all.len() as int) =~= all);
        chosen.truncate(self.max);
        assert(chosen@ =~= self.chosen(all));
        proof {
            law_chosen_symbols_match(*self, all);
        }
        chosen
    }
}

/// A symbol as it is reported.
pub open spec fn reported(symbol: FlatSymbol) -> ResolvedSymbol {
    ResolvedSymbol {
        name: symbol.name,
        kind: symbol.kind,
        range: symbol.range,
        selection_range: symbol.selection_range,
    }
}

/// Reports one symbol.
pub fn report(symbol: &FlatSymbol) -> (result: ResolvedSymbol)
    ensures
        result == reported(*symbol),
        result.name@ == symbol.name@,
        result.kind == symbol.kind,
        result.range == symbol.range,
        result.selection_range == symbol.selection_range,
{
    ResolvedSymbol {
        name: symbol.name.clone(),
        kind: symbol.kind,
        range: symbol.range,
        selection_range: symbol.selection_range,
    }
}

/// Reports the first `max` symbols, and at least one where there is one.
pub fn report_symbols(symbols: &Vec<FlatSymbol>, max: usize) -> (result: Vec<ResolvedSymbol>)
    ensures
        result@ == up_to(symbols@, at_least_one(max)).map_values(
            |symbol: FlatSymbol| reported(symbol),
        ),
{
    let limit: usize = max_one(max);
    let end: usize = if limit < symbols.len() {
        limit
    } else {
        symbols.len()
    };
    let mut result: Vec<ResolvedSymbol> = Vec::new();
    let mut i: usize = 0;
    while i < end
        invariant
            i <= end <= symbols@.len(),
            result@.len() == i,
            forall|j: int| 0 <= j < i ==> #[trigger] result@[j] == reported(symbols@[j]),
        decreases end - i,
    {
        result.push(report(&symbols[i]));
        i = i + 1;
    }
    assert(result@ =~= up_to(symbols@, at_least_one(max)).map_values(
        |symbol: FlatSymbol| reported(symbol),
    ));
    result
}

/// Whether both numbers of a position can be counted from one.
pub open spec fn countable(position: LspPosition) -> bool {
    position.line < u32::MAX && position.character < u32::MAX
}

/// Whether both numbers of `position` can be counted from one.
pub fn is_countable(position: LspPosition) -> (result: bool)
    ensures
        result == countable(position),
{
    position.line < u32::MAX && position.character < u32::MAX
}

/// A symbol as something to rename, with its position counted from one.
pub open spec fn candidate(symbol: FlatSymbol) -> RenameCandidate {
    RenameCandidate {
        name: symbol.name,
        kind: symbol.kind,
        line: (symbol.selection_range.start.line + 1) as u32,
        character: (symbol.selection_range.start.character + 1) as u32,
        selection_range: symbol.selection_range,
    }
}

/// The symbols as things to rename.
pub fn rename_candidates(symbols: &Vec<FlatSymbol>) -> (result: Vec<RenameCandidate>)
    requires
        forall|i: int|
            0 <= i < symbols@.len() ==> countable((#[trigger] symbols@[i]).selection_range.start),
    ensures
        result@ == symbols@.map_values(|symbol: FlatSymbol| candidate(symbol)),
        result@.len() == symbols@.len(),
        forall|i: int|
            0 <= i < symbols@.len() ==> {
                &&& (#[trigger] result@[i]).name@ == symbols@[i].name@
                &&& result@[i].kind == symbols@[i].kind
                &&& result@[i].line == symbols@[i].selection_range.start.line + 1
                &&& result@[i].character == symbols@[i].selection_range.start.character + 1
                &&& result@[i].selection_range == symbols@[i].selection_range
            },
{
    let mut result: Vec<RenameCandidate> = Vec::new();
    let mut i: usize = 0;
    while i < symbols.len()
        invariant
            i <= symbols@.len(),
            result@.len() == i,
            forall|j: int|
                0 <= j < symbols@.len() ==> countable(
                    (#[trigger] symbols@[j]).selection_range.start,
                ),
            forall|j: int| 0 <= j < i ==> #[trigger] result@[j] == candidate(symbols@[j]),
        decreases symbols@.len() - i,
    {
        let symbol: &FlatSymbol = &symbols[i];
        assert(countable(symbols@[i as int].selection_range.start));
        result.push(
            RenameCandidate {
                name: symbol.name.clone(),
                kind: symbol.kind,
                line: symbol.selection_range.start.line + 1,
                character: symbol.selection_range.start.character + 1,
                selection_range: symbol.selection_range,
            },
        );
        i = i + 1;
    }
    assert(result@ =~= symbols@.map_values(|symbol: FlatSymbol| candidate(symbol)));
    result
}

/// The symbols as things to rename; nothing where a position cannot be counted from one.
pub open spec fn candidates(symbols: Seq<FlatSymbol>) -> Option<Seq<RenameCandidate>> {
    if forall|i: int|
        0 <= i < symbols.len() ==> countable((#[trigger] symbols[i]).selection_range.start) {
        Some(symbols.map_values(|symbol: FlatSymbol| candidate(symbol)))
    } else {
        None
    }
}

/// Lists symbols as things to rename, where all their positions can be counted from one.
pub fn countable_candidates(symbols: &Vec<FlatSymbol>) -> (result: Option<Vec<RenameCandidate>>)
    ensures
        match candidates(symbols@) {
            Some(listed) => result is Some && result->0@ == listed,
            None => result is None,
        },
{
    let mut i: usize = 0;
    while i < symbols.len()
        invariant
            i <= symbols@.len(),
            forall|j: int|
                0 <= j < i ==> countable((#[trigger] symbols@[j]).selection_range.start),
        decreases symbols@.len() - i,
    {
        if !is_countable(symbols[i].selection_range.start) {
            return None;
        }
        i = i + 1;
    }
    Some(rename_candidates(symbols))
}

/// What a [`SymbolSearch`] is about.
pub ghost struct SymbolSearchView<E> {
    pub fetch: RetryView<FlatSymbol, E>,
    pub filter: SymbolFilter,
}

/// Looks for the symbols of a document that a filter means.
pub struct SymbolSearch<E> {
    fetch: Retry<FlatSymbol, E>,
    filter: SymbolFilter,
}

impl<E> View for SymbolSearch<E> {
    type V = SymbolSearchView<E>;

    closed spec fn view(&self) -> SymbolSearchView<E> {
        SymbolSearchView { fetch: self.fetch@, filter: self.filter }
    }
}

impl<E> SymbolSearch<E> {
    /// A search through what `fetch` brings.
    pub(crate) fn new(fetch: Retry<FlatSymbol, E>, filter: SymbolFilter) -> (search: Self)
        ensures
            search@ == (SymbolSearchView { fetch: fetch@, filter }),
    {
        SymbolSearch { fetch, filter }
    }

    /// What to ask the server.
    pub fn request(&self) -> (request: &FileRequest)
        ensures
            request@ == self@.fetch.request,
    {
        self.fetch.request()
    }

    /// Takes the server's list of symbols.
    pub fn resume(self, reply: Result<Vec<FlatSymbol>, E>) -> (step: Step<
        Self,
        Result<Vec<FlatSymbol>, E>,
    >)
        ensures
            self@.fetch.replies.len() < self@.fetch.policy.attempts(),
            ({
                let fetch = self@.fetch;
                let replies = fetch.replies.push(reply_view(reply));
                &&& step.waits() == retry_waits(fetch.policy, replies)
                &&& match retry_outcome(fetch.policy.attempts(), replies) {
                    Some(Ok(symbols)) => step.done() is Some && reply_view(step.done()->0) == Ok::<
                        Seq<FlatSymbol>,
                        E,
                    >(self@.filter.chosen(symbols)),
                    Some(Err(error)) => step.done() == Some(Err::<Vec<FlatSymbol>, E>(error)),
                    None => step.again() is Some && step.again()->0@ == (SymbolSearchView {
                        fetch: RetryView { replies, ..fetch },
                        ..self@
                    }),
                }
            }),
    {
        match self.fetch.resume(reply) {
            Step::Again { waits, op } => Step::Again {
                waits,
                op: SymbolSearch { fetch: op, filter: self.filter },
            },
            Step::Done { waits, result } => {
                let result: Result<Vec<FlatSymbol>, E> = match result {
                    Ok(symbols) => Ok(self.filter.choose_from(symbols)),
                    Err(error) => Err(error),
                };
                Step::Done { waits, result }
            },
        }
    }
}

/// Lists the symbols of a document that a filter means as things to rename.
pub struct CandidateSearch<E> {
    search: SymbolSearch<E>,
}

impl<E> View for CandidateSearch<E> {
    type V = SymbolSearchView<E>;

    closed spec fn view(&self) -> SymbolSearchView<E> {
        self.search@
    }
}

impl<E> CandidateSearch<E> {
    /// A list of what `search` finds.
    pub(crate) fn new(search: SymbolSearch<E>) -> (candidates: Self)
        ensures
            candidates@ == search@,
    {
        CandidateSearch { search }
    }

    /// What to ask the server.
    pub fn request(&self) -> (request: &FileRequest)
        ensures
            request@ == self@.fetch.request,
    {
        self.search.request()
    }

    /// Takes the server's list of symbols. There is no list of candidates where a position cannot
    /// be counted from one.
    pub fn resume(self, reply: Result<Vec<FlatSymbol>, E>) -> (step: Step<
        Self,
        Result<Option<Vec<RenameCandidate>>, E>,
    >)
        ensures
            self@.fetch.replies.len() < self@.fetch.policy.attempts(),
            ({
                let fetch = self@.fetch;
                let replies = fetch.replies.push(reply_view(reply));
                &&& step.waits() == retry_waits(fetch.policy, replies)
                &&& match retry_outcome(fetch.policy.attempts(), replies) {
                    Some(Ok(symbols)) => step.done() is Some && step.done()->0 is Ok
                        && match candidates(self@.filter.chosen(symbols)) {
                        Some(listed) => step.done()->0->Ok_0 is Some && step.done()->0->Ok_0->0@
                            == listed,
                        None => step.done()->0->Ok_0 is None,
                    },
                    Some(Err(error)) => step.done() == Some(
                        Err::<Option<Vec<RenameCandidate>>, E>(error),
                    ),
                    None => step.again() is Some && step.again()->0@ == (SymbolSearchView {
                        fetch: RetryView { replies, ..fetch },
                        ..self@
                    }),
                }
            }),
    {
        match self.search.resume(reply) {
            Step::Again { waits, op } => Step::Again { waits, op: CandidateSearch { search: op } },
            Step::Done { waits, result } => {
                let result: Result<Option<Vec<RenameCandidate>>, E> = match result {
                    Ok(symbols) => Ok(countable_candidates(&symbols)),
                    Err(error) => Err(error),
                };
                Step::Done { waits, result }
            },
        }
    }
}

/// What a [`SymbolListing`] is about.
pub ghost struct SymbolListingView<E> {
    pub fetch: RetryView<FlatSymbol, E>,
    pub max: usize,
}

/// Lists the symbols of a document.
pub struct SymbolListing<E> {
    fetch: Retry<FlatSymbol, E>,
    max: usize,
}

impl<E> View for SymbolListing<E> {
    type V = SymbolListingView<E>;

    closed spec fn view(&self) -> SymbolListingView<E> {
        SymbolListingView { fetch: self.fetch@, max: self.max }
    }
}

impl<E> SymbolListing<E> {
    /// A listing of what `fetch` brings.
    pub(crate) fn new(fetch: Retry<FlatSymbol, E>, max: usize) -> (listing: Self)
        ensures
            listing@ == (SymbolListingView { fetch: fetch@, max }),
    {
        SymbolListing { fetch, max }
    }

    /// What to ask the server.
    pub fn request(&self) -> (request: &FileRequest)
        ensures
            request@ == self@.fetch.request,
    {
        self.fetch.request()
    }

    /// Takes the server's list of symbols.
    pub fn resume(self, reply: Result<Vec<FlatSymbol>, E>) -> (step: Step<
        Self,
        Result<Vec<ResolvedSymbol>, E>,
    >)
        ensures
            self@.fetch.replies.len() < self@.fetch.policy.attempts(),
            ({
                let fetch = self@.fetch;
                let replies = fetch.replies.push(reply_view(reply));
                &&& step.waits() == retry_waits(fetch.policy, replies)
                &&& match retry_outcome(fetch.policy.attempts(), replies) {
                    Some(Ok(symbols)) => step.done() is Some && reply_view(step.done()->0) == Ok::<
                        Seq<ResolvedSymbol>,
                        E,
                    >(
                        up_to(symbols, at_least_one(self@.max)).map_values(
                            |symbol: FlatSymbol| reported(symbol),
                        ),
                    ),
                    Some(Err(error)) => step.done() == Some(Err::<Vec<ResolvedSymbol>, E>(error)),
                    None => step.again() is Some && step.again()->0@ == (SymbolListingView {
                        fetch: RetryView { replies, ..fetch },
                        ..self@
                    }),
                }
            }),
    {
        match self.fetch.resume(reply) {
            Step::Again { waits, op } => Step::Again {
                waits,
                op: SymbolListing { fetch: op, max: self.max },
            },
            Step::Done { waits, result } => {
                let result: Result<Vec<ResolvedSymbol>, E> = match result {
                    Ok(symbols) => Ok(report_symbols(&symbols, self.max)),
                    Err(error) => Err(error),
                };
                Step::Done { waits, result }
            },
        }
    }
}

/// The symbols that are chosen have the name and the kind, and there are no more than `max` of
/// them; where no more than `max` have the name and the kind, they are all chosen.
pub proof fn law_chosen_symbols_match(filter: SymbolFilter, symbols: Seq<FlatSymbol>)
    ensures
        filter.chosen(symbols).len() <= filter.max,
        forall|i: int|
            0 <= i < filter.chosen(symbols).len() ==> filter.matches(
                #[trigger] filter.chosen(symbols)[i],
            ) && symbols.contains(filter.chosen(symbols)[i]),
        symbols.filter(|symbol: FlatSymbol| filter.matches(symbol)).len() <= filter.max
            ==> forall|i: int|
            0 <= i < symbols.len() && filter.matches(#[trigger] symbols[i]) ==> filter.chosen(
                symbols,
            ).contains(symbols[i]),
{
    let wanted = |symbol: FlatSymbol| filter.matches(symbol);
    let matching = symbols.filter(wanted);
    let chosen = filter.chosen(symbols);
    assert forall|i: int| 0 <= i < chosen.len() implies filter.matches(#[trigger] chosen[i])
        && symbols.contains(chosen[i]) by {
        assert(chosen[i] == matching[i]);
        symbols.lemma_filter_pred(wanted, i);
        assert(matching.contains(matching[i]));
        symbols.lemma_filter_contains_rev(wanted, matching[i]);
    }
    assert forall|i: int|
        0 <= i < symbols.len() && filter.matches(#[trigger] symbols[i]) && matching.len()
            <= filter.max implies chosen.contains(symbols[i]) by {
        symbols.lemma_filter_contains(wanted, i);
        assert(chosen == matching);
    }
}

} // verus!
