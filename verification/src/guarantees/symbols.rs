//! Which symbols are meant, and how they are reported.

#[allow(unused_imports)]
use crate::guarantees::asking::{
    comes_to, law_replies_are_followed_by_waits, law_replies_come_to_their_outcome, pauses, times,
};
use crate::protocol::{
    FileRequest, FlatSymbol, LspPosition, RenameCandidate, ResolvedSymbol, Step,
};
#[allow(unused_imports)]
use crate::protocol::reply_view;
#[allow(unused_imports)]
use crate::symbols::{
    candidate, candidates, countable, countable_candidates, is_countable, rename_candidates, report,
    report_symbols, 
};
use crate::symbols::{CandidateSearch, SymbolFilter, SymbolListing, SymbolSearch};
#[allow(unused_imports)]
use vstd::math::{max, min};
use vstd::prelude::*;

verus! {

/// Whether a symbol has a name and, where one is given, a kind.
pub open spec fn is_called(symbol: FlatSymbol, name: Seq<char>, kind: Option<u32>) -> bool {
    symbol.name@ == name && match kind {
        Some(wanted) => symbol.kind == wanted,
        None => true,
    }
}

/// The symbols of a name and kind in their order, at most so many.
pub open spec fn called(
    symbols: Seq<FlatSymbol>,
    name: Seq<char>,
    kind: Option<u32>,
    most: int,
) -> Seq<FlatSymbol> {
    let all = symbols.filter(|symbol: FlatSymbol| is_called(symbol, name, kind));
    all.take(min(all.len() as int, most))
}

/// Whether a symbol is reported as it is: under its name, with its kind, from where it starts to
/// where it ends.
pub open spec fn is_shown(symbol: FlatSymbol, shown: ResolvedSymbol) -> bool {
    &&& shown.name@ == symbol.name@
    &&& shown.kind == symbol.kind
    &&& shown.range.start.line == symbol.range.start.line
    &&& shown.range.start.character == symbol.range.start.character
    &&& shown.range.end.line == symbol.range.end.line
    &&& shown.range.end.character == symbol.range.end.character
    &&& shown.selection_range.start.line == symbol.selection_range.start.line
    &&& shown.selection_range.start.character == symbol.selection_range.start.character
    &&& shown.selection_range.end.line == symbol.selection_range.end.line
    &&& shown.selection_range.end.character == symbol.selection_range.end.character
}

/// Whether a symbol is listed as it is: under its name, with its kind and the range that holds its
/// name, at the line and column of that range's start counted from one.
pub open spec fn is_listed(symbol: FlatSymbol, listed: RenameCandidate) -> bool {
    &&& listed.name@ == symbol.name@
    &&& listed.kind == symbol.kind
    &&& listed.line as int == symbol.selection_range.start.line as int + 1
    &&& listed.character as int == symbol.selection_range.start.character as int + 1
    &&& listed.selection_range.start.line == symbol.selection_range.start.line
    &&& listed.selection_range.start.character == symbol.selection_range.start.character
    &&& listed.selection_range.end.line == symbol.selection_range.end.line
    &&& listed.selection_range.end.character == symbol.selection_range.end.character
}

/// Whether each symbol is reported as it is, in its place.
pub open spec fn are_shown(symbols: Seq<FlatSymbol>, shown: Seq<ResolvedSymbol>) -> bool {
    &&& shown.len() == symbols.len()
    &&& forall|i: int| 0 <= i < symbols.len() ==> is_shown(symbols[i], #[trigger] shown[i])
}

/// Whether each symbol is listed as it is, in its place.
pub open spec fn are_listed(symbols: Seq<FlatSymbol>, listed: Seq<RenameCandidate>) -> bool {
    &&& listed.len() == symbols.len()
    &&& forall|i: int| 0 <= i < symbols.len() ==> is_listed(symbols[i], #[trigger] listed[i])
}

/// Whether some symbol starts at the last line or column that a number can tell, which has no
/// number when they are counted from one.
pub open spec fn reaches_the_end(symbols: Seq<FlatSymbol>) -> bool {
    exists|i: int|
        0 <= i < symbols.len() && ((#[trigger] symbols[i]).selection_range.start.line == u32::MAX
            || symbols[i].selection_range.start.character == u32::MAX)
}

/// Every symbol that is chosen has exactly the name and the kind that were asked for, and is one of
/// the document's; a symbol with that name and kind is left out only if as many as allowed were
/// chosen before it.
pub proof fn law_chosen_have_name_and_kind(
    filter: &SymbolFilter,
    symbols: Vec<FlatSymbol>,
    chosen: Vec<FlatSymbol>,
)
    requires
        call_ensures(SymbolFilter::choose_from, (filter, symbols), chosen),
    ensures
        chosen@ == called(symbols@, filter.name@, filter.kind, filter.max as int),
        chosen@.len() <= filter.max,
        forall|i: int|
            0 <= i < chosen@.len() ==> {
                &&& (#[trigger] chosen@[i]).name@ == filter.name@
                &&& filter.kind matches Some(kind) ==> chosen@[i].kind == kind
                &&& symbols@.contains(chosen@[i])
            },
        chosen@.len() < filter.max ==> forall|i: int|
            0 <= i < symbols@.len() && (#[trigger] symbols@[i]).name@ == filter.name@ && (
            filter.kind is None || filter.kind == Some(symbols@[i].kind)) ==> chosen@.contains(
                symbols@[i],
            ),
{
    lemma_chosen_are_called(*filter, symbols@);
    let wanted = |symbol: FlatSymbol| is_called(symbol, filter.name@, filter.kind);
    let all = symbols@.filter(wanted);
    assert forall|i: int| 0 <= i < chosen@.len() implies {
        &&& (#[trigger] chosen@[i]).name@ == filter.name@
        &&& filter.kind matches Some(kind) ==> chosen@[i].kind == kind
        &&& symbols@.contains(chosen@[i])
    } by {
        assert(chosen@[i] == all[i]);
        symbols@.lemma_filter_pred(wanted, i);
        assert(all.contains(all[i]));
        symbols@.lemma_filter_contains_rev(wanted, all[i]);
    }
    if chosen@.len() < filter.max {
        assert(chosen@ =~= all);
        assert forall|i: int|
            0 <= i < symbols@.len() && (#[trigger] symbols@[i]).name@ == filter.name@ && (
            filter.kind is None || filter.kind == Some(
                symbols@[i].kind,
            )) implies chosen@.contains(symbols@[i]) by {
            symbols@.lemma_filter_contains(wanted, i);
        }
    }
}

/// Symbols are chosen from the front: what is chosen from the beginning of a document is the
/// beginning of what is chosen from all of it.
pub proof fn law_symbols_are_chosen_from_the_front(
    filter: SymbolFilter,
    beginning: Seq<FlatSymbol>,
    rest: Seq<FlatSymbol>,
)
    ensures
        filter.chosen(beginning).is_prefix_of(filter.chosen(beginning + rest)),
        filter.chosen(beginning).len() < filter.max ==> filter.chosen(beginning + rest)
            == filter.chosen(beginning) + called(
            rest,
            filter.name@,
            filter.kind,
            filter.max - filter.chosen(beginning).len(),
        ),
{
    lemma_chosen_are_called(filter, beginning);
    lemma_chosen_are_called(filter, beginning + rest);
    let wanted = |symbol: FlatSymbol| is_called(symbol, filter.name@, filter.kind);
    Seq::filter_distributes_over_add(beginning, rest, wanted);
    assert((beginning + rest).filter(wanted) =~= beginning.filter(wanted) + rest.filter(wanted));
    if filter.chosen(beginning).len() < filter.max {
        assert(filter.chosen(beginning + rest) =~= filter.chosen(beginning) + called(
            rest,
            filter.name@,
            filter.kind,
            filter.max - filter.chosen(beginning).len(),
        ));
    }
}

pub(crate) proof fn lemma_chosen_are_called(filter: SymbolFilter, symbols: Seq<FlatSymbol>)
    ensures
        filter.chosen(symbols) == called(symbols, filter.name@, filter.kind, filter.max as int),
{
    let evaluated = |symbol: FlatSymbol| filter.matches(symbol);
    let wanted = |symbol: FlatSymbol| is_called(symbol, filter.name@, filter.kind);
    assert(evaluated =~= wanted);
    assert(filter.chosen(symbols) =~= called(
        symbols,
        filter.name@,
        filter.kind,
        filter.max as int,
    ));
}

/// A symbol is reported as it is.
pub proof fn law_symbol_is_reported_as_it_is(symbol: &FlatSymbol, shown: ResolvedSymbol)
    requires
        call_ensures(report, (symbol,), shown),
    ensures
        shown.name@ == symbol.name@,
        shown.kind == symbol.kind,
        shown.range == symbol.range,
        shown.selection_range == symbol.selection_range,
        is_shown(*symbol, shown),
{
}

/// The symbols of a document are reported as they are, each in its place: the first so many, and
/// one where none is asked for.
pub proof fn law_symbols_are_reported_as_they_are(
    symbols: &Vec<FlatSymbol>,
    most: usize,
    shown: Vec<ResolvedSymbol>,
)
    requires
        call_ensures(report_symbols, (symbols, most), shown),
    ensures
        shown@.len() == min(symbols@.len() as int, max(1, most as int)),
        forall|i: int|
            0 <= i < shown@.len() ==> {
                &&& (#[trigger] shown@[i]).name@ == symbols@[i].name@
                &&& shown@[i].kind == symbols@[i].kind
                &&& shown@[i].range == symbols@[i].range
                &&& shown@[i].selection_range == symbols@[i].selection_range
            },
{
}

/// A position can be counted from one exactly if neither number is the last.
pub proof fn law_countable_positions(position: LspPosition, result: bool)
    requires
        call_ensures(is_countable, (position,), result),
    ensures
        result <==> position.line <= u32::MAX - 1 && position.character <= u32::MAX - 1,
{
}

/// Things to rename are listed in the order of the symbols, at the start of each symbol's name
/// counted from one: symbols on neighbouring lines have neighbouring line numbers.
pub proof fn law_candidates_count_from_one(
    symbols: &Vec<FlatSymbol>,
    listed: Vec<RenameCandidate>,
)
    requires
        !reaches_the_end(symbols@),
        call_ensures(rename_candidates, (symbols,), listed),
    ensures
        are_listed(symbols@, listed@),
        forall|i: int|
            0 <= i < symbols@.len() ==> {
                &&& (#[trigger] listed@[i]).line == symbols@[i].selection_range.start.line + 1
                &&& listed@[i].character == symbols@[i].selection_range.start.character + 1
                &&& listed@[i].name@ == symbols@[i].name@
                &&& listed@[i].kind == symbols@[i].kind
                &&& listed@[i].selection_range == symbols@[i].selection_range
            },
        forall|i: int, j: int|
            0 <= i < symbols@.len() && 0 <= j < symbols@.len() ==> (#[trigger] listed@[i]).line - (
            #[trigger] listed@[j]).line == symbols@[i].selection_range.start.line
                - symbols@[j].selection_range.start.line,
{
    lemma_candidates_are_listed(symbols@, listed@);
}

/// Things to rename are listed unless one of them is at a position that cannot be counted from one.
pub proof fn law_candidates_are_listed_where_countable(
    symbols: &Vec<FlatSymbol>,
    result: Option<Vec<RenameCandidate>>,
)
    requires
        call_ensures(countable_candidates, (symbols,), result),
    ensures
        result is None <==> reaches_the_end(symbols@),
        result matches Some(listed) ==> are_listed(symbols@, listed@),
{
    if let Some(listed) = candidates(symbols@) {
        lemma_no_end_is_countable(symbols@);
        lemma_candidates_are_listed(symbols@, listed);
    } else {
        lemma_no_end_is_countable(symbols@);
    }
}

pub(crate) proof fn lemma_no_end_is_countable(symbols: Seq<FlatSymbol>)
    ensures
        candidates(symbols) is None <==> reaches_the_end(symbols),
{
    if !reaches_the_end(symbols) {
        assert forall|i: int| 0 <= i < symbols.len() implies countable(
            (#[trigger] symbols[i]).selection_range.start,
        ) by {}
    } else {
        let i = choose|i: int|
            0 <= i < symbols.len() && ((#[trigger] symbols[i]).selection_range.start.line
                == u32::MAX || symbols[i].selection_range.start.character == u32::MAX);
        assert(!countable(symbols[i].selection_range.start));
    }
}

pub(crate) proof fn lemma_candidates_are_listed(
    symbols: Seq<FlatSymbol>,
    listed: Seq<RenameCandidate>,
)
    requires
        !reaches_the_end(symbols),
        listed == symbols.map_values(|symbol: FlatSymbol| candidate(symbol)),
    ensures
        are_listed(symbols, listed),
{
    assert forall|i: int| 0 <= i < symbols.len() implies is_listed(
        symbols[i],
        #[trigger] listed[i],
    ) by {
        assert(listed[i] == candidate(symbols[i]));
        assert(symbols[i].selection_range.start.line != u32::MAX);
        assert(symbols[i].selection_range.start.character != u32::MAX);
    }
}

/// A search for symbols asks on like any request for symbols, and gives those of the name and kind
/// A search for symbols asks what it was made to ask.
pub proof fn law_symbol_search_asks<E>(search: SymbolSearch<E>, asked: &FileRequest)
    requires
        call_ensures(SymbolSearch::<E>::request, (&search,), asked),
    ensures
        asked.file@ == search@.fetch.request.file,
        asked.query == search@.fetch.request.query,
{
}

/// that it was made for.
pub proof fn law_symbol_search_steps<E>(
    search: SymbolSearch<E>,
    reply: Result<Vec<FlatSymbol>, E>,
    step: Step<SymbolSearch<E>, Result<Vec<FlatSymbol>, E>>,
    outcome: Option<Result<Seq<FlatSymbol>, E>>,
)
    requires
        call_ensures(SymbolSearch::<E>::resume, (search, reply), step),
        comes_to(
            times(search@.fetch.policy),
            search@.fetch.replies.push(
                match reply {
                    Ok(items) => Ok(items@),
                    Err(error) => Err(error),
                },
            ),
            outcome,
        ),
    ensures
        ({
            let replies = search@.fetch.replies.push(
                match reply {
                    Ok(items) => Ok(items@),
                    Err(error) => Err(error),
                },
            );
            match step {
                Step::Again { waits, op } => {
                    &&& outcome is None
                    &&& pauses(search@.fetch.policy, replies, waits@)
                    &&& op@.fetch.replies == replies
                    &&& op@.fetch.policy == search@.fetch.policy
                    &&& op@.fetch.request == search@.fetch.request
                    &&& op@.filter == search@.filter
                },
                Step::Done { waits, result } => {
                    &&& pauses(search@.fetch.policy, replies, waits@)
                    &&& match outcome {
                        Some(Ok(symbols)) => result is Ok && result->Ok_0@ == called(
                            symbols,
                            search@.filter.name@,
                            search@.filter.kind,
                            search@.filter.max as int,
                        ),
                        Some(Err(error)) => result is Err && result->Err_0 == error,
                        None => false,
                    }
                },
            }
        }),
{
    let replies = search@.fetch.replies.push(reply_view(reply));
    law_replies_come_to_their_outcome(search@.fetch.policy, replies, outcome);
    law_replies_are_followed_by_waits(search@.fetch.policy, replies);
    if let Some(Ok(symbols)) = outcome {
        lemma_chosen_are_called(search@.filter, symbols);
    }
}

/// A search for things to rename asks on like any request for symbols, and lists the symbols of the
/// A search for things to rename asks what it was made to ask.
pub proof fn law_candidate_search_asks<E>(search: CandidateSearch<E>, asked: &FileRequest)
    requires
        call_ensures(CandidateSearch::<E>::request, (&search,), asked),
    ensures
        asked.file@ == search@.fetch.request.file,
        asked.query == search@.fetch.request.query,
{
}

/// name and kind that it was made for, or nothing where one of them cannot be counted from one.
pub proof fn law_candidate_search_steps<E>(
    search: CandidateSearch<E>,
    reply: Result<Vec<FlatSymbol>, E>,
    step: Step<CandidateSearch<E>, Result<Option<Vec<RenameCandidate>>, E>>,
    outcome: Option<Result<Seq<FlatSymbol>, E>>,
)
    requires
        call_ensures(CandidateSearch::<E>::resume, (search, reply), step),
        comes_to(
            times(search@.fetch.policy),
            search@.fetch.replies.push(
                match reply {
                    Ok(items) => Ok(items@),
                    Err(error) => Err(error),
                },
            ),
            outcome,
        ),
    ensures
        ({
            let replies = search@.fetch.replies.push(
                match reply {
                    Ok(items) => Ok(items@),
                    Err(error) => Err(error),
                },
            );
            match step {
                Step::Again { waits, op } => {
                    &&& outcome is None
                    &&& pauses(search@.fetch.policy, replies, waits@)
                    &&& op@.fetch.replies == replies
                    &&& op@.fetch.policy == search@.fetch.policy
                    &&& op@.fetch.request == search@.fetch.request
                    &&& op@.filter == search@.filter
                },
                Step::Done { waits, result } => {
                    &&& pauses(search@.fetch.policy, replies, waits@)
                    &&& match outcome {
                        Some(Ok(symbols)) => {
                            let chosen = called(
                                symbols,
                                search@.filter.name@,
                                search@.filter.kind,
                                search@.filter.max as int,
                            );
                            &&& result is Ok
                            &&& result->Ok_0 is None <==> reaches_the_end(chosen)
                            &&& result->Ok_0 matches Some(listed) ==> are_listed(chosen, listed@)
                        },
                        Some(Err(error)) => result is Err && result->Err_0 == error,
                        None => false,
                    }
                },
            }
        }),
{
    let replies = search@.fetch.replies.push(reply_view(reply));
    law_replies_come_to_their_outcome(search@.fetch.policy, replies, outcome);
    law_replies_are_followed_by_waits(search@.fetch.policy, replies);
    if let Some(Ok(symbols)) = outcome {
        lemma_chosen_are_called(search@.filter, symbols);
        let chosen = search@.filter.chosen(symbols);
        lemma_no_end_is_countable(chosen);
        if let Some(listed) = candidates(chosen) {
            lemma_candidates_are_listed(chosen, listed);
        }
    }
}

/// A listing of symbols asks on like any request for symbols, and reports the first of them as they
/// A listing of symbols asks what it was made to ask.
pub proof fn law_symbol_listing_asks<E>(listing: SymbolListing<E>, asked: &FileRequest)
    requires
        call_ensures(SymbolListing::<E>::request, (&listing,), asked),
    ensures
        asked.file@ == listing@.fetch.request.file,
        asked.query == listing@.fetch.request.query,
{
}

/// are.
pub proof fn law_symbol_listing_steps<E>(
    listing: SymbolListing<E>,
    reply: Result<Vec<FlatSymbol>, E>,
    step: Step<SymbolListing<E>, Result<Vec<ResolvedSymbol>, E>>,
    outcome: Option<Result<Seq<FlatSymbol>, E>>,
)
    requires
        call_ensures(SymbolListing::<E>::resume, (listing, reply), step),
        comes_to(
            times(listing@.fetch.policy),
            listing@.fetch.replies.push(
                match reply {
                    Ok(items) => Ok(items@),
                    Err(error) => Err(error),
                },
            ),
            outcome,
        ),
    ensures
        ({
            let replies = listing@.fetch.replies.push(
                match reply {
                    Ok(items) => Ok(items@),
                    Err(error) => Err(error),
                },
            );
            match step {
                Step::Again { waits, op } => {
                    &&& outcome is None
                    &&& pauses(listing@.fetch.policy, replies, waits@)
                    &&& op@.fetch.replies == replies
                    &&& op@.fetch.policy == listing@.fetch.policy
                    &&& op@.fetch.request == listing@.fetch.request
                    &&& op@.max == listing@.max
                },
                Step::Done { waits, result } => {
                    &&& pauses(listing@.fetch.policy, replies, waits@)
                    &&& match outcome {
                        Some(Ok(symbols)) => result is Ok && are_shown(
                            symbols.take(
                                min(symbols.len() as int, max(1, listing@.max as int)),
                            ),
                            result->Ok_0@,
                        ),
                        Some(Err(error)) => result is Err && result->Err_0 == error,
                        None => false,
                    }
                },
            }
        }),
{
    let replies = listing@.fetch.replies.push(reply_view(reply));
    law_replies_come_to_their_outcome(listing@.fetch.policy, replies, outcome);
    law_replies_are_followed_by_waits(listing@.fetch.policy, replies);
}

} // verus!
