//! What each operation asks and gives, from the caller's arguments to the result.

#[allow(unused_imports)]
use crate::calls::array_items;
use crate::calls::{CallDirection, CallHierarchyResult, CallOutcome, CallReply, CallWalk, CallsAt};
use crate::client::{GenericLspClient, OpenedFile};
use crate::definitions::{DefinitionMatch, DefinitionWalk, FindDefinitions};
use crate::delay::Delay;
#[allow(unused_imports)]
use crate::guarantees::calls::{law_calls_at_steps, law_calls_of_an_item_are_reported};
#[allow(unused_imports)]
use crate::guarantees::definitions::law_find_definitions_steps;
#[allow(unused_imports)]
use crate::guarantees::locations::{
    breaks_early, breaks_with, found, is_sound, law_locations_at_steps, law_references_at_steps,
};
#[allow(unused_imports)]
use crate::guarantees::references::law_find_references_steps;
#[allow(unused_imports)]
use crate::guarantees::symbols::{
    called, is_called, law_candidate_search_steps, law_symbol_listing_steps,
    reaches_the_end,
};
use crate::locations::LocationOutcome;
use crate::positions::{LocationsAt, ReferencesAt};
use crate::protocol::{
    FileRequest, FlatSymbol, LspPosition, Query, RenameCandidate, ResolvedSymbol, Step,
};
use crate::references::{FindReferences, ReferenceMatch, ReferenceWalk};
#[allow(unused_imports)]
use crate::retry::RetryPolicy;
use crate::retry::{PrepareRetry, Retry};
use crate::symbols::{CandidateSearch, SymbolListing};
use crate::workspace::{DiagnosticsPull, DiagnosticsWait, WorkspaceSearch};
#[allow(unused_imports)]
use vstd::math::{max, min};
use vstd::prelude::*;

verus! {

/// Whether a request asks a query about a file, by the path that the caller gave for it.
pub open spec fn is_about(request: &FileRequest, file: &OpenedFile, query: Query) -> bool {
    request.file@ == file@.file && request.query == query
}

proof fn lemma_called_have_name_and_kind(
    symbols: Seq<FlatSymbol>,
    name: Seq<char>,
    kind: Option<u32>,
    most: int,
)
    requires
        most >= 0,
    ensures
        forall|i: int|
            0 <= i < called(symbols, name, kind, most).len() ==> is_called(
                #[trigger] called(symbols, name, kind, most)[i],
                name,
                kind,
            ),
{
    let wanted = |symbol: FlatSymbol| is_called(symbol, name, kind);
    let all = symbols.filter(wanted);
    assert forall|i: int| 0 <= i < called(symbols, name, kind, most).len() implies is_called(
        #[trigger] called(symbols, name, kind, most)[i],
        name,
        kind,
    ) by {
        symbols.lemma_filter_pred(wanted, i);
        assert(called(symbols, name, kind, most)[i] == all[i]);
    }
}

/// Asking for the symbols of a file.
pub proof fn law_symbols_are_asked_for<E>(
    client: &GenericLspClient,
    file: &OpenedFile,
    fetch: Retry<FlatSymbol, E>,
    asked: &FileRequest,
)
    requires
        call_ensures(GenericLspClient::document_symbols_with_retry::<E>, (client, file), fetch),
        call_ensures(Retry::<FlatSymbol, E>::request, (&fetch,), asked),
    ensures
        is_about(asked, file, Query::DocumentSymbols),
        fetch@.policy == (RetryPolicy::Symbols { warmup: client@.warmup_delay }),
        fetch@.replies.len() == 0,
{
}

/// Asking for the definitions of what is at a position.
pub proof fn law_definition_values_are_asked_for<L, E>(
    client: &GenericLspClient,
    file: &OpenedFile,
    position: LspPosition,
    fetch: Retry<LocationOutcome<L, E>, E>,
    asked: &FileRequest,
)
    requires
        call_ensures(
            GenericLspClient::definition_values_with_retry::<L, E>,
            (client, file, position),
            fetch,
        ),
        call_ensures(Retry::<LocationOutcome<L, E>, E>::request, (&fetch,), asked),
    ensures
        is_about(asked, file, Query::Definition { position }),
        fetch@.policy == RetryPolicy::Locations,
        fetch@.replies.len() == 0,
{
}

/// Asking for the references to what is at a position.
pub proof fn law_reference_values_are_asked_for<L, E>(
    client: &GenericLspClient,
    file: &OpenedFile,
    position: LspPosition,
    include_declaration: bool,
    fetch: Retry<LocationOutcome<L, E>, E>,
    asked: &FileRequest,
)
    requires
        call_ensures(
            GenericLspClient::reference_values_with_retry::<L, E>,
            (client, file, position, include_declaration),
            fetch,
        ),
        call_ensures(Retry::<LocationOutcome<L, E>, E>::request, (&fetch,), asked),
    ensures
        is_about(asked, file, Query::References { position, include_declaration }),
        fetch@.policy == RetryPolicy::Locations,
        fetch@.replies.len() == 0,
{
}

/// Asking for the implementations of what is at a position.
pub proof fn law_implementation_values_are_asked_for<L, E>(
    client: &GenericLspClient,
    file: &OpenedFile,
    position: LspPosition,
    fetch: Retry<LocationOutcome<L, E>, E>,
    asked: &FileRequest,
)
    requires
        call_ensures(
            GenericLspClient::implementation_values_with_retry::<L, E>,
            (client, file, position),
            fetch,
        ),
        call_ensures(Retry::<LocationOutcome<L, E>, E>::request, (&fetch,), asked),
    ensures
        is_about(asked, file, Query::Implementation { position }),
        fetch@.policy == RetryPolicy::Locations,
        fetch@.replies.len() == 0,
{
}

/// Asking for the type definitions of what is at a position.
pub proof fn law_type_definition_values_are_asked_for<L, E>(
    client: &GenericLspClient,
    file: &OpenedFile,
    position: LspPosition,
    fetch: Retry<LocationOutcome<L, E>, E>,
    asked: &FileRequest,
)
    requires
        call_ensures(
            GenericLspClient::type_definition_values_with_retry::<L, E>,
            (client, file, position),
            fetch,
        ),
        call_ensures(Retry::<LocationOutcome<L, E>, E>::request, (&fetch,), asked),
    ensures
        is_about(asked, file, Query::TypeDefinition { position }),
        fetch@.policy == RetryPolicy::Locations,
        fetch@.replies.len() == 0,
{
}

/// Asking for the call hierarchy at a position.
pub proof fn law_call_hierarchy_is_asked_for<E>(
    client: &GenericLspClient,
    file: &OpenedFile,
    position: LspPosition,
    prepare: PrepareRetry<serde_json::Value, E>,
    asked: &FileRequest,
)
    requires
        call_ensures(
            GenericLspClient::prepare_call_hierarchy_with_retry::<E>,
            (client, file, position),
            prepare,
        ),
        call_ensures(PrepareRetry::<serde_json::Value, E>::request, (&prepare,), asked),
    ensures
        is_about(asked, file, Query::PrepareCallHierarchy { position }),
        prepare@.replies.len() == 0,
{
}

/// Finding definitions by name asks for the symbols of the file, and looks for the name, the kind
/// and the number of symbols that the caller gave.
pub proof fn law_find_definition_begins<E>(
    client: &GenericLspClient,
    file: OpenedFile,
    name: &str,
    kind: Option<u32>,
    most: usize,
    find: FindDefinitions<E>,
    asked: &FileRequest,
)
    requires
        call_ensures(
            GenericLspClient::find_definition_by_name::<E>,
            (client, file, name, kind, most),
            find,
        ),
        call_ensures(FindDefinitions::<E>::request, (&find,), asked),
    ensures
        is_about(asked, &file, Query::DocumentSymbols),
        find@.file == file@.file,
        find@.search.filter.name@ == name@,
        find@.search.filter.kind == kind,
        find@.search.filter.max == most,
        find@.search.fetch.policy == (RetryPolicy::Symbols { warmup: client@.warmup_delay }),
        find@.search.fetch.replies.len() == 0,
{
}

/// Once the server lists the symbols of the file, finding definitions by name walks through those
/// that have exactly the name and the kind that the caller gave, and asks first about the first of
/// them. Where there are none it is done, with no match.
pub proof fn law_definitions_of_the_name_are_looked_up<L, E>(
    client: &GenericLspClient,
    file: OpenedFile,
    name: &str,
    kind: Option<u32>,
    most: usize,
    find: FindDefinitions<E>,
    symbols: Vec<FlatSymbol>,
    step: Step<FindDefinitions<E>, Step<DefinitionWalk<L, E>, Result<Vec<DefinitionMatch<L>>, E>>>,
    asked: &FileRequest,
)
    requires
        symbols@.len() > 0,
        call_ensures(
            GenericLspClient::find_definition_by_name::<E>,
            (client, file, name, kind, most),
            find,
        ),
        call_ensures(
            FindDefinitions::<E>::resume::<L>,
            (find, Ok::<Vec<FlatSymbol>, E>(symbols)),
            step,
        ),
        step matches Step::Done { result: Step::Again { op, .. }, .. } ==> call_ensures(
            DefinitionWalk::<L, E>::request,
            (&op,),
            asked,
        ),
    ensures
        step matches Step::Done { waits, result } && {
            let chosen = called(symbols@, name@, kind, most as int);
            &&& waits@.len() == 0
            &&& match result {
                Step::Again { op, .. } => {
                    &&& op@.symbols == chosen
                    &&& forall|i: int|
                        0 <= i < op@.symbols.len() ==> {
                            &&& (#[trigger] op@.symbols[i]).name@ == name@
                            &&& kind matches Some(kind) ==> op@.symbols[i].kind == kind
                        }
                    &&& is_about(
                        asked,
                        &file,
                        Query::Definition { position: chosen[0].selection_range.start },
                    )
                },
                Step::Done { result, .. } => {
                    &&& chosen.len() == 0
                    &&& result is Ok
                    &&& result->Ok_0@.len() == 0
                },
            }
        },
{
    lemma_called_have_name_and_kind(symbols@, name@, kind, most as int);
    law_find_definitions_steps(find, Ok(symbols), step, Some(Ok(symbols@)));
}

/// Finding references by name asks for the symbols of the file, and looks for the name, the kind
/// and the number of symbols that the caller gave, with the caller's flag and number of references.
pub proof fn law_find_references_begins<E>(
    client: &GenericLspClient,
    file: OpenedFile,
    name: &str,
    kind: Option<u32>,
    include_declaration: bool,
    most: usize,
    most_references: usize,
    find: FindReferences<E>,
    asked: &FileRequest,
)
    requires
        call_ensures(
            GenericLspClient::find_references_by_name::<E>,
            (client, file, name, kind, include_declaration, most, most_references),
            find,
        ),
        call_ensures(FindReferences::<E>::request, (&find,), asked),
    ensures
        is_about(asked, &file, Query::DocumentSymbols),
        find@.file == file@.file,
        find@.search.filter.name@ == name@,
        find@.search.filter.kind == kind,
        find@.search.filter.max == most,
        find@.search.fetch.policy == (RetryPolicy::Symbols { warmup: client@.warmup_delay }),
        find@.search.fetch.replies.len() == 0,
        find@.include_declaration == include_declaration,
        find@.max_references == most_references,
{
}

/// Once the server lists the symbols of the file, finding references by name walks through those
/// that have exactly the name and the kind that the caller gave, and asks first about the first of
/// them: at the place of its name, and with its declaration exactly if the caller wanted it. Where
/// there are none it is done, with no match.
pub proof fn law_references_to_the_name_are_looked_up<L, E>(
    client: &GenericLspClient,
    file: OpenedFile,
    name: &str,
    kind: Option<u32>,
    include_declaration: bool,
    most: usize,
    most_references: usize,
    find: FindReferences<E>,
    symbols: Vec<FlatSymbol>,
    step: Step<FindReferences<E>, Step<ReferenceWalk<L, E>, Result<Vec<ReferenceMatch<L>>, E>>>,
    asked: &FileRequest,
)
    requires
        symbols@.len() > 0,
        call_ensures(
            GenericLspClient::find_references_by_name::<E>,
            (client, file, name, kind, include_declaration, most, most_references),
            find,
        ),
        call_ensures(
            FindReferences::<E>::resume::<L>,
            (find, Ok::<Vec<FlatSymbol>, E>(symbols)),
            step,
        ),
        step matches Step::Done { result: Step::Again { op, .. }, .. } ==> call_ensures(
            ReferenceWalk::<L, E>::request,
            (&op,),
            asked,
        ),
    ensures
        step matches Step::Done { waits, result } && {
            let chosen = called(symbols@, name@, kind, most as int);
            &&& waits@.len() == 0
            &&& match result {
                Step::Again { op, .. } => {
                    &&& op@.symbols == chosen
                    &&& op@.include_declaration == include_declaration
                    &&& op@.budget == max(1, most_references as int)
                    &&& forall|i: int|
                        0 <= i < op@.symbols.len() ==> {
                            &&& (#[trigger] op@.symbols[i]).name@ == name@
                            &&& kind matches Some(kind) ==> op@.symbols[i].kind == kind
                        }
                    &&& is_about(
                        asked,
                        &file,
                        Query::References {
                            position: chosen[0].selection_range.start,
                            include_declaration,
                        },
                    )
                },
                Step::Done { result, .. } => {
                    &&& chosen.len() == 0
                    &&& result is Ok
                    &&& result->Ok_0@.len() == 0
                },
            }
        },
{
    lemma_called_have_name_and_kind(symbols@, name@, kind, most as int);
    law_find_references_steps(find, Ok(symbols), step, Some(Ok(symbols@)));
}

/// The definitions of what is at a position are asked for at that position. Of the first answer the
/// first entries count, as many as the caller wants and at least one: the result is the locations
/// among them, or the error of the first that is none.
pub proof fn law_definition_at<L, E>(
    client: &GenericLspClient,
    file: OpenedFile,
    position: LspPosition,
    most: usize,
    at: LocationsAt<L, E>,
    asked: &FileRequest,
    answer: Vec<LocationOutcome<L, E>>,
    step: Step<LocationsAt<L, E>, Result<Vec<L>, E>>,
)
    requires
        call_ensures(
            GenericLspClient::definition_at::<L, E>,
            (client, file, position, most),
            at,
        ),
        call_ensures(LocationsAt::<L, E>::request, (&at,), asked),
        answer@.len() > 0,
        call_ensures(
            LocationsAt::<L, E>::resume,
            (at, Ok::<Vec<LocationOutcome<L, E>>, E>(answer)),
            step,
        ),
    ensures
        is_about(asked, &file, Query::Definition { position }),
        at@.fetch.policy == RetryPolicy::Locations,
        at@.fetch.replies.len() == 0,
        at@.max == most,
        step matches Step::Done { waits, result } && {
            let counting = answer@.take(min(answer@.len() as int, max(1, most as int)));
            &&& waits@.len() == 0
            &&& match result {
                Ok(locations) => is_sound(counting) && locations@ == found(counting),
                Err(error) => breaks_with(counting, error),
            }
        },
{
    law_locations_at_steps(at, Ok(answer), step, Some(Ok(answer@)));
}

/// The implementations of what is at a position are asked for at that position. Of the first
/// answer the first entries count, as many as the caller wants and at least one: the result is the
/// locations among them, or the error of the first that is none.
pub proof fn law_implementation_at<L, E>(
    client: &GenericLspClient,
    file: OpenedFile,
    position: LspPosition,
    most: usize,
    at: LocationsAt<L, E>,
    asked: &FileRequest,
    answer: Vec<LocationOutcome<L, E>>,
    step: Step<LocationsAt<L, E>, Result<Vec<L>, E>>,
)
    requires
        call_ensures(
            GenericLspClient::implementation_at::<L, E>,
            (client, file, position, most),
            at,
        ),
        call_ensures(LocationsAt::<L, E>::request, (&at,), asked),
        answer@.len() > 0,
        call_ensures(
            LocationsAt::<L, E>::resume,
            (at, Ok::<Vec<LocationOutcome<L, E>>, E>(answer)),
            step,
        ),
    ensures
        is_about(asked, &file, Query::Implementation { position }),
        at@.fetch.policy == RetryPolicy::Locations,
        at@.fetch.replies.len() == 0,
        at@.max == most,
        step matches Step::Done { waits, result } && {
            let counting = answer@.take(min(answer@.len() as int, max(1, most as int)));
            &&& waits@.len() == 0
            &&& match result {
                Ok(locations) => is_sound(counting) && locations@ == found(counting),
                Err(error) => breaks_with(counting, error),
            }
        },
{
    law_locations_at_steps(at, Ok(answer), step, Some(Ok(answer@)));
}

/// The type definitions of what is at a position are asked for at that position. Of the first
/// answer the first entries count, as many as the caller wants and at least one: the result is the
/// locations among them, or the error of the first that is none.
pub proof fn law_type_definition_at<L, E>(
    client: &GenericLspClient,
    file: OpenedFile,
    position: LspPosition,
    most: usize,
    at: LocationsAt<L, E>,
    asked: &FileRequest,
    answer: Vec<LocationOutcome<L, E>>,
    step: Step<LocationsAt<L, E>, Result<Vec<L>, E>>,
)
    requires
        call_ensures(
            GenericLspClient::type_definition_at::<L, E>,
            (client, file, position, most),
            at,
        ),
        call_ensures(LocationsAt::<L, E>::request, (&at,), asked),
        answer@.len() > 0,
        call_ensures(
            LocationsAt::<L, E>::resume,
            (at, Ok::<Vec<LocationOutcome<L, E>>, E>(answer)),
            step,
        ),
    ensures
        is_about(asked, &file, Query::TypeDefinition { position }),
        at@.fetch.policy == RetryPolicy::Locations,
        at@.fetch.replies.len() == 0,
        at@.max == most,
        step matches Step::Done { waits, result } && {
            let counting = answer@.take(min(answer@.len() as int, max(1, most as int)));
            &&& waits@.len() == 0
            &&& match result {
                Ok(locations) => is_sound(counting) && locations@ == found(counting),
                Err(error) => breaks_with(counting, error),
            }
        },
{
    law_locations_at_steps(at, Ok(answer), step, Some(Ok(answer@)));
}

/// The references to what is at a position are asked for at that position, with the declaration
/// exactly if the caller wanted it. The first answer is read until as many references were found as
/// the caller wants, and at least one; the result says whether an entry was left unread.
pub proof fn law_references_at<L, E>(
    client: &GenericLspClient,
    file: OpenedFile,
    position: LspPosition,
    include_declaration: bool,
    most: usize,
    at: ReferencesAt<L, E>,
    asked: &FileRequest,
    answer: Vec<LocationOutcome<L, E>>,
    step: Step<ReferencesAt<L, E>, Result<(Vec<L>, bool), E>>,
)
    requires
        call_ensures(
            GenericLspClient::references_at::<L, E>,
            (client, file, position, include_declaration, most),
            at,
        ),
        call_ensures(ReferencesAt::<L, E>::request, (&at,), asked),
        answer@.len() > 0,
        call_ensures(
            ReferencesAt::<L, E>::resume,
            (at, Ok::<Vec<LocationOutcome<L, E>>, E>(answer)),
            step,
        ),
    ensures
        is_about(asked, &file, Query::References { position, include_declaration }),
        at@.fetch.policy == RetryPolicy::Locations,
        at@.fetch.replies.len() == 0,
        at@.max == most,
        step matches Step::Done { waits, result } && {
            let limit = max(1, most as int);
            &&& waits@.len() == 0
            &&& match result {
                Ok((references, truncated)) => {
                    &&& references@ == found(answer@).take(min(found(answer@).len() as int, limit))
                    &&& truncated <==> exists|i: int|
                        0 <= i < answer@.len() && found(#[trigger] answer@.take(i)).len() >= limit
                },
                Err(error) => breaks_early(answer@, limit, error),
            }
        },
{
    law_references_at_steps(at, Ok(answer), step, Some(Ok(answer@)));
}

/// What to show for a position is asked for at that position.
pub proof fn law_hover_at(
    client: &GenericLspClient,
    file: OpenedFile,
    position: LspPosition,
    asked: FileRequest,
)
    requires
        call_ensures(GenericLspClient::hover_at, (client, file, position), asked),
    ensures
        is_about(&asked, &file, Query::Hover { position }),
{
}

/// The calls of what is at a position are looked for in the hierarchy at that position, in this
/// direction. Where the server prepares some items and gives calls for the first, the result is
/// that item with them: all where there are no more than the caller wants, else the first so many
/// and at least one.
pub proof fn law_incoming_calls_at<I, C, E>(
    client: &GenericLspClient,
    file: OpenedFile,
    position: LspPosition,
    most: usize,
    at: CallsAt<E>,
    asked: &FileRequest,
    prepared: serde_json::Value,
    step: Step<CallsAt<E>, Step<CallWalk<I, C, E>, Result<CallHierarchyResult<I, C>, E>>>,
    item: &serde_json::Value,
    direction: CallDirection,
    target: Option<I>,
    calls: Vec<C>,
    last: Step<CallWalk<I, C, E>, Result<CallHierarchyResult<I, C>, E>>,
)
    requires
        call_ensures(
            GenericLspClient::incoming_calls_at::<E>,
            (client, file, position, most),
            at,
        ),
        call_ensures(CallsAt::<E>::request, (&at,), asked),
        array_items(prepared) matches Some(items) && items.len() > 0,
        call_ensures(
            CallsAt::<E>::resume::<I, C>,
            (at, Ok::<serde_json::Value, E>(prepared)),
            step,
        ),
        calls@.len() > 0,
        step matches Step::Done { result: Step::Again { op, .. }, .. } ==> {
            &&& call_ensures(CallWalk::<I, C, E>::item, (&op,), item)
            &&& call_ensures(CallWalk::<I, C, E>::direction, (&op,), direction)
            &&& call_ensures(
                CallWalk::<I, C, E>::resume,
                (op, CallReply { target, outcome: CallOutcome::<C, E>::Parsed(calls) }),
                last,
            )
        },
    ensures
        is_about(asked, &file, Query::PrepareCallHierarchy { position }),
        step matches Step::Done { waits, result: Step::Again { .. } } && waits@.len() == 0,
        *item == array_items(prepared)->0[0],
        direction == CallDirection::Incoming,
        last matches Step::Done { waits, result: Ok(result) } && {
            &&& waits@.len() == 0
            &&& result.target == target
            &&& result.calls@ == calls@.take(min(calls@.len() as int, max(1, most as int)))
            &&& calls@.len() <= most ==> result.calls@ == calls@
        },
{
    law_calls_at_steps(at, Ok(prepared), step);
    if let Step::Done { result: Step::Again { op, .. }, .. } = step {
        law_calls_of_an_item_are_reported(op, target, calls, last);
    }
}

/// The calls that what is at a position makes are looked for in the hierarchy at that position, in
/// this direction. Where the server prepares some items and gives calls for the first, the result
/// is that item with them: all where there are no more than the caller wants, else the first so
/// many and at least one.
pub proof fn law_outgoing_calls_at<I, C, E>(
    client: &GenericLspClient,
    file: OpenedFile,
    position: LspPosition,
    most: usize,
    at: CallsAt<E>,
    asked: &FileRequest,
    prepared: serde_json::Value,
    step: Step<CallsAt<E>, Step<CallWalk<I, C, E>, Result<CallHierarchyResult<I, C>, E>>>,
    item: &serde_json::Value,
    direction: CallDirection,
    target: Option<I>,
    calls: Vec<C>,
    last: Step<CallWalk<I, C, E>, Result<CallHierarchyResult<I, C>, E>>,
)
    requires
        call_ensures(
            GenericLspClient::outgoing_calls_at::<E>,
            (client, file, position, most),
            at,
        ),
        call_ensures(CallsAt::<E>::request, (&at,), asked),
        array_items(prepared) matches Some(items) && items.len() > 0,
        call_ensures(
            CallsAt::<E>::resume::<I, C>,
            (at, Ok::<serde_json::Value, E>(prepared)),
            step,
        ),
        calls@.len() > 0,
        step matches Step::Done { result: Step::Again { op, .. }, .. } ==> {
            &&& call_ensures(CallWalk::<I, C, E>::item, (&op,), item)
            &&& call_ensures(CallWalk::<I, C, E>::direction, (&op,), direction)
            &&& call_ensures(
                CallWalk::<I, C, E>::resume,
                (op, CallReply { target, outcome: CallOutcome::<C, E>::Parsed(calls) }),
                last,
            )
        },
    ensures
        is_about(asked, &file, Query::PrepareCallHierarchy { position }),
        step matches Step::Done { waits, result: Step::Again { .. } } && waits@.len() == 0,
        *item == array_items(prepared)->0[0],
        direction == CallDirection::Outgoing,
        last matches Step::Done { waits, result: Ok(result) } && {
            &&& waits@.len() == 0
            &&& result.target == target
            &&& result.calls@ == calls@.take(min(calls@.len() as int, max(1, most as int)))
            &&& calls@.len() <= most ==> result.calls@ == calls@
        },
{
    law_calls_at_steps(at, Ok(prepared), step);
    if let Step::Done { result: Step::Again { op, .. }, .. } = step {
        law_calls_of_an_item_are_reported(op, target, calls, last);
    }
}

/// The symbols of a file are asked for and reported as they are: the first of the first answer, as
/// many as the caller wants and at least one.
pub proof fn law_document_symbols<E>(
    client: &GenericLspClient,
    file: OpenedFile,
    most: usize,
    listing: SymbolListing<E>,
    asked: &FileRequest,
    symbols: Vec<FlatSymbol>,
    step: Step<SymbolListing<E>, Result<Vec<ResolvedSymbol>, E>>,
)
    requires
        call_ensures(GenericLspClient::document_symbols::<E>, (client, file, most), listing),
        call_ensures(SymbolListing::<E>::request, (&listing,), asked),
        symbols@.len() > 0,
        call_ensures(
            SymbolListing::<E>::resume,
            (listing, Ok::<Vec<FlatSymbol>, E>(symbols)),
            step,
        ),
    ensures
        is_about(asked, &file, Query::DocumentSymbols),
        listing@.fetch.policy == (RetryPolicy::Symbols { warmup: client@.warmup_delay }),
        listing@.fetch.replies.len() == 0,
        listing@.max == most,
        step matches Step::Done { waits, result: Ok(shown) } && {
            &&& waits@.len() == 0
            &&& shown@.len() == min(symbols@.len() as int, max(1, most as int))
            &&& forall|i: int|
                0 <= i < shown@.len() ==> {
                    &&& (#[trigger] shown@[i]).name@ == symbols@[i].name@
                    &&& shown@[i].kind == symbols@[i].kind
                    &&& shown@[i].range == symbols@[i].range
                    &&& shown@[i].selection_range == symbols@[i].selection_range
                }
        },
{
    law_symbol_listing_steps(listing, Ok(symbols), step, Some(Ok(symbols@)));
}

/// The symbols of a name are asked for and listed as things to rename, at the place of each name
/// counted from one: those of the first answer that have exactly the name and the kind that the
/// caller gave, as many as the caller wants.
pub proof fn law_list_symbol_candidates<E>(
    client: &GenericLspClient,
    file: OpenedFile,
    name: &str,
    kind: Option<u32>,
    most: usize,
    search: CandidateSearch<E>,
    asked: &FileRequest,
    symbols: Vec<FlatSymbol>,
    step: Step<CandidateSearch<E>, Result<Option<Vec<RenameCandidate>>, E>>,
)
    requires
        call_ensures(
            GenericLspClient::list_symbol_candidates::<E>,
            (client, file, name, kind, most),
            search,
        ),
        call_ensures(CandidateSearch::<E>::request, (&search,), asked),
        symbols@.len() > 0,
        call_ensures(
            CandidateSearch::<E>::resume,
            (search, Ok::<Vec<FlatSymbol>, E>(symbols)),
            step,
        ),
    ensures
        is_about(asked, &file, Query::DocumentSymbols),
        search@.fetch.policy == (RetryPolicy::Symbols { warmup: client@.warmup_delay }),
        search@.fetch.replies.len() == 0,
        step matches Step::Done { waits, result: Ok(result) } && {
            let chosen = called(symbols@, name@, kind, most as int);
            &&& waits@.len() == 0
            &&& result is None <==> reaches_the_end(chosen)
            &&& result matches Some(listed) ==> {
                &&& listed@.len() == chosen.len()
                &&& forall|i: int|
                    0 <= i < listed@.len() ==> {
                        &&& (#[trigger] listed@[i]).name@ == name@
                        &&& kind matches Some(kind) ==> listed@[i].kind == kind
                        &&& listed@[i].line == chosen[i].selection_range.start.line + 1
                        &&& listed@[i].character == chosen[i].selection_range.start.character + 1
                        &&& listed@[i].selection_range == chosen[i].selection_range
                    }
            }
        },
{
    law_candidate_search_steps(search, Ok(symbols), step, Some(Ok(symbols@)));
    lemma_called_have_name_and_kind(symbols@, name@, kind, most as int);
    if let Step::Done { result: Ok(Some(listed)), .. } = step {
        let chosen = called(symbols@, name@, kind, most as int);
        assert forall|i: int| 0 <= i < listed@.len() implies {
            &&& (#[trigger] listed@[i]).name@ == name@
            &&& kind matches Some(kind) ==> listed@[i].kind == kind
        } by {
            assert(is_called(chosen[i], name@, kind));
        }
    }
}

/// A search of the workspace looks for what the caller gave, for no file.
pub proof fn law_workspace_symbols(
    client: &GenericLspClient,
    query: &str,
    most: usize,
    search: WorkspaceSearch,
    sought: &str,
    cold: Option<bool>,
)
    requires
        call_ensures(GenericLspClient::workspace_symbols, (client, query, most), search),
        call_ensures(WorkspaceSearch::query, (&search,), sought),
        call_ensures(WorkspaceSearch::cold, (&search,), cold),
    ensures
        sought@ == query@,
        cold is None,
        search@.max == most,
{
}

/// A search of the workspace for a file looks for what the caller gave, and says whether the server
/// heard of the file just now.
pub proof fn law_workspace_symbols_for_file(
    client: &GenericLspClient,
    file: OpenedFile,
    query: &str,
    most: usize,
    search: WorkspaceSearch,
    sought: &str,
    cold: Option<bool>,
)
    requires
        call_ensures(
            GenericLspClient::workspace_symbols_for_file,
            (client, file, query, most),
            search,
        ),
        call_ensures(WorkspaceSearch::query, (&search,), sought),
        call_ensures(WorkspaceSearch::cold, (&search,), cold),
    ensures
        sought@ == query@,
        cold == Some(file@.cold),
        search@.max == most,
{
}

/// The diagnostics of a file are asked for, and waited for where they cannot be asked for, for as
/// long as the caller said.
pub proof fn law_get_diagnostics<D, E>(
    client: &GenericLspClient,
    file: OpenedFile,
    max_wait: Delay,
    pull: DiagnosticsPull,
    asked: &FileRequest,
    step: Step<DiagnosticsWait, Result<Vec<D>, E>>,
    waited: &FileRequest,
)
    requires
        call_ensures(GenericLspClient::get_diagnostics, (client, file, max_wait), pull),
        call_ensures(DiagnosticsPull::request, (&pull,), asked),
        call_ensures(
            DiagnosticsPull::resume::<D, E>,
            (pull, Ok::<Option<Vec<D>>, E>(None)),
            step,
        ),
        step matches Step::Again { op, .. } ==> call_ensures(
            DiagnosticsWait::request,
            (&op,),
            waited,
        ),
    ensures
        is_about(asked, &file, Query::DocumentDiagnostics { max_wait }),
        step is Again,
        is_about(waited, &file, Query::WaitForDiagnosticsUpdate { max_wait }),
{
}

/// A rename is asked for at the position and with the name that the caller gave, whether the file
/// was prepared for it or before.
pub proof fn law_rename_at(
    client: &GenericLspClient,
    file: OpenedFile,
    path: Vec<u8>,
    position: LspPosition,
    name: &str,
    asked: FileRequest,
    asked_prepared: FileRequest,
)
    requires
        call_ensures(GenericLspClient::rename_at, (client, file, position, name), asked),
        call_ensures(
            GenericLspClient::rename_at_prepared,
            (client, path, position, name),
            asked_prepared,
        ),
    ensures
        asked.file@ == file@.file,
        asked_prepared.file@ == path@,
        asked.query matches Query::Rename { position: at, new_name } && at == position && new_name@
            == name@,
        asked_prepared.query matches Query::Rename { position: at, new_name } && at == position
            && new_name@ == name@,
{
}

} // verus!
