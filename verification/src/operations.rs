//! What a client can be asked to do with a file that the server knows.
//!
//! Each function gives the machine that does it, or the request where one request is all. An
//! operation on a file takes the [`OpenedFile`] and keeps it, so the file is brought in step anew
//! before each operation. What an operation is made of only borrows it.

use crate::calls::{CallDirection, CallsAt};
#[allow(unused_imports)]
use crate::calls::CallsAtView;
#[allow(unused_imports)]
use crate::client::{ClientView, OpenedView};
use crate::client::{GenericLspClient, OpenedFile};
use crate::definitions::FindDefinitions;
use crate::delay::Delay;
use crate::documents::copy_path;
use crate::locations::LocationOutcome;
#[allow(unused_imports)]
use crate::positions::LocationsAtView;
use crate::positions::{LocationsAt, ReferencesAt};
#[allow(unused_imports)]
use crate::protocol::RequestView;
use crate::protocol::{FileRequest, FlatSymbol, LspPosition, Query};
use crate::references::FindReferences;
#[allow(unused_imports)]
use crate::retry::{PrepareView, RetryView};
use crate::retry::{PrepareRetry, Retry, RetryPolicy};
#[allow(unused_imports)]
use crate::symbols::SymbolListingView;
use crate::symbols::{CandidateSearch, SymbolFilter, SymbolListing, SymbolSearch};
#[allow(unused_imports)]
use crate::workspace::{DiagnosticsView, WorkspaceSearchView};
use crate::workspace::{DiagnosticsPull, WorkspaceSearch};
use vstd::prelude::*;

verus! {

/// Asking for the symbols of a file, before there was a reply.
pub open spec fn symbols_fetch<E>(client: ClientView, file: OpenedView) -> RetryView<
    FlatSymbol,
    E,
> {
    RetryView {
        request: RequestView { file: file.file, query: Query::DocumentSymbols },
        policy: RetryPolicy::Symbols { warmup: client.warmup_delay },
        replies: Seq::empty(),
    }
}

/// Asking for locations in a file, before there was a reply.
pub open spec fn locations_fetch<L, E>(file: OpenedView, query: Query) -> RetryView<
    LocationOutcome<L, E>,
    E,
> {
    RetryView {
        request: RequestView { file: file.file, query },
        policy: RetryPolicy::Locations,
        replies: Seq::empty(),
    }
}

/// Preparing the call hierarchy at a position, before there was a reply.
pub open spec fn hierarchy_fetch<E>(file: OpenedView, position: LspPosition) -> PrepareView<
    serde_json::Value,
    E,
> {
    PrepareView {
        request: RequestView {
            file: file.file,
            query: Query::PrepareCallHierarchy { position },
        },
        replies: Seq::empty(),
    }
}

/// Whether a filter means the symbols of this name and kind, and no more than `max` of them.
pub open spec fn filters(
    filter: SymbolFilter,
    name: Seq<char>,
    kind: Option<u32>,
    max: usize,
) -> bool {
    filter.name@ == name && filter.kind == kind && filter.max == max
}

fn ask(file: &OpenedFile, query: Query) -> (request: FileRequest)
    ensures
        file@.is_known(),
        request@ == (RequestView { file: file@.file, query }),
{
    FileRequest { file: copy_path(file.file()), query }
}

fn filter(name: &str, kind: Option<u32>, max: usize) -> (filter: SymbolFilter)
    ensures
        filters(filter, name@, kind, max),
{
    SymbolFilter { name: name.to_owned(), kind, max }
}

impl GenericLspClient {
    /// Asks for the symbols of a file.
    pub fn document_symbols_with_retry<E>(&self, file: &OpenedFile) -> (fetch: Retry<FlatSymbol, E>)
        ensures
            file@.is_known(),
            fetch@ == symbols_fetch::<E>(self@, file@),
    {
        Retry::new(
            ask(file, Query::DocumentSymbols),
            RetryPolicy::Symbols { warmup: self.warmup_delay() },
        )
    }

    /// Asks for the definitions of what is at a position.
    pub fn definition_values_with_retry<L, E>(
        &self,
        file: &OpenedFile,
        position: LspPosition,
    ) -> (fetch: Retry<LocationOutcome<L, E>, E>)
        ensures
            file@.is_known(),
            fetch@ == locations_fetch::<L, E>(file@, Query::Definition { position }),
    {
        Retry::new(
            ask(file, Query::Definition { position }),
            RetryPolicy::Locations,
        )
    }

    /// Asks for the references to what is at a position.
    pub fn reference_values_with_retry<L, E>(
        &self,
        file: &OpenedFile,
        position: LspPosition,
        include_declaration: bool,
    ) -> (fetch: Retry<LocationOutcome<L, E>, E>)
        ensures
            file@.is_known(),
            fetch@ == locations_fetch::<L, E>(
                file@,
                Query::References { position, include_declaration },
            ),
    {
        Retry::new(
            ask(file, Query::References { position, include_declaration }),
            RetryPolicy::Locations,
        )
    }

    /// Asks for the implementations of what is at a position.
    pub fn implementation_values_with_retry<L, E>(
        &self,
        file: &OpenedFile,
        position: LspPosition,
    ) -> (fetch: Retry<LocationOutcome<L, E>, E>)
        ensures
            file@.is_known(),
            fetch@ == locations_fetch::<L, E>(file@, Query::Implementation { position }),
    {
        Retry::new(
            ask(file, Query::Implementation { position }),
            RetryPolicy::Locations,
        )
    }

    /// Asks for the type definitions of what is at a position.
    pub fn type_definition_values_with_retry<L, E>(
        &self,
        file: &OpenedFile,
        position: LspPosition,
    ) -> (fetch: Retry<LocationOutcome<L, E>, E>)
        ensures
            file@.is_known(),
            fetch@ == locations_fetch::<L, E>(file@, Query::TypeDefinition { position }),
    {
        Retry::new(
            ask(file, Query::TypeDefinition { position }),
            RetryPolicy::Locations,
        )
    }

    /// Asks for the call hierarchy at a position.
    pub fn prepare_call_hierarchy_with_retry<E>(
        &self,
        file: &OpenedFile,
        position: LspPosition,
    ) -> (prepare: PrepareRetry<serde_json::Value, E>)
        ensures
            file@.is_known(),
            prepare@ == hierarchy_fetch::<E>(file@, position),
    {
        PrepareRetry::new(ask(file, Query::PrepareCallHierarchy { position }))
    }

    /// Finds where the symbols of a name are defined.
    pub fn find_definition_by_name<E>(
        &self,
        file: OpenedFile,
        symbol_name: &str,
        symbol_kind: Option<u32>,
        max_symbols: usize,
    ) -> (find: FindDefinitions<E>)
        ensures
            file@.is_known(),
            find@.file == file@.file,
            find@.search.fetch == symbols_fetch::<E>(self@, file@),
            filters(find@.search.filter, symbol_name@, symbol_kind, max_symbols),
    {
        FindDefinitions::new(
            copy_path(file.file()),
            self.search_symbols(&file, symbol_name, symbol_kind, max_symbols),
        )
    }

    /// Finds what refers to the symbols of a name.
    pub fn find_references_by_name<E>(
        &self,
        file: OpenedFile,
        symbol_name: &str,
        symbol_kind: Option<u32>,
        include_declaration: bool,
        max_symbols: usize,
        max_references: usize,
    ) -> (find: FindReferences<E>)
        ensures
            file@.is_known(),
            find@.file == file@.file,
            find@.search.fetch == symbols_fetch::<E>(self@, file@),
            filters(find@.search.filter, symbol_name@, symbol_kind, max_symbols),
            find@.include_declaration == include_declaration,
            find@.max_references == max_references,
    {
        FindReferences::new(
            copy_path(file.file()),
            self.search_symbols(&file, symbol_name, symbol_kind, max_symbols),
            include_declaration,
            max_references,
        )
    }

    /// Lists the definitions of what is at a position.
    pub fn definition_at<L, E>(
        &self,
        file: OpenedFile,
        position: LspPosition,
        max_definitions: usize,
    ) -> (at: LocationsAt<L, E>)
        ensures
            file@.is_known(),
            at@ == (LocationsAtView {
                fetch: locations_fetch::<L, E>(file@, Query::Definition { position }),
                max: max_definitions,
            }),
    {
        LocationsAt::new(self.definition_values_with_retry(&file, position), max_definitions)
    }

    /// Lists the implementations of what is at a position.
    pub fn implementation_at<L, E>(
        &self,
        file: OpenedFile,
        position: LspPosition,
        max_results: usize,
    ) -> (at: LocationsAt<L, E>)
        ensures
            file@.is_known(),
            at@ == (LocationsAtView {
                fetch: locations_fetch::<L, E>(file@, Query::Implementation { position }),
                max: max_results,
            }),
    {
        LocationsAt::new(self.implementation_values_with_retry(&file, position), max_results)
    }

    /// Lists the type definitions of what is at a position.
    pub fn type_definition_at<L, E>(
        &self,
        file: OpenedFile,
        position: LspPosition,
        max_results: usize,
    ) -> (at: LocationsAt<L, E>)
        ensures
            file@.is_known(),
            at@ == (LocationsAtView {
                fetch: locations_fetch::<L, E>(file@, Query::TypeDefinition { position }),
                max: max_results,
            }),
    {
        LocationsAt::new(self.type_definition_values_with_retry(&file, position), max_results)
    }

    /// Lists the references to what is at a position.
    pub fn references_at<L, E>(
        &self,
        file: OpenedFile,
        position: LspPosition,
        include_declaration: bool,
        max_references: usize,
    ) -> (at: ReferencesAt<L, E>)
        ensures
            file@.is_known(),
            at@ == (LocationsAtView {
                fetch: locations_fetch::<L, E>(
                    file@,
                    Query::References { position, include_declaration },
                ),
                max: max_references,
            }),
    {
        ReferencesAt::new(
            self.reference_values_with_retry(&file, position, include_declaration),
            max_references,
        )
    }

    /// Asks what to show for a position.
    pub fn hover_at(&self, file: OpenedFile, position: LspPosition) -> (request: FileRequest)
        ensures
            file@.is_known(),
            request@ == (RequestView { file: file@.file, query: Query::Hover { position } }),
    {
        ask(&file, Query::Hover { position })
    }

    /// Lists the calls of what is at a position.
    pub fn incoming_calls_at<E>(
        &self,
        file: OpenedFile,
        position: LspPosition,
        max_results: usize,
    ) -> (at: CallsAt<E>)
        ensures
            file@.is_known(),
            at@ == (CallsAtView {
                prepare: hierarchy_fetch::<E>(file@, position),
                direction: CallDirection::Incoming,
                max: max_results,
            }),
    {
        CallsAt::new(
            self.prepare_call_hierarchy_with_retry(&file, position),
            CallDirection::Incoming,
            max_results,
        )
    }

    /// Lists the calls that what is at a position makes.
    pub fn outgoing_calls_at<E>(
        &self,
        file: OpenedFile,
        position: LspPosition,
        max_results: usize,
    ) -> (at: CallsAt<E>)
        ensures
            file@.is_known(),
            at@ == (CallsAtView {
                prepare: hierarchy_fetch::<E>(file@, position),
                direction: CallDirection::Outgoing,
                max: max_results,
            }),
    {
        CallsAt::new(
            self.prepare_call_hierarchy_with_retry(&file, position),
            CallDirection::Outgoing,
            max_results,
        )
    }

    /// Lists the symbols of a file.
    pub fn document_symbols<E>(&self, file: OpenedFile, max_symbols: usize) -> (listing:
        SymbolListing<E>)
        ensures
            file@.is_known(),
            listing@ == (SymbolListingView {
                fetch: symbols_fetch::<E>(self@, file@),
                max: max_symbols,
            }),
    {
        SymbolListing::new(self.document_symbols_with_retry(&file), max_symbols)
    }

    /// Searches the symbols of the workspace.
    pub fn workspace_symbols(&self, query: &str, max_results: usize) -> (search: WorkspaceSearch)
        ensures
            search@ == (WorkspaceSearchView { query: query@, cold: None, max: max_results }),
    {
        WorkspaceSearch::new(query.to_owned(), None, max_results)
    }

    /// Searches the symbols of the workspace, for someone who looks at `file`.
    pub fn workspace_symbols_for_file(
        &self,
        file: OpenedFile,
        query: &str,
        max_results: usize,
    ) -> (search: WorkspaceSearch)
        ensures
            file@.is_known(),
            search@ == (WorkspaceSearchView {
                query: query@,
                cold: Some(file@.cold),
                max: max_results,
            }),
    {
        WorkspaceSearch::new(query.to_owned(), Some(file.is_cold()), max_results)
    }

    /// Lists what is wrong with a file.
    pub fn get_diagnostics(&self, file: OpenedFile, max_wait: Delay) -> (pull: DiagnosticsPull)
        ensures
            file@.is_known(),
            pull@ == (DiagnosticsView {
                request: RequestView {
                    file: file@.file,
                    query: Query::DocumentDiagnostics { max_wait },
                },
                wait: RequestView {
                    file: file@.file,
                    query: Query::WaitForDiagnosticsUpdate { max_wait },
                },
            }),
    {
        DiagnosticsPull::new(file.file(), max_wait)
    }

    /// Lists the symbols of a name as things to rename.
    pub fn list_symbol_candidates<E>(
        &self,
        file: OpenedFile,
        symbol_name: &str,
        symbol_kind: Option<u32>,
        max_symbols: usize,
    ) -> (search: CandidateSearch<E>)
        ensures
            file@.is_known(),
            search@.fetch == symbols_fetch::<E>(self@, file@),
            filters(search@.filter, symbol_name@, symbol_kind, max_symbols),
    {
        CandidateSearch::new(self.search_symbols(&file, symbol_name, symbol_kind, max_symbols))
    }

    fn search_symbols<E>(
        &self,
        file: &OpenedFile,
        symbol_name: &str,
        symbol_kind: Option<u32>,
        max_symbols: usize,
    ) -> (search: SymbolSearch<E>)
        ensures
            file@.is_known(),
            search@.fetch == symbols_fetch::<E>(self@, file@),
            filters(search@.filter, symbol_name@, symbol_kind, max_symbols),
    {
        SymbolSearch::new(
            self.document_symbols_with_retry(file),
            filter(symbol_name, symbol_kind, max_symbols),
        )
    }

    /// Asks how to rename what is at a position.
    pub fn rename_at(&self, file: OpenedFile, position: LspPosition, new_name: &str) -> (request:
        FileRequest)
        ensures
            file@.is_known(),
            request@.file == file@.file,
            request@.query matches Query::Rename { position: at, new_name: name } && at == position
                && name@ == new_name@,
    {
        self.rename_at_prepared(copy_path(file.file()), position, new_name)
    }

    /// Asks how to rename what is at a position of a file that was prepared before.
    pub fn rename_at_prepared(
        &self,
        file_path: Vec<u8>,
        position: LspPosition,
        new_name: &str,
    ) -> (request: FileRequest)
        ensures
            request@.file == file_path@,
            request@.query matches Query::Rename { position: at, new_name: name } && at == position
                && name@ == new_name@,
    {
        FileRequest {
            file: file_path,
            query: Query::Rename { position, new_name: new_name.to_owned() },
        }
    }
}

} // verus!
