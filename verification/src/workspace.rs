//! What is asked of the workspace as a whole, and the diagnostics of a file.

use crate::delay::Delay;
use crate::documents::copy_path;
#[allow(unused_imports)]
use crate::locations::{at_least_one, up_to};
use crate::locations::max_one;
#[allow(unused_imports)]
use crate::protocol::{reply_view, RequestView};
use crate::protocol::{FileRequest, Query, Step};
use vstd::prelude::*;

verus! {

/// A search through the symbols of the workspace. Where it was made for a file, it says whether
/// the server heard of that file just now: if so the search is repeated while the server is still
/// indexing.
#[derive(Debug)]
pub struct WorkspaceSearch {
    query: String,
    cold: Option<bool>,
    max: usize,
}

/// A [`WorkspaceSearch`] as values.
pub ghost struct WorkspaceSearchView {
    pub query: Seq<char>,
    pub cold: Option<bool>,
    pub max: usize,
}

impl View for WorkspaceSearch {
    type V = WorkspaceSearchView;

    closed spec fn view(&self) -> WorkspaceSearchView {
        WorkspaceSearchView { query: self.query@, cold: self.cold, max: self.max }
    }
}

impl WorkspaceSearch {
    /// A search for `query`.
    pub(crate) fn new(query: String, cold: Option<bool>, max: usize) -> (search: Self)
        ensures
            search@ == (WorkspaceSearchView { query: query@, cold, max }),
    {
        WorkspaceSearch { query, cold, max }
    }

    /// What to look for.
    pub fn query(&self) -> (query: &str)
        ensures
            query@ == self@.query,
    {
        self.query.as_str()
    }

    /// Whether the server heard just now of the file that the search was made for, where it was
    /// made for one.
    pub fn cold(&self) -> (cold: Option<bool>)
        ensures
            cold == self@.cold,
    {
        self.cold
    }

    /// Takes the server's list of symbols. The first `max` count, and at least one.
    pub fn finish<W, E>(self, reply: Result<Vec<W>, E>) -> (result: Result<Vec<W>, E>)
        ensures
            reply_view(result) == match reply_view(reply) {
                Ok(symbols) => Ok(up_to(symbols, at_least_one(self@.max))),
                Err(error) => Err(error),
            },
    {
        match reply {
            Ok(symbols) => {
                let ghost all = symbols@;
                let mut kept: Vec<W> = symbols;
                kept.truncate(max_one(self.max));
                assert(kept@ =~= up_to(all, at_least_one(self.max)));
                Ok(kept)
            },
            Err(error) => Err(error),
        }
    }
}

/// A request for the diagnostics of a file.
#[derive(Debug)]
pub struct DiagnosticsPull {
    request: FileRequest,
    wait: FileRequest,
}

/// The requests for the diagnostics of a file: the one that asks for them, and the one that waits
/// for the server to publish them.
pub ghost struct DiagnosticsView {
    pub request: RequestView,
    pub wait: RequestView,
}

impl View for DiagnosticsPull {
    type V = DiagnosticsView;

    closed spec fn view(&self) -> DiagnosticsView {
        DiagnosticsView { request: self.request@, wait: self.wait@ }
    }
}

/// Waiting for the server to publish the diagnostics of a file.
#[derive(Debug)]
pub struct DiagnosticsWait {
    request: FileRequest,
}

impl View for DiagnosticsWait {
    type V = RequestView;

    closed spec fn view(&self) -> RequestView {
        self.request@
    }
}

impl DiagnosticsPull {
    /// Asks for the diagnostics of the file at `file`, for at most `max_wait`.
    pub(crate) fn new(file: &Vec<u8>, max_wait: Delay) -> (pull: Self)
        ensures
            pull@ == (DiagnosticsView {
                request: RequestView {
                    file: file@,
                    query: Query::DocumentDiagnostics { max_wait },
                },
                wait: RequestView {
                    file: file@,
                    query: Query::WaitForDiagnosticsUpdate { max_wait },
                },
            }),
    {
        DiagnosticsPull {
            request: FileRequest {
                file: copy_path(file),
                query: Query::DocumentDiagnostics { max_wait },
            },
            wait: FileRequest {
                file: copy_path(file),
                query: Query::WaitForDiagnosticsUpdate { max_wait },
            },
        }
    }

    /// What to ask the server.
    pub fn request(&self) -> (request: &FileRequest)
        ensures
            request@ == self@.request,
    {
        &self.request
    }

    /// Takes the server's reply. A server that cannot be asked for diagnostics is waited for.
    pub fn resume<D, E>(self, reply: Result<Option<Vec<D>>, E>) -> (step: Step<
        DiagnosticsWait,
        Result<Vec<D>, E>,
    >)
        ensures
            step.waits() == Seq::<Delay>::empty(),
            match reply {
                Ok(Some(diagnostics)) => step.done() == Some(Ok::<Vec<D>, E>(diagnostics)),
                Ok(None) => step.again() is Some && step.again()->0@ == self@.wait,
                Err(error) => step.done() == Some(Err::<Vec<D>, E>(error)),
            },
    {
        let waits: Vec<Delay> = Vec::new();
        match reply {
            Ok(Some(diagnostics)) => Step::Done { waits, result: Ok(diagnostics) },
            Ok(None) => Step::Again { waits, op: DiagnosticsWait { request: self.wait } },
            Err(error) => Step::Done { waits, result: Err(error) },
        }
    }
}

impl DiagnosticsWait {
    /// What to ask the server.
    pub fn request(&self) -> (request: &FileRequest)
        ensures
            request@ == self@,
    {
        &self.request
    }

    /// Takes what the server published.
    pub fn resume<D, E>(self, reply: Result<Vec<D>, E>) -> (step: Step<Self, Result<Vec<D>, E>>)
        ensures
            step.waits() == Seq::<Delay>::empty(),
            step.done() == Some(reply),
    {
        Step::Done { waits: Vec::new(), result: reply }
    }
}

} // verus!
