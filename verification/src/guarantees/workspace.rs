//! What a search of the workspace and a request for diagnostics give.

use crate::protocol::{FileRequest, Step};
use crate::workspace::{DiagnosticsPull, DiagnosticsWait, WorkspaceSearch};
#[allow(unused_imports)]
use vstd::math::{max, min};
use vstd::prelude::*;

verus! {

/// A search of the workspace gives the first symbols of the server's reply, as many as were asked
/// for and at least one; an error is handed on.
pub proof fn law_workspace_search_is_cut_off<W, E>(
    search: WorkspaceSearch,
    reply: Result<Vec<W>, E>,
    result: Result<Vec<W>, E>,
)
    requires
        call_ensures(WorkspaceSearch::finish::<W, E>, (search, reply), result),
    ensures
        match reply {
            Ok(symbols) => result is Ok && result->Ok_0@ == symbols@.take(
                min(symbols@.len() as int, max(1, search@.max as int)),
            ),
            Err(error) => result is Err && result->Err_0 == error,
        },
{
    if let Ok(symbols) = reply {
        assert(result->Ok_0@ =~= symbols@.take(
            min(symbols@.len() as int, max(1, search@.max as int)),
        ));
    }
}

/// Diagnostics that the server gives are the result, and so is its error; a server that cannot be
/// asked is waited for, and what it then publishes is the result.
pub proof fn law_diagnostics_are_handed_on<D, E>(
    pull: DiagnosticsPull,
    reply: Result<Option<Vec<D>>, E>,
    step: Step<DiagnosticsWait, Result<Vec<D>, E>>,
    asked: &FileRequest,
    waited: &FileRequest,
    published: Result<Vec<D>, E>,
    last: Step<DiagnosticsWait, Result<Vec<D>, E>>,
)
    requires
        call_ensures(DiagnosticsPull::request, (&pull,), asked),
        call_ensures(DiagnosticsPull::resume::<D, E>, (pull, reply), step),
        step matches Step::Again { op, .. } ==> {
            &&& call_ensures(DiagnosticsWait::request, (&op,), waited)
            &&& call_ensures(DiagnosticsWait::resume::<D, E>, (op, published), last)
        },
    ensures
        asked.file@ == pull@.request.file,
        asked.query == pull@.request.query,
        match reply {
            Ok(Some(diagnostics)) => step matches Step::Done { waits, result: Ok(given) }
                && waits@.len() == 0 && given == diagnostics,
            Ok(None) => {
                &&& step matches Step::Again { waits, .. } && waits@.len() == 0
                &&& waited.file@ == pull@.wait.file
                &&& waited.query == pull@.wait.query
                &&& last matches Step::Done { waits, result } && waits@.len() == 0 && result
                    == published
            },
            Err(error) => step matches Step::Done { waits, result: Err(given) } && waits@.len()
                == 0 && given == error,
        },
{
}

} // verus!
