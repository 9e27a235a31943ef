//! The values that travel between the client and a language server.

use crate::delay::Delay;
use vstd::prelude::*;

verus! {

/// A zero-based position in a document.
#[derive(Debug, Clone, Copy, PartialEq, Eq, Structural)]
pub struct LspPosition {
    pub line: u32,
    pub character: u32,
}

/// A half-open range of positions in a document.
#[derive(Debug, Clone, Copy, PartialEq, Eq, Structural)]
pub struct LspRange {
    pub start: LspPosition,
    pub end: LspPosition,
}

/// A symbol of a document, taken out of the tree that the server answered with.
#[derive(Debug, PartialEq, Eq)]
pub struct FlatSymbol {
    pub name: String,
    pub kind: u32,
    pub range: LspRange,
    pub selection_range: LspRange,
}

/// A symbol as it is reported to callers.
#[derive(Debug, PartialEq, Eq)]
pub struct ResolvedSymbol {
    pub name: String,
    pub kind: u32,
    pub range: LspRange,
    pub selection_range: LspRange,
}

/// A symbol that a rename may start from, with its one-based position.
#[derive(Debug, PartialEq, Eq)]
pub struct RenameCandidate {
    pub name: String,
    pub kind: u32,
    pub line: u32,
    pub character: u32,
    pub selection_range: LspRange,
}

/// What one file is asked about.
#[derive(Debug, PartialEq, Eq)]
pub enum Query {
    DocumentSymbols,
    Definition { position: LspPosition },
    References { position: LspPosition, include_declaration: bool },
    Implementation { position: LspPosition },
    TypeDefinition { position: LspPosition },
    Hover { position: LspPosition },
    PrepareCallHierarchy { position: LspPosition },
    Rename { position: LspPosition, new_name: String },
    DocumentDiagnostics { max_wait: Delay },
    WaitForDiagnosticsUpdate { max_wait: Delay },
}

/// A query about a file. The path is the one that the caller gave.
#[derive(Debug, PartialEq, Eq)]
pub struct FileRequest {
    pub file: Vec<u8>,
    pub query: Query,
}

/// A [`FileRequest`] with its path taken as a sequence.
pub ghost struct RequestView {
    pub file: Seq<u8>,
    pub query: Query,
}

impl View for FileRequest {
    type V = RequestView;

    open spec fn view(&self) -> RequestView {
        RequestView { file: self.file@, query: self.query }
    }
}

/// What an operation does after it was handed a reply: it waits for each of `waits` in turn,
/// then it either asks again or is done.
#[derive(Debug, PartialEq, Eq)]
pub enum Step<Op, Out> {
    Again { waits: Vec<Delay>, op: Op },
    Done { waits: Vec<Delay>, result: Out },
}

impl<Op, Out> Step<Op, Out> {
    /// The waits that come before what follows.
    pub open spec fn waits(self) -> Seq<Delay> {
        match self {
            Step::Again { waits, .. } => waits@,
            Step::Done { waits, .. } => waits@,
        }
    }

    /// The operation that asks again, where one does.
    pub open spec fn again(self) -> Option<Op> {
        match self {
            Step::Again { op, .. } => Some(op),
            Step::Done { .. } => None,
        }
    }

    /// The result, where there is one.
    pub open spec fn done(self) -> Option<Out> {
        match self {
            Step::Again { .. } => None,
            Step::Done { result, .. } => Some(result),
        }
    }
}

/// A list reply with its list taken as a sequence.
pub open spec fn reply_view<T, E>(reply: Result<Vec<T>, E>) -> Result<Seq<T>, E> {
    match reply {
        Ok(items) => Ok(items@),
        Err(error) => Err(error),
    }
}

} // verus!
