//! A language-server client: what it checks before it starts, and how it keeps the server's idea
//! of a file in step with the disk.
//!
//! Nothing here talks to a server. Each function says what to send next, and is handed what came
//! back.

use crate::delay::Delay;
#[allow(unused_imports)]
use crate::digest::fingerprint;
use crate::digest::sha256_hex;
#[allow(unused_imports)]
use crate::documents::Record;
use crate::documents::{copy_path, OpenFileState, OpenFiles};
#[allow(unused_imports)]
use crate::text::blank;
use crate::text::{decode, is_blank};
use std::collections::HashMap;
use vstd::prelude::*;
#[allow(unused_imports)]
use vstd::utf8::{decode_utf8, valid_utf8};

verus! {

/// [`std::path::PathBuf`], carried through and never looked into.
#[verifier::external_type_specification]
#[verifier::external_body]
pub struct ExPathBuf(std::path::PathBuf);

/// Cloning a [`std::path::PathBuf`] gives the same path.
pub assume_specification[ <std::path::PathBuf as Clone>::clone ](
    path: &std::path::PathBuf,
) -> (copy: std::path::PathBuf)
    ensures
        copy == *path,
;

/// [`serde_json::Value`], a JSON value.
#[verifier::external_type_specification]
#[verifier::external_body]
pub struct ExValue(serde_json::Value);

/// Cloning a [`serde_json::Value`] gives the same JSON value.
pub assume_specification[ <serde_json::Value as Clone>::clone ](
    value: &serde_json::Value,
) -> (copy: serde_json::Value)
    ensures
        copy == *value,
;

/// How to start a server and how to speak to it. `A` is what adapts the client to one server.
#[derive(Debug, Clone)]
pub struct GenericLspClientOptions<A> {
    pub command: String,
    pub args: Vec<String>,
    pub root_dir: std::path::PathBuf,
    pub process_cwd: std::path::PathBuf,
    pub env: HashMap<String, String>,
    pub workspace_folders: Vec<std::path::PathBuf>,
    pub adapter: A,
    pub initialize_timeout: Delay,
    pub request_timeout: Delay,
    pub request_timeout_overrides: HashMap<String, Delay>,
    pub language_id: String,
    pub warmup_delay: Delay,
    pub workspace_configuration: HashMap<String, serde_json::Value>,
    pub initialize_options: Option<serde_json::Value>,
    pub client_capabilities: Option<serde_json::Value>,
}

/// What the connection to the server is opened with.
#[derive(Debug)]
pub struct LspClientOptions<A> {
    pub command: String,
    pub args: Vec<String>,
    pub process_cwd: std::path::PathBuf,
    pub root_dir: std::path::PathBuf,
    pub env: HashMap<String, String>,
    pub workspace_folders: Vec<std::path::PathBuf>,
    pub adapter: A,
    pub initialize_timeout: Delay,
    pub request_timeout: Delay,
    pub request_timeout_overrides: HashMap<String, Delay>,
    pub workspace_configuration: HashMap<String, serde_json::Value>,
    pub initialize_options: Option<serde_json::Value>,
    pub client_capabilities: Option<serde_json::Value>,
}

/// Why a client does not start.
#[derive(Debug, Clone, Copy, PartialEq, Eq, Structural)]
pub enum StartError {
    EmptyCommand,
    EmptyLanguageId,
}

impl StartError {
    /// The error in words.
    pub open spec fn words(self) -> Seq<char> {
        match self {
            StartError::EmptyCommand => "generic LSP command must not be empty"@,
            StartError::EmptyLanguageId => "generic LSP language_id must not be empty"@,
        }
    }

    /// The error in words.
    pub fn message(&self) -> (text: &'static str)
        ensures
            text@ == self.words(),
    {
        match self {
            StartError::EmptyCommand => "generic LSP command must not be empty",
            StartError::EmptyLanguageId => "generic LSP language_id must not be empty",
        }
    }
}

/// The client's own settings.
#[derive(Debug)]
pub struct GenericLspClient {
    language_id: String,
    warmup_delay: Delay,
}

/// A client's settings as values.
pub ghost struct ClientView {
    pub language_id: Seq<char>,
    pub warmup_delay: Delay,
}

impl View for GenericLspClient {
    type V = ClientView;

    closed spec fn view(&self) -> ClientView {
        ClientView { language_id: self.language_id@, warmup_delay: self.warmup_delay }
    }
}

/// What is sent when the server has not heard of a file.
#[derive(Debug, PartialEq, Eq)]
pub struct DidOpen {
    pub path: Vec<u8>,
    pub language_id: String,
    pub version: i32,
    pub text: String,
}

/// What is sent when a file that the server knows has changed.
#[derive(Debug, PartialEq, Eq)]
pub struct DidChange {
    pub path: Vec<u8>,
    pub version: i32,
    pub text: String,
}

/// A file that is about to be opened at the server.
#[derive(Debug, PartialEq, Eq)]
pub struct PendingOpen {
    file: Vec<u8>,
    path: Vec<u8>,
    sha256: String,
}

/// A [`PendingOpen`] as values.
pub ghost struct PendingOpenView {
    pub file: Seq<u8>,
    pub path: Seq<u8>,
    pub sha256: Seq<char>,
}

impl View for PendingOpen {
    type V = PendingOpenView;

    closed spec fn view(&self) -> PendingOpenView {
        PendingOpenView { file: self.file@, path: self.path@, sha256: self.sha256@ }
    }
}

/// A file of which the server is about to get a new version.
pub struct PendingChange {
    file: Vec<u8>,
    path: Vec<u8>,
    known: Ghost<Map<Seq<u8>, Record>>,
}

/// A file that the server knows. Only preparing a file gives one, and it serves for one operation
/// on the file.
pub struct OpenedFile {
    file: Vec<u8>,
    path: Vec<u8>,
    cold: bool,
    known: Ghost<Map<Seq<u8>, Record>>,
}

/// An [`OpenedFile`] as values: the path that the caller gave, the canonical path, whether the
/// server heard of the file just now, and the documents that the server knew when the file had
/// been prepared.
pub ghost struct OpenedView {
    pub file: Seq<u8>,
    pub path: Seq<u8>,
    pub cold: bool,
    pub known: Map<Seq<u8>, Record>,
}

impl OpenedView {
    /// Whether the file is among the documents that the server knew.
    pub open spec fn is_known(self) -> bool {
        self.known.contains_key(self.path)
    }
}

impl View for PendingChange {
    type V = OpenedView;

    closed spec fn view(&self) -> OpenedView {
        OpenedView { file: self.file@, path: self.path@, cold: false, known: self.known@ }
    }
}

impl View for OpenedFile {
    type V = OpenedView;

    closed spec fn view(&self) -> OpenedView {
        OpenedView { file: self.file@, path: self.path@, cold: self.cold, known: self.known@ }
    }
}

impl PendingChange {
    #[verifier::type_invariant]
    closed spec fn is_known(self) -> bool {
        self.known@.contains_key(self.path@)
    }
}

impl OpenedFile {
    /// There is no such value for a file that the server does not know.
    #[verifier::type_invariant]
    closed spec fn is_known(self) -> bool {
        self.known@.contains_key(self.path@)
    }

    /// The path that the caller gave.
    pub fn file(&self) -> (file: &Vec<u8>)
        ensures
            file@ == self@.file,
            self@.is_known(),
    {
        proof {
            use_type_invariant(self);
        }
        &self.file
    }

    /// The canonical path.
    pub fn path(&self) -> (path: &Vec<u8>)
        ensures
            path@ == self@.path,
            self@.is_known(),
    {
        proof {
            use_type_invariant(self);
        }
        &self.path
    }

    /// Whether the server heard of the file just now, and so may still be indexing it.
    pub fn is_cold(&self) -> (cold: bool)
        ensures
            cold == self@.cold,
            self@.is_known(),
    {
        proof {
            use_type_invariant(self);
        }
        self.cold
    }
}

/// What bringing a file in step asks for.
#[allow(inconsistent_fields)]
pub enum SyncStep {
    /// The file is not text, for this reason: nothing is sent.
    NotUtf8(std::string::FromUtf8Error),
    /// The file has changed and its version cannot be counted up: nothing is sent.
    VersionOverflow,
    /// The server has to be told of the file.
    Open { pending: PendingOpen, message: DidOpen },
    /// The server has to be told of a new version.
    Change { pending: PendingChange, message: DidChange },
    /// The server knows the file as it is.
    Ready(OpenedFile),
}

/// A [`SyncStep`] as values.
#[allow(inconsistent_fields)]
pub ghost enum SyncView {
    NotUtf8,
    VersionOverflow,
    Open {
        pending: PendingOpenView,
        path: Seq<u8>,
        language_id: Seq<char>,
        version: int,
        text: Seq<char>,
    },
    Change { pending: OpenedView, path: Seq<u8>, version: int, text: Seq<char> },
    Ready(OpenedView),
}

impl View for SyncStep {
    type V = SyncView;

    open spec fn view(&self) -> SyncView {
        match self {
            SyncStep::NotUtf8(_) => SyncView::NotUtf8,
            SyncStep::VersionOverflow => SyncView::VersionOverflow,
            SyncStep::Open { pending, message } => SyncView::Open {
                pending: pending@,
                path: message.path@,
                language_id: message.language_id@,
                version: message.version as int,
                text: message.text@,
            },
            SyncStep::Change { pending, message } => SyncView::Change {
                pending: pending@,
                path: message.path@,
                version: message.version as int,
                text: message.text@,
            },
            SyncStep::Ready(opened) => SyncView::Ready(opened@),
        }
    }
}

/// A file that was opened just now, and how long the server is left alone with it.
pub struct FreshlyOpened {
    pub opened: OpenedFile,
    pub wait: Option<Delay>,
}

/// Whether the document at `path` is known with other contents than those with digest `sha256`.
pub open spec fn outdated(known: Map<Seq<u8>, Record>, path: Seq<u8>, sha256: Seq<char>) -> bool {
    known.contains_key(path) && known[path].sha256 != sha256
}

/// What bringing a file in step asks for, when its contents are `text` with digest `sha256` and
/// the server knows the documents `known`: to open it, if it is not among them; to send its next
/// version, if it is there with another digest; and nothing otherwise.
pub open spec fn sync_step(
    language_id: Seq<char>,
    known: Map<Seq<u8>, Record>,
    file: Seq<u8>,
    path: Seq<u8>,
    text: Seq<char>,
    sha256: Seq<char>,
) -> SyncView {
    if !known.contains_key(path) {
        SyncView::Open {
            pending: PendingOpenView { file, path, sha256 },
            path,
            language_id,
            version: 1,
            text,
        }
    } else if outdated(known, path, sha256) {
        SyncView::Change {
            pending: OpenedView { file, path, cold: false, known: synced(known, path, sha256) },
            path,
            version: known[path].version + 1,
            text,
        }
    } else {
        SyncView::Ready(OpenedView { file, path, cold: false, known })
    }
}

/// The documents that the server knows after a file was brought in step, but for one that it is
/// yet to open: a new version counts as known before it is sent.
pub open spec fn synced(known: Map<Seq<u8>, Record>, path: Seq<u8>, sha256: Seq<char>) -> Map<
    Seq<u8>,
    Record,
> {
    if outdated(known, path, sha256) {
        known.insert(path, Record { version: known[path].version + 1, sha256 })
    } else {
        known
    }
}

/// [`sync_step`] of a file with the bytes `content`, where they are text and the version can be
/// counted up.
pub open spec fn open_or_sync_step(
    language_id: Seq<char>,
    known: Map<Seq<u8>, Record>,
    file: Seq<u8>,
    path: Seq<u8>,
    content: Seq<u8>,
) -> SyncView {
    if !valid_utf8(content) {
        SyncView::NotUtf8
    } else if outdated(known, path, fingerprint(content)) && known[path].version == i32::MAX {
        SyncView::VersionOverflow
    } else {
        sync_step(language_id, known, file, path, decode_utf8(content), fingerprint(content))
    }
}

/// The documents that the server knows after [`open_or_sync_step`].
pub open spec fn open_or_synced(
    known: Map<Seq<u8>, Record>,
    path: Seq<u8>,
    content: Seq<u8>,
) -> Map<Seq<u8>, Record> {
    if !valid_utf8(content) || outdated(known, path, fingerprint(content)) && known[path].version
        == i32::MAX {
        known
    } else {
        synced(known, path, fingerprint(content))
    }
}

impl GenericLspClient {
    /// A client speaks of documents in a language that has a name.
    #[verifier::type_invariant]
    closed spec fn named(self) -> bool {
        !blank(self.language_id@)
    }

    /// Checks the options. Gives the client, the table of its documents, and what the connection
    /// to the server is opened with.
    pub fn start<A>(options: GenericLspClientOptions<A>) -> (started: Result<
        (GenericLspClient, OpenFiles, LspClientOptions<A>),
        StartError,
    >)
        ensures
            blank(options.command@) <==> started == Err::<
                (GenericLspClient, OpenFiles, LspClientOptions<A>),
                StartError,
            >(StartError::EmptyCommand),
            !blank(options.command@) && blank(options.language_id@) <==> started == Err::<
                (GenericLspClient, OpenFiles, LspClientOptions<A>),
                StartError,
            >(StartError::EmptyLanguageId),
            started matches Ok((client, files, launch)) ==> {
                &&& client@ == (ClientView {
                    language_id: options.language_id@,
                    warmup_delay: options.warmup_delay,
                })
                &&& files@ == Map::<Seq<u8>, Record>::empty()
                &&& launch == (LspClientOptions {
                    command: options.command,
                    args: options.args,
                    process_cwd: options.process_cwd,
                    root_dir: options.root_dir,
                    env: options.env,
                    workspace_folders: options.workspace_folders,
                    adapter: options.adapter,
                    initialize_timeout: options.initialize_timeout,
                    request_timeout: options.request_timeout,
                    request_timeout_overrides: options.request_timeout_overrides,
                    workspace_configuration: options.workspace_configuration,
                    initialize_options: options.initialize_options,
                    client_capabilities: options.client_capabilities,
                })
            },
    {
        if is_blank(options.command.as_str()) {
            return Err(StartError::EmptyCommand);
        }
        if is_blank(options.language_id.as_str()) {
            return Err(StartError::EmptyLanguageId);
        }
        let launch: LspClientOptions<A> = LspClientOptions {
            command: options.command,
            args: options.args,
            process_cwd: options.process_cwd,
            root_dir: options.root_dir,
            env: options.env,
            workspace_folders: options.workspace_folders,
            adapter: options.adapter,
            initialize_timeout: options.initialize_timeout,
            request_timeout: options.request_timeout,
            request_timeout_overrides: options.request_timeout_overrides,
            workspace_configuration: options.workspace_configuration,
            initialize_options: options.initialize_options,
            client_capabilities: options.client_capabilities,
        };
        let client: GenericLspClient = GenericLspClient {
            language_id: options.language_id,
            warmup_delay: options.warmup_delay,
        };
        Ok((client, OpenFiles::new(), launch))
    }

    /// How long a server is left alone after it heard of a file.
    pub fn warmup_delay(&self) -> (delay: Delay)
        ensures
            delay == self@.warmup_delay,
    {
        self.warmup_delay
    }

    /// Brings a file in step whose contents are `text`, with digest `sha256`.
    pub fn sync(
        &self,
        files: &mut OpenFiles,
        file: Vec<u8>,
        path: Vec<u8>,
        text: String,
        sha256: String,
    ) -> (step: SyncStep)
        requires
            outdated(old(files)@, path@, sha256@) ==> old(files)@[path@].version < i32::MAX,
        ensures
            step@ == sync_step(self@.language_id, old(files)@, file@, path@, text@, sha256@),
            final(files)@ == synced(old(files)@, path@, sha256@),
            step@ is Open ==> !blank(step@->language_id),
    {
        proof {
            use_type_invariant(self);
        }
        let known: Option<i32> = match files.get(&path) {
            None => {
                let message: DidOpen = DidOpen {
                    path: copy_path(&path),
                    language_id: self.language_id.clone(),
                    version: 1,
                    text,
                };
                return SyncStep::Open { pending: PendingOpen { file, path, sha256 }, message };
            },
            Some(state) => if state.last_sha256 == sha256 {
                None
            } else {
                Some(state.version)
            },
        };
        match known {
            None => SyncStep::Ready(
                OpenedFile { file, path, cold: false, known: Ghost(files@) },
            ),
            Some(version) => {
                let message: DidChange = DidChange {
                    path: copy_path(&path),
                    version: version + 1,
                    text,
                };
                files.insert(
                    copy_path(&path),
                    OpenFileState { version: version + 1, last_sha256: sha256 },
                );
                SyncStep::Change {
                    pending: PendingChange { file, path, known: Ghost(files@) },
                    message,
                }
            },
        }
    }

    /// Brings a file in step whose contents are the bytes `content`. `file` is its path as the
    /// caller gave it, `path` its canonical path.
    pub fn open_or_sync(
        &self,
        files: &mut OpenFiles,
        file: Vec<u8>,
        path: Vec<u8>,
        content: Vec<u8>,
    ) -> (step: SyncStep)
        ensures
            step@ == open_or_sync_step(self@.language_id, old(files)@, file@, path@, content@),
            final(files)@ == open_or_synced(old(files)@, path@, content@),
            step matches SyncStep::NotUtf8(error) ==> call_ensures(
                String::from_utf8,
                (content,),
                Err::<String, std::string::FromUtf8Error>(error),
            ),
            step@ is Open ==> !blank(step@->language_id),
    {
        let sha256: String = sha256_hex(content.as_slice());
        let text: String = match decode(content) {
            Ok(text) => text,
            Err(error) => {
                return SyncStep::NotUtf8(error);
            },
        };
        if let Some(state) = files.get(&path) {
            if state.last_sha256 != sha256 && state.version == i32::MAX {
                return SyncStep::VersionOverflow;
            }
        }
        self.sync(files, file, path, text, sha256)
    }

    /// Takes the outcome of telling the server of a file. The file counts as open only if that
    /// went well.
    pub fn opened<E>(
        &self,
        files: &mut OpenFiles,
        pending: PendingOpen,
        reply: Result<(), E>,
    ) -> (result: Result<FreshlyOpened, E>)
        ensures
            match reply {
                Ok(_) => {
                    &&& result is Ok
                    &&& result->Ok_0.opened@ == (OpenedView {
                        file: pending@.file,
                        path: pending@.path,
                        cold: true,
                        known: final(files)@,
                    })
                    &&& result->Ok_0.wait == if self@.warmup_delay.nanos == 0 {
                        None
                    } else {
                        Some(self@.warmup_delay)
                    }
                    &&& final(files)@ == old(files)@.insert(
                        pending@.path,
                        (Record { version: 1, sha256: pending@.sha256 }),
                    )
                },
                Err(error) => result == Err::<FreshlyOpened, E>(error) && final(files)@ == old(
                    files,
                )@,
            },
    {
        match reply {
            Ok(_) => {
                files.insert(
                    copy_path(&pending.path),
                    OpenFileState { version: 1, last_sha256: pending.sha256 },
                );
                let wait: Option<Delay> = if self.warmup_delay.is_zero() {
                    None
                } else {
                    Some(self.warmup_delay)
                };
                let opened: OpenedFile = OpenedFile {
                    file: pending.file,
                    path: pending.path,
                    cold: true,
                    known: Ghost(files@),
                };
                Ok(FreshlyOpened { opened, wait })
            },
            Err(error) => Err(error),
        }
    }

    /// Takes the outcome of sending the server a new version.
    pub fn changed<E>(&self, pending: PendingChange, reply: Result<(), E>) -> (result: Result<
        OpenedFile,
        E,
    >)
        ensures
            match reply {
                Ok(_) => result is Ok && result->Ok_0@ == pending@,
                Err(error) => result == Err::<OpenedFile, E>(error),
            },
    {
        match reply {
            Ok(_) => {
                proof {
                    use_type_invariant(&pending);
                }
                Ok(
                    OpenedFile {
                        file: pending.file,
                        path: pending.path,
                        cold: false,
                        known: pending.known,
                    },
                )
            },
            Err(error) => Err(error),
        }
    }
}

} // verus!
