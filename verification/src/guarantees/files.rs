//! How a client starts, and what it tells the server of a file.

use crate::client::{
    DidChange, DidOpen, FreshlyOpened, GenericLspClient, GenericLspClientOptions, LspClientOptions,
    OpenedFile, PendingChange, PendingOpen, StartError, SyncStep,
};
use crate::delay::Delay;
#[allow(unused_imports)]
use crate::digest::{hex, hex_digit, sha256_digest, sha256_hex, to_hex};
#[allow(unused_imports)]
use crate::documents::Record;
use crate::documents::{OpenFileState, OpenFiles};
#[allow(unused_imports)]
use crate::text::{blank, decode, is_blank, white_space};
use vstd::prelude::*;
#[allow(unused_imports)]
use vstd::utf8::{decode_utf8, valid_utf8};

verus! {

/// Whether a number is that of a control character that moves the cursor or of a space in Unicode.
pub open spec fn is_space(code: int) -> bool {
    ||| 9 <= code <= 13
    ||| code == 32
    ||| code == 133
    ||| code == 160
    ||| code == 5760
    ||| 8192 <= code <= 8202
    ||| code == 8232
    ||| code == 8233
    ||| code == 8239
    ||| code == 8287
    ||| code == 12288
}

/// Whether a text has a character that is no space.
pub open spec fn says_something(text: Seq<char>) -> bool {
    exists|i: int| 0 <= i < text.len() && !is_space((#[trigger] text[i]) as int)
}

/// Whether a text is the hexadecimal form of some bytes: two digits for each, the higher one first.
pub open spec fn spells(text: Seq<char>, bytes: Seq<u8>) -> bool {
    &&& text.len() == 2 * bytes.len()
    &&& forall|i: int|
        0 <= i < bytes.len() ==> {
            &&& #[trigger] text[2 * i] == "0123456789abcdef"@[bytes[i] as int / 16]
            &&& text[2 * i + 1] == "0123456789abcdef"@[bytes[i] as int % 16]
        }
}

/// A text is blank exactly if it says nothing.
pub proof fn law_blank_texts_say_nothing(text: &str, result: bool)
    requires
        call_ensures(is_blank, (text,), result),
    ensures
        result <==> !says_something(text@),
{
    lemma_blank_says_nothing(text@);
}

proof fn lemma_blank_says_nothing(text: Seq<char>)
    ensures
        blank(text) <==> !says_something(text),
{
    if !says_something(text) {
        assert forall|i: int| 0 <= i < text.len() implies white_space(#[trigger] text[i]) by {
            assert(is_space(text[i] as int));
        }
    } else {
        let i = choose|i: int| 0 <= i < text.len() && !is_space((#[trigger] text[i]) as int);
        assert(!white_space(text[i]));
    }
}

/// Bytes are decoded exactly if they are UTF-8, to the text that they encode.
pub proof fn law_text_is_decoded(
    bytes: Vec<u8>,
    result: Result<String, std::string::FromUtf8Error>,
)
    requires
        call_ensures(decode, (bytes,), result),
    ensures
        match result {
            Ok(text) => valid_utf8(bytes@) && text@ == decode_utf8(bytes@),
            Err(_) => !valid_utf8(bytes@),
        },
{
}

proof fn lemma_hex_spells(bytes: Seq<u8>)
    ensures
        spells(hex(bytes), bytes),
    decreases bytes.len(),
{
    if bytes.len() > 0 {
        let earlier = bytes.drop_last();
        lemma_hex_spells(earlier);
        let (text, written) = (hex(bytes), hex(earlier));
        let n = earlier.len() as int;
        reveal_strlit("0123456789abcdef");
        lemma_hex_digits(bytes.last() as int / 16);
        lemma_hex_digits(bytes.last() as int % 16);
        assert forall|i: int| 0 <= i < bytes.len() implies {
            &&& #[trigger] text[2 * i] == "0123456789abcdef"@[bytes[i] as int / 16]
            &&& text[2 * i + 1] == "0123456789abcdef"@[bytes[i] as int % 16]
        } by {
            if i < n {
                assert(bytes[i] == earlier[i]);
                assert(text[2 * i] == written[2 * i]);
                assert(text[2 * i + 1] == written[2 * i + 1]);
            }
        }
    }
}

proof fn lemma_one_spelling(left: Seq<char>, right: Seq<char>, bytes: Seq<u8>)
    requires
        spells(right, bytes),
    ensures
        spells(left, bytes) <==> left == right,
{
    if spells(left, bytes) {
        assert forall|k: int| 0 <= k < left.len() implies left[k] == right[k] by {
            let i = k / 2;
            assert(left[2 * i] == right[2 * i]);
            assert(left[2 * i + 1] == right[2 * i + 1]);
        }
        assert(left =~= right);
    }
}

proof fn lemma_hex_digits(digit: int)
    requires
        0 <= digit < 16,
    ensures
        hex_digit(digit) == "0123456789abcdef"@[digit],
{
    reveal_strlit("0123456789abcdef");
}

/// Bytes are written in lower-case hexadecimal, and so is the SHA-256 digest of contents.
pub proof fn law_digests_are_hexadecimal(
    bytes: &Vec<u8>,
    text: String,
    content: &[u8],
    digest: String,
)
    requires
        call_ensures(to_hex, (bytes,), text),
        call_ensures(sha256_hex, (content,), digest),
    ensures
        spells(text@, bytes@),
        spells(digest@, sha256_digest(content@)),
{
    lemma_hex_spells(bytes@);
    lemma_hex_spells(sha256_digest(content@));
}

/// The table of documents gives back what was put into it last under a path.
pub proof fn law_table_remembers(
    files: &OpenFiles,
    path: &Vec<u8>,
    state: Option<&OpenFileState>,
    empty: OpenFiles,
    kept: OpenFileState,
)
    requires
        call_ensures(OpenFiles::get, (files, path), state),
        call_ensures(OpenFiles::new, (), empty),
    ensures
        state is Some <==> files@.contains_key(path@),
        state matches Some(state) ==> {
            &&& state.version == files@[path@].version
            &&& state.last_sha256@ == files@[path@].sha256
        },
        forall|path: Seq<u8>| !(#[trigger] empty@.contains_key(path)),
        kept@.version == kept.version,
        kept@.sha256 == kept.last_sha256@,
{
}

/// Putting a document into the table changes what is remembered under its path and under no other.
pub proof fn law_table_takes_up(files: &mut OpenFiles, path: Vec<u8>, state: OpenFileState)
    requires
        call_ensures(OpenFiles::insert, (files, path, state), ()),
    ensures
        final(files)@.contains_key(path@),
        final(files)@[path@].version == state.version,
        final(files)@[path@].sha256 == state.last_sha256@,
        forall|other: Seq<u8>|
            other != path@ ==> (#[trigger] final(files)@.contains_key(other) <==> old(
                files,
            )@.contains_key(other)) && (old(files)@.contains_key(other) ==> final(files)@[other]
                == old(files)@[other]),
{
}

/// A client starts exactly if its command and its language say something. Its settings are those
/// that it was given, it knows no documents, and the connection is opened with every option as it
/// was given.
pub proof fn law_start<A>(
    options: GenericLspClientOptions<A>,
    started: Result<(GenericLspClient, OpenFiles, LspClientOptions<A>), StartError>,
)
    requires
        call_ensures(GenericLspClient::start::<A>, (options,), started),
    ensures
        match started {
            Err(StartError::EmptyCommand) => !says_something(options.command@),
            Err(StartError::EmptyLanguageId) => says_something(options.command@)
                && !says_something(options.language_id@),
            Ok((client, files, launch)) => {
                &&& says_something(options.command@)
                &&& says_something(options.language_id@)
                &&& client@.language_id == options.language_id@
                &&& client@.warmup_delay.nanos == options.warmup_delay.nanos
                &&& forall|path: Seq<u8>| !(#[trigger] files@.contains_key(path))
                &&& launch.command == options.command
                &&& launch.args == options.args
                &&& launch.process_cwd == options.process_cwd
                &&& launch.root_dir == options.root_dir
                &&& launch.env == options.env
                &&& launch.workspace_folders == options.workspace_folders
                &&& launch.adapter == options.adapter
                &&& launch.initialize_timeout.nanos == options.initialize_timeout.nanos
                &&& launch.request_timeout.nanos == options.request_timeout.nanos
                &&& launch.request_timeout_overrides == options.request_timeout_overrides
                &&& launch.workspace_configuration == options.workspace_configuration
                &&& launch.initialize_options == options.initialize_options
                &&& launch.client_capabilities == options.client_capabilities
            },
        },
{
    lemma_blank_says_nothing(options.command@);
    lemma_blank_says_nothing(options.language_id@);
}

/// What a client that does not start says.
pub proof fn law_start_errors_have_words(error: &StartError, text: &'static str)
    requires
        call_ensures(StartError::message, (error,), text),
    ensures
        *error is EmptyCommand ==> text@ == "generic LSP command must not be empty"@,
        *error is EmptyLanguageId ==> text@ == "generic LSP language_id must not be empty"@,
{
}

/// A client leaves a server alone for as long as it was told.
pub proof fn law_warmup_delay(client: &GenericLspClient, delay: Delay)
    requires
        call_ensures(GenericLspClient::warmup_delay, (client,), delay),
    ensures
        delay.nanos == client@.warmup_delay.nanos,
{
}

/// A prepared file has the paths and the temperature that it was prepared with, and the server
/// knows it.
pub proof fn law_opened_file(opened: &OpenedFile, file: &Vec<u8>, path: &Vec<u8>, cold: bool)
    requires
        call_ensures(OpenedFile::file, (opened,), file),
        call_ensures(OpenedFile::path, (opened,), path),
        call_ensures(OpenedFile::is_cold, (opened,), cold),
    ensures
        file@ == opened@.file,
        path@ == opened@.path,
        cold == opened@.cold,
        opened@.known.contains_key(path@),
{
}

/// What is sent to open a file: under its canonical path, in the client's language, as its first
/// version, with its text.
pub open spec fn opens(
    client: &GenericLspClient,
    file: Seq<u8>,
    path: Seq<u8>,
    text: Seq<char>,
    sha256: Seq<char>,
    pending: PendingOpen,
    message: DidOpen,
) -> bool {
    &&& message.path@ == path
    &&& message.language_id@ == client@.language_id
    &&& message.version == 1
    &&& message.text@ == text
    &&& pending@.file == file
    &&& pending@.path == path
    &&& pending@.sha256 == sha256
}

/// What is sent of a file that changed: under its canonical path, as the version after the one that
/// the server knows, with its text.
pub open spec fn changes(
    version: int,
    file: Seq<u8>,
    path: Seq<u8>,
    text: Seq<char>,
    pending: PendingChange,
    message: DidChange,
) -> bool {
    &&& message.path@ == path
    &&& message.version == version + 1
    &&& message.text@ == text
    &&& pending@.file == file
    &&& pending@.path == path
    &&& !pending@.cold
}

/// Whether two tables hold the same but for one path.
pub open spec fn same_but_for(
    before: Map<Seq<u8>, Record>,
    after: Map<Seq<u8>, Record>,
    path: Seq<u8>,
) -> bool {
    forall|other: Seq<u8>|
        other != path ==> {
            &&& #[trigger] after.contains_key(other) <==> before.contains_key(other)
            &&& before.contains_key(other) ==> after[other] == before[other]
        }
}

/// Preparing a file with given bytes. Bytes that are not text are refused. A file that the server
/// does not know is opened, and is not remembered before that went well. One that it knows with
/// this digest is ready, and nothing is sent. One that it knows with another digest is sent as the
/// next version and remembered with it at once, unless there is no next version.
pub proof fn law_open_or_sync(
    client: &GenericLspClient,
    files: &mut OpenFiles,
    file: Vec<u8>,
    path: Vec<u8>,
    content: Vec<u8>,
    step: SyncStep,
)
    requires
        call_ensures(GenericLspClient::open_or_sync, (client, files, file, path, content), step),
    ensures
        ({
            let (before, after) = (old(files)@, final(files)@);
            let knows = before.contains_key(path@);
            let same = spells(before[path@].sha256, sha256_digest(content@));
            match step {
                SyncStep::NotUtf8(_) => !valid_utf8(content@) && after == before,
                SyncStep::Open { pending, message } => {
                    &&& valid_utf8(content@)
                    &&& !knows
                    &&& spells(pending@.sha256, sha256_digest(content@))
                    &&& opens(
                        client,
                        file@,
                        path@,
                        decode_utf8(content@),
                        pending@.sha256,
                        pending,
                        message,
                    )
                    &&& after == before
                },
                SyncStep::Ready(opened) => {
                    &&& valid_utf8(content@)
                    &&& knows
                    &&& same
                    &&& opened@.file == file@
                    &&& opened@.path == path@
                    &&& !opened@.cold
                    &&& opened@.known == before
                    &&& after == before
                },
                SyncStep::Change { pending, message } => {
                    &&& valid_utf8(content@)
                    &&& knows
                    &&& !same
                    &&& before[path@].version != i32::MAX
                    &&& changes(
                        before[path@].version,
                        file@,
                        path@,
                        decode_utf8(content@),
                        pending,
                        message,
                    )
                    &&& pending@.known == after
                    &&& after.contains_key(path@)
                    &&& after[path@].version == before[path@].version + 1
                    &&& spells(after[path@].sha256, sha256_digest(content@))
                    &&& same_but_for(before, after, path@)
                },
                SyncStep::VersionOverflow => {
                    &&& valid_utf8(content@)
                    &&& knows
                    &&& !same
                    &&& before[path@].version == i32::MAX
                    &&& after == before
                },
            }
        }),
{
    let digest = sha256_digest(content@);
    lemma_hex_spells(digest);
    lemma_one_spelling(old(files)@[path@].sha256, hex(digest), digest);
}

/// Preparing a file with a given text and digest: as with its bytes, but the digest is taken as it
/// is.
pub proof fn law_sync(
    client: &GenericLspClient,
    files: &mut OpenFiles,
    file: Vec<u8>,
    path: Vec<u8>,
    text: String,
    sha256: String,
    step: SyncStep,
)
    requires
        old(files)@.contains_key(path@) && old(files)@[path@].sha256 != sha256@ ==> old(
            files,
        )@[path@].version < i32::MAX,
        call_ensures(GenericLspClient::sync, (client, files, file, path, text, sha256), step),
    ensures
        ({
            let (before, after) = (old(files)@, final(files)@);
            let knows = before.contains_key(path@);
            match step {
                SyncStep::Open { pending, message } => {
                    &&& !knows
                    &&& opens(client, file@, path@, text@, sha256@, pending, message)
                    &&& after == before
                },
                SyncStep::Ready(opened) => {
                    &&& knows
                    &&& before[path@].sha256 == sha256@
                    &&& opened@.file == file@
                    &&& opened@.path == path@
                    &&& !opened@.cold
                    &&& opened@.known == before
                    &&& after == before
                },
                SyncStep::Change { pending, message } => {
                    &&& knows
                    &&& before[path@].sha256 != sha256@
                    &&& changes(before[path@].version, file@, path@, text@, pending, message)
                    &&& pending@.known == after
                    &&& after.contains_key(path@)
                    &&& after[path@].version == before[path@].version + 1
                    &&& after[path@].sha256 == sha256@
                    &&& same_but_for(before, after, path@)
                },
                _ => false,
            }
        }),
{
}

/// A file whose opening went well is remembered with its first version and its digest, is cold,
/// and the server is left alone for the warm-up delay, if there is one. A failure is handed on and
/// leaves no trace.
pub proof fn law_opened<E>(
    client: &GenericLspClient,
    files: &mut OpenFiles,
    pending: PendingOpen,
    reply: Result<(), E>,
    result: Result<FreshlyOpened, E>,
)
    requires
        call_ensures(
            GenericLspClient::opened::<E>,
            (client, files, pending, reply),
            result,
        ),
    ensures
        ({
            let (before, after) = (old(files)@, final(files)@);
            match reply {
                Ok(_) => {
                    &&& result is Ok
                    &&& result->Ok_0.opened@.file == pending@.file
                    &&& result->Ok_0.opened@.path == pending@.path
                    &&& result->Ok_0.opened@.cold
                    &&& result->Ok_0.opened@.known == after
                    &&& after.contains_key(pending@.path)
                    &&& after[pending@.path].version == 1
                    &&& after[pending@.path].sha256 == pending@.sha256
                    &&& same_but_for(before, after, pending@.path)
                    &&& match result->Ok_0.wait {
                        Some(wait) => wait.nanos > 0 && wait.nanos == client@.warmup_delay.nanos,
                        None => client@.warmup_delay.nanos == 0,
                    }
                },
                Err(error) => result is Err && result->Err_0 == error && after == before,
            }
        }),
{
}

/// A file whose new version went out is ready and not cold. A failure is handed on.
pub proof fn law_changed<E>(
    client: &GenericLspClient,
    pending: PendingChange,
    reply: Result<(), E>,
    result: Result<OpenedFile, E>,
)
    requires
        call_ensures(GenericLspClient::changed::<E>, (client, pending, reply), result),
    ensures
        match reply {
            Ok(_) => {
                &&& result is Ok
                &&& result->Ok_0@.file == pending@.file
                &&& result->Ok_0@.path == pending@.path
                &&& result->Ok_0@.known == pending@.known
                &&& result->Ok_0@.cold == pending@.cold
            },
            Err(error) => result is Err && result->Err_0 == error,
        },
{
}

} // verus!
