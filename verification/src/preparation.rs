//! What holds of preparing files, one after another.

#[allow(unused_imports)]
use crate::client::{open_or_sync_step, open_or_synced, outdated, OpenedView, SyncView};
#[allow(unused_imports)]
use crate::digest::fingerprint;
#[allow(unused_imports)]
use crate::documents::Record;
use vstd::prelude::*;
#[allow(unused_imports)]
use vstd::utf8::{decode_utf8, decode_utf8_encode_utf8, valid_utf8};

verus! {

/// One file being prepared: its path as the caller gave it, its canonical path, the bytes that
/// were read, and whether the server took what it was sent, if anything was.
pub ghost struct Preparation {
    pub file: Seq<u8>,
    pub path: Seq<u8>,
    pub content: Seq<u8>,
    pub delivered: bool,
}

/// What preparing the file asks for, when the server knows the documents `known`.
pub open spec fn step_of(
    language_id: Seq<char>,
    known: Map<Seq<u8>, Record>,
    file: Preparation,
) -> SyncView {
    open_or_sync_step(language_id, known, file.file, file.path, file.content)
}

/// What preparing the file comes to: the file as the server knows it now, or nothing where it
/// failed.
pub open spec fn prepared(
    language_id: Seq<char>,
    known: Map<Seq<u8>, Record>,
    file: Preparation,
) -> Option<OpenedView> {
    match step_of(language_id, known, file) {
        SyncView::Open { pending, .. } => if file.delivered {
            Some(
                OpenedView {
                    file: pending.file,
                    path: pending.path,
                    cold: true,
                    known: known_after(language_id, known, file),
                },
            )
        } else {
            None
        },
        SyncView::Change { pending, .. } => if file.delivered {
            Some(pending)
        } else {
            None
        },
        SyncView::Ready(opened) => Some(opened),
        SyncView::NotUtf8 => None,
        SyncView::VersionOverflow => None,
    }
}

/// The documents that the server knows after the file was prepared.
pub open spec fn known_after(
    language_id: Seq<char>,
    known: Map<Seq<u8>, Record>,
    file: Preparation,
) -> Map<Seq<u8>, Record> {
    let synced = open_or_synced(known, file.path, file.content);
    match step_of(language_id, known, file) {
        SyncView::Open { pending, .. } => if file.delivered {
            synced.insert(pending.path, Record { version: 1, sha256: pending.sha256 })
        } else {
            synced
        },
        _ => synced,
    }
}

/// The documents that the server knows after each of `files` was prepared in turn.
pub open spec fn known_after_all(
    language_id: Seq<char>,
    known: Map<Seq<u8>, Record>,
    files: Seq<Preparation>,
) -> Map<Seq<u8>, Record>
    decreases files.len(),
{
    if files.len() == 0 {
        known
    } else {
        known_after(
            language_id,
            known_after_all(language_id, known, files.drop_last()),
            files.last(),
        )
    }
}

/// A file that was prepared is one that the server knows, with the contents that were read; and
/// it is the file that was asked for.
pub proof fn law_prepared_is_known(
    language_id: Seq<char>,
    known: Map<Seq<u8>, Record>,
    file: Preparation,
)
    requires
        prepared(language_id, known, file) is Some,
    ensures
        known_after(language_id, known, file).contains_key(file.path),
        known_after(language_id, known, file)[file.path].sha256 == fingerprint(file.content),
        prepared(language_id, known, file)->0.file == file.file,
        prepared(language_id, known, file)->0.path == file.path,
        prepared(language_id, known, file)->0.known == known_after(language_id, known, file),
{
}

/// A file comes out cold exactly if the server had not heard of it before.
pub proof fn law_cold_means_unknown_before(
    language_id: Seq<char>,
    known: Map<Seq<u8>, Record>,
    file: Preparation,
)
    requires
        prepared(language_id, known, file) is Some,
    ensures
        prepared(language_id, known, file)->0.cold <==> !known.contains_key(file.path),
{
}

/// Preparing a file changes what is known of no other file, forgets none, and never counts a
/// version down.
pub proof fn law_prepare_keeps_others(
    language_id: Seq<char>,
    known: Map<Seq<u8>, Record>,
    file: Preparation,
    path: Seq<u8>,
)
    requires
        known.contains_key(path),
    ensures
        known_after(language_id, known, file).contains_key(path),
        known_after(language_id, known, file)[path].version >= known[path].version,
        path != file.path ==> known_after(language_id, known, file)[path] == known[path],
{
}

/// However many files are prepared, none is forgotten and no version is counted down.
pub proof fn law_known_stays_known(
    language_id: Seq<char>,
    known: Map<Seq<u8>, Record>,
    files: Seq<Preparation>,
    path: Seq<u8>,
)
    requires
        known.contains_key(path),
    ensures
        known_after_all(language_id, known, files).contains_key(path),
        known_after_all(language_id, known, files)[path].version >= known[path].version,
    decreases files.len(),
{
    if files.len() > 0 {
        law_known_stays_known(language_id, known, files.drop_last(), path);
        law_prepare_keeps_others(
            language_id,
            known_after_all(language_id, known, files.drop_last()),
            files.last(),
            path,
        );
    }
}

/// A file is cold once: after it was prepared, whatever was prepared in between, it is not cold
/// again.
pub proof fn law_cold_only_once(
    language_id: Seq<char>,
    known: Map<Seq<u8>, Record>,
    first: Preparation,
    between: Seq<Preparation>,
    again: Preparation,
)
    requires
        prepared(language_id, known, first) is Some,
        again.path == first.path,
    ensures
        ({
            let later = known_after_all(
                language_id,
                known_after(language_id, known, first),
                between,
            );
            prepared(language_id, later, again) is Some ==> !prepared(
                language_id,
                later,
                again,
            )->0.cold
        }),
{
    let after = known_after(language_id, known, first);
    law_prepared_is_known(language_id, known, first);
    law_known_stays_known(language_id, after, between, first.path);
    let later = known_after_all(language_id, after, between);
    if prepared(language_id, later, again) is Some {
        law_cold_means_unknown_before(language_id, later, again);
    }
}

/// Contents that the server was sent once are not sent again: while they stay the same, preparing
/// the file sends nothing, whatever is prepared in between. That holds too where the server did not
/// take a new version.
pub proof fn law_same_contents_sent_once(
    language_id: Seq<char>,
    known: Map<Seq<u8>, Record>,
    first: Preparation,
    between: Seq<Preparation>,
    again: Preparation,
)
    requires
        prepared(language_id, known, first) is Some || step_of(
            language_id,
            known,
            first,
        ) is Change,
        forall|i: int|
            0 <= i < between.len() && (#[trigger] between[i]).path == first.path
                ==> between[i].content == first.content,
        again.path == first.path,
        again.content == first.content,
    ensures
        ({
            let after = known_after(language_id, known, first);
            let later = known_after_all(language_id, after, between);
            &&& later.contains_key(first.path)
            &&& later[first.path] == after[first.path]
            &&& step_of(language_id, later, again) == SyncView::Ready(
                OpenedView { file: again.file, path: again.path, cold: false, known: later },
            )
            &&& known_after(language_id, later, again) == later
        }),
    decreases between.len(),
{
    if between.len() > 0 {
        let earlier = between.drop_last();
        assert forall|i: int|
            0 <= i < earlier.len() && (#[trigger] earlier[i]).path
                == first.path implies earlier[i].content == first.content by {
            assert(earlier[i] == between[i]);
        }
        law_same_contents_sent_once(language_id, known, first, earlier, again);
        assert(between.last() == between[between.len() - 1]);
    }
}

/// A file whose opening failed is opened again: the failure leaves no trace.
pub proof fn law_failed_open_is_repeated(
    language_id: Seq<char>,
    known: Map<Seq<u8>, Record>,
    first: Preparation,
)
    requires
        step_of(language_id, known, first) is Open,
        !first.delivered,
    ensures
        known_after(language_id, known, first) == known,
{
}

/// Contents with another digest are sent as the next version.
pub proof fn law_changed_contents_are_next_version(
    language_id: Seq<char>,
    known: Map<Seq<u8>, Record>,
    file: Preparation,
)
    requires
        valid_utf8(file.content),
        outdated(known, file.path, fingerprint(file.content)),
        known[file.path].version < i32::MAX,
    ensures
        step_of(language_id, known, file) is Change,
        step_of(language_id, known, file)->Change_version == known[file.path].version + 1,
        known_after(language_id, known, file)[file.path] == (Record {
            version: known[file.path].version + 1,
            sha256: fingerprint(file.content),
        }),
{
}

/// Nothing is sent of a file that is not text, and nothing is remembered of it.
pub proof fn law_binary_files_are_left_alone(
    language_id: Seq<char>,
    known: Map<Seq<u8>, Record>,
    file: Preparation,
)
    requires
        !valid_utf8(file.content),
    ensures
        prepared(language_id, known, file) is None,
        known_after(language_id, known, file) == known,
{
}

/// Something that was sent about a file: whether it opened the file, with which version, and the
/// contents, as bytes and as text.
pub ghost struct Notice {
    pub opens: bool,
    pub version: int,
    pub content: Seq<u8>,
    pub text: Seq<char>,
}

/// What preparing the file sends, if anything.
pub open spec fn notice(
    language_id: Seq<char>,
    known: Map<Seq<u8>, Record>,
    file: Preparation,
) -> Option<Notice> {
    match step_of(language_id, known, file) {
        SyncView::Open { version, text, .. } => Some(
            Notice { opens: true, version, content: file.content, text },
        ),
        SyncView::Change { version, text, .. } => Some(
            Notice { opens: false, version, content: file.content, text },
        ),
        _ => None,
    }
}

/// What a new client sends about the file at `path` while `files` are prepared in turn.
pub open spec fn notices(
    language_id: Seq<char>,
    files: Seq<Preparation>,
    path: Seq<u8>,
) -> Seq<Notice>
    decreases files.len(),
{
    if files.len() == 0 {
        Seq::empty()
    } else {
        let earlier = notices(language_id, files.drop_last(), path);
        let known = known_after_all(language_id, Map::empty(), files.drop_last());
        match notice(language_id, known, files.last()) {
            Some(sent) => if files.last().path == path {
                earlier.push(sent)
            } else {
                earlier
            },
            None => earlier,
        }
    }
}

/// The contents of the file at `path` when it was last read as text.
pub open spec fn last_read(files: Seq<Preparation>, path: Seq<u8>) -> Option<Seq<u8>>
    decreases files.len(),
{
    if files.len() == 0 {
        None
    } else if files.last().path == path && valid_utf8(files.last().content) {
        Some(files.last().content)
    } else {
        last_read(files.drop_last(), path)
    }
}

/// Whether the server took all that it was sent.
pub open spec fn all_delivered(files: Seq<Preparation>) -> bool {
    forall|i: int| 0 <= i < files.len() ==> (#[trigger] files[i]).delivered
}

/// Whether there was a next version for each file that needed one.
pub open spec fn no_version_full(language_id: Seq<char>, files: Seq<Preparation>) -> bool {
    forall|i: int|
        0 <= i < files.len() ==> !(step_of(
            language_id,
            known_after_all(language_id, Map::empty(), files.take(i)),
            #[trigger] files[i],
        ) is VersionOverflow)
}

/// Where the server takes all that it is sent, a file is opened once, with version 1, before
/// anything else is sent about it; then come its changes, with the versions 2, 3, 4 and so on,
/// without a gap and without a repeat. The table remembers the last of them.
pub proof fn law_versions_count_up(
    language_id: Seq<char>,
    files: Seq<Preparation>,
    path: Seq<u8>,
)
    requires
        all_delivered(files),
    ensures
        ({
            let sent = notices(language_id, files, path);
            let known = known_after_all(language_id, Map::empty(), files);
            &&& forall|i: int|
                0 <= i < sent.len() ==> (#[trigger] sent[i]).version == i + 1 && (sent[i].opens
                    <==> i == 0)
            &&& known.contains_key(path) <==> sent.len() > 0
            &&& sent.len() > 0 ==> known[path] == (Record {
                version: sent.len() as int,
                sha256: fingerprint(sent.last().content),
            })
        }),
    decreases files.len(),
{
    if files.len() > 0 {
        let earlier = files.drop_last();
        assert forall|i: int| 0 <= i < earlier.len() implies (#[trigger] earlier[i]).delivered by {
            assert(earlier[i] == files[i]);
        }
        assert(files[files.len() - 1].delivered);
        law_versions_count_up(language_id, earlier, path);
        let known = known_after_all(language_id, Map::empty(), earlier);
        if files.last().path != path && known.contains_key(path) {
            law_prepare_keeps_others(language_id, known, files.last(), path);
        }
    }
}

/// Where the server takes all that it is sent, no text is sent twice in a row.
pub proof fn law_consecutive_texts_differ(
    language_id: Seq<char>,
    files: Seq<Preparation>,
    path: Seq<u8>,
    i: int,
)
    requires
        all_delivered(files),
        0 <= i < notices(language_id, files, path).len() - 1,
    ensures
        notices(language_id, files, path)[i].text != notices(language_id, files, path)[i + 1].text,
{
    lemma_consecutive_digests_differ(language_id, files, path);
    let sent = notices(language_id, files, path);
    assert(sent[i + 1 - 1] == sent[i]);
    decode_utf8_encode_utf8(sent[i].content);
    decode_utf8_encode_utf8(sent[i + 1].content);
}

proof fn lemma_consecutive_digests_differ(
    language_id: Seq<char>,
    files: Seq<Preparation>,
    path: Seq<u8>,
)
    requires
        all_delivered(files),
    ensures
        ({
            let sent = notices(language_id, files, path);
            &&& forall|i: int|
                0 <= i < sent.len() ==> valid_utf8((#[trigger] sent[i]).content) && sent[i].text
                    == decode_utf8(sent[i].content)
            &&& forall|i: int|
                0 < i < sent.len() ==> fingerprint((#[trigger] sent[i]).content) != fingerprint(
                    sent[i - 1].content,
                )
        }),
    decreases files.len(),
{
    if files.len() > 0 {
        let earlier = files.drop_last();
        assert forall|i: int| 0 <= i < earlier.len() implies (#[trigger] earlier[i]).delivered by {
            assert(earlier[i] == files[i]);
        }
        lemma_consecutive_digests_differ(language_id, earlier, path);
        law_versions_count_up(language_id, earlier, path);
    }
}

/// Whether the digests of two contents tell them apart.
pub open spec fn digests_tell_apart(left: Seq<u8>, right: Seq<u8>) -> bool {
    fingerprint(left) == fingerprint(right) ==> left == right
}

/// Where the server takes all that it is sent and no version is full, the server has what was last
/// read of a file: something was sent about it if it was ever read as text, and what was sent last
/// has the digest of what was read last. It is that text, unless the two differ and still share a
/// digest.
pub proof fn law_last_sent_is_last_read(
    language_id: Seq<char>,
    files: Seq<Preparation>,
    path: Seq<u8>,
)
    requires
        all_delivered(files),
        no_version_full(language_id, files),
    ensures
        ({
            let sent = notices(language_id, files, path);
            &&& last_read(files, path) is Some <==> sent.len() > 0
            &&& last_read(files, path) matches Some(content) ==> fingerprint(sent.last().content)
                == fingerprint(content)
            &&& last_read(files, path) matches Some(content) ==> digests_tell_apart(
                sent.last().content,
                content,
            ) ==> sent.last().text == decode_utf8(content)
        }),
    decreases files.len(),
{
    if files.len() > 0 {
        let earlier = files.drop_last();
        assert forall|i: int| 0 <= i < earlier.len() implies (#[trigger] earlier[i]).delivered by {
            assert(earlier[i] == files[i]);
        }
        assert forall|i: int| 0 <= i < earlier.len() implies !(step_of(
            language_id,
            known_after_all(language_id, Map::empty(), earlier.take(i)),
            #[trigger] earlier[i],
        ) is VersionOverflow) by {
            assert(earlier[i] == files[i]);
            assert(earlier.take(i) =~= files.take(i));
        }
        assert(files[files.len() - 1] == files.last());
        assert(files.take(files.len() - 1) =~= earlier);
        law_last_sent_is_last_read(language_id, earlier, path);
        law_versions_count_up(language_id, earlier, path);
    }
    if last_read(files, path) is Some {
        lemma_consecutive_digests_differ(language_id, files, path);
    }
}

} // verus!
