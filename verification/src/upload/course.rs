//! Whole uploads: which chunks the server receives, whatever happens on the way.

use crate::chunks::{
    chunk_count_of, chunk_length_of, chunk_offset, law_chunks_tile_the_archive,
};
use crate::digest::sha256_hex;
use crate::endpoint::api_address;
use crate::http::authorization_value;
use crate::resume::PreparedArchiveView;
use crate::text::decimal;
use crate::upload::model::{
    chunk_received, law_uploads_stay_well_formed, lemma_next_missing, next_missing, upload_action,
    upload_next, upload_path, upload_start, well_formed, PhaseView, SessionView, UploadView,
};
use crate::upload::types::{
    ChunkReadView, UploadActionView, UploadEventView, UploadRequestView,
};
use vstd::prelude::*;

verus! {

/// A chunk that the server has received: where it was sent, and what was sent.
pub struct ReceivedChunkView {
    pub url: Seq<char>,
    pub authorization: Seq<char>,
    pub digest: Seq<char>,
    pub bytes: Seq<u8>,
}

/// An upload in its course: the upload on the server as it was when it was taken up, and the chunks
/// that the server has received since.
pub struct UploadRun {
    pub upload: UploadView,
    pub opened: Option<SessionView>,
    pub received: Seq<ReceivedChunkView>,
}

/// What an event adds to the chunks that the server has received: the one that was being sent, when
/// the event says that it has arrived.
pub open spec fn received_after(
    s: UploadView,
    event: UploadEventView,
    received: Seq<ReceivedChunkView>,
) -> Seq<ReceivedChunkView> {
    match (upload_action(s), event) {
        (
            UploadActionView::SendChunk { url, authorization, digest, bytes, .. },
            UploadEventView::Sent(outcome),
        ) => if chunk_received(outcome) {
            received.push(ReceivedChunkView { url, authorization, digest, bytes })
        } else {
            received
        },
        _ => received,
    }
}

/// An upload in its course after an event.
pub open spec fn run_after(run: UploadRun, event: UploadEventView) -> UploadRun {
    let upload = upload_next(run.upload, event);
    UploadRun {
        upload,
        opened: match upload.phase {
            PhaseView::Open { session } => Some(session),
            _ => run.opened,
        },
        received: received_after(run.upload, event, run.received),
    }
}

/// An upload after the first `n` events.
pub open spec fn upload_run(
    request: UploadRequestView,
    events: Seq<UploadEventView>,
    n: nat,
) -> UploadRun
    decreases n,
{
    if n == 0 {
        UploadRun { upload: upload_start(request), opened: None, received: Seq::empty() }
    } else {
        run_after(upload_run(request, events, (n - 1) as nat), events[n - 1])
    }
}

/// Whether an event tells the truth about an archive that holds `content`: its size when it has
/// been prepared, and its bytes when a chunk has been read in full.
pub open spec fn tells_the_truth(
    s: UploadView,
    event: UploadEventView,
    content: Seq<u8>,
) -> bool {
    match (upload_action(s), event) {
        (
            UploadActionView::PrepareArchive,
            UploadEventView::Archive(Ok(archive)),
        ) => archive.bytes == content.len(),
        (
            UploadActionView::ReadChunk { offset, length },
            UploadEventView::Chunk(ChunkReadView::Bytes(bytes)),
        ) => bytes.len() == length ==> bytes == content.subrange(
            offset as int,
            (offset + length) as int,
        ),
        _ => true,
    }
}

/// Whether all events tell the truth about the archive. Anything may happen otherwise.
pub open spec fn is_true_course(
    request: UploadRequestView,
    events: Seq<UploadEventView>,
    content: Seq<u8>,
) -> bool {
    forall|n: int|
        0 <= n < events.len() ==> tells_the_truth(
            upload_run(request, events, n as nat).upload,
            #[trigger] events[n],
            content,
        )
}

/// Chunk `index` of an archive that holds `content`.
pub open spec fn chunk_of(content: Seq<u8>, index: nat) -> Seq<u8> {
    content.subrange(
        chunk_offset(index) as int,
        chunk_offset(index) + chunk_length_of(content.len(), index),
    )
}

/// Chunk `index`, sent to its place in an upload.
pub open spec fn chunk_for(
    request: UploadRequestView,
    upload_id: Seq<char>,
    content: Seq<u8>,
    index: nat,
) -> ReceivedChunkView {
    ReceivedChunkView {
        url: api_address(
            request.endpoint,
            upload_path(upload_id) + "/chunks/"@ + decimal(index),
        ),
        authorization: authorization_value(request.sync_key),
        digest: sha256_hex(chunk_of(content, index)),
        bytes: chunk_of(content, index),
    }
}

/// The chunks below `n` that the server did not have when the upload was taken up, in order.
pub open spec fn missing_chunks(
    request: UploadRequestView,
    opened: SessionView,
    content: Seq<u8>,
    n: nat,
) -> Seq<ReceivedChunkView>
    decreases n,
{
    if n == 0 {
        Seq::empty()
    } else {
        let before = missing_chunks(request, opened, content, (n - 1) as nat);
        if opened.completed.contains((n - 1) as u64) {
            before
        } else {
            before.push(chunk_for(request, opened.upload_id, content, (n - 1) as nat))
        }
    }
}

/// The bodies of chunks, joined in order.
pub open spec fn joined_bodies(chunks: Seq<ReceivedChunkView>) -> Seq<u8>
    decreases chunks.len(),
{
    if chunks.len() == 0 {
        Seq::empty()
    } else {
        joined_bodies(chunks.drop_last()) + chunks.last().bytes
    }
}

/// Whether an upload has come past its chunks: it waits for the server to put them together, or has
/// succeeded.
pub open spec fn has_sent_its_chunks(phase: PhaseView) -> bool {
    match phase {
        PhaseView::Complete { .. } => true,
        PhaseView::Clear { outcome, .. } => outcome is Ok,
        PhaseView::Finished { outcome } => outcome is Ok,
        _ => false,
    }
}

/// The archive that an upload is about, once it is known.
spec fn archive_in(phase: PhaseView) -> Option<PreparedArchiveView> {
    match phase {
        PhaseView::Connect { archive } => Some(archive),
        PhaseView::LoadResume { archive } => Some(archive),
        PhaseView::Query { archive, .. } => Some(archive),
        PhaseView::Create { archive } => Some(archive),
        PhaseView::StoreResume { archive, .. } => Some(archive),
        PhaseView::Open { session } => Some(session.archive),
        PhaseView::Read { session, .. } => Some(session.archive),
        PhaseView::Send { session, .. } => Some(session.archive),
        PhaseView::Complete { session } => Some(session.archive),
        _ => None,
    }
}

/// Whether `session` is what has become of `opened` once the chunks below `n` are on the server.
spec fn has_come_to(opened: SessionView, session: SessionView, n: nat) -> bool {
    &&& session.archive == opened.archive
    &&& session.upload_id == opened.upload_id
    &&& forall|i: u64| #[trigger]
        session.completed.contains(i) <==> opened.completed.contains(i) || i < n
}

/// Whether exactly the missing chunks below some number have been received.
pub open spec fn is_in_order(
    received: Seq<ReceivedChunkView>,
    request: UploadRequestView,
    opened: SessionView,
    content: Seq<u8>,
) -> bool {
    exists|n: nat|
        n <= opened.count() && received == #[trigger] missing_chunks(request, opened, content, n)
}

/// How far the chunks have come in each phase.
spec fn stands_at(
    phase: PhaseView,
    received: Seq<ReceivedChunkView>,
    request: UploadRequestView,
    opened: SessionView,
    content: Seq<u8>,
) -> bool {
    match phase {
        PhaseView::Open { session } => session == opened && received.len() == 0,
        PhaseView::Read { session, index } => {
            &&& has_come_to(opened, session, index as nat)
            &&& received == missing_chunks(request, opened, content, index as nat)
        },
        PhaseView::Send { session, index, bytes, .. } => {
            &&& has_come_to(opened, session, index as nat)
            &&& received == missing_chunks(request, opened, content, index as nat)
            &&& bytes == chunk_of(content, index as nat)
        },
        PhaseView::Complete { .. } => received == missing_chunks(
            request,
            opened,
            content,
            opened.count(),
        ),
        PhaseView::Clear { .. } => received == missing_chunks(
            request,
            opened,
            content,
            opened.count(),
        ),
        PhaseView::Finished { outcome } => outcome is Ok ==> received == missing_chunks(
            request,
            opened,
            content,
            opened.count(),
        ),
        _ => false,
    }
}

/// What holds all through an upload.
spec fn is_on_course(run: UploadRun, content: Seq<u8>) -> bool {
    let request = run.upload.request;
    let phase = run.upload.phase;
    &&& well_formed(run.upload)
    &&& archive_in(phase) is Some ==> archive_in(phase)->0.bytes == content.len()
    &&& match run.opened {
        None => {
            &&& run.received.len() == 0
            &&& !(phase is Open) && !(phase is Read) && !(phase is Send)
            &&& !has_sent_its_chunks(phase)
            &&& !(phase is Clear)
        },
        Some(opened) => {
            &&& opened.archive.bytes == content.len()
            &&& is_in_order(run.received, request, opened, content)
            &&& stands_at(phase, run.received, request, opened, content)
        },
    }
}

proof fn lemma_nothing_missing(
    request: UploadRequestView,
    opened: SessionView,
    content: Seq<u8>,
    m: nat,
    n: nat,
)
    requires
        m <= n <= u64::MAX,
        forall|i: u64| m <= i < n ==> #[trigger] opened.completed.contains(i),
    ensures
        missing_chunks(request, opened, content, n) == missing_chunks(request, opened, content, m),
    decreases n - m,
{
    if m < n {
        lemma_nothing_missing(request, opened, content, m, (n - 1) as nat);
        assert(opened.completed.contains((n - 1) as u64));
    }
}

proof fn lemma_open_leads_on(run: UploadRun, event: UploadEventView, content: Seq<u8>)
    requires
        is_on_course(run, content),
        run.upload.phase is Open,
        event is Opened,
    ensures
        ({
            let upload = upload_next(run.upload, event);
            is_on_course(UploadRun { upload, ..run }, content)
        }),
{
    law_uploads_stay_well_formed(run.upload, event);
    let request = run.upload.request;
    let opened = run.opened->0;
    let count = opened.count();
    let next = next_missing(opened.completed, 0, count);
    lemma_next_missing(opened.completed, 0, count);
    lemma_nothing_missing(request, opened, content, 0, next);
    assert(run.received == missing_chunks(request, opened, content, 0));
    assert(run.received == missing_chunks(request, opened, content, next));
}

proof fn lemma_received_leads_on(run: UploadRun, event: UploadEventView, content: Seq<u8>)
    requires
        is_on_course(run, content),
        run.upload.phase is Send,
        event is Sent,
    ensures
        ({
            let upload = upload_next(run.upload, event);
            let received = received_after(run.upload, event, run.received);
            is_on_course(UploadRun { upload, received, opened: run.opened }, content)
        }),
{
    law_uploads_stay_well_formed(run.upload, event);
    let request = run.upload.request;
    let opened = run.opened->0;
    let count = opened.count();
    let index = run.upload.phase->Send_index;
    let session = run.upload.phase->Send_session;
    if chunk_received(event->Sent_0) {
        let now = session.with_chunk(index);
        let from: nat = index as nat + 1;
        let next = next_missing(now.completed, from, count);
        lemma_next_missing(now.completed, from, count);
        let received = received_after(run.upload, event, run.received);
        assert(!opened.completed.contains(index)) by {
            assert(!session.completed.contains(index));
        }
        assert(received == missing_chunks(request, opened, content, from));
        assert forall|i: u64| from <= i < next implies #[trigger] opened.completed.contains(i) by {
            assert(now.completed.contains(i));
            assert(session.completed.contains(i));
        }
        lemma_nothing_missing(request, opened, content, from, next);
        assert forall|i: u64| #[trigger] now.completed.contains(i) <==> opened.completed.contains(i)
            || i < next by {
            assert(session.completed.contains(i) <==> opened.completed.contains(i) || i < index);
            if from <= i < next {
                assert(opened.completed.contains(i));
            }
        }
        assert(received == missing_chunks(request, opened, content, next));
        let after = upload_next(run.upload, event);
        if next < count {
            assert(after.phase == PhaseView::Read { session: now, index: next as u64 });
        } else {
            assert(after.phase == PhaseView::Complete { session: now });
        }
    } else {
        let after = upload_next(run.upload, event);
        assert(received_after(run.upload, event, run.received) == run.received);
        assert(run.received == missing_chunks(request, opened, content, index as nat));
        assert(after.phase is Send || after.phase is Finished);
    }
}

proof fn lemma_leads_on(run: UploadRun, event: UploadEventView, content: Seq<u8>)
    requires
        is_on_course(run, content),
        tells_the_truth(run.upload, event, content),
    ensures
        is_on_course(run_after(run, event), content),
{
    let request = run.upload.request;
    let after = run_after(run, event);
    law_uploads_stay_well_formed(run.upload, event);
    if run.upload.phase is Open && event is Opened {
        lemma_open_leads_on(run, event, content);
    } else if run.upload.phase is Send && event is Sent {
        lemma_received_leads_on(run, event, content);
    } else {
        assert(after.received == run.received);
        if after.upload.phase is Open {
            let opened = after.opened->0;
            assert(after.received == missing_chunks(request, opened, content, 0));
        }
    }
}

proof fn lemma_on_course(
    request: UploadRequestView,
    events: Seq<UploadEventView>,
    content: Seq<u8>,
    n: nat,
)
    requires
        is_true_course(request, events, content),
        n <= events.len(),
    ensures
        is_on_course(upload_run(request, events, n), content),
        upload_run(request, events, n).upload.request == request,
    decreases n,
{
    if n > 0 {
        lemma_on_course(request, events, content, (n - 1) as nat);
        let before = upload_run(request, events, (n - 1) as nat);
        assert(tells_the_truth(before.upload, events[n - 1], content));
        lemma_leads_on(before, events[n - 1], content);
    }
}

/// An upload sends exactly what is missing: whatever answers come, the server receives the chunks
/// that it did not have when the upload was taken up, in order, each once and as it stands in the
/// archive, at its own address and with its own digest, and it is asked to put the chunks together
/// only when it has received all of these.
pub proof fn law_upload_sends_what_is_missing(
    request: UploadRequestView,
    events: Seq<UploadEventView>,
    content: Seq<u8>,
    n: nat,
)
    requires
        is_true_course(request, events, content),
        n <= events.len(),
    ensures
        ({
            let run = upload_run(request, events, n);
            &&& run.opened is None ==> run.received.len() == 0
            &&& run.opened matches Some(opened) ==> {
                &&& opened.archive.bytes == content.len()
                &&& is_in_order(run.received, request, opened, content)
            }
            &&& has_sent_its_chunks(run.upload.phase) ==> {
                &&& run.opened is Some
                &&& run.received == missing_chunks(
                    request,
                    run.opened->0,
                    content,
                    run.opened->0.count(),
                )
            }
        }),
{
    lemma_on_course(request, events, content, n);
}

proof fn lemma_bodies_are_the_start(
    request: UploadRequestView,
    opened: SessionView,
    content: Seq<u8>,
    n: nat,
)
    requires
        opened.completed == Set::<u64>::empty(),
        n <= chunk_count_of(content.len()),
    ensures
        joined_bodies(missing_chunks(request, opened, content, n)) == content.take(
            if n == chunk_count_of(content.len()) {
                content.len() as int
            } else {
                chunk_offset(n) as int
            },
        ),
    decreases n,
{
    if n > 0 {
        let k = (n - 1) as nat;
        lemma_bodies_are_the_start(request, opened, content, k);
        law_chunks_tile_the_archive(content.len(), k);
        let before = missing_chunks(request, opened, content, k);
        let now = missing_chunks(request, opened, content, n);
        assert(now.drop_last() == before);
        assert(joined_bodies(now) == joined_bodies(before) + chunk_of(content, k));
        assert(content.take(chunk_offset(k) as int) + chunk_of(content, k) == content.take(
            chunk_offset(k) + chunk_length_of(content.len(), k),
        ));
    } else {
        assert(chunk_count_of(content.len()) == 0 ==> content.len() == 0);
    }
}

/// Of an upload that was newly opened, the server has no chunk to begin with.
pub proof fn law_new_upload_starts_empty(s: UploadView, event: UploadEventView)
    requires
        s.phase is StoreResume,
        upload_next(s, event).phase is Open,
    ensures
        upload_next(s, event).phase->Open_session.completed == Set::<u64>::empty(),
{
}

/// A new upload sends the archive: where the server had no chunk to begin with, the bodies that it
/// has received by the time it is asked to put them together are, joined in order, the archive.
pub proof fn law_new_upload_sends_the_archive(
    request: UploadRequestView,
    events: Seq<UploadEventView>,
    content: Seq<u8>,
    n: nat,
)
    requires
        is_true_course(request, events, content),
        n <= events.len(),
        has_sent_its_chunks(upload_run(request, events, n).upload.phase),
        upload_run(request, events, n).opened is Some,
        upload_run(request, events, n).opened->0.completed == Set::<u64>::empty(),
    ensures
        joined_bodies(upload_run(request, events, n).received) == content,
{
    let opened = upload_run(request, events, n).opened->0;
    law_upload_sends_what_is_missing(request, events, content, n);
    lemma_bodies_are_the_start(request, opened, content, opened.count());
    assert(content.take(content.len() as int) == content);
}

}
