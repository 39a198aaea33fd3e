//! What becomes of an accepted item, step by step.
//!
//! The laws of this module follow one accepted item through its sink, for
//! every body and every token: which actions are asked for, in which order,
//! and which result is recorded.

use crate::classify::{classification, ItemMetaView};
use crate::laws::{run, Input};
use crate::naming::{converted_leaf, is_token, path_in, raw_leaf};
use crate::orchestrator::{action_of, finished, transition, MachineView, StageView};
use crate::outcome::{count_processed, ArtifactView, ErrorKind, ItemResultView, LocationView};
use crate::protocol::{ActionView, ReplyView};
use crate::sink::{sink_opened, SinkKind, SinkPhase, SinkView};
use vstd::prelude::*;

verus! {

/// How many bytes the chunks hold together.
pub open spec fn total(chunks: Seq<u64>) -> nat
    decreases chunks.len(),
{
    if chunks.len() == 0 {
        0
    } else {
        total(chunks.drop_last()) + chunks.last() as nat
    }
}

/// The answers of a driver that reads and writes a body of these chunks: for
/// each chunk, that it has come and then that it is written.
pub open spec fn chunk_inputs(chunks: Seq<u64>) -> Seq<Input>
    decreases chunks.len(),
{
    if chunks.len() == 0 {
        Seq::empty()
    } else {
        chunk_inputs(chunks.drop_last()).push(
            Input { reply: ReplyView::Chunk { len: chunks.last() }, token: None },
        ).push(Input { reply: ReplyView::Done, token: None })
    }
}

/// The machine with `n` more bytes written to its sink.
pub open spec fn written(m: MachineView, sink: SinkView, n: nat) -> MachineView {
    MachineView {
        stage: StageView::Writing(SinkView { bytes: (sink.bytes + n) as u64, ..sink }),
        received: (m.received + n) as u64,
        ..m
    }
}

/// The machine once the item's tokens are used and its bytes are counted.
pub open spec fn settled(m: MachineView, tokens: Seq<Seq<char>>, n: nat) -> MachineView {
    MachineView { used: m.used + tokens, received: (m.received + n) as u64, ..m }
}

/// The result of an item that is stored as a file.
pub open spec fn stored_file(
    directory: Seq<char>,
    token: Seq<char>,
    leaf: Seq<char>,
    bytes: u64,
) -> ItemResultView {
    ItemResultView::Stored(
        ArtifactView {
            identifier: token,
            location: LocationView::File { path: path_in(directory, leaf) },
            bytes,
        },
    )
}

/// The result of an item that is stored as a row.
pub open spec fn stored_row(token: Seq<char>, id: i64, bytes: u64) -> ItemResultView {
    ItemResultView::Stored(
        ArtifactView { identifier: token, location: LocationView::Row { id }, bytes },
    )
}

/// The machine after the headers of an item have come, with `token` at hand.
pub open spec fn taken_up(m: MachineView, meta: ItemMetaView, token: Seq<char>) -> MachineView {
    transition(m, ReplyView::Item(meta), Some(token))
}

/// The machine after a driver has read and written a body of these chunks
/// and has found its end.
pub open spec fn filled(m: MachineView, chunks: Seq<u64>) -> MachineView {
    transition(run(m, chunk_inputs(chunks)), ReplyView::End, None)
}

/// The machine after an item was taken up by a sink that writes files, its
/// file was created, and its body was written to the end.
pub open spec fn file_filled(
    m: MachineView,
    meta: ItemMetaView,
    token: Seq<char>,
    chunks: Seq<u64>,
) -> MachineView {
    filled(transition(taken_up(m, meta, token), ReplyView::Done, None), chunks)
}

/// Whether an accepted item can be taken up with a body of these chunks: the
/// machine waits for an item and accepts this one, the token is unused, and
/// the body fits into what the request may still bring.
pub open spec fn can_take_up(
    m: MachineView,
    meta: ItemMetaView,
    token: Seq<char>,
    chunks: Seq<u64>,
) -> bool {
    &&& m.wf()
    &&& m.stage is AwaitItem
    &&& classification(m.policy, meta) is Accept
    &&& is_token(token)
    &&& !m.used.contains(token)
    &&& m.received + total(chunks) <= m.policy.max_aggregate_bytes
}

/// One more answer extends a run by one step.
pub proof fn lemma_run_push(m: MachineView, inputs: Seq<Input>, last: Input)
    ensures
        run(m, inputs.push(last)) == transition(run(m, inputs), last.reply, last.token),
{
    assert(inputs.push(last).drop_last() =~= inputs);
}

/// A body that fits is written whole: after its chunks, the sink and the
/// request have counted all its bytes, and the sink waits for the next chunk.
pub proof fn lemma_chunks_are_written(m: MachineView, sink: SinkView, chunks: Seq<u64>)
    requires
        m.wf(),
        m.stage == StageView::Writing(sink),
        sink.phase == SinkPhase::AwaitChunk,
        m.received + total(chunks) <= m.policy.max_aggregate_bytes,
    ensures
        run(m, chunk_inputs(chunks)) == written(m, sink, total(chunks)),
    decreases chunks.len(),
{
    if chunks.len() == 0 {
        assert(written(m, sink, 0) == m);
    } else {
        let before = chunks.drop_last();
        let len = chunks.last();
        lemma_chunks_are_written(m, sink, before);
        let come = Input { reply: ReplyView::Chunk { len }, token: None };
        let done = Input { reply: ReplyView::Done, token: None };
        lemma_run_push(m, chunk_inputs(before), come);
        lemma_run_push(m, chunk_inputs(before).push(come), done);
        let start = written(m, sink, total(before));
        let holding = transition(start, come.reply, None);
        assert(holding == MachineView {
            stage: StageView::Writing(
                SinkView {
                    bytes: (sink.bytes + total(before)) as u64,
                    phase: SinkPhase::Write { len },
                    ..sink
                },
            ),
            ..start
        });
        assert(transition(holding, done.reply, None) == written(m, sink, total(chunks)));
    }
}

/// A sink that stores files as they came: the file is created at the path
/// that the token names, the body is written, the file is closed, and the
/// item is recorded as stored at that path with all its bytes.
pub proof fn lemma_raw_item_is_stored(
    m: MachineView,
    meta: ItemMetaView,
    token: Seq<char>,
    chunks: Seq<u64>,
)
    requires
        can_take_up(m, meta, token, chunks),
        m.storage.kind == SinkKind::FilesystemRaw,
    ensures
        action_of(taken_up(m, meta, token)) == (ActionView::Create {
            path: path_in(m.storage.directory, raw_leaf(token, meta.filename)),
        }),
        action_of(file_filled(m, meta, token, chunks)) == ActionView::Close,
        transition(file_filled(m, meta, token, chunks), ReplyView::Done, None) == finished(
            settled(m, seq![token], total(chunks)),
            stored_file(
                m.storage.directory,
                token,
                raw_leaf(token, meta.filename),
                total(chunks) as u64,
            ),
            false,
        ),
{
    let opened = taken_up(m, meta, token);
    let sink = sink_opened(m.storage.kind, token, meta.filename);
    crate::orchestrator::lemma_transition_wf(m, ReplyView::Item(meta), Some(token));
    let created = transition(opened, ReplyView::Done, None);
    crate::orchestrator::lemma_transition_wf(opened, ReplyView::Done, None);
    let waiting = SinkView { phase: SinkPhase::AwaitChunk, ..sink };
    assert(created.stage == StageView::Writing(waiting));
    lemma_chunks_are_written(created, waiting, chunks);
    assert(m.used.push(token) =~= m.used + seq![token]);
}

/// A sink that stores rows: the body is gathered, the row is inserted under
/// the token, and the item is recorded as stored in the row that the database
/// names, with all its bytes. Where the insert fails, the item is recorded as
/// a failure of the storage.
pub proof fn lemma_row_item_is_stored(
    m: MachineView,
    meta: ItemMetaView,
    token: Seq<char>,
    chunks: Seq<u64>,
    answer: ReplyView,
)
    requires
        can_take_up(m, meta, token, chunks),
        m.storage.kind == SinkKind::DatabaseBlob,
    ensures
        action_of(taken_up(m, meta, token)) == ActionView::NextChunk,
        action_of(filled(taken_up(m, meta, token), chunks)) == (ActionView::Insert {
            identifier: token,
        }),
        transition(filled(taken_up(m, meta, token), chunks), answer, None) == finished(
            settled(m, seq![token], total(chunks)),
            match answer {
                ReplyView::Row { id } => stored_row(token, id, total(chunks) as u64),
                _ => ItemResultView::Failed(ErrorKind::StorageBackendFailure),
            },
            false,
        ),
{
    let opened = taken_up(m, meta, token);
    let sink = sink_opened(m.storage.kind, token, meta.filename);
    crate::orchestrator::lemma_transition_wf(m, ReplyView::Item(meta), Some(token));
    assert(opened.stage == StageView::Writing(sink));
    lemma_chunks_are_written(opened, sink, chunks);
    assert(m.used.push(token) =~= m.used + seq![token]);
}

/// The machine of a converting sink once the temporary file is closed and a
/// second token is at hand: it waits for the conversion.
pub open spec fn converting(
    m: MachineView,
    meta: ItemMetaView,
    token: Seq<char>,
    chunks: Seq<u64>,
    second: Seq<char>,
) -> MachineView {
    transition(file_filled(m, meta, token, chunks), ReplyView::Done, Some(second))
}

/// The result of a conversion: the converted file under the second token
/// where the conversion worked, and a failure to decode where it did not.
pub open spec fn converted_result(m: MachineView, second: Seq<char>, answer: ReplyView) -> ItemResultView {
    match answer {
        ReplyView::Transcoded { bytes } => stored_file(
            m.storage.directory,
            second,
            converted_leaf(second, m.storage.extension),
            bytes,
        ),
        _ => ItemResultView::Failed(ErrorKind::DecodeFailure),
    }
}

/// A converting sink: the body is written to a temporary file that the first
/// token names; once that file is closed, one conversion is asked for, from
/// the temporary file to the file that the second token and the extension
/// name, to the size that the sink is set up with. Whatever the conversion
/// answers, the removal of the temporary file is asked for next. Only then is
/// the item recorded: as stored in the converted file, with the size that the
/// conversion reported, or as failed to decode. Neither the form field nor
/// the client's file name enters the name of the converted file.
pub proof fn lemma_converted_item_is_stored(
    m: MachineView,
    meta: ItemMetaView,
    token: Seq<char>,
    chunks: Seq<u64>,
    second: Seq<char>,
    answer: ReplyView,
)
    requires
        can_take_up(m, meta, token, chunks),
        m.storage.kind == SinkKind::FilesystemConverted,
        m.storage.width > 0,
        m.storage.height > 0,
        is_token(second),
        second != token,
        !m.used.contains(second),
    ensures
        action_of(taken_up(m, meta, token)) == (ActionView::Create {
            path: path_in(m.storage.directory, raw_leaf(token, meta.filename)),
        }),
        action_of(file_filled(m, meta, token, chunks)) == ActionView::Close,
        action_of(converting(m, meta, token, chunks, second)) == (ActionView::Transcode {
            source: path_in(m.storage.directory, raw_leaf(token, meta.filename)),
            target: path_in(m.storage.directory, converted_leaf(second, m.storage.extension)),
            width: m.storage.width,
            height: m.storage.height,
        }),
        action_of(transition(converting(m, meta, token, chunks, second), answer, None)) == (
        ActionView::Remove { path: path_in(m.storage.directory, raw_leaf(token, meta.filename)) }),
        transition(
            transition(converting(m, meta, token, chunks, second), answer, None),
            ReplyView::Done,
            None,
        ) == finished(
            settled(m, seq![token, second], total(chunks)),
            converted_result(m, second, answer),
            false,
        ),
{
    let opened = taken_up(m, meta, token);
    let sink = sink_opened(m.storage.kind, token, meta.filename);
    crate::orchestrator::lemma_transition_wf(m, ReplyView::Item(meta), Some(token));
    let created = transition(opened, ReplyView::Done, None);
    crate::orchestrator::lemma_transition_wf(opened, ReplyView::Done, None);
    let waiting = SinkView { phase: SinkPhase::AwaitChunk, ..sink };
    assert(created.stage == StageView::Writing(waiting));
    lemma_chunks_are_written(created, waiting, chunks);
    let closing = file_filled(m, meta, token, chunks);
    assert(closing.used == m.used.push(token));
    assert(!closing.used.contains(second)) by {
        if closing.used.contains(second) {
            let k = choose|k: int| 0 <= k < closing.used.len() && closing.used[k] == second;
            if k < m.used.len() {
                assert(m.used[k] == second);
            }
        }
    }
    assert(m.used.push(token).push(second) =~= m.used + seq![token, second]);
}

/// The item that brings the count of items taken up to the policy's limit
/// ends the request: no further item is read.
pub proof fn lemma_the_last_item_ends_the_request(m: MachineView, result: ItemResultView, stop: bool)
    requires
        m.wf(),
        !(result is Skipped),
    ensures
        count_processed(finished(m, result, stop).items) == count_processed(m.items) + 1,
        count_processed(m.items) + 1 >= m.policy.max_item_count ==> finished(
            m,
            result,
            stop,
        ).stage is Completed,
        count_processed(m.items) + 1 < m.policy.max_item_count && !stop ==> finished(
            m,
            result,
            stop,
        ).stage is AwaitItem,
{
    crate::outcome::lemma_counts_push(m.items, result);
}

} // verus!
