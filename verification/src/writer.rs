//! The field writer: one field of a request goes, chunk by chunk and in
//! the order of arrival, into one new file.
//!
//! The writer does no input or output. It decides: the caller performs
//! what an action asks for and reports the outcome as the next event.

use crate::ident::{is_object_name, StoredObjectId};
use crate::storage::{entry_path, get_filename, StorageRoot};
use vstd::prelude::*;

verus! {

/// Why a field was not stored.
#[derive(Clone, Copy, Debug, PartialEq, Eq, Structural)]
pub enum WriteError {
    /// The destination file could not be created.
    Create,
    /// A chunk could not be written to the file.
    Io,
    /// The transfer broke off: the field's bytes stopped short, or a
    /// write was abandoned before it was done.
    Incomplete,
}

/// Where a writer stands.
#[derive(Clone, Copy, Debug, PartialEq, Eq, Structural)]
pub enum WriterPhase {
    /// The file is being created; no byte of the field was asked for.
    Opening,
    /// The next chunk of the field is awaited.
    Receiving,
    /// A chunk is being written.
    Storing,
    /// The field ended and all of it is in the file.
    Completed,
    /// The transfer failed. What reached the file stays there.
    Failed(WriteError),
}

/// What the caller reports to a writer.
#[derive(Debug, PartialEq, Eq)]
pub enum WriterEvent {
    /// The file was created.
    Created,
    /// The file could not be created.
    CreateFailed,
    /// The field delivered its next chunk.
    Chunk(Vec<u8>),
    /// The field ended in good order.
    EndOfField,
    /// The field's bytes stopped short of its end.
    FieldAborted,
    /// The chunk is in the file.
    Written,
    /// Writing the chunk failed.
    WriteFailed,
    /// Writing the chunk was abandoned before it was done.
    WriteCancelled,
}

/// What a writer asks of the caller.
#[derive(Debug, PartialEq, Eq)]
pub enum WriterAction {
    /// Create a new file at this path; an existing one is a failure.
    CreateFile(String),
    /// Take the next chunk from the field.
    NextChunk,
    /// Write these bytes at the end of the file, away from the thread
    /// that serves requests.
    Store(Vec<u8>),
    /// The transfer is over: close the file and hand this outcome on.
    Finish(Result<StoredObjectId, WriteError>),
}

/// An event, as contracts see it.
pub ghost enum WriterEventView {
    Created,
    CreateFailed,
    Chunk(Seq<u8>),
    EndOfField,
    FieldAborted,
    Written,
    WriteFailed,
    WriteCancelled,
}

/// An action, as contracts see it.
pub ghost enum WriterActionView {
    CreateFile(Seq<char>),
    NextChunk,
    Store(Seq<u8>),
    Finish(Result<Seq<char>, WriteError>),
}

/// A writer, as contracts see it.
pub ghost struct WriterView {
    /// The name under which the field is stored.
    pub name: Seq<char>,
    pub phase: WriterPhase,
    /// Bytes of the field that are in the file.
    pub bytes_written: int,
    /// Length of the chunk that is being written; 0 when none is.
    pub pending: int,
}

impl View for WriterEvent {
    type V = WriterEventView;

    open spec fn view(&self) -> WriterEventView {
        match *self {
            WriterEvent::Created => WriterEventView::Created,
            WriterEvent::CreateFailed => WriterEventView::CreateFailed,
            WriterEvent::Chunk(bytes) => WriterEventView::Chunk(bytes@),
            WriterEvent::EndOfField => WriterEventView::EndOfField,
            WriterEvent::FieldAborted => WriterEventView::FieldAborted,
            WriterEvent::Written => WriterEventView::Written,
            WriterEvent::WriteFailed => WriterEventView::WriteFailed,
            WriterEvent::WriteCancelled => WriterEventView::WriteCancelled,
        }
    }
}

impl View for WriterAction {
    type V = WriterActionView;

    open spec fn view(&self) -> WriterActionView {
        match *self {
            WriterAction::CreateFile(path) => WriterActionView::CreateFile(path@),
            WriterAction::NextChunk => WriterActionView::NextChunk,
            WriterAction::Store(bytes) => WriterActionView::Store(bytes@),
            WriterAction::Finish(Ok(id)) => WriterActionView::Finish(Ok(id@)),
            WriterAction::Finish(Err(error)) => WriterActionView::Finish(Err(error)),
        }
    }
}

/// The writer `w` after a failure.
pub open spec fn failed(w: WriterView, error: WriteError) -> (WriterView, WriterActionView) {
    (
        WriterView { phase: WriterPhase::Failed(error), pending: 0, ..w },
        WriterActionView::Finish(Err(error)),
    )
}

/// One step of a writer: the state after `event`, and what to do next.
///
/// An event that does not answer the writer's last request leaves no way
/// to tell what is in the file, so it ends the transfer as incomplete.
/// A transfer that is over stays as it is.
pub open spec fn step(w: WriterView, event: WriterEventView) -> (WriterView, WriterActionView) {
    match w.phase {
        WriterPhase::Opening => match event {
            WriterEventView::Created => (
                WriterView { phase: WriterPhase::Receiving, ..w },
                WriterActionView::NextChunk,
            ),
            WriterEventView::CreateFailed => failed(w, WriteError::Create),
            _ => failed(w, WriteError::Incomplete),
        },
        WriterPhase::Receiving => match event {
            WriterEventView::Chunk(bytes) => (
                WriterView { phase: WriterPhase::Storing, pending: bytes.len() as int, ..w },
                WriterActionView::Store(bytes),
            ),
            WriterEventView::EndOfField => (
                WriterView { phase: WriterPhase::Completed, ..w },
                WriterActionView::Finish(Ok(w.name)),
            ),
            _ => failed(w, WriteError::Incomplete),
        },
        WriterPhase::Storing => match event {
            WriterEventView::Written => (
                WriterView {
                    phase: WriterPhase::Receiving,
                    bytes_written: w.bytes_written + w.pending,
                    pending: 0,
                    ..w
                },
                WriterActionView::NextChunk,
            ),
            WriterEventView::WriteFailed => failed(w, WriteError::Io),
            _ => failed(w, WriteError::Incomplete),
        },
        WriterPhase::Completed => (w, WriterActionView::Finish(Ok(w.name))),
        WriterPhase::Failed(error) => (w, WriterActionView::Finish(Err(error))),
    }
}

/// The byte count is kept in 64 bits with a sign: a chunk can be taken
/// as long as the count, with the chunk added, still fits.
pub open spec fn count_fits(w: WriterView, event: WriterEventView) -> bool {
    w.phase == WriterPhase::Receiving ==> (event matches WriterEventView::Chunk(bytes)
        ==> w.bytes_written + bytes.len() <= i64::MAX)
}

/// The transfer of one field: the state of a writer between two events.
#[derive(Debug)]
pub struct FieldWriter {
    id: StoredObjectId,
    phase: WriterPhase,
    bytes_written: i64,
    pending: usize,
}

impl View for FieldWriter {
    type V = WriterView;

    closed spec fn view(&self) -> WriterView {
        WriterView {
            name: self.id@,
            phase: self.phase,
            bytes_written: self.bytes_written as int,
            pending: self.pending as int,
        }
    }
}

impl FieldWriter {
    #[verifier::type_invariant]
    spec fn well_formed(&self) -> bool {
        &&& is_object_name(self.id@)
        &&& 0 <= self.bytes_written
        &&& self.phase == WriterPhase::Storing ==> self.bytes_written + self.pending <= i64::MAX
        &&& self.phase != WriterPhase::Storing ==> self.pending == 0
    }

    /// Begins the transfer of a field: picks the name, and asks for the
    /// file to be created under `root`.
    pub fn open(root: &StorageRoot) -> (begun: (FieldWriter, WriterAction))
        ensures
            is_object_name(begun.0@.name),
            begun.0@.phase == WriterPhase::Opening,
            begun.0@.bytes_written == 0,
            begun.0@.pending == 0,
            begun.1@ == WriterActionView::CreateFile(entry_path(root@, begun.0@.name)),
    {
        let (id, path) = get_filename(root);
        let writer = FieldWriter { id, phase: WriterPhase::Opening, bytes_written: 0, pending: 0 };
        (writer, WriterAction::CreateFile(path))
    }

    /// The name under which the field is stored.
    pub fn id(&self) -> (id: &StoredObjectId)
        ensures
            id@ == self@.name,
            is_object_name(id@),
    {
        proof {
            use_type_invariant(self);
        }
        &self.id
    }

    /// Where the writer stands.
    pub fn phase(&self) -> (phase: WriterPhase)
        ensures
            phase == self@.phase,
    {
        self.phase
    }

    /// Bytes of the field that are in the file.
    pub fn bytes_written(&self) -> (count: i64)
        ensures
            count == self@.bytes_written,
            0 <= count,
    {
        proof {
            use_type_invariant(self);
        }
        self.bytes_written
    }

    /// Tells whether `save_file` can take `event` in this state.
    pub fn can_take(&self, event: &WriterEvent) -> (fits: bool)
        ensures
            fits == count_fits(self@, event@),
    {
        proof {
            use_type_invariant(self);
        }
        match self.phase {
            WriterPhase::Receiving => match event {
                WriterEvent::Chunk(bytes) => {
                    let room: i64 = i64::MAX - self.bytes_written;
                    bytes.len() as u64 <= room as u64
                },
                _ => true,
            },
            _ => true,
        }
    }

    fn fail(self, error: WriteError) -> (next: (FieldWriter, WriterAction))
        ensures
            (next.0@, next.1@) == failed(self@, error),
    {
        proof {
            use_type_invariant(&self);
        }
        let writer = FieldWriter {
            id: self.id,
            phase: WriterPhase::Failed(error),
            bytes_written: self.bytes_written,
            pending: 0,
        };
        (writer, WriterAction::Finish(Err(error)))
    }
}

/// Stores one field: takes the writer one step on, from the outcome of
/// what it asked for last to what it asks for next.
pub fn save_file(writer: FieldWriter, event: WriterEvent) -> (next: (FieldWriter, WriterAction))
    requires
        count_fits(writer@, event@),
    ensures
        (next.0@, next.1@) == step(writer@, event@),
{
    proof {
        use_type_invariant(&writer);
    }
    match writer.phase {
        WriterPhase::Opening => match event {
            WriterEvent::Created => {
                let writer = FieldWriter {
                    id: writer.id,
                    phase: WriterPhase::Receiving,
                    bytes_written: writer.bytes_written,
                    pending: 0,
                };
                (writer, WriterAction::NextChunk)
            },
            WriterEvent::CreateFailed => writer.fail(WriteError::Create),
            _ => writer.fail(WriteError::Incomplete),
        },
        WriterPhase::Receiving => match event {
            WriterEvent::Chunk(bytes) => {
                let writer = FieldWriter {
                    id: writer.id,
                    phase: WriterPhase::Storing,
                    bytes_written: writer.bytes_written,
                    pending: bytes.len(),
                };
                (writer, WriterAction::Store(bytes))
            },
            WriterEvent::EndOfField => {
                let stored = writer.id.clone();
                let writer = FieldWriter {
                    id: writer.id,
                    phase: WriterPhase::Completed,
                    bytes_written: writer.bytes_written,
                    pending: 0,
                };
                (writer, WriterAction::Finish(Ok(stored)))
            },
            _ => writer.fail(WriteError::Incomplete),
        },
        WriterPhase::Storing => match event {
            WriterEvent::Written => {
                let writer = FieldWriter {
                    id: writer.id,
                    phase: WriterPhase::Receiving,
                    bytes_written: writer.bytes_written + writer.pending as i64,
                    pending: 0,
                };
                (writer, WriterAction::NextChunk)
            },
            WriterEvent::WriteFailed => writer.fail(WriteError::Io),
            _ => writer.fail(WriteError::Incomplete),
        },
        WriterPhase::Completed => {
            let stored = writer.id.clone();
            (writer, WriterAction::Finish(Ok(stored)))
        },
        WriterPhase::Failed(error) => (writer, WriterAction::Finish(Err(error))),
    }
}

/// A writer taken through a sequence of events: the state it ends in,
/// and the actions it asked for, one for each event.
pub open spec fn run(w: WriterView, events: Seq<WriterEventView>) -> (
    WriterView,
    Seq<WriterActionView>,
)
    decreases events.len(),
{
    if events.len() == 0 {
        (w, Seq::empty())
    } else {
        let (before, actions) = run(w, events.drop_last());
        let (after, action) = step(before, events.last());
        (after, actions.push(action))
    }
}

/// The bytes that an action sends to the file.
pub open spec fn payload(action: WriterActionView) -> Seq<u8> {
    match action {
        WriterActionView::Store(bytes) => bytes,
        _ => Seq::empty(),
    }
}

/// The bytes that a sequence of actions sends to the file, in order.
pub open spec fn stored(actions: Seq<WriterActionView>) -> Seq<u8>
    decreases actions.len(),
{
    if actions.len() == 0 {
        Seq::empty()
    } else {
        stored(actions.drop_last()) + payload(actions.last())
    }
}

/// What the caller reports while a field delivers `chunks` and each of
/// them is written.
pub open spec fn delivery(chunks: Seq<Seq<u8>>) -> Seq<WriterEventView>
    decreases chunks.len(),
{
    if chunks.len() == 0 {
        Seq::empty()
    } else {
        delivery(chunks.drop_last()).push(WriterEventView::Chunk(chunks.last())).push(
            WriterEventView::Written,
        )
    }
}

/// What the caller reports over a transfer in which nothing goes wrong:
/// the file is created, the field delivers `chunks`, and it ends.
pub open spec fn transfer(chunks: Seq<Seq<u8>>) -> Seq<WriterEventView> {
    seq![WriterEventView::Created] + delivery(chunks) + seq![WriterEventView::EndOfField]
}

/// A transfer that is over: the writer asks for nothing more.
pub open spec fn is_over(w: WriterView) -> bool {
    w.phase == WriterPhase::Completed || w.phase is Failed
}

/// The outcome of a transfer that is over.
pub open spec fn outcome(w: WriterView) -> Result<Seq<char>, WriteError> {
    match w.phase {
        WriterPhase::Failed(error) => Err(error),
        _ => Ok(w.name),
    }
}

proof fn lemma_run_append(w: WriterView, first: Seq<WriterEventView>, then: Seq<WriterEventView>)
    ensures
        run(w, first + then).0 == run(run(w, first).0, then).0,
        run(w, first + then).1 == run(w, first).1 + run(run(w, first).0, then).1,
    decreases then.len(),
{
    if then.len() > 0 {
        assert((first + then).drop_last() == first + then.drop_last());
        lemma_run_append(w, first, then.drop_last());
    }
}

proof fn lemma_run_single(w: WriterView, event: WriterEventView)
    ensures
        run(w, seq![event]) == (step(w, event).0, seq![step(w, event).1]),
{
    assert(run(w, seq![event].drop_last()) == (w, Seq::<WriterActionView>::empty()));
}

proof fn lemma_stored_append(first: Seq<WriterActionView>, then: Seq<WriterActionView>)
    ensures
        stored(first + then) == stored(first) + stored(then),
    decreases then.len(),
{
    if then.len() > 0 {
        assert((first + then).drop_last() == first + then.drop_last());
        lemma_stored_append(first, then.drop_last());
    }
}

proof fn lemma_stored_push(actions: Seq<WriterActionView>, action: WriterActionView)
    ensures
        stored(actions.push(action)) == stored(actions) + payload(action),
{
    assert(actions.push(action).drop_last() == actions);
}

proof fn lemma_stored_single(action: WriterActionView)
    ensures
        stored(seq![action]) == payload(action),
{
    assert(stored(seq![action].drop_last()) == Seq::<u8>::empty());
}

/// While chunks arrive and are written, the writer sends to the file
/// what the field delivered, byte for byte and in the order of arrival,
/// counts it, and is ready for the next chunk.
pub proof fn lemma_delivery_is_stored(w: WriterView, chunks: Seq<Seq<u8>>)
    requires
        w.phase == WriterPhase::Receiving,
        w.pending == 0,
    ensures
        run(w, delivery(chunks)).0 == (WriterView {
            bytes_written: w.bytes_written + chunks.flatten().len(),
            ..w
        }),
        stored(run(w, delivery(chunks)).1) == chunks.flatten(),
        run(w, delivery(chunks)).1.len() == 2 * chunks.len(),
    decreases chunks.len(),
{
    broadcast use Seq::lemma_flatten_push;

    if chunks.len() > 0 {
        let earlier = chunks.drop_last();
        let chunk = chunks.last();
        lemma_delivery_is_stored(w, earlier);
        assert(earlier.push(chunk) == chunks);
        let arrived = delivery(earlier).push(WriterEventView::Chunk(chunk));
        assert(delivery(chunks).drop_last() == arrived);
        assert(arrived.drop_last() == delivery(earlier));
        let (ready, asked) = run(w, delivery(earlier));
        let (busy, store) = step(ready, WriterEventView::Chunk(chunk));
        assert(run(w, arrived) == (busy, asked.push(store)));
        lemma_stored_push(asked, store);
        lemma_stored_push(asked.push(store), step(busy, WriterEventView::Written).1);
    }
}

/// Write fidelity. When nothing goes wrong, the bytes sent to the file
/// are the field's chunks joined in the order of arrival, with nothing
/// added, left out or moved; the count says how many they are; and the
/// transfer ends with the writer's name as its outcome.
pub proof fn lemma_write_fidelity(w: WriterView, chunks: Seq<Seq<u8>>)
    requires
        w.phase == WriterPhase::Opening,
        w.pending == 0,
    ensures
        run(w, transfer(chunks)).0 == (WriterView {
            phase: WriterPhase::Completed,
            bytes_written: w.bytes_written + chunks.flatten().len(),
            ..w
        }),
        stored(run(w, transfer(chunks)).1) == chunks.flatten(),
        run(w, transfer(chunks)).1.last() == WriterActionView::Finish(Ok(w.name)),
{
    let created = seq![WriterEventView::Created];
    let ended = seq![WriterEventView::EndOfField];
    let receiving = WriterView { phase: WriterPhase::Receiving, ..w };
    lemma_run_single(w, WriterEventView::Created);
    lemma_delivery_is_stored(receiving, chunks);
    lemma_run_append(w, created, delivery(chunks));
    let before_end = run(w, created + delivery(chunks));
    lemma_run_single(before_end.0, WriterEventView::EndOfField);
    lemma_run_append(w, created + delivery(chunks), ended);
    let after_end = run(before_end.0, ended);
    lemma_stored_append(run(w, created).1, run(receiving, delivery(chunks)).1);
    lemma_stored_append(before_end.1, after_end.1);
    lemma_stored_single(WriterActionView::NextChunk);
    lemma_stored_single(WriterActionView::Finish(Ok(w.name)));
}

/// A transfer that is over stays over: whatever is reported to it, the
/// writer keeps its state, sends nothing to the file, and answers with
/// the outcome it had. So nothing is written after a failure.
pub proof fn lemma_over_is_over(w: WriterView, events: Seq<WriterEventView>)
    requires
        is_over(w),
    ensures
        run(w, events).0 == w,
        run(w, events).1.len() == events.len(),
        forall|i: int|
            0 <= i < events.len() ==> #[trigger] run(w, events).1[i] == WriterActionView::Finish(
                outcome(w),
            ),
        stored(run(w, events).1) == Seq::<u8>::empty(),
    decreases events.len(),
{
    if events.len() > 0 {
        lemma_over_is_over(w, events.drop_last());
        lemma_stored_push(run(w, events.drop_last()).1, WriterActionView::Finish(outcome(w)));
    }
}

/// Create failure isolation. If the file cannot be created, the outcome
/// is `WriteError::Create`, and no action, then or later, asks the field
/// for a chunk or sends a byte to the file.
pub proof fn lemma_create_failure_reads_nothing(w: WriterView, later: Seq<WriterEventView>)
    requires
        w.phase == WriterPhase::Opening,
    ensures
        run(w, seq![WriterEventView::CreateFailed] + later).0.phase == WriterPhase::Failed(
            WriteError::Create,
        ),
        forall|i: int|
            0 <= i <= later.len() ==> #[trigger] run(
                w,
                seq![WriterEventView::CreateFailed] + later,
            ).1[i] == WriterActionView::Finish(Err(WriteError::Create)),
        stored(run(w, seq![WriterEventView::CreateFailed] + later).1) == Seq::<u8>::empty(),
{
    let refused = seq![WriterEventView::CreateFailed];
    lemma_run_single(w, WriterEventView::CreateFailed);
    let stopped = step(w, WriterEventView::CreateFailed).0;
    lemma_run_append(w, refused, later);
    lemma_over_is_over(stopped, later);
    lemma_stored_append(run(w, refused).1, run(stopped, later).1);
    lemma_stored_single(WriterActionView::Finish(Err(WriteError::Create)));
}

/// The count never runs ahead of the file. Whatever is reported to a
/// writer that has just begun, the bytes it counts as written, with the
/// chunk that is being written, are no more than the bytes it sent to
/// the file; and as long as the transfer has not failed they are
/// exactly those.
pub proof fn lemma_count_follows_stored(w: WriterView, events: Seq<WriterEventView>)
    requires
        w.phase == WriterPhase::Opening,
        w.pending == 0,
    ensures
        run(w, events).0.name == w.name,
        run(w, events).0.pending >= 0,
        run(w, events).0.bytes_written + run(w, events).0.pending <= w.bytes_written + stored(
            run(w, events).1,
        ).len(),
        !(run(w, events).0.phase is Failed) ==> run(w, events).0.bytes_written + run(
            w,
            events,
        ).0.pending == w.bytes_written + stored(run(w, events).1).len(),
        run(w, events).0.phase != WriterPhase::Storing ==> run(w, events).0.pending == 0,
        run(w, events).0.phase == WriterPhase::Opening ==> stored(run(w, events).1).len() == 0,
    decreases events.len(),
{
    if events.len() > 0 {
        lemma_count_follows_stored(w, events.drop_last());
        let (before, actions) = run(w, events.drop_last());
        lemma_stored_push(actions, step(before, events.last()).1);
    }
}

} // verus!
