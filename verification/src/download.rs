//! The decisions of one download stream: what to request, which answer to
//! accept, where each chunk goes, and how the stream ends. The caller performs
//! each action (sends the request, writes the chunk, waits under the idle
//! watchdog) and hands back what happened as the next event.

use crate::error::{TimeoutError, TransferError};
use crate::segment::Segment;
use crate::text::{decimal, push_decimal, push_str, string_of};
use vstd::prelude::*;

verus! {

/// What a stream fetches.
#[derive(Debug, Clone, Copy, PartialEq, Eq, Structural)]
pub enum Mode {
    /// The whole rest of a resource of `total_size` bytes (0: unknown size),
    /// appended to the destination.
    Single { total_size: u64 },
    /// One segment of a parallel download, up to and including
    /// `end_inclusive`, written at its own position of a shared destination.
    Segment { end_inclusive: u64 },
}

/// Where a stream stands.
#[derive(Debug, Clone, Copy, PartialEq, Eq, Structural)]
pub enum Phase {
    Ready,
    AwaitingResponse,
    Streaming,
    Completed,
    Failed,
}

/// What happened since the last action.
#[derive(Debug, Clone, Copy, PartialEq, Eq, Structural)]
pub enum StreamEvent {
    /// The stream is asked to begin.
    Begin,
    /// The request could not be sent or was not answered.
    SendFailed { timed_out: bool },
    /// The server answered with this status.
    Response { status: u16 },
    /// A chunk of `len` bytes arrived.
    Chunk { len: u64 },
    /// The transport failed while a chunk was awaited.
    ReceiveFailed,
    /// The chunk could not be written.
    WriteFailed,
    /// No chunk arrived within the idle timeout.
    Idle,
    /// The body ended.
    End,
}

/// What the caller does next.
#[derive(Debug, Clone, Copy, PartialEq, Eq, Structural)]
pub enum StreamAction {
    /// Send a GET request; with `from` a `Range` header from that byte, up to
    /// and including `to` where it is given.
    Send { from: Option<u64>, to: Option<u64> },
    /// Wait for the next chunk under the idle watchdog.
    AwaitChunk,
    /// Write the chunk that arrived at byte `at` of the destination, report
    /// the progress, then wait for the next chunk.
    Write { at: u64, len: u64 },
    /// The stream is done; this many bytes were written by it.
    Finish { bytes_written: u64 },
    /// The stream failed. What was written stays where it is.
    Abort(TransferError),
    /// The event does not belong to this phase; nothing changed.
    Unexpected,
}

/// One download stream.
#[derive(Debug, Clone, Copy, PartialEq, Eq, Structural)]
pub struct Stream {
    pub mode: Mode,
    /// The first byte that this stream fetches.
    pub origin: u64,
    /// The byte of the destination at which the next chunk is written.
    pub position: u64,
    /// The idle timeout in seconds.
    pub idle_timeout: u64,
    pub phase: Phase,
}

impl Stream {
    /// Whether nothing is left to fetch: the size is known and the
    /// destination holds at least that many bytes.
    pub open spec fn already_complete(self) -> bool {
        self.mode matches Mode::Single { total_size } && total_size > 0 && self.origin
            >= total_size
    }

    /// The request that a stream begins with.
    pub open spec fn request(self) -> StreamAction {
        match self.mode {
            Mode::Single { .. } => StreamAction::Send {
                from: if self.origin > 0 {
                    Some(self.origin)
                } else {
                    None
                },
                to: None,
            },
            Mode::Segment { end_inclusive } => StreamAction::Send {
                from: Some(self.origin),
                to: Some(end_inclusive),
            },
        }
    }

    /// The statuses with which the body is read. A segment needs 206. A
    /// single stream that asked for a range needs 200 or 206; one that asked
    /// for the whole resource takes any success status.
    pub open spec fn accepts(self, status: u16) -> bool {
        match self.mode {
            Mode::Single { .. } => if self.origin > 0 {
                status == 200 || status == 206
            } else {
                200 <= status < 300
            },
            Mode::Segment { .. } => status == 206,
        }
    }

    /// The bytes that this stream has written.
    pub open spec fn written(self) -> int {
        self.position - self.origin
    }

    /// The stream in another phase.
    pub open spec fn in_phase(self, phase: Phase) -> Stream {
        Stream { phase, ..self }
    }

    /// The state after an event.
    pub open spec fn next(self, event: StreamEvent) -> Stream {
        match (self.phase, event) {
            (Phase::Ready, StreamEvent::Begin) => if self.already_complete() {
                self.in_phase(Phase::Completed)
            } else {
                self.in_phase(Phase::AwaitingResponse)
            },
            (Phase::AwaitingResponse, StreamEvent::SendFailed { .. }) => self.in_phase(
                Phase::Failed,
            ),
            (Phase::AwaitingResponse, StreamEvent::Response { status }) => if self.accepts(
                status,
            ) {
                self.in_phase(Phase::Streaming)
            } else {
                self.in_phase(Phase::Failed)
            },
            (Phase::Streaming, StreamEvent::Chunk { len }) => Stream {
                position: (self.position + len) as u64,
                ..self
            },
            (Phase::Streaming, StreamEvent::ReceiveFailed) => self.in_phase(Phase::Failed),
            (Phase::Streaming, StreamEvent::WriteFailed) => self.in_phase(Phase::Failed),
            (Phase::Streaming, StreamEvent::Idle) => self.in_phase(Phase::Failed),
            (Phase::Streaming, StreamEvent::End) => self.in_phase(Phase::Completed),
            _ => self,
        }
    }

    /// The action that answers an event.
    pub open spec fn action(self, event: StreamEvent) -> StreamAction {
        match (self.phase, event) {
            (Phase::Ready, StreamEvent::Begin) => if self.already_complete() {
                StreamAction::Finish { bytes_written: 0 }
            } else {
                self.request()
            },
            (Phase::AwaitingResponse, StreamEvent::SendFailed { timed_out }) => if timed_out {
                StreamAction::Abort(TransferError::Timeout(TimeoutError::ConnectTimeout))
            } else {
                StreamAction::Abort(TransferError::Network)
            },
            (Phase::AwaitingResponse, StreamEvent::Response { status }) => if self.accepts(
                status,
            ) {
                StreamAction::AwaitChunk
            } else {
                StreamAction::Abort(TransferError::Protocol(status))
            },
            (Phase::Streaming, StreamEvent::Chunk { len }) => StreamAction::Write {
                at: self.position,
                len,
            },
            (Phase::Streaming, StreamEvent::ReceiveFailed) => StreamAction::Abort(
                TransferError::Network,
            ),
            (Phase::Streaming, StreamEvent::WriteFailed) => StreamAction::Abort(
                TransferError::Filesystem,
            ),
            (Phase::Streaming, StreamEvent::Idle) => StreamAction::Abort(
                TransferError::Timeout(TimeoutError::IdleTimeout(self.idle_timeout)),
            ),
            (Phase::Streaming, StreamEvent::End) => StreamAction::Finish {
                bytes_written: (self.position - self.origin) as u64,
            },
            _ => StreamAction::Unexpected,
        }
    }

    /// The position never lies before the origin.
    pub open spec fn wf(self) -> bool {
        self.origin <= self.position
    }

    /// A single stream that resumes at `resume_offset` a resource of
    /// `total_size` bytes (0: unknown).
    pub fn single(resume_offset: u64, total_size: u64, idle_timeout: u64) -> (s: Self)
        ensures
            s == (Stream {
                mode: Mode::Single { total_size },
                origin: resume_offset,
                position: resume_offset,
                idle_timeout,
                phase: Phase::Ready,
            }),
            s.wf(),
    {
        Stream {
            mode: Mode::Single { total_size },
            origin: resume_offset,
            position: resume_offset,
            idle_timeout,
            phase: Phase::Ready,
        }
    }

    /// The stream of one worker of a parallel download.
    pub fn for_segment(segment: &Segment, idle_timeout: u64) -> (s: Self)
        ensures
            s == (Stream {
                mode: Mode::Segment { end_inclusive: segment.range_end_inclusive },
                origin: segment.range_start,
                position: segment.range_start,
                idle_timeout,
                phase: Phase::Ready,
            }),
            s.wf(),
    {
        Stream {
            mode: Mode::Segment { end_inclusive: segment.range_end_inclusive },
            origin: segment.range_start,
            position: segment.range_start,
            idle_timeout,
            phase: Phase::Ready,
        }
    }

    /// Whether the body is read when the server answers with `status`.
    pub fn accepts_status(&self, status: u16) -> (r: bool)
        ensures
            r == self.accepts(status),
    {
        match self.mode {
            Mode::Single { .. } => if self.origin > 0 {
                status == 200 || status == 206
            } else {
                200 <= status && status < 300
            },
            Mode::Segment { .. } => status == 206,
        }
    }

    /// Takes in an event and says what to do next. The position moves only
    /// forward, by the length of each chunk; a failure leaves it where it is.
    pub fn step(&mut self, event: StreamEvent) -> (action: StreamAction)
        requires
            old(self).wf(),
            event matches StreamEvent::Chunk { len } ==> old(self).position + len <= u64::MAX,
        ensures
            *final(self) == old(self).next(event),
            action == old(self).action(event),
            final(self).wf(),
            final(self).position >= old(self).position,
            final(self).origin == old(self).origin,
            !(old(self).phase is Streaming && event is Chunk) ==> final(self).position == old(self).position,
    {
        match (self.phase, event) {
            (Phase::Ready, StreamEvent::Begin) => {
                let done = match self.mode {
                    Mode::Single { total_size } => total_size > 0 && self.origin >= total_size,
                    Mode::Segment { .. } => false,
                };
                if done {
                    self.phase = Phase::Completed;
                    StreamAction::Finish { bytes_written: 0 }
                } else {
                    self.phase = Phase::AwaitingResponse;
                    match self.mode {
                        Mode::Single { .. } => StreamAction::Send {
                            from: if self.origin > 0 {
                                Some(self.origin)
                            } else {
                                None
                            },
                            to: None,
                        },
                        Mode::Segment { end_inclusive } => StreamAction::Send {
                            from: Some(self.origin),
                            to: Some(end_inclusive),
                        },
                    }
                }
            },
            (Phase::AwaitingResponse, StreamEvent::SendFailed { timed_out }) => {
                self.phase = Phase::Failed;
                if timed_out {
                    StreamAction::Abort(TransferError::Timeout(TimeoutError::ConnectTimeout))
                } else {
                    StreamAction::Abort(TransferError::Network)
                }
            },
            (Phase::AwaitingResponse, StreamEvent::Response { status }) => {
                if self.accepts_status(status) {
                    self.phase = Phase::Streaming;
                    StreamAction::AwaitChunk
                } else {
                    self.phase = Phase::Failed;
                    StreamAction::Abort(TransferError::Protocol(status))
                }
            },
            (Phase::Streaming, StreamEvent::Chunk { len }) => {
                let at = self.position;
                self.position = at + len;
                StreamAction::Write { at, len }
            },
            (Phase::Streaming, StreamEvent::ReceiveFailed) => {
                self.phase = Phase::Failed;
                StreamAction::Abort(TransferError::Network)
            },
            (Phase::Streaming, StreamEvent::WriteFailed) => {
                self.phase = Phase::Failed;
                StreamAction::Abort(TransferError::Filesystem)
            },
            (Phase::Streaming, StreamEvent::Idle) => {
                self.phase = Phase::Failed;
                StreamAction::Abort(
                    TransferError::Timeout(TimeoutError::IdleTimeout(self.idle_timeout)),
                )
            },
            (Phase::Streaming, StreamEvent::End) => {
                self.phase = Phase::Completed;
                StreamAction::Finish { bytes_written: self.position - self.origin }
            },
            _ => StreamAction::Unexpected,
        }
    }

    /// The bytes that this stream has written so far.
    pub fn bytes_written(&self) -> (n: u64)
        requires
            self.wf(),
        ensures
            n == self.written(),
    {
        self.position - self.origin
    }

    /// Whether the stream has ended, well or not.
    pub fn is_finished(&self) -> (r: bool)
        ensures
            r == (self.phase is Completed || self.phase is Failed),
    {
        match self.phase {
            Phase::Completed => true,
            Phase::Failed => true,
            _ => false,
        }
    }
}

/// A single stream whose destination already holds the whole resource ends at
/// once and well, and writes nothing.
pub proof fn lemma_complete_resource_short_circuits(
    resume_offset: u64,
    total_size: u64,
    idle_timeout: u64,
)
    requires
        resume_offset >= total_size > 0,
    ensures
        ({
            let s = Stream {
                mode: Mode::Single { total_size },
                origin: resume_offset,
                position: resume_offset,
                idle_timeout,
                phase: Phase::Ready,
            };
            &&& s.action(StreamEvent::Begin) == StreamAction::Finish { bytes_written: 0 }
            &&& s.next(StreamEvent::Begin).phase is Completed
            &&& s.next(StreamEvent::Begin).position == resume_offset
        }),
{
}

/// The sum of the lengths of chunks.
pub open spec fn total_len(lens: Seq<u64>) -> int
    decreases lens.len(),
{
    if lens.len() == 0 {
        0
    } else {
        total_len(lens.drop_last()) + lens.last()
    }
}

/// The stream after chunks of these lengths arrived one after another.
pub open spec fn after_chunks(stream: Stream, lens: Seq<u64>) -> Stream
    decreases lens.len(),
{
    if lens.len() == 0 {
        stream
    } else {
        after_chunks(stream, lens.drop_last()).next(StreamEvent::Chunk { len: lens.last() })
    }
}

/// While a stream reads a body, its chunks are written back to back in the
/// order of their arrival: each one at the position of the stream before the
/// first of them plus the lengths of those before it.
pub proof fn lemma_chunks_are_written_back_to_back(stream: Stream, lens: Seq<u64>)
    requires
        stream.phase is Streaming,
        stream.position + total_len(lens) <= u64::MAX,
    ensures
        after_chunks(stream, lens).phase is Streaming,
        after_chunks(stream, lens).position == stream.position + total_len(lens),
        after_chunks(stream, lens).origin == stream.origin,
        forall|k: int|
            0 <= k < lens.len() ==> after_chunks(stream, #[trigger] lens.take(k)).action(
                StreamEvent::Chunk { len: lens[k] },
            ) == (StreamAction::Write {
                at: (stream.position + total_len(lens.take(k))) as u64,
                len: lens[k],
            }),
{
    lemma_position_after(stream, lens);
    assert forall|k: int| 0 <= k < lens.len() implies after_chunks(
        stream,
        #[trigger] lens.take(k),
    ).action(StreamEvent::Chunk { len: lens[k] }) == (StreamAction::Write {
        at: (stream.position + total_len(lens.take(k))) as u64,
        len: lens[k],
    }) by {
        lemma_total_len_prefix(lens, k);
        lemma_total_len_bounds(lens.take(k));
        lemma_position_after(stream, lens.take(k));
    }
}

proof fn lemma_total_len_bounds(lens: Seq<u64>)
    ensures
        0 <= total_len(lens),
    decreases lens.len(),
{
    if lens.len() > 0 {
        lemma_total_len_bounds(lens.drop_last());
    }
}

proof fn lemma_total_len_prefix(lens: Seq<u64>, k: int)
    requires
        0 <= k <= lens.len(),
    ensures
        total_len(lens.take(k)) <= total_len(lens),
    decreases lens.len() - k,
{
    if k == lens.len() {
        assert(lens.take(k) =~= lens);
    } else {
        lemma_total_len_prefix(lens.drop_last(), k);
        assert(lens.drop_last().take(k) =~= lens.take(k));
    }
}

proof fn lemma_position_after(stream: Stream, lens: Seq<u64>)
    requires
        stream.phase is Streaming,
        stream.position + total_len(lens) <= u64::MAX,
    ensures
        after_chunks(stream, lens).phase is Streaming,
        after_chunks(stream, lens).position == stream.position + total_len(lens),
        after_chunks(stream, lens).origin == stream.origin,
    decreases lens.len(),
{
    lemma_total_len_bounds(lens);
    if lens.len() > 0 {
        lemma_total_len_bounds(lens.drop_last());
        lemma_position_after(stream, lens.drop_last());
    }
}

/// The value of the `Range` header of a request.
pub open spec fn range_value(from: u64, to: Option<u64>) -> Seq<char> {
    match to {
        Some(end) => "bytes="@ + decimal(from as nat) + "-"@ + decimal(end as nat),
        None => "bytes="@ + decimal(from as nat) + "-"@,
    }
}

/// The value of the `Range` header that a `Send` action asks for, if any.
pub fn range_header(from: Option<u64>, to: Option<u64>) -> (r: Option<String>)
    ensures
        from is None ==> r is None,
        from matches Some(start) ==> r matches Some(text) && text@ == range_value(start, to),
{
    match from {
        None => None,
        Some(start) => {
            let mut out: Vec<char> = Vec::new();
            push_str(&mut out, "bytes=");
            push_decimal(&mut out, start);
            push_str(&mut out, "-");
            match to {
                Some(end) => {
                    push_decimal(&mut out, end);
                },
                None => {},
            }
            assert(out@ =~= range_value(start, to));
            Some(string_of(&out))
        },
    }
}

/// The body that a server which honours byte ranges sends for a request:
/// the resource from byte `from` on, or all of it without a range.
pub open spec fn body_for(resource: Seq<u8>, from: Option<u64>) -> Seq<u8> {
    match from {
        Some(k) => if k <= resource.len() {
            resource.skip(k as int)
        } else {
            Seq::empty()
        },
        None => resource,
    }
}

/// The destination after a single stream ran to its end without failure
/// against a server that honours byte ranges, where the destination held
/// `file` before and the probe gave the size of `resource`.
pub open spec fn destination_after(file: Seq<u8>, resource: Seq<u8>, idle_timeout: u64) -> Seq<u8> {
    let stream = Stream {
        mode: Mode::Single { total_size: resource.len() as u64 },
        origin: file.len() as u64,
        position: file.len() as u64,
        idle_timeout,
        phase: Phase::Ready,
    };
    match stream.action(StreamEvent::Begin) {
        StreamAction::Send { from, .. } => file + body_for(resource, from),
        _ => file,
    }
}

/// Resuming is idempotent: a run that resumes from exactly the bytes that an
/// earlier run left behind ends with the same destination as one run that
/// was never interrupted, namely the resource itself.
pub proof fn lemma_resume_is_idempotent(resource: Seq<u8>, left_behind: int, idle_timeout: u64)
    requires
        0 <= left_behind <= resource.len() <= u64::MAX,
    ensures
        destination_after(resource.take(left_behind), resource, idle_timeout) == resource,
        destination_after(Seq::empty(), resource, idle_timeout) == resource,
        destination_after(resource.take(left_behind), resource, idle_timeout) == destination_after(
            Seq::empty(),
            resource,
            idle_timeout,
        ),
{
    let file = resource.take(left_behind);
    assert(file + resource.skip(left_behind) =~= resource);
    assert(Seq::<u8>::empty() + resource =~= resource);
    if left_behind == resource.len() {
        assert(file =~= resource);
        assert(file + Seq::<u8>::empty() =~= resource);
    }
    assert(resource.skip(0) =~= resource);
}

/// The first failure among the outcomes of the workers, in index order, with
/// the index of its worker. One failed worker fails the whole download. The
/// outcomes are those of workers that have ended: no worker is cancelled on
/// behalf of another, and what any of them wrote stays where it is.
pub fn first_failure(outcomes: &Vec<Option<TransferError>>) -> (r: Option<(usize, TransferError)>)
    ensures
        r is None <==> forall|i: int| 0 <= i < outcomes@.len() ==> outcomes@[i] is None,
        r matches Some((index, error)) ==> {
            &&& index < outcomes@.len()
            &&& outcomes@[index as int] == Some(error)
            &&& forall|i: int| 0 <= i < index ==> outcomes@[i] is None
        },
{
    let mut i: usize = 0;
    while i < outcomes.len()
        invariant
            i <= outcomes.len(),
            forall|k: int| 0 <= k < i ==> outcomes@[k] is None,
        decreases outcomes.len() - i,
    {
        match outcomes[i] {
            Some(error) => {
                return Some((i, error));
            },
            None => {},
        }
        i = i + 1;
    }
    None
}

/// The counter of one transfer that every worker adds to and a display reads.
/// It never goes down.
#[derive(Debug, Clone, Copy, PartialEq, Eq, Structural)]
pub struct TransferProgress {
    pub bytes_transferred: u64,
    pub total_bytes: u64,
}

impl TransferProgress {
    /// The progress of a transfer of `total_bytes` of which `initial` are
    /// already there.
    pub fn new(total_bytes: u64, initial: u64) -> (p: Self)
        ensures
            p.total_bytes == total_bytes,
            p.bytes_transferred == initial,
    {
        TransferProgress { bytes_transferred: initial, total_bytes }
    }

    /// Adds the length of a chunk. The count stops at the largest number
    /// that it can hold.
    pub fn advance(&mut self, len: u64)
        ensures
            final(self).total_bytes == old(self).total_bytes,
            final(self).bytes_transferred == if old(self).bytes_transferred + len <= u64::MAX {
                (old(self).bytes_transferred + len) as u64
            } else {
                u64::MAX
            },
            final(self).bytes_transferred >= old(self).bytes_transferred,
    {
        if len > u64::MAX - self.bytes_transferred {
            self.bytes_transferred = u64::MAX;
        } else {
            self.bytes_transferred = self.bytes_transferred + len;
        }
    }

    /// Whether the size was known and all of it has been transferred.
    pub fn is_complete(&self) -> (r: bool)
        ensures
            r == (self.total_bytes > 0 && self.bytes_transferred >= self.total_bytes),
    {
        self.total_bytes > 0 && self.bytes_transferred >= self.total_bytes
    }
}

} // verus!
