//! The copying of bytes between two sockets: the buffers, the accounting, and
//! what to do as the directions of a connection end.

use vstd::prelude::*;

use crate::error::{ErrorKind, RelayError};
use crate::relay::DirectionSide;

verus! {

/// The buffer that a direction starts with. Most connections are idle or
/// short-lived.
pub const BUFFERED_INITIAL_CHUNK: usize = 4_096;

/// The buffer of a direction that has delivered sustained traffic.
pub const BUFFERED_FAST_CHUNK: usize = 32_768;

/// How much a direction delivers before its buffer grows.
pub const BUFFERED_GROW_AFTER_BYTES: u64 = 262_144;

/// How many bytes are accounted for at once.
pub const ACCOUNT_FLUSH_BYTES: u64 = 16_777_216;

/// The most that one splice into a pipe asks for.
pub const SPLICE_CHUNK: usize = 1_048_576;

/// The buffer that a direction starts with.
pub fn initial_buffer() -> (buffer: Vec<u8>)
    ensures
        buffer@ == Seq::new(BUFFERED_INITIAL_CHUNK as nat, |i: int| 0u8),
{
    let buffer = vec![0u8; BUFFERED_INITIAL_CHUNK];
    assert(buffer@ =~= Seq::new(BUFFERED_INITIAL_CHUNK as nat, |i: int| 0u8));
    buffer
}

/// The buffer after so much was delivered.
pub open spec fn grown_buffer(buffer: Seq<u8>, delivered: u64) -> Seq<u8> {
    if buffer.len() < BUFFERED_FAST_CHUNK && delivered >= BUFFERED_GROW_AFTER_BYTES {
        buffer + Seq::new((BUFFERED_FAST_CHUNK - buffer.len()) as nat, |i: int| 0u8)
    } else {
        buffer
    }
}

/// Grows a buffer once its direction has delivered sustained traffic.
pub fn maybe_grow_buffer(buffer: &mut Vec<u8>, delivered: u64)
    ensures
        final(buffer)@ == grown_buffer(old(buffer)@, delivered),
{
    if buffer.len() < BUFFERED_FAST_CHUNK && delivered >= BUFFERED_GROW_AFTER_BYTES {
        let ghost before = buffer@;
        buffer.resize(BUFFERED_FAST_CHUNK, 0);
        assert(buffer@.subrange(0, before.len() as int) == before);
        assert forall|i: int| 0 <= i < buffer@.len() implies buffer@[i] == grown_buffer(
            before,
            delivered,
        )[i] by {
            if i < before.len() {
                assert(buffer@.subrange(0, before.len() as int)[i] == buffer@[i]);
            }
        }
        assert(buffer@ =~= grown_buffer(before, delivered));
    }
}

/// The sum of two byte counts, at most the greatest 64-bit number.
pub open spec fn saturating(a: u64, b: u64) -> u64 {
    if a + b > u64::MAX {
        u64::MAX
    } else {
        (a + b) as u64
    }
}

/// What is pending, and what is handed out, once bytes were added to what was
/// pending.
pub open spec fn account_add(pending: u64, bytes: u64) -> (u64, Option<u64>) {
    let sum = saturating(pending, bytes);
    if sum >= ACCOUNT_FLUSH_BYTES {
        (0, Some(sum))
    } else {
        (sum, None)
    }
}

/// What is handed out at the end.
pub open spec fn account_rest(pending: u64) -> Option<u64> {
    if pending == 0 {
        None
    } else {
        Some(pending)
    }
}

/// Accounts for bytes in batches. What is handed out is to be counted.
#[derive(Debug)]
pub struct BatchedAccount {
    pub pending: u64,
}

impl BatchedAccount {
    /// Nothing is pending.
    pub fn new() -> (account: Self)
        ensures
            account.pending == 0,
    {
        BatchedAccount { pending: 0 }
    }

    /// Adds bytes. A full batch is handed out.
    pub fn add(&mut self, bytes: u64) -> (flushed: Option<u64>)
        ensures
            (final(self).pending, flushed) == account_add(old(self).pending, bytes),
    {
        self.pending = self.pending.saturating_add(bytes);
        if self.pending >= ACCOUNT_FLUSH_BYTES {
            self.flush()
        } else {
            None
        }
    }

    /// Hands out what is pending.
    pub fn flush(&mut self) -> (flushed: Option<u64>)
        ensures
            final(self).pending == 0,
            flushed == account_rest(old(self).pending),
    {
        if self.pending == 0 {
            return None;
        }
        let bytes = self.pending;
        self.pending = 0;
        Some(bytes)
    }
}

/// A number or nothing, as a number.
pub open spec fn amount(flushed: Option<u64>) -> nat {
    match flushed {
        Some(bytes) => bytes as nat,
        None => 0,
    }
}

/// What is pending after bytes were added in turn.
pub open spec fn pending_after(added: Seq<u64>) -> u64
    decreases added.len(),
{
    if added.len() == 0 {
        0
    } else {
        account_add(pending_after(added.drop_last()), added.last()).0
    }
}

/// What was handed out while bytes were added in turn.
pub open spec fn flushed_after(added: Seq<u64>) -> nat
    decreases added.len(),
{
    if added.len() == 0 {
        0
    } else {
        flushed_after(added.drop_last()) + amount(
            account_add(pending_after(added.drop_last()), added.last()).1,
        )
    }
}

/// The sum of byte counts.
pub open spec fn sum_of(added: Seq<u64>) -> nat
    decreases added.len(),
{
    if added.len() == 0 {
        0
    } else {
        sum_of(added.drop_last()) + added.last() as nat
    }
}

/// What was handed out while bytes were added in turn, with what the end then
/// hands out.
pub open spec fn accounted(added: Seq<u64>) -> nat {
    flushed_after(added) + amount(account_rest(pending_after(added)))
}

/// No batch was cut short at the greatest 64-bit number.
pub open spec fn batches_fit(added: Seq<u64>) -> bool
    decreases added.len(),
{
    added.len() == 0 || (batches_fit(added.drop_last()) && pending_after(added.drop_last())
        + added.last() <= u64::MAX)
}

/// Every byte is accounted for once: what was handed out, with what the end
/// hands out, is what was added. Bytes are left out only where a batch is cut
/// short at the greatest 64-bit number, and no batch is as long as all that was
/// added is within that number. Less than a batch is ever pending.
pub proof fn law_every_byte_is_accounted(added: Seq<u64>)
    ensures
        accounted(added) <= sum_of(added),
        accounted(added) == sum_of(added) <==> batches_fit(added),
        sum_of(added) <= u64::MAX ==> batches_fit(added),
        pending_after(added) < ACCOUNT_FLUSH_BYTES,
    decreases added.len(),
{
    if added.len() > 0 {
        law_every_byte_is_accounted(added.drop_last());
    }
}

/// The step that a direction is at.
#[derive(Clone, Copy, Debug, PartialEq, Eq, Structural)]
pub enum CopyState {
    Reading,
    /// So many bytes of the buffer are being written.
    Writing(usize),
    Closing,
    Over,
}

/// How the step came out.
#[derive(Clone, Copy, Debug, PartialEq, Eq, Structural)]
pub enum CopyEvent {
    /// So many bytes were read into the buffer; none at the end of the source.
    Read(usize),
    /// All bytes were written.
    Written,
    /// The destination was shut down for writing.
    Closed,
    /// The step failed with an I/O error.
    Failed,
}

/// The next step of a direction.
#[derive(Clone, Copy, Debug, PartialEq, Eq, Structural)]
pub enum CopyAction {
    /// Read into the buffer.
    Read,
    /// Write so many bytes from the start of the buffer.
    Write(usize),
    /// Shut the destination down for writing.
    ShutdownWrite,
    /// The direction has ended.
    Finish,
    /// The direction has ended with the error of the step.
    FailAsEvent,
}

/// One direction that copies through a buffer.
#[derive(Debug)]
pub struct BufferedDirection {
    pub state: CopyState,
    pub account: BatchedAccount,
    pub delivered: u64,
}

/// A direction and its buffer, over views.
#[verifier::ext_equal]
pub struct CopyView {
    pub state: CopyState,
    pub pending: u64,
    pub delivered: u64,
    pub buffer: Seq<u8>,
}

/// An event that can come now.
pub open spec fn copy_can(view: CopyView, event: CopyEvent) -> bool {
    match event {
        CopyEvent::Read(n) => view.state == CopyState::Reading && n <= view.buffer.len(),
        CopyEvent::Written => view.state is Writing,
        CopyEvent::Closed => view.state == CopyState::Closing,
        CopyEvent::Failed => view.state != CopyState::Over,
    }
}

/// The direction after an event, the next step, and the bytes to be counted
/// now. The buffer grows between a write and the next read, so that no byte
/// that waits is lost.
pub open spec fn copy_step(view: CopyView, event: CopyEvent) -> (
    CopyView,
    CopyAction,
    Option<u64>,
) {
    match event {
        CopyEvent::Read(n) => if n == 0 {
            (CopyView { state: CopyState::Closing, ..view }, CopyAction::ShutdownWrite, None)
        } else {
            (CopyView { state: CopyState::Writing(n), ..view }, CopyAction::Write(n), None)
        },
        CopyEvent::Written => {
            let n = view.state->Writing_0 as u64;
            let (pending, flushed) = account_add(view.pending, n);
            let delivered = saturating(view.delivered, n);
            (
                CopyView {
                    state: CopyState::Reading,
                    pending,
                    delivered,
                    buffer: grown_buffer(view.buffer, delivered),
                },
                CopyAction::Read,
                flushed,
            )
        },
        CopyEvent::Closed => (
            CopyView { state: CopyState::Over, pending: 0, ..view },
            CopyAction::Finish,
            account_rest(view.pending),
        ),
        CopyEvent::Failed => (
            CopyView { state: CopyState::Over, pending: 0, ..view },
            CopyAction::FailAsEvent,
            account_rest(view.pending),
        ),
    }
}

impl BufferedDirection {
    /// The direction with its buffer.
    pub open spec fn with_buffer(&self, buffer: Seq<u8>) -> CopyView {
        CopyView {
            state: self.state,
            pending: self.account.pending,
            delivered: self.delivered,
            buffer,
        }
    }

    /// A direction that has copied nothing.
    pub fn new() -> (direction: Self)
        ensures
            direction.state == CopyState::Reading,
            direction.account.pending == 0,
            direction.delivered == 0,
    {
        BufferedDirection {
            state: CopyState::Reading,
            account: BatchedAccount::new(),
            delivered: 0,
        }
    }

    /// The next step, and the bytes to be counted now.
    pub fn on_event(&mut self, buffer: &mut Vec<u8>, event: CopyEvent) -> (next: (
        CopyAction,
        Option<u64>,
    ))
        requires
            copy_can(old(self).with_buffer(old(buffer)@), event),
        ensures
            (final(self).with_buffer(final(buffer)@), next.0, next.1) == copy_step(
                old(self).with_buffer(old(buffer)@),
                event,
            ),
    {
        match event {
            CopyEvent::Read(n) => {
                if n == 0 {
                    self.state = CopyState::Closing;
                    (CopyAction::ShutdownWrite, None)
                } else {
                    self.state = CopyState::Writing(n);
                    (CopyAction::Write(n), None)
                }
            },
            CopyEvent::Written => {
                let written = match self.state {
                    CopyState::Writing(n) => n as u64,
                    _ => 0,
                };
                let flushed = self.account.add(written);
                self.delivered = self.delivered.saturating_add(written);
                maybe_grow_buffer(buffer, self.delivered);
                self.state = CopyState::Reading;
                (CopyAction::Read, flushed)
            },
            CopyEvent::Closed => {
                self.state = CopyState::Over;
                (CopyAction::Finish, self.account.flush())
            },
            CopyEvent::Failed => {
                self.state = CopyState::Over;
                (CopyAction::FailAsEvent, self.account.flush())
            },
        }
    }
}

/// What a direction has done: where it is, the bytes that it had written, in
/// order, and the bytes that it had counted.
pub struct CopyRun {
    pub view: CopyView,
    pub written: Seq<u8>,
    pub counted: nat,
}

/// A direction before the first byte, with the buffer that it starts with.
pub open spec fn copy_start(buffer: Seq<u8>) -> CopyRun {
    CopyRun {
        view: CopyView { state: CopyState::Reading, pending: 0, delivered: 0, buffer },
        written: Seq::empty(),
        counted: 0,
    }
}

/// The direction after a chunk was read into its buffer, and what it then says
/// to write was written from there.
pub open spec fn copy_chunk(run: CopyRun, chunk: Seq<u8>) -> CopyRun {
    let filled = CopyView {
        buffer: chunk + run.view.buffer.skip(chunk.len() as int),
        ..run.view
    };
    let (writing, action, none) = copy_step(filled, CopyEvent::Read(chunk.len() as usize));
    let (view, next, flushed) = copy_step(writing, CopyEvent::Written);
    CopyRun {
        view,
        written: match action {
            CopyAction::Write(n) => run.written + writing.buffer.take(n as int),
            _ => run.written,
        },
        counted: run.counted + amount(none) + amount(flushed),
    }
}

/// The direction after chunks were read in turn.
pub open spec fn copy_run(buffer: Seq<u8>, chunks: Seq<Seq<u8>>) -> CopyRun
    decreases chunks.len(),
{
    if chunks.len() == 0 {
        copy_start(buffer)
    } else {
        copy_chunk(copy_run(buffer, chunks.drop_last()), chunks.last())
    }
}

/// Each chunk fits in the buffer that there is when it is read.
pub open spec fn chunks_fit(buffer: Seq<u8>, chunks: Seq<Seq<u8>>) -> bool
    decreases chunks.len(),
{
    chunks.len() == 0 || {
        &&& chunks_fit(buffer, chunks.drop_last())
        &&& 1 <= chunks.last().len() <= copy_run(buffer, chunks.drop_last()).view.buffer.len()
    }
}

/// Chunks put together.
pub open spec fn joined(chunks: Seq<Seq<u8>>) -> Seq<u8>
    decreases chunks.len(),
{
    if chunks.len() == 0 {
        Seq::empty()
    } else {
        joined(chunks.drop_last()) + chunks.last()
    }
}

/// A direction that starts with the small buffer delivers what it reads, byte
/// for byte and in order, and counts each byte once: what is not yet counted is
/// what its end will count. Its buffer is as large as what it has delivered
/// pays for.
pub proof fn law_bytes_are_delivered_in_order(buffer: Seq<u8>, chunks: Seq<Seq<u8>>)
    requires
        buffer.len() == BUFFERED_INITIAL_CHUNK,
        chunks_fit(buffer, chunks),
    ensures
        ({
            let run = copy_run(buffer, chunks);
            &&& run.view.state == CopyState::Reading
            &&& run.written == joined(chunks)
            &&& run.counted + amount(account_rest(run.view.pending)) == joined(chunks).len()
            &&& run.view.buffer.len() == buffer_size(run.view.delivered)
            &&& joined(chunks).len() <= u64::MAX ==> run.view.delivered == joined(chunks).len()
        }),
{
    lemma_copy_run(buffer, chunks);
}

proof fn lemma_copy_run(buffer: Seq<u8>, chunks: Seq<Seq<u8>>)
    requires
        buffer.len() == BUFFERED_INITIAL_CHUNK,
        chunks_fit(buffer, chunks),
    ensures
        ({
            let run = copy_run(buffer, chunks);
            &&& run.view.state == CopyState::Reading
            &&& run.written == joined(chunks)
            &&& run.view.pending < ACCOUNT_FLUSH_BYTES
            &&& run.counted + run.view.pending == joined(chunks).len()
            &&& run.view.buffer.len() == buffer_size(run.view.delivered)
            &&& joined(chunks).len() <= u64::MAX ==> run.view.delivered == joined(chunks).len()
        }),
    decreases chunks.len(),
{
    if chunks.len() > 0 {
        let before = chunks.drop_last();
        let chunk = chunks.last();
        lemma_copy_run(buffer, before);
        let run = copy_run(buffer, before);
        let filled = chunk + run.view.buffer.skip(chunk.len() as int);
        assert(filled.len() == run.view.buffer.len());
        assert(filled.take(chunk.len() as int) =~= chunk);
        let delivered = saturating(run.view.delivered, chunk.len() as u64);
        law_buffer_is_small_until_it_pays(filled, run.view.delivered, delivered);
    }
}

/// A direction that starts with the small buffer has that one until it has
/// delivered sustained traffic, and the large one from then on.
pub proof fn law_buffer_is_small_until_it_pays(buffer: Seq<u8>, before: u64, delivered: u64)
    requires
        before <= delivered,
        buffer.len() == buffer_size(before),
    ensures
        grown_buffer(buffer, delivered).len() == buffer_size(delivered),
        buffer.is_prefix_of(grown_buffer(buffer, delivered)),
{
    assert(buffer =~= grown_buffer(buffer, delivered).subrange(0, buffer.len() as int));
}

/// The size of the buffer of a direction that has delivered so much.
pub open spec fn buffer_size(delivered: u64) -> nat {
    if delivered >= BUFFERED_GROW_AFTER_BYTES {
        BUFFERED_FAST_CHUNK as nat
    } else {
        BUFFERED_INITIAL_CHUNK as nat
    }
}

/// The error of a connection whose second direction did not end in time.
pub fn half_close_timeout_error() -> (error: RelayError)
    ensures
        error.is(
            ErrorKind::TimedOut,
            "half-closed TCP connection did not finish before deadline"@,
        ),
{
    RelayError::new(
        ErrorKind::TimedOut,
        "half-closed TCP connection did not finish before deadline",
    )
}

/// Where the two directions of a connection are.
#[derive(Clone, Copy, Debug, PartialEq, Eq, Structural)]
pub enum DuplexState {
    Both,
    /// One direction has ended; this one is awaited, with a deadline.
    Awaiting(DirectionSide),
    Over,
}

/// What happened to the directions.
#[derive(Clone, Copy, Debug, PartialEq, Eq, Structural)]
pub enum DuplexEvent {
    /// A direction ended, in order or with an error.
    Ended(DirectionSide, bool),
    /// The awaited direction did not end in time.
    TimedOut,
}

/// What to do about it.
#[derive(Debug)]
pub enum DuplexAction {
    /// Await this direction for as long as a half-closed connection may last.
    Await(DirectionSide),
    /// Both directions have ended in order.
    Finish,
    /// Shut both sockets down, and end with the error of the direction.
    FailAsEvent,
    /// Shut both sockets down, and end with this error.
    Fail(RelayError),
}

/// `DuplexAction` over views.
pub enum DuplexActionView {
    Await(DirectionSide),
    Finish,
    FailAsEvent,
    Fail(ErrorKind, Seq<char>),
}

impl View for DuplexAction {
    type V = DuplexActionView;

    open spec fn view(&self) -> DuplexActionView {
        match self {
            DuplexAction::Await(side) => DuplexActionView::Await(*side),
            DuplexAction::Finish => DuplexActionView::Finish,
            DuplexAction::FailAsEvent => DuplexActionView::FailAsEvent,
            DuplexAction::Fail(error) => DuplexActionView::Fail(error.kind, error.message@),
        }
    }
}

/// The other direction.
pub open spec fn opposite(side: DirectionSide) -> DirectionSide {
    match side {
        DirectionSide::ClientToUpstream => DirectionSide::UpstreamToClient,
        DirectionSide::UpstreamToClient => DirectionSide::ClientToUpstream,
    }
}

/// The state and what to do after an event.
pub open spec fn duplex_step(state: DuplexState, event: DuplexEvent) -> (
    DuplexState,
    DuplexActionView,
) {
    match event {
        DuplexEvent::TimedOut => (
            DuplexState::Over,
            DuplexActionView::Fail(
                ErrorKind::TimedOut,
                "half-closed TCP connection did not finish before deadline"@,
            ),
        ),
        DuplexEvent::Ended(side, in_order) => if !in_order {
            (DuplexState::Over, DuplexActionView::FailAsEvent)
        } else if state == DuplexState::Both {
            (DuplexState::Awaiting(opposite(side)), DuplexActionView::Await(opposite(side)))
        } else {
            (DuplexState::Over, DuplexActionView::Finish)
        },
    }
}

/// A connection that relays in both directions. Its sockets are to be shut down
/// if it is dropped while `armed`, so that no half-closed connection is left.
#[derive(Debug)]
pub struct Duplex {
    pub state: DuplexState,
    pub armed: bool,
}

impl Duplex {
    /// An event that can come now.
    pub open spec fn can(&self, event: DuplexEvent) -> bool {
        match event {
            DuplexEvent::Ended(side, _) => self.state == DuplexState::Both || self.state
                == DuplexState::Awaiting(side),
            DuplexEvent::TimedOut => self.state is Awaiting,
        }
    }

    /// Both directions are under way.
    pub fn new() -> (duplex: Self)
        ensures
            duplex == (Duplex { state: DuplexState::Both, armed: true }),
    {
        Duplex { state: DuplexState::Both, armed: true }
    }

    /// What to do about an event. The sockets need no shutting down once both
    /// directions have ended in order.
    pub fn on_event(&mut self, event: DuplexEvent) -> (action: DuplexAction)
        requires
            old(self).can(event),
        ensures
            (final(self).state, action@) == duplex_step(old(self).state, event),
            final(self).armed == (old(self).armed && !(action is Finish)),
    {
        match event {
            DuplexEvent::TimedOut => {
                self.state = DuplexState::Over;
                DuplexAction::Fail(half_close_timeout_error())
            },
            DuplexEvent::Ended(side, in_order) => {
                if !in_order {
                    self.state = DuplexState::Over;
                    return DuplexAction::FailAsEvent;
                }
                match self.state {
                    DuplexState::Both => {
                        let other = match side {
                            DirectionSide::ClientToUpstream => DirectionSide::UpstreamToClient,
                            DirectionSide::UpstreamToClient => DirectionSide::ClientToUpstream,
                        };
                        self.state = DuplexState::Awaiting(other);
                        DuplexAction::Await(other)
                    },
                    _ => {
                        self.state = DuplexState::Over;
                        self.armed = false;
                        DuplexAction::Finish
                    },
                }
            },
        }
    }
}

/// A connection ends in order if and only if both directions do: after the
/// first, the other is awaited, and it ends in order, in time.
pub proof fn law_ends_in_order_together(first: DirectionSide, second: DuplexEvent)
    requires
        (Duplex { state: DuplexState::Awaiting(opposite(first)), armed: true }).can(second),
    ensures
        duplex_step(DuplexState::Both, DuplexEvent::Ended(first, true)) == (
            DuplexState::Awaiting(opposite(first)),
            DuplexActionView::Await(opposite(first)),
        ),
        duplex_step(DuplexState::Awaiting(opposite(first)), second).1 is Finish <==> second
            == DuplexEvent::Ended(opposite(first), true),
        duplex_step(DuplexState::Awaiting(opposite(first)), second).0 == DuplexState::Over,
{
}

/// What to do next in a direction that splices through a pipe.
#[derive(Clone, Copy, Debug, PartialEq, Eq, Structural)]
pub enum SpliceAction {
    /// Move up to so many bytes out of the pipe.
    SpliceOut(usize),
    /// Move up to so many bytes into the pipe.
    SpliceIn(usize),
    /// Shut the destination down for writing.
    ShutdownWrite,
    /// The direction has ended.
    Finish,
}

/// How that came out.
#[derive(Clone, Copy, Debug, PartialEq, Eq, Structural)]
pub enum SpliceEvent {
    /// So many bytes were moved, or the shutdown was done.
    Done(usize),
    /// It would block.
    Pending,
    /// It failed with an I/O error.
    Failed,
}

/// What a poll of the direction comes to.
#[derive(Clone, Copy, Debug, PartialEq, Eq, Structural)]
pub enum SplicePoll {
    /// Go on with this.
    Continue(SpliceAction),
    Pending,
    /// The direction has ended.
    Ready,
    /// The direction has ended with the error of the event.
    FailAsEvent,
    /// The direction has ended with an error of this kind.
    Fail(ErrorKind),
}

/// One direction that splices through a pipe.
#[derive(Debug)]
pub struct Direction {
    pub in_pipe: usize,
    pub unaccounted: u64,
    pub source_eof: bool,
    pub destination_shutdown: bool,
    pub finished: bool,
}

/// What to do next: empty the pipe, then end or fill it again.
pub open spec fn splice_action(direction: Direction) -> SpliceAction {
    if direction.finished {
        SpliceAction::Finish
    } else if direction.in_pipe > 0 {
        SpliceAction::SpliceOut(direction.in_pipe)
    } else if direction.source_eof {
        if direction.destination_shutdown {
            SpliceAction::Finish
        } else {
            SpliceAction::ShutdownWrite
        }
    } else {
        SpliceAction::SpliceIn(SPLICE_CHUNK)
    }
}

/// The direction after what was to be done next was done, for so many bytes.
pub open spec fn splice_done(direction: Direction, moved: usize) -> Direction {
    match splice_action(direction) {
        SpliceAction::SpliceOut(_) => Direction {
            in_pipe: (direction.in_pipe - moved) as usize,
            unaccounted: saturating(direction.unaccounted, moved as u64),
            ..direction
        },
        SpliceAction::SpliceIn(_) => if moved == 0 {
            Direction { source_eof: true, ..direction }
        } else {
            Direction { in_pipe: moved, ..direction }
        },
        SpliceAction::ShutdownWrite => Direction {
            destination_shutdown: true,
            finished: true,
            ..direction
        },
        SpliceAction::Finish => direction,
    }
}

/// What a poll comes to after an event.
pub open spec fn splice_poll(direction: Direction, event: SpliceEvent) -> SplicePoll {
    match event {
        SpliceEvent::Pending => SplicePoll::Pending,
        SpliceEvent::Failed => SplicePoll::FailAsEvent,
        SpliceEvent::Done(moved) => if splice_action(direction) is SpliceOut && moved == 0 {
            SplicePoll::Fail(ErrorKind::WriteZero)
        } else {
            match splice_action(splice_done(direction, moved)) {
                SpliceAction::Finish => SplicePoll::Ready,
                action => SplicePoll::Continue(action),
            }
        },
    }
}

impl Direction {
    /// An event that can come of what was to be done next.
    pub open spec fn can(&self, event: SpliceEvent) -> bool {
        &&& !(splice_action(*self) is Finish)
        &&& event matches SpliceEvent::Done(moved) ==> match splice_action(*self) {
            SpliceAction::SpliceOut(most) => moved <= most,
            SpliceAction::SpliceIn(most) => moved <= most,
            _ => true,
        }
    }

    /// A direction that has moved nothing.
    pub fn new() -> (direction: Self)
        ensures
            direction == (Direction {
                in_pipe: 0,
                unaccounted: 0,
                source_eof: false,
                destination_shutdown: false,
                finished: false,
            }),
    {
        Direction {
            in_pipe: 0,
            unaccounted: 0,
            source_eof: false,
            destination_shutdown: false,
            finished: false,
        }
    }

    /// What to do next. A direction that has ended stays so.
    pub fn next(&self) -> (action: SpliceAction)
        ensures
            action == splice_action(*self),
    {
        if self.finished {
            return SpliceAction::Finish;
        }
        if self.in_pipe > 0 {
            return SpliceAction::SpliceOut(self.in_pipe);
        }
        if self.source_eof {
            if self.destination_shutdown {
                SpliceAction::Finish
            } else {
                SpliceAction::ShutdownWrite
            }
        } else {
            SpliceAction::SpliceIn(SPLICE_CHUNK)
        }
    }

    /// Goes on with the direction after what was to be done next came out so.
    pub fn poll_copy(&mut self, event: SpliceEvent) -> (poll: SplicePoll)
        requires
            old(self).can(event),
        ensures
            poll == splice_poll(*old(self), event),
            *final(self) == match event {
                SpliceEvent::Done(moved) => if poll is Fail {
                    *old(self)
                } else {
                    splice_done(*old(self), moved)
                },
                _ => *old(self),
            },
    {
        let moved = match event {
            SpliceEvent::Done(moved) => moved,
            SpliceEvent::Pending => return SplicePoll::Pending,
            SpliceEvent::Failed => return SplicePoll::FailAsEvent,
        };
        match self.next() {
            SpliceAction::SpliceOut(_) => {
                if moved == 0 {
                    return SplicePoll::Fail(ErrorKind::WriteZero);
                }
                self.in_pipe = self.in_pipe - moved;
                self.unaccounted = self.unaccounted.saturating_add(moved as u64);
            },
            SpliceAction::SpliceIn(_) => {
                if moved == 0 {
                    self.source_eof = true;
                } else {
                    self.in_pipe = moved;
                }
            },
            SpliceAction::ShutdownWrite => {
                self.destination_shutdown = true;
                self.finished = true;
            },
            SpliceAction::Finish => {},
        }
        match self.next() {
            SpliceAction::Finish => SplicePoll::Ready,
            action => SplicePoll::Continue(action),
        }
    }

    /// Hands out the bytes that were delivered since the last time.
    pub fn take_accounted(&mut self) -> (bytes: u64)
        ensures
            bytes == old(self).unaccounted,
            *final(self) == (Direction { unaccounted: 0, ..*old(self) }),
    {
        let bytes = self.unaccounted;
        self.unaccounted = 0;
        bytes
    }
}

/// No byte is lost in the pipe: what goes in is in the pipe, and what comes out
/// is accounted for, as long as the count is not at its end. The pipe is empty
/// when it is filled, and when the destination is shut down.
pub proof fn law_pipe_keeps_every_byte(direction: Direction, moved: usize)
    requires
        direction.can(SpliceEvent::Done(moved)),
        direction.unaccounted + moved <= u64::MAX,
    ensures
        ({
            let after = splice_done(direction, moved);
            let came_in = if splice_action(direction) is SpliceIn {
                moved as int
            } else {
                0int
            };
            after.in_pipe + after.unaccounted == direction.in_pipe + direction.unaccounted + came_in
        }),
        splice_action(direction) is SpliceIn ==> direction.in_pipe == 0,
        splice_action(direction) is ShutdownWrite ==> direction.in_pipe == 0
            && direction.source_eof,
{
}

/// A direction that has ended stays ended.
pub proof fn law_finished_stays_finished(direction: Direction)
    requires
        direction.finished,
    ensures
        splice_action(direction) == SpliceAction::Finish,
{
}

/// A buffer is small until its direction has delivered 262144 bytes, and has
/// 32768 bytes from then on. What it holds stays where it is, and what is new is
/// zero.
pub proof fn law_buffer_grows_once(buffer: Seq<u8>, delivered: u64, i: int)
    ensures
        delivered < 262_144 || buffer.len() >= 32_768 ==> grown_buffer(buffer, delivered) == buffer,
        delivered >= 262_144 && buffer.len() < 32_768 ==> {
            let grown = grown_buffer(buffer, delivered);
            &&& grown.len() == 32_768
            &&& 0 <= i < buffer.len() ==> grown[i] == buffer[i]
            &&& buffer.len() <= i < 32_768 ==> grown[i] == 0
        },
{
}

/// Bytes are kept until sixteen mebibytes of them are pending, and then handed
/// out all at once; at the end what is pending is handed out.
pub proof fn law_batches_are_handed_out(pending: u64, bytes: u64)
    ensures
        pending + bytes < 16_777_216 ==> account_add(pending, bytes) == (
            (pending + bytes) as u64,
            None::<u64>,
        ),
        16_777_216 <= pending + bytes <= u64::MAX ==> account_add(pending, bytes) == (
            0u64,
            Some((pending + bytes) as u64),
        ),
        pending + bytes > u64::MAX ==> account_add(pending, bytes) == (0u64, Some(u64::MAX)),
        pending > 0 ==> account_rest(pending) == Some(pending),
        account_rest(0) == None::<u64>,
{
}

/// What a direction reads it writes, all of it and nothing else; at the end of
/// its source it shuts its destination down, and then it is over. An error ends
/// it at once. Nothing of its buffer is lost on the way, and at the end all that
/// is pending is counted.
pub proof fn law_directions_copy_and_end(view: CopyView, n: usize)
    ensures
        n > 0 ==> copy_step(view, CopyEvent::Read(n)) == (
            CopyView { state: CopyState::Writing(n), ..view },
            CopyAction::Write(n),
            None::<u64>,
        ),
        copy_step(view, CopyEvent::Read(0)) == (
            CopyView { state: CopyState::Closing, ..view },
            CopyAction::ShutdownWrite,
            None::<u64>,
        ),
        view.state == CopyState::Writing(n) ==> {
            let (after, action, flushed) = copy_step(view, CopyEvent::Written);
            &&& after.state == CopyState::Reading
            &&& action == CopyAction::Read
            &&& (after.pending, flushed) == account_add(view.pending, n as u64)
            &&& view.delivered + n <= u64::MAX ==> after.delivered == view.delivered + n
            &&& view.delivered + n > u64::MAX ==> after.delivered == u64::MAX
            &&& after.buffer == grown_buffer(view.buffer, after.delivered)
        },
        ({
            let (closed, action, flushed) = copy_step(view, CopyEvent::Closed);
            &&& closed.state == CopyState::Over && closed.pending == 0
            &&& action == CopyAction::Finish
            &&& amount(flushed) == view.pending
        }),
        ({
            let (failed, action, flushed) = copy_step(view, CopyEvent::Failed);
            &&& failed.state == CopyState::Over && failed.pending == 0
            &&& action == CopyAction::FailAsEvent
            &&& amount(flushed) == view.pending
        }),
{
}

/// A direction that starts with the small buffer, reads chunks in turn and then
/// comes to the end of its source has written every byte in order and counted
/// every byte once, whether it is closed in order or fails.
pub proof fn law_every_byte_is_counted_at_the_end(buffer: Seq<u8>, chunks: Seq<Seq<u8>>)
    requires
        buffer.len() == 4_096,
        chunks_fit(buffer, chunks),
    ensures
        ({
            let run = copy_run(buffer, chunks);
            let (closing, action, none) = copy_step(run.view, CopyEvent::Read(0));
            &&& run.written == joined(chunks)
            &&& action == CopyAction::ShutdownWrite
            &&& run.counted + amount(none) + amount(copy_step(closing, CopyEvent::Closed).2)
                == joined(chunks).len()
            &&& run.counted + amount(copy_step(run.view, CopyEvent::Failed).2) == joined(
                chunks,
            ).len()
        }),
{
    law_bytes_are_delivered_in_order(buffer, chunks);
}

/// A direction that ends in order is followed by the other, which is awaited;
/// one that fails ends the connection at once, and so does one that does not
/// end in time.
pub proof fn law_directions_end_the_connection(state: DuplexState, side: DirectionSide)
    ensures
        duplex_step(state, DuplexEvent::Ended(side, false)) == (
            DuplexState::Over,
            DuplexActionView::FailAsEvent,
        ),
        duplex_step(state, DuplexEvent::TimedOut) == (
            DuplexState::Over,
            DuplexActionView::Fail(
                ErrorKind::TimedOut,
                "half-closed TCP connection did not finish before deadline"@,
            ),
        ),
        duplex_step(
            DuplexState::Both,
            DuplexEvent::Ended(DirectionSide::ClientToUpstream, true),
        ) == (
            DuplexState::Awaiting(DirectionSide::UpstreamToClient),
            DuplexActionView::Await(DirectionSide::UpstreamToClient),
        ),
        duplex_step(
            DuplexState::Both,
            DuplexEvent::Ended(DirectionSide::UpstreamToClient, true),
        ) == (
            DuplexState::Awaiting(DirectionSide::ClientToUpstream),
            DuplexActionView::Await(DirectionSide::ClientToUpstream),
        ),
        duplex_step(DuplexState::Awaiting(side), DuplexEvent::Ended(side, true)) == (
            DuplexState::Over,
            DuplexActionView::Finish,
        ),
{
}

/// A direction that splices empties its pipe before it does anything else, then
/// fills it again with up to a mebibyte, and at the end of its source shuts its
/// destination down and is over.
pub proof fn law_pipe_is_filled_and_emptied(direction: Direction, moved: usize)
    requires
        !direction.finished,
    ensures
        direction.in_pipe > 0 ==> splice_action(direction) == SpliceAction::SpliceOut(
            direction.in_pipe,
        ),
        direction.in_pipe == 0 && !direction.source_eof ==> splice_action(direction)
            == SpliceAction::SpliceIn(1_048_576),
        direction.in_pipe == 0 && direction.source_eof && !direction.destination_shutdown
            ==> splice_action(direction) == SpliceAction::ShutdownWrite,
        direction.in_pipe == 0 && direction.source_eof && direction.destination_shutdown
            ==> splice_action(direction) == SpliceAction::Finish,
        0 < moved <= direction.in_pipe ==> {
            let after = splice_done(direction, moved);
            &&& after.in_pipe == direction.in_pipe - moved
            &&& direction.unaccounted + moved <= u64::MAX ==> after.unaccounted
                == direction.unaccounted + moved
            &&& direction.unaccounted + moved > u64::MAX ==> after.unaccounted == u64::MAX
            &&& after.source_eof == direction.source_eof
            &&& after.destination_shutdown == direction.destination_shutdown
            &&& !after.finished
        },
        direction.in_pipe == 0 && !direction.source_eof ==> {
            let after = splice_done(direction, moved);
            &&& after.in_pipe == moved
            &&& after.unaccounted == direction.unaccounted
            &&& after.source_eof == (moved == 0)
            &&& after.destination_shutdown == direction.destination_shutdown
            &&& !after.finished
        },
        direction.in_pipe == 0 && direction.source_eof && !direction.destination_shutdown ==> {
            let after = splice_done(direction, moved);
            &&& after.finished
            &&& after.destination_shutdown
            &&& after.unaccounted == direction.unaccounted
        },
{
}

/// A direction that splices goes on with what is to be done next, waits where
/// that would block, and is over where nothing is left, where it fails, or
/// where its pipe can be emptied no further.
pub proof fn law_polls_come_to_what_is_next(direction: Direction, moved: usize)
    requires
        direction.can(SpliceEvent::Done(moved)),
    ensures
        splice_poll(direction, SpliceEvent::Pending) == SplicePoll::Pending,
        splice_poll(direction, SpliceEvent::Failed) == SplicePoll::FailAsEvent,
        direction.in_pipe > 0 && moved == 0 ==> splice_poll(direction, SpliceEvent::Done(moved))
            == SplicePoll::Fail(ErrorKind::WriteZero),
        0 < moved < direction.in_pipe ==> splice_poll(direction, SpliceEvent::Done(moved))
            == SplicePoll::Continue(SpliceAction::SpliceOut((direction.in_pipe - moved) as usize)),
        0 < moved && moved == direction.in_pipe && !direction.source_eof ==> splice_poll(
            direction,
            SpliceEvent::Done(moved),
        ) == SplicePoll::Continue(SpliceAction::SpliceIn(1_048_576)),
        0 < moved && moved == direction.in_pipe && direction.source_eof
            && !direction.destination_shutdown ==> splice_poll(direction, SpliceEvent::Done(moved))
            == SplicePoll::Continue(SpliceAction::ShutdownWrite),
        direction.in_pipe == 0 && !direction.source_eof && moved > 0 ==> splice_poll(
            direction,
            SpliceEvent::Done(moved),
        ) == SplicePoll::Continue(SpliceAction::SpliceOut(moved)),
        direction.in_pipe == 0 && !direction.source_eof && moved == 0
            && !direction.destination_shutdown ==> splice_poll(direction, SpliceEvent::Done(moved))
            == SplicePoll::Continue(SpliceAction::ShutdownWrite),
        direction.in_pipe == 0 && direction.source_eof ==> splice_poll(
            direction,
            SpliceEvent::Done(moved),
        ) == SplicePoll::Ready,
{
}

/// What is to be done about a connection is seen as what it is.
pub proof fn law_duplex_actions_are_seen(action: DuplexAction)
    ensures
        match action {
            DuplexAction::Await(side) => action@ == DuplexActionView::Await(side),
            DuplexAction::Finish => action@ == DuplexActionView::Finish,
            DuplexAction::FailAsEvent => action@ == DuplexActionView::FailAsEvent,
            DuplexAction::Fail(error) => action@ == DuplexActionView::Fail(
                error.kind,
                error.message@,
            ),
        },
{
}

/// A read may fill the buffer, and each step may come out or fail as long as the
/// direction is not over.
pub proof fn law_copy_events(view: CopyView, n: usize)
    ensures
        copy_can(view, CopyEvent::Read(n)) <==> view.state == CopyState::Reading && n
            <= view.buffer.len(),
        view.state == CopyState::Writing(n) ==> copy_can(view, CopyEvent::Written),
        view.state == CopyState::Reading || view.state == CopyState::Closing || view.state
            == CopyState::Over ==> !copy_can(view, CopyEvent::Written),
        copy_can(view, CopyEvent::Closed) <==> view.state == CopyState::Closing,
        copy_can(view, CopyEvent::Failed) <==> !(view.state == CopyState::Over),
{
}

/// Either direction may end first, then the other may end or be late.
pub proof fn law_duplex_events(duplex: Duplex, side: DirectionSide, in_order: bool)
    ensures
        duplex.can(DuplexEvent::Ended(side, in_order)) <==> duplex.state == DuplexState::Both
            || duplex.state == DuplexState::Awaiting(side),
        duplex.can(DuplexEvent::TimedOut) <==> duplex.state != DuplexState::Both && duplex.state
            != DuplexState::Over,
{
}

/// As long as something is to be done it may come out for as many bytes as it is
/// for, block or fail.
pub proof fn law_splice_events(direction: Direction, moved: usize)
    ensures
        direction.can(SpliceEvent::Pending) <==> splice_action(direction) != SpliceAction::Finish,
        direction.can(SpliceEvent::Failed) <==> splice_action(direction) != SpliceAction::Finish,
        direction.can(SpliceEvent::Done(moved)) <==> match splice_action(direction) {
            SpliceAction::SpliceOut(most) => moved <= most,
            SpliceAction::SpliceIn(most) => moved <= most,
            SpliceAction::ShutdownWrite => true,
            SpliceAction::Finish => false,
        },
{
}

} // verus!
