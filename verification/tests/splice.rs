use exact_sni_relay::error::ErrorKind;
use exact_sni_relay::relay::DirectionSide;
use exact_sni_relay::splice::{
    half_close_timeout_error, initial_buffer, maybe_grow_buffer, BatchedAccount, BufferedDirection, CopyAction,
    CopyEvent, CopyState, Direction, Duplex, DuplexAction, DuplexEvent, SpliceAction, SpliceEvent,
    SplicePoll, ACCOUNT_FLUSH_BYTES, BUFFERED_FAST_CHUNK, BUFFERED_GROW_AFTER_BYTES,
    BUFFERED_INITIAL_CHUNK, SPLICE_CHUNK,
};

#[test]
fn buffered_accounting_batches_and_flushes_tail_on_drop() {
    let mut flushed = Vec::new();
    {
        let mut accounting = BatchedAccount::new();
        flushed.extend(accounting.add(ACCOUNT_FLUSH_BYTES - 1));
        assert!(flushed.is_empty());
        flushed.extend(accounting.add(1));
        assert_eq!(*flushed, [ACCOUNT_FLUSH_BYTES]);
        flushed.extend(accounting.add(17));
        flushed.extend(accounting.flush());
    }
    assert_eq!(*flushed, [ACCOUNT_FLUSH_BYTES, 17]);
}

#[test]
fn buffered_storage_grows_only_after_sustained_delivery() {
    let mut buffer = vec![0; BUFFERED_INITIAL_CHUNK];
    maybe_grow_buffer(&mut buffer, BUFFERED_GROW_AFTER_BYTES - 1);
    assert_eq!(buffer.len(), BUFFERED_INITIAL_CHUNK);
    maybe_grow_buffer(&mut buffer, BUFFERED_GROW_AFTER_BYTES);
    assert_eq!(buffer.len(), BUFFERED_FAST_CHUNK);
    maybe_grow_buffer(&mut buffer, u64::MAX);
    assert_eq!(buffer.len(), BUFFERED_FAST_CHUNK);
}

#[test]
fn growing_keeps_the_bytes() {
    let mut buffer = vec![9; 10];
    maybe_grow_buffer(&mut buffer, BUFFERED_GROW_AFTER_BYTES);
    assert_eq!(&buffer[..11], [9, 9, 9, 9, 9, 9, 9, 9, 9, 9, 0]);
}

#[test]
fn every_byte_is_accounted_once() {
    let mut accounting = BatchedAccount::new();
    let mut counted = 0;
    let mut added = 0;
    for step in 0..400u64 {
        let bytes = step * 1000;
        added += bytes;
        counted += accounting.add(bytes).unwrap_or(0);
    }
    counted += accounting.flush().unwrap_or(0);
    assert_eq!(counted, added);
    assert_eq!(accounting.flush(), None);
    assert_eq!(accounting.add(u64::MAX), Some(u64::MAX));
}

#[test]
fn batch_is_cut_short_at_the_greatest_number_only() {
    let mut account = BatchedAccount::new();
    assert_eq!(account.add(1), None);
    assert_eq!(account.add(u64::MAX - 1), Some(u64::MAX));
    assert_eq!(account.flush(), None);
    assert_eq!(account.add(1), None);
    assert_eq!(account.add(u64::MAX), Some(u64::MAX));
    assert_eq!(account.flush(), None);
}

#[test]
fn direction_reads_writes_and_closes() {
    let mut direction = BufferedDirection::new();
    let mut buffer = vec![0; BUFFERED_INITIAL_CHUNK];
    assert_eq!(
        direction.on_event(&mut buffer, CopyEvent::Read(5)),
        (CopyAction::Write(5), None)
    );
    assert_eq!(
        direction.on_event(&mut buffer, CopyEvent::Written),
        (CopyAction::Read, None)
    );
    assert_eq!(direction.delivered, 5);
    for _ in 0..64 {
        direction.on_event(&mut buffer, CopyEvent::Read(4096));
        direction.on_event(&mut buffer, CopyEvent::Written);
    }
    assert_eq!(buffer.len(), BUFFERED_FAST_CHUNK);
    assert_eq!(
        direction.on_event(&mut buffer, CopyEvent::Read(0)),
        (CopyAction::ShutdownWrite, None)
    );
    assert_eq!(
        direction.on_event(&mut buffer, CopyEvent::Closed),
        (CopyAction::Finish, Some(5 + 64 * 4096))
    );
    assert_eq!(direction.state, CopyState::Over);
}

#[test]
fn failed_direction_still_accounts() {
    let mut direction = BufferedDirection::new();
    let mut buffer = vec![0; BUFFERED_INITIAL_CHUNK];
    direction.on_event(&mut buffer, CopyEvent::Read(7));
    direction.on_event(&mut buffer, CopyEvent::Written);
    direction.on_event(&mut buffer, CopyEvent::Read(9));
    assert_eq!(
        direction.on_event(&mut buffer, CopyEvent::Failed),
        (CopyAction::FailAsEvent, Some(7))
    );
}

#[test]
fn connection_ends_in_order_only_if_both_directions_do() {
    let client = DirectionSide::ClientToUpstream;
    let upstream = DirectionSide::UpstreamToClient;
    let mut duplex = Duplex::new();
    assert!(matches!(
        duplex.on_event(DuplexEvent::Ended(client, true)),
        DuplexAction::Await(DirectionSide::UpstreamToClient)
    ));
    assert!(duplex.armed);
    assert!(matches!(
        duplex.on_event(DuplexEvent::Ended(upstream, true)),
        DuplexAction::Finish
    ));
    assert!(!duplex.armed);

    let mut reset = Duplex::new();
    assert!(matches!(
        reset.on_event(DuplexEvent::Ended(upstream, false)),
        DuplexAction::FailAsEvent
    ));
    assert!(reset.armed);

    let mut stalled = Duplex::new();
    assert!(matches!(
        stalled.on_event(DuplexEvent::Ended(upstream, true)),
        DuplexAction::Await(DirectionSide::ClientToUpstream)
    ));
    match stalled.on_event(DuplexEvent::TimedOut) {
        DuplexAction::Fail(error) => {
            assert_eq!(error.kind, ErrorKind::TimedOut);
            assert_eq!(error.message, half_close_timeout_error().message);
        }
        other => panic!("{other:?}"),
    }
    assert!(stalled.armed);
    assert_eq!(
        half_close_timeout_error().message,
        "half-closed TCP connection did not finish before deadline"
    );
}

#[test]
fn spliced_direction_empties_the_pipe_before_it_ends() {
    let mut direction = Direction::new();
    assert_eq!(direction.next(), SpliceAction::SpliceIn(SPLICE_CHUNK));
    assert_eq!(direction.poll_copy(SpliceEvent::Pending), SplicePoll::Pending);
    assert_eq!(
        direction.poll_copy(SpliceEvent::Done(10)),
        SplicePoll::Continue(SpliceAction::SpliceOut(10))
    );
    assert_eq!(
        direction.poll_copy(SpliceEvent::Done(4)),
        SplicePoll::Continue(SpliceAction::SpliceOut(6))
    );
    assert_eq!(direction.take_accounted(), 4);
    assert_eq!(direction.take_accounted(), 0);
    assert_eq!(
        direction.poll_copy(SpliceEvent::Done(0)),
        SplicePoll::Fail(ErrorKind::WriteZero)
    );
    assert_eq!(
        direction.poll_copy(SpliceEvent::Done(6)),
        SplicePoll::Continue(SpliceAction::SpliceIn(SPLICE_CHUNK))
    );
    assert_eq!(
        direction.poll_copy(SpliceEvent::Done(0)),
        SplicePoll::Continue(SpliceAction::ShutdownWrite)
    );
    assert_eq!(
        direction.poll_copy(SpliceEvent::Failed),
        SplicePoll::FailAsEvent
    );
    assert_eq!(direction.poll_copy(SpliceEvent::Done(0)), SplicePoll::Ready);
    assert_eq!(direction.next(), SpliceAction::Finish);
    assert_eq!(direction.take_accounted(), 6);
}

#[test]
fn direction_delivers_what_it_reads_in_order() {
    let source: Vec<u8> = (0..600_000u32).map(|index| (index % 251) as u8).collect();
    let mut direction = BufferedDirection::new();
    let mut buffer = initial_buffer();
    assert_eq!(buffer, vec![0u8; BUFFERED_INITIAL_CHUNK]);
    assert_eq!(buffer.len(), 4096);
    let mut written = Vec::new();
    let mut counted = 0;
    let mut at = 0;
    let mut action = CopyAction::Read;
    loop {
        let event = match action {
            CopyAction::Read => {
                // Short reads now and then, and else as much as there is room.
                let room = if at % 3 == 0 { 1000 } else { buffer.len() };
                let read = room.min(buffer.len()).min(source.len() - at);
                buffer[..read].copy_from_slice(&source[at..at + read]);
                at += read;
                CopyEvent::Read(read)
            }
            CopyAction::Write(length) => {
                written.extend_from_slice(&buffer[..length]);
                CopyEvent::Written
            }
            CopyAction::ShutdownWrite => CopyEvent::Closed,
            CopyAction::Finish => break,
            CopyAction::FailAsEvent => panic!("nothing failed"),
        };
        let (next, bytes) = direction.on_event(&mut buffer, event);
        counted += bytes.unwrap_or(0);
        action = next;
    }
    assert_eq!(written, source);
    assert_eq!(counted, 600_000);
    assert_eq!(buffer.len(), BUFFERED_FAST_CHUNK);
}
