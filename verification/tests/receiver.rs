use bytes::Bytes;
use perf_client::error::TransferError;
use perf_client::receiver::{BulkReceiver, ReceiveAction, ReceivePhase};

fn working_set(lengths: &[usize], slots: usize) -> Vec<Bytes> {
    let mut chunks = vec![Bytes::new(); slots];
    for (slot, len) in lengths.iter().enumerate() {
        chunks[slot] = Bytes::from(vec![0xabu8; *len]);
    }
    chunks
}

#[test]
fn new_receiver_has_counted_nothing() {
    let receiver = BulkReceiver::new();
    assert_eq!(receiver.bytes_received(), 0);
    assert_eq!(receiver.phase(), ReceivePhase::Receiving);
    assert_eq!(receiver.next(false), ReceiveAction::Receive);
    assert_eq!(receiver.outcome(), Ok(0));
}

#[test]
fn receiver_counts_until_the_peer_closes() {
    let mut receiver = BulkReceiver::new();
    let mut chunks = working_set(&[100, 200, 300], 64);
    assert!(receiver.can_record(&chunks, 3));
    receiver.record_batch(&mut chunks, 3, true);
    assert_eq!(receiver.bytes_received(), 600);
    assert_eq!(receiver.next(false), ReceiveAction::Receive);

    let mut chunks = working_set(&[424], 64);
    receiver.record_batch(&mut chunks, 1, false);
    assert_eq!(receiver.bytes_received(), 1024);
    assert_eq!(receiver.phase(), ReceivePhase::Closed);
    assert_eq!(receiver.next(false), ReceiveAction::Stop);
    assert_eq!(receiver.outcome(), Ok(1024));
}

#[test]
fn receiver_handles_a_peer_that_closes_at_once() {
    let mut receiver = BulkReceiver::new();
    let mut chunks = working_set(&[], 64);
    receiver.record_batch(&mut chunks, 0, false);
    assert_eq!(receiver.bytes_received(), 0);
    assert_eq!(receiver.next(false), ReceiveAction::Stop);
    assert_eq!(receiver.outcome(), Ok(0));
}

#[test]
fn receiver_counts_only_the_filled_chunks() {
    let mut receiver = BulkReceiver::new();
    let mut chunks = working_set(&[10, 20, 30, 40], 8);
    receiver.record_batch(&mut chunks, 2, true);
    assert_eq!(receiver.bytes_received(), 30);
    assert_eq!(chunks[0].len(), 0);
    assert_eq!(chunks[1].len(), 0);
    assert_eq!(chunks[2].len(), 30);
    assert_eq!(chunks[3].len(), 40);
    assert_eq!(chunks.len(), 8);
}

#[test]
fn receiver_drops_what_it_has_counted() {
    let mut receiver = BulkReceiver::new();
    let mut chunks = working_set(&[5; 64], 64);
    receiver.record_batch(&mut chunks, 64, true);
    assert_eq!(receiver.bytes_received(), 320);
    assert!(chunks.iter().all(|chunk| chunk.is_empty()));
}

#[test]
fn cancelled_receiver_stops_before_the_first_batch() {
    let receiver = BulkReceiver::new();
    assert_eq!(receiver.next(true), ReceiveAction::Stop);
    assert_eq!(receiver.bytes_received(), 0);
    assert_eq!(receiver.outcome(), Ok(0));
}

#[test]
fn cancelled_receiver_keeps_the_count_of_earlier_batches() {
    let mut receiver = BulkReceiver::new();
    for _ in 0..3 {
        let mut chunks = working_set(&[1000, 24], 64);
        assert_eq!(receiver.next(false), ReceiveAction::Receive);
        receiver.record_batch(&mut chunks, 2, true);
    }
    assert_eq!(receiver.next(true), ReceiveAction::Stop);
    assert_eq!(receiver.bytes_received(), 3072);
    assert_eq!(receiver.phase(), ReceivePhase::Receiving);
    assert_eq!(receiver.outcome(), Ok(3072));
}

#[test]
fn receiver_refuses_more_chunks_than_the_working_set_has() {
    let receiver = BulkReceiver::new();
    let chunks = working_set(&[1, 2], 2);
    assert!(receiver.can_record(&chunks, 2));
    assert!(!receiver.can_record(&chunks, 3));
}

#[test]
fn failed_download_is_a_transport_error() {
    let mut receiver = BulkReceiver::new();
    let mut chunks = working_set(&[77], 64);
    receiver.record_batch(&mut chunks, 1, true);
    receiver.abort();
    assert_eq!(receiver.phase(), ReceivePhase::Failed);
    assert_eq!(receiver.outcome(), Err(TransferError::Transport));
    assert_eq!(receiver.next(false), ReceiveAction::Stop);
    assert_eq!(receiver.bytes_received(), 77);
}

#[test]
fn failure_after_the_close_is_a_transport_error() {
    let mut receiver = BulkReceiver::new();
    let mut chunks = working_set(&[77], 64);
    receiver.record_batch(&mut chunks, 1, false);
    assert_eq!(receiver.outcome(), Ok(77));
    receiver.abort();
    assert_eq!(receiver.phase(), ReceivePhase::Failed);
    assert_eq!(receiver.outcome(), Err(TransferError::Transport));
    assert_eq!(receiver.next(false), ReceiveAction::Stop);
    assert_eq!(receiver.bytes_received(), 77);
}

#[test]
fn receiver_reads_the_cancellation_signal() {
    let (raise, signal) = tokio::sync::watch::channel(false);
    let receiver = BulkReceiver::new();
    assert_eq!(receiver.poll(&signal), ReceiveAction::Receive);
    raise.send(true).unwrap();
    assert_eq!(receiver.poll(&signal), ReceiveAction::Stop);
    assert_eq!(receiver.poll(&signal.clone()), ReceiveAction::Stop);
}

#[test]
fn batch_that_cannot_be_recorded_changes_nothing() {
    let mut receiver = BulkReceiver::new();
    let mut chunks = working_set(&[1, 2], 2);
    assert!(!receiver.try_record_batch(&mut chunks, 3, false));
    assert_eq!(receiver.bytes_received(), 0);
    assert_eq!(receiver.phase(), ReceivePhase::Receiving);
    assert_eq!(chunks[0].len(), 1);
    assert_eq!(chunks[1].len(), 2);
    assert!(receiver.try_record_batch(&mut chunks, 2, false));
    assert_eq!(receiver.bytes_received(), 3);
    assert_eq!(receiver.phase(), ReceivePhase::Closed);
    assert!(chunks.iter().all(|chunk| chunk.is_empty()));
}
