use bytes::Bytes;
use perf_client::error::TransferError;
use perf_client::payload::{new_working_set, BATCH_CHUNKS, MAX_CHUNK_LEN};
use perf_client::sender::{BulkSender, SendAction, SendPhase};
use s2n_quic_core::stream::testing::Data;

fn pattern(start: u64, len: usize) -> Vec<u8> {
    (0..len as u64).map(|i| ((start + i) % 256) as u8).collect()
}

#[test]
fn working_set_has_sixty_four_empty_chunks() {
    let chunks = new_working_set();
    assert_eq!(BATCH_CHUNKS, 64);
    assert_eq!(chunks.len(), 64);
    assert!(chunks.iter().all(|chunk| chunk.is_empty()));
}

#[test]
fn small_payload_goes_out_in_one_chunk() {
    let mut chunks = new_working_set();
    let mut sender = BulkSender::new(1016);
    assert_eq!(sender.step(false, &mut chunks), SendAction::Transmit { count: 1 });
    assert_eq!(chunks[0].as_ref(), &pattern(0, 1016)[..]);
    assert!(chunks[1..].iter().all(|chunk| chunk.is_empty()));
    assert_eq!(sender.bytes_sent(), 1016);
    assert_eq!(sender.phase(), SendPhase::Sending);
    assert_eq!(sender.step(false, &mut chunks), SendAction::Finish);
    assert_eq!(sender.phase(), SendPhase::Finished);
    assert_eq!(sender.step(false, &mut chunks), SendAction::Stop);
    assert_eq!(sender.bytes_sent(), 1016);
    assert_eq!(sender.outcome(), Ok(1016));
}

#[test]
fn empty_payload_finishes_at_once() {
    let mut chunks = new_working_set();
    let mut sender = BulkSender::new(0);
    assert_eq!(sender.step(false, &mut chunks), SendAction::Finish);
    assert_eq!(sender.step(false, &mut chunks), SendAction::Stop);
    assert_eq!(sender.outcome(), Ok(0));
    assert!(chunks.iter().all(|chunk| chunk.is_empty()));
}

#[test]
fn payload_is_cut_at_the_longest_chunk() {
    let mut chunks = new_working_set();
    let mut sender = BulkSender::new(1_000_000);
    assert_eq!(sender.step(false, &mut chunks), SendAction::Transmit { count: 8 });
    let lengths: Vec<usize> = chunks[..8].iter().map(Bytes::len).collect();
    assert_eq!(
        lengths,
        vec![131072, 131072, 131072, 131072, 131072, 131072, 131072, 1_000_000 - 7 * 131072]
    );
    assert_eq!(MAX_CHUNK_LEN, 131072);
    let mut position = 0u64;
    for chunk in &chunks[..8] {
        assert_eq!(chunk.as_ref(), &pattern(position, chunk.len())[..]);
        position += chunk.len() as u64;
    }
    assert_eq!(position, 1_000_000);
    assert_eq!(sender.bytes_sent(), 1_000_000);
    assert_eq!(sender.step(false, &mut chunks), SendAction::Finish);
}

#[test]
fn large_payload_takes_several_batches() {
    let total: u64 = 20_000_000;
    let mut chunks = new_working_set();
    let mut sender = BulkSender::new(total);
    let mut batches = 0;
    let mut sent = 0u64;
    let mut finishes = 0;
    loop {
        match sender.step(false, &mut chunks) {
            SendAction::Transmit { count } => {
                assert!(finishes == 0);
                assert!(1 <= count && count <= 64);
                let bytes: u64 = chunks[..count].iter().map(|chunk| chunk.len() as u64).sum();
                assert!(bytes > 0);
                sent += bytes;
                assert_eq!(sender.bytes_sent(), sent);
                batches += 1;
            }
            SendAction::Finish => {
                assert_eq!(sent, total);
                finishes += 1;
            }
            SendAction::Stop => break,
        }
    }
    assert_eq!(batches, 3);
    assert_eq!(finishes, 1);
    assert_eq!(sender.outcome(), Ok(total));
}

#[test]
fn full_batch_fills_the_whole_working_set() {
    let mut chunks = new_working_set();
    let mut sender = BulkSender::new(64 * 131072 + 1);
    assert_eq!(sender.step(false, &mut chunks), SendAction::Transmit { count: 64 });
    assert_eq!(sender.bytes_sent(), 64 * 131072);
    assert_eq!(sender.step(false, &mut chunks), SendAction::Transmit { count: 1 });
    assert_eq!(chunks[0].as_ref(), &[0u8][..]);
    assert_eq!(chunks[1].len(), 131072);
    assert_eq!(sender.bytes_sent(), 64 * 131072 + 1);
    assert_eq!(sender.step(false, &mut chunks), SendAction::Finish);
}

#[test]
fn cancelled_sender_stops_before_the_first_batch() {
    let mut chunks = new_working_set();
    let mut sender = BulkSender::new(1_000_000);
    assert_eq!(sender.step(true, &mut chunks), SendAction::Stop);
    assert_eq!(sender.bytes_sent(), 0);
    assert_eq!(sender.phase(), SendPhase::Sending);
    assert_eq!(sender.outcome(), Ok(0));
    assert!(chunks.iter().all(|chunk| chunk.is_empty()));
}

#[test]
fn cancelled_sender_keeps_the_count_of_earlier_batches() {
    let mut chunks = vec![Bytes::new(); 2];
    let mut sender = BulkSender::new(10_000_000);
    for batch in 1..=5u64 {
        assert_eq!(sender.step(false, &mut chunks), SendAction::Transmit { count: 2 });
        assert_eq!(sender.bytes_sent(), batch * 2 * 131072);
    }
    assert_eq!(sender.step(true, &mut chunks), SendAction::Stop);
    assert_eq!(sender.bytes_sent(), 5 * 2 * 131072);
    assert_eq!(sender.phase(), SendPhase::Sending);
    assert_eq!(sender.outcome(), Ok(5 * 2 * 131072));
}

#[test]
fn cancelled_sender_leaves_the_stream_unfinished() {
    let mut chunks = new_working_set();
    let mut sender = BulkSender::new(1016);
    assert_eq!(sender.step(false, &mut chunks), SendAction::Transmit { count: 1 });
    assert_eq!(sender.step(true, &mut chunks), SendAction::Stop);
    assert_eq!(sender.phase(), SendPhase::Sending);
    assert_eq!(sender.step(false, &mut chunks), SendAction::Finish);
}

#[test]
fn sender_without_working_set_makes_no_progress() {
    let mut chunks: Vec<Bytes> = Vec::new();
    let mut sender = BulkSender::new(10);
    assert_eq!(sender.step(false, &mut chunks), SendAction::Transmit { count: 0 });
    assert_eq!(sender.bytes_sent(), 0);
}

#[test]
fn failed_upload_is_a_transport_error() {
    let mut chunks = new_working_set();
    let mut sender = BulkSender::new(10_000_000);
    assert_eq!(sender.step(false, &mut chunks), SendAction::Transmit { count: 64 });
    sender.abort();
    assert_eq!(sender.phase(), SendPhase::Failed);
    assert_eq!(sender.outcome(), Err(TransferError::Transport));
    assert_eq!(sender.step(false, &mut chunks), SendAction::Stop);
}

#[test]
fn failed_end_of_stream_is_a_transport_error() {
    let mut chunks = new_working_set();
    let mut sender = BulkSender::new(3);
    assert_eq!(sender.step(false, &mut chunks), SendAction::Transmit { count: 1 });
    assert_eq!(chunks[0].as_ref(), &[0u8, 1, 2][..]);
    assert_eq!(sender.step(false, &mut chunks), SendAction::Finish);
    assert_eq!(sender.outcome(), Ok(3));
    sender.abort();
    assert_eq!(sender.phase(), SendPhase::Failed);
    assert_eq!(sender.outcome(), Err(TransferError::Transport));
    assert_eq!(sender.bytes_sent(), 3);
    assert_eq!(sender.step(false, &mut chunks), SendAction::Stop);
    assert_eq!(sender.step(true, &mut chunks), SendAction::Stop);
}

#[test]
fn failed_end_of_stream_of_an_empty_upload_is_a_transport_error() {
    let mut chunks = new_working_set();
    let mut sender = BulkSender::new(0);
    assert_eq!(sender.step(false, &mut chunks), SendAction::Finish);
    sender.abort();
    assert_eq!(sender.outcome(), Err(TransferError::Transport));
    assert_eq!(sender.step(false, &mut chunks), SendAction::Stop);
}

#[test]
fn failure_is_recorded_once_and_for_all() {
    let mut chunks = new_working_set();
    let mut sender = BulkSender::new(10);
    sender.abort();
    sender.abort();
    assert_eq!(sender.phase(), SendPhase::Failed);
    assert_eq!(sender.outcome(), Err(TransferError::Transport));
    assert_eq!(sender.step(false, &mut chunks), SendAction::Stop);
    assert_eq!(sender.bytes_sent(), 0);
}

#[test]
fn sender_reads_the_cancellation_signal() {
    let (raise, signal) = tokio::sync::watch::channel(false);
    let mut chunks = vec![Bytes::new(); 1];
    let mut sender = BulkSender::new(1_000_000);
    assert_eq!(sender.poll(&signal, &mut chunks), SendAction::Transmit { count: 1 });
    assert_eq!(sender.bytes_sent(), 131072);
    raise.send(true).unwrap();
    assert_eq!(sender.poll(&signal, &mut chunks), SendAction::Stop);
    assert_eq!(sender.bytes_sent(), 131072);
}

#[test]
fn longest_chunk_is_the_generators() {
    assert_eq!(MAX_CHUNK_LEN, Data::MAX_CHUNK_LEN);
}

#[test]
fn generator_cuts_chunks_at_any_position() {
    let totals = [1u64, 2, 255, 256, 257, 1000, 131_071, 131_072, 131_073, 262_144, 9_000_000];
    let marks = [0u64, 1, 3, 255, 256, 257, 999, 4096, 99_991, 131_071, 131_072, 131_073, 262_145];
    for total in totals {
        let mut offsets: Vec<u64> = marks.iter().copied().filter(|mark| *mark <= total).collect();
        offsets.extend([total / 2, total - 1, total]);
        for offset in offsets {
            for slots in [0usize, 1, 2, 64] {
                let mut data = Data::new(total);
                data.seek_forward(offset);
                let mut chunks = vec![Bytes::from_static(b"untouched"); slots];
                let filled = data.send(usize::MAX, &mut chunks);
                if offset == total {
                    assert_eq!(filled, None);
                    assert!(chunks.iter().all(|chunk| chunk.as_ref() == b"untouched"));
                    continue;
                }
                let mut position = offset;
                let mut expected = 0;
                while expected < slots && position < total {
                    let remaining = (total - position) as usize;
                    let room = MAX_CHUNK_LEN - (position % 256) as usize;
                    let len = remaining.min(room);
                    assert_eq!(chunks[expected].len(), len);
                    assert_eq!(chunks[expected][0], (position % 256) as u8);
                    assert_eq!(chunks[expected][len - 1], ((position + len as u64 - 1) % 256) as u8);
                    position += len as u64;
                    expected += 1;
                }
                assert_eq!(filled, Some(expected));
                assert!(chunks[expected..].iter().all(|chunk| chunk.as_ref() == b"untouched"));
                assert_eq!(data.offset(), position);
            }
        }
    }
}

#[test]
fn generator_repeats_the_byte_pattern() {
    for offset in [0u64, 1, 255, 256, 1000, 131_071] {
        let mut data = Data::new(offset + 70_000);
        data.seek_forward(offset);
        let mut chunks = vec![Bytes::new(); 1];
        assert_eq!(data.send(usize::MAX, &mut chunks), Some(1));
        assert_eq!(chunks[0].as_ref(), &pattern(offset, 70_000)[..]);
    }
}
