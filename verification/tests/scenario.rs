use bytes::Bytes;
use perf_client::orchestrator::{Action, Event, Orchestrator, State, StopReason};
use perf_client::payload::new_working_set;
use perf_client::receiver::{BulkReceiver, ReceiveAction};
use perf_client::request::TransferRequest;
use perf_client::sender::{BulkSender, SendAction};

/// Uploads the payload into `wire`, as a stream that accepts everything would
/// see it, and returns the number of bytes the sender reports.
fn upload(payload_bytes: u64, wire: &mut Vec<u8>) -> u64 {
    let mut chunks = new_working_set();
    let mut sender = BulkSender::new(payload_bytes);
    let mut finished = 0;
    loop {
        match sender.step(false, &mut chunks) {
            SendAction::Transmit { count } => {
                for chunk in chunks[..count].iter_mut() {
                    wire.extend_from_slice(chunk);
                    *chunk = Bytes::new();
                }
            }
            SendAction::Finish => finished += 1,
            SendAction::Stop => break,
        }
    }
    assert_eq!(finished, 1);
    sender.outcome().unwrap()
}

/// Drains a response that arrives in the given deliveries, the last of which
/// closes the stream.
fn download(deliveries: &[Vec<usize>]) -> u64 {
    let mut chunks = new_working_set();
    let mut receiver = BulkReceiver::new();
    let mut delivered = 0;
    while receiver.next(false) == ReceiveAction::Receive {
        let delivery = &deliveries[delivered];
        for (slot, len) in delivery.iter().enumerate() {
            chunks[slot] = Bytes::from(vec![0u8; *len]);
        }
        delivered += 1;
        assert!(receiver.can_record(&chunks, delivery.len()));
        receiver.record_batch(&mut chunks, delivery.len(), delivered < deliveries.len());
    }
    assert_eq!(delivered, deliveries.len());
    receiver.outcome().unwrap()
}

#[test]
fn one_kibibyte_each_way() {
    let request = TransferRequest::from_sizes(1024, 1024).unwrap();
    assert_eq!(request.payload_bytes_to_send, 1016);

    let mut wire = Vec::new();
    let mut orchestrator = Orchestrator::new(request);
    assert_eq!(orchestrator.pending(), Action::Connect);
    assert_eq!(orchestrator.step(Event::Completed { bytes: 0 }, false), Action::OpenStream);
    let header = match orchestrator.step(Event::Completed { bytes: 0 }, false) {
        Action::SendHeader { header } => header,
        other => panic!("expected the header, got {:?}", other),
    };
    wire.extend_from_slice(&header);
    let payload_bytes = match orchestrator.step(Event::Completed { bytes: 8 }, false) {
        Action::RunSender { payload_bytes } => payload_bytes,
        other => panic!("expected the upload, got {:?}", other),
    };
    let bytes_sent = upload(payload_bytes, &mut wire);
    assert_eq!(bytes_sent, 1016);
    assert_eq!(wire.len(), 1024);
    assert_eq!(&wire[..8], &1024u64.to_be_bytes());
    assert_eq!(
        orchestrator.step(Event::Completed { bytes: bytes_sent }, false),
        Action::CloseSendSide
    );
    assert_eq!(orchestrator.step(Event::Completed { bytes: 0 }, false), Action::RunReceiver);

    let echoed = u64::from_be_bytes([
        wire[0], wire[1], wire[2], wire[3], wire[4], wire[5], wire[6], wire[7],
    ]) as usize;
    let bytes_received = download(&[vec![600], vec![400, 24], vec![]]);
    assert_eq!(bytes_received as usize, echoed);
    assert_eq!(bytes_received, 1024);
    assert_eq!(
        orchestrator.step(Event::Completed { bytes: bytes_received }, false),
        Action::OpenStream
    );
    assert_eq!(orchestrator.state(), State::OpeningStream);
}

#[test]
fn cancellation_in_the_middle_of_an_upload() {
    let request = TransferRequest::from_sizes(1_000_000 + 8, 1024).unwrap();
    let mut orchestrator = Orchestrator::new(request);
    orchestrator.step(Event::Completed { bytes: 0 }, false);
    orchestrator.step(Event::Completed { bytes: 0 }, false);
    assert_eq!(
        orchestrator.step(Event::Completed { bytes: 8 }, false),
        Action::RunSender { payload_bytes: 1_000_000 }
    );

    let mut chunks = vec![Bytes::new(); 1];
    let mut sender = BulkSender::new(1_000_000);
    assert_eq!(sender.step(false, &mut chunks), SendAction::Transmit { count: 1 });
    assert_eq!(sender.step(false, &mut chunks), SendAction::Transmit { count: 1 });
    assert!(sender.bytes_sent() >= 200_000);
    assert_eq!(sender.step(true, &mut chunks), SendAction::Stop);
    let bytes_sent = sender.outcome().unwrap();
    assert_eq!(bytes_sent, 262_144);
    assert!(200_000 <= bytes_sent && bytes_sent < 264_000);

    assert_eq!(
        orchestrator.step(Event::Completed { bytes: bytes_sent }, true),
        Action::CloseSendSide
    );
    assert_eq!(
        orchestrator.step(Event::Completed { bytes: 0 }, true),
        Action::Stop { reason: StopReason::Cancelled }
    );
    assert_eq!(orchestrator.state(), State::Stopped { reason: StopReason::Cancelled });
}

#[test]
fn download_of_nothing() {
    assert_eq!(download(&[vec![]]), 0);
}

#[test]
fn download_closed_at_any_point() {
    assert_eq!(download(&[vec![1]]), 1);
    assert_eq!(download(&[vec![1], vec![]]), 1);
    assert_eq!(download(&[vec![0, 0, 5], vec![7; 64], vec![3, 4]]), 5 + 7 * 64 + 7);
    assert_eq!(download(&[vec![], vec![], vec![9]]), 9);
}

#[test]
fn upload_of_any_size_is_complete() {
    for payload_bytes in [0u64, 1, 255, 256, 257, 131_071, 131_072, 131_073, 9_000_000] {
        let mut wire = Vec::new();
        assert_eq!(upload(payload_bytes, &mut wire), payload_bytes);
        assert_eq!(wire.len() as u64, payload_bytes);
        assert!(wire.iter().enumerate().all(|(position, byte)| *byte == (position % 256) as u8));
    }
}
