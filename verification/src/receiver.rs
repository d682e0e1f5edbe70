//! The bulk receiver: drains a stream in batches of chunks until the peer
//! closes it, looking at the cancellation flag before every batch, and counts
//! the bytes that arrive. The bytes themselves are dropped at once.

use vstd::prelude::*;

use bytes::Bytes;
use tokio::sync::watch::Receiver;

use crate::cancel::cancellation_requested;
use crate::error::TransferError;
use crate::payload::{bytes_contents, chunk_bytes, lemma_chunk_bytes_monotonic, same_contents_from};

verus! {

/// How far a download has come.
#[derive(Clone, Copy, Debug, PartialEq, Eq, Structural)]
pub enum ReceivePhase {
    /// The peer may send more.
    Receiving,
    /// The peer has closed its side of the stream.
    Closed,
    /// The transport failed.
    Failed,
}

/// What the caller is to do with the stream.
#[derive(Clone, Copy, Debug, PartialEq, Eq, Structural)]
pub enum ReceiveAction {
    /// Pull the next batch into the working set.
    Receive,
    /// Return without touching the stream.
    Stop,
}

/// The receiver as contracts see it.
pub struct ReceiverView {
    /// Bytes counted so far.
    pub received: nat,
    pub phase: ReceivePhase,
}

impl ReceiverView {
    /// A receiver that has not counted anything.
    pub open spec fn fresh() -> ReceiverView {
        ReceiverView { received: 0, phase: ReceivePhase::Receiving }
    }
}

/// What the receiver answers when it is asked what to do: a raised flag stops
/// it, and so does a download that is already over.
pub open spec fn receiver_action(state: ReceiverView, cancelled: bool) -> ReceiveAction {
    if cancelled || state.phase != ReceivePhase::Receiving {
        ReceiveAction::Stop
    } else {
        ReceiveAction::Receive
    }
}

/// The receiver after a batch of `batch_bytes` bytes, delivered together with
/// the news whether the stream is still open.
pub open spec fn receiver_after(state: ReceiverView, batch_bytes: nat, is_open: bool) -> ReceiverView {
    ReceiverView {
        received: state.received + batch_bytes,
        phase: if state.phase == ReceivePhase::Receiving && !is_open {
            ReceivePhase::Closed
        } else {
            state.phase
        },
    }
}

/// The receiver after the transport failed on a call it had asked for.
pub open spec fn receiver_failed(before: ReceiverView) -> ReceiverView {
    ReceiverView { phase: ReceivePhase::Failed, ..before }
}

/// What a download comes to: the number of bytes counted, also when
/// cancellation cut it short, unless the transport failed.
pub open spec fn receiver_outcome(state: ReceiverView) -> Result<u64, TransferError> {
    if state.phase == ReceivePhase::Failed {
        Err(TransferError::Transport)
    } else {
        Ok(state.received as u64)
    }
}

/// Whether a receiver can take the first `filled` chunks of a working set:
/// they exist, and the count stays representable.
pub open spec fn receiver_can_record(state: ReceiverView, chunks: Seq<Bytes>, filled: int) -> bool {
    &&& 0 <= filled <= chunks.len()
    &&& state.received + chunk_bytes(chunks, filled) <= u64::MAX
}

/// The state of one download.
pub struct BulkReceiver {
    received: u64,
    phase: ReceivePhase,
}

impl View for BulkReceiver {
    type V = ReceiverView;

    closed spec fn view(&self) -> ReceiverView {
        ReceiverView { received: self.received as nat, phase: self.phase }
    }
}

impl BulkReceiver {
    /// A receiver for a stream of which nothing has been read.
    pub fn new() -> (receiver: BulkReceiver)
        ensures
            receiver@ == ReceiverView::fresh(),
    {
        BulkReceiver { received: 0, phase: ReceivePhase::Receiving }
    }

    /// Number of bytes counted so far.
    pub fn bytes_received(&self) -> (received: u64)
        ensures
            received == self@.received,
    {
        self.received
    }

    /// How far the download has come.
    pub fn phase(&self) -> (phase: ReceivePhase)
        ensures
            phase == self@.phase,
    {
        self.phase
    }

    /// Decides what happens next, given the flag as the caller read it.
    pub fn next(&self, cancelled: bool) -> (action: ReceiveAction)
        ensures
            action == receiver_action(self@, cancelled),
    {
        if cancelled {
            ReceiveAction::Stop
        } else {
            match self.phase {
                ReceivePhase::Receiving => ReceiveAction::Receive,
                _ => ReceiveAction::Stop,
            }
        }
    }

    /// Reads the cancellation flag and decides what happens next, as
    /// [`BulkReceiver::next`] does for the value that was read.
    pub fn poll(&self, signal: &Receiver<bool>) -> (action: ReceiveAction)
        ensures
            exists|cancelled: bool| action == receiver_action(self@, cancelled),
    {
        let cancelled = cancellation_requested(signal);
        self.next(cancelled)
    }

    /// Whether [`BulkReceiver::record_batch`] may be called for the first
    /// `filled` chunks of the working set.
    pub fn can_record(&self, chunks: &Vec<Bytes>, filled: usize) -> (ok: bool)
        ensures
            ok == receiver_can_record(self@, chunks@, filled as int),
    {
        if filled > chunks.len() {
            return false;
        }
        let mut sum: u64 = self.received;
        let mut i: usize = 0;
        while i < filled
            invariant
                i <= filled <= chunks@.len(),
                sum == self.received + chunk_bytes(chunks@, i as int),
            decreases filled - i,
        {
            match sum.checked_add(chunks[i].len() as u64) {
                Some(larger) => {
                    sum = larger;
                },
                None => {
                    proof {
                        lemma_chunk_bytes_monotonic(chunks@, i + 1, filled as int);
                    }
                    return false;
                },
            }
            i = i + 1;
        }
        true
    }

    /// Counts the bytes of the batch that fills the first `filled` chunks of
    /// the working set, empties those chunks, and notes whether the peer has
    /// closed the stream.
    pub fn record_batch(&mut self, chunks: &mut Vec<Bytes>, filled: usize, is_open: bool)
        requires
            receiver_can_record(old(self)@, old(chunks)@, filled as int),
        ensures
            final(self)@ == receiver_after(
                old(self)@,
                chunk_bytes(old(chunks)@, filled as int),
                is_open,
            ),
            forall|i: int|
                0 <= i < filled ==> bytes_contents(#[trigger] final(chunks)@[i]).len() == 0,
            same_contents_from(old(chunks)@, final(chunks)@, filled as int),
    {
        let ghost before = chunks@;
        let mut i: usize = 0;
        while i < filled
            invariant
                i <= filled <= chunks@.len(),
                chunks@.len() == before.len(),
                self.phase == old(self).phase,
                self.received == old(self).received + chunk_bytes(before, i as int),
                old(self).received + chunk_bytes(before, filled as int) <= u64::MAX,
                forall|j: int| 0 <= j < i ==> bytes_contents(#[trigger] chunks@[j]).len() == 0,
                forall|j: int|
                    i <= j < chunks@.len() ==> bytes_contents(#[trigger] chunks@[j])
                        == bytes_contents(before[j]),
            decreases filled - i,
        {
            proof {
                lemma_chunk_bytes_monotonic(before, i + 1, filled as int);
            }
            self.received = self.received + chunks[i].len() as u64;
            chunks.set(i, Bytes::new());
            i = i + 1;
        }
        if !is_open {
            match self.phase {
                ReceivePhase::Receiving => {
                    self.phase = ReceivePhase::Closed;
                },
                _ => {},
            }
        }
    }

    /// Records the batch as [`BulkReceiver::record_batch`] does if it can be
    /// recorded, and says whether it was. A batch that cannot be recorded
    /// changes nothing.
    pub fn try_record_batch(&mut self, chunks: &mut Vec<Bytes>, filled: usize, is_open: bool) -> (recorded:
        bool)
        ensures
            recorded == receiver_can_record(old(self)@, old(chunks)@, filled as int),
            recorded ==> ({
                &&& final(self)@ == receiver_after(
                    old(self)@,
                    chunk_bytes(old(chunks)@, filled as int),
                    is_open,
                )
                &&& forall|i: int|
                    0 <= i < filled ==> bytes_contents(#[trigger] final(chunks)@[i]).len() == 0
                &&& same_contents_from(old(chunks)@, final(chunks)@, filled as int)
            }),
            !recorded ==> final(self)@ == old(self)@ && final(chunks)@ == old(chunks)@,
    {
        if self.can_record(chunks, filled) {
            self.record_batch(chunks, filled, is_open);
            true
        } else {
            false
        }
    }

    /// Records that the transport failed on the call the receiver asked for
    /// last. The download has failed from then on, and the receiver asks for
    /// nothing more.
    pub fn abort(&mut self)
        ensures
            final(self)@ == receiver_failed(old(self)@),
    {
        self.phase = ReceivePhase::Failed;
    }

    /// What the download comes to: the number of bytes counted, also when
    /// cancellation cut it short, unless the transport failed.
    pub fn outcome(&self) -> (outcome: Result<u64, TransferError>)
        ensures
            outcome == receiver_outcome(self@),
    {
        match self.phase {
            ReceivePhase::Failed => Err(TransferError::Transport),
            _ => Ok(self.received),
        }
    }
}

/// One batch as the transport delivers it: so many bytes, and whether the
/// stream is still open behind them.
pub struct Delivery {
    pub bytes: nat,
    pub is_open: bool,
}

/// The receiver after it has recorded the given deliveries in order.
pub open spec fn receiver_run(start: ReceiverView, deliveries: Seq<Delivery>) -> ReceiverView
    decreases deliveries.len(),
{
    if deliveries.len() == 0 {
        start
    } else {
        receiver_after(
            receiver_run(start, deliveries.drop_last()),
            deliveries.last().bytes,
            deliveries.last().is_open,
        )
    }
}

/// Total number of bytes in the given deliveries.
pub open spec fn delivered_bytes(deliveries: Seq<Delivery>) -> nat
    decreases deliveries.len(),
{
    if deliveries.len() == 0 {
        0
    } else {
        delivered_bytes(deliveries.drop_last()) + deliveries.last().bytes
    }
}

/// Whether every one of the given deliveries leaves the stream open.
pub open spec fn all_open(deliveries: Seq<Delivery>) -> bool {
    forall|i: int| 0 <= i < deliveries.len() ==> (#[trigger] deliveries[i]).is_open
}

/// While the peer keeps the stream open, the receiver counts every byte that
/// is delivered and is ready for more.
pub proof fn lemma_open_stream_is_counted(deliveries: Seq<Delivery>)
    requires
        all_open(deliveries),
    ensures
        receiver_run(ReceiverView::fresh(), deliveries) == (ReceiverView {
            received: delivered_bytes(deliveries),
            phase: ReceivePhase::Receiving,
        }),
        receiver_action(receiver_run(ReceiverView::fresh(), deliveries), false)
            == ReceiveAction::Receive,
    decreases deliveries.len(),
{
    if deliveries.len() > 0 {
        lemma_open_stream_is_counted(deliveries.drop_last());
    }
}

/// With the flag down throughout, a download returns exactly the number of
/// bytes the peer sent before it closed the stream, wherever in the stream
/// that happens: the receiver asks for every delivery up to and including the
/// one that reports the close, counts them all, and then stops. A peer that
/// closes at once, without a byte, gives a count of zero.
pub proof fn lemma_download_counts_every_byte(deliveries: Seq<Delivery>)
    requires
        deliveries.len() >= 1,
        all_open(deliveries.drop_last()),
        !deliveries.last().is_open,
    ensures
        forall|k: int|
            0 <= k < deliveries.len() ==> receiver_action(
                receiver_run(ReceiverView::fresh(), #[trigger] deliveries.take(k)),
                false,
            ) == ReceiveAction::Receive,
        receiver_run(ReceiverView::fresh(), deliveries) == (ReceiverView {
            received: delivered_bytes(deliveries),
            phase: ReceivePhase::Closed,
        }),
        receiver_action(receiver_run(ReceiverView::fresh(), deliveries), false)
            == ReceiveAction::Stop,
        deliveries.len() == 1 && deliveries[0].bytes == 0 ==> receiver_run(
            ReceiverView::fresh(),
            deliveries,
        ).received == 0,
{
    lemma_open_stream_is_counted(deliveries.drop_last());
    assert forall|k: int| 0 <= k < deliveries.len() implies receiver_action(
        receiver_run(ReceiverView::fresh(), #[trigger] deliveries.take(k)),
        false,
    ) == ReceiveAction::Receive by {
        let prefix = deliveries.take(k);
        assert forall|i: int| 0 <= i < prefix.len() implies (#[trigger] prefix[i]).is_open by {
            assert(prefix[i] == deliveries.drop_last()[i]);
        }
        lemma_open_stream_is_counted(prefix);
    }
    if deliveries.len() == 1 {
        assert(delivered_bytes(deliveries.drop_last()) == 0);
    }
}

/// A raised flag stops a download where it stands: whatever was delivered
/// before, the receiver answers `Stop`, and its count is the bytes of those
/// deliveries and nothing else. Raised before the first delivery, that is
/// nothing.
pub proof fn lemma_cancelled_download_stops(deliveries: Seq<Delivery>)
    requires
        all_open(deliveries),
    ensures
        receiver_action(receiver_run(ReceiverView::fresh(), deliveries), true)
            == ReceiveAction::Stop,
        receiver_run(ReceiverView::fresh(), deliveries).received == delivered_bytes(deliveries),
        deliveries.len() == 0 ==> receiver_run(ReceiverView::fresh(), deliveries).received == 0,
{
    lemma_open_stream_is_counted(deliveries);
}

/// A failure of the transport makes the download a transport error,
/// whatever had been counted before. The count stays, and the receiver asks
/// for no further call, whether the flag is raised or not.
pub proof fn lemma_failed_download_is_an_error(before: ReceiverView, cancelled: bool)
    ensures
        receiver_outcome(receiver_failed(before)) == Err::<u64, TransferError>(
            TransferError::Transport,
        ),
        receiver_failed(before).received == before.received,
        receiver_action(receiver_failed(before), cancelled) == ReceiveAction::Stop,
{
}

} // verus!
