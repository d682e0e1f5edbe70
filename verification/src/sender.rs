//! The bulk sender: uploads a fixed number of payload bytes in batches of
//! chunks, looking at the cancellation flag before every batch.
//!
//! The caller owns the stream. It asks the sender what to do, transmits the
//! batch it is given, and asks again.

use vstd::prelude::*;

use bytes::Bytes;
use tokio::sync::watch::Receiver;

use crate::cancel::cancellation_requested;
use crate::error::TransferError;
use crate::payload::{
    batch_chunks,
    batch_end,
    chunk_bytes,
    chunk_payload,
    chunk_start,
    generate_batch,
    holds_batch,
    lemma_batch_bytes,
    lemma_batch_payload,
    lemma_batch_shape,
    lemma_chunk_start_bounds,
    payload_slice,
    same_contents_from,
};

verus! {

/// How far an upload has come.
#[derive(Clone, Copy, Debug, PartialEq, Eq, Structural)]
pub enum SendPhase {
    /// Payload may be left; the send side is open.
    Sending,
    /// The whole payload was handed over and the caller was told to signal
    /// the end of the stream.
    Finished,
    /// The transport failed, while it transmitted a batch or while it
    /// signalled the end of the stream.
    Failed,
}

/// What the caller is to do with the stream.
#[derive(Clone, Copy, Debug, PartialEq, Eq, Structural)]
pub enum SendAction {
    /// Transmit the first `count` chunks of the working set in one call.
    Transmit { count: usize },
    /// Signal the end of the stream on the send side, then return.
    Finish,
    /// Return without touching the stream.
    Stop,
}

/// The sender as contracts see it.
pub struct SenderView {
    /// Size of the payload.
    pub total: nat,
    /// Payload bytes handed over for transmission so far.
    pub sent: nat,
    pub phase: SendPhase,
}

impl SenderView {
    /// A sender never hands over more than the payload, and has handed over
    /// all of it once it is finished.
    pub open spec fn wf(self) -> bool {
        &&& self.sent <= self.total <= usize::MAX
        &&& self.phase == SendPhase::Finished ==> self.sent == self.total
    }

    /// A sender that has not handed over anything.
    pub open spec fn fresh(total: nat) -> SenderView {
        SenderView { total, sent: 0, phase: SendPhase::Sending }
    }
}

/// The sender after it was asked what to do, with `slots` chunks of working
/// set on offer.
///
/// A raised flag stops the sender where it is, and so does an upload that is
/// already over. Otherwise the next batch is handed over, or, when no payload
/// is left, the end of the stream is signalled.
pub open spec fn sender_after(before: SenderView, cancelled: bool, slots: nat) -> SenderView {
    if cancelled || before.phase != SendPhase::Sending {
        before
    } else if before.sent >= before.total {
        SenderView { phase: SendPhase::Finished, ..before }
    } else {
        SenderView { sent: batch_end(before.total, before.sent, slots), ..before }
    }
}

/// What the sender answers when it is asked what to do.
pub open spec fn sender_action(before: SenderView, cancelled: bool, slots: nat) -> SendAction {
    if cancelled || before.phase != SendPhase::Sending {
        SendAction::Stop
    } else if before.sent >= before.total {
        SendAction::Finish
    } else {
        SendAction::Transmit { count: batch_chunks(before.total, before.sent, slots) as usize }
    }
}

/// The sender after the transport failed on a call it had asked for.
pub open spec fn sender_failed(before: SenderView) -> SenderView {
    SenderView { phase: SendPhase::Failed, ..before }
}

/// What an upload comes to: the number of bytes handed over, also when
/// cancellation cut it short, unless the transport failed.
pub open spec fn sender_outcome(state: SenderView) -> Result<u64, TransferError> {
    if state.phase == SendPhase::Failed {
        Err(TransferError::Transport)
    } else {
        Ok(state.sent as u64)
    }
}

/// One exchange with the sender, for a given reading of the flag: the new
/// state, the answer, and what the working set holds afterwards. A batch
/// carries the payload from the byte the sender had come to up to the byte it
/// has come to now.
pub open spec fn sender_stepped(
    before: SenderView,
    cancelled: bool,
    chunks_before: Seq<Bytes>,
    after: SenderView,
    chunks_after: Seq<Bytes>,
    action: SendAction,
) -> bool {
    &&& after == sender_after(before, cancelled, chunks_before.len())
    &&& action == sender_action(before, cancelled, chunks_before.len())
    &&& after.wf()
    &&& match action {
        SendAction::Transmit { count } => {
            &&& count <= chunks_before.len()
            &&& chunks_before.len() > 0 ==> count >= 1
            &&& holds_batch(chunks_after, before.total, before.sent, count as nat)
            &&& same_contents_from(chunks_before, chunks_after, count as int)
            &&& after.sent == before.sent + chunk_bytes(chunks_after, count as int)
            &&& chunk_payload(chunks_after, count as int) == payload_slice(
                before.sent,
                (after.sent - before.sent) as nat,
            )
        },
        _ => same_contents_from(chunks_before, chunks_after, 0),
    }
}

/// The state of one upload.
pub struct BulkSender {
    total: u64,
    offset: u64,
    phase: SendPhase,
}

impl View for BulkSender {
    type V = SenderView;

    closed spec fn view(&self) -> SenderView {
        SenderView { total: self.total as nat, sent: self.offset as nat, phase: self.phase }
    }
}

impl BulkSender {
    #[verifier::type_invariant]
    spec fn well_formed(self) -> bool {
        self@.wf()
    }

    /// A sender for a payload of `total` bytes. The payload has to be
    /// addressable on this machine.
    pub fn new(total: u64) -> (sender: BulkSender)
        requires
            total <= usize::MAX,
        ensures
            sender@ == SenderView::fresh(total as nat),
    {
        BulkSender { total, offset: 0, phase: SendPhase::Sending }
    }

    /// Number of payload bytes handed over for transmission so far.
    pub fn bytes_sent(&self) -> (sent: u64)
        ensures
            sent == self@.sent,
            self@.wf(),
    {
        proof {
            use_type_invariant(self);
        }
        self.offset
    }

    /// How far the upload has come.
    pub fn phase(&self) -> (phase: SendPhase)
        ensures
            phase == self@.phase,
    {
        self.phase
    }

    /// Records that the transport failed on the call the sender asked for
    /// last, be it the transmission of a batch or the signal that ends the
    /// stream. The upload has failed from then on, and the sender asks for
    /// nothing more.
    pub fn abort(&mut self)
        ensures
            final(self)@ == sender_failed(old(self)@),
    {
        proof {
            use_type_invariant(&*self);
        }
        self.phase = SendPhase::Failed;
    }

    /// What the upload comes to: the number of bytes handed over, also when
    /// cancellation cut it short, unless the transport failed.
    pub fn outcome(&self) -> (outcome: Result<u64, TransferError>)
        ensures
            outcome == sender_outcome(self@),
    {
        match self.phase {
            SendPhase::Failed => Err(TransferError::Transport),
            _ => Ok(self.offset),
        }
    }

    /// Decides what happens next, given the flag as the caller read it.
    ///
    /// On `Transmit` the front of the working set holds the next batch of the
    /// payload and the batch counts as sent. The caller transmits it, or on
    /// `Finish` signals the end of the stream, and asks again; if the
    /// transport fails on either call, it calls [`BulkSender::abort`].
    pub fn step(&mut self, cancelled: bool, chunks: &mut Vec<Bytes>) -> (action: SendAction)
        ensures
            sender_stepped(
                old(self)@,
                cancelled,
                old(chunks)@,
                final(self)@,
                final(chunks)@,
                action,
            ),
    {
        proof {
            use_type_invariant(&*self);
        }
        if cancelled {
            return SendAction::Stop;
        }
        match self.phase {
            SendPhase::Sending => {},
            _ => {
                return SendAction::Stop;
            },
        }
        let ghost slots = chunks@.len();
        let total = self.total;
        let offset = self.offset;
        match generate_batch(total, offset, chunks) {
            None => {
                self.phase = SendPhase::Finished;
                SendAction::Finish
            },
            Some(count) => {
                proof {
                    lemma_batch_shape(total as nat, offset as nat, slots);
                }
                let mut queued: u64 = 0;
                let mut i: usize = 0;
                while i < count
                    invariant
                        i <= count <= chunks@.len(),
                        offset <= total,
                        holds_batch(chunks@, total as nat, offset as nat, count as nat),
                        queued == chunk_bytes(chunks@, i as int),
                        queued == chunk_start(total as nat, offset as nat, i as nat) - offset,
                    decreases count - i,
                {
                    proof {
                        lemma_batch_bytes(chunks@, total as nat, offset as nat, (i + 1) as nat);
                        lemma_chunk_start_bounds(total as nat, offset as nat, (i + 1) as nat);
                    }
                    queued = queued + chunks[i].len() as u64;
                    i = i + 1;
                }
                proof {
                    lemma_chunk_start_bounds(total as nat, offset as nat, count as nat);
                    lemma_batch_payload(chunks@, total as nat, offset as nat, count as nat);
                }
                self.offset = offset + queued;
                SendAction::Transmit { count }
            },
        }
    }

    /// Reads the cancellation flag and decides what happens next, as
    /// [`BulkSender::step`] does for the value that was read.
    pub fn poll(&mut self, signal: &Receiver<bool>, chunks: &mut Vec<Bytes>) -> (action: SendAction)
        ensures
            exists|cancelled: bool|
                sender_stepped(
                    old(self)@,
                    cancelled,
                    old(chunks)@,
                    final(self)@,
                    final(chunks)@,
                    action,
                ),
    {
        let cancelled = cancellation_requested(signal);
        self.step(cancelled, chunks)
    }
}

/// The sender after `steps` exchanges during which the flag stayed down.
pub open spec fn sender_run(start: SenderView, slots: nat, steps: nat) -> SenderView
    decreases steps,
{
    if steps == 0 {
        start
    } else {
        sender_after(sender_run(start, slots, (steps - 1) as nat), false, slots)
    }
}

/// Number of batches it takes to hand over what is left of a payload of which
/// `sent` bytes are gone.
pub open spec fn batches_left(total: nat, sent: nat, slots: nat) -> nat
    decreases total - sent,
{
    if sent >= total || slots == 0 {
        0
    } else {
        proof {
            lemma_batch_shape(total, sent, slots);
        }
        1 + batches_left(total, batch_end(total, sent, slots), slots)
    }
}

/// Running one exchange more is the same as running the exchanges from the
/// second state on.
pub proof fn lemma_sender_run_shift(start: SenderView, slots: nat, steps: nat)
    ensures
        sender_run(start, slots, steps + 1) == sender_run(
            sender_after(start, false, slots),
            slots,
            steps,
        ),
    decreases steps,
{
    if steps > 0 {
        lemma_sender_run_shift(start, slots, (steps - 1) as nat);
    }
    assert(sender_run(start, slots, steps + 1) == sender_after(
        sender_run(start, slots, steps),
        false,
        slots,
    ));
}

/// An upload that is over stays as it is.
pub proof fn lemma_sender_run_at_rest(start: SenderView, slots: nat, steps: nat)
    requires
        start.phase != SendPhase::Sending,
    ensures
        sender_run(start, slots, steps) == start,
    decreases steps,
{
    if steps > 0 {
        lemma_sender_run_at_rest(start, slots, (steps - 1) as nat);
    }
}

/// While the flag stays down, a sender with payload left hands over one
/// batch after the other, each of at least one byte, until exactly the whole
/// payload is gone.
pub proof fn lemma_sender_run_progress(start: SenderView, slots: nat)
    requires
        start.wf(),
        start.phase == SendPhase::Sending,
        slots >= 1,
    ensures
        forall|k: nat|
            k < batches_left(start.total, start.sent, slots) ==> ({
                let here = #[trigger] sender_run(start, slots, k);
                &&& here.wf()
                &&& here.phase == SendPhase::Sending
                &&& here.sent < sender_after(here, false, slots).sent <= start.total
                &&& sender_action(here, false, slots) is Transmit
            }),
        sender_run(start, slots, batches_left(start.total, start.sent, slots)) == (SenderView {
            sent: start.total,
            ..start
        }),
    decreases start.total - start.sent,
{
    let batches = batches_left(start.total, start.sent, slots);
    if start.sent < start.total {
        let second = sender_after(start, false, slots);
        lemma_batch_shape(start.total, start.sent, slots);
        lemma_sender_run_progress(second, slots);
        let rest = batches_left(second.total, second.sent, slots);
        assert(batches == 1 + rest);
        assert forall|k: nat| k < batches implies {
            let here = #[trigger] sender_run(start, slots, k);
            &&& here.wf()
            &&& here.phase == SendPhase::Sending
            &&& here.sent < sender_after(here, false, slots).sent <= start.total
            &&& sender_action(here, false, slots) is Transmit
        } by {
            if k > 0 {
                lemma_sender_run_shift(start, slots, (k - 1) as nat);
                assert(sender_run(start, slots, k) == sender_run(second, slots, (k - 1) as nat));
            }
        }
        lemma_sender_run_shift(start, slots, rest);
    }
}

/// With the flag down throughout, an upload hands over exactly the payload,
/// in one or more batches unless the payload is empty, signals the end of the
/// stream once, directly after the last byte, and then rests.
pub proof fn lemma_uncancelled_upload_completes(total: nat, slots: nat)
    requires
        total <= usize::MAX,
        slots >= 1,
    ensures
        total > 0 ==> batches_left(total, 0, slots) >= 1,
        forall|k: nat|
            k < batches_left(total, 0, slots) ==> ({
                let here = #[trigger] sender_run(SenderView::fresh(total), slots, k);
                &&& sender_action(here, false, slots) is Transmit
                &&& here.sent < sender_after(here, false, slots).sent <= total
            }),
        sender_run(SenderView::fresh(total), slots, batches_left(total, 0, slots)) == (SenderView {
            total,
            sent: total,
            phase: SendPhase::Sending,
        }),
        sender_action(
            sender_run(SenderView::fresh(total), slots, batches_left(total, 0, slots)),
            false,
            slots,
        ) == SendAction::Finish,
        forall|k: nat|
            k > batches_left(total, 0, slots) ==> ({
                let here = #[trigger] sender_run(SenderView::fresh(total), slots, k);
                &&& here == (SenderView { total, sent: total, phase: SendPhase::Finished })
                &&& sender_action(here, false, slots) == SendAction::Stop
            }),
{
    let start = SenderView::fresh(total);
    let batches = batches_left(total, 0, slots);
    lemma_sender_run_progress(start, slots);
    let drained = sender_run(start, slots, batches);
    let finished = SenderView { total, sent: total, phase: SendPhase::Finished };
    assert(sender_after(drained, false, slots) == finished);
    assert forall|k: nat| k > batches implies {
        let here = #[trigger] sender_run(start, slots, k);
        &&& here == finished
        &&& sender_action(here, false, slots) == SendAction::Stop
    } by {
        lemma_sender_run_resumes(start, slots, batches + 1, (k - batches - 1) as nat);
        assert(sender_run(start, slots, batches + 1) == finished);
        lemma_sender_run_at_rest(finished, slots, (k - batches - 1) as nat);
    }
}

/// Running `first + then` exchanges is running `first` and then `then` more.
pub proof fn lemma_sender_run_resumes(start: SenderView, slots: nat, first: nat, then: nat)
    ensures
        sender_run(start, slots, first + then) == sender_run(
            sender_run(start, slots, first),
            slots,
            then,
        ),
    decreases then,
{
    if then > 0 {
        lemma_sender_run_resumes(start, slots, first, (then - 1) as nat);
        assert(sender_run(start, slots, first + then) == sender_after(
            sender_run(start, slots, (first + then - 1) as nat),
            false,
            slots,
        ));
    }
}

/// A raised flag stops an upload where it stands: whatever number of batches
/// went out before, the sender answers `Stop` and its count stays what those
/// batches brought it to. Raised before the first batch, that is nothing.
pub proof fn lemma_cancelled_upload_stops(total: nat, slots: nat, batches: nat)
    ensures
        ({
            let here = sender_run(SenderView::fresh(total), slots, batches);
            &&& sender_action(here, true, slots) == SendAction::Stop
            &&& sender_after(here, true, slots) == here
        }),
        sender_run(SenderView::fresh(total), slots, 0).sent == 0,
{
}

/// A failure of the transport, on the transmission of a batch as on the
/// signal that ends the stream, makes the upload a transport error, whatever
/// had been handed over before. The count stays, and the sender asks for no
/// further call, whether the flag is raised or not.
pub proof fn lemma_failed_upload_is_an_error(before: SenderView, cancelled: bool, slots: nat)
    ensures
        sender_outcome(sender_failed(before)) == Err::<u64, TransferError>(
            TransferError::Transport,
        ),
        sender_failed(before).sent == before.sent,
        sender_action(sender_failed(before), cancelled, slots) == SendAction::Stop,
        sender_after(sender_failed(before), cancelled, slots) == sender_failed(before),
{
}

/// An upload on which the transport never failed is no error: it comes to
/// the bytes it handed over, all of them once the end of the stream was
/// ordered.
pub proof fn lemma_unfailed_upload_is_counted(total: nat, slots: nat, exchanges: nat)
    requires
        total <= usize::MAX,
        slots >= 1,
    ensures
        sender_outcome(sender_run(SenderView::fresh(total), slots, exchanges)) == Ok::<
            u64,
            TransferError,
        >(sender_run(SenderView::fresh(total), slots, exchanges).sent as u64),
        exchanges > batches_left(total, 0, slots) ==> sender_outcome(
            sender_run(SenderView::fresh(total), slots, exchanges),
        ) == Ok::<u64, TransferError>(total as u64),
{
    lemma_uncancelled_upload_completes(total, slots);
    lemma_sender_run_progress(SenderView::fresh(total), slots);
    let batches = batches_left(total, 0, slots);
    if exchanges < batches {
        assert(sender_run(SenderView::fresh(total), slots, exchanges).phase
            == SendPhase::Sending);
    } else if exchanges == batches {
    } else {
        assert(sender_run(SenderView::fresh(total), slots, exchanges).phase
            == SendPhase::Finished);
    }
}

} // verus!
