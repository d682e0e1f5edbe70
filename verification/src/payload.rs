//! Chunks of bytes, and the synthetic payload that the sender uploads.
//!
//! The payload is the byte pattern `0, 1, .., 255, 0, 1, ..`, handed out in
//! reference-counted chunks by the transport's own test-data generator. This
//! module states what that generator produces and proves the arithmetic that
//! the sender builds on.

use vstd::prelude::*;

use bytes::Bytes;
use s2n_quic_core::stream::testing::Data;

verus! {

/// `bytes::Bytes`: a cheaply cloneable, immutable run of bytes.
#[verifier::external_type_specification]
#[verifier::external_body]
pub struct ExBytes(bytes::Bytes);

/// The bytes that a chunk holds.
pub uninterp spec fn bytes_contents(chunk: Bytes) -> Seq<u8>;

/// `Bytes::new` returns a chunk that holds no bytes.
pub assume_specification[ Bytes::new ]() -> (chunk: Bytes)
    ensures
        bytes_contents(chunk) == Seq::<u8>::empty(),
;

/// `Bytes::len` returns the number of bytes that the chunk holds.
pub assume_specification[ Bytes::len ](chunk: &Bytes) -> (len: usize)
    ensures
        len == bytes_contents(*chunk).len(),
;

/// Number of chunks in the working set of a transfer.
pub const BATCH_CHUNKS: usize = 64;

/// The longest chunk the payload generator hands out.
pub const MAX_CHUNK_LEN: usize = 131072;

/// A working set of [`BATCH_CHUNKS`] empty chunks.
pub fn new_working_set() -> (chunks: Vec<Bytes>)
    ensures
        chunks@.len() == BATCH_CHUNKS,
        forall|i: int| 0 <= i < chunks@.len() ==> bytes_contents(#[trigger] chunks@[i]).len() == 0,
{
    let mut chunks: Vec<Bytes> = Vec::new();
    while chunks.len() < BATCH_CHUNKS
        invariant
            chunks@.len() <= BATCH_CHUNKS,
            forall|i: int|
                0 <= i < chunks@.len() ==> bytes_contents(#[trigger] chunks@[i]).len() == 0,
        decreases BATCH_CHUNKS - chunks@.len(),
    {
        chunks.push(Bytes::new());
    }
    chunks
}

/// Total number of bytes in the first `count` chunks.
pub open spec fn chunk_bytes(chunks: Seq<Bytes>, count: int) -> nat
    decreases count,
{
    if count <= 0 {
        0
    } else {
        chunk_bytes(chunks, count - 1) + bytes_contents(chunks[count - 1]).len()
    }
}

/// The bytes of the first `count` chunks, one chunk after the other.
pub open spec fn chunk_payload(chunks: Seq<Bytes>, count: int) -> Seq<u8>
    decreases count,
{
    if count <= 0 {
        Seq::<u8>::empty()
    } else {
        chunk_payload(chunks, count - 1) + bytes_contents(chunks[count - 1])
    }
}

/// The payload byte at a stream position.
pub open spec fn payload_byte(position: nat) -> u8 {
    (position % 256) as u8
}

/// The `len` payload bytes that start at stream position `start`.
pub open spec fn payload_slice(start: nat, len: nat) -> Seq<u8> {
    Seq::new(len, |i: int| payload_byte((start + i) as nat))
}

/// Length of the chunk that the generator cuts at stream position `offset`
/// of a payload of `total` bytes: what is left of the payload, but no more
/// than what is left of the generator's pattern buffer at that position.
pub open spec fn chunk_len_at(total: nat, offset: nat) -> nat {
    let remaining = total - offset;
    let room = MAX_CHUNK_LEN - offset % 256;
    if remaining <= 0 {
        0
    } else if remaining < room {
        remaining as nat
    } else {
        room as nat
    }
}

/// Stream position at which chunk `index` of a batch begins, for a batch that
/// begins at `offset`.
pub open spec fn chunk_start(total: nat, offset: nat, index: nat) -> nat
    decreases index,
{
    if index == 0 {
        offset
    } else {
        let previous = chunk_start(total, offset, (index - 1) as nat);
        previous + chunk_len_at(total, previous)
    }
}

/// Number of chunks in the batch that begins at `offset` when the working set
/// has `slots` chunks: chunks are cut until the payload or the working set is
/// exhausted.
pub open spec fn batch_chunks(total: nat, offset: nat, slots: nat) -> nat
    decreases slots,
{
    if slots == 0 || offset >= total {
        0
    } else {
        1 + batch_chunks(total, offset + chunk_len_at(total, offset), (slots - 1) as nat)
    }
}

/// Stream position at which the batch that begins at `offset` ends.
pub open spec fn batch_end(total: nat, offset: nat, slots: nat) -> nat {
    chunk_start(total, offset, batch_chunks(total, offset, slots))
}

/// Whether the first `count` chunks hold the payload from `offset` on, cut as
/// the generator cuts it.
pub open spec fn holds_batch(chunks: Seq<Bytes>, total: nat, offset: nat, count: nat) -> bool {
    forall|i: int|
        0 <= i < count ==> bytes_contents(#[trigger] chunks[i]) == payload_slice(
            chunk_start(total, offset, i as nat),
            chunk_len_at(total, chunk_start(total, offset, i as nat)),
        )
}

/// Whether two working sets hold the same bytes from chunk `from` on.
pub open spec fn same_contents_from(before: Seq<Bytes>, after: Seq<Bytes>, from: int) -> bool {
    &&& before.len() == after.len()
    &&& forall|i: int|
        from <= i < before.len() ==> bytes_contents(#[trigger] after[i]) == bytes_contents(
            before[i],
        )
}

/// Asks the payload generator for the next batch.
///
/// Builds `s2n_quic_core::stream::testing::Data` for a payload of `total`
/// bytes with `Data::new`, moves it to `offset` with `Data::seek_forward`, and
/// calls `Data::send` with no limit on the amount.
///
/// The contract claims of `Data::send`: it returns `None` exactly when the
/// payload is exhausted and then leaves the chunks alone; otherwise it fills
/// chunks from the front, each with the bytes `position % 256` of the stream
/// positions it covers and each as long as the payload and the generator's
/// 128 KiB pattern buffer (entered at `position % 256`) allow, until the
/// payload or the working set is exhausted, returns how many it filled, and
/// leaves the other chunks alone. `total` has to fit in `usize` because the
/// generator casts what is left of the payload to `usize`. The buffer has
/// this size in every build of the generator but the one for Miri.
#[verifier::external_body]
pub(crate) fn generate_batch(total: u64, offset: u64, chunks: &mut Vec<Bytes>) -> (filled: Option<
    usize,
>)
    requires
        offset <= total <= usize::MAX,
    ensures
        filled is None <==> offset == total,
        filled is None ==> same_contents_from(old(chunks)@, final(chunks)@, 0),
        filled matches Some(count) ==> ({
            &&& count == batch_chunks(total as nat, offset as nat, old(chunks)@.len())
            &&& holds_batch(final(chunks)@, total as nat, offset as nat, count as nat)
            &&& same_contents_from(old(chunks)@, final(chunks)@, count as int)
        }),
{
    let mut data = Data::new(total);
    data.seek_forward(offset);
    data.send(usize::MAX, chunks)
}

/// A chunk is never empty while payload is left, never longer than
/// [`MAX_CHUNK_LEN`], and never reaches past the end of the payload.
pub proof fn lemma_chunk_len_bounds(total: nat, offset: nat)
    ensures
        chunk_len_at(total, offset) <= MAX_CHUNK_LEN,
        offset < total ==> 1 <= chunk_len_at(total, offset),
        offset <= total ==> offset + chunk_len_at(total, offset) <= total,
        offset >= total ==> chunk_len_at(total, offset) == 0,
{
}

/// Chunk boundaries never move backwards and never pass the end of the payload.
pub proof fn lemma_chunk_start_bounds(total: nat, offset: nat, index: nat)
    requires
        offset <= total,
    ensures
        offset <= chunk_start(total, offset, index) <= total,
        index > 0 ==> chunk_start(total, offset, (index - 1) as nat) <= chunk_start(
            total,
            offset,
            index,
        ),
    decreases index,
{
    if index > 0 {
        lemma_chunk_start_bounds(total, offset, (index - 1) as nat);
        lemma_chunk_len_bounds(total, chunk_start(total, offset, (index - 1) as nat));
    }
}

/// Chunk `index + 1` of a batch is chunk `index` of the batch that begins
/// where the first chunk ends.
pub proof fn lemma_chunk_start_shift(total: nat, offset: nat, index: nat)
    ensures
        chunk_start(total, offset, index + 1) == chunk_start(
            total,
            offset + chunk_len_at(total, offset),
            index,
        ),
    decreases index,
{
    let second = offset + chunk_len_at(total, offset);
    let here = chunk_start(total, offset, index);
    assert(chunk_start(total, offset, index + 1) == here + chunk_len_at(total, here));
    if index == 0 {
        assert(chunk_start(total, second, 0) == second);
    } else {
        lemma_chunk_start_shift(total, offset, (index - 1) as nat);
        let there = chunk_start(total, second, (index - 1) as nat);
        assert(here == there);
        assert(chunk_start(total, second, index) == there + chunk_len_at(total, there));
    }
}

/// A batch fills at most the working set; every chunk in it begins before the
/// end of the payload; and a batch that leaves slots unused has reached the
/// end of the payload.
pub proof fn lemma_batch_shape(total: nat, offset: nat, slots: nat)
    requires
        offset <= total,
    ensures
        batch_chunks(total, offset, slots) <= slots,
        offset < total && slots > 0 ==> batch_chunks(total, offset, slots) >= 1,
        forall|i: nat|
            i < batch_chunks(total, offset, slots) ==> #[trigger] chunk_start(total, offset, i)
                < total,
        batch_chunks(total, offset, slots) < slots ==> batch_end(total, offset, slots) == total,
        offset <= batch_end(total, offset, slots) <= total,
        offset < total && slots > 0 ==> offset < batch_end(total, offset, slots),
    decreases slots,
{
    let count = batch_chunks(total, offset, slots);
    lemma_chunk_start_bounds(total, offset, count);
    if slots == 0 || offset >= total {
    } else {
        let second = offset + chunk_len_at(total, offset);
        lemma_chunk_len_bounds(total, offset);
        lemma_batch_shape(total, second, (slots - 1) as nat);
        let rest = batch_chunks(total, second, (slots - 1) as nat);
        assert(count == 1 + rest);
        lemma_chunk_start_shift(total, offset, rest);
        assert forall|i: nat| i < count implies #[trigger] chunk_start(total, offset, i)
            < total by {
            if i > 0 {
                lemma_chunk_start_shift(total, offset, (i - 1) as nat);
            }
        }
        lemma_chunk_start_bounds(total, second, rest);
    }
}

/// The number of bytes in the front of a working set only grows with the
/// number of chunks looked at.
pub proof fn lemma_chunk_bytes_monotonic(chunks: Seq<Bytes>, fewer: int, more: int)
    requires
        fewer <= more,
    ensures
        chunk_bytes(chunks, fewer) <= chunk_bytes(chunks, more),
    decreases more - fewer,
{
    if fewer < more {
        lemma_chunk_bytes_monotonic(chunks, fewer, more - 1);
    }
}

/// The chunks of a batch, as the generator fills them, hold exactly the bytes
/// between the batch's first and last stream position.
pub proof fn lemma_batch_bytes(chunks: Seq<Bytes>, total: nat, offset: nat, count: nat)
    requires
        offset <= total,
        count <= chunks.len(),
        holds_batch(chunks, total, offset, count),
    ensures
        chunk_bytes(chunks, count as int) == chunk_start(total, offset, count) - offset,
    decreases count,
{
    if count > 0 {
        lemma_batch_bytes(chunks, total, offset, (count - 1) as nat);
        let start = chunk_start(total, offset, (count - 1) as nat);
        assert(bytes_contents(chunks[count - 1]) == payload_slice(
            start,
            chunk_len_at(total, start),
        ));
    }
}

/// A batch, as the generator fills it, carries the payload between the
/// batch's first and last stream position: every byte of it, once, in order.
pub proof fn lemma_batch_payload(chunks: Seq<Bytes>, total: nat, offset: nat, count: nat)
    requires
        offset <= total,
        count <= chunks.len(),
        holds_batch(chunks, total, offset, count),
    ensures
        chunk_payload(chunks, count as int) == payload_slice(
            offset,
            (chunk_start(total, offset, count) - offset) as nat,
        ),
        chunk_payload(chunks, count as int).len() == chunk_bytes(chunks, count as int),
    decreases count,
{
    lemma_chunk_start_bounds(total, offset, count);
    if count > 0 {
        lemma_batch_payload(chunks, total, offset, (count - 1) as nat);
        lemma_chunk_start_bounds(total, offset, (count - 1) as nat);
        let start = chunk_start(total, offset, (count - 1) as nat);
        let len = chunk_len_at(total, start);
        assert(bytes_contents(chunks[count - 1]) == payload_slice(start, len));
        assert(payload_slice(offset, (start - offset) as nat) + payload_slice(start, len)
            =~= payload_slice(offset, (start + len - offset) as nat));
    } else {
        assert(chunk_payload(chunks, 0) =~= payload_slice(offset, 0));
    }
}

} // verus!
