//! What one turn of the client achieved, and the throughput of its two legs.

use vstd::prelude::*;

use crate::request::TransferRequest;

verus! {

/// Number of bits that one second carries at one bit per nanosecond, times
/// the eight bits of a byte: the factor between bytes per nanosecond and bits
/// per second.
pub const BITS_PER_BYTE_SECOND: u128 = 8_000_000_000;

/// The measurements of one turn: the bytes that each leg moved and the time
/// it took.
#[derive(Clone, Copy, Debug, PartialEq, Eq, Structural)]
pub struct TransferResult {
    pub bytes_sent: u64,
    pub send_duration_nanos: u64,
    pub bytes_received: u64,
    pub receive_duration_nanos: u64,
}

/// Bits per second, rounded down, for `bytes` bytes moved in `elapsed_nanos`
/// nanoseconds. Meaningful for a positive time only.
pub open spec fn throughput(bytes: nat, elapsed_nanos: nat) -> nat
    recommends
        elapsed_nanos > 0,
{
    (bytes * 8_000_000_000) / elapsed_nanos
}

/// The throughput of a leg in bits per second, rounded down. There is none
/// for a leg that took no time, or whose rate is beyond `u64`.
pub fn bits_per_second(bytes: u64, elapsed_nanos: u64) -> (rate: Option<u64>)
    ensures
        rate is Some <==> elapsed_nanos > 0 && throughput(bytes as nat, elapsed_nanos as nat)
            <= u64::MAX,
        rate matches Some(bits) ==> bits == throughput(bytes as nat, elapsed_nanos as nat),
{
    if elapsed_nanos == 0 {
        return None;
    }
    let bits_per_nano_second: u128 = bytes as u128 * BITS_PER_BYTE_SECOND;
    let rate: u128 = bits_per_nano_second / elapsed_nanos as u128;
    if rate > u64::MAX as u128 {
        None
    } else {
        Some(rate as u64)
    }
}

impl TransferResult {
    /// Throughput of the send leg.
    pub fn send_bits_per_second(&self) -> (rate: Option<u64>)
        ensures
            rate is Some <==> self.send_duration_nanos > 0 && throughput(
                self.bytes_sent as nat,
                self.send_duration_nanos as nat,
            ) <= u64::MAX,
            rate matches Some(bits) ==> bits == throughput(
                self.bytes_sent as nat,
                self.send_duration_nanos as nat,
            ),
    {
        bits_per_second(self.bytes_sent, self.send_duration_nanos)
    }

    /// Throughput of the receive leg.
    pub fn receive_bits_per_second(&self) -> (rate: Option<u64>)
        ensures
            rate is Some <==> self.receive_duration_nanos > 0 && throughput(
                self.bytes_received as nat,
                self.receive_duration_nanos as nat,
            ) <= u64::MAX,
            rate matches Some(bits) ==> bits == throughput(
                self.bytes_received as nat,
                self.receive_duration_nanos as nat,
            ),
    {
        bits_per_second(self.bytes_received, self.receive_duration_nanos)
    }

    /// Whether the peer answered with as many bytes as it was asked for.
    pub fn answers(&self, request: &TransferRequest) -> (matching: bool)
        ensures
            matching == (self.bytes_received == request.requested_response_bytes),
    {
        self.bytes_received == request.requested_response_bytes
    }
}

} // verus!
