use vstd::prelude::*;

verus! {

/// Most clients the transport serves at once.
pub const TRANSPORT_MAX_CLIENTS: usize = 64;
/// Largest datagram the transport sends.
pub const TRANSPORT_MAX_PACKET_BYTES: usize = 1400;
/// Largest payload of one message within a datagram.
pub const TRANSPORT_MAX_PAYLOAD_BYTES: usize = 1300;
/// Milliseconds between forced flushes of the transport.
pub const TRANSPORT_SEND_RATE_MS: u64 = 250;
/// Milliseconds per tick.
pub const TICK_DELTA_MS: u64 = 16;
/// The id of the one session this process serves.
pub const MAIN_SESSION_ID: u32 = 0;

} // verus!
