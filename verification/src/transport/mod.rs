//! Where encoded packets go.

pub mod null;
pub mod tcp;

use crate::encode::EncodedPacket;
use vstd::prelude::*;

verus! {

/// Why a packet could not be delivered.
#[derive(Clone, Copy, Debug, PartialEq, Eq, Structural)]
pub enum SinkError {
    /// The receiver is gone.
    Closed,
}

/// A receiver of encoded packets.
pub trait PacketSink {
    /// Whether the sink can take the packet.
    spec fn accepts(&self, packet: &EncodedPacket) -> bool;

    /// Takes a packet.
    fn submit(&mut self, packet: EncodedPacket) -> (result: Result<(), SinkError>)
        requires
            old(self).accepts(&packet),
    ;
}

/// Whether progress is reported after `count` packets or frames: after the first, and after every
/// hundred and twentieth.
pub fn progress_due(count: u64) -> (due: bool)
    ensures
        due == (count == 1 || count % 120 == 0),
{
    count == 1 || count % 120 == 0
}

} // verus!
