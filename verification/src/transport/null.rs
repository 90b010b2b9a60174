//! A sink for measurements.

use crate::encode::EncodedPacket;
use crate::transport::PacketSink;
use crate::transport::SinkError;
use vstd::prelude::*;

verus! {

/// Discards encoded packets while keeping lightweight counters for validation.
#[derive(Debug)]
pub struct NullSink {
    pub packets: u64,
    pub bytes: u64,
}

impl NullSink {
    /// Creates a sink that has counted nothing yet.
    pub fn new() -> (sink: Self)
        ensures
            sink.packets == 0,
            sink.bytes == 0,
    {
        NullSink { packets: 0, bytes: 0 }
    }
}

impl PacketSink for NullSink {
    open spec fn accepts(&self, packet: &EncodedPacket) -> bool {
        self.packets < u64::MAX && self.bytes + packet.data@.len() <= u64::MAX
    }

    /// Counts a packet and its bytes, and drops it.
    fn submit(&mut self, packet: EncodedPacket) -> (result: Result<(), SinkError>)
        ensures
            result is Ok,
            final(self).packets == old(self).packets + 1,
            final(self).bytes == old(self).bytes + packet.data@.len(),
    {
        self.packets = self.packets + 1;
        self.bytes = self.bytes + packet.data.len() as u64;
        Ok(())
    }
}

} // verus!
