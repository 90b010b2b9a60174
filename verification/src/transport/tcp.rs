//! A sink that streams packets to one client at a time.

use crate::encode::EncodedPacket;
use crate::transport::SinkError;
use vstd::prelude::*;

verus! {

/// State of a stream of packets to one client at a time. The connection itself is held outside.
#[derive(Debug)]
pub struct TcpAnnexBSink {
    /// Whether a client is connected.
    pub client: bool,
    /// Whether the client has not been sent anything yet, and waits for a frame that can be
    /// decoded without earlier ones.
    pub waiting_for_keyframe: bool,
    pub packets: u64,
    pub bytes: u64,
}

impl TcpAnnexBSink {
    /// Only a connected client can be waiting.
    pub open spec fn wf(&self) -> bool {
        self.waiting_for_keyframe ==> self.client
    }

    /// Creates a stream without a client.
    pub fn new() -> (sink: Self)
        ensures
            sink.wf(),
            sink == (TcpAnnexBSink {
                client: false,
                waiting_for_keyframe: false,
                packets: 0,
                bytes: 0,
            }),
    {
        TcpAnnexBSink { client: false, waiting_for_keyframe: false, packets: 0, bytes: 0 }
    }

    /// Whether to look for a client before the next packet.
    pub fn wants_client(&self) -> (wants: bool)
        ensures
            wants == !self.client,
    {
        !self.client
    }

    /// Takes in the outcome of looking for a client. A new client waits for a keyframe.
    pub fn accept_client_if_needed(&mut self, accepted: bool)
        requires
            old(self).wf(),
        ensures
            final(self).wf(),
            *final(self) == old(self).after_accept(accepted),
    {
        if self.client {
            return;
        }
        if accepted {
            self.client = true;
            self.waiting_for_keyframe = true;
        }
    }

    /// Whether a packet is sent: it is not empty, and there is a client that can decode it.
    pub open spec fn sends(&self, packet: &EncodedPacket) -> bool {
        packet.data@.len() > 0 && self.client && (self.waiting_for_keyframe ==> packet.keyframe)
    }

    /// The state after looking for a client. A new client waits for a keyframe.
    pub open spec fn after_accept(&self, accepted: bool) -> TcpAnnexBSink {
        if !self.client && accepted {
            TcpAnnexBSink { client: true, waiting_for_keyframe: true, ..*self }
        } else {
            *self
        }
    }

    /// The state after deciding on a packet. A packet that is sent ends the wait for a keyframe.
    pub open spec fn after_submit(&self, packet: &EncodedPacket) -> TcpAnnexBSink {
        TcpAnnexBSink {
            waiting_for_keyframe: self.waiting_for_keyframe && !self.sends(packet),
            ..*self
        }
    }

    /// The state after a packet of `len` bytes was or was not written to the client.
    pub open spec fn after_written(&self, len: usize, written: bool) -> TcpAnnexBSink {
        if written {
            TcpAnnexBSink {
                packets: (self.packets + 1) as u64,
                bytes: (self.bytes + len) as u64,
                ..*self
            }
        } else {
            TcpAnnexBSink { client: false, waiting_for_keyframe: false, ..*self }
        }
    }

    /// Decides whether the packet is sent to the client. A client that waits for a keyframe stops
    /// waiting with the first one. A packet that is not sent is no error.
    pub fn submit(&mut self, packet: &EncodedPacket) -> (send: Result<bool, SinkError>)
        requires
            old(self).wf(),
        ensures
            send == Ok::<bool, SinkError>(old(self).sends(packet)),
            final(self).wf(),
            *final(self) == old(self).after_submit(packet),
    {
        if packet.data.len() == 0 {
            return Ok(false);
        }
        if !self.client {
            return Ok(false);
        }
        if self.waiting_for_keyframe {
            if !packet.keyframe {
                return Ok(false);
            }
            self.waiting_for_keyframe = false;
        }
        Ok(true)
    }

    /// Takes in whether a packet of `len` bytes could be sent. A client that it could not be sent
    /// to is gone, which is no error.
    pub fn on_written(&mut self, len: usize, written: bool) -> (result: Result<(), SinkError>)
        requires
            old(self).wf(),
            written ==> old(self).packets < u64::MAX && old(self).bytes + len <= u64::MAX,
        ensures
            result is Ok,
            final(self).wf(),
            *final(self) == old(self).after_written(len, written),
    {
        if !written {
            self.client = false;
            self.waiting_for_keyframe = false;
            return Ok(());
        }
        self.packets = self.packets + 1;
        self.bytes = self.bytes + len as u64;
        Ok(())
    }
}

/// The state after a packet was decided on, and written if it was to be sent.
pub open spec fn after_packet(sink: TcpAnnexBSink, packet: EncodedPacket) -> TcpAnnexBSink {
    if sink.sends(&packet) {
        sink.after_submit(&packet).after_written(packet.data@.len() as usize, true)
    } else {
        sink.after_submit(&packet)
    }
}

/// The packets of a sequence that are sent, in order, while the client stays connected.
pub open spec fn sent_packets(sink: TcpAnnexBSink, packets: Seq<EncodedPacket>) -> Seq<
    EncodedPacket,
>
    decreases packets.len(),
{
    if packets.len() == 0 {
        Seq::empty()
    } else {
        let rest = sent_packets(after_packet(sink, packets[0]), packets.drop_first());
        if sink.sends(&packets[0]) {
            seq![packets[0]] + rest
        } else {
            rest
        }
    }
}

/// A client's stream starts with a keyframe: the first packet that is sent to a client that has
/// just connected is a keyframe.
pub proof fn law_stream_starts_with_a_keyframe(sink: TcpAnnexBSink, packets: Seq<EncodedPacket>)
    requires
        sink.waiting_for_keyframe,
        sent_packets(sink, packets).len() > 0,
    ensures
        sent_packets(sink, packets)[0].keyframe,
    decreases packets.len(),
{
    if packets.len() > 0 && !sink.sends(&packets[0]) {
        law_stream_starts_with_a_keyframe(after_packet(sink, packets[0]), packets.drop_first());
    }
}

/// Every client starts over: whatever went before, a client that connects after another one was
/// lost waits for a keyframe.
pub proof fn law_every_client_waits_for_a_keyframe(sink: TcpAnnexBSink, len: usize)
    ensures
        sink.after_written(len, false).after_accept(true).client,
        sink.after_written(len, false).after_accept(true).waiting_for_keyframe,
{
}

/// Once a client has been sent its keyframe, it is sent every packet that is not empty.
pub proof fn law_nothing_is_skipped_after_the_keyframe(sink: TcpAnnexBSink, packet: EncodedPacket)
    requires
        sink.client,
        !sink.waiting_for_keyframe,
    ensures
        sink.sends(&packet) <==> packet.data@.len() > 0,
        after_packet(sink, packet).client,
        !after_packet(sink, packet).waiting_for_keyframe,
{
}

/// An empty packet is never sent, and changes nothing.
pub proof fn law_empty_packets_are_ignored(sink: TcpAnnexBSink, packet: EncodedPacket)
    requires
        packet.data@.len() == 0,
    ensures
        !sink.sends(&packet),
        after_packet(sink, packet) == sink,
{
}

/// The bytes of packets, one after the other.
pub open spec fn bytes_of(packets: Seq<EncodedPacket>) -> Seq<u8>
    decreases packets.len(),
{
    if packets.len() == 0 {
        Seq::empty()
    } else {
        packets[0].data@ + bytes_of(packets.drop_first())
    }
}

/// `j` is the first place of a keyframe that is not empty.
pub open spec fn first_keyframe(packets: Seq<EncodedPacket>, j: int) -> bool {
    &&& 0 <= j < packets.len()
    &&& packets[j].keyframe && packets[j].data@.len() > 0
    &&& forall|i: int|
        0 <= i < j ==> !((#[trigger] packets[i]).keyframe && packets[i].data@.len() > 0)
}

/// There is no keyframe that is not empty.
pub open spec fn no_keyframe(packets: Seq<EncodedPacket>) -> bool {
    forall|i: int|
        0 <= i < packets.len() ==> !((#[trigger] packets[i]).keyframe && packets[i].data@.len() > 0)
}

/// Once a client has been sent its keyframe, it receives the bytes of all packets.
proof fn lemma_receives_everything(sink: TcpAnnexBSink, packets: Seq<EncodedPacket>)
    requires
        sink.client,
        !sink.waiting_for_keyframe,
    ensures
        bytes_of(sent_packets(sink, packets)) == bytes_of(packets),
    decreases packets.len(),
{
    if packets.len() > 0 {
        let first = packets[0];
        let next = after_packet(sink, first);
        law_nothing_is_skipped_after_the_keyframe(sink, first);
        lemma_receives_everything(next, packets.drop_first());
        let rest = sent_packets(next, packets.drop_first());
        if sink.sends(&first) {
            assert((seq![first] + rest).drop_first() =~= rest);
        } else {
            assert(first.data@ =~= Seq::<u8>::empty());
            assert(bytes_of(packets) =~= bytes_of(packets.drop_first()));
        }
    }
}

proof fn lemma_waiting_client_receives(sink: TcpAnnexBSink, packets: Seq<EncodedPacket>)
    requires
        sink.client,
        sink.waiting_for_keyframe,
    ensures
        no_keyframe(packets) ==> sent_packets(sink, packets) == Seq::<EncodedPacket>::empty(),
        forall|j: int|
            #[trigger] first_keyframe(packets, j) ==> bytes_of(sent_packets(sink, packets))
                == bytes_of(packets.skip(j)),
    decreases packets.len(),
{
    if packets.len() > 0 {
        let first = packets[0];
        let rest = packets.drop_first();
        let next = after_packet(sink, first);
        if sink.sends(&first) {
            lemma_receives_everything(next, rest);
            let sent = sent_packets(next, rest);
            assert((seq![first] + sent).drop_first() =~= sent);
            assert forall|j: int| #[trigger] first_keyframe(packets, j) implies bytes_of(
                sent_packets(sink, packets),
            ) == bytes_of(packets.skip(j)) by {
                assert(j == 0);
                assert(packets.skip(0) =~= packets);
            }
        } else {
            assert(next == sink);
            lemma_waiting_client_receives(sink, rest);
            assert forall|j: int| #[trigger] first_keyframe(packets, j) implies bytes_of(
                sent_packets(sink, packets),
            ) == bytes_of(packets.skip(j)) by {
                assert(j > 0);
                assert forall|i: int| 0 <= i < j - 1 implies !((#[trigger] rest[i]).keyframe
                    && rest[i].data@.len() > 0) by {
                    assert(rest[i] == packets[i + 1]);
                }
                assert(first_keyframe(rest, j - 1));
                assert(rest.skip(j - 1) =~= packets.skip(j));
            }
            if no_keyframe(packets) {
                assert forall|i: int| 0 <= i < rest.len() implies !((#[trigger] rest[i]).keyframe
                    && rest[i].data@.len() > 0) by {
                    assert(rest[i] == packets[i + 1]);
                }
            }
        }
    }
}

/// What a client receives: a client that is accepted with the first of these packets, and to which
/// every packet that is sent can be written, receives the bytes of all packets from the first
/// keyframe on that is not empty. If there is no such keyframe, it receives nothing.
pub proof fn law_client_receives_the_stream_from_its_keyframe(
    sink: TcpAnnexBSink,
    packets: Seq<EncodedPacket>,
)
    requires
        !sink.client,
    ensures
        ({
            let received = bytes_of(sent_packets(sink.after_accept(true), packets));
            &&& no_keyframe(packets) ==> received == Seq::<u8>::empty()
            &&& forall|j: int|
                #[trigger] first_keyframe(packets, j) ==> received == bytes_of(packets.skip(j))
            &&& no_keyframe(packets) || exists|j: int| #[trigger] first_keyframe(packets, j)
        }),
{
    lemma_waiting_client_receives(sink.after_accept(true), packets);
    lemma_keyframe_or_none(packets);
}

proof fn lemma_keyframe_or_none(packets: Seq<EncodedPacket>)
    ensures
        no_keyframe(packets) || exists|j: int| #[trigger] first_keyframe(packets, j),
    decreases packets.len(),
{
    if packets.len() > 0 {
        let earlier = packets.drop_last();
        lemma_keyframe_or_none(earlier);
        if no_keyframe(earlier) {
            assert forall|i: int| 0 <= i < packets.len() - 1 implies !((
            #[trigger] packets[i]).keyframe && packets[i].data@.len() > 0) by {
                assert(packets[i] == earlier[i]);
            }
            if !no_keyframe(packets) {
                assert(first_keyframe(packets, packets.len() - 1));
            }
        } else {
            let j = choose|j: int| #[trigger] first_keyframe(earlier, j);
            assert forall|i: int| 0 <= i < j implies !((#[trigger] packets[i]).keyframe
                && packets[i].data@.len() > 0) by {
                assert(packets[i] == earlier[i]);
            }
            assert(packets[j] == earlier[j]);
            assert(first_keyframe(packets, j));
        }
    }
}

/// The state after packets, while everything that is sent can be written.
pub open spec fn after_packets(sink: TcpAnnexBSink, packets: Seq<EncodedPacket>) -> TcpAnnexBSink
    decreases packets.len(),
{
    if packets.len() == 0 {
        sink
    } else {
        after_packets(after_packet(sink, packets[0]), packets.drop_first())
    }
}

/// The stream counts what it sends: after any packets, the packets and the bytes that were sent have
/// been added to its counts, and nothing else.
pub proof fn law_stream_counts_what_it_sends(sink: TcpAnnexBSink, packets: Seq<EncodedPacket>)
    requires
        sink.packets + sent_packets(sink, packets).len() <= u64::MAX,
        sink.bytes + bytes_of(sent_packets(sink, packets)).len() <= u64::MAX,
        forall|k: int| 0 <= k < packets.len() ==> (#[trigger] packets[k]).data@.len() <= usize::MAX,
    ensures
        ({
            let after = after_packets(sink, packets);
            let sent = sent_packets(sink, packets);
            &&& after.packets == sink.packets + sent.len()
            &&& after.bytes == sink.bytes + bytes_of(sent).len()
            &&& after.client == sink.client
        }),
    decreases packets.len(),
{
    if packets.len() > 0 {
        let first = packets[0];
        let rest = packets.drop_first();
        let next = after_packet(sink, first);
        let sent = sent_packets(next, rest);
        assert forall|k: int| 0 <= k < rest.len() implies (#[trigger] rest[k]).data@.len()
            <= usize::MAX by {
            assert(rest[k] == packets[k + 1]);
        }
        if sink.sends(&first) {
            assert((seq![first] + sent).drop_first() =~= sent);
            assert((seq![first] + sent)[0] == first);
        }
        law_stream_counts_what_it_sends(next, rest);
    }
}

/// A client that could not be written to is gone: nothing is counted for that packet, and nothing is
/// sent until another client is there.
pub proof fn law_lost_client_is_sent_nothing(
    sink: TcpAnnexBSink,
    len: usize,
    packet: EncodedPacket,
)
    ensures
        ({
            let lost = sink.after_written(len, false);
            &&& lost.packets == sink.packets && lost.bytes == sink.bytes
            &&& !lost.sends(&packet)
            &&& !lost.after_accept(false).sends(&packet)
            &&& lost.after_accept(true).sends(&packet) <==> (packet.keyframe && packet.data@.len()
                > 0)
        }),
{
}

/// One client at a time: looking for a client changes nothing while one is there.
pub proof fn law_connected_client_stays(sink: TcpAnnexBSink, accepted: bool)
    requires
        sink.client,
    ensures
        sink.after_accept(accepted) == sink,
{
}

} // verus!
