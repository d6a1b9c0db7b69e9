//! Picks the packets of one session out of a capture and tells which side
//! sent each.

use crate::error::AnalysisError;
use crate::pcap_struct::Packet;
use crate::utils::{convert_payload_to_buff, payload_bytes, same_text};
use vstd::prelude::*;

verus! {

/// The side that sent a packet.
#[derive(Clone, Copy, Debug, PartialEq, Eq, Structural)]
pub enum Direction {
    Server,
    Client,
}

impl Direction {
    /// The word for this side in reports and file names.
    pub fn label(&self) -> (word: &'static str)
        ensures
            word@ == match *self {
                Direction::Server => "server"@,
                Direction::Client => "client"@,
            },
    {
        match self {
            Direction::Server => "server",
            Direction::Client => "client",
        }
    }
}

/// One packet of the session: who sent it, and its raw payload.
#[derive(Debug, PartialEq, Eq)]
pub struct ExtractedPacket {
    pub direction: Direction,
    pub payload: Vec<u8>,
}

/// The mathematical value of an [`ExtractedPacket`].
pub ghost struct ExtractedPacketView {
    pub direction: Direction,
    pub payload: Seq<u8>,
}

impl View for ExtractedPacket {
    type V = ExtractedPacketView;

    open spec fn view(&self) -> ExtractedPacketView {
        ExtractedPacketView { direction: self.direction, payload: self.payload@ }
    }
}

/// The values of a run of extracted packets, in order.
pub open spec fn extracted_views(packets: Seq<ExtractedPacket>) -> Seq<ExtractedPacketView> {
    packets.map_values(|p: ExtractedPacket| p@)
}

/// The side that sent a packet with these ports, if it belongs to the
/// session on `session_port` at all: the server is the side that sends from
/// the session port, the client the side that sends to it.
pub open spec fn side_of(
    source_port: Seq<char>,
    destination_port: Seq<char>,
    session_port: Seq<char>,
) -> Option<Direction> {
    if source_port == session_port {
        Some(Direction::Server)
    } else if destination_port == session_port {
        Some(Direction::Client)
    } else {
        None
    }
}

/// The side of the session on `port` that sent the packet, if its transport
/// header names that port.
pub open spec fn session_side(packet: Packet, port: Seq<char>) -> Option<Direction> {
    match packet.source.layers.udp {
        Some(udp) => side_of(udp.udp_srcport@, udp.udp_dstport@, port),
        None => None,
    }
}

/// The packet belongs to the session on `port`: its transport header names
/// `port` on either side, and it carries a payload.
pub open spec fn in_session(packet: Packet, port: Seq<char>) -> bool {
    session_side(packet, port) is Some && packet.source.layers.data is Some
}

/// The payload bytes of a packet that carries one, `None` where its text is
/// malformed.
pub open spec fn payload_of(packet: Packet) -> Option<Seq<u8>> {
    payload_bytes(packet.source.layers.data.unwrap().data_data@)
}

/// What a session packet with a well-formed payload is extracted to.
pub open spec fn extracted_from(packet: Packet, port: Seq<char>) -> ExtractedPacketView {
    ExtractedPacketView {
        direction: session_side(packet, port).unwrap(),
        payload: payload_of(packet).unwrap(),
    }
}

/// The packets of `packets` that belong to the session, in capture order.
pub open spec fn session_packets(packets: Seq<Packet>, port: Seq<char>) -> Seq<Packet> {
    packets.filter(|p: Packet| in_session(p, port))
}

/// What an unbounded scan of `packets` extracts where no payload is
/// malformed: one entry for each session packet, in capture order.
pub open spec fn extraction(packets: Seq<Packet>, port: Seq<char>) -> Seq<ExtractedPacketView> {
    session_packets(packets, port).map_values(|p: Packet| extracted_from(p, port))
}

/// How many packets of the capture a scan looks at. Without a bound
/// (`max_packets == 0`) that is all of them. With one, the scan ends right
/// after the packet that brings the session packets seen to `max_packets`.
pub open spec fn inspected(packets: Seq<Packet>, port: Seq<char>, max_packets: nat) -> nat
    decreases packets.len(),
{
    if packets.len() == 0 {
        0
    } else if max_packets > 0 && session_packets(packets.drop_last(), port).len() >= max_packets {
        inspected(packets.drop_last(), port, max_packets)
    } else {
        packets.len()
    }
}

/// Session packets never get fewer as a capture grows.
pub proof fn lemma_session_packets_grow(packets: Seq<Packet>, port: Seq<char>, shorter: int)
    requires
        0 <= shorter <= packets.len(),
    ensures
        session_packets(packets.take(shorter), port).len() <= session_packets(
            packets,
            port,
        ).len(),
    decreases packets.len(),
{
    reveal(Seq::filter);
    if shorter < packets.len() {
        assert(packets.drop_last().take(shorter) == packets.take(shorter));
        lemma_session_packets_grow(packets.drop_last(), port, shorter);
    } else {
        assert(packets.take(shorter) == packets);
    }
}

/// Once a prefix holds `max_packets` session packets, nothing that follows
/// it is looked at.
pub proof fn lemma_scan_ends_at_bound(
    packets: Seq<Packet>,
    port: Seq<char>,
    max_packets: nat,
    reached: int,
)
    requires
        max_packets > 0,
        0 <= reached <= packets.len(),
        session_packets(packets.take(reached), port).len() >= max_packets,
    ensures
        inspected(packets, port, max_packets) == inspected(
            packets.take(reached),
            port,
            max_packets,
        ),
    decreases packets.len(),
{
    if reached < packets.len() {
        let shorter = packets.drop_last();
        assert(shorter.take(reached) == packets.take(reached));
        lemma_session_packets_grow(shorter, port, reached);
        lemma_scan_ends_at_bound(shorter, port, max_packets, reached);
    } else {
        assert(packets.take(reached) == packets);
    }
}

/// A scan that has not met its bound within a prefix goes on past it.
pub proof fn lemma_inspected_covers(
    packets: Seq<Packet>,
    port: Seq<char>,
    max_packets: nat,
    prefix_len: int,
)
    requires
        0 <= prefix_len < packets.len(),
        max_packets == 0 || session_packets(packets.take(prefix_len), port).len() < max_packets,
    ensures
        prefix_len < inspected(packets, port, max_packets),
    decreases packets.len(),
{
    let shorter = packets.drop_last();
    if max_packets > 0 && session_packets(shorter, port).len() >= max_packets {
        assert(prefix_len < shorter.len()) by {
            if prefix_len == shorter.len() {
                assert(packets.take(prefix_len) == shorter);
            }
        }
        assert(shorter.take(prefix_len) == packets.take(prefix_len));
        lemma_inspected_covers(shorter, port, max_packets, prefix_len);
    }
}

/// A scan looks at no more packets than there are.
pub proof fn lemma_inspected_in_range(packets: Seq<Packet>, port: Seq<char>, max_packets: nat)
    ensures
        inspected(packets, port, max_packets) <= packets.len(),
        max_packets == 0 ==> inspected(packets, port, max_packets) == packets.len(),
    decreases packets.len(),
{
    if packets.len() > 0 {
        lemma_inspected_in_range(packets.drop_last(), port, max_packets);
    }
}

/// Every session packet gives exactly one entry and no other packet gives
/// any: a capture that grows by one packet yields one more entry where that
/// packet has a transport header with the session port on either side and
/// carries a payload, and the same entries as before where it does not. The
/// entry names the server as sender exactly where the packet's source port
/// is the session port.
pub proof fn lemma_one_entry_per_session_packet(
    packets: Seq<Packet>,
    packet: Packet,
    port: Seq<char>,
)
    ensures
        in_session(packet, port) ==> extraction(packets.push(packet), port) == extraction(
            packets,
            port,
        ).push(extracted_from(packet, port)),
        !in_session(packet, port) ==> extraction(packets.push(packet), port) == extraction(
            packets,
            port,
        ),
        in_session(packet, port) ==> (extracted_from(packet, port).direction == Direction::Server
            <==> packet.source.layers.udp.unwrap().udp_srcport@ == port),
        in_session(packet, port) <==> packet.source.layers.udp is Some
            && packet.source.layers.data is Some && (packet.source.layers.udp.unwrap().udp_srcport@
            == port || packet.source.layers.udp.unwrap().udp_dstport@ == port),
{
    reveal(Seq::filter);
    assert(packets.push(packet).drop_last() == packets);
}

/// With a bound the packets that a scan looks at hold no more session
/// packets than the bound allows; and where the scan ends before the capture
/// does, they hold exactly that many, the last of them being the packet the
/// scan ends on.
pub proof fn lemma_scan_within_bound(packets: Seq<Packet>, port: Seq<char>, max_packets: nat)
    requires
        max_packets > 0,
    ensures
        extraction(packets.take(inspected(packets, port, max_packets) as int), port).len()
            <= max_packets,
        inspected(packets, port, max_packets) < packets.len() ==> {
            let end: int = inspected(packets, port, max_packets) as int;
            &&& extraction(packets.take(end), port).len() == max_packets
            &&& end > 0
            &&& in_session(packets[end - 1], port)
        },
    decreases packets.len(),
{
    reveal(Seq::filter);
    lemma_inspected_in_range(packets, port, max_packets);
    if packets.len() > 0 {
        let shorter = packets.drop_last();
        lemma_inspected_in_range(shorter, port, max_packets);
        lemma_scan_within_bound(shorter, port, max_packets);
        let end: int = inspected(packets, port, max_packets) as int;
        if session_packets(shorter, port).len() >= max_packets {
            assert(packets.take(end) == shorter.take(end));
            if end == shorter.len() {
                assert(shorter.take(end) == shorter);
                let before = shorter.drop_last();
                if session_packets(before, port).len() >= max_packets {
                    lemma_inspected_in_range(before, port, max_packets);
                }
            }
        } else {
            assert(packets.take(end) == packets);
        }
    }
}

/// Two captures that agree up to the packet that fills the bound are
/// scanned alike: the scan of either ends inside what they share, so the
/// packets that follow are never looked at.
pub proof fn lemma_later_packets_not_inspected(
    shared: Seq<Packet>,
    rest: Seq<Packet>,
    other_rest: Seq<Packet>,
    port: Seq<char>,
    max_packets: nat,
)
    requires
        max_packets > 0,
        session_packets(shared, port).len() >= max_packets,
    ensures
        inspected(shared + rest, port, max_packets) == inspected(shared, port, max_packets),
        inspected(shared + rest, port, max_packets) == inspected(
            shared + other_rest,
            port,
            max_packets,
        ),
        (shared + rest).take(inspected(shared + rest, port, max_packets) as int) == (shared
            + other_rest).take(inspected(shared + other_rest, port, max_packets) as int),
{
    let n: int = shared.len() as int;
    assert((shared + rest).take(n) == shared);
    assert((shared + other_rest).take(n) == shared);
    lemma_scan_ends_at_bound(shared + rest, port, max_packets, n);
    lemma_scan_ends_at_bound(shared + other_rest, port, max_packets, n);
    lemma_inspected_in_range(shared, port, max_packets);
    let end: int = inspected(shared, port, max_packets) as int;
    assert((shared + rest).take(end) == shared.take(end));
    assert((shared + other_rest).take(end) == shared.take(end));
}

/// Tells which side of the session on `session_port` sent a packet with
/// these ports, if either did.
pub fn which_side(source_port: &str, destination_port: &str, session_port: &str) -> (side: Option<
    Direction,
>)
    ensures
        side == side_of(source_port@, destination_port@, session_port@),
{
    if same_text(source_port, session_port) {
        Some(Direction::Server)
    } else if same_text(destination_port, session_port) {
        Some(Direction::Client)
    } else {
        None
    }
}

/// Picks the packets of the session on `server_port` out of `packets`, in
/// capture order, each with the side that sent it and its payload bytes.
///
/// A packet without transport header, without payload, or with neither port
/// equal to `server_port` is passed over. With `max_packets > 0` the scan
/// ends as soon as that many packets are extracted, and what follows is not
/// looked at. A session packet whose payload text is malformed ends the scan
/// with an error that names its place in the capture.
pub fn extract_raw_data_from_pcap(
    packets: &Vec<Packet>,
    server_port: &str,
    max_packets: usize,
) -> (extracted: Result<Vec<ExtractedPacket>, AnalysisError>)
    ensures
        match extracted {
            Ok(found) => {
                let seen = packets@.take(
                    inspected(packets@, server_port@, max_packets as nat) as int,
                );
                &&& extracted_views(found@) == extraction(seen, server_port@)
                &&& max_packets == 0 ==> seen == packets@
                &&& max_packets > 0 ==> found@.len() <= max_packets
                &&& forall|i: int|
                    0 <= i < seen.len() && in_session(#[trigger] seen[i], server_port@)
                        ==> payload_of(seen[i]) is Some
            },
            Err(error) => {
                &&& error matches AnalysisError::MalformedPayload { index }
                &&& index < inspected(packets@, server_port@, max_packets as nat)
                &&& in_session(packets@[index as int], server_port@)
                &&& payload_of(packets@[index as int]) is None
                &&& forall|i: int|
                    0 <= i < index && in_session(#[trigger] packets@[i], server_port@)
                        ==> payload_of(packets@[i]) is Some
            },
        },
{
    let ghost port = server_port@;
    let ghost limit = max_packets as nat;
    let mut found: Vec<ExtractedPacket> = Vec::new();
    let mut i: usize = 0;
    while i < packets.len() && (max_packets == 0 || found.len() < max_packets)
        invariant
            i <= packets.len(),
            port == server_port@,
            limit == max_packets as nat,
            inspected(packets@.take(i as int), port, limit) == i,
            found@.len() == session_packets(packets@.take(i as int), port).len(),
            max_packets > 0 ==> found@.len() <= max_packets,
            extracted_views(found@) == extraction(packets@.take(i as int), port),
            forall|j: int|
                0 <= j < i && in_session(#[trigger] packets@[j], port) ==> payload_of(
                    packets@[j],
                ) is Some,
        decreases packets.len() - i,
    {
        let ghost before = packets@.take(i as int);
        let ghost after = packets@.take(i + 1);
        proof {
            reveal(Seq::filter);
            assert(after.drop_last() == before);
            assert(after.last() == packets@[i as int]);
        }
        let packet = &packets[i];
        let side = match &packet.source.layers.udp {
            Some(udp) => which_side(
                udp.udp_srcport.as_str(),
                udp.udp_dstport.as_str(),
                server_port,
            ),
            None => None,
        };
        if let Some(direction) = side {
            if let Some(data) = &packet.source.layers.data {
                match convert_payload_to_buff(data.data_data.as_str()) {
                    Some(payload) => {
                        let ghost earlier = found@;
                        found.push(ExtractedPacket { direction, payload });
                        proof {
                            assert(extracted_views(found@) == extracted_views(earlier).push(
                                extracted_from(*packet, port),
                            ));
                        }
                    },
                    None => {
                        proof {
                            lemma_inspected_covers(packets@, port, limit, i as int);
                        }
                        return Err(AnalysisError::MalformedPayload { index: i });
                    },
                }
            }
        }
        i += 1;
    }
    proof {
        let seen = packets@.take(i as int);
        lemma_inspected_in_range(packets@, port, limit);
        if i < packets.len() {
            lemma_scan_ends_at_bound(packets@, port, limit, i as int);
        } else {
            assert(seen == packets@);
        }
        assert forall|j: int|
            0 <= j < seen.len() && in_session(#[trigger] seen[j], port) implies payload_of(
            seen[j],
        ) is Some by {
            assert(seen[j] == packets@[j]);
        }
    }
    Ok(found)
}

} // verus!
