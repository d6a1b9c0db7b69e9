//! Decodes the packets of a session and parts them by the side that sent
//! them.

use crate::decoder::{Decoder, DecoderView};
use crate::error::AnalysisError;
use crate::message::{
    message_from_text, message_of_text, message_views, name_of_text, DecodedMessage, MessageView,
};
use crate::pcap_extraction::{Direction, ExtractedPacket};
use crate::report::{line_views, rates_of, report_lines};
use crate::stats::{analyse_packets, Stats};
use crate::stats_model::StatsView;
use vstd::prelude::*;

verus! {

/// What the decoder said of one packet.
#[derive(Debug, PartialEq, Eq)]
pub struct ParsedPacket {
    pub direction: Direction,
    /// The decoder's description, JSON text.
    pub text: String,
}

/// The mathematical value of a [`ParsedPacket`].
pub ghost struct ParsedPacketView {
    pub direction: Direction,
    pub text: Seq<char>,
}

impl View for ParsedPacket {
    type V = ParsedPacketView;

    open spec fn view(&self) -> ParsedPacketView {
        ParsedPacketView { direction: self.direction, text: self.text@ }
    }
}

/// The values of a run of descriptions, in order.
pub open spec fn parsed_views(parsed: Seq<ParsedPacket>) -> Seq<ParsedPacketView> {
    parsed.map_values(|p: ParsedPacket| p@)
}

/// One decoded packet of the session.
#[derive(Debug, PartialEq, Eq)]
pub struct DecodedPacket {
    pub direction: Direction,
    /// The kind tag that the decoder gave the packet, such as `Ack` or
    /// `SessionRequest`.
    pub name: String,
    /// The decoder's description, JSON text.
    pub text: String,
    pub message: DecodedMessage,
}

/// The mathematical value of a [`DecodedPacket`].
pub ghost struct DecodedPacketView {
    pub direction: Direction,
    pub name: Seq<char>,
    pub text: Seq<char>,
    pub message: MessageView,
}

impl View for DecodedPacket {
    type V = DecodedPacketView;

    open spec fn view(&self) -> DecodedPacketView {
        DecodedPacketView {
            direction: self.direction,
            name: self.name@,
            text: self.text@,
            message: self.message@,
        }
    }
}

/// The values of a run of decoded packets, in order.
pub open spec fn decoded_views(packets: Seq<DecodedPacket>) -> Seq<DecodedPacketView> {
    packets.map_values(|p: DecodedPacket| p@)
}

/// The decoded session: every packet in capture order, and each side's
/// messages on their own.
#[derive(Debug, PartialEq, Eq)]
pub struct DecodedPackets {
    pub packets: Vec<DecodedPacket>,
    pub server: Vec<DecodedMessage>,
    pub client: Vec<DecodedMessage>,
}

impl DecodedPackets {
    /// Each side holds the messages that it sent, in capture order.
    pub open spec fn wf(&self) -> bool {
        &&& message_views(self.server@) == side(decoded_views(self.packets@), Direction::Server)
        &&& message_views(self.client@) == side(decoded_views(self.packets@), Direction::Client)
    }
}

/// The decoded packet that a description stands for.
pub open spec fn decoded_from(parsed: ParsedPacketView) -> DecodedPacketView {
    DecodedPacketView {
        direction: parsed.direction,
        name: name_of_text(parsed.text).unwrap(),
        text: parsed.text,
        message: message_of_text(parsed.text).unwrap(),
    }
}

/// The place of the first description that stands for no message, or the
/// number of descriptions where each stands for one.
pub open spec fn first_unreadable(parsed: Seq<ParsedPacketView>) -> nat
    decreases parsed.len(),
{
    if parsed.len() == 0 {
        0
    } else if first_unreadable(parsed.drop_last()) < parsed.len() - 1 {
        first_unreadable(parsed.drop_last())
    } else if message_of_text(parsed.last().text) is Some {
        parsed.len()
    } else {
        (parsed.len() - 1) as nat
    }
}

/// What reading a run of descriptions gives: the decoded packets, or the
/// place of the first description that stands for no message.
pub open spec fn read_descriptions(parsed: Seq<ParsedPacketView>) -> Result<
    Seq<DecodedPacketView>,
    nat,
> {
    if first_unreadable(parsed) == parsed.len() {
        Ok(parsed.map_values(|p: ParsedPacketView| decoded_from(p)))
    } else {
        Err(first_unreadable(parsed))
    }
}

/// The payloads of a run of extracted packets, in order.
pub open spec fn payloads(extracted: Seq<ExtractedPacket>) -> Seq<Seq<u8>> {
    extracted.map_values(|p: ExtractedPacket| p.payload@)
}

/// How many packets are decoded: all that there are, or the first
/// `max_packets` of them where that bound is set and lower.
pub open spec fn decode_count(available: nat, max_packets: nat) -> nat {
    if 0 < max_packets < available {
        max_packets
    } else {
        available
    }
}

/// What a decoder that starts with `settings` says of the first `count`
/// packets of `extracted`, given them in order.
pub open spec fn descriptions(
    settings: DecoderView,
    extracted: Seq<ExtractedPacket>,
    count: nat,
) -> Seq<ParsedPacketView> {
    Seq::new(
        count,
        |i: int|
            ParsedPacketView {
                direction: extracted[i].direction,
                text: settings.description_at(payloads(extracted), i),
            },
    )
}

/// The messages that `direction` sent, in capture order.
pub open spec fn side(packets: Seq<DecodedPacketView>, direction: Direction) -> Seq<MessageView> {
    packets.filter(|p: DecodedPacketView| p.direction == direction).map_values(
        |p: DecodedPacketView| p.message,
    )
}

/// The two sides' messages put back into one sequence: `directions` names,
/// for each place in the capture, the side whose next message stands there.
pub open spec fn merged(
    directions: Seq<Direction>,
    server: Seq<MessageView>,
    client: Seq<MessageView>,
) -> Seq<MessageView>
    decreases directions.len(),
{
    if directions.len() == 0 {
        Seq::empty()
    } else {
        match directions.last() {
            Direction::Server => merged(directions.drop_last(), server.drop_last(), client).push(
                server.last(),
            ),
            Direction::Client => merged(directions.drop_last(), server, client.drop_last()).push(
                client.last(),
            ),
        }
    }
}

/// What decoding the packets of a session gives, with a decoder made with
/// the given checksum settings: the decoded packets in capture order, or the
/// place of the first packet whose description stands for no message.
pub open spec fn decoded_session(
    extracted: Seq<ExtractedPacket>,
    use_crc: bool,
    crc_seed: u32,
    max_packets: nat,
) -> Result<Seq<DecodedPacketView>, nat> {
    read_descriptions(
        descriptions(
            DecoderView { use_crc, crc_seed },
            extracted,
            decode_count(extracted.len(), max_packets),
        ),
    )
}

/// The counters of one direction after all its messages, starting from
/// nothing.
pub open spec fn direction_stats(messages: Seq<DecodedMessage>) -> StatsView {
    StatsView::fresh().after_messages(message_views(messages))
}

/// The report on a session: the server's heading and lines, then the
/// client's.
pub open spec fn session_report(server: StatsView, client: StatsView) -> Seq<Seq<char>> {
    seq!["server packets stats"@] + report_lines(rates_of(server)) + seq![
        "client packets stats"@,
    ] + report_lines(rates_of(client))
}

/// Where `first_unreadable` points, and that nothing before it is
/// unreadable.
pub proof fn lemma_first_unreadable(parsed: Seq<ParsedPacketView>)
    ensures
        first_unreadable(parsed) <= parsed.len(),
        forall|i: int|
            0 <= i < first_unreadable(parsed) ==> message_of_text(
                (#[trigger] parsed[i]).text,
            ) is Some,
        first_unreadable(parsed) < parsed.len() ==> message_of_text(
            parsed[first_unreadable(parsed) as int].text,
        ) is None,
    decreases parsed.len(),
{
    if parsed.len() > 0 {
        lemma_first_unreadable(parsed.drop_last());
        assert forall|i: int| 0 <= i < first_unreadable(parsed) implies message_of_text(
            (#[trigger] parsed[i]).text,
        ) is Some by {
            if i < parsed.len() - 1 {
                assert(parsed.drop_last()[i] == parsed[i]);
            }
        }
        if first_unreadable(parsed) < parsed.len() - 1 {
            assert(parsed.drop_last()[first_unreadable(parsed) as int] == parsed[first_unreadable(
                parsed,
            ) as int]);
        }
    }
}

/// Once a description is unreadable, what follows does not move the place
/// of the first unreadable one.
pub proof fn lemma_first_unreadable_stays(parsed: Seq<ParsedPacketView>, prefix_len: int)
    requires
        0 <= prefix_len <= parsed.len(),
        first_unreadable(parsed.take(prefix_len)) < prefix_len,
    ensures
        first_unreadable(parsed) == first_unreadable(parsed.take(prefix_len)),
    decreases parsed.len(),
{
    if prefix_len < parsed.len() {
        assert(parsed.drop_last().take(prefix_len) == parsed.take(prefix_len));
        lemma_first_unreadable_stays(parsed.drop_last(), prefix_len);
    } else {
        assert(parsed.take(prefix_len) == parsed);
    }
}

/// Parting a session by direction loses nothing and reorders nothing:
/// merging the server's and the client's messages back by the place each had
/// in the capture gives the decoded messages as they came.
pub proof fn lemma_split_then_merge(packets: Seq<DecodedPacketView>)
    ensures
        merged(
            packets.map_values(|p: DecodedPacketView| p.direction),
            side(packets, Direction::Server),
            side(packets, Direction::Client),
        ) == packets.map_values(|p: DecodedPacketView| p.message),
        side(packets, Direction::Server).len() + side(packets, Direction::Client).len()
            == packets.len(),
    decreases packets.len(),
{
    reveal(Seq::filter);
    if packets.len() > 0 {
        let shorter = packets.drop_last();
        lemma_split_then_merge(shorter);
        let directions = packets.map_values(|p: DecodedPacketView| p.direction);
        assert(directions.drop_last() == shorter.map_values(|p: DecodedPacketView| p.direction));
        match packets.last().direction {
            Direction::Server => {
                assert(side(packets, Direction::Server).drop_last() == side(
                    shorter,
                    Direction::Server,
                ));
                assert(side(packets, Direction::Client) == side(shorter, Direction::Client));
            },
            Direction::Client => {
                assert(side(packets, Direction::Client).drop_last() == side(
                    shorter,
                    Direction::Client,
                ));
                assert(side(packets, Direction::Server) == side(shorter, Direction::Server));
            },
        }
    }
}

/// Hands the session's packets to the decoder in capture order, both sides
/// through the one decoder, and collects what it says of each. With
/// `max_packets > 0` no more than that many packets are decoded.
pub fn parse_all(
    decoder: &mut Decoder,
    extracted: &Vec<ExtractedPacket>,
    max_packets: usize,
) -> (parsed: Vec<ParsedPacket>)
    ensures
        parsed_views(parsed@) == descriptions(
            old(decoder)@,
            extracted@,
            decode_count(extracted@.len(), max_packets as nat),
        ),
        final(decoder)@ == old(decoder)@.after_all(
            payloads(extracted@).take(decode_count(extracted@.len(), max_packets as nat) as int),
        ),
{
    let count: usize = if 0 < max_packets && max_packets < extracted.len() {
        max_packets
    } else {
        extracted.len()
    };
    let ghost start = decoder@;
    let ghost all = payloads(extracted@);
    let mut parsed: Vec<ParsedPacket> = Vec::new();
    let mut i: usize = 0;
    while i < count
        invariant
            i <= count <= extracted.len(),
            all == payloads(extracted@),
            decoder@ == start.after_all(all.take(i as int)),
            parsed_views(parsed@) == descriptions(start, extracted@, i as nat),
        decreases count - i,
    {
        proof {
            assert(all.take(i + 1).drop_last() == all.take(i as int));
        }
        let text = decoder.parse(&extracted[i].payload);
        let ghost earlier = parsed@;
        let entry = ParsedPacket { direction: extracted[i].direction, text };
        parsed.push(entry);
        proof {
            assert(parsed_views(parsed@) == parsed_views(earlier).push(parsed@[i as int]@));
            assert(parsed_views(parsed@) == descriptions(start, extracted@, (i + 1) as nat));
        }
        i += 1;
    }
    parsed
}

/// Reads the message out of each description. The first description that
/// stands for no message ends the run with an error that names its place.
pub fn read_all(parsed: &Vec<ParsedPacket>) -> (decoded: Result<Vec<DecodedPacket>, AnalysisError>)
    ensures
        match decoded {
            Ok(packets) => read_descriptions(parsed_views(parsed@)) == Ok::<
                Seq<DecodedPacketView>,
                nat,
            >(decoded_views(packets@)),
            Err(error) => error matches AnalysisError::DecodeError { index } && read_descriptions(
                parsed_views(parsed@),
            ) == Err::<Seq<DecodedPacketView>, nat>(index as nat),
        },
{
    let ghost all = parsed_views(parsed@);
    let mut packets: Vec<DecodedPacket> = Vec::new();
    let mut i: usize = 0;
    while i < parsed.len()
        invariant
            i <= parsed.len(),
            all == parsed_views(parsed@),
            first_unreadable(all.take(i as int)) == i,
            decoded_views(packets@) == all.take(i as int).map_values(
                |p: ParsedPacketView| decoded_from(p),
            ),
        decreases parsed.len() - i,
    {
        let entry = &parsed[i];
        proof {
            assert(all.take(i + 1).drop_last() == all.take(i as int));
            assert(all.take(i + 1).last() == entry@);
        }
        match message_from_text(entry.text.as_str()) {
            Some(tagged) => {
                let ghost earlier = packets@;
                packets.push(
                    DecodedPacket {
                        direction: entry.direction,
                        name: tagged.name,
                        text: entry.text.clone(),
                        message: tagged.message,
                    },
                );
                proof {
                    assert(all.take(i + 1) == all.take(i as int).push(entry@));
                    assert(decoded_views(packets@) == decoded_views(earlier).push(
                        decoded_from(entry@),
                    ));
                }
            },
            None => {
                proof {
                    lemma_first_unreadable_stays(all, i + 1);
                }
                return Err(AnalysisError::DecodeError { index: i });
            },
        }
        i += 1;
    }
    proof {
        assert(all.take(i as int) == all);
    }
    Ok(packets)
}

/// Parts decoded packets by the side that sent them, each side keeping the
/// order of the capture.
pub fn split_by_direction(packets: &Vec<DecodedPacket>) -> (sides: (
    Vec<DecodedMessage>,
    Vec<DecodedMessage>,
))
    ensures
        message_views(sides.0@) == side(decoded_views(packets@), Direction::Server),
        message_views(sides.1@) == side(decoded_views(packets@), Direction::Client),
{
    let ghost all = decoded_views(packets@);
    let mut server: Vec<DecodedMessage> = Vec::new();
    let mut client: Vec<DecodedMessage> = Vec::new();
    let mut i: usize = 0;
    while i < packets.len()
        invariant
            i <= packets.len(),
            all == decoded_views(packets@),
            message_views(server@) == side(all.take(i as int), Direction::Server),
            message_views(client@) == side(all.take(i as int), Direction::Client),
        decreases packets.len() - i,
    {
        proof {
            reveal(Seq::filter);
            assert(all.take(i + 1).drop_last() == all.take(i as int));
            assert(all.take(i + 1).last() == packets@[i as int]@);
        }
        let message = packets[i].message.clone();
        match packets[i].direction {
            Direction::Server => {
                let ghost earlier = server@;
                server.push(message);
                proof {
                    assert(message_views(server@) == message_views(earlier).push(message@));
                }
            },
            Direction::Client => {
                let ghost earlier = client@;
                client.push(message);
                proof {
                    assert(message_views(client@) == message_views(earlier).push(message@));
                }
            },
        }
        i += 1;
    }
    proof {
        assert(all.take(i as int) == all);
    }
    (server, client)
}

/// Decodes the packets of a session with one decoder, made with the given
/// checksum settings, and parts the result by direction.
///
/// With `max_packets > 0` only the first `max_packets` packets are decoded,
/// both sides counted together. The run fails on the first packet whose
/// description stands for no message, with an error that names its place
/// among the extracted packets.
pub fn extract_soe_packets(
    extracted_packets: &Vec<ExtractedPacket>,
    use_crc: bool,
    crc_seed: u32,
    max_packets: usize,
) -> (decoded: Result<DecodedPackets, AnalysisError>)
    ensures
        match decoded {
            Ok(session) => {
                &&& decoded_session(extracted_packets@, use_crc, crc_seed, max_packets as nat)
                    == Ok::<Seq<DecodedPacketView>, nat>(decoded_views(session.packets@))
                &&& session.wf()
            },
            Err(error) => {
                &&& error matches AnalysisError::DecodeError { index }
                &&& decoded_session(extracted_packets@, use_crc, crc_seed, max_packets as nat)
                    == Err::<Seq<DecodedPacketView>, nat>(index as nat)
            },
        },
{
    let mut decoder = Decoder::new(use_crc, crc_seed);
    let parsed = parse_all(&mut decoder, extracted_packets, max_packets);
    match read_all(&parsed) {
        Ok(packets) => {
            let (server, client) = split_by_direction(&packets);
            Ok(DecodedPackets { packets, server, client })
        },
        Err(error) => Err(error),
    }
}

/// The lines that report on one direction: a line for each rate that there
/// is, none for a rate of nothing.
pub fn log_stats(stats: &Stats) -> (lines: Vec<String>)
    ensures
        line_views(lines@) == report_lines(rates_of(stats@)),
{
    stats.rates().lines()
}

/// Analyses each direction of a decoded session on its own, the server
/// first, and returns the lines of the report.
///
/// A direction without messages gets its heading and no lines. The analysis
/// succeeds unless a counter of either direction would pass `u64::MAX`.
pub fn analyze_soe_packets(parsed_packets: &DecodedPackets) -> (report: Result<
    Vec<String>,
    AnalysisError,
>)
    ensures
        match report {
            Ok(lines) => line_views(lines@) == session_report(
                direction_stats(parsed_packets.server@),
                direction_stats(parsed_packets.client@),
            ),
            Err(error) => error == AnalysisError::CounterOverflow,
        },
        report is Ok <==> direction_stats(parsed_packets.server@).fits() && direction_stats(
            parsed_packets.client@,
        ).fits(),
{
    let mut server_stats = Stats::new();
    if let Err(error) = analyse_packets(&parsed_packets.server, &mut server_stats) {
        return Err(error);
    }
    let mut client_stats = Stats::new();
    if let Err(error) = analyse_packets(&parsed_packets.client, &mut client_stats) {
        return Err(error);
    }
    let mut lines: Vec<String> = Vec::new();
    lines.push("server packets stats".to_owned());
    let mut server_lines = log_stats(&server_stats);
    lines.append(&mut server_lines);
    lines.push("client packets stats".to_owned());
    let mut client_lines = log_stats(&client_stats);
    lines.append(&mut client_lines);
    proof {
        assert(line_views(lines@) =~= session_report(server_stats@, client_stats@));
    }
    Ok(lines)
}

} // verus!
