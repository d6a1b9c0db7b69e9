use soe_network_parser::decoder::Decoder;
use soe_network_parser::error::AnalysisError;
use soe_network_parser::message::{
    classify_message, classify_sub_message, message_from_json, message_from_text, name_from_json,
    sequence_from_json, sub_message_from_json, sub_packets_from_json, DecodedMessage, SubMessage,
    TaggedMessage,
};
use soe_network_parser::pcap_extraction::{Direction, ExtractedPacket};
use soe_network_parser::soe_packet_extraction::{
    extract_soe_packets, parse_all, read_all, split_by_direction, DecodedPacket, ParsedPacket,
};

fn concat_all(parts: &[&str]) -> String {
    parts.concat()
}

fn json(text: &str) -> serde_json::Value {
    serde_json::from_str(text).unwrap()
}

fn tagged(name: &str, message: DecodedMessage) -> Option<TaggedMessage> {
    Some(TaggedMessage { name: name.to_owned(), message })
}

fn sent(direction: Direction, payload: &[u8]) -> ExtractedPacket {
    ExtractedPacket { direction, payload: payload.to_vec() }
}

fn said(direction: Direction, text: &str) -> ParsedPacket {
    ParsedPacket { direction, text: text.to_owned() }
}

const ACK_5: [u8; 4] = [0x00, 0x15, 0x00, 0x05];
const OUT_OF_ORDER_7: [u8; 4] = [0x00, 0x11, 0x00, 0x07];
const DATA_1: [u8; 5] = [0x00, 0x09, 0x00, 0x01, 0xaa];
const FRAGMENT_2: [u8; 5] = [0x00, 0x0d, 0x00, 0x02, 0xbb];
const PING: [u8; 2] = [0x00, 0x06];
const BUNDLE: [u8; 17] = [
    0x00, 0x03, 0x04, 0x00, 0x15, 0x00, 0x01, 0x04, 0x00, 0x15, 0x00, 0x02, 0x04, 0x00, 0x11,
    0x00, 0x00,
];
// A session request whose protocol name is a lone double quote: the
// decoder's text for it is not JSON.
const BROKEN_REQUEST: [u8; 16] = [
    0x00, 0x01, 0x00, 0x00, 0x00, 0x03, 0x00, 0x00, 0x00, 0x01, 0x00, 0x00, 0x02, 0x00, 0x22,
    0x00,
];

#[test]
fn kind_tag_and_sequence_make_the_message() {
    assert_eq!(classify_message("Ack", Some(5), None), Some(DecodedMessage::Ack { sequence: 5 }));
    assert_eq!(
        classify_message("OutOfOrder", Some(6), None),
        Some(DecodedMessage::OutOfOrder { sequence: 6 })
    );
    assert_eq!(classify_message("Data", Some(7), None), Some(DecodedMessage::Data { sequence: 7 }));
    assert_eq!(
        classify_message("DataFragment", Some(8), Some(vec![])),
        Some(DecodedMessage::DataFragment { sequence: 8 })
    );
    assert_eq!(
        classify_message("MultiPacket", Some(9), Some(vec![SubMessage::Other])),
        Some(DecodedMessage::MultiPacket { sub_messages: vec![SubMessage::Other] })
    );
    assert_eq!(classify_message("Ping", Some(1), Some(vec![])), Some(DecodedMessage::Other));
    assert_eq!(classify_message("", None, None), Some(DecodedMessage::Other));
}

#[test]
fn kind_tag_without_what_it_asks_for_makes_no_message() {
    assert_eq!(classify_message("Ack", None, Some(vec![])), None);
    assert_eq!(classify_message("OutOfOrder", None, None), None);
    assert_eq!(classify_message("Data", None, None), None);
    assert_eq!(classify_message("DataFragment", None, None), None);
    assert_eq!(classify_message("MultiPacket", Some(1), None), None);
}

#[test]
fn kind_tags_are_matched_whole_and_case_for_case() {
    assert_eq!(classify_message("ACK", None, None), Some(DecodedMessage::Other));
    assert_eq!(classify_message("Ack ", None, None), Some(DecodedMessage::Other));
    assert_eq!(classify_message("DataFragmen", None, None), Some(DecodedMessage::Other));
    assert_eq!(classify_sub_message("outoforder", None), Some(SubMessage::Other));
}

#[test]
fn bundled_kind_tag_and_sequence_make_the_bundled_message() {
    assert_eq!(classify_sub_message("Ack", Some(3)), Some(SubMessage::Ack { sequence: 3 }));
    assert_eq!(
        classify_sub_message("OutOfOrder", Some(4)),
        Some(SubMessage::OutOfOrder { sequence: 4 })
    );
    assert_eq!(classify_sub_message("Data", Some(5)), Some(SubMessage::Other));
    assert_eq!(classify_sub_message("MultiPacket", None), Some(SubMessage::Other));
    assert_eq!(classify_sub_message("Ack", None), None);
    assert_eq!(classify_sub_message("OutOfOrder", None), None);
}

#[test]
fn text_of_each_kind_is_read() {
    assert_eq!(
        message_from_text(r#"{"name":"Ack","sequence":5}"#),
        tagged("Ack", DecodedMessage::Ack { sequence: 5 })
    );
    assert_eq!(
        message_from_text(r#"{"name":"OutOfOrder","sequence":65535}"#),
        tagged("OutOfOrder", DecodedMessage::OutOfOrder { sequence: 65535 })
    );
    assert_eq!(
        message_from_text(r#"{"name":"Data","sequence":1,"data":[1,2,3]}"#),
        tagged("Data", DecodedMessage::Data { sequence: 1 })
    );
    assert_eq!(
        message_from_text(r#"{"name":"DataFragment","sequence":0,"data":[]}"#),
        tagged("DataFragment", DecodedMessage::DataFragment { sequence: 0 })
    );
    assert_eq!(message_from_text(r#"{"name":"Ping"}"#), tagged("Ping", DecodedMessage::Other));
}

#[test]
fn multi_packet_text_is_read_with_its_bundle() {
    let text = concat_all(&[
        r#"{"name": "MultiPacket","sub_packets":[ "#,
        r#"{"name":"Ack","sequence":1},"#,
        r#"{"name":"Data","sequence":4,"data":[9]},"#,
        r#"{"name":"OutOfOrder","sequence":0}]}"#,
    ]);
    let text = text.as_str();
    assert_eq!(
        message_from_text(text),
        tagged(
            "MultiPacket",
            DecodedMessage::MultiPacket {
                sub_messages: vec![
                    SubMessage::Ack { sequence: 1 },
                    SubMessage::Other,
                    SubMessage::OutOfOrder { sequence: 0 },
                ],
            }
        )
    );
    assert_eq!(
        message_from_text(r#"{"name":"MultiPacket","sub_packets":[]}"#),
        tagged("MultiPacket", DecodedMessage::MultiPacket { sub_messages: vec![] })
    );
}

#[test]
fn unknown_kinds_are_kept_as_other() {
    assert_eq!(
        message_from_text(r#"{"name":"SessionRequest","session_id":1}"#),
        tagged("SessionRequest", DecodedMessage::Other)
    );
    assert_eq!(
        message_from_text(r#"{"name":"Error","error":"size","size":3,"raw":[0,21,0]}"#),
        tagged("Error", DecodedMessage::Other)
    );
    assert_eq!(message_from_text(r#"{"name":"ack"}"#), tagged("ack", DecodedMessage::Other));
    assert_eq!(message_from_text(r#"{"name":""}"#), tagged("", DecodedMessage::Other));
}

#[test]
fn text_that_is_not_a_description_stands_for_nothing() {
    assert_eq!(message_from_text(""), None);
    assert_eq!(message_from_text("Ack"), None);
    assert_eq!(message_from_text(r#"{"name":"Ack","sequence":5"#), None);
    assert_eq!(message_from_text(r#"["Ack"]"#), None);
    assert_eq!(message_from_text(r#""Ack""#), None);
    assert_eq!(message_from_text(r#"{"sequence":5}"#), None);
    assert_eq!(message_from_text(r#"{"name":5}"#), None);
    assert_eq!(message_from_text(r#"{"name":null}"#), None);
}

#[test]
fn message_that_needs_a_sequence_must_carry_one() {
    assert_eq!(message_from_text(r#"{"name":"Ack"}"#), None);
    assert_eq!(message_from_text(r#"{"name":"OutOfOrder","sequence":null}"#), None);
    assert_eq!(message_from_text(r#"{"name":"Data","sequence":"1"}"#), None);
    assert_eq!(message_from_text(r#"{"name":"DataFragment","sequence":-1}"#), None);
    assert_eq!(message_from_text(r#"{"name":"Ack","sequence":1.5}"#), None);
    assert_eq!(message_from_text(r#"{"name":"Ack","sequence":65536}"#), None);
}

#[test]
fn multi_packet_must_carry_a_readable_bundle() {
    assert_eq!(message_from_text(r#"{"name":"MultiPacket"}"#), None);
    assert_eq!(message_from_text(r#"{"name":"MultiPacket","sub_packets":{}}"#), None);
    assert_eq!(message_from_text(r#"{"name":"MultiPacket","sub_packets":[1]}"#), None);
    assert_eq!(
        message_from_text(r#"{"name":"MultiPacket","sub_packets":[{"sequence":1}]}"#),
        None
    );
    assert_eq!(
        message_from_text(
            r#"{"name":"MultiPacket","sub_packets":[{"name":"Ack","sequence":1},{"name":"Ack"}]}"#
        ),
        None
    );
}

#[test]
fn readers_of_single_members() {
    let value = json(
        r#"{"name":"Ack","sequence":12,"sub_packets":[{"name":"OutOfOrder","sequence":3}]}"#,
    );
    assert_eq!(name_from_json(&value), Some("Ack"));
    assert_eq!(sequence_from_json(&value), Some(12));
    assert_eq!(sub_message_from_json(&value), Some(SubMessage::Ack { sequence: 12 }));
    assert_eq!(sub_packets_from_json(&value), Some(vec![SubMessage::OutOfOrder { sequence: 3 }]));
    assert_eq!(message_from_json(&value), Some(DecodedMessage::Ack { sequence: 12 }));

    let bare = json(r#"{"title":"Ack"}"#);
    assert_eq!(name_from_json(&bare), None);
    assert_eq!(sequence_from_json(&bare), None);
    assert_eq!(sub_message_from_json(&bare), None);
    assert_eq!(sub_packets_from_json(&bare), None);
    assert_eq!(message_from_json(&bare), None);

    assert_eq!(name_from_json(&json("[]")), None);
    assert_eq!(sequence_from_json(&json(r#"{"sequence":65535}"#)), Some(65535));
    assert_eq!(sequence_from_json(&json(r#"{"sequence":65536}"#)), None);
    assert_eq!(sub_message_from_json(&json(r#"{"name":"Data"}"#)), Some(SubMessage::Other));
}

#[test]
fn decoder_reads_an_ack() {
    let mut decoder = Decoder::new(false, 0);
    let (text, read) = decoder.decode(&ACK_5.to_vec());
    assert_eq!(json(&text), json(r#"{"name":"Ack","sequence":5}"#));
    assert_eq!(read, tagged("Ack", DecodedMessage::Ack { sequence: 5 }));
}

#[test]
fn decoder_reads_each_kind() {
    let mut decoder = Decoder::new(false, 0);
    assert_eq!(
        decoder.decode(&OUT_OF_ORDER_7.to_vec()).1,
        tagged("OutOfOrder", DecodedMessage::OutOfOrder { sequence: 7 })
    );
    assert_eq!(
        decoder.decode(&DATA_1.to_vec()).1,
        tagged("Data", DecodedMessage::Data { sequence: 1 })
    );
    assert_eq!(
        decoder.decode(&FRAGMENT_2.to_vec()).1,
        tagged("DataFragment", DecodedMessage::DataFragment { sequence: 2 })
    );
    assert_eq!(decoder.decode(&PING.to_vec()).1, tagged("Ping", DecodedMessage::Other));
    assert_eq!(
        decoder.decode(&BUNDLE.to_vec()).1,
        tagged(
            "MultiPacket",
            DecodedMessage::MultiPacket {
                sub_messages: vec![
                    SubMessage::Ack { sequence: 1 },
                    SubMessage::Ack { sequence: 2 },
                    SubMessage::OutOfOrder { sequence: 0 },
                ],
            }
        )
    );
}

#[test]
fn decoder_names_what_it_cannot_place() {
    let mut decoder = Decoder::new(false, 0);
    assert_eq!(decoder.decode(&vec![0xff, 0xff]).1, tagged("Unknown", DecodedMessage::Other));
    assert_eq!(decoder.decode(&vec![]).1, tagged("Unknown", DecodedMessage::Other));
    assert_eq!(decoder.decode(&vec![0x00, 0x15, 0x00]).1, tagged("Error", DecodedMessage::Other));
}

#[test]
fn decoder_text_that_is_not_json_is_not_decoded() {
    let mut decoder = Decoder::new(false, 0);
    let (text, read) = decoder.decode(&BROKEN_REQUEST.to_vec());
    assert!(serde_json::from_str::<serde_json::Value>(&text).is_err());
    assert_eq!(read, None);
}

#[test]
fn decoder_checks_checksums_where_asked() {
    let mut sealed = ACK_5.to_vec();
    h1emu_core::crc::append_crc(&mut sealed, 0);
    let mut checking = Decoder::new(true, 0);
    assert_eq!(checking.decode(&sealed).1, tagged("Ack", DecodedMessage::Ack { sequence: 5 }));

    let last = sealed.len() - 1;
    sealed[last] ^= 0xff;
    assert_eq!(checking.decode(&sealed).1, tagged("Error", DecodedMessage::Other));

    let mut other_seed = Decoder::new(true, 1);
    let mut resealed = ACK_5.to_vec();
    h1emu_core::crc::append_crc(&mut resealed, 0);
    assert_eq!(other_seed.decode(&resealed).1, tagged("Error", DecodedMessage::Other));
}

#[test]
fn decoder_settings_carry_over_from_packet_to_packet() {
    // A checking decoder refuses an acknowledgement that carries no checksum.
    let mut fresh = Decoder::new(true, 0);
    assert_eq!(fresh.decode(&ACK_5.to_vec()).1, tagged("Error", DecodedMessage::Other));

    // A multi-packet frame that fails its check leaves the decoder with
    // checking switched off, so the same acknowledgement is read after it.
    let mut used = Decoder::new(true, 0);
    assert_eq!(used.decode(&BUNDLE.to_vec()).1, tagged("Error", DecodedMessage::Other));
    assert_eq!(used.decode(&ACK_5.to_vec()).1, tagged("Ack", DecodedMessage::Ack { sequence: 5 }));
}

#[test]
fn parse_all_keeps_directions_and_honours_the_bound() {
    let extracted = vec![
        sent(Direction::Client, &ACK_5),
        sent(Direction::Server, &PING),
        sent(Direction::Client, &DATA_1),
    ];
    let mut decoder = Decoder::new(false, 0);
    let all = parse_all(&mut decoder, &extracted, 0);
    assert_eq!(all.len(), 3);
    assert_eq!(all[0].direction, Direction::Client);
    assert_eq!(all[1].direction, Direction::Server);
    assert_eq!(all[2].direction, Direction::Client);
    assert_eq!(json(&all[0].text), json(r#"{"name":"Ack","sequence":5}"#));
    assert_eq!(json(&all[1].text), json(r#"{"name":"Ping"}"#));

    assert_eq!(parse_all(&mut decoder, &extracted, 2).len(), 2);
    assert_eq!(parse_all(&mut decoder, &extracted, 3).len(), 3);
    assert_eq!(parse_all(&mut decoder, &extracted, 9).len(), 3);
    assert_eq!(parse_all(&mut decoder, &Vec::new(), 2).len(), 0);
}

#[test]
fn read_all_reads_every_description() {
    let parsed = vec![
        said(Direction::Server, r#"{"name":"Ack","sequence":2}"#),
        said(Direction::Client, r#"{"name":"Disconnect"}"#),
    ];
    assert_eq!(
        read_all(&parsed),
        Ok(vec![
            DecodedPacket {
                direction: Direction::Server,
                name: "Ack".to_owned(),
                text: r#"{"name":"Ack","sequence":2}"#.to_owned(),
                message: DecodedMessage::Ack { sequence: 2 },
            },
            DecodedPacket {
                direction: Direction::Client,
                name: "Disconnect".to_owned(),
                text: r#"{"name":"Disconnect"}"#.to_owned(),
                message: DecodedMessage::Other,
            },
        ])
    );
    assert_eq!(read_all(&Vec::new()), Ok(vec![]));
}

#[test]
fn read_all_names_the_first_description_it_cannot_read() {
    let parsed = vec![
        said(Direction::Server, r#"{"name":"Ack","sequence":2}"#),
        said(Direction::Client, r#"{"name":"Ack"}"#),
        said(Direction::Client, "not json"),
    ];
    assert_eq!(read_all(&parsed), Err(AnalysisError::DecodeError { index: 1 }));
}

#[test]
fn session_is_decoded_and_parted_by_direction() {
    let extracted = vec![
        sent(Direction::Client, &DATA_1),
        sent(Direction::Server, &ACK_5),
        sent(Direction::Server, &BUNDLE),
        sent(Direction::Client, &FRAGMENT_2),
        sent(Direction::Server, &PING),
    ];
    let session = extract_soe_packets(&extracted, false, 0, 0).unwrap();
    assert_eq!(session.packets.len(), 5);
    assert_eq!(
        session.client,
        vec![DecodedMessage::Data { sequence: 1 }, DecodedMessage::DataFragment { sequence: 2 }]
    );
    assert_eq!(
        session.server,
        vec![
            DecodedMessage::Ack { sequence: 5 },
            DecodedMessage::MultiPacket {
                sub_messages: vec![
                    SubMessage::Ack { sequence: 1 },
                    SubMessage::Ack { sequence: 2 },
                    SubMessage::OutOfOrder { sequence: 0 },
                ],
            },
            DecodedMessage::Other,
        ]
    );
    let names: Vec<&str> = session.packets.iter().map(|p| p.name.as_str()).collect();
    assert_eq!(names, vec!["Data", "Ack", "MultiPacket", "DataFragment", "Ping"]);
    for (packet, source) in session.packets.iter().zip(extracted.iter()) {
        assert_eq!(packet.direction, source.direction);
    }
}

#[test]
fn merging_the_two_sides_by_place_gives_back_the_session() {
    let extracted = vec![
        sent(Direction::Client, &DATA_1),
        sent(Direction::Server, &ACK_5),
        sent(Direction::Client, &OUT_OF_ORDER_7),
        sent(Direction::Client, &FRAGMENT_2),
        sent(Direction::Server, &PING),
        sent(Direction::Server, &BUNDLE),
    ];
    let session = extract_soe_packets(&extracted, false, 0, 0).unwrap();
    let mut server = session.server.iter();
    let mut client = session.client.iter();
    let mut merged: Vec<DecodedMessage> = Vec::new();
    for packet in &session.packets {
        let next = match packet.direction {
            Direction::Server => server.next(),
            Direction::Client => client.next(),
        };
        merged.push(next.unwrap().clone());
    }
    assert!(server.next().is_none());
    assert!(client.next().is_none());
    let decoded: Vec<DecodedMessage> = session.packets.iter().map(|p| p.message.clone()).collect();
    assert_eq!(merged, decoded);
}

#[test]
fn decode_bound_counts_both_sides_together() {
    let extracted = vec![
        sent(Direction::Client, &DATA_1),
        sent(Direction::Server, &ACK_5),
        sent(Direction::Client, &FRAGMENT_2),
        sent(Direction::Server, &BROKEN_REQUEST),
    ];
    let session = extract_soe_packets(&extracted, false, 0, 2).unwrap();
    assert_eq!(session.packets.len(), 2);
    assert_eq!(session.client, vec![DecodedMessage::Data { sequence: 1 }]);
    assert_eq!(session.server, vec![DecodedMessage::Ack { sequence: 5 }]);

    let session = extract_soe_packets(&extracted, false, 0, 3).unwrap();
    assert_eq!(session.packets.len(), 3);
    assert_eq!(session.client.len(), 2);
    assert_eq!(session.server.len(), 1);
}

#[test]
fn undecodable_packet_ends_the_run() {
    let extracted = vec![
        sent(Direction::Client, &DATA_1),
        sent(Direction::Server, &BROKEN_REQUEST),
        sent(Direction::Client, &FRAGMENT_2),
    ];
    assert_eq!(
        extract_soe_packets(&extracted, false, 0, 0),
        Err(AnalysisError::DecodeError { index: 1 })
    );
    assert_eq!(
        extract_soe_packets(&extracted, false, 0, 5),
        Err(AnalysisError::DecodeError { index: 1 })
    );
    assert!(extract_soe_packets(&extracted, false, 0, 1).is_ok());
}

#[test]
fn empty_session_decodes_to_nothing() {
    let session = extract_soe_packets(&Vec::new(), true, 7, 0).unwrap();
    assert!(session.packets.is_empty());
    assert!(session.server.is_empty());
    assert!(session.client.is_empty());
}

#[test]
fn split_keeps_each_side_in_capture_order() {
    let packets = read_all(&vec![
        said(Direction::Client, r#"{"name":"Ack","sequence":1}"#),
        said(Direction::Server, r#"{"name":"Ack","sequence":2}"#),
        said(Direction::Client, r#"{"name":"Ack","sequence":3}"#),
    ])
    .unwrap();
    let (server, client) = split_by_direction(&packets);
    assert_eq!(server, vec![DecodedMessage::Ack { sequence: 2 }]);
    assert_eq!(
        client,
        vec![DecodedMessage::Ack { sequence: 1 }, DecodedMessage::Ack { sequence: 3 }]
    );
    assert_eq!(split_by_direction(&Vec::new()), (vec![], vec![]));
}

#[test]
fn clone_of_a_message_is_equal_to_it() {
    let bundle = DecodedMessage::MultiPacket {
        sub_messages: vec![SubMessage::Ack { sequence: 1 }, SubMessage::Other],
    };
    assert_eq!(bundle.clone(), bundle);
    assert_eq!(DecodedMessage::Data { sequence: 3 }.clone(), DecodedMessage::Data { sequence: 3 });
}
