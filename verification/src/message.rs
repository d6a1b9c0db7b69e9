//! The decoded messages of a session, as far as traffic analysis reads them.

use crate::json::{
    items_of, json_parsed, json_view, json_views, member, parse_json, text_of, unsigned_of, Json,
};
use crate::utils::same_text;
use serde_json::Value;
use vstd::prelude::*;

verus! {

/// One message carried inside a multi-packet frame.
#[derive(Clone, Copy, Debug, PartialEq, Eq)]
pub enum SubMessage {
    /// Acknowledges everything up to `sequence`.
    Ack { sequence: u16 },
    /// Reports that `sequence` arrived ahead of a gap.
    OutOfOrder { sequence: u16 },
    /// Any other kind; the analysis passes over it.
    Other,
}

/// One decoded datagram.
#[derive(Debug, PartialEq, Eq)]
pub enum DecodedMessage {
    Ack { sequence: u16 },
    OutOfOrder { sequence: u16 },
    Data { sequence: u16 },
    DataFragment { sequence: u16 },
    /// A frame that bundles several messages, in wire order.
    MultiPacket { sub_messages: Vec<SubMessage> },
    /// Any other kind; the analysis passes over it.
    Other,
}

/// The mathematical value of a [`DecodedMessage`].
pub ghost enum MessageView {
    Ack { sequence: u16 },
    OutOfOrder { sequence: u16 },
    Data { sequence: u16 },
    DataFragment { sequence: u16 },
    MultiPacket { sub_messages: Seq<SubMessage> },
    Other,
}

impl View for DecodedMessage {
    type V = MessageView;

    open spec fn view(&self) -> MessageView {
        match *self {
            DecodedMessage::Ack { sequence } => MessageView::Ack { sequence },
            DecodedMessage::OutOfOrder { sequence } => MessageView::OutOfOrder { sequence },
            DecodedMessage::Data { sequence } => MessageView::Data { sequence },
            DecodedMessage::DataFragment { sequence } => MessageView::DataFragment { sequence },
            DecodedMessage::MultiPacket { sub_messages } => MessageView::MultiPacket {
                sub_messages: sub_messages@,
            },
            DecodedMessage::Other => MessageView::Other,
        }
    }
}

impl Clone for DecodedMessage {
    fn clone(&self) -> (copy: DecodedMessage)
        ensures
            copy@ == self@,
    {
        match self {
            DecodedMessage::Ack { sequence } => DecodedMessage::Ack { sequence: *sequence },
            DecodedMessage::OutOfOrder { sequence } => DecodedMessage::OutOfOrder {
                sequence: *sequence,
            },
            DecodedMessage::Data { sequence } => DecodedMessage::Data { sequence: *sequence },
            DecodedMessage::DataFragment { sequence } => DecodedMessage::DataFragment {
                sequence: *sequence,
            },
            DecodedMessage::MultiPacket { sub_messages } => {
                let copied = sub_messages.clone();
                assert(copied@ =~= sub_messages@);
                DecodedMessage::MultiPacket { sub_messages: copied }
            },
            DecodedMessage::Other => DecodedMessage::Other,
        }
    }
}

/// The value of bundled messages that may be missing.
pub open spec fn sub_messages_view(sub_messages: Option<Vec<SubMessage>>) -> Option<
    Seq<SubMessage>,
> {
    match sub_messages {
        Some(list) => Some(list@),
        None => None,
    }
}

/// The values of a run of messages, in order.
pub open spec fn message_views(messages: Seq<DecodedMessage>) -> Seq<MessageView> {
    messages.map_values(|m: DecodedMessage| m@)
}

/// The kind tag of a message description: its member `name`, a string.
pub open spec fn name_field(description: Json) -> Option<Seq<char>> {
    match description.member("name"@) {
        Some(name) => name.text(),
        None => None,
    }
}

/// The sequence number of a message description: its member `sequence`, a
/// whole number that fits 16 bits.
pub open spec fn sequence_field(description: Json) -> Option<u16> {
    match description.member("sequence"@) {
        Some(sequence) => match sequence.unsigned() {
            Some(number) => if number <= u16::MAX {
                Some(number as u16)
            } else {
                None
            },
            None => None,
        },
        None => None,
    }
}

/// The bundled message with kind tag `name` and, where its description
/// carries one, sequence number `sequence`. An `Ack` or `OutOfOrder` without
/// sequence number is no message; any other tag is a message that the
/// analysis passes over.
pub open spec fn classified_sub_message(name: Seq<char>, sequence: Option<u16>) -> Option<
    SubMessage,
> {
    if name == "Ack"@ {
        match sequence {
            Some(sequence) => Some(SubMessage::Ack { sequence }),
            None => None,
        }
    } else if name == "OutOfOrder"@ {
        match sequence {
            Some(sequence) => Some(SubMessage::OutOfOrder { sequence }),
            None => None,
        }
    } else {
        Some(SubMessage::Other)
    }
}

/// The bundled message that a description stands for. It needs a kind tag,
/// and a sequence number where the tag asks for one.
pub open spec fn sub_message_of(description: Json) -> Option<SubMessage> {
    match name_field(description) {
        Some(name) => classified_sub_message(name, sequence_field(description)),
        None => None,
    }
}

/// Each description of `items` stands for a bundled message.
pub open spec fn all_sub_messages(items: Seq<Json>) -> bool {
    forall|i: int| 0 <= i < items.len() ==> sub_message_of(#[trigger] items[i]) is Some
}

/// The bundled messages that `items` stand for, in order.
pub open spec fn sub_messages_in(items: Seq<Json>) -> Seq<SubMessage> {
    items.map_values(|item: Json| sub_message_of(item).unwrap())
}

/// The bundled messages of a multi-packet description: its member
/// `sub_packets`, an array of descriptions that each stand for one.
pub open spec fn sub_packets_field(description: Json) -> Option<Seq<SubMessage>> {
    match description.member("sub_packets"@) {
        Some(list) => match list.items() {
            Some(items) => if all_sub_messages(items) {
                Some(sub_messages_in(items))
            } else {
                None
            },
            None => None,
        },
        None => None,
    }
}

/// The message with kind tag `name` and, where its description carries
/// them, sequence number `sequence` and bundled messages `sub_messages`. An
/// `Ack`, `OutOfOrder`, `Data` or `DataFragment` without sequence number is
/// no message, nor is a `MultiPacket` without bundled messages; any other
/// tag is a message that the analysis passes over.
pub open spec fn classified_message(
    name: Seq<char>,
    sequence: Option<u16>,
    sub_messages: Option<Seq<SubMessage>>,
) -> Option<MessageView> {
    if name == "MultiPacket"@ {
        match sub_messages {
            Some(sub_messages) => Some(MessageView::MultiPacket { sub_messages }),
            None => None,
        }
    } else if name == "Ack"@ {
        match sequence {
            Some(sequence) => Some(MessageView::Ack { sequence }),
            None => None,
        }
    } else if name == "OutOfOrder"@ {
        match sequence {
            Some(sequence) => Some(MessageView::OutOfOrder { sequence }),
            None => None,
        }
    } else if name == "Data"@ {
        match sequence {
            Some(sequence) => Some(MessageView::Data { sequence }),
            None => None,
        }
    } else if name == "DataFragment"@ {
        match sequence {
            Some(sequence) => Some(MessageView::DataFragment { sequence }),
            None => None,
        }
    } else {
        Some(MessageView::Other)
    }
}

/// The message that a description stands for. It needs a kind tag, and
/// whatever else the tag asks for.
pub open spec fn message_of(description: Json) -> Option<MessageView> {
    match name_field(description) {
        Some(name) => classified_message(
            name,
            sequence_field(description),
            sub_packets_field(description),
        ),
        None => None,
    }
}

/// The message that a decoder's text stands for: the text is one JSON
/// document, and the document describes a message.
pub open spec fn message_of_text(text: Seq<char>) -> Option<MessageView> {
    match json_parsed(text) {
        Some(description) => message_of(description),
        None => None,
    }
}

/// The kind tag in a decoder's text.
pub open spec fn name_of_text(text: Seq<char>) -> Option<Seq<char>> {
    match json_parsed(text) {
        Some(description) => name_field(description),
        None => None,
    }
}

/// Reads the sequence number of a message description.
pub fn sequence_from_json(value: &Value) -> (sequence: Option<u16>)
    ensures
        sequence == sequence_field(json_view(*value)),
{
    match member(value, "sequence") {
        Some(inner) => match unsigned_of(inner) {
            Some(number) => if number <= 0xFFFF {
                Some(number as u16)
            } else {
                None
            },
            None => None,
        },
        None => None,
    }
}

/// Reads the kind tag of a message description.
pub fn name_from_json<'a>(value: &'a Value) -> (name: Option<&'a str>)
    ensures
        match name {
            Some(tag) => name_field(json_view(*value)) == Some(tag@),
            None => name_field(json_view(*value)) is None,
        },
{
    match member(value, "name") {
        Some(inner) => text_of(inner),
        None => None,
    }
}

/// Tells which bundled message a kind tag and a sequence number make.
pub fn classify_sub_message(name: &str, sequence: Option<u16>) -> (sub: Option<SubMessage>)
    ensures
        sub == classified_sub_message(name@, sequence),
{
    if same_text(name, "Ack") {
        match sequence {
            Some(sequence) => Some(SubMessage::Ack { sequence }),
            None => None,
        }
    } else if same_text(name, "OutOfOrder") {
        match sequence {
            Some(sequence) => Some(SubMessage::OutOfOrder { sequence }),
            None => None,
        }
    } else {
        Some(SubMessage::Other)
    }
}

/// Reads one bundled message from its description.
pub fn sub_message_from_json(value: &Value) -> (sub: Option<SubMessage>)
    ensures
        sub == sub_message_of(json_view(*value)),
{
    match name_from_json(value) {
        Some(name) => classify_sub_message(name, sequence_from_json(value)),
        None => None,
    }
}

/// Reads the bundled messages of a multi-packet description.
pub fn sub_packets_from_json(value: &Value) -> (subs: Option<Vec<SubMessage>>)
    ensures
        match subs {
            Some(list) => sub_packets_field(json_view(*value)) == Some(list@),
            None => sub_packets_field(json_view(*value)) is None,
        },
{
    let items = match member(value, "sub_packets") {
        Some(list) => match items_of(list) {
            Some(items) => items,
            None => { return None; },
        },
        None => { return None; },
    };
    let mut subs: Vec<SubMessage> = Vec::new();
    let mut i: usize = 0;
    while i < items.len()
        invariant
            i <= items.len(),
            json_view(*value).member("sub_packets"@) matches Some(list) && list.items() == Some(
                json_views(items@),
            ),
            all_sub_messages(json_views(items@).take(i as int)),
            subs@ == sub_messages_in(json_views(items@).take(i as int)),
        decreases items.len() - i,
    {
        match sub_message_from_json(&items[i]) {
            Some(sub) => {
                subs.push(sub);
            },
            None => {
                assert(sub_message_of(json_views(items@)[i as int]) is None);
                return None;
            },
        }
        proof {
            let described = json_views(items@);
            assert(described.take(i + 1) == described.take(i as int).push(described[i as int]));
        }
        i += 1;
    }
    proof {
        assert(json_views(items@).take(i as int) == json_views(items@));
    }
    Some(subs)
}

/// Tells which message a kind tag, a sequence number and bundled messages
/// make.
pub fn classify_message(
    name: &str,
    sequence: Option<u16>,
    sub_messages: Option<Vec<SubMessage>>,
) -> (message: Option<DecodedMessage>)
    ensures
        match message {
            Some(found) => classified_message(name@, sequence, sub_messages_view(sub_messages))
                == Some(found@),
            None => classified_message(name@, sequence, sub_messages_view(sub_messages)) is None,
        },
{
    if same_text(name, "MultiPacket") {
        match sub_messages {
            Some(sub_messages) => Some(DecodedMessage::MultiPacket { sub_messages }),
            None => None,
        }
    } else if same_text(name, "Ack") {
        match sequence {
            Some(sequence) => Some(DecodedMessage::Ack { sequence }),
            None => None,
        }
    } else if same_text(name, "OutOfOrder") {
        match sequence {
            Some(sequence) => Some(DecodedMessage::OutOfOrder { sequence }),
            None => None,
        }
    } else if same_text(name, "Data") {
        match sequence {
            Some(sequence) => Some(DecodedMessage::Data { sequence }),
            None => None,
        }
    } else if same_text(name, "DataFragment") {
        match sequence {
            Some(sequence) => Some(DecodedMessage::DataFragment { sequence }),
            None => None,
        }
    } else {
        Some(DecodedMessage::Other)
    }
}

/// Reads one message from its description.
pub fn message_from_json(value: &Value) -> (message: Option<DecodedMessage>)
    ensures
        match message {
            Some(found) => message_of(json_view(*value)) == Some(found@),
            None => message_of(json_view(*value)) is None,
        },
{
    match name_from_json(value) {
        Some(name) => classify_message(
            name,
            sequence_from_json(value),
            sub_packets_from_json(value),
        ),
        None => None,
    }
}

/// A message together with the kind tag that its description carried, such
/// as `Ack` or `SessionRequest`.
#[derive(Debug, PartialEq, Eq)]
pub struct TaggedMessage {
    pub name: String,
    pub message: DecodedMessage,
}

/// Reads a decoder's text: the kind tag it carries and the message it stands
/// for, or `None` where it stands for none.
pub fn message_from_text(text: &str) -> (read: Option<TaggedMessage>)
    ensures
        match read {
            Some(tagged) => name_of_text(text@) == Some(tagged.name@) && message_of_text(text@)
                == Some(tagged.message@),
            None => message_of_text(text@) is None,
        },
{
    match parse_json(text) {
        Ok(value) => match message_from_json(&value) {
            Some(message) => match name_from_json(&value) {
                Some(name) => Some(TaggedMessage { name: name.to_owned(), message }),
                None => None,
            },
            None => None,
        },
        Err(_) => None,
    }
}

} // verus!
