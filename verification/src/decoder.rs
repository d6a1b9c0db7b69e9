//! The protocol decoder: `h1emu_core`'s `Soeprotocol`, owned by a
//! [`Decoder`] for the length of one run.

use crate::message::{message_from_text, message_of_text, name_of_text, TaggedMessage};
use h1emu_core::soeprotocol::Soeprotocol;
use vstd::prelude::*;

verus! {

/// `h1emu_core::soeprotocol::Soeprotocol`, carried through as it is.
#[verifier::external_type_specification]
#[verifier::external_body]
pub struct ExSoeprotocol(Soeprotocol);

/// The checksum settings that a decoder works with: whether it checks
/// checksums, and the seed it checks them with.
pub ghost struct DecoderView {
    pub use_crc: bool,
    pub crc_seed: u32,
}

/// The settings that a `Soeprotocol` works with at present.
pub uninterp spec fn protocol_settings(protocol: Soeprotocol) -> DecoderView;

/// What `Soeprotocol::parse` makes of `data` when the decoder works with
/// `settings`: the description it returns, JSON text, and the settings that
/// the decoder works with afterwards.
pub uninterp spec fn soe_parsed(settings: DecoderView, data: Seq<u8>) -> (Seq<char>, DecoderView);

impl DecoderView {
    /// The description that a decoder with these settings gives of `data`.
    pub open spec fn description(self, data: Seq<u8>) -> Seq<char> {
        soe_parsed(self, data).0
    }

    /// The settings of a decoder that had these and was given `data`.
    pub open spec fn after(self, data: Seq<u8>) -> DecoderView {
        soe_parsed(self, data).1
    }

    /// The settings of a decoder that had these and was given each of
    /// `payloads` in turn.
    pub open spec fn after_all(self, payloads: Seq<Seq<u8>>) -> DecoderView
        decreases payloads.len(),
    {
        if payloads.len() == 0 {
            self
        } else {
            self.after_all(payloads.drop_last()).after(payloads.last())
        }
    }

    /// The description of `payloads[i]` by a decoder that had these settings
    /// and was given the payloads before it first.
    pub open spec fn description_at(self, payloads: Seq<Seq<u8>>, i: int) -> Seq<char> {
        self.after_all(payloads.take(i)).description(payloads[i])
    }
}

/// `Soeprotocol::initialize`: a decoder that works with the given settings.
#[verifier::external_body]
fn protocol_initialize(use_crc: bool, crc_seed: u32) -> (protocol: Soeprotocol)
    ensures
        protocol_settings(protocol) == (DecoderView { use_crc, crc_seed }),
{
    Soeprotocol::initialize(use_crc, crc_seed)
}

/// `Soeprotocol::parse`: the decoder's description of one datagram. The
/// description and the settings that the call leaves the decoder with depend
/// on the settings it had and on the bytes, and on nothing else. The call
/// may switch checksum checking off: a multi-packet frame that fails its
/// check does.
#[verifier::external_body]
fn protocol_parse(protocol: &mut Soeprotocol, data: &Vec<u8>) -> (text: String)
    ensures
        (text@, protocol_settings(*final(protocol))) == soe_parsed(
            protocol_settings(*old(protocol)),
            data@,
        ),
{
    protocol.parse(data.clone())
}

/// One decoder for one run. It is made once, fed every packet of the session
/// in capture order, whichever side sent it, and dropped at the end: the
/// settings it works with may change from packet to packet.
pub struct Decoder {
    protocol: Soeprotocol,
}

impl View for Decoder {
    type V = DecoderView;

    closed spec fn view(&self) -> DecoderView {
        protocol_settings(self.protocol)
    }
}

impl Decoder {
    /// A decoder that checks checksums where `use_crc` is set, with
    /// `crc_seed` as their seed.
    pub fn new(use_crc: bool, crc_seed: u32) -> (decoder: Decoder)
        ensures
            decoder@ == (DecoderView { use_crc, crc_seed }),
    {
        Decoder { protocol: protocol_initialize(use_crc, crc_seed) }
    }

    /// The decoder's description of one payload, as JSON text.
    pub fn parse(&mut self, payload: &Vec<u8>) -> (text: String)
        ensures
            text@ == old(self)@.description(payload@),
            final(self)@ == old(self)@.after(payload@),
    {
        protocol_parse(&mut self.protocol, payload)
    }

    /// Decodes one payload: the decoder's description of it, and the kind
    /// tag and message that the description stands for, or `None` where it
    /// stands for none.
    pub fn decode(&mut self, payload: &Vec<u8>) -> (decoded: (String, Option<TaggedMessage>))
        ensures
            decoded.0@ == old(self)@.description(payload@),
            final(self)@ == old(self)@.after(payload@),
            match decoded.1 {
                Some(tagged) => name_of_text(decoded.0@) == Some(tagged.name@) && message_of_text(
                    decoded.0@,
                ) == Some(tagged.message@),
                None => message_of_text(decoded.0@) is None,
            },
    {
        let text = self.parse(payload);
        let read = message_from_text(text.as_str());
        (text, read)
    }
}

} // verus!
