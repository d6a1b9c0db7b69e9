//! Traffic-quality analysis of one captured SOE protocol session.
//!
//! A run goes through four stages, each feeding the next:
//!
//! 1. [`pcap_extraction`] picks the packets of the session on one port out
//!    of a capture ([`pcap_struct`]) and tells which side sent each.
//! 2. [`soe_packet_extraction`] hands their payloads to the protocol decoder
//!    ([`decoder`]), reads the message out of each description it returns
//!    ([`message`], [`json`]) and parts the messages by direction.
//! 3. [`stats`] walks each direction's messages and counts acknowledgements,
//!    out-of-order reports and data messages, and how many of them were
//!    redundant. [`stats_model`] says what those counts are.
//! 4. [`report`] turns the counts into rates and lines of text.
//!
//! Reading the capture file, writing files and printing are left to the
//! caller.

pub mod decoder;
pub mod error;
pub mod json;
pub mod message;
pub mod pcap_extraction;
pub mod pcap_struct;
pub mod report;
pub mod soe_packet_extraction;
pub mod stats;
pub mod stats_model;
pub mod utils;
