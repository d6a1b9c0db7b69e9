//! The records of a capture export: one [`Packet`] per captured frame, with
//! the layers that the export writes out as text.

use serde_json::Value;
use vstd::prelude::*;

verus! {

/// One captured frame.
#[derive(Debug, PartialEq)]
pub struct Packet {
    pub index: String,
    pub type_field: String,
    pub score: Value,
    pub source: Source,
}

#[derive(Debug, PartialEq)]
pub struct Source {
    pub layers: Layers,
}

/// The layers of one frame. A frame that is not UDP has no `udp`; one
/// without payload has no `data`.
#[derive(Debug, PartialEq)]
pub struct Layers {
    pub raw: String,
    pub udp: Option<Udp>,
    pub data: Option<Data>,
}

#[derive(Debug, PartialEq)]
pub struct IpDsfieldTree {
    pub ip_dsfield_dscp: String,
    pub ip_dsfield_ecn: String,
}

#[derive(Debug, PartialEq)]
pub struct IpFlagsTree {
    pub ip_flags_rb: String,
    pub ip_flags_df: String,
    pub ip_flags_mf: String,
}

/// The transport header. Ports are kept as the export writes them: decimal
/// text.
#[derive(Debug, PartialEq)]
pub struct Udp {
    pub udp_srcport: String,
    pub udp_dstport: String,
    pub udp_length: String,
    pub udp_checksum: String,
    pub udp_checksum_status: String,
    pub udp_stream: String,
    pub timestamps: Timestamps,
    pub udp_payload: String,
}

#[derive(Debug, PartialEq)]
pub struct Timestamps {
    pub udp_time_relative: String,
    pub udp_time_delta: String,
}

/// The payload of a frame: `data_data` holds its bytes as colon-separated
/// hexadecimal pairs.
#[derive(Debug, PartialEq)]
pub struct Data {
    pub data_data: String,
    pub data_len: String,
}

} // verus!
