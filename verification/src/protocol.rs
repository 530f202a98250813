//! Packets exchanged between host and client, and their wire layout.
//!
//! A packet is the protocol magic, the protocol version and a payload. Older
//! peers frame a message differently: a fixed header (magic, version, message
//! type, sequence, timestamp, payload length, checksum) followed by the
//! payload's own bytes. Decoding accepts both; encoding writes the first, and
//! `encode_legacy` writes the second for the messages an older client expects.
use crate::events::{input_fits, parse_input, wire_input, InputEvent, InputEventView};
use crate::wire::{
    append_opt_string, append_opt_u32, append_bool, append_str, append_u16, append_u32,
    append_u64, decode_u16, decode_u32, decode_u64, le16, le32, le64, lemma_skip_front,
    lemma_skip_skip, opt_str_fits, parse_bool, parse_opt_str, parse_opt_u32, parse_str, read_bool,
    read_opt_string, read_opt_u32, read_string, str_fits, u16_at, u32_at, u64_at, wire_bool,
    wire_opt_str, wire_opt_u32, wire_str,
};
use vstd::prelude::*;

verus! {

broadcast use lemma_skip_skip, lemma_skip_front;

/// "EXTN" in ASCII.
pub const EXTENDER_PROTOCOL_MAGIC: u32 = 0x4558544E;

pub const EXTENDER_PROTOCOL_VERSION: u16 = 1;

pub const DEFAULT_STREAM_PORT: u16 = 8554;

pub const DEFAULT_INPUT_PORT: u16 = 8555;

pub const DEFAULT_DISCOVERY_PORT: u16 = 8556;

/// Length in bytes of the fixed header of the older framing.
pub const LEGACY_HEADER_LEN: usize = 34;

/// Video codecs a host can stream with.
#[derive(Debug, Clone, Copy, PartialEq, Eq, Structural)]
pub enum VideoCodec {
    H264Vaapi,
    H264Nvenc,
    H264Software,
    H265Vaapi,
    H265Nvenc,
    Vp8,
    Vp9,
    Av1,
}

/// Message types of the older framing.
#[derive(Debug, Clone, Copy, PartialEq, Eq, Structural)]
pub enum LegacyPacketType {
    HandshakeReq,
    HandshakeResp,
    VideoData,
    InputData,
    Ping,
    Pong,
    Disconnect,
}

/// The fixed header of the older framing.
#[derive(Debug, Clone, Copy, PartialEq, Eq, Structural)]
pub struct LegacyPacketHeader {
    pub magic: u32,
    pub version: u16,
    pub packet_type: LegacyPacketType,
    pub sequence: u64,
    pub timestamp_us: u64,
    pub payload_len: u32,
    pub checksum: u32,
}

/// What a client asks for when it connects.
#[derive(Debug, Clone, PartialEq)]
pub struct HandshakeRequest {
    pub client_name: String,
    pub preferred_width: u32,
    pub preferred_height: u32,
    pub refresh_rate: u32,
    pub supported_codecs: Vec<VideoCodec>,
    pub auth_token: Option<String>,
}

/// The host's answer to a [`HandshakeRequest`].
#[derive(Debug, Clone, PartialEq)]
pub struct HandshakeResponse {
    pub accepted: bool,
    pub error_message: Option<String>,
    pub selected_width: u32,
    pub selected_height: u32,
    pub selected_codec: VideoCodec,
    pub pipewire_node_id: Option<u32>,
    pub stream_port: u16,
    pub input_port: u16,
}

/// The content of a packet.
#[derive(Debug, Clone, PartialEq)]
pub enum PacketPayload {
    HandshakeReq(HandshakeRequest),
    HandshakeResp(HandshakeResponse),
    InputData(InputEvent),
    Ping { sequence: u64, timestamp_us: u64 },
    Pong { sequence: u64, timestamp_us: u64 },
    Disconnect,
}

/// A packet: protocol magic, protocol version and payload.
#[derive(Debug, Clone, PartialEq)]
pub struct Packet {
    pub magic: u32,
    pub version: u16,
    pub payload: PacketPayload,
}

/// Errors of the packet layer.
#[derive(Debug, Clone, Copy, PartialEq, Eq, Structural)]
pub enum WireError {
    /// The bytes hold neither a current packet nor an older-framed one.
    Undecodable,
}

// ----------------------------------------------------------------------------
// Mathematical values: strings as characters, vectors as sequences.
// ----------------------------------------------------------------------------
pub struct HandshakeRequestView {
    pub client_name: Seq<char>,
    pub preferred_width: u32,
    pub preferred_height: u32,
    pub refresh_rate: u32,
    pub supported_codecs: Seq<VideoCodec>,
    pub auth_token: Option<Seq<char>>,
}

pub struct HandshakeResponseView {
    pub accepted: bool,
    pub error_message: Option<Seq<char>>,
    pub selected_width: u32,
    pub selected_height: u32,
    pub selected_codec: VideoCodec,
    pub pipewire_node_id: Option<u32>,
    pub stream_port: u16,
    pub input_port: u16,
}

pub enum PayloadView {
    HandshakeReq(HandshakeRequestView),
    HandshakeResp(HandshakeResponseView),
    InputData(InputEventView),
    Ping { sequence: u64, timestamp_us: u64 },
    Pong { sequence: u64, timestamp_us: u64 },
    Disconnect,
}

pub struct PacketView {
    pub magic: u32,
    pub version: u16,
    pub payload: PayloadView,
}

pub open spec fn opt_string_view(o: Option<String>) -> Option<Seq<char>> {
    match o {
        Some(s) => Some(s@),
        None => None,
    }
}

impl View for HandshakeRequest {
    type V = HandshakeRequestView;

    open spec fn view(&self) -> HandshakeRequestView {
        HandshakeRequestView {
            client_name: self.client_name@,
            preferred_width: self.preferred_width,
            preferred_height: self.preferred_height,
            refresh_rate: self.refresh_rate,
            supported_codecs: self.supported_codecs@,
            auth_token: opt_string_view(self.auth_token),
        }
    }
}

impl View for HandshakeResponse {
    type V = HandshakeResponseView;

    open spec fn view(&self) -> HandshakeResponseView {
        HandshakeResponseView {
            accepted: self.accepted,
            error_message: opt_string_view(self.error_message),
            selected_width: self.selected_width,
            selected_height: self.selected_height,
            selected_codec: self.selected_codec,
            pipewire_node_id: self.pipewire_node_id,
            stream_port: self.stream_port,
            input_port: self.input_port,
        }
    }
}

impl View for PacketPayload {
    type V = PayloadView;

    open spec fn view(&self) -> PayloadView {
        match self {
            PacketPayload::HandshakeReq(r) => PayloadView::HandshakeReq(r@),
            PacketPayload::HandshakeResp(r) => PayloadView::HandshakeResp(r@),
            PacketPayload::InputData(e) => PayloadView::InputData(e@),
            PacketPayload::Ping { sequence, timestamp_us } => PayloadView::Ping {
                sequence: *sequence,
                timestamp_us: *timestamp_us,
            },
            PacketPayload::Pong { sequence, timestamp_us } => PayloadView::Pong {
                sequence: *sequence,
                timestamp_us: *timestamp_us,
            },
            PacketPayload::Disconnect => PayloadView::Disconnect,
        }
    }
}

impl View for Packet {
    type V = PacketView;

    open spec fn view(&self) -> PacketView {
        PacketView { magic: self.magic, version: self.version, payload: self.payload@ }
    }
}

/// A packet of the current protocol carrying `payload`.
pub open spec fn packet_of(payload: PayloadView) -> PacketView {
    PacketView {
        magic: EXTENDER_PROTOCOL_MAGIC,
        version: EXTENDER_PROTOCOL_VERSION,
        payload,
    }
}

// ----------------------------------------------------------------------------
// Variant numbers.
// ----------------------------------------------------------------------------
pub open spec fn codec_tag(c: VideoCodec) -> u32 {
    match c {
        VideoCodec::H264Vaapi => 0,
        VideoCodec::H264Nvenc => 1,
        VideoCodec::H264Software => 2,
        VideoCodec::H265Vaapi => 3,
        VideoCodec::H265Nvenc => 4,
        VideoCodec::Vp8 => 5,
        VideoCodec::Vp9 => 6,
        VideoCodec::Av1 => 7,
    }
}

pub open spec fn codec_of_tag(t: u32) -> Option<VideoCodec> {
    if t == 0 {
        Some(VideoCodec::H264Vaapi)
    } else if t == 1 {
        Some(VideoCodec::H264Nvenc)
    } else if t == 2 {
        Some(VideoCodec::H264Software)
    } else if t == 3 {
        Some(VideoCodec::H265Vaapi)
    } else if t == 4 {
        Some(VideoCodec::H265Nvenc)
    } else if t == 5 {
        Some(VideoCodec::Vp8)
    } else if t == 6 {
        Some(VideoCodec::Vp9)
    } else if t == 7 {
        Some(VideoCodec::Av1)
    } else {
        None
    }
}

pub open spec fn legacy_type_tag(t: LegacyPacketType) -> u32 {
    match t {
        LegacyPacketType::HandshakeReq => 0,
        LegacyPacketType::HandshakeResp => 1,
        LegacyPacketType::VideoData => 2,
        LegacyPacketType::InputData => 3,
        LegacyPacketType::Ping => 4,
        LegacyPacketType::Pong => 5,
        LegacyPacketType::Disconnect => 6,
    }
}

pub open spec fn legacy_type_of_tag(t: u32) -> Option<LegacyPacketType> {
    if t == 0 {
        Some(LegacyPacketType::HandshakeReq)
    } else if t == 1 {
        Some(LegacyPacketType::HandshakeResp)
    } else if t == 2 {
        Some(LegacyPacketType::VideoData)
    } else if t == 3 {
        Some(LegacyPacketType::InputData)
    } else if t == 4 {
        Some(LegacyPacketType::Ping)
    } else if t == 5 {
        Some(LegacyPacketType::Pong)
    } else if t == 6 {
        Some(LegacyPacketType::Disconnect)
    } else {
        None
    }
}

// ----------------------------------------------------------------------------
// Wire layout.
// ----------------------------------------------------------------------------
pub open spec fn wire_codec(c: VideoCodec) -> Seq<u8> {
    le32(codec_tag(c))
}

/// The codecs of a list, one after another, without the length.
pub open spec fn codec_list_body(cs: Seq<VideoCodec>) -> Seq<u8>
    decreases cs.len(),
{
    if cs.len() == 0 {
        Seq::empty()
    } else {
        codec_list_body(cs.drop_last()) + wire_codec(cs.last())
    }
}

/// A list of codecs: its length as a `u64`, then each codec.
pub open spec fn wire_codec_list(cs: Seq<VideoCodec>) -> Seq<u8> {
    le64(cs.len() as u64) + codec_list_body(cs)
}

pub open spec fn wire_request(r: HandshakeRequestView) -> Seq<u8> {
    wire_str(r.client_name) + le32(r.preferred_width) + le32(r.preferred_height) + le32(
        r.refresh_rate,
    ) + wire_codec_list(r.supported_codecs) + wire_opt_str(r.auth_token)
}

pub open spec fn wire_response(r: HandshakeResponseView) -> Seq<u8> {
    wire_bool(r.accepted) + wire_opt_str(r.error_message) + le32(r.selected_width) + le32(
        r.selected_height,
    ) + wire_codec(r.selected_codec) + wire_opt_u32(r.pipewire_node_id) + le16(r.stream_port)
        + le16(r.input_port)
}

pub open spec fn wire_payload(p: PayloadView) -> Seq<u8> {
    match p {
        PayloadView::HandshakeReq(r) => le32(0) + wire_request(r),
        PayloadView::HandshakeResp(r) => le32(1) + wire_response(r),
        PayloadView::InputData(e) => le32(2) + wire_input(e),
        PayloadView::Ping { sequence, timestamp_us } => le32(3) + le64(sequence) + le64(
            timestamp_us,
        ),
        PayloadView::Pong { sequence, timestamp_us } => le32(4) + le64(sequence) + le64(
            timestamp_us,
        ),
        PayloadView::Disconnect => le32(5),
    }
}

/// The bytes of a packet in the current framing.
pub open spec fn wire_packet(p: PacketView) -> Seq<u8> {
    le32(p.magic) + le16(p.version) + wire_payload(p.payload)
}

/// The bytes of a header of the older framing.
pub open spec fn wire_legacy_header(h: LegacyPacketHeader) -> Seq<u8> {
    le32(h.magic) + le16(h.version) + le32(legacy_type_tag(h.packet_type)) + le64(h.sequence)
        + le64(h.timestamp_us) + le32(h.payload_len) + le32(h.checksum)
}

/// The header that `LegacyPacketHeader::new` builds.
pub open spec fn legacy_header_of(
    packet_type: LegacyPacketType,
    sequence: u64,
    timestamp_us: u64,
    payload_len: u32,
    checksum: u32,
) -> LegacyPacketHeader {
    LegacyPacketHeader {
        magic: EXTENDER_PROTOCOL_MAGIC,
        version: EXTENDER_PROTOCOL_VERSION,
        packet_type,
        sequence,
        timestamp_us,
        payload_len,
        checksum,
    }
}

/// The CRC-32 checksum of some bytes, as `crc32fast::hash` computes it.
pub uninterp spec fn crc32_of(data: Seq<u8>) -> u32;

/// A message in the older framing: the header (with the payload's length
/// truncated to 32 bits) followed by the payload's bytes.
pub open spec fn legacy_frame(
    packet_type: LegacyPacketType,
    sequence: u64,
    timestamp_us: u64,
    payload: Seq<u8>,
    checksum: u32,
) -> Seq<u8> {
    wire_legacy_header(
        legacy_header_of(packet_type, sequence, timestamp_us, payload.len() as u32, checksum),
    ) + payload
}

/// The bytes `encode_legacy` writes: a handshake response in the older framing
/// (sequence 1, timestamp 0, and the CRC-32 checksum of the response's bytes),
/// a pong as a header alone carrying the pong's sequence and timestamp, and any
/// other packet in the current framing.
pub open spec fn wire_legacy(p: PacketView) -> Seq<u8> {
    match p.payload {
        PayloadView::HandshakeResp(r) => legacy_frame(
            LegacyPacketType::HandshakeResp,
            1,
            0,
            wire_response(r),
            crc32_of(wire_response(r)),
        ),
        PayloadView::Pong { sequence, timestamp_us } => legacy_frame(
            LegacyPacketType::Pong,
            sequence,
            timestamp_us,
            Seq::empty(),
            0,
        ),
        _ => wire_packet(p),
    }
}

// ----------------------------------------------------------------------------
// Whether every length in a value fits its eight-byte prefix.
// ----------------------------------------------------------------------------
pub open spec fn request_fits(r: HandshakeRequestView) -> bool {
    &&& str_fits(r.client_name)
    &&& r.supported_codecs.len() <= u64::MAX
    &&& opt_str_fits(r.auth_token)
}

pub open spec fn response_fits(r: HandshakeResponseView) -> bool {
    opt_str_fits(r.error_message)
}

pub open spec fn payload_fits(p: PayloadView) -> bool {
    match p {
        PayloadView::HandshakeReq(r) => request_fits(r),
        PayloadView::HandshakeResp(r) => response_fits(r),
        PayloadView::InputData(e) => input_fits(e),
        _ => true,
    }
}

// ----------------------------------------------------------------------------
// Reading.
// ----------------------------------------------------------------------------
/// The codec whose variant number is the `i`-th entry of a list at the front of `b`.
pub open spec fn codec_entry(b: Seq<u8>, i: int) -> Option<VideoCodec> {
    codec_of_tag(u32_at(b.skip(8 + 4 * i)))
}

#[verifier::opaque]
pub open spec fn parse_codec_list(b: Seq<u8>) -> Option<(int, Seq<VideoCodec>)> {
    if b.len() >= 8 && 4 * (u64_at(b) as int) <= b.len() - 8 && (forall|i: int|
        0 <= i < u64_at(b) ==> #[trigger] codec_entry(b, i) is Some) {
        Some(
            (
                8 + 4 * (u64_at(b) as int),
                Seq::new(u64_at(b) as nat, |i: int| codec_entry(b, i)->0),
            ),
        )
    } else {
        None
    }
}

#[verifier::opaque]
pub open spec fn parse_request(b: Seq<u8>) -> Option<(int, HandshakeRequestView)> {
    match parse_str(b) {
        Some((n1, client_name)) => if b.len() - n1 >= 12 {
            match parse_codec_list(b.skip(n1 + 12)) {
                Some((n2, supported_codecs)) => match parse_opt_str(b.skip(n1 + 12 + n2)) {
                    Some((n3, auth_token)) => Some(
                        (
                            n1 + 12 + n2 + n3,
                            HandshakeRequestView {
                                client_name,
                                preferred_width: u32_at(b.skip(n1)),
                                preferred_height: u32_at(b.skip(n1 + 4)),
                                refresh_rate: u32_at(b.skip(n1 + 8)),
                                supported_codecs,
                                auth_token,
                            },
                        ),
                    ),
                    None => None,
                },
                None => None,
            }
        } else {
            None
        },
        None => None,
    }
}

#[verifier::opaque]
pub open spec fn parse_response(b: Seq<u8>) -> Option<(int, HandshakeResponseView)> {
    match parse_bool(b) {
        Some((_, accepted)) => match parse_opt_str(b.skip(1)) {
            Some((n1, error_message)) => {
                let p = 1 + n1;
                if b.len() - p >= 12 && codec_of_tag(u32_at(b.skip(p + 8))) is Some {
                    match parse_opt_u32(b.skip(p + 12)) {
                        Some((n2, pipewire_node_id)) => {
                            let q = p + 12 + n2;
                            if b.len() - q >= 4 {
                                Some(
                                    (
                                        q + 4,
                                        HandshakeResponseView {
                                            accepted,
                                            error_message,
                                            selected_width: u32_at(b.skip(p)),
                                            selected_height: u32_at(b.skip(p + 4)),
                                            selected_codec: codec_of_tag(
                                                u32_at(b.skip(p + 8)),
                                            )->0,
                                            pipewire_node_id,
                                            stream_port: u16_at(b.skip(q)),
                                            input_port: u16_at(b.skip(q + 2)),
                                        },
                                    ),
                                )
                            } else {
                                None
                            }
                        },
                        None => None,
                    }
                } else {
                    None
                }
            },
            None => None,
        },
        None => None,
    }
}

#[verifier::opaque]
pub open spec fn parse_payload(b: Seq<u8>) -> Option<(int, PayloadView)> {
    if b.len() < 4 {
        None
    } else if u32_at(b) == 0 {
        match parse_request(b.skip(4)) {
            Some((n, r)) => Some((4 + n, PayloadView::HandshakeReq(r))),
            None => None,
        }
    } else if u32_at(b) == 1 {
        match parse_response(b.skip(4)) {
            Some((n, r)) => Some((4 + n, PayloadView::HandshakeResp(r))),
            None => None,
        }
    } else if u32_at(b) == 2 {
        match parse_input(b.skip(4)) {
            Some((n, e)) => Some((4 + n, PayloadView::InputData(e))),
            None => None,
        }
    } else if u32_at(b) == 3 {
        if b.len() >= 20 {
            Some(
                (
                    20,
                    PayloadView::Ping { sequence: u64_at(b.skip(4)), timestamp_us: u64_at(b.skip(12)) },
                ),
            )
        } else {
            None
        }
    } else if u32_at(b) == 4 {
        if b.len() >= 20 {
            Some(
                (
                    20,
                    PayloadView::Pong { sequence: u64_at(b.skip(4)), timestamp_us: u64_at(b.skip(12)) },
                ),
            )
        } else {
            None
        }
    } else if u32_at(b) == 5 {
        Some((4, PayloadView::Disconnect))
    } else {
        None
    }
}

pub open spec fn parse_packet(b: Seq<u8>) -> Option<(int, PacketView)> {
    if b.len() >= 6 {
        match parse_payload(b.skip(6)) {
            Some((n, payload)) => Some(
                (6 + n, PacketView { magic: u32_at(b), version: u16_at(b.skip(4)), payload }),
            ),
            None => None,
        }
    } else {
        None
    }
}

pub open spec fn parse_legacy_header(b: Seq<u8>) -> Option<(int, LegacyPacketHeader)> {
    if b.len() >= 34 && legacy_type_of_tag(u32_at(b.skip(6))) is Some {
        Some(
            (
                34,
                LegacyPacketHeader {
                    magic: u32_at(b),
                    version: u16_at(b.skip(4)),
                    packet_type: legacy_type_of_tag(u32_at(b.skip(6)))->0,
                    sequence: u64_at(b.skip(10)),
                    timestamp_us: u64_at(b.skip(18)),
                    payload_len: u32_at(b.skip(26)),
                    checksum: u32_at(b.skip(30)),
                },
            ),
        )
    } else {
        None
    }
}

/// What the older framing yields: a header with the protocol magic (its version,
/// length and checksum are not looked at) followed, for a handshake or an input
/// event, by that payload's bytes; pings, pongs and disconnects take their
/// content from the header. Video data is not a packet.
pub open spec fn legacy_decode(b: Seq<u8>) -> Option<PacketView> {
    match parse_legacy_header(b) {
        Some((n, h)) => if h.magic != EXTENDER_PROTOCOL_MAGIC {
            None
        } else {
            match h.packet_type {
                LegacyPacketType::HandshakeReq => match parse_request(b.skip(n)) {
                    Some((_, r)) => Some(packet_of(PayloadView::HandshakeReq(r))),
                    None => None,
                },
                LegacyPacketType::HandshakeResp => match parse_response(b.skip(n)) {
                    Some((_, r)) => Some(packet_of(PayloadView::HandshakeResp(r))),
                    None => None,
                },
                LegacyPacketType::InputData => match parse_input(b.skip(n)) {
                    Some((_, e)) => Some(packet_of(PayloadView::InputData(e))),
                    None => None,
                },
                LegacyPacketType::Ping => Some(
                    packet_of(
                        PayloadView::Ping { sequence: h.sequence, timestamp_us: h.timestamp_us },
                    ),
                ),
                LegacyPacketType::Pong => Some(
                    packet_of(
                        PayloadView::Pong { sequence: h.sequence, timestamp_us: h.timestamp_us },
                    ),
                ),
                LegacyPacketType::Disconnect => Some(packet_of(PayloadView::Disconnect)),
                LegacyPacketType::VideoData => None,
            }
        },
        None => None,
    }
}

/// Whether `b` is, to its last byte, a packet in the current framing with this
/// protocol's magic and version.
pub open spec fn whole_current_packet(b: Seq<u8>) -> bool {
    match parse_packet(b) {
        Some((n, p)) => n == b.len() && p.magic == EXTENDER_PROTOCOL_MAGIC && p.version
            == EXTENDER_PROTOCOL_VERSION,
        None => false,
    }
}

/// Decoding: bytes that are exactly a packet in the current framing, with this
/// protocol's magic and version, come back as that packet with `false`;
/// otherwise a message in the older framing (a header with the protocol magic
/// followed by its payload) comes back with `true`; otherwise a current packet
/// with this protocol's magic and version at the front of the bytes comes back
/// with `false`, the bytes after it ignored.
pub open spec fn decode_spec(b: Seq<u8>) -> Option<(PacketView, bool)> {
    match parse_packet(b) {
        Some((n, p)) if n == b.len() && p.magic == EXTENDER_PROTOCOL_MAGIC && p.version
            == EXTENDER_PROTOCOL_VERSION => Some((p, false)),
        _ => match legacy_decode(b) {
            Some(p) => Some((p, true)),
            None => match parse_packet(b) {
                Some((_, p)) if p.magic == EXTENDER_PROTOCOL_MAGIC && p.version
                    == EXTENDER_PROTOCOL_VERSION => Some((p, false)),
                _ => None,
            },
        },
    }
}

// ----------------------------------------------------------------------------
// Writing and reading, in executable code.
// ----------------------------------------------------------------------------
impl VideoCodec {
    /// The variant number that stands for this codec on the wire.
    pub fn wire_tag(&self) -> (t: u32)
        ensures
            t == codec_tag(*self),
    {
        match self {
            VideoCodec::H264Vaapi => 0,
            VideoCodec::H264Nvenc => 1,
            VideoCodec::H264Software => 2,
            VideoCodec::H265Vaapi => 3,
            VideoCodec::H265Nvenc => 4,
            VideoCodec::Vp8 => 5,
            VideoCodec::Vp9 => 6,
            VideoCodec::Av1 => 7,
        }
    }

    /// The codec with this variant number, if there is one.
    pub fn from_wire_tag(t: u32) -> (r: Option<VideoCodec>)
        ensures
            r == codec_of_tag(t),
    {
        if t == 0 {
            Some(VideoCodec::H264Vaapi)
        } else if t == 1 {
            Some(VideoCodec::H264Nvenc)
        } else if t == 2 {
            Some(VideoCodec::H264Software)
        } else if t == 3 {
            Some(VideoCodec::H265Vaapi)
        } else if t == 4 {
            Some(VideoCodec::H265Nvenc)
        } else if t == 5 {
            Some(VideoCodec::Vp8)
        } else if t == 6 {
            Some(VideoCodec::Vp9)
        } else if t == 7 {
            Some(VideoCodec::Av1)
        } else {
            None
        }
    }
}

impl LegacyPacketType {
    /// The variant number that stands for this message type on the wire.
    pub fn wire_tag(&self) -> (t: u32)
        ensures
            t == legacy_type_tag(*self),
    {
        match self {
            LegacyPacketType::HandshakeReq => 0,
            LegacyPacketType::HandshakeResp => 1,
            LegacyPacketType::VideoData => 2,
            LegacyPacketType::InputData => 3,
            LegacyPacketType::Ping => 4,
            LegacyPacketType::Pong => 5,
            LegacyPacketType::Disconnect => 6,
        }
    }

    /// The message type with this variant number, if there is one.
    pub fn from_wire_tag(t: u32) -> (r: Option<LegacyPacketType>)
        ensures
            r == legacy_type_of_tag(t),
    {
        if t == 0 {
            Some(LegacyPacketType::HandshakeReq)
        } else if t == 1 {
            Some(LegacyPacketType::HandshakeResp)
        } else if t == 2 {
            Some(LegacyPacketType::VideoData)
        } else if t == 3 {
            Some(LegacyPacketType::InputData)
        } else if t == 4 {
            Some(LegacyPacketType::Ping)
        } else if t == 5 {
            Some(LegacyPacketType::Pong)
        } else if t == 6 {
            Some(LegacyPacketType::Disconnect)
        } else {
            None
        }
    }
}

/// Appends a list of codecs: its length, then each codec's variant number.
pub fn encode_codec_list(cs: &Vec<VideoCodec>, buf: &mut Vec<u8>)
    ensures
        final(buf)@ == old(buf)@ + wire_codec_list(cs@),
{
    append_u64(buf, cs.len() as u64);
    let ghost start = buf@;
    let mut i: usize = 0;
    assert(cs@.take(0) =~= Seq::<VideoCodec>::empty());
    while i < cs.len()
        invariant
            i <= cs@.len(),
            buf@ == start + codec_list_body(cs@.take(i as int)),
        decreases cs@.len() - i,
    {
        proof {
            assert(cs@.take(i + 1).drop_last() =~= cs@.take(i as int));
        }
        append_u32(buf, cs[i].wire_tag());
        i = i + 1;
    }
    assert(cs@.take(cs@.len() as int) =~= cs@);
}

/// Reads a list of codecs at `pos`; the result also gives the number of bytes taken.
pub fn decode_codec_list(bytes: &[u8], pos: usize) -> (r: Option<(usize, Vec<VideoCodec>)>)
    requires
        pos <= bytes@.len(),
    ensures
        r matches Some((m, _)) ==> pos + m <= bytes@.len(),
        match parse_codec_list(bytes@.skip(pos as int)) {
            Some((n, v)) => r matches Some((m, cs)) && m == n && cs@ == v,
            None => r is None,
        },
{
    proof {
        reveal(parse_codec_list);
    }
    let blen = bytes.len();
    let n = match decode_u64(bytes, pos) {
        Some(n) => n,
        None => return None,
    };
    let ghost b = bytes@.skip(pos as int);
    let avail = blen - pos - 8;
    if n > (avail / 4) as u64 {
        return None;
    }
    let count = n as usize;
    let mut out: Vec<VideoCodec> = Vec::new();
    let mut i: usize = 0;
    while i < count
        invariant
            i <= count,
            count == u64_at(b),
            4 * count <= avail,
            avail == b.len() - 8,
            b == bytes@.skip(pos as int),
            pos <= blen,
            blen == bytes@.len(),
            out@ =~= Seq::new(i as nat, |k: int| codec_entry(b, k)->0),
            forall|k: int| 0 <= k < i ==> #[trigger] codec_entry(b, k) is Some,
        decreases count - i,
    {
        let t = decode_u32(bytes, pos + 8 + 4 * i).unwrap();
        assert(codec_entry(b, i as int) == codec_of_tag(t));
        match VideoCodec::from_wire_tag(t) {
            Some(c) => out.push(c),
            None => {
                proof {
                    reveal(parse_codec_list);
                }
                return None;
            },
        }
        i = i + 1;
    }
    Some((8 + 4 * count, out))
}

impl HandshakeRequest {
    /// Appends the wire form of the request.
    pub fn encode_into(&self, buf: &mut Vec<u8>)
        ensures
            final(buf)@ == old(buf)@ + wire_request(self@),
    {
        append_str(buf, self.client_name.as_str());
        append_u32(buf, self.preferred_width);
        append_u32(buf, self.preferred_height);
        append_u32(buf, self.refresh_rate);
        encode_codec_list(&self.supported_codecs, buf);
        append_opt_string(buf, &self.auth_token);
    }

    /// Reads a request at `pos`; the result also gives the number of bytes taken.
    pub fn decode_at(bytes: &[u8], pos: usize) -> (r: Option<(usize, HandshakeRequest)>)
        requires
            pos <= bytes@.len(),
        ensures
            r matches Some((m, _)) ==> pos + m <= bytes@.len(),
            match parse_request(bytes@.skip(pos as int)) {
                Some((n, v)) => r matches Some((m, req)) && m == n && req@ == v,
                None => r is None,
            },
    {
        proof {
            reveal(parse_request);
        }
        let blen = bytes.len();
        let (n1, client_name) = match read_string(bytes, pos) {
            Some(v) => v,
            None => return None,
        };
        if blen - pos - n1 < 12 {
            return None;
        }
        let preferred_width = decode_u32(bytes, pos + n1).unwrap();
        let preferred_height = decode_u32(bytes, pos + n1 + 4).unwrap();
        let refresh_rate = decode_u32(bytes, pos + n1 + 8).unwrap();
        let (n2, supported_codecs) = match decode_codec_list(bytes, pos + n1 + 12) {
            Some(v) => v,
            None => return None,
        };
        let (n3, auth_token) = match read_opt_string(bytes, pos + n1 + 12 + n2) {
            Some(v) => v,
            None => return None,
        };
        let req = HandshakeRequest {
            client_name,
            preferred_width,
            preferred_height,
            refresh_rate,
            supported_codecs,
            auth_token,
        };
        Some((n1 + 12 + n2 + n3, req))
    }
}

impl HandshakeResponse {
    /// Appends the wire form of the response.
    pub fn encode_into(&self, buf: &mut Vec<u8>)
        ensures
            final(buf)@ == old(buf)@ + wire_response(self@),
    {
        append_bool(buf, self.accepted);
        append_opt_string(buf, &self.error_message);
        append_u32(buf, self.selected_width);
        append_u32(buf, self.selected_height);
        append_u32(buf, self.selected_codec.wire_tag());
        append_opt_u32(buf, self.pipewire_node_id);
        append_u16(buf, self.stream_port);
        append_u16(buf, self.input_port);
    }

    /// Reads a response at `pos`; the result also gives the number of bytes taken.
    #[verifier::rlimit(30)]
    pub fn decode_at(bytes: &[u8], pos: usize) -> (r: Option<(usize, HandshakeResponse)>)
        requires
            pos <= bytes@.len(),
        ensures
            r matches Some((m, _)) ==> pos + m <= bytes@.len(),
            match parse_response(bytes@.skip(pos as int)) {
                Some((n, v)) => r matches Some((m, resp)) && m == n && resp@ == v,
                None => r is None,
            },
    {
        proof {
            reveal(parse_response);
        }
        let blen = bytes.len();
        let (_, accepted) = match read_bool(bytes, pos) {
            Some(v) => v,
            None => return None,
        };
        let (n1, error_message) = match read_opt_string(bytes, pos + 1) {
            Some(v) => v,
            None => return None,
        };
        let p = pos + 1 + n1;
        if blen - p < 12 {
            return None;
        }
        let selected_width = decode_u32(bytes, p).unwrap();
        let selected_height = decode_u32(bytes, p + 4).unwrap();
        let tag = decode_u32(bytes, p + 8).unwrap();
        let selected_codec = match VideoCodec::from_wire_tag(tag) {
            Some(c) => c,
            None => return None,
        };
        let (n2, pipewire_node_id) = match read_opt_u32(bytes, p + 12) {
            Some(v) => v,
            None => return None,
        };
        let q = p + 12 + n2;
        if blen - q < 4 {
            return None;
        }
        let stream_port = decode_u16(bytes, q).unwrap();
        let input_port = decode_u16(bytes, q + 2).unwrap();
        let resp = HandshakeResponse {
            accepted,
            error_message,
            selected_width,
            selected_height,
            selected_codec,
            pipewire_node_id,
            stream_port,
            input_port,
        };
        Some((q + 4 - pos, resp))
    }
}


impl PacketPayload {
    /// Appends the wire form of the payload: its variant number, then its content.
    pub fn encode_into(&self, buf: &mut Vec<u8>)
        ensures
            final(buf)@ == old(buf)@ + wire_payload(self@),
    {
        match self {
            PacketPayload::HandshakeReq(r) => {
                append_u32(buf, 0);
                r.encode_into(buf);
            },
            PacketPayload::HandshakeResp(r) => {
                append_u32(buf, 1);
                r.encode_into(buf);
            },
            PacketPayload::InputData(e) => {
                append_u32(buf, 2);
                e.encode_into(buf);
            },
            PacketPayload::Ping { sequence, timestamp_us } => {
                append_u32(buf, 3);
                append_u64(buf, *sequence);
                append_u64(buf, *timestamp_us);
            },
            PacketPayload::Pong { sequence, timestamp_us } => {
                append_u32(buf, 4);
                append_u64(buf, *sequence);
                append_u64(buf, *timestamp_us);
            },
            PacketPayload::Disconnect => {
                append_u32(buf, 5);
            },
        }
    }

    /// Reads a payload at `pos`; the result also gives the number of bytes taken.
    pub fn decode_at(bytes: &[u8], pos: usize) -> (r: Option<(usize, PacketPayload)>)
        requires
            pos <= bytes@.len(),
        ensures
            r matches Some((m, _)) ==> pos + m <= bytes@.len(),
            match parse_payload(bytes@.skip(pos as int)) {
                Some((n, v)) => r matches Some((m, p)) && m == n && p@ == v,
                None => r is None,
            },
    {
        proof {
            reveal(parse_payload);
        }
        let blen = bytes.len();
        let t = match decode_u32(bytes, pos) {
            Some(t) => t,
            None => return None,
        };
        if t == 0 {
            match HandshakeRequest::decode_at(bytes, pos + 4) {
                Some((n, req)) => Some((4 + n, PacketPayload::HandshakeReq(req))),
                None => None,
            }
        } else if t == 1 {
            match HandshakeResponse::decode_at(bytes, pos + 4) {
                Some((n, resp)) => Some((4 + n, PacketPayload::HandshakeResp(resp))),
                None => None,
            }
        } else if t == 2 {
            match InputEvent::decode_at(bytes, pos + 4) {
                Some((n, e)) => Some((4 + n, PacketPayload::InputData(e))),
                None => None,
            }
        } else if t == 3 || t == 4 {
            if blen - pos < 20 {
                return None;
            }
            let sequence = decode_u64(bytes, pos + 4).unwrap();
            let timestamp_us = decode_u64(bytes, pos + 12).unwrap();
            if t == 3 {
                Some((20, PacketPayload::Ping { sequence, timestamp_us }))
            } else {
                Some((20, PacketPayload::Pong { sequence, timestamp_us }))
            }
        } else if t == 5 {
            Some((4, PacketPayload::Disconnect))
        } else {
            None
        }
    }
}

impl LegacyPacketHeader {
    /// A header of the older framing, stamped with this protocol's magic and version.
    pub fn new(
        packet_type: LegacyPacketType,
        sequence: u64,
        timestamp_us: u64,
        payload_len: u32,
        checksum: u32,
    ) -> (h: Self)
        ensures
            h == legacy_header_of(packet_type, sequence, timestamp_us, payload_len, checksum),
    {
        LegacyPacketHeader {
            magic: EXTENDER_PROTOCOL_MAGIC,
            version: EXTENDER_PROTOCOL_VERSION,
            packet_type,
            sequence,
            timestamp_us,
            payload_len,
            checksum,
        }
    }

    /// Appends the header's fixed-length wire form.
    pub fn encode_into(&self, buf: &mut Vec<u8>)
        ensures
            final(buf)@ == old(buf)@ + wire_legacy_header(*self),
    {
        append_u32(buf, self.magic);
        append_u16(buf, self.version);
        append_u32(buf, self.packet_type.wire_tag());
        append_u64(buf, self.sequence);
        append_u64(buf, self.timestamp_us);
        append_u32(buf, self.payload_len);
        append_u32(buf, self.checksum);
    }

    /// The header's wire form.
    pub fn encode(&self) -> (bytes: Vec<u8>)
        ensures
            bytes@ == wire_legacy_header(*self),
    {
        let mut bytes: Vec<u8> = Vec::new();
        self.encode_into(&mut bytes);
        bytes
    }

    /// Reads a header at `pos`; on success it took [`LEGACY_HEADER_LEN`] bytes.
    pub fn decode_at(bytes: &[u8], pos: usize) -> (r: Option<(usize, LegacyPacketHeader)>)
        requires
            pos <= bytes@.len(),
        ensures
            r matches Some((m, _)) ==> pos + m <= bytes@.len(),
            r == (match parse_legacy_header(bytes@.skip(pos as int)) {
                Some((n, h)) => Some((n as usize, h)),
                None => None,
            }),
    {
        let blen = bytes.len();
        if blen - pos < LEGACY_HEADER_LEN {
            return None;
        }
        let magic = decode_u32(bytes, pos).unwrap();
        let version = decode_u16(bytes, pos + 4).unwrap();
        let tag = decode_u32(bytes, pos + 6).unwrap();
        let sequence = decode_u64(bytes, pos + 10).unwrap();
        let timestamp_us = decode_u64(bytes, pos + 18).unwrap();
        let payload_len = decode_u32(bytes, pos + 26).unwrap();
        let checksum = decode_u32(bytes, pos + 30).unwrap();
        match LegacyPacketType::from_wire_tag(tag) {
            Some(packet_type) => Some(
                (
                    LEGACY_HEADER_LEN,
                    LegacyPacketHeader {
                        magic,
                        version,
                        packet_type,
                        sequence,
                        timestamp_us,
                        payload_len,
                        checksum,
                    },
                ),
            ),
            None => None,
        }
    }
}

/// `crc32fast::hash`: the CRC-32 checksum of `data`, named [`crc32_of`].
#[verifier::external_body]
fn crc32_checksum(data: &[u8]) -> (c: u32)
    ensures
        c == crc32_of(data@),
{
    crc32fast::hash(data)
}

/// See [`legacy_frame`].
pub fn encode_legacy_frame(
    packet_type: LegacyPacketType,
    sequence: u64,
    timestamp_us: u64,
    payload: &[u8],
    checksum: u32,
) -> (bytes: Vec<u8>)
    ensures
        bytes@ == legacy_frame(packet_type, sequence, timestamp_us, payload@, checksum),
{
    let header = LegacyPacketHeader::new(
        packet_type,
        sequence,
        timestamp_us,
        payload.len() as u32,
        checksum,
    );
    let mut bytes = header.encode();
    let mut i: usize = 0;
    let ghost start = bytes@;
    while i < payload.len()
        invariant
            i <= payload@.len(),
            bytes@ == start + payload@.take(i as int),
        decreases payload@.len() - i,
    {
        proof {
            assert(payload@.take(i + 1) =~= payload@.take(i as int).push(payload@[i as int]));
        }
        bytes.push(payload[i]);
        i = i + 1;
    }
    assert(payload@.take(payload@.len() as int) =~= payload@);
    bytes
}

impl Packet {
    /// A packet of the current protocol carrying `payload`.
    pub fn new(payload: PacketPayload) -> (p: Packet)
        ensures
            p.magic == EXTENDER_PROTOCOL_MAGIC,
            p.version == EXTENDER_PROTOCOL_VERSION,
            p.payload == payload,
            p@ == packet_of(payload@),
    {
        Packet { magic: EXTENDER_PROTOCOL_MAGIC, version: EXTENDER_PROTOCOL_VERSION, payload }
    }

    /// Appends the packet in the current framing.
    pub fn encode_into(&self, buf: &mut Vec<u8>)
        ensures
            final(buf)@ == old(buf)@ + wire_packet(self@),
    {
        append_u32(buf, self.magic);
        append_u16(buf, self.version);
        self.payload.encode_into(buf);
    }

    /// The packet in the current framing. Writing cannot fail, so the result
    /// is always `Ok`.
    pub fn encode(&self) -> (r: Result<Vec<u8>, WireError>)
        ensures
            r matches Ok(bytes) && bytes@ == wire_packet(self@),
    {
        let mut bytes: Vec<u8> = Vec::new();
        self.encode_into(&mut bytes);
        Ok(bytes)
    }

    /// Reads a packet in the current framing at the front of `bytes`, whatever
    /// its magic and version.
    pub fn decode_current(bytes: &[u8]) -> (r: Option<(usize, Packet)>)
        ensures
            match parse_packet(bytes@) {
                Some((n, v)) => r matches Some((m, p)) && m == n && p@ == v,
                None => r is None,
            },
    {
        let blen = bytes.len();
        if blen < 6 {
            return None;
        }
        let magic = decode_u32(bytes, 0).unwrap();
        let version = decode_u16(bytes, 4).unwrap();
        assert(bytes@.skip(0) =~= bytes@);
        match PacketPayload::decode_at(bytes, 6) {
            Some((n, payload)) => Some((6 + n, Packet { magic, version, payload })),
            None => None,
        }
    }

    /// Reads a packet in the older framing at the front of `bytes`.
    pub fn decode_legacy(bytes: &[u8]) -> (r: Option<Packet>)
        ensures
            match legacy_decode(bytes@) {
                Some(v) => r matches Some(p) && p@ == v,
                None => r is None,
            },
    {
        assert(bytes@.skip(0) =~= bytes@);
        let (n, header) = match LegacyPacketHeader::decode_at(bytes, 0) {
            Some(v) => v,
            None => return None,
        };
        if header.magic != EXTENDER_PROTOCOL_MAGIC {
            return None;
        }
        match header.packet_type {
            LegacyPacketType::HandshakeReq => match HandshakeRequest::decode_at(bytes, n) {
                Some((_, req)) => Some(Packet::new(PacketPayload::HandshakeReq(req))),
                None => None,
            },
            LegacyPacketType::HandshakeResp => match HandshakeResponse::decode_at(bytes, n) {
                Some((_, resp)) => Some(Packet::new(PacketPayload::HandshakeResp(resp))),
                None => None,
            },
            LegacyPacketType::InputData => match InputEvent::decode_at(bytes, n) {
                Some((_, e)) => Some(Packet::new(PacketPayload::InputData(e))),
                None => None,
            },
            LegacyPacketType::Ping => Some(
                Packet::new(
                    PacketPayload::Ping {
                        sequence: header.sequence,
                        timestamp_us: header.timestamp_us,
                    },
                ),
            ),
            LegacyPacketType::Pong => Some(
                Packet::new(
                    PacketPayload::Pong {
                        sequence: header.sequence,
                        timestamp_us: header.timestamp_us,
                    },
                ),
            ),
            LegacyPacketType::Disconnect => Some(Packet::new(PacketPayload::Disconnect)),
            LegacyPacketType::VideoData => None,
        }
    }

    /// Decodes a packet in either framing; the flag tells whether the older
    /// framing was used. See [`decode_spec`].
    pub fn decode(bytes: &[u8]) -> (r: Result<(Packet, bool), WireError>)
        ensures
            match decode_spec(bytes@) {
                Some((v, legacy)) => r matches Ok((p, l)) && p@ == v && l == legacy,
                None => r == Err::<(Packet, bool), WireError>(WireError::Undecodable),
            },
    {
        let current = Packet::decode_current(bytes);
        let current_ok = match &current {
            Some((_, packet)) => packet.magic == EXTENDER_PROTOCOL_MAGIC && packet.version
                == EXTENDER_PROTOCOL_VERSION,
            None => false,
        };
        if let Some((n, packet)) = current {
            if current_ok && n == bytes.len() {
                return Ok((packet, false));
            }
            if let Some(older) = Packet::decode_legacy(bytes) {
                return Ok((older, true));
            }
            if current_ok {
                return Ok((packet, false));
            }
            return Err(WireError::Undecodable);
        }
        match Packet::decode_legacy(bytes) {
            Some(older) => Ok((older, true)),
            None => Err(WireError::Undecodable),
        }
    }

    /// The packet as an older client expects it: see [`wire_legacy`]. Writing
    /// cannot fail, so the result is always `Ok`.
    pub fn encode_legacy(&self) -> (r: Result<Vec<u8>, WireError>)
        ensures
            r matches Ok(bytes) && bytes@ == wire_legacy(self@),
    {
        match &self.payload {
            PacketPayload::HandshakeResp(resp) => {
                let mut payload_bytes: Vec<u8> = Vec::new();
                resp.encode_into(&mut payload_bytes);
                let checksum = crc32_checksum(payload_bytes.as_slice());
                Ok(
                    encode_legacy_frame(
                        LegacyPacketType::HandshakeResp,
                        1,
                        0,
                        payload_bytes.as_slice(),
                        checksum,
                    ),
                )
            },
            PacketPayload::Pong { sequence, timestamp_us } => {
                let empty: Vec<u8> = Vec::new();
                let bytes = encode_legacy_frame(
                    LegacyPacketType::Pong,
                    *sequence,
                    *timestamp_us,
                    empty.as_slice(),
                    0,
                );
                assert(empty@ =~= Seq::<u8>::empty());
                Ok(bytes)
            },
            _ => self.encode(),
        }
    }
}

impl WireError {
    /// A sentence that describes the error.
    pub fn message(&self) -> (s: String)
        ensures
            s@ == "Failed to decode packet in unified or legacy format"@,
    {
        String::from_str("Failed to decode packet in unified or legacy format")
    }
}

} // verus!
