//! Decisions of the host and of the client during a session: what the host does
//! with each packet it receives, and how the client opens and keeps a session.
use crate::events::InputEvent;
use crate::protocol::{
    packet_of, HandshakeRequest, HandshakeResponse, Packet, PacketPayload, PayloadView,
    VideoCodec,
};
use vstd::prelude::*;

verus! {

/// The codec a host streams with: its own when the client supports it, else the
/// first the client lists, else H.264 encoded in software.
pub open spec fn chosen_codec(own: VideoCodec, supported: Seq<VideoCodec>) -> VideoCodec {
    if supported.contains(own) {
        own
    } else if supported.len() > 0 {
        supported[0]
    } else {
        VideoCodec::H264Software
    }
}

/// The host streams with a codec the client can decode whenever the client
/// names any: its own where the client lists it, else the client's first
/// choice; only a client that names none gets software H.264.
pub proof fn law_codec_choice(own: VideoCodec, supported: Seq<VideoCodec>)
    ensures
        supported.contains(own) ==> chosen_codec(own, supported) == own,
        supported.len() > 0 ==> supported.contains(chosen_codec(own, supported)),
        (supported.len() > 0 && !supported.contains(own)) ==> chosen_codec(own, supported)
            == supported[0],
        supported.len() == 0 ==> chosen_codec(own, supported) == VideoCodec::H264Software,
{
    if supported.len() > 0 && !supported.contains(own) {
        assert(supported.contains(supported[0]));
    }
}

/// See [`chosen_codec`].
pub fn select_codec(own: VideoCodec, supported: &Vec<VideoCodec>) -> (c: VideoCodec)
    ensures
        c == chosen_codec(own, supported@),
{
    let mut i: usize = 0;
    while i < supported.len()
        invariant
            i <= supported@.len(),
            forall|k: int| 0 <= k < i ==> supported@[k] != own,
        decreases supported@.len() - i,
    {
        if supported[i] == own {
            assert(supported@.contains(own));
            return own;
        }
        i = i + 1;
    }
    assert(!supported@.contains(own));
    if supported.len() > 0 {
        supported[0]
    } else {
        VideoCodec::H264Software
    }
}

/// The plain settings a host serves with.
#[derive(Debug, Clone, Copy, PartialEq, Eq, Structural)]
pub struct ServerSettings {
    pub width: u32,
    pub height: u32,
    pub stream_port: u16,
    pub input_port: u16,
    pub codec: VideoCodec,
    pub bitrate_kbps: u32,
}

/// What a host does with a packet it received.
#[derive(Debug, Clone, PartialEq)]
pub enum ServerAction {
    /// Create a virtual monitor of this size, stream to the client with this
    /// codec, and answer with [`ServerSettings::handshake_response`].
    StartSession { width: u32, height: u32, codec: VideoCodec },
    /// Hand the event to the input injector.
    Inject(InputEvent),
    /// Send this pong back to the client.
    Reply(Packet),
    /// Stop streaming and close the virtual monitor.
    EndSession,
    /// Nothing to do.
    Ignore,
}

impl ServerSettings {
    /// A handshake asks for a session of the client's preferred size with the
    /// codec of [`chosen_codec`]; an input event is injected; a ping is answered
    /// with a pong of the same sequence and timestamp; a disconnect ends the
    /// session; anything else is ignored.
    pub fn on_packet(&self, payload: PacketPayload) -> (a: ServerAction)
        ensures
            match payload@ {
                PayloadView::HandshakeReq(r) => a == ServerAction::StartSession {
                    width: r.preferred_width,
                    height: r.preferred_height,
                    codec: chosen_codec(self.codec, r.supported_codecs),
                },
                PayloadView::InputData(e) => a matches ServerAction::Inject(x) && x@ == e,
                PayloadView::Ping { sequence, timestamp_us } => a matches ServerAction::Reply(p)
                    && p@ == packet_of(PayloadView::Pong { sequence, timestamp_us }),
                PayloadView::Disconnect => a == ServerAction::EndSession,
                _ => a == ServerAction::Ignore,
            },
    {
        match payload {
            PacketPayload::HandshakeReq(req) => {
                let codec = select_codec(self.codec, &req.supported_codecs);
                ServerAction::StartSession {
                    width: req.preferred_width,
                    height: req.preferred_height,
                    codec,
                }
            },
            PacketPayload::InputData(event) => ServerAction::Inject(event),
            PacketPayload::Ping { sequence, timestamp_us } => ServerAction::Reply(
                Packet::new(PacketPayload::Pong { sequence, timestamp_us }),
            ),
            PacketPayload::Disconnect => ServerAction::EndSession,
            _ => ServerAction::Ignore,
        }
    }

    /// The accepting answer to a handshake once the session runs: the size and
    /// codec granted, the PipeWire node streamed from, and this host's ports.
    pub fn handshake_response(&self, width: u32, height: u32, codec: VideoCodec, node_id: u32) -> (r:
        HandshakeResponse)
        ensures
            r.accepted,
            r.error_message is None,
            r.selected_width == width,
            r.selected_height == height,
            r.selected_codec == codec,
            r.pipewire_node_id == Some(node_id),
            r.stream_port == self.stream_port,
            r.input_port == self.input_port,
    {
        HandshakeResponse {
            accepted: true,
            error_message: None,
            selected_width: width,
            selected_height: height,
            selected_codec: codec,
            pipewire_node_id: Some(node_id),
            stream_port: self.stream_port,
            input_port: self.input_port,
        }
    }
}

/// The plain settings a client connects with.
#[derive(Debug, Clone, PartialEq)]
pub struct ClientSettings {
    pub preferred_width: u32,
    pub preferred_height: u32,
    pub refresh_rate: u32,
    pub supported_codecs: Vec<VideoCodec>,
}

/// Why a handshake did not open a session.
#[derive(Debug, Clone, PartialEq)]
pub enum HandshakeError {
    /// The host answered with something other than a handshake response.
    UnexpectedPacket(PacketPayload),
    /// The host refused, with its reason if it gave one.
    Rejected(Option<String>),
}

/// The sequence number a client's pings count up from.
pub const FIRST_PING_SEQUENCE: u64 = 100;

impl ClientSettings {
    /// The request a client opens a session with: named "ExtenderClient-Wayland",
    /// with its preferred size, refresh rate and codecs, and no token.
    pub fn handshake_request(&self) -> (r: HandshakeRequest)
        ensures
            r.client_name@ == "ExtenderClient-Wayland"@,
            r.preferred_width == self.preferred_width,
            r.preferred_height == self.preferred_height,
            r.refresh_rate == self.refresh_rate,
            r.supported_codecs@ == self.supported_codecs@,
            r.auth_token is None,
    {
        let mut codecs: Vec<VideoCodec> = Vec::new();
        let mut i: usize = 0;
        while i < self.supported_codecs.len()
            invariant
                i <= self.supported_codecs@.len(),
                codecs@ == self.supported_codecs@.take(i as int),
            decreases self.supported_codecs@.len() - i,
        {
            codecs.push(self.supported_codecs[i]);
            i = i + 1;
            assert(codecs@ =~= self.supported_codecs@.take(i as int));
        }
        assert(self.supported_codecs@.take(i as int) =~= self.supported_codecs@);
        HandshakeRequest {
            client_name: String::from_str("ExtenderClient-Wayland"),
            preferred_width: self.preferred_width,
            preferred_height: self.preferred_height,
            refresh_rate: self.refresh_rate,
            supported_codecs: codecs,
            auth_token: None,
        }
    }
}

/// What a client makes of the host's answer: an accepting handshake response
/// opens the session; a refusing one, or any other packet, does not.
pub fn accept_handshake(payload: PacketPayload) -> (r: Result<HandshakeResponse, HandshakeError>)
    ensures
        match payload {
            PacketPayload::HandshakeResp(resp) => if resp.accepted {
                r == Ok::<HandshakeResponse, HandshakeError>(resp)
            } else {
                r == Err::<HandshakeResponse, HandshakeError>(
                    HandshakeError::Rejected(resp.error_message),
                )
            },
            other => r == Err::<HandshakeResponse, HandshakeError>(
                HandshakeError::UnexpectedPacket(other),
            ),
        },
{
    match payload {
        PacketPayload::HandshakeResp(resp) => {
            if resp.accepted {
                Ok(resp)
            } else {
                Err(HandshakeError::Rejected(resp.error_message))
            }
        },
        other => Err(HandshakeError::UnexpectedPacket(other)),
    }
}

/// The sequence number of the `k`-th keepalive ping a client sends, counting
/// from 0 for the number it starts from: each is one more than the one before.
pub open spec fn ping_sequence(k: nat) -> int
    decreases k,
{
    if k == 0 {
        FIRST_PING_SEQUENCE as int
    } else {
        ping_sequence((k - 1) as nat) + 1
    }
}

/// A client's pings count up one at a time from 101: the `k`-th has sequence
/// 100 + k, so no two carry the same number and each is larger than the last.
pub proof fn law_pings_count_up(j: nat, k: nat)
    ensures
        ping_sequence(k) == FIRST_PING_SEQUENCE + k,
        j < k ==> ping_sequence(j) < ping_sequence(k),
    decreases k,
{
    if k > 0 {
        law_pings_count_up(j, (k - 1) as nat);
        law_pings_count_up((k - 1) as nat, (k - 1) as nat);
    }
}

/// The next keepalive ping: the sequence number after `previous`, timestamp 0.
/// Starting from [`FIRST_PING_SEQUENCE`], the `k`-th call gives
/// `ping_sequence(k)`.
pub fn next_ping(previous: u64) -> (r: (u64, Packet))
    requires
        previous < u64::MAX,
    ensures
        r.0 == previous + 1,
        forall|k: nat| previous == #[trigger] ping_sequence(k) ==> r.0 == ping_sequence(k + 1),
        r.1@ == packet_of(PayloadView::Ping { sequence: r.0, timestamp_us: 0 }),
{
    let sequence = previous + 1;
    (sequence, Packet::new(PacketPayload::Ping { sequence, timestamp_us: 0 }))
}

} // verus!
