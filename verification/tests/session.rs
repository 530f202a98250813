use extender::config::SessionConfig;
use extender::events::InputEvent;
use extender::protocol::{
    HandshakeRequest, HandshakeResponse, Packet, PacketPayload, VideoCodec,
};
use extender::session::{
    accept_handshake, next_ping, select_codec, ClientSettings, HandshakeError, ServerAction,
    ServerSettings, FIRST_PING_SEQUENCE,
};

fn server() -> ServerSettings {
    ServerSettings {
        width: 1920,
        height: 1080,
        stream_port: 8554,
        input_port: 8555,
        codec: VideoCodec::H264Vaapi,
        bitrate_kbps: 8000,
    }
}

fn request(codecs: Vec<VideoCodec>) -> HandshakeRequest {
    HandshakeRequest {
        client_name: "laptop".to_string(),
        preferred_width: 2560,
        preferred_height: 1600,
        refresh_rate: 120,
        supported_codecs: codecs,
        auth_token: None,
    }
}

#[test]
fn codec_selection() {
    assert_eq!(
        select_codec(VideoCodec::H264Vaapi, &vec![VideoCodec::Vp8, VideoCodec::H264Vaapi]),
        VideoCodec::H264Vaapi
    );
    assert_eq!(
        select_codec(VideoCodec::H264Vaapi, &vec![VideoCodec::Vp8, VideoCodec::Av1]),
        VideoCodec::Vp8
    );
    assert_eq!(select_codec(VideoCodec::Av1, &vec![]), VideoCodec::H264Software);
}

#[test]
fn handshake_starts_a_session_of_the_preferred_size() {
    let action = server().on_packet(PacketPayload::HandshakeReq(request(vec![VideoCodec::Vp9])));
    assert_eq!(
        action,
        ServerAction::StartSession { width: 2560, height: 1600, codec: VideoCodec::Vp9 }
    );
}

#[test]
fn ping_is_answered_with_matching_pong() {
    let action = server().on_packet(PacketPayload::Ping { sequence: 101, timestamp_us: 5 });
    assert_eq!(
        action,
        ServerAction::Reply(Packet::new(PacketPayload::Pong { sequence: 101, timestamp_us: 5 }))
    );
}

#[test]
fn other_packets() {
    let s = server();
    assert_eq!(
        s.on_packet(PacketPayload::InputData(InputEvent::KeepAlive)),
        ServerAction::Inject(InputEvent::KeepAlive)
    );
    assert_eq!(s.on_packet(PacketPayload::Disconnect), ServerAction::EndSession);
    assert_eq!(
        s.on_packet(PacketPayload::Pong { sequence: 1, timestamp_us: 1 }),
        ServerAction::Ignore
    );
}

#[test]
fn response_carries_session_and_ports() {
    let r = server().handshake_response(2560, 1600, VideoCodec::Vp9, 77);
    assert_eq!(
        r,
        HandshakeResponse {
            accepted: true,
            error_message: None,
            selected_width: 2560,
            selected_height: 1600,
            selected_codec: VideoCodec::Vp9,
            pipewire_node_id: Some(77),
            stream_port: 8554,
            input_port: 8555,
        }
    );
}

#[test]
fn client_request() {
    let c = ClientSettings {
        preferred_width: 1920,
        preferred_height: 1080,
        refresh_rate: 60,
        supported_codecs: vec![VideoCodec::H264Nvenc, VideoCodec::H264Software],
    };
    let r = c.handshake_request();
    assert_eq!(r.client_name, "ExtenderClient-Wayland");
    assert_eq!(r.supported_codecs, vec![VideoCodec::H264Nvenc, VideoCodec::H264Software]);
    assert_eq!((r.preferred_width, r.preferred_height, r.refresh_rate), (1920, 1080, 60));
    assert_eq!(r.auth_token, None);
}

#[test]
fn client_accepts_only_accepting_responses() {
    let ok = server().handshake_response(1, 2, VideoCodec::Av1, 0);
    assert_eq!(accept_handshake(PacketPayload::HandshakeResp(ok.clone())), Ok(ok.clone()));

    let mut refused = ok.clone();
    refused.accepted = false;
    refused.error_message = Some("busy".to_string());
    assert_eq!(
        accept_handshake(PacketPayload::HandshakeResp(refused)),
        Err(HandshakeError::Rejected(Some("busy".to_string())))
    );
    assert_eq!(
        accept_handshake(PacketPayload::Disconnect),
        Err(HandshakeError::UnexpectedPacket(PacketPayload::Disconnect))
    );
}

#[test]
fn pings_count_up() {
    let (seq, packet) = next_ping(FIRST_PING_SEQUENCE);
    assert_eq!(seq, 101);
    assert_eq!(packet, Packet::new(PacketPayload::Ping { sequence: 101, timestamp_us: 0 }));
    let (seq, _) = next_ping(seq);
    assert_eq!(seq, 102);
}

#[test]
fn session_config_defaults() {
    let c = SessionConfig::default();
    assert_eq!((c.width, c.height, c.refresh_rate, c.bitrate_kbps), (1920, 1080, 60, 8000));
    assert_eq!(c.codec, VideoCodec::H264Vaapi);
    assert_eq!((c.stream_port, c.input_port), (8554, 8555));
    assert!(c.enable_hw_accel);
    assert_eq!(c.pin, None);
}
