use extender::events::{InputEvent, KeyAction, MouseButton, MouseEvent};
use extender::protocol::{
    encode_legacy_frame, HandshakeRequest, HandshakeResponse, LegacyPacketHeader, LegacyPacketType, Packet,
    PacketPayload, VideoCodec, WireError, EXTENDER_PROTOCOL_MAGIC, EXTENDER_PROTOCOL_VERSION,
    LEGACY_HEADER_LEN,
};

fn sample_request() -> HandshakeRequest {
    HandshakeRequest {
        client_name: "ExtenderClient-Wayland".to_string(),
        preferred_width: 1920,
        preferred_height: 1080,
        refresh_rate: 60,
        supported_codecs: vec![VideoCodec::H264Software],
        auth_token: None,
    }
}

fn sample_response() -> HandshakeResponse {
    HandshakeResponse {
        accepted: true,
        error_message: None,
        selected_width: 2560,
        selected_height: 1440,
        selected_codec: VideoCodec::Vp9,
        pipewire_node_id: Some(42),
        stream_port: 8554,
        input_port: 8555,
    }
}

#[test]
fn test_input_event_serialization() {
    let event = InputEvent::Mouse(MouseEvent::MotionAbsolute {
        x: 500.0f64.to_bits(),
        y: 300.0f64.to_bits(),
        width: 1920,
        height: 1080,
    });

    let mut encoded = Vec::new();
    event.encode_into(&mut encoded);
    let (_, decoded) = InputEvent::decode_at(&encoded, 0).unwrap();
    assert_eq!(event, decoded);
}

#[test]
fn test_legacy_handshake_roundtrip() {
    let req = sample_request();

    let mut payload_bytes = Vec::new();
    req.encode_into(&mut payload_bytes);
    let header = LegacyPacketHeader::new(
        LegacyPacketType::HandshakeReq,
        1,
        0,
        payload_bytes.len() as u32,
        crc32fast::Hasher::new().finalize(),
    );
    let mut packet_bytes = header.encode();
    packet_bytes.extend(payload_bytes);

    let (decoded, is_legacy) =
        Packet::decode(&packet_bytes).expect("Failed to decode legacy packet");
    assert!(is_legacy);
    match decoded.payload {
        PacketPayload::HandshakeReq(r) => assert_eq!(r.client_name, "ExtenderClient-Wayland"),
        _ => panic!("Expected HandshakeReq"),
    }
}

#[test]
fn test_unified_handshake_roundtrip() {
    let req = sample_request();

    let packet = Packet::new(PacketPayload::HandshakeReq(req));
    let packet_bytes = packet.encode().unwrap();
    let (decoded, is_legacy) =
        Packet::decode(&packet_bytes).expect("Failed to decode unified packet");
    assert!(!is_legacy);
    match decoded.payload {
        PacketPayload::HandshakeReq(r) => assert_eq!(r.client_name, "ExtenderClient-Wayland"),
        _ => panic!("Expected HandshakeReq"),
    }
}

#[test]
fn ping_matches_bincode_layout() {
    let bytes = Packet::new(PacketPayload::Ping { sequence: 7, timestamp_us: 9 }).encode().unwrap();
    let expected =
        bincode::serialize(&(EXTENDER_PROTOCOL_MAGIC, EXTENDER_PROTOCOL_VERSION, 3u32, 7u64, 9u64))
            .unwrap();
    assert_eq!(bytes, expected);
    assert_eq!(bytes.len(), 26);
    assert_eq!(&bytes[0..4], &[0x4E, 0x54, 0x58, 0x45]);
}

#[test]
fn request_matches_bincode_layout() {
    let mut req = sample_request();
    req.supported_codecs = vec![VideoCodec::Vp8, VideoCodec::H264Vaapi];
    req.auth_token = Some("token-1".to_string());
    let bytes = Packet::new(PacketPayload::HandshakeReq(req)).encode().unwrap();
    let expected = bincode::serialize(&(
        EXTENDER_PROTOCOL_MAGIC,
        EXTENDER_PROTOCOL_VERSION,
        0u32,
        (
            "ExtenderClient-Wayland".to_string(),
            1920u32,
            1080u32,
            60u32,
            vec![5u32, 0u32],
            Some("token-1".to_string()),
        ),
    ))
    .unwrap();
    assert_eq!(bytes, expected);
}

#[test]
fn response_matches_bincode_layout() {
    let mut resp = sample_response();
    resp.error_message = Some("busy".to_string());
    let bytes = Packet::new(PacketPayload::HandshakeResp(resp)).encode().unwrap();
    let expected = bincode::serialize(&(
        EXTENDER_PROTOCOL_MAGIC,
        EXTENDER_PROTOCOL_VERSION,
        1u32,
        (true, Some("busy".to_string()), 2560u32, 1440u32, 6u32, Some(42u32), 8554u16, 8555u16),
    ))
    .unwrap();
    assert_eq!(bytes, expected);
}

#[test]
fn mouse_coordinates_match_bincode_doubles() {
    let event = InputEvent::Mouse(MouseEvent::MotionAbsolute {
        x: 500.5f64.to_bits(),
        y: (-3.25f64).to_bits(),
        width: 1920,
        height: 1080,
    });
    let bytes = Packet::new(PacketPayload::InputData(event)).encode().unwrap();
    let expected = bincode::serialize(&(
        EXTENDER_PROTOCOL_MAGIC,
        EXTENDER_PROTOCOL_VERSION,
        2u32,
        0u32,
        0u32,
        500.5f64,
        -3.25f64,
        1920u32,
        1080u32,
    ))
    .unwrap();
    assert_eq!(bytes, expected);
}

#[test]
fn keyboard_and_button_match_bincode_layout() {
    let key = InputEvent::Keyboard { keycode: 30, action: KeyAction::Repeat, modifiers: 0x41 };
    let mut bytes = Vec::new();
    key.encode_into(&mut bytes);
    assert_eq!(bytes, bincode::serialize(&(1u32, 30u32, 2u32, 0x41u32)).unwrap());

    let button = InputEvent::Mouse(MouseEvent::Button {
        button: MouseButton::Other(9),
        state: KeyAction::Release,
    });
    let mut bytes = Vec::new();
    button.encode_into(&mut bytes);
    assert_eq!(bytes, bincode::serialize(&(0u32, 2u32, 5u32, 9u8, 1u32)).unwrap());
}

#[test]
fn every_payload_roundtrips() {
    let payloads = vec![
        PacketPayload::HandshakeReq(sample_request()),
        PacketPayload::HandshakeResp(sample_response()),
        PacketPayload::InputData(InputEvent::ClipboardText("héllo ✓".to_string())),
        PacketPayload::InputData(InputEvent::KeepAlive),
        PacketPayload::InputData(InputEvent::Mouse(MouseEvent::MotionRelative {
            dx: 1.5f64.to_bits(),
            dy: (-2.0f64).to_bits(),
        })),
        PacketPayload::InputData(InputEvent::Mouse(MouseEvent::AxisScroll {
            horizontal: 0.0f64.to_bits(),
            vertical: 10.0f64.to_bits(),
        })),
        PacketPayload::Ping { sequence: u64::MAX, timestamp_us: 1 },
        PacketPayload::Pong { sequence: 101, timestamp_us: 0 },
        PacketPayload::Disconnect,
    ];
    for payload in payloads {
        let packet = Packet::new(payload);
        let mut bytes = packet.encode().unwrap();
        bytes.extend([0xAA, 0xBB]);
        let (decoded, is_legacy) = Packet::decode(&bytes).unwrap();
        assert!(!is_legacy);
        assert_eq!(decoded, packet);
    }
}

#[test]
fn empty_and_garbage_do_not_decode() {
    assert_eq!(Packet::decode(&[]), Err(WireError::Undecodable));
    assert_eq!(Packet::decode(&[1, 2, 3]), Err(WireError::Undecodable));
    assert_eq!(Packet::decode(&[0xFF; 40]), Err(WireError::Undecodable));
    assert_eq!(
        WireError::Undecodable.message(),
        "Failed to decode packet in unified or legacy format"
    );
}

#[test]
fn wrong_version_is_not_a_current_packet() {
    let mut packet = Packet::new(PacketPayload::Disconnect);
    packet.version = 2;
    let bytes = packet.encode().unwrap();
    assert_eq!(Packet::decode(&bytes), Err(WireError::Undecodable));
}

#[test]
fn truncated_packet_does_not_decode() {
    let bytes = Packet::new(PacketPayload::HandshakeReq(sample_request())).encode().unwrap();
    assert_eq!(Packet::decode(&bytes[..bytes.len() - 1]), Err(WireError::Undecodable));
}

#[test]
fn invalid_text_and_tags_are_refused() {
    // A clipboard event whose text is not UTF-8.
    let mut bytes = bincode::serialize(&(EXTENDER_PROTOCOL_MAGIC, 1u16, 2u32, 2u32, 2u64)).unwrap();
    bytes.extend([0xC3, 0x28]);
    assert_eq!(Packet::decode(&bytes), Err(WireError::Undecodable));

    // A response whose `accepted` byte is neither 0 nor 1.
    let good = Packet::new(PacketPayload::HandshakeResp(sample_response())).encode().unwrap();
    let mut bad = good.clone();
    bad[10] = 2;
    assert_eq!(Packet::decode(&bad), Err(WireError::Undecodable));

    // An unknown codec number.
    let bytes = bincode::serialize(&(
        EXTENDER_PROTOCOL_MAGIC,
        1u16,
        1u32,
        (true, None::<String>, 1u32, 1u32, 8u32, None::<u32>, 1u16, 1u16),
    ))
    .unwrap();
    assert_eq!(Packet::decode(&bytes), Err(WireError::Undecodable));
}

#[test]
fn legacy_header_layout() {
    let header = LegacyPacketHeader::new(LegacyPacketType::Pong, 5, 6, 7, 8);
    assert_eq!(header.magic, EXTENDER_PROTOCOL_MAGIC);
    assert_eq!(header.version, EXTENDER_PROTOCOL_VERSION);
    let bytes = header.encode();
    assert_eq!(bytes.len(), LEGACY_HEADER_LEN);
    assert_eq!(
        bytes,
        bincode::serialize(&(EXTENDER_PROTOCOL_MAGIC, 1u16, 5u32, 5u64, 6u64, 7u32, 8u32)).unwrap()
    );
    let (n, back) = LegacyPacketHeader::decode_at(&bytes, 0).unwrap();
    assert_eq!(n, LEGACY_HEADER_LEN);
    assert_eq!(back, header);
}

#[test]
fn legacy_ping_takes_sequence_from_header() {
    // The older framing does not look at the version.
    let mut header = LegacyPacketHeader::new(LegacyPacketType::Ping, 77, 88, 0, 0);
    header.version = 9;
    let (decoded, is_legacy) = Packet::decode(&header.encode()).unwrap();
    assert!(is_legacy);
    assert_eq!(decoded, Packet::new(PacketPayload::Ping { sequence: 77, timestamp_us: 88 }));
}

#[test]
fn legacy_video_data_is_not_a_packet() {
    let mut header = LegacyPacketHeader::new(LegacyPacketType::VideoData, 1, 2, 0, 0);
    header.version = 9;
    // Version 9 also keeps the current framing from reading the bytes.
    assert_eq!(Packet::decode(&header.encode()), Err(WireError::Undecodable));
}

#[test]
fn legacy_header_with_other_magic_is_refused() {
    let mut header = LegacyPacketHeader::new(LegacyPacketType::Disconnect, 1, 2, 0, 0);
    header.magic = 0x1234_5678;
    assert_eq!(Packet::decode(&header.encode()), Err(WireError::Undecodable));
}

#[test]
fn encode_legacy_frames_response_and_pong() {
    let resp = sample_response();
    let mut payload = Vec::new();
    resp.encode_into(&mut payload);
    let bytes = Packet::new(PacketPayload::HandshakeResp(resp)).encode_legacy().unwrap();
    let header = LegacyPacketHeader::new(
        LegacyPacketType::HandshakeResp,
        1,
        0,
        payload.len() as u32,
        crc32fast::hash(&payload),
    );
    let mut expected = header.encode();
    expected.extend(payload);
    assert_eq!(bytes, expected);

    let pong = Packet::new(PacketPayload::Pong { sequence: 3, timestamp_us: 4 }).encode_legacy().unwrap();
    assert_eq!(pong, LegacyPacketHeader::new(LegacyPacketType::Pong, 3, 4, 0, 0).encode());

    let ping = Packet::new(PacketPayload::Ping { sequence: 3, timestamp_us: 4 });
    assert_eq!(ping.encode_legacy().unwrap(), ping.encode().unwrap());
}

#[test]
fn legacy_response_checksum_is_crc32_of_payload() {
    let resp = HandshakeResponse {
        accepted: true,
        error_message: None,
        selected_width: 1920,
        selected_height: 1080,
        selected_codec: VideoCodec::H264Software,
        pipewire_node_id: Some(0),
        stream_port: 8554,
        input_port: 8555,
    };
    let mut payload = Vec::new();
    resp.encode_into(&mut payload);
    let bytes = Packet::new(PacketPayload::HandshakeResp(resp)).encode_legacy().unwrap();
    let (_, header) = LegacyPacketHeader::decode_at(&bytes, 0).unwrap();
    assert_eq!(header.checksum, crc32fast::hash(&payload));
    assert_ne!(header.checksum, 0);
    assert_eq!(header.payload_len as usize, payload.len());
}

#[test]
fn legacy_frame_with_given_checksum() {
    let bytes = encode_legacy_frame(LegacyPacketType::InputData, 9, 8, &[1, 2, 3], 0xDEAD_BEEF);
    let mut expected =
        LegacyPacketHeader::new(LegacyPacketType::InputData, 9, 8, 3, 0xDEAD_BEEF).encode();
    expected.extend([1, 2, 3]);
    assert_eq!(bytes, expected);
}

#[test]
fn legacy_pong_decodes_as_pong() {
    let packet = Packet::new(PacketPayload::Pong { sequence: 3, timestamp_us: 4 });
    let bytes = packet.encode_legacy().unwrap();
    assert_eq!(Packet::decode(&bytes), Ok((packet, true)));
}

#[test]
fn legacy_ping_header_decodes_as_legacy_ping() {
    let bytes = LegacyPacketHeader::new(LegacyPacketType::Ping, 7, 42, 0, 0).encode();
    assert_eq!(bytes.len(), 34);
    assert_eq!(
        Packet::decode(&bytes),
        Ok((Packet::new(PacketPayload::Ping { sequence: 7, timestamp_us: 42 }), true))
    );
}

#[test]
fn legacy_input_frame_decodes_as_legacy_input() {
    let event = InputEvent::Keyboard { keycode: 30, action: KeyAction::Press, modifiers: 0 };
    let mut payload = Vec::new();
    event.encode_into(&mut payload);
    let bytes =
        encode_legacy_frame(LegacyPacketType::InputData, 5, 6, &payload, crc32fast::hash(&payload));
    assert_eq!(
        Packet::decode(&bytes),
        Ok((Packet::new(PacketPayload::InputData(event)), true))
    );
}

#[test]
fn legacy_response_decodes_back() {
    let packet = Packet::new(PacketPayload::HandshakeResp(sample_response()));
    let bytes = packet.encode_legacy().unwrap();
    assert_eq!(Packet::decode(&bytes), Ok((packet, true)));
}

#[test]
fn legacy_request_framing_decodes_via_legacy_path() {
    let req = sample_request();
    let mut payload = Vec::new();
    req.encode_into(&mut payload);
    let mut bytes = LegacyPacketHeader::new(LegacyPacketType::HandshakeReq, 1, 0, payload.len() as u32, 0).encode();
    bytes.extend(payload);
    assert_eq!(Packet::decode_legacy(&bytes), Some(Packet::new(PacketPayload::HandshakeReq(req))));
}

#[test]
fn codec_tags_follow_declaration_order() {
    let all = [
        VideoCodec::H264Vaapi,
        VideoCodec::H264Nvenc,
        VideoCodec::H264Software,
        VideoCodec::H265Vaapi,
        VideoCodec::H265Nvenc,
        VideoCodec::Vp8,
        VideoCodec::Vp9,
        VideoCodec::Av1,
    ];
    for (i, codec) in all.iter().enumerate() {
        assert_eq!(codec.wire_tag(), i as u32);
        assert_eq!(VideoCodec::from_wire_tag(i as u32), Some(*codec));
    }
    assert_eq!(VideoCodec::from_wire_tag(8), None);
}

fn ambiguous_request() -> HandshakeRequest {
    HandshakeRequest {
        client_name: String::new(),
        preferred_width: 0,
        preferred_height: 0,
        refresh_rate: 0,
        supported_codecs: vec![
            VideoCodec::H264Vaapi,
            VideoCodec::H264Vaapi,
            VideoCodec::H264Vaapi,
            VideoCodec::H264Vaapi,
            VideoCodec::H264Nvenc,
            VideoCodec::H264Vaapi,
            VideoCodec::H264Vaapi,
        ],
        auth_token: None,
    }
}

#[test]
fn current_packet_that_is_also_an_older_frame_decodes_as_itself() {
    let packet = Packet::new(PacketPayload::HandshakeReq(ambiguous_request()));
    let bytes = packet.encode().unwrap();
    assert_eq!(bytes.len(), 67);
    let other = HandshakeRequest {
        client_name: String::new(),
        preferred_width: 0,
        preferred_height: 0,
        refresh_rate: 0,
        supported_codecs: vec![VideoCodec::H264Vaapi],
        auth_token: None,
    };
    assert_eq!(
        Packet::decode_legacy(&bytes),
        Some(Packet::new(PacketPayload::HandshakeReq(other)))
    );
    assert_eq!(Packet::decode(&bytes), Ok((packet.clone(), false)));
    assert_eq!(Packet::decode(&packet.encode_legacy().unwrap()), Ok((packet, false)));
}

#[test]
fn current_packet_followed_by_bytes_decodes_as_itself() {
    let packet = Packet::new(PacketPayload::HandshakeReq(sample_request()));
    let mut bytes = packet.encode().unwrap();
    bytes.extend([9, 9, 9]);
    assert_eq!(Packet::decode(&bytes), Ok((packet, false)));
}
