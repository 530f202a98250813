//! The two directions of the wire layout: what is written is read back as the
//! value, whatever follows it; and what is read is exactly the bytes the value
//! is written as.
use crate::events::{input_fits, lemma_input_canonical, lemma_input_roundtrip, parse_input, wire_input, InputEventView};
use crate::protocol::{
    codec_entry, codec_list_body, codec_of_tag, codec_tag, decode_spec, legacy_decode, whole_current_packet,
    legacy_type_tag, legacy_type_of_tag, packet_of, parse_codec_list, parse_legacy_header,
    parse_packet, parse_payload, parse_request, parse_response, payload_fits, request_fits,
    response_fits, VideoCodec, wire_codec, wire_legacy, legacy_header_of, legacy_frame, crc32_of, wire_codec_list, wire_legacy_header, wire_packet, wire_payload,
    wire_request, wire_response, HandshakeRequestView, HandshakeResponseView, LegacyPacketHeader,
    LegacyPacketType, PacketView, PayloadView, EXTENDER_PROTOCOL_MAGIC, EXTENDER_PROTOCOL_VERSION,
};
use crate::wire::{
    le16, le32, le64, lemma_bool_roundtrip, lemma_le16_roundtrip, lemma_le32_roundtrip,
    lemma_le64_roundtrip, lemma_step, lemma_assoc, lemma_take_extend, lemma_skip_take,
    lemma_str_canonical, lemma_opt_str_canonical, lemma_opt_u32_canonical, lemma_bool_canonical,
    lemma_u16_field_canonical, lemma_u32_field_canonical, lemma_u64_field_canonical, lemma_opt_str_roundtrip, lemma_opt_u32_roundtrip,
    lemma_str_roundtrip, lemma_u16_field, lemma_u32_field,
    lemma_u64_field, parse_bool, parse_opt_str, parse_opt_u32, parse_str, str_wire_len, u16_at,
    u32_at, u64_at, wire_bool, wire_opt_str, wire_opt_u32, wire_str,
};
use vstd::prelude::*;

verus! {



/// The body of a codec list holds each codec's four bytes in turn.
pub proof fn lemma_codec_list_body(cs: Seq<VideoCodec>)
    ensures
        codec_list_body(cs).len() == 4 * cs.len(),
        forall|i: int|
            0 <= i < cs.len() ==> #[trigger] codec_list_body(cs).subrange(4 * i, 4 * i + 4)
                == wire_codec(cs[i]),
    decreases cs.len(),
{
    if cs.len() > 0 {
        let init = cs.drop_last();
        lemma_codec_list_body(init);
        let b = codec_list_body(cs);
        assert forall|i: int| 0 <= i < cs.len() implies #[trigger] b.subrange(4 * i, 4 * i + 4)
            == wire_codec(cs[i]) by {
            if i < cs.len() - 1 {
                assert(b.subrange(4 * i, 4 * i + 4) =~= codec_list_body(init).subrange(
                    4 * i,
                    4 * i + 4,
                ));
            } else {
                assert(b.subrange(4 * i, 4 * i + 4) =~= wire_codec(cs.last()));
            }
        }
    }
}

pub proof fn lemma_codec_list_roundtrip(cs: Seq<VideoCodec>, rest: Seq<u8>)
    requires
        cs.len() <= u64::MAX,
    ensures
        parse_codec_list(wire_codec_list(cs) + rest) == Some(
            (wire_codec_list(cs).len() as int, cs),
        ),
{
    reveal(parse_codec_list);
    lemma_codec_list_body(cs);
    let body = codec_list_body(cs);
    let b = wire_codec_list(cs) + rest;
    assert(b.subrange(0, 8) =~= le64(cs.len() as u64));
    lemma_u64_field(b, 0, cs.len() as u64);
    assert(b.skip(0) =~= b);
    assert forall|i: int| 0 <= i < cs.len() implies #[trigger] codec_entry(b, i) == Some(
        cs[i],
    ) by {
        assert(b.subrange(8 + 4 * i, 8 + 4 * i + 4) =~= body.subrange(4 * i, 4 * i + 4));
        lemma_u32_field(b, 8 + 4 * i, codec_tag(cs[i]));
    }
    assert(Seq::new(cs.len(), |i: int| codec_entry(b, i)->0) =~= cs);
}


pub proof fn lemma_request_roundtrip(r: HandshakeRequestView, rest: Seq<u8>)
    requires
        request_fits(r),
    ensures
        parse_request(wire_request(r) + rest) == Some((wire_request(r).len() as int, r)),
{
    let ws = wire_str(r.client_name);
    let wl = wire_codec_list(r.supported_codecs);
    let t5 = wire_opt_str(r.auth_token) + rest;
    let t4 = wl + t5;
    let t3 = le32(r.refresh_rate) + t4;
    let t2 = le32(r.preferred_height) + t3;
    let t1 = le32(r.preferred_width) + t2;
    let b = wire_request(r) + rest;
    assert(b =~= ws + t1);
    lemma_str_roundtrip(r.client_name, t1);
    let n1 = str_wire_len(r.client_name);
    assert(b.skip(n1) == t1);
    lemma_le32_roundtrip(r.preferred_width, t2);
    assert(b.skip(n1 + 4) == t2);
    lemma_le32_roundtrip(r.preferred_height, t3);
    assert(b.skip(n1 + 8) == t3);
    lemma_le32_roundtrip(r.refresh_rate, t4);
    assert(b.skip(n1 + 12) == t4);
    lemma_codec_list_roundtrip(r.supported_codecs, t5);
    let n2 = wl.len() as int;
    assert(b.skip(n1 + 12 + n2) == t5);
    lemma_opt_str_roundtrip(r.auth_token, rest);
    reveal(parse_request);
}

proof fn lemma_step_opt_u32(b: Seq<u8>, i: int, o: Option<u32>, t: Seq<u8>)
    requires
        0 <= i <= b.len(),
        b.skip(i) == wire_opt_u32(o) + t,
    ensures
        parse_opt_u32(b.skip(i)) == Some((wire_opt_u32(o).len() as int, o)),
        b.skip(i + wire_opt_u32(o).len()) == t,
{
    lemma_opt_u32_roundtrip(o, t);
    lemma_step(b, i, wire_opt_u32(o), t);
}

proof fn lemma_parse_response_fields(
    b: Seq<u8>,
    r: HandshakeResponseView,
    p: int,
    q: int,
)
    requires
        parse_bool(b) == Some((1int, r.accepted)),
        parse_opt_str(b.skip(1)) == Some((p - 1, r.error_message)),
        1 <= p,
        b.len() - p >= 12,
        u32_at(b.skip(p)) == r.selected_width,
        u32_at(b.skip(p + 4)) == r.selected_height,
        u32_at(b.skip(p + 8)) == codec_tag(r.selected_codec),
        parse_opt_u32(b.skip(p + 12)) == Some((q - p - 12, r.pipewire_node_id)),
        b.len() - q >= 4,
        u16_at(b.skip(q)) == r.stream_port,
        u16_at(b.skip(q + 2)) == r.input_port,
    ensures
        parse_response(b) == Some((q + 4, r)),
{
    reveal(parse_response);
}

#[verifier::rlimit(60)]
pub proof fn lemma_response_roundtrip(r: HandshakeResponseView, rest: Seq<u8>)
    requires
        response_fits(r),
    ensures
        parse_response(wire_response(r) + rest) == Some((wire_response(r).len() as int, r)),
{
    let we = wire_opt_str(r.error_message);
    let wn = wire_opt_u32(r.pipewire_node_id);
    let t7 = le16(r.input_port) + rest;
    let t6 = le16(r.stream_port) + t7;
    let t5 = wn + t6;
    let t4 = wire_codec(r.selected_codec) + t5;
    let t3 = le32(r.selected_height) + t4;
    let t2 = le32(r.selected_width) + t3;
    let t1 = we + t2;
    let b = wire_response(r) + rest;
    let w1 = wire_bool(r.accepted) + we;
    let w2 = w1 + le32(r.selected_width);
    let w3 = w2 + le32(r.selected_height);
    let w4 = w3 + wire_codec(r.selected_codec);
    let w5 = w4 + wn;
    let w6 = w5 + le16(r.stream_port);
    lemma_assoc(w6, le16(r.input_port), rest);
    lemma_assoc(w5, le16(r.stream_port), t7);
    lemma_assoc(w4, wn, t6);
    lemma_assoc(w3, wire_codec(r.selected_codec), t5);
    lemma_assoc(w2, le32(r.selected_height), t4);
    lemma_assoc(w1, le32(r.selected_width), t3);
    lemma_assoc(wire_bool(r.accepted), we, t2);
    assert(b == wire_bool(r.accepted) + t1);
    assert(b.skip(0) =~= b);
    lemma_bool_roundtrip(r.accepted, t1);
    lemma_step(b, 0, wire_bool(r.accepted), t1);
    lemma_opt_str_roundtrip(r.error_message, t2);
    lemma_step(b, 1, we, t2);
    let p: int = 1 + we.len() as int;
    lemma_le32_roundtrip(r.selected_width, t3);
    lemma_step(b, p, le32(r.selected_width), t3);
    lemma_le32_roundtrip(r.selected_height, t4);
    lemma_step(b, p + 4, le32(r.selected_height), t4);
    lemma_le32_roundtrip(codec_tag(r.selected_codec), t5);
    lemma_step(b, p + 8, wire_codec(r.selected_codec), t5);
    lemma_step_opt_u32(b, p + 12, r.pipewire_node_id, t6);
    let q: int = p + 12 + wn.len() as int;
    lemma_le16_roundtrip(r.stream_port, t7);
    lemma_step(b, q, le16(r.stream_port), t7);
    lemma_le16_roundtrip(r.input_port, rest);
    lemma_parse_response_fields(b, r, p, q);
}

proof fn lemma_payload_request_roundtrip(r: HandshakeRequestView, rest: Seq<u8>)
    requires
        request_fits(r),
    ensures
        ({
            let p = PayloadView::HandshakeReq(r);
            parse_payload(wire_payload(p) + rest) == Some((wire_payload(p).len() as int, p))
        }),
{
    reveal(parse_payload);
    let b = wire_payload(PayloadView::HandshakeReq(r)) + rest;
    assert(b.subrange(0, 4) =~= le32(0));
    lemma_u32_field(b, 0, 0);
    assert(b.skip(0) =~= b);
    assert(b.skip(4) =~= wire_request(r) + rest);
    lemma_request_roundtrip(r, rest);
}

proof fn lemma_payload_response_roundtrip(r: HandshakeResponseView, rest: Seq<u8>)
    requires
        response_fits(r),
    ensures
        ({
            let p = PayloadView::HandshakeResp(r);
            parse_payload(wire_payload(p) + rest) == Some((wire_payload(p).len() as int, p))
        }),
{
    reveal(parse_payload);
    let b = wire_payload(PayloadView::HandshakeResp(r)) + rest;
    assert(b.subrange(0, 4) =~= le32(1));
    lemma_u32_field(b, 0, 1);
    assert(b.skip(0) =~= b);
    assert(b.skip(4) =~= wire_response(r) + rest);
    lemma_response_roundtrip(r, rest);
}

proof fn lemma_payload_input_roundtrip(e: InputEventView, rest: Seq<u8>)
    requires
        input_fits(e),
    ensures
        ({
            let p = PayloadView::InputData(e);
            parse_payload(wire_payload(p) + rest) == Some((wire_payload(p).len() as int, p))
        }),
{
    reveal(parse_payload);
    let b = wire_payload(PayloadView::InputData(e)) + rest;
    assert(b.subrange(0, 4) =~= le32(2));
    lemma_u32_field(b, 0, 2);
    assert(b.skip(0) =~= b);
    assert(b.skip(4) =~= wire_input(e) + rest);
    lemma_input_roundtrip(e, rest);
}

proof fn lemma_payload_fixed_roundtrip(p: PayloadView, rest: Seq<u8>)
    requires
        p is Ping || p is Pong || p is Disconnect,
    ensures
        parse_payload(wire_payload(p) + rest) == Some((wire_payload(p).len() as int, p)),
{
    reveal(parse_payload);
    let b = wire_payload(p) + rest;
    assert(b.skip(0) =~= b);
    match p {
        PayloadView::Ping { sequence, timestamp_us } => {
            assert(b.subrange(0, 4) =~= le32(3));
            assert(b.subrange(4, 12) =~= le64(sequence));
            assert(b.subrange(12, 20) =~= le64(timestamp_us));
            lemma_u32_field(b, 0, 3);
            lemma_u64_field(b, 4, sequence);
            lemma_u64_field(b, 12, timestamp_us);
        },
        PayloadView::Pong { sequence, timestamp_us } => {
            assert(b.subrange(0, 4) =~= le32(4));
            assert(b.subrange(4, 12) =~= le64(sequence));
            assert(b.subrange(12, 20) =~= le64(timestamp_us));
            lemma_u32_field(b, 0, 4);
            lemma_u64_field(b, 4, sequence);
            lemma_u64_field(b, 12, timestamp_us);
        },
        _ => {
            assert(b.subrange(0, 4) =~= le32(5));
            lemma_u32_field(b, 0, 5);
        },
    }
}

pub proof fn lemma_payload_roundtrip(p: PayloadView, rest: Seq<u8>)
    requires
        payload_fits(p),
    ensures
        parse_payload(wire_payload(p) + rest) == Some((wire_payload(p).len() as int, p)),
{
    match p {
        PayloadView::HandshakeReq(r) => lemma_payload_request_roundtrip(r, rest),
        PayloadView::HandshakeResp(r) => lemma_payload_response_roundtrip(r, rest),
        PayloadView::InputData(e) => lemma_payload_input_roundtrip(e, rest),
        _ => lemma_payload_fixed_roundtrip(p, rest),
    }
}

pub proof fn lemma_packet_roundtrip(p: PacketView, rest: Seq<u8>)
    requires
        payload_fits(p.payload),
    ensures
        parse_packet(wire_packet(p) + rest) == Some((wire_packet(p).len() as int, p)),
{
    let b = wire_packet(p) + rest;
    assert(b.subrange(0, 4) =~= le32(p.magic));
    assert(b.subrange(4, 6) =~= le16(p.version));
    lemma_u32_field(b, 0, p.magic);
    lemma_u16_field(b, 4, p.version);
    assert(b.skip(0) =~= b);
    assert(b.skip(6) =~= wire_payload(p.payload) + rest);
    lemma_payload_roundtrip(p.payload, rest);
}

pub proof fn lemma_legacy_header_roundtrip(h: LegacyPacketHeader, rest: Seq<u8>)
    ensures
        parse_legacy_header(wire_legacy_header(h) + rest) == Some((34int, h)),
        wire_legacy_header(h).len() == 34,
{
    let t6 = le32(h.checksum) + rest;
    let t5 = le32(h.payload_len) + t6;
    let t4 = le64(h.timestamp_us) + t5;
    let t3 = le64(h.sequence) + t4;
    let t2 = le32(legacy_type_tag(h.packet_type)) + t3;
    let t1 = le16(h.version) + t2;
    let b = wire_legacy_header(h) + rest;
    assert(b =~= le32(h.magic) + t1);
    assert(b.skip(0) =~= b);
    lemma_le32_roundtrip(h.magic, t1);
    lemma_step(b, 0, le32(h.magic), t1);
    lemma_le16_roundtrip(h.version, t2);
    lemma_step(b, 4, le16(h.version), t2);
    lemma_le32_roundtrip(legacy_type_tag(h.packet_type), t3);
    lemma_step(b, 6, le32(legacy_type_tag(h.packet_type)), t3);
    lemma_le64_roundtrip(h.sequence, t4);
    lemma_step(b, 10, le64(h.sequence), t4);
    lemma_le64_roundtrip(h.timestamp_us, t5);
    lemma_step(b, 18, le64(h.timestamp_us), t5);
    lemma_le32_roundtrip(h.payload_len, t6);
    lemma_step(b, 26, le32(h.payload_len), t6);
    lemma_le32_roundtrip(h.checksum, rest);
}


// ----------------------------------------------------------------------------
// What is read is the encoding of what comes out.
// ----------------------------------------------------------------------------
pub proof fn lemma_codec_list_canonical(b: Seq<u8>)
    requires
        parse_codec_list(b) is Some,
    ensures
        parse_codec_list(b) matches Some((n, cs)) && 0 <= n <= b.len() && cs.len() <= u64::MAX
            && b.take(n) == wire_codec_list(cs),
{
    reveal(parse_codec_list);
    let count = u64_at(b);
    let cs = Seq::new(count as nat, |i: int| codec_entry(b, i)->0);
    lemma_codec_list_body(cs);
    let body = codec_list_body(cs);
    assert forall|i: int| 0 <= i < count implies #[trigger] b.subrange(8 + 4 * i, 8 + 4 * i + 4)
        == body.subrange(4 * i, 4 * i + 4) by {
        lemma_u32_field_canonical(b, 8 + 4 * i);
        assert(codec_entry(b, i) is Some);
        assert(codec_tag(cs[i]) == u32_at(b.skip(8 + 4 * i)));
    }
    assert forall|j: int| 0 <= j < 4 * count implies #[trigger] body[j] == b[8 + j] by {
        let i = j / 4;
        assert(0 <= i < count);
        assert(b.subrange(8 + 4 * i, 8 + 4 * i + 4)[j - 4 * i] == b[8 + j]);
        assert(body.subrange(4 * i, 4 * i + 4)[j - 4 * i] == body[j]);
    }
    assert(b.subrange(8, 8 + 4 * count) =~= body);
    lemma_u64_field_canonical(b, 0);
    lemma_take_extend(b, 8, 8 + 4 * count, le64(count), body);
}

pub proof fn lemma_request_canonical(b: Seq<u8>)
    requires
        parse_request(b) is Some,
    ensures
        parse_request(b) matches Some((n, r)) && 0 <= n <= b.len() && request_fits(r) && b.take(n)
            == wire_request(r),
{
    reveal(parse_request);
    lemma_str_canonical(b);
    let (n1, name) = parse_str(b)->0;
    let w = u32_at(b.skip(n1));
    let h = u32_at(b.skip(n1 + 4));
    let rr = u32_at(b.skip(n1 + 8));
    lemma_u32_field_canonical(b, n1);
    lemma_u32_field_canonical(b, n1 + 4);
    lemma_u32_field_canonical(b, n1 + 8);
    let x1 = wire_str(name) + le32(w);
    let x2 = x1 + le32(h);
    let x3 = x2 + le32(rr);
    lemma_take_extend(b, n1, n1 + 4, wire_str(name), le32(w));
    lemma_take_extend(b, n1 + 4, n1 + 8, x1, le32(h));
    lemma_take_extend(b, n1 + 8, n1 + 12, x2, le32(rr));
    let p2 = n1 + 12;
    lemma_codec_list_canonical(b.skip(p2));
    let (n2, cs) = parse_codec_list(b.skip(p2))->0;
    lemma_skip_take(b, p2, n2);
    lemma_take_extend(b, p2, p2 + n2, x3, wire_codec_list(cs));
    let p3 = p2 + n2;
    lemma_opt_str_canonical(b.skip(p3));
    let (n3, tok) = parse_opt_str(b.skip(p3))->0;
    lemma_skip_take(b, p3, n3);
    lemma_take_extend(b, p3, p3 + n3, x3 + wire_codec_list(cs), wire_opt_str(tok));
}

pub proof fn lemma_response_canonical(b: Seq<u8>)
    requires
        parse_response(b) is Some,
    ensures
        parse_response(b) matches Some((n, r)) && 0 <= n <= b.len() && response_fits(r) && b.take(
            n,
        ) == wire_response(r),
{
    reveal(parse_response);
    lemma_bool_canonical(b);
    let (_, accepted) = parse_bool(b)->0;
    lemma_opt_str_canonical(b.skip(1));
    let (n1, em) = parse_opt_str(b.skip(1))->0;
    lemma_skip_take(b, 1, n1);
    lemma_take_extend(b, 1, 1 + n1, wire_bool(accepted), wire_opt_str(em));
    let p = 1 + n1;
    let x1 = wire_bool(accepted) + wire_opt_str(em);
    let w = u32_at(b.skip(p));
    let h = u32_at(b.skip(p + 4));
    let t = u32_at(b.skip(p + 8));
    lemma_u32_field_canonical(b, p);
    lemma_u32_field_canonical(b, p + 4);
    lemma_u32_field_canonical(b, p + 8);
    let codec = codec_of_tag(t)->0;
    assert(codec_tag(codec) == t);
    let x2 = x1 + le32(w);
    let x3 = x2 + le32(h);
    let x4 = x3 + wire_codec(codec);
    lemma_take_extend(b, p, p + 4, x1, le32(w));
    lemma_take_extend(b, p + 4, p + 8, x2, le32(h));
    lemma_take_extend(b, p + 8, p + 12, x3, wire_codec(codec));
    lemma_opt_u32_canonical(b.skip(p + 12));
    let (n2, node) = parse_opt_u32(b.skip(p + 12))->0;
    lemma_skip_take(b, p + 12, n2);
    lemma_take_extend(b, p + 12, p + 12 + n2, x4, wire_opt_u32(node));
    let q = p + 12 + n2;
    let x5 = x4 + wire_opt_u32(node);
    lemma_u16_field_canonical(b, q);
    lemma_u16_field_canonical(b, q + 2);
    let sp = u16_at(b.skip(q));
    let ip = u16_at(b.skip(q + 2));
    lemma_take_extend(b, q, q + 2, x5, le16(sp));
    lemma_take_extend(b, q + 2, q + 4, x5 + le16(sp), le16(ip));
}

pub proof fn lemma_payload_canonical(b: Seq<u8>)
    requires
        parse_payload(b) is Some,
    ensures
        parse_payload(b) matches Some((n, p)) && 0 <= n <= b.len() && payload_fits(p) && b.take(n)
            == wire_payload(p),
{
    reveal(parse_payload);
    lemma_u32_field_canonical(b, 0);
    let t = u32_at(b);
    if t == 0 {
        lemma_request_canonical(b.skip(4));
        let (n, r) = parse_request(b.skip(4))->0;
        lemma_skip_take(b, 4, n);
        lemma_take_extend(b, 4, 4 + n, le32(0), wire_request(r));
    } else if t == 1 {
        lemma_response_canonical(b.skip(4));
        let (n, r) = parse_response(b.skip(4))->0;
        lemma_skip_take(b, 4, n);
        lemma_take_extend(b, 4, 4 + n, le32(1), wire_response(r));
    } else if t == 2 {
        lemma_input_canonical(b.skip(4));
        let (n, e) = parse_input(b.skip(4))->0;
        lemma_skip_take(b, 4, n);
        lemma_take_extend(b, 4, 4 + n, le32(2), wire_input(e));
    } else if t == 3 || t == 4 {
        lemma_u64_field_canonical(b, 4);
        lemma_u64_field_canonical(b, 12);
        let s = u64_at(b.skip(4));
        let ts = u64_at(b.skip(12));
        lemma_take_extend(b, 4, 12, le32(t), le64(s));
        lemma_take_extend(b, 12, 20, le32(t) + le64(s), le64(ts));
    } else {
    }
}

pub proof fn lemma_packet_canonical(b: Seq<u8>)
    requires
        parse_packet(b) is Some,
    ensures
        parse_packet(b) matches Some((n, p)) && 0 <= n <= b.len() && payload_fits(p.payload)
            && b.take(n) == wire_packet(p),
{
    lemma_u32_field_canonical(b, 0);
    lemma_u16_field_canonical(b, 4);
    let magic = u32_at(b);
    let version = u16_at(b.skip(4));
    lemma_take_extend(b, 4, 6, le32(magic), le16(version));
    lemma_payload_canonical(b.skip(6));
    let (n, payload) = parse_payload(b.skip(6))->0;
    lemma_skip_take(b, 6, n);
    lemma_take_extend(b, 6, 6 + n, le32(magic) + le16(version), wire_payload(payload));
}

// ----------------------------------------------------------------------------
// Laws of the packet layer.
// ----------------------------------------------------------------------------
/// Decoding the current encoding of a packet of this protocol gives the packet
/// back, flagged as current.
pub proof fn law_decode_encode(p: PacketView)
    requires
        p.magic == EXTENDER_PROTOCOL_MAGIC,
        p.version == EXTENDER_PROTOCOL_VERSION,
        payload_fits(p.payload),
    ensures
        decode_spec(wire_packet(p)) == Some((p, false)),
{
    lemma_packet_roundtrip(p, Seq::empty());
    assert(wire_packet(p) + Seq::empty() =~= wire_packet(p));
}

/// Followed by more bytes, the current encoding of a packet of this protocol
/// still decodes as the packet, flagged as current, as long as the whole is
/// not a message in the older framing.
pub proof fn law_decode_encode_followed(p: PacketView, rest: Seq<u8>)
    requires
        p.magic == EXTENDER_PROTOCOL_MAGIC,
        p.version == EXTENDER_PROTOCOL_VERSION,
        payload_fits(p.payload),
        legacy_decode(wire_packet(p) + rest) is None,
    ensures
        decode_spec(wire_packet(p) + rest) == Some((p, false)),
{
    lemma_packet_roundtrip(p, rest);
}

/// Bytes as long as a header of the older framing, whose variant number in the
/// current framing is that of a ping, a pong or a disconnect or none at all,
/// are never exactly a current packet: such a packet takes at most 26 bytes.
pub proof fn lemma_short_current_read(b: Seq<u8>)
    requires
        b.len() >= 34,
        u32_at(b.skip(6)) >= 3,
    ensures
        !whole_current_packet(b),
{
    reveal(parse_payload);
}

/// A handshake response in the older framing, with sequence 1 and timestamp 0
/// as `encode_legacy` writes it, is never exactly a current packet: read in the
/// current framing it is a response without message or node that ends 29 bytes
/// in, before the header does.
pub proof fn lemma_legacy_response_not_current(r: HandshakeResponseView, checksum: u32)
    ensures
        !whole_current_packet(
            legacy_frame(LegacyPacketType::HandshakeResp, 1, 0, wire_response(r), checksum),
        ),
{
    reveal(parse_payload);
    reveal(parse_response);
    let b = legacy_frame(LegacyPacketType::HandshakeResp, 1, 0, wire_response(r), checksum);
    let h = legacy_header_of(
        LegacyPacketType::HandshakeResp,
        1,
        0,
        wire_response(r).len() as u32,
        checksum,
    );
    assert((1u64 & 0xff) == 1u64) by (bit_vector);
    assert(((1u64 >> 8u64) & 0xff) == 0u64) by (bit_vector);
    assert(((0u64 >> 48u64) & 0xff) == 0u64) by (bit_vector);
    assert(b[10] == le64(1)[0]);
    assert(b[11] == le64(1)[1]);
    assert(b[24] == le64(0)[6]);
    assert(b.subrange(6, 10) =~= le32(1));
    lemma_u32_field(b, 6, 1);
    let c = b.skip(10);
    assert(b.skip(6).skip(4) =~= c);
    assert(c.skip(1)[0] == b[11]);
    assert(c.skip(14)[0] == b[24]);
    assert(parse_bool(c) == Some((1int, true)));
    assert(parse_opt_str(c.skip(1)) == Some((1int, None::<Seq<char>>)));
    assert(parse_opt_u32(c.skip(14)) == Some((1int, None::<u32>)));
    assert(parse_response(c) matches Some((n, _)) ==> n == 19);
}

/// Every packet that decoding yields, in either framing, carries this
/// protocol's magic and version.
pub proof fn law_decoded_packets_are_current(b: Seq<u8>)
    ensures
        decode_spec(b) matches Some((p, _)) ==> p.magic == EXTENDER_PROTOCOL_MAGIC && p.version
            == EXTENDER_PROTOCOL_VERSION,
{
}

/// A header with the protocol's magic and the request type, followed by a
/// request's bytes, decodes as that request, flagged as the older framing,
/// unless the bytes are also exactly a current packet.
pub proof fn law_legacy_request(h: LegacyPacketHeader, r: HandshakeRequestView, rest: Seq<u8>)
    requires
        h.magic == EXTENDER_PROTOCOL_MAGIC,
        h.packet_type == LegacyPacketType::HandshakeReq,
        request_fits(r),
        !whole_current_packet(wire_legacy_header(h) + wire_request(r) + rest),
    ensures
        decode_spec(wire_legacy_header(h) + wire_request(r) + rest) == Some(
            (packet_of(PayloadView::HandshakeReq(r)), true),
        ),
{
    let b = wire_legacy_header(h) + wire_request(r) + rest;
    lemma_assoc(wire_legacy_header(h), wire_request(r), rest);
    lemma_legacy_header_roundtrip(h, wire_request(r) + rest);
    assert(b.skip(0) =~= b);
    lemma_step(b, 0, wire_legacy_header(h), wire_request(r) + rest);
    lemma_request_roundtrip(r, rest);
}

/// A header with the protocol's magic and the response type, followed by a
/// response's bytes, decodes as that response, flagged as the older framing,
/// unless the bytes are also exactly a current packet.
pub proof fn law_legacy_response(h: LegacyPacketHeader, r: HandshakeResponseView, rest: Seq<u8>)
    requires
        h.magic == EXTENDER_PROTOCOL_MAGIC,
        h.packet_type == LegacyPacketType::HandshakeResp,
        response_fits(r),
        !whole_current_packet(wire_legacy_header(h) + wire_response(r) + rest),
    ensures
        decode_spec(wire_legacy_header(h) + wire_response(r) + rest) == Some(
            (packet_of(PayloadView::HandshakeResp(r)), true),
        ),
{
    let b = wire_legacy_header(h) + wire_response(r) + rest;
    lemma_assoc(wire_legacy_header(h), wire_response(r), rest);
    lemma_legacy_header_roundtrip(h, wire_response(r) + rest);
    assert(b.skip(0) =~= b);
    lemma_step(b, 0, wire_legacy_header(h), wire_response(r) + rest);
    lemma_response_roundtrip(r, rest);
}

/// A header with the protocol's magic and the input type, followed by an
/// event's bytes, decodes as that event, flagged as the older framing.
pub proof fn law_legacy_input(h: LegacyPacketHeader, e: InputEventView, rest: Seq<u8>)
    requires
        h.magic == EXTENDER_PROTOCOL_MAGIC,
        h.packet_type == LegacyPacketType::InputData,
        input_fits(e),
    ensures
        decode_spec(wire_legacy_header(h) + wire_input(e) + rest) == Some(
            (packet_of(PayloadView::InputData(e)), true),
        ),
{
    let b = wire_legacy_header(h) + wire_input(e) + rest;
    lemma_assoc(wire_legacy_header(h), wire_input(e), rest);
    lemma_legacy_header_roundtrip(h, wire_input(e) + rest);
    assert(b.skip(0) =~= b);
    lemma_step(b, 0, wire_legacy_header(h), wire_input(e) + rest);
    lemma_input_roundtrip(e, rest);
    assert(b.subrange(6, 10) =~= le32(3));
    lemma_u32_field(b, 6, 3);
    lemma_short_current_read(b);
}

/// In the older framing, a ping, pong or disconnect is a header alone: with the
/// protocol's magic it decodes as that message, flagged as the older framing,
/// carrying the header's sequence and timestamp; video data is not a packet.
pub proof fn law_legacy_header_messages(h: LegacyPacketHeader, rest: Seq<u8>)
    requires
        h.magic == EXTENDER_PROTOCOL_MAGIC,
    ensures
        h.packet_type == LegacyPacketType::Ping ==> decode_spec(wire_legacy_header(h) + rest)
            == Some(
            (
                packet_of(PayloadView::Ping { sequence: h.sequence, timestamp_us: h.timestamp_us }),
                true,
            ),
        ),
        h.packet_type == LegacyPacketType::Pong ==> decode_spec(wire_legacy_header(h) + rest)
            == Some(
            (
                packet_of(PayloadView::Pong { sequence: h.sequence, timestamp_us: h.timestamp_us }),
                true,
            ),
        ),
        h.packet_type == LegacyPacketType::Disconnect ==> decode_spec(
            wire_legacy_header(h) + rest,
        ) == Some((packet_of(PayloadView::Disconnect), true)),
        h.packet_type == LegacyPacketType::VideoData ==> legacy_decode(
            wire_legacy_header(h) + rest,
        ) is None,
{
    lemma_legacy_header_roundtrip(h, rest);
    let b = wire_legacy_header(h) + rest;
    let t = legacy_type_tag(h.packet_type);
    assert(b.subrange(6, 10) =~= le32(t));
    lemma_u32_field(b, 6, t);
    if t >= 3 {
        lemma_short_current_read(b);
    }
}


/// What decoding reads in the current framing is exactly the encoding of the
/// packet it yields: the packet's bytes start the input. Together with
/// [`law_decode_encode`], a packet decodes from the bytes it is written as and
/// from no other first bytes.
pub proof fn law_current_decoding_reads_an_encoding(b: Seq<u8>)
    ensures
        decode_spec(b) matches Some((p, false)) ==> payload_fits(p.payload) && wire_packet(p).len()
            <= b.len() && b.take(wire_packet(p).len() as int) == wire_packet(p),
{
    if parse_packet(b) is Some {
        lemma_packet_canonical(b);
    }
}

/// What `encode_legacy` writes decodes back as the packet: flagged as the
/// older framing for a handshake response and a pong, which it frames that way,
/// and as current for every other packet, which it writes in the current framing.
pub proof fn law_decode_encode_legacy(payload: PayloadView)
    requires
        payload_fits(payload),
    ensures
        decode_spec(wire_legacy(packet_of(payload))) == Some(
            (packet_of(payload), payload is HandshakeResp || payload is Pong),
        ),
{
    let p = packet_of(payload);
    match payload {
        PayloadView::HandshakeResp(r) => {
            let c = crc32_of(wire_response(r));
            let h = legacy_header_of(
                LegacyPacketType::HandshakeResp,
                1,
                0,
                wire_response(r).len() as u32,
                c,
            );
            assert(wire_legacy_header(h) + wire_response(r) + Seq::empty() =~= wire_legacy(p));
            lemma_legacy_response_not_current(r, c);
            law_legacy_response(h, r, Seq::empty());
        },
        PayloadView::Pong { sequence, timestamp_us } => {
            let h = legacy_header_of(LegacyPacketType::Pong, sequence, timestamp_us, 0, 0);
            assert(wire_legacy_header(h) + Seq::empty() =~= wire_legacy(p));
            law_legacy_header_messages(h, Seq::empty());
        },
        _ => {
            law_decode_encode(p);
        },
    }
}

// ----------------------------------------------------------------------------
// The variant numbers, as the wire carries them.
// ----------------------------------------------------------------------------
/// A codec travels as the position of its variant in the declaration
/// `H264Vaapi, H264Nvenc, H264Software, H265Vaapi, H265Nvenc, Vp8, Vp9, Av1`,
/// counted from 0, as a little-endian `u32`; each of those numbers, and no
/// other, reads back as that codec.
pub proof fn law_codec_numbers(c: VideoCodec, t: u32)
    ensures
        wire_codec(c) == le32(
            match c {
                VideoCodec::H264Vaapi => 0u32,
                VideoCodec::H264Nvenc => 1u32,
                VideoCodec::H264Software => 2u32,
                VideoCodec::H265Vaapi => 3u32,
                VideoCodec::H265Nvenc => 4u32,
                VideoCodec::Vp8 => 5u32,
                VideoCodec::Vp9 => 6u32,
                VideoCodec::Av1 => 7u32,
            },
        ),
        codec_of_tag(t) is Some <==> t < 8,
        codec_of_tag(t) matches Some(d) ==> codec_tag(d) == t,
{
}

/// A packet's payload starts with the position of its variant in the
/// declaration `HandshakeReq, HandshakeResp, InputData, Ping, Pong,
/// Disconnect`, counted from 0, as a little-endian `u32`, right after the
/// packet's magic and version.
pub proof fn law_payload_numbers(p: PacketView)
    ensures
        wire_packet(p).subrange(6, 10) == le32(
            match p.payload {
                PayloadView::HandshakeReq(_) => 0u32,
                PayloadView::HandshakeResp(_) => 1u32,
                PayloadView::InputData(_) => 2u32,
                PayloadView::Ping { .. } => 3u32,
                PayloadView::Pong { .. } => 4u32,
                PayloadView::Disconnect => 5u32,
            },
        ),
        wire_packet(p).take(6) == le32(p.magic) + le16(p.version),
{
    let n: u32 = match p.payload {
        PayloadView::HandshakeReq(_) => 0u32,
        PayloadView::HandshakeResp(_) => 1u32,
        PayloadView::InputData(_) => 2u32,
        PayloadView::Ping { .. } => 3u32,
        PayloadView::Pong { .. } => 4u32,
        PayloadView::Disconnect => 5u32,
    };
    let w = wire_payload(p.payload);
    assert(w =~= le32(n) + w.skip(4));
    assert(wire_packet(p).subrange(6, 10) =~= le32(n));
    assert(wire_packet(p).take(6) =~= le32(p.magic) + le16(p.version));
}

/// In the older framing a message's type travels after the magic and the
/// version as the position of its variant in the declaration `HandshakeReq,
/// HandshakeResp, VideoData, InputData, Ping, Pong, Disconnect`, counted from
/// 0, as a little-endian `u32`; each of those numbers, and no other, reads back
/// as that type.
pub proof fn law_legacy_type_numbers(h: LegacyPacketHeader, t: u32)
    ensures
        wire_legacy_header(h).subrange(6, 10) == le32(
            match h.packet_type {
                LegacyPacketType::HandshakeReq => 0u32,
                LegacyPacketType::HandshakeResp => 1u32,
                LegacyPacketType::VideoData => 2u32,
                LegacyPacketType::InputData => 3u32,
                LegacyPacketType::Ping => 4u32,
                LegacyPacketType::Pong => 5u32,
                LegacyPacketType::Disconnect => 6u32,
            },
        ),
        legacy_type_of_tag(t) is Some <==> t < 7,
        legacy_type_of_tag(t) matches Some(k) ==> legacy_type_tag(k) == t,
{
    assert(wire_legacy_header(h).subrange(6, 10) =~= le32(legacy_type_tag(h.packet_type)));
}

/// The 34 bytes of an older header alone: the protocol magic, any version,
/// type number 4, 5 or 6, a sequence, a timestamp, a length and a checksum.
pub open spec fn raw_legacy_header(
    version: u16,
    type_number: u32,
    sequence: u64,
    timestamp_us: u64,
    payload_len: u32,
    checksum: u32,
) -> Seq<u8> {
    le32(EXTENDER_PROTOCOL_MAGIC) + le16(version) + le32(type_number) + le64(sequence) + le64(
        timestamp_us,
    ) + le32(payload_len) + le32(checksum)
}

/// An older peer's header alone, whatever follows it, decodes by its type
/// number: 4 is a ping and 5 a pong, each carrying the header's sequence and
/// timestamp, and 6 is a disconnect, all flagged as the older framing; 2 (video
/// data) is no message of the older framing.
pub proof fn law_legacy_header_bytes(
    version: u16,
    sequence: u64,
    timestamp_us: u64,
    payload_len: u32,
    checksum: u32,
    rest: Seq<u8>,
)
    ensures
        decode_spec(
            raw_legacy_header(version, 4, sequence, timestamp_us, payload_len, checksum) + rest,
        ) == Some((packet_of(PayloadView::Ping { sequence, timestamp_us }), true)),
        decode_spec(
            raw_legacy_header(version, 5, sequence, timestamp_us, payload_len, checksum) + rest,
        ) == Some((packet_of(PayloadView::Pong { sequence, timestamp_us }), true)),
        decode_spec(
            raw_legacy_header(version, 6, sequence, timestamp_us, payload_len, checksum) + rest,
        ) == Some((packet_of(PayloadView::Disconnect), true)),
        legacy_decode(
            raw_legacy_header(version, 2, sequence, timestamp_us, payload_len, checksum) + rest,
        ) is None,
{
    let mk = |k: LegacyPacketType|
        LegacyPacketHeader {
            magic: EXTENDER_PROTOCOL_MAGIC,
            version,
            packet_type: k,
            sequence,
            timestamp_us,
            payload_len,
            checksum,
        };
    assert(wire_legacy_header(mk(LegacyPacketType::Ping)) == raw_legacy_header(
        version, 4, sequence, timestamp_us, payload_len, checksum));
    assert(wire_legacy_header(mk(LegacyPacketType::Pong)) == raw_legacy_header(
        version, 5, sequence, timestamp_us, payload_len, checksum));
    assert(wire_legacy_header(mk(LegacyPacketType::Disconnect)) == raw_legacy_header(
        version, 6, sequence, timestamp_us, payload_len, checksum));
    assert(wire_legacy_header(mk(LegacyPacketType::VideoData)) == raw_legacy_header(
        version, 2, sequence, timestamp_us, payload_len, checksum));
    law_legacy_header_messages(mk(LegacyPacketType::Ping), rest);
    law_legacy_header_messages(mk(LegacyPacketType::Pong), rest);
    law_legacy_header_messages(mk(LegacyPacketType::Disconnect), rest);
    law_legacy_header_messages(mk(LegacyPacketType::VideoData), rest);
}

} // verus!
