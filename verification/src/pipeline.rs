//! GStreamer pipeline descriptions: the host's capture-and-encode pipeline and
//! the client's decode-and-display pipeline, as passed to `gst-launch-1.0`.
use crate::protocol::VideoCodec;
use crate::text::{contains_text, decimal, decimal_string};
use vstd::prelude::*;

verus! {

/// Whether the bitrate can be given to the encoder: VP8 and VP9 take bits per
/// second, which must fit in 32 bits.
pub open spec fn bitrate_fits(codec: VideoCodec, bitrate_kbps: u32) -> bool {
    (codec == VideoCodec::Vp8 || codec == VideoCodec::Vp9) ==> bitrate_kbps * 1000 <= u32::MAX
}

/// The conversion and encoder elements for a codec at a bitrate in kbit/s.
pub open spec fn encoder_element(codec: VideoCodec, bitrate_kbps: u32) -> Seq<char> {
    match codec {
        VideoCodec::H264Vaapi => "videoconvert ! video/x-raw,format=NV12 ! vaapih264enc bitrate="@
            + decimal(bitrate_kbps as nat) + " rate-control=cbr tune=low-latency"@,
        VideoCodec::H264Nvenc => "videoconvert ! video/x-raw,format=NV12 ! nvh264enc bitrate="@
            + decimal(bitrate_kbps as nat) + " preset=low-latency-hq rc-mode=cbr"@,
        VideoCodec::H264Software => "videoconvert ! video/x-raw,format=I420 ! x264enc bitrate="@
            + decimal(bitrate_kbps as nat)
            + " speed-preset=ultrafast tune=zerolatency bframes=0 key-int-max=30"@,
        VideoCodec::H265Vaapi => "videoconvert ! video/x-raw,format=NV12 ! vaapih265enc bitrate="@
            + decimal(bitrate_kbps as nat) + " rate-control=cbr tune=low-latency"@,
        VideoCodec::H265Nvenc => "videoconvert ! video/x-raw,format=NV12 ! nvh265enc bitrate="@
            + decimal(bitrate_kbps as nat) + " preset=low-latency-hq rc-mode=cbr"@,
        VideoCodec::Vp8 => "videoconvert ! video/x-raw,format=I420 ! vp8enc target-bitrate="@
            + decimal((bitrate_kbps * 1000) as nat) + " deadline=1 cpu-used=8"@,
        VideoCodec::Vp9 => "videoconvert ! video/x-raw,format=I420 ! vp9enc target-bitrate="@
            + decimal((bitrate_kbps * 1000) as nat) + " deadline=1 cpu-used=8"@,
        VideoCodec::Av1 => "videoconvert ! video/x-raw,format=I420 ! rav1eenc speed=10 low-latency=true bitrate="@
            + decimal(bitrate_kbps as nat),
    }
}

/// The RTP payloader element for a codec.
pub open spec fn payloader_element(codec: VideoCodec) -> Seq<char> {
    match codec {
        VideoCodec::H264Vaapi | VideoCodec::H264Nvenc | VideoCodec::H264Software =>
            "rtph264pay config-interval=1 pt=96"@,
        VideoCodec::H265Vaapi | VideoCodec::H265Nvenc => "rtph265pay config-interval=1 pt=96"@,
        VideoCodec::Vp8 => "rtpvp8pay pt=96"@,
        VideoCodec::Vp9 => "rtpvp9pay pt=96"@,
        VideoCodec::Av1 => "rtpav1pay pt=96"@,
    }
}

/// The PipeWire source's target: the node when one is known (non-zero), else
/// the client name under which PipeWire offers the active stream.
pub open spec fn pipewire_target(node_id: u32) -> Seq<char> {
    if node_id > 0 {
        "path="@ + decimal(node_id as nat)
    } else {
        "client-name=ExtenderHost"@
    }
}

/// The host's pipeline: capture from PipeWire, encode, packetize as RTP and
/// send over UDP to the client.
pub open spec fn encoder_pipeline(
    codec: VideoCodec,
    bitrate_kbps: u32,
    node_id: u32,
    target_ip: Seq<char>,
    target_port: u16,
) -> Seq<char> {
    "pipewiresrc "@ + pipewire_target(node_id) + " do-timestamp=true keepalive-time=1000 ! "@
        + encoder_element(codec, bitrate_kbps) + " ! "@ + payloader_element(codec)
        + " ! udpsink host="@ + target_ip + " port="@ + decimal(target_port as nat)
        + " sync=false async=false"@
}

/// The RTP depayloader (and parser) and the decoder for a codec.
pub open spec fn depayloader_element(codec: VideoCodec) -> Seq<char> {
    match codec {
        VideoCodec::H264Vaapi | VideoCodec::H264Nvenc | VideoCodec::H264Software =>
            "rtph264depay ! h264parse"@,
        VideoCodec::H265Vaapi | VideoCodec::H265Nvenc => "rtph265depay ! h265parse"@,
        VideoCodec::Vp8 => "rtpvp8depay"@,
        VideoCodec::Vp9 => "rtpvp9depay"@,
        VideoCodec::Av1 => "rtpav1depay"@,
    }
}

pub open spec fn decoder_element(codec: VideoCodec) -> Seq<char> {
    match codec {
        VideoCodec::H264Vaapi => "vaapih264dec"@,
        VideoCodec::H264Nvenc => "nvh264dec"@,
        VideoCodec::H264Software => "avdec_h264"@,
        VideoCodec::H265Vaapi => "vaapih265dec"@,
        VideoCodec::H265Nvenc => "nvh265dec"@,
        VideoCodec::Vp8 => "vp8dec"@,
        VideoCodec::Vp9 => "vp9dec"@,
        VideoCodec::Av1 => "dav1ddec"@,
    }
}

/// The client's pipeline: receive RTP over UDP, depayload, decode and show.
pub open spec fn decoder_pipeline(codec: VideoCodec, stream_port: u16) -> Seq<char> {
    "udpsrc port="@ + decimal(stream_port as nat) + " caps=application/x-rtp ! "@
        + depayloader_element(codec) + " ! "@ + decoder_element(codec)
        + " ! videoconvert ! autovideosink sync=false"@
}

/// The media format a codec's stream carries over RTP.
pub open spec fn rtp_format(codec: VideoCodec) -> Seq<char> {
    match codec {
        VideoCodec::H264Vaapi | VideoCodec::H264Nvenc | VideoCodec::H264Software => "h264"@,
        VideoCodec::H265Vaapi | VideoCodec::H265Nvenc => "h265"@,
        VideoCodec::Vp8 => "vp8"@,
        VideoCodec::Vp9 => "vp9"@,
        VideoCodec::Av1 => "av1"@,
    }
}

/// The client's pipeline reads what the host's pipeline sends for the same
/// codec: the host packetizes with `rtpXpay`, the client depayloads with
/// `rtpXdepay` for the same format X, and its decoder is one for X.
pub proof fn law_display_matches_encoder(codec: VideoCodec)
    ensures
        ("rtp"@ + rtp_format(codec) + "pay"@).is_prefix_of(payloader_element(codec)),
        ("rtp"@ + rtp_format(codec) + "depay"@).is_prefix_of(depayloader_element(codec)),
        contains_text(decoder_element(codec), rtp_format(codec)),
{
    reveal_strlit("rtp");
    reveal_strlit("pay");
    reveal_strlit("depay");
    reveal_strlit("h264");
    reveal_strlit("h265");
    reveal_strlit("vp8");
    reveal_strlit("vp9");
    reveal_strlit("av1");
    let f = rtp_format(codec);
    let pay = "rtp"@ + f + "pay"@;
    let depay = "rtp"@ + f + "depay"@;
    match codec {
        VideoCodec::H264Vaapi | VideoCodec::H264Nvenc | VideoCodec::H264Software => {
            reveal_strlit("rtph264pay config-interval=1 pt=96");
            reveal_strlit("rtph264depay ! h264parse");
            assert(pay =~= payloader_element(codec).subrange(0, pay.len() as int));
            assert(depay =~= depayloader_element(codec).subrange(0, depay.len() as int));
            if codec == VideoCodec::H264Vaapi {
                reveal_strlit("vaapih264dec");
                assert(decoder_element(codec).subrange(5int, 5int + f.len()) =~= f);
            } else if codec == VideoCodec::H264Nvenc {
                reveal_strlit("nvh264dec");
                assert(decoder_element(codec).subrange(2int, 2int + f.len()) =~= f);
            } else {
                reveal_strlit("avdec_h264");
                assert(decoder_element(codec).subrange(6int, 6int + f.len()) =~= f);
            }
        },
        VideoCodec::H265Vaapi | VideoCodec::H265Nvenc => {
            reveal_strlit("rtph265pay config-interval=1 pt=96");
            reveal_strlit("rtph265depay ! h265parse");
            assert(pay =~= payloader_element(codec).subrange(0, pay.len() as int));
            assert(depay =~= depayloader_element(codec).subrange(0, depay.len() as int));
            if codec == VideoCodec::H265Vaapi {
                reveal_strlit("vaapih265dec");
                assert(decoder_element(codec).subrange(5int, 5int + f.len()) =~= f);
            } else {
                reveal_strlit("nvh265dec");
                assert(decoder_element(codec).subrange(2int, 2int + f.len()) =~= f);
            }
        },
        VideoCodec::Vp8 => {
            reveal_strlit("rtpvp8pay pt=96");
            reveal_strlit("rtpvp8depay");
            reveal_strlit("vp8dec");
            assert(pay =~= payloader_element(codec).subrange(0, pay.len() as int));
            assert(depay =~= depayloader_element(codec).subrange(0, depay.len() as int));
            assert(decoder_element(codec).subrange(0int, 0int + f.len()) =~= f);
        },
        VideoCodec::Vp9 => {
            reveal_strlit("rtpvp9pay pt=96");
            reveal_strlit("rtpvp9depay");
            reveal_strlit("vp9dec");
            assert(pay =~= payloader_element(codec).subrange(0, pay.len() as int));
            assert(depay =~= depayloader_element(codec).subrange(0, depay.len() as int));
            assert(decoder_element(codec).subrange(0int, 0int + f.len()) =~= f);
        },
        VideoCodec::Av1 => {
            reveal_strlit("rtpav1pay pt=96");
            reveal_strlit("rtpav1depay");
            reveal_strlit("dav1ddec");
            assert(pay =~= payloader_element(codec).subrange(0, pay.len() as int));
            assert(depay =~= depayloader_element(codec).subrange(0, depay.len() as int));
            assert(decoder_element(codec).subrange(1int, 1int + f.len()) =~= f);
        },
    }
}

/// Text in which `q` ends at the end of `l`, followed by `d` and by text that
/// starts with a space, holds `q`, `d` and that space in a row.
proof fn lemma_setting_in(a: Seq<char>, l: Seq<char>, q: Seq<char>, d: Seq<char>, r: Seq<char>)
    requires
        q.len() <= l.len(),
        l.skip(l.len() - q.len()) == q,
        r.len() > 0,
        r[0] == ' ',
    ensures
        contains_text(a + l + d + r, q + d + " "@),
{
    reveal_strlit(" ");
    let big = a + l + d + r;
    let w = q + d + " "@;
    let i = a.len() + l.len() - q.len();
    assert(big.subrange(i, i + w.len()) =~= w);
}

/// The host's encoder is given the bitrate asked for, in kbit/s, in the unit
/// its element takes: VP8's and VP9's `target-bitrate` is in bit/s, so a
/// thousand times the number; the other encoders' `bitrate` takes the number
/// itself.
pub proof fn law_encoder_bitrate_units(
    codec: VideoCodec,
    bitrate_kbps: u32,
    node_id: u32,
    target_ip: Seq<char>,
    target_port: u16,
)
    requires
        bitrate_fits(codec, bitrate_kbps),
    ensures
        (codec == VideoCodec::Vp8 || codec == VideoCodec::Vp9) ==> contains_text(
            encoder_pipeline(codec, bitrate_kbps, node_id, target_ip, target_port),
            " target-bitrate="@ + decimal(1000 * bitrate_kbps as nat) + " "@,
        ),
        !(codec == VideoCodec::Vp8 || codec == VideoCodec::Vp9) ==> contains_text(
            encoder_pipeline(codec, bitrate_kbps, node_id, target_ip, target_port),
            " bitrate="@ + decimal(bitrate_kbps as nat) + " "@,
        ),
{
    let vp = codec == VideoCodec::Vp8 || codec == VideoCodec::Vp9;
    let q = if vp { " target-bitrate="@ } else { " bitrate="@ };
    let d = if vp { decimal(1000 * bitrate_kbps as nat) } else { decimal(bitrate_kbps as nat) };
    let a = "pipewiresrc "@ + pipewire_target(node_id) + " do-timestamp=true keepalive-time=1000 ! "@;
    let b = " ! "@ + payloader_element(codec) + " ! udpsink host="@ + target_ip + " port="@
        + decimal(target_port as nat) + " sync=false async=false"@;
    let full = encoder_pipeline(codec, bitrate_kbps, node_id, target_ip, target_port);
    reveal_strlit(" target-bitrate=");
    reveal_strlit(" bitrate=");
    reveal_strlit(" ! ");
    let (l, r): (Seq<char>, Seq<char>) = match codec {
        VideoCodec::H264Vaapi => {
            reveal_strlit("videoconvert ! video/x-raw,format=NV12 ! vaapih264enc bitrate=");
            reveal_strlit(" rate-control=cbr tune=low-latency");
            (
                "videoconvert ! video/x-raw,format=NV12 ! vaapih264enc bitrate="@,
                " rate-control=cbr tune=low-latency"@ + b,
            )
        },
        VideoCodec::H264Nvenc => {
            reveal_strlit("videoconvert ! video/x-raw,format=NV12 ! nvh264enc bitrate=");
            reveal_strlit(" preset=low-latency-hq rc-mode=cbr");
            (
                "videoconvert ! video/x-raw,format=NV12 ! nvh264enc bitrate="@,
                " preset=low-latency-hq rc-mode=cbr"@ + b,
            )
        },
        VideoCodec::H264Software => {
            reveal_strlit("videoconvert ! video/x-raw,format=I420 ! x264enc bitrate=");
            reveal_strlit(" speed-preset=ultrafast tune=zerolatency bframes=0 key-int-max=30");
            (
                "videoconvert ! video/x-raw,format=I420 ! x264enc bitrate="@,
                " speed-preset=ultrafast tune=zerolatency bframes=0 key-int-max=30"@ + b,
            )
        },
        VideoCodec::H265Vaapi => {
            reveal_strlit("videoconvert ! video/x-raw,format=NV12 ! vaapih265enc bitrate=");
            reveal_strlit(" rate-control=cbr tune=low-latency");
            (
                "videoconvert ! video/x-raw,format=NV12 ! vaapih265enc bitrate="@,
                " rate-control=cbr tune=low-latency"@ + b,
            )
        },
        VideoCodec::H265Nvenc => {
            reveal_strlit("videoconvert ! video/x-raw,format=NV12 ! nvh265enc bitrate=");
            reveal_strlit(" preset=low-latency-hq rc-mode=cbr");
            (
                "videoconvert ! video/x-raw,format=NV12 ! nvh265enc bitrate="@,
                " preset=low-latency-hq rc-mode=cbr"@ + b,
            )
        },
        VideoCodec::Vp8 => {
            reveal_strlit("videoconvert ! video/x-raw,format=I420 ! vp8enc target-bitrate=");
            reveal_strlit(" deadline=1 cpu-used=8");
            (
                "videoconvert ! video/x-raw,format=I420 ! vp8enc target-bitrate="@,
                " deadline=1 cpu-used=8"@ + b,
            )
        },
        VideoCodec::Vp9 => {
            reveal_strlit("videoconvert ! video/x-raw,format=I420 ! vp9enc target-bitrate=");
            reveal_strlit(" deadline=1 cpu-used=8");
            (
                "videoconvert ! video/x-raw,format=I420 ! vp9enc target-bitrate="@,
                " deadline=1 cpu-used=8"@ + b,
            )
        },
        VideoCodec::Av1 => {
            reveal_strlit("videoconvert ! video/x-raw,format=I420 ! rav1eenc speed=10 low-latency=true bitrate=");
            ("videoconvert ! video/x-raw,format=I420 ! rav1eenc speed=10 low-latency=true bitrate="@, b)
        },
    };
    assert(full =~= a + l + d + r);
    assert(l.skip(l.len() - q.len()) =~= q);
    lemma_setting_in(a, l, q, d, r);
}

/// What a text holds, any text with it in the middle holds too.
proof fn lemma_contains_lift(a: Seq<char>, x: Seq<char>, b: Seq<char>, q: Seq<char>)
    requires
        contains_text(x, q),
    ensures
        contains_text(a + x + b, q),
{
    let i = choose|i: int|
        0 <= i && i + q.len() <= x.len() && #[trigger] x.subrange(i, i + q.len()) == q;
    let big = a + x + b;
    assert(big.subrange(a.len() + i, a.len() + i + q.len()) =~= x.subrange(i, i + q.len()));
}

/// The encoder element the host runs for each codec: VA-API, NVENC or
/// software H.264 and H.265 encoders for the codecs named so, `vp8enc`,
/// `vp9enc`, and `rav1eenc` for AV1.
pub proof fn law_encoder_of_codec(
    codec: VideoCodec,
    bitrate_kbps: u32,
    node_id: u32,
    target_ip: Seq<char>,
    target_port: u16,
)
    ensures
        contains_text(
            encoder_pipeline(codec, bitrate_kbps, node_id, target_ip, target_port),
            " ! "@ + match codec {
                VideoCodec::H264Vaapi => "vaapih264enc"@,
                VideoCodec::H264Nvenc => "nvh264enc"@,
                VideoCodec::H264Software => "x264enc"@,
                VideoCodec::H265Vaapi => "vaapih265enc"@,
                VideoCodec::H265Nvenc => "nvh265enc"@,
                VideoCodec::Vp8 => "vp8enc"@,
                VideoCodec::Vp9 => "vp9enc"@,
                VideoCodec::Av1 => "rav1eenc"@,
            } + " "@,
        ),
{
    reveal_strlit(" ! ");
    reveal_strlit(" ");
    let name = match codec {
        VideoCodec::H264Vaapi => "vaapih264enc"@,
        VideoCodec::H264Nvenc => "nvh264enc"@,
        VideoCodec::H264Software => "x264enc"@,
        VideoCodec::H265Vaapi => "vaapih265enc"@,
        VideoCodec::H265Nvenc => "nvh265enc"@,
        VideoCodec::Vp8 => "vp8enc"@,
        VideoCodec::Vp9 => "vp9enc"@,
        VideoCodec::Av1 => "rav1eenc"@,
    };
    let q = " ! "@ + name + " "@;
    let e = encoder_element(codec, bitrate_kbps);
    let l = match codec {
        VideoCodec::H264Vaapi => {
            reveal_strlit("vaapih264enc");
            reveal_strlit("videoconvert ! video/x-raw,format=NV12 ! vaapih264enc bitrate=");
            "videoconvert ! video/x-raw,format=NV12 ! vaapih264enc bitrate="@
        },
        VideoCodec::H264Nvenc => {
            reveal_strlit("nvh264enc");
            reveal_strlit("videoconvert ! video/x-raw,format=NV12 ! nvh264enc bitrate=");
            "videoconvert ! video/x-raw,format=NV12 ! nvh264enc bitrate="@
        },
        VideoCodec::H264Software => {
            reveal_strlit("x264enc");
            reveal_strlit("videoconvert ! video/x-raw,format=I420 ! x264enc bitrate=");
            "videoconvert ! video/x-raw,format=I420 ! x264enc bitrate="@
        },
        VideoCodec::H265Vaapi => {
            reveal_strlit("vaapih265enc");
            reveal_strlit("videoconvert ! video/x-raw,format=NV12 ! vaapih265enc bitrate=");
            "videoconvert ! video/x-raw,format=NV12 ! vaapih265enc bitrate="@
        },
        VideoCodec::H265Nvenc => {
            reveal_strlit("nvh265enc");
            reveal_strlit("videoconvert ! video/x-raw,format=NV12 ! nvh265enc bitrate=");
            "videoconvert ! video/x-raw,format=NV12 ! nvh265enc bitrate="@
        },
        VideoCodec::Vp8 => {
            reveal_strlit("vp8enc");
            reveal_strlit("videoconvert ! video/x-raw,format=I420 ! vp8enc target-bitrate=");
            "videoconvert ! video/x-raw,format=I420 ! vp8enc target-bitrate="@
        },
        VideoCodec::Vp9 => {
            reveal_strlit("vp9enc");
            reveal_strlit("videoconvert ! video/x-raw,format=I420 ! vp9enc target-bitrate=");
            "videoconvert ! video/x-raw,format=I420 ! vp9enc target-bitrate="@
        },
        VideoCodec::Av1 => {
            reveal_strlit("rav1eenc");
            reveal_strlit("videoconvert ! video/x-raw,format=I420 ! rav1eenc speed=10 low-latency=true bitrate=");
            "videoconvert ! video/x-raw,format=I420 ! rav1eenc speed=10 low-latency=true bitrate="@
        },
    };
    assert(l.subrange(38int, 38 + q.len() as int) =~= q);
    assert(e =~= l + e.skip(l.len() as int));
    lemma_contains_lift(Seq::empty(), l, e.skip(l.len() as int), q);
    assert(Seq::<char>::empty() + l + e.skip(l.len() as int) =~= e);
    let a = "pipewiresrc "@ + pipewire_target(node_id) + " do-timestamp=true keepalive-time=1000 ! "@;
    let b = " ! "@ + payloader_element(codec) + " ! udpsink host="@ + target_ip + " port="@
        + decimal(target_port as nat) + " sync=false async=false"@;
    assert(encoder_pipeline(codec, bitrate_kbps, node_id, target_ip, target_port) =~= a + e + b);
    lemma_contains_lift(a, e, b, q);
}

/// The client's pipeline for each codec: it listens on the port for RTP,
/// depayloads and parses the codec's format, decodes with the decoder of the
/// codec's own family (VA-API, NVIDIA, software), and shows the pictures.
pub proof fn law_display_pipeline(codec: VideoCodec, stream_port: u16)
    ensures
        decoder_pipeline(codec, stream_port) == "udpsrc port="@ + decimal(stream_port as nat)
            + " caps=application/x-rtp ! "@ + match codec {
            VideoCodec::H264Vaapi => "rtph264depay ! h264parse ! vaapih264dec"@,
            VideoCodec::H264Nvenc => "rtph264depay ! h264parse ! nvh264dec"@,
            VideoCodec::H264Software => "rtph264depay ! h264parse ! avdec_h264"@,
            VideoCodec::H265Vaapi => "rtph265depay ! h265parse ! vaapih265dec"@,
            VideoCodec::H265Nvenc => "rtph265depay ! h265parse ! nvh265dec"@,
            VideoCodec::Vp8 => "rtpvp8depay ! vp8dec"@,
            VideoCodec::Vp9 => "rtpvp9depay ! vp9dec"@,
            VideoCodec::Av1 => "rtpav1depay ! dav1ddec"@,
        } + " ! videoconvert ! autovideosink sync=false"@,
{
    reveal_strlit(" ! ");
    let chain = depayloader_element(codec) + " ! "@ + decoder_element(codec);
    match codec {
        VideoCodec::H264Vaapi => {
            reveal_strlit("rtph264depay ! h264parse");
            reveal_strlit("vaapih264dec");
            reveal_strlit("rtph264depay ! h264parse ! vaapih264dec");
            assert(chain =~= "rtph264depay ! h264parse ! vaapih264dec"@);
        },
        VideoCodec::H264Nvenc => {
            reveal_strlit("rtph264depay ! h264parse");
            reveal_strlit("nvh264dec");
            reveal_strlit("rtph264depay ! h264parse ! nvh264dec");
            assert(chain =~= "rtph264depay ! h264parse ! nvh264dec"@);
        },
        VideoCodec::H264Software => {
            reveal_strlit("rtph264depay ! h264parse");
            reveal_strlit("avdec_h264");
            reveal_strlit("rtph264depay ! h264parse ! avdec_h264");
            assert(chain =~= "rtph264depay ! h264parse ! avdec_h264"@);
        },
        VideoCodec::H265Vaapi => {
            reveal_strlit("rtph265depay ! h265parse");
            reveal_strlit("vaapih265dec");
            reveal_strlit("rtph265depay ! h265parse ! vaapih265dec");
            assert(chain =~= "rtph265depay ! h265parse ! vaapih265dec"@);
        },
        VideoCodec::H265Nvenc => {
            reveal_strlit("rtph265depay ! h265parse");
            reveal_strlit("nvh265dec");
            reveal_strlit("rtph265depay ! h265parse ! nvh265dec");
            assert(chain =~= "rtph265depay ! h265parse ! nvh265dec"@);
        },
        VideoCodec::Vp8 => {
            reveal_strlit("rtpvp8depay");
            reveal_strlit("vp8dec");
            reveal_strlit("rtpvp8depay ! vp8dec");
            assert(chain =~= "rtpvp8depay ! vp8dec"@);
        },
        VideoCodec::Vp9 => {
            reveal_strlit("rtpvp9depay");
            reveal_strlit("vp9dec");
            reveal_strlit("rtpvp9depay ! vp9dec");
            assert(chain =~= "rtpvp9depay ! vp9dec"@);
        },
        VideoCodec::Av1 => {
            reveal_strlit("rtpav1depay");
            reveal_strlit("dav1ddec");
            reveal_strlit("rtpav1depay ! dav1ddec");
            assert(chain =~= "rtpav1depay ! dav1ddec"@);
        },
    }
    let head = "udpsrc port="@ + decimal(stream_port as nat) + " caps=application/x-rtp ! "@;
    let tail = " ! videoconvert ! autovideosink sync=false"@;
    assert(decoder_pipeline(codec, stream_port) =~= head + chain + tail);
}

/// See [`encoder_element`].
pub fn encoder_element_text(codec: VideoCodec, bitrate_kbps: u32) -> (s: String)
    requires
        bitrate_fits(codec, bitrate_kbps),
    ensures
        s@ == encoder_element(codec, bitrate_kbps),
{
    let (head, rate, tail) = match codec {
        VideoCodec::H264Vaapi => (
            "videoconvert ! video/x-raw,format=NV12 ! vaapih264enc bitrate=",
            bitrate_kbps,
            " rate-control=cbr tune=low-latency",
        ),
        VideoCodec::H264Nvenc => (
            "videoconvert ! video/x-raw,format=NV12 ! nvh264enc bitrate=",
            bitrate_kbps,
            " preset=low-latency-hq rc-mode=cbr",
        ),
        VideoCodec::H264Software => (
            "videoconvert ! video/x-raw,format=I420 ! x264enc bitrate=",
            bitrate_kbps,
            " speed-preset=ultrafast tune=zerolatency bframes=0 key-int-max=30",
        ),
        VideoCodec::H265Vaapi => (
            "videoconvert ! video/x-raw,format=NV12 ! vaapih265enc bitrate=",
            bitrate_kbps,
            " rate-control=cbr tune=low-latency",
        ),
        VideoCodec::H265Nvenc => (
            "videoconvert ! video/x-raw,format=NV12 ! nvh265enc bitrate=",
            bitrate_kbps,
            " preset=low-latency-hq rc-mode=cbr",
        ),
        VideoCodec::Vp8 => (
            "videoconvert ! video/x-raw,format=I420 ! vp8enc target-bitrate=",
            bitrate_kbps * 1000,
            " deadline=1 cpu-used=8",
        ),
        VideoCodec::Vp9 => (
            "videoconvert ! video/x-raw,format=I420 ! vp9enc target-bitrate=",
            bitrate_kbps * 1000,
            " deadline=1 cpu-used=8",
        ),
        VideoCodec::Av1 => (
            "videoconvert ! video/x-raw,format=I420 ! rav1eenc speed=10 low-latency=true bitrate=",
            bitrate_kbps,
            "",
        ),
    };
    let mut s = String::from_str(head);
    let digits = decimal_string(rate as u64);
    s.append(digits.as_str());
    s.append(tail);
    proof {
        reveal_strlit("");
        assert(s@ =~= encoder_element(codec, bitrate_kbps));
    }
    s
}


/// See [`payloader_element`].
pub fn payloader_element_text(codec: VideoCodec) -> (s: &'static str)
    ensures
        s@ == payloader_element(codec),
{
    match codec {
        VideoCodec::H264Vaapi | VideoCodec::H264Nvenc | VideoCodec::H264Software =>
            "rtph264pay config-interval=1 pt=96",
        VideoCodec::H265Vaapi | VideoCodec::H265Nvenc => "rtph265pay config-interval=1 pt=96",
        VideoCodec::Vp8 => "rtpvp8pay pt=96",
        VideoCodec::Vp9 => "rtpvp9pay pt=96",
        VideoCodec::Av1 => "rtpav1pay pt=96",
    }
}

/// See [`pipewire_target`].
pub fn pipewire_target_text(node_id: u32) -> (s: String)
    ensures
        s@ == pipewire_target(node_id),
{
    if node_id > 0 {
        let mut s = String::from_str("path=");
        let digits = decimal_string(node_id as u64);
        s.append(digits.as_str());
        s
    } else {
        String::from_str("client-name=ExtenderHost")
    }
}

/// The description of the host's pipeline; see [`encoder_pipeline`].
pub fn encoder_pipeline_description(
    codec: VideoCodec,
    bitrate_kbps: u32,
    node_id: u32,
    target_ip: &str,
    target_port: u16,
) -> (s: String)
    requires
        bitrate_fits(codec, bitrate_kbps),
    ensures
        s@ == encoder_pipeline(codec, bitrate_kbps, node_id, target_ip@, target_port),
{
    let mut s = String::from_str("pipewiresrc ");
    let target = pipewire_target_text(node_id);
    s.append(target.as_str());
    s.append(" do-timestamp=true keepalive-time=1000 ! ");
    let encoder = encoder_element_text(codec, bitrate_kbps);
    s.append(encoder.as_str());
    s.append(" ! ");
    s.append(payloader_element_text(codec));
    s.append(" ! udpsink host=");
    s.append(target_ip);
    s.append(" port=");
    let port = decimal_string(target_port as u64);
    s.append(port.as_str());
    s.append(" sync=false async=false");
    s
}

/// See [`depayloader_element`].
pub fn depayloader_element_text(codec: VideoCodec) -> (s: &'static str)
    ensures
        s@ == depayloader_element(codec),
{
    match codec {
        VideoCodec::H264Vaapi | VideoCodec::H264Nvenc | VideoCodec::H264Software =>
            "rtph264depay ! h264parse",
        VideoCodec::H265Vaapi | VideoCodec::H265Nvenc => "rtph265depay ! h265parse",
        VideoCodec::Vp8 => "rtpvp8depay",
        VideoCodec::Vp9 => "rtpvp9depay",
        VideoCodec::Av1 => "rtpav1depay",
    }
}

/// See [`decoder_element`].
pub fn decoder_element_text(codec: VideoCodec) -> (s: &'static str)
    ensures
        s@ == decoder_element(codec),
{
    match codec {
        VideoCodec::H264Vaapi => "vaapih264dec",
        VideoCodec::H264Nvenc => "nvh264dec",
        VideoCodec::H264Software => "avdec_h264",
        VideoCodec::H265Vaapi => "vaapih265dec",
        VideoCodec::H265Nvenc => "nvh265dec",
        VideoCodec::Vp8 => "vp8dec",
        VideoCodec::Vp9 => "vp9dec",
        VideoCodec::Av1 => "dav1ddec",
    }
}

/// The description of the client's pipeline; see [`decoder_pipeline`].
pub fn decoder_pipeline_description(codec: VideoCodec, stream_port: u16) -> (s: String)
    ensures
        s@ == decoder_pipeline(codec, stream_port),
{
    let mut s = String::from_str("udpsrc port=");
    let port = decimal_string(stream_port as u64);
    s.append(port.as_str());
    s.append(" caps=application/x-rtp ! ");
    s.append(depayloader_element_text(codec));
    s.append(" ! ");
    s.append(decoder_element_text(codec));
    s.append(" ! videoconvert ! autovideosink sync=false");
    s
}

} // verus!
