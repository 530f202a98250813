use extender::monitor::{
    backend_attempts, is_hyprland_session, mentions_hyprland, BackendKind, CompositorBackend,
    mutter_node_id, mutter_recording, HyprlandVirtualMonitorManager, MutterRecording,
};
use extender::pipeline::{decoder_pipeline_description, encoder_pipeline_description};
use extender::protocol::VideoCodec;

#[test]
fn monitor_rule_numbers_in_decimal() {
    let m = HyprlandVirtualMonitorManager::for_default_output();
    assert_eq!(m.monitor_rule(0, 7, u32::MAX), "EXTENDER-1,0x7@4294967295,auto,1");
}

#[test]
fn software_h264_pipeline_to_client() {
    let s = encoder_pipeline_description(VideoCodec::H264Software, 8000, 0, "192.168.1.7", 8554);
    assert_eq!(
        s,
        "pipewiresrc client-name=ExtenderHost do-timestamp=true keepalive-time=1000 ! \
         videoconvert ! video/x-raw,format=I420 ! x264enc bitrate=8000 speed-preset=ultrafast \
         tune=zerolatency bframes=0 key-int-max=30 ! rtph264pay config-interval=1 pt=96 ! \
         udpsink host=192.168.1.7 port=8554 sync=false async=false"
    );
}

#[test]
fn vp9_pipeline_from_node_uses_bits_per_second() {
    let s = encoder_pipeline_description(VideoCodec::Vp9, 2500, 42, "10.0.0.2", 9000);
    assert_eq!(
        s,
        "pipewiresrc path=42 do-timestamp=true keepalive-time=1000 ! videoconvert ! \
         video/x-raw,format=I420 ! vp9enc target-bitrate=2500000 deadline=1 cpu-used=8 ! \
         rtpvp9pay pt=96 ! udpsink host=10.0.0.2 port=9000 sync=false async=false"
    );
}

#[test]
fn av1_pipeline() {
    let s = encoder_pipeline_description(VideoCodec::Av1, 6000, 3, "h", 1);
    assert_eq!(
        s,
        "pipewiresrc path=3 do-timestamp=true keepalive-time=1000 ! videoconvert ! \
         video/x-raw,format=I420 ! rav1eenc speed=10 low-latency=true bitrate=6000 ! \
         rtpav1pay pt=96 ! udpsink host=h port=1 sync=false async=false"
    );
}

#[test]
fn decoder_pipelines() {
    assert_eq!(
        decoder_pipeline_description(VideoCodec::H265Nvenc, 8554),
        "udpsrc port=8554 caps=application/x-rtp ! rtph265depay ! h265parse ! nvh265dec ! \
         videoconvert ! autovideosink sync=false"
    );
    assert_eq!(
        decoder_pipeline_description(VideoCodec::H264Software, 1),
        "udpsrc port=1 caps=application/x-rtp ! rtph264depay ! h264parse ! avdec_h264 ! \
         videoconvert ! autovideosink sync=false"
    );
}

#[test]
fn backend_order() {
    assert_eq!(
        backend_attempts(CompositorBackend::Auto, true),
        vec![BackendKind::Hyprland, BackendKind::Headless]
    );
    assert_eq!(
        backend_attempts(CompositorBackend::Auto, false),
        vec![BackendKind::Mutter, BackendKind::Hyprland, BackendKind::Headless]
    );
    assert_eq!(backend_attempts(CompositorBackend::Mutter, true), vec![BackendKind::Mutter]);
    assert_eq!(backend_attempts(CompositorBackend::Headless, false), vec![BackendKind::Headless]);
    assert_eq!(CompositorBackend::default(), CompositorBackend::Auto);
}

#[test]
fn hyprland_detection() {
    assert!(is_hyprland_session(true, None));
    assert!(is_hyprland_session(false, Some("Hyprland")));
    assert!(is_hyprland_session(false, Some("OMARCHY:wlroots")));
    assert!(!is_hyprland_session(false, Some("GNOME")));
    assert!(!is_hyprland_session(false, None));
}

#[test]
fn hyprland_commands() {
    let mut m = HyprlandVirtualMonitorManager::for_default_output();
    assert_eq!(m.output_name(), "EXTENDER-1");
    assert!(!m.is_created());
    assert_eq!(m.create_output_args(), vec!["output", "create", "headless", "EXTENDER-1"]);
    assert_eq!(
        m.configure_monitor_args(1920, 1080, 60),
        vec!["keyword", "monitor", "EXTENDER-1,1920x1080@60,auto,1"]
    );
    assert_eq!(m.take_removal_args(), None);
    m.mark_created();
    assert!(m.is_created());
    assert_eq!(m.take_removal_args(), Some(vec!["output".to_string(), "remove".to_string(), "EXTENDER-1".to_string()]));
    assert!(!m.is_created());
    assert_eq!(m.take_removal_args(), None);
}

#[test]
fn lower_case_desktop_names() {
    assert!(mentions_hyprland("hyprland"));
    assert!(mentions_hyprland("x:omarchy"));
    assert!(!mentions_hyprland("Hyprland"));
    assert!(!mentions_hyprland("gnome"));
}

#[test]
fn mentions_hyprland_reads_whole_characters() {
    assert!(mentions_hyprland("ünïcode:hyprland"));
    assert!(mentions_hyprland("omarchy"));
    assert!(!mentions_hyprland("hyprlan"));
    assert!(!mentions_hyprland("omarch\u{e9}y"));
    assert!(!mentions_hyprland(""));
}

#[test]
fn mutter_falls_back_to_recording_hdmi_2() {
    assert_eq!(mutter_recording(true), MutterRecording::Virtual);
    assert_eq!(
        mutter_recording(false),
        MutterRecording::Monitor { connector: "HDMI-2".to_string() }
    );
}

#[test]
fn mutter_node_defaults_to_zero() {
    assert_eq!(mutter_node_id(Some(57)), 57);
    assert_eq!(mutter_node_id(None), 0);
}
