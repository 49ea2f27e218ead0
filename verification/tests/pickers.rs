//! The lists of applications and windows, and the control panel.

use newfoundsync::config::{
    CaptureSource, CodecKind, EncodeDevice, EncoderBackend, Fps, Resolution, VideoConfig,
    VideoTarget,
};
use newfoundsync::media::{BuildFeatures, Platform};
use newfoundsync::panel::{
    all_apps_label, app_label, apply_button, audio_quality_text, codec_label, connect_url,
    device_label, device_offer, dummy_verdict, empty_list_text, fallback_text, has_come_up,
    idx_to_res, next_start, offset_text, picked_label, pill, port_message, port_to_save, res_label,
    res_to_idx, serving_text, slider_is_to_be_saved, start_failure, starting_text, status_colour,
    switch_failure, switching_text, system_label, AvOffset, BufferPreset, InitialConfig, Pickers,
    Refresh, RefreshEvent, SourceKind, VideoSourceKind, PICK_APP, PICK_WINDOW, SERVING_PREFIX, StartTry,
};
use newfoundsync::sessions::{
    build_sources, enumerate_sessions, resolve_render_pid, window_entry, SessionInfo, WindowInfo,
};
use newfoundsync::sources::{
    app_device_name, connect_pulse, default_sink_monitor, is_dummy_sink_monitor, list_sink_inputs,
    list_sources, map_sources, monitor_device_name, open_stream, resolve_sink_input,
    sink_monitor_name, wait_for, AudioApp, LinkState, Progress, QueryState, SinkInput, StreamInfo,
    Turn, DUMMY_TAG,
};
use newfoundsync::theme::{colour, lt, toggled, Shade, Theme};

fn si(index: u32, pid: Option<u32>, name: &str, binary: &str) -> SinkInput {
    SinkInput { index, sink: 0, pid, name: name.into(), binary: binary.into() }
}

#[test]
fn lists_one_entry_per_playing_application() {
    let got = map_sources(
        vec![si(1, Some(10), "Firefox", "firefox"), si(2, Some(11), "mpv", "mpv")],
        999,
    );
    assert_eq!(got.len(), 2);
    assert_eq!(got[0].name, "Firefox"); // sorted case-insensitively
    assert_eq!(got[1].name, "mpv");
    // Linux entries are never candidates for per-window video capture.
    assert!(got.iter().all(|a| a.hwnd.is_none()));
}

#[test]
fn collapses_several_streams_from_one_process() {
    let got = map_sources(
        vec![si(1, Some(10), "Firefox", "firefox"), si(2, Some(10), "Firefox", "firefox")],
        999,
    );
    assert_eq!(got.len(), 1);
    assert_eq!(got[0].pid, 10);
}

#[test]
fn hides_streams_that_cannot_be_addressed() {
    let got = map_sources(vec![si(1, None, "some jack client", "")], 999);
    assert!(got.is_empty());
}

#[test]
fn never_offers_our_own_playback() {
    let got = map_sources(vec![si(1, Some(999), "Newfoundsync", "newfoundsync")], 999);
    assert!(got.is_empty());
}

#[test]
fn falls_back_through_the_identity_properties() {
    let got = map_sources(
        vec![
            si(1, Some(10), "", "pacat"),
            si(2, Some(11), "", ""),
            si(3, Some(12), "  ", "spotify"),
        ],
        999,
    );
    let names: Vec<&str> = got.iter().map(|a| a.name.as_str()).collect();
    assert!(names.contains(&"pacat"), "{names:?}");
    assert!(names.contains(&"spotify"), "{names:?}");
    assert!(names.iter().any(|n| n.contains("audio stream #2")), "{names:?}");
}

#[test]
fn detects_the_pipewire_pulse_dummy_sink() {
    assert!(is_dummy_sink_monitor("auto_null.monitor"));
    assert!(is_dummy_sink_monitor("auto_null"));
    assert!(is_dummy_sink_monitor("null"));
}

#[test]
fn does_not_slander_a_real_device() {
    assert!(!is_dummy_sink_monitor("alsa_output.pci-0000_00_1f.3.analog-stereo.monitor"));
    assert!(!is_dummy_sink_monitor("alsa_output.pci-0000_01_00.1.hdmi-stereo.monitor"));
    // A device that merely CONTAINS "null" is not the dummy.
    assert!(!is_dummy_sink_monitor("alsa_output.usb-Nullsoft_DAC.analog-stereo.monitor"));
    assert!(!is_dummy_sink_monitor("bluez_output.AC_BF_71_00_00_00.1.monitor"));
}

#[test]
fn raises_the_banner_on_a_dummy_serving_line() {
    let st = format!("{SERVING_PREFIX}auto_null.monitor  {DUMMY_TAG}");
    assert!(dummy_verdict(false, &st));
}

#[test]
fn stays_quiet_for_a_real_device() {
    let st = format!("{SERVING_PREFIX}alsa_output.pci-0000_00_1f.3.analog-stereo.monitor");
    assert!(!dummy_verdict(false, &st));
    // …and a real device CLEARS a previously latched warning (the self-heal / an Apply worked).
    assert!(!dummy_verdict(true, &st));
}

#[test]
fn transient_chatter_does_not_blank_a_live_warning() {
    for chatter in [
        "Starting…",
        "Pick an app first, then Apply.",
        "Couldn't switch: no such device",
        "⚠ Audio source unavailable (x). Relaying web casts — pick a source and Apply.",
    ] {
        assert!(dummy_verdict(true, chatter), "{chatter} wrongly cleared the warning");
        assert!(!dummy_verdict(false, chatter), "{chatter} wrongly raised the warning");
    }
}

#[test]
fn the_tag_the_banner_matches_is_the_tag_the_capture_layer_emits() {
    assert!(DUMMY_TAG.contains("DUMMY OUTPUT"));
    assert!(format!("{SERVING_PREFIX}auto_null.monitor  {DUMMY_TAG}").contains(DUMMY_TAG));
}

#[test]
fn a_dummy_device_warns_through_the_serving_line() {
    let device = monitor_device_name("auto_null.monitor");
    assert!(device.contains(DUMMY_TAG));
    assert!(dummy_verdict(false, &serving_text(&device, true)));
    assert!(!monitor_device_name("alsa.monitor").contains(DUMMY_TAG));
}

#[test]
fn streams_are_read_from_their_properties() {
    let infos = vec![
        StreamInfo {
            index: 4,
            sink: 2,
            pid: Some("77".to_string()),
            name: Some("mpv".to_string()),
            binary: None,
        },
        StreamInfo { index: 5, sink: 2, pid: Some("x".to_string()), name: None, binary: None },
    ];
    let got = list_sink_inputs(&infos);
    assert_eq!(got[0].pid, Some(77));
    assert_eq!(got[0].name, "mpv");
    assert_eq!(got[1].pid, None);
    assert!(list_sources(None, 1).is_empty());
    assert_eq!(list_sources(Some(got), 1).len(), 1);
}

#[test]
fn a_stream_is_found_by_its_process() {
    let all = vec![si(1, Some(10), "Firefox", "firefox"), si(2, Some(11), "mpv", "mpv")];
    assert_eq!(resolve_sink_input(&all, 11).unwrap().index, 2);
    assert!(resolve_sink_input(&all, 12).is_err());
    assert!(app_device_name(&all[1]).contains("mpv"));
    assert_eq!(sink_monitor_name(Some("a.monitor".to_string()), 3).unwrap(), "a.monitor");
    assert!(sink_monitor_name(None, 3).is_err());
}

#[test]
fn the_default_monitor_prefers_a_real_sink() {
    let sinks = vec!["auto_null".to_string(), "alsa_output.hdmi".to_string()];
    let got = default_sink_monitor(Some("alsa_output.hdmi".to_string()), &sinks).unwrap();
    assert_eq!(got, "alsa_output.hdmi.monitor");
    assert!(default_sink_monitor(None, &vec![]).is_err());
}

#[test]
fn the_sound_server_is_waited_for() {
    assert!(matches!(wait_for(Turn::Success, QueryState::Running, "x"), Progress::Again));
    assert!(matches!(wait_for(Turn::Success, QueryState::Done, "x"), Progress::Done));
    assert!(matches!(wait_for(Turn::Success, QueryState::Cancelled, "x"), Progress::Failed(_)));
    assert!(matches!(wait_for(Turn::Quit, QueryState::Running, "x"), Progress::Failed(_)));
    assert!(matches!(connect_pulse(Turn::Success, LinkState::Pending), Progress::Again));
    assert!(matches!(connect_pulse(Turn::Success, LinkState::Ready), Progress::Done));
    assert!(matches!(connect_pulse(Turn::Success, LinkState::Failed), Progress::Failed(_)));
    assert!(matches!(open_stream(Turn::Success, LinkState::Terminated), Progress::Failed(_)));
}

fn app(pid: u32, name: &str, hwnd: Option<isize>) -> AudioApp {
    AudioApp { pid, name: name.to_string(), exe: name.to_lowercase(), hwnd }
}

#[test]
fn windows_and_sessions_are_merged() {
    let s = vec![
        SessionInfo { expired: false, pid: Some(5), exe: Some("C:\\Spotify.exe".to_string()) },
        SessionInfo { expired: true, pid: Some(6), exe: Some("C:\\old.exe".to_string()) },
        SessionInfo { expired: false, pid: Some(9), exe: Some("C:\\me.exe".to_string()) },
    ];
    let sessions = enumerate_sessions(&s, 9);
    assert_eq!(sessions.len(), 1);
    let w = WindowInfo {
        visible: true,
        owned: false,
        cloaked: false,
        title: "Notes".to_string(),
        pid: 3,
        exe: Some("C:\\notes.exe".to_string()),
        hwnd: 42,
    };
    let entry = window_entry(&w, 9).expect("a visible window is offered");
    assert_eq!(entry.hwnd, Some(42));
    assert!(window_entry(&WindowInfo { visible: false, ..w }, 9).is_none());
    let all = build_sources(vec![entry], sessions);
    assert_eq!(all.len(), 2);
    assert_eq!(resolve_render_pid(5, None, &vec![app(5, "a", None)]), 5);
}

fn init(source: CaptureSource, video: bool) -> InitialConfig {
    InitialConfig {
        capture_source: source,
        video: if video {
            Some(VideoConfig { resolution: Resolution::P1440, fps: Fps::F60, quality_pct: 80 })
        } else {
            None
        },
        encoder: EncoderBackend::Vp9,
        encode_device: EncodeDevice::Auto,
        buffer_ms: 20_000,
        codec: CodecKind::Opus,
        bitrate: 128_000,
        av_offset_ns: 0,
    }
}

const ALL: BuildFeatures = BuildFeatures { vp9: true, screen_capture: true };
const NONE: BuildFeatures = BuildFeatures { vp9: false, screen_capture: false };

#[test]
fn the_panel_shows_what_the_server_was_started_with() {
    let p = Pickers::seed(&init(CaptureSource::System, true), &ALL, Some(EncodeDevice::Cpu));
    assert_eq!(p.source, SourceKind::System);
    assert_eq!(p.video_kind, VideoSourceKind::Screen);
    assert_eq!((p.res_idx, p.fps60, p.vp9), (2, true, true));
    assert_eq!(p.encode_device, EncodeDevice::Cpu);
    let bare = Pickers::seed(&init(CaptureSource::System, true), &NONE, None);
    assert_eq!(bare.video_kind, VideoSourceKind::Off);
    assert!(!bare.vp9);
    let cast = Pickers::seed(&init(CaptureSource::WebUplink, true), &NONE, None);
    assert_eq!(cast.video_kind, VideoSourceKind::WebCast);
    let o = init(CaptureSource::System, true).fallback_options("Den", 100);
    assert_eq!(o.capture_source, CaptureSource::WebUplink);
    assert!(o.video.is_none());
    let o = init(CaptureSource::System, true).to_options("Den", 100);
    assert_eq!((o.lead_ms, o.buffer_ms), (100, 20_000));
    assert_eq!(o.video_target, VideoTarget::PrimaryMonitor);
}

#[test]
fn the_pickers_never_disagree() {
    let mut p = Pickers::seed(&init(CaptureSource::System, true), &ALL, None);
    p.pick_cast_video();
    assert_eq!((p.source, p.video_kind), (SourceKind::WebUplink, VideoSourceKind::WebCast));
    p.pick_local_audio(SourceKind::AllApps);
    assert_eq!((p.source, p.video_kind), (SourceKind::AllApps, VideoSourceKind::Off));
    p.pick_cast_audio();
    p.pick_local_video(VideoSourceKind::Screen);
    assert_eq!((p.source, p.video_kind), (SourceKind::AllApps, VideoSourceKind::Screen));
    p.pick_cast_audio();
    assert_eq!((p.source, p.video_kind), (SourceKind::WebUplink, VideoSourceKind::Off));
    p.pick_cast_video();
    p.pick_app(&app(4, "mpv", None));
    assert_eq!((p.source, p.video_kind), (SourceKind::App, VideoSourceKind::Off));
    p.pick_window(&app(5, "Notes", Some(42)));
    assert_eq!((p.selected_pid, p.video_hwnd), (Some(5), Some(42)));
    p.pick_no_video();
    p.pick_app_radio();
    assert_eq!(p.video_kind, VideoSourceKind::Off);
}

#[test]
fn an_application_that_is_gone_is_not_replaced() {
    let mut p = Pickers::seed(&init(CaptureSource::App { pid: 4 }, false), &ALL, None);
    p.reconcile(&vec![app(4, "mpv", None)], false);
    assert_eq!(p.selected_name, "mpv");
    p.reconcile(&vec![app(5, "other", None)], false);
    assert_eq!(p.source, SourceKind::App);
    assert_eq!(p.selected_pid, None);
    assert_eq!(p.apply("Den", 100, 500, Platform::Linux, true).err(), Some(PICK_APP));
}

#[test]
fn a_window_that_is_gone_gives_way_to_the_screen() {
    let mut p = Pickers::seed(&init(CaptureSource::System, true), &ALL, None);
    p.pick_window(&app(5, "Notes", Some(42)));
    p.reconcile(&vec![app(5, "Notes 2", Some(43)), app(6, "x", Some(42))], true);
    assert_eq!((p.video_pid, p.video_hwnd), (Some(6), Some(42)));
    p.reconcile(&vec![app(6, "y", Some(50))], true);
    assert_eq!(p.video_hwnd, Some(50));
    p.reconcile(&vec![], true);
    assert_eq!(p.video_kind, VideoSourceKind::Screen);
    p.pick_local_audio(SourceKind::System);
    p.pick_local_video(VideoSourceKind::Window);
    assert_eq!(p.apply("Den", 100, 500, Platform::Windows, true).err(), Some(PICK_WINDOW));
}

#[test]
fn applying_asks_for_what_is_picked() {
    let mut p = Pickers::seed(&init(CaptureSource::System, true), &ALL, None);
    let o = match p.apply("Den", 100, 500, Platform::Windows, true) {
        Ok(o) => o,
        Err(e) => panic!("{e}"),
    };
    assert_eq!(o.buffer_ms, 15_000);
    assert_eq!(o.encoder, EncoderBackend::Vp9);
    assert_eq!(o.video.unwrap().resolution, Resolution::P1440);
    p.pick_window(&app(5, "Notes", Some(42)));
    let o = match p.apply("Den", 100, 500, Platform::Windows, false) {
        Ok(o) => o,
        Err(e) => panic!("{e}"),
    };
    assert_eq!(o.video_target, VideoTarget::Window { hwnd: 42 });
    assert_eq!(o.capture_source, CaptureSource::App { pid: 5 });
    assert_eq!(o.encoder, EncoderBackend::Av1);
}

#[test]
fn applied_settings_are_clean() {
    let mut p = Pickers::seed(&init(CaptureSource::System, true), &ALL, None);
    assert!(p.is_dirty(None, 500));
    let applied = Some(p.current_config(500));
    assert!(!p.is_dirty(applied, 500));
    p.buffer_ms = 15_000; // what the out-of-range seed was brought to
    assert!(!p.is_dirty(applied, 500));
    p.fps60 = false;
    assert!(p.is_dirty(applied, 500));
}

#[test]
fn one_list_is_made_at_a_time() {
    let mut r = Refresh::new();
    assert!(r.wanted());
    r.started(true);
    assert!(!r.wanted());
    r.event(RefreshEvent::Waiting);
    assert!(!r.wanted());
    r.event(RefreshEvent::Lost);
    assert!(r.wanted());
}

#[test]
fn what_is_said_while_starting() {
    assert_eq!(starting_text(VideoSourceKind::Off, true), "Starting…");
    assert!(starting_text(VideoSourceKind::Screen, true).contains("approve"));
    assert_eq!(starting_text(VideoSourceKind::Screen, false), "Starting…");
    assert!(switching_text(true, CaptureSource::System, true).contains("approve"));
    assert_eq!(switching_text(true, CaptureSource::WebUplink, true), "Starting…");
    assert_eq!(serving_text("mic", false), "Serving: mic");
    assert_eq!(serving_text("mic", true), "Serving: mic  + screen");
    assert_eq!(switch_failure("x"), "Couldn't switch: x");
    assert_eq!(start_failure("a", "b"), "Couldn't start: a (fallback also failed: b)");
    assert!(fallback_text("no mic").starts_with("⚠ Audio source unavailable (no mic)."));
    assert_eq!(connect_url(Some("10.0.0.2"), 47000), "https://10.0.0.2:47000");
    assert_eq!(connect_url(None, 1), "https://<this-pc>:1");
}

#[test]
fn quality_in_words() {
    assert_eq!(
        audio_quality_text(CodecKind::Opus, 256_000),
        "Opus · 48 kHz stereo · 256 kbps — transparent (indistinguishable from the original)"
    );
    assert!(audio_quality_text(CodecKind::Opus, 255_999).ends_with("excellent, near-CD"));
    assert!(audio_quality_text(CodecKind::Opus, 96_000).ends_with("very good"));
    assert!(audio_quality_text(CodecKind::Opus, 64_000).ends_with("good"));
    assert_eq!(
        audio_quality_text(CodecKind::Opus, -5),
        "Opus · 48 kHz stereo · 1 kbps — voice-grade"
    );
    assert!(audio_quality_text(CodecKind::Pcm, 0).starts_with("Lossless PCM"));
}

#[test]
fn the_apply_button_counts_devices() {
    let b = apply_button(false, true, 1);
    assert_eq!(b.label, "Apply changes — reconnects 1 device");
    assert!(b.enabled);
    assert_eq!(
        b.hint.unwrap(),
        "Rebuilds the stream with your new settings. 1 connected device will reconnect (~1s of silence)."
    );
    assert_eq!(apply_button(false, true, 3).label, "Apply changes — reconnects 3 devices");
    assert_eq!(apply_button(false, true, 0).label, "Apply changes");
    assert_eq!(apply_button(false, false, 2).label, "Stream is up to date");
    let busy = apply_button(true, true, 2);
    assert_eq!(busy.label, "Starting…");
    assert!(!busy.enabled && busy.hint.is_none());
}

#[test]
fn the_header_and_the_footer() {
    assert!(has_come_up(false, "Serving: x"));
    assert!(has_come_up(true, "Couldn't switch: x"));
    assert!(!has_come_up(false, "Starting…"));
    let (s, c) = pill(false, true, 4);
    assert_eq!((s.as_str(), c), ("Live · 4 listening", Shade::Good));
    assert_eq!(pill(false, false, 4).1, Shade::Bad);
    assert_eq!(pill(true, true, 4).0, "Starting…");
    assert_eq!(status_colour("Couldn't switch: x", true), Shade::Bad);
    assert_eq!(status_colour("Pick an app first, then Apply.", false), Shade::Bad);
    assert_eq!(status_colour("Serving: x", true), Shade::Good);
    assert_eq!(status_colour("anything", true), Shade::AccentHigh);
    assert_eq!(status_colour("anything", false), Shade::Dim);
}

#[test]
fn ports_and_offsets() {
    assert_eq!(port_to_save(47000, 47000), None);
    assert_eq!(port_to_save(47000, 47001), Some(47001));
    assert_eq!(port_message(1, 1, Ok(())), "Already serving on port 1.");
    assert_eq!(
        port_message(1, 2, Ok(())),
        "Saved — restart Newfoundsync to serve on port 2."
    );
    assert_eq!(port_message(1, 2, Err("full".to_string())), "Couldn't save port: full");
    let mut o = AvOffset::from_ns(-7_500_000);
    assert_eq!(o.ms, -7);
    o.apply(900);
    assert_eq!((o.ms, o.ns), (500, 500_000_000));
    o.apply(-20);
    assert_eq!(o.ns, -20_000_000);
    assert_eq!(offset_text(-20), "  -20 ms");
    assert_eq!(offset_text(0), "   +0 ms");
    assert_eq!(offset_text(1234567), "+1234567 ms");
    assert!(slider_is_to_be_saved(true, false, true));
    assert!(!slider_is_to_be_saved(false, true, true));
}

#[test]
fn labels_follow_the_platform() {
    assert!(all_apps_label(Platform::Windows).contains("Windows is muted"));
    assert!(system_label(Platform::Linux).contains("mirrors the speakers"));
    assert!(app_label(Platform::Other).is_none());
    assert!(empty_list_text(Platform::Linux).unwrap().contains("start playback"));
    assert_eq!(picked_label(false, "x"), "(choose)");
    assert_eq!(picked_label(true, "x"), "x");
    assert_eq!(device_label(EncodeDevice::Gpu), "GPU only");
    assert!(device_offer(EncodeDevice::Gpu).contains("fail"));
    assert_eq!(codec_label(true, false), "AV1");
    assert_eq!(codec_label(true, true), "VP9");
    assert_eq!(BufferPreset::Balanced.ms(), 3000);
    assert_eq!(BufferPreset::Snappy.label(), "Snappy · 1s");
    for r in [Resolution::P720, Resolution::P1080, Resolution::P1440, Resolution::P2160] {
        assert_eq!(idx_to_res(res_to_idx(r)), r);
    }
    assert_eq!(res_label(Resolution::P2160), "2160p (4K)");
}

#[test]
fn themes_switch_every_colour() {
    assert!(!lt(Theme::Dark) && lt(Theme::Light));
    let c = colour(Theme::Light, Shade::Accent);
    assert_eq!((c.r, c.g, c.b), (0x25, 0x63, 0xeb));
    assert_ne!(colour(Theme::Dark, Shade::Accent), c);
    assert_eq!(toggled(toggled(Theme::Dark)), Theme::Dark);
}

#[test]
fn the_relay_is_tried_once() {
    assert_eq!(next_start(StartTry::Chosen), Some(StartTry::Fallback));
    assert_eq!(next_start(StartTry::Fallback), None);
}
