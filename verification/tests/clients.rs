//! The wire, the connected clients, the mixer, the pages and the command line.

use newfoundsync::config::{
    effective_port, encoder_names_device, parse_capture, read_cli, CaptureSource, CliError,
    CliWords, CodecKind, EncodeDevice, EncoderBackend, Fps, Resolution, DEFAULT_HTTP_PORT,
};
use newfoundsync::health::MediaHealth;
use newfoundsync::mixer::{
    calibration_done, can_calibrate, level_text, reset_sync, reset_text, stop_cast, trim_updates,
    CalibCommand, CalibOutcome, Keyed, Mixer, TrimUpdate,
};
use newfoundsync::pages::{html_escape, status_page};
use newfoundsync::registry::{claim_slot, holds_slot, Registry};
use newfoundsync::session::{
    caster_budget, farewell, log_safe, send_exit, uplink_rate_exceeded, Action, Delivery, Event,
    Exit, Farewell, Session,
};
use newfoundsync::shell::{build_tag, index_body, shell_body, Shell, ShellSources};
use newfoundsync::wire::{
    calib_role_msg, calib_stop_msg, cast_grant_msg, cast_stop_msg, clock_reply_msg, parse_hello,
    read_incoming, set_trim_msg, set_volume_msg, CastTargets, Incoming,
};

fn targets(video_on: bool) -> CastTargets {
    CastTargets {
        video_on,
        width: 1280,
        height: 720,
        fps: 30,
        video_kbps: 4000,
        audio_bps: 128_000,
        sample_rate: 48_000,
        channels: 2,
    }
}

fn hello(id: &str, name: &str) -> Vec<u8> {
    let mut m = vec![0x21, id.len() as u8];
    m.extend_from_slice(id.as_bytes());
    m.extend_from_slice(name.as_bytes());
    m
}

#[test]
fn messages_have_these_bytes() {
    assert_eq!(set_volume_msg(0.5f32.to_bits()), [&[0x20], &0.5f32.to_le_bytes()[..]].concat());
    assert_eq!(set_trim_msg(-5), [&[0x23], &(-5i32).to_le_bytes()[..]].concat());
    assert_eq!(cast_stop_msg(), vec![0x34]);
    let role = calib_role_msg(2, 0x01020304, 0x05060708, 9);
    assert_eq!(role, vec![0x22, 1, 2, 4, 3, 2, 1, 8, 7, 6, 5, 9]);
    assert_eq!(calib_stop_msg()[..3], [0x22, 1, 0]);
    let clock = clock_reply_msg(1, -1);
    assert_eq!(clock.len(), 17);
    assert_eq!(clock[8], 1);
    assert!(clock[9..].iter().all(|b| *b == 0xff));
    let no = cast_grant_msg(false, Some(&targets(true)));
    assert_eq!((no.len(), no[1]), (21, 0));
    let yes = cast_grant_msg(true, Some(&targets(true)));
    assert_eq!(yes[..5], [0x33, 1, 1, 0x00, 0x05]);
    assert_eq!(yes.len(), 21);
}

#[test]
fn messages_are_read() {
    assert!(matches!(read_incoming(&[0x10, 1, 2]), Incoming::ClockRequest));
    assert!(matches!(read_incoming(&[0x24, 0xfb, 0xff, 0xff, 0xff]), Incoming::ClientSync(-5)));
    assert!(matches!(read_incoming(&[0x24, 1]), Incoming::Other));
    assert!(matches!(read_incoming(&[0x30]), Incoming::Other));
    assert!(matches!(read_incoming(&[0x31, 1, 2]), Incoming::UpVideo));
    assert!(matches!(read_incoming(&[]), Incoming::Other));
    match read_incoming(&hello("id-1", "Küche")) {
        Incoming::Hello(id, name) => assert_eq!((id.as_str(), name.as_str()), ("id-1", "Küche")),
        _ => panic!("a hello is read"),
    }
    assert!(parse_hello(&[0x21, 9, 1]).is_none());
    // Bytes that are no text are replaced.
    assert_eq!(parse_hello(&[0x21, 1, 0xff]).unwrap().0, "\u{FFFD}");
}

#[test]
fn one_caster_at_a_time() {
    let mut reg = Registry::new();
    let a = reg.connect();
    let b = reg.connect();
    assert_eq!((a, b, reg.count()), (1, 2, 2));
    assert_eq!(claim_slot(&mut reg.caster, a), (true, true));
    assert_eq!(claim_slot(&mut reg.caster, a), (true, false));
    assert_eq!(claim_slot(&mut reg.caster, b).0, false);
    reg.disconnect(b);
    assert!(holds_slot(reg.caster, a));
    reg.disconnect(a);
    assert_eq!((reg.caster, reg.count()), (None, 0));
    assert_eq!(reg.connect(), 3);
}

#[test]
fn a_session_identifies_casts_and_ends() {
    let mut reg = Registry::new();
    let id = reg.connect();
    let mut s = Session::open(id, Some(targets(true)), 0);
    let said = hello("browser", "Phone");
    assert!(matches!(s.step(&mut reg, Event::Message(&said), 1), Action::Identified(_)));
    assert_eq!(reg.entries[0].name, "Phone");
    assert!(reg.entries[0].identified);
    // Uploads count only from the caster.
    assert!(matches!(s.step(&mut reg, Event::Message(&[0x30, 7]), 2), Action::Wait));
    match s.step(&mut reg, Event::Message(&[0x32]), 3) {
        Action::Grant { granted, fresh, reply } => {
            assert!(granted && fresh);
            assert_eq!(reply, cast_grant_msg(true, Some(&targets(true))));
        }
        _ => panic!("the slot is granted"),
    }
    assert!(matches!(s.step(&mut reg, Event::Message(&[0x30, 7]), 4), Action::RelayAudio));
    assert!(matches!(s.step(&mut reg, Event::Message(&[0x31, 1, 7]), 5), Action::RelayVideo));
    let big = vec![0x30u8; 8194];
    let end = s.step(&mut reg, Event::Message(&big), 6);
    assert!(matches!(end, Action::End(Exit::OversizeAudio)));
    // Ten seconds of silence lose the slot.
    assert!(matches!(s.step(&mut reg, Event::IdleTick, 10_000_000_005), Action::Wait));
    assert!(matches!(s.step(&mut reg, Event::IdleTick, 10_000_000_006), Action::Reclaimed(_)));
    assert_eq!(reg.caster, None);
}

#[test]
fn a_session_ends_for_these_reasons() {
    let mut reg = Registry::new();
    let id = reg.connect();
    let mut s = Session::open(id, Some(targets(false)), 0);
    let _ = s.step(&mut reg, Event::Message(&[0x32]), 1);
    let end = s.step(&mut reg, Event::Message(&[0x31, 1, 7]), 2);
    assert!(matches!(end, Action::End(Exit::VideoOnAudioOnly)));
    assert!(matches!(s.step(&mut reg, Event::PeerClosed, 3), Action::End(Exit::PeerClosed)));
    assert!(matches!(s.step(&mut reg, Event::ReadFailed, 3), Action::End(Exit::SocketError)));
    assert!(matches!(s.step(&mut reg, Event::WriterEnded, 3), Action::End(Exit::WriteFailed)));
    let swapped = s.step(&mut reg, Event::SourceChanged, 3);
    assert!(matches!(swapped, Action::End(Exit::SourceSwapped)));
    assert!(matches!(s.step(&mut reg, Event::FrameReady, 3), Action::Forward));
    let full = s.step(&mut reg, Event::Sent(Delivery::Full), 3);
    assert!(matches!(full, Action::End(Exit::QueueFull)));
    let _ = s.step(&mut reg, Event::Lagged(4), 3);
    assert_eq!(reg.entries[0].frames_dropped, 4);
    assert_eq!(send_exit(Delivery::Closed), Some(Exit::WriteFailed));
    assert_eq!(send_exit(Delivery::Queued), None);
}

#[test]
fn an_uplink_has_a_budget() {
    assert_eq!(caster_budget(&None), 2_097_152);
    let fast = CastTargets { video_kbps: 40_000, ..targets(true) };
    assert_eq!(caster_budget(&Some(fast)), (40_000_000 + 128_000) / 8 * 3);
    let (mut start, mut bytes) = (0u64, 0u64);
    assert!(!uplink_rate_exceeded(&mut start, &mut bytes, 60, 100, 5));
    assert!(uplink_rate_exceeded(&mut start, &mut bytes, 60, 100, 6));
    assert!(!uplink_rate_exceeded(&mut start, &mut bytes, 60, 100, 1_000_000_000));
    assert_eq!((start, bytes), (1_000_000_000, 60));
    bytes = u64::MAX;
    assert!(!uplink_rate_exceeded(&mut start, &mut bytes, 100, 100, 2_000_000_000));
    assert_eq!((start, bytes), (2_000_000_000, 100));
}

#[test]
fn endings_are_graded() {
    assert!(Exit::UplinkRate.is_guard() && !Exit::UplinkRate.is_normal());
    assert!(Exit::PeerClosed.is_normal());
    assert_eq!(Exit::QueueFull.label(), "outbound queue full (client too far behind)");
    assert_eq!(farewell(Exit::OversizeVideo), Farewell::Evicted);
    assert_eq!(farewell(Exit::PeerClosed), Farewell::Disconnected);
    assert_eq!(farewell(Exit::SocketError), Farewell::Abnormal);
    assert_eq!(log_safe("a\nb\u{85}"), "a.b.");
    assert!(log_safe(&"x".repeat(500)).ends_with('…'));
}

fn two_clients() -> Registry {
    let mut reg = Registry::new();
    for (id, name) in [("one", "Phone"), ("two", "")] {
        let c = reg.connect();
        reg.identify(c, id.to_string(), name.to_string());
    }
    let _ = reg.connect(); // still connecting
    reg
}

#[test]
fn all_clients_are_aligned_in_turn() {
    let mut reg = two_clients();
    let mut m = Mixer::new();
    assert!(can_calibrate(&reg));
    let orders = match m.calibrate(&mut reg, CalibCommand::Start) {
        CalibOutcome::Orders(o) => o,
        _ => panic!("two clients are enough"),
    };
    assert!(m.calibrating);
    assert_eq!(orders.len(), 2);
    assert_eq!(orders[0].conn_id, 1);
    assert_eq!(orders[0].message, calib_role_msg(1, 0x9e37_79b9, 0, 0));
    let seed = 0x9e37_79b9u32 ^ 0x9e37_79b1u32.wrapping_mul(1);
    assert_eq!(orders[1].message, calib_role_msg(2, 0x9e37_79b9, seed, 0));
    assert_eq!(reg.entries[0].calib_status, "reference");
    assert_eq!(reg.entries[1].calib_status, "queued…");
    assert_eq!(reg.entries[2].calib_status, "");
    let waiting = m.calibrate(&mut reg, CalibCommand::Nothing);
    assert!(matches!(waiting, CalibOutcome::Nothing));
    reg.set_calib_status(2, "aligned -12 ms".to_string());
    assert!(calibration_done(&reg));
    match m.calibrate(&mut reg, CalibCommand::Nothing) {
        CalibOutcome::Stop(ids) => assert_eq!(ids, vec![1, 2, 3]),
        _ => panic!("the run is over"),
    }
    assert!(!m.calibrating);
    assert_eq!(reg.entries[1].calib_status, "aligned -12 ms");
    assert!(matches!(m.calibrate(&mut reg, CalibCommand::Stop), CalibOutcome::Stop(_)));
    assert_eq!(reg.entries[1].calib_status, "");
    reg.disconnect(1);
    assert!(matches!(m.calibrate(&mut reg, CalibCommand::Start), CalibOutcome::TooFew));
}

#[test]
fn offsets_are_delivered_once_and_reset_on_both_ends() {
    let mut reg = two_clients();
    let mut m = Mixer::new();
    m.set_trim("two", 40);
    assert_eq!(trim_updates(&reg, &m.trims), vec![TrimUpdate { conn_id: 2, ms: 40 }]);
    reg.set_delivered_trim(2, 40);
    assert!(trim_updates(&reg, &m.trims).is_empty());
    let told = reset_sync(&mut m.trims, &reg, Some("two"));
    assert_eq!(told, vec![2]);
    assert_eq!(trim_updates(&reg, &m.trims), vec![TrimUpdate { conn_id: 2, ms: 0 }]);
    m.set_trim("one", 7);
    assert_eq!(reset_sync(&mut m.trims, &reg, None), vec![1, 2, 3]);
    assert_eq!(m.trims.get("one"), Some(&0));
    assert!(reset_text(true).contains("every"));
    assert!(reset_text(false).contains("that device"));
}

#[test]
fn clients_are_renamed_and_muted() {
    let mut reg = two_clients();
    let mut m = Mixer::new();
    let rows = m.rows(&reg);
    assert_eq!(rows[0].display, "Phone");
    assert_eq!(rows[1].display, "Client 2");
    assert!(!rows[2].identified);
    m.begin_rename("one", "Phone");
    m.edit_buffer = "  Kitchen ".to_string();
    m.commit_rename();
    assert_eq!(m.rows(&reg)[0].display, "Kitchen");
    // A name that was being typed when its client went is kept.
    m.begin_rename("two", "Client 2");
    m.edit_buffer = "Den".to_string();
    m.settle_rename(&reg);
    assert!(m.editing.is_some());
    reg.disconnect(2);
    m.settle_rename(&reg);
    assert!(m.editing.is_none());
    assert_eq!(m.names.get("two").unwrap(), "Den");
    // A blank one gives the own name back.
    m.begin_rename("one", "Kitchen");
    m.edit_buffer = " ".to_string();
    m.commit_rename();
    assert_eq!(m.rows(&reg)[0].display, "Phone");
    assert!(!m.is_silent("one"));
    m.toggle_mute("one");
    assert!(m.is_silent("one") && m.rows(&reg)[0].muted);
    m.toggle_mute("one");
    m.toggle_master();
    assert!(m.is_silent("one"));
    assert_eq!((level_text(true, 5), level_text(false, 5)), (" off".to_string(), "  5%".to_string()));
}

#[test]
fn rows_show_what_clients_report() {
    let mut reg = two_clients();
    let mut m = Mixer::new();
    m.set_trim("one", 3);
    reg.set_reported_trim(1, -18);
    reg.set_calib_status(2, "aligned".to_string());
    let _ = claim_slot(&mut reg.caster, 2);
    let rows = m.rows(&reg);
    assert_eq!((rows[0].shown_ms, rows[0].reported, rows[0].trim_ms), (-18, true, 3));
    assert_eq!((rows[1].shown_ms, rows[1].reported), (0, false));
    assert!(rows[1].calib_ok && rows[1].casting && !rows[0].casting);
    assert!(stop_cast(&mut reg, 2));
    assert_eq!(reg.caster, None);
    assert!(!stop_cast(&mut reg, 99));
}

#[test]
fn keyed_values_come_and_go() {
    let mut k: Keyed<i32> = Keyed::new();
    k.insert("a".to_string(), 1);
    k.insert("b".to_string(), 2);
    k.insert("a".to_string(), 3);
    assert_eq!((k.get("a"), k.get("b")), (Some(&3), Some(&2)));
    k.remove("a");
    assert_eq!((k.get("a"), k.get("b")), (None, Some(&2)));
}

#[test]
fn names_cannot_break_the_page() {
    assert_eq!(html_escape("<b>&\"'"), "&lt;b&gt;&amp;&quot;'");
    let mut reg = two_clients();
    reg.identify(1, "one".to_string(), "<script>".to_string());
    let page = status_page(&reg, &[100, 50, 100], &MediaHealth::default(), false, "1.0", 5);
    assert!(page.contains("&lt;script&gt;") && !page.contains("<script>"));
}

#[test]
fn the_shell_is_stamped_with_its_contents() {
    let sources = |app: &str| ShellSources {
        index: "<html>".to_string(),
        app_js: app.to_string(),
        dsp: "dsp".to_string(),
        service_worker: "sw".to_string(),
        manifest: "{}".to_string(),
    };
    let a = build_tag(&sources("one"));
    assert_eq!(a, build_tag(&sources("one")));
    assert_ne!(a, build_tag(&sources("two")));
    assert_eq!(index_body(&sources("one")), "<html>");
    assert_eq!(shell_body(&sources("one"), Shell::Dsp), "dsp");
    assert_eq!(Shell::AppJs.file_name(), "app.js");
    assert_eq!(Shell::Manifest.embedded(&sources("x")), "{}");
    assert!(Shell::Index.content_type().starts_with("text/html"));
}

fn words() -> CliWords {
    CliWords {
        codec: "opus".to_string(),
        encoder: "av1".to_string(),
        encode_device: "auto".to_string(),
        capture: "allapps".to_string(),
        app_pid: None,
        video: true,
        resolution: "1080p".to_string(),
        fps: "60".to_string(),
    }
}

#[test]
fn flags_are_read() {
    let c = read_cli(&words(), true).unwrap();
    assert_eq!((c.codec, c.encoder, c.encode_device), (
        CodecKind::Opus,
        EncoderBackend::Av1,
        EncodeDevice::Auto,
    ));
    assert_eq!(c.capture_source, CaptureSource::AllExceptSelf);
    let v = c.video.unwrap();
    assert_eq!((v.resolution, v.fps, v.quality_pct), (Resolution::P1080, Fps::F60, 100));
    assert_eq!(parse_capture("app", Some(3)), Ok(CaptureSource::App { pid: 3 }));
    assert!(encoder_names_device("GPU") && !encoder_names_device("vp9"));
    assert_eq!(effective_port(None, None), DEFAULT_HTTP_PORT);
    assert_eq!(effective_port(None, Some(5)), 5);
    assert_eq!(effective_port(Some(6), Some(5)), 6);
}

#[test]
fn wrong_flags_are_refused() {
    let w = CliWords { codec: "mp3".to_string(), ..words() };
    let e = read_cli(&w, true).unwrap_err();
    assert_eq!(e, CliError::UnknownCodec);
    assert_eq!(e.message(&w), "unknown codec 'mp3' (use opus or pcm)");
    let w = CliWords { encoder: "h264".to_string(), ..words() };
    assert_eq!(read_cli(&w, true), Err(CliError::UnknownEncoder));
    let w = CliWords { encode_device: "tpu".to_string(), ..words() };
    assert_eq!(read_cli(&w, true), Err(CliError::UnknownDevice));
    let w = CliWords { capture: "mic".to_string(), ..words() };
    assert_eq!(read_cli(&w, true), Err(CliError::UnknownCapture));
    let w = CliWords { capture: "app".to_string(), ..words() };
    assert_eq!(read_cli(&w, true), Err(CliError::MissingPid));
    let w = CliWords { resolution: "8k".to_string(), ..words() };
    assert_eq!(read_cli(&w, true), Err(CliError::UnknownResolution));
    assert_eq!(read_cli(&words(), false), Err(CliError::NoScreenCapture));
    let w = CliWords { capture: "web".to_string(), ..words() };
    assert!(read_cli(&w, false).is_ok());
}
