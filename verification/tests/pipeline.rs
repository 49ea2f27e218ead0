//! Stamps, liveness, the video producer and the codecs.

use newfoundsync::bitstream::{
    annexb_has_h264_idr, annexb_has_hevc_irap, is_keyframe, obu_has_av1_keyframe,
    read_ivf_packets, vp9_frame_is_keyframe, BitstreamKind, IvfEnd, IvfReader,
};
use newfoundsync::config::{
    CaptureSource, CodecKind, EncodeDevice, EncoderBackend, Fps, Resolution, VideoConfig,
    VideoTarget,
};
use newfoundsync::h264::{
    decoded, h264_settings, worker_threads, H264Decoder, H264Encoder, H264Error,
};
use newfoundsync::health::{
    audio_stall_is_a_fault, health_json, AudioNote, LogThrottle, MediaHealth, ServerFacts,
    VideoNote, Watchdog,
};
use newfoundsync::media::{
    audio_backend, audio_encoded, audio_frame, audio_pts, loopback_name, plan_stream,
    resolve_encoder, video_frame, video_pts, AudioBackend, BuildFeatures, CastRelay, MediaConfig, MediaOptions,
    Platform,
};
use newfoundsync::producer::{joins, tick_rest, Ending, Producer, ProducerAction, ProducerEvent};
use newfoundsync::wire::CastTargets;
use openh264::encoder::{BitRate, EncoderConfig, FrameRate, RateControlMode, UsageType};
use std::time::{SystemTime, UNIX_EPOCH};

const LEAD: i64 = 100_000_000; //  100 ms
const NOMINAL: i64 = 33_333_333; // ~1/30 s, the tick the producer AIMS for
const ACTUAL: i64 = 38_000_000; //  what a tick really costs when encoding is slow

const LATENCY: i64 = 40_000_000; // 40 ms of poll wait + scale + encode, as measured

fn mono_now() -> i64 {
    SystemTime::now().duration_since(UNIX_EPOCH).unwrap().as_nanos() as i64
}

#[test]
fn a_fresh_frame_is_stamped_from_its_own_capture_time() {
    let captured = 1_700_000_000_000_000_000i64;
    let published_later = captured + LATENCY;
    assert_eq!(video_pts(true, captured, published_later, LEAD, None), captured + LEAD);
    // A prior publish must not change a fresh frame's answer — its own capture time is the truth.
    let pts = video_pts(true, captured, published_later, LEAD, Some((999, published_later)));
    assert_eq!(pts, captured + LEAD);
}

#[test]
fn a_repeat_with_no_prior_publish_is_stamped_now() {
    let captured = 1_700_000_000_000_000_000i64;
    let now = captured + 9_000_000_000; // 9 s of an idle screen
    assert_eq!(video_pts(false, captured, now, LEAD, None), now + LEAD);
}

#[test]
fn a_repeat_inherits_the_back_dating_of_the_frame_it_extends() {
    let captured = 1_000_000_000i64;
    let published = captured + LATENCY;
    let fresh = video_pts(true, captured, published, LEAD, None);
    let later = published + NOMINAL;
    let repeat = video_pts(false, captured, later, LEAD, Some((fresh, published)));
    assert_eq!(repeat, later - LATENCY + LEAD, "a repeat carries the SAME {LATENCY} ns back-dating");
    assert!(repeat > fresh, "and is still strictly increasing");
}

#[test]
fn a_fresh_frame_after_repeats_does_not_step_back() {
    let mut now = 1_000_000_000i64;
    let mut prev = Some((video_pts(true, now - LATENCY, now, LEAD, None), now));
    for _ in 0..10 {
        now += ACTUAL;
        prev = Some((video_pts(false, now - LATENCY, now, LEAD, prev), now));
    }
    now += ACTUAL;
    let fresh = video_pts(true, now - LATENCY, now, LEAD, prev);
    assert!(fresh > prev.unwrap().0, "a fresh frame must not sort behind the repeats before it");
}

#[test]
fn repeats_cannot_drift_when_ticks_run_slower_than_nominal() {
    let start = 1_000_000_000i64;
    let mut now = start;
    let mut prev = Some((video_pts(true, now - LATENCY, now, LEAD, None), now));
    for i in 1..=500 {
        now += ACTUAL;
        let pts = video_pts(false, 42, now, LEAD, prev);
        assert_eq!(pts - prev.unwrap().0, ACTUAL, "repeat {i} tracks the real clock, not nominal fps");
        assert_eq!(pts, now - LATENCY + LEAD, "and never accumulates error");
        prev = Some((pts, now));
    }
    assert!(NOMINAL < ACTUAL, "the drift only existed because nominal < actual");
}

#[test]
fn a_repeat_after_an_unsubscribed_gap_is_not_past_due() {
    let now = 1_000_000_000i64;
    let prev = Some((video_pts(true, now - LATENCY, now, LEAD, None), now));
    let after_gap = now + 120_000_000_000; // 2 minutes with no subscribers
    let pts = video_pts(false, now - LATENCY, after_gap, LEAD, prev);
    assert_eq!(pts, after_gap - LATENCY + LEAD, "the gap is absorbed, not inherited");
}

#[test]
fn stall_helpers_distinguish_never_started_from_stopped() {
    let mut h = MediaHealth::default();
    assert_eq!(h.audio_stall_ms(), None, "no frames yet must be None, not a stall");
    assert_eq!(h.video_stall_ms(), None);
    assert_eq!(h.capture_stall_ms(), None);

    h.note_audio();
    let age = h.audio_stall_ms().expect("a published frame must produce Some(age)");
    assert!((0..1_000).contains(&age), "age right after a frame should be ~0ms, got {age}");
    assert_eq!(h.audio_frames, 1);
    // Publishing audio must not make video look alive.
    assert_eq!(h.video_stall_ms(), None, "audio frames must not affect the video age");
}

#[test]
fn a_stale_timestamp_reads_as_stalled() {
    let mut h = MediaHealth::default();
    // 10s ago on the same clock the helpers read.
    h.last_audio_ns = mono_now() - 10_000_000_000;
    let ms = h.audio_stall_ms().expect("a set timestamp must yield Some");
    assert!(ms >= 9_000, "expected ~10000ms of staleness, got {ms}");
    assert!(ms > 2_000, "must exceed the watchdog's 2s threshold");
}

#[test]
fn fresh_video_with_stale_capture_is_a_frozen_picture() {
    let mut h = MediaHealth::default();
    h.note_video(); // encoder still producing
    h.last_capture_ns = mono_now() - 5_000_000_000; // capture died 5s ago
    assert!(h.video_stall_ms().unwrap() < 2_000, "video should look fresh");
    assert!(h.capture_stall_ms().unwrap() > 2_000, "capture should look stale");
}

#[test]
fn log_throttle_emits_first_then_suppresses_with_a_count() {
    let mut t = LogThrottle::new();
    assert_eq!(t.tick(), Some(0), "the first occurrence must log immediately");
    assert_eq!(t.tick(), None, "an immediate repeat must be suppressed");
    assert_eq!(t.tick(), None);
    assert_eq!(t.suppressed, 2, "suppressed occurrences must be counted for the next line");
}

#[test]
fn log_throttle_reports_what_it_swallowed() {
    let mut t = LogThrottle::new();
    assert_eq!(t.tick_at(0), Some(0));
    assert_eq!(t.tick_at(1), None);
    assert_eq!(t.tick_at(2), None);
    assert_eq!(t.tick_at(60_000_000_000), Some(2));
    assert_eq!(t.suppressed, 0);
}

#[test]
fn h264_idr_detection() {
    // Annex-B start code + NAL header; type = byte & 0x1f (5 = IDR).
    assert!(annexb_has_h264_idr(&[0, 0, 1, 0x65])); // 0x65 & 0x1f == 5
    assert!(!annexb_has_h264_idr(&[0, 0, 1, 0x61])); // type 1 (non-IDR)
}

#[test]
fn vp9_keyframe_detection() {
    assert!(vp9_frame_is_keyframe(&[0x80])); // marker=10, show_existing=0, frame_type=0 → KEY
    assert!(!vp9_frame_is_keyframe(&[0x84])); // frame_type=1 → inter frame
    assert!(!vp9_frame_is_keyframe(&[0x88])); // show_existing_frame=1 → repeat, not a keyframe
    assert!(!vp9_frame_is_keyframe(&[0x00])); // frame_marker != 10 → not a VP9 frame
    assert!(!vp9_frame_is_keyframe(&[])); // empty
}

fn h264_config(fps: u32, kbps: u32) -> EncoderConfig {
    let s = h264_settings(fps, kbps, Some(2));
    EncoderConfig::new()
        .rate_control_mode(RateControlMode::Bitrate)
        .bitrate(BitRate::from_bps(s.bitrate_bps))
        .max_frame_rate(FrameRate::from_hz(s.fps as f32))
        .usage_type(UsageType::ScreenContentRealTime)
        .num_threads(s.threads)
        .skip_frames(false)
}

#[test]
fn h264_encode_decode_roundtrip() {
    let (w, h) = (320u32, 240u32);
    let mut enc = H264Encoder::new(w, h, h264_config(30, 1000)).expect("encoder");
    let mut dec = H264Decoder::new().expect("decoder");

    // A simple BGRA gradient frame.
    let mut bgra = vec![0u8; (w * h * 4) as usize];
    for y in 0..h {
        for x in 0..w {
            let i = ((y * w + x) * 4) as usize;
            bgra[i] = (x % 256) as u8; // B
            bgra[i + 1] = (y % 256) as u8; // G
            bgra[i + 2] = 128; // R
            bgra[i + 3] = 255; // A
        }
    }

    enc.force_keyframe();
    // Encode a few frames; the first IDR should decode.
    let mut decoded = None;
    for _ in 0..3 {
        let bits = enc.encode_bgra(&bgra).expect("encode");
        if bits.is_empty() {
            continue;
        }
        assert!(annexb_has_h264_idr(&bits));
        if let Some(frame) = dec.decode_rgba(&bits).expect("decode") {
            decoded = Some(frame);
            break;
        }
    }
    let (dw, dh, rgba) = decoded.expect("decoder produced a frame");
    assert_eq!((dw, dh), (w, h), "decoded dimensions match");
    assert_eq!(rgba.len(), (w * h * 4) as usize);
    // Alpha channel is filled opaque by write_rgba8.
    assert!(rgba.iter().skip(3).step_by(4).all(|&a| a == 255));
}

#[test]
fn a_picture_beyond_the_codec_is_refused() {
    let (w, h) = (3840u32, 2162u32);
    let mut enc = H264Encoder::new(w, h, h264_config(30, 1000)).expect("encoder");
    let bgra = vec![0u8; (w * h * 4) as usize];
    assert_eq!(enc.encode_bgra(&bgra).err(), Some(H264Error::Encode));
}

#[test]
fn threads_follow_the_cores() {
    assert_eq!(worker_threads(None), 4);
    assert_eq!(worker_threads(Some(1)), 1);
    assert_eq!(worker_threads(Some(6)), 6);
    assert_eq!(worker_threads(Some(64)), 8);
    assert_eq!(h264_settings(60, 4000, Some(64)).bitrate_bps, 4_000_000);
}

#[test]
fn keyframes_of_the_other_bitstreams() {
    assert!(annexb_has_hevc_irap(&[0, 0, 1, 0x26])); // type 19, an IDR
    assert!(!annexb_has_hevc_irap(&[0, 0, 1, 0x02])); // type 1
    // A temporal delimiter, then a sequence header.
    assert!(obu_has_av1_keyframe(&[0x12, 0x00, 0x0a, 0x01, 0x00]));
    assert!(!obu_has_av1_keyframe(&[0x12, 0x00, 0x32, 0x01, 0x00]));
    assert!(is_keyframe(BitstreamKind::H264, &[0, 0, 1, 0x65]));
    assert!(!is_keyframe(BitstreamKind::Hevc, &[0, 0, 1, 0x65]));
    assert!(!is_keyframe(BitstreamKind::Av1, &[]));
}

fn ivf(packets: &[&[u8]]) -> Vec<u8> {
    let mut v = b"DKIF".to_vec();
    v.resize(32, 0);
    for p in packets {
        v.extend_from_slice(&(p.len() as u32).to_le_bytes());
        v.extend_from_slice(&[0u8; 8]);
        v.extend_from_slice(p);
    }
    v
}

#[test]
fn ivf_packets_come_out_in_order() {
    let (packets, end) = read_ivf_packets(&ivf(&[&[1, 2, 3], &[], &[9]]));
    assert_eq!(packets, vec![vec![1u8, 2, 3], vec![], vec![9]]);
    assert_eq!(end, IvfEnd::Clean);
}

#[test]
fn ivf_faults_are_told_apart() {
    assert_eq!(read_ivf_packets(&[0u8; 31]).1, IvfEnd::HeaderCut);
    assert_eq!(read_ivf_packets(&[0u8; 32]).1, IvfEnd::NotIvf);
    let whole = ivf(&[&[1, 2, 3]]);
    assert_eq!(read_ivf_packets(&whole[..whole.len() - 1]).1, IvfEnd::PacketCut);
    let mut huge = ivf(&[&[]]);
    huge[32..36].copy_from_slice(&(16 * 1024 * 1024 + 1u32).to_le_bytes());
    assert_eq!(read_ivf_packets(&huge).1, IvfEnd::TooLarge(16 * 1024 * 1024 + 1));
    assert!(IvfEnd::Clean.trouble("eof").is_none());
    assert!(IvfEnd::NotIvf.trouble("eof").unwrap().contains("non-IVF"));
}

#[test]
fn frames_carry_their_stamp() {
    let m = audio_frame(0x0102030405060708, &[7, 8]);
    assert_eq!(m, vec![1, 1, 2, 3, 4, 5, 6, 7, 8, 7, 8]);
    let v = video_frame(1, true, &[5]);
    assert_eq!(v[0], 2);
    assert_eq!(v.last(), Some(&5));
    assert_ne!(video_frame(1, false, &[5]), v);
    // A frame of 20 ms was captured 20 ms before it is stamped.
    assert_eq!(audio_pts(1920, 1_000_000_000, 50, 7), 1_000_000_000 - 20_000_000 + 57);
}

fn options(source: CaptureSource, video: bool, encoder: EncoderBackend) -> MediaOptions {
    MediaOptions {
        name: "Den".to_string(),
        codec: CodecKind::Opus,
        bitrate: 510_000,
        lead_ms: 100,
        buffer_ms: 3000,
        capture_source: source,
        video: if video {
            Some(VideoConfig { resolution: Resolution::P1080, fps: Fps::F60, quality_pct: 100 })
        } else {
            None
        },
        video_target: VideoTarget::PrimaryMonitor,
        encoder,
        encode_device: EncodeDevice::Auto,
    }
}

#[test]
fn a_cast_needs_no_capture() {
    let build = BuildFeatures { vp9: false, screen_capture: false };
    let p = plan_stream(
        options(CaptureSource::WebUplink, true, EncoderBackend::Av1),
        build,
        8000,
        "av01",
        "vp09",
    );
    assert!(!p.local_audio);
    assert!(p.local_video.is_none());
    assert!(!p.video_dropped);
    assert!(p.config.video);
    let t = p.targets.expect("casters are told what to send");
    assert_eq!((t.width, t.height, t.fps, t.video_kbps), (1920, 1080, 60, 8000));
    assert_eq!(p.lead_ns, 100_000_000);
}

#[test]
fn video_without_a_capture_is_dropped() {
    let build = BuildFeatures { vp9: false, screen_capture: false };
    let p = plan_stream(
        options(CaptureSource::System, true, EncoderBackend::Vp9),
        build,
        8000,
        "av01",
        "vp09",
    );
    assert!(p.video_dropped);
    assert!(!p.config.video);
    assert!(p.local_audio);
    assert!(p.targets.is_none());
    assert_eq!(p.encoder, EncoderBackend::Av1);
    assert_eq!(resolve_encoder(EncoderBackend::Vp9, true), EncoderBackend::Vp9);
}

#[test]
fn the_configuration_is_written_as_json() {
    let c = MediaConfig {
        name: "Joe's \"den\"".to_string(),
        sample_rate: 48_000,
        channels: 2,
        audio_codec: "opus".to_string(),
        video: true,
        frame_rate: 30,
        buffer_ms: 3000,
        video_codec: "av01.0.08M.08".to_string(),
    };
    let s = c.to_json();
    assert!(s.starts_with('{') && s.ends_with('}'));
    assert!(s.contains("48000") && s.contains("av01.0.08M.08"));
    assert!(!s.contains("\"den\""));
}

#[test]
fn the_relay_derives_the_key_flag() {
    let targets = CastTargets {
        video_on: true,
        width: 1280,
        height: 720,
        fps: 30,
        video_kbps: 4000,
        audio_bps: 128_000,
        sample_rate: 48_000,
        channels: 2,
    };
    let relay = CastRelay { targets, lead_ns: 5 };
    let mut h = MediaHealth::default();
    let a = relay.push_audio(&[1, 2], &mut h, 1_000_000_000);
    assert_eq!(a[0], 1);
    assert_eq!(h.audio_frames, 1);
    let key = relay.push_video(&[0, 0, 1, 0x65], &mut h, 1_000_000_000).unwrap();
    let delta = relay.push_video(&[0, 0, 1, 0x61], &mut h, 1_000_000_000).unwrap();
    assert_eq!(h.video_frames, 2);
    assert_eq!(key[..9], delta[..9]);
    assert_ne!(key[9], delta[9]);
    let silent = CastRelay { targets: CastTargets { video_on: false, ..targets }, lead_ns: 5 };
    assert!(silent.push_video(&[0, 0, 1, 0x65], &mut h, 1).is_none());
}

#[test]
fn one_application_is_never_widened() {
    let one = CaptureSource::App { pid: 7 };
    assert_eq!(audio_backend(Platform::Linux, one), Some(AudioBackend::AppTap { pid: 7 }));
    assert_eq!(audio_backend(Platform::Windows, one), Some(AudioBackend::IncludeApp { pid: 7 }));
    assert_eq!(audio_backend(Platform::Linux, CaptureSource::WebUplink), None);
    assert_ne!(loopback_name(None), loopback_name(Some(7)));
}

#[test]
fn a_watchdog_speaks_once_each_way() {
    let mut h = MediaHealth::default();
    let mut w = Watchdog::new();
    assert!(w.look(&h, false, false, 10).audio.is_none());
    h.note_audio_at(1_000_000_000);
    let r = w.look(&h, false, false, 4_000_000_000);
    assert_eq!(r.audio, Some(AudioNote::Stopped(3000)));
    assert!(w.look(&h, false, false, 5_000_000_000).audio.is_none());
    h.note_audio_at(6_000_000_000);
    assert_eq!(w.look(&h, false, false, 6_000_000_000).audio, Some(AudioNote::Recovered));
    h.video_expected = true;
    h.note_video_at(6_000_000_000);
    assert_eq!(w.look(&h, false, false, 9_500_000_000).video, Some(VideoNote::Stopped(3500)));
    h.capture_closed = true;
    assert!(w.look(&h, false, false, 9_500_000_000).capture_closed);
    assert!(!w.look(&h, false, false, 9_600_000_000).capture_closed);
}

#[test]
fn a_cast_that_ended_is_no_fault() {
    let mut h = MediaHealth::default();
    h.note_audio_at(1);
    assert!(audio_stall_is_a_fault(&h, false, false, 5_000_000_000));
    assert!(!audio_stall_is_a_fault(&h, true, false, 5_000_000_000));
    assert!(audio_stall_is_a_fault(&h, true, true, 5_000_000_000));
}

#[test]
fn health_states_both_names_of_a_closed_capture() {
    let f = ServerFacts {
        build: "1.0 (abc)".to_string(),
        version: "1.0".to_string(),
        git_sha: "abc".to_string(),
        shell_tag: "t".to_string(),
        uptime_secs: 61,
        clients: 3,
        casting: false,
        cast_source: false,
    };
    let h = MediaHealth::default();
    let s = health_json(&f, &h, 5);
    assert!(s.contains("captureStalled") && s.contains("captureClosed"));
    assert!(s.contains("\"clients\":3"));
}

#[test]
fn the_producer_builds_encodes_and_publishes() {
    let mut h = MediaHealth::default();
    let mut p = Producer::new(EncodeDevice::Auto, LEAD, 0, &mut h);
    assert!(h.video_expected);
    let tick = ProducerEvent::Tick { new_frame: true, closed: false, watchers: 1 };
    assert_eq!(p.step(&mut h, tick, 10, 10), ProducerAction::BuildEncoder);
    let next = p.step(&mut h, ProducerEvent::EncoderReady, 11, 11);
    assert_eq!(next, ProducerAction::Encode { key: true });
    let done = ProducerEvent::Encoded { empty: false, captured_ns: 1000 };
    match p.step(&mut h, done, 12, 2000) {
        ProducerAction::Publish { pts, .. } => assert_eq!(pts, 1000 + LEAD),
        _ => panic!("an encoded picture is published"),
    }
    assert_eq!(h.video_frames, 1);
    let idle = ProducerEvent::Tick { new_frame: false, closed: true, watchers: 0 };
    let _ = p.step(&mut h, idle, 20, 20);
    assert!(h.capture_closed);
}

#[test]
fn ticks_rest_for_what_is_left() {
    assert_eq!(tick_rest(50, 5_000_000), 15_000_000);
    assert_eq!(tick_rest(50, 25_000_000), 0);
    assert!(joins(Ending::Clean));
    assert!(!joins(Ending::Stuck));
}

#[test]
fn what_the_decoder_finds_is_handed_on() {
    let picture = vec![1, 2, 3, 255, 4, 5, 6, 255];
    assert_eq!(decoded(Ok(Some((2, 1, picture.clone())))).unwrap(), Some((2, 1, picture)));
    assert_eq!(decoded(Ok(None)).unwrap(), None);
    assert_eq!(decoded(Err(openh264::Error::msg("cut"))).unwrap_err(), H264Error::Decode);
    assert!(H264Decoder::with_made(openh264::decoder::Decoder::new()).is_ok());
    let none = H264Decoder::with_made(Err(openh264::Error::msg("none")));
    assert_eq!(none.err(), Some(H264Error::CreateDecoder));
}

#[test]
fn a_capture_that_never_started_has_not_stalled() {
    let f = ServerFacts {
        build: "1.0 (abc)".to_string(),
        version: "1.0".to_string(),
        git_sha: "abc".to_string(),
        shell_tag: "t".to_string(),
        uptime_secs: 61,
        clients: 3,
        casting: false,
        cast_source: false,
    };
    let mut h = MediaHealth::default();
    let mut p = Producer::new(EncodeDevice::Auto, LEAD, 0, &mut h);
    let closed = ProducerEvent::Tick { new_frame: false, closed: true, watchers: 0 };
    let _ = p.step(&mut h, closed, 1, 1);
    let s = health_json(&f, &h, 5);
    assert!(s.contains("\"captureStalled\":false,\"captureClosed\":true"));
    h.note_capture_at(4);
    let s = health_json(&f, &h, 5);
    assert!(s.contains("\"captureStalled\":true,\"captureClosed\":true"));
}

#[test]
fn a_keyframe_that_is_asked_for_comes_out() {
    let (w, h) = (64u32, 64u32);
    let mut enc = H264Encoder::new(w, h, h264_config(30, 1000)).expect("encoder");
    let grey = vec![90u8; (w * h * 4) as usize];
    let first = enc.encode_bgra(&grey).expect("encode");
    assert!(annexb_has_h264_idr(&first));
    let second = enc.encode_bgra(&grey).expect("encode");
    assert!(!annexb_has_h264_idr(&second));
    enc.force_keyframe();
    let third = enc.encode_bgra(&grey).expect("encode");
    assert!(!third.is_empty() && annexb_has_h264_idr(&third));
    let fourth = enc.encode_bgra(&grey).expect("encode");
    assert!(!annexb_has_h264_idr(&fourth));
}

#[test]
fn the_log_throttle_loses_nothing() {
    let second = 1_000_000_000u64;
    let mut t = LogThrottle::new();
    let times = [0, 1, 4, 5, 7, 11, 16];
    let got: Vec<Option<u64>> = times.iter().map(|s| t.tick_at(s * second)).collect();
    assert_eq!(got, vec![Some(0), None, None, Some(2), None, Some(1), Some(0)]);
    assert_eq!(t.suppressed, 0);
}

#[test]
fn the_counters_keep_their_own_clock() {
    let mut h = MediaHealth::default();
    h.note_audio();
    h.note_capture();
    assert!(h.last_audio_ns >= h.base_ns && h.last_capture_ns >= h.last_audio_ns);
}

#[test]
fn what_the_encoder_makes_is_handed_on() {
    let none = H264Encoder::with_made(Err(openh264::Error::msg("none")), 64, 64);
    assert_eq!(none.err(), Some(H264Error::CreateEncoder));
    let mut enc = H264Encoder::new(64, 64, h264_config(30, 1000)).expect("encoder");
    assert_eq!(enc.handed_on(Ok(vec![1, 2])).unwrap(), vec![1, 2]);
    let failed = enc.handed_on(Err(openh264::Error::msg("cut")));
    assert_eq!(failed.unwrap_err(), H264Error::Encode);
    // A keyframe that is due stays due until a packet comes out.
    let grey = vec![90u8; 64 * 64 * 4];
    let _ = enc.encode_bgra(&grey).expect("encode");
    enc.force_keyframe();
    assert!(enc.handed_on(Ok(Vec::new())).unwrap().is_empty());
    assert!(annexb_has_h264_idr(&enc.encode_bgra(&grey).expect("encode")));
}

#[test]
fn a_read_that_fails_is_told_of() {
    let mut r = IvfReader::new();
    assert_eq!(r.failed("gone"), "read IVF header: gone");
    let mut header = vec![0u8; 32];
    header[..4].copy_from_slice(b"DKIF");
    let _ = r.take(&header);
    assert_eq!(r.failed("gone"), "read IVF packet header: gone");
    assert_eq!(r.finish(0), IvfEnd::Clean);
    let _ = r.take(&[5, 0, 0, 0, 0, 0, 0, 0, 0, 0, 0, 0]);
    assert_eq!(r.failed("gone"), "read IVF AV1 packet: gone");
}

#[test]
fn a_failed_audio_frame_is_counted() {
    let mut h = MediaHealth::default();
    let framed = audio_encoded(&mut h, Some(vec![7, 8]), 1, 9).expect("a frame");
    assert_eq!(framed, vec![1, 0, 0, 0, 0, 0, 0, 0, 1, 7, 8]);
    assert_eq!((h.audio_frames, h.last_audio_ns, h.audio_errors), (1, 9, 0));
    assert!(audio_encoded(&mut h, None, 2, 10).is_none());
    assert_eq!((h.audio_frames, h.last_audio_ns, h.audio_errors), (1, 9, 1));
}
