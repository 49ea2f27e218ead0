//! The media pipeline's rules: what a stream is made of, how frames are stamped and framed, and when
//! a picture is encoded.

use crate::bitstream;
use crate::config;
use crate::config::CaptureSource;
use crate::config::CodecKind;
use crate::config::EncodeDevice;
use crate::config::EncoderBackend;
use crate::config::VideoConfig;
use crate::config::VideoTarget;
use crate::health::MediaHealth;
use crate::text;
use crate::wire;
use crate::wire::CastTargets;
use vstd::prelude::*;

verus! {

/// An audio frame as clients get it: the tag, the time stamp and the packet.
pub open spec fn audio_frame_bytes(pts: i64, payload: Seq<u8>) -> Seq<u8> {
    seq![wire::FRAME_AUDIO] + wire::be_bytes(wire::bits64(pts), 8) + payload
}

/// A video frame as clients get it: the tag, the time stamp, the key flag and the access unit.
pub open spec fn video_frame_bytes(pts: i64, key: bool, payload: Seq<u8>) -> Seq<u8> {
    seq![wire::FRAME_VIDEO] + wire::be_bytes(wire::bits64(pts), 8) + seq![wire::flag_byte(key)]
        + payload
}

/// Builds an audio frame.
pub fn audio_frame(pts: i64, payload: &[u8]) -> (m: Vec<u8>)
    ensures
        m@ == audio_frame_bytes(pts, payload@),
{
    let mut m: Vec<u8> = Vec::new();
    m.push(wire::FRAME_AUDIO);
    wire::append_be(&mut m, wire::to_bits64(pts), 8);
    m.extend_from_slice(payload);
    assert(m@ =~= audio_frame_bytes(pts, payload@));
    m
}

/// Builds a video frame.
pub fn video_frame(pts: i64, key: bool, payload: &[u8]) -> (m: Vec<u8>)
    ensures
        m@ == video_frame_bytes(pts, key, payload@),
{
    let mut m: Vec<u8> = Vec::new();
    m.push(wire::FRAME_VIDEO);
    wire::append_be(&mut m, wire::to_bits64(pts), 8);
    m.push(
        if key {
            1
        } else {
            0
        },
    );
    m.extend_from_slice(payload);
    assert(m@ =~= video_frame_bytes(pts, key, payload@));
    m
}

/// A client finds in an audio frame the time stamp and the packet that the server put in.
pub proof fn law_audio_frame_read_back(pts: i64, payload: Seq<u8>)
    ensures
        ({
            let m = audio_frame_bytes(pts, payload);
            &&& m[0] == wire::FRAME_AUDIO
            &&& wire::from_bits64(wire::be_value(m.subrange(1, 9))) == pts
            &&& m.skip(9) == payload
        }),
{
    reveal_with_fuel(wire::byte_range, 9);
    wire::law_be_round_trip(wire::bits64(pts), 8);
    let m = audio_frame_bytes(pts, payload);
    assert(m.subrange(1, 9) =~= wire::be_bytes(wire::bits64(pts), 8));
    assert(m.skip(9) =~= payload);
}

/// A client finds in a video frame the time stamp, the key flag and the access unit that the server
/// put in.
pub proof fn law_video_frame_read_back(pts: i64, key: bool, payload: Seq<u8>)
    ensures
        ({
            let m = video_frame_bytes(pts, key, payload);
            &&& m[0] == wire::FRAME_VIDEO
            &&& wire::from_bits64(wire::be_value(m.subrange(1, 9))) == pts
            &&& m[9] == wire::flag_byte(key)
            &&& m.skip(10) == payload
        }),
{
    reveal_with_fuel(wire::byte_range, 9);
    wire::law_be_round_trip(wire::bits64(pts), 8);
    let m = video_frame_bytes(pts, key, payload);
    assert(m.subrange(1, 9) =~= wire::be_bytes(wire::bits64(pts), 8));
    assert(m.skip(10) =~= payload);
}

/// How long a frame of `samples` samples, all channels counted, plays, in nanoseconds.
pub open spec fn span_ns(samples: int) -> int {
    (samples / 2) * 1_000_000_000 / 48_000
}

/// The time stamp of an audio frame that was complete at `now_ns`: when its first sample was
/// captured, plus the lead and the operator's offset.
pub open spec fn audio_stamp(samples: int, now_ns: int, lead_ns: int, av_offset_ns: int) -> int {
    now_ns - span_ns(samples) + lead_ns + av_offset_ns
}

/// The time stamp of an audio frame that was complete at `now`: when its first sample was captured,
/// plus the lead and the operator's offset.
pub fn audio_pts(samples: usize, now_ns: i64, lead_ns: i64, av_offset_ns: i64) -> (pts: i64)
    requires
        i64::MIN <= audio_stamp(
            samples as int,
            now_ns as int,
            lead_ns as int,
            av_offset_ns as int,
        ) <= i64::MAX,
    ensures
        pts == audio_stamp(samples as int, now_ns as int, lead_ns as int, av_offset_ns as int),
{
    let span: i128 = ((samples / 2) as i128) * 1_000_000_000 / 48_000;
    let pts: i128 = now_ns as i128 - span + lead_ns as i128 + av_offset_ns as i128;
    pts as i64
}

/// A frame of 20 ms is stamped 20 ms before it was complete.
pub proof fn law_full_frame_spans_20_ms()
    ensures
        span_ns(config::FRAME_SAMPLES as int) == 20_000_000,
{
}

/// The time stamp of an encoded picture. A new picture is stamped from its capture. A repeated one
/// extends the last stamp by the time that went by since; if nothing was published before, it is
/// stamped now.
pub open spec fn video_stamp(
    fresh: bool,
    captured_ns: int,
    now_ns: int,
    lead_ns: int,
    prev: Option<(i64, i64)>,
) -> int {
    if fresh {
        captured_ns + lead_ns
    } else {
        match prev {
            Some((prev_pts, prev_now)) => prev_pts + (now_ns - prev_now),
            None => now_ns + lead_ns,
        }
    }
}

/// The time stamp of an encoded picture. `prev` is the stamp of the last published picture and when
/// it was published.
pub fn video_pts(
    fresh: bool,
    captured_ns: i64,
    now_ns: i64,
    lead_ns: i64,
    prev: Option<(i64, i64)>,
) -> (pts: i64)
    requires
        i64::MIN <= video_stamp(
            fresh,
            captured_ns as int,
            now_ns as int,
            lead_ns as int,
            prev,
        ) <= i64::MAX,
    ensures
        pts == video_stamp(fresh, captured_ns as int, now_ns as int, lead_ns as int, prev),
{
    if fresh {
        return captured_ns + lead_ns;
    }
    match prev {
        Some((prev_pts, prev_now)) => {
            (prev_pts as i128 + (now_ns as i128 - prev_now as i128)) as i64
        },
        None => now_ns + lead_ns,
    }
}

/// The stamp of the last of a run of repeats that were published at `times`, after a picture that
/// was stamped `pts` and published at `at`.
pub open spec fn stamp_after_repeats(pts: int, at: int, times: Seq<int>) -> int
    decreases times.len(),
{
    if times.len() == 0 {
        pts
    } else {
        stamp_after_repeats(pts + (times[0] - at), times[0], times.skip(1))
    }
}

/// However many repeats there are, and however irregular they come, the stamp keeps its distance to
/// the clock: it is as far from the time of the last repeat as the first stamp was from its own.
pub proof fn law_repeats_do_not_drift(pts: int, at: int, times: Seq<int>)
    requires
        times.len() > 0,
    ensures
        stamp_after_repeats(pts, at, times) - times.last() == pts - at,
    decreases times.len(),
{
    if times.len() > 1 {
        law_repeats_do_not_drift(pts + (times[0] - at), times[0], times.skip(1));
        assert(times.skip(1).last() == times.last());
    } else {
        reveal_with_fuel(stamp_after_repeats, 2);
        assert(times.skip(1).len() == 0);
    }
}

/// One step of the run is what the stamp of a repeat says.
pub proof fn law_repeat_is_one_step(
    captured_ns: int,
    now_ns: int,
    lead_ns: int,
    prev: (i64, i64),
)
    ensures
        video_stamp(false, captured_ns, now_ns, lead_ns, Some(prev)) == stamp_after_repeats(
            prev.0 as int,
            prev.1 as int,
            seq![now_ns],
        ),
{
    assert(seq![now_ns].skip(1) =~= Seq::<int>::empty());
    reveal_with_fuel(stamp_after_repeats, 2);
}

/// Stamps do not step back: a new picture that was captured no longer before its publication than
/// the one that the repeats extend is stamped no earlier than any of those repeats.
pub proof fn law_new_picture_does_not_step_back(
    captured: int,
    at: int,
    lead_ns: int,
    repeats: Seq<int>,
    captured_next: int,
    at_next: int,
)
    requires
        repeats.len() > 0,
        repeats.last() <= at_next,
        at_next - captured_next <= at - captured,
    ensures
        video_stamp(true, captured_next, at_next, lead_ns, None) >= stamp_after_repeats(
            video_stamp(true, captured, at, lead_ns, None),
            at,
            repeats,
        ),
{
    law_repeats_do_not_drift(captured + lead_ns, at, repeats);
}

/// What every browser is told when it connects.
pub struct MediaConfig {
    /// The server's name.
    pub name: String,
    /// Audio samples per second.
    pub sample_rate: u32,
    /// Audio channels.
    pub channels: u16,
    /// Audio codec.
    pub audio_codec: String,
    /// Whether there is video.
    pub video: bool,
    /// Pictures per second.
    pub frame_rate: u32,
    /// Milliseconds to buffer.
    pub buffer_ms: i64,
    /// Video codec.
    pub video_codec: String,
}

/// A character of a name in JSON: a backslash is doubled, and a quote becomes an apostrophe.
pub open spec fn json_char(c: char) -> Seq<char> {
    if c == '\\' {
        seq!['\\', '\\']
    } else if c == '"' {
        seq!['\'']
    } else {
        seq![c]
    }
}

/// A name in JSON.
pub open spec fn json_name(s: Seq<char>) -> Seq<char>
    decreases s.len(),
{
    if s.len() == 0 {
        Seq::empty()
    } else {
        json_name(s.drop_last()) + json_char(s.last())
    }
}

fn escape_name(s: &str) -> (r: String)
    ensures
        r@ == json_name(s@),
{
    let v = text::chars_of(s);
    let mut r = String::new();
    let mut i: usize = 0;
    while i < v.len()
        invariant
            v@ == s@,
            i <= v@.len(),
            r@ == json_name(s@.take(i as int)),
        decreases v@.len() - i,
    {
        let c: char = v[i];
        assert(s@.take(i + 1).drop_last() =~= s@.take(i as int));
        if c == '\\' {
            text::push_char(&mut r, '\\');
            text::push_char(&mut r, '\\');
        } else if c == '"' {
            text::push_char(&mut r, '\'');
        } else {
            text::push_char(&mut r, c);
        }
        assert(r@ =~= json_name(s@.take(i as int)) + json_char(c));
        i += 1;
    }
    assert(s@.take(i as int) =~= s@);
    r
}

/// A name put into JSON holds no quote, so it cannot end the string that it stands in.
pub proof fn law_name_holds_no_quote(s: Seq<char>)
    ensures
        forall|i: int| 0 <= i < json_name(s).len() ==> #[trigger] json_name(s)[i] != '"',
    decreases s.len(),
{
    if s.len() > 0 {
        let front = json_name(s.drop_last());
        let tail = json_char(s.last());
        law_name_holds_no_quote(s.drop_last());
        assert forall|i: int| 0 <= i < json_name(s).len() implies #[trigger] json_name(s)[i]
            != '"' by {
            if i < front.len() {
                assert(json_name(s)[i] == front[i]);
            } else {
                assert(json_name(s)[i] == tail[i - front.len()]);
            }
        }
    }
}

/// What every browser is told, as JSON.
pub open spec fn config_json(c: MediaConfig) -> Seq<char> {
    "{\"name\":\""@ + json_name(c.name@) + "\",\"sampleRate\":"@ + text::decimal(
        c.sample_rate as nat,
    ) + ",\"channels\":"@ + text::decimal(c.channels as nat) + ",\"audioCodec\":\""@ + c.audio_codec@
        + "\",\"video\":"@ + text::bool_text(c.video) + ",\"frameRate\":"@ + text::decimal(
        c.frame_rate as nat,
    ) + ",\"bufferMs\":"@ + text::decimal_int(c.buffer_ms as int) + ",\"videoCodec\":\""@
        + c.video_codec@ + "\"}"@
}

impl MediaConfig {
    /// The configuration as JSON.
    pub fn to_json(&self) -> (s: String)
        ensures
            s@ == config_json(*self),
    {
        let mut s = String::from_str("{\"name\":\"");
        s.append(escape_name(self.name.as_str()).as_str());
        s.append("\",\"sampleRate\":");
        text::append_decimal(&mut s, self.sample_rate as u64);
        s.append(",\"channels\":");
        text::append_decimal(&mut s, self.channels as u64);
        s.append(",\"audioCodec\":\"");
        s.append(self.audio_codec.as_str());
        s.append("\",\"video\":");
        text::append_bool(&mut s, self.video);
        s.append(",\"frameRate\":");
        text::append_decimal(&mut s, self.frame_rate as u64);
        s.append(",\"bufferMs\":");
        text::append_decimal_int(&mut s, self.buffer_ms);
        s.append(",\"videoCodec\":\"");
        s.append(self.video_codec.as_str());
        s.append("\"}");
        s
    }
}

/// Relays a caster's frames, which are encoded already, with time stamps of the server.
pub struct CastRelay {
    /// What the caster has to encode to.
    pub targets: CastTargets,
    /// How far ahead frames are stamped, in nanoseconds.
    pub lead_ns: i64,
}

/// The bytes of a message, if there is one.
pub open spec fn bytes_of(m: Option<Vec<u8>>) -> Option<Seq<u8>> {
    match m {
        Some(v) => Some(v@),
        None => None,
    }
}

/// What becomes of audio that was encoded, or could not be: with a packet it is framed with its time
/// stamp and counted at `now`; without one only the failure is counted.
pub open spec fn audio_step(
    packet: Option<Seq<u8>>,
    pts: i64,
    now: i64,
    h: MediaHealth,
    h_after: MediaHealth,
    m: Option<Seq<u8>>,
) -> bool {
    match packet {
        Some(p) => {
            &&& m == Some(audio_frame_bytes(pts, p))
            &&& h_after == (MediaHealth {
                audio_frames: h.audio_frames.wrapping_add(1),
                last_audio_ns: now,
                ..h
            })
        },
        None => {
            &&& m is None
            &&& h_after == (MediaHealth { audio_errors: h.audio_errors.wrapping_add(1), ..h })
        },
    }
}

/// What becomes of an access unit that a caster sent.
pub open spec fn relay_step(
    relay: CastRelay,
    unit: Seq<u8>,
    now: i64,
    h: MediaHealth,
    h_after: MediaHealth,
    m: Option<Seq<u8>>,
) -> bool {
    if relay.targets.video_on {
        &&& m == Some(
            video_frame_bytes((now + relay.lead_ns) as i64, bitstream::has_idr(unit), unit),
        )
        &&& h_after == (MediaHealth {
            video_frames: h.video_frames.wrapping_add(1),
            last_video_ns: now,
            ..h
        })
    } else {
        m is None && h_after == h
    }
}

impl CastRelay {
    /// Frames an audio packet that came at `now_ns`, and counts it.
    pub fn push_audio(&self, opus: &[u8], health: &mut MediaHealth, now_ns: i64) -> (m: Vec<u8>)
        requires
            i64::MIN <= now_ns + self.lead_ns <= i64::MAX,
        ensures
            audio_step(
                Some(opus@),
                (now_ns + self.lead_ns) as i64,
                now_ns,
                *old(health),
                *final(health),
                Some(m@),
            ),
    {
        let m = audio_frame(now_ns + self.lead_ns, opus);
        health.note_audio_at(now_ns);
        m
    }

    /// Frames an access unit that came at `now_ns`, and counts it. Whether it is a keyframe is found
    /// in its bytes. An audio-only relay passes no video on.
    pub fn push_video(&self, h264: &[u8], health: &mut MediaHealth, now_ns: i64) -> (m: Option<
        Vec<u8>,
    >)
        requires
            i64::MIN <= now_ns + self.lead_ns <= i64::MAX,
        ensures
            m is Some <==> self.targets.video_on,
            relay_step(*self, h264@, now_ns, *old(health), *final(health), bytes_of(m)),
    {
        if !self.targets.video_on {
            return None;
        }
        let key = bitstream::annexb_has_h264_idr(h264);
        let m = video_frame(now_ns + self.lead_ns, key, h264);
        health.note_video_at(now_ns);
        Some(m)
    }
}

/// What becomes of a captured frame, given what encoding it came to: with a packet it is framed with
/// its time stamp and counted at `now`; without one only the failure is counted.
pub fn audio_encoded(
    health: &mut MediaHealth,
    made: Option<Vec<u8>>,
    pts: i64,
    now: i64,
) -> (m: Option<Vec<u8>>)
    ensures
        audio_step(bytes_of(made), pts, now, *old(health), *final(health), bytes_of(m)),
{
    match made {
        Some(packet) => {
            let m = audio_frame(pts, packet.as_slice());
            health.note_audio_at(now);
            Some(m)
        },
        None => {
            health.audio_errors = health.audio_errors.wrapping_add(1);
            None
        },
    }
}

/// What a build can do.
#[derive(Clone, Copy, Debug, PartialEq, Eq, Structural)]
pub struct BuildFeatures {
    /// It can encode VP9.
    pub vp9: bool,
    /// It can capture a screen.
    pub screen_capture: bool,
}

/// The encoder that is used for a request: AV1 in place of VP9 where the build has none.
pub open spec fn resolved(requested: EncoderBackend, vp9: bool) -> EncoderBackend {
    if requested == EncoderBackend::Vp9 && !vp9 {
        EncoderBackend::Av1
    } else {
        requested
    }
}

/// The encoder that is used for a request.
pub fn resolve_encoder(requested: EncoderBackend, vp9: bool) -> (e: EncoderBackend)
    ensures
        e == resolved(requested, vp9),
{
    if matches!(requested, EncoderBackend::Vp9) && !vp9 {
        EncoderBackend::Av1
    } else {
        requested
    }
}

/// What a stream is started with.
pub struct MediaOptions {
    /// The server's name.
    pub name: String,
    /// How audio is encoded.
    pub codec: CodecKind,
    /// Audio bits per second.
    pub bitrate: i32,
    /// How far ahead frames are stamped, in milliseconds.
    pub lead_ms: i64,
    /// Milliseconds that clients buffer.
    pub buffer_ms: i64,
    /// Where the audio comes from.
    pub capture_source: CaptureSource,
    /// The video, if there is to be any.
    pub video: Option<VideoConfig>,
    /// What the screen capture takes.
    pub video_target: VideoTarget,
    /// How video is encoded.
    pub encoder: EncoderBackend,
    /// Where video is encoded.
    pub encode_device: EncodeDevice,
}

/// How a stream is set up.
pub struct StreamPlan {
    /// How far ahead frames are stamped, in nanoseconds.
    pub lead_ns: i64,
    /// How video is encoded.
    pub encoder: EncoderBackend,
    /// Whether audio is captured here.
    pub local_audio: bool,
    /// The screen that is captured here, if any.
    pub local_video: Option<VideoConfig>,
    /// Whether a screen was asked for that this build cannot capture.
    pub video_dropped: bool,
    /// What a caster has to encode to, for a stream that a client casts.
    pub targets: Option<CastTargets>,
    /// What browsers are told.
    pub config: MediaConfig,
}

/// Whether a client casts the stream.
pub open spec fn is_web(o: MediaOptions) -> bool {
    o.capture_source == CaptureSource::WebUplink
}

/// Whether the stream has video.
pub open spec fn has_video(o: MediaOptions, build: BuildFeatures) -> bool {
    o.video is Some && (is_web(o) || build.screen_capture)
}

/// How far ahead frames are stamped.
pub open spec fn lead_nanos(o: MediaOptions) -> int {
    if o.lead_ms > 0 {
        o.lead_ms * 1_000_000
    } else {
        0
    }
}

/// What a caster has to encode to. `kbps` is the bit rate that the video takes.
pub open spec fn cast_targets(o: MediaOptions, kbps: u32) -> CastTargets {
    let picture = match o.video {
        Some(v) => (
            config::resolution_dims(v.resolution).0 as u16,
            config::resolution_dims(v.resolution).1 as u16,
            config::fps_value(v.fps) as u8,
            kbps,
        ),
        None => (0u16, 0u16, 0u8, 0u32),
    };
    CastTargets {
        video_on: o.video is Some,
        width: picture.0,
        height: picture.1,
        fps: picture.2,
        video_kbps: picture.3,
        audio_bps: if o.bitrate > 0 {
            o.bitrate as u32
        } else {
            0
        },
        sample_rate: config::SAMPLE_RATE,
        channels: 2,
    }
}

/// The audio codec that browsers are told: a caster always sends Opus.
pub open spec fn advertised_audio(o: MediaOptions) -> Seq<char> {
    if is_web(o) {
        "opus"@
    } else {
        config::codec_token(o.codec)
    }
}

/// The video codec that browsers are told: a caster always sends H.264; otherwise it is the one that
/// the encoder makes.
pub open spec fn advertised_video(
    o: MediaOptions,
    build: BuildFeatures,
    av1: Seq<char>,
    vp9: Seq<char>,
) -> Seq<char> {
    if is_web(o) {
        "avc1.42E01F"@
    } else if resolved(o.encoder, build.vp9) == EncoderBackend::Vp9 {
        vp9
    } else {
        av1
    }
}

/// Whether `c` is what browsers are told of the stream.
pub open spec fn is_config(
    c: MediaConfig,
    o: MediaOptions,
    build: BuildFeatures,
    av1: Seq<char>,
    vp9: Seq<char>,
) -> bool {
    &&& c.name@ == o.name@
    &&& c.sample_rate == config::SAMPLE_RATE
    &&& c.channels == config::CHANNELS
    &&& c.audio_codec@ == advertised_audio(o)
    &&& c.video == has_video(o, build)
    &&& c.frame_rate == match o.video {
        Some(v) => config::fps_value(v.fps),
        None => 30,
    }
    &&& c.buffer_ms == o.buffer_ms
    &&& c.video_codec@ == advertised_video(o, build, av1, vp9)
}

/// Whether `p` is how the stream is set up.
pub open spec fn is_plan(
    p: StreamPlan,
    o: MediaOptions,
    build: BuildFeatures,
    kbps: u32,
    av1: Seq<char>,
    vp9: Seq<char>,
) -> bool {
    &&& p.lead_ns == lead_nanos(o)
    &&& p.encoder == resolved(o.encoder, build.vp9)
    &&& p.local_audio == !is_web(o)
    &&& p.local_video == if !is_web(o) && build.screen_capture {
        o.video
    } else {
        None
    }
    &&& p.video_dropped == (o.video is Some && !is_web(o) && !build.screen_capture)
    &&& p.targets == if is_web(o) {
        Some(cast_targets(o, kbps))
    } else {
        None
    }
    &&& is_config(p.config, o, build, av1, vp9)
}

/// Plans a stream. `kbps` is the bit rate that the wanted video takes; `av1` and `vp9` are the codec
/// names for its size and frame rate.
pub fn plan_stream(
    opts: MediaOptions,
    build: BuildFeatures,
    kbps: u32,
    av1: &str,
    vp9: &str,
) -> (p: StreamPlan)
    requires
        lead_nanos(opts) <= i64::MAX,
    ensures
        is_plan(p, opts, build, kbps, av1@, vp9@),
{
    let encoder = resolve_encoder(opts.encoder, build.vp9);
    let lead_ns: i64 = if opts.lead_ms > 0 {
        opts.lead_ms * 1_000_000
    } else {
        0
    };
    let web = matches!(opts.capture_source, CaptureSource::WebUplink);
    let wanted = opts.video.is_some();
    let local_video = if !web && build.screen_capture {
        opts.video
    } else {
        None
    };
    let video_on = wanted && (web || build.screen_capture);
    let targets = if web {
        let mut width: u16 = 0;
        let mut height: u16 = 0;
        let mut fps: u8 = 0;
        let mut video_kbps: u32 = 0;
        if let Some(v) = opts.video {
            let (w, h) = v.resolution.dims();
            width = w as u16;
            height = h as u16;
            fps = v.fps.value() as u8;
            video_kbps = kbps;
        }
        let audio_bps: u32 = if opts.bitrate > 0 {
            opts.bitrate as u32
        } else {
            0
        };
        Some(
            CastTargets {
                video_on: wanted,
                width,
                height,
                fps,
                video_kbps,
                audio_bps,
                sample_rate: config::SAMPLE_RATE,
                channels: 2,
            },
        )
    } else {
        None
    };
    let frame_rate: u32 = match opts.video {
        Some(v) => v.fps.value(),
        None => 30,
    };
    let audio_codec = if web {
        String::from_str("opus")
    } else {
        String::from_str(opts.codec.token())
    };
    let video_codec = if web {
        String::from_str("avc1.42E01F")
    } else if matches!(encoder, EncoderBackend::Vp9) {
        String::from_str(vp9)
    } else {
        String::from_str(av1)
    };
    let config = MediaConfig {
        name: opts.name,
        sample_rate: config::SAMPLE_RATE,
        channels: config::CHANNELS,
        audio_codec,
        video: video_on,
        frame_rate,
        buffer_ms: opts.buffer_ms,
        video_codec,
    };
    StreamPlan {
        lead_ns,
        encoder,
        local_audio: !web,
        local_video,
        video_dropped: wanted && !web && !build.screen_capture,
        targets,
        config,
    }
}

/// What is advertised is what is sent: for a stream captured here the codec name is the one of the
/// encoder in use, so a build without VP9 never promises it.
pub proof fn law_advertised_codec_is_the_one_encoded(
    o: MediaOptions,
    build: BuildFeatures,
    av1: Seq<char>,
    vp9: Seq<char>,
)
    requires
        !is_web(o),
    ensures
        advertised_video(o, build, av1, vp9) == (if resolved(o.encoder, build.vp9)
            == EncoderBackend::Vp9 {
            vp9
        } else {
            av1
        }),
        !build.vp9 ==> advertised_video(o, build, av1, vp9) == av1,
{
}

/// The system that the server runs on.
#[derive(Clone, Copy, Debug, PartialEq, Eq, Structural)]
pub enum Platform {
    /// Linux.
    Linux,
    /// Windows.
    Windows,
    /// Any other.
    Other,
}

/// What stands for the device's name where a client casts.
pub const WEB_CAST_NAME: &'static str = "Web client cast";

/// How audio is captured.
#[derive(Clone, Copy, Debug, PartialEq, Eq, Structural)]
pub enum AudioBackend {
    /// The monitor of the default output.
    Monitor,
    /// The stream of one application.
    AppTap { pid: u32 },
    /// The loopback of the default output.
    SystemLoopback,
    /// The loopback of everything but this process.
    ExcludeSelf,
    /// The loopback of one application.
    IncludeApp { pid: u32 },
}

/// How a source is captured on a system; not at all if a client casts.
pub open spec fn backend_for(platform: Platform, source: CaptureSource) -> Option<AudioBackend> {
    match source {
        CaptureSource::WebUplink => None,
        CaptureSource::System => if platform == Platform::Linux {
            Some(AudioBackend::Monitor)
        } else {
            Some(AudioBackend::SystemLoopback)
        },
        CaptureSource::AllExceptSelf => match platform {
            Platform::Linux => Some(AudioBackend::Monitor),
            Platform::Windows => Some(AudioBackend::ExcludeSelf),
            Platform::Other => Some(AudioBackend::SystemLoopback),
        },
        CaptureSource::App { pid } => match platform {
            Platform::Linux => Some(AudioBackend::AppTap { pid }),
            Platform::Windows => Some(AudioBackend::IncludeApp { pid }),
            Platform::Other => Some(AudioBackend::SystemLoopback),
        },
    }
}

/// How a source is captured on a system; not at all if a client casts.
pub fn audio_backend(platform: Platform, source: CaptureSource) -> (b: Option<AudioBackend>)
    ensures
        b == backend_for(platform, source),
{
    match source {
        CaptureSource::WebUplink => None,
        CaptureSource::System => match platform {
            Platform::Linux => Some(AudioBackend::Monitor),
            _ => Some(AudioBackend::SystemLoopback),
        },
        CaptureSource::AllExceptSelf => match platform {
            Platform::Linux => Some(AudioBackend::Monitor),
            Platform::Windows => Some(AudioBackend::ExcludeSelf),
            Platform::Other => Some(AudioBackend::SystemLoopback),
        },
        CaptureSource::App { pid } => match platform {
            Platform::Linux => Some(AudioBackend::AppTap { pid }),
            Platform::Windows => Some(AudioBackend::IncludeApp { pid }),
            Platform::Other => Some(AudioBackend::SystemLoopback),
        },
    }
}

/// Where one application can be captured, a chosen application is never widened to the whole
/// system.
pub proof fn law_one_app_is_never_widened(platform: Platform, pid: u32)
    requires
        platform != Platform::Other,
    ensures
        backend_for(platform, CaptureSource::App { pid }) == Some(AudioBackend::AppTap { pid })
            || backend_for(platform, CaptureSource::App { pid }) == Some(
            AudioBackend::IncludeApp { pid },
        ),
{
}

/// What a Windows loopback is called.
pub open spec fn loopback_label(pid: Option<u32>) -> Seq<char> {
    match pid {
        None => "All apps (survives mute)"@,
        Some(p) => "App (PID "@ + text::decimal(p as nat) + ", survives mute)"@,
    }
}

/// What a Windows loopback is called; `pid` is the application's, if it is one application.
pub fn loopback_name(pid: Option<u32>) -> (s: String)
    ensures
        s@ == loopback_label(pid),
{
    match pid {
        None => String::from_str("All apps (survives mute)"),
        Some(p) => {
            let mut s = String::from_str("App (PID ");
            text::append_decimal(&mut s, p as u64);
            s.append(", survives mute)");
            s
        },
    }
}

/// Frames begin with a tag that tells audio from video, then eight bytes of time stamp; a keyframe is
/// marked with a one and any other picture with a zero.
pub proof fn law_frame_layout(pts: i64, key: bool, payload: Seq<u8>)
    ensures
        audio_frame_bytes(pts, payload).len() == 9 + payload.len(),
        audio_frame_bytes(pts, payload)[0] == 0x01,
        video_frame_bytes(pts, key, payload).len() == 10 + payload.len(),
        video_frame_bytes(pts, key, payload)[0] == 0x02,
        video_frame_bytes(pts, key, payload)[9] == (if key {
            1u8
        } else {
            0u8
        }),
        audio_frame_bytes(pts, payload).subrange(1, 9) == video_frame_bytes(
            pts,
            key,
            payload,
        ).subrange(1, 9),
        audio_frame_bytes(pts, payload)[1] >= 0x80 <==> pts < 0,
        audio_frame_bytes(pts, payload)[8] == (pts as int) % 256,
{
    let n = wire::bits64(pts);
    wire::law_byte_order(n, 8, 0);
    wire::law_sign_is_in_the_highest_byte(0, pts);
    let a = audio_frame_bytes(pts, payload);
    let v = video_frame_bytes(pts, key, payload);
    assert(a.subrange(1, 9) =~= wire::be_bytes(n, 8));
    assert(v.subrange(1, 9) =~= wire::be_bytes(n, 8));
    assert(a[1] == wire::be_bytes(n, 8)[0]);
    assert(a[8] == wire::be_bytes(n, 8)[7]);
    assert(wire::byte_range(0) == 1);
    assert(n / 1 == n);
}

/// Stereo samples play at 48000 pairs a second: the span of a frame is that time, rounded down.
pub proof fn law_span_is_playing_time(pairs: int)
    requires
        pairs >= 0,
    ensures
        48_000 * span_ns(2 * pairs) <= 1_000_000_000 * pairs < 48_000 * (span_ns(2 * pairs) + 1),
{
    assert(2 * pairs / 2 == pairs);
}

/// An audio stamp follows the clock, the lead and the operator's offset one for one, and a longer
/// frame begins earlier by what it plays longer.
pub proof fn law_audio_stamp_moves(samples: int, more: int, now: int, lead: int, offset: int, by: int)
    requires
        samples >= 0,
        more >= 0,
    ensures
        audio_stamp(samples, now + by, lead, offset) == audio_stamp(samples, now, lead, offset) + by,
        audio_stamp(samples, now, lead + by, offset) == audio_stamp(samples, now, lead, offset) + by,
        audio_stamp(samples, now, lead, offset + by) == audio_stamp(samples, now, lead, offset) + by,
        audio_stamp(0, now, 0, 0) == now,
        audio_stamp(1920, now, 0, 0) == now - 20_000_000,
        audio_stamp(samples + 1920 * more, now, lead, offset) == audio_stamp(
            samples,
            now,
            lead,
            offset,
        ) - 20_000_000 * more,
{
    assert((samples + 1920 * more) / 2 == samples / 2 + 960 * more);
    assert((samples / 2 + 960 * more) * 1_000_000_000 / 48_000 == (samples / 2) * 1_000_000_000
        / 48_000 + 20_000_000 * more);
}

/// A caster's packet goes out unchanged, stamped with its arrival and the lead, and counts as audio
/// of that moment; a failure is counted and sends nothing.
pub proof fn law_audio_goes_out_unchanged(
    packet: Option<Seq<u8>>,
    pts: i64,
    now: i64,
    h: MediaHealth,
    h_after: MediaHealth,
    m: Option<Seq<u8>>,
)
    requires
        audio_step(packet, pts, now, h, h_after, m),
    ensures
        m is Some == packet is Some,
        m matches Some(f) ==> f[0] == 1 && f.subrange(9, f.len() as int) == packet->Some_0
            && wire::from_bits64(wire::be_value(f.subrange(1, 9))) == pts
                && h_after.last_audio_ns == now
            && h_after.audio_frames == h.audio_frames.wrapping_add(1) && h_after.audio_errors
            == h.audio_errors,
        m is None ==> h_after.audio_errors == h.audio_errors.wrapping_add(1) && h_after.audio_frames
            == h.audio_frames && h_after.last_audio_ns == h.last_audio_ns,
        h_after.video_frames == h.video_frames,
        h_after.last_video_ns == h.last_video_ns,
{
    if let Some(p) = packet {
        law_audio_frame_read_back(pts, p);
        let f = audio_frame_bytes(pts, p);
        law_frame_layout(pts, false, p);
        assert(f.skip(9) =~= f.subrange(9, f.len() as int));
    }
}

/// A caster's access unit goes out unchanged on a stream with video, stamped with its arrival and the
/// lead, and is marked as a keyframe by what is in it; an audio-only stream passes none on.
pub proof fn law_video_goes_out_unchanged(
    relay: CastRelay,
    unit: Seq<u8>,
    now: i64,
    h: MediaHealth,
    h_after: MediaHealth,
    m: Option<Seq<u8>>,
)
    requires
        i64::MIN <= now + relay.lead_ns <= i64::MAX,
        relay_step(relay, unit, now, h, h_after, m),
    ensures
        m is Some == relay.targets.video_on,
        m matches Some(f) ==> f[0] == 2 && f.subrange(10, f.len() as int) == unit
            && wire::from_bits64(
            wire::be_value(f.subrange(1, 9)),
        ) == now + relay.lead_ns && (f[9] == 1 <==> bitstream::has_idr(unit)) && h_after.last_video_ns
            == now && h_after.video_frames == h.video_frames.wrapping_add(1),
        m is None ==> h_after == h,
        h_after.audio_frames == h.audio_frames,
        h_after.capture_frames == h.capture_frames,
{
    let pts = (now + relay.lead_ns) as i64;
    let key = bitstream::has_idr(unit);
    law_video_frame_read_back(pts, key, unit);
    law_frame_layout(pts, key, unit);
    let f = video_frame_bytes(pts, key, unit);
    assert(f.skip(10) =~= f.subrange(10, f.len() as int));
}

/// Names are put into JSON character by character, in their order: a backslash takes two, a quote
/// becomes an apostrophe, and every other character stays.
pub proof fn law_names_are_written_in_order(a: Seq<char>, b: Seq<char>, c: char)
    ensures
        json_name(a + b) == json_name(a) + json_name(b),
        json_name(seq!['\\']) == seq!['\\', '\\'],
        json_name(seq!['"']) == seq!['\''],
        c != '\\' && c != '"' ==> json_name(seq![c]) == seq![c],
    decreases b.len(),
{
    reveal_with_fuel(json_name, 2);
    assert(seq!['\\'].drop_last() =~= Seq::empty());
    assert(seq!['"'].drop_last() =~= Seq::empty());
    assert(seq![c].drop_last() =~= Seq::empty());
    assert(json_name(seq!['\\']) =~= seq!['\\', '\\']);
    assert(json_name(seq!['"']) =~= seq!['\'']);
    if b.len() > 0 {
        law_names_are_written_in_order(a, b.drop_last(), c);
        assert((a + b).drop_last() =~= a + b.drop_last());
        assert(json_name(a + b) =~= json_name(a) + json_name(b));
    } else {
        assert(a + b =~= a);
        assert(json_name(a + b) =~= json_name(a) + json_name(b));
    }
}

/// The encoder is the one that was asked for, but VP9 becomes AV1 in a build that cannot make it.
pub proof fn law_encoder_is_the_one_asked_for(requested: EncoderBackend, vp9: bool)
    ensures
        vp9 ==> resolved(requested, vp9) == requested,
        !vp9 ==> resolved(requested, vp9) == EncoderBackend::Av1,
{
}

/// A stream comes from one place: either audio is captured here or a client casts. The stream has
/// video exactly if a screen is captured here or the caster sends it, browsers are told so, and
/// video that was asked for and cannot be had is known to be missing.
pub proof fn law_plan_has_one_source(
    p: StreamPlan,
    o: MediaOptions,
    build: BuildFeatures,
    kbps: u32,
    av1: Seq<char>,
    vp9: Seq<char>,
)
    requires
        is_plan(p, o, build, kbps, av1, vp9),
    ensures
        p.local_audio <==> p.targets is None,
        p.targets is Some <==> o.capture_source == CaptureSource::WebUplink,
        p.targets is Some ==> p.local_video is None,
        p.config.video <==> p.local_video is Some || (p.targets matches Some(t) && t.video_on),
        o.video is Some <==> p.config.video || p.video_dropped,
        !(p.config.video && p.video_dropped),
        p.local_video is Some ==> p.local_video == o.video && build.screen_capture,
        !build.vp9 ==> p.encoder == EncoderBackend::Av1,
{
}

/// What browsers are told of a stream fits what is sent: stereo at 48000 samples a second, the frame
/// rate of the video, the buffer that was asked for, and the codecs of whoever encodes.
pub proof fn law_browsers_are_told_the_truth(
    p: StreamPlan,
    o: MediaOptions,
    build: BuildFeatures,
    kbps: u32,
    av1: Seq<char>,
    vp9: Seq<char>,
)
    requires
        is_plan(p, o, build, kbps, av1, vp9),
    ensures
        p.config.sample_rate == 48_000,
        p.config.channels == 2,
        p.config.buffer_ms == o.buffer_ms,
        p.config.name@ == o.name@,
        p.targets is Some ==> p.config.audio_codec@ == "opus"@ && p.config.video_codec@
            == "avc1.42E01F"@,
        p.targets is None && o.codec == CodecKind::Opus ==> p.config.audio_codec@ == "opus"@,
        p.targets is None && o.codec == CodecKind::Pcm ==> p.config.audio_codec@ == "pcm"@,
        p.targets is None && p.encoder == EncoderBackend::Av1 ==> p.config.video_codec@ == av1,
        p.targets is None && p.encoder == EncoderBackend::Vp9 ==> p.config.video_codec@ == vp9,
        o.video matches Some(v) ==> (p.config.frame_rate == 60 <==> v.fps == config::Fps::F60),
        p.config.frame_rate == 30 || p.config.frame_rate == 60,
        o.lead_ms > 0 ==> p.lead_ns == 1_000_000 * o.lead_ms,
        o.lead_ms <= 0 ==> p.lead_ns == 0,
{
}

/// A caster is told the picture that the operator chose, and that there is none where video is off.
pub proof fn law_caster_is_told_the_picture(
    p: StreamPlan,
    o: MediaOptions,
    build: BuildFeatures,
    kbps: u32,
    av1: Seq<char>,
    vp9: Seq<char>,
)
    requires
        is_plan(p, o, build, kbps, av1, vp9),
        o.capture_source == CaptureSource::WebUplink,
    ensures
        p.targets matches Some(t) && {
            &&& t.sample_rate == 48_000 && t.channels == 2
            &&& o.bitrate > 0 ==> t.audio_bps == o.bitrate
            &&& o.bitrate <= 0 ==> t.audio_bps == 0
            &&& t.video_on <==> o.video is Some
            &&& o.video is None ==> t.width == 0 && t.height == 0 && t.fps == 0 && t.video_kbps == 0
            &&& o.video matches Some(v) ==> {
                &&& 9 * t.width == 16 * t.height
                &&& t.video_kbps == kbps
                &&& t.fps == p.config.frame_rate
                &&& v.resolution == config::Resolution::P720 ==> t.height == 720
                &&& v.resolution == config::Resolution::P1080 ==> t.height == 1080
                &&& v.resolution == config::Resolution::P1440 ==> t.height == 1440
                &&& v.resolution == config::Resolution::P2160 ==> t.height == 2160
            }
        },
{
}

/// A cast is captured nowhere and anything else somewhere; the server's own sound is left out where
/// the system can do that, and one application is captured alone where the system can.
pub proof fn law_sources_are_captured_as_chosen(platform: Platform, source: CaptureSource, pid: u32)
    ensures
        backend_for(platform, source) is None <==> source == CaptureSource::WebUplink,
        backend_for(Platform::Linux, CaptureSource::App { pid })
            == Some(AudioBackend::AppTap { pid }),
        backend_for(Platform::Windows, CaptureSource::App { pid }) == Some(
            AudioBackend::IncludeApp { pid },
        ),
        backend_for(platform, source) == Some(AudioBackend::ExcludeSelf) <==> platform
            == Platform::Windows && source == CaptureSource::AllExceptSelf,
        backend_for(platform, source) == Some(AudioBackend::Monitor)
            <==> platform == Platform::Linux && (
        source == CaptureSource::System || source == CaptureSource::AllExceptSelf),
{
}

/// Browsers find every part of the configuration under its own name.
pub proof fn law_configuration_has_its_fields(c: MediaConfig)
    ensures
        text::occurs(config_json(c), "{\"name\":\""@ + json_name(c.name@)),
        text::occurs(config_json(c), "\",\"sampleRate\":"@ + text::decimal(c.sample_rate as nat)),
        text::occurs(config_json(c), ",\"channels\":"@ + text::decimal(c.channels as nat)),
        text::occurs(config_json(c), ",\"audioCodec\":\""@ + c.audio_codec@),
        text::occurs(config_json(c), "\",\"video\":"@ + text::bool_text(c.video)),
        text::occurs(config_json(c), ",\"frameRate\":"@ + text::decimal(c.frame_rate as nat)),
        text::occurs(config_json(c), ",\"bufferMs\":"@ + text::decimal_int(c.buffer_ms as int)),
        text::occurs(config_json(c), ",\"videoCodec\":\""@ + c.video_codec@),
{
    let none = Seq::<char>::empty();
    let k0 = (
        "{\"name\":\""@,
        "\",\"sampleRate\":"@,
        ",\"channels\":"@,
        ",\"audioCodec\":\""@,
    );
    let v0 = (
        json_name(c.name@),
        text::decimal(c.sample_rate as nat),
        text::decimal(c.channels as nat),
        c.audio_codec@,
    );
    text::lemma_four_fields(none, k0, v0);
    let t0 = text::four_fields(none, k0, v0);
    let k4 = (
        "\",\"video\":"@,
        ",\"frameRate\":"@,
        ",\"bufferMs\":"@,
        ",\"videoCodec\":\""@,
    );
    let v4 = (
        text::bool_text(c.video),
        text::decimal(c.frame_rate as nat),
        text::decimal_int(c.buffer_ms as int),
        c.video_codec@,
    );
    text::lemma_four_fields(t0, k4, v4);
    let t4 = text::four_fields(t0, k4, v4);
    assert(none + k0.0 =~= k0.0);
    text::lemma_more(t4, "\"}"@, "{\"name\":\""@ + json_name(c.name@));
    text::lemma_more(t4, "\"}"@, "\",\"sampleRate\":"@ + text::decimal(c.sample_rate as nat));
    text::lemma_more(t4, "\"}"@, ",\"channels\":"@ + text::decimal(c.channels as nat));
    text::lemma_more(t4, "\"}"@, ",\"audioCodec\":\""@ + c.audio_codec@);
    text::lemma_more(t4, "\"}"@, "\",\"video\":"@ + text::bool_text(c.video));
    text::lemma_more(t4, "\"}"@, ",\"frameRate\":"@ + text::decimal(c.frame_rate as nat));
    text::lemma_more(t4, "\"}"@, ",\"bufferMs\":"@ + text::decimal_int(c.buffer_ms as int));
    text::lemma_more(t4, "\"}"@, ",\"videoCodec\":\""@ + c.video_codec@);
}

} // verus!
