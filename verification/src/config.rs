//! The operator's choices: codecs, devices, picture sizes, sources, and how they are written on the
//! command line.

use crate::text;
use vstd::prelude::*;

verus! {

/// Samples per second of every stream.
pub const SAMPLE_RATE: u32 = 48_000;

/// Channels of every stream.
pub const CHANNELS: u16 = 2;

/// Samples of all channels in one audio frame of 20 ms.
pub const FRAME_SAMPLES: usize = 1920;

/// The port that the web client is served on when none was chosen.
pub const DEFAULT_HTTP_PORT: u16 = 47_000;

/// Bits per second of the audio when none were chosen.
pub const DEFAULT_BITRATE_BPS: i32 = 510_000;

/// Milliseconds that clients buffer when none were chosen.
pub const DEFAULT_BUFFER_MS: i64 = 3_000;

/// Most milliseconds that clients buffer.
pub const MAX_BUFFER_MS: i64 = 15_000;

/// How audio is encoded.
#[derive(Clone, Copy, Debug, PartialEq, Eq, Structural)]
pub enum CodecKind {
    /// Opus.
    Opus,
    /// Uncompressed 16-bit samples.
    Pcm,
}

/// How video is encoded.
#[derive(Clone, Copy, Debug, PartialEq, Eq, Structural)]
pub enum EncoderBackend {
    /// AV1.
    Av1,
    /// VP9.
    Vp9,
}

/// Where video is encoded.
#[derive(Clone, Copy, Debug, PartialEq, Eq, Structural)]
pub enum EncodeDevice {
    /// On the graphics card, else on the processor.
    Auto,
    /// On the graphics card or not at all.
    Gpu,
    /// On the processor.
    Cpu,
}

/// The size of the video.
#[derive(Clone, Copy, Debug, PartialEq, Eq, Structural)]
pub enum Resolution {
    /// 1280 by 720.
    P720,
    /// 1920 by 1080.
    P1080,
    /// 2560 by 1440.
    P1440,
    /// 3840 by 2160.
    P2160,
}

/// The frame rate of the video.
#[derive(Clone, Copy, Debug, PartialEq, Eq, Structural)]
pub enum Fps {
    /// 30 per second.
    F30,
    /// 60 per second.
    F60,
}

/// The video that the operator asked for.
#[derive(Clone, Copy, Debug, PartialEq, Eq, Structural)]
pub struct VideoConfig {
    /// The size.
    pub resolution: Resolution,
    /// The frame rate.
    pub fps: Fps,
    /// The bit rate, in percent of what the size and the frame rate usually take.
    pub quality_pct: u16,
}

/// Where the shared audio comes from.
#[derive(Clone, Copy, Debug, PartialEq, Eq, Structural)]
pub enum CaptureSource {
    /// The mix of the default output.
    System,
    /// Every application but this one.
    AllExceptSelf,
    /// One application and its children.
    App { pid: u32 },
    /// No capture here: a web client casts, and its frames are relayed.
    WebUplink,
}

/// What the screen capture takes.
#[derive(Clone, Copy, Debug, PartialEq, Eq, Structural)]
pub enum VideoTarget {
    /// The primary monitor.
    PrimaryMonitor,
    /// One window, by its handle.
    Window { hwnd: isize },
}

/// Frames per second as a number.
pub open spec fn fps_value(f: Fps) -> u32 {
    match f {
        Fps::F30 => 30,
        Fps::F60 => 60,
    }
}

/// Width and height in pixels.
pub open spec fn resolution_dims(r: Resolution) -> (u32, u32) {
    match r {
        Resolution::P720 => (1280, 720),
        Resolution::P1080 => (1920, 1080),
        Resolution::P1440 => (2560, 1440),
        Resolution::P2160 => (3840, 2160),
    }
}

impl Fps {
    /// Frames per second.
    pub fn value(self) -> (n: u32)
        ensures
            n == fps_value(self),
    {
        match self {
            Fps::F30 => 30,
            Fps::F60 => 60,
        }
    }
}

/// How a resolution is written.
pub open spec fn resolution_token(r: Resolution) -> Seq<char> {
    match r {
        Resolution::P720 => "720p"@,
        Resolution::P1080 => "1080p"@,
        Resolution::P1440 => "1440p"@,
        Resolution::P2160 => "2160p"@,
    }
}

impl Resolution {
    /// Width and height in pixels.
    pub fn dims(self) -> (d: (u32, u32))
        ensures
            d == resolution_dims(self),
    {
        match self {
            Resolution::P720 => (1280, 720),
            Resolution::P1080 => (1920, 1080),
            Resolution::P1440 => (2560, 1440),
            Resolution::P2160 => (3840, 2160),
        }
    }

    /// The resolution that is written so, if one is.
    pub fn parse(s: &str) -> (r: Option<Resolution>)
        ensures
            match r {
                Some(v) => s@ == resolution_token(v),
                None => forall|v: Resolution| s@ != #[trigger] resolution_token(v),
            },
    {
        if text::same_text(s, "720p") {
            Some(Resolution::P720)
        } else if text::same_text(s, "1080p") {
            Some(Resolution::P1080)
        } else if text::same_text(s, "1440p") {
            Some(Resolution::P1440)
        } else if text::same_text(s, "2160p") {
            Some(Resolution::P2160)
        } else {
            None
        }
    }
}

/// How an audio codec is written.
pub open spec fn codec_token(k: CodecKind) -> Seq<char> {
    match k {
        CodecKind::Opus => "opus"@,
        CodecKind::Pcm => "pcm"@,
    }
}

impl CodecKind {
    /// The codec's name, as it is advertised to clients too.
    pub fn token(self) -> (s: &'static str)
        ensures
            s@ == codec_token(self),
    {
        match self {
            CodecKind::Opus => "opus",
            CodecKind::Pcm => "pcm",
        }
    }

    /// The codec that is written so, if one is.
    pub fn parse(s: &str) -> (r: Option<CodecKind>)
        ensures
            match r {
                Some(v) => s@ == codec_token(v),
                None => forall|v: CodecKind| s@ != #[trigger] codec_token(v),
            },
    {
        if text::same_text(s, "opus") {
            Some(CodecKind::Opus)
        } else if text::same_text(s, "pcm") {
            Some(CodecKind::Pcm)
        } else {
            None
        }
    }
}

/// How an encode device is written.
pub open spec fn device_token(d: EncodeDevice) -> Seq<char> {
    match d {
        EncodeDevice::Auto => "auto"@,
        EncodeDevice::Gpu => "gpu"@,
        EncodeDevice::Cpu => "cpu"@,
    }
}

impl EncodeDevice {
    /// How the device is written.
    pub fn token(self) -> (s: &'static str)
        ensures
            s@ == device_token(self),
    {
        match self {
            EncodeDevice::Auto => "auto",
            EncodeDevice::Gpu => "gpu",
            EncodeDevice::Cpu => "cpu",
        }
    }

    /// The device that is written so, if one is.
    pub fn parse(s: &str) -> (r: Option<EncodeDevice>)
        ensures
            match r {
                Some(v) => s@ == device_token(v),
                None => forall|v: EncodeDevice| s@ != #[trigger] device_token(v),
            },
    {
        if text::same_text(s, "auto") {
            Some(EncodeDevice::Auto)
        } else if text::same_text(s, "gpu") {
            Some(EncodeDevice::Gpu)
        } else if text::same_text(s, "cpu") {
            Some(EncodeDevice::Cpu)
        } else {
            None
        }
    }
}

/// The ASCII capitals of `c` made small.
pub open spec fn ascii_lower(c: char) -> char {
    if 'A' <= c <= 'Z' {
        (c as int + 32) as char
    } else {
        c
    }
}

/// The ASCII capitals of `s` made small.
pub open spec fn ascii_lowered(s: Seq<char>) -> Seq<char> {
    s.map_values(|c: char| ascii_lower(c))
}

/// Makes the ASCII capitals of a text small.
pub fn to_ascii_lower(s: &str) -> (r: String)
    ensures
        r@ == ascii_lowered(s@),
{
    let v = text::chars_of(s);
    let mut r = String::new();
    let mut i: usize = 0;
    while i < v.len()
        invariant
            v@ == s@,
            i <= v@.len(),
            r@ == ascii_lowered(s@.take(i as int)),
        decreases v@.len() - i,
    {
        let c: char = v[i];
        if 'A' <= c && c <= 'Z' {
            text::push_char(&mut r, ((c as u8) + 32) as char);
        } else {
            text::push_char(&mut r, c);
        }
        i += 1;
        assert(r@ =~= ascii_lowered(s@.take(i as int)));
    }
    assert(s@.take(i as int) =~= s@);
    r
}

/// Whether a small-letter word names a device. As an encoder it has only ever meant AV1.
pub open spec fn is_device_word(s: Seq<char>) -> bool {
    s == "auto"@ || s == "hardware"@ || s == "hw"@ || s == "gpu"@ || s == "cpu"@ || s == "software"@
        || s == "sw"@
}

/// Whether the encoder was named by a word for a device, which selects none.
pub fn encoder_names_device(s: &str) -> (r: bool)
    ensures
        r == is_device_word(ascii_lowered(s@)),
{
    let t = to_ascii_lower(s);
    let t = t.as_str();
    text::same_text(t, "auto") || text::same_text(t, "hardware") || text::same_text(t, "hw")
        || text::same_text(t, "gpu") || text::same_text(t, "cpu") || text::same_text(t, "software")
        || text::same_text(t, "sw")
}

/// The encoder that is written so, if one is.
pub open spec fn encoder_named(s: Seq<char>) -> Option<EncoderBackend> {
    if ascii_lowered(s) == "av1"@ || is_device_word(ascii_lowered(s)) {
        Some(EncoderBackend::Av1)
    } else if ascii_lowered(s) == "vp9"@ {
        Some(EncoderBackend::Vp9)
    } else {
        None
    }
}

impl EncoderBackend {
    /// The encoder that is written so, if one is. Words for devices mean AV1.
    pub fn parse(s: &str) -> (r: Option<EncoderBackend>)
        ensures
            r == encoder_named(s@),
    {
        let t = to_ascii_lower(s);
        if text::same_text(t.as_str(), "av1") || encoder_names_device(s) {
            Some(EncoderBackend::Av1)
        } else if text::same_text(t.as_str(), "vp9") {
            Some(EncoderBackend::Vp9)
        } else {
            None
        }
    }
}

/// `ms` brought into the range from `min` to `max`.
pub open spec fn clamped(ms: int, min: int, max: int) -> int {
    if ms < min {
        min
    } else if ms > max {
        max
    } else {
        ms
    }
}

/// Brings `v` into the range from `min` to `max`.
pub fn clamp_i64(v: i64, min: i64, max: i64) -> (r: i64)
    requires
        min <= max,
    ensures
        r == clamped(v as int, min as int, max as int),
{
    if v < min {
        min
    } else if v > max {
        max
    } else {
        v
    }
}

/// The command line as it was typed.
pub struct CliWords {
    /// The audio codec.
    pub codec: String,
    /// The video encoder.
    pub encoder: String,
    /// The encode device.
    pub encode_device: String,
    /// The audio source.
    pub capture: String,
    /// The process of an application source.
    pub app_pid: Option<u32>,
    /// Whether video is wanted.
    pub video: bool,
    /// The resolution.
    pub resolution: String,
    /// The frame rate.
    pub fps: String,
}

/// What the command line asks for.
#[derive(Clone, Copy, Debug, PartialEq, Eq, Structural)]
pub struct CliChoice {
    /// The audio codec.
    pub codec: CodecKind,
    /// The video encoder.
    pub encoder: EncoderBackend,
    /// The encode device.
    pub encode_device: EncodeDevice,
    /// The audio source.
    pub capture_source: CaptureSource,
    /// The video.
    pub video: Option<VideoConfig>,
}

/// Why a command line is refused.
#[derive(Clone, Copy, Debug, PartialEq, Eq, Structural)]
pub enum CliError {
    /// No such audio codec.
    UnknownCodec,
    /// No such video encoder.
    UnknownEncoder,
    /// No such encode device.
    UnknownDevice,
    /// No such audio source.
    UnknownCapture,
    /// An application source without its process.
    MissingPid,
    /// A local screen is to be shared by a build that cannot capture one.
    NoScreenCapture,
    /// No such resolution.
    UnknownResolution,
}

/// Whether the source is every application.
pub open spec fn names_all_apps(s: Seq<char>) -> bool {
    s == "allapps"@ || s == "exclude"@ || s == "all"@
}

/// Whether the source is a web client.
pub open spec fn names_web(s: Seq<char>) -> bool {
    s == "web"@ || s == "uplink"@ || s == "cast"@
}

/// The source that a word names.
pub open spec fn capture_named(s: Seq<char>, pid: Option<u32>) -> Result<CaptureSource, CliError> {
    if names_all_apps(s) {
        Ok(CaptureSource::AllExceptSelf)
    } else if s == "system"@ {
        Ok(CaptureSource::System)
    } else if names_web(s) {
        Ok(CaptureSource::WebUplink)
    } else if s == "app"@ {
        match pid {
            Some(p) => Ok(CaptureSource::App { pid: p }),
            None => Err(CliError::MissingPid),
        }
    } else {
        Err(CliError::UnknownCapture)
    }
}

/// The source that a word names.
pub fn parse_capture(s: &str, pid: Option<u32>) -> (r: Result<CaptureSource, CliError>)
    ensures
        r == capture_named(s@, pid),
{
    proof {
        reveal_strlit("allapps");
        reveal_strlit("exclude");
        reveal_strlit("all");
        reveal_strlit("system");
        reveal_strlit("web");
        reveal_strlit("uplink");
        reveal_strlit("cast");
        reveal_strlit("app");
    }
    if text::same_text(s, "allapps") || text::same_text(s, "exclude") || text::same_text(s, "all") {
        Ok(CaptureSource::AllExceptSelf)
    } else if text::same_text(s, "system") {
        Ok(CaptureSource::System)
    } else if text::same_text(s, "web") || text::same_text(s, "uplink") || text::same_text(
        s,
        "cast",
    ) {
        Ok(CaptureSource::WebUplink)
    } else if text::same_text(s, "app") {
        match pid {
            Some(p) => Ok(CaptureSource::App { pid: p }),
            None => Err(CliError::MissingPid),
        }
    } else {
        Err(CliError::UnknownCapture)
    }
}

/// The resolution that a word names, if it names one.
pub open spec fn resolution_named(s: Seq<char>) -> Option<Resolution> {
    if s == "720p"@ {
        Some(Resolution::P720)
    } else if s == "1080p"@ {
        Some(Resolution::P1080)
    } else if s == "1440p"@ {
        Some(Resolution::P1440)
    } else if s == "2160p"@ {
        Some(Resolution::P2160)
    } else {
        None
    }
}

/// The video that the command line asks for. A local screen needs a build that can capture it; a
/// cast does not.
pub open spec fn video_wanted(
    w: CliWords,
    source: CaptureSource,
    has_capture: bool,
) -> Result<Option<VideoConfig>, CliError> {
    if !w.video {
        Ok(None)
    } else if !has_capture && source != CaptureSource::WebUplink {
        Err(CliError::NoScreenCapture)
    } else {
        match resolution_named(w.resolution@) {
            None => Err(CliError::UnknownResolution),
            Some(resolution) => Ok(
                Some(
                    VideoConfig {
                        resolution,
                        fps: if w.fps@ == "60"@ {
                            Fps::F60
                        } else {
                            Fps::F30
                        },
                        quality_pct: 100,
                    },
                ),
            ),
        }
    }
}

fn read_video(w: &CliWords, source: CaptureSource, has_capture: bool) -> (r: Result<
    Option<VideoConfig>,
    CliError,
>)
    ensures
        r == video_wanted(*w, source, has_capture),
{
    if !w.video {
        return Ok(None);
    }
    let web = matches!(source, CaptureSource::WebUplink);
    if !has_capture && !web {
        return Err(CliError::NoScreenCapture);
    }
    match Resolution::parse(w.resolution.as_str()) {
        None => {
            assert(w.resolution@ != resolution_token(Resolution::P720));
            assert(w.resolution@ != resolution_token(Resolution::P1080));
            assert(w.resolution@ != resolution_token(Resolution::P1440));
            assert(w.resolution@ != resolution_token(Resolution::P2160));
            Err(CliError::UnknownResolution)
        },
        Some(resolution) => {
            proof {
                reveal_strlit("720p");
                reveal_strlit("1080p");
                reveal_strlit("1440p");
                reveal_strlit("2160p");
                lemma_resolution_tokens();
            }
            let fps = if text::same_text(w.fps.as_str(), "60") {
                Fps::F60
            } else {
                Fps::F30
            };
            Ok(Some(VideoConfig { resolution, fps, quality_pct: 100 }))
        },
    }
}

proof fn lemma_resolution_tokens()
    ensures
        "720p"@ != "1080p"@,
        "720p"@ != "1440p"@,
        "720p"@ != "2160p"@,
        "1080p"@ != "1440p"@,
        "1080p"@ != "2160p"@,
        "1440p"@ != "2160p"@,
{
    reveal_strlit("720p");
    reveal_strlit("1080p");
    reveal_strlit("1440p");
    reveal_strlit("2160p");
    assert("720p"@[0] != "1080p"@[0]);
    assert("720p"@[0] != "1440p"@[0]);
    assert("720p"@[0] != "2160p"@[0]);
    assert("1080p"@[1] != "1440p"@[1]);
    assert("1080p"@[0] != "2160p"@[0]);
    assert("1440p"@[0] != "2160p"@[0]);
}

/// What the words of a command line ask for, or the first of them that is refused.
pub open spec fn cli_choice(w: CliWords, has_capture: bool) -> Result<CliChoice, CliError> {
    if w.codec@ != "opus"@ && w.codec@ != "pcm"@ {
        Err(CliError::UnknownCodec)
    } else {
        let lowered = ascii_lowered(w.encoder@);
        if lowered != "av1"@ && lowered != "vp9"@ && !is_device_word(lowered) {
            Err(CliError::UnknownEncoder)
        } else if w.encode_device@ != "auto"@ && w.encode_device@ != "gpu"@ && w.encode_device@
            != "cpu"@ {
            Err(CliError::UnknownDevice)
        } else {
            match capture_named(w.capture@, w.app_pid) {
                Err(e) => Err(e),
                Ok(capture_source) => match video_wanted(w, capture_source, has_capture) {
                    Err(e) => Err(e),
                    Ok(video) => Ok(
                        CliChoice {
                            codec: if w.codec@ == "opus"@ {
                                CodecKind::Opus
                            } else {
                                CodecKind::Pcm
                            },
                            encoder: if lowered == "av1"@ || is_device_word(lowered) {
                                EncoderBackend::Av1
                            } else {
                                EncoderBackend::Vp9
                            },
                            encode_device: if w.encode_device@ == "auto"@ {
                                EncodeDevice::Auto
                            } else if w.encode_device@ == "gpu"@ {
                                EncodeDevice::Gpu
                            } else {
                                EncodeDevice::Cpu
                            },
                            capture_source,
                            video,
                        },
                    ),
                },
            }
        }
    }
}

/// Reads the words of a command line. `has_capture` tells whether this build can capture a screen.
pub fn read_cli(w: &CliWords, has_capture: bool) -> (r: Result<CliChoice, CliError>)
    ensures
        r == cli_choice(*w, has_capture),
{
    proof {
        reveal_strlit("opus");
        reveal_strlit("pcm");
        reveal_strlit("auto");
        reveal_strlit("gpu");
        reveal_strlit("cpu");
        assert("opus"@ != "pcm"@) by {
            assert("opus"@[0] != "pcm"@[0]);
        }
        assert("auto"@ != "gpu"@) by {
            assert("auto"@[0] != "gpu"@[0]);
        }
        assert("auto"@ != "cpu"@) by {
            assert("auto"@[0] != "cpu"@[0]);
        }
        assert("gpu"@ != "cpu"@) by {
            assert("gpu"@[0] != "cpu"@[0]);
        }
    }
    let codec = match CodecKind::parse(w.codec.as_str()) {
        Some(c) => c,
        None => {
            assert(w.codec@ != codec_token(CodecKind::Opus));
            assert(w.codec@ != codec_token(CodecKind::Pcm));
            return Err(CliError::UnknownCodec);
        },
    };
    let encoder = match EncoderBackend::parse(w.encoder.as_str()) {
        Some(e) => e,
        None => {
            return Err(CliError::UnknownEncoder);
        },
    };
    let encode_device = match EncodeDevice::parse(w.encode_device.as_str()) {
        Some(d) => d,
        None => {
            assert(w.encode_device@ != device_token(EncodeDevice::Auto));
            assert(w.encode_device@ != device_token(EncodeDevice::Gpu));
            assert(w.encode_device@ != device_token(EncodeDevice::Cpu));
            return Err(CliError::UnknownDevice);
        },
    };
    let capture_source = match parse_capture(w.capture.as_str(), w.app_pid) {
        Ok(s) => s,
        Err(e) => {
            return Err(e);
        },
    };
    match read_video(w, capture_source, has_capture) {
        Ok(video) => Ok(CliChoice { codec, encoder, encode_device, capture_source, video }),
        Err(e) => Err(e),
    }
}

/// The text of a refusal.
pub open spec fn cli_error_text(e: CliError, w: CliWords) -> Seq<char> {
    match e {
        CliError::UnknownCodec => "unknown codec '"@ + w.codec@ + "' (use opus or pcm)"@,
        CliError::UnknownEncoder => "unknown encoder '"@ + w.encoder@ + "' (use av1 or vp9)"@,
        CliError::UnknownDevice => "unknown encode device '"@ + w.encode_device@
            + "' (use auto, gpu or cpu)"@,
        CliError::UnknownCapture => "unknown capture '"@ + w.capture@
            + "' (use allapps|system|app|web)"@,
        CliError::MissingPid => "--capture app requires --app-pid <PID>"@,
        CliError::NoScreenCapture => NO_CAPTURE_TEXT@,
        CliError::UnknownResolution => "unknown resolution '"@ + w.resolution@
            + "' (720p|1080p|1440p|2160p)"@,
    }
}

/// What is said when a build that cannot capture a screen is asked to.
pub const NO_CAPTURE_TEXT: &'static str = "--video captures this machine's screen, and this build has no capture backend \n                 for it. On Linux, rebuild with --features linux-capture (needs a desktop \n                 session with an xdg-desktop-portal backend). Otherwise relay a browser's cast: \n                 `--capture web --video` (both flags -- `--capture web` alone relays audio only).";

fn quoted(head: &str, word: &str, tail: &str) -> (s: String)
    ensures
        s@ == head@ + word@ + tail@,
{
    let mut s = String::from_str(head);
    s.append(word);
    s.append(tail);
    s
}

impl CliError {
    /// What to say of the refusal.
    pub fn message(self, w: &CliWords) -> (s: String)
        ensures
            s@ == cli_error_text(self, *w),
    {
        match self {
            CliError::UnknownCodec => quoted(
                "unknown codec '",
                w.codec.as_str(),
                "' (use opus or pcm)",
            ),
            CliError::UnknownEncoder => quoted(
                "unknown encoder '",
                w.encoder.as_str(),
                "' (use av1 or vp9)",
            ),
            CliError::UnknownDevice => quoted(
                "unknown encode device '",
                w.encode_device.as_str(),
                "' (use auto, gpu or cpu)",
            ),
            CliError::UnknownCapture => quoted(
                "unknown capture '",
                w.capture.as_str(),
                "' (use allapps|system|app|web)",
            ),
            CliError::MissingPid => String::from_str("--capture app requires --app-pid <PID>"),
            CliError::NoScreenCapture => String::from_str(NO_CAPTURE_TEXT),
            CliError::UnknownResolution => quoted(
                "unknown resolution '",
                w.resolution.as_str(),
                "' (720p|1080p|1440p|2160p)",
            ),
        }
    }
}

/// The port to serve on.
pub open spec fn port_choice(typed: Option<u16>, saved: Option<u16>) -> u16 {
    match typed {
        Some(t) => t,
        None => match saved {
            Some(s) => s,
            None => DEFAULT_HTTP_PORT,
        },
    }
}

/// The port to serve on: the one on the command line, else the saved one, else the default.
pub fn effective_port(typed: Option<u16>, saved: Option<u16>) -> (p: u16)
    ensures
        p == port_choice(typed, saved),
{
    match typed {
        Some(t) => t,
        None => match saved {
            Some(s) => s,
            None => DEFAULT_HTTP_PORT,
        },
    }
}

/// A command line without video never fails for want of a screen capture, and one whose source is a
/// web client never does either.
pub proof fn law_no_capture_needed(w: CliWords)
    requires
        !w.video || names_web(w.capture@),
    ensures
        cli_choice(w, false) == cli_choice(w, true),
{
    reveal_strlit("allapps");
    reveal_strlit("exclude");
    reveal_strlit("all");
    reveal_strlit("system");
    reveal_strlit("web");
    reveal_strlit("uplink");
    reveal_strlit("cast");
    reveal_strlit("app");
    if names_web(w.capture@) {
        lemma_web_words();
    }
}

proof fn lemma_web_words()
    ensures
        !names_all_apps("web"@) && !names_all_apps("uplink"@) && !names_all_apps("cast"@),
        "web"@ != "system"@ && "uplink"@ != "system"@ && "cast"@ != "system"@,
{
    reveal_strlit("allapps");
    reveal_strlit("exclude");
    reveal_strlit("all");
    reveal_strlit("system");
    reveal_strlit("web");
    reveal_strlit("uplink");
    reveal_strlit("cast");
    assert("web"@[0] == 'w' && "uplink"@[0] == 'u' && "cast"@[0] == 'c');
    assert("allapps"@[0] == 'a' && "exclude"@[0] == 'e' && "all"@[0] == 'a' && "system"@[0] == 's');
}

/// A resolution is written as its height and the letter `p`, and its picture is sixteen by nine.
pub proof fn law_resolution_is_its_height(r: Resolution)
    ensures
        resolution_token(r) == text::decimal(resolution_dims(r).1 as nat) + "p"@,
        9 * resolution_dims(r).0 == 16 * resolution_dims(r).1,
        resolution_named(resolution_token(r)) == Some(r),
{
    reveal_strlit("p");
    reveal_strlit("720p");
    reveal_strlit("1080p");
    reveal_strlit("1440p");
    reveal_strlit("2160p");
    reveal_with_fuel(text::decimal, 5);
    let (a, b, c, d) = (text::decimal(720), text::decimal(1080), text::decimal(1440), text::decimal(2160));
    assert(a =~= seq!['7', '2', '0']);
    assert(b =~= seq!['1', '0', '8', '0']);
    assert(c =~= seq!['1', '4', '4', '0']);
    assert(d =~= seq!['2', '1', '6', '0']);
    assert("720p"@ =~= a + "p"@);
    assert("1080p"@ =~= b + "p"@);
    assert("1440p"@ =~= c + "p"@);
    assert("2160p"@ =~= d + "p"@);
    assert("1080p"@[1] != "2160p"@[1] && "1080p"@[1] != "1440p"@[1] && "2160p"@[0] != "1440p"@[0]);
    assert("720p"@.len() == 4);
}

/// Lower case changes capitals and nothing else, and changing it twice changes nothing more.
pub proof fn law_lower_case(s: Seq<char>, i: int)
    requires
        0 <= i < s.len(),
    ensures
        ascii_lowered(s).len() == s.len(),
        'A' <= s[i] <= 'Z' ==> 'a' <= ascii_lowered(s)[i] <= 'z'
            && ascii_lowered(s)[i] as int - 'a' as int
            == s[i] as int - 'A' as int,
        !('A' <= s[i] <= 'Z') ==> ascii_lowered(s)[i] == s[i],
        ascii_lowered(ascii_lowered(s)) == ascii_lowered(s),
{
    assert(ascii_lowered(ascii_lowered(s)) =~= ascii_lowered(s));
}

/// What is chosen is what the words say: codec, device and frame rate by their own words, and VP9
/// only where it is asked for.
pub proof fn law_words_mean_what_they_say(w: CliWords, has_capture: bool)
    requires
        cli_choice(w, has_capture) is Ok,
    ensures
        ({
            let c = cli_choice(w, has_capture)->Ok_0;
            &&& w.codec@ == "opus"@ <==> c.codec == CodecKind::Opus
            &&& w.codec@ == "pcm"@ <==> c.codec == CodecKind::Pcm
            &&& w.encode_device@ == "auto"@ <==> c.encode_device == EncodeDevice::Auto
            &&& w.encode_device@ == "gpu"@ <==> c.encode_device == EncodeDevice::Gpu
            &&& w.encode_device@ == "cpu"@ <==> c.encode_device == EncodeDevice::Cpu
            &&& ascii_lowered(w.encoder@) == "vp9"@ <==> c.encoder == EncoderBackend::Vp9
            &&& w.video <==> c.video is Some
            &&& c.video matches Some(v) ==> {
                &&& v.quality_pct == 100
                &&& w.fps@ == "60"@ <==> v.fps == Fps::F60
                &&& w.resolution@ == text::decimal(resolution_dims(v.resolution).1 as nat) + "p"@
            }
            &&& w.capture@ == "system"@ <==> c.capture_source == CaptureSource::System
            &&& w.capture@ == "allapps"@ || w.capture@ == "exclude"@ || w.capture@ == "all"@
                <==> c.capture_source == CaptureSource::AllExceptSelf
            &&& w.capture@ == "web"@ || w.capture@ == "uplink"@ || w.capture@ == "cast"@
                <==> c.capture_source == CaptureSource::WebUplink
            &&& w.capture@ == "app"@ <==> c.capture_source is App
            &&& w.capture@ == "app"@ ==> w.app_pid is Some
                && c.capture_source == (CaptureSource::App {
                pid: w.app_pid->Some_0,
            })
        }),
{
    lemma_words();
    if let Some(v) = cli_choice(w, has_capture)->Ok_0.video {
        law_resolution_is_its_height(v.resolution);
    }
}

proof fn lemma_words()
    ensures
        "opus"@ != "pcm"@,
        "auto"@ != "gpu"@,
        "auto"@ != "cpu"@,
        "gpu"@ != "cpu"@,
        "vp9"@ != "av1"@,
        !is_device_word("vp9"@),
        "system"@ != "app"@,
        !names_all_apps("system"@),
        !names_all_apps("app"@),
        !names_all_apps("web"@),
        !names_all_apps("uplink"@),
        !names_all_apps("cast"@),
        !names_web("system"@),
        !names_web("app"@),
{
    reveal_strlit("opus");
    reveal_strlit("pcm");
    reveal_strlit("auto");
    reveal_strlit("gpu");
    reveal_strlit("cpu");
    reveal_strlit("vp9");
    reveal_strlit("av1");
    reveal_strlit("hardware");
    reveal_strlit("hw");
    reveal_strlit("software");
    reveal_strlit("sw");
    reveal_strlit("system");
    reveal_strlit("app");
    reveal_strlit("allapps");
    reveal_strlit("exclude");
    reveal_strlit("all");
    reveal_strlit("web");
    reveal_strlit("uplink");
    reveal_strlit("cast");
    assert("opus"@.len() != "pcm"@.len());
    assert("gpu"@[0] != "cpu"@[0]);
    assert("vp9"@[0] != "av1"@[0]);
    assert("vp9"@[0] == 'v' && "gpu"@[0] == 'g' && "cpu"@[0] == 'c');
    assert("app"@[1] == 'p' && "all"@[1] == 'l' && "web"@[0] == 'w' && "app"@[0] == 'a');
    assert("uplink"@[0] == 'u' && "system"@[0] == 's');
    assert("cast"@.len() == 4);
}

/// A command line is refused for the first word that is not understood, and for nothing else; an
/// application needs its process, and a local screen a build that can capture one.
pub proof fn law_refusals(w: CliWords, has_capture: bool)
    ensures
        cli_choice(w, has_capture) == Err::<CliChoice, CliError>(CliError::UnknownCodec) <==> w.codec@
            != "opus"@ && w.codec@ != "pcm"@,
        cli_choice(w, has_capture) == Err::<CliChoice, CliError>(CliError::MissingPid) ==> w.capture@
            == "app"@ && w.app_pid is None,
        cli_choice(w, has_capture) is Ok ==> !(w.capture@ == "app"@ && w.app_pid is None),
        cli_choice(w, has_capture) == Err::<CliChoice, CliError>(CliError::NoScreenCapture)
            ==> w.video
            && !has_capture && w.capture@ != "web"@ && w.capture@ != "uplink"@ && w.capture@
            != "cast"@,
        cli_choice(w, has_capture) is Ok && w.video && !has_capture ==> w.capture@ == "web"@
            || w.capture@
            == "uplink"@ || w.capture@ == "cast"@,
        cli_choice(w, has_capture) == Err::<CliChoice, CliError>(CliError::UnknownResolution)
            ==> w.video
            && w.resolution@ != "720p"@ && w.resolution@ != "1080p"@ && w.resolution@ != "1440p"@
            && w.resolution@ != "2160p"@,
        cli_choice(w, has_capture) == Err::<CliChoice, CliError>(CliError::UnknownDevice)
            ==> w.encode_device@ != "auto"@ && w.encode_device@ != "gpu"@
                && w.encode_device@ != "cpu"@,
{
    lemma_words();
}

/// A value within the limits stays, and one outside them becomes the nearer limit.
pub proof fn law_clamping(v: int, min: int, max: int)
    requires
        min <= max,
    ensures
        min <= clamped(v, min, max) <= max,
        min <= v <= max ==> clamped(v, min, max) == v,
        v <= min ==> clamped(v, min, max) == min,
        v >= max ==> clamped(v, min, max) == max,
{
}

/// A port that was typed counts more than a saved one, and without either it is 47000.
pub proof fn law_ports(typed: u16, saved: Option<u16>, kept: u16)
    ensures
        port_choice(Some(typed), saved) == typed,
        port_choice(None, Some(kept)) == kept,
        port_choice(None, None) == 47_000,
{
}

/// Capitals do not matter to the name of an encoder. Words for devices mean AV1, and nothing but
/// its own name means VP9.
pub proof fn law_encoder_names(a: Seq<char>, b: Seq<char>)
    requires
        ascii_lowered(a) == ascii_lowered(b),
    ensures
        encoder_named(a) == encoder_named(b),
        ascii_lowered(a) == "vp9"@ <==> encoder_named(a) == Some(EncoderBackend::Vp9),
        ascii_lowered(a) == "av1"@ || ascii_lowered(a) == "auto"@ || ascii_lowered(a) == "hw"@
            || ascii_lowered(a) == "hardware"@ || ascii_lowered(a) == "gpu"@
                || ascii_lowered(a) == "cpu"@
            || ascii_lowered(a) == "sw"@ || ascii_lowered(a) == "software"@
                <==> encoder_named(a) == Some(
            EncoderBackend::Av1,
        ),
{
    lemma_words();
}

/// A refusal repeats the word that was not understood.
pub proof fn law_refusal_names_the_word(w: CliWords)
    ensures
        text::occurs(cli_error_text(CliError::UnknownCodec, w), w.codec@),
        text::occurs(cli_error_text(CliError::UnknownEncoder, w), w.encoder@),
        text::occurs(cli_error_text(CliError::UnknownDevice, w), w.encode_device@),
        text::occurs(cli_error_text(CliError::UnknownCapture, w), w.capture@),
        text::occurs(cli_error_text(CliError::UnknownResolution, w), w.resolution@),
{
    text::law_found_wherever_it_stands("unknown codec '"@, w.codec@, "' (use opus or pcm)"@);
    text::law_found_wherever_it_stands("unknown encoder '"@, w.encoder@, "' (use av1 or vp9)"@);
    text::law_found_wherever_it_stands(
        "unknown encode device '"@,
        w.encode_device@,
        "' (use auto, gpu or cpu)"@,
    );
    text::law_found_wherever_it_stands(
        "unknown capture '"@,
        w.capture@,
        "' (use allapps|system|app|web)"@,
    );
    text::law_found_wherever_it_stands(
        "unknown resolution '"@,
        w.resolution@,
        "' (720p|1080p|1440p|2160p)"@,
    );
}

/// Words are looked at in a fixed order, and the first that is not understood is the one that is
/// named: codec, encoder, device, source, and then what the video needs.
pub proof fn law_first_wrong_word_is_named(w: CliWords, has_capture: bool)
    ensures
        ({
            let r = cli_choice(w, has_capture);
            let codec_ok = w.codec@ == "opus"@ || w.codec@ == "pcm"@;
            let encoder_ok = encoder_named(w.encoder@) is Some;
            let device_ok = w.encode_device@ == "auto"@ || w.encode_device@ == "gpu"@
                || w.encode_device@ == "cpu"@;
            let web = w.capture@ == "web"@ || w.capture@ == "uplink"@ || w.capture@ == "cast"@;
            &&& r == Err::<CliChoice, CliError>(CliError::UnknownEncoder) <==> codec_ok && !encoder_ok
            &&& r == Err::<CliChoice, CliError>(CliError::UnknownDevice) <==> codec_ok && encoder_ok
                && !device_ok
            &&& r == Err::<CliChoice, CliError>(CliError::MissingPid) <==> codec_ok && encoder_ok
                && device_ok && w.capture@ == "app"@ && w.app_pid is None
            &&& r == Err::<CliChoice, CliError>(CliError::UnknownCapture) ==> codec_ok && encoder_ok
                && device_ok && !web && w.capture@ != "app"@ && w.capture@ != "system"@
            &&& r == Err::<CliChoice, CliError>(CliError::NoScreenCapture) ==> codec_ok && encoder_ok
                && device_ok && !has_capture && !web
            &&& r == Err::<CliChoice, CliError>(CliError::UnknownResolution) ==> codec_ok
                && encoder_ok && device_ok && (has_capture || web)
        }),
{
    lemma_words();
}

} // verus!
