//! The control panel: what is picked, what applying it starts, and what is said.

use crate::config::{
    clamped, CaptureSource, CodecKind, EncodeDevice, EncoderBackend, Fps, Resolution, VideoConfig,
    VideoTarget, MAX_BUFFER_MS,
};
use crate::config;
use crate::media::{resolved, BuildFeatures, MediaOptions, Platform};
use crate::sources::{AudioApp, DUMMY_TAG};
use crate::text::{decimal, occurs, occurs_at};
use crate::text;
use crate::theme::Shade;
use vstd::prelude::*;

verus! {

/// How the line starts that says what is served.
pub const SERVING_PREFIX: &'static str = "Serving: ";

/// What is said while a stream starts.
pub const STARTING: &'static str = "Starting…";

/// What is said while a stream starts that may ask for leave to share the screen.
pub const STARTING_PROMPT: &'static str = "Starting… approve the screen-share prompt if it appears";

/// What is said when one application is to be captured and none is picked.
pub const PICK_APP: &'static str = "Pick an app first, then Apply.";

/// What is said when one window is to be captured and none is picked.
pub const PICK_WINDOW: &'static str = "Pick a window for video first, then Apply.";

/// What is said when nothing can be served at all.
pub const NO_START: &'static str = "could not start audio capture — see console for details";

/// What the audio picker is set to.
#[derive(Clone, Copy, Debug, PartialEq, Eq, Structural)]
pub enum SourceKind {
    /// Everything but this program.
    AllApps,
    /// One application.
    App,
    /// The system's output.
    System,
    /// What a web client casts.
    WebUplink,
}

/// What the video picker is set to.
#[derive(Clone, Copy, Debug, PartialEq, Eq, Structural)]
pub enum VideoSourceKind {
    /// No video.
    Off,
    /// The whole screen.
    Screen,
    /// One window.
    Window,
    /// The screen that a web client casts.
    WebCast,
}

/// What is said while a stream starts, given whether it captures a screen here and whether the system
/// asks for leave first.
pub open spec fn starting_line(local_screen: bool, prompts: bool) -> Seq<char> {
    if prompts && local_screen {
        STARTING_PROMPT@
    } else {
        STARTING@
    }
}

/// What is said while a stream starts. Where the screen is captured through a prompt, the prompt is
/// named.
pub fn starting_text(video_kind: VideoSourceKind, prompts: bool) -> (s: String)
    ensures
        s@ == starting_line(video_kind == VideoSourceKind::Screen, prompts),
{
    if prompts && video_kind == VideoSourceKind::Screen {
        STARTING_PROMPT.to_string()
    } else {
        STARTING.to_string()
    }
}

/// What is said while the stream is rebuilt.
pub fn switching_text(video: bool, source: CaptureSource, prompts: bool) -> (s: String)
    ensures
        s@ == starting_line(video && source != CaptureSource::WebUplink, prompts),
{
    if prompts && video && !matches!(source, CaptureSource::WebUplink) {
        STARTING_PROMPT.to_string()
    } else {
        STARTING.to_string()
    }
}

/// The line that says what is served.
pub open spec fn serving_line(device: Seq<char>, video: bool) -> Seq<char> {
    SERVING_PREFIX@ + device + (if video {
        "  + screen"@
    } else {
        Seq::empty()
    })
}

/// The line that says what is served.
pub fn serving_text(device: &str, video: bool) -> (s: String)
    ensures
        s@ == serving_line(device@, video),
{
    let mut s = SERVING_PREFIX.to_string();
    s.append(device);
    if video {
        s.append("  + screen");
    } else {
        assert(s@ =~= s@ + Seq::<char>::empty());
    }
    s
}

/// Whether the warning shows that silence is streamed: a serving line decides, and any other
/// message leaves it as it was.
pub open spec fn is_dummy(latched: bool, status: Seq<char>) -> bool {
    if occurs_at(status, SERVING_PREFIX@, 0) {
        occurs(status, DUMMY_TAG@)
    } else {
        latched
    }
}

/// Whether the warning shows that silence is streamed.
pub fn dummy_verdict(latched: bool, status: &str) -> (r: bool)
    ensures
        r == is_dummy(latched, status@),
{
    if text::starts_with(status, SERVING_PREFIX) {
        text::contains(status, DUMMY_TAG)
    } else {
        latched
    }
}

/// The line that serves a device which is known to be a dummy raises the warning, whatever it was
/// before.
pub proof fn law_dummy_line_raises_the_warning(latched: bool, monitor: Seq<char>, video: bool)
    ensures
        is_dummy(latched, serving_line(monitor + "  "@ + DUMMY_TAG@, video)),
{
    let device = monitor + "  "@ + DUMMY_TAG@;
    let line = serving_line(device, video);
    let n = SERVING_PREFIX@.len() as int;
    assert(line.subrange(0, n) =~= SERVING_PREFIX@);
    let at = n + monitor.len() + "  "@.len();
    assert(line.subrange(at, at + DUMMY_TAG@.len()) =~= DUMMY_TAG@);
    assert(occurs_at(line, DUMMY_TAG@, at));
}

/// Messages that are no serving line leave the warning as it is.
pub proof fn law_chatter_keeps_the_warning(latched: bool, why: Seq<char>)
    ensures
        is_dummy(latched, STARTING@) == latched,
        is_dummy(latched, STARTING_PROMPT@) == latched,
        is_dummy(latched, PICK_APP@) == latched,
        is_dummy(latched, PICK_WINDOW@) == latched,
        is_dummy(latched, "Couldn't switch: "@ + why) == latched,
        is_dummy(latched, fallback_line(why)) == latched,
{
    reveal_strlit("Serving: ");
    reveal_strlit("Starting…");
    reveal_strlit("Starting… approve the screen-share prompt if it appears");
    reveal_strlit("Pick an app first, then Apply.");
    reveal_strlit("Pick a window for video first, then Apply.");
    reveal_strlit("Couldn't switch: ");
    reveal_strlit("⚠ Audio source unavailable (");
    let p = SERVING_PREFIX@;
    assert(p[0] == 'S' && p[1] == 'e');
    assert forall|s: Seq<char>|
        #![trigger occurs_at(s, p, 0)]
        s.len() >= 2 && (s[0] != 'S' || s[1] != 'e') implies !occurs_at(s, p, 0) by {
        if occurs_at(s, p, 0) {
            let t = s.subrange(0, p.len() as int);
            assert(t[0] == s[0] && t[1] == s[1]);
        }
    }
    let c = "Couldn't switch: "@ + why;
    assert(c[0] == 'C');
    let f = fallback_line(why);
    assert(f[0] == '⚠');
}

/// What is said when the stream could not be rebuilt and the old one goes on.
pub fn switch_failure(why: &str) -> (s: String)
    ensures
        s@ == "Couldn't switch: "@ + why@,
{
    let mut s = "Couldn't switch: ".to_string();
    s.append(why);
    s
}

/// What is said when the source could not be started and casts are relayed instead.
pub open spec fn fallback_line(why: Seq<char>) -> Seq<char> {
    "⚠ Audio source unavailable ("@ + why
        + "). Relaying web casts — pick a source and Apply."@
}

/// What is said when the source could not be started and casts are relayed instead.
pub fn fallback_text(why: &str) -> (s: String)
    ensures
        s@ == fallback_line(why@),
{
    let mut s = "⚠ Audio source unavailable (".to_string();
    s.append(why);
    s.append("). Relaying web casts — pick a source and Apply.");
    s
}

/// A try at the first stream.
#[derive(Clone, Copy, Debug, PartialEq, Eq, Structural)]
pub enum StartTry {
    /// What was asked for.
    Chosen,
    /// A relay of web casts, which needs no capture.
    Fallback,
}

/// What is tried next when a try has failed.
pub open spec fn try_after(failed: StartTry) -> Option<StartTry> {
    match failed {
        StartTry::Chosen => Some(StartTry::Fallback),
        StartTry::Fallback => None,
    }
}

/// What is tried next when a try has failed: the relay once, so that the window opens all the same,
/// and then nothing.
pub fn next_start(failed: StartTry) -> (r: Option<StartTry>)
    ensures
        r == try_after(failed),
{
    match failed {
        StartTry::Chosen => Some(StartTry::Fallback),
        StartTry::Fallback => None,
    }
}

/// What is said when neither the source nor the relay could be started.
pub fn start_failure(why: &str, fallback: &str) -> (s: String)
    ensures
        s@ == "Couldn't start: "@ + why@ + " (fallback also failed: "@ + fallback@ + ")"@,
{
    let mut s = "Couldn't start: ".to_string();
    s.append(why);
    s.append(" (fallback also failed: ");
    s.append(fallback);
    s.append(")");
    s
}

/// The address that clients open.
pub open spec fn address(lan: Option<Seq<char>>, port: u16) -> Seq<char> {
    "https://"@ + (match lan {
        Some(a) => a,
        None => "<this-pc>"@,
    }) + ":"@ + decimal(port as nat)
}

/// The address that clients open.
pub fn connect_url(lan: Option<&str>, port: u16) -> (s: String)
    ensures
        s@ == address(crate::tls::text_of(lan), port),
{
    let mut s = "https://".to_string();
    match lan {
        Some(a) => {
            s.append(a);
        },
        None => {
            s.append("<this-pc>");
        },
    }
    s.append(":");
    text::append_decimal(&mut s, port as u64);
    s
}

/// The place of a resolution in the picker.
pub open spec fn resolution_index(r: Resolution) -> usize {
    match r {
        Resolution::P720 => 0,
        Resolution::P1080 => 1,
        Resolution::P1440 => 2,
        Resolution::P2160 => 3,
    }
}

/// The place of a resolution in the picker.
pub fn res_to_idx(r: Resolution) -> (i: usize)
    ensures
        i == resolution_index(r),
        i < 4,
{
    match r {
        Resolution::P720 => 0,
        Resolution::P1080 => 1,
        Resolution::P1440 => 2,
        Resolution::P2160 => 3,
    }
}

/// The resolution at a place in the picker.
pub open spec fn resolution_at(i: int) -> Resolution {
    if i == 0 {
        Resolution::P720
    } else if i == 2 {
        Resolution::P1440
    } else if i == 3 {
        Resolution::P2160
    } else {
        Resolution::P1080
    }
}

/// The resolution at a place in the picker.
pub fn idx_to_res(i: usize) -> (r: Resolution)
    ensures
        r == resolution_at(i as int),
{
    match i {
        0 => Resolution::P720,
        2 => Resolution::P1440,
        3 => Resolution::P2160,
        _ => Resolution::P1080,
    }
}

/// A resolution is found at its place.
pub proof fn law_resolution_is_at_its_place(r: Resolution)
    ensures
        resolution_at(resolution_index(r) as int) == r,
{
}

/// What the picker shows for a resolution.
pub fn res_label(r: Resolution) -> (s: &'static str)
    ensures
        s@ == (match r {
            Resolution::P720 => "720p"@,
            Resolution::P1080 => "1080p"@,
            Resolution::P1440 => "1440p"@,
            Resolution::P2160 => "2160p (4K)"@,
        }),
{
    match r {
        Resolution::P720 => "720p",
        Resolution::P1080 => "1080p",
        Resolution::P1440 => "1440p",
        Resolution::P2160 => "2160p (4K)",
    }
}

/// What the server is started with.
#[derive(Clone, Copy, Debug)]
pub struct InitialConfig {
    /// Where the audio comes from.
    pub capture_source: CaptureSource,
    /// The video, if there is to be any.
    pub video: Option<VideoConfig>,
    /// How video is encoded.
    pub encoder: EncoderBackend,
    /// Where video is encoded.
    pub encode_device: EncodeDevice,
    /// Milliseconds that clients buffer.
    pub buffer_ms: i64,
    /// How audio is encoded.
    pub codec: CodecKind,
    /// Audio bits per second.
    pub bitrate: i32,
    /// By how much audio is shifted against video, in nanoseconds.
    pub av_offset_ns: i64,
}

/// Whether a stream is started as the server was, but for where its audio and video come from.
pub open spec fn starts_with(c: InitialConfig, name: Seq<char>, lead_ms: i64, o: MediaOptions) -> bool {
    &&& o.name@ == name
    &&& o.codec == c.codec
    &&& o.bitrate == c.bitrate
    &&& o.lead_ms == lead_ms
    &&& o.buffer_ms == c.buffer_ms
    &&& o.video_target == VideoTarget::PrimaryMonitor
    &&& o.encoder == c.encoder
    &&& o.encode_device == c.encode_device
}

impl InitialConfig {
    /// What the first stream is started with: the primary monitor, where there is video.
    pub fn to_options(&self, name: &str, lead_ms: i64) -> (o: MediaOptions)
        ensures
            starts_with(*self, name@, lead_ms, o),
            o.capture_source == self.capture_source,
            o.video == self.video,
    {
        MediaOptions {
            name: name.to_string(),
            codec: self.codec,
            bitrate: self.bitrate,
            lead_ms,
            buffer_ms: self.buffer_ms,
            capture_source: self.capture_source,
            video: self.video,
            video_target: VideoTarget::PrimaryMonitor,
            encoder: self.encoder,
            encode_device: self.encode_device,
        }
    }

    /// What is started where that fails: casts are relayed, without video.
    pub fn fallback_options(&self, name: &str, lead_ms: i64) -> (o: MediaOptions)
        ensures
            starts_with(*self, name@, lead_ms, o),
            o.capture_source == CaptureSource::WebUplink,
            o.video is None,
    {
        let mut o = self.to_options(name, lead_ms);
        o.capture_source = CaptureSource::WebUplink;
        o.video = None;
        o
    }
}

/// Whether the two pickers agree: a cast screen comes with cast audio, and cast audio with a cast
/// screen or none.
pub open spec fn agree(source: SourceKind, video: VideoSourceKind) -> bool {
    &&& video == VideoSourceKind::WebCast ==> source == SourceKind::WebUplink
    &&& source == SourceKind::WebUplink ==> video == VideoSourceKind::WebCast || video
        == VideoSourceKind::Off
}

/// The settings that take effect when they are applied.
pub struct Pickers {
    /// The audio picker.
    pub source: SourceKind,
    /// The application that is picked for audio.
    pub selected_pid: Option<u32>,
    /// Its name.
    pub selected_name: String,
    /// The video picker.
    pub video_kind: VideoSourceKind,
    /// The process of the window that is picked for video.
    pub video_pid: Option<u32>,
    /// Its name.
    pub video_name: String,
    /// The window.
    pub video_hwnd: Option<isize>,
    /// The place of the resolution in its picker.
    pub res_idx: usize,
    /// Whether video has 60 frames per second.
    pub fps60: bool,
    /// Whether VP9 is picked, else AV1.
    pub vp9: bool,
    /// Where video is encoded.
    pub encode_device: EncodeDevice,
    /// The video bit rate in percent.
    pub video_quality_pct: u16,
    /// Milliseconds that clients buffer.
    pub buffer_ms: i32,
    /// How audio is encoded.
    pub codec: CodecKind,
    /// Audio bits per second.
    pub bitrate: i32,
}

/// Settings as they were applied.
#[derive(Clone, Copy, Debug, PartialEq, Eq, Structural)]
pub struct AppliedConfig {
    /// The audio picker.
    pub source: SourceKind,
    /// The application that is picked for audio.
    pub selected_pid: Option<u32>,
    /// The video picker.
    pub video_kind: VideoSourceKind,
    /// The window that is picked for video.
    pub video_hwnd: Option<isize>,
    /// The place of the resolution in its picker.
    pub res_idx: usize,
    /// Whether video has 60 frames per second.
    pub fps60: bool,
    /// Whether VP9 is picked.
    pub vp9: bool,
    /// Where video is encoded.
    pub encode_device: EncodeDevice,
    /// The video bit rate in percent.
    pub video_quality_pct: u16,
    /// Milliseconds that clients buffer.
    pub buffer_ms: i32,
    /// How audio is encoded.
    pub codec: CodecKind,
    /// Audio bits per second.
    pub bitrate: i32,
}

/// The pickers without the names that they show.
pub open spec fn snapshot(p: Pickers, min_ms: int) -> AppliedConfig {
    AppliedConfig {
        source: p.source,
        selected_pid: p.selected_pid,
        video_kind: p.video_kind,
        video_hwnd: p.video_hwnd,
        res_idx: p.res_idx,
        fps60: p.fps60,
        vp9: p.vp9,
        encode_device: p.encode_device,
        video_quality_pct: p.video_quality_pct,
        buffer_ms: clamped(p.buffer_ms as int, min_ms, MAX_BUFFER_MS as int) as i32,
        codec: p.codec,
        bitrate: p.bitrate,
    }
}

/// The capture that the audio picker stands for, if one is picked.
pub open spec fn capture_of(source: SourceKind, pid: Option<u32>) -> Option<CaptureSource> {
    match source {
        SourceKind::AllApps => Some(CaptureSource::AllExceptSelf),
        SourceKind::System => Some(CaptureSource::System),
        SourceKind::WebUplink => Some(CaptureSource::WebUplink),
        SourceKind::App => match pid {
            Some(p) => Some(CaptureSource::App { pid: p }),
            None => None,
        },
    }
}

/// The video that is asked for.
pub open spec fn video_of(p: Pickers) -> Option<VideoConfig> {
    if p.video_kind == VideoSourceKind::Off {
        None
    } else {
        Some(
            VideoConfig {
                resolution: resolution_at(p.res_idx as int),
                fps: if p.fps60 {
                    Fps::F60
                } else {
                    Fps::F30
                },
                quality_pct: p.video_quality_pct,
            },
        )
    }
}

/// The screen capture that is asked for.
pub open spec fn target_of(p: Pickers, platform: Platform) -> VideoTarget {
    match p.video_hwnd {
        Some(hwnd) => if platform == Platform::Windows && p.video_kind == VideoSourceKind::Window {
            VideoTarget::Window { hwnd }
        } else {
            VideoTarget::PrimaryMonitor
        },
        None => VideoTarget::PrimaryMonitor,
    }
}

/// What keeps the settings from being applied, if anything does.
pub open spec fn obstacle(p: Pickers, platform: Platform) -> Option<Seq<char>> {
    if capture_of(p.source, p.selected_pid) is None {
        Some(PICK_APP@)
    } else if platform == Platform::Windows && p.video_kind == VideoSourceKind::Window
        && p.video_hwnd is None {
        Some(PICK_WINDOW@)
    } else {
        None
    }
}

/// The pickers with a local source for audio: a cast screen goes.
pub open spec fn with_local_source(p: Pickers, source: SourceKind) -> Pickers {
    Pickers {
        source,
        video_kind: if p.video_kind == VideoSourceKind::WebCast {
            VideoSourceKind::Off
        } else {
            p.video_kind
        },
        ..p
    }
}

/// The pickers with a local screen or window for video: cast audio gives way to all applications.
pub open spec fn with_local_video(p: Pickers, kind: VideoSourceKind) -> Pickers {
    Pickers {
        video_kind: kind,
        source: if p.source == SourceKind::WebUplink {
            SourceKind::AllApps
        } else {
            p.source
        },
        ..p
    }
}

/// The pickers with cast audio, and with the cast screen or none.
pub open spec fn with_cast(p: Pickers, kind: VideoSourceKind) -> Pickers {
    Pickers { source: SourceKind::WebUplink, video_kind: kind, ..p }
}

/// Whether a window is picked for video, and its application for audio.
pub open spec fn window_picked(p: Pickers, a: AudioApp, after: Pickers) -> bool {
    &&& after.selected_name@ == a.name@
    &&& after.video_name@ == a.name@
    &&& after == (Pickers {
        source: SourceKind::App,
        selected_pid: Some(a.pid),
        selected_name: after.selected_name,
        video_kind: VideoSourceKind::Window,
        video_pid: Some(a.pid),
        video_name: after.video_name,
        video_hwnd: a.hwnd,
        ..p
    })
}

/// Whether an application is picked for audio.
pub open spec fn app_picked(p: Pickers, a: AudioApp, after: Pickers) -> bool {
    &&& after.selected_name@ == a.name@
    &&& after == (Pickers {
        selected_pid: Some(a.pid),
        selected_name: after.selected_name,
        ..with_local_source(p, SourceKind::App)
    })
}

/// The first application of a process.
pub open spec fn first_of_pid(apps: Seq<AudioApp>, pid: u32) -> Option<AudioApp>
    decreases apps.len(),
{
    if apps.len() == 0 {
        None
    } else if apps[0].pid == pid {
        Some(apps[0])
    } else {
        first_of_pid(apps.skip(1), pid)
    }
}

/// The first window with a handle.
pub open spec fn first_of_hwnd(apps: Seq<AudioApp>, hwnd: isize) -> Option<AudioApp>
    decreases apps.len(),
{
    if apps.len() == 0 {
        None
    } else if apps[0].hwnd == Some(hwnd) {
        Some(apps[0])
    } else {
        first_of_hwnd(apps.skip(1), hwnd)
    }
}

/// The first window of a process.
pub open spec fn first_window_of(apps: Seq<AudioApp>, pid: u32) -> Option<AudioApp>
    decreases apps.len(),
{
    if apps.len() == 0 {
        None
    } else if apps[0].pid == pid && apps[0].hwnd is Some {
        Some(apps[0])
    } else {
        first_window_of(apps.skip(1), pid)
    }
}

/// The window that was picked, in a new list: the same one if it is still there, else one of the
/// same process.
pub open spec fn window_again(apps: Seq<AudioApp>, pid: u32, hwnd: Option<isize>) -> Option<
    AudioApp,
> {
    match hwnd {
        Some(h) => match first_of_hwnd(apps, h) {
            Some(a) => Some(a),
            None => first_window_of(apps, pid),
        },
        None => first_window_of(apps, pid),
    }
}

fn find_pid(apps: &Vec<AudioApp>, pid: u32) -> (r: Option<usize>)
    ensures
        match r {
            Some(i) => i < apps@.len() && first_of_pid(apps@, pid) == Some(apps@[i as int]),
            None => first_of_pid(apps@, pid) is None,
        },
{
    let mut i: usize = 0;
    assert(apps@.skip(0) =~= apps@);
    while i < apps.len()
        invariant
            i <= apps@.len(),
            first_of_pid(apps@, pid) == first_of_pid(apps@.skip(i as int), pid),
        decreases apps@.len() - i,
    {
        if apps[i].pid == pid {
            return Some(i);
        }
        assert(apps@.skip(i as int).skip(1) =~= apps@.skip(i + 1));
        i += 1;
    }
    None
}

fn find_hwnd(apps: &Vec<AudioApp>, hwnd: isize) -> (r: Option<usize>)
    ensures
        match r {
            Some(i) => i < apps@.len() && first_of_hwnd(apps@, hwnd) == Some(apps@[i as int]),
            None => first_of_hwnd(apps@, hwnd) is None,
        },
{
    let mut i: usize = 0;
    assert(apps@.skip(0) =~= apps@);
    while i < apps.len()
        invariant
            i <= apps@.len(),
            first_of_hwnd(apps@, hwnd) == first_of_hwnd(apps@.skip(i as int), hwnd),
        decreases apps@.len() - i,
    {
        let same = match apps[i].hwnd {
            Some(h) => h == hwnd,
            None => false,
        };
        if same {
            return Some(i);
        }
        assert(apps@.skip(i as int).skip(1) =~= apps@.skip(i + 1));
        i += 1;
    }
    None
}

fn find_window(apps: &Vec<AudioApp>, pid: u32) -> (r: Option<usize>)
    ensures
        match r {
            Some(i) => i < apps@.len() && first_window_of(apps@, pid) == Some(apps@[i as int]),
            None => first_window_of(apps@, pid) is None,
        },
{
    let mut i: usize = 0;
    assert(apps@.skip(0) =~= apps@);
    while i < apps.len()
        invariant
            i <= apps@.len(),
            first_window_of(apps@, pid) == first_window_of(apps@.skip(i as int), pid),
        decreases apps@.len() - i,
    {
        if apps[i].pid == pid && apps[i].hwnd.is_some() {
            return Some(i);
        }
        assert(apps@.skip(i as int).skip(1) =~= apps@.skip(i + 1));
        i += 1;
    }
    None
}

/// What the video picker starts with.
pub open spec fn seeded_video(init: InitialConfig, build: BuildFeatures) -> VideoSourceKind {
    if init.video is None {
        VideoSourceKind::Off
    } else if init.capture_source == CaptureSource::WebUplink {
        VideoSourceKind::WebCast
    } else if build.screen_capture {
        VideoSourceKind::Screen
    } else {
        VideoSourceKind::Off
    }
}

/// Whether the pickers show what the server was started with.
pub open spec fn is_seed(
    p: Pickers,
    init: InitialConfig,
    build: BuildFeatures,
    saved_device: Option<EncodeDevice>,
) -> bool {
    &&& capture_of(p.source, p.selected_pid) == Some(init.capture_source)
    &&& p.source != SourceKind::App ==> p.selected_pid is None
    &&& p.selected_name@.len() == 0
    &&& p.video_kind == seeded_video(init, build)
    &&& p.video_pid is None
    &&& p.video_name@.len() == 0
    &&& p.video_hwnd is None
    &&& p.res_idx == match init.video {
        Some(v) => resolution_index(v.resolution),
        None => 1,
    }
    &&& p.fps60 == match init.video {
        Some(v) => v.fps == Fps::F60,
        None => false,
    }
    &&& p.vp9 == (init.encoder == EncoderBackend::Vp9 && build.vp9)
    &&& p.encode_device == match saved_device {
        Some(d) => d,
        None => init.encode_device,
    }
    &&& p.video_quality_pct == match init.video {
        Some(v) => v.quality_pct,
        None => 100,
    }
    &&& p.buffer_ms == init.buffer_ms
    &&& p.codec == init.codec
    &&& p.bitrate == init.bitrate
}

/// Whether a new list of applications and windows leads from the one selection to the other.
pub open spec fn reconcile_step(p: Pickers, apps: Seq<AudioApp>, windows: bool, after: Pickers) -> bool {
    &&& after.source == p.source
    &&& match p.selected_pid {
        Some(pid) => match first_of_pid(apps, pid) {
            Some(a) => after.selected_pid == Some(pid) && after.selected_name@ == a.name@,
            None => after.selected_pid is None && after.selected_name@.len() == 0,
        },
        None => after.selected_pid is None && after.selected_name == p.selected_name,
    }
    &&& match p.video_pid {
        Some(pid) => if windows {
            match window_again(apps, pid, p.video_hwnd) {
                Some(a) => {
                    &&& after.video_pid == Some(a.pid)
                    &&& after.video_name@ == a.name@
                    &&& after.video_hwnd == a.hwnd
                    &&& after.video_kind == p.video_kind
                },
                None => {
                    &&& after.video_pid is None
                    &&& after.video_name@.len() == 0
                    &&& after.video_hwnd is None
                    &&& after.video_kind == if p.video_kind == VideoSourceKind::Window {
                        VideoSourceKind::Screen
                    } else {
                        p.video_kind
                    }
                },
            }
        } else {
            same_video(after, p)
        },
        None => same_video(after, p),
    }
    &&& same_rest(after, p)
}

/// Whether the stream is rebuilt with these options.
pub open spec fn is_applied(
    p: Pickers,
    name: Seq<char>,
    lead_ms: i64,
    min_ms: i64,
    platform: Platform,
    vp9: bool,
    o: MediaOptions,
) -> bool {
    &&& o.name@ == name
    &&& o.codec == p.codec
    &&& o.bitrate == p.bitrate
    &&& o.lead_ms == lead_ms
    &&& o.buffer_ms == clamped(p.buffer_ms as int, min_ms as int, MAX_BUFFER_MS as int)
    &&& capture_of(p.source, p.selected_pid) == Some(o.capture_source)
    &&& o.video == video_of(p)
    &&& o.video_target == target_of(p, platform)
    &&& o.encoder == resolved(
        if p.vp9 {
            EncoderBackend::Vp9
        } else {
            EncoderBackend::Av1
        },
        vp9,
    )
    &&& o.encode_device == p.encode_device
}

impl Pickers {
    /// Whether the audio and the video picker agree.
    pub open spec fn wf(&self) -> bool {
        agree(self.source, self.video_kind)
    }

    /// The pickers that show what the server was started with. A device that was saved counts more
    /// than the one that it was started with, and what this build cannot do is not picked.
    pub fn seed(init: &InitialConfig, build: &BuildFeatures, saved_device: Option<EncodeDevice>) -> (p:
        Pickers)
        requires
            i32::MIN <= init.buffer_ms <= i32::MAX,
        ensures
            p.wf(),
            is_seed(p, *init, *build, saved_device),
    {
        let (source, selected_pid) = match init.capture_source {
            CaptureSource::AllExceptSelf => (SourceKind::AllApps, None),
            CaptureSource::System => (SourceKind::System, None),
            CaptureSource::WebUplink => (SourceKind::WebUplink, None),
            CaptureSource::App { pid } => (SourceKind::App, Some(pid)),
        };
        let video_kind = if init.video.is_none() {
            VideoSourceKind::Off
        } else if matches!(init.capture_source, CaptureSource::WebUplink) {
            VideoSourceKind::WebCast
        } else if build.screen_capture {
            VideoSourceKind::Screen
        } else {
            VideoSourceKind::Off
        };
        Pickers {
            source,
            selected_pid,
            selected_name: String::new(),
            video_kind,
            video_pid: None,
            video_name: String::new(),
            video_hwnd: None,
            res_idx: match init.video {
                Some(v) => res_to_idx(v.resolution),
                None => 1,
            },
            fps60: match init.video {
                Some(v) => matches!(v.fps, Fps::F60),
                None => false,
            },
            vp9: matches!(init.encoder, EncoderBackend::Vp9) && build.vp9,
            encode_device: match saved_device {
                Some(d) => d,
                None => init.encode_device,
            },
            video_quality_pct: match init.video {
                Some(v) => v.quality_pct,
                None => 100,
            },
            buffer_ms: init.buffer_ms as i32,
            codec: init.codec,
            bitrate: init.bitrate,
        }
    }

    /// The settings as they would be applied.
    pub fn current_config(&self, min_ms: i64) -> (c: AppliedConfig)
        requires
            i32::MIN <= min_ms <= MAX_BUFFER_MS,
        ensures
            c == snapshot(*self, min_ms as int),
    {
        AppliedConfig {
            source: self.source,
            selected_pid: self.selected_pid,
            video_kind: self.video_kind,
            video_hwnd: self.video_hwnd,
            res_idx: self.res_idx,
            fps60: self.fps60,
            vp9: self.vp9,
            encode_device: self.encode_device,
            video_quality_pct: self.video_quality_pct,
            buffer_ms: config::clamp_i64(self.buffer_ms as i64, min_ms, MAX_BUFFER_MS) as i32,
            codec: self.codec,
            bitrate: self.bitrate,
        }
    }

    /// Whether the settings differ from the applied ones.
    pub fn is_dirty(&self, applied: Option<AppliedConfig>, min_ms: i64) -> (r: bool)
        requires
            i32::MIN <= min_ms <= MAX_BUFFER_MS,
        ensures
            r == (applied != Some(snapshot(*self, min_ms as int))),
    {
        match applied {
            Some(a) => a != self.current_config(min_ms),
            None => true,
        }
    }

    /// Audio from all applications, or from the system's output.
    pub fn pick_local_audio(&mut self, source: SourceKind)
        requires
            old(self).wf(),
            source == SourceKind::AllApps || source == SourceKind::System,
        ensures
            final(self).wf(),
            *final(self) == with_local_source(*old(self), source),
    {
        self.source = source;
        self.drop_cast_video();
    }

    fn drop_cast_video(&mut self)
        ensures
            *final(self) == with_local_source(*old(self), old(self).source),
    {
        if self.video_kind == VideoSourceKind::WebCast {
            self.video_kind = VideoSourceKind::Off;
        }
    }

    /// Audio from one application, which is picked from a list next.
    pub fn pick_app_radio(&mut self)
        requires
            old(self).wf(),
        ensures
            final(self).wf(),
            *final(self) == with_local_source(*old(self), SourceKind::App),
    {
        self.source = SourceKind::App;
        self.drop_cast_video();
    }

    /// Audio from this application.
    pub fn pick_app(&mut self, a: &AudioApp)
        requires
            old(self).wf(),
        ensures
            final(self).wf(),
            app_picked(*old(self), *a, *final(self)),
    {
        self.selected_pid = Some(a.pid);
        self.selected_name = a.name.clone();
        self.source = SourceKind::App;
        self.drop_cast_video();
    }

    /// Audio that a web client casts, without its screen.
    pub fn pick_cast_audio(&mut self)
        requires
            old(self).wf(),
        ensures
            final(self).wf(),
            *final(self) == with_cast(*old(self), VideoSourceKind::Off),
    {
        self.source = SourceKind::WebUplink;
        self.video_kind = VideoSourceKind::Off;
    }

    /// No video.
    pub fn pick_no_video(&mut self)
        requires
            old(self).wf(),
        ensures
            final(self).wf(),
            *final(self) == (Pickers { video_kind: VideoSourceKind::Off, ..*old(self) }),
    {
        self.video_kind = VideoSourceKind::Off;
    }

    /// Video of the whole screen, or of a window that is picked from a list next.
    pub fn pick_local_video(&mut self, kind: VideoSourceKind)
        requires
            old(self).wf(),
            kind == VideoSourceKind::Screen || kind == VideoSourceKind::Window,
        ensures
            final(self).wf(),
            *final(self) == with_local_video(*old(self), kind),
    {
        self.video_kind = kind;
        if self.source == SourceKind::WebUplink {
            self.source = SourceKind::AllApps;
        }
    }

    /// Video of this window, and audio of its application.
    pub fn pick_window(&mut self, a: &AudioApp)
        requires
            old(self).wf(),
        ensures
            final(self).wf(),
            window_picked(*old(self), *a, *final(self)),
    {
        self.video_pid = Some(a.pid);
        self.video_name = a.name.clone();
        self.video_hwnd = a.hwnd;
        self.video_kind = VideoSourceKind::Window;
        self.source = SourceKind::App;
        self.selected_pid = Some(a.pid);
        self.selected_name = a.name.clone();
    }

    /// Video and audio that a web client casts.
    pub fn pick_cast_video(&mut self)
        requires
            old(self).wf(),
        ensures
            final(self).wf(),
            *final(self) == with_cast(*old(self), VideoSourceKind::WebCast),
    {
        self.video_kind = VideoSourceKind::WebCast;
        self.source = SourceKind::WebUplink;
    }

    /// Takes a new list of applications and windows. An application that is gone is no longer
    /// picked, and nothing else is captured in its place; a window that is gone gives way to the
    /// whole screen.
    pub fn reconcile(&mut self, apps: &Vec<AudioApp>, windows: bool)
        requires
            old(self).wf(),
        ensures
            final(self).wf(),
            reconcile_step(*old(self), apps@, windows, *final(self)),
    {
        match self.selected_pid {
            Some(pid) => {
                match find_pid(apps, pid) {
                    Some(i) => {
                        self.selected_name = apps[i].name.clone();
                    },
                    None => {
                        self.selected_pid = None;
                        self.selected_name = String::new();
                    },
                }
            },
            None => {},
        }
        if windows {
            match self.video_pid {
                Some(pid) => {
                    let by_handle = match self.video_hwnd {
                        Some(h) => find_hwnd(apps, h),
                        None => None,
                    };
                    let found = match by_handle {
                        Some(i) => Some(i),
                        None => find_window(apps, pid),
                    };
                    match found {
                        Some(i) => {
                            self.video_pid = Some(apps[i].pid);
                            self.video_name = apps[i].name.clone();
                            self.video_hwnd = apps[i].hwnd;
                        },
                        None => {
                            self.video_pid = None;
                            self.video_name = String::new();
                            self.video_hwnd = None;
                            if self.video_kind == VideoSourceKind::Window {
                                self.video_kind = VideoSourceKind::Screen;
                            }
                        },
                    }
                },
                None => {},
            }
        }
    }

    /// What the stream is rebuilt with, or what must be picked first.
    pub fn apply(&self, name: &str, lead_ms: i64, min_ms: i64, platform: Platform, vp9: bool) -> (r:
        Result<MediaOptions, &'static str>)
        requires
            min_ms <= MAX_BUFFER_MS,
        ensures
            match r {
                Ok(o) => obstacle(*self, platform) is None && is_applied(
                    *self,
                    name@,
                    lead_ms,
                    min_ms,
                    platform,
                    vp9,
                    o,
                ),
                Err(e) => obstacle(*self, platform) == Some(e@),
            },
    {
        let capture_source = match self.source {
            SourceKind::AllApps => CaptureSource::AllExceptSelf,
            SourceKind::System => CaptureSource::System,
            SourceKind::WebUplink => CaptureSource::WebUplink,
            SourceKind::App => match self.selected_pid {
                Some(pid) => CaptureSource::App { pid },
                None => {
                    return Err(PICK_APP);
                },
            },
        };
        let windows = matches!(platform, Platform::Windows);
        if windows && self.video_kind == VideoSourceKind::Window && self.video_hwnd.is_none() {
            return Err(PICK_WINDOW);
        }
        let video = if self.video_kind != VideoSourceKind::Off {
            Some(
                VideoConfig {
                    resolution: idx_to_res(self.res_idx),
                    fps: if self.fps60 {
                        Fps::F60
                    } else {
                        Fps::F30
                    },
                    quality_pct: self.video_quality_pct,
                },
            )
        } else {
            None
        };
        let video_target = match self.video_hwnd {
            Some(hwnd) => if windows && self.video_kind == VideoSourceKind::Window {
                VideoTarget::Window { hwnd }
            } else {
                VideoTarget::PrimaryMonitor
            },
            None => VideoTarget::PrimaryMonitor,
        };
        Ok(
            MediaOptions {
                name: name.to_string(),
                codec: self.codec,
                bitrate: self.bitrate,
                lead_ms,
                buffer_ms: config::clamp_i64(self.buffer_ms as i64, min_ms, MAX_BUFFER_MS),
                capture_source,
                video,
                video_target,
                encoder: if self.vp9 && vp9 {
                    EncoderBackend::Vp9
                } else {
                    EncoderBackend::Av1
                },
                encode_device: self.encode_device,
            },
        )
    }
}

/// Whether the video selection is the same.
pub open spec fn same_video(a: Pickers, b: Pickers) -> bool {
    &&& a.video_kind == b.video_kind
    &&& a.video_pid == b.video_pid
    &&& a.video_name == b.video_name
    &&& a.video_hwnd == b.video_hwnd
}

/// Whether all but the two selections is the same.
pub open spec fn same_rest(a: Pickers, b: Pickers) -> bool {
    &&& a.res_idx == b.res_idx
    &&& a.fps60 == b.fps60
    &&& a.vp9 == b.vp9
    &&& a.encode_device == b.encode_device
    &&& a.video_quality_pct == b.video_quality_pct
    &&& a.buffer_ms == b.buffer_ms
    &&& a.codec == b.codec
    &&& a.bitrate == b.bitrate
}

/// An application that is gone is never replaced by a wider capture: with the audio picker on one
/// application and none picked, the settings cannot be applied.
pub proof fn law_gone_app_does_not_widen(p: Pickers, platform: Platform)
    requires
        p.source == SourceKind::App,
        p.selected_pid is None,
    ensures
        obstacle(p, platform) == Some(PICK_APP@),
{
}

/// Settings that were just applied are not shown as changed, however far out of range the buffer
/// was, and applying them again asks for the same buffer.
pub proof fn law_applied_is_clean(p: Pickers, min_ms: int)
    requires
        i32::MIN <= min_ms <= MAX_BUFFER_MS,
    ensures
        snapshot(Pickers { buffer_ms: snapshot(p, min_ms).buffer_ms, ..p }, min_ms) == snapshot(
            p,
            min_ms,
        ),
{
}

/// Whether a new list of applications is being made. One is made at a time.
#[derive(Clone, Copy, Debug, PartialEq, Eq, Structural)]
pub struct Refresh {
    /// Whether one is being made.
    pub in_flight: bool,
}

/// What came of looking for a new list.
#[derive(Clone, Copy, Debug, PartialEq, Eq, Structural)]
pub enum RefreshEvent {
    /// It is there.
    Listed,
    /// It is not there yet.
    Waiting,
    /// It will never be there.
    Lost,
}

/// Whether a list is still being made after looking for it.
pub open spec fn still_listing(in_flight: bool, e: RefreshEvent) -> bool {
    in_flight && e == RefreshEvent::Waiting
}

impl Refresh {
    /// None is being made.
    pub fn new() -> (r: Refresh)
        ensures
            !r.in_flight,
    {
        Refresh { in_flight: false }
    }

    /// Whether to start making one.
    pub fn wanted(&self) -> (r: bool)
        ensures
            r == !self.in_flight,
    {
        !self.in_flight
    }

    /// One is being made now, if it could be started.
    pub fn started(&mut self, ok: bool)
        ensures
            final(self).in_flight == (old(self).in_flight || ok),
    {
        if ok {
            self.in_flight = true;
        }
    }

    /// What came of it.
    pub fn event(&mut self, e: RefreshEvent)
        ensures
            final(self).in_flight == still_listing(old(self).in_flight, e),
    {
        if e != RefreshEvent::Waiting {
            self.in_flight = false;
        }
    }
}

/// How good an Opus stream sounds.
pub open spec fn opus_verdict(bitrate: int) -> Seq<char> {
    if bitrate >= 256_000 {
        "transparent (indistinguishable from the original)"@
    } else if bitrate >= 160_000 {
        "excellent, near-CD"@
    } else if bitrate >= 96_000 {
        "very good"@
    } else if bitrate >= 64_000 {
        "good"@
    } else {
        "voice-grade"@
    }
}

/// What the stream sounds like, in words.
pub open spec fn quality_text(codec: CodecKind, bitrate: int) -> Seq<char> {
    match codec {
        CodecKind::Pcm => "Lossless PCM · 48 kHz · 16-bit stereo — bit-perfect, uncompressed"@,
        CodecKind::Opus => "Opus · 48 kHz stereo · "@ + decimal(
            (if bitrate < 1000 {
                1
            } else {
                bitrate / 1000
            }) as nat,
        ) + " kbps — "@ + opus_verdict(bitrate),
    }
}

/// What the stream sounds like, in words.
pub fn audio_quality_text(codec: CodecKind, bitrate: i32) -> (s: String)
    ensures
        s@ == quality_text(codec, bitrate as int),
{
    match codec {
        CodecKind::Pcm => "Lossless PCM · 48 kHz · 16-bit stereo — bit-perfect, uncompressed".to_string(),
        CodecKind::Opus => {
            let kbps: u64 = if bitrate < 1000 {
                1
            } else {
                bitrate as u64 / 1000
            };
            let mut s = "Opus · 48 kHz stereo · ".to_string();
            text::append_decimal(&mut s, kbps);
            s.append(" kbps — ");
            s.append(
                if bitrate >= 256_000 {
                    "transparent (indistinguishable from the original)"
                } else if bitrate >= 160_000 {
                    "excellent, near-CD"
                } else if bitrate >= 96_000 {
                    "very good"
                } else if bitrate >= 64_000 {
                    "good"
                } else {
                    "voice-grade"
                },
            );
            s
        },
    }
}

/// The button that applies the settings.
pub struct ApplyButton {
    /// What it says.
    pub label: String,
    /// Whether it can be pressed, and stands out.
    pub enabled: bool,
    /// What it says under the pointer, where it can be pressed.
    pub hint: Option<String>,
}

/// What the button says.
pub open spec fn apply_label(busy: bool, dirty: bool, clients: nat) -> Seq<char> {
    if busy {
        STARTING@
    } else if dirty {
        if clients > 0 {
            "Apply changes — reconnects "@ + decimal(clients) + " device"@ + (if clients == 1 {
                Seq::empty()
            } else {
                "s"@
            })
        } else {
            "Apply changes"@
        }
    } else {
        "Stream is up to date"@
    }
}

/// What the button says under the pointer.
pub open spec fn apply_hint(clients: nat) -> Seq<char> {
    "Rebuilds the stream with your new settings. "@ + (if clients == 0 {
        "No devices are connected"@
    } else if clients == 1 {
        "1 connected device will reconnect"@
    } else {
        "All "@ + decimal(clients) + " connected devices will reconnect"@
    }) + " (~1s of silence)."@
}

/// Whether settings can be applied now.
pub open spec fn can_apply(busy: bool, dirty: bool) -> bool {
    dirty && !busy
}

/// The button that applies the settings.
pub fn apply_button(busy: bool, dirty: bool, clients: usize) -> (b: ApplyButton)
    ensures
        b.label@ == apply_label(busy, dirty, clients as nat),
        b.enabled == can_apply(busy, dirty),
        match b.hint {
            Some(h) => b.enabled && h@ == apply_hint(clients as nat),
            None => !b.enabled,
        },
{
    let label = if busy {
        STARTING.to_string()
    } else if dirty {
        if clients > 0 {
            let mut s = "Apply changes — reconnects ".to_string();
            text::append_decimal(&mut s, clients as u64);
            s.append(" device");
            if clients == 1 {
                assert(s@ =~= s@ + Seq::<char>::empty());
            } else {
                s.append("s");
            }
            s
        } else {
            "Apply changes".to_string()
        }
    } else {
        "Stream is up to date".to_string()
    };
    let enabled = dirty && !busy;
    let hint = if enabled {
        let mut who = String::new();
        if clients == 0 {
            who.append("No devices are connected");
        } else if clients == 1 {
            who.append("1 connected device will reconnect");
        } else {
            who.append("All ");
            text::append_decimal(&mut who, clients as u64);
            who.append(" connected devices will reconnect");
        }
        let mut s = "Rebuilds the stream with your new settings. ".to_string();
        s.append(who.as_str());
        s.append(" (~1s of silence).");
        assert(s@ =~= apply_hint(clients as nat));
        Some(s)
    } else {
        None
    };
    ApplyButton { label, enabled, hint }
}

/// Whether a stream has come up, given whether one had before.
pub fn has_come_up(before: bool, status: &str) -> (r: bool)
    ensures
        r == (before || occurs_at(status@, "Serving"@, 0)),
{
    before || text::starts_with(status, "Serving")
}

/// What the header says of the stream.
pub open spec fn pill_text(busy: bool, live: bool, clients: nat) -> Seq<char> {
    if busy {
        STARTING@
    } else if live {
        "Live · "@ + decimal(clients) + " listening"@
    } else {
        "Stopped"@
    }
}

/// The colour of what the header says.
pub open spec fn pill_shade(busy: bool, live: bool) -> Shade {
    if busy {
        Shade::AccentHigh
    } else if live {
        Shade::Good
    } else {
        Shade::Bad
    }
}

/// What the header says of the stream, and in which colour.
pub fn pill(busy: bool, live: bool, clients: usize) -> (r: (String, Shade))
    ensures
        r.0@ == pill_text(busy, live, clients as nat),
        r.1 == pill_shade(busy, live),
{
    if busy {
        (STARTING.to_string(), Shade::AccentHigh)
    } else if live {
        let mut s = "Live · ".to_string();
        text::append_decimal(&mut s, clients as u64);
        s.append(" listening");
        (s, Shade::Good)
    } else {
        ("Stopped".to_string(), Shade::Bad)
    }
}

/// The colour of the status line.
pub open spec fn status_shade(status: Seq<char>, busy: bool) -> Shade {
    if occurs_at(status, "Couldn't"@, 0) || occurs_at(status, "Pick"@, 0) {
        Shade::Bad
    } else if occurs_at(status, "Serving"@, 0) {
        Shade::Good
    } else if busy || occurs_at(status, "Starting"@, 0) {
        Shade::AccentHigh
    } else {
        Shade::Dim
    }
}

/// The colour of the status line.
pub fn status_colour(status: &str, busy: bool) -> (r: Shade)
    ensures
        r == status_shade(status@, busy),
{
    if text::starts_with(status, "Couldn't") || text::starts_with(status, "Pick") {
        Shade::Bad
    } else if text::starts_with(status, "Serving") {
        Shade::Good
    } else if busy || text::starts_with(status, "Starting") {
        Shade::AccentHigh
    } else {
        Shade::Dim
    }
}

/// The port to save, if another one was typed.
pub open spec fn saved_port(serving: u16, typed: u16) -> Option<u16> {
    if typed == serving {
        None
    } else {
        Some(typed)
    }
}

/// The port to save, if another one was typed.
pub fn port_to_save(serving: u16, typed: u16) -> (r: Option<u16>)
    ensures
        r == saved_port(serving, typed),
{
    if typed == serving {
        None
    } else {
        Some(typed)
    }
}

/// What is said of a port that was typed, given what came of saving it.
pub fn port_message(serving: u16, typed: u16, saved: Result<(), String>) -> (s: String)
    ensures
        s@ == (if typed == serving {
            "Already serving on port "@ + decimal(serving as nat) + "."@
        } else {
            match saved {
                Ok(_) => "Saved — restart Newfoundsync to serve on port "@ + decimal(typed as nat)
                    + "."@,
                Err(e) => "Couldn't save port: "@ + e@,
            }
        }),
{
    if typed == serving {
        let mut s = "Already serving on port ".to_string();
        text::append_decimal(&mut s, serving as u64);
        s.append(".");
        s
    } else {
        match saved {
            Ok(_) => {
                let mut s = "Saved — restart Newfoundsync to serve on port ".to_string();
                text::append_decimal(&mut s, typed as u64);
                s.append(".");
                s
            },
            Err(e) => {
                let mut s = "Couldn't save port: ".to_string();
                s.append(e.as_str());
                s
            },
        }
    }
}

/// By how much audio is shifted against video.
#[derive(Clone, Copy, Debug, PartialEq, Eq, Structural)]
pub struct AvOffset {
    /// Milliseconds, as the slider shows them.
    pub ms: i32,
    /// Nanoseconds, as the stamps are shifted.
    pub ns: i64,
}

/// Farthest that audio is shifted, in milliseconds.
pub const MAX_AV_OFFSET_MS: i32 = 500;

/// The milliseconds by which audio is shifted when this many are asked for.
pub open spec fn offset_ms(ms: int) -> int {
    clamped(ms, -500, 500)
}

impl AvOffset {
    /// The offset that the server was started with.
    pub fn from_ns(ns: i64) -> (o: AvOffset)
        requires
            i32::MIN * 1_000_000 <= ns <= i32::MAX * 1_000_000,
        ensures
            o.ns == ns,
            ns >= 0 ==> o.ms == ns as int / 1_000_000,
            ns < 0 ==> o.ms == -((-ns) / 1_000_000),
    {
        let ms: i64 = if ns >= 0 {
            ns / 1_000_000
        } else {
            -((-ns) / 1_000_000)
        };
        AvOffset { ms: ms as i32, ns }
    }

    /// Shifts audio by this much, half a second at most, one way or the other.
    pub fn apply(&mut self, ms: i32)
        ensures
            final(self).ms == offset_ms(ms as int),
            final(self).ns == final(self).ms * 1_000_000,
    {
        self.ms = if ms < -MAX_AV_OFFSET_MS {
            -MAX_AV_OFFSET_MS
        } else if ms > MAX_AV_OFFSET_MS {
            MAX_AV_OFFSET_MS
        } else {
            ms
        };
        self.ns = self.ms as i64 * 1_000_000;
    }
}

/// Whether a moved slider has come to rest.
pub open spec fn slider_settled(drag_stopped: bool, changed: bool, dragged: bool) -> bool {
    drag_stopped || (changed && !dragged)
}

/// Whether a moved slider is to be saved: once the drag ends, or at once where there was none.
pub fn slider_is_to_be_saved(drag_stopped: bool, changed: bool, dragged: bool) -> (r: bool)
    ensures
        r == slider_settled(drag_stopped, changed, dragged),
{
    drag_stopped || (changed && !dragged)
}

/// An offset in milliseconds, with its sign, five characters wide at least.
pub open spec fn offset_line(ms: int) -> Seq<char> {
    text::pad_left(text::signed_decimal(ms), 5) + " ms"@
}

/// An offset in milliseconds, with its sign, five characters wide at least.
pub fn offset_text(ms: i32) -> (s: String)
    ensures
        s@ == offset_line(ms as int),
{
    let mut n = String::new();
    text::append_signed(&mut n, ms as i64);
    assert(n@ =~= text::signed_decimal(ms as int));
    let mut s = text::padded_left(n.as_str(), 5);
    s.append(" ms");
    s
}

/// A buffer that is offered by name.
#[derive(Clone, Copy, Debug, PartialEq, Eq, Structural)]
pub enum BufferPreset {
    /// One second.
    Snappy,
    /// Three seconds.
    Balanced,
    /// Six seconds.
    RockSolid,
}

/// The length of a preset in milliseconds.
pub open spec fn preset_ms(p: BufferPreset) -> i32 {
    match p {
        BufferPreset::Snappy => 1000,
        BufferPreset::Balanced => 3000,
        BufferPreset::RockSolid => 6000,
    }
}

impl BufferPreset {
    /// Its length in milliseconds.
    pub fn ms(self) -> (r: i32)
        ensures
            r == preset_ms(self),
    {
        match self {
            BufferPreset::Snappy => 1000,
            BufferPreset::Balanced => 3000,
            BufferPreset::RockSolid => 6000,
        }
    }

    /// Its name.
    pub fn label(self) -> (s: &'static str)
        ensures
            s@ == (match self {
                BufferPreset::Snappy => "Snappy · 1s"@,
                BufferPreset::Balanced => "Balanced · 3s"@,
                BufferPreset::RockSolid => "Rock-solid · 6s"@,
            }),
    {
        match self {
            BufferPreset::Snappy => "Snappy · 1s",
            BufferPreset::Balanced => "Balanced · 3s",
            BufferPreset::RockSolid => "Rock-solid · 6s",
        }
    }
}

/// What the picker offers for all applications.
pub fn all_apps_label(platform: Platform) -> (s: &'static str)
    ensures
        s@ == (match platform {
            Platform::Windows => "All apps  —  recommended (keeps playing when Windows is muted)"@,
            Platform::Linux => "All apps  —  recommended (captures the system output)"@,
            Platform::Other => "All apps  —  recommended"@,
        }),
{
    match platform {
        Platform::Windows => "All apps  —  recommended (keeps playing when Windows is muted)",
        Platform::Linux => "All apps  —  recommended (captures the system output)",
        Platform::Other => "All apps  —  recommended",
    }
}

/// What the picker offers for the system's output.
pub fn system_label(platform: Platform) -> (s: &'static str)
    ensures
        s@ == (match platform {
            Platform::Windows => "Full system output  —  goes silent when Windows is muted"@,
            Platform::Linux => "Full system output  —  mirrors the speakers (follows system mute)"@,
            Platform::Other => "Full system output"@,
        }),
{
    match platform {
        Platform::Windows => "Full system output  —  goes silent when Windows is muted",
        Platform::Linux => "Full system output  —  mirrors the speakers (follows system mute)",
        Platform::Other => "Full system output",
    }
}

/// What the picker offers for one application, where there is a list of them.
pub fn app_label(platform: Platform) -> (r: Option<&'static str>)
    ensures
        match r {
            Some(s) => s@ == (match platform {
                Platform::Windows => "Just one window / app:"@,
                _ => "Just one app (must be playing):"@,
            }) && platform != Platform::Other,
            None => platform == Platform::Other,
        },
{
    match platform {
        Platform::Windows => Some("Just one window / app:"),
        Platform::Linux => Some("Just one app (must be playing):"),
        Platform::Other => None,
    }
}

/// What the list of applications says when it is empty, where there is one.
pub fn empty_list_text(platform: Platform) -> (r: Option<&'static str>)
    ensures
        match r {
            Some(s) => s@ == (match platform {
                Platform::Windows => "(no windows / apps found — click Refresh)"@,
                _ =>
                    "(nothing is playing audio right now — start playback and it appears here)"@,
            }) && platform != Platform::Other,
            None => platform == Platform::Other,
        },
{
    match platform {
        Platform::Windows => Some("(no windows / apps found — click Refresh)"),
        Platform::Linux => Some(
            "(nothing is playing audio right now — start playback and it appears here)",
        ),
        Platform::Other => None,
    }
}

/// What the picker shows as picked: a name, where one is picked.
pub fn picked_label(picked: bool, name: &str) -> (s: String)
    ensures
        s@ == (if picked {
            name@
        } else {
            "(choose)"@
        }),
{
    if picked {
        name.to_string()
    } else {
        "(choose)".to_string()
    }
}

/// What the picker of encode devices shows as picked.
pub fn device_label(d: EncodeDevice) -> (s: &'static str)
    ensures
        s@ == (match d {
            EncodeDevice::Auto => "Auto · GPU, else CPU"@,
            EncodeDevice::Gpu => "GPU only"@,
            EncodeDevice::Cpu => "CPU only"@,
        }),
{
    match d {
        EncodeDevice::Auto => "Auto · GPU, else CPU",
        EncodeDevice::Gpu => "GPU only",
        EncodeDevice::Cpu => "CPU only",
    }
}

/// What the picker of encode devices offers.
pub fn device_offer(d: EncodeDevice) -> (s: &'static str)
    ensures
        s@ == (match d {
            EncodeDevice::Auto => "Auto · GPU, else CPU"@,
            EncodeDevice::Gpu => "GPU only · fail if unavailable"@,
            EncodeDevice::Cpu => "CPU only · never use the GPU"@,
        }),
{
    match d {
        EncodeDevice::Auto => "Auto · GPU, else CPU",
        EncodeDevice::Gpu => "GPU only · fail if unavailable",
        EncodeDevice::Cpu => "CPU only · never use the GPU",
    }
}

/// The name of the codec that is picked: VP9 only where this build has it.
pub fn codec_label(picked_vp9: bool, has_vp9: bool) -> (s: &'static str)
    ensures
        s@ == (if picked_vp9 && has_vp9 {
            "VP9"@
        } else {
            "AV1"@
        }),
{
    if picked_vp9 && has_vp9 {
        "VP9"
    } else {
        "AV1"
    }
}

/// Applying the pickers as they were seeded asks for what the server was started with: the source,
/// the codecs, the picture where this build can show it, and the buffer within its limits. A saved
/// device counts more than the one on the command line.
pub proof fn law_seeded_pickers_apply_the_start(
    p: Pickers,
    init: InitialConfig,
    build: BuildFeatures,
    saved: Option<EncodeDevice>,
    name: Seq<char>,
    lead_ms: i64,
    min_ms: i64,
    platform: Platform,
    o: MediaOptions,
)
    requires
        is_seed(p, init, build, saved),
        is_applied(p, name, lead_ms, min_ms, platform, build.vp9, o),
        min_ms <= 15_000,
    ensures
        obstacle(p, platform) is None,
        o.capture_source == init.capture_source,
        o.codec == init.codec,
        o.bitrate == init.bitrate,
        o.name@ == name,
        o.lead_ms == lead_ms,
        o.video_target == VideoTarget::PrimaryMonitor,
        o.encoder == resolved(init.encoder, build.vp9),
        init.capture_source == CaptureSource::WebUplink || build.screen_capture
            ==> o.video == init.video,
        init.capture_source != CaptureSource::WebUplink && !build.screen_capture ==> o.video is None,
        saved matches Some(d) ==> o.encode_device == d,
        saved is None ==> o.encode_device == init.encode_device,
        min_ms <= init.buffer_ms <= 15_000 ==> o.buffer_ms == init.buffer_ms,
        init.buffer_ms < min_ms ==> o.buffer_ms == min_ms,
        init.buffer_ms > 15_000 ==> o.buffer_ms == 15_000,
{
}

/// What is applied is what is picked: each picker decides its own option.
pub proof fn law_applied_is_what_is_picked(
    p: Pickers,
    name: Seq<char>,
    lead_ms: i64,
    min_ms: i64,
    platform: Platform,
    vp9: bool,
    o: MediaOptions,
)
    requires
        is_applied(p, name, lead_ms, min_ms, platform, vp9, o),
        min_ms <= 15_000,
    ensures
        o.capture_source == CaptureSource::AllExceptSelf <==> p.source == SourceKind::AllApps,
        o.capture_source == CaptureSource::System <==> p.source == SourceKind::System,
        o.capture_source == CaptureSource::WebUplink <==> p.source == SourceKind::WebUplink,
        o.capture_source matches CaptureSource::App { pid } ==> p.selected_pid == Some(pid),
        o.video is None <==> p.video_kind == VideoSourceKind::Off,
        o.video matches Some(v) ==> (v.fps == Fps::F60 <==> p.fps60) && v.quality_pct
            == p.video_quality_pct,
        o.video_target is Window ==> platform == Platform::Windows && p.video_kind
            == VideoSourceKind::Window && p.video_hwnd is Some,
        platform == Platform::Windows && p.video_kind == VideoSourceKind::Window
            && p.video_hwnd is Some
            ==> o.video_target == (VideoTarget::Window { hwnd: p.video_hwnd->Some_0 }),
        o.encoder == EncoderBackend::Vp9 <==> p.vp9 && vp9,
        min_ms <= o.buffer_ms <= 15_000,
        o.encode_device == p.encode_device && o.codec == p.codec && o.bitrate == p.bitrate,
{
}

/// Settings cannot be applied exactly while something has to be picked first: an application, or on
/// Windows a window.
pub proof fn law_what_must_be_picked(p: Pickers, platform: Platform)
    ensures
        obstacle(p, platform) is Some <==> (p.source == SourceKind::App && p.selected_pid is None)
            || (
        platform == Platform::Windows && p.video_kind == VideoSourceKind::Window
            && p.video_hwnd is None),
        p.source == SourceKind::App && p.selected_pid is None ==> obstacle(p, platform) == Some(
            "Pick an app first, then Apply."@,
        ),
        obstacle(p, platform) is Some && p.source != SourceKind::App
            ==> obstacle(p, platform) == Some(
            "Pick a window for video first, then Apply."@,
        ),
{
}

proof fn lemma_first_of_pid(apps: Seq<AudioApp>, pid: u32)
    ensures
        first_of_pid(apps, pid) is None <==> forall|i: int|
            0 <= i < apps.len() ==> (#[trigger] apps[i]).pid != pid,
        first_of_pid(apps, pid) matches Some(a) ==> apps.contains(a) && a.pid == pid,
    decreases apps.len(),
{
    if apps.len() > 0 {
        let rest = apps.skip(1);
        lemma_first_of_pid(rest, pid);
        assert(forall|i: int| 0 <= i < rest.len() ==> (#[trigger] rest[i]) == apps[i + 1]);
        if apps[0].pid == pid {
            assert(apps.contains(apps[0]));
        } else if first_of_pid(rest, pid) is None {
            assert forall|i: int| 0 <= i < apps.len() implies (#[trigger] apps[i]).pid != pid by {
                if i > 0 {
                    assert(rest[i - 1] == apps[i]);
                }
            }
        } else {
            let a = first_of_pid(rest, pid)->Some_0;
            let k = choose|k: int| 0 <= k < rest.len() && rest[k] == a;
            assert(apps[k + 1] == a);
            assert(apps[k + 1].pid == pid);
        }
    }
}

proof fn lemma_first_of_hwnd(apps: Seq<AudioApp>, hwnd: isize)
    ensures
        first_of_hwnd(apps, hwnd) is None <==> forall|i: int|
            0 <= i < apps.len() ==> (#[trigger] apps[i]).hwnd != Some(hwnd),
        first_of_hwnd(apps, hwnd) matches Some(a) ==> apps.contains(a) && a.hwnd == Some(hwnd),
    decreases apps.len(),
{
    if apps.len() > 0 {
        let rest = apps.skip(1);
        lemma_first_of_hwnd(rest, hwnd);
        assert(forall|i: int| 0 <= i < rest.len() ==> (#[trigger] rest[i]) == apps[i + 1]);
        if apps[0].hwnd == Some(hwnd) {
            assert(apps.contains(apps[0]));
        } else if first_of_hwnd(rest, hwnd) is None {
            assert forall|i: int| 0 <= i < apps.len() implies (#[trigger] apps[i]).hwnd != Some(
                hwnd,
            ) by {
                if i > 0 {
                    assert(rest[i - 1] == apps[i]);
                }
            }
        } else {
            let a = first_of_hwnd(rest, hwnd)->Some_0;
            let k = choose|k: int| 0 <= k < rest.len() && rest[k] == a;
            assert(apps[k + 1] == a);
            assert(apps[k + 1].hwnd == Some(hwnd));
        }
    }
}

proof fn lemma_first_window_of(apps: Seq<AudioApp>, pid: u32)
    ensures
        first_window_of(apps, pid) is None <==> forall|i: int|
            0 <= i < apps.len() ==> !((#[trigger] apps[i]).pid == pid && apps[i].hwnd is Some),
        first_window_of(apps, pid) matches Some(a) ==> apps.contains(a) && a.pid == pid
            && a.hwnd is Some,
    decreases apps.len(),
{
    if apps.len() > 0 {
        let rest = apps.skip(1);
        lemma_first_window_of(rest, pid);
        assert(forall|i: int| 0 <= i < rest.len() ==> (#[trigger] rest[i]) == apps[i + 1]);
        if apps[0].pid == pid && apps[0].hwnd is Some {
            assert(apps.contains(apps[0]));
        } else if first_window_of(rest, pid) is None {
            assert forall|i: int| 0 <= i < apps.len() implies !((#[trigger] apps[i]).pid == pid
                && apps[i].hwnd is Some) by {
                if i > 0 {
                    assert(rest[i - 1] == apps[i]);
                }
            }
        } else {
            let a = first_window_of(rest, pid)->Some_0;
            let k = choose|k: int| 0 <= k < rest.len() && rest[k] == a;
            assert(apps[k + 1] == a);
            assert(apps[k + 1].pid == pid);
        }
    }
}

/// An application that is still there stays picked, one that is gone does not, and then the settings
/// cannot be applied until another one is picked. No picker moves to another source by itself.
pub proof fn law_gone_app_is_dropped(
    p: Pickers,
    apps: Seq<AudioApp>,
    windows: bool,
    after: Pickers,
    pid: u32,
    platform: Platform,
)
    requires
        reconcile_step(p, apps, windows, after),
        p.selected_pid == Some(pid),
    ensures
        after.source == p.source,
        (exists|i: int| 0 <= i < apps.len() && (#[trigger] apps[i]).pid == pid)
            <==> after.selected_pid
            == Some(pid),
        after.selected_pid is None || after.selected_pid == Some(pid),
        after.selected_pid == Some(pid) ==> exists|i: int|
            0 <= i < apps.len() && (#[trigger] apps[i]).pid == pid && after.selected_name@
                == apps[i].name@,
        after.selected_pid is None && p.source == SourceKind::App
            ==> obstacle(after, platform) is Some,
{
    lemma_first_of_pid(apps, pid);
    if let Some(a) = first_of_pid(apps, pid) {
        let k = choose|k: int| 0 <= k < apps.len() && apps[k] == a;
        assert(apps[k].pid == pid);
    }
}

/// A window that is still there stays picked, whatever its title is now; one that is gone gives way
/// to another window of its process, and to the whole screen where there is none.
pub proof fn law_gone_window_gives_way(
    p: Pickers,
    apps: Seq<AudioApp>,
    after: Pickers,
    pid: u32,
    hwnd: isize,
)
    requires
        reconcile_step(p, apps, true, after),
        p.video_kind == VideoSourceKind::Window,
        p.video_pid == Some(pid),
        p.video_hwnd == Some(hwnd),
    ensures
        (exists|i: int| 0 <= i < apps.len() && (#[trigger] apps[i]).hwnd == Some(hwnd))
            ==> after.video_hwnd == Some(hwnd) && after.video_kind == VideoSourceKind::Window,
        (exists|i: int| 0 <= i < apps.len() && (#[trigger] apps[i]).pid == pid
            && apps[i].hwnd is Some)
            ==> after.video_hwnd is Some && after.video_kind == VideoSourceKind::Window,
        (forall|i: int|
            0 <= i < apps.len() ==> (#[trigger] apps[i]).hwnd != Some(hwnd) && !(apps[i].pid == pid
                && apps[i].hwnd is Some)) ==> after.video_hwnd is None && after.video_kind
            == VideoSourceKind::Screen,
{
    lemma_first_of_hwnd(apps, hwnd);
    lemma_first_window_of(apps, pid);
}

/// A new list changes nothing but the two selections.
pub proof fn law_new_list_keeps_the_rest(p: Pickers, apps: Seq<AudioApp>, windows: bool, after: Pickers)
    requires
        reconcile_step(p, apps, windows, after),
    ensures
        after.res_idx == p.res_idx && after.fps60 == p.fps60 && after.vp9 == p.vp9,
        after.encode_device == p.encode_device && after.video_quality_pct == p.video_quality_pct,
        after.buffer_ms == p.buffer_ms && after.codec == p.codec && after.bitrate == p.bitrate,
        !windows ==> after.video_hwnd == p.video_hwnd && after.video_kind == p.video_kind,
        p.video_kind != VideoSourceKind::Window ==> after.video_kind == p.video_kind,
{
}

/// Whatever of the pickers counts for the stream is noticed when it changes: settings that look the
/// same are the same in all of it.
pub proof fn law_changes_are_noticed(a: Pickers, b: Pickers, min_ms: int)
    requires
        snapshot(a, min_ms) == snapshot(b, min_ms),
        i32::MIN <= min_ms <= 15_000,
    ensures
        a.source == b.source && a.selected_pid == b.selected_pid,
        a.video_kind == b.video_kind && a.video_hwnd == b.video_hwnd,
        a.res_idx == b.res_idx && a.fps60 == b.fps60 && a.vp9 == b.vp9,
        a.encode_device == b.encode_device && a.video_quality_pct == b.video_quality_pct,
        a.codec == b.codec && a.bitrate == b.bitrate,
        min_ms <= a.buffer_ms <= 15_000 && min_ms <= b.buffer_ms <= 15_000 ==> a.buffer_ms
            == b.buffer_ms,
{
}

/// The picker lists resolutions from the smallest to the largest.
pub proof fn law_resolutions_rise(i: int)
    requires
        0 <= i < 3,
    ensures
        config::resolution_dims(resolution_at(i)).1 < config::resolution_dims(resolution_at(i + 1)).1,
        resolution_index(resolution_at(i)) == i,
        resolution_index(resolution_at(i + 1)) == i + 1,
{
}

/// Picking a local source for audio or video leaves the two pickers in agreement, and changes
/// nothing but them: what was cast goes, and what was local stays.
pub proof fn law_pickers_stay_in_agreement(p: Pickers, source: SourceKind, kind: VideoSourceKind)
    requires
        p.wf(),
        source != SourceKind::WebUplink,
        kind == VideoSourceKind::Screen || kind == VideoSourceKind::Window,
    ensures
        with_local_source(p, source).wf(),
        with_local_video(p, kind).wf(),
        with_local_source(p, source).source == source,
        with_local_video(p, kind).video_kind == kind,
        with_local_source(p, source).video_kind != VideoSourceKind::WebCast,
        with_local_video(p, kind).source != SourceKind::WebUplink,
        p.video_kind != VideoSourceKind::WebCast ==> with_local_source(p, source).video_kind
            == p.video_kind,
        p.source != SourceKind::WebUplink ==> with_local_video(p, kind).source == p.source,
        same_rest(with_local_source(p, source), p),
        same_rest(with_local_video(p, kind), p),
        with_local_source(p, source).selected_pid == p.selected_pid,
        with_local_video(p, kind).video_hwnd == p.video_hwnd,
{
}

/// Clients open the server's address on the network by its port; where that is not known a word
/// stands for it.
pub proof fn law_address(lan: Seq<char>, port: u16)
    ensures
        address(Some(lan), port) == "https://"@ + lan + ":"@ + decimal(port as nat),
        address(None, port) == address(Some("<this-pc>"@), port),
{
}

/// A better bit rate never sounds worse: the verdict changes at 64, 96, 160 and 256 thousand bits a
/// second and nowhere else.
pub proof fn law_verdicts(a: int, b: int)
    requires
        a <= b,
    ensures
        opus_verdict(a) == opus_verdict(b) || (a < 64_000 <= b) || (a < 96_000 <= b)
            || (a < 160_000 <= b)
            || (a < 256_000 <= b),
        opus_verdict(256_000) == "transparent (indistinguishable from the original)"@,
        opus_verdict(255_999) == "excellent, near-CD"@,
        opus_verdict(159_999) == "very good"@,
        opus_verdict(95_999) == "good"@,
        opus_verdict(63_999) == "voice-grade"@,
{
}

/// The button tells what happens: that a stream starts, that nothing has changed, or how many devices
/// reconnect.
pub proof fn law_button_counts_the_devices(dirty: bool, clients: nat)
    ensures
        apply_label(true, dirty, clients) == "Starting…"@,
        apply_label(false, false, clients) == "Stream is up to date"@,
        apply_label(false, true, 0) == "Apply changes"@,
        apply_label(false, true, 1) == "Apply changes — reconnects "@ + decimal(1) + " device"@,
        clients > 1 ==> apply_label(false, true, clients) == "Apply changes — reconnects "@ + decimal(
            clients,
        ) + " device"@ + "s"@,
{
    assert(apply_label(false, true, 1) =~= "Apply changes — reconnects "@ + decimal(1) + " device"@);
}

/// Trouble is shown as bad, a stream as good, and waiting stands out.
pub proof fn law_status_colours(tail: Seq<char>, busy: bool)
    ensures
        status_shade("Couldn't"@ + tail, busy) == Shade::Bad,
        status_shade("Pick"@ + tail, busy) == Shade::Bad,
        status_shade("Serving"@ + tail, busy) == Shade::Good,
        status_shade("Starting"@ + tail, busy) == Shade::AccentHigh,
        status_shade(Seq::empty(), true) == Shade::AccentHigh,
        status_shade(Seq::empty(), false) == Shade::Dim,
{
    reveal_strlit("Couldn't");
    reveal_strlit("Pick");
    reveal_strlit("Serving");
    reveal_strlit("Starting");
    let a = "Couldn't"@ + tail;
    let b = "Pick"@ + tail;
    let c = "Serving"@ + tail;
    let d = "Starting"@ + tail;
    assert(a.subrange(0, 8) =~= "Couldn't"@);
    assert(b.subrange(0, 4) =~= "Pick"@);
    assert(c.subrange(0, 7) =~= "Serving"@);
    assert(d.subrange(0, 8) =~= "Starting"@);
    assert(c[0] == 'S' && d[0] == 'S' && d[1] == 't');
    if occurs_at(c, "Couldn't"@, 0) {
        assert(c.subrange(0, 8)[0] == 'C');
    }
    if occurs_at(c, "Pick"@, 0) {
        assert(c.subrange(0, 4)[0] == 'P');
    }
    if occurs_at(d, "Couldn't"@, 0) {
        assert(d.subrange(0, 8)[0] == 'C');
    }
    if occurs_at(d, "Pick"@, 0) {
        assert(d.subrange(0, 4)[0] == 'P');
    }
    if occurs_at(d, "Serving"@, 0) {
        assert(d.subrange(0, 7)[1] == 'e');
    }
}

/// Picking a cast leaves the two pickers in agreement and changes nothing else; the screen comes
/// with it only if it was picked too.
pub proof fn law_cast_is_picked(p: Pickers)
    ensures
        with_cast(p, VideoSourceKind::Off).wf(),
        with_cast(p, VideoSourceKind::WebCast).wf(),
        with_cast(p, VideoSourceKind::Off).source == SourceKind::WebUplink,
        with_cast(p, VideoSourceKind::WebCast).source == SourceKind::WebUplink,
        video_of(with_cast(p, VideoSourceKind::Off)) is None,
        video_of(with_cast(p, VideoSourceKind::WebCast)) is Some,
        same_rest(with_cast(p, VideoSourceKind::Off), p),
        same_rest(with_cast(p, VideoSourceKind::WebCast), p),
        with_cast(p, VideoSourceKind::Off).selected_pid == p.selected_pid,
{
}

/// Picking a window for video picks its application for audio too, so that sound and picture belong
/// together; picking an application for audio leaves a local picture alone.
pub proof fn law_window_brings_its_sound(p: Pickers, a: AudioApp, window: Pickers, app: Pickers)
    requires
        p.wf(),
        window_picked(p, a, window),
        app_picked(p, a, app),
    ensures
        window.wf() && app.wf(),
        capture_of(window.source, window.selected_pid) == Some(CaptureSource::App { pid: a.pid }),
        capture_of(app.source, app.selected_pid) == Some(CaptureSource::App { pid: a.pid }),
        window.video_kind == VideoSourceKind::Window && window.video_hwnd == a.hwnd
            && window.video_pid
            == Some(a.pid),
        window.video_name@ == a.name@ && window.selected_name@ == a.name@ && app.selected_name@
            == a.name@,
        p.video_kind != VideoSourceKind::WebCast ==> app.video_kind == p.video_kind && app.video_hwnd
            == p.video_hwnd,
        same_rest(window, p) && same_rest(app, p),
        a.hwnd is Some ==> obstacle(window, Platform::Windows) is None,
{
}

/// One list of applications is made at a time: looking for it ends the wait only if it is there or
/// will never be.
pub proof fn law_listing_ends(in_flight: bool)
    ensures
        still_listing(in_flight, RefreshEvent::Waiting) == in_flight,
        !still_listing(in_flight, RefreshEvent::Listed),
        !still_listing(in_flight, RefreshEvent::Lost),
{
}

/// Audio is shifted by as much as is asked for, up to half a second either way.
pub proof fn law_offset_is_bounded(ms: int)
    ensures
        -500 <= offset_ms(ms) <= 500,
        -500 <= ms <= 500 ==> offset_ms(ms) == ms,
        ms > 500 ==> offset_ms(ms) == 500,
        ms < -500 ==> offset_ms(ms) == -500,
        offset_ms(-ms) == -offset_ms(ms),
{
}

/// The window opens even where the chosen source fails: a relay is tried after it, once.
pub proof fn law_relay_is_tried_once()
    ensures
        try_after(StartTry::Chosen) == Some(StartTry::Fallback),
        try_after(StartTry::Fallback) is None,
{
}

/// The header says that a stream starts, that it runs and for how many, or that there is none;
/// settings can be applied when they have changed and nothing is starting.
pub proof fn law_header_and_button(live: bool, dirty: bool, clients: nat)
    ensures
        pill_text(true, live, clients) == "Starting…"@,
        pill_text(false, true, clients) == "Live · "@ + decimal(clients) + " listening"@,
        pill_text(false, false, clients) == "Stopped"@,
        pill_shade(false, true) == Shade::Good,
        pill_shade(false, false) == Shade::Bad,
        pill_shade(true, live) == Shade::AccentHigh,
        can_apply(false, dirty) == dirty,
        !can_apply(true, dirty),
{
}

/// A port is saved only if it is another one, and a slider once it is let go: at the end of a drag,
/// or at once where there was none.
pub proof fn law_saved_when_settled(serving: u16, typed: u16, changed: bool)
    ensures
        saved_port(serving, typed) is None <==> typed == serving,
        typed != serving ==> saved_port(serving, typed) == Some(typed),
        slider_settled(true, changed, false),
        slider_settled(false, true, false),
        !slider_settled(false, changed, true),
        !slider_settled(false, false, false),
{
}

/// The relay that stands in for a source that fails differs from what was asked for in the source
/// and the video alone, and both are set up as the server was started.
pub proof fn law_relay_keeps_the_setup(
    c: InitialConfig,
    name: Seq<char>,
    lead_ms: i64,
    chosen: MediaOptions,
    relay: MediaOptions,
)
    requires
        starts_with(c, name, lead_ms, chosen),
        starts_with(c, name, lead_ms, relay),
    ensures
        relay.name@ == chosen.name@ && chosen.name@ == name,
        relay.codec == chosen.codec && chosen.codec == c.codec,
        relay.bitrate == chosen.bitrate && chosen.bitrate == c.bitrate,
        relay.lead_ms == chosen.lead_ms && chosen.lead_ms == lead_ms,
        relay.buffer_ms == chosen.buffer_ms && chosen.buffer_ms == c.buffer_ms,
        relay.encoder == chosen.encoder && chosen.encoder == c.encoder,
        relay.encode_device == chosen.encode_device && chosen.encode_device == c.encode_device,
        relay.video_target == VideoTarget::PrimaryMonitor,
{
}

/// The line of a stream that runs begins alike for every device, names the device, and says whether
/// there is a picture.
pub proof fn law_serving_line(device: Seq<char>)
    ensures
        serving_line(device, false) == "Serving: "@ + device,
        serving_line(device, true) == serving_line(device, false) + "  + screen"@,
{
    assert(serving_line(device, false) =~= "Serving: "@ + device);
    assert(serving_line(device, true) =~= serving_line(device, false) + "  + screen"@);
}

/// An offset is shown with its sign and its unit, lined up to the right.
pub proof fn law_offset_line(ms: int)
    ensures
        (text::signed_decimal(ms) + " ms"@).is_suffix_of(offset_line(ms)),
        offset_line(ms).len() >= 5 + " ms"@.len(),
{
    let s = text::signed_decimal(ms);
    text::law_padding(s, 5);
    let p = text::pad_left(s, 5);
    let unit = " ms"@;
    let o = p + unit;
    let n = s.len() + unit.len();
    assert(s =~= p.subrange(p.len() - s.len(), p.len() as int));
    assert(s + unit =~= o.subrange(o.len() - n, o.len() as int));
}

/// The prompt is named exactly where one comes: a screen is captured here, and the system asks first.
pub proof fn law_prompt_is_named(local_screen: bool, prompts: bool)
    ensures
        starting_line(true, true) == "Starting… approve the screen-share prompt if it appears"@,
        starting_line(local_screen, false) == "Starting…"@,
        starting_line(false, prompts) == "Starting…"@,
{
}

/// Presets are one, three and six seconds, all within the limits of the buffer.
pub proof fn law_presets(p: BufferPreset)
    ensures
        preset_ms(BufferPreset::Snappy) == 1_000,
        preset_ms(BufferPreset::Balanced) == config::DEFAULT_BUFFER_MS,
        preset_ms(BufferPreset::RockSolid) == 2 * preset_ms(BufferPreset::Balanced),
        0 < preset_ms(p) <= 15_000,
{
}

} // verus!
