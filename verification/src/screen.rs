//! Starting to capture a screen or an audio device: what is tried, what is accepted, and what is
//! said when it fails.

use crate::text::{decimal, lowercase, occurs};
use crate::text;
use vstd::prelude::*;

verus! {

/// How long the prompt that asks for leave to share the screen may stand, in seconds.
pub const CONSENT_SECS: u64 = 45;

/// What is said where one window cannot be captured.
pub const NO_WINDOW_HERE: &'static str =
    "capturing a single window is Windows-only. On Linux the desktop portal chooses the source, so pick \"Whole screen\" and select the window in the portal dialog, or relay a browser cast with --capture web --video";

/// What is said of a window that was closed before it was captured.
pub const WINDOW_GONE: &'static str =
    "the selected window is no longer open — pick it again or share the whole screen";

/// How often a window is looked at, first to last.
#[derive(Clone, Copy, Debug, PartialEq, Eq, Structural)]
pub enum UpdateInterval {
    /// Every so many milliseconds, whether it changes or not.
    Every(u64),
    /// Whenever the system says that it has changed.
    Default,
}

/// What came of starting to capture a window.
#[derive(Clone, Copy, Debug, PartialEq, Eq, Structural)]
pub enum WindowAttempt {
    /// The window is looked up.
    Begin {
        /// Whether it is still open.
        open: bool,
    },
    /// Starting failed with this interval.
    Failed(UpdateInterval),
}

/// The interval that is tried next to capture a window, if any is.
pub open spec fn attempt_after(a: WindowAttempt) -> Option<UpdateInterval> {
    match a {
        WindowAttempt::Begin { open } => if open {
            Some(UpdateInterval::Every(16))
        } else {
            None
        },
        WindowAttempt::Failed(UpdateInterval::Every(_)) => Some(UpdateInterval::Default),
        WindowAttempt::Failed(UpdateInterval::Default) => None,
    }
}

/// What to do next to capture a window: to start with an interval, or to give up.
pub fn next_window_attempt(a: WindowAttempt) -> (r: Option<UpdateInterval>)
    ensures
        r == attempt_after(a),
{
    match a {
        WindowAttempt::Begin { open } => if open {
            Some(UpdateInterval::Every(16))
        } else {
            None
        },
        WindowAttempt::Failed(UpdateInterval::Every(_)) => Some(UpdateInterval::Default),
        WindowAttempt::Failed(UpdateInterval::Default) => None,
    }
}

/// What came of starting to capture the screen.
pub enum ScreenStart {
    /// It runs.
    Ready,
    /// It failed, for this reason.
    Failed(String),
    /// The thread that was to capture it is gone.
    Died,
    /// Nobody has answered the prompt.
    Unanswered,
}

/// What is said of a start that failed.
pub open spec fn screen_failure(s: ScreenStart) -> Seq<char> {
    match s {
        ScreenStart::Ready => Seq::empty(),
        ScreenStart::Failed(why) => why@,
        ScreenStart::Died => "portal capture thread died during setup"@,
        ScreenStart::Unanswered => "the screen-share dialog was not answered within "@ + decimal(
            CONSENT_SECS as nat,
        )
            + "s. Screen capture on Linux needs someone to approve it at the machine; there is no way to pre-authorise it. Start video from the GUI (where you will see the prompt), or relay a browser's cast with --capture web --video instead"@,
    }
}

/// Whether the screen is captured, or what is said where it is not.
pub fn screen_started(s: &ScreenStart) -> (r: Result<(), String>)
    ensures
        r is Ok <==> *s is Ready,
        match r {
            Ok(_) => true,
            Err(e) => e@ == screen_failure(*s),
        },
{
    match s {
        ScreenStart::Ready => Ok(()),
        ScreenStart::Failed(why) => Err(why.clone()),
        ScreenStart::Died => Err("portal capture thread died during setup".to_string()),
        ScreenStart::Unanswered => {
            let mut e = "the screen-share dialog was not answered within ".to_string();
            text::append_decimal(&mut e, CONSENT_SECS);
            e.append(
                "s. Screen capture on Linux needs someone to approve it at the machine; there is no way to pre-authorise it. Start video from the GUI (where you will see the prompt), or relay a browser's cast with --capture web --video instead",
            );
            Err(e)
        },
    }
}

/// A step of asking the desktop for leave to share the screen.
#[derive(Clone, Copy, Debug, PartialEq, Eq, Structural)]
pub enum PortalStep {
    /// Reaching the portal.
    Reach,
    /// Opening a session.
    Session,
    /// Choosing what may be shared.
    Select,
    /// Showing the prompt.
    Start,
    /// The answer to it.
    Answer,
    /// Opening the stream.
    Open,
}

/// What is said before the reason when a step fails.
pub open spec fn portal_front(step: PortalStep) -> Seq<char> {
    match step {
        PortalStep::Reach => "no desktop portal available ("@,
        PortalStep::Session => "the desktop portal refused a ScreenCast session ("@,
        PortalStep::Select => "portal SelectSources failed: "@,
        PortalStep::Start => "portal Start failed: "@,
        PortalStep::Answer => "screen sharing was not granted ("@,
        PortalStep::Open => "portal OpenPipeWireRemote failed: "@,
    }
}

/// What is said behind the reason when a step fails.
pub open spec fn portal_back(step: PortalStep) -> Seq<char> {
    match step {
        PortalStep::Reach =>
            "). Screen capture needs a running desktop session — a headless server cannot do it at all, because the portal's ScreenCast backend lives in the desktop environment. Use --capture web --video to relay a browser cast instead"@,
        PortalStep::Session =>
            ") — is xdg-desktop-portal-kde (or -gnome, matching your desktop) installed?"@,
        PortalStep::Answer => ") — the portal dialog was dismissed or denied"@,
        _ => Seq::empty(),
    }
}

/// What is said when a step fails.
pub fn portal_failure(step: PortalStep, why: &str) -> (s: String)
    ensures
        s@ == portal_front(step) + why@ + portal_back(step),
{
    let mut s = match step {
        PortalStep::Reach => "no desktop portal available (".to_string(),
        PortalStep::Session => "the desktop portal refused a ScreenCast session (".to_string(),
        PortalStep::Select => "portal SelectSources failed: ".to_string(),
        PortalStep::Start => "portal Start failed: ".to_string(),
        PortalStep::Answer => "screen sharing was not granted (".to_string(),
        PortalStep::Open => "portal OpenPipeWireRemote failed: ".to_string(),
    };
    s.append(why);
    match step {
        PortalStep::Reach => {
            s.append(
                "). Screen capture needs a running desktop session — a headless server cannot do it at all, because the portal's ScreenCast backend lives in the desktop environment. Use --capture web --video to relay a browser cast instead",
            );
        },
        PortalStep::Session => {
            s.append(
                ") — is xdg-desktop-portal-kde (or -gnome, matching your desktop) installed?",
            );
        },
        PortalStep::Answer => {
            s.append(") — the portal dialog was dismissed or denied");
        },
        _ => {
            assert(s@ =~= s@ + Seq::<char>::empty());
        },
    }
    s
}

/// Whether a parameter of the stream sets the format of its pictures: only raw video does.
pub fn is_video_format(format_param: bool, video: bool, raw: bool) -> (r: bool)
    ensures
        r == (format_param && video && raw),
{
    format_param && video && raw
}

/// The first device whose name speaks of a monitor.
pub open spec fn first_monitor(names: Seq<Seq<char>>) -> Option<int>
    decreases names.len(),
{
    if names.len() == 0 {
        None
    } else {
        match first_monitor(names.drop_last()) {
            Some(i) => Some(i),
            None => if occurs(lowercase(names.last()), "monitor"@) {
                Some(names.len() - 1)
            } else {
                None
            },
        }
    }
}

/// The device that mirrors what the system plays: the first one whose name speaks of a monitor.
/// Where there is none, the default input device serves.
pub fn pick_monitor(names: &Vec<String>) -> (r: Option<usize>)
    ensures
        match r {
            Some(i) => first_monitor(crate::ffmpeg::texts(names@)) == Some(i as int),
            None => first_monitor(crate::ffmpeg::texts(names@)) is None,
        },
{
    let ghost all = crate::ffmpeg::texts(names@);
    let mut i: usize = 0;
    assert(all.take(0) =~= Seq::empty());
    while i < names.len()
        invariant
            all == crate::ffmpeg::texts(names@),
            i <= names@.len(),
            first_monitor(all.take(i as int)) is None,
        decreases names@.len() - i,
    {
        assert(all.take(i + 1).drop_last() =~= all.take(i as int));
        assert(all.take(i + 1).last() == names@[i as int]@);
        let lower = text::to_lower(names[i].as_str());
        if text::contains(lower.as_str(), "monitor") {
            proof {
                lemma_monitor_stays(all, i + 1);
            }
            return Some(i);
        }
        i += 1;
    }
    assert(all.take(i as int) =~= all);
    None
}

proof fn lemma_monitor_stays(all: Seq<Seq<char>>, n: int)
    requires
        0 <= n <= all.len(),
        first_monitor(all.take(n)) is Some,
    ensures
        first_monitor(all) == first_monitor(all.take(n)),
    decreases all.len() - n,
{
    if n == all.len() {
        assert(all.take(n) =~= all);
    } else {
        assert(all.take(n + 1).drop_last() =~= all.take(n));
        lemma_monitor_stays(all, n + 1);
    }
}

/// Where the right channel of a recording stands: it is the left one where there is but one.
pub fn right_channel(channels: u16) -> (i: usize)
    ensures
        i == (if channels >= 2 {
            1int
        } else {
            0
        }),
{
    if channels >= 2 {
        1
    } else {
        0
    }
}

/// Refuses a recording that is not in floating point.
pub fn check_sample_format(is_float: bool, format: &str) -> (r: Result<(), String>)
    ensures
        r is Ok <==> is_float,
        match r {
            Ok(_) => true,
            Err(e) => e@ == "capture format is "@ + format@
                + "; v1 supports f32 only — set the source device's shared format to 32-bit float"@,
        },
{
    if is_float {
        Ok(())
    } else {
        let mut e = "capture format is ".to_string();
        e.append(format);
        e.append(
            "; v1 supports f32 only — set the source device's shared format to 32-bit float",
        );
        Err(e)
    }
}

/// Milliseconds that a capture may take to give its first frame.
pub const FIRST_FRAME_MS: u64 = 5_000;

/// What to do while a capture has just been started.
#[derive(Clone, Copy, Debug, PartialEq, Eq, Structural)]
pub enum FrameWait {
    /// It works.
    Ready,
    /// Look again in a moment.
    Again,
    /// It will give nothing.
    GiveUp,
}

/// What to do `waited_ms` after a capture was started.
pub open spec fn frame_verdict(seen: bool, waited_ms: int) -> FrameWait {
    if waited_ms >= 5_000 {
        FrameWait::GiveUp
    } else if seen {
        FrameWait::Ready
    } else {
        FrameWait::Again
    }
}

/// Whether a capture that was started `waited_ms` ago works: a capture without leave starts and stays
/// empty, so that only a first frame tells. Once the time is up, nobody looks again.
pub fn first_frame_wait(seen: bool, waited_ms: u64) -> (r: FrameWait)
    ensures
        r == frame_verdict(seen, waited_ms as int),
{
    if waited_ms >= FIRST_FRAME_MS {
        FrameWait::GiveUp
    } else if seen {
        FrameWait::Ready
    } else {
        FrameWait::Again
    }
}

/// A window that is open is tried at sixty looks a second first and by the system's word next, and no
/// more than twice; one that was closed is not tried.
pub proof fn law_window_is_tried_twice()
    ensures
        attempt_after(WindowAttempt::Begin { open: false }) is None,
        attempt_after(WindowAttempt::Begin { open: true }) == Some(UpdateInterval::Every(16)),
        ({
            let first = attempt_after(WindowAttempt::Begin { open: true })->Some_0;
            let second = attempt_after(WindowAttempt::Failed(first));
            &&& second == Some(UpdateInterval::Default)
            &&& attempt_after(WindowAttempt::Failed(second->Some_0)) is None
        }),
{
}

/// A capture works if a frame comes within five seconds, is given up when they are over, and is
/// looked at again until then.
pub proof fn law_first_frame_decides(seen: bool, waited_ms: int)
    ensures
        waited_ms < 5_000 ==> (frame_verdict(seen, waited_ms) == FrameWait::Ready <==> seen),
        waited_ms < 5_000 && !seen ==> frame_verdict(seen, waited_ms) == FrameWait::Again,
        frame_verdict(seen, waited_ms) == FrameWait::GiveUp <==> waited_ms >= 5_000,
{
}

/// The device that is picked is the first whose name speaks of a monitor, capitals or not; none is
/// picked only where no name does.
pub proof fn law_first_monitor_is_picked(names: Seq<Seq<char>>)
    ensures
        match first_monitor(names) {
            Some(i) => {
                &&& 0 <= i < names.len()
                &&& occurs(lowercase(names[i]), "monitor"@)
                &&& forall|k: int| 0 <= k < i ==> !occurs(lowercase(#[trigger] names[k]), "monitor"@)
            },
            None => forall|k: int|
                0 <= k < names.len() ==> !occurs(lowercase(#[trigger] names[k]), "monitor"@),
        },
    decreases names.len(),
{
    if names.len() > 0 {
        let rest = names.drop_last();
        law_first_monitor_is_picked(rest);
        assert(forall|k: int| 0 <= k < rest.len() ==> rest[k] == #[trigger] names[k]);
    }
}

/// What is said of a step that failed names the step before the reason.
pub proof fn law_steps_have_their_own_words()
    ensures
        portal_front(PortalStep::Reach) == "no desktop portal available ("@,
        portal_front(PortalStep::Answer) == "screen sharing was not granted ("@,
        portal_back(PortalStep::Select).len() == 0,
        portal_back(PortalStep::Start).len() == 0,
        portal_back(PortalStep::Open).len() == 0,
        screen_failure(ScreenStart::Ready).len() == 0,
{
}

} // verus!
