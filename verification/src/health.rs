//! Liveness of the media pipeline: counters, the stall watchdog and the health report.

use crate::clock;
use crate::text;
use vstd::prelude::*;

verus! {

/// How often a repeating failure may be logged, in nanoseconds.
pub const HOT_LOG_EVERY_NS: u64 = 5_000_000_000;

/// Milliseconds without a frame after which a pipeline that was producing counts as stopped.
pub const STALL_MS: i64 = 2_000;

/// Rate limiter for a log line: the first occurrence is logged at once, later ones at most once per
/// interval together with how many were left out.
pub struct LogThrottle {
    /// When the limiter was made.
    pub started: std::time::Instant,
    /// When the next line may be logged, in nanoseconds since the limiter was made.
    pub next: Option<u64>,
    /// Occurrences left out since the last line.
    pub suppressed: u64,
}

/// Whether an occurrence at `now` stays unlogged.
pub open spec fn throttled(next: Option<u64>, now: u64) -> bool {
    next matches Some(t) && now < t
}

/// `a + b`, at most the largest 64-bit number.
pub open spec fn capped_sum(a: u64, b: u64) -> u64 {
    if a + b > u64::MAX {
        u64::MAX
    } else {
        (a + b) as u64
    }
}

/// What an occurrence at `now` leads to.
pub open spec fn throttle_step(
    before: LogThrottle,
    now: u64,
    after: LogThrottle,
    r: Option<u64>,
) -> bool {
    &&& after.started == before.started
    &&& if throttled(before.next, now) {
        &&& r is None
        &&& after.next == before.next
        &&& after.suppressed == capped_sum(before.suppressed, 1)
    } else {
        &&& r == Some(before.suppressed)
        &&& after.next == Some(capped_sum(now, HOT_LOG_EVERY_NS))
        &&& after.suppressed == 0
    }
}

impl LogThrottle {
    /// A limiter that has logged nothing.
    pub fn new() -> (t: LogThrottle)
        ensures
            t.next is None,
            t.suppressed == 0,
    {
        LogThrottle { started: clock::instant_now(), next: None, suppressed: 0 }
    }

    /// `Some` with the number of occurrences left out when the line is to be logged now, `None` to
    /// stay quiet. The moment is the clock's.
    pub fn tick(&mut self) -> (r: Option<u64>)
        ensures
            exists|now: u64| throttle_step(*old(self), now, *final(self), r),
            old(self).next is None ==> r == Some(old(self).suppressed),
    {
        let now: u64 = clock::elapsed_ns(&self.started);
        self.tick_at(now)
    }

    /// `Some` with the number of occurrences left out when the line is to be logged at `now`, `None`
    /// to stay quiet.
    pub fn tick_at(&mut self, now: u64) -> (r: Option<u64>)
        ensures
            throttle_step(*old(self), now, *final(self), r),
    {
        let quiet = match self.next {
            Some(t) => now < t,
            None => false,
        };
        if quiet {
            self.suppressed = self.suppressed.saturating_add(1);
            None
        } else {
            let n: u64 = self.suppressed;
            self.suppressed = 0;
            self.next = Some(now.saturating_add(HOT_LOG_EVERY_NS));
            Some(n)
        }
    }
}

/// The first occurrence is always logged, and right after a line nothing more is logged until the
/// interval has passed.
pub proof fn law_first_logs_then_quiet(
    a: LogThrottle,
    b: LogThrottle,
    c: LogThrottle,
    first: Option<u64>,
    second: Option<u64>,
    now: u64,
    later: u64,
)
    requires
        a.next is None,
        throttle_step(a, now, b, first),
        throttle_step(b, later, c, second),
        later < now + HOT_LOG_EVERY_NS,
        now + HOT_LOG_EVERY_NS <= u64::MAX,
    ensures
        first == Some(a.suppressed),
        second is None,
        c.suppressed == 1,
{
}

/// A run of occurrences at these times: the limiter before each and after the last, and what each led
/// to.
pub open spec fn throttle_run(t: Seq<LogThrottle>, times: Seq<u64>, r: Seq<Option<u64>>) -> bool {
    &&& t.len() == times.len() + 1
    &&& r.len() == times.len()
    &&& forall|i: int|
        0 <= i < times.len() ==> throttle_step(t[i], times[i], t[i + 1], #[trigger] r[i])
}

/// How many lines were logged.
pub open spec fn lines_logged(r: Seq<Option<u64>>) -> int
    decreases r.len(),
{
    if r.len() == 0 {
        0
    } else {
        lines_logged(r.drop_last()) + (if r.last() is Some {
            1int
        } else {
            0
        })
    }
}

/// How many occurrences the logged lines say were left out.
pub open spec fn left_out_told(r: Seq<Option<u64>>) -> int
    decreases r.len(),
{
    if r.len() == 0 {
        0
    } else {
        left_out_told(r.drop_last()) + (match r.last() {
            Some(n) => n as int,
            None => 0,
        })
    }
}

/// Whether `next` is the interval after the last line among the first `k` occurrences.
spec fn next_is_after_last(next: Option<u64>, times: Seq<u64>, r: Seq<Option<u64>>, k: int) -> bool {
    match next {
        None => forall|i: int| 0 <= i < k ==> #[trigger] r[i] is None,
        Some(x) => {
            &&& forall|i: int|
                0 <= i < k && #[trigger] r[i] is Some ==> times[i] + HOT_LOG_EVERY_NS <= x
            &&& exists|i: int|
                0 <= i < k && #[trigger] r[i] is Some && times[i] + HOT_LOG_EVERY_NS == x
        },
    }
}

proof fn lemma_run(t: Seq<LogThrottle>, times: Seq<u64>, r: Seq<Option<u64>>, k: int)
    requires
        throttle_run(t, times, r),
        t[0].next is None,
        t[0].suppressed == 0,
        forall|i: int, j: int| 0 <= i <= j < times.len() ==> times[i] <= times[j],
        forall|i: int|
            0 <= i < times.len() ==> #[trigger] times[i] + HOT_LOG_EVERY_NS <= u64::MAX,
        times.len() <= u64::MAX,
        0 <= k <= times.len(),
    ensures
        next_is_after_last(t[k].next, times, r, k),
        t[k].suppressed <= k,
        lines_logged(r.take(k)) + left_out_told(r.take(k)) + t[k].suppressed == k,
        t[k].started == t[0].started,
    decreases k,
{
    if k == 0 {
        assert(r.take(0) =~= Seq::<Option<u64>>::empty());
    } else {
        lemma_run(t, times, r, k - 1);
        assert(r.take(k).drop_last() =~= r.take(k - 1));
        assert(r.take(k).last() == r[k - 1]);
        assert(throttle_step(t[k - 1], times[k - 1], t[k - 1 + 1], r[k - 1]));
        assert(times[k - 1] + HOT_LOG_EVERY_NS <= u64::MAX);
        if r[k - 1] is Some {
            assert forall|i: int| 0 <= i < k && #[trigger] r[i] is Some implies times[i]
                + HOT_LOG_EVERY_NS <= t[k].next->0 by {
                assert(times[i] <= times[k - 1]);
            }
        }
    }
}

/// Over a run of occurrences, the first is logged at once, lines are at least an interval apart, one
/// that comes an interval after the last line is logged, and none is lost: each occurrence is a line,
/// or is told of in one, or waits to be told of.
pub proof fn law_throttle_run(t: Seq<LogThrottle>, times: Seq<u64>, r: Seq<Option<u64>>)
    requires
        throttle_run(t, times, r),
        t[0].next is None,
        t[0].suppressed == 0,
        forall|i: int, j: int| 0 <= i <= j < times.len() ==> times[i] <= times[j],
        forall|i: int|
            0 <= i < times.len() ==> #[trigger] times[i] + HOT_LOG_EVERY_NS <= u64::MAX,
        times.len() <= u64::MAX,
    ensures
        times.len() > 0 ==> r[0] == Some(0u64),
        forall|i: int, j: int|
            0 <= i < j < times.len() && #[trigger] r[i] is Some && #[trigger] r[j] is Some
                ==> times[j]
                >= times[i] + HOT_LOG_EVERY_NS,
        forall|j: int|
            0 <= j < times.len() && (forall|i: int|
                0 <= i < j && #[trigger] r[i] is Some ==> times[j] >= times[i] + HOT_LOG_EVERY_NS)
                ==> #[trigger] r[j] is Some,
        lines_logged(r) + left_out_told(r) + t.last().suppressed == times.len(),
        t.last().started == t[0].started,
{
    if times.len() > 0 {
        let first: int = 0;
        assert(throttle_step(t[first], times[first], t[first + 1], r[first]));
    }
    assert forall|i: int, j: int|
        0 <= i < j < times.len() && #[trigger] r[i] is Some && #[trigger] r[j] is Some
            implies times[j]
        >= times[i] + HOT_LOG_EVERY_NS by {
        lemma_run(t, times, r, j);
        assert(throttle_step(t[j], times[j], t[j + 1], r[j]));
    }
    assert forall|j: int|
        0 <= j < times.len() && (forall|i: int|
            0 <= i < j && #[trigger] r[i] is Some ==> times[j] >= times[i] + HOT_LOG_EVERY_NS)
        implies #[trigger] r[j] is Some by {
        lemma_run(t, times, r, j);
        assert(throttle_step(t[j], times[j], t[j + 1], r[j]));
    }
    lemma_run(t, times, r, times.len() as int);
    assert(r.take(times.len() as int) =~= r);
}

/// Liveness and failure counters of one stream.
pub struct MediaHealth {
    /// Audio frames published.
    pub audio_frames: u64,
    /// Video frames published.
    pub video_frames: u64,
    /// New frames taken from the screen capture.
    pub capture_frames: u64,
    /// When the last new frame was captured; 0 if none was.
    pub last_capture_ns: i64,
    /// Audio encode failures.
    pub audio_errors: u64,
    /// Video encode failures.
    pub video_errors: u64,
    /// When the last audio frame was published; 0 if none was.
    pub last_audio_ns: i64,
    /// When the last video frame was published; 0 if none was.
    pub last_video_ns: i64,
    /// Whether the video encoder could not be started.
    pub video_encoder_failed: bool,
    /// Whether the system closed the screen capture.
    pub capture_closed: bool,
    /// Whether this stream is expected to produce video.
    pub video_expected: bool,
    /// When the counters were made, on the monotonic clock.
    pub started: std::time::Instant,
    /// What the wall clock showed then, in nanoseconds. It is read that once, so that a step of it
    /// never looks like a stall.
    pub base_ns: i64,
}

/// The counters of a stream that has produced nothing.
pub open spec fn is_fresh(h: MediaHealth) -> bool {
    &&& h.audio_frames == 0
    &&& h.video_frames == 0
    &&& h.capture_frames == 0
    &&& h.last_capture_ns == 0
    &&& h.audio_errors == 0
    &&& h.video_errors == 0
    &&& h.last_audio_ns == 0
    &&& h.last_video_ns == 0
    &&& !h.video_encoder_failed
    &&& !h.capture_closed
    &&& !h.video_expected
}

/// Whole milliseconds from `last` to `now`, none if the clock did not advance.
pub open spec fn age_millis(last: i64, now: i64) -> int {
    if now > last {
        (now - last) / 1_000_000
    } else {
        0
    }
}

/// How long ago the last frame was, or `None` if there never was one.
pub open spec fn stall(last: i64, now: i64) -> Option<int> {
    if last == 0 {
        None
    } else {
        Some(age_millis(last, now))
    }
}

/// Whether `r` says what `s` does.
pub open spec fn reports(r: Option<i64>, s: Option<int>) -> bool {
    match r {
        Some(ms) => s == Some(ms as int),
        None => s is None,
    }
}

fn millis_between(last: i64, now: i64) -> (ms: i64)
    ensures
        ms == age_millis(last, now),
{
    if now > last {
        ((now as i128 - last as i128) / 1_000_000) as i64
    } else {
        0
    }
}

impl Default for MediaHealth {
    fn default() -> (h: MediaHealth)
        ensures
            is_fresh(h),
    {
        MediaHealth {
            audio_frames: 0,
            video_frames: 0,
            capture_frames: 0,
            last_capture_ns: 0,
            audio_errors: 0,
            video_errors: 0,
            last_audio_ns: 0,
            last_video_ns: 0,
            video_encoder_failed: false,
            capture_closed: false,
            video_expected: false,
            started: clock::instant_now(),
            base_ns: clock::epoch_ns(),
        }
    }
}

impl MediaHealth {
    /// The time now, in nanoseconds: what the wall clock showed when the counters were made, and what
    /// went by since on the monotonic clock.
    fn now_ns(&self) -> (now: i64)
        ensures
            now >= self.base_ns,
    {
        let passed: u64 = clock::elapsed_ns(&self.started);
        let sum: i128 = self.base_ns as i128 + passed as i128;
        if sum > i64::MAX as i128 {
            i64::MAX
        } else {
            sum as i64
        }
    }

    /// Counts an audio frame published at `now`.
    pub fn note_audio_at(&mut self, now: i64)
        ensures
            *final(self) == (MediaHealth {
                audio_frames: old(self).audio_frames.wrapping_add(1),
                last_audio_ns: now,
                ..*old(self)
            }),
    {
        self.audio_frames = self.audio_frames.wrapping_add(1);
        self.last_audio_ns = now;
    }

    /// Counts a video frame published at `now`.
    pub fn note_video_at(&mut self, now: i64)
        ensures
            *final(self) == (MediaHealth {
                video_frames: old(self).video_frames.wrapping_add(1),
                last_video_ns: now,
                ..*old(self)
            }),
    {
        self.video_frames = self.video_frames.wrapping_add(1);
        self.last_video_ns = now;
    }

    /// Counts a new frame captured at `now`.
    pub fn note_capture_at(&mut self, now: i64)
        ensures
            *final(self) == (MediaHealth {
                capture_frames: old(self).capture_frames.wrapping_add(1),
                last_capture_ns: now,
                ..*old(self)
            }),
    {
        self.capture_frames = self.capture_frames.wrapping_add(1);
        self.last_capture_ns = now;
    }

    /// Counts an audio frame published now. The moment is the clock's.
    pub fn note_audio(&mut self)
        ensures
            *final(self) == (MediaHealth {
                audio_frames: old(self).audio_frames.wrapping_add(1),
                last_audio_ns: final(self).last_audio_ns,
                ..*old(self)
            }),
            final(self).last_audio_ns >= old(self).base_ns,
    {
        let now: i64 = self.now_ns();
        self.note_audio_at(now);
    }

    /// Counts a video frame published now. The moment is the clock's.
    pub fn note_video(&mut self)
        ensures
            *final(self) == (MediaHealth {
                video_frames: old(self).video_frames.wrapping_add(1),
                last_video_ns: final(self).last_video_ns,
                ..*old(self)
            }),
            final(self).last_video_ns >= old(self).base_ns,
    {
        let now: i64 = self.now_ns();
        self.note_video_at(now);
    }

    /// Counts a new frame captured now. The moment is the clock's.
    pub fn note_capture(&mut self)
        ensures
            *final(self) == (MediaHealth {
                capture_frames: old(self).capture_frames.wrapping_add(1),
                last_capture_ns: final(self).last_capture_ns,
                ..*old(self)
            }),
            final(self).last_capture_ns >= old(self).base_ns,
    {
        let now: i64 = self.now_ns();
        self.note_capture_at(now);
    }

    /// Milliseconds from the frame at `last` to `now`, or `None` if there was no frame.
    pub fn age_at(last: i64, now: i64) -> (r: Option<i64>)
        ensures
            reports(r, stall(last, now)),
    {
        if last == 0 {
            None
        } else {
            Some(millis_between(last, now))
        }
    }

    /// Milliseconds since the last audio frame, or `None` if none was ever published. The moment is
    /// the clock's.
    pub fn audio_stall_ms(&self) -> (r: Option<i64>)
        ensures
            exists|now: i64|
                now >= self.base_ns && reports(r, #[trigger] stall(self.last_audio_ns, now)),
            r is None <==> self.last_audio_ns == 0,
    {
        let now: i64 = self.now_ns();
        let r = Self::age_at(self.last_audio_ns, now);
        assert(reports(r, stall(self.last_audio_ns, now)));
        r
    }

    /// Milliseconds since the last video frame, or `None` if none was ever published. The moment is
    /// the clock's.
    pub fn video_stall_ms(&self) -> (r: Option<i64>)
        ensures
            exists|now: i64|
                now >= self.base_ns && reports(r, #[trigger] stall(self.last_video_ns, now)),
            r is None <==> self.last_video_ns == 0,
    {
        let now: i64 = self.now_ns();
        let r = Self::age_at(self.last_video_ns, now);
        assert(reports(r, stall(self.last_video_ns, now)));
        r
    }

    /// Milliseconds since the last new frame was captured, or `None` if none ever was. The moment is
    /// the clock's.
    pub fn capture_stall_ms(&self) -> (r: Option<i64>)
        ensures
            exists|now: i64|
                now >= self.base_ns && reports(r, #[trigger] stall(self.last_capture_ns, now)),
            r is None <==> self.last_capture_ns == 0,
    {
        let now: i64 = self.now_ns();
        let r = Self::age_at(self.last_capture_ns, now);
        assert(reports(r, stall(self.last_capture_ns, now)));
        r
    }
}

/// Whether a pipeline that was producing has stopped. One that never produced is waiting.
pub open spec fn stopped(s: Option<int>) -> bool {
    s matches Some(ms) && ms > STALL_MS
}

/// Whether silence is a fault. With a stream that a client casts, only while somebody casts; with a
/// local capture always.
pub open spec fn audio_fault(s: Option<int>, cast_source: bool, casting: bool) -> bool {
    stopped(s) && (cast_source ==> casting)
}

/// Whether `r` is longer ago than the stall limit.
fn is_stopped(r: Option<i64>) -> (b: bool)
    ensures
        b == (r matches Some(ms) && ms > STALL_MS),
{
    match r {
        Some(ms) => ms > STALL_MS,
        None => false,
    }
}

/// Whether silence at `now` is a fault.
pub fn audio_stall_is_a_fault(
    health: &MediaHealth,
    cast_source: bool,
    casting: bool,
    now: i64,
) -> (r: bool)
    ensures
        r == audio_fault(stall(health.last_audio_ns, now), cast_source, casting),
{
    if !is_stopped(MediaHealth::age_at(health.last_audio_ns, now)) {
        return false;
    }
    if cast_source {
        return casting;
    }
    true
}

/// A stream that never produced audio is waiting, not at fault; nor is a cast stream at fault while
/// nobody casts, however long ago the last cast was.
pub proof fn law_waiting_is_no_fault(last: i64, now: i64, cast_source: bool, casting: bool)
    requires
        last == 0 || (cast_source && !casting),
    ensures
        !audio_fault(stall(last, now), cast_source, casting),
{
}

/// Publishing audio leaves the ages of video and capture as they were.
pub proof fn law_audio_says_nothing_of_video(h: MediaHealth, at: i64, now: i64)
    ensures
        ({
            let after = MediaHealth {
                audio_frames: h.audio_frames.wrapping_add(1),
                last_audio_ns: at,
                ..h
            };
            &&& stall(after.last_video_ns, now) == stall(h.last_video_ns, now)
            &&& stall(after.last_capture_ns, now) == stall(h.last_capture_ns, now)
        }),
{
}

/// What the watchdog says of the audio.
#[derive(Clone, Copy, Debug, PartialEq, Eq, Structural)]
pub enum AudioNote {
    /// It has stopped; for how many milliseconds.
    Stopped(i64),
    /// Frames flow again.
    Recovered,
    /// It is no longer expected.
    Cleared,
}

/// What the watchdog says of the video.
#[derive(Clone, Copy, Debug, PartialEq, Eq, Structural)]
pub enum VideoNote {
    /// It has stopped; for how many milliseconds.
    Stopped(i64),
    /// Frames flow again.
    Recovered,
}

/// What the watchdog says on one look at the pipeline.
#[derive(Clone, Copy, Debug, PartialEq, Eq, Structural)]
pub struct WatchReport {
    /// A change in the audio.
    pub audio: Option<AudioNote>,
    /// A change in the video.
    pub video: Option<VideoNote>,
    /// The screen capture was closed since the last look.
    pub capture_closed: bool,
}

/// What the watchdog has already reported.
#[derive(Clone, Copy, Debug, PartialEq, Eq, Structural)]
pub struct Watchdog {
    /// Audio was reported as stopped.
    pub audio_bad: bool,
    /// Video was reported as stopped.
    pub video_bad: bool,
    /// The screen capture was reported as closed.
    pub capture_bad: bool,
}

/// The age in a report, -1 where there is none.
pub open spec fn millis_or_minus_one(s: Option<int>) -> int {
    match s {
        Some(ms) => ms,
        None => -1,
    }
}

/// What is said of the audio: only a change is, and a recovery only when frames flow.
pub open spec fn audio_note(was_bad: bool, fault: bool, s: Option<int>) -> Option<AudioNote> {
    if fault && !was_bad {
        Some(AudioNote::Stopped(millis_or_minus_one(s) as i64))
    } else if !fault && was_bad {
        if s matches Some(ms) && ms <= STALL_MS {
            Some(AudioNote::Recovered)
        } else {
            Some(AudioNote::Cleared)
        }
    } else {
        None
    }
}

/// What is said of the video: only a change is.
pub open spec fn video_note(was_bad: bool, fault: bool, s: Option<int>) -> Option<VideoNote> {
    if fault && !was_bad {
        Some(VideoNote::Stopped(millis_or_minus_one(s) as i64))
    } else if !fault && was_bad {
        Some(VideoNote::Recovered)
    } else {
        None
    }
}

/// Whether missing video is a fault at `now`.
pub open spec fn video_fault(h: MediaHealth, now: i64) -> bool {
    h.video_expected && stopped(stall(h.last_video_ns, now))
}

/// What a look at the pipeline leads to: the watchdog after it, and what it says.
pub open spec fn watch_step(
    w: Watchdog,
    h: MediaHealth,
    cast_source: bool,
    casting: bool,
    now: i64,
    after: Watchdog,
    r: WatchReport,
) -> bool {
    let audio = stall(h.last_audio_ns, now);
    let audio_bad = audio_fault(audio, cast_source, casting);
    let video_bad = video_fault(h, now);
    &&& r.audio == audio_note(w.audio_bad, audio_bad, audio)
    &&& r.video == video_note(w.video_bad, video_bad, stall(h.last_video_ns, now))
    &&& r.capture_closed == (h.capture_closed && !w.capture_bad)
    &&& after == (Watchdog { audio_bad, video_bad, capture_bad: h.capture_closed })
}

impl Watchdog {
    /// A watchdog that has reported nothing.
    pub fn new() -> (w: Watchdog)
        ensures
            w == (Watchdog { audio_bad: false, video_bad: false, capture_bad: false }),
    {
        Watchdog { audio_bad: false, video_bad: false, capture_bad: false }
    }

    /// Looks at the pipeline at `now`. A closed capture is told once.
    pub fn look(
        &mut self,
        health: &MediaHealth,
        cast_source: bool,
        casting: bool,
        now: i64,
    ) -> (r: WatchReport)
        ensures
            watch_step(*old(self), *health, cast_source, casting, now, *final(self), r),
    {
        let audio_age = MediaHealth::age_at(health.last_audio_ns, now);
        let audio_bad = audio_stall_is_a_fault(health, cast_source, casting, now);
        let audio = if audio_bad && !self.audio_bad {
            Some(AudioNote::Stopped(audio_age.unwrap_or(-1)))
        } else if !audio_bad && self.audio_bad {
            let flowing = match audio_age {
                Some(ms) => ms <= STALL_MS,
                None => false,
            };
            if flowing {
                Some(AudioNote::Recovered)
            } else {
                Some(AudioNote::Cleared)
            }
        } else {
            None
        };
        let video_age = MediaHealth::age_at(health.last_video_ns, now);
        let video_bad = health.video_expected && is_stopped(video_age);
        let video = if video_bad && !self.video_bad {
            Some(VideoNote::Stopped(video_age.unwrap_or(-1)))
        } else if !video_bad && self.video_bad {
            Some(VideoNote::Recovered)
        } else {
            None
        };
        self.audio_bad = audio_bad;
        self.video_bad = video_bad;
        let capture_closed = health.capture_closed && !self.capture_bad;
        self.capture_bad = health.capture_closed;
        WatchReport { audio, video, capture_closed }
    }
}

/// Each outage is reported once in each direction: as long as the verdict stays what it was, there
/// is nothing to say, and a stop and a recovery take turns.
pub proof fn law_watchdog_reports_changes_only(was_bad: bool, fault: bool, s: Option<int>)
    ensures
        (audio_note(was_bad, fault, s) is None) == (was_bad == fault),
        (video_note(was_bad, fault, s) is None) == (was_bad == fault),
        (audio_note(was_bad, fault, s) matches Some(AudioNote::Stopped(_))) == (fault && !was_bad),
{
}

/// The age of the last frame as the health report shows it: -1 and only -1 if there was none.
pub open spec fn shown_age(last: i64, now: i64) -> int {
    millis_or_minus_one(stall(last, now))
}

/// The age shown is -1 exactly if no frame was ever produced; otherwise it is not negative.
pub proof fn law_minus_one_means_none(last: i64, now: i64)
    ensures
        shown_age(last, now) == -1 <==> last == 0,
        last != 0 ==> shown_age(last, now) >= 0,
{
}

/// What the health report shows besides the counters.
pub struct ServerFacts {
    /// Version and commit of this build.
    pub build: String,
    /// Version of this build.
    pub version: String,
    /// Commit of this build.
    pub git_sha: String,
    /// Tag of the served web client.
    pub shell_tag: String,
    /// Seconds since the server started.
    pub uptime_secs: u64,
    /// Connected clients.
    pub clients: u64,
    /// Whether a client casts.
    pub casting: bool,
    /// Whether the stream is one that a client casts.
    pub cast_source: bool,
}

/// The first part of the health report: which build this is and who is connected.
pub open spec fn facts_json(f: ServerFacts) -> Seq<char> {
    "{\"build\":\""@ + f.build@ + "\",\"version\":\""@ + f.version@ + "\",\"gitSha\":\""@ + f.git_sha@
        + "\",\"shellTag\":\""@ + f.shell_tag@ + "\",\"uptimeSecs\":"@ + text::decimal(
        f.uptime_secs as nat,
    ) + ",\"clients\":"@ + text::decimal(f.clients as nat) + ",\"casting\":"@ + text::bool_text(
        f.casting,
    ) + ",\"castSource\":"@ + text::bool_text(f.cast_source)
}

/// The second part of the health report: the counters and ages.
pub open spec fn counters_json(h: MediaHealth, now: i64) -> Seq<char> {
    ",\"audioFrames\":"@ + text::decimal(h.audio_frames as nat) + ",\"videoFrames\":"@
        + text::decimal(h.video_frames as nat) + ",\"captureFrames\":"@ + text::decimal(
        h.capture_frames as nat,
    ) + ",\"audioErrors\":"@ + text::decimal(h.audio_errors as nat) + ",\"videoErrors\":"@
        + text::decimal(h.video_errors as nat) + ",\"lastAudioAgeMs\":"@ + text::decimal_int(
        shown_age(h.last_audio_ns, now),
    ) + ",\"lastVideoAgeMs\":"@ + text::decimal_int(shown_age(h.last_video_ns, now))
        + ",\"lastCaptureAgeMs\":"@ + text::decimal_int(shown_age(h.last_capture_ns, now))
}

/// Whether the screen capture was producing and has stopped. One that was closed before its first
/// frame never started.
pub open spec fn capture_stalled(h: MediaHealth) -> bool {
    h.capture_closed && h.last_capture_ns != 0
}

/// The third part of the health report: the verdicts.
pub open spec fn verdicts_json(audio_stalled: bool, h: MediaHealth) -> Seq<char> {
    ",\"audioStalled\":"@ + text::bool_text(audio_stalled) + ",\"captureStalled\":"@
        + text::bool_text(capture_stalled(h)) + ",\"captureClosed\":"@ + text::bool_text(
        h.capture_closed,
    ) + ",\"videoEncoderFailed\":"@ + text::bool_text(h.video_encoder_failed) + "}"@
}

fn append_age(s: &mut String, last: i64, now: i64)
    ensures
        final(s)@ == old(s)@ + text::decimal_int(shown_age(last, now)),
{
    let shown: i64 = MediaHealth::age_at(last, now).unwrap_or(-1);
    text::append_decimal_int(s, shown);
}

fn facts_part(f: &ServerFacts) -> (s: String)
    ensures
        s@ == facts_json(*f),
{
    let mut s = String::from_str("{\"build\":\"");
    s.append(f.build.as_str());
    s.append("\",\"version\":\"");
    s.append(f.version.as_str());
    s.append("\",\"gitSha\":\"");
    s.append(f.git_sha.as_str());
    s.append("\",\"shellTag\":\"");
    s.append(f.shell_tag.as_str());
    s.append("\",\"uptimeSecs\":");
    text::append_decimal(&mut s, f.uptime_secs);
    s.append(",\"clients\":");
    text::append_decimal(&mut s, f.clients);
    s.append(",\"casting\":");
    text::append_bool(&mut s, f.casting);
    s.append(",\"castSource\":");
    text::append_bool(&mut s, f.cast_source);
    s
}

fn counters_part(h: &MediaHealth, now: i64) -> (s: String)
    ensures
        s@ == counters_json(*h, now),
{
    let mut s = String::from_str(",\"audioFrames\":");
    text::append_decimal(&mut s, h.audio_frames);
    s.append(",\"videoFrames\":");
    text::append_decimal(&mut s, h.video_frames);
    s.append(",\"captureFrames\":");
    text::append_decimal(&mut s, h.capture_frames);
    s.append(",\"audioErrors\":");
    text::append_decimal(&mut s, h.audio_errors);
    s.append(",\"videoErrors\":");
    text::append_decimal(&mut s, h.video_errors);
    s.append(",\"lastAudioAgeMs\":");
    append_age(&mut s, h.last_audio_ns, now);
    s.append(",\"lastVideoAgeMs\":");
    append_age(&mut s, h.last_video_ns, now);
    s.append(",\"lastCaptureAgeMs\":");
    append_age(&mut s, h.last_capture_ns, now);
    s
}

fn verdicts_part(audio_stalled: bool, h: &MediaHealth) -> (s: String)
    ensures
        s@ == verdicts_json(audio_stalled, *h),
{
    let mut s = String::from_str(",\"audioStalled\":");
    text::append_bool(&mut s, audio_stalled);
    s.append(",\"captureStalled\":");
    text::append_bool(&mut s, h.capture_closed && h.last_capture_ns != 0);
    s.append(",\"captureClosed\":");
    text::append_bool(&mut s, h.capture_closed);
    s.append(",\"videoEncoderFailed\":");
    text::append_bool(&mut s, h.video_encoder_failed);
    s.append("}");
    s
}

/// The health report at `now`, as JSON.
pub open spec fn health_text(f: ServerFacts, h: MediaHealth, now: i64) -> Seq<char> {
    facts_json(f) + counters_json(h, now) + verdicts_json(
        audio_fault(stall(h.last_audio_ns, now), f.cast_source, f.casting),
        h,
    )
}

/// The health report at `now`, as JSON.
pub fn health_json(f: &ServerFacts, h: &MediaHealth, now: i64) -> (s: String)
    ensures
        s@ == health_text(*f, *h, now),
{
    let stalled = audio_stall_is_a_fault(h, f.cast_source, f.casting, now);
    let mut s = facts_part(f);
    s.append(counters_part(h, now).as_str());
    s.append(verdicts_part(stalled, h).as_str());
    s
}

/// A pipeline counts as stopped exactly when more than two whole seconds went by since its last
/// frame; the time is told in milliseconds, rounded down.
pub proof fn law_stopped_after_two_seconds(last: i64, now: i64)
    requires
        last != 0,
    ensures
        stopped(stall(last, now)) <==> now - last >= 2_001_000_000,
        stall(last, now) matches Some(ms) && ms >= 0 && (now >= last ==> ms * 1_000_000 <= now - last
            < (ms + 1) * 1_000_000) && (now < last ==> ms == 0),
{
}

/// A local stream whose audio stopped is at fault; so is a cast while its caster is there.
pub proof fn law_silence_is_a_fault(last: i64, now: i64, cast_source: bool, casting: bool)
    requires
        last != 0,
        now - last >= 2_001_000_000,
        !cast_source || casting,
    ensures
        audio_fault(stall(last, now), cast_source, casting),
{
}

/// The watchdog tells of audio that stops, with for how long, and then stays quiet until frames flow.
pub proof fn law_stop_is_told_once(
    w: Watchdog,
    h: MediaHealth,
    cast_source: bool,
    casting: bool,
    now: i64,
    after: Watchdog,
    r: WatchReport,
    later: i64,
    then: Watchdog,
    again: WatchReport,
)
    requires
        !w.audio_bad,
        h.last_audio_ns != 0,
        now >= h.last_audio_ns + 2_001_000_000,
        later >= now,
        !cast_source || casting,
        watch_step(w, h, cast_source, casting, now, after, r),
        watch_step(after, h, cast_source, casting, later, then, again),
    ensures
        r.audio matches Some(AudioNote::Stopped(ms)) && ms * 1_000_000 <= now - h.last_audio_ns < (ms
            + 1) * 1_000_000,
        again.audio is None,
{
}

/// Audio that was told of as stopped is told of as recovered once a frame is at most two seconds old,
/// and as no longer expected when the cast ended; then the watchdog is quiet.
pub proof fn law_end_of_an_outage_is_told(
    w: Watchdog,
    h: MediaHealth,
    cast_source: bool,
    casting: bool,
    now: i64,
    after: Watchdog,
    r: WatchReport,
)
    requires
        w.audio_bad,
        h.last_audio_ns != 0,
        watch_step(w, h, cast_source, casting, now, after, r),
    ensures
        now - h.last_audio_ns < 2_001_000_000 ==> r.audio == Some(AudioNote::Recovered)
            && !after.audio_bad,
        now - h.last_audio_ns >= 2_001_000_000 && cast_source && !casting ==> r.audio == Some(
            AudioNote::Cleared,
        ) && !after.audio_bad,
{
}

/// Video is watched by its own clock, and only on a stream that is expected to show it: a stop is
/// told with for how long, and a recovery when it no longer is one.
pub proof fn law_video_is_watched_for_itself(
    w: Watchdog,
    h: MediaHealth,
    cast_source: bool,
    casting: bool,
    now: i64,
    after: Watchdog,
    r: WatchReport,
)
    requires
        watch_step(w, h, cast_source, casting, now, after, r),
    ensures
        after.video_bad <==> h.video_expected && h.last_video_ns != 0 && now - h.last_video_ns
            >= 2_001_000_000,
        after.video_bad && !w.video_bad ==> (r.video matches Some(VideoNote::Stopped(ms)) && ms
            * 1_000_000 <= now - h.last_video_ns < (ms + 1) * 1_000_000),
        !after.video_bad && w.video_bad ==> r.video == Some(VideoNote::Recovered),
        after.video_bad == w.video_bad ==> r.video is None,
{
}

/// That the capture was closed is told on the first look that finds it so, and not again while it
/// stays closed.
pub proof fn law_closed_capture_is_told_once(
    w: Watchdog,
    h: MediaHealth,
    cast_source: bool,
    casting: bool,
    now: i64,
    after: Watchdog,
    r: WatchReport,
)
    requires
        watch_step(w, h, cast_source, casting, now, after, r),
    ensures
        r.capture_closed <==> h.capture_closed && !w.capture_bad,
        after.capture_bad == h.capture_closed,
{
}

/// Repeated failures are logged at most every five seconds.
pub proof fn law_failures_are_five_seconds_apart(
    a: LogThrottle,
    b: LogThrottle,
    c: LogThrottle,
    now: u64,
    later: u64,
    first: u64,
    second: Option<u64>,
)
    requires
        throttle_step(a, now, b, Some(first)),
        throttle_step(b, later, c, second),
        now <= later <= u64::MAX - 5_000_000_000,
    ensures
        second is Some <==> later >= now + 5_000_000_000,
        second is Some ==> second == Some(0u64),
{
}

proof fn lemma_facts(f: ServerFacts)
    ensures
        text::occurs(facts_json(f), "{\"build\":\""@ + f.build@),
        text::occurs(facts_json(f), "\",\"version\":\""@ + f.version@),
        text::occurs(facts_json(f), "\",\"gitSha\":\""@ + f.git_sha@),
        text::occurs(facts_json(f), "\",\"shellTag\":\""@ + f.shell_tag@),
        text::occurs(facts_json(f), "\",\"uptimeSecs\":"@ + text::decimal(f.uptime_secs as nat)),
        text::occurs(facts_json(f), ",\"clients\":"@ + text::decimal(f.clients as nat)),
        text::occurs(facts_json(f), ",\"casting\":"@ + text::bool_text(f.casting)),
        text::occurs(facts_json(f), ",\"castSource\":"@ + text::bool_text(f.cast_source)),
{
    let none = Seq::<char>::empty();
    let k0 = (
        "{\"build\":\""@,
        "\",\"version\":\""@,
        "\",\"gitSha\":\""@,
        "\",\"shellTag\":\""@,
    );
    let v0 = (
        f.build@,
        f.version@,
        f.git_sha@,
        f.shell_tag@,
    );
    text::lemma_four_fields(none, k0, v0);
    let t0 = text::four_fields(none, k0, v0);
    let k4 = (
        "\",\"uptimeSecs\":"@,
        ",\"clients\":"@,
        ",\"casting\":"@,
        ",\"castSource\":"@,
    );
    let v4 = (
        text::decimal(f.uptime_secs as nat),
        text::decimal(f.clients as nat),
        text::bool_text(f.casting),
        text::bool_text(f.cast_source),
    );
    text::lemma_four_fields(t0, k4, v4);
    let t4 = text::four_fields(t0, k4, v4);
    assert(none + k0.0 =~= k0.0);
}

proof fn lemma_counters(h: MediaHealth, now: i64)
    ensures
        text::occurs(counters_json(h, now), ",\"audioFrames\":"@
            + text::decimal(h.audio_frames as nat)),
        text::occurs(counters_json(h, now), ",\"videoFrames\":"@
            + text::decimal(h.video_frames as nat)),
        text::occurs(counters_json(h, now), ",\"captureFrames\":"@
            + text::decimal(h.capture_frames as nat)),
        text::occurs(counters_json(h, now), ",\"audioErrors\":"@
            + text::decimal(h.audio_errors as nat)),
        text::occurs(counters_json(h, now), ",\"videoErrors\":"@
            + text::decimal(h.video_errors as nat)),
        text::occurs(counters_json(h, now), ",\"lastAudioAgeMs\":"@
            + text::decimal_int(shown_age(h.last_audio_ns, now))),
        text::occurs(counters_json(h, now), ",\"lastVideoAgeMs\":"@
            + text::decimal_int(shown_age(h.last_video_ns, now))),
        text::occurs(counters_json(h, now), ",\"lastCaptureAgeMs\":"@
            + text::decimal_int(shown_age(h.last_capture_ns, now))),
{
    let none = Seq::<char>::empty();
    let k0 = (
        ",\"audioFrames\":"@,
        ",\"videoFrames\":"@,
        ",\"captureFrames\":"@,
        ",\"audioErrors\":"@,
    );
    let v0 = (
        text::decimal(h.audio_frames as nat),
        text::decimal(h.video_frames as nat),
        text::decimal(h.capture_frames as nat),
        text::decimal(h.audio_errors as nat),
    );
    text::lemma_four_fields(none, k0, v0);
    let t0 = text::four_fields(none, k0, v0);
    let k4 = (
        ",\"videoErrors\":"@,
        ",\"lastAudioAgeMs\":"@,
        ",\"lastVideoAgeMs\":"@,
        ",\"lastCaptureAgeMs\":"@,
    );
    let v4 = (
        text::decimal(h.video_errors as nat),
        text::decimal_int(shown_age(h.last_audio_ns, now)),
        text::decimal_int(shown_age(h.last_video_ns, now)),
        text::decimal_int(shown_age(h.last_capture_ns, now)),
    );
    text::lemma_four_fields(t0, k4, v4);
    let t4 = text::four_fields(t0, k4, v4);
    assert(none + k0.0 =~= k0.0);
}

proof fn lemma_verdicts(stalled: bool, h: MediaHealth)
    ensures
        text::occurs(verdicts_json(stalled, h), ",\"audioStalled\":"@ + text::bool_text(stalled)),
        text::occurs(verdicts_json(stalled, h), ",\"captureStalled\":"@
            + text::bool_text(capture_stalled(h))),
        text::occurs(verdicts_json(stalled, h), ",\"captureClosed\":"@
            + text::bool_text(h.capture_closed)),
        text::occurs(verdicts_json(stalled, h), ",\"videoEncoderFailed\":"@
            + text::bool_text(h.video_encoder_failed)),
{
    let none = Seq::<char>::empty();
    let k0 = (
        ",\"audioStalled\":"@,
        ",\"captureStalled\":"@,
        ",\"captureClosed\":"@,
        ",\"videoEncoderFailed\":"@,
    );
    let v0 = (
        text::bool_text(stalled),
        text::bool_text(capture_stalled(h)),
        text::bool_text(h.capture_closed),
        text::bool_text(h.video_encoder_failed),
    );
    text::lemma_four_fields(none, k0, v0);
    let t0 = text::four_fields(none, k0, v0);
    assert(none + k0.0 =~= k0.0);
    text::lemma_more(t0, "}"@, ",\"audioStalled\":"@ + text::bool_text(stalled));
    text::lemma_more(t0, "}"@, ",\"captureStalled\":"@ + text::bool_text(capture_stalled(h)));
    text::lemma_more(t0, "}"@, ",\"captureClosed\":"@ + text::bool_text(h.capture_closed));
    text::lemma_more(t0, "}"@, ",\"videoEncoderFailed\":"@ + text::bool_text(h.video_encoder_failed));
}

proof fn lemma_three_parts(a: Seq<char>, b: Seq<char>, c: Seq<char>)
    ensures
        forall|needle: Seq<char>|
            text::occurs(a, needle) || text::occurs(b, needle) || text::occurs(c, needle)
                ==> text::occurs(a + b + c, needle),
{
    let none = Seq::<char>::empty();
    assert forall|needle: Seq<char>|
        text::occurs(a, needle) || text::occurs(b, needle) || text::occurs(c, needle)
            implies text::occurs(
        a + b + c,
        needle,
    ) by {
        if text::occurs(a, needle) {
            text::lemma_two_more(a, b, c, needle);
        } else if text::occurs(b, needle) {
            text::lemma_within(a, b, c, needle);
        } else {
            text::lemma_within(a + b, c, none, needle);
            assert(a + b + c + none =~= a + b + c);
        }
    }
}

/// The report has every fact, counter, age and verdict under its own name. Silence counts as a
/// fault by the rule of the watchdog, and a capture counts as stalled once it was closed after its
/// first frame.
pub proof fn law_report_has_its_fields(f: ServerFacts, h: MediaHealth, now: i64)
    ensures
        ({
            let r = health_text(f, h, now);
            let stalled = audio_fault(stall(h.last_audio_ns, now), f.cast_source, f.casting);
            &&& text::occurs(r, "{\"build\":\""@ + f.build@)
            &&& text::occurs(r, "\",\"version\":\""@ + f.version@)
            &&& text::occurs(r, "\",\"gitSha\":\""@ + f.git_sha@)
            &&& text::occurs(r, "\",\"shellTag\":\""@ + f.shell_tag@)
            &&& text::occurs(r, "\",\"uptimeSecs\":"@ + text::decimal(f.uptime_secs as nat))
            &&& text::occurs(r, ",\"clients\":"@ + text::decimal(f.clients as nat))
            &&& text::occurs(r, ",\"casting\":"@ + text::bool_text(f.casting))
            &&& text::occurs(r, ",\"castSource\":"@ + text::bool_text(f.cast_source))
            &&& text::occurs(r, ",\"audioFrames\":"@ + text::decimal(h.audio_frames as nat))
            &&& text::occurs(r, ",\"videoFrames\":"@ + text::decimal(h.video_frames as nat))
            &&& text::occurs(r, ",\"captureFrames\":"@ + text::decimal(h.capture_frames as nat))
            &&& text::occurs(r, ",\"audioErrors\":"@ + text::decimal(h.audio_errors as nat))
            &&& text::occurs(r, ",\"videoErrors\":"@ + text::decimal(h.video_errors as nat))
            &&& text::occurs(r, ",\"lastAudioAgeMs\":"@
                + text::decimal_int(shown_age(h.last_audio_ns, now)))
            &&& text::occurs(r, ",\"lastVideoAgeMs\":"@
                + text::decimal_int(shown_age(h.last_video_ns, now)))
            &&& text::occurs(r, ",\"lastCaptureAgeMs\":"@
                + text::decimal_int(shown_age(h.last_capture_ns, now)))
            &&& text::occurs(r, ",\"audioStalled\":"@ + text::bool_text(stalled))
            &&& text::occurs(r, ",\"captureStalled\":"@ + text::bool_text(h.capture_closed
                && h.last_capture_ns != 0))
            &&& text::occurs(r, ",\"captureClosed\":"@ + text::bool_text(h.capture_closed))
            &&& text::occurs(r, ",\"videoEncoderFailed\":"@ + text::bool_text(h.video_encoder_failed))
        }),
{
    let a = facts_json(f);
    let b = counters_json(h, now);
    let stalled = audio_fault(stall(h.last_audio_ns, now), f.cast_source, f.casting);
    let c = verdicts_json(stalled, h);
    lemma_facts(f);
    lemma_counters(h, now);
    lemma_verdicts(stalled, h);
    lemma_three_parts(a, b, c);
}

/// The age that is told is that of the last frame in whole milliseconds, and none is told exactly
/// where there never was one.
pub proof fn law_told_age(r: Option<i64>, last: i64, now: i64)
    requires
        reports(r, stall(last, now)),
    ensures
        r is None <==> last == 0,
        r matches Some(ms) ==> ms >= 0 && (now >= last ==> ms * 1_000_000 <= now - last < (ms + 1)
            * 1_000_000) && (now < last ==> ms == 0),
{
}

/// A stream that has produced nothing is waiting: no age is told of it, and nothing of it is at
/// fault.
pub proof fn law_new_stream_is_waiting(h: MediaHealth, now: i64, cast_source: bool, casting: bool)
    requires
        is_fresh(h),
    ensures
        shown_age(h.last_audio_ns, now) == -1,
        shown_age(h.last_video_ns, now) == -1,
        shown_age(h.last_capture_ns, now) == -1,
        !audio_fault(stall(h.last_audio_ns, now), cast_source, casting),
        !video_fault(h, now),
        !capture_stalled(h),
        h.audio_frames == 0 && h.video_frames == 0 && h.capture_frames == 0,
        h.audio_errors == 0 && h.video_errors == 0 && !h.video_encoder_failed,
{
}

} // verus!
