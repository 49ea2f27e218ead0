//! The video producer: on every tick it decides whether to encode, when to ask for a keyframe, how to
//! stamp what comes out, and what to do when encoding fails.

use crate::config::EncodeDevice;
use crate::health::MediaHealth;
use crate::media;
use vstd::prelude::*;

verus! {

/// Nanoseconds between keyframes that are asked for.
pub const KEYFRAME_NS: u64 = 2_000_000_000;

/// Nanoseconds after which a capture that has shown nothing is mentioned.
pub const NO_FRAME_NS: u64 = 3_000_000_000;

/// The new picture at which the latency is logged.
pub const LATENCY_FRAME: u64 = 60;

/// How long the end of a producer is waited for, in milliseconds.
pub const TEARDOWN_WAIT_MS: u64 = 1_500;

/// What has become of the encoder.
#[derive(Clone, Copy, Debug, PartialEq, Eq, Structural)]
pub enum EncoderState {
    /// It has not been needed yet.
    Missing,
    /// It runs.
    Ready,
    /// It could not be made; video stays off.
    Failed,
}

/// What happens to a producer.
#[derive(Clone, Copy, Debug, PartialEq, Eq, Structural)]
pub enum ProducerEvent {
    /// A tick begins. `new_frame` tells whether the capture has a new picture, `closed` whether the
    /// system closed it, and `watchers` how many clients there are.
    Tick { new_frame: bool, closed: bool, watchers: u64 },
    /// The encoder was made.
    EncoderReady,
    /// The encoder could not be made.
    EncoderRefused,
    /// The picture, captured at `captured_ns`, was encoded; `empty` if nothing came out.
    Encoded { empty: bool, captured_ns: i64 },
    /// The picture could not be encoded.
    EncodeFailed,
    /// The encoder was replaced by one on the processor.
    FellBack,
    /// There was nothing to replace, or the replacement failed too.
    NotReplaced,
}

/// What the producer's thread does next.
#[derive(Clone, Copy, Debug, PartialEq, Eq, Structural)]
pub enum ProducerAction {
    /// Wait for the next tick.
    Rest,
    /// Mention that the capture has shown nothing, then wait for the next tick.
    MentionNoFrame,
    /// Make the encoder.
    BuildEncoder,
    /// Encode the picture; ask for a keyframe first if `key`.
    Encode { key: bool },
    /// Publish what was encoded under this time stamp; log the latency, in milliseconds, if there is
    /// one.
    Publish { pts: i64, latency_ms: Option<i64> },
    /// Replace the encoder by one on the processor.
    TryProcessor,
    /// Ask for a keyframe and begin the next tick at once.
    KeyAndRetry,
    /// Log the failure if the limiter lets it through.
    LogFailure,
}

/// What a producer remembers.
pub struct Producer {
    /// Where video is encoded.
    pub device: EncodeDevice,
    /// How far ahead pictures are stamped, in nanoseconds.
    pub lead_ns: i64,
    /// When it began.
    pub started: u64,
    /// When a keyframe was last asked for.
    pub last_key: u64,
    /// How many clients there were on the tick before.
    pub prev_watchers: u64,
    /// How many clients there are on this tick.
    pub watchers: u64,
    /// What has become of the encoder.
    pub encoder: EncoderState,
    /// Whether there is a picture.
    pub got_any: bool,
    /// Whether the lack of one was mentioned.
    pub warned: bool,
    /// Whether the picture is new on this tick.
    pub fresh: bool,
    /// How many new pictures were published.
    pub fresh_published: u64,
    /// The last time stamp, and when it was published.
    pub prev_pub: Option<(i64, i64)>,
}

/// Nanoseconds from `then` to `now`, none if the clock did not advance.
pub open spec fn since(then: u64, now: u64) -> int {
    if now > then {
        now - then
    } else {
        0
    }
}

/// Whether a keyframe is asked for: the last request is two seconds old, or a client has joined.
pub open spec fn wants_key(p: Producer, now: u64) -> bool {
    since(p.last_key, now) >= KEYFRAME_NS || p.watchers > p.prev_watchers
}

/// The producer when a tick is over.
pub open spec fn tick_over(p: Producer) -> Producer {
    Producer { prev_watchers: p.watchers, ..p }
}

/// The producer that has learned what a tick brings.
pub open spec fn tick_begun(p: Producer, new_frame: bool, watchers: u64, now: u64) -> Producer {
    Producer {
        watchers,
        fresh: new_frame,
        got_any: p.got_any || new_frame,
        warned: p.warned || (!p.got_any && !new_frame && since(p.started, now) > NO_FRAME_NS),
        ..p
    }
}

/// Whether the lack of a picture is mentioned on this tick.
pub open spec fn mentions_no_frame(p: Producer, new_frame: bool, now: u64) -> bool {
    !p.got_any && !new_frame && !p.warned && since(p.started, now) > NO_FRAME_NS
}

/// Whether the picture is encoded: somebody watches, there is one, and the encoder has not failed.
pub open spec fn encodes(p: Producer) -> bool {
    p.watchers > 0 && p.encoder != EncoderState::Failed && p.got_any
}

/// What is encoded next by an encoder that runs, and the producer then.
pub open spec fn encode_next(p: Producer, now: u64, after: Producer, act: ProducerAction) -> bool {
    &&& act == ProducerAction::Encode { key: wants_key(p, now) }
    &&& after == if wants_key(p, now) {
        Producer { last_key: now, ..p }
    } else {
        p
    }
}

/// Whole milliseconds from `then` to `now`, rounded towards zero.
pub open spec fn latency(then: i64, now: i64) -> int {
    if now >= then {
        (now - then) / 1_000_000
    } else {
        -((then - now) / 1_000_000)
    }
}

/// What an event leads to: the producer and the counters after it, and what is done next. `now` is
/// the running time of the producer's clock and `now_ns` the media clock.
pub open spec fn producer_step(
    p: Producer,
    h: MediaHealth,
    ev: ProducerEvent,
    now: u64,
    now_ns: i64,
    after: Producer,
    h_after: MediaHealth,
    act: ProducerAction,
) -> bool {
    match ev {
        ProducerEvent::Tick { new_frame, closed, watchers } => {
            let begun = tick_begun(p, new_frame, watchers, now);
            let seen = MediaHealth { capture_closed: h.capture_closed || closed, ..h };
            &&& h_after == if new_frame {
                MediaHealth {
                    capture_frames: h.capture_frames.wrapping_add(1),
                    last_capture_ns: now_ns,
                    ..seen
                }
            } else {
                seen
            }
            &&& if encodes(begun) {
                if begun.encoder == EncoderState::Missing {
                    after == begun && act == ProducerAction::BuildEncoder
                } else {
                    encode_next(begun, now, after, act)
                }
            } else {
                &&& after == tick_over(begun)
                &&& act == if mentions_no_frame(p, new_frame, now) {
                    ProducerAction::MentionNoFrame
                } else {
                    ProducerAction::Rest
                }
            }
        },
        ProducerEvent::EncoderReady => {
            &&& h_after == h
            &&& encode_next(Producer { encoder: EncoderState::Ready, ..p }, now, after, act)
        },
        ProducerEvent::EncoderRefused => {
            &&& h_after == (MediaHealth { video_encoder_failed: true, ..h })
            &&& after == tick_over(Producer { encoder: EncoderState::Failed, ..p })
            &&& act == ProducerAction::Rest
        },
        ProducerEvent::Encoded { empty, captured_ns } => if empty {
            h_after == h && after == tick_over(p) && act == ProducerAction::Rest
        } else {
            let pts = media::video_stamp(
                p.fresh,
                captured_ns as int,
                now_ns as int,
                p.lead_ns as int,
                p.prev_pub,
            );
            &&& h_after == (MediaHealth {
                video_frames: h.video_frames.wrapping_add(1),
                last_video_ns: now_ns,
                ..h
            })
            &&& after == tick_over(
                Producer {
                    prev_pub: Some((pts as i64, now_ns)),
                    fresh_published: if p.fresh {
                        p.fresh_published.wrapping_add(1)
                    } else {
                        p.fresh_published
                    },
                    ..p
                },
            )
            &&& act == (ProducerAction::Publish {
                pts: pts as i64,
                latency_ms: if p.fresh && after.fresh_published == LATENCY_FRAME {
                    Some(latency(captured_ns, now_ns) as i64)
                } else {
                    None
                },
            })
        },
        ProducerEvent::EncodeFailed => {
            &&& h_after == (MediaHealth { video_errors: h.video_errors.wrapping_add(1), ..h })
            &&& if p.device == EncodeDevice::Auto {
                after == p && act == ProducerAction::TryProcessor
            } else {
                after == tick_over(p) && act == ProducerAction::LogFailure
            }
        },
        ProducerEvent::FellBack => {
            &&& h_after == h
            &&& after == (Producer { last_key: now, ..p })
            &&& act == ProducerAction::KeyAndRetry
        },
        ProducerEvent::NotReplaced => {
            &&& h_after == h
            &&& after == tick_over(p)
            &&& act == ProducerAction::LogFailure
        },
    }
}

/// Whether the time stamp of the picture, if the event brings one, is in the range of the clock.
pub open spec fn stamp_fits(p: Producer, ev: ProducerEvent, now_ns: i64) -> bool {
    match ev {
        ProducerEvent::Encoded { empty, captured_ns } => {
            &&& i64::MIN <= media::video_stamp(
                p.fresh,
                captured_ns as int,
                now_ns as int,
                p.lead_ns as int,
                p.prev_pub,
            ) <= i64::MAX
        },
        _ => true,
    }
}

fn elapsed(then: u64, now: u64) -> (d: u64)
    ensures
        d == since(then, now),
{
    if now > then {
        now - then
    } else {
        0
    }
}

fn latency_millis(then: i64, now: i64) -> (ms: i64)
    ensures
        ms == latency(then, now),
{
    if now >= then {
        ((now as i128 - then as i128) / 1_000_000) as i64
    } else {
        (0 - (then as i128 - now as i128) / 1_000_000) as i64
    }
}

/// A producer that begins at `now`.
pub open spec fn begun_at(device: EncodeDevice, lead_ns: i64, now: u64) -> Producer {
    Producer {
        device,
        lead_ns,
        started: now,
        last_key: now,
        prev_watchers: 0,
        watchers: 0,
        encoder: EncoderState::Missing,
        got_any: false,
        warned: false,
        fresh: false,
        fresh_published: 0,
        prev_pub: None,
    }
}

impl Producer {
    /// A producer that begins now. The stream is expected to show video from here on.
    pub fn new(device: EncodeDevice, lead_ns: i64, now: u64, health: &mut MediaHealth) -> (p: Producer)
        ensures
            p == begun_at(device, lead_ns, now),
            *final(health) == (MediaHealth { video_expected: true, ..*old(health) }),
    {
        health.video_expected = true;
        Producer {
            device,
            lead_ns,
            started: now,
            last_key: now,
            prev_watchers: 0,
            watchers: 0,
            encoder: EncoderState::Missing,
            got_any: false,
            warned: false,
            fresh: false,
            fresh_published: 0,
            prev_pub: None,
        }
    }

    fn next_encode(&mut self, now: u64) -> (act: ProducerAction)
        ensures
            encode_next(*old(self), now, *final(self), act),
    {
        let periodic = elapsed(self.last_key, now) >= KEYFRAME_NS;
        let joined = self.watchers > self.prev_watchers;
        let key = periodic || joined;
        if key {
            self.last_key = now;
        }
        ProducerAction::Encode { key }
    }

    /// Takes one event and says what to do. `now` is the running time of the producer's clock in
    /// nanoseconds and `now_ns` the media clock.
    pub fn step(
        &mut self,
        health: &mut MediaHealth,
        event: ProducerEvent,
        now: u64,
        now_ns: i64,
    ) -> (act: ProducerAction)
        requires
            stamp_fits(*old(self), event, now_ns),
        ensures
            producer_step(
                *old(self),
                *old(health),
                event,
                now,
                now_ns,
                *final(self),
                *final(health),
                act,
            ),
    {
        match event {
            ProducerEvent::Tick { new_frame, closed, watchers } => {
                self.watchers = watchers;
                self.fresh = new_frame;
                if closed {
                    health.capture_closed = true;
                }
                if new_frame {
                    self.got_any = true;
                    health.note_capture_at(now_ns);
                }
                let mut mention = false;
                if !self.got_any && elapsed(self.started, now) > NO_FRAME_NS {
                    mention = !self.warned;
                    self.warned = true;
                }
                let failed = matches!(self.encoder, EncoderState::Failed);
                if watchers > 0 && !failed && self.got_any {
                    if matches!(self.encoder, EncoderState::Missing) {
                        ProducerAction::BuildEncoder
                    } else {
                        self.next_encode(now)
                    }
                } else {
                    self.prev_watchers = watchers;
                    if mention {
                        ProducerAction::MentionNoFrame
                    } else {
                        ProducerAction::Rest
                    }
                }
            },
            ProducerEvent::EncoderReady => {
                self.encoder = EncoderState::Ready;
                self.next_encode(now)
            },
            ProducerEvent::EncoderRefused => {
                self.encoder = EncoderState::Failed;
                health.video_encoder_failed = true;
                self.prev_watchers = self.watchers;
                ProducerAction::Rest
            },
            ProducerEvent::Encoded { empty, captured_ns } => {
                if empty {
                    self.prev_watchers = self.watchers;
                    return ProducerAction::Rest;
                }
                let pts: i64 = media::video_pts(
                    self.fresh,
                    captured_ns,
                    now_ns,
                    self.lead_ns,
                    self.prev_pub,
                );
                self.prev_pub = Some((pts, now_ns));
                let mut latency_ms: Option<i64> = None;
                if self.fresh {
                    self.fresh_published = self.fresh_published.wrapping_add(1);
                    if self.fresh_published == LATENCY_FRAME {
                        latency_ms = Some(latency_millis(captured_ns, now_ns));
                    }
                }
                health.note_video_at(now_ns);
                self.prev_watchers = self.watchers;
                ProducerAction::Publish { pts, latency_ms }
            },
            ProducerEvent::EncodeFailed => {
                health.video_errors = health.video_errors.wrapping_add(1);
                if matches!(self.device, EncodeDevice::Auto) {
                    ProducerAction::TryProcessor
                } else {
                    self.prev_watchers = self.watchers;
                    ProducerAction::LogFailure
                }
            },
            ProducerEvent::FellBack => {
                self.last_key = now;
                ProducerAction::KeyAndRetry
            },
            ProducerEvent::NotReplaced => {
                self.prev_watchers = self.watchers;
                ProducerAction::LogFailure
            },
        }
    }
}

/// How long to sleep after a tick that took `took` nanoseconds.
pub open spec fn rest_after(fps: int, took: int) -> int {
    if took < 1_000_000_000int / fps {
        1_000_000_000int / fps - took
    } else {
        0
    }
}

/// How long to sleep after a tick that took `took` nanoseconds.
pub fn tick_rest(fps: u32, took: u64) -> (ns: u64)
    requires
        fps > 0,
    ensures
        ns == rest_after(fps as int, took as int),
{
    let whole: u64 = 1_000_000_000 / fps as u64;
    if took < whole {
        whole - took
    } else {
        0
    }
}

/// Nothing is encoded while nobody watches.
pub proof fn law_idle_without_watchers(
    p: Producer,
    h: MediaHealth,
    new_frame: bool,
    closed: bool,
    now: u64,
    now_ns: i64,
    after: Producer,
    h_after: MediaHealth,
    act: ProducerAction,
)
    requires
        producer_step(
            p,
            h,
            ProducerEvent::Tick { new_frame, closed, watchers: 0 },
            now,
            now_ns,
            after,
            h_after,
            act,
        ),
    ensures
        !(act is Encode),
        !(act is BuildEncoder),
{
}

/// An encoder that could not be made is never tried again, and nothing is encoded for the life of
/// the stream.
pub proof fn law_refused_encoder_stays_refused(
    p: Producer,
    h: MediaHealth,
    new_frame: bool,
    closed: bool,
    watchers: u64,
    now: u64,
    now_ns: i64,
    after: Producer,
    h_after: MediaHealth,
    act: ProducerAction,
)
    requires
        p.encoder == EncoderState::Failed,
        producer_step(
            p,
            h,
            ProducerEvent::Tick { new_frame, closed, watchers },
            now,
            now_ns,
            after,
            h_after,
            act,
        ),
    ensures
        after.encoder == EncoderState::Failed,
        act == ProducerAction::Rest || act == ProducerAction::MentionNoFrame,
{
}

/// A client that joins is given a keyframe with the next picture: if there are more clients than on
/// the tick before and the encoder runs, a keyframe is asked for.
pub proof fn law_joining_client_gets_keyframe(
    p: Producer,
    h: MediaHealth,
    new_frame: bool,
    closed: bool,
    watchers: u64,
    now: u64,
    now_ns: i64,
    after: Producer,
    h_after: MediaHealth,
    act: ProducerAction,
)
    requires
        p.encoder == EncoderState::Ready,
        p.got_any || new_frame,
        watchers > p.prev_watchers,
        producer_step(
            p,
            h,
            ProducerEvent::Tick { new_frame, closed, watchers },
            now,
            now_ns,
            after,
            h_after,
            act,
        ),
    ensures
        act == (ProducerAction::Encode { key: true }),
        after.last_key == now,
{
}

/// A picture that is shown again does not look like a live capture: publishing it counts as video
/// and leaves the capture's count and age as they were.
pub proof fn law_repeat_is_no_capture(
    p: Producer,
    h: MediaHealth,
    captured_ns: i64,
    now: u64,
    now_ns: i64,
    after: Producer,
    h_after: MediaHealth,
    act: ProducerAction,
)
    requires
        producer_step(
            p,
            h,
            ProducerEvent::Encoded { empty: false, captured_ns },
            now,
            now_ns,
            after,
            h_after,
            act,
        ),
    ensures
        h_after.video_frames == h.video_frames.wrapping_add(1),
        h_after.capture_frames == h.capture_frames,
        h_after.last_capture_ns == h.last_capture_ns,
{
}

/// Only where the device was left to the server is the processor tried.
pub proof fn law_only_auto_falls_back(
    p: Producer,
    h: MediaHealth,
    now: u64,
    now_ns: i64,
    after: Producer,
    h_after: MediaHealth,
    act: ProducerAction,
)
    requires
        producer_step(
            p,
            h,
            ProducerEvent::EncodeFailed,
            now,
            now_ns,
            after,
            h_after,
            act,
        ),
    ensures
        act == ProducerAction::TryProcessor <==> p.device == EncodeDevice::Auto,
{
}

/// How a producer's thread ended, as seen while it was waited for.
#[derive(Clone, Copy, Debug, PartialEq, Eq, Structural)]
pub enum Ending {
    /// It said that it was done.
    Clean,
    /// It went without a word.
    Unwound,
    /// It still runs.
    Stuck,
}

/// Whether to join the thread: one that still runs is left alone, so that stopping never hangs.
pub fn joins(e: Ending) -> (r: bool)
    ensures
        r == (e != Ending::Stuck),
{
    match e {
        Ending::Clean => true,
        Ending::Unwound => true,
        Ending::Stuck => false,
    }
}

/// A running encoder that encodes two seconds or more after the last request is asked for a keyframe,
/// whether or not a client has joined, and the two seconds begin anew.
pub proof fn law_keyframe_every_two_seconds(
    p: Producer,
    h: MediaHealth,
    new_frame: bool,
    closed: bool,
    watchers: u64,
    now: u64,
    now_ns: i64,
    after: Producer,
    h_after: MediaHealth,
    act: ProducerAction,
)
    requires
        p.encoder == EncoderState::Ready,
        watchers > 0,
        p.got_any || new_frame,
        now >= p.last_key + 2_000_000_000,
        producer_step(
            p,
            h,
            ProducerEvent::Tick { new_frame, closed, watchers },
            now,
            now_ns,
            after,
            h_after,
            act,
        ),
    ensures
        act == (ProducerAction::Encode { key: true }),
        after.last_key == now,
{
}

/// An encoder that has just been made is asked for its keyframe by the same clock: two seconds after
/// the last request, or as soon as a client has joined.
pub proof fn law_first_encoder_keeps_the_rhythm(
    p: Producer,
    h: MediaHealth,
    now: u64,
    now_ns: i64,
    after: Producer,
    h_after: MediaHealth,
    act: ProducerAction,
)
    requires
        producer_step(
            p,
            h,
            ProducerEvent::EncoderReady,
            now,
            now_ns,
            after,
            h_after,
            act,
        ),
    ensures
        now >= p.last_key + 2_000_000_000 ==> act == (ProducerAction::Encode { key: true })
            && after.last_key == now,
        p.watchers > p.prev_watchers ==> act == (ProducerAction::Encode { key: true })
            && after.last_key == now,
        now < p.last_key + 2_000_000_000 && p.watchers <= p.prev_watchers
            ==> act == (ProducerAction::Encode { key: false }) && after.last_key == p.last_key,
        after.encoder == EncoderState::Ready,
        h_after == h,
{
}

/// Within two seconds of the last request, and with no client that has joined, pictures are encoded
/// without asking for a keyframe, and the two seconds go on running.
pub proof fn law_no_keyframe_without_cause(
    p: Producer,
    h: MediaHealth,
    new_frame: bool,
    closed: bool,
    watchers: u64,
    now: u64,
    now_ns: i64,
    after: Producer,
    h_after: MediaHealth,
    act: ProducerAction,
)
    requires
        p.encoder == EncoderState::Ready,
        0 < watchers <= p.prev_watchers,
        p.got_any || new_frame,
        now < p.last_key + 2_000_000_000,
        producer_step(
            p,
            h,
            ProducerEvent::Tick { new_frame, closed, watchers },
            now,
            now_ns,
            after,
            h_after,
            act,
        ),
    ensures
        act == (ProducerAction::Encode { key: false }),
        after.last_key == p.last_key,
{
}

/// The encoder is made on the first tick that has both a watcher and a picture, and on no other.
pub proof fn law_encoder_is_made_when_needed(
    p: Producer,
    h: MediaHealth,
    new_frame: bool,
    closed: bool,
    watchers: u64,
    now: u64,
    now_ns: i64,
    after: Producer,
    h_after: MediaHealth,
    act: ProducerAction,
)
    requires
        p.encoder == EncoderState::Missing,
        producer_step(
            p,
            h,
            ProducerEvent::Tick { new_frame, closed, watchers },
            now,
            now_ns,
            after,
            h_after,
            act,
        ),
    ensures
        act == ProducerAction::BuildEncoder <==> watchers > 0 && (p.got_any || new_frame),
        !(act is Encode),
{
}

/// While somebody watches and there is a picture, a running encoder encodes on every tick, also where
/// the capture has nothing new; without a picture it does not.
pub proof fn law_watched_picture_is_encoded(
    p: Producer,
    h: MediaHealth,
    new_frame: bool,
    closed: bool,
    watchers: u64,
    now: u64,
    now_ns: i64,
    after: Producer,
    h_after: MediaHealth,
    act: ProducerAction,
)
    requires
        p.encoder == EncoderState::Ready,
        watchers > 0,
        producer_step(
            p,
            h,
            ProducerEvent::Tick { new_frame, closed, watchers },
            now,
            now_ns,
            after,
            h_after,
            act,
        ),
    ensures
        act is Encode <==> p.got_any || new_frame,
        after.fresh == new_frame,
        after.watchers == watchers,
{
}

/// A capture that has shown nothing for more than three seconds is mentioned, and not again after
/// that; one that has shown something never is.
pub proof fn law_missing_picture_is_mentioned_once(
    p: Producer,
    h: MediaHealth,
    new_frame: bool,
    closed: bool,
    watchers: u64,
    now: u64,
    now_ns: i64,
    after: Producer,
    h_after: MediaHealth,
    act: ProducerAction,
)
    requires
        producer_step(
            p,
            h,
            ProducerEvent::Tick { new_frame, closed, watchers },
            now,
            now_ns,
            after,
            h_after,
            act,
        ),
    ensures
        act == ProducerAction::MentionNoFrame <==> !p.got_any && !new_frame && !p.warned
            && now > p.started + 3_000_000_000,
        act == ProducerAction::MentionNoFrame ==> after.warned,
        after.warned ==> p.warned || (!p.got_any && !new_frame && now > p.started + 3_000_000_000),
        p.warned ==> after.warned,
        p.got_any ==> after.got_any,
        new_frame ==> after.got_any,
{
}

/// A new picture counts as one capture of this moment; a tick without one leaves the capture's
/// count and age as they were. Neither says anything of the video that is sent, and a closed
/// capture stays closed.
pub proof fn law_capture_is_counted(
    p: Producer,
    h: MediaHealth,
    new_frame: bool,
    closed: bool,
    watchers: u64,
    now: u64,
    now_ns: i64,
    after: Producer,
    h_after: MediaHealth,
    act: ProducerAction,
)
    requires
        producer_step(
            p,
            h,
            ProducerEvent::Tick { new_frame, closed, watchers },
            now,
            now_ns,
            after,
            h_after,
            act,
        ),
    ensures
        new_frame ==> h_after.capture_frames == h.capture_frames.wrapping_add(1)
            && h_after.last_capture_ns == now_ns,
        !new_frame ==> h_after.capture_frames == h.capture_frames
            && h_after.last_capture_ns == h.last_capture_ns,
        h_after.capture_closed == (h.capture_closed || closed),
        h_after.video_frames == h.video_frames,
        h_after.last_video_ns == h.last_video_ns,
        h_after.video_errors == h.video_errors,
{
}

/// A new picture is published under the moment of its capture and the lead. One that is shown again
/// lies behind the one before by the time that went by since, so that the stamps run with the clock.
/// The stamp and the moment are remembered for the next picture.
pub proof fn law_published_stamps(
    p: Producer,
    h: MediaHealth,
    captured_ns: i64,
    now: u64,
    now_ns: i64,
    after: Producer,
    h_after: MediaHealth,
    act: ProducerAction,
)
    requires
        stamp_fits(p, ProducerEvent::Encoded { empty: false, captured_ns }, now_ns),
        producer_step(
            p,
            h,
            ProducerEvent::Encoded { empty: false, captured_ns },
            now,
            now_ns,
            after,
            h_after,
            act,
        ),
    ensures
        act matches ProducerAction::Publish { pts, .. } && {
            &&& p.fresh ==> pts == captured_ns + p.lead_ns
            &&& !p.fresh && p.prev_pub is None ==> pts == now_ns + p.lead_ns
            &&& !p.fresh ==> (p.prev_pub matches Some(last) ==> pts - last.0 == now_ns - last.1)
            &&& after.prev_pub == Some((pts, now_ns))
        },
        h_after.last_video_ns == now_ns,
        after.prev_watchers == p.watchers,
{
}

/// The latency is logged with the sixtieth new picture and with no other, in whole milliseconds.
pub proof fn law_latency_is_logged_once(
    p: Producer,
    h: MediaHealth,
    captured_ns: i64,
    now: u64,
    now_ns: i64,
    after: Producer,
    h_after: MediaHealth,
    act: ProducerAction,
)
    requires
        p.fresh_published < u64::MAX,
        producer_step(
            p,
            h,
            ProducerEvent::Encoded { empty: false, captured_ns },
            now,
            now_ns,
            after,
            h_after,
            act,
        ),
    ensures
        p.fresh && p.fresh_published == 59 && now_ns >= captured_ns
            ==> (act matches ProducerAction::Publish { latency_ms: Some(ms), .. }
            && ms * 1_000_000 <= now_ns - captured_ns < (ms + 1) * 1_000_000),
        p.fresh && p.fresh_published == 59 && now_ns < captured_ns
            ==> (act matches ProducerAction::Publish { latency_ms: Some(ms), .. }
            && (-ms) * 1_000_000 <= captured_ns - now_ns < (-ms + 1) * 1_000_000),
        !p.fresh || p.fresh_published != 59
            ==> (act matches ProducerAction::Publish { latency_ms: None, .. }),
        after.fresh_published == p.fresh_published + (if p.fresh {
            1int
        } else {
            0
        }),
{
}

/// Where nothing comes out of the encoder nothing is published and nothing is counted.
pub proof fn law_empty_output_is_not_published(
    p: Producer,
    h: MediaHealth,
    captured_ns: i64,
    now: u64,
    now_ns: i64,
    after: Producer,
    h_after: MediaHealth,
    act: ProducerAction,
)
    requires
        producer_step(
            p,
            h,
            ProducerEvent::Encoded { empty: true, captured_ns },
            now,
            now_ns,
            after,
            h_after,
            act,
        ),
    ensures
        act == ProducerAction::Rest,
        h_after == h,
        after.prev_pub == p.prev_pub,
        after.fresh_published == p.fresh_published,
        after.prev_watchers == p.watchers,
{
}

/// Every failure to encode is counted once. Where the processor is tried next the tick goes on; where
/// it is not the failure is logged and the tick is over.
pub proof fn law_failure_is_counted(
    p: Producer,
    h: MediaHealth,
    now: u64,
    now_ns: i64,
    after: Producer,
    h_after: MediaHealth,
    act: ProducerAction,
)
    requires
        producer_step(
            p,
            h,
            ProducerEvent::EncodeFailed,
            now,
            now_ns,
            after,
            h_after,
            act,
        ),
    ensures
        h_after.video_errors == h.video_errors.wrapping_add(1),
        h_after.video_frames == h.video_frames,
        p.device == EncodeDevice::Auto ==> act == ProducerAction::TryProcessor
            && after.prev_watchers == p.prev_watchers,
        p.device != EncodeDevice::Auto ==> act == ProducerAction::LogFailure
            && after.prev_watchers == p.watchers,
        after.encoder == p.encoder,
{
}

/// An encoder that replaces another begins with a keyframe, and the tick is tried again at once.
pub proof fn law_replacement_begins_with_a_keyframe(
    p: Producer,
    h: MediaHealth,
    now: u64,
    now_ns: i64,
    after: Producer,
    h_after: MediaHealth,
    act: ProducerAction,
)
    requires
        producer_step(
            p,
            h,
            ProducerEvent::FellBack,
            now,
            now_ns,
            after,
            h_after,
            act,
        ),
    ensures
        act == ProducerAction::KeyAndRetry,
        after.last_key == now,
        after.encoder == p.encoder,
        after.prev_watchers == p.prev_watchers,
        h_after == h,
{
}

/// An encoder that cannot be made turns video off and is reported.
pub proof fn law_refused_encoder_is_reported(
    p: Producer,
    h: MediaHealth,
    now: u64,
    now_ns: i64,
    after: Producer,
    h_after: MediaHealth,
    act: ProducerAction,
)
    requires
        producer_step(
            p,
            h,
            ProducerEvent::EncoderRefused,
            now,
            now_ns,
            after,
            h_after,
            act,
        ),
    ensures
        after.encoder == EncoderState::Failed,
        h_after.video_encoder_failed,
        act == ProducerAction::Rest,
{
}

/// Where there was nothing to replace, or the replacement failed too, the failure is logged and the
/// tick is over.
pub proof fn law_failed_replacement_is_logged(
    p: Producer,
    h: MediaHealth,
    now: u64,
    now_ns: i64,
    after: Producer,
    h_after: MediaHealth,
    act: ProducerAction,
)
    requires
        producer_step(
            p,
            h,
            ProducerEvent::NotReplaced,
            now,
            now_ns,
            after,
            h_after,
            act,
        ),
    ensures
        act == ProducerAction::LogFailure,
        after.prev_watchers == p.watchers,
        after.encoder == p.encoder,
        h_after == h,
{
}

/// A new producer makes its encoder for the first picture that somebody watches, and that picture
/// is a keyframe.
pub proof fn law_stream_begins_with_a_keyframe(
    device: EncodeDevice,
    lead_ns: i64,
    start: u64,
    h: MediaHealth,
    closed: bool,
    watchers: u64,
    now: u64,
    now_ns: i64,
    after: Producer,
    h_after: MediaHealth,
    act: ProducerAction,
    later: u64,
    then: Producer,
    h_then: MediaHealth,
    next: ProducerAction,
)
    requires
        watchers > 0,
        producer_step(
            begun_at(device, lead_ns, start),
            h,
            ProducerEvent::Tick { new_frame: true, closed, watchers },
            now,
            now_ns,
            after,
            h_after,
            act,
        ),
        producer_step(
            after,
            h_after,
            ProducerEvent::EncoderReady,
            later,
            now_ns,
            then,
            h_then,
            next,
        ),
    ensures
        act == ProducerAction::BuildEncoder,
        next == (ProducerAction::Encode { key: true }),
        then.last_key == later,
        then.device == device && then.lead_ns == lead_ns,
{
}

/// A tick and the rest after it take one frame's time, unless the tick alone took longer; then
/// there is no rest.
pub proof fn law_ticks_keep_the_frame_rate(fps: int, took: int)
    requires
        fps > 0,
        took >= 0,
    ensures
        rest_after(fps, took) >= 0,
        rest_after(fps, took) > 0 ==> fps * (took + rest_after(fps, took)) <= 1_000_000_000 < fps * (
        took + rest_after(fps, took) + 1),
        fps * took > 1_000_000_000 ==> rest_after(fps, took) == 0,
        fps * (took + 1) <= 1_000_000_000 ==> rest_after(fps, took) > 0,
{
    let d = 1_000_000_000int / fps;
    vstd::arithmetic::div_mod::lemma_fundamental_div_mod(1_000_000_000, fps);
    vstd::arithmetic::div_mod::lemma_mod_bound(1_000_000_000, fps);
    assert(fps * d <= 1_000_000_000 < fps * (d + 1)) by (nonlinear_arith)
        requires
            1_000_000_000 == fps * d + 1_000_000_000int % fps,
            0 <= 1_000_000_000int % fps < fps,
    ;
    assert(fps * took > 1_000_000_000 ==> took >= d) by (nonlinear_arith)
        requires
            fps > 0,
            fps * d <= 1_000_000_000,
    ;
    assert(fps * (took + 1) <= 1_000_000_000 ==> took < d) by (nonlinear_arith)
        requires
            fps > 0,
            1_000_000_000 < fps * (d + 1),
    ;
}

} // verus!
