//! One client's connection: what the server does on each event and why it ends.

use crate::registry;
use crate::registry::EntryView;
use crate::registry::Registry;
use crate::text;
use crate::wire;
use crate::wire::CastTargets;
use crate::wire::Incoming;
use vstd::prelude::*;

verus! {

/// Messages that may wait for a client before it counts as too far behind.
pub const OUT_QUEUE: usize = 256;

/// How long one write to a client may take, in seconds.
pub const WRITE_TIMEOUT_SECS: u64 = 5;

/// Largest audio payload of a cast, behind the tag.
pub const MAX_UP_AUDIO_BYTES: usize = 8192;

/// Largest video access unit of a cast, behind the tag and the key flag.
pub const MAX_UP_VIDEO_BYTES: usize = 4194304;

/// How long a caster may hold the slot without sending anything, in nanoseconds.
pub const CAST_IDLE_TIMEOUT_NS: u64 = 10_000_000_000;

/// Length of the window over which a cast's bytes are counted, in nanoseconds.
pub const UPLINK_WINDOW_NS: u64 = 1_000_000_000;

/// Smallest byte budget of a caster per window.
pub const UPLINK_MIN_BUDGET_BYTES: u64 = 2_097_152;

/// Largest WebSocket message that is accepted.
pub const MAX_WS_BYTES: usize = 8_388_608;

/// Why a client's connection ended.
#[derive(Clone, Copy, Debug, PartialEq, Eq, Structural)]
pub enum Exit {
    /// The peer closed the socket.
    PeerClosed,
    /// The socket could not be read.
    SocketError,
    /// A write failed or took too long.
    WriteFailed,
    /// The source was swapped or the server shuts down.
    SourceSwapped,
    /// The configuration could not be delivered as the first message.
    ConfigSendFailed,
    /// The outbound queue was full when a message had to go out.
    QueueFull,
    /// An uploaded audio payload was too large.
    OversizeAudio,
    /// An uploaded access unit was too large.
    OversizeVideo,
    /// The caster sent more bytes than its budget.
    UplinkRate,
    /// A caster sent video to an audio-only stream.
    VideoOnAudioOnly,
}

/// What is logged as the reason of an ending.
pub open spec fn exit_label(e: Exit) -> Seq<char> {
    match e {
        Exit::PeerClosed => "peer closed"@,
        Exit::SocketError => "socket error"@,
        Exit::WriteFailed => "write failed or timed out"@,
        Exit::SourceSwapped => "source swapped"@,
        Exit::ConfigSendFailed => "config send failed"@,
        Exit::QueueFull => "outbound queue full (client too far behind)"@,
        Exit::OversizeAudio => "oversize uplink audio payload"@,
        Exit::OversizeVideo => "oversize uplink video access unit"@,
        Exit::UplinkRate => "uplink byte-rate budget exceeded"@,
        Exit::VideoOnAudioOnly => "video uplink on an audio-only stream"@,
    }
}

impl Exit {
    /// Whether a limit was tripped.
    pub open spec fn guard(self) -> bool {
        self == Exit::OversizeAudio || self == Exit::OversizeVideo || self == Exit::UplinkRate
            || self == Exit::VideoOnAudioOnly
    }

    /// Whether the ending is part of normal operation.
    pub open spec fn normal(self) -> bool {
        self == Exit::PeerClosed || self == Exit::SourceSwapped
    }

    /// Whether a limit was tripped.
    pub fn is_guard(self) -> (r: bool)
        ensures
            r == self.guard(),
    {
        matches!(
            self,
            Exit::OversizeAudio | Exit::OversizeVideo | Exit::UplinkRate | Exit::VideoOnAudioOnly
        )
    }

    /// Whether the ending is part of normal operation.
    pub fn is_normal(self) -> (r: bool)
        ensures
            r == self.normal(),
    {
        matches!(self, Exit::PeerClosed | Exit::SourceSwapped)
    }

    /// What is logged as the reason.
    pub fn label(self) -> (s: &'static str)
        ensures
            s@ == exit_label(self),
    {
        match self {
            Exit::PeerClosed => "peer closed",
            Exit::SocketError => "socket error",
            Exit::WriteFailed => "write failed or timed out",
            Exit::SourceSwapped => "source swapped",
            Exit::ConfigSendFailed => "config send failed",
            Exit::QueueFull => "outbound queue full (client too far behind)",
            Exit::OversizeAudio => "oversize uplink audio payload",
            Exit::OversizeVideo => "oversize uplink video access unit",
            Exit::UplinkRate => "uplink byte-rate budget exceeded",
            Exit::VideoOnAudioOnly => "video uplink on an audio-only stream",
        }
    }
}

/// An ending that tripped a limit is never a normal one.
pub proof fn law_guard_is_not_normal(e: Exit)
    ensures
        !(e.guard() && e.normal()),
{
}

/// What became of a message that was put into the outbound queue.
#[derive(Clone, Copy, Debug, PartialEq, Eq, Structural)]
pub enum Delivery {
    /// It is queued.
    Queued,
    /// The queue was full.
    Full,
    /// The writer has gone.
    Closed,
}

/// Why a connection ends whose message could not be queued, if it ends: a full queue is a client
/// too far behind, a closed one is a peer that has gone.
pub open spec fn exit_of(d: Delivery) -> Option<Exit> {
    match d {
        Delivery::Queued => None,
        Delivery::Full => Some(Exit::QueueFull),
        Delivery::Closed => Some(Exit::WriteFailed),
    }
}

/// Why a connection ends whose message could not be queued, if it ends.
pub fn send_exit(d: Delivery) -> (e: Option<Exit>)
    ensures
        e == exit_of(d),
{
    match d {
        Delivery::Queued => None,
        Delivery::Full => Some(Exit::QueueFull),
        Delivery::Closed => Some(Exit::WriteFailed),
    }
}

/// What happens to a connection.
pub enum Event<'a> {
    /// Time to look whether the caster still sends.
    IdleTick,
    /// The task that writes to the socket ended.
    WriterEnded,
    /// Another stream has become the active one.
    SourceChanged,
    /// The panel has a message for this client.
    Control(Vec<u8>),
    /// The client sent a binary message.
    Message(&'a [u8]),
    /// The client sent something that carries no request: a ping, a pong or a text.
    Noise,
    /// The client closed the connection.
    PeerClosed,
    /// The socket failed.
    ReadFailed,
    /// An audio or video frame is there for this client.
    FrameReady,
    /// This many frames were overwritten before they could be sent.
    Lagged(u64),
    /// The stream ended.
    FeedClosed,
    /// What became of a message that had to be delivered.
    Sent(Delivery),
    /// What became of an audio or video frame.
    FrameSent(Delivery),
}

/// What the connection's task does next.
pub enum Action {
    /// Nothing.
    Wait,
    /// Answer with the clock, stamping when the request was taken and when the reply goes out.
    AnswerClock,
    /// Deliver this message.
    Send(Vec<u8>),
    /// Deliver the verdict on a claim of the caster slot. `fresh` tells a new claim from a repeated
    /// one.
    Grant { granted: bool, fresh: bool, reply: Vec<u8> },
    /// The client has said who it is; the name as it may be logged.
    Identified(String),
    /// The caster slot was taken back; tell the client if its queue has room.
    Reclaimed(Vec<u8>),
    /// Relay the audio packet behind the tag.
    RelayAudio,
    /// Relay the access unit behind the tag and the key flag.
    RelayVideo,
    /// Send the frame if the queue has room.
    Forward,
    /// Close the connection.
    End(Exit),
}

/// What one connection remembers.
pub struct Session {
    /// Id of the connection.
    pub conn_id: u64,
    /// What a caster has to encode to, when the stream is one that a client casts.
    pub targets: Option<CastTargets>,
    /// Bytes that a caster may send per window.
    pub budget: u64,
    /// When the current window began.
    pub win_start: u64,
    /// Bytes counted in the current window.
    pub win_bytes: u64,
    /// When the caster last sent something.
    pub last_uplink: u64,
}

/// Three times what the dictated bit rates take per second, at least the minimum.
pub open spec fn uplink_budget(targets: Option<CastTargets>) -> int {
    let dictated = match targets {
        Some(t) => ((t.video_kbps * 1000 + t.audio_bps) / 8) * 3,
        None => 0,
    };
    if dictated > UPLINK_MIN_BUDGET_BYTES {
        dictated
    } else {
        UPLINK_MIN_BUDGET_BYTES as int
    }
}

/// The bytes that a caster may send per window.
pub fn caster_budget(targets: &Option<CastTargets>) -> (b: u64)
    ensures
        b == uplink_budget(*targets),
{
    let dictated: u64 = match targets {
        Some(t) => ((t.video_kbps as u64 * 1000 + t.audio_bps as u64) / 8) * 3,
        None => 0,
    };
    if dictated > UPLINK_MIN_BUDGET_BYTES {
        dictated
    } else {
        UPLINK_MIN_BUDGET_BYTES
    }
}

/// Nanoseconds from `then` to `now`, none if the clock did not advance.
pub open spec fn elapsed(then: u64, now: u64) -> int {
    if now >= then {
        now - then
    } else {
        0
    }
}

/// When the window that holds `now` began.
pub open spec fn window_start(start: u64, now: u64) -> u64 {
    if elapsed(start, now) >= UPLINK_WINDOW_NS {
        now
    } else {
        start
    }
}

/// The bytes in the window that holds `now`, with `add` more.
pub open spec fn window_bytes(start: u64, bytes: u64, add: u64, now: u64) -> int {
    if elapsed(start, now) >= UPLINK_WINDOW_NS {
        add as int
    } else {
        bytes + add
    }
}

/// Counts `add` bytes into the window that holds `now` and says whether it then holds more than
/// `budget`.
pub fn uplink_rate_exceeded(
    win_start: &mut u64,
    win_bytes: &mut u64,
    add: u64,
    budget: u64,
    now: u64,
) -> (r: bool)
    requires
        window_bytes(*old(win_start), *old(win_bytes), add, now) <= u64::MAX,
    ensures
        *final(win_start) == window_start(*old(win_start), now),
        *final(win_bytes) == window_bytes(*old(win_start), *old(win_bytes), add, now),
        r == (*final(win_bytes) > budget),
{
    if now >= *win_start && now - *win_start >= UPLINK_WINDOW_NS {
        *win_start = now;
        *win_bytes = 0;
    }
    *win_bytes = *win_bytes + add;
    *win_bytes > budget
}

/// The session with `add` bytes counted.
pub open spec fn counted(s: Session, add: int, now: u64) -> Session {
    Session {
        win_start: window_start(s.win_start, now),
        win_bytes: window_bytes(s.win_start, s.win_bytes, add as u64, now) as u64,
        ..s
    }
}

/// What becomes of a caster's audio packet.
pub open spec fn audio_step(s: Session, b: Seq<u8>, now: u64, after: Session, act: Action) -> bool {
    if b.len() - 1 > MAX_UP_AUDIO_BYTES {
        after == s && act == Action::End(Exit::OversizeAudio)
    } else if window_bytes(s.win_start, s.win_bytes, b.len() as u64, now) > s.budget {
        after == counted(s, b.len() as int, now) && act == Action::End(Exit::UplinkRate)
    } else if s.targets is Some {
        after == (Session { last_uplink: now, ..counted(s, b.len() as int, now) }) && act
            == Action::RelayAudio
    } else {
        after == counted(s, b.len() as int, now) && act == Action::Wait
    }
}

/// What becomes of a caster's access unit.
pub open spec fn video_step(s: Session, b: Seq<u8>, now: u64, after: Session, act: Action) -> bool {
    match s.targets {
        None => after == s && act == Action::Wait,
        Some(t) => if !t.video_on {
            after == s && act == Action::End(Exit::VideoOnAudioOnly)
        } else if b.len() - 2 > MAX_UP_VIDEO_BYTES {
            after == s && act == Action::End(Exit::OversizeVideo)
        } else if window_bytes(s.win_start, s.win_bytes, b.len() as u64, now) > s.budget {
            after == counted(s, b.len() as int, now) && act == Action::End(Exit::UplinkRate)
        } else {
            after == (Session { last_uplink: now, ..counted(s, b.len() as int, now) }) && act
                == Action::RelayVideo
        },
    }
}

/// The registry with the entry of `id`, if it has one, replaced.
pub open spec fn with_entry(
    m: Map<u64, EntryView>,
    id: u64,
    e: EntryView,
) -> Map<u64, EntryView> {
    if m.dom().contains(id) {
        m.insert(id, e)
    } else {
        m
    }
}

/// What a message of the client leads to.
pub open spec fn message_step(
    s: Session,
    m: Map<u64, EntryView>,
    slot: Option<u64>,
    b: Seq<u8>,
    now: u64,
    after: Session,
    m_after: Map<u64, EntryView>,
    slot_after: Option<u64>,
    act: Action,
) -> bool {
    let id = s.conn_id;
    if wire::tagged(b, wire::MSG_CLOCK_REQ) {
        after == s && m_after == m && slot_after == slot && act == Action::AnswerClock
    } else if wire::is_calib_status(b) {
        &&& after == s && slot_after == slot && act == Action::Wait
        &&& m_after == with_entry(
            m,
            id,
            EntryView { calib_status: text::lossy_text(b.skip(2)), ..m[id] },
        )
    } else if wire::is_client_sync(b) {
        &&& after == s && slot_after == slot && act == Action::Wait
        &&& m_after == with_entry(
            m,
            id,
            EntryView {
                reported_trim_ms: Some(
                    wire::from_bits32(wire::le_value(b.subrange(1, 5))) as i32,
                ),
                ..m[id]
            },
        )
    } else if wire::is_hello(b) {
        &&& after == s && slot_after == slot
        &&& m_after == with_entry(
            m,
            id,
            EntryView {
                stable_id: text::lossy_text(wire::hello_id(b)),
                name: registry::name_or_default(id, text::lossy_text(wire::hello_name(b))),
                identified: true,
                ..m[id]
            },
        )
        &&& act matches Action::Identified(shown) && shown@ == log_safe_text(
            if m.dom().contains(id) {
                registry::name_or_default(id, text::lossy_text(wire::hello_name(b)))
            } else {
                Seq::empty()
            },
        )
    } else if wire::tagged(b, wire::MSG_CAST_REQUEST) {
        let granted = s.targets is Some && registry::claimed(slot, id) == Some(id);
        let fresh = s.targets is Some && slot is None;
        &&& m_after == m
        &&& slot_after == if s.targets is Some {
            registry::claimed(slot, id)
        } else {
            slot
        }
        &&& after == if fresh {
            Session { last_uplink: now, ..s }
        } else {
            s
        }
        &&& act matches Action::Grant { granted: g, fresh: f, reply } && g == granted && f == fresh
            && reply@ == wire::grant_msg_bytes(granted, s.targets)
    } else if wire::is_up_audio(b) {
        &&& m_after == m && slot_after == slot
        &&& if slot == Some(id) {
            audio_step(s, b, now, after, act)
        } else {
            after == s && act == Action::Wait
        }
    } else if wire::is_up_video(b) {
        &&& m_after == m && slot_after == slot
        &&& if slot == Some(id) {
            video_step(s, b, now, after, act)
        } else {
            after == s && act == Action::Wait
        }
    } else if wire::tagged(b, wire::MSG_CAST_STOP) {
        after == s && m_after == m && slot_after == registry::released(slot, id) && act
            == Action::Wait
    } else {
        after == s && m_after == m && slot_after == slot && act == Action::Wait
    }
}

/// Whether the caster has been silent for too long.
pub open spec fn idle_too_long(s: Session, slot: Option<u64>, now: u64) -> bool {
    slot == Some(s.conn_id) && elapsed(s.last_uplink, now) > CAST_IDLE_TIMEOUT_NS
}

/// What an event leads to: the session, the clients and the caster slot after it, and what the
/// connection's task does next.
pub open spec fn event_step(
    s: Session,
    m: Map<u64, EntryView>,
    slot: Option<u64>,
    ev: Event,
    now: u64,
    after: Session,
    m_after: Map<u64, EntryView>,
    slot_after: Option<u64>,
    act: Action,
) -> bool {
    let id = s.conn_id;
    match ev {
        Event::Message(b) => message_step(
            s,
            m,
            slot,
            b@,
            now,
            after,
            m_after,
            slot_after,
            act,
        ),
        Event::IdleTick => {
            &&& after == s && m_after == m
            &&& if idle_too_long(s, slot, now) {
                &&& slot_after is None
                &&& act matches Action::Reclaimed(stop) && stop@ == seq![wire::MSG_CAST_STOP]
            } else {
                slot_after == slot && act == Action::Wait
            }
        },
        Event::Lagged(n) => {
            &&& after == s && slot_after == slot && act == Action::Wait
            &&& m_after == with_entry(m, id, dropped_more(m[id], n))
        },
        Event::FrameSent(d) => {
            &&& after == s && slot_after == slot
            &&& m_after == if d == Delivery::Full {
                with_entry(m, id, dropped_more(m[id], 1))
            } else {
                m
            }
            &&& act == if d == Delivery::Closed {
                Action::End(Exit::WriteFailed)
            } else {
                Action::Wait
            }
        },
        Event::Control(msg) => {
            &&& after == s && m_after == m && slot_after == slot
            &&& act matches Action::Send(out) && out@ == msg@
        },
        _ => {
            &&& after == s && m_after == m && slot_after == slot
            &&& act == plain_action(ev)
        },
    }
}

/// The entry with `n` more frames that the client did not receive.
pub open spec fn dropped_more(e: EntryView, n: u64) -> EntryView {
    EntryView { frames_dropped: e.frames_dropped.wrapping_add(n), ..e }
}

/// What an event leads to that touches nothing but the connection's own life.
pub open spec fn plain_action(ev: Event) -> Action {
    match ev {
        Event::WriterEnded => Action::End(Exit::WriteFailed),
        Event::SourceChanged => Action::End(Exit::SourceSwapped),
        Event::FeedClosed => Action::End(Exit::SourceSwapped),
        Event::PeerClosed => Action::End(Exit::PeerClosed),
        Event::ReadFailed => Action::End(Exit::SocketError),
        Event::FrameReady => Action::Forward,
        Event::Sent(d) => match exit_of(d) {
            Some(e) => Action::End(e),
            None => Action::Wait,
        },
        _ => Action::Wait,
    }
}

/// Whether `s` is a session that begins now.
pub open spec fn is_opened(s: Session, conn_id: u64, targets: Option<CastTargets>, now: u64) -> bool {
    &&& s.conn_id == conn_id
    &&& s.targets == targets
    &&& s.win_start == now
    &&& s.win_bytes == 0
    &&& s.last_uplink == now
}

impl Session {
    /// The budget is the one of the targets, and the current window has not gone over it.
    pub open spec fn wf(&self) -> bool {
        &&& self.budget == uplink_budget(self.targets)
        &&& self.win_bytes <= self.budget
    }

    /// A session that begins now.
    pub fn open(conn_id: u64, targets: Option<CastTargets>, now: u64) -> (s: Session)
        ensures
            s.wf(),
            is_opened(s, conn_id, targets, now),
    {
        let budget: u64 = caster_budget(&targets);
        Session { conn_id, targets, budget, win_start: now, win_bytes: 0, last_uplink: now }
    }

    fn on_audio(&mut self, b: &[u8], now: u64) -> (act: Action)
        requires
            old(self).wf(),
            b@.len() > 1,
        ensures
            audio_step(*old(self), b@, now, *final(self), act),
            act is End || final(self).wf(),
    {
        if b.len() - 1 > MAX_UP_AUDIO_BYTES {
            return Action::End(Exit::OversizeAudio);
        }
        let mut start: u64 = self.win_start;
        let mut bytes: u64 = self.win_bytes;
        let over = uplink_rate_exceeded(&mut start, &mut bytes, b.len() as u64, self.budget, now);
        self.win_start = start;
        self.win_bytes = bytes;
        if over {
            return Action::End(Exit::UplinkRate);
        }
        if self.targets.is_some() {
            self.last_uplink = now;
            Action::RelayAudio
        } else {
            Action::Wait
        }
    }

    fn on_video(&mut self, b: &[u8], now: u64) -> (act: Action)
        requires
            old(self).wf(),
            b@.len() > 2,
        ensures
            video_step(*old(self), b@, now, *final(self), act),
            act is End || final(self).wf(),
    {
        match self.targets {
            None => Action::Wait,
            Some(t) => {
                if !t.video_on {
                    return Action::End(Exit::VideoOnAudioOnly);
                }
                if b.len() - 2 > MAX_UP_VIDEO_BYTES {
                    return Action::End(Exit::OversizeVideo);
                }
                let mut start: u64 = self.win_start;
                let mut bytes: u64 = self.win_bytes;
                let over = uplink_rate_exceeded(
                    &mut start,
                    &mut bytes,
                    b.len() as u64,
                    self.budget,
                    now,
                );
                self.win_start = start;
                self.win_bytes = bytes;
                if over {
                    return Action::End(Exit::UplinkRate);
                }
                self.last_uplink = now;
                Action::RelayVideo
            },
        }
    }

    fn on_message(&mut self, reg: &mut Registry, b: &[u8], now: u64) -> (act: Action)
        requires
            old(self).wf(),
            old(reg).wf(),
            old(self).conn_id < old(reg).next_id,
        ensures
            final(reg).wf(),
            final(reg).next_id == old(reg).next_id,
            act is End || final(self).wf(),
            message_step(
                *old(self),
                old(reg)@,
                old(reg).caster,
                b@,
                now,
                *final(self),
                final(reg)@,
                final(reg).caster,
                act,
            ),
    {
        let id: u64 = self.conn_id;
        match wire::read_incoming(b) {
            Incoming::ClockRequest => Action::AnswerClock,
            Incoming::CalibStatus(status) => {
                reg.set_calib_status(id, status);
                Action::Wait
            },
            Incoming::ClientSync(ms) => {
                reg.set_reported_trim(id, ms);
                Action::Wait
            },
            Incoming::Hello(stable_id, name) => {
                reg.identify(id, stable_id, name);
                let shown = match reg.find(id) {
                    Some(i) => log_safe(reg.entries[i].name.as_str()),
                    None => log_safe(""),
                };
                proof {
                    reveal_strlit("");
                    assert(""@ =~= Seq::<char>::empty());
                }
                Action::Identified(shown)
            },
            Incoming::CastRequest => {
                let mut granted = false;
                let mut fresh = false;
                if self.targets.is_some() {
                    let mut slot: Option<u64> = reg.caster;
                    let verdict = registry::claim_slot(&mut slot, id);
                    reg.caster = slot;
                    granted = verdict.0;
                    fresh = verdict.1;
                }
                if fresh {
                    self.last_uplink = now;
                }
                let reply = wire::cast_grant_msg(granted, self.targets.as_ref());
                Action::Grant { granted, fresh, reply }
            },
            Incoming::UpAudio => {
                if registry::holds_slot(reg.caster, id) {
                    self.on_audio(b, now)
                } else {
                    Action::Wait
                }
            },
            Incoming::UpVideo => {
                if registry::holds_slot(reg.caster, id) {
                    self.on_video(b, now)
                } else {
                    Action::Wait
                }
            },
            Incoming::CastStop => {
                let mut slot: Option<u64> = reg.caster;
                registry::release_slot(&mut slot, id);
                reg.caster = slot;
                Action::Wait
            },
            Incoming::Other => Action::Wait,
        }
    }

    /// Takes one event at time `now`, in nanoseconds of a clock that does not run backwards, and
    /// says what to do. After an `End` the connection takes no further event.
    pub fn step(&mut self, reg: &mut Registry, event: Event, now: u64) -> (act: Action)
        requires
            old(self).wf(),
            old(reg).wf(),
            old(self).conn_id < old(reg).next_id,
        ensures
            final(reg).wf(),
            final(reg).next_id == old(reg).next_id,
            act is End || final(self).wf(),
            final(self).conn_id == old(self).conn_id,
            event_step(
                *old(self),
                old(reg)@,
                old(reg).caster,
                event,
                now,
                *final(self),
                final(reg)@,
                final(reg).caster,
                act,
            ),
    {
        let id: u64 = self.conn_id;
        match event {
            Event::Message(b) => self.on_message(reg, b, now),
            Event::IdleTick => {
                let silent = now >= self.last_uplink && now - self.last_uplink
                    > CAST_IDLE_TIMEOUT_NS;
                if registry::holds_slot(reg.caster, id) && silent {
                    reg.caster = None;
                    Action::Reclaimed(wire::cast_stop_msg())
                } else {
                    Action::Wait
                }
            },
            Event::Lagged(n) => {
                reg.add_dropped(id, n);
                Action::Wait
            },
            Event::FrameSent(d) => match d {
                Delivery::Queued => Action::Wait,
                Delivery::Full => {
                    reg.add_dropped(id, 1);
                    Action::Wait
                },
                Delivery::Closed => Action::End(Exit::WriteFailed),
            },
            Event::Control(msg) => Action::Send(msg),
            Event::WriterEnded => Action::End(Exit::WriteFailed),
            Event::SourceChanged => Action::End(Exit::SourceSwapped),
            Event::FeedClosed => Action::End(Exit::SourceSwapped),
            Event::PeerClosed => Action::End(Exit::PeerClosed),
            Event::ReadFailed => Action::End(Exit::SocketError),
            Event::FrameReady => Action::Forward,
            Event::Sent(d) => match send_exit(d) {
                Some(e) => Action::End(e),
                None => Action::Wait,
            },
            Event::Noise => Action::Wait,
        }
    }
}

/// Most characters of a client's text that are logged.
pub const LOG_SAFE_MAX: usize = 64;

/// Whether `c` is a control character.
pub open spec fn is_control(c: char) -> bool {
    c as int <= 0x1f || 0x7f <= c as int <= 0x9f
}

/// `c`, or a dot in place of a control character.
pub open spec fn log_safe_char(c: char) -> char {
    if is_control(c) {
        '.'
    } else {
        c
    }
}

/// A client's text as it may be logged: its first characters, with dots for control characters,
/// and an ellipsis when there is more.
pub open spec fn log_safe_text(s: Seq<char>) -> Seq<char> {
    if s.len() > LOG_SAFE_MAX {
        s.take(LOG_SAFE_MAX as int).map_values(|c: char| log_safe_char(c)).push('…')
    } else {
        s.map_values(|c: char| log_safe_char(c))
    }
}

/// Makes a client's text safe to write into a log line.
pub fn log_safe(s: &str) -> (r: String)
    ensures
        r@ == log_safe_text(s@),
{
    let v = text::chars_of(s);
    let n: usize = if v.len() > LOG_SAFE_MAX {
        LOG_SAFE_MAX
    } else {
        v.len()
    };
    let mut r = String::new();
    let mut i: usize = 0;
    while i < n
        invariant
            v@ == s@,
            i <= n <= v@.len(),
            r@ == s@.take(i as int).map_values(|c: char| log_safe_char(c)),
        decreases n - i,
    {
        let c: char = v[i];
        let k: u32 = c as u32;
        proof {
            vstd::utf8::char_u32_cast(c, k);
            vstd::utf8::char_is_scalar(c);
        }
        if k <= 0x1f || (0x7f <= k && k <= 0x9f) {
            text::push_char(&mut r, '.');
        } else {
            text::push_char(&mut r, c);
        }
        i += 1;
        assert(r@ =~= s@.take(i as int).map_values(|c: char| log_safe_char(c)));
    }
    if v.len() > LOG_SAFE_MAX {
        text::push_char(&mut r, '…');
    } else {
        assert(s@.take(n as int) =~= s@);
    }
    r
}

/// A text made safe for the log holds no control character, so it can neither break the line nor
/// smuggle in an escape sequence, and it is at most 65 characters long.
pub proof fn law_log_safe(s: Seq<char>)
    ensures
        log_safe_text(s).len() <= LOG_SAFE_MAX + 1,
        forall|i: int| 0 <= i < log_safe_text(s).len()
            ==> !is_control(#[trigger] log_safe_text(s)[i]),
{
}

/// The level at which an ending is logged.
#[derive(Clone, Copy, Debug, PartialEq, Eq, Structural)]
pub enum Farewell {
    /// A limit tripped: a warning.
    Evicted,
    /// Normal: information.
    Disconnected,
    /// Anything else: a warning.
    Abnormal,
}

/// How an ending is logged.
pub open spec fn parting(e: Exit) -> Farewell {
    if e.guard() {
        Farewell::Evicted
    } else if e.normal() {
        Farewell::Disconnected
    } else {
        Farewell::Abnormal
    }
}

/// How an ending is logged.
pub fn farewell(e: Exit) -> (f: Farewell)
    ensures
        f == parting(e),
{
    if e.is_guard() {
        Farewell::Evicted
    } else if e.is_normal() {
        Farewell::Disconnected
    } else {
        Farewell::Abnormal
    }
}

/// A listener that does not hold the caster slot is never closed by what it uploads, and nothing
/// of it is relayed.
pub proof fn law_listener_cannot_cast(
    s: Session,
    m: Map<u64, EntryView>,
    slot: Option<u64>,
    b: Seq<u8>,
    now: u64,
    after: Session,
    m_after: Map<u64, EntryView>,
    slot_after: Option<u64>,
    act: Action,
)
    requires
        slot != Some(s.conn_id),
        message_step(s, m, slot, b, now, after, m_after, slot_after, act),
    ensures
        !(act is End),
        !(act is RelayAudio),
        !(act is RelayVideo),
{
}

/// Asking again for a slot that one already holds is granted again, and does not restart the clock
/// by which a silent caster loses the slot.
pub proof fn law_repeated_claim_keeps_idle_clock(
    s: Session,
    m: Map<u64, EntryView>,
    b: Seq<u8>,
    now: u64,
    after: Session,
    m_after: Map<u64, EntryView>,
    slot_after: Option<u64>,
    act: Action,
)
    requires
        s.targets is Some,
        wire::tagged(b, wire::MSG_CAST_REQUEST),
        message_step(
            s,
            m,
            Some(s.conn_id),
            b,
            now,
            after,
            m_after,
            slot_after,
            act,
        ),
    ensures
        after.last_uplink == s.last_uplink,
        slot_after == Some(s.conn_id),
        act matches Action::Grant { granted, fresh, reply } && granted && !fresh,
{
}

/// A caster that went silent loses the slot, and the next client that asks gets it.
pub proof fn law_silent_caster_is_replaced(
    s: Session,
    m: Map<u64, EntryView>,
    now: u64,
    after: Session,
    m_after: Map<u64, EntryView>,
    slot_after: Option<u64>,
    act: Action,
    next: u64,
)
    requires
        elapsed(s.last_uplink, now) > CAST_IDLE_TIMEOUT_NS,
        event_step(
            s,
            m,
            Some(s.conn_id),
            Event::IdleTick,
            now,
            after,
            m_after,
            slot_after,
            act,
        ),
    ensures
        act is Reclaimed,
        registry::claimed(slot_after, next) == Some(next),
{
}

/// No event of one connection moves the caster slot away from another.
pub proof fn law_slot_is_safe_from_others(
    s: Session,
    m: Map<u64, EntryView>,
    holder: u64,
    ev: Event,
    now: u64,
    after: Session,
    m_after: Map<u64, EntryView>,
    slot_after: Option<u64>,
    act: Action,
)
    requires
        holder != s.conn_id,
        event_step(s, m, Some(holder), ev, now, after, m_after, slot_after, act),
    ensures
        slot_after == Some(holder),
{
}

/// No event of one connection changes what is known of another client.
pub proof fn law_entries_are_safe_from_others(
    s: Session,
    m: Map<u64, EntryView>,
    slot: Option<u64>,
    ev: Event,
    now: u64,
    after: Session,
    m_after: Map<u64, EntryView>,
    slot_after: Option<u64>,
    act: Action,
    other: u64,
)
    requires
        other != s.conn_id,
        event_step(s, m, slot, ev, now, after, m_after, slot_after, act),
    ensures
        m_after.dom().contains(other) == m.dom().contains(other),
        m.dom().contains(other) ==> m_after[other] == m[other],
{
}

/// A caster that stays at or under the dictated bit rates is within its budget: one second of them
/// takes at most a third of it, rounding apart.
pub proof fn law_dictated_rate_fits_budget(t: CastTargets)
    ensures
        (t.video_kbps * 1000 + t.audio_bps) / 8 * 3 <= uplink_budget(Some(t)),
        uplink_budget(Some(t)) >= UPLINK_MIN_BUDGET_BYTES,
{
}

/// A caster that says it stops gives the slot back at once: nobody holds it, and the next client that
/// asks is granted it and holds it from then on.
pub proof fn law_stop_gives_the_slot_back(
    s: Session,
    m: Map<u64, EntryView>,
    b: &[u8],
    now: u64,
    after: Session,
    m_after: Map<u64, EntryView>,
    slot_after: Option<u64>,
    act: Action,
    next: Session,
    ask: &[u8],
    later: u64,
    next_after: Session,
    m_then: Map<u64, EntryView>,
    slot_then: Option<u64>,
    answer: Action,
)
    requires
        b@.len() > 0,
        b@[0] == 0x34,
        event_step(
            s,
            m,
            Some(s.conn_id),
            Event::Message(b),
            now,
            after,
            m_after,
            slot_after,
            act,
        ),
        next.targets is Some,
        ask@.len() > 0,
        ask@[0] == 0x32,
        event_step(
            next,
            m_after,
            slot_after,
            Event::Message(ask),
            later,
            next_after,
            m_then,
            slot_then,
            answer,
        ),
    ensures
        slot_after is None,
        act == Action::Wait,
        m_after == m,
        slot_then == Some(next.conn_id),
        answer matches Action::Grant { granted, fresh, reply } && granted && fresh,
        next_after.last_uplink == later,
{
}

/// A client that does not cast changes nothing by saying that it stops.
pub proof fn law_stop_of_a_listener(
    s: Session,
    m: Map<u64, EntryView>,
    slot: Option<u64>,
    b: &[u8],
    now: u64,
    after: Session,
    m_after: Map<u64, EntryView>,
    slot_after: Option<u64>,
    act: Action,
)
    requires
        slot != Some(s.conn_id),
        b@.len() > 0,
        b@[0] == 0x34,
        event_step(s, m, slot, Event::Message(b), now, after, m_after, slot_after, act),
    ensures
        slot_after == slot,
        act == Action::Wait,
        after == s,
        m_after == m,
{
}

/// While one client casts no other is granted the slot: it is told so, and the one that casts keeps
/// it.
pub proof fn law_slot_has_one_holder(
    s: Session,
    m: Map<u64, EntryView>,
    holder: u64,
    b: &[u8],
    now: u64,
    after: Session,
    m_after: Map<u64, EntryView>,
    slot_after: Option<u64>,
    act: Action,
)
    requires
        holder != s.conn_id,
        b@.len() > 0,
        b@[0] == 0x32,
        event_step(s, m, Some(holder), Event::Message(b), now, after, m_after, slot_after, act),
    ensures
        slot_after == Some(holder),
        act matches Action::Grant { granted, fresh, reply } && !granted && !fresh
            && reply@.len() == 21 && reply@[0] == 0x33 && reply@[1] == 0,
        after == s,
{
}

/// A client that asks while nobody casts is granted the slot if the stream is one that clients cast,
/// and only then. A grant begins the clock by which a silent caster is found.
pub proof fn law_free_slot_is_granted(
    s: Session,
    m: Map<u64, EntryView>,
    b: &[u8],
    now: u64,
    after: Session,
    m_after: Map<u64, EntryView>,
    slot_after: Option<u64>,
    act: Action,
)
    requires
        b@.len() > 0,
        b@[0] == 0x32,
        event_step(s, m, None, Event::Message(b), now, after, m_after, slot_after, act),
    ensures
        s.targets is Some <==> slot_after == Some(s.conn_id),
        s.targets is None ==> slot_after is None,
        act matches Action::Grant { granted, fresh, reply } && granted == s.targets is Some
            && reply@[0] == 0x33 && (reply@[1] == 1 <==> s.targets is Some),
        s.targets is Some ==> after.last_uplink == now,
{
    wire::law_grant_layout(true, s.targets);
    wire::law_grant_layout(false, s.targets);
}

/// A clock request is answered, whoever sends it, and changes nothing.
pub proof fn law_clock_request_is_answered(
    s: Session,
    m: Map<u64, EntryView>,
    slot: Option<u64>,
    b: &[u8],
    now: u64,
    after: Session,
    m_after: Map<u64, EntryView>,
    slot_after: Option<u64>,
    act: Action,
)
    requires
        b@.len() > 0,
        b@[0] == 0x10,
        event_step(s, m, slot, Event::Message(b), now, after, m_after, slot_after, act),
    ensures
        act == Action::AnswerClock,
        after == s,
        m_after == m,
        slot_after == slot,
{
}

/// The sync offset that a client reports, four bytes with the lowest first, is kept with that
/// client and nothing else of it changes.
pub proof fn law_sync_report_is_kept(
    s: Session,
    m: Map<u64, EntryView>,
    slot: Option<u64>,
    b: &[u8],
    now: u64,
    after: Session,
    m_after: Map<u64, EntryView>,
    slot_after: Option<u64>,
    act: Action,
)
    requires
        m.dom().contains(s.conn_id),
        b@.len() >= 5,
        b@[0] == 0x24,
        event_step(s, m, slot, Event::Message(b), now, after, m_after, slot_after, act),
    ensures
        m_after.dom() == m.dom(),
        m_after[s.conn_id].reported_trim_ms is Some,
        ({
            let bits = b@[1] + 0x100 * b@[2] + 0x1_0000 * b@[3] + 0x100_0000 * b@[4];
            m_after[s.conn_id].reported_trim_ms->Some_0 == (if b@[4] >= 0x80 {
                bits - 0x1_0000_0000
            } else {
                bits
            })
        }),
        m_after[s.conn_id].trim_ms == m[s.conn_id].trim_ms,
        m_after[s.conn_id].name == m[s.conn_id].name,
        m_after[s.conn_id].calib_status == m[s.conn_id].calib_status,
        act == Action::Wait,
        slot_after == slot,
{
    wire::law_le_four(b@.subrange(1, 5));
    assert(m_after.dom() =~= m.dom());
}

/// What a client reports of its calibration is kept with that client as its status, and nothing
/// else of it changes.
pub proof fn law_report_is_kept(
    s: Session,
    m: Map<u64, EntryView>,
    slot: Option<u64>,
    b: &[u8],
    now: u64,
    after: Session,
    m_after: Map<u64, EntryView>,
    slot_after: Option<u64>,
    act: Action,
)
    requires
        m.dom().contains(s.conn_id),
        b@.len() >= 2,
        b@[0] == 0x22,
        b@[1] == 2,
        event_step(s, m, slot, Event::Message(b), now, after, m_after, slot_after, act),
    ensures
        m_after[s.conn_id].calib_status == text::lossy_text(b@.subrange(2, b@.len() as int)),
        m_after[s.conn_id].reported_trim_ms == m[s.conn_id].reported_trim_ms,
        m_after[s.conn_id].name == m[s.conn_id].name,
        act == Action::Wait,
        slot_after == slot,
{
    assert(b@.skip(2) =~= b@.subrange(2, b@.len() as int));
}

/// A client that says who it is is identified from then on, under the id and the name that it sent.
pub proof fn law_hello_names_the_client(
    s: Session,
    m: Map<u64, EntryView>,
    slot: Option<u64>,
    b: &[u8],
    now: u64,
    after: Session,
    m_after: Map<u64, EntryView>,
    slot_after: Option<u64>,
    act: Action,
)
    requires
        m.dom().contains(s.conn_id),
        b@.len() >= 2,
        b@[0] == 0x21,
        b@.len() >= 2 + b@[1],
        event_step(s, m, slot, Event::Message(b), now, after, m_after, slot_after, act),
    ensures
        m_after[s.conn_id].identified,
        m_after[s.conn_id].stable_id == text::lossy_text(b@.subrange(2, 2 + b@[1])),
        ({
            let name = text::lossy_text(b@.subrange(2 + b@[1], b@.len() as int));
            text::trimmed(name).len() > 0 ==> m_after[s.conn_id].name == name
        }),
        act is Identified,
        slot_after == slot,
        m_after[s.conn_id].calib_status == m[s.conn_id].calib_status,
{
}

/// A message that is too short for what its tag announces, or that has no known tag, changes
/// nothing and is not answered.
pub proof fn law_short_messages_are_ignored(
    s: Session,
    m: Map<u64, EntryView>,
    slot: Option<u64>,
    b: &[u8],
    now: u64,
    after: Session,
    m_after: Map<u64, EntryView>,
    slot_after: Option<u64>,
    act: Action,
)
    requires
        b@.len() == 0 || (b@[0] == 0x22 && (b@.len() < 2 || b@[1] != 2)) || (b@[0] == 0x24
            && b@.len() < 5) || (b@[0] == 0x21 && (b@.len() < 2 || b@.len() < 2 + b@[1]))
            || (b@[0] == 0x30 && b@.len() < 2) || (b@[0] == 0x31 && b@.len() < 3) || (b@[0] != 0x10
            && b@[0] != 0x21 && b@[0] != 0x22 && b@[0] != 0x24 && b@[0] != 0x30 && b@[0] != 0x31
            && b@[0] != 0x32 && b@[0] != 0x34),
        event_step(s, m, slot, Event::Message(b), now, after, m_after, slot_after, act),
    ensures
        act == Action::Wait,
        after == s,
        m_after == m,
        slot_after == slot,
{
}

/// A caster's audio is relayed while the packet is no larger than 8 KiB and the bytes of this
/// second are within the budget; sending it shows that the caster lives.
pub proof fn law_audio_of_the_caster_is_relayed(
    s: Session,
    m: Map<u64, EntryView>,
    b: &[u8],
    now: u64,
    after: Session,
    m_after: Map<u64, EntryView>,
    slot_after: Option<u64>,
    act: Action,
)
    requires
        s.wf(),
        s.targets is Some,
        2 <= b@.len() <= 8193,
        b@[0] == 0x30,
        b@.len() + (if now >= s.win_start + 1_000_000_000 {
            0
        } else {
            s.win_bytes as int
        }) <= s.budget,
        event_step(s, m, Some(s.conn_id), Event::Message(b), now, after, m_after, slot_after, act),
    ensures
        act == Action::RelayAudio,
        after.last_uplink == now,
        after.win_bytes == b@.len() + (if now >= s.win_start + 1_000_000_000 {
            0
        } else {
            s.win_bytes as int
        }),
        after.win_start == (if now >= s.win_start + 1_000_000_000 {
            now
        } else {
            s.win_start
        }),
        slot_after == Some(s.conn_id),
{
}

/// A caster's video is relayed on a stream that carries video while the access unit is no larger than
/// 4 MiB and the bytes of this second are within the budget.
pub proof fn law_video_of_the_caster_is_relayed(
    s: Session,
    m: Map<u64, EntryView>,
    b: &[u8],
    now: u64,
    after: Session,
    m_after: Map<u64, EntryView>,
    slot_after: Option<u64>,
    act: Action,
)
    requires
        s.wf(),
        s.targets matches Some(t) && t.video_on,
        3 <= b@.len() <= 4194306,
        b@[0] == 0x31,
        b@.len() + (if now >= s.win_start + 1_000_000_000 {
            0
        } else {
            s.win_bytes as int
        }) <= s.budget,
        event_step(s, m, Some(s.conn_id), Event::Message(b), now, after, m_after, slot_after, act),
    ensures
        act == Action::RelayVideo,
        after.last_uplink == now,
        after.win_bytes == b@.len() + (if now >= s.win_start + 1_000_000_000 {
            0
        } else {
            s.win_bytes as int
        }),
        after.win_start == (if now >= s.win_start + 1_000_000_000 {
            now
        } else {
            s.win_start
        }),
        slot_after == Some(s.conn_id),
{
}

/// A caster is cut off for a packet that is too large, for video on a stream without it, and for more
/// bytes in one second than its budget; each has its own reason.
pub proof fn law_limits_end_the_cast(
    s: Session,
    m: Map<u64, EntryView>,
    b: &[u8],
    now: u64,
    after: Session,
    m_after: Map<u64, EntryView>,
    slot_after: Option<u64>,
    act: Action,
)
    requires
        s.wf(),
        b@.len() >= 3,
        s.targets is Some,
        event_step(s, m, Some(s.conn_id), Event::Message(b), now, after, m_after, slot_after, act),
    ensures
        b@[0] == 0x30 && b@.len() > 8193 ==> act == Action::End(Exit::OversizeAudio),
        b@[0] == 0x31 && !s.targets->Some_0.video_on ==> act == Action::End(Exit::VideoOnAudioOnly),
        b@[0] == 0x31 && s.targets->Some_0.video_on && b@.len() > 4194306
            ==> act == Action::End(Exit::OversizeVideo),
        b@[0] == 0x30 && b@.len() <= 8193 && now < s.win_start + 1_000_000_000
            && s.win_bytes + b@.len() > s.budget ==> act == Action::End(Exit::UplinkRate),
        b@[0] == 0x31 && s.targets->Some_0.video_on && b@.len() <= 4194306
            && now < s.win_start + 1_000_000_000 && s.win_bytes + b@.len() > s.budget
            ==> act == Action::End(Exit::UplinkRate),
{
}

/// A caster that has sent nothing for more than ten seconds loses the slot and is told to stop. One
/// that has sent something within ten seconds keeps it, and so does everybody else.
pub proof fn law_idle_caster_is_found(
    s: Session,
    m: Map<u64, EntryView>,
    slot: Option<u64>,
    now: u64,
    after: Session,
    m_after: Map<u64, EntryView>,
    slot_after: Option<u64>,
    act: Action,
)
    requires
        event_step(s, m, slot, Event::IdleTick, now, after, m_after, slot_after, act),
    ensures
        slot == Some(s.conn_id) && now > s.last_uplink + 10_000_000_000 ==> slot_after is None
            && (act matches Action::Reclaimed(stop) && stop@ == seq![0x34u8]),
        slot != Some(s.conn_id) || now <= s.last_uplink + 10_000_000_000 ==> slot_after == slot
            && act == Action::Wait,
        m_after == m,
        after == s,
{
}

/// Frames that were overwritten before they could be sent are counted for that client, and it stays
/// connected.
pub proof fn law_lost_frames_are_counted(
    s: Session,
    m: Map<u64, EntryView>,
    slot: Option<u64>,
    n: u64,
    now: u64,
    after: Session,
    m_after: Map<u64, EntryView>,
    slot_after: Option<u64>,
    act: Action,
)
    requires
        m.dom().contains(s.conn_id),
        m[s.conn_id].frames_dropped + n <= u64::MAX,
        event_step(s, m, slot, Event::Lagged(n), now, after, m_after, slot_after, act),
    ensures
        m_after[s.conn_id].frames_dropped == m[s.conn_id].frames_dropped + n,
        m_after[s.conn_id].name == m[s.conn_id].name,
        act == Action::Wait,
        slot_after == slot,
{
}

/// A frame for which the queue has no room is dropped and counted, and the client stays; once the
/// writer has gone the connection ends.
pub proof fn law_full_queue_drops_a_frame(
    s: Session,
    m: Map<u64, EntryView>,
    slot: Option<u64>,
    d: Delivery,
    now: u64,
    after: Session,
    m_after: Map<u64, EntryView>,
    slot_after: Option<u64>,
    act: Action,
)
    requires
        m.dom().contains(s.conn_id),
        m[s.conn_id].frames_dropped < u64::MAX,
        event_step(s, m, slot, Event::FrameSent(d), now, after, m_after, slot_after, act),
    ensures
        d == Delivery::Full ==> m_after[s.conn_id].frames_dropped == m[s.conn_id].frames_dropped
            + 1 && act == Action::Wait,
        d == Delivery::Queued ==> m_after == m && act == Action::Wait,
        d == Delivery::Closed ==> m_after == m && act == Action::End(Exit::WriteFailed),
{
}

/// A message that has to be delivered ends the connection if it cannot be queued: the client is too
/// far behind, or its writer has gone.
pub proof fn law_messages_must_arrive(
    s: Session,
    m: Map<u64, EntryView>,
    slot: Option<u64>,
    d: Delivery,
    now: u64,
    after: Session,
    m_after: Map<u64, EntryView>,
    slot_after: Option<u64>,
    act: Action,
)
    requires
        event_step(s, m, slot, Event::Sent(d), now, after, m_after, slot_after, act),
    ensures
        d == Delivery::Full ==> act == Action::End(Exit::QueueFull),
        d == Delivery::Queued ==> act == Action::Wait,
        d == Delivery::Closed ==> act == Action::End(Exit::WriteFailed),
        m_after == m,
        slot_after == slot,
{
}

/// What the panel has for a client is sent to it as it is.
pub proof fn law_control_is_passed_on(
    s: Session,
    m: Map<u64, EntryView>,
    slot: Option<u64>,
    msg: Vec<u8>,
    now: u64,
    after: Session,
    m_after: Map<u64, EntryView>,
    slot_after: Option<u64>,
    act: Action,
)
    requires
        event_step(s, m, slot, Event::Control(msg), now, after, m_after, slot_after, act),
    ensures
        act matches Action::Send(out) && out@ == msg@,
        after == s,
        m_after == m,
        slot_after == slot,
{
}

/// A connection ends when its writer, its source, its feed, its peer or its socket is gone, for that
/// reason; a frame that is there is forwarded, and a ping is not answered.
pub proof fn law_endings_have_their_reason(
    s: Session,
    m: Map<u64, EntryView>,
    slot: Option<u64>,
    ev: Event,
    now: u64,
    after: Session,
    m_after: Map<u64, EntryView>,
    slot_after: Option<u64>,
    act: Action,
)
    requires
        event_step(s, m, slot, ev, now, after, m_after, slot_after, act),
    ensures
        ev is WriterEnded ==> act == Action::End(Exit::WriteFailed),
        ev is SourceChanged || ev is FeedClosed ==> act == Action::End(Exit::SourceSwapped),
        ev is PeerClosed ==> act == Action::End(Exit::PeerClosed),
        ev is ReadFailed ==> act == Action::End(Exit::SocketError),
        ev is FrameReady ==> act == Action::Forward,
        ev is Noise ==> act == Action::Wait,
{
}

/// The budget is three times what the dictated bit rates come to in a second, and never less than two
/// mebibytes.
pub proof fn law_budget_has_headroom(t: CastTargets)
    ensures
        uplink_budget(None) == 2_097_152,
        uplink_budget(Some(t)) >= 2_097_152,
        uplink_budget(Some(t)) > 2_097_152 ==> 3 * (1000 * t.video_kbps + t.audio_bps) - 24 < 8
            * uplink_budget(Some(t)) <= 3 * (1000 * t.video_kbps + t.audio_bps),
        3 * (1000 * t.video_kbps + t.audio_bps) <= 8 * 2_097_152 ==> uplink_budget(Some(t))
            == 2_097_152,
        3 * (1000 * t.video_kbps + t.audio_bps) > 8 * 2_097_152 + 24 ==> uplink_budget(Some(t))
            > 2_097_152,
{
}

/// Bytes are counted by the second: those of a window that has run out are forgotten, and those of
/// the current one add up, however they are cut into messages.
pub proof fn law_window_adds_up(start: u64, bytes: u64, a: u64, b: u64, now: u64, later: u64)
    requires
        start <= now <= later,
        later < start + 1_000_000_000,
        bytes + a + b <= u64::MAX,
    ensures
        window_start(start, now) == start,
        window_bytes(start, bytes, a, now) == bytes + a,
        window_bytes(start, (bytes + a) as u64, b, later) == window_bytes(
            start,
            bytes,
            (a + b) as u64,
            later,
        ),
{
}

/// A second after it began a window is over: the next one begins with what is sent now.
pub proof fn law_window_runs_out(start: u64, bytes: u64, add: u64, now: u64)
    requires
        now >= start + 1_000_000_000,
    ensures
        window_start(start, now) == now,
        window_bytes(start, bytes, add, now) == add,
{
}

/// What is logged of a client's text is its first 64 characters, each in its place but for control
/// characters, which become dots; only a longer text ends in an ellipsis.
pub proof fn law_logged_text_is_the_text(s: Seq<char>, i: int)
    ensures
        s.len() <= 64 ==> log_safe_text(s).len() == s.len(),
        s.len() > 64 ==> log_safe_text(s).len() == 65 && log_safe_text(s)[64] == '…',
        0 <= i < s.len() && i < 64 && ' ' <= s[i] <= '~' ==> log_safe_text(s)[i] == s[i],
        0 <= i < s.len() && i < 64 && (s[i] < ' ' || s[i] == '\u{7f}') ==> log_safe_text(s)[i] == '.',
        0 <= i < s.len() && i < 64 && s[i] > '\u{9f}' ==> log_safe_text(s)[i] == s[i],
{
}

/// Limits that trip are told apart from everything else that ends a connection, and only a client
/// that leaves and a source that changes are part of normal operation.
pub proof fn law_kinds_of_endings(e: Exit)
    ensures
        e.normal() <==> e == Exit::PeerClosed || e == Exit::SourceSwapped,
        e.guard() <==> e == Exit::OversizeAudio || e == Exit::OversizeVideo
            || e == Exit::UplinkRate || e
            == Exit::VideoOnAudioOnly,
        parting(e) == Farewell::Evicted <==> e.guard(),
        parting(e) == Farewell::Disconnected <==> e == Exit::PeerClosed || e == Exit::SourceSwapped,
        parting(Exit::QueueFull) == Farewell::Abnormal && parting(Exit::WriteFailed)
            == Farewell::Abnormal,
{
}

/// A connection that has just begun has its whole budget, and counts as having sent something when it
/// began.
pub proof fn law_new_session(
    s: Session,
    conn_id: u64,
    targets: Option<CastTargets>,
    now: u64,
    later: u64,
)
    requires
        is_opened(s, conn_id, targets, now),
        now <= later,
    ensures
        s.conn_id == conn_id,
        s.targets == targets,
        later < now + 1_000_000_000 ==> window_bytes(s.win_start, s.win_bytes, 0, later) == 0,
        idle_too_long(s, Some(conn_id), later) <==> later > now + 10_000_000_000,
        !idle_too_long(s, None, later),
{
}

/// What a client that is not listed says of itself changes nothing for those that are.
pub proof fn law_unlisted_client_changes_nothing(
    s: Session,
    m: Map<u64, EntryView>,
    slot: Option<u64>,
    ev: Event,
    now: u64,
    after: Session,
    m_after: Map<u64, EntryView>,
    slot_after: Option<u64>,
    act: Action,
)
    requires
        !m.dom().contains(s.conn_id),
        event_step(s, m, slot, ev, now, after, m_after, slot_after, act),
    ensures
        m_after == m,
{
}

/// A client that says who it is is logged by the name that it gets, made safe for the log.
pub proof fn law_hello_is_logged_safely(
    s: Session,
    m: Map<u64, EntryView>,
    slot: Option<u64>,
    b: &[u8],
    now: u64,
    after: Session,
    m_after: Map<u64, EntryView>,
    slot_after: Option<u64>,
    act: Action,
)
    requires
        m.dom().contains(s.conn_id),
        b@.len() >= 2,
        b@[0] == 0x21,
        b@.len() >= 2 + b@[1],
        event_step(s, m, slot, Event::Message(b), now, after, m_after, slot_after, act),
    ensures
        act matches Action::Identified(shown) && shown@ == log_safe_text(m_after[s.conn_id].name),
{
}

/// Nothing is relayed on a stream that is not cast, even for a client that holds the slot: its
/// audio is only counted, and its video is passed over.
pub proof fn law_nothing_is_relayed_without_targets(
    s: Session,
    m: Map<u64, EntryView>,
    slot: Option<u64>,
    b: &[u8],
    now: u64,
    after: Session,
    m_after: Map<u64, EntryView>,
    slot_after: Option<u64>,
    act: Action,
)
    requires
        s.targets is None,
        b@.len() >= 3,
        event_step(s, m, slot, Event::Message(b), now, after, m_after, slot_after, act),
    ensures
        !(act is RelayAudio) && !(act is RelayVideo),
        b@[0] == 0x31 ==> act == Action::Wait && after == s,
        b@[0] == 0x30 ==> after.last_uplink == s.last_uplink,
        b@[0] == 0x30 || b@[0] == 0x31 ==> slot_after == slot && m_after == m,
{
}

} // verus!
