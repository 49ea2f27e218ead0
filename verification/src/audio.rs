//! Audio samples on their way to the encoder: decoding, cutting into frames of 20 ms, and pacing a
//! source that delivers irregularly.

use crate::config::FRAME_SAMPLES;
use std::collections::VecDeque;
use vstd::prelude::*;

verus! {

/// Length of a frame in nanoseconds.
pub const FRAME_NS: u64 = 20_000_000;

/// How far a paced source may fall behind before it starts over, in nanoseconds.
pub const STALL_RESET_NS: u64 = 200_000_000;

/// Most samples that a paced source holds back: four frames.
pub const MAX_HELD: usize = 7680;

/// Frames between two reports of the level.
pub const LEVEL_EVERY: u64 = 100;

/// The 16-bit sample of two little-endian bytes.
pub open spec fn sample_of(lo: u8, hi: u8) -> int {
    if hi >= 128 {
        lo + 256 * hi - 65536
    } else {
        lo + 256 * hi
    }
}

/// The samples of little-endian bytes. A single byte at the end is left out.
pub open spec fn is_decoded(out: Seq<i16>, b: Seq<u8>) -> bool {
    &&& out.len() == b.len() / 2
    &&& forall|i: int| 0 <= i < out.len() ==> #[trigger] out[i] == sample_of(b[2 * i], b[2 * i + 1])
}

/// Decodes little-endian 16-bit samples. A single byte at the end is left out.
pub fn decode_s16le(b: &[u8]) -> (out: Vec<i16>)
    ensures
        is_decoded(out@, b@),
{
    let mut out: Vec<i16> = Vec::new();
    let size: usize = b.len();
    let n: usize = size / 2;
    let mut i: usize = 0;
    while i < n
        invariant
            size == b@.len(),
            n == size / 2,
            i <= n,
            out@.len() == i,
            forall|k: int| 0 <= k < i ==> #[trigger] out@[k] == sample_of(b@[2 * k], b@[2 * k + 1]),
        decreases n - i,
    {
        let lo: i32 = b[2 * i] as i32;
        let hi: i32 = b[2 * i + 1] as i32;
        let v: i32 = if hi >= 128 {
            lo + 256 * hi - 65536
        } else {
            lo + 256 * hi
        };
        out.push(v as i16);
        i += 1;
    }
    out
}

/// The distance of a sample from zero.
pub open spec fn magnitude(s: i16) -> int {
    if s < 0 {
        -s
    } else {
        s as int
    }
}

/// The largest of `start` and the magnitudes of the samples.
pub open spec fn peak_of(start: int, samples: Seq<i16>) -> int
    decreases samples.len(),
{
    if samples.len() == 0 {
        start
    } else {
        let p = peak_of(start, samples.drop_last());
        if magnitude(samples.last()) > p {
            magnitude(samples.last())
        } else {
            p
        }
    }
}

/// The peak covers every sample, and it is one of them or what it started from.
pub proof fn law_peak_covers(start: int, samples: Seq<i16>)
    ensures
        peak_of(start, samples) >= start,
        forall|i: int| 0 <= i < samples.len()
            ==> magnitude(#[trigger] samples[i]) <= peak_of(start, samples),
        peak_of(start, samples) == start || exists|i: int|
            0 <= i < samples.len() && magnitude(#[trigger] samples[i]) == peak_of(start, samples),
    decreases samples.len(),
{
    if samples.len() > 0 {
        let front = samples.drop_last();
        law_peak_covers(start, front);
        assert forall|i: int| 0 <= i < samples.len() implies magnitude(#[trigger] samples[i])
            <= peak_of(start, samples) by {
            if i < front.len() {
                assert(front[i] == samples[i]);
            }
        }
        if peak_of(start, samples) == magnitude(samples.last()) {
            assert(magnitude(samples[samples.len() - 1]) == peak_of(start, samples));
        } else if peak_of(start, front) != start {
            let i = choose|i: int|
                0 <= i < front.len() && magnitude(#[trigger] front[i]) == peak_of(start, front);
            assert(samples[i] == front[i]);
        }
    }
}

/// How many frames came and how loud the loudest sample since the last report was.
#[derive(Clone, Copy, Debug, PartialEq, Eq, Structural)]
pub struct LevelMeter {
    /// Frames so far.
    pub frames: u64,
    /// Largest magnitude since the last report.
    pub peak: i32,
}

/// What a counted frame leads to: every hundredth one reports how many there were and the peak, which
/// starts over.
pub open spec fn level_step(m: LevelMeter, after: LevelMeter, r: Option<(u64, i32)>) -> bool {
    &&& after.frames == m.frames + 1
    &&& r == if (m.frames + 1) % 100 == 0 {
        Some((after.frames, m.peak))
    } else {
        None
    }
    &&& after.peak == if r is Some {
        0
    } else {
        m.peak
    }
}

impl LevelMeter {
    /// A meter that has heard nothing.
    pub fn new() -> (m: LevelMeter)
        ensures
            m == (LevelMeter { frames: 0, peak: 0 }),
    {
        LevelMeter { frames: 0, peak: 0 }
    }

    /// Listens to samples.
    pub fn hear(&mut self, samples: &[i16])
        requires
            0 <= old(self).peak <= 32768,
        ensures
            final(self).frames == old(self).frames,
            final(self).peak == peak_of(old(self).peak as int, samples@),
            0 <= final(self).peak <= 32768,
    {
        let ghost start = self.peak as int;
        let mut i: usize = 0;
        assert(samples@.take(0) =~= Seq::<i16>::empty());
        while i < samples.len()
            invariant
                i <= samples@.len(),
                0 <= self.peak <= 32768,
                self.peak == peak_of(start, samples@.take(i as int)),
                self.frames == old(self).frames,
            decreases samples@.len() - i,
        {
            assert(samples@.take(i + 1).drop_last() =~= samples@.take(i as int));
            let s: i32 = samples[i] as i32;
            let m: i32 = if s < 0 {
                -s
            } else {
                s
            };
            if m > self.peak {
                self.peak = m;
            }
            i += 1;
        }
        assert(samples@.take(i as int) =~= samples@);
    }

    /// Counts a frame. Every hundredth one reports how many there were and the peak, which starts
    /// over.
    pub fn count(&mut self) -> (r: Option<(u64, i32)>)
        requires
            old(self).frames < u64::MAX,
        ensures
            level_step(*old(self), *final(self), r),
    {
        self.frames = self.frames + 1;
        if self.frames % LEVEL_EVERY == 0 {
            let p: i32 = self.peak;
            self.peak = 0;
            Some((self.frames, p))
        } else {
            None
        }
    }
}

/// The samples of frames one after the other.
pub open spec fn flat(frames: Seq<Vec<i16>>) -> Seq<i16>
    decreases frames.len(),
{
    if frames.len() == 0 {
        Seq::empty()
    } else {
        flat(frames.drop_last()) + frames.last()@
    }
}

/// Cuts a stream of samples into frames of 20 ms.
pub struct Reblock {
    /// Samples that do not fill a frame yet.
    pub pending: Vec<i16>,
}

/// Whether the pending samples and the new ones are these frames and what is pending then.
pub open spec fn reblocked(
    pending: Seq<i16>,
    samples: Seq<i16>,
    frames: Seq<Vec<i16>>,
    after: Seq<i16>,
) -> bool {
    &&& forall|i: int| 0 <= i < frames.len() ==> (#[trigger] frames[i])@.len() == FRAME_SAMPLES
    &&& flat(frames) + after == pending + samples
}

impl Reblock {
    /// Less than a frame is pending.
    pub open spec fn wf(&self) -> bool {
        self.pending@.len() < FRAME_SAMPLES
    }

    /// Nothing pending.
    pub fn new() -> (r: Reblock)
        ensures
            r.wf(),
            r.pending@.len() == 0,
    {
        Reblock { pending: Vec::new() }
    }

    /// Takes samples and gives the frames that they fill. Nothing is lost or reordered: what was
    /// pending and the new samples are the frames and what is pending now.
    pub fn push(&mut self, samples: &[i16]) -> (frames: Vec<Vec<i16>>)
        requires
            old(self).wf(),
        ensures
            final(self).wf(),
            reblocked(old(self).pending@, samples@, frames@, final(self).pending@),
    {
        let mut frames: Vec<Vec<i16>> = Vec::new();
        let mut held: Vec<i16> = Vec::new();
        let ghost whole = self.pending@ + samples@;
        let ghost before = self.pending@;
        held.append(&mut self.pending);
        let mut i: usize = 0;
        assert(flat(frames@) + held@ =~= before + samples@.take(0));
        while i < samples.len()
            invariant
                i <= samples@.len(),
                held@.len() < FRAME_SAMPLES,
                forall|k: int|
                    0 <= k < frames@.len() ==> (#[trigger] frames@[k])@.len() == FRAME_SAMPLES,
                flat(frames@) + held@ == before + samples@.take(i as int),
            decreases samples@.len() - i,
        {
            let ghost done = flat(frames@);
            let ghost part = held@;
            held.push(samples[i]);
            assert(samples@.take(i + 1) =~= samples@.take(i as int).push(samples@[i as int]));
            assert(done + held@ =~= (done + part).push(samples@[i as int]));
            assert(before + samples@.take(i + 1) =~= (before + samples@.take(i as int)).push(
                samples@[i as int],
            ));
            if held.len() == FRAME_SAMPLES {
                let ghost filled = held@;
                let ghost earlier = frames@;
                let mut next: Vec<i16> = Vec::new();
                next.append(&mut held);
                frames.push(next);
                proof {
                    assert(frames@.drop_last() =~= earlier);
                    assert(flat(frames@) + held@ =~= done + filled);
                }
            }
            i += 1;
        }
        assert(samples@.take(i as int) =~= samples@);
        self.pending = held;
        frames
    }
}

/// Paces a source that delivers irregularly: one frame every 20 ms, silence where samples are
/// missing, and no more than four frames held back.
pub struct Pacer {
    /// Samples that came and were not sent.
    pub held: VecDeque<i16>,
    /// When the next frame is due, in nanoseconds.
    pub next: u64,
}

/// When the next frame is due, once a long stall is forgiven.
pub open spec fn due(next: u64, now: u64) -> u64 {
    if now > next + STALL_RESET_NS {
        now
    } else {
        next
    }
}

/// How many frames are due by `now`.
pub open spec fn frames_due(next: u64, now: u64) -> int {
    if now >= due(next, now) {
        (now - due(next, now)) / FRAME_NS as int + 1
    } else {
        0
    }
}

/// The first `n` samples, silence where there are too few.
pub open spec fn padded(held: Seq<i16>, n: int) -> Seq<i16> {
    Seq::new(
        n as nat,
        |i: int|
            if i < held.len() {
                held[i]
            } else {
                0i16
            },
    )
}

/// What is left after the first `n` samples.
pub open spec fn left_after(held: Seq<i16>, n: int) -> Seq<i16> {
    if n < held.len() {
        held.skip(n)
    } else {
        Seq::empty()
    }
}

/// The newest samples, at most as many as may be held back.
pub open spec fn newest(held: Seq<i16>) -> Seq<i16> {
    if held.len() > MAX_HELD {
        held.skip(held.len() - MAX_HELD)
    } else {
        held
    }
}

/// The samples that a packet of `frames` stereo samples adds.
pub open spec fn taken_in(
    has_data: bool,
    silent: bool,
    frames: int,
    samples: Seq<i16>,
) -> Seq<i16> {
    if !has_data || frames == 0 {
        Seq::empty()
    } else if silent {
        Seq::new((2 * frames) as nat, |i: int| 0i16)
    } else {
        samples
    }
}

/// What a pacer sends by `now`, and what it holds and when its next frame is due then.
pub open spec fn paced(
    held: Seq<i16>,
    next: u64,
    now: u64,
    frames: Seq<Vec<i16>>,
    held_after: Seq<i16>,
    next_after: u64,
) -> bool {
    &&& frames.len() == frames_due(next, now)
    &&& forall|i: int| 0 <= i < frames.len() ==> (#[trigger] frames[i])@.len() == FRAME_SAMPLES
    &&& flat(frames) == padded(held, FRAME_SAMPLES * frames.len())
    &&& held_after == newest(left_after(held, FRAME_SAMPLES * frames.len()))
    &&& next_after == due(next, now) + FRAME_NS * frames.len()
}

impl Pacer {
    /// A pacer whose first frame is due now.
    pub fn new(now: u64) -> (p: Pacer)
        ensures
            p.held@.len() == 0,
            p.next == now,
    {
        Pacer { held: VecDeque::new(), next: now }
    }

    /// Takes samples.
    pub fn deliver(&mut self, samples: &[i16])
        ensures
            final(self).held@ == old(self).held@ + samples@,
            final(self).next == old(self).next,
    {
        let mut i: usize = 0;
        assert(self.held@ =~= old(self).held@ + samples@.take(0));
        while i < samples.len()
            invariant
                i <= samples@.len(),
                self.held@ == old(self).held@ + samples@.take(i as int),
                self.next == old(self).next,
            decreases samples@.len() - i,
        {
            self.held.push_back(samples[i]);
            i += 1;
            assert(self.held@ =~= old(self).held@ + samples@.take(i as int));
        }
        assert(samples@.take(i as int) =~= samples@);
    }

    /// Takes `frames` stereo samples of silence.
    pub fn deliver_silence(&mut self, frames: usize)
        requires
            2 * frames <= usize::MAX,
        ensures
            final(self).held@ == old(self).held@ + Seq::new((2 * frames) as nat, |i: int| 0i16),
            final(self).next == old(self).next,
    {
        let mut i: usize = 0;
        assert(self.held@ =~= old(self).held@ + Seq::new(0, |k: int| 0i16));
        while i < 2 * frames
            invariant
                2 * frames <= usize::MAX,
                i <= 2 * frames,
                self.held@ == old(self).held@ + Seq::new(i as nat, |k: int| 0i16),
                self.next == old(self).next,
            decreases 2 * frames - i,
        {
            self.held.push_back(0);
            i += 1;
            assert(self.held@ =~= old(self).held@ + Seq::new(i as nat, |k: int| 0i16));
        }
    }

    /// Takes a packet of `frames` stereo samples. One without data or without samples adds nothing;
    /// one that is marked as silent is silence, whatever its samples are.
    pub fn accept(&mut self, has_data: bool, silent: bool, frames: usize, samples: &[i16])
        requires
            2 * frames <= usize::MAX,
        ensures
            final(self).held@ == old(self).held@ + taken_in(
                has_data,
                silent,
                frames as int,
                samples@,
            ),
            final(self).next == old(self).next,
    {
        if !has_data || frames == 0 {
            assert(self.held@ =~= old(self).held@ + Seq::<i16>::empty());
        } else if silent {
            self.deliver_silence(frames);
        } else {
            self.deliver(samples);
        }
    }

    fn take_frame(&mut self) -> (f: Vec<i16>)
        ensures
            f@ == padded(old(self).held@, FRAME_SAMPLES as int),
            final(self).held@ == left_after(old(self).held@, FRAME_SAMPLES as int),
            final(self).next == old(self).next,
    {
        let mut f: Vec<i16> = Vec::new();
        let ghost held = self.held@;
        assert(f@ =~= padded(held, 0));
        assert(self.held@ =~= left_after(held, 0));
        while f.len() < FRAME_SAMPLES
            invariant
                f@.len() <= FRAME_SAMPLES,
                f@ == padded(held, f@.len() as int),
                self.held@ == left_after(held, f@.len() as int),
                self.next == old(self).next,
            decreases FRAME_SAMPLES - f@.len(),
        {
            let ghost n = f@.len() as int;
            let s: i16 = match self.held.pop_front() {
                Some(v) => v,
                None => 0,
            };
            f.push(s);
            assert(f@ =~= padded(held, n + 1));
            assert(self.held@ =~= left_after(held, n + 1));
        }
        f
    }

    /// The frames that are due by `now`. A source that fell far behind starts over instead of
    /// sending a burst, and one that runs ahead loses its oldest samples.
    pub fn emit(&mut self, now: u64) -> (frames: Vec<Vec<i16>>)
        requires
            old(self).next <= u64::MAX - STALL_RESET_NS,
            now <= u64::MAX - FRAME_NS,
        ensures
            paced(
                old(self).held@,
                old(self).next,
                now,
                frames@,
                final(self).held@,
                final(self).next,
            ),
    {
        let ghost held = self.held@;
        if now > self.next + STALL_RESET_NS {
            self.next = now;
        }
        let ghost first = self.next;
        let mut frames: Vec<Vec<i16>> = Vec::new();
        assert(flat(frames@) =~= padded(held, 0));
        assert(left_after(held, 0) =~= held);
        while now >= self.next
            invariant
                now <= u64::MAX - FRAME_NS,
                first == due(old(self).next, now),
                self.next == first + FRAME_NS * frames@.len(),
                frames@.len() > 0 ==> now >= first + FRAME_NS * (frames@.len() - 1),
                self.held@ == left_after(held, FRAME_SAMPLES * frames@.len()),
                flat(frames@) == padded(held, FRAME_SAMPLES * frames@.len()),
                forall|i: int|
                    0 <= i < frames@.len() ==> (#[trigger] frames@[i])@.len() == FRAME_SAMPLES,
            decreases now + FRAME_NS - self.next,
        {
            let ghost k = frames@.len() as int;
            let ghost earlier = frames@;
            let ghost here = self.held@;
            let f = self.take_frame();
            let ghost bytes = f@;
            frames.push(f);
            self.next = self.next + FRAME_NS;
            proof {
                assert(frames@.drop_last() =~= earlier);
                assert(flat(frames@) =~= flat(earlier) + bytes);
                assert(flat(frames@) =~= padded(held, FRAME_SAMPLES * (k + 1)));
                assert(self.held@ =~= left_after(held, FRAME_SAMPLES * (k + 1)));
            }
        }
        proof {
            let n = frames@.len() as int;
            assert(n == frames_due(old(self).next, now)) by {
                if n > 0 {
                    assert((now - first) / (FRAME_NS as int) == n - 1) by (nonlinear_arith)
                        requires
                            FRAME_NS as int * (n - 1) <= now - first < FRAME_NS as int * n,
                    ;
                }
            }
        }
        let ghost rest = self.held@;
        while self.held.len() > MAX_HELD
            invariant
                newest(rest) == newest(self.held@),
                self.next == first + FRAME_NS * frames@.len(),
            decreases self.held@.len(),
        {
            let ghost more = self.held@;
            let _ = self.held.pop_front();
            assert(newest(more) =~= newest(self.held@));
        }
        frames
    }
}

/// A paced source sends frames at the rate of the clock: if it is asked again before it stalls, the
/// frames of both times together are as many as are due in all.
pub proof fn law_frames_keep_the_clock(next: u64, now: u64, later: u64)
    requires
        next <= u64::MAX - STALL_RESET_NS - FRAME_NS,
        next <= now <= later <= next + STALL_RESET_NS,
    ensures
        frames_due(next, now) + frames_due((next + FRAME_NS * frames_due(next, now)) as u64, later)
            == frames_due(next, later),
{
    let k = frames_due(next, now);
    let mid = next + FRAME_NS * k;
    assert(k == (now - next) / FRAME_NS as int + 1);
    assert(mid > now);
    if later >= mid {
        assert((later - mid) / (FRAME_NS as int) == (later - next) / (FRAME_NS as int) - k)
            by (nonlinear_arith)
            requires
                mid == next + FRAME_NS * k,
                FRAME_NS == 20_000_000,
        ;
    } else {
        assert((later - next) / (FRAME_NS as int) == k - 1) by (nonlinear_arith)
            requires
                FRAME_NS == 20_000_000,
                k == (now - next) / FRAME_NS as int + 1,
                now <= later < next + FRAME_NS * k,
        ;
    }
}

/// A paced source never holds back more than four frames, and what it holds is the newest.
pub proof fn law_latency_is_bounded(held: Seq<i16>)
    ensures
        newest(held).len() <= MAX_HELD,
        newest(held).is_suffix_of(held),
{
    if held.len() > MAX_HELD {
        assert(held.subrange(held.len() - MAX_HELD, held.len() as int) =~= newest(held));
    } else {
        assert(held.subrange(0, held.len() as int) =~= held);
    }
}

/// What came of starting the capture of a process.
pub enum CaptureStart {
    /// It runs.
    Running,
    /// It failed, for this reason.
    Failed(String),
    /// It has not answered.
    Silent,
}

/// Whether the capture of a process runs, or what is said where it does not.
pub fn capture_started(s: &CaptureStart) -> (r: Result<(), String>)
    ensures
        match r {
            Ok(_) => *s is Running,
            Err(e) => match *s {
                CaptureStart::Running => false,
                CaptureStart::Failed(why) => e@ == "process-loopback capture failed: "@ + why@,
                CaptureStart::Silent => e@ == "process-loopback capture init timed out"@,
            },
        },
{
    match s {
        CaptureStart::Running => Ok(()),
        CaptureStart::Failed(why) => {
            let mut e = "process-loopback capture failed: ".to_string();
            e.append(why.as_str());
            Err(e)
        },
        CaptureStart::Silent => Err("process-loopback capture init timed out".to_string()),
    }
}

/// Decoding keeps every sample in its place: the two bytes at twice the place, the lower one first,
/// are the sample in two's complement.
pub proof fn law_decoding_keeps_the_samples(out: Seq<i16>, b: Seq<u8>, i: int)
    requires
        is_decoded(out, b),
        0 <= i,
        2 * i + 1 < b.len(),
    ensures
        i < out.len(),
        (out[i] as int) % 256 == b[2 * i],
        (out[i] as int) / 256 == (if b[2 * i + 1] >= 0x80 {
            b[2 * i + 1] - 256
        } else {
            b[2 * i + 1] as int
        }),
{
    assert(out[i] == sample_of(b[2 * i], b[2 * i + 1]));
}

/// The loudness of a sample does not depend on its sign.
pub proof fn law_loudness_has_no_sign(a: i16, b: i16)
    ensures
        magnitude(a) >= a,
        magnitude(a) >= -a,
        a + b == 0 ==> magnitude(a) == magnitude(b),
        magnitude(a) == a || magnitude(a) == -a,
{
}

/// Every hundredth frame reports the loudest sample since the last report, and forgets it; no other
/// frame reports, and none is left uncounted.
pub proof fn law_level_is_told_every_hundredth(m: LevelMeter, after: LevelMeter, r: Option<(u64, i32)>)
    requires
        level_step(m, after, r),
    ensures
        after.frames == m.frames + 1,
        r is Some <==> after.frames % 100 == 0,
        r matches Some(told) ==> told.0 == after.frames && told.1 == m.peak && after.peak == 0,
        r is None ==> after.peak == m.peak,
{
}

proof fn lemma_flat_place(frames: Seq<Vec<i16>>, k: int, j: int)
    requires
        0 <= k < frames.len(),
        0 <= j < 1920,
        forall|i: int| 0 <= i < frames.len() ==> (#[trigger] frames[i])@.len() == 1920,
    ensures
        flat(frames).len() == 1920 * frames.len(),
        flat(frames)[1920 * k + j] == frames[k]@[j],
    decreases frames.len(),
{
    let rest = frames.drop_last();
    assert(forall|i: int| 0 <= i < rest.len() ==> (#[trigger] rest[i]) == frames[i]);
    if rest.len() == 0 {
        assert(flat(rest).len() == 0);
    } else if k < rest.len() {
        lemma_flat_place(rest, k, j);
    } else {
        lemma_flat_place(rest, 0, 0);
    }
}

/// Cutting into frames keeps every sample and their order: sample `j` of frame `k` is the one that
/// came in `1920 * k + j` places behind the first pending one, and what is pending now came last.
pub proof fn law_frames_keep_the_order(
    pending: Seq<i16>,
    samples: Seq<i16>,
    frames: Seq<Vec<i16>>,
    after: Seq<i16>,
    k: int,
    j: int,
)
    requires
        reblocked(pending, samples, frames, after),
        0 <= k < frames.len(),
        0 <= j < 1920,
    ensures
        frames[k]@.len() == 1920,
        1920 * frames.len() + after.len() == pending.len() + samples.len(),
        1920 * k + j < pending.len() ==> frames[k]@[j] == pending[1920 * k + j],
        1920 * k + j >= pending.len() ==> frames[k]@[j] == samples[1920 * k + j - pending.len()],
{
    lemma_flat_place(frames, k, j);
    let all = flat(frames) + after;
    let both = pending + samples;
    assert(all == both);
    assert(all.len() == 1920 * frames.len() + after.len());
    assert(both.len() == pending.len() + samples.len());
    let at = 1920 * k + j;
    assert(0 <= at < flat(frames).len());
    assert(all[at] == flat(frames)[at]);
    assert(both[at] == if at < pending.len() {
        pending[at]
    } else {
        samples[at - pending.len()]
    });
}

/// A frame goes out for every 20 ms that went by, and none early: when the pacer was last asked no
/// later than a fifth of a second after the next frame was due, the frame that is due next lies
/// ahead of the clock by at most one frame, and the due times stay on the same grid.
pub proof fn law_pacing_follows_the_clock(
    held: Seq<i16>,
    next: u64,
    now: u64,
    frames: Seq<Vec<i16>>,
    held_after: Seq<i16>,
    next_after: u64,
)
    requires
        paced(held, next, now, frames, held_after, next_after),
        now <= next + 200_000_000,
    ensures
        next_after == next + 20_000_000 * frames.len(),
        next_after > now,
        frames.len() > 0 <==> now >= next,
        frames.len() > 0 ==> next_after - 20_000_000 <= now,
{
}

/// A source that stalled for more than a fifth of a second does not send a burst: one frame goes out,
/// and the grid starts over from now.
pub proof fn law_stall_is_forgiven(
    held: Seq<i16>,
    next: u64,
    now: u64,
    frames: Seq<Vec<i16>>,
    held_after: Seq<i16>,
    next_after: u64,
)
    requires
        paced(held, next, now, frames, held_after, next_after),
        now > next + 200_000_000,
    ensures
        frames.len() == 1,
        next_after == now + 20_000_000,
{
}

/// What goes out is what was held, oldest first, and silence once that is used up.
pub proof fn law_pacing_keeps_the_order(
    held: Seq<i16>,
    next: u64,
    now: u64,
    frames: Seq<Vec<i16>>,
    held_after: Seq<i16>,
    next_after: u64,
    k: int,
    j: int,
)
    requires
        paced(held, next, now, frames, held_after, next_after),
        0 <= k < frames.len(),
        0 <= j < 1920,
    ensures
        frames[k]@.len() == 1920,
        1920 * k + j < held.len() ==> frames[k]@[j] == held[1920 * k + j],
        1920 * k + j >= held.len() ==> frames[k]@[j] == 0,
{
    lemma_flat_place(frames, k, j);
    let at = 1920 * k + j;
    let sent = padded(held, (FRAME_SAMPLES * frames.len()) as int);
    assert(0 <= at < sent.len());
    assert(flat(frames)[at] == sent[at]);
}

/// What a pacer holds on to is the newest of what was not sent, at most four frames of it.
pub proof fn law_pacing_holds_the_newest(
    held: Seq<i16>,
    next: u64,
    now: u64,
    frames: Seq<Vec<i16>>,
    held_after: Seq<i16>,
    next_after: u64,
)
    requires
        paced(held, next, now, frames, held_after, next_after),
    ensures
        held.len() <= 1920 * frames.len() ==> held_after.len() == 0,
        1920 * frames.len() <= held.len() <= 1920 * frames.len() + 7680 ==> held_after.len()
            == held.len() - 1920 * frames.len(),
        held.len() > 1920 * frames.len() + 7680 ==> held_after.len() == 7680,
        held_after == held.subrange(held.len() - held_after.len(), held.len() as int),
{
    let n = (FRAME_SAMPLES * frames.len()) as int;
    assert(n == 1920 * frames.len());
    let rest = left_after(held, n);
    assert(held_after == newest(rest));
    assert(held_after =~= held.subrange(held.len() - held_after.len(), held.len() as int));
}

/// A packet without data, or without samples, adds nothing; a silent one adds as much silence as it
/// is long, whatever it holds, and any other one adds what it holds.
pub proof fn law_packets_are_taken_in(has_data: bool, silent: bool, frames: int, samples: Seq<i16>)
    requires
        frames >= 0,
    ensures
        !has_data || frames == 0 ==> taken_in(has_data, silent, frames, samples).len() == 0,
        has_data && frames > 0 && !silent ==> taken_in(has_data, silent, frames, samples) == samples,
        has_data && silent ==> taken_in(has_data, silent, frames, samples).len() == 2 * frames,
        silent ==> forall|i: int|
            0 <= i < taken_in(has_data, silent, frames, samples).len() ==> #[trigger] taken_in(
                has_data,
                silent,
                frames,
                samples,
            )[i] == 0,
{
}

} // verus!
