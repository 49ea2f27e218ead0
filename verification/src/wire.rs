//! The binary messages between the server and its web clients.
//!
//! Every message starts with one tag byte. Integers are little-endian except in the clock reply
//! and in media frames, whose timestamps are big-endian.

use crate::text;
use vstd::prelude::*;

verus! {

/// Client to server: a clock request.
pub const MSG_CLOCK_REQ: u8 = 0x10;

/// Server to client: the clock reply.
pub const MSG_CLOCK_RSP: u8 = 0x11;

/// Server to client: set the server-controlled volume, the bits of a single-precision gain.
pub const MSG_SET_VOLUME: u8 = 0x20;

/// Client to server: identify with a stable id and a display name.
pub const MSG_HELLO: u8 = 0x21;

/// Both ways: calibration orchestration; the byte behind the tag is a sub-type.
pub const MSG_CALIB_CTRL: u8 = 0x22;

/// Sub-type of a role assignment, server to client.
pub const CALIB_SUB_ROLE: u8 = 1;

/// Sub-type of a progress report, client to server.
pub const CALIB_SUB_STATUS: u8 = 2;

/// Role of a client that takes no part in a calibration.
pub const CALIB_ROLE_IDLE: u8 = 0;

/// Role of the client that emits the calibration code.
pub const CALIB_ROLE_REFERENCE: u8 = 1;

/// Role of a client that listens and aligns.
pub const CALIB_ROLE_FOLLOWER: u8 = 2;

/// Server to client: set the server-controlled sync offset.
pub const MSG_SET_TRIM: u8 = 0x23;

/// Client to server: the sync offset that the client really applies.
pub const MSG_CLIENT_SYNC: u8 = 0x24;

/// Client to server: one Opus packet of a cast.
pub const MSG_UP_AUDIO: u8 = 0x30;

/// Client to server: one H.264 access unit of a cast.
pub const MSG_UP_VIDEO: u8 = 0x31;

/// Client to server: claim the caster slot.
pub const MSG_CAST_REQUEST: u8 = 0x32;

/// Server to client: the claim is granted or denied.
pub const MSG_CAST_GRANT: u8 = 0x33;

/// Both ways: the cast stops.
pub const MSG_CAST_STOP: u8 = 0x34;

/// Tag of an audio frame sent to listeners.
pub const FRAME_AUDIO: u8 = 0x01;

/// Tag of a video frame sent to listeners.
pub const FRAME_VIDEO: u8 = 0x02;

/// The `len` lowest bytes of `n`, least significant first.
pub open spec fn le_bytes(n: nat, len: nat) -> Seq<u8>
    decreases len,
{
    if len == 0 {
        Seq::empty()
    } else {
        seq![(n % 256) as u8] + le_bytes(n / 256, (len - 1) as nat)
    }
}

/// The number that little-endian bytes stand for.
pub open spec fn le_value(b: Seq<u8>) -> nat
    decreases b.len(),
{
    if b.len() == 0 {
        0
    } else {
        b[0] as nat + 256 * le_value(b.skip(1))
    }
}

/// The `len` lowest bytes of `n`, most significant first.
pub open spec fn be_bytes(n: nat, len: nat) -> Seq<u8>
    decreases len,
{
    if len == 0 {
        Seq::empty()
    } else {
        be_bytes(n / 256, (len - 1) as nat).push((n % 256) as u8)
    }
}

/// The number that big-endian bytes stand for.
pub open spec fn be_value(b: Seq<u8>) -> nat
    decreases b.len(),
{
    if b.len() == 0 {
        0
    } else {
        256 * be_value(b.drop_last()) + b.last() as nat
    }
}

/// The two's complement of a 32-bit integer.
pub open spec fn bits32(i: i32) -> nat {
    if i < 0 {
        (i + 0x1_0000_0000) as nat
    } else {
        i as nat
    }
}

/// The 32-bit integer whose two's complement is `n`.
pub open spec fn from_bits32(n: nat) -> int {
    if n >= 0x8000_0000 {
        n - 0x1_0000_0000
    } else {
        n as int
    }
}

/// The two's complement of a 64-bit integer.
pub open spec fn bits64(i: i64) -> nat {
    if i < 0 {
        (i + 0x1_0000_0000_0000_0000) as nat
    } else {
        i as nat
    }
}

/// The 64-bit integer whose two's complement is `n`.
pub open spec fn from_bits64(n: nat) -> int {
    if n >= 0x8000_0000_0000_0000 {
        n - 0x1_0000_0000_0000_0000
    } else {
        n as int
    }
}

/// `256` to the power of `len`.
pub open spec fn byte_range(len: nat) -> nat
    decreases len,
{
    if len == 0 {
        1
    } else {
        256 * byte_range((len - 1) as nat)
    }
}

/// Little-endian bytes give back the number they were made from.
pub proof fn law_le_round_trip(n: nat, len: nat)
    requires
        n < byte_range(len),
    ensures
        le_bytes(n, len).len() == len,
        le_value(le_bytes(n, len)) == n,
    decreases len,
{
    if len > 0 {
        let rest = le_bytes(n / 256, (len - 1) as nat);
        assert(n / 256 < byte_range((len - 1) as nat));
        law_le_round_trip(n / 256, (len - 1) as nat);
        assert((seq![(n % 256) as u8] + rest).skip(1) =~= rest);
    }
}

/// Big-endian bytes give back the number they were made from.
pub proof fn law_be_round_trip(n: nat, len: nat)
    requires
        n < byte_range(len),
    ensures
        be_bytes(n, len).len() == len,
        be_value(be_bytes(n, len)) == n,
    decreases len,
{
    if len > 0 {
        let rest = be_bytes(n / 256, (len - 1) as nat);
        assert(n / 256 < byte_range((len - 1) as nat));
        law_be_round_trip(n / 256, (len - 1) as nat);
        assert(rest.push((n % 256) as u8).drop_last() =~= rest);
    }
}

proof fn lemma_byte_range()
    ensures
        byte_range(2) == 0x1_0000,
        byte_range(4) == 0x1_0000_0000,
        byte_range(8) == 0x1_0000_0000_0000_0000,
{
    reveal_with_fuel(byte_range, 9);
}

/// Appends the `len` lowest bytes of `n`, least significant first.
pub fn append_le(v: &mut Vec<u8>, n: u64, len: u8)
    ensures
        final(v)@ == old(v)@ + le_bytes(n as nat, len as nat),
    decreases len,
{
    if len > 0 {
        let ghost start = v@;
        v.push((n % 256) as u8);
        append_le(v, n / 256, len - 1);
        assert(v@ =~= start + le_bytes(n as nat, len as nat));
    } else {
        assert(v@ =~= v@ + le_bytes(n as nat, len as nat));
    }
}

/// Appends the `len` lowest bytes of `n`, most significant first.
pub fn append_be(v: &mut Vec<u8>, n: u64, len: u8)
    ensures
        final(v)@ == old(v)@ + be_bytes(n as nat, len as nat),
    decreases len,
{
    if len > 0 {
        append_be(v, n / 256, len - 1);
        v.push((n % 256) as u8);
    }
    assert(v@ =~= old(v)@ + be_bytes(n as nat, len as nat));
}

/// The little-endian 32-bit number at `at`.
pub fn read_le32(b: &[u8], at: usize) -> (n: u32)
    requires
        at + 4 <= b@.len(),
    ensures
        n == le_value(b@.subrange(at as int, at + 4)),
{
    proof {
        let s = b@.subrange(at as int, at + 4);
        assert(s.skip(1) =~= b@.subrange(at + 1, at + 4));
        assert(s.skip(1).skip(1) =~= b@.subrange(at + 2, at + 4));
        assert(s.skip(1).skip(1).skip(1) =~= b@.subrange(at + 3, at + 4));
        assert(s.skip(1).skip(1).skip(1).skip(1) =~= Seq::<u8>::empty());
        reveal_with_fuel(le_value, 5);
    }
    b[at] as u32 + 256 * (b[at + 1] as u32) + 65536 * (b[at + 2] as u32) + 16777216 * (b[at
        + 3] as u32)
}

/// The two's complement of `i`.
pub fn to_bits32(i: i32) -> (n: u32)
    ensures
        n == bits32(i),
{
    if i < 0 {
        (i as i64 + 0x1_0000_0000) as u32
    } else {
        i as u32
    }
}

/// The 32-bit integer whose two's complement is `n`.
pub fn int_of_bits32(n: u32) -> (i: i32)
    ensures
        i == from_bits32(n as nat),
{
    if n >= 0x8000_0000 {
        (n as i64 - 0x1_0000_0000) as i32
    } else {
        n as i32
    }
}

/// The two's complement of `i`.
pub fn to_bits64(i: i64) -> (n: u64)
    ensures
        n == bits64(i),
{
    if i < 0 {
        (i as i128 + 0x1_0000_0000_0000_0000) as u64
    } else {
        i as u64
    }
}

/// A volume message: the tag and the bits of the gain.
pub open spec fn volume_msg_bytes(gain_bits: u32) -> Seq<u8> {
    seq![MSG_SET_VOLUME] + le_bytes(gain_bits as nat, 4)
}

/// A sync offset message: the tag and the milliseconds.
pub open spec fn trim_msg_bytes(ms: i32) -> Seq<u8> {
    seq![MSG_SET_TRIM] + le_bytes(bits32(ms), 4)
}

/// The encode targets that a granted caster has to use.
#[derive(Clone, Copy, Debug, PartialEq, Eq, Structural)]
pub struct CastTargets {
    /// Whether the stream carries video.
    pub video_on: bool,
    /// Picture width in pixels.
    pub width: u16,
    /// Picture height in pixels.
    pub height: u16,
    /// Frames per second.
    pub fps: u8,
    /// Video bit rate in kbit/s.
    pub video_kbps: u32,
    /// Audio bit rate in bit/s.
    pub audio_bps: u32,
    /// Audio samples per second.
    pub sample_rate: u32,
    /// Audio channels.
    pub channels: u8,
}

/// `1` for true and `0` for false.
pub open spec fn flag_byte(b: bool) -> u8 {
    if b {
        1
    } else {
        0
    }
}

/// The encode targets as they stand in a grant.
pub open spec fn target_bytes(t: CastTargets) -> Seq<u8> {
    seq![flag_byte(t.video_on)] + le_bytes(t.width as nat, 2) + le_bytes(t.height as nat, 2)
        + seq![t.fps] + le_bytes(t.video_kbps as nat, 4) + le_bytes(t.audio_bps as nat, 4)
        + le_bytes(t.sample_rate as nat, 4) + seq![t.channels]
}

/// A grant: the tag, the verdict, and the targets or as many zero bytes.
pub open spec fn grant_msg_bytes(granted: bool, targets: Option<CastTargets>) -> Seq<u8> {
    match targets {
        Some(t) if granted => seq![MSG_CAST_GRANT, 1u8] + target_bytes(t),
        _ => seq![MSG_CAST_GRANT, flag_byte(granted)] + Seq::new(19, |i: int| 0u8),
    }
}

/// A role assignment: tag, sub-type, role, the two code seeds and the time slot.
pub open spec fn role_msg_bytes(role: u8, ref_seed: u32, self_seed: u32, slot: u8) -> Seq<u8> {
    seq![MSG_CALIB_CTRL, CALIB_SUB_ROLE, role] + le_bytes(ref_seed as nat, 4) + le_bytes(
        self_seed as nat,
        4,
    ) + seq![slot]
}

/// A clock reply: the tag, when the request was taken and when the reply was sent.
pub open spec fn clock_msg_bytes(t2: i64, t3: i64) -> Seq<u8> {
    seq![MSG_CLOCK_RSP] + be_bytes(bits64(t2), 8) + be_bytes(bits64(t3), 8)
}

/// An identification: the tag, the length of the id, the id and the name, both in UTF-8.
pub open spec fn hello_msg_bytes(id: Seq<char>, name: Seq<char>) -> Seq<u8> {
    let id_bytes = vstd::utf8::encode_utf8(id);
    seq![MSG_HELLO, id_bytes.len() as u8] + id_bytes + vstd::utf8::encode_utf8(name)
}

/// Builds a volume message from the bits of a single-precision gain.
pub fn set_volume_msg(gain_bits: u32) -> (m: Vec<u8>)
    ensures
        m@ == volume_msg_bytes(gain_bits),
{
    let mut m: Vec<u8> = Vec::with_capacity(5);
    m.push(MSG_SET_VOLUME);
    append_le(&mut m, gain_bits as u64, 4);
    assert(m@ =~= volume_msg_bytes(gain_bits));
    m
}

/// Builds a sync offset message.
pub fn set_trim_msg(ms: i32) -> (m: Vec<u8>)
    ensures
        m@ == trim_msg_bytes(ms),
{
    let mut m: Vec<u8> = Vec::with_capacity(5);
    m.push(MSG_SET_TRIM);
    append_le(&mut m, to_bits32(ms) as u64, 4);
    assert(m@ =~= trim_msg_bytes(ms));
    m
}

fn flag(b: bool) -> (r: u8)
    ensures
        r == flag_byte(b),
{
    if b {
        1
    } else {
        0
    }
}

/// Builds a grant. A granted caster gets the targets; a denied one as many zero bytes.
pub fn cast_grant_msg(grant: bool, targets: Option<&CastTargets>) -> (m: Vec<u8>)
    ensures
        m@ == grant_msg_bytes(
            grant,
            match targets {
                Some(t) => Some(*t),
                None => None,
            },
        ),
{
    let mut m: Vec<u8> = Vec::with_capacity(21);
    m.push(MSG_CAST_GRANT);
    m.push(flag(grant));
    let ghost head = m@;
    assert(head =~= seq![MSG_CAST_GRANT, flag_byte(grant)]);
    match targets {
        Some(t) if grant => {
            m.push(flag(t.video_on));
            append_le(&mut m, t.width as u64, 2);
            append_le(&mut m, t.height as u64, 2);
            m.push(t.fps);
            append_le(&mut m, t.video_kbps as u64, 4);
            append_le(&mut m, t.audio_bps as u64, 4);
            append_le(&mut m, t.sample_rate as u64, 4);
            m.push(t.channels);
            assert(m@ =~= head + target_bytes(*t));
        },
        _ => {
            let mut i: usize = 0;
            while i < 19
                invariant
                    i <= 19,
                    m@ == head + Seq::new(i as nat, |k: int| 0u8),
                decreases 19 - i,
            {
                m.push(0);
                i += 1;
                assert(m@ =~= head + Seq::new(i as nat, |k: int| 0u8));
            }
        },
    }
    m
}

/// Builds the message that ends a cast.
pub fn cast_stop_msg() -> (m: Vec<u8>)
    ensures
        m@ == seq![MSG_CAST_STOP],
{
    let mut m: Vec<u8> = Vec::new();
    m.push(MSG_CAST_STOP);
    assert(m@ =~= seq![MSG_CAST_STOP]);
    m
}

/// Builds a role assignment.
pub fn calib_role_msg(role: u8, ref_seed: u32, self_seed: u32, slot: u8) -> (m: Vec<u8>)
    ensures
        m@ == role_msg_bytes(role, ref_seed, self_seed, slot),
{
    let mut m: Vec<u8> = Vec::with_capacity(12);
    m.push(MSG_CALIB_CTRL);
    m.push(CALIB_SUB_ROLE);
    m.push(role);
    append_le(&mut m, ref_seed as u64, 4);
    append_le(&mut m, self_seed as u64, 4);
    m.push(slot);
    assert(m@ =~= role_msg_bytes(role, ref_seed, self_seed, slot));
    m
}

/// Builds the role assignment that takes a client out of a calibration.
pub fn calib_stop_msg() -> (m: Vec<u8>)
    ensures
        m@ == role_msg_bytes(CALIB_ROLE_IDLE, 0, 0, 0),
{
    calib_role_msg(CALIB_ROLE_IDLE, 0, 0, 0)
}

/// Builds a clock reply. `t2` is when the request was taken, `t3` when the reply leaves.
pub fn clock_reply_msg(t2: i64, t3: i64) -> (m: Vec<u8>)
    ensures
        m@ == clock_msg_bytes(t2, t3),
{
    let mut m: Vec<u8> = Vec::with_capacity(17);
    m.push(MSG_CLOCK_RSP);
    append_be(&mut m, to_bits64(t2), 8);
    append_be(&mut m, to_bits64(t3), 8);
    assert(m@ =~= clock_msg_bytes(t2, t3));
    m
}

/// Whether `b` is long enough for the id that it declares.
pub open spec fn hello_fits(b: Seq<u8>) -> bool {
    b.len() >= 2 && b.len() >= 2 + b[1]
}

/// The id bytes of an identification.
pub open spec fn hello_id(b: Seq<u8>) -> Seq<u8> {
    b.subrange(2, 2 + b[1] as int)
}

/// The name bytes of an identification.
pub open spec fn hello_name(b: Seq<u8>) -> Seq<u8> {
    b.subrange(2 + b[1] as int, b.len() as int)
}

/// Reads the stable id and the name out of an identification, or `None` if it is too short to hold
/// the id that it declares.
pub fn parse_hello(b: &[u8]) -> (r: Option<(String, String)>)
    ensures
        r is Some <==> hello_fits(b@),
        r matches Some(p) ==> p.0@ == text::lossy_text(hello_id(b@)) && p.1@ == text::lossy_text(
            hello_name(b@),
        ),
        r matches Some(p) ==> vstd::utf8::valid_utf8(hello_id(b@)) ==> p.0@
            == vstd::utf8::decode_utf8(hello_id(b@)),
        r matches Some(p) ==> vstd::utf8::valid_utf8(hello_name(b@)) ==> p.1@
            == vstd::utf8::decode_utf8(hello_name(b@)),
{
    if b.len() < 2 {
        return None;
    }
    let id_len: usize = b[1] as usize;
    if b.len() < 2 + id_len {
        return None;
    }
    let stable_id = text::from_utf8_lossy(vstd::slice::slice_subrange(b, 2, 2 + id_len));
    let name = text::from_utf8_lossy(vstd::slice::slice_subrange(b, 2 + id_len, b.len()));
    Some((stable_id, name))
}

/// What a client says in one binary message.
pub enum Incoming {
    /// It asks for the server's clock.
    ClockRequest,
    /// It reports how its calibration goes.
    CalibStatus(String),
    /// It reports the sync offset that it applies, in milliseconds.
    ClientSync(i32),
    /// It identifies itself.
    Hello(String, String),
    /// It claims the caster slot.
    CastRequest,
    /// It uploads an Opus packet, all bytes behind the tag.
    UpAudio,
    /// It uploads an H.264 access unit, all bytes behind the tag and the key flag.
    UpVideo,
    /// It stops casting.
    CastStop,
    /// Anything else, which is ignored.
    Other,
}

/// Whether the message has the tag `tag`.
pub open spec fn tagged(b: Seq<u8>, tag: u8) -> bool {
    b.len() > 0 && b[0] == tag
}

/// Whether the message reports calibration progress.
pub open spec fn is_calib_status(b: Seq<u8>) -> bool {
    tagged(b, MSG_CALIB_CTRL) && b.len() > 1 && b[1] == CALIB_SUB_STATUS
}

/// Whether the message reports a sync offset.
pub open spec fn is_client_sync(b: Seq<u8>) -> bool {
    tagged(b, MSG_CLIENT_SYNC) && b.len() >= 5
}

/// Whether the message identifies the client.
pub open spec fn is_hello(b: Seq<u8>) -> bool {
    tagged(b, MSG_HELLO) && hello_fits(b)
}

/// Whether the message uploads audio.
pub open spec fn is_up_audio(b: Seq<u8>) -> bool {
    tagged(b, MSG_UP_AUDIO) && b.len() > 1
}

/// Whether the message uploads video.
pub open spec fn is_up_video(b: Seq<u8>) -> bool {
    tagged(b, MSG_UP_VIDEO) && b.len() > 2
}

/// Whether the message is one that the server acts on.
pub open spec fn is_known(b: Seq<u8>) -> bool {
    ||| tagged(b, MSG_CLOCK_REQ)
    ||| is_calib_status(b)
    ||| is_client_sync(b)
    ||| is_hello(b)
    ||| tagged(b, MSG_CAST_REQUEST)
    ||| is_up_audio(b)
    ||| is_up_video(b)
    ||| tagged(b, MSG_CAST_STOP)
}

/// Whether `m` is what the message `b` says.
pub open spec fn says(b: Seq<u8>, m: Incoming) -> bool {
    match m {
        Incoming::ClockRequest => tagged(b, MSG_CLOCK_REQ),
        Incoming::CalibStatus(text) => is_calib_status(b) && text@ == text::lossy_text(b.skip(2)),
        Incoming::ClientSync(ms) => is_client_sync(b) && ms == from_bits32(
            le_value(b.subrange(1, 5)),
        ),
        Incoming::Hello(id, name) => is_hello(b) && id@ == text::lossy_text(hello_id(b)) && name@
            == text::lossy_text(hello_name(b)),
        Incoming::CastRequest => tagged(b, MSG_CAST_REQUEST),
        Incoming::UpAudio => is_up_audio(b),
        Incoming::UpVideo => is_up_video(b),
        Incoming::CastStop => tagged(b, MSG_CAST_STOP),
        Incoming::Other => !is_known(b),
    }
}

/// Reads one binary message of a client.
pub fn read_incoming(b: &[u8]) -> (m: Incoming)
    ensures
        says(b@, m),
{
    if b.len() == 0 {
        return Incoming::Other;
    }
    let tag: u8 = b[0];
    if tag == MSG_CLOCK_REQ {
        Incoming::ClockRequest
    } else if tag == MSG_CALIB_CTRL && b.len() > 1 && b[1] == CALIB_SUB_STATUS {
        assert(b@.subrange(2, b@.len() as int) =~= b@.skip(2));
        Incoming::CalibStatus(text::from_utf8_lossy(vstd::slice::slice_subrange(b, 2, b.len())))
    } else if tag == MSG_CLIENT_SYNC && b.len() >= 5 {
        Incoming::ClientSync(int_of_bits32(read_le32(b, 1)))
    } else if tag == MSG_HELLO {
        match parse_hello(b) {
            Some((stable_id, name)) => Incoming::Hello(stable_id, name),
            None => Incoming::Other,
        }
    } else if tag == MSG_CAST_REQUEST {
        Incoming::CastRequest
    } else if tag == MSG_UP_AUDIO && b.len() > 1 {
        Incoming::UpAudio
    } else if tag == MSG_UP_VIDEO && b.len() > 2 {
        Incoming::UpVideo
    } else if tag == MSG_CAST_STOP {
        Incoming::CastStop
    } else {
        Incoming::Other
    }
}

/// A message says only one thing: two readings of it are of the same kind and carry the same
/// numbers.
pub proof fn law_one_meaning(b: Seq<u8>, m: Incoming, n: Incoming)
    requires
        says(b, m),
        says(b, n),
    ensures
        m is ClockRequest == n is ClockRequest,
        m is CalibStatus == n is CalibStatus,
        m is ClientSync == n is ClientSync,
        m is Hello == n is Hello,
        m is CastRequest == n is CastRequest,
        m is UpAudio == n is UpAudio,
        m is UpVideo == n is UpVideo,
        m is CastStop == n is CastStop,
        m is Other == n is Other,
        m matches Incoming::ClientSync(x) ==> n matches Incoming::ClientSync(y) && x == y,
{
}

/// A client that reads a sync offset message finds the offset that the server put in.
pub proof fn law_trim_read_back(ms: i32)
    ensures
        trim_msg_bytes(ms).len() == 5,
        tagged(trim_msg_bytes(ms), MSG_SET_TRIM),
        from_bits32(le_value(trim_msg_bytes(ms).subrange(1, 5))) == ms,
{
    lemma_byte_range();
    law_le_round_trip(bits32(ms), 4);
    assert(trim_msg_bytes(ms).subrange(1, 5) =~= le_bytes(bits32(ms), 4));
}

/// A client that reads a volume message finds the bits of the gain.
pub proof fn law_volume_read_back(gain_bits: u32)
    ensures
        volume_msg_bytes(gain_bits).len() == 5,
        tagged(volume_msg_bytes(gain_bits), MSG_SET_VOLUME),
        le_value(volume_msg_bytes(gain_bits).subrange(1, 5)) == gain_bits,
{
    lemma_byte_range();
    law_le_round_trip(gain_bits as nat, 4);
    assert(volume_msg_bytes(gain_bits).subrange(1, 5) =~= le_bytes(gain_bits as nat, 4));
}

/// What the server hears of a client's sync offset is what the client reported.
pub proof fn law_client_sync_read_back(ms: i32, m: Incoming)
    requires
        says(seq![MSG_CLIENT_SYNC] + le_bytes(bits32(ms), 4), m),
    ensures
        m == Incoming::ClientSync(ms),
{
    lemma_byte_range();
    law_le_round_trip(bits32(ms), 4);
    let b = seq![MSG_CLIENT_SYNC] + le_bytes(bits32(ms), 4);
    assert(b.subrange(1, 5) =~= le_bytes(bits32(ms), 4));
}

/// A clock reply is 17 bytes and carries both times.
pub proof fn law_clock_read_back(t2: i64, t3: i64)
    ensures
        clock_msg_bytes(t2, t3).len() == 17,
        tagged(clock_msg_bytes(t2, t3), MSG_CLOCK_RSP),
        from_bits64(be_value(clock_msg_bytes(t2, t3).subrange(1, 9))) == t2,
        from_bits64(be_value(clock_msg_bytes(t2, t3).subrange(9, 17))) == t3,
{
    lemma_byte_range();
    law_be_round_trip(bits64(t2), 8);
    law_be_round_trip(bits64(t3), 8);
    assert(clock_msg_bytes(t2, t3).subrange(1, 9) =~= be_bytes(bits64(t2), 8));
    assert(clock_msg_bytes(t2, t3).subrange(9, 17) =~= be_bytes(bits64(t3), 8));
}

/// A grant is always 21 bytes, and a caster finds in it the targets of the server; a denial holds
/// nothing but zeros behind its tag.
pub proof fn law_grant_layout(granted: bool, targets: Option<CastTargets>)
    ensures
        grant_msg_bytes(granted, targets).len() == 21,
        tagged(grant_msg_bytes(granted, targets), MSG_CAST_GRANT),
        grant_msg_bytes(granted, targets)[1] == flag_byte(granted),
        !granted ==> forall|i: int|
            1 <= i < 21 ==> grant_msg_bytes(granted, targets)[i] == 0,
        granted ==> (targets matches Some(t) ==> {
            let m = grant_msg_bytes(granted, targets);
            &&& m[2] == flag_byte(t.video_on)
            &&& le_value(m.subrange(3, 5)) == t.width
            &&& le_value(m.subrange(5, 7)) == t.height
            &&& m[7] == t.fps
            &&& le_value(m.subrange(8, 12)) == t.video_kbps
            &&& le_value(m.subrange(12, 16)) == t.audio_bps
            &&& le_value(m.subrange(16, 20)) == t.sample_rate
            &&& m[20] == t.channels
        }),
{
    if granted {
        if let Some(t) = targets {
            lemma_byte_range();
            law_le_round_trip(t.width as nat, 2);
            law_le_round_trip(t.height as nat, 2);
            law_le_round_trip(t.video_kbps as nat, 4);
            law_le_round_trip(t.audio_bps as nat, 4);
            law_le_round_trip(t.sample_rate as nat, 4);
            let m = grant_msg_bytes(granted, targets);
            assert(m.subrange(3, 5) =~= le_bytes(t.width as nat, 2));
            assert(m.subrange(5, 7) =~= le_bytes(t.height as nat, 2));
            assert(m.subrange(8, 12) =~= le_bytes(t.video_kbps as nat, 4));
            assert(m.subrange(12, 16) =~= le_bytes(t.audio_bps as nat, 4));
            assert(m.subrange(16, 20) =~= le_bytes(t.sample_rate as nat, 4));
        }
    }
}

/// A role assignment is 12 bytes and carries the role, both seeds and the slot.
pub proof fn law_role_read_back(role: u8, ref_seed: u32, self_seed: u32, slot: u8)
    ensures
        ({
            let m = role_msg_bytes(role, ref_seed, self_seed, slot);
            &&& m.len() == 12
            &&& tagged(m, MSG_CALIB_CTRL)
            &&& m[1] == CALIB_SUB_ROLE
            &&& m[2] == role
            &&& le_value(m.subrange(3, 7)) == ref_seed
            &&& le_value(m.subrange(7, 11)) == self_seed
            &&& m[11] == slot
        }),
{
    lemma_byte_range();
    law_le_round_trip(ref_seed as nat, 4);
    law_le_round_trip(self_seed as nat, 4);
    let m = role_msg_bytes(role, ref_seed, self_seed, slot);
    assert(m.subrange(3, 7) =~= le_bytes(ref_seed as nat, 4));
    assert(m.subrange(7, 11) =~= le_bytes(self_seed as nat, 4));
}

/// The bytes that `parse_hello` finds in an identification are the id and the name that the client
/// put in, as long as the id takes no more than 255 bytes; both are valid UTF-8, so they are read
/// back exactly.
pub proof fn law_hello_read_back(id: Seq<char>, name: Seq<char>)
    requires
        vstd::utf8::encode_utf8(id).len() <= 255,
    ensures
        is_hello(hello_msg_bytes(id, name)),
        vstd::utf8::valid_utf8(hello_id(hello_msg_bytes(id, name))),
        vstd::utf8::decode_utf8(hello_id(hello_msg_bytes(id, name))) == id,
        vstd::utf8::valid_utf8(hello_name(hello_msg_bytes(id, name))),
        vstd::utf8::decode_utf8(hello_name(hello_msg_bytes(id, name))) == name,
{
    let b = hello_msg_bytes(id, name);
    assert(hello_id(b) =~= vstd::utf8::encode_utf8(id));
    assert(hello_name(b) =~= vstd::utf8::encode_utf8(name));
    vstd::utf8::encode_utf8_valid_utf8(id);
    vstd::utf8::encode_utf8_valid_utf8(name);
    vstd::utf8::encode_utf8_decode_utf8(id);
    vstd::utf8::encode_utf8_decode_utf8(name);
}

/// The lowest byte of a little-endian number stands first.
pub proof fn law_le_four(b: Seq<u8>)
    requires
        b.len() == 4,
    ensures
        le_value(b) == b[0] + 0x100 * b[1] + 0x1_0000 * b[2] + 0x100_0000 * b[3],
{
    reveal_with_fuel(le_value, 5);
}

/// The byte at place `i` of a little-endian number counts its `i`-th power of 256, and big-endian
/// bytes are the same ones in the opposite order.
pub proof fn law_byte_order(n: nat, len: nat, i: int)
    requires
        0 <= i < len,
    ensures
        le_bytes(n, len).len() == len,
        be_bytes(n, len).len() == len,
        le_bytes(n, len)[i] == n / byte_range(i as nat) % 256,
        be_bytes(n, len)[len - 1 - i] == le_bytes(n, len)[i],
    decreases len,
{
    lemma_byte_counts(n, len);
    lemma_range_positive(i as nat);
    if i > 0 {
        law_byte_order(n / 256, (len - 1) as nat, i - 1);
        lemma_range_positive((i - 1) as nat);
        vstd::arithmetic::div_mod::lemma_div_denominator(
            n as int,
            256,
            byte_range((i - 1) as nat) as int,
        );
    } else {
        assert(n / 1 == n);
    }
}

proof fn lemma_byte_counts(n: nat, len: nat)
    ensures
        le_bytes(n, len).len() == len,
        be_bytes(n, len).len() == len,
    decreases len,
{
    if len > 0 {
        lemma_byte_counts(n / 256, (len - 1) as nat);
    }
}

proof fn lemma_range_positive(len: nat)
    ensures
        byte_range(len) > 0,
    decreases len,
{
    if len > 0 {
        lemma_range_positive((len - 1) as nat);
    }
}

proof fn lemma_sign_byte(k: int, unit: int)
    requires
        0 < unit,
        0 <= k < 256 * unit,
    ensures
        0 <= k / unit < 256,
        k / unit >= 0x80 <==> k >= 0x80 * unit,
{
    vstd::arithmetic::div_mod::lemma_fundamental_div_mod(k, unit);
    vstd::arithmetic::div_mod::lemma_mod_bound(k, unit);
    let q = k / unit;
    assert(0 <= q < 256 && (q >= 0x80 <==> k >= 0x80 * unit)) by (nonlinear_arith)
        requires
            0 < unit,
            0 <= k < 256 * unit,
            k == unit * q + k % unit,
            0 <= k % unit < unit,
    ;
}

/// The highest bit of the highest byte tells negative numbers apart: the last byte in little-endian
/// order, the first in big-endian order. Numbers that are not negative stand as they are.
pub proof fn law_sign_is_in_the_highest_byte(i: i32, j: i64)
    ensures
        le_bytes(bits32(i), 4)[3] >= 0x80 <==> i < 0,
        be_bytes(bits64(j), 8)[0] >= 0x80 <==> j < 0,
        i >= 0 ==> bits32(i) == i,
        j >= 0 ==> bits64(j) == j,
        i < 0 ==> bits32(i) + (-i) == 0x1_0000_0000,
        j < 0 ==> bits64(j) + (-j) == 0x1_0000_0000_0000_0000,
{
    assert(byte_range(3) == 0x100_0000 && byte_range(7) == 0x100_0000_0000_0000) by {
        reveal_with_fuel(byte_range, 9);
    }
    law_byte_order(bits32(i), 4, 3);
    law_byte_order(bits64(j), 8, 7);
    lemma_sign_byte(bits32(i) as int, 0x100_0000);
    lemma_sign_byte(bits64(j) as int, 0x100_0000_0000_0000);
}

/// The tags and sizes of what the server sends.
pub proof fn law_layouts(
    gain_bits: u32,
    ms: i32,
    t2: i64,
    t3: i64,
    role: u8,
    ref_seed: u32,
    self_seed: u32,
    slot: u8,
    t: CastTargets,
)
    ensures
        volume_msg_bytes(gain_bits).len() == 5 && volume_msg_bytes(gain_bits)[0] == 0x20,
        forall|i: int|
            0 <= i < 4 ==> #[trigger] volume_msg_bytes(gain_bits)[1 + i] == le_bytes(
                gain_bits as nat,
                4,
            )[i],
        trim_msg_bytes(ms).len() == 5 && trim_msg_bytes(ms)[0] == 0x23,
        clock_msg_bytes(t2, t3).len() == 17 && clock_msg_bytes(t2, t3)[0] == 0x11,
        role_msg_bytes(role, ref_seed, self_seed, slot).len() == 12,
        role_msg_bytes(role, ref_seed, self_seed, slot).subrange(0, 3) == seq![0x22u8, 1u8, role],
        le_value(role_msg_bytes(role, ref_seed, self_seed, slot).subrange(3, 7)) == ref_seed,
        le_value(role_msg_bytes(role, ref_seed, self_seed, slot).subrange(7, 11)) == self_seed,
        role_msg_bytes(role, ref_seed, self_seed, slot)[11] == slot,
        grant_msg_bytes(true, Some(t)).len() == 21,
        grant_msg_bytes(true, Some(t)).subrange(0, 2) == seq![0x33u8, 1u8],
        grant_msg_bytes(false, Some(t)) == seq![0x33u8] + Seq::new(20, |i: int| 0u8),
        grant_msg_bytes(false, None) == grant_msg_bytes(false, Some(t)),
{
    lemma_byte_range();
    law_trim_read_back(ms);
    law_volume_read_back(gain_bits);
    law_clock_read_back(t2, t3);
    law_grant_layout(true, Some(t));
    law_le_round_trip(ref_seed as nat, 4);
    law_le_round_trip(self_seed as nat, 4);
    let r = role_msg_bytes(role, ref_seed, self_seed, slot);
    assert(r.subrange(3, 7) =~= le_bytes(ref_seed as nat, 4));
    assert(r.subrange(7, 11) =~= le_bytes(self_seed as nat, 4));
    assert(r.subrange(0, 3) =~= seq![0x22u8, 1u8, role]);
    assert(grant_msg_bytes(false, Some(t)) =~= seq![0x33u8] + Seq::new(20, |i: int| 0u8));
}

/// Each tag is heard as what it stands for, and a message whose tag is none of them as nothing.
pub proof fn law_tags_are_heard(b: Seq<u8>, m: Incoming)
    requires
        says(b, m),
    ensures
        m is ClockRequest <==> b.len() >= 1 && b[0] == 0x10,
        m is CalibStatus <==> b.len() >= 2 && b[0] == 0x22 && b[1] == 2,
        m is ClientSync <==> b.len() >= 5 && b[0] == 0x24,
        m is Hello <==> b.len() >= 2 && b[0] == 0x21 && b.len() >= 2 + b[1],
        m is CastRequest <==> b.len() >= 1 && b[0] == 0x32,
        m is UpAudio <==> b.len() >= 2 && b[0] == 0x30,
        m is UpVideo <==> b.len() >= 3 && b[0] == 0x31,
        m is CastStop <==> b.len() >= 1 && b[0] == 0x34,
{
}

} // verus!
