//! Encoded video: finding keyframes in H.264, HEVC, AV1 and VP9, and taking packets out of IVF.

use crate::text;
use crate::wire;
use vstd::prelude::*;

verus! {

/// Largest AV1 packet that is believed.
pub const MAX_AV1_PACKET_BYTES: u32 = 16_777_216;

/// Whether an Annex-B start code stands at `i` with a NAL header behind it.
pub open spec fn nal_at(au: Seq<u8>, i: int) -> bool {
    0 <= i && i + 3 < au.len() && au[i] == 0 && au[i + 1] == 0 && au[i + 2] == 1
}

/// Whether the access unit holds an H.264 IDR slice, NAL type 5.
pub open spec fn has_idr(au: Seq<u8>) -> bool {
    exists|i: int| #[trigger] nal_at(au, i) && au[i + 3] % 32 == 5
}

/// Whether the access unit holds an HEVC random access point, NAL types 16 to 23.
pub open spec fn has_irap(au: Seq<u8>) -> bool {
    exists|i: int| #[trigger] nal_at(au, i) && 16 <= (au[i + 3] / 2) % 64 <= 23
}

/// Whether an H.264 access unit holds an IDR slice.
pub fn annexb_has_h264_idr(au: &[u8]) -> (r: bool)
    ensures
        r == has_idr(au@),
{
    let mut i: usize = 0;
    while i < au.len() && au.len() - i > 3
        invariant
            i <= au@.len(),
            forall|k: int| 0 <= k < i && #[trigger] nal_at(au@, k) ==> au@[k + 3] % 32 != 5,
        decreases au@.len() - i,
    {
        if au[i] == 0 && au[i + 1] == 0 && au[i + 2] == 1 {
            assert(nal_at(au@, i as int));
            if au[i + 3] % 32 == 5 {
                return true;
            }
            assert(!nal_at(au@, i + 1));
            assert(!nal_at(au@, i + 2));
            i += 3;
        } else {
            assert(!nal_at(au@, i as int));
            i += 1;
        }
    }
    false
}

/// Whether an HEVC access unit holds a random access point.
pub fn annexb_has_hevc_irap(au: &[u8]) -> (r: bool)
    ensures
        r == has_irap(au@),
{
    let mut i: usize = 0;
    while i < au.len() && au.len() - i > 3
        invariant
            i <= au@.len(),
            forall|k: int|
                0 <= k < i && #[trigger] nal_at(au@, k) ==> !(16 <= (au@[k + 3] / 2) % 64 <= 23),
        decreases au@.len() - i,
    {
        if au[i] == 0 && au[i + 1] == 0 && au[i + 2] == 1 {
            assert(nal_at(au@, i as int));
            let t: u8 = (au[i + 3] / 2) % 64;
            if 16 <= t && t <= 23 {
                return true;
            }
            assert(!nal_at(au@, i + 1));
            assert(!nal_at(au@, i + 2));
            i += 3;
        } else {
            assert(!nal_at(au@, i as int));
            i += 1;
        }
    }
    false
}

/// The LEB128 number that starts at `i`, of which `k` bytes came before, and where it ends; `None`
/// if the bytes run out or a fifth byte still asks for more.
pub open spec fn leb128(au: Seq<u8>, i: int, k: nat) -> Option<(nat, int)>
    decreases 5 - k,
{
    if k >= 5 || i >= au.len() {
        None
    } else if au[i] < 128 {
        Some((au[i] as nat, i + 1))
    } else {
        match leb128(au, i + 1, k + 1) {
            Some((rest, end)) => Some(((au[i] - 128 + 128 * rest) as nat, end)),
            None => None,
        }
    }
}

/// Whether a sequence header is found from the OBU at `i` on. An OBU without a size ends the walk.
pub open spec fn sequence_header_from(au: Seq<u8>, i: int) -> bool
    decreases au.len() - i,
{
    if i < 0 || i >= au.len() {
        false
    } else {
        let kind = (au[i] / 8) % 16;
        let extended = (au[i] / 4) % 2 == 1;
        let sized = (au[i] / 2) % 2 == 1;
        let at = if extended {
            i + 2
        } else {
            i + 1
        };
        if !sized {
            kind == 1
        } else {
            match leb128(au, at, 0) {
                None => false,
                Some((size, end)) => {
                    proof {
                        lemma_leb128_end(au, at, 0);
                    }
                    kind == 1 || (end + size < au.len() && sequence_header_from(au, end + size))
                },
            }
        }
    }
}

/// A LEB128 number takes at least one byte, and at most as many as it may still have.
pub proof fn lemma_leb128_end(au: Seq<u8>, i: int, k: nat)
    ensures
        leb128(au, i, k) matches Some(p) ==> i < p.1 <= au.len() && p.1 <= i + 5 - k,
    decreases 5 - k,
{
    if k < 5 && i < au.len() && au[i] >= 128 {
        lemma_leb128_end(au, i + 1, k + 1);
    }
}

/// Reads the LEB128 number at `at`.
fn read_leb128(au: &[u8], at: usize) -> (r: Option<(u64, usize)>)
    requires
        at <= au@.len(),
    ensures
        match r {
            Some((size, end)) => leb128(au@, at as int, 0) == Some((size as nat, end as int)) && end
                <= au@.len(),
            None => leb128(au@, at as int, 0) is None,
        },
{
    let mut i: usize = at;
    let mut size: u64 = 0;
    let mut scale: u64 = 1;
    let mut k: u8 = 0;
    while k < 5
        invariant
            k <= 5,
            at <= i <= au@.len(),
            scale == (if k == 0 {
                1
            } else if k == 1 {
                128
            } else if k == 2 {
                16384
            } else if k == 3 {
                2097152
            } else if k == 4 {
                268435456
            } else {
                34359738368int
            }),
            size < scale,
            leb128(au@, at as int, 0) == (match leb128(au@, i as int, k as nat) {
                Some((rest, end)) => Some(((size + scale * rest) as nat, end)),
                None => None,
            }),
        decreases 5 - k,
    {
        if i >= au.len() {
            return None;
        }
        let byte: u8 = au[i];
        let low: u64 = (byte % 128) as u64;
        let ghost rest = leb128(au@, i + 1, (k + 1) as nat);
        assert(scale * low <= 34359738368 - scale) by (nonlinear_arith)
            requires
                low <= 127,
                1 <= scale <= 268435456,
        ;
        if byte < 128 {
            proof {
                lemma_leb128_end(au@, i as int, k as nat);
                assert(low == byte);
            }
            return Some((size + scale * low, i + 1));
        }
        proof {
            assert(low == byte - 128);
            if let Some((n, end)) = rest {
                assert(size + scale * (low + 128 * n) == (size + scale * low) + (scale * 128) * n)
                    by (nonlinear_arith);
            }
            assert(size + scale * low < scale * 128) by (nonlinear_arith)
                requires
                    size < scale,
                    low <= 127,
            ;
        }
        size = size + scale * low;
        scale = scale * 128;
        i += 1;
        k += 1;
    }
    None
}

/// Whether an AV1 temporal unit in low-overhead form carries a sequence header, as every keyframe
/// does.
pub fn obu_has_av1_keyframe(au: &[u8]) -> (r: bool)
    ensures
        r == sequence_header_from(au@, 0),
{
    let mut i: usize = 0;
    while i < au.len()
        invariant
            i <= au@.len(),
            sequence_header_from(au@, 0) == sequence_header_from(au@, i as int),
        decreases au@.len() - i,
    {
        let b: u8 = au[i];
        let kind: u8 = (b / 8) % 16;
        let extended = (b / 4) % 2 == 1;
        if (b / 2) % 2 != 1 {
            return kind == 1;
        }
        let mut at: usize = i + 1;
        if extended {
            if at >= au.len() {
                return false;
            }
            at += 1;
        }
        match read_leb128(au, at) {
            None => {
                return false;
            },
            Some((size, end)) => {
                if kind == 1 {
                    return true;
                }
                proof {
                    lemma_leb128_end(au@, at as int, 0);
                }
                if size >= (au.len() - end) as u64 {
                    return false;
                }
                i = end + size as usize;
            },
        }
    }
    false
}

/// Whether a VP9 frame starts with the frame marker, is no repeat of an earlier frame, and is of
/// the key type.
pub open spec fn vp9_key(frame: Seq<u8>) -> bool {
    frame.len() > 0 && frame[0] / 64 == 2 && (frame[0] / 8) % 2 == 0 && (frame[0] / 4) % 2 == 0
}

/// Whether a VP9 frame of profile 0 is a keyframe.
pub fn vp9_frame_is_keyframe(frame: &[u8]) -> (r: bool)
    ensures
        r == vp9_key(frame@),
{
    if frame.len() == 0 {
        return false;
    }
    let b: u8 = frame[0];
    if b / 64 != 2 {
        return false;
    }
    if (b / 8) % 2 == 1 {
        return false;
    }
    (b / 4) % 2 == 0
}

/// How video is encoded.
#[derive(Clone, Copy, Debug, PartialEq, Eq, Structural)]
pub enum BitstreamKind {
    /// H.264 in Annex-B form.
    H264,
    /// HEVC in Annex-B form.
    Hevc,
    /// AV1 in low-overhead form.
    Av1,
    /// Raw VP9 frames.
    Vp9,
}

/// Whether a decoder can start with this access unit.
pub open spec fn is_key(kind: BitstreamKind, au: Seq<u8>) -> bool {
    match kind {
        BitstreamKind::H264 => has_idr(au),
        BitstreamKind::Hevc => has_irap(au),
        BitstreamKind::Av1 => sequence_header_from(au, 0),
        BitstreamKind::Vp9 => vp9_key(au),
    }
}

/// Whether a decoder can start with this access unit.
pub fn is_keyframe(kind: BitstreamKind, au: &[u8]) -> (r: bool)
    ensures
        r == is_key(kind, au@),
{
    match kind {
        BitstreamKind::H264 => annexb_has_h264_idr(au),
        BitstreamKind::Hevc => annexb_has_hevc_irap(au),
        BitstreamKind::Av1 => obu_has_av1_keyframe(au),
        BitstreamKind::Vp9 => vp9_frame_is_keyframe(au),
    }
}

/// An access unit without a single byte is never a keyframe.
pub proof fn law_nothing_is_no_keyframe(kind: BitstreamKind)
    ensures
        !is_key(kind, Seq::empty()),
{
}

/// What follows an IDR slice does not hide it: an access unit stays a keyframe when bytes are put
/// behind it.
pub proof fn law_idr_stays_found(au: Seq<u8>, more: Seq<u8>)
    requires
        has_idr(au),
    ensures
        has_idr(au + more),
{
    let i = choose|i: int| #[trigger] nal_at(au, i) && au[i + 3] % 32 == 5;
    assert(nal_at(au + more, i));
}

/// How reading an IVF stream ended.
#[derive(Clone, Copy, Debug, PartialEq, Eq, Structural)]
pub enum IvfEnd {
    /// The stream ended where a packet header would begin.
    Clean,
    /// The stream ended in its header.
    HeaderCut,
    /// The stream is not IVF.
    NotIvf,
    /// A packet claims more bytes than is believed.
    TooLarge(u32),
    /// The stream ended in a packet.
    PacketCut,
}

/// Whether the header starts with the mark of IVF.
pub open spec fn ivf_mark(h: Seq<u8>) -> bool {
    h.len() >= 4 && h[0] == 0x44 && h[1] == 0x4b && h[2] == 0x49 && h[3] == 0x46
}

/// The length that the packet header at the front of `s` states.
pub open spec fn ivf_len(s: Seq<u8>) -> nat {
    wire::le_value(s.subrange(0, 4))
}

/// The packets behind the header, and how the stream ends.
pub open spec fn ivf_body(s: Seq<u8>) -> (Seq<Seq<u8>>, IvfEnd)
    decreases s.len(),
{
    if s.len() < 12 {
        (Seq::empty(), IvfEnd::Clean)
    } else if ivf_len(s) > MAX_AV1_PACKET_BYTES {
        (Seq::empty(), IvfEnd::TooLarge(ivf_len(s) as u32))
    } else if s.len() < 12 + ivf_len(s) {
        (Seq::empty(), IvfEnd::PacketCut)
    } else {
        let rest = ivf_body(s.skip(12 + ivf_len(s) as int));
        (seq![s.subrange(12, 12 + ivf_len(s) as int)] + rest.0, rest.1)
    }
}

/// The packets of an IVF stream, and how it ends.
pub open spec fn ivf_stream(s: Seq<u8>) -> (Seq<Seq<u8>>, IvfEnd) {
    if s.len() < 32 {
        (Seq::empty(), IvfEnd::HeaderCut)
    } else if !ivf_mark(s) {
        (Seq::empty(), IvfEnd::NotIvf)
    } else {
        ivf_body(s.skip(32))
    }
}

/// The bytes of packets.
pub open spec fn views(v: Seq<Vec<u8>>) -> Seq<Seq<u8>> {
    v.map_values(|p: Vec<u8>| p@)
}

/// What a reader of IVF asks for next.
#[derive(Clone, Copy, Debug, PartialEq, Eq, Structural)]
pub enum IvfStage {
    /// The stream's header.
    Header,
    /// A packet's header.
    PacketHeader,
    /// A packet of this many bytes.
    Packet(u32),
}

/// What the reader makes of the bytes that it asked for.
pub enum IvfStep {
    /// It needs more.
    More,
    /// A packet.
    Packet(Vec<u8>),
    /// It is done.
    End(IvfEnd),
}

/// How many bytes the reader asks for at a stage.
pub open spec fn stage_bytes(stage: IvfStage) -> nat {
    match stage {
        IvfStage::Header => 32,
        IvfStage::PacketHeader => 12,
        IvfStage::Packet(len) => len as nat,
    }
}

/// What is still to come of the stream at a stage.
pub open spec fn ivf_from(stage: IvfStage, s: Seq<u8>) -> (Seq<Seq<u8>>, IvfEnd) {
    match stage {
        IvfStage::Header => ivf_stream(s),
        IvfStage::PacketHeader => ivf_body(s),
        IvfStage::Packet(len) => if s.len() < len {
            (Seq::empty(), IvfEnd::PacketCut)
        } else {
            let rest = ivf_body(s.skip(len as int));
            (seq![s.subrange(0, len as int)] + rest.0, rest.1)
        },
    }
}

/// Takes packets out of an IVF stream that arrives piece by piece.
pub struct IvfReader {
    /// What is asked for next.
    pub stage: IvfStage,
}

impl IvfReader {
    /// A reader at the start of a stream.
    pub fn new() -> (r: IvfReader)
        ensures
            r.stage == IvfStage::Header,
    {
        IvfReader { stage: IvfStage::Header }
    }

    /// How many bytes to hand over next.
    pub fn wanted(&self) -> (n: usize)
        ensures
            n == stage_bytes(self.stage),
    {
        match self.stage {
            IvfStage::Header => 32,
            IvfStage::PacketHeader => 12,
            IvfStage::Packet(len) => len as usize,
        }
    }

    /// Takes as many bytes as were wanted. Whatever the stream goes on with, its packets and its end
    /// are those of the step and of the new stage.
    pub fn take(&mut self, b: &[u8]) -> (step: IvfStep)
        requires
            b@.len() == stage_bytes(old(self).stage),
        ensures
            old(self).stage is Packet ==> final(self).stage == IvfStage::PacketHeader,
            forall|rest: Seq<u8>|
                #![trigger ivf_from(old(self).stage, b@ + rest)]
                {
                    let whole = ivf_from(old(self).stage, b@ + rest);
                    match step {
                        IvfStep::More => whole == ivf_from(final(self).stage, rest),
                        IvfStep::Packet(p) => whole.0 == seq![p@] + ivf_from(
                            final(self).stage,
                            rest,
                        ).0 && whole.1 == ivf_from(final(self).stage, rest).1,
                        IvfStep::End(e) => whole.0 =~= Seq::empty() && whole.1 == e,
                    }
                },
    {
        match self.stage {
            IvfStage::Header => {
                assert forall|rest: Seq<u8>|
                    #![trigger b@ + rest]
                    (b@ + rest).skip(32) == rest && (b@ + rest).len() >= 32 && ivf_mark(b@ + rest)
                        == ivf_mark(b@) by {
                    assert((b@ + rest).skip(32) =~= rest);
                }
                if b[0] == 0x44 && b[1] == 0x4b && b[2] == 0x49 && b[3] == 0x46 {
                    self.stage = IvfStage::PacketHeader;
                    IvfStep::More
                } else {
                    IvfStep::End(IvfEnd::NotIvf)
                }
            },
            IvfStage::PacketHeader => {
                let len: u32 = wire::read_le32(b, 0);
                assert forall|rest: Seq<u8>|
                    #![trigger b@ + rest]
                    (b@ + rest).len() >= 12 && ivf_len(b@ + rest) == len && (len <= rest.len() ==> (b@
                        + rest).subrange(12, 12 + len) == rest.subrange(0, len as int) && (b@
                        + rest).skip(12 + len) == rest.skip(len as int)) by {
                    assert((b@ + rest).subrange(0, 4) =~= b@.subrange(0, 4));
                    if len <= rest.len() {
                        assert((b@ + rest).subrange(12, 12 + len) =~= rest.subrange(0, len as int));
                        assert((b@ + rest).skip(12 + len) =~= rest.skip(len as int));
                    }
                }
                if len > MAX_AV1_PACKET_BYTES {
                    IvfStep::End(IvfEnd::TooLarge(len))
                } else {
                    self.stage = IvfStage::Packet(len);
                    IvfStep::More
                }
            },
            IvfStage::Packet(len) => {
                assert forall|rest: Seq<u8>|
                    #![trigger b@ + rest]
                    (b@ + rest).subrange(0, len as int) == b@ && (b@ + rest).skip(len as int)
                        == rest by {
                    assert((b@ + rest).subrange(0, len as int) =~= b@);
                    assert((b@ + rest).skip(len as int) =~= rest);
                }
                let p = vstd::slice::slice_to_vec(b);
                self.stage = IvfStage::PacketHeader;
                IvfStep::Packet(p)
            },
        }
    }

    /// How the stream has ended, now that it ends with fewer bytes than were wanted.
    pub fn finish(&self, left: usize) -> (e: IvfEnd)
        requires
            left < stage_bytes(self.stage),
        ensures
            forall|s: Seq<u8>| s.len() == left ==> (#[trigger] ivf_from(self.stage, s)).1 == e
                && ivf_from(
                self.stage,
                s,
            ).0.len() == 0,
    {
        match self.stage {
            IvfStage::Header => IvfEnd::HeaderCut,
            IvfStage::PacketHeader => IvfEnd::Clean,
            IvfStage::Packet(_) => IvfEnd::PacketCut,
        }
    }
}

/// What is said when a read fails otherwise than at the end of the stream.
pub open spec fn read_failure(stage: IvfStage, cause: Seq<char>) -> Seq<char> {
    match stage {
        IvfStage::Header => "read IVF header: "@ + cause,
        IvfStage::PacketHeader => "read IVF packet header: "@ + cause,
        IvfStage::Packet(_) => "read IVF AV1 packet: "@ + cause,
    }
}

impl IvfReader {
    /// What to say now that a read has failed otherwise than at the end of the stream; `cause` is
    /// why. Between two packets, too, that is trouble.
    pub fn failed(&self, cause: &str) -> (s: String)
        ensures
            s@ == read_failure(self.stage, cause@),
    {
        let mut s = match self.stage {
            IvfStage::Header => String::from_str("read IVF header: "),
            IvfStage::PacketHeader => String::from_str("read IVF packet header: "),
            IvfStage::Packet(_) => String::from_str("read IVF AV1 packet: "),
        };
        s.append(cause);
        s
    }
}

/// The packets of a whole IVF stream, and how it ends.
pub fn read_ivf_packets(s: &[u8]) -> (r: (Vec<Vec<u8>>, IvfEnd))
    ensures
        views(r.0@) == ivf_stream(s@).0,
        r.1 == ivf_stream(s@).1,
{
    let mut packets: Vec<Vec<u8>> = Vec::new();
    let mut reader = IvfReader::new();
    let mut at: usize = 0;
    assert(s@.skip(0) =~= s@);
    assert(views(packets@) + ivf_stream(s@).0 =~= ivf_stream(s@).0);
    loop
        invariant
            at <= s@.len(),
            ivf_stream(s@).0 == views(packets@) + ivf_from(reader.stage, s@.skip(at as int)).0,
            ivf_stream(s@).1 == ivf_from(reader.stage, s@.skip(at as int)).1,
        decreases
                s@.len() - at,
                (if reader.stage is Packet {
                    1int
                } else {
                    0int
                }),
    {
        let n: usize = reader.wanted();
        if s.len() - at < n {
            let e = reader.finish(s.len() - at);
            assert(s@.skip(at as int).len() == s@.len() - at);
            assert(views(packets@) + ivf_from(reader.stage, s@.skip(at as int)).0 =~= views(
                packets@,
            ));
            return (packets, e);
        }
        let ghost stage = reader.stage;
        let ghost rest = s@.skip(at + n);
        let piece = vstd::slice::slice_subrange(s, at, at + n);
        assert(piece@ + rest =~= s@.skip(at as int));
        let step = reader.take(piece);
        assert(ivf_from(stage, piece@ + rest) == ivf_from(stage, s@.skip(at as int)));
        at += n;
        match step {
            IvfStep::More => {},
            IvfStep::Packet(p) => {
                let ghost before = views(packets@);
                let ghost bytes = p@;
                packets.push(p);
                assert(views(packets@) =~= before.push(bytes));
                assert(before + (seq![bytes] + ivf_from(reader.stage, rest).0) =~= views(packets@)
                    + ivf_from(reader.stage, rest).0);
            },
            IvfStep::End(e) => {
                assert(views(packets@) + Seq::<Seq<u8>>::empty() =~= views(packets@));
                return (packets, e);
            },
        }
    }
}

/// What is said of a stream that did not end well; `cause` is why the bytes ended.
pub open spec fn ivf_trouble(e: IvfEnd, cause: Seq<char>) -> Option<Seq<char>> {
    match e {
        IvfEnd::Clean => None,
        IvfEnd::HeaderCut => Some("read IVF header: "@ + cause),
        IvfEnd::NotIvf => Some("FFmpeg wrote a non-IVF stream"@),
        IvfEnd::TooLarge(len) => Some(
            "FFmpeg produced an implausibly large AV1 packet ("@ + text::decimal(len as nat)
                + " bytes)"@,
        ),
        IvfEnd::PacketCut => Some("read IVF AV1 packet: "@ + cause),
    }
}

impl IvfEnd {
    /// What to say of a stream that did not end well; `cause` is why the bytes ended.
    pub fn trouble(self, cause: &str) -> (r: Option<String>)
        ensures
            match r {
                Some(s) => ivf_trouble(self, cause@) == Some(s@),
                None => ivf_trouble(self, cause@) is None,
            },
    {
        match self {
            IvfEnd::Clean => None,
            IvfEnd::HeaderCut => {
                let mut s = String::from_str("read IVF header: ");
                s.append(cause);
                Some(s)
            },
            IvfEnd::NotIvf => Some(String::from_str("FFmpeg wrote a non-IVF stream")),
            IvfEnd::TooLarge(len) => {
                let mut s = String::from_str("FFmpeg produced an implausibly large AV1 packet (");
                text::append_decimal(&mut s, len as u64);
                s.append(" bytes)");
                Some(s)
            },
            IvfEnd::PacketCut => {
                let mut s = String::from_str("read IVF AV1 packet: ");
                s.append(cause);
                Some(s)
            },
        }
    }
}

/// Packets as they stand in an IVF stream, each behind its length and its time stamp.
pub open spec fn ivf_written(packets: Seq<Seq<u8>>, stamps: Seq<Seq<u8>>) -> Seq<u8>
    decreases packets.len(),
{
    if packets.len() == 0 {
        Seq::empty()
    } else {
        wire::le_bytes(packets[0].len(), 4) + stamps[0] + packets[0] + ivf_written(
            packets.skip(1),
            stamps.skip(1),
        )
    }
}

proof fn lemma_body_read_back(packets: Seq<Seq<u8>>, stamps: Seq<Seq<u8>>)
    requires
        stamps.len() == packets.len(),
        forall|i: int| 0 <= i < packets.len()
            ==> (#[trigger] packets[i]).len() <= MAX_AV1_PACKET_BYTES,
        forall|i: int| 0 <= i < stamps.len() ==> (#[trigger] stamps[i]).len() == 8,
    ensures
        ivf_body(ivf_written(packets, stamps)).0 == packets,
        ivf_body(ivf_written(packets, stamps)).1 == IvfEnd::Clean,
    decreases packets.len(),
{
    let s = ivf_written(packets, stamps);
    if packets.len() == 0 {
        assert(ivf_body(s).0 =~= packets);
    } else {
        let n = packets[0].len();
        let rest = ivf_written(packets.skip(1), stamps.skip(1));
        reveal_with_fuel(wire::byte_range, 5);
        wire::law_le_round_trip(n, 4);
        assert(s.subrange(0, 4) =~= wire::le_bytes(n, 4));
        assert(s.subrange(12, 12 + n as int) =~= packets[0]);
        assert(s.skip(12 + n as int) =~= rest);
        assert forall|i: int| 0 <= i < packets.skip(1).len() implies (#[trigger] packets.skip(
            1,
        )[i]).len() <= MAX_AV1_PACKET_BYTES by {
            assert(packets.skip(1)[i] == packets[i + 1]);
        }
        assert forall|i: int| 0 <= i < stamps.skip(1).len() implies (#[trigger] stamps.skip(
            1,
        )[i]).len() == 8 by {
            assert(stamps.skip(1)[i] == stamps[i + 1]);
        }
        lemma_body_read_back(packets.skip(1), stamps.skip(1));
        assert(seq![packets[0]] + packets.skip(1) =~= packets);
    }
}

/// The packets that were written into an IVF stream are read out of it, in their order and with
/// nothing lost, and the stream ends cleanly.
pub proof fn law_ivf_read_back(header: Seq<u8>, packets: Seq<Seq<u8>>, stamps: Seq<Seq<u8>>)
    requires
        header.len() == 32,
        ivf_mark(header),
        stamps.len() == packets.len(),
        forall|i: int| 0 <= i < packets.len()
            ==> (#[trigger] packets[i]).len() <= MAX_AV1_PACKET_BYTES,
        forall|i: int| 0 <= i < stamps.len() ==> (#[trigger] stamps[i]).len() == 8,
    ensures
        ivf_stream(header + ivf_written(packets, stamps)).0 == packets,
        ivf_stream(header + ivf_written(packets, stamps)).1 == IvfEnd::Clean,
{
    lemma_body_read_back(packets, stamps);
    assert((header + ivf_written(packets, stamps)).skip(32) =~= ivf_written(packets, stamps));
}

/// A slice that a decoder can start with is found wherever it stands: behind a start code, zero,
/// zero, one, a NAL header of type 5 makes an H.264 keyframe, and one of types 16 to 23 an HEVC
/// one.
pub proof fn law_key_slice_is_found_anywhere(front: Seq<u8>, header: u8, behind: Seq<u8>)
    ensures
        header % 32 == 5 ==> has_idr(front + seq![0u8, 0u8, 1u8, header] + behind),
        32 <= header % 128 < 48 ==> has_irap(front + seq![0u8, 0u8, 1u8, header] + behind),
{
    let au = front + seq![0u8, 0u8, 1u8, header] + behind;
    let n = front.len() as int;
    assert(au[n] == 0 && au[n + 1] == 0 && au[n + 2] == 1 && au[n + 3] == header);
    assert(nal_at(au, n));
}

/// Without such a slice there is no keyframe: where no start code has the right header behind it, the
/// access unit is none, whatever else is in it.
pub proof fn law_no_key_slice_no_keyframe(au: Seq<u8>)
    ensures
        (forall|i: int|
            0 <= i < au.len() - 3 && #[trigger] au[i] == 0 && au[i + 1] == 0 && au[i + 2] == 1
                ==> au[i
                + 3] % 32 != 5) ==> !has_idr(au),
        (forall|i: int|
            0 <= i < au.len() - 3 && #[trigger] au[i] == 0 && au[i + 1] == 0 && au[i + 2] == 1
                ==> !(32
                <= au[i + 3] % 128 < 48)) ==> !has_irap(au),
{
    if has_idr(au) {
        let i = choose|i: int| #[trigger] nal_at(au, i) && au[i + 3] % 32 == 5;
        assert(au[i] == 0 && au[i + 3] % 32 == 5);
    }
    if has_irap(au) {
        let i = choose|i: int| #[trigger] nal_at(au, i) && 16 <= (au[i + 3] / 2) % 64 <= 23;
        assert(au[i] == 0);
        let b = au[i + 3] as int;
        assert((b / 2) % 64 == (b % 128) / 2);
    }
}

/// A VP9 keyframe is told by its first byte alone: the two highest bits are one and zero, and the two
/// bits for a repeat and for a dependent frame are zero.
pub proof fn law_vp9_first_byte_decides(frame: Seq<u8>, other: Seq<u8>)
    ensures
        vp9_key(frame) <==> frame.len() > 0 && 0x80 <= frame[0] < 0xC0 && frame[0] % 16 < 4,
        frame.len() > 0 && other.len() > 0 && frame[0] == other[0] ==> vp9_key(frame) == vp9_key(
            other,
        ),
{
    let b = frame[0];
    assert((b / 64 == 2 && (b / 8) % 2 == 0 && (b / 4) % 2 == 0) == (0x80 <= b && b < 0xC0 && b % 16
        < 4)) by (bit_vector);
}

/// A LEB128 number has seven bits to a byte, the lowest first, and ends with the first byte that is
/// under 128; what stands behind it does not count.
pub proof fn law_leb128_groups(a: u8, b: u8, c: u8, behind: Seq<u8>)
    requires
        a < 128,
        b < 128,
        c < 128,
    ensures
        leb128(seq![a] + behind, 0, 0) == Some((a as nat, 1int)),
        leb128(seq![(a + 128) as u8, b] + behind, 0, 0) == Some(((a + 128 * b) as nat, 2int)),
        leb128(seq![(a + 128) as u8, (b + 128) as u8, c] + behind, 0, 0) == Some(
            ((a + 128 * b + 16384 * c) as nat, 3int),
        ),
        leb128(Seq::empty(), 0, 0) is None,
        leb128(seq![(a + 128) as u8], 0, 0) is None,
{
    reveal_with_fuel(leb128, 4);
    let one = seq![a] + behind;
    let two = seq![(a + 128) as u8, b] + behind;
    let three = seq![(a + 128) as u8, (b + 128) as u8, c] + behind;
    assert(one[0] == a);
    assert(two[0] == a + 128 && two[1] == b);
    assert(three[0] == a + 128 && three[1] == b + 128 && three[2] == c);
}

/// A LEB128 number takes at most five bytes.
pub proof fn law_leb128_is_short(au: Seq<u8>)
    requires
        au.len() >= 5,
        forall|i: int| 0 <= i < 5 ==> #[trigger] au[i] >= 128,
    ensures
        leb128(au, 0, 0) is None,
{
    reveal_with_fuel(leb128, 7);
    assert(au[0] >= 128 && au[1] >= 128 && au[2] >= 128 && au[3] >= 128 && au[4] >= 128);
}

proof fn lemma_leb128_shift(front: Seq<u8>, au: Seq<u8>, i: int, k: nat)
    requires
        0 <= i,
        k <= 5,
    ensures
        leb128(front + au, front.len() + i, k) == (match leb128(au, i, k) {
            Some((v, end)) => Some((v, front.len() + end)),
            None => None,
        }),
    decreases 5 - k,
{
    if k < 5 && i < au.len() {
        assert((front + au)[front.len() + i] == au[i]);
        if au[i] >= 128 {
            lemma_leb128_shift(front, au, i + 1, k + 1);
        }
    }
}

proof fn lemma_walk_shift(front: Seq<u8>, au: Seq<u8>, i: int)
    requires
        0 <= i,
    ensures
        sequence_header_from(front + au, front.len() + i) == sequence_header_from(au, i),
    decreases au.len() - i,
{
    if i < au.len() {
        assert((front + au)[front.len() + i] == au[i]);
        let at = if (au[i] / 4) % 2 == 1 {
            i + 2
        } else {
            i + 1
        };
        lemma_leb128_shift(front, au, at, 0);
        lemma_leb128_end(au, at, 0);
        lemma_leb128_end(front + au, front.len() + at, 0);
        if let Some((size, end)) = leb128(au, at, 0) {
            if end + size < au.len() {
                lemma_walk_shift(front, au, end + size);
            }
        }
    }
}

/// An OBU that is no sequence header is passed over by its size, whatever is in it: what decides is
/// what comes behind it.
pub proof fn law_other_obus_are_passed_over(header: u8, size: u8, payload: Seq<u8>, rest: Seq<u8>)
    requires
        (header / 8) % 16 != 1,
        (header / 4) % 2 == 0,
        (header / 2) % 2 == 1,
        size < 128,
        payload.len() == size,
    ensures
        sequence_header_from(seq![header, size] + payload + rest, 0) == sequence_header_from(rest, 0),
{
    let front = seq![header, size] + payload;
    let au = front + rest;
    assert(au[0] == header && au[1] == size);
    reveal_with_fuel(leb128, 2);
    assert(leb128(au, 1, 0) == Some((size as nat, 2int)));
    lemma_walk_shift(front, rest, 0);
    assert(front.len() == 2 + size);
}

/// A sequence header makes a temporal unit a keyframe, wherever in it it stands and whether or not it
/// states its size.
pub proof fn law_sequence_header_is_found(size: u8, payload: Seq<u8>, rest: Seq<u8>)
    requires
        size < 128,
    ensures
        sequence_header_from(seq![0x0au8, size] + payload + rest, 0),
        sequence_header_from(seq![0x12u8, 0x00u8] + (seq![0x0au8, size] + payload + rest), 0),
        sequence_header_from(seq![0x08u8] + payload, 0),
        !sequence_header_from(seq![0x30u8] + payload, 0),
        !sequence_header_from(Seq::empty(), 0),
{
    let au = seq![0x0au8, size] + payload + rest;
    assert(au[0] == 0x0a && au[1] == size);
    reveal_with_fuel(leb128, 2);
    assert(leb128(au, 1, 0) == Some((size as nat, 2int)));
    let bare = seq![0x08u8] + payload;
    assert(bare[0] == 0x08);
    let other = seq![0x30u8] + payload;
    assert(other[0] == 0x30);
    law_other_obus_are_passed_over(0x12, 0x00, Seq::empty(), au);
    assert(seq![0x12u8, 0x00u8] + Seq::<u8>::empty() + au =~= seq![0x12u8, 0x00u8] + au);
}

/// An IVF stream is known by its first four letters and has a header of 32 bytes; a stream that
/// ends in it, or that begins otherwise, has no packets.
pub proof fn law_ivf_is_known_by_its_mark(s: Seq<u8>)
    ensures
        s.len() < 32 ==> ivf_stream(s) == (Seq::<Seq<u8>>::empty(), IvfEnd::HeaderCut),
        s.len() >= 32 && !(s[0] == 0x44 && s[1] == 0x4b && s[2] == 0x49 && s[3] == 0x46)
            ==> ivf_stream(s) == (Seq::<Seq<u8>>::empty(), IvfEnd::NotIvf),
        s.len() == 32 && s[0] == 0x44 && s[1] == 0x4b && s[2] == 0x49 && s[3] == 0x46
            ==> ivf_stream(s)
            == (Seq::<Seq<u8>>::empty(), IvfEnd::Clean),
{
}

/// A packet of an IVF stream stands behind a header of twelve bytes that begins with its length,
/// lowest byte first. One that claims more than 16 MiB, or more than there is, ends the stream.
pub proof fn law_ivf_packet_layout(s: Seq<u8>)
    requires
        s.len() >= 12,
    ensures
        ({
            let n = s[0] + 0x100 * s[1] + 0x1_0000 * s[2] + 0x100_0000 * s[3];
            &&& n > 0x100_0000 ==> ivf_body(s) == (
                Seq::<Seq<u8>>::empty(),
                IvfEnd::TooLarge(n as u32),
            )
            &&& n <= 0x100_0000 && s.len() < 12 + n ==> ivf_body(s) == (
                Seq::<Seq<u8>>::empty(),
                IvfEnd::PacketCut,
            )
            &&& n <= 0x100_0000 && s.len() >= 12 + n ==> {
                &&& ivf_body(s).0.len() > 0
                &&& ivf_body(s).0[0] == s.subrange(12, 12 + n)
                &&& ivf_body(s).0.skip(1) == ivf_body(s.skip(12 + n)).0
                &&& ivf_body(s).1 == ivf_body(s.skip(12 + n)).1
            }
        }),
{
    wire::law_le_four(s.subrange(0, 4));
    let n = ivf_len(s) as int;
    if n <= 0x100_0000 && s.len() >= 12 + n {
        let rest = ivf_body(s.skip(12 + n));
        let all = seq![s.subrange(12, 12 + n)] + rest.0;
        assert(ivf_body(s).0 == all);
        assert(all.skip(1) =~= rest.0);
    }
}

/// Each codec has keyframes of its own kind: H.264 and HEVC by the slices in them, AV1 by a
/// sequence header at the front of the unit or behind others, and VP9 by its first byte.
pub proof fn law_keyframes_by_codec(front: Seq<u8>, behind: Seq<u8>, size: u8, b: u8)
    requires
        size < 128,
    ensures
        is_key(BitstreamKind::H264, front + seq![0u8, 0u8, 1u8, 0x65u8] + behind),
        is_key(BitstreamKind::Hevc, front + seq![0u8, 0u8, 1u8, 0x26u8] + behind),
        is_key(BitstreamKind::Av1, seq![0x0au8, size] + front + behind),
        !is_key(BitstreamKind::Av1, seq![0x0au8]),
        is_key(BitstreamKind::Vp9, seq![b] + behind) <==> 0x80 <= b < 0xC0 && b % 16 < 4,
{
    law_key_slice_is_found_anywhere(front, 0x65, behind);
    law_key_slice_is_found_anywhere(front, 0x26, behind);
    law_sequence_header_is_found(size, front, behind);
    law_vp9_first_byte_decides(seq![b] + behind, Seq::empty());
    let cut = seq![0x0au8];
    assert(cut[0] == 0x0a);
    reveal_with_fuel(leb128, 2);
    assert(leb128(cut, 1, 0) is None);
}

/// What is said of a stream that failed begins with where it failed and ends with the cause; a
/// stream that ended between packets is no trouble.
pub proof fn law_trouble_has_its_cause(cause: Seq<char>, len: u32)
    ensures
        ivf_trouble(IvfEnd::Clean, cause) is None,
        ivf_trouble(IvfEnd::HeaderCut, cause) == Some(read_failure(IvfStage::Header, cause)),
        ivf_trouble(IvfEnd::PacketCut, cause) == Some(read_failure(IvfStage::Packet(len), cause)),
        ivf_trouble(IvfEnd::NotIvf, cause) is Some
            && ivf_trouble(IvfEnd::TooLarge(len), cause) is Some,
        cause.is_suffix_of(read_failure(IvfStage::PacketHeader, cause)),
{
    let r = read_failure(IvfStage::PacketHeader, cause);
    assert(cause =~= r.subrange(r.len() - cause.len(), r.len() as int));
}

/// A LEB128 number may take all of five bytes.
pub proof fn law_leb128_takes_five_bytes(a: u8, b: u8, c: u8, d: u8, e: u8, behind: Seq<u8>)
    requires
        a < 128,
        b < 128,
        c < 128,
        d < 128,
        e < 128,
    ensures
        leb128(
            seq![(a + 128) as u8, (b + 128) as u8, (c + 128) as u8, (d + 128) as u8, e] + behind,
            0,
            0,
        ) == Some(
            ((a + 0x80 * b + 0x4000 * c + 0x20_0000 * d + 0x1000_0000 * e) as nat, 5int),
        ),
{
    reveal_with_fuel(leb128, 6);
    let s = seq![(a + 128) as u8, (b + 128) as u8, (c + 128) as u8, (d + 128) as u8, e] + behind;
    assert(s[0] == a + 128 && s[1] == b + 128 && s[2] == c + 128 && s[3] == d + 128 && s[4] == e);
    assert(leb128(s, 4, 4) == Some((e as nat, 5int)));
    assert(leb128(s, 3, 3) == Some(((d + 128 * e) as nat, 5int)));
    assert(leb128(s, 2, 2) == Some(((c + 128 * (d + 128 * e)) as nat, 5int)));
    assert(leb128(s, 1, 1) == Some(((b + 128 * (c + 128 * (d + 128 * e))) as nat, 5int)));
}

/// An OBU whose header is extended has its size one byte further on.
pub proof fn law_extended_headers(
    header: u8,
    extension: u8,
    size: u8,
    payload: Seq<u8>,
    rest: Seq<u8>,
)
    requires
        (header / 4) % 2 == 1,
        (header / 2) % 2 == 1,
        size < 128,
        payload.len() == size,
    ensures
        (header / 8) % 16 != 1 ==> sequence_header_from(
            seq![header, extension, size] + payload + rest,
            0,
        ) == sequence_header_from(rest, 0),
        (header / 8) % 16 == 1 ==> sequence_header_from(
            seq![header, extension, size] + payload + rest,
            0,
        ),
{
    let front = seq![header, extension, size] + payload;
    let au = front + rest;
    assert(au[0] == header && au[1] == extension && au[2] == size);
    reveal_with_fuel(leb128, 2);
    assert(leb128(au, 2, 0) == Some((size as nat, 3int)));
    lemma_walk_shift(front, rest, 0);
    assert(front.len() == 3 + size);
}

/// Reading in pieces comes to the same as reading at once: at the start the whole stream is to
/// come, a packet that was announced is the next bytes of the stream and the rest goes on behind
/// it, and it is cut only if they are not all there.
pub proof fn law_pieces_make_the_stream(len: u32, packet: Seq<u8>, rest: Seq<u8>, s: Seq<u8>)
    requires
        packet.len() == len,
    ensures
        ivf_from(IvfStage::Header, s) == ivf_stream(s),
        ivf_from(IvfStage::PacketHeader, s) == ivf_body(s),
        ivf_from(IvfStage::Packet(len), packet + rest).0 == seq![packet] + ivf_body(rest).0,
        ivf_from(IvfStage::Packet(len), packet + rest).1 == ivf_body(rest).1,
        s.len() < len ==> ivf_from(IvfStage::Packet(len), s) == (
            Seq::<Seq<u8>>::empty(),
            IvfEnd::PacketCut,
        ),
        stage_bytes(IvfStage::Header) == 32,
        stage_bytes(IvfStage::PacketHeader) == 12,
        stage_bytes(IvfStage::Packet(len)) == len,
{
    let whole = packet + rest;
    assert(whole.subrange(0, len as int) =~= packet);
    assert(whole.skip(len as int) =~= rest);
}

} // verus!
