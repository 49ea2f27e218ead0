//! Which video encoder is used, what it is set up with, and the picture that it is handed.

use crate::bitstream::BitstreamKind;
use crate::config::EncodeDevice;
use crate::ffmpeg::{rate_of, size_text};
use crate::media::Platform;
use crate::pixels::{bgra_to_i420, half_up, is_chroma_u, is_chroma_v, is_luma};
use crate::text;
use vstd::prelude::*;

verus! {

/// What is said where HEVC cannot be encoded.
pub const NO_HEVC: &'static str =
    "HEVC video requires Windows (Media Foundation); select the H.264 or AV1 codec for software encode";

/// A codec that video can be encoded with.
#[derive(Clone, Copy, Debug, PartialEq, Eq, Structural)]
pub enum VideoCodec {
    /// AV1.
    Av1,
    /// VP9.
    Vp9,
    /// H.264.
    H264,
    /// HEVC.
    Hevc,
}

/// An encoder.
#[derive(Clone, Copy, Debug, PartialEq, Eq, Structural)]
pub enum EncoderKind {
    /// OpenH264, on the processor.
    H264Cpu,
    /// SVT-AV1, on the processor.
    Av1Cpu,
    /// libvpx, on the processor.
    Vp9Cpu,
    /// AV1 by Media Foundation, on the graphics card.
    Av1Gpu,
    /// AV1 by FFmpeg, on the graphics card.
    Av1Ffmpeg,
    /// HEVC by Media Foundation, on the graphics card.
    HevcGpu,
}

/// The AV1 encoders on the graphics card.
pub open spec fn gpu_av1(platform: Platform) -> Seq<EncoderKind> {
    match platform {
        Platform::Windows => seq![EncoderKind::Av1Gpu],
        Platform::Linux => seq![EncoderKind::Av1Ffmpeg],
        Platform::Other => Seq::empty(),
    }
}

/// The encoders that are tried, first to last.
pub open spec fn candidates(codec: VideoCodec, device: EncodeDevice, platform: Platform) -> Seq<
    EncoderKind,
> {
    match codec {
        VideoCodec::Av1 => match device {
            EncodeDevice::Auto => gpu_av1(platform) + seq![EncoderKind::Av1Cpu],
            EncodeDevice::Gpu => gpu_av1(platform),
            EncodeDevice::Cpu => seq![EncoderKind::Av1Cpu],
        },
        VideoCodec::Vp9 => seq![EncoderKind::Vp9Cpu],
        VideoCodec::H264 => seq![EncoderKind::H264Cpu],
        VideoCodec::Hevc => if platform == Platform::Windows {
            seq![EncoderKind::HevcGpu]
        } else {
            Seq::empty()
        },
    }
}

/// The encoders that are tried, first to last. The first one that starts is used.
pub fn encoder_order(codec: VideoCodec, device: EncodeDevice, platform: Platform) -> (v: Vec<
    EncoderKind,
>)
    ensures
        v@ == candidates(codec, device, platform),
{
    let mut v: Vec<EncoderKind> = Vec::new();
    match codec {
        VideoCodec::Av1 => {
            if device != EncodeDevice::Cpu {
                match platform {
                    Platform::Windows => {
                        v.push(EncoderKind::Av1Gpu);
                    },
                    Platform::Linux => {
                        v.push(EncoderKind::Av1Ffmpeg);
                    },
                    Platform::Other => {},
                }
            }
            if device != EncodeDevice::Gpu {
                v.push(EncoderKind::Av1Cpu);
            }
        },
        VideoCodec::Vp9 => {
            v.push(EncoderKind::Vp9Cpu);
        },
        VideoCodec::H264 => {
            v.push(EncoderKind::H264Cpu);
        },
        VideoCodec::Hevc => {
            if platform == Platform::Windows {
                v.push(EncoderKind::HevcGpu);
            }
        },
    }
    assert(v@ =~= candidates(codec, device, platform));
    v
}

/// Whether an encoder runs on the graphics card.
pub open spec fn on_gpu(k: EncoderKind) -> bool {
    k == EncoderKind::Av1Gpu || k == EncoderKind::Av1Ffmpeg || k == EncoderKind::HevcGpu
}

/// The bitstream of an encoder.
pub open spec fn kind_stream(k: EncoderKind) -> BitstreamKind {
    match k {
        EncoderKind::H264Cpu => BitstreamKind::H264,
        EncoderKind::Av1Cpu => BitstreamKind::Av1,
        EncoderKind::Vp9Cpu => BitstreamKind::Vp9,
        EncoderKind::Av1Gpu => BitstreamKind::Av1,
        EncoderKind::Av1Ffmpeg => BitstreamKind::Av1,
        EncoderKind::HevcGpu => BitstreamKind::Hevc,
    }
}

impl EncoderKind {
    /// The bitstream that the encoder writes, which tells how keyframes are found in it.
    pub fn bitstream(self) -> (r: BitstreamKind)
        ensures
            r == kind_stream(self),
    {
        match self {
            EncoderKind::H264Cpu => BitstreamKind::H264,
            EncoderKind::Av1Cpu => BitstreamKind::Av1,
            EncoderKind::Vp9Cpu => BitstreamKind::Vp9,
            EncoderKind::Av1Gpu => BitstreamKind::Av1,
            EncoderKind::Av1Ffmpeg => BitstreamKind::Av1,
            EncoderKind::HevcGpu => BitstreamKind::Hevc,
        }
    }

    /// What the encoder is called.
    pub fn backend_label(self) -> (r: &'static str)
        ensures
            r@ == (match self {
                EncoderKind::H264Cpu => "CPU (openh264)"@,
                EncoderKind::Av1Cpu => "CPU (SVT-AV1)"@,
                EncoderKind::Vp9Cpu => "CPU (libvpx)"@,
                EncoderKind::Av1Gpu => "GPU AV1 (Media Foundation)"@,
                EncoderKind::Av1Ffmpeg => "GPU AV1 (FFmpeg)"@,
                EncoderKind::HevcGpu => "GPU HEVC (Media Foundation)"@,
            }),
    {
        match self {
            EncoderKind::H264Cpu => "CPU (openh264)",
            EncoderKind::Av1Cpu => "CPU (SVT-AV1)",
            EncoderKind::Vp9Cpu => "CPU (libvpx)",
            EncoderKind::Av1Gpu => "GPU AV1 (Media Foundation)",
            EncoderKind::Av1Ffmpeg => "GPU AV1 (FFmpeg)",
            EncoderKind::HevcGpu => "GPU HEVC (Media Foundation)",
        }
    }
}

/// Every encoder that is tried for AV1 writes AV1, so a fallback never changes what clients decode.
pub proof fn law_fallback_keeps_the_codec(device: EncodeDevice, platform: Platform)
    ensures
        forall|i: int|
            0 <= i < candidates(VideoCodec::Av1, device, platform).len() ==> kind_stream(
                #[trigger] candidates(VideoCodec::Av1, device, platform)[i],
            ) == BitstreamKind::Av1,
{
}

/// The device that was asked for is kept to: `gpu` never encodes on the processor, and `cpu` never
/// on the graphics card.
pub proof fn law_device_is_kept_to(platform: Platform)
    ensures
        forall|i: int|
            0 <= i < candidates(VideoCodec::Av1, EncodeDevice::Gpu, platform).len() ==> on_gpu(
                #[trigger] candidates(VideoCodec::Av1, EncodeDevice::Gpu, platform)[i],
            ),
        forall|i: int|
            0 <= i < candidates(VideoCodec::Av1, EncodeDevice::Cpu, platform).len() ==> !on_gpu(
                #[trigger] candidates(VideoCodec::Av1, EncodeDevice::Cpu, platform)[i],
            ),
{
}

/// Without a device asked for there is always an encoder on the processor to end with.
pub proof fn law_auto_ends_on_the_processor(platform: Platform)
    ensures
        candidates(VideoCodec::Av1, EncodeDevice::Auto, platform).len() > 0,
        candidates(VideoCodec::Av1, EncodeDevice::Auto, platform).last() == EncoderKind::Av1Cpu,
{
}

/// Refuses an odd size.
pub fn check_even(width: u32, height: u32) -> (r: Result<(), String>)
    ensures
        r is Ok <==> width % 2 == 0 && height % 2 == 0,
        match r {
            Ok(_) => true,
            Err(e) => e@ == "dimensions must be even ("@ + size_text(width, height) + ")"@,
        },
{
    if width % 2 != 0 || height % 2 != 0 {
        Err(sized_message("dimensions must be even (", width, height))
    } else {
        Ok(())
    }
}

fn sized_message(front: &str, width: u32, height: u32) -> (e: String)
    ensures
        e@ == front@ + size_text(width, height) + ")"@,
{
    let mut e = front.to_string();
    let ghost start = e@;
    text::append_decimal(&mut e, width as u64);
    e.append("x");
    text::append_decimal(&mut e, height as u64);
    assert(e@ =~= start + size_text(width, height));
    e.append(")");
    e
}

/// What is said of a picture that is too short.
pub fn check_not_short(width: u32, height: u32, len: usize) -> (r: Result<(), String>)
    requires
        width * height * 4 <= usize::MAX,
    ensures
        r is Ok <==> len >= width * height * 4,
        match r {
            Ok(_) => true,
            Err(e) => e@ == "short BGRA frame: "@ + text::decimal(len as nat) + " < "@
                + text::decimal((width * height * 4) as nat),
        },
{
    assert(0 <= width * height <= width * height * 4) by (nonlinear_arith);
    let expected: usize = width as usize * height as usize * 4;
    if len < expected {
        let mut e = "short BGRA frame: ".to_string();
        text::append_decimal(&mut e, len as u64);
        e.append(" < ");
        text::append_decimal(&mut e, expected as u64);
        Err(e)
    } else {
        Ok(())
    }
}

/// A thousand times `n`, or the largest number there is.
pub open spec fn bits_of(n: u32) -> u32 {
    if 1000 * n > u32::MAX {
        u32::MAX
    } else {
        (1000 * n) as u32
    }
}

fn bits(n: u32) -> (r: u32)
    ensures
        r == bits_of(n),
{
    if n > u32::MAX / 1000 {
        u32::MAX
    } else {
        1000 * n
    }
}

fn rate(fps: u32) -> (r: u32)
    ensures
        r == rate_of(fps),
{
    if fps == 0 {
        1
    } else {
        fps
    }
}

/// What SVT-AV1 is set up with.
#[derive(Clone, Copy, Debug, PartialEq, Eq, Structural)]
pub struct Av1Settings {
    /// Bits per second.
    pub target_bit_rate: u32,
    /// Frames per second.
    pub fps_numerator: u32,
    /// The speed preset, from 0 to 13.
    pub enc_mode: u8,
    /// Frames that the encoder looks ahead.
    pub look_ahead: u32,
    /// Frames from one keyframe to the next.
    pub intra_period: u32,
}

/// What SVT-AV1 is set up with.
pub open spec fn av1_setup(fps: u32, bitrate_kbps: u32) -> Av1Settings {
    Av1Settings {
        target_bit_rate: bits_of(bitrate_kbps),
        fps_numerator: rate_of(fps),
        enc_mode: 12,
        look_ahead: 0,
        intra_period: (2 * rate_of(fps)) as u32,
    }
}

/// What SVT-AV1 is set up with: the fastest preset but one, no looking ahead, and a keyframe every
/// two seconds.
pub fn av1_settings(fps: u32, bitrate_kbps: u32) -> (s: Av1Settings)
    requires
        2 * fps <= u32::MAX,
    ensures
        s == av1_setup(fps, bitrate_kbps),
{
    Av1Settings {
        target_bit_rate: bits(bitrate_kbps),
        fps_numerator: rate(fps),
        enc_mode: 12,
        look_ahead: 0,
        intra_period: 2 * rate(fps),
    }
}

/// What libvpx is set up with.
#[derive(Clone, Copy, Debug, PartialEq, Eq, Structural)]
pub struct Vp9Settings {
    /// Frames per second.
    pub timebase_den: u32,
    /// Bit rate in kbit/s.
    pub target_bitrate: u32,
    /// Frames from one keyframe to the next.
    pub kf_max_dist: u32,
    /// Threads.
    pub threads: usize,
    /// The speed preset.
    pub cpu_used: u8,
}

/// What libvpx is set up with.
pub open spec fn vp9_setup(fps: u32, bitrate_kbps: u32, cores: Option<usize>) -> Vp9Settings {
    Vp9Settings {
        timebase_den: rate_of(fps),
        target_bitrate: if bitrate_kbps == 0 {
            1
        } else {
            bitrate_kbps
        },
        kf_max_dist: (2 * rate_of(fps)) as u32,
        threads: match cores {
            None => 4,
            Some(n) => if n > 16 {
                16
            } else {
                n
            },
        },
        cpu_used: 7,
    }
}

/// What libvpx is set up with: at most sixteen threads and a keyframe every two seconds.
pub fn vp9_settings(fps: u32, bitrate_kbps: u32, cores: Option<usize>) -> (s: Vp9Settings)
    requires
        2 * fps <= u32::MAX,
    ensures
        s == vp9_setup(fps, bitrate_kbps, cores),
{
    let threads: usize = match cores {
        None => 4,
        Some(n) => if n > 16 {
            16
        } else {
            n
        },
    };
    Vp9Settings {
        timebase_den: rate(fps),
        target_bitrate: if bitrate_kbps == 0 {
            1
        } else {
            bitrate_kbps
        },
        kf_max_dist: 2 * rate(fps),
        threads,
        cpu_used: 7,
    }
}

/// What Media Foundation is set up with.
#[derive(Clone, Copy, Debug, PartialEq, Eq, Structural)]
pub struct MfSettings {
    /// Bits per second.
    pub avg_bitrate: u32,
    /// Width and height.
    pub frame_size: u64,
    /// Frames and the seconds that they take.
    pub frame_rate: u64,
    /// Width and height of a pixel.
    pub pixel_aspect: u64,
    /// Frames from one keyframe to the next.
    pub max_keyframe_spacing: u32,
    /// How long a picture is shown, in units of 100 ns.
    pub sample_duration: i64,
    /// Bytes of an NV12 picture.
    pub nv12_len: usize,
}

/// Two numbers packed into one, the first above the second.
pub open spec fn packed(high: u32, low: u32) -> u64 {
    (high * 0x1_0000_0000 + low) as u64
}

fn pack(high: u32, low: u32) -> (r: u64)
    ensures
        r == packed(high, low),
{
    high as u64 * 0x1_0000_0000 + low as u64
}

/// Packed numbers come apart again.
pub proof fn law_packed_numbers_come_apart(high: u32, low: u32)
    ensures
        packed(high, low) / 0x1_0000_0000 == high,
        packed(high, low) % 0x1_0000_0000 == low,
{
    let p = high * 0x1_0000_0000 + low;
    assert(0 <= p <= u64::MAX);
    assert(p / 0x1_0000_0000 == high);
}

/// Whether Media Foundation is to be set up so.
pub open spec fn is_mf_setup(
    s: MfSettings,
    width: u32,
    height: u32,
    fps: u32,
    bitrate_kbps: u32,
) -> bool {
    &&& s.avg_bitrate == bits_of(bitrate_kbps)
    &&& s.frame_size == packed(width, height)
    &&& s.frame_rate == packed(fps, 1)
    &&& s.pixel_aspect == packed(1, 1)
    &&& s.max_keyframe_spacing == (if fps == 0 {
        1
    } else {
        2 * fps
    })
    &&& s.sample_duration == 10_000_000int / rate_of(fps) as int
    &&& s.nv12_len == width * height * 3 / 2
}

/// What Media Foundation is set up with, or what is wrong with the size.
pub fn mf_settings(width: u32, height: u32, fps: u32, bitrate_kbps: u32) -> (r: Result<
    MfSettings,
    String,
>)
    requires
        width * height * 3 <= usize::MAX,
        2 * fps <= u32::MAX,
    ensures
        r is Ok <==> width % 2 == 0 && height % 2 == 0,
        match r {
            Ok(s) => is_mf_setup(s, width, height, fps, bitrate_kbps),
            Err(e) => e@ == "dimensions must be even ("@ + size_text(width, height) + ")"@,
        },
{
    match check_even(width, height) {
        Ok(_) => {},
        Err(e) => {
            return Err(e);
        },
    }
    assert(0 <= width * height <= width * height * 3) by (nonlinear_arith);
    let spacing: u32 = if fps == 0 {
        1
    } else {
        2 * fps
    };
    let duration: u32 = 10_000_000u32 / rate(fps);
    Ok(
        MfSettings {
            avg_bitrate: bits(bitrate_kbps),
            frame_size: pack(width, height),
            frame_rate: pack(fps, 1),
            pixel_aspect: pack(1, 1),
            max_keyframe_spacing: spacing,
            sample_duration: duration as i64,
            nv12_len: width as usize * height as usize * 3 / 2,
        },
    )
}

/// When a picture is shown, in units of 100 ns.
pub fn sample_time(index: i64, duration: i64) -> (r: i64)
    requires
        i64::MIN <= index * duration <= i64::MAX,
    ensures
        r == index * duration,
{
    index * duration
}

/// How large a buffer for the encoder's output is.
pub open spec fn buffer_len(stated: int, pixels: int) -> int {
    if stated >= pixels {
        stated
    } else {
        pixels
    }
}

/// How large a buffer for the encoder's output is, given what the encoder states.
pub fn output_buffer_len(stated: u32, width: u32, height: u32) -> (r: u32)
    requires
        width * height <= u32::MAX,
    ensures
        r == buffer_len(stated as int, width * height),
{
    let picture: u32 = width * height;
    if stated >= picture {
        stated
    } else {
        picture
    }
}

/// The planes that an encoder on the processor reads, and whether a keyframe was asked for.
pub struct Planes {
    /// Width of the picture.
    pub width: usize,
    /// Height of the picture.
    pub height: usize,
    /// Luma.
    pub y: Vec<u8>,
    /// Blue chroma.
    pub u: Vec<u8>,
    /// Red chroma.
    pub v: Vec<u8>,
    /// Whether the next picture is to be a keyframe.
    pub pending_key: bool,
    /// Pictures so far.
    pub frame_index: i64,
}

fn filled(n: usize, b: u8) -> (v: Vec<u8>)
    ensures
        v@ == Seq::new(n as nat, |i: int| b),
{
    let mut v: Vec<u8> = Vec::new();
    while v.len() < n
        invariant
            v@.len() <= n,
            forall|i: int| 0 <= i < v@.len() ==> #[trigger] v@[i] == b,
        decreases n - v@.len(),
    {
        v.push(b);
    }
    assert(v@ =~= Seq::new(n as nat, |i: int| b));
    v
}

proof fn lemma_chroma_fits(w: int, h: int, max: int)
    requires
        0 < w,
        0 <= h,
        w * h <= max,
    ensures
        0 <= half_up(w) * half_up(h) <= max,
{
    assert(half_up(w) <= w && half_up(h) <= h);
    assert(0 <= half_up(w) * half_up(h) <= w * h) by (nonlinear_arith)
        requires
            0 <= half_up(w) <= w,
            0 <= half_up(h) <= h,
    ;
}

/// Whether the picture that is encoded now is to be a keyframe, and the planes then.
pub open spec fn key_step(p: Planes, after: Planes, r: bool) -> bool {
    r == p.pending_key && after == (Planes { pending_key: false, ..p })
}

impl Planes {
    /// The planes are as large as the picture takes.
    pub open spec fn wf(&self) -> bool {
        &&& 0 < self.width < usize::MAX
        &&& self.height < usize::MAX
        &&& self.y@.len() == self.height * self.width
        &&& self.u@.len() == half_up(self.height as int) * half_up(self.width as int)
        &&& self.v@.len() == half_up(self.height as int) * half_up(self.width as int)
    }

    /// A black picture.
    pub fn new(width: usize, height: usize) -> (p: Planes)
        requires
            0 < width < usize::MAX,
            height < usize::MAX,
            height * width <= usize::MAX,
        ensures
            p.wf(),
            p.width == width,
            p.height == height,
            p.y@ == Seq::new((height * width) as nat, |i: int| 0u8),
            p.u@ == Seq::new((half_up(height as int) * half_up(width as int)) as nat, |i: int| 128u8),
            p.v@ == p.u@,
            !p.pending_key,
            p.frame_index == 0,
    {
        let cw: usize = width / 2 + width % 2;
        let ch: usize = height / 2 + height % 2;
        proof {
            assert(width * height == height * width) by (nonlinear_arith);
            lemma_chroma_fits(width as int, height as int, usize::MAX as int);
            assert(cw == half_up(width as int));
            assert(ch == half_up(height as int));
            assert(ch * cw == cw * ch) by (nonlinear_arith);
        }
        Planes {
            width,
            height,
            y: filled(height * width, 0),
            u: filled(ch * cw, 128),
            v: filled(ch * cw, 128),
            pending_key: false,
            frame_index: 0,
        }
    }

    /// Fills the planes from a BGRA picture.
    pub fn load(&mut self, bgra: &[u8])
        requires
            old(self).wf(),
            bgra@.len() == 4 * (old(self).height * old(self).width),
        ensures
            final(self).wf(),
            final(self).width == old(self).width,
            final(self).height == old(self).height,
            final(self).pending_key == old(self).pending_key,
            final(self).frame_index == old(self).frame_index,
            is_luma(
                final(self).y@,
                bgra@,
                old(self).width as int,
                old(self).height as int,
            ),
            is_chroma_u(
                final(self).u@,
                bgra@,
                old(self).width as int,
                old(self).height as int,
            ),
            is_chroma_v(
                final(self).v@,
                bgra@,
                old(self).width as int,
                old(self).height as int,
            ),
    {
        bgra_to_i420(
            bgra,
            self.width,
            self.height,
            self.y.as_mut_slice(),
            self.u.as_mut_slice(),
            self.v.as_mut_slice(),
        );
    }

    /// Asks for a keyframe.
    pub fn force_keyframe(&mut self)
        ensures
            *final(self) == (Planes { pending_key: true, ..*old(self) }),
    {
        self.pending_key = true;
    }

    /// Whether the picture that is encoded now is to be a keyframe. One request makes one keyframe.
    pub fn take_key(&mut self) -> (r: bool)
        ensures
            key_step(*old(self), *final(self), r),
    {
        let r = self.pending_key;
        self.pending_key = false;
        r
    }

    /// A picture was encoded.
    pub fn count(&mut self)
        requires
            old(self).frame_index < i64::MAX,
        ensures
            *final(self) == (Planes {
                frame_index: (old(self).frame_index + 1) as i64,
                ..*old(self)
            }),
    {
        self.frame_index = self.frame_index + 1;
    }
}

/// What stands against converting pictures on the graphics card, if anything does. `bgra_in` and
/// `nv12_out` say whether the card reads and writes these formats.
pub fn check_converter(width: u32, height: u32, bgra_in: bool, nv12_out: bool) -> (r: Result<
    (),
    String,
>)
    ensures
        r is Ok <==> width % 2 == 0 && height % 2 == 0 && bgra_in && nv12_out,
        match r {
            Ok(_) => true,
            Err(e) => e@ == (if width % 2 != 0 || height % 2 != 0 {
                "NV12 needs even encode dims ("@ + size_text(width, height) + ")"@
            } else if !bgra_in {
                "VideoProcessor does not support BGRA input"@
            } else {
                "VideoProcessor does not support NV12 output"@
            }),
        },
{
    if width % 2 != 0 || height % 2 != 0 {
        Err(sized_message("NV12 needs even encode dims (", width, height))
    } else if !bgra_in {
        Err("VideoProcessor does not support BGRA input".to_string())
    } else if !nv12_out {
        Err("VideoProcessor does not support NV12 output".to_string())
    } else {
        Ok(())
    }
}

/// How many pictures the graphics card holds at once.
pub const RING: usize = 3;

/// The pictures on the graphics card, used in turn, and the size of the capture that they were made
/// for.
#[derive(Clone, Copy, Debug)]
pub struct Ring {
    /// The picture that is used next.
    pub next: usize,
    /// Width and height that the shared picture was made for, while there is one.
    pub capture: Option<(u32, u32)>,
}

/// Which picture is used, and the ring after it.
pub open spec fn ring_step(r: Ring, after: Ring, i: usize) -> bool {
    &&& i == r.next
    &&& after.next == (i + 1) % 3
    &&& after.capture == r.capture
}

/// Whether the shared picture must be made anew for a capture of this size, and the ring then.
pub open spec fn resize_step(r: Ring, width: u32, height: u32, after: Ring, anew: bool) -> bool {
    &&& anew <==> r.capture != Some((width, height))
    &&& after == if anew {
        Ring { capture: None, ..r }
    } else {
        r
    }
}

impl Ring {
    /// The next picture is one of them.
    pub open spec fn wf(&self) -> bool {
        self.next < RING
    }

    /// Before the first capture.
    pub fn new() -> (r: Ring)
        ensures
            r.wf(),
            r == (Ring { next: 0, capture: None }),
    {
        Ring { next: 0, capture: None }
    }

    /// The picture to use now.
    pub fn take(&mut self) -> (i: usize)
        requires
            old(self).wf(),
        ensures
            final(self).wf(),
            ring_step(*old(self), *final(self), i),
    {
        let i: usize = self.next;
        self.next = (self.next + 1) % RING;
        i
    }

    /// Whether the shared picture must be made anew for a capture of this size. If so the old one is
    /// dropped, and there is none until `bridged` says that a new one was made.
    pub fn resize(&mut self, width: u32, height: u32) -> (anew: bool)
        ensures
            resize_step(*old(self), width, height, *final(self), anew),
    {
        let same = match self.capture {
            Some(c) => c.0 == width && c.1 == height,
            None => false,
        };
        if !same {
            self.capture = None;
        }
        !same
    }

    /// Notes that the shared picture was made for a capture of this size.
    pub fn bridged(&mut self, width: u32, height: u32)
        ensures
            *final(self) == (Ring { capture: Some((width, height)), ..*old(self) }),
    {
        self.capture = Some((width, height));
    }
}

/// A picture is not used again before the two others were: what the encoder still reads is never
/// written over.
pub proof fn law_ring_does_not_alias(next: int)
    requires
        0 <= next < RING,
    ensures
        next != (next + 1) % 3,
        next != ((next + 1) % 3 + 1) % 3,
        next == (((next + 1) % 3 + 1) % 3 + 1) % 3,
{
}

/// Bit rates are told in thousands and set up in ones, at most the largest number there is; a frame
/// rate of nothing counts as one.
pub proof fn law_rates(kbps: u32, fps: u32)
    ensures
        kbps <= 4_294_967 ==> bits_of(kbps) == 1000 * kbps,
        kbps > 4_294_967 ==> bits_of(kbps) == 0xFFFF_FFFF,
        fps > 0 ==> rate_of(fps) == fps,
        rate_of(0) == 1,
{
}

/// Whatever encodes, there is a keyframe at least every two seconds, at the bit rate and the frame
/// rate that were asked for.
pub proof fn law_keyframe_every_two_seconds_of_frames(
    fps: u32,
    kbps: u32,
    cores: Option<usize>,
    width: u32,
    height: u32,
    mf: MfSettings,
)
    requires
        0 < fps <= 0x7FFF_FFFF,
        is_mf_setup(mf, width, height, fps, kbps),
    ensures
        av1_setup(fps, kbps).intra_period == 2 * fps,
        vp9_setup(fps, kbps, cores).kf_max_dist == 2 * fps,
        mf.max_keyframe_spacing == 2 * fps,
        av1_setup(fps, kbps).fps_numerator == fps,
        vp9_setup(fps, kbps, cores).timebase_den == fps,
        kbps <= 4_294_967 ==> av1_setup(fps, kbps).target_bit_rate == 1000 * kbps && mf.avg_bitrate
            == 1000 * kbps,
        kbps > 0 ==> vp9_setup(fps, kbps, cores).target_bitrate == kbps,
        av1_setup(fps, kbps).look_ahead == 0 && av1_setup(fps, kbps).enc_mode == 12,
        vp9_setup(fps, kbps, cores).cpu_used == 7,
        fps * mf.sample_duration <= 10_000_000 < fps * (mf.sample_duration + 1),
        mf.frame_size / 0x1_0000_0000 == width && mf.frame_size % 0x1_0000_0000 == height,
        mf.frame_rate / 0x1_0000_0000 == fps && mf.frame_rate % 0x1_0000_0000 == 1,
        mf.pixel_aspect / 0x1_0000_0000 == mf.pixel_aspect % 0x1_0000_0000,
{
    law_packed_numbers_come_apart(width, height);
    law_packed_numbers_come_apart(fps, 1);
    law_packed_numbers_come_apart(1, 1);
    let f = fps as int;
    vstd::arithmetic::div_mod::lemma_fundamental_div_mod(10_000_000, f);
    vstd::arithmetic::div_mod::lemma_mod_bound(10_000_000, f);
    let d = 10_000_000int / f;
    assert(f * d <= 10_000_000 < f * (d + 1)) by (nonlinear_arith)
        requires
            10_000_000 == f * d + 10_000_000int % f,
            0 <= 10_000_000int % f < f,
            d == 10_000_000int / f,
    ;
}

/// An encoder uses as many threads as there are cores, up to sixteen, and four where nobody knows.
pub proof fn law_threads(fps: u32, kbps: u32, n: usize)
    ensures
        vp9_setup(fps, kbps, None).threads == 4,
        n <= 16 ==> vp9_setup(fps, kbps, Some(n)).threads == n,
        n > 16 ==> vp9_setup(fps, kbps, Some(n)).threads == 16,
{
}

/// The three pictures are used in turn: between two uses of one, each of the others is used once.
pub proof fn law_pictures_take_turns(
    a: Ring,
    b: Ring,
    c: Ring,
    d: Ring,
    e: Ring,
    i: usize,
    j: usize,
    k: usize,
    l: usize,
)
    requires
        a.wf(),
        ring_step(a, b, i),
        ring_step(b, c, j),
        ring_step(c, d, k),
        ring_step(d, e, l),
    ensures
        i != j && j != k && i != k,
        i == l,
        i < 3 && j < 3 && k < 3,
        e.capture == a.capture,
{
}

/// The shared picture is made anew when the size of the capture changes and not while it stays;
/// once it has to be made anew it has to be until it was made.
pub proof fn law_shared_picture_fits(
    r: Ring,
    after: Ring,
    anew: bool,
    then: Ring,
    again: bool,
    w: u32,
    h: u32,
    w2: u32,
    h2: u32,
)
    requires
        resize_step(r, w, h, after, anew),
        resize_step(after, w2, h2, then, again),
    ensures
        anew ==> again,
        !anew ==> (again <==> w != w2 || h != h2),
        anew ==> after.capture is None,
        !anew ==> r.capture == Some((w, h)) && after == r,
        after.next == r.next,
{
}

/// Each codec is encoded by an encoder that writes it: AV1, VP9 and H.264 on any system, HEVC on
/// Windows alone. The graphics card is tried first where there is one to try.
pub proof fn law_encoders_write_their_codec(device: EncodeDevice, platform: Platform, i: int)
    ensures
        ({
            let vp9 = candidates(VideoCodec::Vp9, device, platform);
            let h264 = candidates(VideoCodec::H264, device, platform);
            let hevc = candidates(VideoCodec::Hevc, device, platform);
            let auto = candidates(VideoCodec::Av1, EncodeDevice::Auto, platform);
            let gpu = candidates(VideoCodec::Av1, EncodeDevice::Gpu, platform);
            let cpu = candidates(VideoCodec::Av1, EncodeDevice::Cpu, platform);
            &&& vp9.len() > 0 && h264.len() > 0 && cpu.len() > 0
            &&& hevc.len() > 0 <==> platform == Platform::Windows
            &&& gpu.len() > 0 <==> platform != Platform::Other
            &&& 0 <= i < vp9.len() ==> kind_stream(vp9[i]) == BitstreamKind::Vp9
            &&& 0 <= i < h264.len() ==> kind_stream(h264[i]) == BitstreamKind::H264
            &&& 0 <= i < hevc.len() ==> kind_stream(hevc[i]) == BitstreamKind::Hevc
            &&& platform != Platform::Other ==> on_gpu(auto[0])
            &&& auto == gpu + cpu
            &&& platform == Platform::Windows ==> gpu[0] == EncoderKind::Av1Gpu
            &&& platform == Platform::Linux ==> gpu[0] == EncoderKind::Av1Ffmpeg
        }),
{
}

/// One request makes one keyframe: the picture after it is one, and the next is none unless it is
/// asked for again.
pub proof fn law_one_request_one_keyframe(p: Planes, after: Planes, r: bool, then: Planes, again: bool)
    requires
        key_step(p, after, r),
        key_step(after, then, again),
    ensures
        p.pending_key ==> r,
        !p.pending_key ==> !r,
        !again,
        after.y == p.y && after.u == p.u && after.v == p.v,
        after.frame_index == p.frame_index,
{
}

/// A buffer is never smaller than the encoder states, nor than one byte for each pixel, and no larger
/// than it has to be.
pub proof fn law_buffers_suffice(stated: int, pixels: int)
    ensures
        buffer_len(stated, pixels) >= stated,
        buffer_len(stated, pixels) >= pixels,
        buffer_len(stated, pixels) == stated || buffer_len(stated, pixels) == pixels,
{
}

} // verus!
