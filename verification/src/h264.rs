//! Software H.264 through OpenH264: BGRA pictures in, access units out, and back to RGBA.

use crate::bitstream;
use crate::pixels;
use openh264::decoder::Decoder;
use openh264::encoder::Encoder;
use openh264::encoder::EncoderConfig;
use openh264::formats::RgbSliceU8;
use openh264::formats::YUVBuffer;
use openh264::formats::YUVSource;
use openh264::OpenH264API;
use vstd::prelude::*;

verus! {

/// `openh264::encoder::Encoder`, carried without looking inside.
#[verifier::external_type_specification]
#[verifier::external_body]
pub struct ExEncoder(openh264::encoder::Encoder);

/// `openh264::encoder::EncoderConfig`, carried without looking inside.
#[verifier::external_type_specification]
#[verifier::external_body]
pub struct ExEncoderConfig(openh264::encoder::EncoderConfig);

/// `openh264::decoder::Decoder`, carried without looking inside.
#[verifier::external_type_specification]
#[verifier::external_body]
pub struct ExDecoder(openh264::decoder::Decoder);

/// `openh264::Error`, carried without looking inside.
#[verifier::external_type_specification]
#[verifier::external_body]
pub struct ExError(openh264::Error);

/// Why H.264 did not work.
#[derive(Clone, Copy, Debug, PartialEq, Eq, Structural)]
pub enum H264Error {
    /// The encoder could not be made.
    CreateEncoder,
    /// A picture could not be encoded.
    Encode,
    /// The decoder could not be made.
    CreateDecoder,
    /// An access unit could not be decoded.
    Decode,
}

/// What an encoder is to be set to.
#[derive(Clone, Copy, Debug, PartialEq, Eq, Structural)]
pub struct H264Settings {
    /// Bits per second.
    pub bitrate_bps: u32,
    /// Most pictures per second.
    pub fps: u32,
    /// Threads to encode with.
    pub threads: u16,
}

/// As many threads as there are cores, four if that is not known, and between one and eight.
pub open spec fn thread_count(cores: Option<usize>) -> int {
    match cores {
        None => 4,
        Some(n) => if n < 1 {
            1
        } else if n > 8 {
            8
        } else {
            n as int
        },
    }
}

/// How many threads to encode with on a machine with this many cores.
pub fn worker_threads(cores: Option<usize>) -> (n: usize)
    ensures
        n == thread_count(cores),
{
    match cores {
        None => 4,
        Some(n) => {
            if n < 1 {
                1
            } else if n > 8 {
                8
            } else {
                n
            }
        },
    }
}

/// The settings for a stream of `fps` pictures per second at `bitrate_kbps`.
pub fn h264_settings(fps: u32, bitrate_kbps: u32, cores: Option<usize>) -> (s: H264Settings)
    requires
        bitrate_kbps * 1000 <= u32::MAX,
    ensures
        s.bitrate_bps == bitrate_kbps * 1000,
        s.fps == fps,
        s.threads == thread_count(cores),
{
    H264Settings { bitrate_bps: bitrate_kbps * 1000, fps, threads: worker_threads(cores) as u16 }
}

/// `openh264::encoder::Encoder::with_api_config` with the built-in OpenH264: makes an encoder with
/// this configuration. Whether it can be made depends on the library, so nothing is said.
#[verifier::external_body]
fn create_encoder(config: EncoderConfig) -> (r: Result<Encoder, openh264::Error>) {
    Encoder::with_api_config(OpenH264API::from_source(), config)
}

/// Whether `openh264::encoder::Encoder::encode` has put out this packet when it was handed this
/// picture, `forced` right after a request for a keyframe.
pub uninterp spec fn put_out_for(
    packet: Seq<u8>,
    rgb: Seq<u8>,
    width: int,
    height: int,
    forced: bool,
) -> bool;

/// Whether `openh264::decoder::Decoder::decode` has given this picture when it was handed these
/// bytes.
pub uninterp spec fn given_for(rgba: Seq<u8>, width: int, height: int, data: Seq<u8>) -> bool;

/// `openh264::encoder::Encoder::encode` of a picture made by `YUVBuffer::from_rgb8_source`: encodes
/// one picture, which needs even measures and three bytes per pixel. A picture larger than 3840 by
/// 2160, either way round, is refused. The bytes that come out depend on the pictures before, so
/// nothing more is said of them.
#[verifier::external_body]
fn encode_rgb(enc: &mut Encoder, rgb: &[u8], width: usize, height: usize) -> (r: Result<
    Vec<u8>,
    openh264::Error,
>)
    requires
        width % 2 == 0,
        height % 2 == 0,
        width <= i32::MAX,
        height <= i32::MAX,
        rgb@.len() == width * height * 3,
    ensures
        too_large(width as int, height as int) ==> r is Err,
        r matches Ok(bits) ==> put_out_for(bits@, rgb@, width as int, height as int, false),
{
    let yuv = YUVBuffer::from_rgb8_source(RgbSliceU8::new(rgb, (width, height)));
    enc.encode(&yuv).map(|bits| bits.to_vec())
}

/// `openh264::encoder::Encoder::force_intra_frame`, then `encode` as above: the picture is encoded as
/// an IDR picture, so that the packet, unless the encoder leaves the picture out and it is empty,
/// holds an IDR slice behind a start code.
#[verifier::external_body]
fn encode_key_rgb(enc: &mut Encoder, rgb: &[u8], width: usize, height: usize) -> (r: Result<
    Vec<u8>,
    openh264::Error,
>)
    requires
        width % 2 == 0,
        height % 2 == 0,
        width <= i32::MAX,
        height <= i32::MAX,
        rgb@.len() == width * height * 3,
    ensures
        too_large(width as int, height as int) ==> r is Err,
        r matches Ok(bits) ==> put_out_for(bits@, rgb@, width as int, height as int, true),
        r matches Ok(bits) ==> bits@.len() > 0 ==> bitstream::has_idr(bits@),
{
    enc.force_intra_frame();
    let yuv = YUVBuffer::from_rgb8_source(RgbSliceU8::new(rgb, (width, height)));
    enc.encode(&yuv).map(|bits| bits.to_vec())
}

/// `openh264::decoder::Decoder::new`: makes a decoder. Whether it can be made depends on the
/// library, so nothing is said.
#[verifier::external_body]
fn create_decoder() -> (r: Result<Decoder, openh264::Error>) {
    Decoder::new()
}

/// `openh264::decoder::Decoder::decode`, then `dimensions` and `write_rgba8` of the picture: the
/// picture has four bytes per pixel, and the fourth of each is 255. Which picture comes out, if one
/// does, depends on the access units before, so nothing more is said.
#[verifier::external_body]
fn decode_picture(dec: &mut Decoder, data: &[u8]) -> (r: Result<
    Option<(usize, usize, Vec<u8>)>,
    openh264::Error,
>)
    requires
        data@.len() <= i32::MAX,
    ensures
        r matches Ok(Some(p)) ==> is_opaque_picture(p.0 as int, p.1 as int, p.2@) && p.0 <= i32::MAX
            && p.1 <= i32::MAX && given_for(p.2@, p.0 as int, p.1 as int, data@),
{
    dec.decode(data).map(|found| found.map(|yuv| {
        let (w, h) = yuv.dimensions();
        let mut rgba = vec![0u8; w * h * 4];
        yuv.write_rgba8(&mut rgba);
        (w, h, rgba)
    }))
}

/// Whether OpenH264 refuses pictures of this size.
pub open spec fn too_large(w: int, h: int) -> bool {
    let greater = if w > h {
        w
    } else {
        h
    };
    let smaller = if w > h {
        h
    } else {
        w
    };
    greater > 3840 || smaller > 2160
}

/// Whether `rgba` is a picture of `w` by `h` opaque pixels.
pub open spec fn is_opaque_picture(w: int, h: int, rgba: Seq<u8>) -> bool {
    &&& rgba.len() == w * h * 4
    &&& forall|i: int| 0 <= i < rgba.len() && i % 4 == 3 ==> #[trigger] rgba[i] == 255
}

/// Whether a keyframe is due after a picture, given whether one was due and the packet that came out,
/// none if encoding failed.
pub open spec fn due_after(due: bool, packet: Option<Seq<u8>>) -> bool {
    match packet {
        Some(p) => due && p.len() == 0,
        None => due,
    }
}

/// The packet that came out, if encoding did not fail.
pub open spec fn packet_of(r: Result<Vec<u8>, H264Error>) -> Option<Seq<u8>> {
    match r {
        Ok(bits) => Some(bits@),
        Err(_) => None,
    }
}

/// An H.264 encoder that takes BGRA pictures.
pub struct H264Encoder {
    enc: Encoder,
    width: usize,
    height: usize,
    rgb: Vec<u8>,
    pending_key: bool,
}

impl H264Encoder {
    /// The encoder of OpenH264 that does the work.
    pub closed spec fn inner(&self) -> Encoder {
        self.enc
    }

    /// Width of the pictures.
    pub closed spec fn spec_width(&self) -> int {
        self.width as int
    }

    /// Height of the pictures.
    pub closed spec fn spec_height(&self) -> int {
        self.height as int
    }

    /// Whether a keyframe was asked for and has not come out yet.
    pub closed spec fn key_due(&self) -> bool {
        self.pending_key
    }

    /// The red, green and blue of the picture that was last handed to the encoder.
    pub closed spec fn last_rgb(&self) -> Seq<u8> {
        self.rgb@
    }

    /// The measures are those of a picture that a machine can hold.
    pub closed spec fn wf(&self) -> bool {
        &&& self.width * self.height * 3 <= u32::MAX
        &&& self.width <= u32::MAX
        &&& self.height <= u32::MAX
    }

    /// An encoder for pictures of `width` by `height` pixels, given what came of making one with
    /// OpenH264.
    pub fn with_made(made: Result<Encoder, openh264::Error>, width: u32, height: u32) -> (r: Result<
        H264Encoder,
        H264Error,
    >)
        requires
            width * height * 3 <= u32::MAX,
        ensures
            match made {
                Ok(enc) => r matches Ok(e) && e.inner() == enc && e.wf() && e.spec_width() == width
                    && e.spec_height() == height && !e.key_due() && e.last_rgb().len() == 0,
                Err(_) => r matches Err(e) && e == H264Error::CreateEncoder,
            },
    {
        match made {
            Ok(enc) => Ok(
                H264Encoder {
                    enc,
                    width: width as usize,
                    height: height as usize,
                    rgb: Vec::new(),
                    pending_key: false,
                },
            ),
            Err(_) => Err(H264Error::CreateEncoder),
        }
    }

    /// An encoder for pictures of `width` by `height` pixels.
    pub fn new(width: u32, height: u32, config: EncoderConfig) -> (r: Result<
        H264Encoder,
        H264Error,
    >)
        requires
            width * height * 3 <= u32::MAX,
        ensures
            match r {
                Ok(e) => e.wf() && e.spec_width() == width && e.spec_height() == height
                    && !e.key_due(),
                Err(e) => e == H264Error::CreateEncoder,
            },
    {
        H264Encoder::with_made(create_encoder(config), width, height)
    }

    /// What a picture comes to, given what OpenH264 made of it. A keyframe that is due stays due
    /// until a packet comes out.
    pub fn handed_on(&mut self, made: Result<Vec<u8>, openh264::Error>) -> (r: Result<
        Vec<u8>,
        H264Error,
    >)
        requires
            old(self).wf(),
        ensures
            final(self).wf(),
            final(self).inner() == old(self).inner(),
            final(self).spec_width() == old(self).spec_width(),
            final(self).spec_height() == old(self).spec_height(),
            final(self).last_rgb() == old(self).last_rgb(),
            match made {
                Ok(bits) => (r matches Ok(b) && b@ == bits@) && final(self).key_due() == due_after(
                    old(self).key_due(),
                    Some(bits@),
                ),
                Err(_) => (r matches Err(e) && e == H264Error::Encode) && final(self).key_due()
                    == due_after(old(self).key_due(), None),
            },
    {
        match made {
            Ok(bits) => {
                if bits.len() > 0 {
                    self.pending_key = false;
                }
                Ok(bits)
            },
            Err(_) => Err(H264Error::Encode),
        }
    }

    /// Encodes one BGRA picture. The access unit may be empty when the encoder leaves the picture
    /// out. Where a keyframe is due, the first one that is not empty is a keyframe.
    pub fn encode_bgra(&mut self, bgra: &[u8]) -> (r: Result<Vec<u8>, H264Error>)
        requires
            old(self).wf(),
            old(self).spec_width() % 2 == 0,
            old(self).spec_height() % 2 == 0,
            old(self).spec_width() <= i32::MAX,
            old(self).spec_height() <= i32::MAX,
            bgra@.len() == old(self).spec_width() * old(self).spec_height() * 4,
        ensures
            final(self).wf(),
            final(self).spec_width() == old(self).spec_width(),
            final(self).spec_height() == old(self).spec_height(),
            pixels::is_rgb(final(self).last_rgb(), bgra@),
            too_large(old(self).spec_width(), old(self).spec_height()) ==> r is Err,
            r matches Err(e) ==> e == H264Error::Encode,
            r matches Ok(bits) ==> put_out_for(
                bits@,
                final(self).last_rgb(),
                old(self).spec_width(),
                old(self).spec_height(),
                old(self).key_due(),
            ),
            old(self).key_due() ==> (r matches Ok(bits) ==> bits@.len() > 0 ==> bitstream::has_idr(
                bits@,
            )),
            final(self).key_due() == due_after(old(self).key_due(), packet_of(r)),
    {
        self.rgb = pixels::bgra_to_rgb(bgra);
        let made = if self.pending_key {
            encode_key_rgb(&mut self.enc, self.rgb.as_slice(), self.width, self.height)
        } else {
            encode_rgb(&mut self.enc, self.rgb.as_slice(), self.width, self.height)
        };
        self.handed_on(made)
    }

    /// Asks that the next picture be a keyframe.
    pub fn force_keyframe(&mut self)
        requires
            old(self).wf(),
        ensures
            final(self).wf(),
            final(self).spec_width() == old(self).spec_width(),
            final(self).spec_height() == old(self).spec_height(),
            final(self).last_rgb() == old(self).last_rgb(),
            final(self).key_due(),
    {
        self.pending_key = true;
    }
}

/// What an access unit comes to, given what OpenH264 made of it: a picture with its measures, `None`
/// while the picture is held back, or an error.
pub fn decoded(found: Result<Option<(usize, usize, Vec<u8>)>, openh264::Error>) -> (r: Result<
    Option<(u32, u32, Vec<u8>)>,
    H264Error,
>)
    requires
        found matches Ok(Some(p)) ==> p.0 <= u32::MAX && p.1 <= u32::MAX,
    ensures
        match found {
            Ok(Some(p)) => r matches Ok(Some(q)) && q.0 == p.0 && q.1 == p.1 && q.2@ == p.2@,
            Ok(None) => r matches Ok(None),
            Err(_) => r matches Err(e) && e == H264Error::Decode,
        },
{
    match found {
        Ok(Some((w, h, rgba))) => Ok(Some((w as u32, h as u32, rgba))),
        Ok(None) => Ok(None),
        Err(_) => Err(H264Error::Decode),
    }
}

/// An H.264 decoder that gives RGBA pictures.
pub struct H264Decoder {
    dec: Decoder,
}

impl H264Decoder {
    /// The decoder of OpenH264 that does the work.
    pub closed spec fn inner(&self) -> Decoder {
        self.dec
    }

    /// A decoder, given what came of making one with OpenH264.
    pub fn with_made(made: Result<Decoder, openh264::Error>) -> (r: Result<H264Decoder, H264Error>)
        ensures
            match made {
                Ok(dec) => r matches Ok(d) && d.inner() == dec,
                Err(_) => r matches Err(e) && e == H264Error::CreateDecoder,
            },
    {
        match made {
            Ok(dec) => Ok(H264Decoder { dec }),
            Err(_) => Err(H264Error::CreateDecoder),
        }
    }

    /// A decoder.
    pub fn new() -> (r: Result<H264Decoder, H264Error>)
        ensures
            r matches Err(e) ==> e == H264Error::CreateDecoder,
    {
        H264Decoder::with_made(create_decoder())
    }

    /// Decodes one access unit: width, height and opaque pixels of a picture, or `None` while the
    /// decoder holds it back.
    pub fn decode_rgba(&mut self, data: &[u8]) -> (r: Result<
        Option<(u32, u32, Vec<u8>)>,
        H264Error,
    >)
        requires
            data@.len() <= i32::MAX,
        ensures
            r matches Ok(Some(p)) ==> is_opaque_picture(p.0 as int, p.1 as int, p.2@) && given_for(
                p.2@,
                p.0 as int,
                p.1 as int,
                data@,
            ),
            r matches Err(e) ==> e == H264Error::Decode,
    {
        let found = decode_picture(&mut self.dec, data);
        decoded(found)
    }
}

/// A request for a keyframe is kept until a packet comes out, however often the encoder fails or
/// leaves a picture out in between, and it is not made twice. None is due that was not asked for.
pub proof fn law_request_lasts_until_a_packet(due: bool, packet: Seq<u8>)
    ensures
        due_after(due, None) == due,
        packet.len() == 0 ==> due_after(due, Some(packet)) == due,
        packet.len() > 0 ==> !due_after(due, Some(packet)),
        !due ==> !due_after(due, Some(packet)) && !due_after(due, None),
{
}

/// An encoder has at least one thread and at most eight, and as many as there are cores in between.
pub proof fn law_threads_are_bounded(cores: usize)
    ensures
        1 <= thread_count(Some(cores)) <= 8,
        1 <= cores <= 8 ==> thread_count(Some(cores)) == cores,
        cores > 8 ==> thread_count(Some(cores)) == 8,
        thread_count(Some(0)) == 1,
        thread_count(None) == 4,
{
}

/// A picture of up to 3840 by 2160 is taken, upright or lying, and a larger one is not.
pub proof fn law_largest_picture(w: int, h: int)
    ensures
        too_large(w, h) == too_large(h, w),
        w <= 3840 && h <= 2160 ==> !too_large(w, h),
        w > 3840 || h > 3840 || (w > 2160 && h > 2160) ==> too_large(w, h),
{
}

} // verus!
