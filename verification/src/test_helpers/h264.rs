//! An OpenH264 encoder together with the record of what was asked of it:
//! which frames it was handed, when a keyframe was forced, and which
//! bitstream came back. Only the methods here extend the record, each beside
//! the one encoder call it describes.
use vstd::prelude::*;
use openh264::encoder::Encoder;
use openh264::formats::{RgbaSliceU8, YUVBuffer};

verus! {

#[verifier::external_type_specification]
#[verifier::external_body]
pub struct ExH264Encoder(openh264::encoder::Encoder);

#[verifier::external_type_specification]
#[verifier::external_body]
pub struct ExH264Error(openh264::Error);

#[verifier::external_type_specification]
#[verifier::external_body]
pub struct ExYUVBuffer(openh264::formats::YUVBuffer);

#[verifier::external_type_specification]
#[verifier::external_body]
pub struct ExRgbaSliceU8<'a>(openh264::formats::RgbaSliceU8<'a>);

/// Calls `openh264::encoder::Encoder::new`: an encoder with default
/// settings, or the error OpenH264 reported. Nothing is stated of either.
#[verifier::external_body]
fn new_h264_encoder() -> (r: Result<Encoder, openh264::Error>) {
    Encoder::new()
}

/// Calls `Encoder::force_intra_frame`: the next frame is encoded as a
/// keyframe. The encoder's state is opaque, so nothing is stated.
#[verifier::external_body]
fn force_intra_frame(encoder: &mut Encoder) {
    encoder.force_intra_frame()
}

/// RGBA pixels viewed as OpenH264's source type, together with the bytes
/// and size they were viewed as.
pub struct RgbaPixels<'a> {
    pixels: RgbaSliceU8<'a>,
    source: Ghost<Seq<u8>>,
    width: Ghost<usize>,
    height: Ghost<usize>,
}

impl<'a> RgbaPixels<'a> {
    /// The RGBA bytes viewed.
    pub closed spec fn source(&self) -> Seq<u8> {
        self.source@
    }

    /// The width in pixels.
    pub closed spec fn width(&self) -> usize {
        self.width@
    }

    /// The height in pixels.
    pub closed spec fn height(&self) -> usize {
        self.height@
    }
}

/// Calls `openh264::formats::RgbaSliceU8::new`: the bytes viewed as RGBA
/// pixels of the given size; the view keeps the slice and the size. The
/// constructor asserts that the slice holds `width * height` pixels and
/// that both sizes are even, so those are required.
#[verifier::external_body]
fn rgba_pixels<'a>(rgba: &'a [u8], width: usize, height: usize) -> (r: RgbaPixels<'a>)
    requires
        rgba@.len() == width * height * 4,
        width % 2 == 0,
        height % 2 == 0,
    ensures
        r.source() == rgba@,
        r.width() == width,
        r.height() == height,
{
    RgbaPixels {
        pixels: RgbaSliceU8::new(rgba, (width, height)),
        source: Ghost(rgba@),
        width: Ghost(width),
        height: Ghost(height),
    }
}

/// Calls `YUVBuffer::from_rgb_source`: the pixels converted to YUV 4:2:0 at
/// the same size. It panics only for odd dimensions, which an
/// `RgbaSliceU8` cannot have (its constructor asserts even ones). The frame
/// records the pixels it was converted from; the converted values are not
/// described.
#[verifier::external_body]
fn yuv_from_rgba(pixels: RgbaPixels<'_>) -> (r: H264Frame)
    ensures
        r.source() == pixels.source(),
        r.width() == pixels.width(),
        r.height() == pixels.height(),
{
    H264Frame {
        yuv: YUVBuffer::from_rgb_source(pixels.pixels),
        source: Ghost(pixels.source@),
        width: Ghost(pixels.width@),
        height: Ghost(pixels.height@),
    }
}

/// Calls `Encoder::encode` on one frame and copies the resulting bitstream
/// (Annex B: NAL units behind start codes) with `EncodedBitStream::to_vec`.
/// What the encoder produces depends on its internal state, so nothing is
/// stated of the bytes.
#[verifier::external_body]
fn encode_yuv(encoder: &mut Encoder, yuv: &YUVBuffer) -> (r: Result<Vec<u8>, openh264::Error>) {
    match encoder.encode(yuv) {
        Ok(stream) => Ok(stream.to_vec()),
        Err(e) => Err(e),
    }
}

/// Whether `s` begins with `p`.
pub open spec fn starts_with(s: Seq<char>, p: Seq<char>) -> bool {
    p.len() <= s.len() && s.subrange(0, p.len() as int) == p
}

/// Formats an OpenH264 error after `context` with `format!("{}: {:?}")`:
/// the text is `context`, then `": "`, then the error's debug text. The
/// debug text is not modelled, so only the beginning is stated.
#[verifier::external_body]
pub(crate) fn h264_error_message(context: &str, e: &openh264::Error) -> (r: String)
    ensures
        starts_with(r@, context@ + ": "@),
{
    format!("{}: {:?}", context, e)
}

/// A frame ready for the encoder: RGBA pixels converted to YUV, together
/// with the pixels and size it was made from.
pub struct H264Frame {
    yuv: YUVBuffer,
    source: Ghost<Seq<u8>>,
    width: Ghost<usize>,
    height: Ghost<usize>,
}

impl H264Frame {
    /// The RGBA bytes the frame was converted from.
    pub closed spec fn source(&self) -> Seq<u8> {
        self.source@
    }

    /// The frame's width in pixels.
    pub closed spec fn width(&self) -> usize {
        self.width@
    }

    /// The frame's height in pixels.
    pub closed spec fn height(&self) -> usize {
        self.height@
    }

    /// Converts `width * height` RGBA pixels to YUV 4:2:0. Both sizes must
    /// be even and the bytes must hold exactly that many pixels, as
    /// OpenH264 asserts.
    pub fn from_rgba(rgba: &[u8], width: usize, height: usize) -> (r: H264Frame)
        requires
            rgba@.len() == width * height * 4,
            width % 2 == 0,
            height % 2 == 0,
        ensures
            r.source() == rgba@,
            r.width() == width,
            r.height() == height,
    {
        let pixels = rgba_pixels(rgba, width, height);
        yuv_from_rgba(pixels)
    }
}

/// One thing asked of an encoder, with what came of it.
pub enum EncoderEvent {
    /// The next frame was to be a keyframe.
    ForcedIntra,
    /// A frame of the given size was encoded into `bitstream`.
    Encoded { frame: Seq<u8>, width: usize, height: usize, bitstream: Seq<u8> },
    /// Encoding a frame of the given size failed.
    Failed { frame: Seq<u8>, width: usize, height: usize },
}

/// The event that encoding `frame` with outcome `r` adds to the record.
pub open spec fn encode_event(frame: H264Frame, r: Result<Vec<u8>, openh264::Error>) -> EncoderEvent {
    match r {
        Ok(b) => EncoderEvent::Encoded {
            frame: frame.source(),
            width: frame.width(),
            height: frame.height(),
            bitstream: b@,
        },
        Err(_) => EncoderEvent::Failed {
            frame: frame.source(),
            width: frame.width(),
            height: frame.height(),
        },
    }
}

/// An OpenH264 encoder and the record of everything asked of it, oldest
/// first.
pub struct H264Session {
    encoder: Encoder,
    trace: Ghost<Seq<EncoderEvent>>,
}

impl H264Session {
    /// Everything asked of the encoder so far, oldest first.
    pub closed spec fn trace(&self) -> Seq<EncoderEvent> {
        self.trace@
    }

    /// A new encoder with default settings and nothing asked of it yet, or,
    /// when OpenH264 cannot create one, an error saying so.
    pub fn new() -> (r: Result<H264Session, String>)
        ensures
            match r {
                Ok(s) => s.trace() == Seq::<EncoderEvent>::empty(),
                Err(e) => starts_with(e@, "Failed to create H.264 encoder"@ + ": "@),
            },
    {
        match new_h264_encoder() {
            Ok(encoder) => Ok(H264Session { encoder, trace: Ghost(Seq::empty()) }),
            Err(e) => Err(h264_error_message("Failed to create H.264 encoder", &e)),
        }
    }

    /// Makes the next frame a keyframe.
    pub fn force_intra_frame(&mut self)
        ensures
            final(self).trace() == old(self).trace().push(EncoderEvent::ForcedIntra),
    {
        force_intra_frame(&mut self.encoder);
        proof {
            self.trace@ = self.trace@.push(EncoderEvent::ForcedIntra);
        }
    }

    /// Encodes one frame, giving the bitstream the encoder produced or the
    /// error it reported.
    pub fn encode(&mut self, frame: &H264Frame) -> (r: Result<Vec<u8>, openh264::Error>)
        ensures
            final(self).trace() == old(self).trace().push(encode_event(*frame, r)),
    {
        let r = encode_yuv(&mut self.encoder, &frame.yuv);
        proof {
            self.trace@ = self.trace@.push(encode_event(*frame, r));
        }
        r
    }
}

} // verus!
