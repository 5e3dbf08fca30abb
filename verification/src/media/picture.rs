//! Pictures: decoding the one that ffmpeg hands over, and encoding a frame.

use crate::media::media_viewed;
use crate::media::MediaError;
use crate::media::MediaFault;
use crate::text::cat2;
use crate::text::cat3;
use vstd::prelude::*;

verus! {

/// A picture of four bytes per pixel: red, green, blue and alpha.
#[derive(Debug)]
pub struct RgbaFrame {
    pub width: u32,
    pub height: u32,
    pub rgba: Vec<u8>,
}

/// The view of an [`RgbaFrame`].
#[verifier::ext_equal]
pub struct FrameView {
    pub width: u32,
    pub height: u32,
    pub rgba: Seq<u8>,
}

impl View for RgbaFrame {
    type V = FrameView;

    open spec fn view(&self) -> FrameView {
        FrameView { width: self.width, height: self.height, rgba: self.rgba@ }
    }
}

/// Whether a picture has exactly the bytes that its size takes.
pub open spec fn complete(f: FrameView) -> bool {
    f.rgba.len() == f.width * f.height * 4
}

impl RgbaFrame {
    /// A picture.
    pub fn new(width: u32, height: u32, rgba: Vec<u8>) -> (r: RgbaFrame)
        ensures
            r@ == (FrameView { width, height, rgba: rgba@ }),
    {
        RgbaFrame { width, height, rgba }
    }
}

/// The picture that a BMP file holds, as width, height and pixels, or why it could
/// not be read.
pub uninterp spec fn bmp_picture(bytes: Seq<u8>) -> Result<(u32, u32, Seq<u8>), Seq<char>>;

/// What a decoder handed over, with its pixels as a sequence.
pub open spec fn handed_over(r: Result<(u32, u32, Vec<u8>), String>) -> Result<
    (u32, u32, Seq<u8>),
    Seq<char>,
> {
    match r {
        Ok(x) => Ok((x.0, x.1, x.2@)),
        Err(e) => Err(e@),
    }
}

/// Calls `image::load_from_memory_with_format` for the BMP format and then
/// `DynamicImage::into_rgba8` on the picture. The result depends on the bytes alone,
/// and a picture has four bytes for each of its pixels.
#[verifier::external_body]
fn load_bmp(bytes: &[u8]) -> (r: Result<(u32, u32, Vec<u8>), String>)
    ensures
        handed_over(r) == bmp_picture(bytes@),
        r matches Ok(x) ==> x.2@.len() == x.0 * x.1 * 4,
{
    match image::load_from_memory_with_format(bytes, image::ImageFormat::Bmp) {
        Ok(picture) => {
            let pixels = picture.into_rgba8();
            Ok((pixels.width(), pixels.height(), pixels.into_raw()))
        },
        Err(error) => Err(error.to_string()),
    }
}

/// The PNG file of a picture, or why it could not be written.
pub uninterp spec fn png_file(rgba: Seq<u8>, width: u32, height: u32) -> Result<
    Seq<u8>,
    Seq<char>,
>;

/// What an encoder wrote.
pub open spec fn written_out(r: Result<Vec<u8>, String>) -> Result<Seq<u8>, Seq<char>> {
    match r {
        Ok(bytes) => Ok(bytes@),
        Err(e) => Err(e@),
    }
}

/// Calls `PngEncoder::write_image` of the `image` crate with its default settings and
/// the colour type of four bytes per pixel. The result depends on the picture alone.
/// The encoder panics where the number of bytes is not the one that the size takes.
#[verifier::external_body]
fn write_png(rgba: &[u8], width: u32, height: u32) -> (r: Result<Vec<u8>, String>)
    requires
        rgba@.len() == width * height * 4,
    ensures
        written_out(r) == png_file(rgba@, width, height),
{
    let mut bytes = Vec::new();
    let encoder = image::codecs::png::PngEncoder::new(&mut bytes);
    let color = image::ExtendedColorType::Rgba8;
    match image::ImageEncoder::write_image(encoder, rgba, width, height, color) {
        Ok(()) => Ok(bytes),
        Err(error) => Err(error.to_string()),
    }
}

/// The frame that a decoder's answer makes.
pub open spec fn decoded_frame(r: Result<(u32, u32, Seq<u8>), Seq<char>>) -> Result<
    FrameView,
    MediaFault,
> {
    match r {
        Ok((width, height, rgba)) => Ok(FrameView { width, height, rgba }),
        Err(e) => Err(MediaFault::Decode("bmp decode: "@ + e)),
    }
}

/// Makes a frame of a decoder's answer.
pub fn frame_of(decoded: Result<(u32, u32, Vec<u8>), String>) -> (r: Result<RgbaFrame, MediaError>)
    ensures
        media_viewed(r) == decoded_frame(handed_over(decoded)),
{
    match decoded {
        Ok((width, height, rgba)) => Ok(RgbaFrame::new(width, height, rgba)),
        Err(e) => Err(MediaError::Decode(cat2("bmp decode: ", e.as_str()))),
    }
}

/// The complaint that there is no frame at a time.
pub open spec fn no_frame(time: Seq<char>) -> MediaFault {
    MediaFault::Decode("no frame at "@ + time + "s"@)
}

/// Reads the one frame that ffmpeg wrote as a BMP file. `succeeded` is whether it
/// ended well, `time` the time that was asked for.
pub fn retained_frame(succeeded: bool, bmp: &Vec<u8>, time: &str) -> (r: Result<
    RgbaFrame,
    MediaError,
>)
    ensures
        media_viewed(r) == (if !succeeded || bmp@.len() == 0 {
            Err(no_frame(time@))
        } else {
            decoded_frame(bmp_picture(bmp@))
        }),
        r matches Ok(f) ==> complete(f@),
{
    if !succeeded || bmp.len() == 0 {
        return Err(MediaError::Decode(cat3("no frame at ", time, "s")));
    }
    frame_of(load_bmp(bmp.as_slice()))
}

/// What an encoder's answer makes.
pub open spec fn encoded_file(r: Result<Seq<u8>, Seq<char>>) -> Result<Seq<u8>, MediaFault> {
    match r {
        Ok(bytes) => Ok(bytes),
        Err(e) => Err(MediaFault::Encode("png: "@ + e)),
    }
}

/// The view of an encoded file.
pub open spec fn file_view(r: Result<Vec<u8>, MediaError>) -> Result<Seq<u8>, MediaFault> {
    match r {
        Ok(bytes) => Ok(bytes@),
        Err(e) => Err(e@),
    }
}

/// Makes a file of an encoder's answer.
pub fn file_of(written: Result<Vec<u8>, String>) -> (r: Result<Vec<u8>, MediaError>)
    ensures
        file_view(r) == encoded_file(written_out(written)),
{
    match written {
        Ok(bytes) => Ok(bytes),
        Err(e) => Err(MediaError::Encode(cat2("png: ", e.as_str()))),
    }
}

/// Encodes a frame as a PNG file.
pub fn encode_png(frame: &RgbaFrame) -> (r: Result<Vec<u8>, MediaError>)
    requires
        complete(frame@),
    ensures
        file_view(r) == encoded_file(png_file(frame@.rgba, frame@.width, frame@.height)),
{
    file_of(write_png(frame.rgba.as_slice(), frame.width, frame.height))
}

} // verus!
