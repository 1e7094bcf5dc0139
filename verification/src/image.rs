//! From the finished pixels to an image file's bytes.

use vstd::prelude::*;
use crate::color::Color;

verus! {

/// Why an image could not be encoded.
#[derive(Clone, Copy, Debug, PartialEq, Eq, Structural)]
pub enum ImageError {
    /// The width or the height is zero.
    Empty,
    /// The width or the height does not fit in 32 bits.
    TooLarge,
    /// The number of pixels is not the width times the height.
    SizeMismatch,
    /// The encoder gave up.
    Encoder,
}

/// The 8-bit RGB samples of an image: for each pixel in order its red, green
/// and blue channel. Alpha is left out.
pub open spec fn rgb_bytes(pixels: Seq<Color>) -> Seq<u8> {
    Seq::new(
        3 * pixels.len(),
        |i: int|
            if i % 3 == 0 {
                pixels[i / 3].r
            } else if i % 3 == 1 {
                pixels[i / 3].g
            } else {
                pixels[i / 3].b
            },
    )
}

/// Lays the pixels out as 8-bit RGB samples.
pub fn to_rgb(pixels: &Vec<Color>) -> (samples: Vec<u8>)
    ensures
        samples@ == rgb_bytes(pixels@),
{
    let mut samples: Vec<u8> = Vec::new();
    let mut i: usize = 0;
    while i < pixels.len()
        invariant
            i <= pixels@.len(),
            samples@ == rgb_bytes(pixels@.take(i as int)),
        decreases pixels@.len() - i,
    {
        let pixel = pixels[i];
        samples.push(pixel.r);
        samples.push(pixel.g);
        samples.push(pixel.b);
        i += 1;
        assert(samples@ =~= rgb_bytes(pixels@.take(i as int)));
    }
    assert(pixels@.take(i as int) =~= pixels@);
    samples
}

#[verifier::external_type_specification]
#[verifier::external_body]
pub struct ExEncodingError(png::EncodingError);

/// The PNG stream that the encoder writes for an 8-bit RGB image of the
/// given width and height with the given samples, or `None` where it
/// refuses them.
pub uninterp spec fn png_stream(width: u32, height: u32, samples: Seq<u8>) -> Option<Seq<u8>>;

/// Encodes 8-bit RGB samples with the `png` crate, into memory: an
/// `Encoder` on a fresh vector, set to `ColorType::Rgb` and
/// `BitDepth::Eight`, then `write_header`, `write_image_data` and `finish`.
/// The contract gives what comes back a name and claims nothing else of it:
/// the stream is a function of the width, the height and the samples.
#[verifier::external_body]
fn write_png(width: u32, height: u32, samples: &Vec<u8>) -> (stream: Result<Vec<u8>, png::EncodingError>)
    requires
        width > 0,
        height > 0,
        samples@.len() == 3 * (width * height),
    ensures
        match stream {
            Ok(bytes) => png_stream(width, height, samples@) == Some(bytes@),
            Err(_) => png_stream(width, height, samples@) is None,
        },
{
    let mut out: Vec<u8> = Vec::new();
    let mut encoder = png::Encoder::new(&mut out, width, height);
    encoder.set_color(png::ColorType::Rgb);
    encoder.set_depth(png::BitDepth::Eight);
    let mut writer = encoder.write_header()?;
    writer.write_image_data(samples)?;
    writer.finish()?;
    Ok(out)
}

/// What `encode_png` returns for what the encoder gave: its stream, or the
/// error that says it gave up.
pub open spec fn delivered(stream: Option<Seq<u8>>, result: Result<Vec<u8>, ImageError>) -> bool {
    match stream {
        Some(bytes) => result is Ok && result->Ok_0@ == bytes,
        None => result == Err::<Vec<u8>, ImageError>(ImageError::Encoder),
    }
}

/// Turns the encoder's answer into the library's: the stream as it is, and
/// any failure of the encoder into `ImageError::Encoder`.
pub fn deliver(stream: Result<Vec<u8>, png::EncodingError>) -> (result: Result<Vec<u8>, ImageError>)
    ensures
        match stream {
            Ok(bytes) => result == Ok::<Vec<u8>, ImageError>(bytes),
            Err(_) => result == Err::<Vec<u8>, ImageError>(ImageError::Encoder),
        },
{
    match stream {
        Ok(bytes) => Ok(bytes),
        Err(_) => Err(ImageError::Encoder),
    }
}

/// The error that the dimensions of an image call for, if any: a zero side
/// first, then a side beyond 32 bits, then a pixel count that is not the
/// width times the height.
pub open spec fn dimension_error(width: usize, height: usize, num_pixels: nat) -> Option<ImageError> {
    if width == 0 || height == 0 {
        Some(ImageError::Empty)
    } else if width > u32::MAX || height > u32::MAX {
        Some(ImageError::TooLarge)
    } else if num_pixels != width * height {
        Some(ImageError::SizeMismatch)
    } else {
        None
    }
}

/// Encodes a row-major image as an 8-bit RGB PNG file, in memory. The
/// dimensions are checked first; where they are in order the samples of
/// `rgb_bytes` go to the encoder, and the result is its stream.
pub fn encode_png(pixels: &Vec<Color>, width: usize, height: usize) -> (result: Result<Vec<u8>, ImageError>)
    ensures
        match dimension_error(width, height, pixels@.len()) {
            Some(error) => result == Err::<Vec<u8>, ImageError>(error),
            None => delivered(png_stream(width as u32, height as u32, rgb_bytes(pixels@)), result),
        },
{
    if width == 0 || height == 0 {
        return Err(ImageError::Empty);
    }
    if width > 0xffff_ffff || height > 0xffff_ffff {
        return Err(ImageError::TooLarge);
    }
    let count: usize = pixels.len();
    match width.checked_mul(height) {
        Some(n) => {
            if n != count {
                return Err(ImageError::SizeMismatch);
            }
        },
        None => {
            return Err(ImageError::SizeMismatch);
        },
    }
    let samples = to_rgb(pixels);
    let stream = write_png(narrow(width), narrow(height), &samples);
    deliver(stream)
}

/// The same number in 32 bits.
fn narrow(n: usize) -> (m: u32)
    requires
        n <= u32::MAX,
    ensures
        m == n,
{
    n as u32
}

} // verus!
