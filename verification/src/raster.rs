//! The source raster: a decoded width-by-height RGB pixel buffer,
//! row-major, 8 bits per channel, read-only during sampling.
use vstd::prelude::*;

verus! {

/// One color: three 8-bit channels.
#[derive(Clone, Copy, Debug, PartialEq, Eq, Structural)]
pub struct Rgb {
    pub r: u8,
    pub g: u8,
    pub b: u8,
}

/// A decoded image: `width * height` pixels, row-major, three bytes
/// (red, green, blue) per pixel.
#[derive(Clone, Debug, PartialEq, Eq)]
pub struct Raster {
    pub width: usize,
    pub height: usize,
    pub data: Vec<u8>,
}

impl Raster {
    /// The buffer holds exactly three bytes for each of the
    /// `width * height` pixels.
    pub open spec fn wf(self) -> bool {
        self.data@.len() == self.width * self.height * 3
    }

    /// Channel `c` (0 = red, 1 = green, 2 = blue) of the pixel at
    /// column `x`, row `y`.
    pub open spec fn chan(self, x: int, y: int, c: int) -> u8 {
        self.data@[(y * self.width + x) * 3 + c]
    }

    /// The color of the pixel at column `x`, row `y`.
    pub open spec fn pixel(self, x: int, y: int) -> Rgb {
        Rgb { r: self.chan(x, y, 0), g: self.chan(x, y, 1), b: self.chan(x, y, 2) }
    }

    /// Reads the pixel at column `x`, row `y`.
    pub fn pixel_at(&self, x: usize, y: usize) -> (p: Rgb)
        requires
            self.wf(),
            x < self.width,
            y < self.height,
        ensures
            p == self.pixel(x as int, y as int),
    {
        // An exec read of the length bounds it as a usize for the
        // index arithmetic below.
        let n: usize = self.data.len();
        proof {
            assert((y * self.width + x) * 3 + 2 < self.width * self.height * 3) by (nonlinear_arith)
                requires x < self.width, y < self.height;
        }
        let idx: usize = (y * self.width + x) * 3;
        Rgb { r: self.data[idx], g: self.data[idx + 1], b: self.data[idx + 2] }
    }
}

/// The error of the image crate's decoders, carried through opaquely.
#[verifier::external_type_specification]
#[verifier::external_body]
pub struct ExImageError(image::ImageError);

/// Why raw bytes could not become a raster.
#[derive(Clone, Copy, Debug, PartialEq, Eq, Structural)]
pub enum RasterError {
    /// The bytes are not a decodable image.
    Undecodable,
    /// The decoded buffer holds more than three bytes per pixel, so it
    /// is not a plain RGB raster.
    BufferSize,
}

/// Relies on image::load_from_memory, DynamicImage::into_rgb8 and
/// ImageBuffer::into_raw: a decoded RGB8 buffer holds at least
/// `width * height * 3` bytes (every ImageBuffer constructor checks
/// that bound), row-major, three bytes per pixel.
#[verifier::external_body]
fn decode_rgb(bytes: &[u8]) -> (r: Result<(usize, usize, Vec<u8>), image::ImageError>)
    ensures
        r is Ok ==> r->Ok_0.2@.len() >= r->Ok_0.0 * r->Ok_0.1 * 3,
{
    let img = image::load_from_memory(bytes)?.into_rgb8();
    let width = img.width() as usize;
    let height = img.height() as usize;
    Ok((width, height, img.into_raw()))
}

/// Judges a decoded buffer: exactly when it holds exactly three bytes
/// per pixel of the claimed dimensions, it is a well-formed raster.
pub fn raster_from_parts(width: usize, height: usize, data: Vec<u8>) -> (r: Result<
    Raster,
    RasterError,
>)
    ensures
        data@.len() == width * height * 3 ==> r == Ok::<Raster, RasterError>(
            Raster { width, height, data },
        ),
        data@.len() != width * height * 3 ==> r == Err::<Raster, RasterError>(
            RasterError::BufferSize,
        ),
{
    // An exec read of the length bounds it as a usize, which rules the
    // buffer out when the expected size overflows a usize.
    let actual: usize = data.len();
    let expect: Option<usize> = width.checked_mul(height);
    let expect3: Option<usize> = match expect {
        Some(n) => n.checked_mul(3),
        None => None,
    };
    match expect3 {
        Some(n) => {
            proof {
                assert(n == width * height * 3);
            }
            if actual == n {
                Ok(Raster { width, height, data })
            } else {
                Err(RasterError::BufferSize)
            }
        },
        None => {
            proof {
                assert(width * height * 3 > usize::MAX) by (nonlinear_arith)
                    requires
                        width * height > usize::MAX || (width * height <= usize::MAX && width
                            * height * 3 > usize::MAX);
            }
            Err(RasterError::BufferSize)
        },
    }
}

/// Decodes raw image bytes (any format the image crate knows) into a
/// well-formed raster. Whether the bytes decode is the decoder's
/// decision; whatever comes back, a returned raster is well formed.
pub fn raster_from_bytes(bytes: &[u8]) -> (r: Result<Raster, RasterError>)
    ensures
        r is Ok ==> r->Ok_0.wf(),
{
    match decode_rgb(bytes) {
        Ok((width, height, data)) => raster_from_parts(width, height, data),
        Err(_) => Err(RasterError::Undecodable),
    }
}

} // verus!
