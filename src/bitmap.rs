use forma_render::styling::{Image, ImageError};
use vstd::prelude::*;

verus! {

#[verifier::external_type_specification]
#[verifier::external_body]
pub struct ExImage(Image);

#[verifier::external_type_specification]
#[verifier::external_body]
pub struct ExImageError(ImageError);

/// The pixels of an RGBA buffer: `count` groups of four bytes, row by row.
pub open spec fn rgba_pixels(bytes: Seq<u8>, count: nat) -> Seq<Seq<u8>> {
    Seq::new(count, |i: int| bytes.subrange(4 * i, 4 * i + 4))
}

/// Relies on `image::RgbaImage::from_vec`, which accepts a buffer of at least
/// `4 * width * height` bytes (a product that overflows is refused), and on
/// `ImageBuffer::pixels`, which hands out the first `width * height` groups of four
/// bytes in order.
#[verifier::external_body]
fn rgba_from_vec(width: u32, height: u32, data: Vec<u8>) -> (r: Option<Vec<[u8; 4]>>)
    ensures
        r.is_some() <==> 4 * width * height <= data@.len(),
        r.is_some() ==> r.unwrap()@.map_values(|p: [u8; 4]| p@) == rgba_pixels(
            data@,
            (width * height) as nat,
        ),
{
    let image = image::RgbaImage::from_vec(width, height, data)?;
    Some(image.pixels().map(|p| p.0).collect())
}

/// Relies on `forma_render::styling::Image::from_srgba`, which builds an image when
/// `width * height` matches the number of pixels and fits in a `u32`, and fails
/// otherwise. It computes `width * height` unchecked, hence the bound.
#[verifier::external_body]
fn image_from_srgba(data: &Vec<[u8; 4]>, width: usize, height: usize) -> (r: Result<Image, ImageError>)
    requires
        width * height <= usize::MAX,
    ensures
        r.is_ok() <==> (width * height <= u32::MAX && width * height == data@.len()),
{
    Image::from_srgba(&data[..], width, height)
}

/// What a rasterized glyph bitmap holds.
#[derive(Debug, Clone, Copy, PartialEq, Eq, Structural)]
pub enum BitmapContent {
    /// One byte of coverage per pixel.
    Mask,
    /// Four bytes of coverage per pixel, one per subpixel.
    SubpixelMask,
    /// Four bytes of color per pixel: red, green, blue, alpha.
    Color,
}

/// A glyph bitmap as the rasterizer hands it out.
pub struct GlyphBitmap {
    pub content: BitmapContent,
    pub width: u32,
    pub height: u32,
    pub data: Vec<u8>,
}

/// A decoded color bitmap, ready for the compositor, with its size in pixels.
pub struct BitmapImage {
    image: Image,
    width: u32,
    height: u32,
}

impl BitmapImage {
    pub closed spec fn width_view(&self) -> u32 {
        self.width
    }

    pub closed spec fn height_view(&self) -> u32 {
        self.height
    }

    /// The compositor's image.
    pub fn image(&self) -> &Image {
        &self.image
    }

    /// Width in pixels.
    pub fn width(&self) -> (r: u32)
        ensures
            r == self.width_view(),
    {
        self.width
    }

    /// Height in pixels.
    pub fn height(&self) -> (r: u32)
        ensures
            r == self.height_view(),
    {
        self.height
    }
}

impl GlyphBitmap {
    /// A bitmap is decoded when it holds color and exactly four bytes for each of
    /// its pixels, and the compositor can hold that many pixels.
    pub open spec fn decodable(&self) -> bool {
        &&& self.content == BitmapContent::Color
        &&& self.data@.len() == 4 * self.width * self.height
        &&& self.width * self.height <= u32::MAX
    }

    /// Decodes a color bitmap into a compositor image of the same size; nothing for
    /// a coverage mask or a buffer of the wrong length.
    pub fn convert(self) -> (r: Option<BitmapImage>)
        ensures
            r.is_some() <==> self.decodable(),
            r.is_some() ==> r.unwrap().width_view() == self.width && r.unwrap().height_view()
                == self.height,
    {
        if self.content != BitmapContent::Color {
            return None;
        }
        let width = self.width;
        let height = self.height;
        proof {
            assert(0 <= width * height <= u32::MAX * u32::MAX) by (nonlinear_arith);
        }
        let expected = (width as u64) * (height as u64);
        assert(4 * width * height == 4 * expected) by (nonlinear_arith)
            requires
                expected == width * height,
        ;
        if expected > u32::MAX as u64 || self.data.len() as u64 != 4 * expected {
            return None;
        }
        let pixels = match rgba_from_vec(width, height, self.data) {
            Some(p) => p,
            None => return None,
        };
        proof {
            assert(pixels@.map_values(|p: [u8; 4]| p@).len() == pixels@.len());
        }
        match image_from_srgba(&pixels, width as usize, height as usize) {
            Ok(image) => Some(BitmapImage { image, width, height }),
            Err(_) => None,
        }
    }
}

} // verus!
