//! Decoded images.
use std::io::Error;




use vstd::prelude::*;

verus! {

#[verifier::external_type_specification]
#[verifier::external_body]
pub struct ExDynamicImage(image::DynamicImage);

#[verifier::external_type_specification]
#[verifier::external_body]
pub struct ExIoError(Error);

/// How the pixels of a decoded image are stored.
#[derive(Debug, Clone, Copy, PartialEq, Eq, Structural)]
pub enum PixelLayout {
    Luma8,
    LumaA8,
    Rgb8,
    Rgba8,
    Luma16,
    LumaA16,
    Rgb16,
    Rgba16,
    Rgb32F,
    Rgba32F,
    /// A layout that the `image` crate may add later.
    Unknown,
}

/// Bytes counted per pixel for the memory size of an image (one-channel 8-bit
/// images are counted at four bytes, like RGBA).
pub open spec fn bytes_per_pixel(layout: PixelLayout) -> u32 {
    match layout {
        PixelLayout::Luma8 => 4,
        PixelLayout::LumaA8 => 2,
        PixelLayout::Rgb8 => 3,
        PixelLayout::Rgba8 => 4,
        PixelLayout::Luma16 => 2,
        PixelLayout::LumaA16 => 4,
        PixelLayout::Rgb16 => 6,
        PixelLayout::Rgba16 => 8,
        PixelLayout::Rgb32F => 12,
        PixelLayout::Rgba32F => 16,
        PixelLayout::Unknown => 0,
    }
}

/// The memory size of a `width` x `height` image, computed in 32-bit arithmetic
/// that wraps around.
pub open spec fn spec_image_size(layout: PixelLayout, width: u32, height: u32) -> usize {
    vstd::wrapping::u32_specs::wrapping_mul(
        vstd::wrapping::u32_specs::wrapping_mul(width, height),
        bytes_per_pixel(layout),
    ) as usize
}

/// The memory size of a `width` x `height` image stored as `layout`.
pub fn image_size(layout: PixelLayout, width: u32, height: u32) -> (r: usize)
    ensures
        r == spec_image_size(layout, width, height),
{
    let bpp: u32 = match layout {
        PixelLayout::Luma8 => 4,
        PixelLayout::LumaA8 => 2,
        PixelLayout::Rgb8 => 3,
        PixelLayout::Rgba8 => 4,
        PixelLayout::Luma16 => 2,
        PixelLayout::LumaA16 => 4,
        PixelLayout::Rgb16 => 6,
        PixelLayout::Rgba16 => 8,
        PixelLayout::Rgb32F => 12,
        PixelLayout::Rgba32F => 16,
        PixelLayout::Unknown => 0,
    };
    width.wrapping_mul(height).wrapping_mul(bpp) as usize
}

/// The variant of `image::DynamicImage` that `image` is, as a pixel layout.
pub uninterp spec fn image_pixel_layout(image: image::DynamicImage) -> PixelLayout;

/// What `image::DynamicImage::width` answers for `image`.
pub uninterp spec fn image_width_of(image: image::DynamicImage) -> u32;

/// What `image::DynamicImage::height` answers for `image`.
pub uninterp spec fn image_height_of(image: image::DynamicImage) -> u32;

/// What `DynamicImage::to_rgba8` and `into_raw` give for `image`: its pixels as
/// 8-bit RGBA, row by row.
pub uninterp spec fn image_rgba8_of(image: image::DynamicImage) -> Seq<u8>;

/// `DynamicImage::to_rgba8`, then `into_raw`: the pixels of `image` as 8-bit RGBA.
#[verifier::external_body]
fn rgba8_pixels(image: &image::DynamicImage) -> (r: Vec<u8>)
    ensures
        r@ == image_rgba8_of(*image),
{
    image.to_rgba8().into_raw()
}

/// The pixel layout of a decoded image (one variant of `image::DynamicImage` each).
#[verifier::external_body]
fn pixel_layout(image: &image::DynamicImage) -> (r: PixelLayout)
    ensures
        r == image_pixel_layout(*image),
{
    match image {
        image::DynamicImage::ImageLuma8(_) => PixelLayout::Luma8,
        image::DynamicImage::ImageLumaA8(_) => PixelLayout::LumaA8,
        image::DynamicImage::ImageRgb8(_) => PixelLayout::Rgb8,
        image::DynamicImage::ImageRgba8(_) => PixelLayout::Rgba8,
        image::DynamicImage::ImageLuma16(_) => PixelLayout::Luma16,
        image::DynamicImage::ImageLumaA16(_) => PixelLayout::LumaA16,
        image::DynamicImage::ImageRgb16(_) => PixelLayout::Rgb16,
        image::DynamicImage::ImageRgba16(_) => PixelLayout::Rgba16,
        image::DynamicImage::ImageRgb32F(_) => PixelLayout::Rgb32F,
        image::DynamicImage::ImageRgba32F(_) => PixelLayout::Rgba32F,
        _ => PixelLayout::Unknown,
    }
}

/// `image::DynamicImage::width`.
#[verifier::external_body]
fn image_width(image: &image::DynamicImage) -> (r: u32)
    ensures
        r == image_width_of(*image),
{
    image.width()
}

/// `image::DynamicImage::height`.
#[verifier::external_body]
fn image_height(image: &image::DynamicImage) -> (r: u32)
    ensures
        r == image_height_of(*image),
{
    image.height()
}

/// A decoded image with its memory size.
pub struct ImageRes {
    value: image::DynamicImage,
    size: usize,
}

impl ImageRes {
    pub closed spec fn image(&self) -> image::DynamicImage {
        self.value
    }

    pub closed spec fn spec_size(&self) -> usize {
        self.size
    }

    /// Wraps `value`, counting its memory size from its layout and dimensions.
    pub fn new(value: image::DynamicImage) -> (r: Self)
        ensures
            r.image() == value,
            r.spec_size() == spec_image_size(
                image_pixel_layout(value),
                image_width_of(value),
                image_height_of(value),
            ),
    {
        let layout = pixel_layout(&value);
        let width = image_width(&value);
        let height = image_height(&value);
        let size = image_size(layout, width, height);
        Self { value, size }
    }

    /// The decoded image.
    pub fn value(&self) -> (r: &image::DynamicImage)
        ensures
            *r == self.image(),
    {
        &self.value
    }

    /// The memory size of the image.
    pub fn size(&self) -> (r: usize)
        ensures
            r == self.spec_size(),
    {
        self.size
    }

    /// How the pixels of the image are stored.
    pub fn layout(&self) -> (r: PixelLayout)
        ensures
            r == image_pixel_layout(self.image()),
    {
        pixel_layout(&self.value)
    }

    /// The pixels of the image as 8-bit RGBA, row by row.
    pub fn rgba8(&self) -> (r: Vec<u8>)
        ensures
            r@ == image_rgba8_of(self.image()),
    {
        rgba8_pixels(&self.value)
    }

    /// Width of the image in pixels.
    pub fn width(&self) -> (r: u32)
        ensures
            r == image_width_of(self.image()),
    {
        image_width(&self.value)
    }

    /// Height of the image in pixels.
    pub fn height(&self) -> (r: u32)
        ensures
            r == image_height_of(self.image()),
    {
        image_height(&self.value)
    }
}

/// Why an image could not be had.
pub enum LoadError {
    IoError(Error),
    Other(String),
}

/// What `image::load_from_memory` decodes from `bytes`, converted to 8-bit RGBA:
/// the pixels, the width and the height; `None` where the bytes are no image it reads.
pub uninterp spec fn decoded_rgba8(bytes: Seq<u8>) -> Option<(Seq<u8>, u32, u32)>;

/// `image::load_from_memory`, then `into_rgba8` and `into_raw`: the RGBA pixels of
/// the image that `buf` holds, row by row, four bytes each; the error's message
/// when the crate cannot decode `buf`.
#[verifier::external_body]
fn decode_rgba8(buf: &[u8]) -> (r: Result<(Vec<u8>, u32, u32), String>)
    ensures
        r is Ok <==> decoded_rgba8(buf@) is Some,
        r matches Ok(v) ==> decoded_rgba8(buf@) == Some((v.0@, v.1, v.2)) && v.0@.len() == 4 * v.1
            * v.2,
{
    match image::load_from_memory(buf) {
        Ok(image) => {
            let rgba = image.into_rgba8();
            let (width, height) = rgba.dimensions();
            Ok((rgba.into_raw(), width, height))
        },
        Err(e) => Err(e.to_string()),
    }
}

/// `image::load_from_memory`: the image that `buf` holds; the error's message when
/// the crate cannot decode `buf` (exactly when [`decoded_rgba8`] has nothing for it,
/// since the conversion to RGBA never fails).
/// On success the image is the one [`decoded_rgba8`] describes: its RGBA pixels,
/// width and height are those of the decoded bytes.
#[verifier::external_body]
fn load_image(buf: &[u8]) -> (r: Result<image::DynamicImage, String>)
    ensures
        r is Ok <==> decoded_rgba8(buf@) is Some,
        r matches Ok(img) ==> decoded_rgba8(buf@) == Some(
            (image_rgba8_of(img), image_width_of(img), image_height_of(img)),
        ),
{
    image::load_from_memory(buf).map_err(|e| e.to_string())
}

/// Decodes the image in `buf`, with its memory size.
pub fn decode_image(buf: &[u8]) -> (r: Result<ImageRes, LoadError>)
    ensures
        r is Ok <==> decoded_rgba8(buf@) is Some,
        r matches Ok(res) ==> decoded_rgba8(buf@) == Some(
            (image_rgba8_of(res.image()), image_width_of(res.image()), image_height_of(res.image())),
        ),
        r matches Ok(res) ==> res.spec_size() == spec_image_size(
            image_pixel_layout(res.image()),
            image_width_of(res.image()),
            image_height_of(res.image()),
        ),
        r matches Err(e) ==> e is Other,
{
    match load_image(buf) {
        Ok(value) => Ok(ImageRes::new(value)),
        Err(message) => Err(LoadError::Other(message)),
    }
}

/// Decodes the image in `buf` into 8-bit RGBA pixels with its width and height.
pub fn from_memory(buf: &[u8]) -> (r: Result<(Vec<u8>, u32, u32), LoadError>)
    ensures
        r is Ok <==> decoded_rgba8(buf@) is Some,
        r matches Ok(v) ==> decoded_rgba8(buf@) == Some((v.0@, v.1, v.2)) && v.0@.len() == 4 * v.1
            * v.2,
        r matches Err(e) ==> e is Other,
{
    match decode_rgba8(buf) {
        Ok(v) => Ok(v),
        Err(message) => Err(LoadError::Other(message)),
    }
}

/// Number of channels of a layout.
pub open spec fn layout_channels(layout: PixelLayout) -> u32 {
    match layout {
        PixelLayout::Luma8 | PixelLayout::Luma16 => 1,
        PixelLayout::LumaA8 | PixelLayout::LumaA16 => 2,
        PixelLayout::Rgb8 | PixelLayout::Rgb16 | PixelLayout::Rgb32F => 3,
        PixelLayout::Rgba8 | PixelLayout::Rgba16 | PixelLayout::Rgba32F => 4,
        PixelLayout::Unknown => 0,
    }
}

/// Bytes of one channel of a layout.
pub open spec fn layout_channel_bytes(layout: PixelLayout) -> u32 {
    match layout {
        PixelLayout::Luma8 | PixelLayout::LumaA8 | PixelLayout::Rgb8 | PixelLayout::Rgba8 => 1,
        PixelLayout::Luma16 | PixelLayout::LumaA16 | PixelLayout::Rgb16 | PixelLayout::Rgba16 => 2,
        PixelLayout::Rgb32F | PixelLayout::Rgba32F => 4,
        PixelLayout::Unknown => 0,
    }
}

/// Law: the memory counted per pixel is the channels times the bytes per channel,
/// except that one-channel 8-bit images are counted like RGBA (four bytes).
pub proof fn lemma_bytes_per_pixel(layout: PixelLayout)
    ensures
        layout !is Luma8 ==> bytes_per_pixel(layout) == layout_channels(layout) * layout_channel_bytes(layout),
        layout is Luma8 ==> bytes_per_pixel(layout) == 4,
{
    match layout {
        PixelLayout::Luma8 => {},
        PixelLayout::LumaA8 => {},
        PixelLayout::Rgb8 => {},
        PixelLayout::Rgba8 => {},
        PixelLayout::Luma16 => {},
        PixelLayout::LumaA16 => {},
        PixelLayout::Rgb16 => {},
        PixelLayout::Rgba16 => {},
        PixelLayout::Rgb32F => {},
        PixelLayout::Rgba32F => {},
        PixelLayout::Unknown => {},
    }
}

} // verus!
