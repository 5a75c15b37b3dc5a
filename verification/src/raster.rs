//! Pixel rasters and the steps that reduce a captured colour raster to two levels.
//!
//! Decoding, the luma conversion, the error diffusion and the lossless encoding are
//! done by the `image` crate. Each call stands behind a function of this module
//! whose contract is taken on trust; everything else here is proved.

use vstd::prelude::*;

verus! {

/// Error of the `image` crate, carried through unread.
#[verifier::external_type_specification]
#[verifier::external_body]
pub struct ExImageError(image::ImageError);

/// A colour raster: four bytes per pixel (red, green, blue, alpha), rows from the
/// top, pixels from the left.
#[derive(Debug, Clone, PartialEq, Eq)]
pub struct ColorRaster {
    pub width: u32,
    pub height: u32,
    pub pixels: Vec<u8>,
}

/// A single-channel raster: one luminance byte per pixel, rows from the top.
#[derive(Debug, Clone, PartialEq, Eq)]
pub struct GrayRaster {
    pub width: u32,
    pub height: u32,
    pub pixels: Vec<u8>,
}

/// Mathematical view of a raster of either kind.
pub struct RasterView {
    pub width: nat,
    pub height: nat,
    pub pixels: Seq<u8>,
}

impl View for ColorRaster {
    type V = RasterView;

    open spec fn view(&self) -> RasterView {
        RasterView { width: self.width as nat, height: self.height as nat, pixels: self.pixels@ }
    }
}

impl View for GrayRaster {
    type V = RasterView;

    open spec fn view(&self) -> RasterView {
        RasterView { width: self.width as nat, height: self.height as nat, pixels: self.pixels@ }
    }
}

impl ColorRaster {
    /// The pixel buffer holds exactly four bytes for each pixel.
    pub open spec fn well_formed(&self) -> bool {
        self.pixels@.len() == 4 * self.width * self.height
    }
}

impl GrayRaster {
    /// The pixel buffer holds exactly one byte for each pixel.
    pub open spec fn well_formed(&self) -> bool {
        self.pixels@.len() == self.width * self.height
    }

    /// Every pixel is black (0) or white (255).
    pub open spec fn two_level(&self) -> bool {
        is_two_level(self.pixels@)
    }
}

/// Every byte of `pixels` is 0 or 255.
pub open spec fn is_two_level(pixels: Seq<u8>) -> bool {
    forall|i: int| 0 <= i < pixels.len() ==> pixels[i] == 0 || pixels[i] == 255
}

/// Luminance of one colour pixel: the weighted sum of its red, green and blue
/// parts, in ten-thousandths, rounded down.
pub open spec fn luma(red: u8, green: u8, blue: u8) -> u8 {
    ((2126 * red + 7152 * green + 722 * blue) / 10000) as u8
}

/// Luminance of every pixel of a colour buffer, alpha left out.
pub open spec fn luma_pixels(rgba: Seq<u8>) -> Seq<u8> {
    Seq::new(rgba.len() / 4, |i: int| luma(rgba[4 * i], rgba[4 * i + 1], rgba[4 * i + 2]))
}

/// The colour raster that the `image` crate decodes from PNG data, as width,
/// height and pixel buffer; `None` where it refuses the data.
pub uninterp spec fn png_decoding(data: Seq<u8>) -> Option<RasterView>;

/// The buffer that the `image` crate's error diffusion onto black and white
/// leaves behind, given a single-channel buffer of the stated width and height.
pub uninterp spec fn error_diffusion(width: nat, height: nat, gray: Seq<u8>) -> Seq<u8>;

/// The PNG data that the `image` crate writes for a single-channel buffer of the
/// stated width and height; `None` where it refuses to encode it.
pub uninterp spec fn png_encoding(width: nat, height: nat, gray: Seq<u8>) -> Option<Seq<u8>>;

/// View of what a decoding attempt returned.
pub open spec fn decoded_view(r: Result<ColorRaster, image::ImageError>) -> Option<RasterView> {
    match r {
        Ok(raster) => Some(raster@),
        Err(_) => None,
    }
}

/// View of what an encoding attempt returned.
pub open spec fn encoded_view(r: Result<Vec<u8>, image::ImageError>) -> Option<Seq<u8>> {
    match r {
        Ok(data) => Some(data@),
        Err(_) => None,
    }
}

/// Calls `image::load_from_memory_with_format` for the PNG format and hands the
/// decoded image out as eight-bit RGBA (`DynamicImage::into_rgba8`).
///
/// Trusted: the outcome is a function of the data alone, and a decoded buffer
/// holds four bytes per pixel.
#[verifier::external_body]
pub(crate) fn decode_png(data: &[u8]) -> (r: Result<ColorRaster, image::ImageError>)
    ensures
        decoded_view(r) == png_decoding(data@),
        r matches Ok(raster) ==> raster.well_formed(),
{
    let decoded = image::load_from_memory_with_format(data, image::ImageFormat::Png)?.into_rgba8();
    Ok(ColorRaster { width: decoded.width(), height: decoded.height(), pixels: decoded.into_raw() })
}

/// Calls `image::imageops::grayscale` on an RGBA buffer.
///
/// Trusted: each output byte is the luminance of the pixel at its place, with the
/// crate's weights 2126, 7152 and 722 over 10000, and the alpha byte is dropped.
#[verifier::external_body]
pub(crate) fn grayscale(raster: ColorRaster) -> (gray: GrayRaster)
    requires
        raster.well_formed(),
    ensures
        gray.width == raster.width,
        gray.height == raster.height,
        gray.pixels@ == luma_pixels(raster.pixels@),
{
    let (width, height) = (raster.width, raster.height);
    let colour = image::RgbaImage::from_raw(width, height, raster.pixels).unwrap();
    GrayRaster { width, height, pixels: image::imageops::grayscale(&colour).into_raw() }
}

/// Calls `image::imageops::dither` with the `BiLevel` colour map.
///
/// Trusted: the result is a function of the raster alone, has its dimensions, and
/// holds only the two colours of the map, 0 and 255. The crate's function reads
/// the pixel to the right of the first column and takes one from the height, so
/// a raster narrower than two pixels or without rows, on which it panics, is
/// left out.
#[verifier::external_body]
pub(crate) fn dither_two_level(raster: GrayRaster) -> (out: GrayRaster)
    requires
        raster.well_formed(),
        raster.width >= 2,
        raster.height >= 1,
    ensures
        out.width == raster.width,
        out.height == raster.height,
        out.pixels@ == error_diffusion(raster.width as nat, raster.height as nat, raster.pixels@),
        out.pixels@.len() == raster.pixels@.len(),
        is_two_level(out.pixels@),
{
    let (width, height) = (raster.width, raster.height);
    let mut gray = image::GrayImage::from_raw(width, height, raster.pixels).unwrap();
    image::imageops::dither(&mut gray, &image::imageops::BiLevel);
    GrayRaster { width, height, pixels: gray.into_raw() }
}

/// Calls `image::codecs::png::PngEncoder::write_image` for eight-bit luminance,
/// writing into memory.
///
/// Trusted: the outcome is a function of the raster alone. The encoder panics on
/// a buffer whose length is not width times height, which is left out.
#[verifier::external_body]
pub(crate) fn encode_png(raster: &GrayRaster) -> (r: Result<Vec<u8>, image::ImageError>)
    requires
        raster.well_formed(),
    ensures
        encoded_view(r) == png_encoding(raster.width as nat, raster.height as nat, raster.pixels@),
{
    let mut data = Vec::new();
    let encoder = image::codecs::png::PngEncoder::new(&mut data);
    image::ImageEncoder::write_image(encoder, &raster.pixels, raster.width, raster.height, image::ExtendedColorType::L8)?;
    Ok(data)
}

} // verus!
