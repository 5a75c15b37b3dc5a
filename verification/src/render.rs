//! From a captured screenshot to the pair of files that a device can be served.

use vstd::prelude::*;
use vstd::string::StringExecFns;
use crate::bitmap::{bitmap_file, fits_bitmap, pack_bitmap};
use crate::raster::{
    decode_png, dither_two_level, encode_png, error_diffusion, grayscale, is_two_level,
    luma_pixels,
    png_decoding, png_encoding, ColorRaster, GrayRaster, RasterView,
};

verus! {

/// Width of the display, and of every raster that is processed.
pub const DISPLAY_WIDTH: u32 = 800;

/// Height of the display, and of every raster that is processed.
pub const DISPLAY_HEIGHT: u32 = 480;

/// Why a render did not produce its files.
#[derive(Debug, Clone, PartialEq, Eq)]
pub enum RenderError {
    /// The page session could not be started.
    SessionLaunch,
    /// The page could not be reached or did not finish loading.
    Navigation,
    /// The loaded page could not be captured.
    Capture,
    /// The captured data is not a picture that can be decoded.
    Decode,
    /// The picture could not be reduced or encoded; `cause` says why.
    Conversion { cause: String },
    /// A file could not be written.
    Io,
}

/// Mathematical view of a [`RenderError`].
pub enum RenderErrorView {
    SessionLaunch,
    Navigation,
    Capture,
    Decode,
    Conversion { cause: Seq<char> },
    Io,
}

impl View for RenderError {
    type V = RenderErrorView;

    open spec fn view(&self) -> RenderErrorView {
        match self {
            RenderError::SessionLaunch => RenderErrorView::SessionLaunch,
            RenderError::Navigation => RenderErrorView::Navigation,
            RenderError::Capture => RenderErrorView::Capture,
            RenderError::Decode => RenderErrorView::Decode,
            RenderError::Conversion { cause } => RenderErrorView::Conversion { cause: cause@ },
            RenderError::Io => RenderErrorView::Io,
        }
    }
}

/// Contents of the two files of one render.
#[derive(Debug, Clone, PartialEq, Eq)]
pub struct Artifacts {
    /// The lossless raster, as PNG data.
    pub png: Vec<u8>,
    /// The packed one-bit bitmap file.
    pub bmp: Vec<u8>,
}

/// Mathematical view of [`Artifacts`].
pub struct ArtifactsView {
    pub png: Seq<u8>,
    pub bmp: Seq<u8>,
}

impl View for Artifacts {
    type V = ArtifactsView;

    open spec fn view(&self) -> ArtifactsView {
        ArtifactsView { png: self.png@, bmp: self.bmp@ }
    }
}

/// View of a result whose two sides have views.
pub open spec fn result_view<T: View, E: View>(r: Result<T, E>) -> Result<T::V, E::V> {
    match r {
        Ok(t) => Ok(t@),
        Err(e) => Err(e@),
    }
}

/// Cause reported for a raster whose buffer or dimensions are not the display's.
pub open spec fn wrong_dimensions() -> Seq<char> {
    "the raster is not 800 by 480 pixels"@
}

/// Cause reported when the lossless encoding is refused.
pub open spec fn encoding_refused() -> Seq<char> {
    "the lossless raster could not be encoded"@
}

/// A colour raster of the display's dimensions with a buffer to match.
pub open spec fn display_sized(raster: RasterView) -> bool {
    &&& raster.width == 800
    &&& raster.height == 480
    &&& raster.pixels.len() == 4 * 800 * 480
}

/// The two-level raster that a display-sized colour raster is reduced to:
/// luminance first, then error diffusion onto black and white.
pub open spec fn reduced(color: RasterView) -> RasterView {
    RasterView {
        width: color.width,
        height: color.height,
        pixels: error_diffusion(color.width, color.height, luma_pixels(color.pixels)),
    }
}

/// Outcome of reducing a colour raster.
pub open spec fn monochrome_outcome(color: RasterView) -> Result<RasterView, RenderErrorView> {
    if display_sized(color) {
        Ok(reduced(color))
    } else {
        Err(RenderErrorView::Conversion { cause: wrong_dimensions() })
    }
}

/// A single-channel raster of the display's dimensions with a buffer to match.
pub open spec fn display_gray(raster: RasterView) -> bool {
    &&& raster.width == 800
    &&& raster.height == 480
    &&& raster.pixels.len() == 800 * 480
}

/// Outcome of writing a single-channel raster out as the two files.
pub open spec fn artifacts_outcome(gray: RasterView) -> Result<ArtifactsView, RenderErrorView> {
    if !display_gray(gray) {
        Err(RenderErrorView::Conversion { cause: wrong_dimensions() })
    } else {
        match png_encoding(gray.width, gray.height, gray.pixels) {
            Some(png) => Ok(ArtifactsView { png, bmp: bitmap_file(gray) }),
            None => Err(RenderErrorView::Conversion { cause: encoding_refused() }),
        }
    }
}

/// Outcome of processing a decoded screenshot, or the lack of one.
pub open spec fn decoded_outcome(decoded: Option<RasterView>) -> Result<
    ArtifactsView,
    RenderErrorView,
> {
    match decoded {
        None => Err(RenderErrorView::Decode),
        Some(color) => match monochrome_outcome(color) {
            Ok(gray) => artifacts_outcome(gray),
            Err(e) => Err(e),
        },
    }
}

/// Outcome of processing captured screenshot data.
pub open spec fn process_outcome(raw: Seq<u8>) -> Result<ArtifactsView, RenderErrorView> {
    decoded_outcome(png_decoding(raw))
}

/// Reduces a colour raster of the display's dimensions to black and white.
///
/// A raster of other dimensions, or one whose buffer does not match them, is
/// refused.
pub fn monochrome(color: ColorRaster) -> (r: Result<GrayRaster, RenderError>)
    ensures
        result_view(r) == monochrome_outcome(color@),
        r matches Ok(gray) ==> display_gray(gray@) && gray.two_level(),
{
    if color.width != DISPLAY_WIDTH || color.height != DISPLAY_HEIGHT || color.pixels.len()
        != 1_536_000 {
        return Err(
            RenderError::Conversion {
                cause: String::from_str("the raster is not 800 by 480 pixels"),
            },
        );
    }
    let ghost before = color@;
    let gray = grayscale(color);
    assert(gray.pixels@.len() == 800 * 480);
    let out = dither_two_level(gray);
    assert(out@ == reduced(before));
    Ok(out)
}

/// Writes a single-channel raster of the display's dimensions out as the lossless
/// raster and as the packed bitmap.
pub fn artifacts(gray: &GrayRaster) -> (r: Result<Artifacts, RenderError>)
    ensures
        result_view(r) == artifacts_outcome(gray@),
{
    if gray.width != DISPLAY_WIDTH || gray.height != DISPLAY_HEIGHT || gray.pixels.len() != 384_000 {
        return Err(
            RenderError::Conversion {
                cause: String::from_str("the raster is not 800 by 480 pixels"),
            },
        );
    }
    match encode_png(gray) {
        Ok(png) => {
            assert(fits_bitmap(gray@));
            let bmp = pack_bitmap(gray);
            Ok(Artifacts { png, bmp })
        },
        Err(_) => Err(
            RenderError::Conversion {
                cause: String::from_str("the lossless raster could not be encoded"),
            },
        ),
    }
}

/// Processes captured screenshot data into the two files of a render.
///
/// The raster that both files are written from holds black and white only, so
/// the bitmap shows the pixels of the lossless raster unchanged.
pub fn process(raw: &[u8]) -> (r: Result<Artifacts, RenderError>)
    ensures
        result_view(r) == process_outcome(raw@),
        r is Ok ==> is_two_level(reduced(png_decoding(raw@)->Some_0).pixels),
{
    match decode_png(raw) {
        Ok(color) => match monochrome(color) {
            Ok(gray) => artifacts(&gray),
            Err(e) => Err(e),
        },
        Err(_) => Err(RenderError::Decode),
    }
}

/// A lower-case hexadecimal digit.
pub open spec fn is_lower_hex(c: char) -> bool {
    ('0' <= c && c <= '9') || ('a' <= c && c <= 'f')
}

/// The hyphenated form of a 128-bit identifier: 36 characters, hyphens after the
/// 8th, 12th, 16th and 20th digit, lower-case hexadecimal digits elsewhere.
pub open spec fn is_identifier_text(s: Seq<char>) -> bool {
    &&& s.len() == 36
    &&& forall|i: int|
        0 <= i < 36 ==> if i == 8 || i == 13 || i == 18 || i == 23 {
            s[i] == '-'
        } else {
            is_lower_hex(#[trigger] s[i])
        }
}

/// Calls `uuid::Uuid::new_v4` and writes the identifier out with its `Display`
/// form.
///
/// Trusted: the text is the hyphenated lower-case form. Nothing is claimed of
/// which identifier comes back: two calls differ.
#[verifier::external_body]
fn fresh_identifier() -> (id: String)
    ensures
        is_identifier_text(id@),
{
    uuid::Uuid::new_v4().to_string()
}

/// Directory that holds the files of every render.
pub open spec fn assets_dir() -> Seq<char> {
    "assets/images/generated"@
}

/// Path of the file with the given extension that belongs to the render `id`.
pub open spec fn artifact_path(id: Seq<char>, extension: Seq<char>) -> Seq<char> {
    assets_dir() + "/"@ + id + extension
}

/// The pair of files that one render leaves behind.
#[derive(Debug, Clone, PartialEq, Eq)]
pub struct RenderedImage {
    /// Path of the lossless raster.
    pub png_path: String,
    /// Path of the packed one-bit bitmap.
    pub bmp_path: String,
}

/// Mathematical view of a [`RenderedImage`].
pub struct RenderedImageView {
    pub png_path: Seq<char>,
    pub bmp_path: Seq<char>,
}

impl View for RenderedImage {
    type V = RenderedImageView;

    open spec fn view(&self) -> RenderedImageView {
        RenderedImageView { png_path: self.png_path@, bmp_path: self.bmp_path@ }
    }
}

impl RenderedImage {
    /// Both paths are those of the render `id`: the same stem, each with its own
    /// extension.
    pub open spec fn belongs_to(&self, id: Seq<char>) -> bool {
        &&& self.png_path@ == artifact_path(id, ".png"@)
        &&& self.bmp_path@ == artifact_path(id, ".bmp"@)
    }

    /// The two paths share a stem.
    pub open spec fn well_formed(&self) -> bool {
        exists|id: Seq<char>| self.belongs_to(id)
    }

    /// The pair of paths for the render `id`.
    pub fn from_id(id: &str) -> (r: RenderedImage)
        ensures
            r.belongs_to(id@),
            r.well_formed(),
    {
        let stem = String::from_str("assets/images/generated").concat("/").concat(id);
        let png_path = stem.clone().concat(".png");
        let bmp_path = stem.concat(".bmp");
        let r = RenderedImage { png_path, bmp_path };
        assert(r.belongs_to(id@));
        r
    }

    /// A fresh identifier and the pair of paths for the render under it.
    pub fn fresh() -> (r: (String, RenderedImage))
        ensures
            is_identifier_text(r.0@),
            r.1.belongs_to(r.0@),
            r.1.well_formed(),
    {
        let id = fresh_identifier();
        let image = RenderedImage::from_id(id.as_str());
        (id, image)
    }

    /// The pair of paths for a render under a fresh identifier.
    pub fn default() -> (r: RenderedImage)
        ensures
            exists|id: Seq<char>| is_identifier_text(id) && r.belongs_to(id),
            r.well_formed(),
    {
        let (id, image) = RenderedImage::fresh();
        assert(is_identifier_text(id@) && image.belongs_to(id@));
        image
    }

    /// Name of the lossless raster of the render `id`, without its directory.
    pub fn png_filename(id: &str) -> (r: String)
        ensures
            r@ == id@ + ".png"@,
            artifact_path(id@, ".png"@) == assets_dir() + "/"@ + r@,
    {
        let name = String::from_str(id).concat(".png");
        assert(assets_dir() + "/"@ + id@ + ".png"@ =~= assets_dir() + "/"@ + (id@ + ".png"@));
        name
    }
}

/// Where the reduced raster holds black and white only, as it does whenever
/// [`process`] returns files, the bitmap shows at every pixel what the raster
/// holds there, which is what the lossless raster was written from.
pub proof fn lemma_processed_files_agree(raw: Seq<u8>, x: int, y: int)
    requires
        process_outcome(raw) is Ok,
        is_two_level(reduced(png_decoding(raw)->Some_0).pixels),
        0 <= x < 800,
        0 <= y < 480,
    ensures
        crate::bitmap::bitmap_luminance(process_outcome(raw)->Ok_0.bmp, x, y) == reduced(
            png_decoding(raw)->Some_0,
        ).pixels[y * 800 + x],
        png_encoding(800, 480, reduced(png_decoding(raw)->Some_0).pixels) == Some(
            process_outcome(raw)->Ok_0.png,
        ),
{
    let gray = reduced(png_decoding(raw)->Some_0);
    assert(display_gray(gray));
    assert(fits_bitmap(gray)) by {
        assert(crate::bitmap::row_len(800) == 100);
    }
    crate::bitmap::lemma_bitmap_keeps_two_level(gray, x, y);
}

/// The file that a device with a stored image is sent to is one of the two files
/// of the render under that identifier: the one with the extension of the format
/// that the device is served.
pub proof fn lemma_served_file_is_rendered(device: crate::device::DeviceView, image: RenderedImage)
    requires
        device.current_screen_image matches Some(id) && image.belongs_to(id),
    ensures
        crate::display::selected_format(device) == crate::display::ImageFormat::Bmp
            ==> image.bmp_path@ == assets_dir() + "/"@ + crate::display::selected_filename(device),
        crate::display::selected_format(device) == crate::display::ImageFormat::Png
            ==> image.png_path@ == assets_dir() + "/"@ + crate::display::selected_filename(device),
{
    let id = device.current_screen_image->0;
    assert(assets_dir() + "/"@ + id + ".bmp"@ =~= assets_dir() + "/"@ + (id + ".bmp"@));
    assert(assets_dir() + "/"@ + id + ".png"@ =~= assets_dir() + "/"@ + (id + ".png"@));
}

/// Name of the external converter that can stand in for the reduction done here.
pub const CONVERTER: &'static str = "magick";

/// Arguments with which the external converter turns the lossless raster of a
/// render into its bitmap: monochrome, one bit deep, stripped of metadata,
/// written in the third version of the bitmap format.
pub open spec fn converter_arguments_of(image: RenderedImageView) -> Seq<Seq<char>> {
    seq![image.png_path, "-monochrome"@, "-depth"@, "1"@, "-strip"@, "bmp3:"@ + image.bmp_path]
}

/// Builds the arguments for a run of the external converter.
pub fn converter_arguments(image: &RenderedImage) -> (r: Vec<String>)
    ensures
        r@.len() == 6,
        forall|i: int| 0 <= i < 6 ==> (#[trigger] r@[i])@ == converter_arguments_of(image@)[i],
{
    let mut arguments: Vec<String> = Vec::new();
    arguments.push(image.png_path.clone());
    arguments.push(String::from_str("-monochrome"));
    arguments.push(String::from_str("-depth"));
    arguments.push(String::from_str("1"));
    arguments.push(String::from_str("-strip"));
    arguments.push(String::from_str("bmp3:").concat(image.bmp_path.as_str()));
    arguments
}

/// What a run of the external converter comes to: nothing to report where it
/// succeeded, else a failed conversion with what the converter printed as its
/// cause.
pub fn conversion_result(succeeded: bool, diagnostics: String) -> (r: Result<(), RenderError>)
    ensures
        succeeded ==> r is Ok,
        !succeeded ==> (r matches Err(e) && e@ == (RenderErrorView::Conversion {
            cause: diagnostics@,
        })),
{
    if succeeded {
        Ok(())
    } else {
        Err(RenderError::Conversion { cause: diagnostics })
    }
}

/// What is written under the two paths of a render shows a raster of the
/// display's dimensions: the bitmap file states 800 by 480 pixels at one bit
/// each, and is 48062 bytes long.
pub proof fn lemma_processed_dimensions(raw: Seq<u8>)
    requires
        process_outcome(raw) is Ok,
    ensures
        png_decoding(raw) matches Some(color) && display_sized(color) && ({
            let files = process_outcome(raw)->Ok_0;
            let gray = reduced(color);
            &&& png_encoding(800, 480, gray.pixels) == Some(files.png)
            &&& files.bmp == bitmap_file(gray)
            &&& files.bmp.len() == 48062
            &&& crate::bitmap::bitmap_width(files.bmp) == 800
            &&& crate::bitmap::bitmap_height(files.bmp) == 480
            &&& crate::bitmap::bitmap_depth(files.bmp) == 1
        }),
{
    let color = png_decoding(raw)->Some_0;
    let gray = reduced(color);
    crate::bitmap::lemma_bitmap_header(gray);
}

/// Every pixel of the packed bitmap of a render is black or white to its reader.
pub proof fn lemma_processed_two_level(raw: Seq<u8>, x: int, y: int)
    requires
        process_outcome(raw) is Ok,
        0 <= x < 800,
        0 <= y < 480,
    ensures
        ({
            let lum = crate::bitmap::bitmap_luminance(process_outcome(raw)->Ok_0.bmp, x, y);
            lum == 0 || lum == 255
        }),
{
    let color = png_decoding(raw)->Some_0;
    let gray = reduced(color);
    assert(display_gray(gray));
    assert(fits_bitmap(gray)) by {
        assert(crate::bitmap::row_len(800) == 100);
    }
    assert(process_outcome(raw)->Ok_0.bmp == bitmap_file(gray));
    crate::bitmap::lemma_bitmap_pixel(gray, x, y);
}

} // verus!
