//! The display directive: which image, in which format, a device is told to fetch.

use vstd::prelude::*;
use vstd::string::StringExecFns;
use crate::device::{Device, DeviceView, text_of};
use crate::firmware::{lemma_compare_equal, lex_compare, version_compare};

verus! {

/// Raster format of a stored image.
#[derive(Clone, Copy, Debug, PartialEq, Eq, Structural)]
pub enum ImageFormat {
    /// Packed one-bit bitmap, understood by every firmware.
    Bmp,
    /// Lossless raster, understood from the firmware threshold onwards.
    Png,
}

/// Seconds a device may spend fetching the image.
pub const IMAGE_URL_TIMEOUT: u32 = 15;

/// First firmware version that accepts the lossless raster.
pub open spec fn firmware_threshold() -> Seq<char> {
    "1.5.2"@
}

/// Name of the image served to a device that has no rendered image yet.
pub open spec fn setup_filename() -> Seq<char> {
    "setup-logo.bmp"@
}

/// Path of the setup image below the storage root.
pub open spec fn setup_path() -> Seq<char> {
    "images/setup-logo.bmp"@
}

/// Directory of rendered images below the storage root.
pub open spec fn generated_prefix() -> Seq<char> {
    "images/generated/"@
}

/// The bitmap is served when the firmware is unknown or sorts, as plain text,
/// strictly before the threshold.
pub open spec fn serves_bitmap(firmware: Option<Seq<char>>) -> bool {
    match firmware {
        Some(v) => lex_compare(v, firmware_threshold()) < 0,
        None => true,
    }
}

/// Format served for a stored image to a device with the given firmware.
pub open spec fn format_for(firmware: Option<Seq<char>>) -> ImageFormat {
    if serves_bitmap(firmware) {
        ImageFormat::Bmp
    } else {
        ImageFormat::Png
    }
}

/// File extension of a format, with its dot.
pub open spec fn extension(format: ImageFormat) -> Seq<char> {
    match format {
        ImageFormat::Bmp => ".bmp"@,
        ImageFormat::Png => ".png"@,
    }
}

/// Format of the image a device is served.
pub open spec fn selected_format(device: DeviceView) -> ImageFormat {
    match device.current_screen_image {
        Some(_) => format_for(device.last_firmware_version),
        None => ImageFormat::Bmp,
    }
}

/// File name of the image a device is served.
pub open spec fn selected_filename(device: DeviceView) -> Seq<char> {
    match device.current_screen_image {
        Some(id) => id + extension(format_for(device.last_firmware_version)),
        None => setup_filename(),
    }
}

/// Path, below the storage root, of the image a device is served.
pub open spec fn selected_path(device: DeviceView) -> Seq<char> {
    match device.current_screen_image {
        Some(id) => generated_prefix() + selected_filename(device),
        None => setup_path(),
    }
}

/// Address of the image a device is served.
pub open spec fn selected_url(device: DeviceView, base_url: Seq<char>) -> Seq<char> {
    base_url + "/storage/"@ + selected_path(device)
}

/// What a device is told in answer to a display request.
#[derive(Debug, Clone, PartialEq, Eq)]
pub struct DisplayResponse {
    pub image_url: String,
    pub image_url_timeout: u32,
    pub filename: String,
    pub refresh_rate: u32,
    pub reset_firmware: bool,
    pub update_firmware: bool,
    pub firmware_url: Option<String>,
    pub special_function: String,
}

/// Mathematical view of a [`DisplayResponse`].
pub struct DirectiveView {
    pub image_url: Seq<char>,
    pub image_url_timeout: int,
    pub filename: Seq<char>,
    pub refresh_rate: int,
    pub reset_firmware: bool,
    pub update_firmware: bool,
    pub firmware_url: Option<Seq<char>>,
    pub special_function: Seq<char>,
}

impl View for DisplayResponse {
    type V = DirectiveView;

    open spec fn view(&self) -> DirectiveView {
        DirectiveView {
            image_url: self.image_url@,
            image_url_timeout: self.image_url_timeout as int,
            filename: self.filename@,
            refresh_rate: self.refresh_rate as int,
            reset_firmware: self.reset_firmware,
            update_firmware: self.update_firmware,
            firmware_url: text_of(self.firmware_url),
            special_function: self.special_function@,
        }
    }
}

/// The refresh interval as the unsigned number a directive carries: a negative
/// interval wraps around modulo 2^32.
pub open spec fn refresh_rate_of(interval: int) -> int {
    if interval >= 0 {
        interval
    } else {
        interval + 0x1_0000_0000
    }
}

/// The directive owed to a device by a server reachable under `base_url`.
pub open spec fn directive_for(device: DeviceView, base_url: Seq<char>) -> DirectiveView {
    DirectiveView {
        image_url: selected_url(device, base_url),
        image_url_timeout: 15,
        filename: selected_filename(device),
        refresh_rate: refresh_rate_of(device.default_refresh_interval),
        reset_firmware: false,
        update_firmware: false,
        firmware_url: None,
        special_function: "sleep"@,
    }
}

/// Decides whether a device with the given firmware is served the bitmap.
pub fn use_bitmap(firmware: &Option<String>) -> (r: bool)
    ensures
        r == serves_bitmap(text_of(*firmware)),
{
    match firmware {
        Some(v) => version_compare(v.as_str(), "1.5.2") < 0,
        None => true,
    }
}

/// Decides the format of the image that a device is served.
pub fn image_format(device: &Device) -> (r: ImageFormat)
    ensures
        r == selected_format(device@),
{
    match &device.current_screen_image {
        Some(_) => if use_bitmap(&device.last_firmware_version) {
            ImageFormat::Bmp
        } else {
            ImageFormat::Png
        },
        None => ImageFormat::Bmp,
    }
}

fn refresh_rate(interval: i32) -> (r: u32)
    ensures
        r as int == refresh_rate_of(interval as int),
{
    let r = #[verifier::truncate] (interval as u32);
    assert(interval >= 0 ==> interval as u32 == interval) by (bit_vector);
    assert(interval < 0 ==> (interval as u32) as int == interval + 0x1_0000_0000) by (bit_vector);
    r
}

impl DisplayResponse {
    /// Builds the directive for `device`, served from `base_url`.
    pub fn from_device(device: &Device, base_url: &str) -> (r: DisplayResponse)
        ensures
            r@ == directive_for(device@, base_url@),
    {
        let (filename, image_path) = match &device.current_screen_image {
            Some(image_uuid) => {
                let ext = if use_bitmap(&device.last_firmware_version) {
                    ".bmp"
                } else {
                    ".png"
                };
                let filename = image_uuid.clone().concat(ext);
                let path = String::from_str("images/generated/").concat(filename.as_str());
                (filename, path)
            },
            None => (String::from_str("setup-logo.bmp"), String::from_str("images/setup-logo.bmp")),
        };
        let image_url = String::from_str(base_url).concat("/storage/").concat(image_path.as_str());
        DisplayResponse {
            image_url,
            image_url_timeout: IMAGE_URL_TIMEOUT,
            filename,
            refresh_rate: refresh_rate(device.default_refresh_interval),
            reset_firmware: false,
            update_firmware: false,
            firmware_url: None,
            special_function: String::from_str("sleep"),
        }
    }
}

/// A device with a stored image is served the bitmap exactly when its firmware is
/// unknown or sorts, as plain text, before the threshold; otherwise it is served
/// the lossless raster. The file is named after the image, with the extension of
/// the format.
pub proof fn lemma_format_by_firmware(device: DeviceView, base_url: Seq<char>)
    requires
        device.current_screen_image is Some,
    ensures
        selected_format(device) == ImageFormat::Bmp <==> (device.last_firmware_version is None
            || lex_compare(device.last_firmware_version->0, firmware_threshold()) < 0),
        selected_format(device) == ImageFormat::Png <==> (device.last_firmware_version is Some
            && lex_compare(device.last_firmware_version->0, firmware_threshold()) >= 0),
        directive_for(device, base_url).filename == device.current_screen_image->0 + extension(
            selected_format(device),
        ),
        directive_for(device, base_url).image_url == base_url + "/storage/"@ + generated_prefix()
            + directive_for(device, base_url).filename,
{
    let id = device.current_screen_image->0;
    let name = id + extension(selected_format(device));
    assert(base_url + "/storage/"@ + (generated_prefix() + name) =~= base_url + "/storage/"@
        + generated_prefix() + name);
}

/// A device whose firmware is exactly the threshold is served the lossless
/// raster.
pub proof fn lemma_threshold_is_lossless(device: DeviceView)
    requires
        device.current_screen_image is Some,
        device.last_firmware_version == Some(firmware_threshold()),
    ensures
        selected_format(device) == ImageFormat::Png,
        selected_filename(device) == device.current_screen_image->0 + ".png"@,
{
    lemma_compare_equal(firmware_threshold(), firmware_threshold());
}

/// A device without a stored image is served the setup image as a bitmap,
/// whatever its firmware.
pub proof fn lemma_setup_image(device: DeviceView, base_url: Seq<char>)
    requires
        device.current_screen_image is None,
    ensures
        selected_format(device) == ImageFormat::Bmp,
        directive_for(device, base_url).filename == "setup-logo.bmp"@,
        directive_for(device, base_url).image_url == base_url + "/storage/images/setup-logo.bmp"@,
{
    reveal_strlit("/storage/");
    reveal_strlit("images/setup-logo.bmp");
    reveal_strlit("/storage/images/setup-logo.bmp");
    assert("/storage/"@ + "images/setup-logo.bmp"@ =~= "/storage/images/setup-logo.bmp"@);
    assert(base_url + "/storage/"@ + "images/setup-logo.bmp"@ =~= base_url + ("/storage/"@
        + "images/setup-logo.bmp"@));
}

/// Whatever the device, the directive carries the fixed timeout, asks for no
/// firmware action and tells the device to sleep; its refresh rate is the
/// device's interval.
pub proof fn lemma_directive_constants(device: DeviceView, base_url: Seq<char>)
    ensures
        directive_for(device, base_url).image_url_timeout == 15,
        !directive_for(device, base_url).reset_firmware,
        !directive_for(device, base_url).update_firmware,
        directive_for(device, base_url).firmware_url is None,
        directive_for(device, base_url).special_function == "sleep"@,
        device.default_refresh_interval >= 0 ==> directive_for(device, base_url).refresh_rate
            == device.default_refresh_interval,
{
}

} // verus!
