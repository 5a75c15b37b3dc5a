//! The part of a device record that the display path reads.

use vstd::prelude::*;

verus! {

/// A registered terminal, reduced to the fields that decide what it is served.
#[derive(Debug, Clone, PartialEq, Eq)]
pub struct Device {
    /// Identifier of the image last rendered for this device, if any.
    pub current_screen_image: Option<String>,
    /// Firmware version the device last reported, if it ever reported one.
    pub last_firmware_version: Option<String>,
    /// Seconds the device sleeps between two display requests.
    pub default_refresh_interval: i32,
}

/// Mathematical view of a [`Device`].
pub struct DeviceView {
    pub current_screen_image: Option<Seq<char>>,
    pub last_firmware_version: Option<Seq<char>>,
    pub default_refresh_interval: int,
}

/// View of an optional string.
pub open spec fn text_of(s: Option<String>) -> Option<Seq<char>> {
    match s {
        Some(t) => Some(t@),
        None => None,
    }
}

impl View for Device {
    type V = DeviceView;

    open spec fn view(&self) -> DeviceView {
        DeviceView {
            current_screen_image: text_of(self.current_screen_image),
            last_firmware_version: text_of(self.last_firmware_version),
            default_refresh_interval: self.default_refresh_interval as int,
        }
    }
}

} // verus!
