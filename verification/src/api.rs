//! Bodies of the answers given to devices besides the display directive.

use vstd::prelude::*;
use vstd::string::{StringExecFns, StringSliceAdditionalSpecFns};
use vstd::utf8::{
    decode_utf8, encode_utf8, encode_utf8_decode_utf8, encode_utf8_valid_utf8, is_ascii_chars,
    is_ascii_chars_encode_utf8, is_char_boundary, is_char_boundary_iff_not_is_continuation_byte,
    is_char_boundary_start_end_of_seq,
};

verus! {

/// Answer to a device that asks to be set up.
#[derive(Debug, Clone, PartialEq, Eq)]
pub struct SetupResponse {
    pub api_key: String,
    pub friendly_id: String,
    pub image_url: String,
    pub message: String,
}

/// Answer to a request that registers a device or renders a page.
#[derive(Debug)]
pub struct CreateDeviceResponse {
    pub message: String,
}

/// What a device adds to a log entry about its own retries.
#[derive(Debug)]
pub struct AdditionalInfo {
    pub retry_attempt: u8,
}

/// Bytes of a hardware address that the friendly identifier leaves out.
pub const FRIENDLY_ID_SKIP: usize = 12;

/// The friendly identifier of a device: `device-` and what follows the first
/// twelve bytes of its hardware address.
pub open spec fn friendly_id_of(mac_address: Seq<char>) -> Seq<char> {
    "device-"@ + decode_utf8(encode_utf8(mac_address).skip(12))
}

/// An address from which a friendly identifier can be cut: its twelfth byte ends
/// a character.
pub open spec fn has_friendly_id(mac_address: Seq<char>) -> bool {
    is_char_boundary(encode_utf8(mac_address), 12)
}

/// Derives the friendly identifier of a device from its hardware address.
pub fn friendly_id(mac_address: &str) -> (r: String)
    requires
        has_friendly_id(mac_address@),
    ensures
        r@ == friendly_id_of(mac_address@),
{
    let (_, tail) = mac_address.split_at(FRIENDLY_ID_SKIP);
    proof {
        encode_utf8_decode_utf8(tail@);
        assert(encode_utf8(mac_address@).skip(12) =~= tail.spec_bytes());
    }
    String::from_str("device-").concat(tail)
}

/// Of an address written in ASCII with at least twelve characters, such as six
/// pairs of hexadecimal digits with colons between them, the friendly identifier
/// keeps every character after the twelfth.
pub proof fn lemma_friendly_id_ascii(mac_address: Seq<char>)
    requires
        is_ascii_chars(mac_address),
        mac_address.len() >= 12,
    ensures
        has_friendly_id(mac_address),
        friendly_id_of(mac_address) == "device-"@ + mac_address.skip(12),
{
    let bytes = encode_utf8(mac_address);
    let tail = mac_address.skip(12);
    is_ascii_chars_encode_utf8(mac_address);
    encode_utf8_valid_utf8(mac_address);
    if mac_address.len() == 12 {
        is_char_boundary_start_end_of_seq(bytes);
    } else {
        is_char_boundary_iff_not_is_continuation_byte(bytes, 12);
        assert(mac_address[12] as u8 == bytes[12]);
    }
    assert(is_ascii_chars(tail));
    is_ascii_chars_encode_utf8(tail);
    assert(encode_utf8(tail) =~= bytes.skip(12)) by {
        assert forall|i: int| 0 <= i < tail.len() implies encode_utf8(tail)[i] == bytes.skip(12)[i] by {
            assert(tail[i] as u8 == encode_utf8(tail)[i]);
            assert(mac_address[i + 12] as u8 == bytes[i + 12]);
        }
    }
    encode_utf8_decode_utf8(tail);
}

impl SetupResponse {
    /// The answer for a device with the given credentials, served from `base_url`.
    pub fn new(api_key: String, friendly_id: String, base_url: &str) -> (r: SetupResponse)
        ensures
            r.api_key@ == api_key@,
            r.friendly_id@ == friendly_id@,
            r.image_url@ == base_url@ + "/storage/images/setup-logo.bmp"@,
            r.message@ == "Hello from TRMNL!"@,
    {
        SetupResponse {
            api_key,
            friendly_id,
            image_url: String::from_str(base_url).concat("/storage/images/setup-logo.bmp"),
            message: String::from_str("Hello from TRMNL!"),
        }
    }
}

impl CreateDeviceResponse {
    /// The answer to a request that registered a device.
    pub fn added() -> (r: CreateDeviceResponse)
        ensures
            r.message@ == "Succesfully added device"@,
    {
        CreateDeviceResponse { message: String::from_str("Succesfully added device") }
    }

    /// The answer to a request that rendered a page into the named file.
    pub fn saved(filename: &str) -> (r: CreateDeviceResponse)
        ensures
            r.message@ == "Screenshot saved as "@ + filename@,
    {
        CreateDeviceResponse { message: String::from_str("Screenshot saved as ").concat(filename) }
    }
}

} // verus!
