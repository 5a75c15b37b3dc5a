use byos_rust::api::{friendly_id, AdditionalInfo, CreateDeviceResponse, SetupResponse};

#[test]
fn friendly_id_keeps_what_follows_the_twelfth_byte() {
    assert_eq!(friendly_id("AA:BB:CC:DD:EE:FF"), "device-EE:FF");
    assert_eq!(friendly_id("0123456789ab"), "device-");
    assert_eq!(friendly_id("0123456789abé日"), "device-é日");
}

#[test]
fn setup_response_points_at_the_setup_image() {
    let response = SetupResponse::new("key".to_string(), "device-EE:FF".to_string(), "http://localhost:3000");
    assert_eq!(response.api_key, "key");
    assert_eq!(response.friendly_id, "device-EE:FF");
    assert_eq!(response.image_url, "http://localhost:3000/storage/images/setup-logo.bmp");
    assert_eq!(response.message, "Hello from TRMNL!");
}

#[test]
fn create_device_response_messages() {
    assert_eq!(CreateDeviceResponse::added().message, "Succesfully added device");
    assert_eq!(CreateDeviceResponse::saved("abc.png").message, "Screenshot saved as abc.png");
    let info = AdditionalInfo { retry_attempt: 3 };
    assert_eq!(info.retry_attempt, 3);
}
