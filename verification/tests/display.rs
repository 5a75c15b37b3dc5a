use byos_rust::device::Device;
use byos_rust::display::{image_format, use_bitmap, DisplayResponse, ImageFormat};

fn create_test_device() -> Device {
    Device {
        current_screen_image: None,
        last_firmware_version: None,
        default_refresh_interval: 60,
    }
}

#[test]
fn test_display_response_from_device_with_no_image() {
    let device = create_test_device();
    let base_url = "https://example.com";

    let response = DisplayResponse::from_device(&device, base_url);

    assert_eq!(response.image_url, "https://example.com/storage/images/setup-logo.bmp");
    assert_eq!(response.image_url_timeout, 15);
    assert_eq!(response.filename, "setup-logo.bmp");
    assert_eq!(response.refresh_rate, 60);
    assert_eq!(response.reset_firmware, false);
    assert_eq!(response.update_firmware, false);
    assert_eq!(response.firmware_url, None);
    assert_eq!(response.special_function, "sleep");
}

#[test]
fn test_display_response_from_device_with_image_old_firmware() {
    let mut device = create_test_device();
    device.current_screen_image = Some("test-uuid-123".to_string());
    device.last_firmware_version = Some("1.4.0".to_string());
    let base_url = "https://example.com";

    let response = DisplayResponse::from_device(&device, base_url);

    assert_eq!(response.image_url, "https://example.com/storage/images/generated/test-uuid-123.bmp");
    assert_eq!(response.filename, "test-uuid-123.bmp");
    assert_eq!(response.refresh_rate, 60);
}

#[test]
fn test_display_response_from_device_with_image_new_firmware() {
    let mut device = create_test_device();
    device.current_screen_image = Some("test-uuid-456".to_string());
    device.last_firmware_version = Some("1.6.0".to_string());
    let base_url = "https://example.com";

    let response = DisplayResponse::from_device(&device, base_url);

    assert_eq!(response.image_url, "https://example.com/storage/images/generated/test-uuid-456.png");
    assert_eq!(response.filename, "test-uuid-456.png");
    assert_eq!(response.refresh_rate, 60);
}

#[test]
fn test_display_response_from_device_with_image_exact_firmware_version() {
    let mut device = create_test_device();
    device.current_screen_image = Some("test-uuid-789".to_string());
    device.last_firmware_version = Some("1.5.2".to_string());
    let base_url = "https://example.com";

    let response = DisplayResponse::from_device(&device, base_url);

    // Version 1.5.2 should use PNG (not less than 1.5.2)
    assert_eq!(response.image_url, "https://example.com/storage/images/generated/test-uuid-789.png");
    assert_eq!(response.filename, "test-uuid-789.png");
}

#[test]
fn test_display_response_from_device_with_image_no_firmware_version() {
    let mut device = create_test_device();
    device.current_screen_image = Some("test-uuid-no-fw".to_string());
    device.last_firmware_version = None;
    let base_url = "https://example.com";

    let response = DisplayResponse::from_device(&device, base_url);

    // No firmware version should default to BMP
    assert_eq!(response.image_url, "https://example.com/storage/images/generated/test-uuid-no-fw.bmp");
    assert_eq!(response.filename, "test-uuid-no-fw.bmp");
}

#[test]
fn test_display_response_custom_refresh_rate() {
    let mut device = create_test_device();
    device.default_refresh_interval = 120;
    let base_url = "https://example.com";

    let response = DisplayResponse::from_device(&device, base_url);

    assert_eq!(response.refresh_rate, 120);
}

#[test]
fn test_display_response_different_base_url() {
    let device = create_test_device();
    let base_url = "http://localhost:3000";

    let response = DisplayResponse::from_device(&device, base_url);

    assert_eq!(response.image_url, "http://localhost:3000/storage/images/setup-logo.bmp");
}

#[test]
fn test_display_response_serialization() {
    let device = create_test_device();
    let response = DisplayResponse::from_device(&device, "https://test.com");

    // The directive goes out as a JSON object of its eight fields.
    let mut object = serde_json::Map::new();
    object.insert("image_url".to_string(), serde_json::Value::from(response.image_url.clone()));
    object.insert("image_url_timeout".to_string(), serde_json::Value::from(response.image_url_timeout));
    object.insert("filename".to_string(), serde_json::Value::from(response.filename.clone()));
    object.insert("refresh_rate".to_string(), serde_json::Value::from(response.refresh_rate));
    object.insert("reset_firmware".to_string(), serde_json::Value::from(response.reset_firmware));
    object.insert("update_firmware".to_string(), serde_json::Value::from(response.update_firmware));
    object.insert("firmware_url".to_string(), serde_json::Value::from(response.firmware_url.clone()));
    object.insert("special_function".to_string(), serde_json::Value::from(response.special_function.clone()));
    assert_eq!(object.len(), 8);

    let json = serde_json::to_string(&serde_json::Value::Object(object)).expect("Should serialize successfully");
    assert!(json.contains("setup-logo.bmp"));
    assert!(json.contains("https://test.com"));
    assert!(json.contains("\"refresh_rate\":60"));
    assert!(json.contains("\"image_url_timeout\":15"));
    assert!(json.contains("\"reset_firmware\":false"));
    assert!(json.contains("\"update_firmware\":false"));
    assert!(json.contains("\"firmware_url\":null"));
    assert!(json.contains("\"special_function\":\"sleep\""));
}

#[test]
fn select_orders_firmware_as_plain_text() {
    let mut device = create_test_device();
    device.current_screen_image = Some("img".to_string());
    // As numbers 1.10.0 lies above the threshold 1.5.2; as text it sorts below it.
    device.last_firmware_version = Some("1.10.0".to_string());
    assert_eq!(image_format(&device), ImageFormat::Bmp);
    assert_eq!(DisplayResponse::from_device(&device, "http://h").filename, "img.bmp");
    // As numbers 1.6 lies below 1.10; as text it sorts above the threshold.
    device.last_firmware_version = Some("1.6".to_string());
    assert_eq!(image_format(&device), ImageFormat::Png);
    assert_eq!(DisplayResponse::from_device(&device, "http://h").filename, "img.png");
    // 1.2.0 sorts below the threshold either way.
    device.last_firmware_version = Some("1.2.0".to_string());
    assert_eq!(image_format(&device), ImageFormat::Bmp);
    assert_eq!(DisplayResponse::from_device(&device, "http://h").filename, "img.bmp");
}

#[test]
fn select_follows_the_firmware_of_one_device() {
    let mut device = create_test_device();
    device.current_screen_image = Some("abc".to_string());
    device.last_firmware_version = Some("1.4.0".to_string());
    assert_eq!(DisplayResponse::from_device(&device, "http://h").filename, "abc.bmp");
    device.last_firmware_version = Some("1.6.0".to_string());
    assert_eq!(DisplayResponse::from_device(&device, "http://h").filename, "abc.png");
    device.last_firmware_version = None;
    assert_eq!(DisplayResponse::from_device(&device, "http://h").filename, "abc.bmp");
}

#[test]
fn setup_image_is_served_whatever_the_firmware() {
    for firmware in [None, Some("0.1"), Some("1.5.2"), Some("9.9.9"), Some("")] {
        let mut device = create_test_device();
        device.last_firmware_version = firmware.map(|v| v.to_string());
        let response = DisplayResponse::from_device(&device, "http://localhost:3000");
        assert_eq!(image_format(&device), ImageFormat::Bmp);
        assert_eq!(response.filename, "setup-logo.bmp");
        assert_eq!(response.image_url, "http://localhost:3000/storage/images/setup-logo.bmp");
    }
}

#[test]
fn use_bitmap_at_and_around_the_threshold() {
    assert!(use_bitmap(&None));
    assert!(use_bitmap(&Some("1.5.1".to_string())));
    assert!(use_bitmap(&Some("1.5".to_string())));
    assert!(use_bitmap(&Some("".to_string())));
    assert!(!use_bitmap(&Some("1.5.2".to_string())));
    assert!(!use_bitmap(&Some("1.5.2.0".to_string())));
    assert!(!use_bitmap(&Some("1.5.3".to_string())));
    assert!(!use_bitmap(&Some("v1.0.0".to_string())));
}

#[test]
fn negative_interval_wraps_around() {
    let mut device = create_test_device();
    device.default_refresh_interval = -1;
    assert_eq!(DisplayResponse::from_device(&device, "http://h").refresh_rate, 4_294_967_295);
    device.default_refresh_interval = i32::MIN;
    assert_eq!(DisplayResponse::from_device(&device, "http://h").refresh_rate, 2_147_483_648);
    device.default_refresh_interval = 0;
    assert_eq!(DisplayResponse::from_device(&device, "http://h").refresh_rate, 0);
}
