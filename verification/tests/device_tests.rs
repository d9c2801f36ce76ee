use tasmota::filter::{include_in_listing, version_matches};
use tasmota::TasmotaDevice;

fn probed_device(version: &str) -> TasmotaDevice {
    let mut d = TasmotaDevice::new(
        String::from("10.0.0.5"),
        String::from("admin"),
        Some(String::from("hunter2")),
    );
    d.version = Some(String::from(version));
    d
}

#[test]
fn new_device_has_no_probed_attributes() {
    let d = TasmotaDevice::new(String::from("10.0.0.5"), String::from("admin"), None);
    assert_eq!(d.ip, String::from("10.0.0.5"));
    assert_eq!(d.username, String::from("admin"));
    assert_eq!(d.password, None);
    assert_eq!(d.version, None);
    assert_eq!(d.friendly_name_1, None);
    assert_eq!(d.device_name, None);
    assert_eq!(d.mac_address, None);
}

#[test]
fn version_filter_passes_on_containment() {
    assert!(version_matches("9.5.0", "9.5"));
    assert!(version_matches("9.5.0", ""));
    assert!(!version_matches("10.1.0", "9.5"));
}

#[test]
fn listing_keeps_matching_versions() {
    let filter = Some(String::from("9.5"));
    assert!(include_in_listing(&probed_device("9.5.0"), &filter));
    assert!(!include_in_listing(&probed_device("10.1.0"), &filter));
}

#[test]
fn listing_without_filter_keeps_everything() {
    assert!(include_in_listing(&probed_device("10.1.0"), &None));
}

#[test]
fn listing_without_version_is_not_filtered_out() {
    let d = TasmotaDevice::new(String::from("10.0.0.5"), String::from("admin"), None);
    assert!(include_in_listing(&d, &Some(String::from("9.5"))));
}

#[test]
fn display_line_shows_every_field() {
    let mut d = probed_device("9.5.0");
    d.friendly_name_1 = Some(String::from("kitchen"));
    d.mac_address = Some(String::from("48:3F:DA:45:0F:D0"));
    assert_eq!(
        d.display_string(),
        String::from(
            "{ip=10.0.0.5, FriendlyName1=\"kitchen\", DeviceName=\"blank\", \
             mac_address=\"48:3F:DA:45:0F:D0\", version=\"9.5.0\" }"
        )
    );
}

#[test]
fn display_line_blanks_every_unset_field() {
    let d = TasmotaDevice::new(String::from("10.0.0.5"), String::from("admin"), None);
    assert_eq!(
        d.display_string(),
        String::from(
            "{ip=10.0.0.5, FriendlyName1=\"blank\", DeviceName=\"blank\", \
             mac_address=\"blank\", version=\"blank\" }"
        )
    );
}
