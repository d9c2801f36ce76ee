use tasmota::{get_devicename, get_friendlyname};

#[test]
fn friendlyname_decodes_from_200() {
    let body = b"{\"FriendlyName1\":\"kitchen\"}";
    assert_eq!(get_friendlyname(200, body), Some(String::from("kitchen")));
}

#[test]
fn friendlyname_ignores_non_200() {
    let body = b"{\"FriendlyName1\":\"kitchen\"}";
    assert_eq!(get_friendlyname(404, body), None);
    assert_eq!(get_friendlyname(500, body), None);
}

#[test]
fn friendlyname_malformed_json_is_unset() {
    assert_eq!(get_friendlyname(200, b"{\"FriendlyName1\":\"kit"), None);
    assert_eq!(get_friendlyname(200, b"not json at all"), None);
}

#[test]
fn friendlyname_non_string_value_is_unset() {
    assert_eq!(get_friendlyname(200, b"{\"FriendlyName1\":3}"), None);
    assert_eq!(get_friendlyname(200, b"{\"FriendlyName1\":null}"), None);
}

#[test]
fn friendlyname_missing_key_is_unset() {
    assert_eq!(get_friendlyname(200, b"{\"DeviceName\":\"kitchen\"}"), None);
}

#[test]
fn friendlyname_beside_other_keys_is_found() {
    let body = b"{\"Other\":1,\"FriendlyName1\":\"porch light\"}";
    assert_eq!(get_friendlyname(200, body), Some(String::from("porch light")));
}

#[test]
fn devicename_decodes_from_200() {
    let body = b"{\"DeviceName\":\"tasmota_DC7194\"}";
    assert_eq!(get_devicename(200, body), Some(String::from("tasmota_DC7194")));
}

#[test]
fn devicename_ignores_friendlyname_key() {
    assert_eq!(get_devicename(200, b"{\"FriendlyName1\":\"kitchen\"}"), None);
}

#[test]
fn escaped_text_comes_back_decoded() {
    // the decoder hands the value back, not the document's spelling of it
    let body = b"{\"FriendlyName1\":\"a\\\"b\"}";
    assert_eq!(get_friendlyname(200, body), Some(String::from("a\"b")));
}
