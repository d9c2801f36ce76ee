use tasmota::get_mac_address;

#[test]
fn mac_found_anywhere_in_page() {
    let body = b"<tr><td>MAC Address</td><td>48:3F:DA:45:0F:D0</td></tr>";
    assert_eq!(get_mac_address(body), Some(String::from("48:3F:DA:45:0F:D0")));
}

#[test]
fn lowercase_mac_does_not_match() {
    let body = b"mac is 48:3f:da:45:0f:d0 here";
    assert_eq!(get_mac_address(body), None);
}

#[test]
fn bare_mac_is_found() {
    assert_eq!(
        get_mac_address(b"48:3F:DA:45:0F:D0"),
        Some(String::from("48:3F:DA:45:0F:D0"))
    );
}

#[test]
fn short_page_has_no_mac() {
    assert_eq!(get_mac_address(b"48:3F:DA:45:0F:D"), None);
    assert_eq!(get_mac_address(b""), None);
}

#[test]
fn first_mac_wins() {
    let body = b"AA:BB:CC:DD:EE:FF then 48:3F:DA:45:0F:D0";
    assert_eq!(get_mac_address(body), Some(String::from("AA:BB:CC:DD:EE:FF")));
}

#[test]
fn leading_pair_shifts_the_match() {
    // the earliest seventeen-byte window that fits the shape is taken
    let body = b"00:48:3F:DA:45:0F:D0";
    assert_eq!(get_mac_address(body), Some(String::from("00:48:3F:DA:45:0F")));
}

#[test]
fn colons_in_wrong_places_do_not_match() {
    assert_eq!(get_mac_address(b"48:3FD:A45:0F:D0:"), None);
}

#[test]
fn hex_beyond_f_does_not_match() {
    assert_eq!(get_mac_address(b"4G:3F:DA:45:0F:D0"), None);
}
