use tasmota::check_is_tasmota;

#[test]
fn version_three_components() {
    let body = b"<html><title>Tasmota 9.5.0 by Theo Arends</title></html>";
    assert_eq!(check_is_tasmota(body), Some(String::from("9.5.0")));
}

#[test]
fn version_four_components() {
    let body = b"Tasmota 12.1.1.2 by Theo Arends";
    assert_eq!(check_is_tasmota(body), Some(String::from("12.1.1.2")));
}

#[test]
fn no_theo_arends_is_not_tasmota() {
    let body = b"<html><h1>Some other firmware 9.5.0</h1></html>";
    assert_eq!(check_is_tasmota(body), None);
}

#[test]
fn empty_body_is_not_tasmota() {
    assert_eq!(check_is_tasmota(b""), None);
}

#[test]
fn two_component_version_is_no_signature() {
    let body = b"Tasmota 9.5 by Theo Arends";
    assert_eq!(check_is_tasmota(body), None);
}

#[test]
fn five_component_version_is_no_signature() {
    let body = b"Tasmota 1.2.3.4.5 by Theo Arends";
    assert_eq!(check_is_tasmota(body), None);
}

#[test]
fn misspelt_suffix_is_no_signature() {
    let body = b"Tasmota 9.5.0 by Theo Arendt";
    assert_eq!(check_is_tasmota(body), None);
}

#[test]
fn missing_space_is_no_signature() {
    let body = b"Tasmota9.5.0 by Theo Arends";
    assert_eq!(check_is_tasmota(body), None);
}

#[test]
fn first_signature_wins() {
    let body = b"Tasmota 1.2.3 by Theo Arends and Tasmota 9.5.0 by Theo Arends";
    assert_eq!(check_is_tasmota(body), Some(String::from("1.2.3")));
}

#[test]
fn broken_first_candidate_does_not_hide_second() {
    let body = b"Tasmota x.y.z by Theo Arends ... Tasmota 10.1.0 by Theo Arends";
    assert_eq!(check_is_tasmota(body), Some(String::from("10.1.0")));
}

#[test]
fn multidigit_components_are_kept_whole() {
    let body = b"Tasmota 12.10.0 by Theo Arends";
    assert_eq!(check_is_tasmota(body), Some(String::from("12.10.0")));
}

#[test]
fn signature_at_start_and_end_offsets() {
    let body = b"Tasmota 9.5.0 by Theo Arends";
    assert_eq!(check_is_tasmota(body), Some(String::from("9.5.0")));
    let body2 = b"................Tasmota 9.5.0 by Theo Arends";
    assert_eq!(check_is_tasmota(body2), Some(String::from("9.5.0")));
}
