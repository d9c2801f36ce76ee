use tasmota::probe::{get_cmnd_path, get_device_url, ProbeEvent, ProbeSession, ProbeStage, SkipReason};
use tasmota::TasmotaDevice;

fn device(ip: &str) -> TasmotaDevice {
    TasmotaDevice::new(String::from(ip), String::from("admin"), None)
}

fn response(status: u16, body: &[u8]) -> ProbeEvent {
    ProbeEvent::Response { status, body: body.to_vec() }
}

/// Drive one whole probe, answering each request from the given outcomes.
fn run_probe(
    dev: TasmotaDevice,
    outcomes: &mut Vec<ProbeEvent>,
) -> Result<TasmotaDevice, SkipReason> {
    let mut session = ProbeSession::new(dev);
    while let Some(_path) = session.next_path() {
        let event = if outcomes.is_empty() {
            ProbeEvent::ConnectionError
        } else {
            outcomes.remove(0)
        };
        session.on_event(event);
    }
    session.into_result()
}

#[test]
fn full_probe_fills_every_attribute() {
    let mut outcomes = vec![
        response(200, b"<html>Tasmota 9.5.0 by Theo Arends</html>"),
        response(200, b"{\"FriendlyName1\":\"kitchen\"}"),
        response(200, b"{\"DeviceName\":\"tasmota_DC7194\"}"),
        response(200, b"<td>48:3F:DA:45:0F:D0</td>"),
    ];
    let probed = run_probe(device("10.0.0.5"), &mut outcomes).expect("probe should succeed");
    assert_eq!(probed.version, Some(String::from("9.5.0")));
    assert_eq!(probed.friendly_name_1, Some(String::from("kitchen")));
    assert_eq!(probed.device_name, Some(String::from("tasmota_DC7194")));
    assert_eq!(probed.mac_address, Some(String::from("48:3F:DA:45:0F:D0")));
    assert_eq!(probed.ip, String::from("10.0.0.5"));
}

#[test]
fn timeout_on_root_skips_without_further_requests() {
    let mut session = ProbeSession::new(device("10.0.0.9"));
    assert_eq!(session.next_path(), Some(String::from("/")));
    session.on_event(ProbeEvent::Timeout);
    // the session is finished: no friendly-name, device-name or MAC request
    assert_eq!(session.next_path(), None);
    assert!(matches!(session.into_result(), Err(SkipReason::Timeout)));
}

#[test]
fn page_without_signature_skips_as_not_tasmota() {
    let mut outcomes = vec![response(200, b"<html>just a web server</html>")];
    assert!(matches!(
        run_probe(device("10.0.0.7"), &mut outcomes),
        Err(SkipReason::NotTasmota)
    ));
}

#[test]
fn connection_error_on_root_skips() {
    let mut outcomes = vec![ProbeEvent::ConnectionError];
    assert!(matches!(
        run_probe(device("10.0.0.8"), &mut outcomes),
        Err(SkipReason::ConnectionError)
    ));
}

#[test]
fn failed_enrichment_leaves_field_unset_but_succeeds() {
    let mut outcomes = vec![
        response(200, b"Tasmota 9.5.0 by Theo Arends"),
        response(404, b"{\"FriendlyName1\":\"kitchen\"}"),
        response(200, b"not json"),
        ProbeEvent::Timeout,
    ];
    let probed = run_probe(device("10.0.0.6"), &mut outcomes).expect("probe should succeed");
    assert_eq!(probed.version, Some(String::from("9.5.0")));
    assert_eq!(probed.friendly_name_1, None);
    assert_eq!(probed.device_name, None);
    assert_eq!(probed.mac_address, None);
}

#[test]
fn probe_asks_the_four_paths_in_order() {
    let mut session = ProbeSession::new(device("10.0.0.5"));
    assert_eq!(session.next_path(), Some(String::from("/")));
    session.on_event(response(200, b"Tasmota 9.5.0 by Theo Arends"));
    assert_eq!(session.next_path(), Some(String::from("/cm?cmnd=FriendlyName1")));
    session.on_event(response(200, b"{\"FriendlyName1\":\"kitchen\"}"));
    assert_eq!(session.next_path(), Some(String::from("/cm?cmnd=DeviceName")));
    session.on_event(response(200, b"{\"DeviceName\":\"oven\"}"));
    assert_eq!(session.next_path(), Some(String::from("/in")));
    session.on_event(response(200, b"48:3F:DA:45:0F:D0"));
    assert_eq!(session.next_path(), None);
    assert!(matches!(session.stage, ProbeStage::Done));
}

#[test]
fn three_hosts_only_the_tasmota_one_is_listed() {
    // host A answers everything, host B is a plain web server, host C is
    // unreachable: the listing holds exactly host A's record
    let mut a_outcomes = vec![
        response(200, b"Tasmota 9.5.0 by Theo Arends"),
        response(200, b"{\"FriendlyName1\":\"kitchen\"}"),
        response(200, b"{\"DeviceName\":\"oven\"}"),
        response(200, b"48:3F:DA:45:0F:D0"),
    ];
    let mut b_outcomes = vec![response(200, b"<html>hello</html>")];
    let mut c_outcomes = vec![ProbeEvent::ConnectionError];

    let results = vec![
        run_probe(device("10.0.0.1"), &mut a_outcomes),
        run_probe(device("10.0.0.2"), &mut b_outcomes),
        run_probe(device("10.0.0.3"), &mut c_outcomes),
    ];
    let listing: Vec<TasmotaDevice> = results.into_iter().flatten().collect();
    assert_eq!(listing.len(), 1);
    assert_eq!(listing[0].ip, String::from("10.0.0.1"));
    assert_eq!(listing[0].friendly_name_1, Some(String::from("kitchen")));
}

#[test]
fn skip_messages_name_the_host_and_reason() {
    assert_eq!(
        SkipReason::NotTasmota.message("10.0.0.5"),
        String::from("10.0.0.5 Not tasmota, skipping")
    );
    assert_eq!(
        SkipReason::Timeout.message("10.0.0.5"),
        String::from("10.0.0.5 timed out, skipping")
    );
    assert_eq!(
        SkipReason::ConnectionError.message("10.0.0.5"),
        String::from("10.0.0.5 connection failed, skipping")
    );
    assert_eq!(
        SkipReason::TransportError.message("10.0.0.5"),
        String::from("10.0.0.5 request failed, skipping")
    );
}

#[test]
fn cmnd_path_appends_the_command() {
    assert_eq!(get_cmnd_path("Status"), String::from("/cm?cmnd=Status"));
}

#[test]
fn device_url_joins_scheme_host_and_path() {
    assert_eq!(
        get_device_url("10.0.0.5", "/in"),
        String::from("http://10.0.0.5/in")
    );
}
