//! The command endpoint's answers. A device answers `GET /cm?cmnd=<Name>`
//! with a JSON object whose `<Name>` key maps to a string. Decoding JSON is
//! serde_json's work; what this module adds, and verifies, is the policy
//! around it: only a 200 answer is read, and a failed decode leaves the
//! attribute unset rather than failing the probe.

use vstd::prelude::*;

use crate::text::opt_chars;

verus! {

/// The string value under `key` at the top of the JSON document `body`, or
/// `None` where the document does not decode or holds no string there. What
/// this is on given bytes only serde_json says; contracts carry the name.
pub uninterp spec fn json_string_field_of(body: Seq<u8>, key: Seq<char>) -> Option<Seq<char>>;

/// Relies on serde_json: `from_slice` decodes the document, `Value::get`
/// looks the key up at its top, `Value::as_str` keeps only a string value.
/// All three read their arguments alone, so the result is a function of the
/// body and the key.
#[verifier::external_body]
fn json_string_field(body: &[u8], key: &str) -> (r: Option<String>)
    ensures
        opt_chars(r) == json_string_field_of(body@, key@),
{
    match serde_json::from_slice::<serde_json::Value>(body) {
        Ok(doc) => doc.get(key).and_then(|v| v.as_str()).map(|s| s.to_string()),
        Err(_) => None,
    }
}

/// What the friendly-name fetch yields from an answer: the `FriendlyName1`
/// string of a 200 answer's body, and nothing from any other answer.
pub open spec fn friendly_name_of(status: u16, body: Seq<u8>) -> Option<Seq<char>> {
    if status == 200 {
        json_string_field_of(body, "FriendlyName1"@)
    } else {
        None
    }
}

/// What the device-name fetch yields from an answer.
pub open spec fn device_name_of(status: u16, body: Seq<u8>) -> Option<Seq<char>> {
    if status == 200 {
        json_string_field_of(body, "DeviceName"@)
    } else {
        None
    }
}

/// Read a device's friendly name out of the answer to the `FriendlyName1`
/// command: the status code and the raw body of that answer. A non-200
/// status or a body that does not decode yields `None`.
pub fn get_friendlyname(status: u16, body: &[u8]) -> (r: Option<String>)
    ensures
        opt_chars(r) == friendly_name_of(status, body@),
{
    if status != 200 {
        return None;
    }
    json_string_field(body, "FriendlyName1")
}

/// Read a device's device name out of the answer to the `DeviceName`
/// command, under the same policy as the friendly name.
pub fn get_devicename(status: u16, body: &[u8]) -> (r: Option<String>)
    ensures
        opt_chars(r) == device_name_of(status, body@),
{
    if status != 200 {
        return None;
    }
    json_string_field(body, "DeviceName")
}

} // verus!
