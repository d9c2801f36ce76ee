//! The data that a probe works on: one record per target host, plus the small
//! shapes the device's command endpoint answers with.

use vstd::prelude::*;
use vstd::string::StringExecFns;

verus! {

/// The answer of the `FriendlyName1` command: a single string field.
#[derive(Clone, Debug)]
pub struct FriendlyName1 {
    /// like it says on the tin
    pub friendly_name_1: String,
}

/// The answer of the `DeviceName` command: a single string field.
#[derive(Clone, Debug)]
pub struct DeviceName {
    /// like it says on the tin
    pub device_name: String,
}

/// Represents a single device
#[derive(Clone, Debug)]
pub struct TasmotaDevice {
    /// config ip of the device
    pub ip: String,
    /// admin username, normally admin
    pub username: String,
    /// password, if needed
    pub password: Option<String>,
    /// version number, if found
    pub version: Option<String>,
    /// friendly name
    pub friendly_name_1: Option<String>,
    /// internal device name
    pub device_name: Option<String>,
    /// wifi mac
    pub mac_address: Option<String>,
}

impl TasmotaDevice {
    /// build a new device from ip/username/password
    pub fn new(ip: String, username: String, password: Option<String>) -> (r: Self)
        ensures
            r.ip == ip,
            r.username == username,
            r.password == password,
            r.version is None,
            r.friendly_name_1 is None,
            r.device_name is None,
            r.mac_address is None,
    {
        TasmotaDevice {
            ip,
            username,
            password,
            version: None,
            friendly_name_1: None,
            device_name: None,
            mac_address: None,
        }
    }
}

/// `t` in quotes, as the listing shows every retrieved attribute.
pub open spec fn quoted(t: Seq<char>) -> Seq<char> {
    seq!['"'] + t + seq!['"']
}

/// An optional attribute as the listing shows it: its value, or the `blank`
/// placeholder, in quotes either way.
pub open spec fn field_text(o: Option<String>) -> Seq<char> {
    match o {
        Some(s) => quoted(s@),
        None => quoted("blank"@),
    }
}

impl TasmotaDevice {
    /// The fixed-field record a found device is listed as.
    pub open spec fn display_text(self) -> Seq<char> {
        "{ip="@ + self.ip@ + ", FriendlyName1="@ + field_text(self.friendly_name_1)
            + ", DeviceName="@ + field_text(self.device_name) + ", mac_address="@ + field_text(
            self.mac_address,
        ) + ", version="@ + field_text(self.version) + " }"@
    }

    /// Render the record as one fixed-field line for the listing.
    pub fn display_string(&self) -> (r: String)
        ensures
            r@ == self.display_text(),
    {
        let mut r: String = "{ip=".to_owned();
        r.append(self.ip.as_str());
        r.append(", FriendlyName1=");
        append_field(&mut r, &self.friendly_name_1);
        r.append(", DeviceName=");
        append_field(&mut r, &self.device_name);
        r.append(", mac_address=");
        append_field(&mut r, &self.mac_address);
        r.append(", version=");
        append_field(&mut r, &self.version);
        r.append(" }");
        proof {
            assert(r@ =~= self.display_text());
        }
        r
    }
}

/// Append one optional attribute, quoted, `blank` where unset.
fn append_field(r: &mut String, o: &Option<String>)
    ensures
        final(r)@ == old(r)@ + field_text(*o),
{
    r.append("\"");
    match o {
        Some(s) => r.append(s.as_str()),
        None => r.append("blank"),
    }
    r.append("\"");
    proof {
        reveal_strlit("\"");
        assert(r@ =~= old(r)@ + field_text(*o));
    }
}

/// Represents configuration of the app
#[derive(Clone, Debug)]
pub struct TasmotaConfig {
    /// username for access
    pub username: String,
    /// password for access
    pub password: Option<String>,
}

} // verus!
