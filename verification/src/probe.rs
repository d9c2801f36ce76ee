//! The per-host probe, as a session a caller drives. The workflow is fixed:
//! ask for the root page and look for the signature; where it matches, ask in
//! turn for the friendly name, the device name and the status page with the
//! MAC address, each of which may fail without harm; where it does not, skip
//! the host. The session holds where the workflow stands, names the next
//! request, and takes each request's outcome as an event — so the decisions
//! are all here and verified, while the caller does nothing but HTTP.

use vstd::prelude::*;
use vstd::string::StringExecFns;

use crate::json::{device_name_of, friendly_name_of};
use crate::mac::mac_chars_of;
use crate::signature::{has_sig, version_chars_of};
use crate::structs::TasmotaDevice;
use crate::text::opt_chars;

verus! {

/// Why a host was skipped rather than listed.
#[derive(Clone, Copy, Debug, PartialEq, Eq, Structural)]
pub enum SkipReason {
    /// the root page carried no Tasmota signature
    NotTasmota,
    /// no answer within the time limit
    Timeout,
    /// the connection could not be made
    ConnectionError,
    /// some other transport failure
    TransportError,
}

impl SkipReason {
    /// The line logged for a host skipped at `ip` with this reason.
    pub open spec fn spec_message(self, ip: Seq<char>) -> Seq<char> {
        match self {
            SkipReason::NotTasmota => ip + " Not tasmota, skipping"@,
            SkipReason::Timeout => ip + " timed out, skipping"@,
            SkipReason::ConnectionError => ip + " connection failed, skipping"@,
            SkipReason::TransportError => ip + " request failed, skipping"@,
        }
    }

    /// Word the skip for the log, as `<ip> <reason>, skipping`.
    pub fn message(&self, ip: &str) -> (r: String)
        ensures
            r@ == self.spec_message(ip@),
    {
        let mut r: String = ip.to_owned();
        match self {
            SkipReason::NotTasmota => r.append(" Not tasmota, skipping"),
            SkipReason::Timeout => r.append(" timed out, skipping"),
            SkipReason::ConnectionError => r.append(" connection failed, skipping"),
            SkipReason::TransportError => r.append(" request failed, skipping"),
        }
        r
    }
}

/// What one HTTP exchange with the host came to. The caller makes the
/// request; the session only reads the outcome.
pub enum ProbeEvent {
    /// an answer arrived: its status code and its raw body
    Response { status: u16, body: Vec<u8> },
    /// no answer within the time limit
    Timeout,
    /// the connection could not be made
    ConnectionError,
    /// some other transport failure
    TransportError,
}

/// Where a session stands: which request comes next, or how it ended.
#[derive(Clone, Copy, Debug, PartialEq, Eq, Structural)]
pub enum ProbeStage {
    /// the root page has not been answered yet
    Root,
    /// the signature matched; the friendly name comes next
    FriendlyName,
    /// the device name comes next
    DeviceName,
    /// the status page, for the MAC address, comes next
    Mac,
    /// every step was taken; the device is confirmed
    Done,
    /// the host fell out at the first step
    Skipped(SkipReason),
}

/// The stage a session reaches from `Root` on `event`: a matching signature
/// carries it on, everything else ends it. A failure of the sole gating
/// request skips the host, each kind under its own reason.
pub open spec fn stage_after_root(event: ProbeEvent) -> ProbeStage {
    match event {
        ProbeEvent::Response { status, body } => if has_sig(body@) {
            ProbeStage::FriendlyName
        } else {
            ProbeStage::Skipped(SkipReason::NotTasmota)
        },
        ProbeEvent::Timeout => ProbeStage::Skipped(SkipReason::Timeout),
        ProbeEvent::ConnectionError => ProbeStage::Skipped(SkipReason::ConnectionError),
        ProbeEvent::TransportError => ProbeStage::Skipped(SkipReason::TransportError),
    }
}

/// One host's probe in progress: the record being filled in, and where the
/// workflow stands.
pub struct ProbeSession {
    /// the record being filled in
    pub device: TasmotaDevice,
    /// where the workflow stands
    pub stage: ProbeStage,
}

impl ProbeSession {
    /// Each attribute is set exactly as far as the workflow has come; in
    /// particular the version is set if and only if the device was confirmed.
    pub open spec fn wf(self) -> bool {
        match self.stage {
            ProbeStage::Root => {
                &&& self.device.version is None
                &&& self.device.friendly_name_1 is None
                &&& self.device.device_name is None
                &&& self.device.mac_address is None
            },
            ProbeStage::FriendlyName => {
                &&& self.device.version is Some
                &&& self.device.friendly_name_1 is None
                &&& self.device.device_name is None
                &&& self.device.mac_address is None
            },
            ProbeStage::DeviceName => {
                &&& self.device.version is Some
                &&& self.device.device_name is None
                &&& self.device.mac_address is None
            },
            ProbeStage::Mac => {
                &&& self.device.version is Some
                &&& self.device.mac_address is None
            },
            ProbeStage::Done => self.device.version is Some,
            ProbeStage::Skipped(_) => self.device.version is None,
        }
    }

    /// The session has nothing more to ask.
    pub open spec fn finished(self) -> bool {
        self.stage is Done || self.stage is Skipped
    }

    /// Start a probe of `device`, of which nothing may be known yet.
    pub fn new(device: TasmotaDevice) -> (r: Self)
        requires
            device.version is None,
            device.friendly_name_1 is None,
            device.device_name is None,
            device.mac_address is None,
        ensures
            r.device == device,
            r.stage == ProbeStage::Root,
            r.wf(),
    {
        ProbeSession { device, stage: ProbeStage::Root }
    }

    /// The path of the request the session asks for next, or `None` once it
    /// is finished.
    pub fn next_path(&self) -> (r: Option<String>)
        ensures
            r is Some <==> !self.finished(),
            match self.stage {
                ProbeStage::Root => r matches Some(p) && p@ == "/"@,
                ProbeStage::FriendlyName => r matches Some(p) && p@ == "/cm?cmnd=FriendlyName1"@,
                ProbeStage::DeviceName => r matches Some(p) && p@ == "/cm?cmnd=DeviceName"@,
                ProbeStage::Mac => r matches Some(p) && p@ == "/in"@,
                ProbeStage::Done => r is None,
                ProbeStage::Skipped(_) => r is None,
            },
    {
        match self.stage {
            ProbeStage::Root => Some("/".to_owned()),
            ProbeStage::FriendlyName => {
                let p = get_cmnd_path("FriendlyName1");
                proof {
                    reveal_strlit("/cm?cmnd=");
                    reveal_strlit("FriendlyName1");
                    reveal_strlit("/cm?cmnd=FriendlyName1");
                    assert(p@ =~= "/cm?cmnd=FriendlyName1"@);
                }
                Some(p)
            },
            ProbeStage::DeviceName => {
                let p = get_cmnd_path("DeviceName");
                proof {
                    reveal_strlit("/cm?cmnd=");
                    reveal_strlit("DeviceName");
                    reveal_strlit("/cm?cmnd=DeviceName");
                    assert(p@ =~= "/cm?cmnd=DeviceName"@);
                }
                Some(p)
            },
            ProbeStage::Mac => Some("/in".to_owned()),
            ProbeStage::Done => None,
            ProbeStage::Skipped(_) => None,
        }
    }

    /// Feed the session the outcome of the request it asked for: one step of
    /// the workflow. The root answer alone decides between going on and
    /// skipping; each later answer fills its attribute where it can — a
    /// failure there leaves the attribute unset and the probe alive.
    pub fn on_event(&mut self, event: ProbeEvent)
        requires
            old(self).wf(),
        ensures
            final(self).wf(),
            final(self).device.ip == old(self).device.ip,
            final(self).device.username == old(self).device.username,
            final(self).device.password == old(self).device.password,
            match old(self).stage {
                ProbeStage::Root => {
                    &&& final(self).stage == stage_after_root(event)
                    &&& (match event {
                        ProbeEvent::Response { status, body } => opt_chars(
                            final(self).device.version,
                        ) == version_chars_of(body@),
                        _ => final(self).device.version is None,
                    })
                    &&& final(self).device.friendly_name_1 is None
                    &&& final(self).device.device_name is None
                    &&& final(self).device.mac_address is None
                },
                ProbeStage::FriendlyName => {
                    &&& final(self).stage == ProbeStage::DeviceName
                    &&& (match event {
                        ProbeEvent::Response { status, body } => opt_chars(
                            final(self).device.friendly_name_1,
                        ) == friendly_name_of(status, body@),
                        _ => final(self).device.friendly_name_1 is None,
                    })
                    &&& final(self).device.version == old(self).device.version
                    &&& final(self).device.device_name is None
                    &&& final(self).device.mac_address is None
                },
                ProbeStage::DeviceName => {
                    &&& final(self).stage == ProbeStage::Mac
                    &&& (match event {
                        ProbeEvent::Response { status, body } => opt_chars(
                            final(self).device.device_name,
                        ) == device_name_of(status, body@),
                        _ => final(self).device.device_name is None,
                    })
                    &&& final(self).device.version == old(self).device.version
                    &&& final(self).device.friendly_name_1 == old(self).device.friendly_name_1
                    &&& final(self).device.mac_address is None
                },
                ProbeStage::Mac => {
                    &&& final(self).stage == ProbeStage::Done
                    &&& (match event {
                        ProbeEvent::Response { status, body } => opt_chars(
                            final(self).device.mac_address,
                        ) == mac_chars_of(body@),
                        _ => final(self).device.mac_address is None,
                    })
                    &&& final(self).device.version == old(self).device.version
                    &&& final(self).device.friendly_name_1 == old(self).device.friendly_name_1
                    &&& final(self).device.device_name == old(self).device.device_name
                },
                ProbeStage::Done => *final(self) == *old(self),
                ProbeStage::Skipped(_) => *final(self) == *old(self),
            },
    {
        match self.stage {
            ProbeStage::Root => {
                match event {
                    ProbeEvent::Response { status: _, body } => {
                        let v = crate::signature::check_is_tasmota(body.as_slice());
                        let matched = v.is_some();
                        self.device.version = v;
                        if matched {
                            self.stage = ProbeStage::FriendlyName;
                        } else {
                            self.stage = ProbeStage::Skipped(SkipReason::NotTasmota);
                        }
                    },
                    ProbeEvent::Timeout => {
                        self.stage = ProbeStage::Skipped(SkipReason::Timeout);
                    },
                    ProbeEvent::ConnectionError => {
                        self.stage = ProbeStage::Skipped(SkipReason::ConnectionError);
                    },
                    ProbeEvent::TransportError => {
                        self.stage = ProbeStage::Skipped(SkipReason::TransportError);
                    },
                }
            },
            ProbeStage::FriendlyName => {
                match event {
                    ProbeEvent::Response { status, body } => {
                        self.device.friendly_name_1 = crate::json::get_friendlyname(
                            status,
                            body.as_slice(),
                        );
                    },
                    _ => {},
                }
                self.stage = ProbeStage::DeviceName;
            },
            ProbeStage::DeviceName => {
                match event {
                    ProbeEvent::Response { status, body } => {
                        self.device.device_name = crate::json::get_devicename(
                            status,
                            body.as_slice(),
                        );
                    },
                    _ => {},
                }
                self.stage = ProbeStage::Mac;
            },
            ProbeStage::Mac => {
                match event {
                    ProbeEvent::Response { status: _, body } => {
                        self.device.mac_address = crate::mac::get_mac_address(body.as_slice());
                    },
                    _ => {},
                }
                self.stage = ProbeStage::Done;
            },
            ProbeStage::Done => {},
            ProbeStage::Skipped(_) => {},
        }
    }

    /// The outcome of a finished session: the enriched device, or why the
    /// host was skipped.
    pub fn into_result(self) -> (r: Result<TasmotaDevice, SkipReason>)
        requires
            self.finished(),
            self.wf(),
        ensures
            match self.stage {
                ProbeStage::Done => r == Ok::<TasmotaDevice, SkipReason>(self.device)
                    && self.device.version is Some,
                ProbeStage::Skipped(reason) => r == Err::<TasmotaDevice, SkipReason>(reason),
                _ => false,
            },
    {
        match self.stage {
            ProbeStage::Done => Ok(self.device),
            ProbeStage::Skipped(reason) => Err(reason),
            _ => vstd::pervasive::unreached(),
        }
    }
}

/// The path of the command endpoint for `cmnd`: `/cm?cmnd=<cmnd>`.
pub fn get_cmnd_path(cmnd: &str) -> (r: String)
    ensures
        r@ == "/cm?cmnd="@ + cmnd@,
{
    let mut r: String = "/cm?cmnd=".to_owned();
    r.append(cmnd);
    r
}

/// The URL of `uri` on the device at `ip`: `http://<ip><uri>`.
pub fn get_device_url(ip: &str, uri: &str) -> (r: String)
    ensures
        r@ == "http://"@ + ip@ + uri@,
{
    let mut r: String = "http://".to_owned();
    r.append(ip);
    r.append(uri);
    r
}

/// A probe whose first request gets no answer within the time limit is
/// skipped with the timeout reason, and a finished session asks for nothing
/// more: the friendly-name, device-name and MAC requests are never made.
pub proof fn lemma_timeout_skips_whole_probe(event: ProbeEvent, s: ProbeSession)
    requires
        event is Timeout,
        s.stage == stage_after_root(event),
    ensures
        s.stage == ProbeStage::Skipped(SkipReason::Timeout),
        s.finished(),
{
}

} // verus!
