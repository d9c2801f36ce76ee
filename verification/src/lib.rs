//! A library for identifying Tasmota devices on a network: it recognises the
//! firmware's signature line in a web page, pulls the version, friendly name,
//! device name and MAC address out of the device's responses, and drives the
//! per-host probe as a step-by-step session that a caller feeds with HTTP
//! responses.

pub mod filter;
pub mod json;
pub mod mac;
pub mod probe;
pub mod signature;
pub mod structs;
pub mod text;

pub use json::get_devicename;
pub use json::get_friendlyname;
pub use mac::get_mac_address;
pub use signature::check_is_tasmota;
pub use structs::DeviceName;
pub use structs::FriendlyName1;
pub use structs::TasmotaConfig;
pub use structs::TasmotaDevice;
