//! The version filter. A caller may give a substring, and only devices whose
//! confirmed version contains it are listed; a device with no filter given,
//! or a filter with no version to hold it against, passes.

use vstd::prelude::*;
use vstd::utf8::encode_utf8;

use crate::structs::TasmotaDevice;
use crate::text::{contains_seq, opt_chars};

verus! {

/// `filter` occurs inside `version`. Both are held as the bytes their text
/// encodes to; for the plain ASCII of a version number that is the text
/// itself.
pub open spec fn version_passes(version: Seq<char>, filter: Seq<char>) -> bool {
    contains_seq(encode_utf8(version), encode_utf8(filter))
}

/// Does this version pass the filter?
pub fn version_matches(version: &str, filter: &str) -> (r: bool)
    ensures
        r == version_passes(version@, filter@),
{
    crate::text::bytes_contain(version.as_bytes(), filter.as_bytes())
}

/// Whether a device stands in the final listing: with a filter given and a
/// version found, exactly when the version contains the filter; a device is
/// never dropped for want of either.
pub open spec fn listed(d: TasmotaDevice, filter: Option<Seq<char>>) -> bool {
    match (filter, d.version) {
        (Some(f), Some(v)) => version_passes(v@, f),
        _ => true,
    }
}

/// Does this device stand in the final listing under `filter`?
pub fn include_in_listing(d: &TasmotaDevice, filter: &Option<String>) -> (r: bool)
    ensures
        r == listed(*d, opt_chars(*filter)),
{
    match (filter, &d.version) {
        (Some(f), Some(v)) => version_matches(v.as_str(), f.as_str()),
        _ => true,
    }
}

} // verus!
