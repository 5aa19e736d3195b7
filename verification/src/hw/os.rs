//! The operating system as the system-information service describes it.

use crate::hw::{opt_text, owned};
use vstd::prelude::*;

verus! {

/// The operating system.
#[derive(Debug)]
pub struct OsInfo {
    /// Always none: the manufacturer is not collected.
    pub manufacturer: Option<String>,
    /// The OS name (e.g. `Ubuntu`), or the platform name when unknown.
    pub family: String,
    /// The long OS version, or `unknown`.
    pub version: String,
    /// Always none: the edition is not collected.
    pub bussines: Option<bool>,
}

/// The content of `OsInfo` as mathematical values.
pub struct OsInfoView {
    pub manufacturer: Option<Seq<char>>,
    pub family: Seq<char>,
    pub version: Seq<char>,
    pub bussines: Option<bool>,
}

impl View for OsInfo {
    type V = OsInfoView;

    open spec fn view(&self) -> OsInfoView {
        OsInfoView {
            manufacturer: opt_text(self.manufacturer),
            family: self.family@,
            version: self.version@,
            bussines: self.bussines,
        }
    }
}

/// The operating-system record from the OS name, the long OS version (each
/// none when the service does not know it) and the platform name.
pub fn os_info(name: Option<String>, long_os_version: Option<String>, platform: &str) -> (r: OsInfo)
    ensures
        r@ == (OsInfoView {
            manufacturer: None,
            family: match opt_text(name) {
                Some(n) => n,
                None => platform@,
            },
            version: match opt_text(long_os_version) {
                Some(v) => v,
                None => "unknown"@,
            },
            bussines: None,
        }),
{
    OsInfo {
        manufacturer: None,
        family: match name {
            Some(n) => n,
            None => owned(platform),
        },
        version: match long_os_version {
            Some(v) => v,
            None => owned("unknown"),
        },
        bussines: None,
    }
}

} // verus!
