//! The errors of the operating-system collector.

use vstd::prelude::*;

verus! {

/// Why a snapshot could not be collected.
#[derive(Debug)]
pub enum HardwareInfoError {
    /// No collector exists for the named platform.
    PlatformUnsupported(&'static str),
    /// A Windows API function failed with the given message.
    WindowsApi { function: &'static str, message: String },
}

/// The result type of the operating-system collector.
pub type Result<T> = core::result::Result<T, HardwareInfoError>;

impl HardwareInfoError {
    /// The human-readable text of the error.
    pub open spec fn text(&self) -> Seq<char> {
        match self {
            HardwareInfoError::PlatformUnsupported(platform) => "hardware information is not implemented for "@
                + platform@,
            HardwareInfoError::WindowsApi { function, message } => function@ + " failed: "@
                + message@,
        }
    }

    /// The human-readable text of the error.
    pub fn message(&self) -> (r: String)
        ensures
            r@ == self.text(),
    {
        match self {
            HardwareInfoError::PlatformUnsupported(platform) => crate::hw::owned(
                "hardware information is not implemented for ",
            ).concat(platform),
            HardwareInfoError::WindowsApi { function, message } => crate::hw::owned(
                function,
            ).concat(" failed: ").concat(message.as_str()),
        }
    }
}

} // verus!
