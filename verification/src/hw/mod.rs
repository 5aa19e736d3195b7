//! Typed hardware records and the decoders that produce them.

pub mod smbios;
pub mod bios;
pub mod memory;
pub mod motherboard;
pub mod cpu;
pub mod display;
pub mod gpu;
pub mod sort;
pub mod storage;
pub mod os;
pub mod monitors;

use vstd::prelude::*;

verus! {

/// The result type of the hardware collectors: errors are messages.
pub type HwResult<T> = Result<T, String>;

/// The mathematical content of a collector's result.
pub open spec fn hw_view<T: View>(r: HwResult<T>) -> Result<T::V, Seq<char>> {
    match r {
        Ok(v) => Ok(v@),
        Err(e) => Err(e@),
    }
}

/// The text of an optional string.
pub open spec fn opt_text(o: Option<String>) -> Option<Seq<char>> {
    match o {
        Some(s) => Some(s@),
        None => None,
    }
}

/// Turns a text into an owned string.
pub fn owned(text: &str) -> (r: String)
    ensures
        r@ == text@,
{
    text.to_owned()
}

} // verus!
