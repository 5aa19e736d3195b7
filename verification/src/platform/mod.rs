//! The operating-system collector: the decisions of the Windows collector,
//! and the answer on platforms that have none.

pub mod windows;
pub mod unsupported;
