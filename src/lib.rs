//! Reversible byte-shift obfuscation of files, framed with a small header
//! that records the original file name and the shift value.

pub mod frame;
pub mod pipeline;
pub mod source;
pub mod transform;
