//! A minimal virtual CPU: a fetch-decode-execute interpreter over sixteen
//! 8-bit registers, a 4 KiB memory and a bounded stack of return addresses.

pub mod isa;
pub mod machine;
pub mod laws;
