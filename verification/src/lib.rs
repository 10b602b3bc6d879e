//! A CHIP-8 virtual machine: a verified fetch-decode-execute core over an
//! emulated memory and register model, producing a monochrome bitmap and
//! consuming keyboard state through narrow capability traits.

pub mod chip_8;
pub mod laws;
pub mod machine;
pub mod semantics;
