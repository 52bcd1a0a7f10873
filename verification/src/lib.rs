//! Pluggable input and output for a TeX engine: handles that fingerprint
//! what passes through them, providers that hand such handles out, a stack
//! that tries providers in order, and the digests that name file contents.

pub mod digest;
pub mod errors;
pub mod io;
pub mod text;
