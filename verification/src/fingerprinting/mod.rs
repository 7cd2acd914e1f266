//! The audio-fingerprint signature: its in-memory form, its binary wire
//! encoding and the request payload built around it.

pub mod communication;
pub mod little_endian;
pub mod signature_format;
pub mod signature_laws;
