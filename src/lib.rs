//! A small register-based byte-code virtual machine: a segmented memory
//! image, a four-byte instruction encoding and a fetch-decode-execute engine.
pub mod error;
pub mod memory;
pub mod structs;
pub mod engine;
pub mod assembly;
