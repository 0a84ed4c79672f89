//! A single-file project container: a build manifest, an editable source
//! and the compiled binary packed into one file, with the codec that reads
//! and writes it, the fingerprint that tells when the binary is stale, and
//! the edit and run workflows as state machines.
pub mod codec;
pub mod config;
pub mod fingerprint;
pub mod numbers;
pub mod text_encoding;
pub mod workflow;
