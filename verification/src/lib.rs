//! Checksum manifests: generation, verification and refresh of per-file
//! digests, with the manifest formats, the checksum notation and the task
//! bookkeeping stated and proved in Verus.

pub mod checksum;
pub mod cli;
pub mod common;
pub mod digest;
pub mod generate;
pub mod manifest;
pub mod path;
pub mod refresh;
pub mod text;
pub mod verify;
