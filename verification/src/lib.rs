//! Administration tooling for a small game server: keeping a cloud-stored
//! host address in step with the machine's public address, framing object
//! uploads for cloud storage, parsing command lines and settings, and the
//! decisions of the periodic backup job.

pub mod text;
pub mod address;
pub mod sync;
pub mod gcs;
pub mod cli;
pub mod backup;
