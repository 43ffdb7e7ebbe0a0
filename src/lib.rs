//! Directory vault: per-file containers sealed with a password-derived
//! XChaCha20 keystream, the container codec, and the dispatch rules of the
//! worker pool that runs the jobs.
pub mod container;
pub mod error;
pub mod kdf;
pub mod keystream;
pub mod naming;
mod random;
pub mod scheduler;
pub mod vault;
