//! Synchronisation of local directory trees with a per-user namespace in a
//! remote object store: path mapping, scan assembly, progress accounting and
//! the transfer session state machine.
pub mod paths;
pub mod progress;
pub mod scan;
pub mod storage;
pub mod engine;
pub mod crypto;
pub mod credentials;
pub mod admin;
pub mod keychain;
pub mod commands;
