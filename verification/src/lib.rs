//! A verified control/data plane for a pod-inspection daemon.
//!
//! The library holds the logic of a daemon that mirrors Kubernetes pod
//! state for several clusters and serves queries over a private
//! length-framed binary RPC channel: the wire codec, the bearer-token
//! derivation pipeline, the device-flow login state machine, the
//! per-cluster pod mirror, and the request dispatcher.  Network and
//! process plumbing live outside the library and hand it plain values.

pub mod codec;
pub mod config;
pub mod handler;
pub mod login;
pub mod mirror;
pub mod order;
pub mod pod;
pub mod protocol;
pub mod state;
pub mod token;
pub mod wire;

pub use protocol::VersionInfo;
