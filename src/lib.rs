//! The core of a privacy browser that routes traffic through untrusted proxies.
//!
//! The proxy pool: `proxy` (records), `registry` (admission, eligibility, probe commits),
//! `health` (the health state machine), `quarantine` (backoff and release), `monitor`
//! (which records a health tick probes), `selector` (strategies and the geo-diversity
//! balancer), `guarantees` (what selection is proved to ensure), `stats`, and `manager`
//! (the façade that binds sessions to proxies), and `handshake` (the bytes of a
//! connectivity probe and how replies are judged).
//!
//! Around it: `engine` (tab, engine and proxy-setting types), `profile` (browser
//! profiles), `request` (HTTP request descriptions), `screenshot`, and `responses`
//! (replies of the desktop shell's commands).

pub mod engine;
pub mod guarantees;
pub mod handshake;
pub mod health;
pub mod manager;
pub mod monitor;
pub mod profile;
pub mod proxy;
pub mod quarantine;
pub mod registry;
pub mod request;
pub mod responses;
pub mod screenshot;
pub mod selector;
pub mod stats;
