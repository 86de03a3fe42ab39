//! Core of a reverse-proxy gateway: a routing table with atomic hot-swap,
//! a request router, backend selection policies, debounced reload decisions,
//! and the control-plane command handler.
//!
//! Everything here is pure logic over plain values; the surrounding process
//! (sockets, files, timers) lives outside the library and feeds it values.

pub mod balancer;
pub mod config;
pub mod content;
pub mod control;
pub mod dispatch;
pub mod reload;
pub mod router;
pub mod seq_search;
pub mod stats;
pub mod store;
pub mod text;
pub mod tui;
