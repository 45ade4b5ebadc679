//! DNS probe and selection engine.
//!
//! A fixed list of candidate name servers is probed concurrently (the probing
//! itself is network I/O and lives outside this library); each probe outcome
//! is normalised into a probe result value. Two selection policies reduce a
//! batch of results to an ordered list of addresses to activate: first-online
//! keeps the first reachable servers in input order, best-latency keeps the
//! fastest ones. A small scheduler model decides, per cycle, what to select
//! and whether to publish.

pub mod config;
pub mod dns_checker;
pub mod scheduler;
pub mod selector;
