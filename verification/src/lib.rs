//! Connectivity check for Cloudflare proxy domains, Cloudflare Workers,
//! upstream MTProto proxies and the proxy's own listener.
//!
//! The library decides; it does no I/O. A check ([`report::CheckRun`]) and each
//! of its probes are state machines: `action` says what to do next, and `handle`
//! takes in what came of it. The caller prints, connects, sends and reads.
//!
//! - [`report`]: the steps of a check, what it prints, and its verdict.
//! - [`cf_domain`], [`cf_worker`], [`mtproto_proxy`], [`listener`]: the probes.
//! - [`frame`]: the request that the listener probe sends, and its reply.
//! - [`status`]: how a probe ended.
//! - [`config`]: the settings that a check reads.
//! - [`transcript`]: what holds of a check from beginning to end.
//! - [`text`], [`le`]: numbers as text and as bytes.

pub mod cf_domain;
pub mod cf_worker;
pub mod config;
pub mod frame;
pub mod le;
pub mod listener;
pub mod mtproto_proxy;
pub mod report;
pub mod status;
pub mod text;
pub mod transcript;
