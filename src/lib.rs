//! Feed-watching daemon core: command protocol, recent-item cache,
//! item fingerprints, ledger row construction and poller/engine decisions.
pub mod commands;
pub mod cache;
pub mod item;
pub mod ledger;
pub mod poller;
pub mod engine;
pub mod config;
pub mod source;
