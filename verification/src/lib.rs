//! A verified multi-container stack orchestration engine.
//!
//! The library models a named stack of services, computes a
//! dependency-respecting deployment order, and drives the reconciliation
//! of desired replica counts against tracked runtime state.  All container
//! engine calls are performed by the embedding program; this crate holds
//! the decision logic, with contracts checked by Verus.

pub mod definition;
pub mod error;
pub mod kv;
pub mod service;
pub mod stack;
pub mod state;
pub mod strutil;
