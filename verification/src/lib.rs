//! Credential vault and session-bootstrap library for the TwoBlade desktop
//! client.
//!
//! Two independent components, composed only by the caller:
//!
//! * the **secret vault** ([`vault`]): stores one account's username,
//!   password and optional clearance token as separate entries of the
//!   operating system's credential store, under a fixed service namespace
//!   with per-username keys;
//! * the **session bootstrap client** ([`login`]): describes the single
//!   form-encoded login request (browser-fingerprint headers, payload,
//!   optional pre-seeded bypass cookie) and interprets the reply, turning
//!   the accumulated cookie jar into a name/value mapping ([`cookies`]).
//!
//! The networking itself and the GUI live outside this crate; everything
//! here is plain logic over plain values, verified by Verus.

pub mod cookies;
pub mod errors;
pub mod login;
pub mod pairs;
pub mod settings;
pub mod store;
pub mod text;
pub mod vault;
