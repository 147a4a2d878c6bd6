//! Session daemon support for sharing an interactive console program's
//! terminal among many clients: the transcript filter, the client fan-out,
//! the session record and its lifecycle decisions, and per-target storage paths.

pub mod sanitize;
pub mod session;
pub mod broadcast;
pub mod paths;
pub mod launch;
