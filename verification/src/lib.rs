//! Core of a remote-shell connection manager: a registry of authenticated
//! sessions keyed by ids that are never reused, the executor's output-drain
//! policy, the bidirectional relay pump with its half-close tracking, and the
//! certificate-marker probe. Everything here is plain computation with a
//! verified contract; dialing, authentication and channel I/O live in the
//! thin async shell around this crate and feed their observations in as
//! values.

pub mod cert;
pub mod errors;
pub mod exec;
pub mod pump;
pub mod registry;
