//! Session-creation handshake for scope-limited sessions: the approval URL and
//! its bespoke policy encoding, the decisions of the callback endpoint, and the
//! place where an approved session is kept.

pub mod approval;
pub mod error;
pub mod felt;
pub mod handshake;
pub mod json;
pub mod model;
pub mod percent;
pub mod query;
pub mod storage;
pub mod text;
