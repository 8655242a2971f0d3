//! Verified cores of a proxy: the server side of the simple-obfs stream
//! codecs, and the decisions of the outbound dialers.
//!
//! Nothing in this crate performs I/O. Each codec and each dialer is a state
//! machine: it is told what happened, and it answers with what to do next.

pub mod dialer;
pub mod simple_obfs;
pub mod smol;
pub mod text;
pub mod vmess;
