//! Simple-obfs: a byte stream dressed up as HTTP/1.1 or as TLS.
//!
//! The modules [`http`] and [`tls`] hold the server side of the two codecs.
//! Both strip the disguise of what the client sends and put one on what the
//! server answers.

pub mod bytes;
pub mod http;
pub mod http_laws;
pub mod outbox;
pub mod step;
pub mod tls;
pub mod tls_laws;
pub mod trace;
