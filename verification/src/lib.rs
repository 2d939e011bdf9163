//! Inbound SMTP/LMTP session engine: a resumable line/chunk receiver stack, a
//! command parser, an envelope model and a recipient policy pipeline, driven
//! by a session state machine that turns raw connection bytes into status
//! replies and queued messages.
//!
//! The engine itself performs no I/O: callers feed it byte slices and drain
//! the produced actions (status lines to write, tarpit delays to observe).
//! External collaborators — directory, filters, rate limiter, queue — are
//! reached through the [`host::SessionHost`] trait.

pub mod addr;
pub mod bayes;
pub mod host;
pub mod laws;
pub mod ldap;
pub mod rcpt;
pub mod receiver;
pub mod request;
pub mod session;
pub mod text;
pub mod vars;
