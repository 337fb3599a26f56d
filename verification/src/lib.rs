//! Core of an authenticating proxy for a privileged local service.
//!
//! Untrusted clients reach the proxy over a world-accessible Unix socket. For
//! every call the proxy derives a session identity from the credentials the
//! kernel reports for the connection, writes it over whatever identity the
//! caller supplied, and relays the call through one shared backend connection
//! that serves a single call at a time.
//!
//! The crate holds the decisions only; sockets and the transport belong to the
//! program built around it:
//!
//! * [`identity`]: peer credentials and the session token derived from them,
//! * [`handle`]: the ticket order by which calls share the backend connection,
//! * [`dispatch`]: the per-operation entry points of the proxy,
//! * [`lifecycle`]: the startup sequence of the two sockets.

pub mod dispatch;
pub mod handle;
pub mod identity;
pub mod lifecycle;
