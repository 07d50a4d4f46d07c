//! A development gateway that sits in front of a backend or a directory of
//! static assets and prepares HTML responses for hot-swapping stylesheets.
//!
//! Every decision the gateway takes is a function of this library: how a
//! request path is routed, which file or upstream address answers it, how the
//! buffered response is rewritten, and which hints a change on disk sends to
//! the browser. Sockets, files and timers stay with the caller.

pub mod backend;
pub mod message;
pub mod error;
pub mod inject;
pub mod paths;
pub mod serve;
pub mod proxy;
pub mod watch;
pub mod dispatch;
