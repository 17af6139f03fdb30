//! A verified core for a minimal HTTP/1.x file-and-script server.
//!
//! The library holds everything the server decides or computes: request
//! parsing, routing, path containment, MIME lookup, directory-listing
//! rendering, the script-execution protocol (environment construction and
//! exit-status mapping), and response serialization.  All wire data is
//! modelled as byte sequences.  The surrounding process (sockets, the
//! filesystem, child processes) performs I/O and feeds plain values in.

pub mod text;
pub mod request;
pub mod mime;
pub mod route;
pub mod response;
pub mod listing;
pub mod script;
pub mod serve;
