//! The core of a small HTTP gateway that stores and returns files, reads the
//! metadata embedded in uploaded images, fetches URLs on behalf of its
//! callers and runs commands on remote hosts.
//!
//! Nothing here touches a socket or a disk. Each operation is split into what
//! is decided and what is done: the functions of this crate decide, from
//! plain values to plain values, and their contracts say what they decide;
//! the program around them reads, writes and connects.
//!
//! - [`store`]: where a named file lies, and which names are refused.
//! - [`metadata`]: the mapping from tag to display value of an image.
//! - [`fetch`]: the request and the result of fetching a URL.
//! - [`target`]: reading an address of the form `host:port`.
//! - [`session`]: the steps of a remote execution, one report at a time.
//! - [`gateway`]: what each request is answered with.
pub mod fetch;
pub mod gateway;
pub mod gateway_laws;
pub mod metadata;
pub mod session;
pub mod session_laws;
pub mod store;
pub mod target;
pub mod text;
