//! Request handling for a minimal HTTP/1.1 server: parsing a request's bytes,
//! deciding the reply (root probe, text echo with optional gzip, user-agent
//! echo, file retrieval and storage), and writing the reply's bytes. Socket
//! and file I/O stay with the caller, which performs the file actions that
//! `router::route` asks for and hands their outcome back.

pub mod bytes;
pub mod encoding;
pub mod laws;
pub mod request;
pub mod response;
pub mod router;
