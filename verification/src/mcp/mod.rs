//! The Model Context Protocol core: message checks, the legacy session
//! lifecycle, the stateless revision, the model store, the HTTP checks and
//! the bookkeeping of in-flight governed requests.
//!
//! Reading and writing lines, HTTP, JSON text and running tools belong to
//! the program; this module decides what each message gets.
pub mod modern;
pub mod session;
pub mod store;
pub mod server;
pub use server::McpServer;
pub mod transport;
pub mod http;
