//! Agent interoperability: TypeDID envelopes and the Ollama chat client.
pub mod canonical;
pub mod ed25519;
pub mod interop;
pub mod ollama;
