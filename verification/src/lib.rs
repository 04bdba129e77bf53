//! QueryGraph: governed semantic metadata, TypeDID envelopes and the MCP
//! protocol core, with their contracts proved by Verus.
use vstd::prelude::*;

pub mod text;
pub mod json;
pub mod digest;
pub mod base58;
pub mod a2a;
pub mod agent;
pub mod croissant;
pub mod cdif;
pub mod codata;
pub mod did;
pub mod dataverse;
pub mod lakecat;
pub mod lakehouse;
pub mod lineage;
pub mod mcp;

verus! {
}
