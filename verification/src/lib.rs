//! Vulnerability assessment for npm and Go packages: severity ranking,
//! risk scoring, recommendations, version comparison and the decisions of
//! the JSON-RPC tool server, all verified.

pub mod types;
pub mod text;
pub mod advisory;
pub mod clock;
pub mod version;
pub mod checker;
pub mod registry;
pub mod mcp;

