//! The decisions of the agent tools: hooks, skills, MCP servers, providers and the
//! document sync.
pub mod docs_sync;
pub mod hook_reload;
pub mod hook_write;
pub mod mcp_bridge;
pub mod mcp_manage;
pub mod provider_reload;
pub mod result;
pub mod skill_manage;
pub mod vpn_control;
