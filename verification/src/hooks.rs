//! Lifecycle hooks declared by `HOOK.toml` manifests: their model, validation, matching,
//! security audit and loading order.
pub mod audit;
pub mod cli;
pub mod dynamic;
pub mod loader;
pub mod manifest;
pub mod reload;
pub mod runner;

use vstd::prelude::*;

verus! {

/// Which built-in hooks are on.
#[derive(Debug, Clone, PartialEq)]
pub struct BuiltinHooksConfig {
    pub command_logger: bool,
}

/// The `[hooks]` settings: whether hooks run, the built-in hooks, where hook directories
/// live (the workspace's `hooks` directory when unset), whether the security audit is
/// skipped, how many hooks load, and the default timeout of hook actions.
#[derive(Debug, Clone, PartialEq)]
pub struct HooksConfig {
    pub enabled: bool,
    pub builtin: BuiltinHooksConfig,
    pub hooks_dir: Option<String>,
    pub skip_security_audit: bool,
    pub max_hooks: usize,
    pub default_timeout_secs: u64,
}

} // verus!
