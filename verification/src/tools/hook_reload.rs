//! The agent tool that asks the runtime to reload hooks: which directory it checks, and
//! what the agent is told when there is none.
use vstd::prelude::*;
use crate::hooks::loader::{hooks_dir_spec, resolve_hooks_dir};
use crate::hooks::HooksConfig;
use crate::text::push_str;
use crate::tools::result::{fails_with, ToolResult};

verus! {

/// The tool that triggers a reload of the hooks directory.
pub struct HookReloadTool {
    hooks_config: HooksConfig,
    workspace_dir: String,
}

impl HookReloadTool {
    /// The hooks settings the tool works with.
    pub closed spec fn config(self) -> HooksConfig {
        self.hooks_config
    }

    /// The workspace the default hooks directory lies in.
    pub closed spec fn workspace(self) -> Seq<char> {
        self.workspace_dir@
    }

    /// A tool with these settings and workspace.
    pub fn new(hooks_config: HooksConfig, workspace_dir: String) -> (r: Self)
        ensures
            r.config() == hooks_config,
            r.workspace() == workspace_dir@,
    {
        HookReloadTool { hooks_config, workspace_dir }
    }

    /// The directory that must exist for a reload: the configured hooks directory, else the
    /// workspace's `hooks` directory.
    pub fn hooks_dir(&self) -> (r: String)
        ensures
            r@ == hooks_dir_spec(
                match self.config().hooks_dir {
                    Some(d) => Some(d@),
                    None => None,
                },
                self.workspace(),
            ),
    {
        let configured = match &self.hooks_config.hooks_dir {
            Some(d) => Some(d.as_str()),
            None => None,
        };
        resolve_hooks_dir(configured, self.workspace_dir.as_str())
    }
}

/// The refusal when the hooks directory `dir` does not exist.
pub fn missing_hooks_dir_result(dir: &str) -> (r: ToolResult)
    ensures
        fails_with(r, "Hooks directory does not exist: "@ + dir@),
{
    let mut m = String::new();
    push_str(&mut m, "Hooks directory does not exist: ");
    push_str(&mut m, dir);
    ToolResult::failure(m)
}

} // verus!
