//! The agent tool that reloads the external provider definitions: what the agent is told.
use vstd::prelude::*;
use crate::providers::ReloadResult;
use crate::text::{decimal, push_decimal, push_str};
use crate::tools::result::{fails_with, ToolResult};

verus! {

/// The tool that reloads `~/.zeroclaw/providers/*.toml`.
pub struct ProviderReloadTool {}

impl ProviderReloadTool {
    /// The tool; it holds nothing.
    pub fn new() -> (r: Self) {
        ProviderReloadTool {}
    }

    /// What the agent is told: a refusal when the registry is not set up; otherwise the
    /// reload summary `rendered` as output, a success exactly when nothing failed, and
    /// `<n> error(s) during reload` as the error where `n` things did.
    pub fn result_of(&self, reload: Option<&ReloadResult>, rendered: String) -> (r: ToolResult)
        ensures
            match reload {
                None => fails_with(r, "External provider registry not initialized"@),
                Some(res) => r.output@ == rendered@ && r.success == (res.errors@.len() == 0)
                    && if res.errors@.len() == 0 {
                    r.error is None
                } else {
                    r.error matches Some(e) && e@ == decimal(res.errors@.len() as nat)
                        + " error(s) during reload"@
                },
            },
    {
        match reload {
            None => ToolResult::failure("External provider registry not initialized".to_string()),
            Some(res) => {
                if res.errors.len() == 0 {
                    ToolResult::ok(rendered)
                } else {
                    let mut e = String::new();
                    push_decimal(&mut e, res.errors.len() as u64);
                    push_str(&mut e, " error(s) during reload");
                    ToolResult { success: false, output: rendered, error: Some(e) }
                }
            },
        }
    }
}

} // verus!
