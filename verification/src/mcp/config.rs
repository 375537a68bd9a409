//! Where the MCP server definitions are looked for, and what one definition holds.
use vstd::prelude::*;
use crate::paths::{path_join, spec_path_join};

verus! {

/// One MCP server: how to start it. `env` holds the variables set for it, each name once.
#[derive(Debug, Clone, PartialEq)]
pub struct McpServerConfig {
    pub name: String,
    pub command: String,
    pub args: Vec<String>,
    pub env: Vec<(String, String)>,
}

/// The files that may hold the definitions, in the order they are tried: `.mcp.json` in the
/// workspace, then `.zeroclaw/.mcp.json` in the home directory. The first that exists is read.
pub open spec fn config_candidates(workspace_dir: Option<Seq<char>>, home_dir: Option<Seq<char>>) -> Seq<Seq<char>> {
    (match workspace_dir {
        Some(w) => seq![spec_path_join(w, ".mcp.json"@)],
        None => Seq::empty(),
    }) + (match home_dir {
        Some(h) => seq![spec_path_join(spec_path_join(h, ".zeroclaw"@), ".mcp.json"@)],
        None => Seq::empty(),
    })
}

/// The files to look for server definitions in, in order (see `config_candidates`).
pub fn mcp_config_candidates(workspace_dir: Option<&str>, home_dir: Option<&str>) -> (r: Vec<String>)
    ensures
        r@.map_values(|s: String| s@) == config_candidates(
            match workspace_dir {
                Some(w) => Some(w@),
                None => None,
            },
            match home_dir {
                Some(h) => Some(h@),
                None => None,
            },
        ),
{
    let mut out: Vec<String> = Vec::new();
    if let Some(w) = workspace_dir {
        out.push(path_join(w, ".mcp.json"));
    }
    if let Some(h) = home_dir {
        let dir = path_join(h, ".zeroclaw");
        out.push(path_join(dir.as_str(), ".mcp.json"));
    }
    let ghost ws = match workspace_dir {
        Some(w) => Some(w@),
        None => None::<Seq<char>>,
    };
    let ghost hs = match home_dir {
        Some(h) => Some(h@),
        None => None::<Seq<char>>,
    };
    assert(out@.map_values(|s: String| s@) =~= config_candidates(ws, hs));
    out
}

} // verus!
