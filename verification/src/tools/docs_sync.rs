//! The agent tool for the document sync: which action a request asks for, when writes are
//! refused, how the sync list is edited, and what the agent is told.
use vstd::prelude::*;
use crate::docs_sync::first_forbidden;
use crate::docs_sync::worker::{
    first_present, sha256_hex, spec_sha256_hex, AppCredentials,
};
use crate::docs_sync::validate_remote_config;
use crate::hooks::audit::{join, push_joined};
use crate::json::{as_str, get, JsonValue};
use crate::multimodal::views;
use crate::paths::{path_join, spec_path_join};
use crate::text::{decimal, lines, push_decimal, push_str, str_eq};
use crate::tools::mcp_manage::text_or_empty;
use crate::tools::result::{fails_with, ToolResult};

verus! {

/// The `[docs_sync]` settings the tool reads.
#[derive(Debug, Clone)]
pub struct DocsSyncSettings {
    pub enabled: bool,
    /// The workspace files kept in sync.
    pub sync_files: Vec<String>,
    /// Each synced file with the document it goes to.
    pub document_ids: Vec<(String, String)>,
    pub app_id: Option<String>,
    pub app_secret: Option<String>,
}

/// What a request to the tool asks for.
#[derive(Debug, Clone, Copy, PartialEq, Eq)]
pub enum DocsSyncAction {
    Status,
    List,
    Add,
    Remove,
    Push,
    Pull,
}

/// The action named `a`.
pub open spec fn docs_sync_action_of(a: Seq<char>) -> Option<DocsSyncAction> {
    if a == "status"@ {
        Some(DocsSyncAction::Status)
    } else if a == "list"@ {
        Some(DocsSyncAction::List)
    } else if a == "add"@ {
        Some(DocsSyncAction::Add)
    } else if a == "remove"@ {
        Some(DocsSyncAction::Remove)
    } else if a == "push"@ {
        Some(DocsSyncAction::Push)
    } else if a == "pull"@ {
        Some(DocsSyncAction::Pull)
    } else {
        None
    }
}

/// Reads a request: its `action` (empty when absent) and its `file` (empty when absent); an
/// action the tool does not know is refused with `Unknown action: <action>`.
pub fn parse_docs_sync_request(args: &JsonValue) -> (r: Result<(DocsSyncAction, String), ToolResult>)
    ensures
        match docs_sync_action_of(text_or_empty(*args, "action"@)) {
            Some(a) => r matches Ok(p) && p.0 == a && p.1@ == text_or_empty(*args, "file"@),
            None => r matches Err(t) && fails_with(
                t,
                "Unknown action: "@ + text_or_empty(*args, "action"@),
            ),
        },
{
    proof {
        reveal_strlit("");
    }
    let action = match as_str(get(Some(args), "action")) {
        Some(a) => a,
        None => "",
    };
    let file = match as_str(get(Some(args), "file")) {
        Some(f) => f,
        None => "",
    };
    assert(action@ == text_or_empty(*args, "action"@));
    assert(file@ == text_or_empty(*args, "file"@));
    let act = if str_eq(action, "status") {
        DocsSyncAction::Status
    } else if str_eq(action, "list") {
        DocsSyncAction::List
    } else if str_eq(action, "add") {
        DocsSyncAction::Add
    } else if str_eq(action, "remove") {
        DocsSyncAction::Remove
    } else if str_eq(action, "push") {
        DocsSyncAction::Push
    } else if str_eq(action, "pull") {
        DocsSyncAction::Pull
    } else {
        let mut m = String::new();
        push_str(&mut m, "Unknown action: ");
        push_str(&mut m, action);
        return Err(ToolResult::failure(m));
    };
    Ok((act, file.to_string()))
}

/// Whether an action that changes something may go ahead: refused when the agent may only
/// read (`can_act` false), else when the rate limit refused to record it (`recorded`
/// false, asked only when the agent may act).
pub fn write_access_refusal(can_act: bool, recorded: bool) -> (r: Option<ToolResult>)
    ensures
        !can_act ==> (r matches Some(t) && fails_with(t, "Action blocked: autonomy is read-only"@)),
        can_act && !recorded ==> (r matches Some(t) && fails_with(
            t,
            "Action blocked: rate limit exceeded"@,
        )),
        can_act && recorded ==> r is None,
{
    if !can_act {
        Some(ToolResult::failure("Action blocked: autonomy is read-only".to_string()))
    } else if !recorded {
        Some(ToolResult::failure("Action blocked: rate limit exceeded".to_string()))
    } else {
        None
    }
}

/// The refusal of `add` or `remove` without a file.
pub fn missing_file_result(adding: bool) -> (r: ToolResult)
    ensures
        fails_with(
            r,
            if adding {
                "Missing 'file' parameter for add action."@
            } else {
                "Missing 'file' parameter for remove action."@
            },
        ),
{
    if adding {
        ToolResult::failure("Missing 'file' parameter for add action.".to_string())
    } else {
        ToolResult::failure("Missing 'file' parameter for remove action.".to_string())
    }
}

/// Whether `file` is in the list.
pub open spec fn listed(files: Seq<Seq<char>>, file: Seq<char>) -> bool {
    files.contains(file)
}

/// The list without every entry equal to `file`.
pub open spec fn without(files: Seq<Seq<char>>, file: Seq<char>) -> Seq<Seq<char>>
    decreases files.len(),
{
    if files.len() == 0 {
        Seq::empty()
    } else if files.last() == file {
        without(files.drop_last(), file)
    } else {
        without(files.drop_last(), file).push(files.last())
    }
}

/// Whether `file` is in `files`.
fn is_in(files: &Vec<String>, file: &str) -> (r: bool)
    ensures
        r == listed(views(files@), file@),
{
    let mut i: usize = 0;
    while i < files.len()
        invariant
            i <= files.len(),
            forall|k: int| 0 <= k < i ==> views(files@)[k] != file@,
        decreases files.len() - i,
    {
        if str_eq(files[i].as_str(), file) {
            assert(views(files@)[i as int] == file@);
            return true;
        }
        i = i + 1;
    }
    false
}

/// Adds `file` to the sync list unless it is there. Returns what the agent is told and
/// whether the list changed (and must be saved).
pub fn add_sync_file(files: &mut Vec<String>, file: &str) -> (r: (ToolResult, bool))
    ensures
        listed(views(old(files)@), file@) ==> !r.1 && views(final(files)@) == views(old(files)@)
            && r.0.success && r.0.error is None && r.0.output@ == file@
            + " is already in the sync list."@,
        !listed(views(old(files)@), file@) ==> r.1 && views(final(files)@) == views(
            old(files)@,
        ).push(file@) && r.0.success && r.0.error is None && r.0.output@ == "Added "@ + file@
            + " to sync list."@,
{
    if is_in(files, file) {
        let mut m = String::new();
        push_str(&mut m, file);
        push_str(&mut m, " is already in the sync list.");
        return (ToolResult::ok(m), false);
    }
    let ghost before = views(files@);
    files.push(file.to_string());
    assert(views(files@) =~= before.push(file@));
    let mut m = String::new();
    push_str(&mut m, "Added ");
    push_str(&mut m, file);
    push_str(&mut m, " to sync list.");
    (ToolResult::ok(m), true)
}

/// Removes every entry equal to `file` from the sync list. Returns what the agent is told
/// and whether the list changed (and must be saved).
pub fn remove_sync_file(files: &mut Vec<String>, file: &str) -> (r: (ToolResult, bool))
    ensures
        views(final(files)@) == without(views(old(files)@), file@),
        r.1 == listed(views(old(files)@), file@),
        r.0.success,
        r.0.error is None,
        r.0.output@ == if r.1 {
            "Removed "@ + file@ + " from sync list."@
        } else {
            file@ + " is not in the sync list."@
        },
{
    let ghost orig = views(files@);
    let mut kept: Vec<String> = Vec::new();
    let mut found = false;
    let mut i: usize = 0;
    while i < files.len()
        invariant
            i <= files.len(),
            orig == views(files@),
            views(kept@) == without(orig.take(i as int), file@),
            found == listed(orig.take(i as int), file@),
        decreases files.len() - i,
    {
        let ghost before = views(kept@);
        assert(orig.take(i + 1).drop_last() =~= orig.take(i as int));
        assert(orig.take(i + 1) =~= orig.take(i as int).push(orig[i as int]));
        proof {
            vstd::seq_lib::lemma_seq_contains_after_push(orig.take(i as int), orig[i as int], file@);
        }
        assert(views(files@)[i as int] == files@[i as int]@);
        if str_eq(files[i].as_str(), file) {
            found = true;
        } else {
            kept.push(files[i].clone());
            assert(views(kept@) =~= before.push(orig[i as int]));
        }
        i = i + 1;
    }
    assert(orig.take(orig.len() as int) =~= orig);
    *files = kept;
    if found {
        let mut m = String::new();
        push_str(&mut m, "Removed ");
        push_str(&mut m, file);
        push_str(&mut m, " from sync list.");
        (ToolResult::ok(m), true)
    } else {
        let mut m = String::new();
        push_str(&mut m, file);
        push_str(&mut m, " is not in the sync list.");
        (ToolResult::ok(m), false)
    }
}

/// Adding a file that is not in the sync list and then removing it gives back the list.
pub proof fn law_add_then_remove_sync_file(files: Seq<Seq<char>>, file: Seq<char>)
    requires
        !listed(files, file),
    ensures
        without(files.push(file), file) == files,
{
    assert(files.push(file).drop_last() =~= files);
    lemma_without_absent(files, file);
}

/// Removing what is not there changes nothing.
pub proof fn lemma_without_absent(files: Seq<Seq<char>>, file: Seq<char>)
    requires
        !listed(files, file),
    ensures
        without(files, file) == files,
    decreases files.len(),
{
    if files.len() > 0 {
        assert(!files.drop_last().contains(file)) by {
            if files.drop_last().contains(file) {
                let k = choose|k: int| 0 <= k < files.drop_last().len() && files.drop_last()[k] == file;
                assert(files[k] == file);
            }
        }
        assert(files.last() != file) by {
            assert(files[files.len() - 1] == files.last());
        }
        lemma_without_absent(files.drop_last(), file);
        assert(files.drop_last().push(files.last()) =~= files);
    }
}

/// The line of the listing for `file`.
pub open spec fn list_line(file: Seq<char>, exists: bool) -> Seq<char> {
    "  - "@ + file + " (exists: "@ + if exists {
        "true"@
    } else {
        "false"@
    } + ")\n"@
}

/// The listing lines of the files, each with whether it exists.
pub open spec fn list_lines(files: Seq<Seq<char>>, exists: Seq<bool>) -> Seq<char>
    decreases files.len(),
{
    if files.len() == 0 || exists.len() == 0 {
        Seq::empty()
    } else {
        list_lines(files.drop_last(), exists.drop_last()) + list_line(files.last(), exists.last())
    }
}

/// The tool, with the sync settings, the channels' credentials and the workspace.
pub struct DocsSyncTool {
    settings: DocsSyncSettings,
    feishu: Option<AppCredentials>,
    lark: Option<AppCredentials>,
    workspace_dir: String,
}

impl DocsSyncTool {
    /// The sync settings.
    pub closed spec fn settings(self) -> DocsSyncSettings {
        self.settings
    }

    /// The Feishu channel's credentials, where it is set up.
    pub closed spec fn feishu(self) -> Option<AppCredentials> {
        self.feishu
    }

    /// The Lark channel's credentials, where it is set up.
    pub closed spec fn lark(self) -> Option<AppCredentials> {
        self.lark
    }

    /// The workspace the synced files are relative to.
    pub closed spec fn workspace(self) -> Seq<char> {
        self.workspace_dir@
    }

    /// A tool with these settings, channel credentials and workspace.
    pub fn new(
        settings: DocsSyncSettings,
        feishu: Option<AppCredentials>,
        lark: Option<AppCredentials>,
        workspace_dir: String,
    ) -> (r: Self)
        ensures
            r.settings() == settings,
            r.feishu() == feishu,
            r.lark() == lark,
            r.workspace() == workspace_dir@,
    {
        DocsSyncTool { settings, feishu, lark, workspace_dir }
    }

    /// The synced files, in order.
    pub fn sync_files(&self) -> (r: &Vec<String>)
        ensures
            r@ == self.settings().sync_files@,
    {
        &self.settings.sync_files
    }

    /// Where the synced file `file` lies.
    pub fn file_path(&self, file: &str) -> (r: String)
        ensures
            r@ == spec_path_join(self.workspace(), file@),
    {
        path_join(self.workspace_dir.as_str(), file)
    }

    /// The `list` answer: a note when the sync is off, else each synced file with whether
    /// it exists (`exists`, one entry per file).
    pub fn list_result(&self, exists: &Vec<bool>) -> (r: ToolResult)
        requires
            exists@.len() == self.settings().sync_files@.len(),
        ensures
            r.success,
            r.error is None,
            r.output@ == if self.settings().enabled {
                "Synced files:\n"@ + list_lines(views(self.settings().sync_files@), exists@)
            } else {
                "Docs sync is disabled. No files are being synced."@
            },
    {
        if !self.settings.enabled {
            return ToolResult::ok("Docs sync is disabled. No files are being synced.".to_string());
        }
        let files = &self.settings.sync_files;
        let ghost fs = views(files@);
        let mut out = String::new();
        push_str(&mut out, "Synced files:\n");
        let ghost start = out@;
        let mut i: usize = 0;
        while i < files.len()
            invariant
                i <= files.len(),
                exists@.len() == files@.len(),
                fs == views(files@),
                out@ == start + list_lines(fs.take(i as int), exists@.take(i as int)),
            decreases files.len() - i,
        {
            assert(fs.take(i + 1).drop_last() =~= fs.take(i as int));
            assert(exists@.take(i + 1).drop_last() =~= exists@.take(i as int));
            push_str(&mut out, "  - ");
            push_str(&mut out, files[i].as_str());
            push_str(&mut out, " (exists: ");
            if exists[i] {
                push_str(&mut out, "true");
            } else {
                push_str(&mut out, "false");
            }
            push_str(&mut out, ")\n");
            i = i + 1;
        }
        assert(fs.take(fs.len() as int) =~= fs);
        assert(exists@.take(exists@.len() as int) =~= exists@);
        ToolResult::ok(out)
    }

    /// Whether `push` (`pulling` false) or `pull` may run, and with which credentials: the
    /// sync must be on and name documents, and an id and a secret must be found (each from
    /// the sync settings, else the Feishu channel, else the Lark channel).
    pub fn sync_credentials(&self, pulling: bool) -> (r: Result<(String, String), ToolResult>)
        ensures
            !self.settings().enabled ==> (r matches Err(t) && fails_with(t, "Docs sync is disabled."@)),
            self.settings().enabled && self.settings().document_ids@.len() == 0 ==> (r matches Err(
                t,
            ) && fails_with(t, "No document_ids configured."@)),
            self.settings().enabled && self.settings().document_ids@.len() > 0 ==> match (
                first_present(
                    self.settings().app_id,
                    match self.feishu() {
                        Some(f) => Some(f.app_id),
                        None => None,
                    },
                    match self.lark() {
                        Some(l) => Some(l.app_id),
                        None => None,
                    },
                ),
                first_present(
                    self.settings().app_secret,
                    match self.feishu() {
                        Some(f) => Some(f.app_secret),
                        None => None,
                    },
                    match self.lark() {
                        Some(l) => Some(l.app_secret),
                        None => None,
                    },
                ),
            ) {
                (Some(id), Some(secret)) => r matches Ok(p) && p.0@ == id@ && p.1@ == secret@,
                _ => r matches Err(t) && fails_with(
                    t,
                    if pulling {
                        "No app_id/app_secret found."@
                    } else {
                        "No app_id/app_secret found in [docs_sync] or [channels_config.feishu]."@
                    },
                ),
            },
    {
        if !self.settings.enabled {
            return Err(ToolResult::failure("Docs sync is disabled.".to_string()));
        }
        if self.settings.document_ids.len() == 0 {
            return Err(ToolResult::failure("No document_ids configured.".to_string()));
        }
        let id = pick(&self.settings.app_id, &self.feishu, &self.lark, true);
        let secret = pick(&self.settings.app_secret, &self.feishu, &self.lark, false);
        match (id, secret) {
            (Some(i), Some(s)) => Ok((i, s)),
            _ => if pulling {
                Err(ToolResult::failure("No app_id/app_secret found.".to_string()))
            } else {
                Err(
                    ToolResult::failure(
                        "No app_id/app_secret found in [docs_sync] or [channels_config.feishu]."
                            .to_string(),
                    ),
                )
            },
        }
    }
}

/// The id (`id` true) or the secret: the configured one, else the Feishu channel's, else
/// the Lark channel's.
fn pick(
    own: &Option<String>,
    feishu: &Option<AppCredentials>,
    lark: &Option<AppCredentials>,
    id: bool,
) -> (r: Option<String>)
    ensures
        match first_present(
            *own,
            match *feishu {
                Some(f) => Some(if id { f.app_id } else { f.app_secret }),
                None => None,
            },
            match *lark {
                Some(l) => Some(if id { l.app_id } else { l.app_secret }),
                None => None,
            },
        ) {
            Some(x) => r matches Some(y) && y@ == x@,
            None => r is None,
        },
{
    match own {
        Some(x) => Some(x.clone()),
        None => match feishu {
            Some(f) => Some(if id { f.app_id.clone() } else { f.app_secret.clone() }),
            None => match lark {
                Some(l) => Some(if id { l.app_id.clone() } else { l.app_secret.clone() }),
                None => None,
            },
        },
    }
}

/// The block of a document that receives pushed content: the first block of type 14, else
/// the first of type 1, else the document itself.
pub open spec fn target_block(blocks: Seq<(String, i64)>, doc_id: Seq<char>) -> Seq<char> {
    if exists|k: int| 0 <= k < blocks.len() && blocks[k].1 == 14 {
        blocks[first_of_type(blocks, 14)].0@
    } else if exists|k: int| 0 <= k < blocks.len() && blocks[k].1 == 1 {
        blocks[first_of_type(blocks, 1)].0@
    } else {
        doc_id
    }
}

/// The position of the first block of type `t`.
pub open spec fn first_of_type(blocks: Seq<(String, i64)>, t: i64) -> int {
    choose|k: int|
        0 <= k < blocks.len() && blocks[k].1 == t && forall|j: int| 0 <= j < k ==> blocks[j].1 != t
}

/// The position of the first block of type `t`, where there is one.
fn find_type(blocks: &Vec<(String, i64)>, t: i64) -> (r: Option<usize>)
    ensures
        match r {
            Some(k) => k < blocks@.len() && blocks@[k as int].1 == t && forall|j: int|
                0 <= j < k ==> blocks@[j].1 != t,
            None => forall|j: int| 0 <= j < blocks@.len() ==> blocks@[j].1 != t,
        },
{
    let mut i: usize = 0;
    while i < blocks.len()
        invariant
            i <= blocks.len(),
            forall|j: int| 0 <= j < i ==> blocks@[j].1 != t,
        decreases blocks.len() - i,
    {
        if blocks[i].1 == t {
            return Some(i);
        }
        i = i + 1;
    }
    None
}

/// The block pushed content goes to (see `target_block`), from the document's blocks as
/// (id, type) pairs.
pub fn target_block_id(blocks: &Vec<(String, i64)>, doc_id: &str) -> (r: String)
    ensures
        r@ == target_block(blocks@, doc_id@),
{
    match find_type(blocks, 14) {
        Some(k) => {
            assert(first_of_type(blocks@, 14) == k as int) by {
                let c = first_of_type(blocks@, 14);
                assert(0 <= c < blocks@.len() && blocks@[c].1 == 14 && forall|j: int|
                    0 <= j < c ==> blocks@[j].1 != 14);
                if c < k {
                } else if c > k {
                    assert(blocks@[k as int].1 != 14);
                }
            }
            blocks[k].0.clone()
        },
        None => match find_type(blocks, 1) {
            Some(k) => {
                assert(first_of_type(blocks@, 1) == k as int) by {
                    let c = first_of_type(blocks@, 1);
                    assert(0 <= c < blocks@.len() && blocks@[c].1 == 1 && forall|j: int|
                        0 <= j < c ==> blocks@[j].1 != 1);
                    if c < k {
                    } else if c > k {
                        assert(blocks@[k as int].1 != 1);
                    }
                }
                blocks[k].0.clone()
            },
            None => doc_id.to_string(),
        },
    }
}

/// What one pulled document comes to: nothing for a target that is a symbolic link; an
/// error for a `config.toml` with a protected section; nothing when its hash is the one
/// the lock file records; else the hash to record after writing it.
pub fn tool_pull_step(
    filename: &str,
    target_is_symlink: bool,
    recorded_hash: Option<&str>,
    raw: &str,
) -> (r: Result<Option<String>, String>)
    ensures
        target_is_symlink ==> r == Ok::<Option<String>, String>(None),
        !target_is_symlink && filename@ == "config.toml"@ && first_forbidden(lines(raw@))
            is Some ==> (r matches Err(m) && first_forbidden(lines(raw@)) matches Some(f) && m@
            == "Remote config contains forbidden section "@ + f + "; rejecting sync"@),
        !target_is_symlink && !(filename@ == "config.toml"@ && first_forbidden(lines(raw@))
            is Some) ==> match recorded_hash {
            Some(h) if h@ == spec_sha256_hex(raw@) => r == Ok::<Option<String>, String>(None),
            _ => r matches Ok(Some(h)) && h@ == spec_sha256_hex(raw@),
        },
{
    if target_is_symlink {
        return Ok(None);
    }
    if str_eq(filename, "config.toml") {
        if let Err(e) = validate_remote_config(raw) {
            return Err(e);
        }
    }
    let hash = sha256_hex(raw);
    match recorded_hash {
        Some(h) => if str_eq(h, hash.as_str()) {
            Ok(None)
        } else {
            Ok(Some(hash))
        },
        None => Ok(Some(hash)),
    }
}

/// The `push` answer: how many files were pushed and their names, comma-separated.
pub fn pushed_result(pushed: &Vec<String>) -> (r: ToolResult)
    ensures
        r.success,
        r.error is None,
        r.output@ == "Pushed "@ + decimal(pushed@.len() as nat) + " file(s): "@ + join(
            views(pushed@),
            ", "@,
        ),
{
    let mut out = String::new();
    push_str(&mut out, "Pushed ");
    push_decimal(&mut out, pushed.len() as u64);
    push_str(&mut out, " file(s): ");
    push_joined(&mut out, pushed, ", ");
    ToolResult::ok(out)
}

/// The `pull` answer: the files updated, comma-separated, or that none were.
pub fn pulled_result(updated: &Vec<String>) -> (r: ToolResult)
    ensures
        r.success,
        r.error is None,
        r.output@ == if updated@.len() == 0 {
            "Pull complete. No files updated."@
        } else {
            "Pull complete. Updated: "@ + join(views(updated@), ", "@)
        },
{
    if updated.len() == 0 {
        return ToolResult::ok("Pull complete. No files updated.".to_string());
    }
    let mut out = String::new();
    push_str(&mut out, "Pull complete. Updated: ");
    push_joined(&mut out, updated, ", ");
    ToolResult::ok(out)
}

} // verus!
