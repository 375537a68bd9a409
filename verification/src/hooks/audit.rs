//! Static security audit of hook directories and their shell commands.
use vstd::prelude::*;
use crate::multimodal::views;
use crate::pattern::{regex_match, spec_regex_match};
use crate::paths::{path_strip_prefix, spec_path_strip_prefix};
use crate::text::{chars_of, contains_sub, find_char, find_char_from, find_sub_from, push_decimal, push_str, decimal};

verus! {

/// Largest file, in bytes, that the audit reads.
pub const MAX_FILE_BYTES: u64 = 524288;

/// What an audit found.
pub struct HookAuditReport {
    pub files_scanned: usize,
    pub findings: Vec<String>,
}

/// `items` joined by `sep`.
pub open spec fn join(items: Seq<Seq<char>>, sep: Seq<char>) -> Seq<char>
    decreases items.len(),
{
    if items.len() == 0 {
        Seq::empty()
    } else if items.len() == 1 {
        items[0]
    } else {
        join(items.drop_last(), sep) + sep + items.last()
    }
}

/// Appends `items` joined by `sep` to `out`.
pub fn push_joined(out: &mut String, items: &Vec<String>, sep: &str)
    ensures
        final(out)@ == old(out)@ + join(views(items@), sep@),
{
    let mut i: usize = 0;
    let ghost start = out@;
    while i < items.len()
        invariant
            i <= items.len(),
            out@ == start + join(views(items@).take(i as int), sep@),
        decreases items.len() - i,
    {
        if i > 0 {
            push_str(out, sep);
        }
        push_str(out, items[i].as_str());
        proof {
            let t = views(items@).take(i + 1);
            assert(t.drop_last() =~= views(items@).take(i as int));
            assert(t.last() == items@[i as int]@);
            if i == 0 {
                assert(views(items@).take(0) =~= Seq::<Seq<char>>::empty());
                assert(join(t, sep@) == t[0]);
            }
        }
        i = i + 1;
    }
    assert(views(items@).take(items.len() as int) =~= views(items@));
}

impl HookAuditReport {
    /// An empty report.
    pub fn new() -> (r: Self)
        ensures
            r.files_scanned == 0,
            r.findings@.len() == 0,
    {
        HookAuditReport { files_scanned: 0, findings: Vec::new() }
    }

    /// Whether nothing was found.
    pub fn is_clean(&self) -> (r: bool)
        ensures
            r == (self.findings@.len() == 0),
    {
        self.findings.len() == 0
    }

    /// The findings joined by `; `.
    pub fn summary(&self) -> (r: String)
        ensures
            r@ == join(views(self.findings@), "; "@),
    {
        let mut out = String::new();
        push_joined(&mut out, &self.findings, "; ");
        out
    }
}

/// The shell patterns that the audit rejects, with their labels, in the order they are tried.
pub open spec fn danger_patterns() -> Seq<(Seq<char>, Seq<char>)> {
    seq![
        (r"(?im):\(\)\s*\{\s*:\|:&\s*\};:"@, "fork-bomb"@),
        (r"(?im)/dev/tcp/"@, "reverse-shell-dev-tcp"@),
        (r"(?im)\bnc(?:at)?\b[^\n]{0,120}\s-e\b"@, "netcat-reverse-shell"@),
        (r"(?im)\bbash\s+-i\b"@, "interactive-bash-reverse-shell"@),
        (r"(?im)\bcurl\b[^\n|]{0,200}\|\s*(?:sh|bash|zsh)\b"@, "curl-pipe-shell"@),
        (r"(?im)\bwget\b[^\n|]{0,200}\|\s*(?:sh|bash|zsh)\b"@, "wget-pipe-shell"@),
        (r"(?im)\brm\s+-rf\s+/"@, "destructive-rm-rf-root"@),
        (r"(?im)\bmkfs(?:\.[a-z0-9]+)?\b"@, "filesystem-format"@),
        (r"(?im)\bdd\s+if="@, "disk-overwrite-dd"@),
    ]
}

/// The label of the first pattern from index `k` on that matches `content`.
pub open spec fn first_danger(content: Seq<char>, k: int) -> Option<Seq<char>>
    decreases danger_patterns().len() - k,
{
    if k < 0 || k >= danger_patterns().len() {
        None
    } else if spec_regex_match(danger_patterns()[k].0, content) == Some(true) {
        Some(danger_patterns()[k].1)
    } else {
        first_danger(content, k + 1)
    }
}

fn matches(pattern: &str, content: &str) -> (r: bool)
    ensures
        r == (spec_regex_match(pattern@, content@) == Some(true)),
{
    match regex_match(pattern, content) {
        Some(b) => b,
        None => false,
    }
}

/// The label of the first dangerous shell pattern that `content` holds.
pub fn detect_dangerous_pattern(content: &str) -> (r: Option<&'static str>)
    ensures
        match r {
            Some(l) => first_danger(content@, 0) == Some(l@),
            None => first_danger(content@, 0) is None,
        },
{
    proof {
        reveal_with_fuel(first_danger, 10);
    }
    if matches(r"(?im):\(\)\s*\{\s*:\|:&\s*\};:", content) {
        return Some("fork-bomb");
    }
    if matches(r"(?im)/dev/tcp/", content) {
        return Some("reverse-shell-dev-tcp");
    }
    if matches(r"(?im)\bnc(?:at)?\b[^\n]{0,120}\s-e\b", content) {
        return Some("netcat-reverse-shell");
    }
    if matches(r"(?im)\bbash\s+-i\b", content) {
        return Some("interactive-bash-reverse-shell");
    }
    if matches(r"(?im)\bcurl\b[^\n|]{0,200}\|\s*(?:sh|bash|zsh)\b", content) {
        return Some("curl-pipe-shell");
    }
    if matches(r"(?im)\bwget\b[^\n|]{0,200}\|\s*(?:sh|bash|zsh)\b", content) {
        return Some("wget-pipe-shell");
    }
    if matches(r"(?im)\brm\s+-rf\s+/", content) {
        return Some("destructive-rm-rf-root");
    }
    if matches(r"(?im)\bmkfs(?:\.[a-z0-9]+)?\b", content) {
        return Some("filesystem-format");
    }
    if matches(r"(?im)\bdd\s+if=", content) {
        return Some("disk-overwrite-dd");
    }
    None
}

/// The pattern of shell chaining into a dangerous command.
pub open spec fn chaining_pattern() -> Seq<char> {
    r"(?im)(&&|\|\||;|\|)\s*(?:rm\s+-rf|mkfs|dd\s+if=|curl.*\|\s*(?:sh|bash)|wget.*\|\s*(?:sh|bash))"@
}

/// Whether `command` chains (`&&`, `||`, `;`, `|`) into a dangerous command.
pub fn contains_dangerous_chaining(command: &str) -> (r: bool)
    ensures
        r == (spec_regex_match(chaining_pattern(), command@) == Some(true)),
{
    matches(
        r"(?im)(&&|\|\||;|\|)\s*(?:rm\s+-rf|mkfs|dd\s+if=|curl.*\|\s*(?:sh|bash)|wget.*\|\s*(?:sh|bash))",
        command,
    )
}

/// The findings of one shell command, in order: a NUL byte, a dangerous pattern, dangerous
/// chaining.
pub open spec fn command_findings(command: Seq<char>, context: Seq<char>) -> Seq<Seq<char>> {
    let nul: Seq<Seq<char>> = if find_char(command, 0, '\0') is Some {
        seq![context + ": contains null byte injection."@]
    } else {
        Seq::empty()
    };
    let pat: Seq<Seq<char>> = match first_danger(command, 0) {
        Some(l) => seq![context + ": detected dangerous shell pattern ("@ + l + ")."@],
        None => Seq::empty(),
    };
    let chain: Seq<Seq<char>> = if spec_regex_match(chaining_pattern(), command) == Some(true) {
        seq![context + ": shell chaining to potentially dangerous commands is blocked."@]
    } else {
        Seq::empty()
    };
    nul + pat + chain
}

/// Audits one shell command, appending what it finds to `report`.
pub fn audit_shell_command(command: &str, context: &str, report: &mut HookAuditReport)
    ensures
        final(report).files_scanned == old(report).files_scanned,
        views(final(report).findings@) == views(old(report).findings@) + command_findings(
            command@,
            context@,
        ),
{
    let ghost start = views(report.findings@);
    let v = chars_of(command);
    let has_nul = find_char_from(&v, 0, '\0').is_some();
    if has_nul {
        let mut m = String::new();
        push_str(&mut m, context);
        push_str(&mut m, ": contains null byte injection.");
        report.findings.push(m);
    }
    let ghost after_nul = views(report.findings@);
    if let Some(pattern) = detect_dangerous_pattern(command) {
        let mut m = String::new();
        push_str(&mut m, context);
        push_str(&mut m, ": detected dangerous shell pattern (");
        push_str(&mut m, pattern);
        push_str(&mut m, ").");
        report.findings.push(m);
    }
    let ghost after_pat = views(report.findings@);
    if contains_dangerous_chaining(command) {
        let mut m = String::new();
        push_str(&mut m, context);
        push_str(&mut m, ": shell chaining to potentially dangerous commands is blocked.");
        report.findings.push(m);
    }
    proof {
        let f = command_findings(command@, context@);
        assert(views(report.findings@) =~= start + f);
    }
}


/// How a path inside `root` is shown in findings: relative to `root` (`.` for `root` itself),
/// or in full when it is not inside.
pub open spec fn relative_display_spec(root: Seq<char>, path: Seq<char>) -> Seq<char> {
    match spec_path_strip_prefix(path, root) {
        Some(rel) => if rel.len() == 0 {
            "."@
        } else {
            rel
        },
        None => path,
    }
}

/// Shows `path` relative to `root`.
pub fn relative_display(root: &str, path: &str) -> (r: String)
    ensures
        r@ == relative_display_spec(root@, path@),
{
    match path_strip_prefix(path, root) {
        Some(rel) => if rel.as_str().is_empty() {
            ".".to_owned()
        } else {
            rel
        },
        None => path.to_owned(),
    }
}

/// What the audit finds about one entry of a hook directory, given its metadata: `rel` is its
/// displayed name, `path` its full path, `rel_path` the path relative to the directory when it
/// lies inside it, `len` its size.
pub open spec fn path_finding_spec(
    rel: Seq<char>,
    is_symlink: bool,
    is_dir: bool,
    path: Seq<char>,
    rel_path: Option<Seq<char>>,
    len: u64,
) -> Option<Seq<char>> {
    if is_symlink {
        Some(rel + ": symlinks are not allowed in hook directories."@)
    } else if is_dir {
        None
    } else if find_char(path, 0, '\0') is Some {
        Some(rel + ": path contains null bytes (potential injection)."@)
    } else if rel_path is Some && contains_sub(rel_path->0, ".."@) {
        Some(rel + ": path traversal detected."@)
    } else if len > MAX_FILE_BYTES {
        Some(rel + ": file is too large for static audit (>"@ + decimal(MAX_FILE_BYTES as nat)
            + " bytes)."@)
    } else {
        None
    }
}

/// Audits one entry of a hook directory from its metadata.
pub fn path_finding(
    rel: &str,
    is_symlink: bool,
    is_dir: bool,
    path: &str,
    rel_path: Option<&str>,
    len: u64,
) -> (r: Option<String>)
    ensures
        match r {
            Some(f) => path_finding_spec(
                rel@,
                is_symlink,
                is_dir,
                path@,
                crate::hooks::dynamic::opt_view(rel_path),
                len,
            ) == Some(f@),
            None => path_finding_spec(
                rel@,
                is_symlink,
                is_dir,
                path@,
                crate::hooks::dynamic::opt_view(rel_path),
                len,
            ) is None,
        },
{
    let mut m = String::new();
    push_str(&mut m, rel);
    if is_symlink {
        push_str(&mut m, ": symlinks are not allowed in hook directories.");
        return Some(m);
    }
    if is_dir {
        return None;
    }
    let pv = chars_of(path);
    if find_char_from(&pv, 0, '\0').is_some() {
        push_str(&mut m, ": path contains null bytes (potential injection).");
        return Some(m);
    }
    if let Some(rp) = rel_path {
        let rv = chars_of(rp);
        let dots = chars_of("..");
        if find_sub_from(&rv, 0, &dots).is_some() {
            push_str(&mut m, ": path traversal detected.");
            return Some(m);
        }
    }
    if len > MAX_FILE_BYTES {
        push_str(&mut m, ": file is too large for static audit (>");
        push_decimal(&mut m, MAX_FILE_BYTES);
        push_str(&mut m, " bytes).");
        return Some(m);
    }
    None
}

/// The finding for a hook directory without a manifest.
pub fn missing_manifest_finding() -> (r: String)
    ensures
        r@ == "Hook directory must include HOOK.toml for deterministic auditing."@,
{
    "Hook directory must include HOOK.toml for deterministic auditing.".to_owned()
}

/// The shell commands found in a manifest: per `[[hooks]]` entry its `action` and `command`
/// strings, then the top-level ones.
pub struct ManifestCommands {
    pub hooks: Vec<(Option<String>, Option<String>)>,
    pub action: Option<String>,
    pub command: Option<String>,
}

/// The context under which an entry field of a manifest is reported.
pub open spec fn entry_context(rel: Seq<char>, idx: nat, field: Seq<char>) -> Seq<char> {
    rel + ": hooks["@ + decimal(idx) + "]."@ + field
}

/// The findings of the commands of entries `0..k`.
pub open spec fn entries_findings(
    rel: Seq<char>,
    hooks: Seq<(Option<String>, Option<String>)>,
    k: int,
) -> Seq<Seq<char>>
    decreases k,
{
    if k <= 0 {
        Seq::empty()
    } else {
        let e = hooks[k - 1];
        let a: Seq<Seq<char>> = match e.0 {
            Some(x) => command_findings(x@, entry_context(rel, (k - 1) as nat, "action"@)),
            None => Seq::empty(),
        };
        let c: Seq<Seq<char>> = match e.1 {
            Some(x) => command_findings(x@, entry_context(rel, (k - 1) as nat, "command"@)),
            None => Seq::empty(),
        };
        entries_findings(rel, hooks, k - 1) + a + c
    }
}

/// All findings of a manifest's commands, in the order they are audited.
pub open spec fn manifest_findings(rel: Seq<char>, mc: ManifestCommands) -> Seq<Seq<char>> {
    let top_a: Seq<Seq<char>> = match mc.action {
        Some(x) => command_findings(x@, rel + ": action"@),
        None => Seq::empty(),
    };
    let top_c: Seq<Seq<char>> = match mc.command {
        Some(x) => command_findings(x@, rel + ": command"@),
        None => Seq::empty(),
    };
    entries_findings(rel, mc.hooks@, mc.hooks@.len() as int) + top_a + top_c
}

/// Audits the shell commands of a manifest, appending what it finds to `report`.
pub fn audit_manifest_commands(rel: &str, mc: &ManifestCommands, report: &mut HookAuditReport)
    ensures
        final(report).files_scanned == old(report).files_scanned,
        views(final(report).findings@) == views(old(report).findings@) + manifest_findings(
            rel@,
            *mc,
        ),
{
    let ghost start = views(report.findings@);
    let mut i: usize = 0;
    while i < mc.hooks.len()
        invariant
            i <= mc.hooks@.len(),
            report.files_scanned == old(report).files_scanned,
            start == views(old(report).findings@),
            views(report.findings@) == start + entries_findings(rel@, mc.hooks@, i as int),
        decreases mc.hooks.len() - i,
    {
        let ghost before = views(report.findings@);
        let mut ctx = String::new();
        push_str(&mut ctx, rel);
        push_str(&mut ctx, ": hooks[");
        push_decimal(&mut ctx, i as u64);
        push_str(&mut ctx, "].");
        if let Some(a) = &mc.hooks[i].0 {
            let mut c = ctx.clone();
            push_str(&mut c, "action");
            audit_shell_command(a.as_str(), c.as_str(), report);
        }
        let ghost mid = views(report.findings@);
        if let Some(cmd) = &mc.hooks[i].1 {
            let mut c = ctx.clone();
            push_str(&mut c, "command");
            audit_shell_command(cmd.as_str(), c.as_str(), report);
        }
        proof {
            let e = mc.hooks@[i as int];
            let a: Seq<Seq<char>> = match e.0 {
                Some(x) => command_findings(x@, entry_context(rel@, i as nat, "action"@)),
                None => Seq::empty(),
            };
            let c: Seq<Seq<char>> = match e.1 {
                Some(x) => command_findings(x@, entry_context(rel@, i as nat, "command"@)),
                None => Seq::empty(),
            };
            assert(mid =~= before + a);
            assert(views(report.findings@) =~= before + a + c);
            assert(entries_findings(rel@, mc.hooks@, i + 1) == entries_findings(rel@, mc.hooks@, i as int) + a + c);
            assert(views(report.findings@) =~= start + entries_findings(rel@, mc.hooks@, i + 1));
        }
        i = i + 1;
    }
    let ghost before_top = views(report.findings@);
    if let Some(a) = &mc.action {
        let mut c = String::new();
        push_str(&mut c, rel);
        push_str(&mut c, ": action");
        audit_shell_command(a.as_str(), c.as_str(), report);
    }
    let ghost mid = views(report.findings@);
    if let Some(cmd) = &mc.command {
        let mut c = String::new();
        push_str(&mut c, rel);
        push_str(&mut c, ": command");
        audit_shell_command(cmd.as_str(), c.as_str(), report);
    }
    proof {
        assert(views(report.findings@) =~= start + manifest_findings(rel@, *mc));
    }
}

} // verus!
