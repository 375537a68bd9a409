//! Sharing synced documents with chat users, and the small decisions around remote edits:
//! which edit events count, how local change notices are debounced, and what a pulled
//! block of the combined document may overwrite.
use vstd::prelude::*;
use crate::docs_sync::{entry_views, first_forbidden, validate_remote_config, FileMap};
use crate::docs_sync::worker::{is_listed, listed_file};
use crate::multimodal::views;
use crate::paths::{path_join, path_parent, spec_path_join, spec_path_parent};
use crate::text::{lines, push_str, str_eq};

verus! {

/// The file that remembers whom the documents were shared with, beside the lock file.
pub open spec fn shared_users_path_of(lock_path: Seq<char>) -> Seq<char> {
    spec_path_join(
        match spec_path_parent(lock_path) {
            Some(p) => p,
            None => "."@,
        },
        "docs_sync_shared_users.json"@,
    )
}

/// Where the users the documents were shared with are remembered.
pub fn shared_users_path(lock_path: &str) -> (r: String)
    ensures
        r@ == shared_users_path_of(lock_path@),
{
    proof {
        reveal_strlit(".");
    }
    match path_parent(lock_path) {
        Some(p) => path_join(p.as_str(), "docs_sync_shared_users.json"),
        None => path_join(".", "docs_sync_shared_users.json"),
    }
}

/// Whether the documents still have to be shared with `open_id`.
pub fn needs_sharing(shared_users: &Vec<String>, open_id: &str) -> (r: bool)
    ensures
        r == !views(shared_users@).contains(open_id@),
{
    let mut i: usize = 0;
    while i < shared_users.len()
        invariant
            i <= shared_users.len(),
            forall|k: int| 0 <= k < i ==> views(shared_users@)[k] != open_id@,
        decreases shared_users.len() - i,
    {
        if str_eq(shared_users[i].as_str(), open_id) {
            assert(views(shared_users@)[i as int] == open_id@);
            return false;
        }
        i = i + 1;
    }
    true
}

/// Records `open_id` as shared with, but only when every document was shared without
/// failure (so that a failure is retried on the user's next message). Returns whether the
/// list changed and must be saved.
pub fn record_shared(shared_users: &mut Vec<String>, open_id: &str, had_failure: bool) -> (r: bool)
    ensures
        r == !had_failure,
        had_failure ==> views(final(shared_users)@) == views(old(shared_users)@),
        !had_failure ==> views(final(shared_users)@) == views(old(shared_users)@).push(open_id@),
{
    if had_failure {
        return false;
    }
    let ghost before = views(shared_users@);
    shared_users.push(open_id.to_string());
    assert(views(shared_users@) =~= before.push(open_id@));
    true
}

/// The link to a document.
pub open spec fn doc_url(doc_id: Seq<char>) -> Seq<char> {
    "https://feishu.cn/docx/"@ + doc_id
}

/// The text of the card that tells a user a file was shared with them.
pub fn share_card_markdown(filename: &str, doc_id: &str) -> (r: String)
    ensures
        r@ == "文件 **"@ + filename@ + "** 已同步到飞书文档，你拥有可编辑权限。\n\n[打开文档]("@ + doc_url(
            doc_id@,
        ) + ")"@,
{
    let mut m = String::new();
    push_str(&mut m, "文件 **");
    push_str(&mut m, filename);
    push_str(&mut m, "** 已同步到飞书文档，你拥有可编辑权限。\n\n[打开文档](");
    push_str(&mut m, "https://feishu.cn/docx/");
    push_str(&mut m, doc_id);
    push_str(&mut m, ")");
    m
}

/// Whether an event announces an edit of the watched document: a `drive.file.edit_v1`
/// event, for that document where a document is watched and the event names one.
pub fn is_watched_edit(event_type: &str, file_token: Option<&str>, document_id: &str) -> (r: bool)
    ensures
        r == (event_type@ == "drive.file.edit_v1"@ && (document_id@.len() == 0 || match file_token {
            Some(t) => t@.len() == 0 || t@ == document_id@,
            None => true,
        })),
{
    if !str_eq(event_type, "drive.file.edit_v1") {
        return false;
    }
    if document_id.is_empty() {
        return true;
    }
    match file_token {
        Some(t) => t.is_empty() || str_eq(t, document_id),
        None => true,
    }
}

/// How long change notices for one path are merged, in milliseconds.
pub const DEBOUNCE_MS: u64 = 500;

/// Whether a change of a path at `now_ms` is passed on: it is unless the last one passed on
/// for that path (`last_ms`) was less than the debounce interval before.
pub fn passes_debounce(last_ms: Option<u64>, now_ms: u64) -> (r: bool)
    ensures
        r == match last_ms {
            Some(l) => !((if now_ms >= l {
                now_ms - l
            } else {
                0
            }) < DEBOUNCE_MS),
            None => true,
        },
{
    match last_ms {
        Some(l) => {
            let elapsed = if now_ms >= l {
                now_ms - l
            } else {
                0
            };
            !(elapsed < DEBOUNCE_MS)
        },
        None => true,
    }
}

/// What one block of a pulled combined document may do: a file not on the sync list or
/// whose target is a symbolic link is left alone (`Ok(false)`); a `config.toml` with a
/// protected section stops the pull with the reason; else it is written (`Ok(true)`).
pub fn remote_block_step(filename: &str, listed: bool, target_is_symlink: bool, content: &str) -> (r:
    Result<bool, String>)
    ensures
        !listed || target_is_symlink ==> r == Ok::<bool, String>(false),
        listed && !target_is_symlink ==> if filename@ == "config.toml"@ && first_forbidden(
            lines(content@),
        ) is Some {
            r matches Err(m) && first_forbidden(lines(content@)) matches Some(f) && m@
                == "Remote config contains forbidden section "@ + f + "; rejecting sync"@
        } else {
            r == Ok::<bool, String>(true)
        },
{
    if !listed || target_is_symlink {
        return Ok(false);
    }
    if str_eq(filename, "config.toml") {
        validate_remote_config(content)?;
    }
    Ok(true)
}

/// Whether a pulled block may be written: its file is on the sync list and its target is
/// not a symbolic link (`links` names the files whose target is one).
pub open spec fn block_writable(name: Seq<char>, sync_files: Seq<String>, links: Seq<String>) -> bool {
    listed_file(sync_files, name) && !listed_file(links, name)
}

/// What pulling a combined document with the blocks `es` (in order) comes to: the blocks
/// written, in order, and the error that stopped the pull, if one did. Blocks that may
/// not be written are skipped; a writable `config.toml` with a protected section stops the
/// pull before it is written, the blocks before it having been written.
pub open spec fn remote_pull(
    es: Seq<(Seq<char>, Seq<char>)>,
    sync_files: Seq<String>,
    links: Seq<String>,
) -> (Seq<(Seq<char>, Seq<char>)>, Option<Seq<char>>)
    decreases es.len(),
{
    if es.len() == 0 {
        (Seq::empty(), None)
    } else {
        let prev = remote_pull(es.drop_last(), sync_files, links);
        let e = es.last();
        if prev.1 is Some || !block_writable(e.0, sync_files, links) {
            prev
        } else if e.0 == "config.toml"@ && first_forbidden(lines(e.1)) is Some {
            (
                prev.0,
                Some(
                    "Remote config contains forbidden section "@ + first_forbidden(
                        lines(e.1),
                    )->0 + "; rejecting sync"@,
                ),
            )
        } else {
            (prev.0.push(e), None)
        }
    }
}

/// Plans pulling the blocks of a combined document into the synced files (see
/// `remote_pull`): the name and content of each file to write, in order, and the error
/// the pull ends with after writing them, if any.
pub fn plan_remote_pull(blocks: &FileMap, sync_files: &Vec<String>, links: &Vec<String>) -> (r: (
    Vec<(String, String)>,
    Option<String>,
))
    ensures
        (entry_views(r.0@), match r.1 {
            Some(e) => Some(e@),
            None => None::<Seq<char>>,
        }) == remote_pull(blocks.entries(), sync_files@, links@),
{
    let es = blocks.pairs();
    let ghost ev = entry_views(es@);
    let mut out: Vec<(String, String)> = Vec::new();
    let mut i: usize = 0;
    while i < es.len()
        invariant
            i <= es@.len(),
            ev == entry_views(es@),
            ev == blocks.entries(),
            entry_views(out@) == remote_pull(ev.take(i as int), sync_files@, links@).0,
            remote_pull(ev.take(i as int), sync_files@, links@).1 is None,
        decreases es.len() - i,
    {
        assert(ev.take(i + 1).drop_last() =~= ev.take(i as int));
        assert(ev.take(i + 1).last() == (es@[i as int].0@, es@[i as int].1@));
        let name = es[i].0.as_str();
        let content = es[i].1.as_str();
        if is_listed(sync_files, name) && !is_listed(links, name) {
            if str_eq(name, "config.toml") {
                if let Err(e) = validate_remote_config(content) {
                    proof {
                        lemma_remote_pull_stops(ev, i as int, sync_files@, links@);
                    }
                    return (out, Some(e));
                }
            }
            let ghost before = entry_views(out@);
            out.push((es[i].0.clone(), es[i].1.clone()));
            assert(entry_views(out@) =~= before.push((name@, content@)));
        }
        i = i + 1;
    }
    assert(ev.take(es@.len() as int) =~= ev);
    (out, None)
}

/// Once the pull stops at block `i`, the later blocks change nothing.
proof fn lemma_remote_pull_stops(
    es: Seq<(Seq<char>, Seq<char>)>,
    i: int,
    sync_files: Seq<String>,
    links: Seq<String>,
)
    requires
        0 <= i < es.len(),
        remote_pull(es.take(i + 1), sync_files, links).1 is Some,
    ensures
        remote_pull(es, sync_files, links) == remote_pull(es.take(i + 1), sync_files, links),
    decreases es.len() - i,
{
    if i + 1 == es.len() {
        assert(es.take(i + 1) =~= es);
    } else {
        assert(es.drop_last().take(i + 1) =~= es.take(i + 1));
        lemma_remote_pull_stops(es.drop_last(), i, sync_files, links);
    }
}

/// Whether every attempt succeeded.
pub open spec fn all_succeeded(results: Seq<bool>) -> bool {
    forall|k: int| 0 <= k < results.len() ==> #[trigger] results[k]
}

/// Sharing every synced document with one user: each document is tried in turn, whatever
/// happened to the ones before, and the user is recorded as shared with only when every
/// document was shared and announced.
pub struct ShareRun {
    docs: Vec<(String, String)>,
    pos: usize,
    failed: bool,
    results: Ghost<Seq<bool>>,
}

impl ShareRun {
    #[verifier::type_invariant]
    spec fn inv(self) -> bool {
        &&& self.pos <= self.docs@.len()
        &&& self.results@.len() == self.pos
        &&& self.failed == !all_succeeded(self.results@)
    }

    /// The documents, file name and document id, in the order they are tried.
    pub closed spec fn docs(self) -> Seq<(Seq<char>, Seq<char>)> {
        entry_views(self.docs@)
    }

    /// For each document tried so far, whether it was shared and announced.
    pub closed spec fn results(self) -> Seq<bool> {
        self.results@
    }

    /// Starts sharing the documents `docs` (file name and document id).
    pub fn start(docs: Vec<(String, String)>) -> (r: Self)
        ensures
            r.docs() == entry_views(docs@),
            r.results().len() == 0,
    {
        ShareRun { docs, pos: 0, failed: false, results: Ghost(Seq::empty()) }
    }

    /// The document to try next: the one after those tried, until all were.
    pub fn next_doc(&self) -> (r: Option<(String, String)>)
        ensures
            match r {
                Some(d) => self.results().len() < self.docs().len() && (d.0@, d.1@)
                    == self.docs()[self.results().len() as int],
                None => self.results().len() >= self.docs().len(),
            },
    {
        proof {
            use_type_invariant(self);
        }
        if self.pos < self.docs.len() {
            let d = &self.docs[self.pos];
            Some((d.0.clone(), d.1.clone()))
        } else {
            None
        }
    }

    /// Records how the document `next_doc` named went: whether the permission was granted
    /// and whether the card announcing it was sent (tried only after a grant).
    pub fn feed(self, granted: bool, card_sent: bool) -> (r: Self)
        requires
            self.results().len() < self.docs().len(),
        ensures
            r.docs() == self.docs(),
            r.results() == self.results().push(granted && card_sent),
    {
        proof {
            use_type_invariant(&self);
        }
        let ok = granted && card_sent;
        let ghost before = self.results@;
        let ghost next = before.push(ok);
        assert(all_succeeded(next) == (all_succeeded(before) && ok)) by {
            if all_succeeded(before) && ok {
                assert forall|k: int| 0 <= k < next.len() implies #[trigger] next[k] by {
                    if k < before.len() {
                        assert(next[k] == before[k]);
                    }
                }
            }
            if all_succeeded(next) {
                assert(next[before.len() as int] == ok);
                assert forall|k: int| 0 <= k < before.len() implies #[trigger] before[k] by {
                    assert(next[k] == before[k]);
                }
            }
        }
        let ShareRun { docs, pos, failed, results: _ } = self;
        let n = docs.len();
        assert(pos < n);
        ShareRun { docs, pos: pos + 1, failed: failed || !ok, results: Ghost(next) }
    }

    /// Ends the run once every document was tried: records `open_id` in `shared_users` only
    /// when all of them succeeded, and returns whether it did (the list is then saved).
    pub fn finish(self, shared_users: &mut Vec<String>, open_id: &str) -> (recorded: bool)
        requires
            self.results().len() == self.docs().len(),
        ensures
            recorded == all_succeeded(self.results()),
            recorded ==> views(final(shared_users)@) == views(old(shared_users)@).push(open_id@),
            !recorded ==> views(final(shared_users)@) == views(old(shared_users)@),
    {
        proof {
            use_type_invariant(&self);
        }
        record_shared(shared_users, open_id, self.failed)
    }
}

} // verus!
