//! The decisions of the background sync worker: which credentials, where the lock file
//! lives, and what to do when a local file or a remote document changes.
use vstd::prelude::*;
use sha2::{Digest, Sha256};
use crate::docs_sync::{first_forbidden, validate_remote_config};
use crate::paths::{path_join, path_parent, path_strip_prefix, spec_path_join, spec_path_parent};
use crate::text::{chars_of, lines, push_char, push_str, str_eq};

verus! {

/// The hex SHA-256 digest that `sha2` computes of the UTF-8 bytes of `content`.
pub uninterp spec fn spec_sha256_hex(content: Seq<char>) -> Seq<char>;

/// The SHA-256 digest of `content` with `sha2::Sha256`, printed as lower-case hex (generic
/// array's `LowerHex`: two digits per byte, 64 in all). The digest itself is named
/// `spec_sha256_hex`.
#[verifier::external_body]
pub(crate) fn sha256_hex(content: &str) -> (r: String)
    ensures
        r@ == spec_sha256_hex(content@),
        r@.len() == 64,
{
    let mut hasher = Sha256::new();
    hasher.update(content.as_bytes());
    format!("{:x}", hasher.finalize())
}

/// What the lock file remembers of a synced file.
#[derive(Clone, Debug)]
pub struct LockEntry {
    pub doc_id: String,
    pub hash: String,
}

/// The lock's records as values: name, then document id and hash.
pub open spec fn lock_view(es: Seq<(String, LockEntry)>) -> Seq<(Seq<char>, (Seq<char>, Seq<char>))> {
    es.map_values(|e: (String, LockEntry)| (e.0@, (e.1.doc_id@, e.1.hash@)))
}

/// Whether no name occurs twice among the records.
pub open spec fn distinct_names(es: Seq<(Seq<char>, (Seq<char>, Seq<char>))>) -> bool {
    forall|a: int, b: int| 0 <= a < b < es.len() ==> #[trigger] es[a].0 != #[trigger] es[b].0
}

/// The document id and hash recorded for `name`, if any.
pub open spec fn lookup_in(es: Seq<(Seq<char>, (Seq<char>, Seq<char>))>, name: Seq<char>) -> Option<
    (Seq<char>, Seq<char>),
> {
    if exists|k: int| 0 <= k < es.len() && #[trigger] es[k].0 == name {
        Some(es[choose|k: int| 0 <= k < es.len() && #[trigger] es[k].0 == name].1)
    } else {
        None
    }
}

/// With distinct names, the record at `k` is what `lookup_in` finds for its name.
pub proof fn lemma_lookup_at(es: Seq<(Seq<char>, (Seq<char>, Seq<char>))>, k: int)
    requires
        distinct_names(es),
        0 <= k < es.len(),
    ensures
        lookup_in(es, es[k].0) == Some(es[k].1),
{
    let name = es[k].0;
    assert(exists|j: int| 0 <= j < es.len() && #[trigger] es[j].0 == name);
    let c = choose|j: int| 0 <= j < es.len() && #[trigger] es[j].0 == name;
    if c != k {
        if c < k {
            assert(es[c].0 != es[k].0);
        } else {
            assert(es[k].0 != es[c].0);
        }
    }
}

/// The lock: for each synced file, the document it maps to and the hash of the content last
/// pushed or pulled. A name is recorded at most once.
pub struct SyncLock {
    entries: Vec<(String, LockEntry)>,
}

impl SyncLock {
    #[verifier::type_invariant]
    spec fn inv(self) -> bool {
        distinct_names(lock_view(self.entries@))
    }

    /// The records, in the order they were made.
    pub closed spec fn records(self) -> Seq<(Seq<char>, (Seq<char>, Seq<char>))> {
        lock_view(self.entries@)
    }

    /// The document id and hash recorded for `name`.
    pub closed spec fn lookup(self, name: Seq<char>) -> Option<(Seq<char>, Seq<char>)> {
        lookup_in(self.records(), name)
    }

    /// An empty lock.
    pub fn new() -> (l: Self)
        ensures
            l.records().len() == 0,
            forall|n: Seq<char>| #[trigger] l.lookup(n) is None,
    {
        let l = SyncLock { entries: Vec::new() };
        assert(l.records() =~= Seq::<(Seq<char>, (Seq<char>, Seq<char>))>::empty());
        l
    }

    fn find(&self, name: &str) -> (r: Option<usize>)
        ensures
            match r {
                Some(k) => k < self.records().len() && self.records()[k as int].0 == name@,
                None => forall|k: int| 0 <= k < self.records().len() ==> self.records()[k].0 != name@,
            },
    {
        let mut i: usize = 0;
        while i < self.entries.len()
            invariant
                i <= self.entries@.len(),
                forall|k: int| 0 <= k < i ==> self.records()[k].0 != name@,
            decreases self.entries.len() - i,
        {
            if str_eq(self.entries[i].0.as_str(), name) {
                return Some(i);
            }
            i = i + 1;
        }
        None
    }

    /// The record of `name`.
    pub fn get(&self, name: &str) -> (r: Option<&LockEntry>)
        ensures
            match r {
                Some(e) => self.lookup(name@) == Some((e.doc_id@, e.hash@)),
                None => self.lookup(name@) is None,
            },
    {
        proof {
            use_type_invariant(self);
        }
        match self.find(name) {
            Some(k) => {
                proof {
                    lemma_lookup_at(self.records(), k as int);
                }
                Some(&self.entries[k].1)
            },
            None => None,
        }
    }

    /// Records that `name` maps to `doc_id` with content hash `hash`, replacing what was
    /// recorded for it; every other name keeps its record.
    pub fn record(&mut self, name: &str, doc_id: String, hash: String)
        ensures
            final(self).lookup(name@) == Some((doc_id@, hash@)),
            forall|n: Seq<char>| n != name@ ==> #[trigger] final(self).lookup(n) == old(self).lookup(n),
    {
        proof {
            use_type_invariant(&*self);
        }
        let ghost old_rs = self.records();
        let entry = LockEntry { doc_id, hash };
        match self.find(name) {
            Some(k) => {
                let mut es: Vec<(String, LockEntry)> = Vec::new();
                std::mem::swap(&mut es, &mut self.entries);
                es.set(k, (name.to_owned(), entry));
                let ghost new_rs = lock_view(es@);
                assert(new_rs =~= old_rs.update(k as int, (name@, (doc_id@, hash@))));
                assert(distinct_names(new_rs));
                proof {
                    lemma_lookup_at(new_rs, k as int);
                    assert forall|n: Seq<char>| n != name@ implies #[trigger] lookup_in(new_rs, n)
                        == lookup_in(old_rs, n) by {
                        lemma_lookup_same(old_rs, new_rs, k as int, n);
                    }
                }
                self.entries = es;
            },
            None => {
                let mut es: Vec<(String, LockEntry)> = Vec::new();
                std::mem::swap(&mut es, &mut self.entries);
                es.push((name.to_owned(), entry));
                let ghost new_rs = lock_view(es@);
                assert(new_rs =~= old_rs.push((name@, (doc_id@, hash@))));
                assert(distinct_names(new_rs));
                proof {
                    lemma_lookup_at(new_rs, old_rs.len() as int);
                    assert forall|n: Seq<char>| n != name@ implies #[trigger] lookup_in(new_rs, n)
                        == lookup_in(old_rs, n) by {
                        lemma_lookup_pushed(old_rs, new_rs, n);
                    }
                }
                self.entries = es;
            },
        }
    }

    /// The recorded names, in order.
    pub fn names(&self) -> (r: Vec<String>)
        ensures
            r@.len() == self.records().len(),
            forall|k: int| 0 <= k < r@.len() ==> (#[trigger] r@[k])@ == self.records()[k].0,
    {
        let mut out: Vec<String> = Vec::new();
        let mut i: usize = 0;
        while i < self.entries.len()
            invariant
                i <= self.entries@.len(),
                out@.len() == i,
                forall|k: int| 0 <= k < i ==> (#[trigger] out@[k])@ == self.records()[k].0,
            decreases self.entries.len() - i,
        {
            out.push(self.entries[i].0.clone());
            i = i + 1;
        }
        out
    }

    /// The documents of all records, in order: those whose edit events are subscribed to.
    pub fn doc_ids(&self) -> (r: Vec<String>)
        ensures
            r@.len() == self.records().len(),
            forall|k: int| 0 <= k < r@.len() ==> (#[trigger] r@[k])@ == (self.records()[k].1).0,
    {
        let mut out: Vec<String> = Vec::new();
        let mut i: usize = 0;
        while i < self.entries.len()
            invariant
                i <= self.entries@.len(),
                out@.len() == i,
                forall|k: int| 0 <= k < i ==> (#[trigger] out@[k])@ == (self.records()[k].1).0,
            decreases self.entries.len() - i,
        {
            out.push(self.entries[i].1.doc_id.clone());
            i = i + 1;
        }
        out
    }

    /// After `filename` was pushed to `doc_id` with content hash `hash`: the lock records
    /// both. Returns whether the file had no record before, in which case its new document
    /// is shared with every known user and subscribed to.
    pub fn after_push(&mut self, filename: &str, doc_id: String, hash: String) -> (is_new: bool)
        ensures
            is_new == old(self).lookup(filename@) is None,
            final(self).lookup(filename@) == Some((doc_id@, hash@)),
            forall|n: Seq<char>| n != filename@ ==> #[trigger] final(self).lookup(n) == old(self).lookup(n),
    {
        let is_new = self.get(filename).is_none();
        self.record(filename, doc_id, hash);
        is_new
    }

    /// After remote content with hash `hash` was written into `filename`: the lock keeps the
    /// file's document and records the new hash.
    pub fn after_pull(&mut self, filename: &str, hash: String)
        requires
            old(self).lookup(filename@) is Some,
        ensures
            final(self).lookup(filename@) == Some(((old(self).lookup(filename@)->0).0, hash@)),
            forall|n: Seq<char>| n != filename@ ==> #[trigger] final(self).lookup(n) == old(self).lookup(n),
    {
        let doc_id = match self.get(filename) {
            Some(e) => e.doc_id.clone(),
            None => return,
        };
        self.record(filename, doc_id, hash);
    }
}

/// How remote edits are noticed.
#[derive(PartialEq, Eq, Structural, Clone, Copy, Debug)]
pub enum RemoteMode {
    /// Pull on a timer.
    Polling,
    /// Pull when the long connection reports an edit.
    Event,
}

/// What listens for remote edits.
pub enum RemoteListener {
    /// A timer every polling period.
    Poll,
    /// The edit events of the long connection, watching this document (empty when the lock
    /// holds none).
    Event { doc_id: String },
}

impl SyncLock {
    /// The listener for remote edits: a timer when polling; the long connection's edit
    /// events when in event mode, watching the first recorded document, which needs the
    /// connection manager (`has_ws_manager`).
    pub fn remote_listener(&self, mode: RemoteMode, has_ws_manager: bool) -> (r: Result<
        RemoteListener,
        String,
    >)
        ensures
            mode == RemoteMode::Polling ==> r matches Ok(RemoteListener::Poll),
            mode == RemoteMode::Event && !has_ws_manager ==> (r matches Err(e) && e@
                == "docs_sync: LarkWsManager not provided for event mode"@),
            mode == RemoteMode::Event && has_ws_manager ==> (r matches Ok(RemoteListener::Event { doc_id })
                && doc_id@ == if self.records().len() > 0 {
                (self.records()[0].1).0
            } else {
                Seq::<char>::empty()
            }),
    {
        match mode {
            RemoteMode::Polling => Ok(RemoteListener::Poll),
            RemoteMode::Event => {
                if !has_ws_manager {
                    return Err("docs_sync: LarkWsManager not provided for event mode".to_owned());
                }
                let doc_id = if self.entries.len() > 0 {
                    self.entries[0].1.doc_id.clone()
                } else {
                    String::new()
                };
                Ok(RemoteListener::Event { doc_id })
            },
        }
    }
}

/// Replacing the record at `k` with one of the same name changes no other name's lookup.
proof fn lemma_lookup_same(
    old_rs: Seq<(Seq<char>, (Seq<char>, Seq<char>))>,
    new_rs: Seq<(Seq<char>, (Seq<char>, Seq<char>))>,
    k: int,
    n: Seq<char>,
)
    requires
        0 <= k < old_rs.len(),
        new_rs.len() == old_rs.len(),
        new_rs[k].0 == old_rs[k].0,
        n != old_rs[k].0,
        forall|j: int| 0 <= j < old_rs.len() && j != k ==> new_rs[j] == old_rs[j],
        distinct_names(old_rs),
        distinct_names(new_rs),
    ensures
        lookup_in(new_rs, n) == lookup_in(old_rs, n),
{
    if exists|j: int| 0 <= j < old_rs.len() && #[trigger] old_rs[j].0 == n {
        let j = choose|j: int| 0 <= j < old_rs.len() && #[trigger] old_rs[j].0 == n;
        lemma_lookup_at(old_rs, j);
        assert(new_rs[j] == old_rs[j]);
        lemma_lookup_at(new_rs, j);
    } else {
        assert forall|j: int| 0 <= j < new_rs.len() implies #[trigger] new_rs[j].0 != n by {
            if j != k {
                assert(new_rs[j] == old_rs[j]);
            }
        }
    }
}

/// Appending a record for another name changes no other name's lookup.
proof fn lemma_lookup_pushed(
    old_rs: Seq<(Seq<char>, (Seq<char>, Seq<char>))>,
    new_rs: Seq<(Seq<char>, (Seq<char>, Seq<char>))>,
    n: Seq<char>,
)
    requires
        new_rs.len() == old_rs.len() + 1,
        n != new_rs.last().0,
        forall|j: int| 0 <= j < old_rs.len() ==> new_rs[j] == old_rs[j],
        distinct_names(old_rs),
        distinct_names(new_rs),
    ensures
        lookup_in(new_rs, n) == lookup_in(old_rs, n),
{
    if exists|j: int| 0 <= j < old_rs.len() && #[trigger] old_rs[j].0 == n {
        let j = choose|j: int| 0 <= j < old_rs.len() && #[trigger] old_rs[j].0 == n;
        lemma_lookup_at(old_rs, j);
        assert(new_rs[j] == old_rs[j]);
        lemma_lookup_at(new_rs, j);
    } else {
        assert forall|j: int| 0 <= j < new_rs.len() implies #[trigger] new_rs[j].0 != n by {
            if j < old_rs.len() {
                assert(new_rs[j] == old_rs[j]);
            }
        }
    }
}

/// The name of the lock file, kept next to the configuration file.
pub const LOCK_FILENAME: &'static str = "docs_sync.lock";

/// Where the lock file lives: beside the configuration file, or in `.` when that has no
/// parent.
pub open spec fn lock_path_of(config_path: Seq<char>) -> Seq<char> {
    match spec_path_parent(config_path) {
        Some(p) => spec_path_join(p, "docs_sync.lock"@),
        None => spec_path_join("."@, "docs_sync.lock"@),
    }
}

/// Where the lock file lives.
pub fn lock_file_path(config_path: &str) -> (r: String)
    ensures
        r@ == lock_path_of(config_path@),
{
    match path_parent(config_path) {
        Some(p) => path_join(p.as_str(), LOCK_FILENAME),
        None => path_join(".", LOCK_FILENAME),
    }
}

/// An application id and secret.
#[derive(Clone, Debug)]
pub struct AppCredentials {
    pub app_id: String,
    pub app_secret: String,
}

/// The first of the three that is present.
pub open spec fn first_present(a: Option<String>, b: Option<String>, c: Option<String>) -> Option<
    String,
> {
    match a {
        Some(x) => Some(x),
        None => match b {
            Some(x) => Some(x),
            None => c,
        },
    }
}

/// The credentials the sync uses: the id and the secret each come from the sync settings,
/// else the Feishu channel, else the Lark channel; both must be found.
pub fn resolve_credentials(
    app_id: Option<String>,
    app_secret: Option<String>,
    feishu: Option<AppCredentials>,
    lark: Option<AppCredentials>,
) -> (r: Result<(String, String), String>)
    ensures
        match (
            first_present(
                app_id,
                match feishu {
                    Some(f) => Some(f.app_id),
                    None => None,
                },
                match lark {
                    Some(l) => Some(l.app_id),
                    None => None,
                },
            ),
            first_present(
                app_secret,
                match feishu {
                    Some(f) => Some(f.app_secret),
                    None => None,
                },
                match lark {
                    Some(l) => Some(l.app_secret),
                    None => None,
                },
            ),
        ) {
            (Some(id), Some(secret)) => r matches Ok(p) && p.0 == id && p.1 == secret,
            _ => r matches Err(e) && e@
                == "docs_sync: no app_id/app_secret in [docs_sync] or [channels_config.feishu/lark]"@,
        },
{
    let (feishu_id, feishu_secret) = match feishu {
        Some(f) => (Some(f.app_id), Some(f.app_secret)),
        None => (None, None),
    };
    let (lark_id, lark_secret) = match lark {
        Some(l) => (Some(l.app_id), Some(l.app_secret)),
        None => (None, None),
    };
    let id = match app_id {
        Some(x) => Some(x),
        None => match feishu_id {
            Some(x) => Some(x),
            None => lark_id,
        },
    };
    let secret = match app_secret {
        Some(x) => Some(x),
        None => match feishu_secret {
            Some(x) => Some(x),
            None => lark_secret,
        },
    };
    match (id, secret) {
        (Some(i), Some(s)) => Ok((i, s)),
        _ => Err(
            "docs_sync: no app_id/app_secret in [docs_sync] or [channels_config.feishu/lark]".to_owned(),
        ),
    }
}

/// The polling period: the configured one, at least ten seconds.
pub fn sync_interval_secs(configured: u64) -> (r: u64)
    ensures
        r == (if configured >= 10 {
            configured
        } else {
            10
        }),
{
    if configured >= 10 {
        configured
    } else {
        10
    }
}

/// The id and the secret the sync would use: each from the sync settings, else the Feishu
/// channel, else the Lark channel.
pub open spec fn credential_sources(
    app_id: Option<String>,
    app_secret: Option<String>,
    feishu: Option<AppCredentials>,
    lark: Option<AppCredentials>,
) -> (Option<String>, Option<String>) {
    (
        first_present(
            app_id,
            match feishu {
                Some(f) => Some(f.app_id),
                None => None,
            },
            match lark {
                Some(l) => Some(l.app_id),
                None => None,
            },
        ),
        first_present(
            app_secret,
            match feishu {
                Some(f) => Some(f.app_secret),
                None => None,
            },
            match lark {
                Some(l) => Some(l.app_secret),
                None => None,
            },
        ),
    )
}

/// What the worker starts with: refused when the sync is not enabled (checked first), then
/// the credentials (see `resolve_credentials`) and the polling period in seconds.
pub fn worker_start(
    enabled: bool,
    app_id: Option<String>,
    app_secret: Option<String>,
    feishu: Option<AppCredentials>,
    lark: Option<AppCredentials>,
    configured_interval_secs: u64,
) -> (r: Result<(String, String, u64), String>)
    ensures
        !enabled ==> (r matches Err(e) && e@ == "docs_sync: not enabled"@),
        enabled ==> match credential_sources(app_id, app_secret, feishu, lark) {
            (Some(id), Some(secret)) => r matches Ok(s) && s.0 == id && s.1 == secret && s.2 == (
            if configured_interval_secs >= 10 {
                configured_interval_secs
            } else {
                10
            }),
            _ => r matches Err(e) && e@
                == "docs_sync: no app_id/app_secret in [docs_sync] or [channels_config.feishu/lark]"@,
        },
{
    if !enabled {
        return Err("docs_sync: not enabled".to_owned());
    }
    match resolve_credentials(app_id, app_secret, feishu, lark) {
        Ok((id, secret)) => Ok((id, secret, sync_interval_secs(configured_interval_secs))),
        Err(e) => Err(e),
    }
}

/// What to do with a local file's content.
pub enum PushPlan {
    /// The content is what was last pushed.
    Unchanged,
    /// Push to this document; `is_new` when the file had no lock entry yet.
    Push { doc_id: String, hash: String, is_new: bool },
    /// Create a document with this title, then push.
    Create { title: String, hash: String },
}

/// The plan for a local file: skip it when its lock entry has the same hash; else push to
/// the document of its lock entry, else to the configured document, else to a new document
/// titled `ZeroClaw - <filename>`.
pub fn plan_push(
    filename: &str,
    content: &str,
    entry: Option<&LockEntry>,
    configured_doc: Option<&str>,
) -> (r: PushPlan)
    ensures
        match entry {
            Some(e) => if e.hash@ == spec_sha256_hex(content@) {
                r is Unchanged
            } else {
                r matches PushPlan::Push { doc_id, hash, is_new } && doc_id@ == e.doc_id@ && hash@
                    == spec_sha256_hex(content@) && !is_new
            },
            None => match configured_doc {
                Some(d) => r matches PushPlan::Push { doc_id, hash, is_new } && doc_id@ == d@
                    && hash@ == spec_sha256_hex(content@) && is_new,
                None => r matches PushPlan::Create { title, hash } && title@ == "ZeroClaw - "@
                    + filename@ && hash@ == spec_sha256_hex(content@),
            },
        },
{
    let hash = sha256_hex(content);
    match entry {
        Some(e) => if str_eq(e.hash.as_str(), hash.as_str()) {
            PushPlan::Unchanged
        } else {
            PushPlan::Push { doc_id: e.doc_id.clone(), hash, is_new: false }
        },
        None => match configured_doc {
            Some(d) => PushPlan::Push { doc_id: d.to_owned(), hash, is_new: true },
            None => {
                let mut title = String::new();
                push_str(&mut title, "ZeroClaw - ");
                push_str(&mut title, filename);
                PushPlan::Create { title, hash }
            },
        },
    }
}

/// Whether `name` is one of the synced files.
pub open spec fn listed_file(sync_files: Seq<String>, name: Seq<char>) -> bool {
    exists|k: int| 0 <= k < sync_files.len() && #[trigger] sync_files[k]@ == name
}

pub(crate) fn is_listed(sync_files: &Vec<String>, name: &str) -> (r: bool)
    ensures
        r == listed_file(sync_files@, name@),
{
    let mut i: usize = 0;
    while i < sync_files.len()
        invariant
            i <= sync_files.len(),
            forall|k: int| 0 <= k < i ==> #[trigger] sync_files@[k]@ != name@,
        decreases sync_files.len() - i,
    {
        if str_eq(sync_files[i].as_str(), name) {
            return true;
        }
        i = i + 1;
    }
    false
}

/// `s` with each `\` replaced by `/`.
pub open spec fn forward_slashes(s: Seq<char>) -> Seq<char> {
    s.map_values(
        |c: char|
            if c == '\\' {
                '/'
            } else {
                c
            },
    )
}

/// The synced file a changed path stands for: its path relative to the workspace (with
/// forward slashes), or else its bare file name when that is listed; and only if listed.
pub open spec fn changed_file(
    relative: Option<Seq<char>>,
    file_name: Option<Seq<char>>,
    sync_files: Seq<String>,
) -> Option<Seq<char>> {
    let name = match relative {
        Some(r) => Some(forward_slashes(r)),
        None => match file_name {
            Some(n) => if listed_file(sync_files, n) {
                Some(n)
            } else {
                None
            },
            None => None,
        },
    };
    match name {
        Some(n) => if listed_file(sync_files, n) {
            Some(n)
        } else {
            None
        },
        None => None,
    }
}

/// The synced file a changed path stands for, given the path relative to the workspace (when
/// it is inside it) and the path's file name.
pub fn local_change_filename(
    relative: Option<&str>,
    file_name: Option<&str>,
    sync_files: &Vec<String>,
) -> (r: Option<String>)
    ensures
        match r {
            Some(f) => changed_file(
                match relative {
                    Some(x) => Some(x@),
                    None => None,
                },
                match file_name {
                    Some(x) => Some(x@),
                    None => None,
                },
                sync_files@,
            ) == Some(f@),
            None => changed_file(
                match relative {
                    Some(x) => Some(x@),
                    None => None,
                },
                match file_name {
                    Some(x) => Some(x@),
                    None => None,
                },
                sync_files@,
            ) is None,
        },
{
    let name = match relative {
        Some(rel) => {
            let v = chars_of(rel);
            let mut out = String::new();
            let mut i: usize = 0;
            while i < v.len()
                invariant
                    i <= v.len(),
                    out@ == forward_slashes(v@.take(i as int)),
                decreases v.len() - i,
            {
                if v[i] == '\\' {
                    push_char(&mut out, '/');
                } else {
                    push_char(&mut out, v[i]);
                }
                assert(out@ =~= forward_slashes(v@.take(i + 1)));
                i = i + 1;
            }
            assert(v@.take(v@.len() as int) =~= v@);
            out
        },
        None => match file_name {
            Some(n) => if is_listed(sync_files, n) {
                n.to_owned()
            } else {
                return None;
            },
            None => return None,
        },
    };
    if is_listed(sync_files, name.as_str()) {
        Some(name)
    } else {
        None
    }
}

/// What to do with a remote document's content for a locally present file.
pub enum PullPlan {
    /// Nothing changed remotely, or the file is not present locally.
    Skip,
    /// The content may not be written; the reason.
    Blocked(String),
    /// Write the content and record this hash.
    Write(String),
}

/// The plan for pulled content: skip files that are not present locally and content whose
/// hash is the recorded one; block a `config.toml` with a protected section; else write.
pub fn plan_pull(filename: &str, local_present: bool, recorded_hash: &str, raw: &str) -> (r:
    PullPlan)
    ensures
        !local_present ==> r is Skip,
        local_present && spec_sha256_hex(raw@) == recorded_hash@ ==> r is Skip,
        local_present && spec_sha256_hex(raw@) != recorded_hash@ ==> match r {
            PullPlan::Write(h) => h@ == spec_sha256_hex(raw@) && !(filename@ == "config.toml"@
                && first_forbidden(lines(raw@)) is Some),
            PullPlan::Blocked(m) => filename@ == "config.toml"@ && (first_forbidden(
                lines(raw@),
            ) matches Some(f) && m@ == "Remote config contains forbidden section "@ + f
                + "; rejecting sync"@),
            PullPlan::Skip => false,
        },
{
    if !local_present {
        return PullPlan::Skip;
    }
    let hash = sha256_hex(raw);
    if str_eq(hash.as_str(), recorded_hash) {
        return PullPlan::Skip;
    }
    if str_eq(filename, "config.toml") {
        if let Err(e) = validate_remote_config(raw) {
            return PullPlan::Blocked(e);
        }
    }
    PullPlan::Write(hash)
}

} // verus!
