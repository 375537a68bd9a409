//! Which servers' tools the agent takes on. A server's tools join only if none of them
//! shadows a builtin tool or a tool of a server already connected, and only while the
//! number of tools stays within the cap.
use vstd::prelude::*;
use crate::multimodal::views;
use crate::text::{decimal, push_decimal, push_str, str_eq};

verus! {

/// A connected server as the ledger sees it: its name and its tools' names.
pub type ServerTools = (Seq<char>, Seq<Seq<char>>);

/// All tool names, server after server.
pub open spec fn all_tools(s: Seq<ServerTools>) -> Seq<Seq<char>>
    decreases s.len(),
{
    if s.len() == 0 {
        Seq::empty()
    } else {
        all_tools(s.drop_last()) + s.last().1
    }
}

/// The position of the last server named `name`.
pub open spec fn find_server(s: Seq<ServerTools>, name: Seq<char>) -> Option<int>
    decreases s.len(),
{
    if s.len() == 0 {
        None
    } else if s.last().0 == name {
        Some(s.len() - 1)
    } else {
        find_server(s.drop_last(), name)
    }
}

/// The position of the first tool of `ts` that `pool` holds.
pub open spec fn first_in(ts: Seq<Seq<char>>, pool: Seq<Seq<char>>) -> Option<int>
    decreases ts.len(),
{
    if ts.len() == 0 {
        None
    } else {
        match first_in(ts.drop_last(), pool) {
            Some(i) => Some(i),
            None => if pool.contains(ts.last()) {
                Some(ts.len() - 1)
            } else {
                None
            },
        }
    }
}

/// What a collision is reported as.
pub open spec fn collision_message(server: Seq<char>, tool: Seq<char>, with: Seq<char>) -> Seq<char> {
    "MCP server '"@ + server + "' tool '"@ + tool + "' collides with "@ + with
}

/// Why the tools `tools` of the server `name` may not join: the first that shadows a
/// builtin tool, else the first that shadows a connected server's tool, else a total over
/// the cap. `None` when they may join.
pub open spec fn admission_error(
    servers: Seq<ServerTools>,
    builtin: Seq<Seq<char>>,
    cap: nat,
    name: Seq<char>,
    tools: Seq<Seq<char>>,
) -> Option<Seq<char>> {
    match first_in(tools, builtin) {
        Some(i) => Some(collision_message(name, tools[i], "builtin tool name"@)),
        None => match first_in(tools, all_tools(servers)) {
            Some(i) => Some(collision_message(name, tools[i], "existing MCP tool name"@)),
            None => if all_tools(servers).len() + tools.len() > cap {
                Some(
                    "Adding server '"@ + name + "' would exceed tool cap ("@ + decimal(cap)
                        + "). Current: "@ + decimal(all_tools(servers).len()) + ", New: "@
                        + decimal(tools.len()) + ", Cap: "@ + decimal(cap),
                )
            } else {
                None
            },
        },
    }
}

/// The servers after the server `name` with `tools` was added: it takes the place of a
/// server of that name, or comes last.
pub open spec fn with_server(s: Seq<ServerTools>, name: Seq<char>, tools: Seq<Seq<char>>) -> Seq<ServerTools> {
    match find_server(s, name) {
        Some(k) => s.update(k, (name, tools)),
        None => s.push((name, tools)),
    }
}

/// What the ledger keeps true: server names are distinct, no tool shadows a builtin tool,
/// tools of different servers have different names, and the tools number at most `cap`.
pub open spec fn ledger_ok(s: Seq<ServerTools>, builtin: Seq<Seq<char>>, cap: nat) -> bool {
    &&& forall|a: int, b: int| 0 <= a < b < s.len() ==> s[a].0 != s[b].0
    &&& forall|a: int, i: int|
        0 <= a < s.len() && 0 <= i < s[a].1.len() ==> !builtin.contains(#[trigger] s[a].1[i])
    &&& forall|a: int, b: int, i: int, j: int|
        0 <= a < s.len() && 0 <= b < s.len() && a != b && 0 <= i < s[a].1.len() && 0 <= j
            < s[b].1.len() ==> #[trigger] s[a].1[i] != #[trigger] s[b].1[j]
    &&& all_tools(s).len() <= cap
}

/// Every tool of every server is among `all_tools`.
pub proof fn lemma_all_tools_member(s: Seq<ServerTools>, a: int, i: int)
    requires
        0 <= a < s.len(),
        0 <= i < s[a].1.len(),
    ensures
        all_tools(s).contains(s[a].1[i]),
    decreases s.len(),
{
    let p = all_tools(s.drop_last());
    if a == s.len() - 1 {
        assert(all_tools(s)[p.len() + i] == s[a].1[i]);
    } else {
        lemma_all_tools_member(s.drop_last(), a, i);
        let k = choose|k: int| 0 <= k < p.len() && p[k] == s[a].1[i];
        assert(all_tools(s)[k] == s[a].1[i]);
    }
}

/// Replacing one server's tools changes the count by the difference.
pub proof fn lemma_all_tools_update(s: Seq<ServerTools>, k: int, x: ServerTools)
    requires
        0 <= k < s.len(),
    ensures
        all_tools(s.update(k, x)).len() == all_tools(s).len() - s[k].1.len() + x.1.len(),
    decreases s.len(),
{
    if k == s.len() - 1 {
        assert(s.update(k, x).drop_last() =~= s.drop_last());
    } else {
        assert(s.update(k, x).drop_last() =~= s.drop_last().update(k, x));
        lemma_all_tools_update(s.drop_last(), k, x);
    }
}

/// Removing one server removes its tools from the count.
pub proof fn lemma_all_tools_remove(s: Seq<ServerTools>, k: int)
    requires
        0 <= k < s.len(),
    ensures
        all_tools(s.remove(k)).len() == all_tools(s).len() - s[k].1.len(),
    decreases s.len(),
{
    if k == s.len() - 1 {
        assert(s.remove(k) =~= s.drop_last());
    } else {
        assert(s.remove(k).drop_last() =~= s.drop_last().remove(k));
        lemma_all_tools_remove(s.drop_last(), k);
    }
}

/// `find_server` finds a server of that name, and only where there is one.
pub proof fn lemma_find_server(s: Seq<ServerTools>, name: Seq<char>)
    ensures
        find_server(s, name) matches Some(k) ==> 0 <= k < s.len() && s[k].0 == name,
        find_server(s, name) is None ==> forall|a: int| 0 <= a < s.len() ==> s[a].0 != name,
    decreases s.len(),
{
    if s.len() > 0 {
        lemma_find_server(s.drop_last(), name);
        if s.last().0 != name {
            assert forall|a: int| 0 <= a < s.len() - 1 implies s[a] == s.drop_last()[a] by {}
        }
    }
}

/// `first_in` finds the first tool the pool holds.
pub proof fn lemma_first_in(ts: Seq<Seq<char>>, pool: Seq<Seq<char>>)
    ensures
        first_in(ts, pool) matches Some(i) ==> 0 <= i < ts.len() && pool.contains(ts[i]),
        first_in(ts, pool) is None ==> forall|i: int| 0 <= i < ts.len() ==> !pool.contains(ts[i]),
    decreases ts.len(),
{
    if ts.len() > 0 {
        lemma_first_in(ts.drop_last(), pool);
        assert forall|i: int| 0 <= i < ts.len() - 1 implies ts[i] == ts.drop_last()[i] by {}
    }
}

/// The connected servers' tools, with the builtin names no server may shadow and the cap.
pub struct ToolLedger {
    servers: Vec<(String, Vec<String>)>,
    builtin: Vec<String>,
    tool_cap: usize,
}

impl ToolLedger {
    /// The connected servers, in the order they were first added.
    pub closed spec fn servers(self) -> Seq<ServerTools> {
        self.servers@.map_values(|e: (String, Vec<String>)| (e.0@, views(e.1@)))
    }

    /// The tool names no server may use.
    pub closed spec fn builtin(self) -> Seq<Seq<char>> {
        views(self.builtin@)
    }

    /// The most tools all servers together may have.
    pub closed spec fn cap(self) -> nat {
        self.tool_cap as nat
    }

    #[verifier::type_invariant]
    spec fn inv(self) -> bool {
        ledger_ok(self.servers(), self.builtin(), self.cap())
    }

    /// A ledger with no server, `tool_cap` and the builtin tool names.
    pub fn new(tool_cap: usize, builtin_tool_names: Vec<String>) -> (r: Self)
        ensures
            r.servers().len() == 0,
            r.cap() == tool_cap,
            r.builtin() == views(builtin_tool_names@),
            ledger_ok(r.servers(), r.builtin(), r.cap()),
    {
        let r = ToolLedger { servers: Vec::new(), builtin: builtin_tool_names, tool_cap };
        assert(r.servers() =~= Seq::<ServerTools>::empty());
        r
    }

    /// Adds the server `name` with `tools` when `admission_error` finds nothing against
    /// it (a server of that name is replaced); otherwise leaves the ledger as it is and
    /// returns the reason.
    pub fn add_server(&mut self, name: &str, tools: Vec<String>) -> (r: Result<(), String>)
        ensures
            final(self).builtin() == old(self).builtin(),
            final(self).cap() == old(self).cap(),
            ledger_ok(final(self).servers(), final(self).builtin(), final(self).cap()),
            match admission_error(
                old(self).servers(),
                old(self).builtin(),
                old(self).cap(),
                name@,
                views(tools@),
            ) {
                Some(e) => r matches Err(m) && m@ == e && final(self).servers() == old(
                    self,
                ).servers(),
                None => r is Ok && final(self).servers() == with_server(
                    old(self).servers(),
                    name@,
                    views(tools@),
                ),
            },
    {
        proof {
            use_type_invariant(&*self);
        }
        let ghost s = self.servers();
        let ghost ts = views(tools@);
        // every tool name now connected, server after server
        let mut pool: Vec<String> = Vec::new();
        let mut k: usize = 0;
        while k < self.servers.len()
            invariant
                k <= self.servers.len(),
                s == self.servers(),
                views(pool@) == all_tools(s.take(k as int)),
            decreases self.servers.len() - k,
        {
            let ghost before = views(pool@);
            let mut j: usize = 0;
            while j < self.servers[k].1.len()
                invariant
                    k < self.servers.len(),
                    s == self.servers(),
                    j <= self.servers[k as int].1.len(),
                    views(pool@) == before + s[k as int].1.take(j as int),
                decreases self.servers[k as int].1.len() - j,
            {
                assert(s[k as int].1[j as int] == self.servers@[k as int].1@[j as int]@);
                let ghost prev = views(pool@);
                let t = self.servers[k].1[j].clone();
                pool.push(t);
                assert(views(pool@) =~= prev.push(s[k as int].1[j as int]));
                assert(s[k as int].1.take(j + 1) =~= s[k as int].1.take(j as int).push(s[k as int].1[j as int]));
                assert(views(pool@) =~= before + s[k as int].1.take(j + 1));
                j = j + 1;
            }
            assert(s[k as int].1.take(j as int) =~= s[k as int].1);
            assert(s.take(k + 1).drop_last() =~= s.take(k as int));
            k = k + 1;
        }
        assert(s.take(s.len() as int) =~= s);
        proof {
            lemma_first_in(ts, self.builtin());
            lemma_first_in(ts, all_tools(s));
            lemma_find_server(s, name@);
        }
        let collision = first_hit(&tools, &self.builtin);
        if let Some(i) = collision {
            assert(ts[i as int] == tools@[i as int]@);
            return Err(collision_error(name, tools[i].as_str(), "builtin tool name"));
        }
        let collision = first_hit(&tools, &pool);
        if let Some(i) = collision {
            assert(ts[i as int] == tools@[i as int]@);
            return Err(collision_error(name, tools[i].as_str(), "existing MCP tool name"));
        }
        if tools.len() > self.tool_cap - pool.len() {
            let mut m = String::new();
            push_str(&mut m, "Adding server '");
            push_str(&mut m, name);
            push_str(&mut m, "' would exceed tool cap (");
            push_decimal(&mut m, self.tool_cap as u64);
            push_str(&mut m, "). Current: ");
            push_decimal(&mut m, pool.len() as u64);
            push_str(&mut m, ", New: ");
            push_decimal(&mut m, tools.len() as u64);
            push_str(&mut m, ", Cap: ");
            push_decimal(&mut m, self.tool_cap as u64);
            return Err(m);
        }
        let found = self.position(name);
        let entry = (name.to_owned(), tools);
        let ghost x: ServerTools = (name@, ts);
        let mut servers: Vec<(String, Vec<String>)> = Vec::new();
        std::mem::swap(&mut servers, &mut self.servers);
        match found {
            Some(at) => {
                servers.set(at, entry);
                proof {
                    lemma_all_tools_update(s, at as int, x);
                    assert forall|a: int, i: int|
                        0 <= a < s.len() && a != at && 0 <= i < s[a].1.len() implies all_tools(
                        s,
                    ).contains(s[a].1[i]) by {
                        lemma_all_tools_member(s, a, i);
                    }
                }
            },
            None => {
                servers.push(entry);
                proof {
                    assert(all_tools(s.push(x)) =~= all_tools(s) + ts) by {
                        assert(s.push(x).drop_last() =~= s);
                    }
                    assert forall|a: int, i: int|
                        0 <= a < s.len() && 0 <= i < s[a].1.len() implies all_tools(s).contains(
                        s[a].1[i],
                    ) by {
                        lemma_all_tools_member(s, a, i);
                    }
                }
            },
        }
        assert(servers@.map_values(|e: (String, Vec<String>)| (e.0@, views(e.1@))) =~= with_server(
            s,
            name@,
            ts,
        ));
        self.servers = servers;
        Ok(())
    }

    /// The position of the server named `name`.
    fn position(&self, name: &str) -> (r: Option<usize>)
        ensures
            match find_server(self.servers(), name@) {
                Some(k) => r == Some(k as usize),
                None => r is None,
            },
            r matches Some(k) ==> k < self.servers().len() && self.servers()[k as int].0 == name@,
    {
        let ghost s = self.servers();
        proof {
            lemma_find_server(s, name@);
        }
        let mut found: Option<usize> = None;
        let mut k: usize = 0;
        while k < self.servers.len()
            invariant
                k <= self.servers.len(),
                s == self.servers(),
                match find_server(s.take(k as int), name@) {
                    Some(a) => found == Some(a as usize),
                    None => found is None,
                },
            decreases self.servers.len() - k,
        {
            assert(s.take(k + 1).drop_last() =~= s.take(k as int));
            if str_eq(self.servers[k].0.as_str(), name) {
                found = Some(k);
            }
            k = k + 1;
        }
        assert(s.take(s.len() as int) =~= s);
        found
    }

    /// Removes the server `name`; `MCP server '<name>' not found` where there is none.
    pub fn remove_server(&mut self, name: &str) -> (r: Result<(), String>)
        ensures
            final(self).builtin() == old(self).builtin(),
            final(self).cap() == old(self).cap(),
            ledger_ok(final(self).servers(), final(self).builtin(), final(self).cap()),
            match find_server(old(self).servers(), name@) {
                Some(k) => r is Ok && final(self).servers() == old(self).servers().remove(k),
                None => r matches Err(m) && m@ == "MCP server '"@ + name@ + "' not found"@
                    && final(self).servers() == old(self).servers(),
            },
    {
        proof {
            use_type_invariant(&*self);
        }
        let ghost s = self.servers();
        proof {
            lemma_find_server(s, name@);
        }
        match self.position(name) {
            Some(at) => {
                let mut servers: Vec<(String, Vec<String>)> = Vec::new();
                std::mem::swap(&mut servers, &mut self.servers);
                let _ = servers.remove(at);
                proof {
                    lemma_all_tools_remove(s, at as int);
                }
                assert(servers@.map_values(|e: (String, Vec<String>)| (e.0@, views(e.1@)))
                    =~= s.remove(at as int));
                self.servers = servers;
                Ok(())
            },
            None => Err(not_found(name)),
        }
    }

    /// `MCP server '<name>' not found` unless the server `name` is connected.
    pub fn require_server(&self, name: &str) -> (r: Result<(), String>)
        ensures
            match find_server(self.servers(), name@) {
                Some(_) => r is Ok,
                None => r matches Err(m) && m@ == "MCP server '"@ + name@ + "' not found"@,
            },
    {
        match self.position(name) {
            Some(_) => Ok(()),
            None => Err(not_found(name)),
        }
    }

    /// Each connected server with the number of its tools, in order.
    pub fn list_servers(&self) -> (r: Vec<(String, usize)>)
        ensures
            r@.len() == self.servers().len(),
            forall|k: int|
                0 <= k < r@.len() ==> (#[trigger] r@[k]).0@ == self.servers()[k].0 && r@[k].1
                    == self.servers()[k].1.len(),
    {
        let ghost s = self.servers();
        let mut out: Vec<(String, usize)> = Vec::new();
        let mut k: usize = 0;
        while k < self.servers.len()
            invariant
                k <= self.servers.len(),
                s == self.servers(),
                out@.len() == k,
                forall|a: int|
                    0 <= a < k ==> (#[trigger] out@[a]).0@ == s[a].0 && out@[a].1 == s[a].1.len(),
            decreases self.servers.len() - k,
        {
            out.push((self.servers[k].0.clone(), self.servers[k].1.len()));
            k = k + 1;
        }
        out
    }

    /// The number of connected servers.
    pub fn server_count(&self) -> (n: usize)
        ensures
            n == self.servers().len(),
    {
        self.servers.len()
    }

    /// The number of tools across all servers; never more than the cap.
    pub fn total_tool_count(&self) -> (n: usize)
        ensures
            n == all_tools(self.servers()).len(),
            n <= self.cap(),
    {
        proof {
            use_type_invariant(self);
        }
        let ghost s = self.servers();
        let mut n: usize = 0;
        let mut k: usize = 0;
        while k < self.servers.len()
            invariant
                k <= self.servers.len(),
                s == self.servers(),
                n == all_tools(s.take(k as int)).len(),
                all_tools(s).len() <= self.tool_cap,
            decreases self.servers.len() - k,
        {
            assert(s.take(k + 1).drop_last() =~= s.take(k as int));
            proof {
                lemma_all_tools_prefix(s, k as int + 1);
            }
            n = n + self.servers[k].1.len();
            k = k + 1;
        }
        assert(s.take(s.len() as int) =~= s);
        n
    }
}

/// A prefix of the servers has no more tools than all of them.
pub proof fn lemma_all_tools_prefix(s: Seq<ServerTools>, k: int)
    requires
        0 <= k <= s.len(),
    ensures
        all_tools(s.take(k)).len() <= all_tools(s).len(),
    decreases s.len() - k,
{
    if k < s.len() {
        assert(s.take(k + 1).drop_last() =~= s.take(k));
        assert(all_tools(s.take(k + 1)).len() >= all_tools(s.take(k)).len());
        lemma_all_tools_prefix(s, k + 1);
    } else {
        assert(s.take(k) =~= s);
    }
}

/// Adding a server that was not connected, then removing it, gives back the servers as
/// they were: the new server comes last, is found under its name, and its removal takes
/// nothing else away.
pub proof fn law_add_then_remove(s: Seq<ServerTools>, name: Seq<char>, tools: Seq<Seq<char>>)
    requires
        find_server(s, name) is None,
    ensures
        with_server(s, name, tools) == s.push((name, tools)),
        find_server(with_server(s, name, tools), name) == Some(s.len() as int),
        with_server(s, name, tools).remove(s.len() as int) == s,
{
    assert(s.push((name, tools)).drop_last() =~= s);
    assert(s.push((name, tools)).remove(s.len() as int) =~= s);
}

/// `MCP server '<name>' not found`.
fn not_found(name: &str) -> (r: String)
    ensures
        r@ == "MCP server '"@ + name@ + "' not found"@,
{
    let mut m = String::new();
    push_str(&mut m, "MCP server '");
    push_str(&mut m, name);
    push_str(&mut m, "' not found");
    m
}

/// The collision report for `tool` of the server `server`.
fn collision_error(server: &str, tool: &str, with: &str) -> (r: String)
    ensures
        r@ == collision_message(server@, tool@, with@),
{
    let mut m = String::new();
    push_str(&mut m, "MCP server '");
    push_str(&mut m, server);
    push_str(&mut m, "' tool '");
    push_str(&mut m, tool);
    push_str(&mut m, "' collides with ");
    push_str(&mut m, with);
    m
}

/// The position of the first of `tools` that `pool` holds.
fn first_hit(tools: &Vec<String>, pool: &Vec<String>) -> (r: Option<usize>)
    ensures
        match first_in(views(tools@), views(pool@)) {
            Some(i) => r == Some(i as usize),
            None => r is None,
        },
{
    let ghost ts = views(tools@);
    let ghost ps = views(pool@);
    let mut i: usize = 0;
    while i < tools.len()
        invariant
            i <= tools.len(),
            ts == views(tools@),
            ps == views(pool@),
            first_in(ts.take(i as int), ps) is None,
        decreases tools.len() - i,
    {
        assert(ts.take(i + 1).drop_last() =~= ts.take(i as int));
        let mut j: usize = 0;
        let mut hit = false;
        while j < pool.len()
            invariant
                i < tools.len(),
                j <= pool.len(),
                ts == views(tools@),
                ps == views(pool@),
                hit == exists|q: int| 0 <= q < j && ps[q] == ts[i as int],
            decreases pool.len() - j,
        {
            assert(ps[j as int] == pool@[j as int]@ && ts[i as int] == tools@[i as int]@);
            if str_eq(pool[j].as_str(), tools[i].as_str()) {
                hit = true;
            }
            j = j + 1;
        }
        if hit {
            assert(first_in(ts.take(i + 1), ps) == Some(i as int));
            proof {
                first_in_prefix(ts, ps, i as int + 1);
            }
            return Some(i);
        }
        i = i + 1;
    }
    assert(ts.take(ts.len() as int) =~= ts);
    None
}

/// A hit in a prefix is the hit of the whole.
proof fn first_in_prefix(ts: Seq<Seq<char>>, pool: Seq<Seq<char>>, k: int)
    requires
        0 <= k <= ts.len(),
        first_in(ts.take(k), pool) is Some,
    ensures
        first_in(ts, pool) == first_in(ts.take(k), pool),
    decreases ts.len() - k,
{
    if k < ts.len() {
        assert(ts.take(k + 1).drop_last() =~= ts.take(k));
        first_in_prefix(ts, pool, k + 1);
    } else {
        assert(ts.take(k) =~= ts);
    }
}

} // verus!
