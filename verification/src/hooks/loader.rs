//! Which loaded hooks are kept, and in what order.
use vstd::prelude::*;
use crate::hooks::manifest::HookManifest;
use crate::paths::{path_join, spec_path_join};

verus! {

/// A successfully loaded hook: its parsed manifest and its directory.
pub struct LoadedHook {
    pub manifest: HookManifest,
    pub hook_dir: String,
}

/// The priority of a loaded hook.
pub open spec fn prio(h: LoadedHook) -> i32 {
    h.manifest.priority
}

/// Whether listing `orig[perm[0]], orig[perm[1]], ...` sorts `orig` by descending priority,
/// keeping hooks of equal priority in their original order.
pub open spec fn stable_desc(orig: Seq<LoadedHook>, perm: Seq<int>) -> bool {
    &&& perm.len() == orig.len()
    &&& forall|k: int| 0 <= k < perm.len() ==> 0 <= #[trigger] perm[k] < orig.len()
    &&& forall|a: int, b: int| 0 <= a < b < perm.len() ==> perm[a] != perm[b]
    &&& forall|a: int, b: int|
        0 <= a < b < perm.len() ==> prio(orig[perm[a]]) >= prio(orig[perm[b]])
    &&& forall|a: int, b: int|
        0 <= a < b < perm.len() && prio(orig[perm[a]]) == prio(orig[perm[b]]) ==> perm[a]
            < perm[b]
}

/// Sorts hooks by descending priority (hooks of equal priority keep their order) and keeps the
/// first `max_hooks` of them.
pub fn select_hooks(hooks: Vec<LoadedHook>, max_hooks: usize) -> (r: Vec<LoadedHook>)
    ensures
        r@.len() == if max_hooks < hooks@.len() {
            max_hooks as int
        } else {
            hooks@.len() as int
        },
        exists|perm: Seq<int>|
            stable_desc(hooks@, perm) && forall|k: int|
                0 <= k < r@.len() ==> #[trigger] r@[k] == hooks@[perm[k]],
{
    let ghost orig = hooks@;
    let mut rest = hooks;
    let mut out: Vec<LoadedHook> = Vec::new();
    let ghost mut perm: Seq<int> = Seq::empty();
    let n = rest.len();
    let mut i: usize = 0;
    while i < n
        invariant
            n == orig.len(),
            i <= n,
            rest@ == orig.skip(i as int),
            out@.len() == i,
            perm.len() == i,
            forall|k: int| 0 <= k < i ==> 0 <= #[trigger] perm[k] < i,
            forall|a: int, b: int| 0 <= a < b < i ==> perm[a] != perm[b],
            forall|k: int| 0 <= k < i ==> #[trigger] out@[k] == orig[perm[k]],
            forall|a: int, b: int| 0 <= a < b < i ==> prio(out@[a]) >= prio(out@[b]),
            forall|a: int, b: int|
                0 <= a < b < i && prio(out@[a]) == prio(out@[b]) ==> perm[a] < perm[b],
        decreases n - i,
    {
        let h = rest.remove(0);
        assert(h == orig[i as int]);
        assert(rest@ =~= orig.skip(i + 1));
        let p = h.manifest.priority;
        let mut pos: usize = 0;
        while pos < out.len() && out[pos].manifest.priority >= p
            invariant
                pos <= out@.len(),
                forall|k: int| 0 <= k < pos ==> prio(#[trigger] out@[k]) >= p,
            decreases out.len() - pos,
        {
            pos = pos + 1;
        }
        let ghost old_out = out@;
        let ghost old_perm = perm;
        assert forall|k: int| pos <= k < old_out.len() implies prio(#[trigger] old_out[k]) < p by {
            if pos < old_out.len() {
                assert(prio(old_out[pos as int]) < p);
                if k > pos {
                    assert(prio(old_out[pos as int]) >= prio(old_out[k]));
                }
            }
        }
        out.insert(pos, h);
        proof {
            perm = old_perm.insert(pos as int, i as int);
            assert forall|k: int| 0 <= k < i + 1 implies #[trigger] out@[k] == orig[perm[k]] by {
                if k < pos {
                    assert(out@[k] == old_out[k] && perm[k] == old_perm[k]);
                } else if k > pos {
                    assert(out@[k] == old_out[k - 1] && perm[k] == old_perm[k - 1]);
                }
            }
            assert forall|k: int| 0 <= k < i + 1 implies 0 <= #[trigger] perm[k] < i + 1 by {
                if k < pos {
                    assert(perm[k] == old_perm[k]);
                } else if k > pos {
                    assert(perm[k] == old_perm[k - 1]);
                }
            }
            assert forall|a: int, b: int| 0 <= a < b < i + 1 implies perm[a] != perm[b] by {
                if a < pos && b < pos {
                } else if a < pos && b == pos {
                } else if a < pos && b > pos {
                    assert(perm[b] == old_perm[b - 1]);
                } else if a == pos {
                    assert(perm[b] == old_perm[b - 1]);
                } else {
                    assert(perm[a] == old_perm[a - 1] && perm[b] == old_perm[b - 1]);
                }
            }
            assert forall|a: int, b: int| 0 <= a < b < i + 1 implies prio(out@[a]) >= prio(
                out@[b],
            ) by {
                if a < pos && b < pos {
                } else if a < pos && b == pos {
                } else if a < pos && b > pos {
                    assert(out@[b] == old_out[b - 1]);
                } else if a == pos {
                    assert(out@[b] == old_out[b - 1]);
                } else {
                    assert(out@[a] == old_out[a - 1] && out@[b] == old_out[b - 1]);
                }
            }
            assert forall|a: int, b: int|
                0 <= a < b < i + 1 && prio(out@[a]) == prio(out@[b]) implies perm[a] < perm[b] by {
                if a < pos && b < pos {
                } else if a < pos && b == pos {
                    assert(perm[a] == old_perm[a]);
                } else if a < pos && b > pos {
                    assert(out@[b] == old_out[b - 1] && perm[b] == old_perm[b - 1]);
                } else if a == pos {
                    assert(out@[b] == old_out[b - 1]);
                } else {
                    assert(out@[a] == old_out[a - 1] && out@[b] == old_out[b - 1]);
                    assert(perm[a] == old_perm[a - 1] && perm[b] == old_perm[b - 1]);
                }
            }
        }
        i = i + 1;
    }
    assert(stable_desc(orig, perm));
    let ghost sorted = out@;
    out.truncate(max_hooks);
    assert(forall|k: int| 0 <= k < out@.len() ==> out@[k] == sorted[k]);
    out
}


/// The hooks directory: the configured one, else `hooks` under the workspace.
pub open spec fn hooks_dir_spec(configured: Option<Seq<char>>, workspace_dir: Seq<char>) -> Seq<char> {
    match configured {
        Some(d) => d,
        None => spec_path_join(workspace_dir, "hooks"@),
    }
}

/// Resolves the hooks directory from the configuration and the workspace directory.
pub fn resolve_hooks_dir(configured: Option<&str>, workspace_dir: &str) -> (r: String)
    ensures
        r@ == hooks_dir_spec(crate::hooks::dynamic::opt_view(configured), workspace_dir@),
{
    match configured {
        Some(d) => d.to_owned(),
        None => path_join(workspace_dir, "hooks"),
    }
}

} // verus!
