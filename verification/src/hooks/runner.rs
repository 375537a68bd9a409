//! How the hook dispatcher orders handlers and threads data through modifying hooks.
use vstd::prelude::*;
use crate::hooks::dynamic::HookResult;

verus! {

/// Whether `order` lists the indices of `prios` by descending priority, handlers of equal
/// priority keeping their registration order.
pub open spec fn priority_order(prios: Seq<i32>, order: Seq<usize>) -> bool {
    &&& order.len() == prios.len()
    &&& forall|k: int| 0 <= k < order.len() ==> #[trigger] order[k] < prios.len()
    &&& forall|a: int, b: int| 0 <= a < b < order.len() ==> order[a] != order[b]
    &&& forall|a: int, b: int|
        0 <= a < b < order.len() ==> prios[order[a] as int] >= prios[order[b] as int]
    &&& forall|a: int, b: int|
        0 <= a < b < order.len() && prios[order[a] as int] == prios[order[b] as int] ==> order[a]
            < order[b]
}

/// The order in which handlers run: by descending priority, ties in registration order
/// (static handlers are registered before dynamic ones).
pub fn dispatch_order(prios: &Vec<i32>) -> (r: Vec<usize>)
    ensures
        priority_order(prios@, r@),
{
    let n = prios.len();
    let mut out: Vec<usize> = Vec::new();
    let mut i: usize = 0;
    while i < n
        invariant
            n == prios@.len(),
            i <= n,
            out@.len() == i,
            forall|k: int| 0 <= k < i ==> #[trigger] out@[k] < i,
            forall|a: int, b: int| 0 <= a < b < i ==> out@[a] != out@[b],
            forall|a: int, b: int|
                0 <= a < b < i ==> prios@[out@[a] as int] >= prios@[out@[b] as int],
            forall|a: int, b: int|
                0 <= a < b < i && prios@[out@[a] as int] == prios@[out@[b] as int] ==> out@[a]
                    < out@[b],
        decreases n - i,
    {
        let p = prios[i];
        let mut pos: usize = 0;
        while pos < out.len() && prios[out[pos]] >= p
            invariant
                pos <= out@.len(),
                out@.len() == i,
                i < n,
                n == prios@.len(),
                forall|k: int| 0 <= k < i ==> #[trigger] out@[k] < i,
                forall|k: int| 0 <= k < pos ==> prios@[#[trigger] out@[k] as int] >= p,
            decreases out.len() - pos,
        {
            pos = pos + 1;
        }
        let ghost old_out = out@;
        assert forall|k: int| pos <= k < old_out.len() implies prios@[#[trigger] old_out[k] as int]
            < p by {
            if pos < old_out.len() {
                assert(prios@[old_out[pos as int] as int] < p);
                if k > pos {
                    assert(prios@[old_out[pos as int] as int] >= prios@[old_out[k] as int]);
                }
            }
        }
        out.insert(pos, i);
        proof {
            assert forall|k: int| 0 <= k < i + 1 implies #[trigger] out@[k] < i + 1 by {
                if k < pos {
                    assert(out@[k] == old_out[k]);
                } else if k > pos {
                    assert(out@[k] == old_out[k - 1]);
                }
            }
            assert forall|a: int, b: int| 0 <= a < b < i + 1 implies out@[a] != out@[b] by {
                if a < pos && b < pos {
                    assert(out@[a] == old_out[a] && out@[b] == old_out[b]);
                } else if a < pos && b == pos {
                    assert(out@[a] == old_out[a]);
                } else if a < pos && b > pos {
                    assert(out@[a] == old_out[a] && out@[b] == old_out[b - 1]);
                } else if a == pos {
                    assert(out@[b] == old_out[b - 1]);
                } else {
                    assert(out@[a] == old_out[a - 1] && out@[b] == old_out[b - 1]);
                }
            }
            assert forall|a: int, b: int| 0 <= a < b < i + 1 implies prios@[out@[a] as int]
                >= prios@[out@[b] as int] by {
                if a < pos && b < pos {
                    assert(out@[a] == old_out[a] && out@[b] == old_out[b]);
                } else if a < pos && b == pos {
                    assert(out@[a] == old_out[a]);
                } else if a < pos && b > pos {
                    assert(out@[a] == old_out[a] && out@[b] == old_out[b - 1]);
                } else if a == pos {
                    assert(out@[b] == old_out[b - 1]);
                } else {
                    assert(out@[a] == old_out[a - 1] && out@[b] == old_out[b - 1]);
                }
            }
            assert forall|a: int, b: int|
                0 <= a < b < i + 1 && prios@[out@[a] as int] == prios@[out@[b] as int] implies out@[a]
                < out@[b] by {
                if a < pos && b < pos {
                    assert(out@[a] == old_out[a] && out@[b] == old_out[b]);
                } else if a < pos && b == pos {
                    assert(out@[a] == old_out[a]);
                } else if a < pos && b > pos {
                    assert(out@[a] == old_out[a] && out@[b] == old_out[b - 1]);
                } else if a == pos {
                    assert(out@[b] == old_out[b - 1]);
                } else {
                    assert(out@[a] == old_out[a - 1] && out@[b] == old_out[b - 1]);
                }
            }
        }
        i = i + 1;
    }
    out
}

/// What one modifying handler did.
pub enum HandlerOutcome<T> {
    /// Go on with this value.
    Continue(T),
    /// Stop the pipeline for this reason.
    Cancel(String),
    /// The handler panicked.
    Panicked,
}

/// One step of a modifying pipeline: a handler's new value replaces the current one, a
/// cancellation ends the pipeline, and a handler that panicked leaves the value as it was.
pub fn pipeline_step<T>(current: T, outcome: HandlerOutcome<T>) -> (r: HookResult<T>)
    ensures
        match outcome {
            HandlerOutcome::Continue(v) => r == HookResult::<T>::Continue(v),
            HandlerOutcome::Cancel(reason) => r == HookResult::<T>::Cancel(reason),
            HandlerOutcome::Panicked => r == HookResult::<T>::Continue(current),
        },
{
    match outcome {
        HandlerOutcome::Continue(v) => HookResult::Continue(v),
        HandlerOutcome::Cancel(reason) => HookResult::Cancel(reason),
        HandlerOutcome::Panicked => HookResult::Continue(current),
    }
}

/// What a modifying step gives: the handler's value, the cancellation, or the current value
/// where the handler panicked.
pub open spec fn step_result<T>(current: T, outcome: HandlerOutcome<T>) -> HookResult<T> {
    match outcome {
        HandlerOutcome::Continue(v) => HookResult::Continue(v),
        HandlerOutcome::Cancel(reason) => HookResult::Cancel(reason),
        HandlerOutcome::Panicked => HookResult::Continue(current),
    }
}

/// A modifying event being dispatched: the handlers run one at a time, highest priority
/// first, each on the value the previous one passed on; the first cancellation ends the run.
pub struct ModifyingPipeline<T> {
    order: Vec<usize>,
    pos: usize,
    result: HookResult<T>,
}

impl<T> ModifyingPipeline<T> {
    /// The handlers, by index, in the order they run.
    pub closed spec fn order(self) -> Seq<usize> {
        self.order@
    }

    /// How many handlers have run.
    pub closed spec fn position(self) -> nat {
        self.pos as nat
    }

    /// The outcome so far.
    pub closed spec fn result(self) -> HookResult<T> {
        self.result
    }

    /// Starts dispatching `initial` to handlers of the given priorities (see
    /// `dispatch_order`).
    pub fn start(prios: &Vec<i32>, initial: T) -> (p: Self)
        ensures
            priority_order(prios@, p.order()),
            p.position() == 0,
            p.result() == HookResult::<T>::Continue(initial),
    {
        ModifyingPipeline { order: dispatch_order(prios), pos: 0, result: HookResult::Continue(initial) }
    }

    /// The handler to run next: the next one in order, or none once all have run or one
    /// cancelled.
    pub fn next_handler(&self) -> (r: Option<usize>)
        ensures
            r == (if self.result() is Continue && self.position() < self.order().len() {
                Some(self.order()[self.position() as int])
            } else {
                None::<usize>
            }),
    {
        match &self.result {
            HookResult::Continue(_) => if self.pos < self.order.len() {
                Some(self.order[self.pos])
            } else {
                None
            },
            HookResult::Cancel(_) => None,
        }
    }

    /// Records what the handler `next_handler` named did.
    pub fn feed(self, outcome: HandlerOutcome<T>) -> (p: Self)
        requires
            self.result() is Continue,
            self.position() < self.order().len(),
        ensures
            p.order() == self.order(),
            p.position() == self.position() + 1,
            p.result() == (match self.result() {
                HookResult::Continue(v) => step_result(v, outcome),
                HookResult::Cancel(reason) => HookResult::Cancel(reason),
            }),
    {
        let ModifyingPipeline { order, pos, result } = self;
        let n = order.len();
        assert(pos < n);
        let next = match result {
            HookResult::Continue(v) => pipeline_step(v, outcome),
            HookResult::Cancel(reason) => HookResult::Cancel(reason),
        };
        ModifyingPipeline { order, pos: pos + 1, result: next }
    }

    /// The outcome of the dispatch.
    pub fn finish(self) -> (r: HookResult<T>)
        ensures
            r == self.result(),
    {
        self.result
    }
}

} // verus!
