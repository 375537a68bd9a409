//! Reassembly of events that the server splits over several data frames.
use vstd::prelude::*;
use crate::text::str_eq;

verus! {

/// The fragments received so far of one message, and when its slots were laid out.
pub struct FragEntry {
    pub message_id: String,
    pub slots: Vec<Option<Vec<u8>>>,
    pub created_ns: u64,
}

/// The bytes of each slot, where it arrived.
pub open spec fn slot_views(s: Seq<Option<Vec<u8>>>) -> Seq<Option<Seq<u8>>> {
    s.map_values(
        |o: Option<Vec<u8>>|
            match o {
                Some(b) => Some(b@),
                None => None,
            },
    )
}

/// The bytes of an optional buffer.
pub open spec fn opt_bytes(o: Option<Vec<u8>>) -> Option<Seq<u8>> {
    match o {
        Some(b) => Some(b@),
        None => None,
    }
}

/// The slots and the creation time of an entry.
pub open spec fn entry_view(e: FragEntry) -> (Seq<Option<Seq<u8>>>, u64) {
    (slot_views(e.slots@), e.created_ns)
}

/// What the entries hold for `id` (the last entry with that id).
pub open spec fn pending_in(es: Seq<FragEntry>, id: Seq<char>) -> Option<(Seq<Option<Seq<u8>>>, u64)>
    decreases es.len(),
{
    if es.len() == 0 {
        None
    } else if es.last().message_id@ == id {
        Some(entry_view(es.last()))
    } else {
        pending_in(es.drop_last(), id)
    }
}

/// Whether no message id occurs twice.
pub open spec fn distinct_ids(es: Seq<FragEntry>) -> bool {
    forall|i: int, j: int|
        0 <= i < j < es.len() ==> #[trigger] es[i].message_id@ != #[trigger] es[j].message_id@
}

/// Whether no id of `a` occurs in `b`.
pub open spec fn disjoint_ids(a: Seq<FragEntry>, b: Seq<FragEntry>) -> bool {
    forall|i: int, j: int|
        0 <= i < a.len() && 0 <= j < b.len() ==> #[trigger] a[i].message_id@
            != #[trigger] b[j].message_id@
}

/// `n` empty slots.
pub open spec fn empty_slots(n: nat) -> Seq<Option<Seq<u8>>> {
    Seq::new(n, |k: int| None)
}

/// Whether every slot has arrived.
pub open spec fn all_filled(s: Seq<Option<Seq<u8>>>) -> bool {
    forall|k: int| 0 <= k < s.len() ==> #[trigger] s[k] is Some
}

/// The slots' bytes, concatenated in slot order.
pub open spec fn joined(s: Seq<Option<Seq<u8>>>) -> Seq<u8>
    decreases s.len(),
{
    if s.len() == 0 {
        Seq::empty()
    } else {
        joined(s.drop_last()) + match s.last() {
            Some(b) => b,
            None => Seq::empty(),
        }
    }
}

/// What one data frame does: given what was pending for its message, the new pending state
/// of that message and the complete payload, if any. A frame that is the only one of its
/// message, has no message id, or has an index past the count is complete by itself. Else
/// its payload fills its slot (the slots are laid out afresh at `now` when none exist or
/// their count differs), and the message is complete once every slot is filled.
pub open spec fn accept_outcome(
    prev: Option<(Seq<Option<Seq<u8>>>, u64)>,
    anonymous: bool,
    sum: usize,
    seq: usize,
    payload: Option<Seq<u8>>,
    now: u64,
) -> (Option<(Seq<Option<Seq<u8>>>, u64)>, Option<Seq<u8>>) {
    let total: nat = if sum == 0 {
        1
    } else {
        sum as nat
    };
    if total == 1 || anonymous || seq >= total {
        (
            prev,
            Some(
                match payload {
                    Some(p) => p,
                    None => Seq::empty(),
                },
            ),
        )
    } else {
        let base = match prev {
            Some(e) => if e.0.len() == total {
                e
            } else {
                (empty_slots(total), now)
            },
            None => (empty_slots(total), now),
        };
        let slots = base.0.update(seq as int, payload);
        if all_filled(slots) {
            (None, Some(joined(slots)))
        } else {
            (Some((slots, base.1)), None)
        }
    }
}

/// Whether an entry created at `created` outlives the cutoff (`None`: before every entry).
pub open spec fn fresh(created: u64, cutoff: Option<u64>) -> bool {
    match cutoff {
        Some(c) => created > c,
        None => true,
    }
}

proof fn lemma_pending_none(es: Seq<FragEntry>, id: Seq<char>)
    requires
        forall|i: int| 0 <= i < es.len() ==> (#[trigger] es[i]).message_id@ != id,
    ensures
        pending_in(es, id) is None,
    decreases es.len(),
{
    if es.len() > 0 {
        assert(es.last() == es[es.len() - 1]);
        lemma_pending_none(es.drop_last(), id);
    }
}

/// The fragments of messages not yet complete. No message id occurs twice.
pub struct FragmentCache {
    entries: Vec<FragEntry>,
}

/// `n` empty slots, as a vector.
fn empty_slot_vec(n: usize) -> (r: Vec<Option<Vec<u8>>>)
    ensures
        slot_views(r@) == empty_slots(n as nat),
{
    let mut r: Vec<Option<Vec<u8>>> = Vec::new();
    let mut i: usize = 0;
    while i < n
        invariant
            i <= n,
            r@.len() == i,
            slot_views(r@) == empty_slots(i as nat),
        decreases n - i,
    {
        let ghost before = r@;
        r.push(None);
        assert forall|k: int| 0 <= k < i + 1 implies slot_views(r@)[k] == empty_slots(
            (i + 1) as nat,
        )[k] by {
            if k < i {
                assert(r@[k] == before[k]);
                assert(slot_views(before)[k] == empty_slots(i as nat)[k]);
            }
        }
        assert(slot_views(r@) =~= empty_slots((i + 1) as nat));
        i = i + 1;
    }
    r
}

/// Whether every slot has arrived.
fn slots_filled(s: &Vec<Option<Vec<u8>>>) -> (r: bool)
    ensures
        r == all_filled(slot_views(s@)),
{
    let mut i: usize = 0;
    while i < s.len()
        invariant
            i <= s.len(),
            forall|k: int| 0 <= k < i ==> #[trigger] slot_views(s@)[k] is Some,
        decreases s.len() - i,
    {
        if s[i].is_none() {
            assert(slot_views(s@)[i as int] is None);
            return false;
        }
        i = i + 1;
    }
    true
}

/// The slots' bytes, concatenated in slot order.
fn join_slots(s: &Vec<Option<Vec<u8>>>) -> (r: Vec<u8>)
    ensures
        r@ == joined(slot_views(s@)),
{
    let mut out: Vec<u8> = Vec::new();
    let mut i: usize = 0;
    assert(slot_views(s@).take(0) =~= Seq::<Option<Seq<u8>>>::empty());
    while i < s.len()
        invariant
            i <= s.len(),
            out@ == joined(slot_views(s@).take(i as int)),
        decreases s.len() - i,
    {
        let ghost before = out@;
        match &s[i] {
            Some(b) => {
                let mut j: usize = 0;
                while j < b.len()
                    invariant
                        j <= b.len(),
                        out@ == before + b@.take(j as int),
                    decreases b.len() - j,
                {
                    out.push(b[j]);
                    assert(out@ =~= before + b@.take(j + 1));
                    j = j + 1;
                }
                assert(b@.take(b@.len() as int) =~= b@);
            },
            None => {
                assert(before + Seq::<u8>::empty() =~= before);
            },
        }
        assert(slot_views(s@).take(i + 1).drop_last() =~= slot_views(s@).take(i as int));
        i = i + 1;
    }
    assert(slot_views(s@).take(s@.len() as int) =~= slot_views(s@));
    out
}

/// Takes the entry of `id` out of `es`: the other entries (in some order) and the entry.
fn take_entry(es: Vec<FragEntry>, id: &str) -> (r: (Vec<FragEntry>, Option<FragEntry>))
    requires
        distinct_ids(es@),
    ensures
        distinct_ids(r.0@),
        forall|j: int| 0 <= j < r.0@.len() ==> (#[trigger] r.0@[j]).message_id@ != id@,
        forall|k: Seq<char>| k != id@ ==> pending_in(r.0@, k) == pending_in(es@, k),
        match r.1 {
            Some(e) => e.message_id@ == id@ && pending_in(es@, id@) == Some(entry_view(e)),
            None => pending_in(es@, id@) is None,
        },
{
    let ghost orig = es@;
    let mut rem = es;
    let mut rest: Vec<FragEntry> = Vec::new();
    let mut found: Option<FragEntry> = None;
    while rem.len() > 0
        invariant
            distinct_ids(rem@),
            distinct_ids(rest@),
            disjoint_ids(rem@, rest@),
            forall|j: int| 0 <= j < rest@.len() ==> (#[trigger] rest@[j]).message_id@ != id@,
            forall|k: Seq<char>|
                k != id@ ==> pending_in(orig, k) == match pending_in(rem@, k) {
                    Some(v) => Some(v),
                    None => pending_in(rest@, k),
                },
            match found {
                Some(f) => f.message_id@ == id@ && pending_in(orig, id@) == Some(entry_view(f))
                    && forall|j: int| 0 <= j < rem@.len() ==> (#[trigger] rem@[j]).message_id@ != id@,
                None => pending_in(orig, id@) == pending_in(rem@, id@),
            },
        decreases rem.len(),
    {
        let ghost before = rem@;
        let ghost rest_before = rest@;
        let e = rem.pop().unwrap();
        assert(before.last() == e);
        assert(rem@ =~= before.drop_last());
        proof {
            assert forall|j: int| 0 <= j < rem@.len() implies (#[trigger] rem@[j]).message_id@
                != e.message_id@ by {
                assert(before[j] == rem@[j]);
                assert(before[before.len() - 1] == e);
            }
            lemma_pending_none(rem@, e.message_id@);
        }
        if str_eq(e.message_id.as_str(), id) {
            proof {
                if found is Some {
                    assert(before[before.len() - 1].message_id@ == id@);
                }
            }
            found = Some(e);
        } else {
            rest.push(e);
            proof {
                assert(rest@.drop_last() =~= rest_before);
                assert forall|a: int, b: int| 0 <= a < rem@.len() && 0 <= b < rest@.len() implies #[trigger] rem@[a].message_id@
                    != #[trigger] rest@[b].message_id@ by {
                    assert(before[a] == rem@[a]);
                    if b < rest_before.len() {
                        assert(rest_before[b] == rest@[b]);
                    }
                }
                assert forall|a: int, b: int| 0 <= a < b < rest@.len() implies #[trigger] rest@[a].message_id@
                    != #[trigger] rest@[b].message_id@ by {
                    if b == rest_before.len() {
                        assert(rest_before[a] == rest@[a]);
                        assert(before[before.len() - 1] == e);
                    } else {
                        assert(rest_before[a] == rest@[a] && rest_before[b] == rest@[b]);
                    }
                }
                assert forall|j: int| 0 <= j < rest@.len() implies (#[trigger] rest@[j]).message_id@
                    != id@ by {
                    if j < rest_before.len() {
                        assert(rest_before[j] == rest@[j]);
                    }
                }
            }
        }
        proof {
            assert forall|a: int, b: int| 0 <= a < b < rem@.len() implies #[trigger] rem@[a].message_id@
                != #[trigger] rem@[b].message_id@ by {
                assert(before[a] == rem@[a] && before[b] == rem@[b]);
            }
        }
    }
    proof {
        assert forall|k: Seq<char>| k != id@ implies pending_in(rest@, k) == pending_in(orig, k) by {
            assert(pending_in(rem@, k) is None);
        }
        lemma_pending_none(rest@, id@);
    }
    (rest, found)
}

impl FragmentCache {
    #[verifier::type_invariant]
    spec fn inv(self) -> bool {
        distinct_ids(self.entries@)
    }

    /// What is pending for the message `id`: its slots and when they were laid out.
    pub closed spec fn pending(self, id: Seq<char>) -> Option<(Seq<Option<Seq<u8>>>, u64)> {
        pending_in(self.entries@, id)
    }

    /// Nothing pending.
    pub fn new() -> (c: FragmentCache)
        ensures
            forall|id: Seq<char>| #[trigger] c.pending(id) is None,
    {
        FragmentCache { entries: Vec::new() }
    }

    /// Takes one data frame of message `msg_id`: fragment `seq_num` of `sum`, carrying
    /// `payload`, received at `now_ns`. Returns the complete payload once there is one.
    /// Other messages are untouched.
    pub fn accept(
        &mut self,
        msg_id: &str,
        sum: usize,
        seq_num: usize,
        payload: Option<Vec<u8>>,
        now_ns: u64,
    ) -> (r: Option<Vec<u8>>)
        ensures
            forall|k: Seq<char>| k != msg_id@ ==> #[trigger] final(self).pending(k) == old(self).pending(k),
            (final(self).pending(msg_id@), opt_bytes(r)) == accept_outcome(
                old(self).pending(msg_id@),
                msg_id@.len() == 0,
                sum,
                seq_num,
                opt_bytes(payload),
                now_ns,
            ),
    {
        let total: usize = if sum == 0 {
            1
        } else {
            sum
        };
        if total == 1 || msg_id.is_empty() || seq_num >= total {
            let whole = match payload {
                Some(p) => p,
                None => Vec::new(),
            };
            assert(whole@ == match opt_bytes(payload) {
                Some(p) => p,
                None => Seq::<u8>::empty(),
            });
            return Some(whole);
        }
        proof {
            use_type_invariant(&*self);
        }
        let ghost prev = self.pending(msg_id@);
        let mut es: Vec<FragEntry> = Vec::new();
        std::mem::swap(&mut es, &mut self.entries);
        let (mut rest, taken) = take_entry(es, msg_id);
        let mut entry = match taken {
            Some(e) => if e.slots.len() == total {
                e
            } else {
                FragEntry {
                    message_id: msg_id.to_owned(),
                    slots: empty_slot_vec(total),
                    created_ns: now_ns,
                }
            },
            None => FragEntry {
                message_id: msg_id.to_owned(),
                slots: empty_slot_vec(total),
                created_ns: now_ns,
            },
        };
        let ghost base = entry_view(entry);
        assert(base == match prev {
            Some(e) => if e.0.len() == total as nat {
                e
            } else {
                (empty_slots(total as nat), now_ns)
            },
            None => (empty_slots(total as nat), now_ns),
        });
        let ghost pv = opt_bytes(payload);
        entry.slots.set(seq_num, payload);
        assert(slot_views(entry.slots@) =~= base.0.update(seq_num as int, pv));
        if slots_filled(&entry.slots) {
            let full = join_slots(&entry.slots);
            self.entries = rest;
            proof {
                lemma_pending_none(rest@, msg_id@);
            }
            Some(full)
        } else {
            let ghost before = rest@;
            rest.push(entry);
            proof {
                assert(rest@.drop_last() =~= before);
                assert forall|a: int, b: int| 0 <= a < b < rest@.len() implies #[trigger] rest@[a].message_id@
                    != #[trigger] rest@[b].message_id@ by {
                    assert(before[a] == rest@[a]);
                    if b < before.len() {
                        assert(before[b] == rest@[b]);
                    }
                }
            }
            self.entries = rest;
            None
        }
    }

    /// Drops the messages whose slots were laid out at or before `cutoff_ns` (`None`: keeps
    /// everything).
    pub fn retain_fresh(&mut self, cutoff_ns: Option<u64>)
        ensures
            forall|k: Seq<char>|
                #[trigger] final(self).pending(k) == match old(self).pending(k) {
                    Some(v) => if fresh(v.1, cutoff_ns) {
                        Some(v)
                    } else {
                        None
                    },
                    None => None,
                },
    {
        proof {
            use_type_invariant(&*self);
        }
        let ghost orig = self.entries@;
        let mut rem: Vec<FragEntry> = Vec::new();
        std::mem::swap(&mut rem, &mut self.entries);
        let mut kept: Vec<FragEntry> = Vec::new();
        while rem.len() > 0
            invariant
                distinct_ids(rem@),
                distinct_ids(kept@),
                disjoint_ids(rem@, kept@),
                forall|k: Seq<char>|
                    (match pending_in(orig, k) {
                        Some(v) => if fresh(v.1, cutoff_ns) {
                            Some(v)
                        } else {
                            None
                        },
                        None => None,
                    }) == match #[trigger] pending_in(rem@, k) {
                        Some(v) => if fresh(v.1, cutoff_ns) {
                            Some(v)
                        } else {
                            None
                        },
                        None => pending_in(kept@, k),
                    },
            decreases rem.len(),
        {
            let ghost before = rem@;
            let ghost kept_before = kept@;
            let e = rem.pop().unwrap();
            assert(before.last() == e);
            assert(rem@ =~= before.drop_last());
            proof {
                assert forall|j: int| 0 <= j < rem@.len() implies (#[trigger] rem@[j]).message_id@
                    != e.message_id@ by {
                    assert(before[j] == rem@[j]);
                    assert(before[before.len() - 1] == e);
                }
                lemma_pending_none(rem@, e.message_id@);
                assert forall|j: int| 0 <= j < kept@.len() implies (#[trigger] kept@[j]).message_id@
                    != e.message_id@ by {
                    assert(before[before.len() - 1] == e);
                }
                lemma_pending_none(kept@, e.message_id@);
                assert forall|a: int, b: int| 0 <= a < b < rem@.len() implies #[trigger] rem@[a].message_id@
                    != #[trigger] rem@[b].message_id@ by {
                    assert(before[a] == rem@[a] && before[b] == rem@[b]);
                }
            }
            let keep = match cutoff_ns {
                Some(c) => e.created_ns > c,
                None => true,
            };
            let ghost eid = e.message_id@;
            let ghost ev = entry_view(e);
            assert(pending_in(before, eid) == Some(ev));
            assert forall|k: Seq<char>| k != eid implies pending_in(before, k) == pending_in(
                rem@,
                k,
            ) by {}
            if keep {
                kept.push(e);
                proof {
                    assert(kept@.drop_last() =~= kept_before);
                    assert forall|a: int, b: int| 0 <= a < rem@.len() && 0 <= b < kept@.len() implies #[trigger] rem@[a].message_id@
                        != #[trigger] kept@[b].message_id@ by {
                        assert(before[a] == rem@[a]);
                        if b < kept_before.len() {
                            assert(kept_before[b] == kept@[b]);
                        }
                    }
                    assert forall|a: int, b: int| 0 <= a < b < kept@.len() implies #[trigger] kept@[a].message_id@
                        != #[trigger] kept@[b].message_id@ by {
                        if b == kept_before.len() {
                            assert(kept_before[a] == kept@[a]);
                        } else {
                            assert(kept_before[a] == kept@[a] && kept_before[b] == kept@[b]);
                        }
                    }
                }
            } else {
                proof {
                    assert forall|a: int, b: int| 0 <= a < rem@.len() && 0 <= b < kept@.len() implies #[trigger] rem@[a].message_id@
                        != #[trigger] kept@[b].message_id@ by {
                        assert(before[a] == rem@[a]);
                    }
                }
            }
            proof {
                if keep {
                    assert(kept@.drop_last() =~= kept_before);
                }
                assert forall|k: Seq<char>|
                    (match pending_in(orig, k) {
                        Some(v) => if fresh(v.1, cutoff_ns) {
                            Some(v)
                        } else {
                            None
                        },
                        None => None,
                    }) == match #[trigger] pending_in(rem@, k) {
                        Some(v) => if fresh(v.1, cutoff_ns) {
                            Some(v)
                        } else {
                            None
                        },
                        None => pending_in(kept@, k),
                    } by {
                    let old_side = match pending_in(before, k) {
                        Some(v) => if fresh(v.1, cutoff_ns) {
                            Some(v)
                        } else {
                            None
                        },
                        None => pending_in(kept_before, k),
                    };
                    if k != eid {
                        assert(pending_in(kept@, k) == pending_in(kept_before, k));
                        assert(pending_in(before, k) == pending_in(rem@, k));
                    } else {
                        assert(pending_in(rem@, k) is None);
                        assert(ev.1 == e.created_ns);
                        if keep {
                            assert(pending_in(kept@, k) == Some(ev));
                        } else {
                            assert(pending_in(kept@, k) is None);
                        }
                    }
                }
            }
        }
        proof {
            assert forall|k: Seq<char>| #[trigger] pending_in(kept@, k) == match pending_in(orig, k) {
                Some(v) => if fresh(v.1, cutoff_ns) {
                    Some(v)
                } else {
                    None
                },
                None => None,
            } by {
                assert(pending_in(rem@, k) is None);
            }
        }
        self.entries = kept;
    }
}

} // verus!
