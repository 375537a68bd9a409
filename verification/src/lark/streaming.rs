//! Streaming replies through CardKit cards: each card's update sequence number and when it
//! was last updated, so that updates go out numbered in order and not too often.
use vstd::prelude::*;
use crate::text::str_eq;

verus! {

/// The shortest pause between two updates of one card, in milliseconds.
pub const MIN_DRAFT_UPDATE_INTERVAL_MS: u64 = 500;

/// What is known of one card: its last sequence number and when it was last updated (in
/// milliseconds of a monotonic clock); either may be unknown.
pub type CardState = (Option<u64>, Option<u64>);

/// What is known of the card `id`: the last entry for it decides.
pub open spec fn card_state(es: Seq<(Seq<char>, CardState)>, id: Seq<char>) -> CardState
    decreases es.len(),
{
    if es.len() == 0 {
        (None, None)
    } else if es.last().0 == id {
        es.last().1
    } else {
        card_state(es.drop_last(), id)
    }
}

/// The position of the last entry for `id`.
pub open spec fn last_entry(es: Seq<(Seq<char>, CardState)>, id: Seq<char>) -> Option<int>
    decreases es.len(),
{
    if es.len() == 0 {
        None
    } else if es.last().0 == id {
        Some(es.len() - 1)
    } else {
        last_entry(es.drop_last(), id)
    }
}

/// Rewriting the last entry for `id` changes what is known of `id` and nothing else.
proof fn lemma_update_last(es: Seq<(Seq<char>, CardState)>, id: Seq<char>, st: CardState)
    requires
        last_entry(es, id) is Some,
    ensures
        ({
            let k = last_entry(es, id)->0;
            &&& 0 <= k < es.len()
            &&& es[k].0 == id
            &&& card_state(es, id) == es[k].1
            &&& card_state(es.update(k, (id, st)), id) == st
            &&& forall|o: Seq<char>| o != id ==> card_state(es.update(k, (id, st)), o) == card_state(es, o)
        }),
    decreases es.len(),
{
    let k = last_entry(es, id)->0;
    let u = es.update(k, (id, st));
    if es.last().0 == id {
        assert(u.drop_last() =~= es.drop_last());
        assert(u.last() == (id, st));
        assert forall|o: Seq<char>| o != id implies card_state(u, o) == card_state(es, o) by {
            assert(card_state(u, o) == card_state(u.drop_last(), o));
        }
    } else {
        lemma_update_last(es.drop_last(), id, st);
        assert(u.drop_last() =~= es.drop_last().update(k, (id, st)));
        assert(u.last() == es.last());
        assert(es.drop_last()[k] == es[k]);
        assert forall|o: Seq<char>| o != id implies card_state(u, o) == card_state(es, o) by {
            if es.last().0 != o {
                assert(card_state(u, o) == card_state(u.drop_last(), o));
                assert(card_state(es.drop_last().update(k, (id, st)), o) == card_state(
                    es.drop_last(),
                    o,
                ));
                assert(card_state(es, o) == card_state(es.drop_last(), o));
            } else {
                assert(card_state(u, o) == u.last().1);
                assert(card_state(es, o) == es.last().1);
            }
        }
        assert(card_state(u, id) == card_state(u.drop_last(), id));
        assert(card_state(es, id) == card_state(es.drop_last(), id));
    }
}

/// With no entry for `id`, nothing is known of it.
proof fn lemma_no_entry(es: Seq<(Seq<char>, CardState)>, id: Seq<char>)
    requires
        last_entry(es, id) is None,
    ensures
        card_state(es, id) == (None::<u64>, None::<u64>),
    decreases es.len(),
{
    if es.len() > 0 {
        lemma_no_entry(es.drop_last(), id);
    }
}

/// The entries without those for `id`.
pub open spec fn without_card(es: Seq<(Seq<char>, CardState)>, id: Seq<char>) -> Seq<(Seq<char>, CardState)>
    decreases es.len(),
{
    if es.len() == 0 {
        Seq::empty()
    } else if es.last().0 == id {
        without_card(es.drop_last(), id)
    } else {
        without_card(es.drop_last(), id).push(es.last())
    }
}

/// Dropping the entries for `id` forgets `id` and nothing else.
proof fn lemma_without_card(es: Seq<(Seq<char>, CardState)>, id: Seq<char>, o: Seq<char>)
    ensures
        card_state(without_card(es, id), id) == (None::<u64>, None::<u64>),
        o != id ==> card_state(without_card(es, id), o) == card_state(es, o),
    decreases es.len(),
{
    if es.len() > 0 {
        lemma_without_card(es.drop_last(), id, o);
        if es.last().0 != id {
            assert(without_card(es, id).drop_last() =~= without_card(es.drop_last(), id));
        }
    }
}

/// The cards being streamed.
pub struct DraftCards {
    cards: Vec<(String, Option<u64>, Option<u64>)>,
}

impl DraftCards {
    /// The entries, in order.
    pub closed spec fn entries(self) -> Seq<(Seq<char>, CardState)> {
        self.cards@.map_values(|c: (String, Option<u64>, Option<u64>)| (c.0@, (c.1, c.2)))
    }

    /// What is known of the card `id`: its last sequence number and last update time.
    pub open spec fn state(self, id: Seq<char>) -> CardState {
        card_state(self.entries(), id)
    }

    /// No card known.
    pub fn new() -> (r: Self)
        ensures
            forall|id: Seq<char>| r.state(id) == (None::<u64>, None::<u64>),
    {
        let r = DraftCards { cards: Vec::new() };
        assert(r.entries() =~= Seq::<(Seq<char>, CardState)>::empty());
        r
    }

    /// The position of the last entry for `id`.
    fn find(&self, id: &str) -> (r: Option<usize>)
        ensures
            match r {
                Some(k) => last_entry(self.entries(), id@) == Some(k as int),
                None => last_entry(self.entries(), id@) is None,
            },
    {
        let ghost es = self.entries();
        let mut found: Option<usize> = None;
        let mut i: usize = 0;
        while i < self.cards.len()
            invariant
                i <= self.cards.len(),
                es == self.entries(),
                match found {
                    Some(k) => last_entry(es.take(i as int), id@) == Some(k as int),
                    None => last_entry(es.take(i as int), id@) is None,
                },
            decreases self.cards.len() - i,
        {
            assert(es.take(i + 1).drop_last() =~= es.take(i as int));
            if str_eq(self.cards[i].0.as_str(), id) {
                found = Some(i);
            }
            i = i + 1;
        }
        assert(es.take(es.len() as int) =~= es);
        found
    }

    /// Sets what is known of `id`, leaving every other card as it was.
    fn set(&mut self, id: &str, st: (Option<u64>, Option<u64>))
        ensures
            final(self).state(id@) == st,
            forall|o: Seq<char>| o != id@ ==> final(self).state(o) == old(self).state(o),
    {
        let ghost es = self.entries();
        match self.find(id) {
            Some(k) => {
                proof {
                    lemma_update_last(es, id@, st);
                }
                self.cards.set(k, (id.to_string(), st.0, st.1));
                assert(self.entries() =~= es.update(k as int, (id@, st)));
                assert(card_state(self.entries(), id@) == st);
            },
            None => {
                self.cards.push((id.to_string(), st.0, st.1));
                let ghost ne = self.entries();
                assert(ne =~= es.push((id@, st)));
                assert(ne.drop_last() =~= es);
                assert(card_state(ne, id@) == st);
                assert forall|o: Seq<char>| o != id@ implies card_state(ne, o) == card_state(es, o) by {
                    assert(card_state(ne, o) == card_state(ne.drop_last(), o));
                }
            },
        }
    }

    /// A card was sent: its sequence starts at 1 and it counts as updated at `now_ms`.
    pub fn start(&mut self, id: &str, now_ms: u64)
        ensures
            final(self).state(id@) == (Some(1u64), Some(now_ms)),
            forall|o: Seq<char>| o != id@ ==> final(self).state(o) == old(self).state(o),
    {
        self.set(id, (Some(1), Some(now_ms)));
    }

    /// Whether an update of `id` at `now_ms` comes too soon: the card was updated less than
    /// `interval_ms` (at least 500) milliseconds before.
    pub fn throttled(&self, id: &str, now_ms: u64, interval_ms: u64) -> (r: bool)
        ensures
            r == match self.state(id@).1 {
                Some(last) => (if now_ms >= last {
                    now_ms - last
                } else {
                    0
                }) < (if interval_ms >= MIN_DRAFT_UPDATE_INTERVAL_MS {
                    interval_ms
                } else {
                    MIN_DRAFT_UPDATE_INTERVAL_MS
                }),
                None => false,
            },
    {
        let ghost es = self.entries();
        let limit = if interval_ms >= MIN_DRAFT_UPDATE_INTERVAL_MS {
            interval_ms
        } else {
            MIN_DRAFT_UPDATE_INTERVAL_MS
        };
        match self.find(id) {
            Some(k) => {
                proof {
                    lemma_update_last(es, id@, (None, None));
                }
                assert(es[k as int] == (self.cards@[k as int].0@, (self.cards@[k as int].1, self.cards@[k as int].2)));
                match self.cards[k].2 {
                    Some(last) => {
                        let elapsed = if now_ms >= last {
                            now_ms - last
                        } else {
                            0
                        };
                        elapsed < limit
                    },
                    None => false,
                }
            },
            None => {
                proof {
                    lemma_no_entry(es, id@);
                }
                false
            },
        }
    }

    /// The sequence number of the next update of `id`: one past the last (which counts as
    /// 1 when unknown); it is recorded.
    pub fn next_sequence(&mut self, id: &str) -> (r: u64)
        requires
            match old(self).state(id@).0 {
                Some(s) => s < u64::MAX,
                None => true,
            },
        ensures
            r == match old(self).state(id@).0 {
                Some(s) => s + 1,
                None => 2,
            },
            final(self).state(id@) == (Some(r), old(self).state(id@).1),
            forall|o: Seq<char>| o != id@ ==> final(self).state(o) == old(self).state(o),
    {
        let ghost es = self.entries();
        let cur = match self.find(id) {
            Some(k) => {
                proof {
                    lemma_update_last(es, id@, (None, None));
                }
                assert(es[k as int] == (self.cards@[k as int].0@, (self.cards@[k as int].1, self.cards@[k as int].2)));
                (self.cards[k].1, self.cards[k].2)
            },
            None => {
                proof {
                    lemma_no_entry(es, id@);
                }
                (None, None)
            },
        };
        assert(cur == old(self).state(id@));
        let seq = match cur.0 {
            Some(s) => s + 1,
            None => 2,
        };
        self.set(id, (Some(seq), cur.1));
        seq
    }

    /// An update of `id` went out at `now_ms`.
    pub fn record_update(&mut self, id: &str, now_ms: u64)
        ensures
            final(self).state(id@) == (old(self).state(id@).0, Some(now_ms)),
            forall|o: Seq<char>| o != id@ ==> final(self).state(o) == old(self).state(o),
    {
        let ghost es = self.entries();
        let seq = match self.find(id) {
            Some(k) => {
                proof {
                    lemma_update_last(es, id@, (None, None));
                }
                assert(es[k as int] == (self.cards@[k as int].0@, (self.cards@[k as int].1, self.cards@[k as int].2)));
                self.cards[k].1
            },
            None => {
                proof {
                    lemma_no_entry(es, id@);
                }
                None
            },
        };
        self.set(id, (seq, Some(now_ms)));
    }

    /// The card `id` is finished or cancelled: it is forgotten.
    pub fn forget(&mut self, id: &str)
        ensures
            final(self).state(id@) == (None::<u64>, None::<u64>),
            forall|o: Seq<char>| o != id@ ==> final(self).state(o) == old(self).state(o),
    {
        let ghost es = self.entries();
        let mut kept: Vec<(String, Option<u64>, Option<u64>)> = Vec::new();
        let mut i: usize = 0;
        while i < self.cards.len()
            invariant
                i <= self.cards.len(),
                es == self.entries(),
                kept@.map_values(|c: (String, Option<u64>, Option<u64>)| (c.0@, (c.1, c.2)))
                    == without_card(es.take(i as int), id@),
            decreases self.cards.len() - i,
        {
            let ghost before = kept@.map_values(
                |c: (String, Option<u64>, Option<u64>)| (c.0@, (c.1, c.2)),
            );
            assert(es.take(i + 1).drop_last() =~= es.take(i as int));
            if !str_eq(self.cards[i].0.as_str(), id) {
                let c = (self.cards[i].0.clone(), self.cards[i].1, self.cards[i].2);
                kept.push(c);
                assert(kept@.map_values(|c: (String, Option<u64>, Option<u64>)| (c.0@, (c.1, c.2)))
                    =~= before.push(es[i as int]));
            }
            i = i + 1;
        }
        assert(es.take(es.len() as int) =~= es);
        self.cards = kept;
        proof {
            assert forall|o: Seq<char>| o != id@ implies self.state(o) == card_state(es, o) by {
                lemma_without_card(es, id@, o);
            }
            lemma_without_card(es, id@, id@);
        }
    }
}

/// Whether the channel streams replies as draft cards (`streaming` is the configured mode
/// not being off).
pub fn supports_draft_updates(streaming: bool) -> (r: bool)
    ensures
        r == streaming,
{
    streaming
}

/// The text a draft card opens with: the reply so far, or `...` while it is empty.
pub fn draft_initial_text(content: &str) -> (r: String)
    ensures
        r@ == if content@.len() == 0 {
            "..."@
        } else {
            content@
        },
{
    if content.is_empty() {
        "...".to_string()
    } else {
        content.to_string()
    }
}

} // verus!
