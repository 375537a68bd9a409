//! Messages that arrive over the long connection: which are admitted, duplicate suppression,
//! and the bounded buffer that holds messages the agent could not take yet.
use std::collections::VecDeque;
use vstd::prelude::*;
use crate::json::JsonValue;
use crate::lark::event::{
    attachment_type, is_attachment_type, is_user_allowed, mentions_bot, message_text, should_respond_in_group, user_allowed,
    ChannelMessage,
};
use crate::lark::{strip_at_placeholders, strip_placeholders};
use crate::text::{chars_of, str_eq, string_of_range, trim, trim_range};

verus! {

/// How long a message id is remembered, in nanoseconds: thirty minutes.
pub const SEEN_WINDOW_NS: u64 = 1_800_000_000_000;

/// The entries still inside the window at `now`, in order.
pub open spec fn recent(es: Seq<(Seq<char>, u64)>, now: u64) -> Seq<(Seq<char>, u64)>
    decreases es.len(),
{
    if es.len() == 0 {
        Seq::empty()
    } else {
        let age: int = if now >= es.last().1 {
            now - es.last().1
        } else {
            0
        };
        recent(es.drop_last(), now) + if age < SEEN_WINDOW_NS {
            seq![es.last()]
        } else {
            Seq::empty()
        }
    }
}

/// Whether `id` is among the entries.
pub open spec fn seen_id(es: Seq<(Seq<char>, u64)>, id: Seq<char>) -> bool {
    exists|k: int| 0 <= k < es.len() && #[trigger] es[k].0 == id
}

/// The message ids seen lately, with when each was first seen.
pub struct RecentIds {
    entries: Vec<(String, u64)>,
}

impl RecentIds {
    /// The remembered ids and times, oldest first.
    pub closed spec fn entries(self) -> Seq<(Seq<char>, u64)> {
        self.entries@.map_values(|e: (String, u64)| (e.0@, e.1))
    }

    /// Nothing remembered.
    pub fn new() -> (r: Self)
        ensures
            r.entries().len() == 0,
    {
        let r = RecentIds { entries: Vec::new() };
        assert(r.entries() =~= Seq::<(Seq<char>, u64)>::empty());
        r
    }

    /// Forgets ids older than the window at `now_ns`, then records `id` unless it is still
    /// remembered. Returns whether `id` is new.
    pub fn insert_if_new(&mut self, id: &str, now_ns: u64) -> (r: bool)
        ensures
            r == !seen_id(recent(old(self).entries(), now_ns), id@),
            final(self).entries() == if r {
                recent(old(self).entries(), now_ns).push((id@, now_ns))
            } else {
                recent(old(self).entries(), now_ns)
            },
    {
        let ghost orig = self.entries();
        let mut kept: Vec<(String, u64)> = Vec::new();
        let mut i: usize = 0;
        assert(orig.take(0) =~= Seq::<(Seq<char>, u64)>::empty());
        while i < self.entries.len()
            invariant
                i <= self.entries.len(),
                orig == self.entries@.map_values(|e: (String, u64)| (e.0@, e.1)),
                kept@.map_values(|e: (String, u64)| (e.0@, e.1)) == recent(orig.take(i as int), now_ns),
            decreases self.entries.len() - i,
        {
            let t = self.entries[i].1;
            let age: u64 = if now_ns >= t {
                now_ns - t
            } else {
                0
            };
            let ghost before = kept@.map_values(|e: (String, u64)| (e.0@, e.1));
            assert(orig.take(i + 1).drop_last() =~= orig.take(i as int));
            assert(orig.take(i + 1).last() == orig[i as int]);
            if age < SEEN_WINDOW_NS {
                kept.push((self.entries[i].0.clone(), t));
                assert(kept@.map_values(|e: (String, u64)| (e.0@, e.1)) =~= before.push(orig[i as int]));
            } else {
                assert(recent(orig.take(i + 1), now_ns) =~= before);
            }
            i = i + 1;
        }
        assert(orig.take(orig.len() as int) =~= orig);
        let ghost fresh = kept@.map_values(|e: (String, u64)| (e.0@, e.1));
        let mut j: usize = 0;
        let mut dup = false;
        while j < kept.len()
            invariant
                j <= kept.len(),
                fresh == kept@.map_values(|e: (String, u64)| (e.0@, e.1)),
                dup == exists|k: int| 0 <= k < j && #[trigger] fresh[k].0 == id@,
            decreases kept.len() - j,
        {
            assert(fresh[j as int].0 == kept@[j as int].0@);
            if str_eq(kept[j].0.as_str(), id) {
                dup = true;
            }
            j = j + 1;
        }
        if !dup {
            kept.push((id.to_owned(), now_ns));
            assert(kept@.map_values(|e: (String, u64)| (e.0@, e.1)) =~= fresh.push((id@, now_ns)));
        }
        self.entries = kept;
        !dup
    }
}

/// Messages waiting for room in the agent's queue: at most this many.
pub const OVERFLOW_CAP: usize = 20;

/// Messages that could not be handed to the agent yet, oldest first, at most `OVERFLOW_CAP`.
pub struct OverflowBuffer {
    queue: VecDeque<ChannelMessage>,
}

impl OverflowBuffer {
    #[verifier::type_invariant]
    spec fn inv(self) -> bool {
        self.queue@.len() <= OVERFLOW_CAP
    }

    /// The waiting messages, oldest first.
    pub closed spec fn messages(self) -> Seq<ChannelMessage> {
        self.queue@
    }

    /// An empty buffer.
    pub fn new() -> (r: Self)
        ensures
            r.messages().len() == 0,
    {
        OverflowBuffer { queue: VecDeque::new() }
    }

    /// The number of waiting messages; never more than `OVERFLOW_CAP`.
    pub fn len(&self) -> (n: usize)
        ensures
            n == self.messages().len(),
            n <= OVERFLOW_CAP,
    {
        proof {
            use_type_invariant(self);
        }
        self.queue.len()
    }

    /// Queues a message; when the buffer is full the oldest message is dropped first.
    /// Returns whether one was dropped.
    pub fn push(&mut self, msg: ChannelMessage) -> (dropped: bool)
        ensures
            dropped == (old(self).messages().len() == OVERFLOW_CAP),
            final(self).messages() == if dropped {
                old(self).messages().drop_first().push(msg)
            } else {
                old(self).messages().push(msg)
            },
    {
        proof {
            use_type_invariant(&*self);
        }
        let mut q: VecDeque<ChannelMessage> = VecDeque::new();
        std::mem::swap(&mut q, &mut self.queue);
        let full = q.len() >= OVERFLOW_CAP;
        if full {
            let _ = q.pop_front();
            assert(q@ =~= old(self).messages().drop_first());
        }
        q.push_back(msg);
        self.queue = q;
        full
    }

    /// Takes the oldest waiting message.
    pub fn pop_front(&mut self) -> (r: Option<ChannelMessage>)
        ensures
            old(self).messages().len() == 0 ==> r is None && final(self).messages() == old(
                self,
            ).messages(),
            old(self).messages().len() > 0 ==> r == Some(old(self).messages()[0])
                && final(self).messages() == old(self).messages().drop_first(),
    {
        proof {
            use_type_invariant(&*self);
        }
        let mut q: VecDeque<ChannelMessage> = VecDeque::new();
        std::mem::swap(&mut q, &mut self.queue);
        let r = q.pop_front();
        assert(r is Some ==> q@ =~= old(self).messages().drop_first());
        self.queue = q;
        r
    }

    /// Puts a message back at the front (when the agent's queue turned out to be full).
    /// When the buffer is already full the message is not kept; returns whether it was.
    pub fn push_front(&mut self, msg: ChannelMessage) -> (kept: bool)
        ensures
            kept == (old(self).messages().len() < OVERFLOW_CAP),
            final(self).messages() == if kept {
                seq![msg] + old(self).messages()
            } else {
                old(self).messages()
            },
    {
        proof {
            use_type_invariant(&*self);
        }
        if self.queue.len() >= OVERFLOW_CAP {
            return false;
        }
        let mut q: VecDeque<ChannelMessage> = VecDeque::new();
        std::mem::swap(&mut q, &mut self.queue);
        q.push_front(msg);
        self.queue = q;
        true
    }
}

/// A message received over the long connection, as far as admission reads it.
pub struct LarkInbound {
    /// `user`, `app` or `bot` (empty when absent).
    pub sender_type: String,
    pub open_id: Option<String>,
    pub message_id: String,
    pub chat_id: String,
    pub chat_type: String,
    pub message_type: String,
    /// The message's `content` read as JSON, `None` where it is not JSON.
    pub content: Option<JsonValue>,
    pub mentions: Vec<JsonValue>,
}

/// The sender's open id, empty when absent.
pub open spec fn sender_id(m: LarkInbound) -> Seq<char> {
    match m.open_id {
        Some(o) => o@,
        None => Seq::empty(),
    }
}

/// Whether the sender may be heard at all: not an app or bot, and allowed, or sending an
/// attachment (file, audio, media) under some open id, as over the webhook.
pub open spec fn sender_admitted(allowed: Seq<String>, m: LarkInbound) -> bool {
    &&& m.sender_type@ != "app"@
    &&& m.sender_type@ != "bot"@
    &&& (user_allowed(allowed, sender_id(m)) || (attachment_type(m.message_type@) && sender_id(
        m,
    ).len() > 0))
}

/// The text an admitted, first-seen message delivers: the decoded text without placeholders,
/// trimmed and non-empty, and in a group chat only when the bot is mentioned.
pub open spec fn inbound_text(m: LarkInbound) -> Option<Seq<char>> {
    match message_text(m.message_type@, m.content) {
        None => None,
        Some(raw) => {
            let t = trim(strip_placeholders(raw));
            if t.len() == 0 || (m.chat_type@ == "group"@ && !mentions_bot(m.mentions@)) {
                None
            } else {
                Some(t)
            }
        },
    }
}

/// Decides what a message received over the long connection yields: nothing for apps, bots
/// and senders not allowed; nothing for an id seen in the last thirty minutes (the id is
/// recorded otherwise); else the text of `inbound_text`.
pub fn accept_ws_message(
    seen: &mut RecentIds,
    now_ns: u64,
    allowed_users: &Vec<String>,
    m: &LarkInbound,
) -> (r: Option<String>)
    ensures
        !sender_admitted(allowed_users@, *m) ==> r is None && final(seen).entries() == old(
            seen,
        ).entries(),
        sender_admitted(allowed_users@, *m) ==> {
            let fresh = !seen_id(recent(old(seen).entries(), now_ns), m.message_id@);
            &&& final(seen).entries() == if fresh {
                recent(old(seen).entries(), now_ns).push((m.message_id@, now_ns))
            } else {
                recent(old(seen).entries(), now_ns)
            }
            &&& match r {
                Some(t) => fresh && inbound_text(*m) == Some(t@),
                None => !fresh || inbound_text(*m) is None,
            }
        },
{
    if str_eq(m.sender_type.as_str(), "app") || str_eq(m.sender_type.as_str(), "bot") {
        return None;
    }
    let open_id = match &m.open_id {
        Some(o) => o.as_str(),
        None => "",
    };
    proof {
        reveal_strlit("");
    }
    assert(open_id@ =~= match m.open_id {
        Some(o) => o@,
        None => Seq::<char>::empty(),
    });
    if !is_user_allowed(allowed_users, open_id) && !(is_attachment_type(m.message_type.as_str())
        && !open_id.is_empty()) {
        return None;
    }
    if !seen.insert_if_new(m.message_id.as_str(), now_ns) {
        return None;
    }
    let raw = match crate::lark::event::message_text_exec(m.message_type.as_str(), match &m.content {
        Some(c) => Some(c),
        None => None,
    }) {
        Some(t) => t,
        None => return None,
    };
    let stripped = strip_at_placeholders(raw.as_str());
    let sv = chars_of(stripped.as_str());
    let (a, b) = trim_range(&sv, 0, sv.len());
    assert(sv@.subrange(0, sv@.len() as int) =~= sv@);
    if a == b {
        return None;
    }
    if str_eq(m.chat_type.as_str(), "group") && !should_respond_in_group(&m.mentions) {
        return None;
    }
    Some(string_of_range(&sv, a, b))
}

} // verus!
