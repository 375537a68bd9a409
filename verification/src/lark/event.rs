//! Turning a Lark `im.message.receive_v1` event into a channel message.
use vstd::prelude::*;
use crate::hooks::reload::{parse_u64_range, parse_u64_spec};
use crate::json::{
    as_nonempty_str, as_str, get, jget, jstr, jstr_nonempty, oref, JsonValue,
};
use crate::lark::{platform_channel, strip_at_placeholders, strip_placeholders, LarkPlatform};
use crate::text::{chars_of, push_char, push_str, str_eq, string_of_range, trim, trim_range};

verus! {

/// A message received on a channel, ready for the agent.
pub struct ChannelMessage {
    pub id: String,
    pub sender: String,
    pub reply_target: String,
    pub content: String,
    pub channel: String,
    pub timestamp: u64,
    pub thread_ts: Option<String>,
}

/// The first member of an object whose value is itself an object.
pub open spec fn first_object_member(es: Seq<(String, JsonValue)>) -> Option<JsonValue>
    decreases es.len(),
{
    if es.len() == 0 {
        None
    } else if es[0].1 is Object {
        Some(es[0].1)
    } else {
        first_object_member(es.drop_first())
    }
}

/// The locale block of a rich-text post: `zh_cn`, else `en_us`, else the first object member.
pub open spec fn post_locale(post: JsonValue) -> Option<JsonValue> {
    match jget(Some(post), "zh_cn"@) {
        Some(v) => Some(v),
        None => match jget(Some(post), "en_us"@) {
            Some(v) => Some(v),
            None => match post {
                JsonValue::Object(es) => first_object_member(es@),
                _ => None,
            },
        },
    }
}

/// The text one rich-text element contributes: `text` elements their text, links their
/// non-empty text or else their `href`, mentions `@` and the user's name, id, or `user`.
pub open spec fn element_text(el: JsonValue) -> Seq<char> {
    let tag = match jstr(jget(Some(el), "tag"@)) {
        Some(t) => t,
        None => Seq::empty(),
    };
    if tag == "text"@ {
        match jstr(jget(Some(el), "text"@)) {
            Some(t) => t,
            None => Seq::empty(),
        }
    } else if tag == "a"@ {
        match jstr_nonempty(jget(Some(el), "text"@)) {
            Some(t) => t,
            None => match jstr(jget(Some(el), "href"@)) {
                Some(h) => h,
                None => Seq::empty(),
            },
        }
    } else if tag == "at"@ {
        seq!['@'] + match jstr(jget(Some(el), "user_name"@)) {
            Some(n) => n,
            None => match jstr(jget(Some(el), "user_id"@)) {
                Some(i) => i,
                None => "user"@,
            },
        }
    } else {
        Seq::empty()
    }
}

/// The text of a paragraph's elements, in order.
pub open spec fn elements_text(els: Seq<JsonValue>) -> Seq<char>
    decreases els.len(),
{
    if els.len() == 0 {
        Seq::empty()
    } else {
        elements_text(els.drop_last()) + element_text(els.last())
    }
}

/// The text of the paragraphs, each array paragraph ending in a newline.
pub open spec fn paragraphs_text(ps: Seq<JsonValue>) -> Seq<char>
    decreases ps.len(),
{
    if ps.len() == 0 {
        Seq::empty()
    } else {
        paragraphs_text(ps.drop_last()) + match ps.last() {
            JsonValue::Array(els) => elements_text(els@) + seq!['\n'],
            _ => Seq::empty(),
        }
    }
}

/// The untrimmed text of a locale block: its non-empty title and a blank line, then the
/// paragraphs.
pub open spec fn post_body(locale: JsonValue) -> Seq<char> {
    (match jstr_nonempty(jget(Some(locale), "title"@)) {
        Some(t) => t + "\n\n"@,
        None => Seq::empty(),
    }) + match jget(Some(locale), "content"@) {
        Some(JsonValue::Array(ps)) => paragraphs_text(ps@),
        _ => Seq::empty(),
    }
}

/// The text of a rich-text post, trimmed; `None` when it is not JSON, has no locale block,
/// or comes out empty.
pub open spec fn post_text(post: Option<JsonValue>) -> Option<Seq<char>> {
    match post {
        None => None,
        Some(p) => match post_locale(p) {
            None => None,
            Some(loc) => {
                let t = trim(post_body(loc));
                if t.len() == 0 {
                    None
                } else {
                    Some(t)
                }
            },
        },
    }
}

/// Appends the text one rich-text element contributes.
fn push_element_text(out: &mut String, el: &JsonValue)
    ensures
        final(out)@ == old(out)@ + element_text(*el),
{
    let tag = match as_str(get(Some(el), "tag")) {
        Some(t) => t,
        None => "",
    };
    proof {
        reveal_strlit("");
    }
    assert(tag@ == match jstr(jget(Some(*el), "tag"@)) {
        Some(t) => t,
        None => Seq::<char>::empty(),
    });
    if str_eq(tag, "text") {
        if let Some(t) = as_str(get(Some(el), "text")) {
            push_str(out, t);
        } else {
            assert(old(out)@ + Seq::<char>::empty() =~= old(out)@);
        }
    } else if str_eq(tag, "a") {
        let t = match as_nonempty_str(get(Some(el), "text")) {
            Some(t) => t,
            None => match as_str(get(Some(el), "href")) {
                Some(h) => h,
                None => "",
            },
        };
        push_str(out, t);
    } else if str_eq(tag, "at") {
        let n = match as_str(get(Some(el), "user_name")) {
            Some(n) => n,
            None => match as_str(get(Some(el), "user_id")) {
                Some(i) => i,
                None => "user",
            },
        };
        push_char(out, '@');
        push_str(out, n);
        assert(out@ =~= old(out)@ + element_text(*el));
    } else {
        assert(old(out)@ + Seq::<char>::empty() =~= old(out)@);
    }
}

/// Appends the text of the paragraphs of a post.
fn push_paragraphs(out: &mut String, ps: &Vec<JsonValue>)
    ensures
        final(out)@ == old(out)@ + paragraphs_text(ps@),
{
    let mut i: usize = 0;
    assert(ps@.take(0) =~= Seq::<JsonValue>::empty());
    assert(old(out)@ + Seq::<char>::empty() =~= old(out)@);
    while i < ps.len()
        invariant
            i <= ps.len(),
            out@ == old(out)@ + paragraphs_text(ps@.take(i as int)),
        decreases ps.len() - i,
    {
        let ghost before = out@;
        assert(ps@.take(i + 1).drop_last() =~= ps@.take(i as int));
        assert(ps@.take(i + 1).last() == ps@[i as int]);
        match &ps[i] {
            JsonValue::Array(els) => {
                let mut j: usize = 0;
                assert(els@.take(0) =~= Seq::<JsonValue>::empty());
                assert(before + Seq::<char>::empty() =~= before);
                while j < els.len()
                    invariant
                        j <= els.len(),
                        out@ == before + elements_text(els@.take(j as int)),
                    decreases els.len() - j,
                {
                    push_element_text(out, &els[j]);
                    assert(els@.take(j + 1).drop_last() =~= els@.take(j as int));
                    j = j + 1;
                }
                assert(els@.take(els@.len() as int) =~= els@);
                push_char(out, '\n');
            },
            _ => {
                assert(before + Seq::<char>::empty() =~= before);
            },
        }
        i = i + 1;
    }
    assert(ps@.take(ps@.len() as int) =~= ps@);
}

/// The first member value that is an object.
fn first_object(es: &Vec<(String, JsonValue)>) -> (r: Option<&JsonValue>)
    ensures
        match r {
            Some(v) => first_object_member(es@) == Some(*v),
            None => first_object_member(es@) is None,
        },
{
    let mut i: usize = 0;
    assert(es@.skip(0) =~= es@);
    while i < es.len()
        invariant
            i <= es.len(),
            first_object_member(es@) == first_object_member(es@.skip(i as int)),
        decreases es.len() - i,
    {
        assert(es@.skip(i as int)[0] == es@[i as int]);
        assert(es@.skip(i as int).drop_first() =~= es@.skip(i + 1));
        if let JsonValue::Object(_) = &es[i].1 {
            return Some(&es[i].1);
        }
        i = i + 1;
    }
    None
}

/// The text of a rich-text post (its content already read as JSON, `None` when it was not).
pub fn parse_post_content(post: Option<&JsonValue>) -> (r: Option<String>)
    ensures
        match r {
            Some(s) => post_text(oref(post)) == Some(s@),
            None => post_text(oref(post)) is None,
        },
        r matches Some(s) ==> s@.len() > 0 && trim(s@) == s@,
{
    proof {
        assert forall|x: Seq<char>| #[trigger] trim(trim(x)) == trim(x) by {
            crate::text::lemma_trim_idempotent(x);
        }
    }
    let p = match post {
        Some(p) => p,
        None => return None,
    };
    let locale = match get(Some(p), "zh_cn") {
        Some(v) => v,
        None => match get(Some(p), "en_us") {
            Some(v) => v,
            None => match p {
                JsonValue::Object(es) => match first_object(es) {
                    Some(v) => v,
                    None => return None,
                },
                _ => return None,
            },
        },
    };
    assert(post_locale(*p) == Some(*locale));
    let mut text = String::new();
    if let Some(title) = as_nonempty_str(get(Some(locale), "title")) {
        push_str(&mut text, title);
        push_str(&mut text, "\n\n");
    }
    let ghost head = text@;
    match get(Some(locale), "content") {
        Some(JsonValue::Array(ps)) => push_paragraphs(&mut text, ps),
        _ => {},
    }
    assert(text@ =~= post_body(*locale));
    let v = chars_of(text.as_str());
    let (a, b) = trim_range(&v, 0, v.len());
    assert(v@.subrange(0, v@.len() as int) =~= v@);
    if a == b {
        None
    } else {
        Some(string_of_range(&v, a, b))
    }
}

/// The non-empty `image_key` of an image message's content.
pub fn extract_image_key(content: Option<&JsonValue>) -> (r: Option<String>)
    ensures
        match r {
            Some(s) => jstr_nonempty(jget(oref(content), "image_key"@)) == Some(s@),
            None => jstr_nonempty(jget(oref(content), "image_key"@)) is None,
        },
{
    match as_nonempty_str(get(content, "image_key")) {
        Some(k) => Some(k.to_owned()),
        None => None,
    }
}

/// The non-empty `file_key` of a file or audio message's content.
pub fn extract_file_key(content: Option<&JsonValue>) -> (r: Option<String>)
    ensures
        match r {
            Some(s) => jstr_nonempty(jget(oref(content), "file_key"@)) == Some(s@),
            None => jstr_nonempty(jget(oref(content), "file_key"@)) is None,
        },
{
    match as_nonempty_str(get(content, "file_key")) {
        Some(k) => Some(k.to_owned()),
        None => None,
    }
}

/// The label of a file: its non-empty name, else its key.
pub open spec fn file_label(content: Option<JsonValue>, key: Seq<char>) -> Seq<char> {
    match jstr_nonempty(jget(content, "file_name"@)) {
        Some(n) => n,
        None => key,
    }
}

/// The text a received message of type `msg_type` carries, before placeholders are removed:
/// text as is, posts as their text, and images, files, audio and media as markers that name
/// the platform's keys.
pub open spec fn message_text(msg_type: Seq<char>, content: Option<JsonValue>) -> Option<Seq<char>> {
    if msg_type == "text"@ {
        jstr_nonempty(jget(content, "text"@))
    } else if msg_type == "post"@ {
        post_text(content)
    } else if msg_type == "image"@ {
        match jstr_nonempty(jget(content, "image_key"@)) {
            Some(k) => Some("[IMAGE:lark_image_key:"@ + k + "]"@),
            None => None,
        }
    } else if msg_type == "file"@ {
        match jstr_nonempty(jget(content, "file_key"@)) {
            Some(k) => Some("[DOCUMENT:lark_file_key:"@ + k + ":"@ + file_label(content, k) + "]"@),
            None => None,
        }
    } else if msg_type == "audio"@ {
        match jstr_nonempty(jget(content, "file_key"@)) {
            Some(k) => Some("[AUDIO:lark_file_key:"@ + k + "]"@),
            None => None,
        }
    } else if msg_type == "media"@ {
        match jstr_nonempty(jget(content, "file_key"@)) {
            Some(k) => Some("[VIDEO:lark_file_key:"@ + k + ":"@ + file_label(content, k) + "]"@),
            None => None,
        }
    } else {
        None
    }
}

/// The marker `<opening><key>:<label>]` of a file or media message.
fn file_marker(opening: &str, content: Option<&JsonValue>) -> (r: Option<String>)
    ensures
        match r {
            Some(m) => jstr_nonempty(jget(oref(content), "file_key"@)) matches Some(k) && m@
                == opening@ + k + ":"@ + file_label(oref(content), k) + "]"@,
            None => jstr_nonempty(jget(oref(content), "file_key"@)) is None,
        },
{
    match extract_file_key(content) {
        Some(k) => {
            let mut m = String::new();
            push_str(&mut m, opening);
            push_str(&mut m, k.as_str());
            push_str(&mut m, ":");
            match as_nonempty_str(get(content, "file_name")) {
                Some(n) => push_str(&mut m, n),
                None => push_str(&mut m, k.as_str()),
            }
            push_str(&mut m, "]");
            Some(m)
        },
        None => None,
    }
}

/// The text of a received message.
pub(crate) fn message_text_exec(msg_type: &str, content: Option<&JsonValue>) -> (r: Option<String>)
    ensures
        match r {
            Some(s) => message_text(msg_type@, oref(content)) == Some(s@),
            None => message_text(msg_type@, oref(content)) is None,
        },
{
    if str_eq(msg_type, "text") {
        match as_nonempty_str(get(content, "text")) {
            Some(t) => Some(t.to_owned()),
            None => None,
        }
    } else if str_eq(msg_type, "post") {
        parse_post_content(content)
    } else if str_eq(msg_type, "image") {
        match extract_image_key(content) {
            Some(k) => {
                let mut m = String::new();
                push_str(&mut m, "[IMAGE:lark_image_key:");
                push_str(&mut m, k.as_str());
                push_str(&mut m, "]");
                Some(m)
            },
            None => None,
        }
    } else if str_eq(msg_type, "file") {
        file_marker("[DOCUMENT:lark_file_key:", content)
    } else if str_eq(msg_type, "audio") {
        match extract_file_key(content) {
            Some(k) => {
                let mut m = String::new();
                push_str(&mut m, "[AUDIO:lark_file_key:");
                push_str(&mut m, k.as_str());
                push_str(&mut m, "]");
                Some(m)
            },
            None => None,
        }
    } else if str_eq(msg_type, "media") {
        file_marker("[VIDEO:lark_file_key:", content)
    } else {
        None
    }
}

/// Whether any mention is of the bot: one whose `id.user_id` is empty or absent.
pub open spec fn mentions_bot(ms: Seq<JsonValue>) -> bool {
    exists|k: int|
        0 <= k < ms.len() && match jstr(jget(jget(Some(#[trigger] ms[k]), "id"@), "user_id"@)) {
            Some(u) => u.len() == 0,
            None => true,
        }
}

/// In a group chat the bot answers only when it is mentioned.
pub fn should_respond_in_group(mentions: &Vec<JsonValue>) -> (r: bool)
    ensures
        r == mentions_bot(mentions@),
{
    let mut i: usize = 0;
    while i < mentions.len()
        invariant
            i <= mentions.len(),
            forall|k: int|
                0 <= k < i ==> !match jstr(
                    jget(jget(Some(#[trigger] mentions@[k]), "id"@), "user_id"@),
                ) {
                    Some(u) => u.len() == 0,
                    None => true,
                },
        decreases mentions.len() - i,
    {
        let uid = as_str(get(get(Some(&mentions[i]), "id"), "user_id"));
        let bot = match uid {
            Some(u) => u.is_empty(),
            None => true,
        };
        if bot {
            return true;
        }
        i = i + 1;
    }
    false
}

/// Whether `open_id` may talk to the bot: the list holds `*` or the id itself.
pub open spec fn user_allowed(allowed: Seq<String>, open_id: Seq<char>) -> bool {
    exists|k: int| 0 <= k < allowed.len() && (#[trigger] allowed[k]@ == "*"@ || allowed[k]@ == open_id)
}

/// Whether `open_id` may talk to the bot.
pub fn is_user_allowed(allowed_users: &Vec<String>, open_id: &str) -> (r: bool)
    ensures
        r == user_allowed(allowed_users@, open_id@),
{
    let mut i: usize = 0;
    while i < allowed_users.len()
        invariant
            i <= allowed_users.len(),
            forall|k: int|
                0 <= k < i ==> !(#[trigger] allowed_users@[k]@ == "*"@ || allowed_users@[k]@
                    == open_id@),
        decreases allowed_users.len() - i,
    {
        let u = allowed_users[i].as_str();
        if str_eq(u, "*") || str_eq(u, open_id) {
            return true;
        }
        i = i + 1;
    }
    false
}

/// Whether a message of this type is an attachment (a file, an audio clip or a video),
/// which is delivered whoever sends it.
pub open spec fn attachment_type(msg_type: Seq<char>) -> bool {
    msg_type == "file"@ || msg_type == "audio"@ || msg_type == "media"@
}

/// Whether a message of type `msg_type` is an attachment.
pub fn is_attachment_type(msg_type: &str) -> (r: bool)
    ensures
        r == attachment_type(msg_type@),
{
    str_eq(msg_type, "file") || str_eq(msg_type, "audio") || str_eq(msg_type, "media")
}

/// The string at a two-level path of `v`.
pub open spec fn jstr2(v: Option<JsonValue>, a: Seq<char>, b: Seq<char>) -> Option<Seq<char>> {
    jstr(jget(jget(v, a), b))
}

/// What a received event yields: the sender's chat, the cleaned text, and the timestamp in
/// seconds, or `None` when the event is dropped. The sender must be on the allow-list,
/// except for attachments (see `attachment_type`). `now_secs` stands in when the event
/// carries no usable creation time.
pub open spec fn inbound_message(
    allowed: Seq<String>,
    payload: JsonValue,
    content: Option<JsonValue>,
    now_secs: u64,
) -> Option<(Seq<char>, Seq<char>, u64)> {
    let event = jget(Some(payload), "event"@);
    let open_id = match jstr(jget(jget(jget(event, "sender"@), "sender_id"@), "open_id"@)) {
        Some(o) => o,
        None => Seq::empty(),
    };
    let msg_type = match jstr2(event, "message"@, "message_type"@) {
        Some(t) => t,
        None => Seq::empty(),
    };
    let chat_type = match jstr2(event, "message"@, "chat_type"@) {
        Some(t) => t,
        None => Seq::empty(),
    };
    let mentions = match jget(jget(event, "message"@), "mentions"@) {
        Some(JsonValue::Array(ms)) => ms@,
        _ => Seq::empty(),
    };
    if jstr2(Some(payload), "header"@, "event_type"@) != Some("im.message.receive_v1"@) {
        None
    } else if event is None || open_id.len() == 0 || (!attachment_type(msg_type) && !user_allowed(
        allowed,
        open_id,
    )) {
        None
    } else {
        match message_text(msg_type, content) {
            None => None,
            Some(raw) => {
                let text = trim(strip_placeholders(raw));
                if text.len() == 0 {
                    None
                } else if chat_type == "group"@ && !mentions_bot(mentions) {
                    None
                } else {
                    let ts = match jstr2(event, "message"@, "create_time"@) {
                        Some(t) => match parse_u64_spec(t) {
                            Some(ms) => ms / 1000,
                            None => now_secs,
                        },
                        None => now_secs,
                    };
                    let chat = match jstr2(event, "message"@, "chat_id"@) {
                        Some(c) => c,
                        None => open_id,
                    };
                    Some((chat, text, ts))
                }
            },
        }
    }
}

/// In a group chat the bot answers only when it is mentioned: when the event's chat type is
/// `group` and every mention it carries names a user (a non-empty `id.user_id`), or it
/// carries no list of mentions, the event yields no message.
pub proof fn law_group_message_needs_bot_mention(
    allowed: Seq<String>,
    payload: JsonValue,
    content: Option<JsonValue>,
    now_secs: u64,
)
    requires
        jstr2(jget(Some(payload), "event"@), "message"@, "chat_type"@) == Some("group"@),
        match jget(jget(jget(Some(payload), "event"@), "message"@), "mentions"@) {
            Some(JsonValue::Array(ms)) => forall|k: int|
                0 <= k < ms@.len() ==> (jstr(jget(jget(Some(#[trigger] ms@[k]), "id"@), "user_id"@))
                    matches Some(u) && u.len() > 0),
            _ => true,
        },
    ensures
        inbound_message(allowed, payload, content, now_secs) is None,
{
    let event = jget(Some(payload), "event"@);
    let mentions = match jget(jget(event, "message"@), "mentions"@) {
        Some(JsonValue::Array(ms)) => ms@,
        _ => Seq::<JsonValue>::empty(),
    };
    assert(!mentions_bot(mentions));
}

/// Turns a received event into at most one message for the agent. `content` is the
/// message's `content` string read as JSON (`None` when it is absent or not JSON), `now_secs`
/// the current time and `id` the fresh id the message gets.
pub fn parse_event_payload(
    platform: LarkPlatform,
    allowed_users: &Vec<String>,
    payload: &JsonValue,
    content: Option<&JsonValue>,
    now_secs: u64,
    id: String,
) -> (r: Vec<ChannelMessage>)
    ensures
        match inbound_message(allowed_users@, *payload, oref(content), now_secs) {
            None => r@.len() == 0,
            Some((chat, text, ts)) => {
                &&& r@.len() == 1
                &&& r@[0].id == id
                &&& r@[0].sender@ == chat
                &&& r@[0].reply_target@ == chat
                &&& r@[0].content@ == text
                &&& r@[0].channel@ == platform_channel(platform)
                &&& r@[0].timestamp == ts
                &&& r@[0].thread_ts is None
            },
        },
{
    let mut messages: Vec<ChannelMessage> = Vec::new();
    let event_type = match as_str(get(get(Some(payload), "header"), "event_type")) {
        Some(t) => t,
        None => "",
    };
    let ghost et = jstr2(Some(*payload), "header"@, "event_type"@);
    assert(event_type@ == match et {
        Some(t) => t,
        None => ""@,
    });
    proof {
        reveal_strlit("");
        reveal_strlit("im.message.receive_v1");
        assert(""@.len() == 0);
        assert("im.message.receive_v1"@.len() > 0);
    }
    if !str_eq(event_type, "im.message.receive_v1") {
        return messages;
    }
    let event = match get(Some(payload), "event") {
        Some(e) => e,
        None => return messages,
    };
    let ghost ev = jget(Some(*payload), "event"@);
    assert(ev == Some(*event));
    let open_id = match as_str(get(get(get(Some(event), "sender"), "sender_id"), "open_id")) {
        Some(o) => o,
        None => "",
    };
    proof {
        reveal_strlit("");
    }
    assert(open_id@ == match jstr(jget(jget(jget(ev, "sender"@), "sender_id"@), "open_id"@)) {
        Some(o) => o,
        None => Seq::<char>::empty(),
    });
    let msg_type = match as_str(get(get(Some(event), "message"), "message_type")) {
        Some(t) => t,
        None => "",
    };
    assert(msg_type@ == match jstr2(ev, "message"@, "message_type"@) {
        Some(t) => t,
        None => Seq::<char>::empty(),
    });
    if open_id.is_empty() || (!is_attachment_type(msg_type) && !is_user_allowed(
        allowed_users,
        open_id,
    )) {
        return messages;
    }
    let raw = match message_text_exec(msg_type, content) {
        Some(t) => t,
        None => return messages,
    };
    let stripped = strip_at_placeholders(raw.as_str());
    let sv = chars_of(stripped.as_str());
    let (a, b) = trim_range(&sv, 0, sv.len());
    assert(sv@.subrange(0, sv@.len() as int) =~= sv@);
    if a == b {
        return messages;
    }
    let text = string_of_range(&sv, a, b);
    let chat_type = match as_str(get(get(Some(event), "message"), "chat_type")) {
        Some(t) => t,
        None => "",
    };
    assert(chat_type@ == match jstr2(ev, "message"@, "chat_type"@) {
        Some(t) => t,
        None => Seq::<char>::empty(),
    });
    let empty: Vec<JsonValue> = Vec::new();
    let mentions = match get(get(Some(event), "message"), "mentions") {
        Some(JsonValue::Array(ms)) => ms,
        _ => &empty,
    };
    assert(empty@ =~= Seq::<JsonValue>::empty());
    assert(mentions@ == match jget(jget(ev, "message"@), "mentions"@) {
        Some(JsonValue::Array(ms)) => ms@,
        _ => Seq::<JsonValue>::empty(),
    });
    if str_eq(chat_type, "group") && !should_respond_in_group(mentions) {
        return messages;
    }
    let timestamp = match as_str(get(get(Some(event), "message"), "create_time")) {
        Some(t) => {
            let tv = chars_of(t);
            assert(tv@.subrange(0, tv@.len() as int) =~= tv@);
            match parse_u64_range(&tv, 0, tv.len()) {
                Some(ms) => ms / 1000,
                None => now_secs,
            }
        },
        None => now_secs,
    };
    assert(timestamp == match jstr2(ev, "message"@, "create_time"@) {
        Some(t) => match parse_u64_spec(t) {
            Some(ms) => ms / 1000,
            None => now_secs,
        },
        None => now_secs,
    });
    let chat_id = match as_str(get(get(Some(event), "message"), "chat_id")) {
        Some(c) => c,
        None => open_id,
    };
    assert(text@ == trim(strip_placeholders(raw@)));
    messages.push(
        ChannelMessage {
            id,
            sender: chat_id.to_owned(),
            reply_target: chat_id.to_owned(),
            content: text,
            channel: platform.channel_name().to_owned(),
            timestamp,
            thread_ts: None,
        },
    );
    messages
}

/// The file key of a file or media message, with its non-empty file name where it has one.
pub fn extract_file_key_and_name(content: Option<&JsonValue>) -> (r: Option<(String, Option<String>)>)
    ensures
        match jstr_nonempty(jget(oref(content), "file_key"@)) {
            None => r is None,
            Some(k) => r matches Some(p) && p.0@ == k && match jstr_nonempty(
                jget(oref(content), "file_name"@),
            ) {
                Some(n) => p.1 matches Some(x) && x@ == n,
                None => p.1 is None,
            },
        },
{
    match extract_file_key(content) {
        None => None,
        Some(k) => {
            let name = match as_nonempty_str(get(content, "file_name")) {
                Some(n) => Some(n.to_string()),
                None => None,
            };
            Some((k, name))
        },
    }
}

/// How the webhook answers a callback.
#[derive(Debug, PartialEq)]
pub enum WebhookReply {
    /// A URL-verification challenge to echo back.
    Challenge(String),
    /// A challenge whose token is not ours: refused.
    Forbidden,
    /// An event callback: its messages are read and delivered.
    Events,
}

/// The answer to a callback: a `challenge` is echoed unless it carries a `token` other
/// than `verification_token`; anything else is an event callback.
pub fn webhook_reply(payload: &JsonValue, verification_token: &str) -> (r: WebhookReply)
    ensures
        match jstr(jget(Some(*payload), "challenge"@)) {
            Some(c) => match jstr(jget(Some(*payload), "token"@)) {
                Some(t) if t != verification_token@ => r is Forbidden,
                _ => r matches WebhookReply::Challenge(x) && x@ == c,
            },
            None => r is Events,
        },
{
    match as_str(get(Some(payload), "challenge")) {
        Some(c) => match as_str(get(Some(payload), "token")) {
            Some(t) if !str_eq(t, verification_token) => WebhookReply::Forbidden,
            _ => WebhookReply::Challenge(c.to_string()),
        },
        None => WebhookReply::Events,
    }
}

/// The message a delivered event callback is acknowledged on (with an `OK` reaction): its
/// `event.message.message_id`, when messages were delivered.
pub fn webhook_ack_target(payload: &JsonValue, delivered: bool) -> (r: Option<String>)
    ensures
        !delivered ==> r is None,
        delivered ==> match jstr(jget(jget(jget(Some(*payload), "event"@), "message"@), "message_id"@)) {
            Some(m) => r matches Some(x) && x@ == m,
            None => r is None,
        },
{
    if !delivered {
        return None;
    }
    match as_str(get(get(get(Some(payload), "event"), "message"), "message_id")) {
        Some(m) => Some(m.to_string()),
        None => None,
    }
}

} // verus!
