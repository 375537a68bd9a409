//! Image and video markers in chat messages, and MIME detection for their payloads.
use vstd::prelude::*;
use base64::engine::general_purpose::STANDARD;
use base64::Engine;
use crate::text::{
    chars_of, find_char, find_char_from, find_sub, find_sub_from, lemma_find_char_bounds,
    lemma_find_sub_bounds, push_char, push_range, push_str, str_eq, string_of_range, trim,
    trim_range, trimmed, lower_all, lower_range, range_eq, decimal, push_decimal, lemma_trim_idempotent,
    starts_with, contains_sub, occurs_at_exec,
};

verus! {

/// A chat message exchanged with a model provider.
pub struct ChatMessage {
    pub role: String,
    pub content: String,
}

impl ChatMessage {
    /// A message with the `user` role.
    pub fn user(content: String) -> (m: ChatMessage)
        ensures
            m.role@ == "user"@,
            m.content@ == content@,
    {
        ChatMessage { role: "user".to_string(), content }
    }

    /// A copy of this message.
    pub fn duplicate(&self) -> (m: ChatMessage)
        ensures
            m.role@ == self.role@,
            m.content@ == self.content@,
    {
        ChatMessage { role: self.role.clone(), content: self.content.clone() }
    }
}

/// The character views of a list of strings.
pub open spec fn views(v: Seq<String>) -> Seq<Seq<char>> {
    v.map_values(|x: String| x@)
}

/// Scans `s` from `cursor` for `prefix ... ]` markers. Returns the text kept (before the final
/// trim) and the references found. A marker whose trimmed body is empty stays in the text; a
/// prefix with no closing `]` ends the scan and stays in the text.
pub open spec fn scan_markers(s: Seq<char>, cursor: int, prefix: Seq<char>) -> (
    Seq<char>,
    Seq<Seq<char>>,
)
    decreases s.len() - cursor,
{
    if cursor < 0 || cursor > s.len() || prefix.len() == 0 {
        (Seq::empty(), Seq::empty())
    } else {
        match find_sub(s, cursor, prefix) {
            None => (s.subrange(cursor, s.len() as int), Seq::empty()),
            Some(start) => {
                proof {
                    lemma_find_sub_bounds(s, cursor, prefix);
                }
                let body_start = start + prefix.len();
                match find_char(s, body_start, ']') {
                    None => (s.subrange(cursor, s.len() as int), Seq::empty()),
                    Some(end) => {
                        proof {
                            lemma_find_char_bounds(s, body_start, ']');
                        }
                        let candidate = trim(s.subrange(body_start, end));
                        let rest = scan_markers(s, end + 1, prefix);
                        if candidate.len() == 0 {
                            (s.subrange(cursor, end + 1) + rest.0, rest.1)
                        } else {
                            (s.subrange(cursor, start) + rest.0, seq![candidate] + rest.1)
                        }
                    },
                }
            },
        }
    }
}

/// The cleaned text and the references of all `prefix ... ]` markers in `s`.
pub open spec fn parse_markers_spec(s: Seq<char>, prefix: Seq<char>) -> (
    Seq<char>,
    Seq<Seq<char>>,
) {
    let r = scan_markers(s, 0, prefix);
    (trim(r.0), r.1)
}

/// Every reference the scan collects is non-empty and already trimmed.
pub proof fn lemma_scan_refs_trimmed(s: Seq<char>, cursor: int, prefix: Seq<char>)
    ensures
        forall|k: int|
            0 <= k < scan_markers(s, cursor, prefix).1.len() ==> #[trigger] scan_markers(
                s,
                cursor,
                prefix,
            ).1[k].len() > 0 && trim(scan_markers(s, cursor, prefix).1[k]) == scan_markers(
                s,
                cursor,
                prefix,
            ).1[k],
    decreases s.len() - cursor,
{
    if cursor < 0 || cursor > s.len() || prefix.len() == 0 {
    } else {
        match find_sub(s, cursor, prefix) {
            None => {},
            Some(start) => {
                lemma_find_sub_bounds(s, cursor, prefix);
                let body_start = start + prefix.len();
                match find_char(s, body_start, ']') {
                    None => {},
                    Some(end) => {
                        lemma_find_char_bounds(s, body_start, ']');
                        lemma_scan_refs_trimmed(s, end + 1, prefix);
                        let candidate = trim(s.subrange(body_start, end));
                        lemma_trim_idempotent(s.subrange(body_start, end));
                        let rest = scan_markers(s, end + 1, prefix);
                        if candidate.len() > 0 {
                            let refs = seq![candidate] + rest.1;
                            assert forall|k: int| 0 <= k < refs.len() implies refs[k].len() > 0
                                && trim(refs[k]) == refs[k] by {
                                if k > 0 {
                                    assert(refs[k] == rest.1[k - 1]);
                                }
                            }
                        }
                    },
                }
            },
        }
    }
}

/// The cleaned text of a marker parse is trimmed, and so is every reference, none empty.
pub proof fn lemma_parsed_markers_trimmed(s: Seq<char>, prefix: Seq<char>)
    ensures
        trim(parse_markers_spec(s, prefix).0) == parse_markers_spec(s, prefix).0,
        forall|k: int|
            0 <= k < parse_markers_spec(s, prefix).1.len() ==> #[trigger] parse_markers_spec(
                s,
                prefix,
            ).1[k].len() > 0 && trim(parse_markers_spec(s, prefix).1[k]) == parse_markers_spec(
                s,
                prefix,
            ).1[k],
{
    lemma_trim_idempotent(scan_markers(s, 0, prefix).0);
    lemma_scan_refs_trimmed(s, 0, prefix);
}

/// The marker prefix of images.
pub open spec fn image_prefix() -> Seq<char> {
    seq!['[', 'I', 'M', 'A', 'G', 'E', ':']
}

/// The marker prefix of videos.
pub open spec fn video_prefix() -> Seq<char> {
    seq!['[', 'V', 'I', 'D', 'E', 'O', ':']
}

fn image_prefix_exec() -> (v: Vec<char>)
    ensures
        v@ == image_prefix(),
{
    let v = vec!['[', 'I', 'M', 'A', 'G', 'E', ':'];
    assert(v@ =~= image_prefix());
    v
}

fn video_prefix_exec() -> (v: Vec<char>)
    ensures
        v@ == video_prefix(),
{
    let v = vec!['[', 'V', 'I', 'D', 'E', 'O', ':'];
    assert(v@ =~= video_prefix());
    v
}

fn parse_markers(content: &str, prefix: &Vec<char>) -> (r: (String, Vec<String>))
    requires
        prefix@.len() > 0,
    ensures
        (r.0@, views(r.1@)) == parse_markers_spec(content@, prefix@),
{
    let s = chars_of(content);
    let mut cleaned = String::new();
    let mut refs: Vec<String> = Vec::new();
    let mut cursor: usize = 0;
    let ghost full = scan_markers(s@, 0, prefix@);
    loop
        invariant
            cursor <= s.len(),
            prefix@.len() > 0,
            full == scan_markers(s@, 0, prefix@),
            full.0 == cleaned@ + scan_markers(s@, cursor as int, prefix@).0,
            full.1 == views(refs@) + scan_markers(s@, cursor as int, prefix@).1,
        ensures
            full.0 == cleaned@,
            full.1 == views(refs@),
        decreases s.len() - cursor,
    {
        let ghost old_cleaned = cleaned@;
        let ghost old_refs = refs@;
        let ghost end_scan = scan_markers(s@, s.len() as int, prefix@);
        assert(end_scan.0 =~= Seq::<char>::empty() && end_scan.1 =~= Seq::<Seq<char>>::empty());
        if cursor == s.len() {
            assert(cleaned@ + end_scan.0 =~= cleaned@);
            assert(views(refs@) + end_scan.1 =~= views(refs@));
            break ;
        }
        match find_sub_from(&s, cursor, prefix) {
            None => {
                push_range(&mut cleaned, &s, cursor, s.len());
                cursor = s.len();
                assert(views(refs@) + Seq::<Seq<char>>::empty() =~= views(refs@));
                break ;
            },
            Some(start) => {
                proof {
                    lemma_find_sub_bounds(s@, cursor as int, prefix@);
                }
                let body_start = start + prefix.len();
                match find_char_from(&s, body_start, ']') {
                    None => {
                        push_range(&mut cleaned, &s, cursor, s.len());
                        cursor = s.len();
                        assert(views(refs@) + Seq::<Seq<char>>::empty() =~= views(refs@));
                        break ;
                    },
                    Some(end) => {
                        proof {
                            lemma_find_char_bounds(s@, body_start as int, ']');
                        }
                        let ghost rest = scan_markers(s@, end + 1, prefix@);
                        let (a, b) = trim_range(&s, body_start, end);
                        if a == b {
                            push_range(&mut cleaned, &s, cursor, end + 1);
                            assert(old_cleaned + (s@.subrange(cursor as int, end + 1) + rest.0)
                                =~= cleaned@ + rest.0);
                        } else {
                            push_range(&mut cleaned, &s, cursor, start);
                            let candidate = string_of_range(&s, a, b);
                            refs.push(candidate);
                            assert(views(refs@) =~= views(old_refs).push(candidate@));
                            assert(old_cleaned + (s@.subrange(cursor as int, start as int) + rest.0)
                                =~= cleaned@ + rest.0);
                            assert(views(old_refs) + (seq![candidate@] + rest.1) =~= views(refs@)
                                + rest.1);
                        }
                        cursor = end + 1;
                    },
                }
            },
        }
    }
    let cv = chars_of(cleaned.as_str());
    let (a, b) = trim_range(&cv, 0, cv.len());
    assert(cv@.subrange(0, cv@.len() as int) =~= cv@);
    (string_of_range(&cv, a, b), refs)
}

/// Extracts `[IMAGE:<ref>]` markers from `content`. Returns the remaining text, trimmed, and the
/// trimmed references in order. Markers with an empty reference are left in the text.
pub fn parse_image_markers(content: &str) -> (r: (String, Vec<String>))
    ensures
        (r.0@, views(r.1@)) == parse_markers_spec(content@, image_prefix()),
        trim(r.0@) == r.0@,
        forall|k: int| 0 <= k < r.1@.len() ==> #[trigger] r.1@[k]@.len() > 0 && trim(r.1@[k]@) == r.1@[k]@,
{
    let p = image_prefix_exec();
    let r = parse_markers(content, &p);
    proof {
        lemma_parsed_markers_trimmed(content@, image_prefix());
        assert forall|k: int| 0 <= k < r.1@.len() implies #[trigger] r.1@[k]@.len() > 0 && trim(r.1@[k]@)
            == r.1@[k]@ by {
            let ps = parse_markers_spec(content@, image_prefix());
            assert(views(r.1@) == ps.1);
            assert(views(r.1@)[k] == r.1@[k]@);
            assert(ps.1[k] == r.1@[k]@);
        }
    }
    r
}

/// Extracts `[VIDEO:<ref>]` markers from `content`, as `parse_image_markers` does for images.
pub fn parse_video_markers(content: &str) -> (r: (String, Vec<String>))
    ensures
        (r.0@, views(r.1@)) == parse_markers_spec(content@, video_prefix()),
        trim(r.0@) == r.0@,
        forall|k: int| 0 <= k < r.1@.len() ==> #[trigger] r.1@[k]@.len() > 0 && trim(r.1@[k]@) == r.1@[k]@,
{
    let p = video_prefix_exec();
    let r = parse_markers(content, &p);
    proof {
        lemma_parsed_markers_trimmed(content@, video_prefix());
        assert forall|k: int| 0 <= k < r.1@.len() implies #[trigger] r.1@[k]@.len() > 0 && trim(r.1@[k]@)
            == r.1@[k]@ by {
            let ps = parse_markers_spec(content@, video_prefix());
            assert(views(r.1@) == ps.1);
            assert(views(r.1@)[k] == r.1@[k]@);
            assert(ps.1[k] == r.1@[k]@);
        }
    }
    r
}


/// Whether a message has the `user` role.
pub open spec fn is_user(m: ChatMessage) -> bool {
    m.role@ == "user"@
}

/// The total number of markers with `prefix` in the user messages of `msgs`.
pub open spec fn marker_count(msgs: Seq<ChatMessage>, prefix: Seq<char>) -> nat
    decreases msgs.len(),
{
    if msgs.len() == 0 {
        0
    } else {
        let last = msgs.last();
        let here: nat = if is_user(last) {
            parse_markers_spec(last.content@, prefix).1.len()
        } else {
            0
        };
        marker_count(msgs.drop_last(), prefix) + here
    }
}

/// Only user messages are counted: no messages hold no markers; appending a message whose
/// role is not `user` leaves the count as it is; appending a user message adds the number of
/// references its content yields.
pub proof fn law_marker_count_user_only(msgs: Seq<ChatMessage>, m: ChatMessage, prefix: Seq<char>)
    ensures
        marker_count(Seq::<ChatMessage>::empty(), prefix) == 0,
        m.role@ != "user"@ ==> marker_count(msgs.push(m), prefix) == marker_count(msgs, prefix),
        m.role@ == "user"@ ==> marker_count(msgs.push(m), prefix) == marker_count(msgs, prefix)
            + parse_markers_spec(m.content@, prefix).1.len(),
{
    assert(msgs.push(m).drop_last() =~= msgs);
    assert(msgs.push(m).last() == m);
}

fn count_markers(messages: &[ChatMessage], prefix: &Vec<char>) -> (n: usize)
    requires
        prefix@.len() > 0,
        marker_count(messages@, prefix@) <= usize::MAX,
    ensures
        n == marker_count(messages@, prefix@),
{
    let mut total: usize = 0;
    let mut i: usize = 0;
    while i < messages.len()
        invariant
            i <= messages.len(),
            prefix@.len() > 0,
            marker_count(messages@, prefix@) <= usize::MAX,
            total == marker_count(messages@.take(i as int), prefix@),
        decreases messages.len() - i,
    {
        proof {
            lemma_marker_count_prefix_mono(messages@, prefix@, i + 1);
            assert(messages@.take(i + 1).drop_last() =~= messages@.take(i as int));
        }
        let m = &messages[i];
        if str_eq(m.role.as_str(), "user") {
            let (_, refs) = parse_markers(m.content.as_str(), prefix);
            total = total + refs.len();
        }
        i = i + 1;
    }
    assert(messages@.take(messages.len() as int) =~= messages@);
    total
}

proof fn lemma_marker_count_prefix_mono(msgs: Seq<ChatMessage>, prefix: Seq<char>, k: int)
    requires
        0 <= k <= msgs.len(),
    ensures
        marker_count(msgs.take(k), prefix) <= marker_count(msgs, prefix),
    decreases msgs.len(),
{
    if k < msgs.len() {
        assert(msgs.drop_last().take(k) =~= msgs.take(k));
        lemma_marker_count_prefix_mono(msgs.drop_last(), prefix, k);
    } else {
        assert(msgs.take(k) =~= msgs);
    }
}

/// The number of `[IMAGE:...]` references in the user messages.
pub fn count_image_markers(messages: &[ChatMessage]) -> (n: usize)
    requires
        marker_count(messages@, image_prefix()) <= usize::MAX,
    ensures
        n == marker_count(messages@, image_prefix()),
{
    let p = image_prefix_exec();
    count_markers(messages, &p)
}

/// The number of `[VIDEO:...]` references in the user messages.
pub fn count_video_markers(messages: &[ChatMessage]) -> (n: usize)
    requires
        marker_count(messages@, video_prefix()) <= usize::MAX,
    ensures
        n == marker_count(messages@, video_prefix()),
{
    let p = video_prefix_exec();
    count_markers(messages, &p)
}

/// Whether any user message holds an `[IMAGE:...]` reference.
pub fn contains_image_markers(messages: &[ChatMessage]) -> (b: bool)
    requires
        marker_count(messages@, image_prefix()) <= usize::MAX,
    ensures
        b == (marker_count(messages@, image_prefix()) > 0),
{
    count_image_markers(messages) > 0
}

/// Whether any user message holds a `[VIDEO:...]` reference.
pub fn contains_video_markers(messages: &[ChatMessage]) -> (b: bool)
    requires
        marker_count(messages@, video_prefix()) <= usize::MAX,
    ensures
        b == (marker_count(messages@, video_prefix()) > 0),
{
    count_video_markers(messages) > 0
}


/// `c` followed by a newline unless it is empty or already ends with one.
pub open spec fn line_break(c: Seq<char>) -> Seq<char> {
    if c.len() > 0 && c.last() != '\n' {
        c.push('\n')
    } else {
        c
    }
}

/// `c` followed by the image markers of `uris`, one per line.
pub open spec fn add_images(c: Seq<char>, uris: Seq<Seq<char>>) -> Seq<char>
    decreases uris.len(),
{
    if uris.len() == 0 {
        c
    } else {
        let before = add_images(c, uris.drop_last());
        let sep = if uris.len() > 1 {
            before.push('\n')
        } else {
            before
        };
        sep + image_prefix() + uris.last() + seq![']']
    }
}

/// `c` followed by the video markers of `urls`, each on a line of its own.
pub open spec fn add_videos(c: Seq<char>, urls: Seq<Seq<char>>) -> Seq<char>
    decreases urls.len(),
{
    if urls.len() == 0 {
        c
    } else {
        line_break(add_videos(c, urls.drop_last())) + video_prefix() + urls.last() + seq![']']
    }
}

/// The message text that carries `text` (trimmed, then a blank line when not empty), the
/// image markers and then the video markers.
pub open spec fn compose_spec(text: Seq<char>, data_uris: Seq<Seq<char>>, video_urls: Seq<Seq<char>>) -> Seq<char> {
    let t = trim(text);
    let head = if t.len() > 0 {
        t + seq!['\n', '\n']
    } else {
        Seq::empty()
    };
    add_videos(add_images(head, data_uris), video_urls)
}

/// Builds a user message from cleaned text, normalized image data URIs and video URLs.
pub fn compose_multimodal_message(text: &str, data_uris: &[String], video_urls: &[String]) -> (r:
    String)
    ensures
        r@ == compose_spec(text@, views(data_uris@), views(video_urls@)),
{
    let mut content = String::new();
    let t = trimmed(text);
    if !t.as_str().is_empty() {
        push_str(&mut content, t.as_str());
        push_char(&mut content, '\n');
        push_char(&mut content, '\n');
        assert(content@ =~= t@ + seq!['\n', '\n']);
    }
    let ghost head = content@;
    let ip = image_prefix_exec();
    let vp = video_prefix_exec();
    let mut i: usize = 0;
    while i < data_uris.len()
        invariant
            i <= data_uris.len(),
            ip@ == image_prefix(),
            content@ == add_images(head, views(data_uris@).take(i as int)),
        decreases data_uris.len() - i,
    {
        let ghost before = content@;
        if i > 0 {
            push_char(&mut content, '\n');
        }
        push_range(&mut content, &ip, 0, ip.len());
        push_str(&mut content, data_uris[i].as_str());
        push_char(&mut content, ']');
        proof {
            let u = views(data_uris@).take(i + 1);
            assert(u.drop_last() =~= views(data_uris@).take(i as int));
            assert(ip@.subrange(0, ip@.len() as int) =~= ip@);
            assert(u.last() == data_uris@[i as int]@);
        }
        i = i + 1;
    }
    assert(views(data_uris@).take(data_uris@.len() as int) =~= views(data_uris@));
    let ghost mid = content@;
    let mut j: usize = 0;
    while j < video_urls.len()
        invariant
            j <= video_urls.len(),
            vp@ == video_prefix(),
            content@ == add_videos(mid, views(video_urls@).take(j as int)),
        decreases video_urls.len() - j,
    {
        let cv = chars_of(content.as_str());
        if cv.len() > 0 && cv[cv.len() - 1] != '\n' {
            push_char(&mut content, '\n');
        }
        push_range(&mut content, &vp, 0, vp.len());
        push_str(&mut content, video_urls[j].as_str());
        push_char(&mut content, ']');
        proof {
            let u = views(video_urls@).take(j + 1);
            assert(u.drop_last() =~= views(video_urls@).take(j as int));
            assert(vp@.subrange(0, vp@.len() as int) =~= vp@);
            assert(u.last() == video_urls@[j as int]@);
        }
        j = j + 1;
    }
    assert(views(video_urls@).take(video_urls@.len() as int) =~= views(video_urls@));
    content
}


/// The view of an optional string.
pub open spec fn opt_view(o: Option<&str>) -> Option<Seq<char>> {
    match o {
        Some(x) => Some(x@),
        None => None,
    }
}

/// Whether `b` begins with the bytes `pre`.
pub open spec fn bytes_start_with(b: Seq<u8>, pre: Seq<u8>) -> bool {
    pre.len() <= b.len() && b.subrange(0, pre.len() as int) == pre
}

/// The image MIME type that the leading bytes of `b` announce.
pub open spec fn image_magic_mime(b: Seq<u8>) -> Option<Seq<char>> {
    if bytes_start_with(b, seq![0x89u8, 0x50, 0x4e, 0x47, 0x0d, 0x0a, 0x1a, 0x0a]) {
        Some("image/png"@)
    } else if bytes_start_with(b, seq![0xffu8, 0xd8, 0xff]) {
        Some("image/jpeg"@)
    } else if bytes_start_with(b, seq![0x47u8, 0x49, 0x46, 0x38, 0x37, 0x61])
        || bytes_start_with(b, seq![0x47u8, 0x49, 0x46, 0x38, 0x39, 0x61]) {
        Some("image/gif"@)
    } else if b.len() >= 12 && bytes_start_with(b, seq![0x52u8, 0x49, 0x46, 0x46])
        && b.subrange(8, 12) == seq![0x57u8, 0x45, 0x42, 0x50] {
        Some("image/webp"@)
    } else if bytes_start_with(b, seq![0x42u8, 0x4d]) {
        Some("image/bmp"@)
    } else {
        None
    }
}

/// The video MIME type that the leading bytes of `b` announce.
pub open spec fn video_magic_mime(b: Seq<u8>) -> Option<Seq<char>> {
    if b.len() >= 8 && b.subrange(4, 8) == seq![0x66u8, 0x74, 0x79, 0x70] {
        Some("video/mp4"@)
    } else if bytes_start_with(b, seq![0x1au8, 0x45, 0xdf, 0xa3]) {
        Some("video/webm"@)
    } else {
        None
    }
}

/// Whether `b[at..at + pat.len()]` equals `pat`.
fn bytes_at(b: &[u8], at: usize, pat: &[u8]) -> (r: bool)
    ensures
        r == (at + pat@.len() <= b@.len() && b@.subrange(at as int, at + pat@.len()) == pat@),
{
    if at > b.len() || pat.len() > b.len() - at {
        return false;
    }
    let mut k: usize = 0;
    while k < pat.len()
        invariant
            at + pat@.len() <= b@.len(),
            b@.len() == b.len(),
            pat@.len() == pat.len(),
            k <= pat@.len(),
            forall|j: int| 0 <= j < k ==> b@[at + j] == pat@[j],
        decreases pat.len() - k,
    {
        if b[at + k] != pat[k] {
            assert(b@.subrange(at as int, at + pat@.len())[k as int] != pat@[k as int]);
            return false;
        }
        k = k + 1;
    }
    assert(b@.subrange(at as int, at + pat@.len()) =~= pat@);
    true
}

/// Detects an image MIME type from the leading bytes of `bytes`.
pub fn mime_from_magic(bytes: &[u8]) -> (r: Option<&'static str>)
    ensures
        opt_view(r) == image_magic_mime(bytes@),
{
    let png: [u8; 8] = [0x89u8, 0x50, 0x4e, 0x47, 0x0d, 0x0a, 0x1a, 0x0a];
    let jpg: [u8; 3] = [0xffu8, 0xd8, 0xff];
    let gif7: [u8; 6] = [0x47u8, 0x49, 0x46, 0x38, 0x37, 0x61];
    let gif9: [u8; 6] = [0x47u8, 0x49, 0x46, 0x38, 0x39, 0x61];
    let riff: [u8; 4] = [0x52u8, 0x49, 0x46, 0x46];
    let webp: [u8; 4] = [0x57u8, 0x45, 0x42, 0x50];
    let bm: [u8; 2] = [0x42u8, 0x4d];
    assert(png@ =~= seq![0x89u8, 0x50, 0x4e, 0x47, 0x0d, 0x0a, 0x1a, 0x0a]);
    assert(jpg@ =~= seq![0xffu8, 0xd8, 0xff]);
    assert(gif7@ =~= seq![0x47u8, 0x49, 0x46, 0x38, 0x37, 0x61]);
    assert(gif9@ =~= seq![0x47u8, 0x49, 0x46, 0x38, 0x39, 0x61]);
    assert(riff@ =~= seq![0x52u8, 0x49, 0x46, 0x46]);
    assert(webp@ =~= seq![0x57u8, 0x45, 0x42, 0x50]);
    assert(bm@ =~= seq![0x42u8, 0x4d]);
    if bytes_at(bytes, 0, &png) {
        return Some("image/png");
    }
    if bytes_at(bytes, 0, &jpg) {
        return Some("image/jpeg");
    }
    if bytes_at(bytes, 0, &gif7) || bytes_at(bytes, 0, &gif9) {
        return Some("image/gif");
    }
    if bytes.len() >= 12 && bytes_at(bytes, 0, &riff) && bytes_at(bytes, 8, &webp) {
        return Some("image/webp");
    }
    if bytes_at(bytes, 0, &bm) {
        return Some("image/bmp");
    }
    None
}

/// Detects a video MIME type from the leading bytes of `bytes`.
pub fn video_mime_from_magic(bytes: &[u8]) -> (r: Option<&'static str>)
    ensures
        opt_view(r) == video_magic_mime(bytes@),
{
    let ftyp: [u8; 4] = [0x66u8, 0x74, 0x79, 0x70];
    let ebml: [u8; 4] = [0x1au8, 0x45, 0xdf, 0xa3];
    assert(ftyp@ =~= seq![0x66u8, 0x74, 0x79, 0x70]);
    assert(ebml@ =~= seq![0x1au8, 0x45, 0xdf, 0xa3]);
    if bytes.len() >= 8 && bytes_at(bytes, 4, &ftyp) {
        return Some("video/mp4");
    }
    if bytes_at(bytes, 0, &ebml) {
        return Some("video/webm");
    }
    None
}

/// The image MIME type for a file extension, compared without ASCII case.
pub open spec fn image_ext_mime(ext: Seq<char>) -> Option<Seq<char>> {
    let e = lower_all(ext);
    if e == "png"@ {
        Some("image/png"@)
    } else if e == "jpg"@ || e == "jpeg"@ {
        Some("image/jpeg"@)
    } else if e == "webp"@ {
        Some("image/webp"@)
    } else if e == "gif"@ {
        Some("image/gif"@)
    } else if e == "bmp"@ {
        Some("image/bmp"@)
    } else {
        None
    }
}

/// The video MIME type for a file extension, compared without ASCII case.
pub open spec fn video_ext_mime(ext: Seq<char>) -> Option<Seq<char>> {
    let e = lower_all(ext);
    if e == "mp4"@ {
        Some("video/mp4"@)
    } else if e == "webm"@ {
        Some("video/webm"@)
    } else if e == "mov"@ {
        Some("video/quicktime"@)
    } else if e == "mkv"@ {
        Some("video/x-matroska"@)
    } else if e == "avi"@ {
        Some("video/x-msvideo"@)
    } else {
        None
    }
}

fn lowered(s: &str) -> (r: Vec<char>)
    ensures
        r@ == lower_all(s@),
{
    let v = chars_of(s);
    assert(v@.subrange(0, v@.len() as int) =~= v@);
    lower_range(&v, 0, v.len())
}

fn is(v: &Vec<char>, lit: &str) -> (r: bool)
    ensures
        r == (v@ == lit@),
{
    assert(v@.subrange(0, v@.len() as int) =~= v@);
    range_eq(v, 0, v.len(), lit)
}

/// Maps an image file extension to its MIME type.
pub fn mime_from_extension(ext: &str) -> (r: Option<&'static str>)
    ensures
        opt_view(r) == image_ext_mime(ext@),
{
    let e = lowered(ext);
    if is(&e, "png") {
        Some("image/png")
    } else if is(&e, "jpg") || is(&e, "jpeg") {
        Some("image/jpeg")
    } else if is(&e, "webp") {
        Some("image/webp")
    } else if is(&e, "gif") {
        Some("image/gif")
    } else if is(&e, "bmp") {
        Some("image/bmp")
    } else {
        None
    }
}

/// Maps a video file extension to its MIME type.
pub fn video_mime_from_extension(ext: &str) -> (r: Option<&'static str>)
    ensures
        opt_view(r) == video_ext_mime(ext@),
{
    let e = lowered(ext);
    if is(&e, "mp4") {
        Some("video/mp4")
    } else if is(&e, "webm") {
        Some("video/webm")
    } else if is(&e, "mov") {
        Some("video/quicktime")
    } else if is(&e, "mkv") {
        Some("video/x-matroska")
    } else if is(&e, "avi") {
        Some("video/x-msvideo")
    } else {
        None
    }
}


/// Why a multimodal message could not be prepared.
pub enum MultimodalError {
    TooManyImages { max_images: usize, found: usize },
    TooManyVideos { max_videos: usize, found: usize },
    ImageTooLarge { input: String, size_bytes: usize, max_bytes: usize },
    UnsupportedMime { input: String, mime: String },
    RemoteFetchDisabled { input: String },
    ImageSourceNotFound { input: String },
    InvalidMarker { input: String, reason: String },
    RemoteFetchFailed { input: String, reason: String },
    LocalReadFailed { input: String, reason: String },
}

/// The content of a `MultimodalError`, with strings as character sequences.
pub enum MultimodalFault {
    TooManyImages { max_images: nat, found: nat },
    TooManyVideos { max_videos: nat, found: nat },
    ImageTooLarge { input: Seq<char>, size_bytes: nat, max_bytes: nat },
    UnsupportedMime { input: Seq<char>, mime: Seq<char> },
    RemoteFetchDisabled { input: Seq<char> },
    ImageSourceNotFound { input: Seq<char> },
    InvalidMarker { input: Seq<char>, reason: Seq<char> },
    RemoteFetchFailed { input: Seq<char>, reason: Seq<char> },
    LocalReadFailed { input: Seq<char>, reason: Seq<char> },
}

impl View for MultimodalError {
    type V = MultimodalFault;

    open spec fn view(&self) -> MultimodalFault {
        match self {
            MultimodalError::TooManyImages { max_images, found } => MultimodalFault::TooManyImages {
                max_images: *max_images as nat,
                found: *found as nat,
            },
            MultimodalError::TooManyVideos { max_videos, found } => MultimodalFault::TooManyVideos {
                max_videos: *max_videos as nat,
                found: *found as nat,
            },
            MultimodalError::ImageTooLarge { input, size_bytes, max_bytes } =>
                MultimodalFault::ImageTooLarge {
                input: input@,
                size_bytes: *size_bytes as nat,
                max_bytes: *max_bytes as nat,
            },
            MultimodalError::UnsupportedMime { input, mime } => MultimodalFault::UnsupportedMime {
                input: input@,
                mime: mime@,
            },
            MultimodalError::RemoteFetchDisabled { input } => MultimodalFault::RemoteFetchDisabled {
                input: input@,
            },
            MultimodalError::ImageSourceNotFound { input } => MultimodalFault::ImageSourceNotFound {
                input: input@,
            },
            MultimodalError::InvalidMarker { input, reason } => MultimodalFault::InvalidMarker {
                input: input@,
                reason: reason@,
            },
            MultimodalError::RemoteFetchFailed { input, reason } =>
                MultimodalFault::RemoteFetchFailed { input: input@, reason: reason@ },
            MultimodalError::LocalReadFailed { input, reason } => MultimodalFault::LocalReadFailed {
                input: input@,
                reason: reason@,
            },
        }
    }
}

/// The human-readable text of a fault.
pub open spec fn fault_message(f: MultimodalFault) -> Seq<char> {
    match f {
        MultimodalFault::TooManyImages { max_images, found } =>
            "multimodal image limit exceeded: max_images="@ + decimal(max_images) + ", found="@
                + decimal(found),
        MultimodalFault::TooManyVideos { max_videos, found } =>
            "multimodal video limit exceeded: max_videos="@ + decimal(max_videos) + ", found="@
                + decimal(found),
        MultimodalFault::ImageTooLarge { input, size_bytes, max_bytes } =>
            "multimodal image size limit exceeded for '"@ + input + "': "@ + decimal(size_bytes)
                + " bytes > "@ + decimal(max_bytes) + " bytes"@,
        MultimodalFault::UnsupportedMime { input, mime } =>
            "multimodal image MIME type is not allowed for '"@ + input + "': "@ + mime,
        MultimodalFault::RemoteFetchDisabled { input } =>
            "multimodal remote image fetch is disabled for '"@ + input + "'"@,
        MultimodalFault::ImageSourceNotFound { input } =>
            "multimodal image source not found or unreadable: '"@ + input + "'"@,
        MultimodalFault::InvalidMarker { input, reason } =>
            "invalid multimodal image marker '"@ + input + "': "@ + reason,
        MultimodalFault::RemoteFetchFailed { input, reason } =>
            "failed to download remote image '"@ + input + "': "@ + reason,
        MultimodalFault::LocalReadFailed { input, reason } =>
            "failed to read local image '"@ + input + "': "@ + reason,
    }
}

impl MultimodalError {
    /// The error's message, as its display form reads.
    pub fn message(&self) -> (r: String)
        ensures
            r@ == fault_message(self@),
    {
        let mut out = String::new();
        match self {
            MultimodalError::TooManyImages { max_images, found } => {
                push_str(&mut out, "multimodal image limit exceeded: max_images=");
                push_decimal(&mut out, *max_images as u64);
                push_str(&mut out, ", found=");
                push_decimal(&mut out, *found as u64);
            },
            MultimodalError::TooManyVideos { max_videos, found } => {
                push_str(&mut out, "multimodal video limit exceeded: max_videos=");
                push_decimal(&mut out, *max_videos as u64);
                push_str(&mut out, ", found=");
                push_decimal(&mut out, *found as u64);
            },
            MultimodalError::ImageTooLarge { input, size_bytes, max_bytes } => {
                push_str(&mut out, "multimodal image size limit exceeded for '");
                push_str(&mut out, input.as_str());
                push_str(&mut out, "': ");
                push_decimal(&mut out, *size_bytes as u64);
                push_str(&mut out, " bytes > ");
                push_decimal(&mut out, *max_bytes as u64);
                push_str(&mut out, " bytes");
            },
            MultimodalError::UnsupportedMime { input, mime } => {
                push_str(&mut out, "multimodal image MIME type is not allowed for '");
                push_str(&mut out, input.as_str());
                push_str(&mut out, "': ");
                push_str(&mut out, mime.as_str());
            },
            MultimodalError::RemoteFetchDisabled { input } => {
                push_str(&mut out, "multimodal remote image fetch is disabled for '");
                push_str(&mut out, input.as_str());
                push_str(&mut out, "'");
            },
            MultimodalError::ImageSourceNotFound { input } => {
                push_str(&mut out, "multimodal image source not found or unreadable: '");
                push_str(&mut out, input.as_str());
                push_str(&mut out, "'");
            },
            MultimodalError::InvalidMarker { input, reason } => {
                push_str(&mut out, "invalid multimodal image marker '");
                push_str(&mut out, input.as_str());
                push_str(&mut out, "': ");
                push_str(&mut out, reason.as_str());
            },
            MultimodalError::RemoteFetchFailed { input, reason } => {
                push_str(&mut out, "failed to download remote image '");
                push_str(&mut out, input.as_str());
                push_str(&mut out, "': ");
                push_str(&mut out, reason.as_str());
            },
            MultimodalError::LocalReadFailed { input, reason } => {
                push_str(&mut out, "failed to read local image '");
                push_str(&mut out, input.as_str());
                push_str(&mut out, "': ");
                push_str(&mut out, reason.as_str());
            },
        }
        out
    }
}


/// Whether `m` is an image MIME type that providers accept.
pub open spec fn allowed_image_mime(m: Seq<char>) -> bool {
    m == "image/png"@ || m == "image/jpeg"@ || m == "image/webp"@ || m == "image/gif"@ || m
        == "image/bmp"@
}

/// Whether `m` is a video MIME type that providers accept.
pub open spec fn allowed_video_mime(m: Seq<char>) -> bool {
    m == "video/mp4"@ || m == "video/webm"@ || m == "video/quicktime"@ || m == "video/x-matroska"@
        || m == "video/x-msvideo"@
}

/// Rejects a payload of `size_bytes` above `max_bytes`.
pub fn validate_size(source: &str, size_bytes: usize, max_bytes: usize) -> (r: Result<
    (),
    MultimodalError,
>)
    ensures
        r is Ok <==> size_bytes <= max_bytes,
        r matches Err(e) ==> e@ == (MultimodalFault::ImageTooLarge {
            input: source@,
            size_bytes: size_bytes as nat,
            max_bytes: max_bytes as nat,
        }),
{
    if size_bytes > max_bytes {
        return Err(
            MultimodalError::ImageTooLarge { input: source.to_owned(), size_bytes, max_bytes },
        );
    }
    Ok(())
}

/// Accepts only the image MIME types that providers support.
pub fn validate_mime(source: &str, mime: &str) -> (r: Result<(), MultimodalError>)
    ensures
        r is Ok <==> allowed_image_mime(mime@),
        r matches Err(e) ==> e@ == (MultimodalFault::UnsupportedMime {
            input: source@,
            mime: mime@,
        }),
{
    if str_eq(mime, "image/png") || str_eq(mime, "image/jpeg") || str_eq(mime, "image/webp")
        || str_eq(mime, "image/gif") || str_eq(mime, "image/bmp") {
        return Ok(());
    }
    Err(MultimodalError::UnsupportedMime { input: source.to_owned(), mime: mime.to_owned() })
}

/// Accepts only the video MIME types that providers support.
pub fn validate_video_mime(source: &str, mime: &str) -> (r: Result<(), MultimodalError>)
    ensures
        r is Ok <==> allowed_video_mime(mime@),
        r matches Err(e) ==> e@ == (MultimodalFault::UnsupportedMime {
            input: source@,
            mime: mime@,
        }),
{
    if str_eq(mime, "video/mp4") || str_eq(mime, "video/webm") || str_eq(mime, "video/quicktime")
        || str_eq(mime, "video/x-matroska") || str_eq(mime, "video/x-msvideo") {
        return Ok(());
    }
    Err(MultimodalError::UnsupportedMime { input: source.to_owned(), mime: mime.to_owned() })
}

/// The part of `s` before the first `c`, or all of `s`.
pub open spec fn before_char(s: Seq<char>, c: char) -> Seq<char> {
    match find_char(s, 0, c) {
        Some(i) => s.subrange(0, i),
        None => s,
    }
}

/// The MIME type of a `Content-Type` header value: before any `;`, trimmed, lower-cased;
/// `None` when that is empty.
pub open spec fn content_type_mime(ct: Seq<char>) -> Option<Seq<char>> {
    let m = lower_all(trim(before_char(ct, ';')));
    if m.len() == 0 {
        None
    } else {
        Some(m)
    }
}

fn before_char_end(v: &Vec<char>, c: char) -> (r: usize)
    ensures
        r <= v.len(),
        v@.subrange(0, r as int) == before_char(v@, c),
{
    match find_char_from(v, 0, c) {
        Some(i) => {
            proof {
                lemma_find_char_bounds(v@, 0, c);
            }
            i
        },
        None => {
            assert(v@.subrange(0, v@.len() as int) =~= v@);
            v.len()
        },
    }
}

fn vec_to_string(v: &Vec<char>) -> (r: String)
    ensures
        r@ == v@,
{
    assert(v@.subrange(0, v@.len() as int) =~= v@);
    string_of_range(v, 0, v.len())
}

/// The MIME type named by a `Content-Type` header value.
pub fn normalize_content_type(content_type: &str) -> (r: Option<String>)
    ensures
        match r {
            Some(m) => content_type_mime(content_type@) == Some(m@),
            None => content_type_mime(content_type@) is None,
        },
{
    let v = chars_of(content_type);
    let e = before_char_end(&v, ';');
    let (a, b) = trim_range(&v, 0, e);
    let m = lower_range(&v, a, b);
    if m.len() == 0 {
        None
    } else {
        Some(vec_to_string(&m))
    }
}

/// The MIME type of an image: from the response header when it names one, else from the file
/// extension, else from the leading bytes.
pub open spec fn detect_mime_spec(ext: Option<Seq<char>>, bytes: Seq<u8>, header: Option<Seq<char>>) -> Option<Seq<char>> {
    if header is Some && content_type_mime(header->0) is Some {
        content_type_mime(header->0)
    } else if ext is Some && image_ext_mime(ext->0) is Some {
        image_ext_mime(ext->0)
    } else {
        image_magic_mime(bytes)
    }
}

/// Detects the MIME type of an image payload; `extension` is that of the file it was read from.
pub fn detect_mime(extension: Option<&str>, bytes: &[u8], header_content_type: Option<&str>) -> (r:
    Option<String>)
    ensures
        match r {
            Some(m) => detect_mime_spec(opt_view(extension), bytes@, opt_view(header_content_type))
                == Some(m@),
            None => detect_mime_spec(opt_view(extension), bytes@, opt_view(header_content_type))
                is None,
        },
{
    if let Some(h) = header_content_type {
        if let Some(m) = normalize_content_type(h) {
            return Some(m);
        }
    }
    if let Some(e) = extension {
        if let Some(m) = mime_from_extension(e) {
            return Some(m.to_owned());
        }
    }
    match mime_from_magic(bytes) {
        Some(m) => Some(m.to_owned()),
        None => None,
    }
}


/// What `base64`'s standard engine decodes `text` to: the bytes, or the text of its error.
pub uninterp spec fn spec_base64_decode(text: Seq<char>) -> Result<Seq<u8>, Seq<char>>;

/// The base64 digit of a six-bit value.
pub open spec fn base64_digit(n: int) -> char {
    if n < 26 {
        (65 + n) as char
    } else if n < 52 {
        (97 + n - 26) as char
    } else if n < 62 {
        (48 + n - 52) as char
    } else if n == 62 {
        '+'
    } else {
        '/'
    }
}

/// Standard base64 with padding (RFC 4648, alphabet `A-Z a-z 0-9 + /`): each group of three
/// bytes becomes four digits of six bits each; a final group of one or two bytes becomes two
/// or three digits followed by `==` or `=`.
pub open spec fn standard_base64(bytes: Seq<u8>) -> Seq<char>
    decreases bytes.len(),
{
    if bytes.len() == 0 {
        Seq::empty()
    } else if bytes.len() == 1 {
        let a = bytes[0] as int;
        seq![base64_digit(a / 4), base64_digit((a % 4) * 16), '=', '=']
    } else if bytes.len() == 2 {
        let a = bytes[0] as int;
        let b = bytes[1] as int;
        seq![base64_digit(a / 4), base64_digit((a % 4) * 16 + b / 16), base64_digit((b % 16) * 4), '=']
    } else {
        let a = bytes[0] as int;
        let b = bytes[1] as int;
        let c = bytes[2] as int;
        seq![
            base64_digit(a / 4),
            base64_digit((a % 4) * 16 + b / 16),
            base64_digit((b % 16) * 4 + c / 64),
            base64_digit(c % 64),
        ] + standard_base64(bytes.skip(3))
    }
}

/// Decodes standard, padded base64 with `base64::engine::general_purpose::STANDARD.decode`;
/// an error is returned as its display text. The result is whatever the engine gives for
/// `text`, named `spec_base64_decode`.
#[verifier::external_body]
fn base64_decode(text: &str) -> (r: Result<Vec<u8>, String>)
    ensures
        match r {
            Ok(b) => spec_base64_decode(text@) == Ok::<Seq<u8>, Seq<char>>(b@),
            Err(e) => spec_base64_decode(text@) == Err::<Seq<u8>, Seq<char>>(e@),
        },
{
    STANDARD.decode(text).map_err(|e| e.to_string())
}

/// Encodes bytes as standard, padded base64 with
/// `base64::engine::general_purpose::STANDARD.encode`, the standard alphabet with padding
/// (`standard_base64`).
#[verifier::external_body]
fn base64_encode(bytes: &[u8]) -> (r: String)
    ensures
        r@ == standard_base64(bytes@),
{
    STANDARD.encode(bytes)
}

/// `s` with every leading repetition of `p` removed, as `str::trim_start_matches` does.
pub open spec fn strip_all_prefix(s: Seq<char>, p: Seq<char>) -> Seq<char>
    decreases s.len(),
{
    if p.len() > 0 && starts_with(s, p) {
        strip_all_prefix(s.subrange(p.len() as int, s.len() as int), p)
    } else {
        s
    }
}

/// The MIME type declared in the header of a data URI (`data:<mime>;...`).
pub open spec fn data_uri_mime(header: Seq<char>) -> Seq<char> {
    lower_all(trim(before_char(strip_all_prefix(header, "data:"@), ';')))
}

/// What `normalize_data_uri` yields for `source`: the canonical data URI, or the fault.
pub open spec fn data_uri_outcome(source: Seq<char>, max_bytes: nat) -> Result<Seq<char>, MultimodalFault> {
    match find_char(source, 0, ',') {
        None => Err(
            MultimodalFault::InvalidMarker { input: source, reason: "expected data URI payload"@ },
        ),
        Some(comma) => {
            let header = source.subrange(0, comma);
            let payload = trim(source.subrange(comma + 1, source.len() as int));
            let mime = data_uri_mime(header);
            if !contains_sub(header, ";base64"@) {
                Err(
                    MultimodalFault::InvalidMarker {
                        input: source,
                        reason: "only base64 data URIs are supported"@,
                    },
                )
            } else if !allowed_image_mime(mime) {
                Err(MultimodalFault::UnsupportedMime { input: source, mime })
            } else {
                match spec_base64_decode(payload) {
                    Err(e) => Err(
                        MultimodalFault::InvalidMarker {
                            input: source,
                            reason: "invalid base64 payload: "@ + e,
                        },
                    ),
                    Ok(bytes) => if bytes.len() > max_bytes {
                        Err(
                            MultimodalFault::ImageTooLarge {
                                input: source,
                                size_bytes: bytes.len(),
                                max_bytes,
                            },
                        )
                    } else {
                        Ok("data:"@ + mime + ";base64,"@ + standard_base64(bytes))
                    },
                }
            }
        },
    }
}

fn strip_all_prefix_start(v: &Vec<char>, hi: usize, p: &Vec<char>) -> (r: usize)
    requires
        hi <= v.len(),
    ensures
        r <= hi,
        v@.subrange(r as int, hi as int) == strip_all_prefix(v@.subrange(0, hi as int), p@),
{
    let mut a: usize = 0;
    while p.len() > 0 && a <= hi && p.len() <= hi - a && occurs_at_exec(v, a, p)
        invariant
            a <= hi <= v.len(),
            strip_all_prefix(v@.subrange(0, hi as int), p@) == strip_all_prefix(
                v@.subrange(a as int, hi as int),
                p@,
            ),
        decreases hi - a,
    {
        proof {
            let w = v@.subrange(a as int, hi as int);
            assert(w.subrange(0, p@.len() as int) =~= v@.subrange(a as int, a + p@.len()));
            assert(w.subrange(p@.len() as int, w.len() as int) =~= v@.subrange(
                a + p@.len(),
                hi as int,
            ));
        }
        a = a + p.len();
    }
    proof {
        let w = v@.subrange(a as int, hi as int);
        if p@.len() > 0 && starts_with(w, p@) {
            assert(w.subrange(0, p@.len() as int) =~= v@.subrange(a as int, a + p@.len()));
        }
    }
    a
}

/// Re-encodes a `data:` URI image reference after checking its MIME type, its base64 payload
/// and its decoded size.
pub fn normalize_data_uri(source: &str, max_bytes: usize) -> (r: Result<String, MultimodalError>)
    ensures
        match r {
            Ok(u) => data_uri_outcome(source@, max_bytes as nat) == Ok::<
                Seq<char>,
                MultimodalFault,
            >(u@),
            Err(e) => data_uri_outcome(source@, max_bytes as nat) == Err::<
                Seq<char>,
                MultimodalFault,
            >(e@),
        },
{
    let v = chars_of(source);
    let comma = match find_char_from(&v, 0, ',') {
        Some(c) => c,
        None => {
            return Err(
                MultimodalError::InvalidMarker {
                    input: source.to_owned(),
                    reason: "expected data URI payload".to_owned(),
                },
            );
        },
    };
    proof {
        lemma_find_char_bounds(v@, 0, ',');
    }
    let header = string_of_range(&v, 0, comma);
    let hv = chars_of(header.as_str());
    let (pa, pb) = trim_range(&v, comma + 1, v.len());
    let payload = string_of_range(&v, pa, pb);
    let b64 = chars_of(";base64");
    if find_sub_from(&hv, 0, &b64).is_none() {
        return Err(
            MultimodalError::InvalidMarker {
                input: source.to_owned(),
                reason: "only base64 data URIs are supported".to_owned(),
            },
        );
    }
    let dp = chars_of("data:");
    let s0 = strip_all_prefix_start(&hv, hv.len(), &dp);
    assert(hv@.subrange(0, hv@.len() as int) =~= hv@);
    let rest = string_of_range(&hv, s0, hv.len());
    let rv = chars_of(rest.as_str());
    let e = before_char_end(&rv, ';');
    let (ma, mb) = trim_range(&rv, 0, e);
    let mv = lower_range(&rv, ma, mb);
    let mime = vec_to_string(&mv);
    validate_mime(source, mime.as_str())?;
    let decoded = match base64_decode(payload.as_str()) {
        Ok(d) => d,
        Err(err) => {
            let mut reason = String::new();
            push_str(&mut reason, "invalid base64 payload: ");
            push_str(&mut reason, err.as_str());
            return Err(MultimodalError::InvalidMarker { input: source.to_owned(), reason });
        },
    };
    validate_size(source, decoded.len(), max_bytes)?;
    let mut out = String::new();
    push_str(&mut out, "data:");
    push_str(&mut out, mime.as_str());
    push_str(&mut out, ";base64,");
    let enc = base64_encode(decoded.as_slice());
    push_str(&mut out, enc.as_str());
    Ok(out)
}

/// The payload of an image reference for providers that take bare base64: the part after the
/// comma of a data URI, or the trimmed reference itself; `None` when that is empty.
pub open spec fn ollama_payload(r: Seq<char>) -> Option<Seq<char>> {
    if starts_with(r, "data:"@) {
        match find_char(r, 0, ',') {
            None => None,
            Some(i) => {
                let p = trim(r.subrange(i + 1, r.len() as int));
                if p.len() == 0 {
                    None
                } else {
                    Some(p)
                }
            },
        }
    } else {
        let p = trim(r);
        if p.len() == 0 {
            None
        } else {
            Some(p)
        }
    }
}

/// Extracts the base64 payload of an image reference.
pub fn extract_ollama_image_payload(image_ref: &str) -> (r: Option<String>)
    ensures
        match r {
            Some(p) => ollama_payload(image_ref@) == Some(p@),
            None => ollama_payload(image_ref@) is None,
        },
{
    let v = chars_of(image_ref);
    let dp = chars_of("data:");
    let (a, b) = if occurs_at_exec(&v, 0, &dp) {
        match find_char_from(&v, 0, ',') {
            None => return None,
            Some(i) => {
                proof {
                    lemma_find_char_bounds(v@, 0, ',');
                }
                trim_range(&v, i + 1, v.len())
            },
        }
    } else {
        assert(v@.subrange(0, v@.len() as int) =~= v@);
        trim_range(&v, 0, v.len())
    };
    if a == b {
        None
    } else {
        Some(string_of_range(&v, a, b))
    }
}

/// Where an image reference points.
pub enum ImageSourceKind {
    DataUri,
    Remote,
    Local,
}

/// Classifies an image reference, refusing remote URLs when remote fetching is off.
pub fn classify_image_reference(source: &str, allow_remote_fetch: bool) -> (r: Result<
    ImageSourceKind,
    MultimodalError,
>)
    ensures
        starts_with(source@, "data:"@) ==> r matches Ok(ImageSourceKind::DataUri),
        !starts_with(source@, "data:"@) && (starts_with(source@, "http://"@) || starts_with(
            source@,
            "https://"@,
        )) ==> if allow_remote_fetch {
            r matches Ok(ImageSourceKind::Remote)
        } else {
            (r matches Err(e) && e@ == (MultimodalFault::RemoteFetchDisabled { input: source@ }))
        },
        !starts_with(source@, "data:"@) && !starts_with(source@, "http://"@) && !starts_with(
            source@,
            "https://"@,
        ) ==> r matches Ok(ImageSourceKind::Local),
{
    let v = chars_of(source);
    let d = chars_of("data:");
    let h = chars_of("http://");
    let hs = chars_of("https://");
    if occurs_at_exec(&v, 0, &d) {
        return Ok(ImageSourceKind::DataUri);
    }
    if occurs_at_exec(&v, 0, &h) || occurs_at_exec(&v, 0, &hs) {
        if !allow_remote_fetch {
            return Err(MultimodalError::RemoteFetchDisabled { input: source.to_owned() });
        }
        return Ok(ImageSourceKind::Remote);
    }
    Ok(ImageSourceKind::Local)
}

/// Enforces the per-request image and video limits; gives the counts when within them.
pub fn check_media_limits(messages: &[ChatMessage], max_images: usize, max_videos: usize) -> (r:
    Result<(usize, usize), MultimodalError>)
    requires
        marker_count(messages@, image_prefix()) <= usize::MAX,
        marker_count(messages@, video_prefix()) <= usize::MAX,
    ensures
        marker_count(messages@, image_prefix()) > max_images ==> (r matches Err(e) && e@ == (
        MultimodalFault::TooManyImages {
            max_images: max_images as nat,
            found: marker_count(messages@, image_prefix()),
        })),
        marker_count(messages@, image_prefix()) <= max_images && marker_count(
            messages@,
            video_prefix(),
        ) > max_videos ==> (r matches Err(e) && e@ == (MultimodalFault::TooManyVideos {
            max_videos: max_videos as nat,
            found: marker_count(messages@, video_prefix()),
        })),
        marker_count(messages@, image_prefix()) <= max_images && marker_count(
            messages@,
            video_prefix(),
        ) <= max_videos ==> r == Ok::<(usize, usize), MultimodalError>(
            (
                marker_count(messages@, image_prefix()) as usize,
                marker_count(messages@, video_prefix()) as usize,
            ),
        ),
{
    let images = count_image_markers(messages);
    if images > max_images {
        return Err(MultimodalError::TooManyImages { max_images, found: images });
    }
    let videos = count_video_markers(messages);
    if videos > max_videos {
        return Err(MultimodalError::TooManyVideos { max_videos, found: videos });
    }
    Ok((images, videos))
}

/// Messages ready for a provider, and whether any carries images or videos.
pub struct PreparedMessages {
    pub messages: Vec<ChatMessage>,
    pub contains_images: bool,
    pub contains_videos: bool,
}

/// What a message carries for the provider to fetch: for a user message with markers, its
/// text without them and the image and video references (images are taken out first); `None`
/// for a message that passes through unchanged.
pub open spec fn message_media_spec(role: Seq<char>, content: Seq<char>) -> Option<
    (Seq<char>, Seq<Seq<char>>, Seq<Seq<char>>),
> {
    let (after_images, images) = parse_markers_spec(content, image_prefix());
    let (cleaned, videos) = parse_markers_spec(after_images, video_prefix());
    if role != "user"@ || (images.len() == 0 && videos.len() == 0) {
        None
    } else {
        Some((cleaned, images, videos))
    }
}

/// The text and media references of a message, or `None` when it passes through unchanged.
pub fn message_media(message: &ChatMessage) -> (r: Option<(String, Vec<String>, Vec<String>)>)
    ensures
        match r {
            Some((t, i, v)) => message_media_spec(message.role@, message.content@) == Some(
                (t@, views(i@), views(v@)),
            ),
            None => message_media_spec(message.role@, message.content@) is None,
        },
{
    let (after_images, images) = parse_image_markers(message.content.as_str());
    let (cleaned, videos) = parse_video_markers(after_images.as_str());
    if !str_eq(message.role.as_str(), "user") || (images.len() == 0 && videos.len() == 0) {
        return None;
    }
    Some((cleaned, images, videos))
}

/// The view of what `message_media` gives.
pub open spec fn media_view(o: Option<(String, Vec<String>, Vec<String>)>) -> Option<
    (Seq<char>, Seq<Seq<char>>, Seq<Seq<char>>),
> {
    match o {
        Some((t, i, v)) => Some((t@, views(i@), views(v@))),
        None => None,
    }
}

/// What preparing messages for a provider comes to before any media is read: the limit
/// errors of `check_media_limits`; otherwise `Ok(None)` when no message holds a marker, so
/// that the messages go to the provider unchanged, or `Ok(Some(media))` with what each
/// message, in order, has to normalise (`message_media`).
pub fn plan_media(messages: &[ChatMessage], max_images: usize, max_videos: usize) -> (r: Result<
    Option<Vec<Option<(String, Vec<String>, Vec<String>)>>>,
    MultimodalError,
>)
    requires
        marker_count(messages@, image_prefix()) <= usize::MAX,
        marker_count(messages@, video_prefix()) <= usize::MAX,
    ensures
        marker_count(messages@, image_prefix()) > max_images ==> (r matches Err(e) && e@ == (
        MultimodalFault::TooManyImages {
            max_images: max_images as nat,
            found: marker_count(messages@, image_prefix()),
        })),
        marker_count(messages@, image_prefix()) <= max_images && marker_count(
            messages@,
            video_prefix(),
        ) > max_videos ==> (r matches Err(e) && e@ == (MultimodalFault::TooManyVideos {
            max_videos: max_videos as nat,
            found: marker_count(messages@, video_prefix()),
        })),
        marker_count(messages@, image_prefix()) <= max_images && marker_count(
            messages@,
            video_prefix(),
        ) <= max_videos ==> if marker_count(messages@, image_prefix()) == 0 && marker_count(
            messages@,
            video_prefix(),
        ) == 0 {
            r matches Ok(None)
        } else {
            r matches Ok(Some(ms)) && ms@.len() == messages@.len() && forall|k: int|
                0 <= k < messages@.len() ==> #[trigger] media_view(ms@[k]) == message_media_spec(
                    messages@[k].role@,
                    messages@[k].content@,
                )
        },
{
    let (images, videos) = match check_media_limits(messages, max_images, max_videos) {
        Ok(c) => c,
        Err(e) => return Err(e),
    };
    if images == 0 && videos == 0 {
        return Ok(None);
    }
    let mut out: Vec<Option<(String, Vec<String>, Vec<String>)>> = Vec::new();
    let mut i: usize = 0;
    while i < messages.len()
        invariant
            i <= messages@.len(),
            out@.len() == i,
            forall|k: int|
                0 <= k < i ==> #[trigger] media_view(out@[k]) == message_media_spec(
                    messages@[k].role@,
                    messages@[k].content@,
                ),
        decreases messages.len() - i,
    {
        let m = message_media(&messages[i]);
        out.push(m);
        i = i + 1;
    }
    Ok(Some(out))
}

} // verus!
