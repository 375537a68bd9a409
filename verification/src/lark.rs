//! The Lark / Feishu channel: platform endpoints, tenant-token bookkeeping, outgoing
//! attachment markers and the text clean-up of incoming messages.
pub mod event;
pub mod fragments;
pub mod inbound;
pub mod streaming;
pub mod ws;

use vstd::prelude::*;
use crate::json::{as_i64, as_u64, get, jget, ji64, jstr, ju64, oref, JsonValue};
use crate::text::{
    chars_of, find_char, find_char_from, lemma_find_char_bounds, lower_all, lower_range, push_char,
    push_range, push_signed_decimal, push_str, range_eq, signed_decimal, starts_with, string_of_range,
    trim, trim_range, upper_all, upper_range,
};

verus! {

/// Lark (international) or Feishu (China).
#[derive(PartialEq, Eq, Structural, Clone, Copy, Debug)]
pub enum LarkPlatform {
    Lark,
    Feishu,
}

/// The channel name of a platform.
pub open spec fn platform_channel(p: LarkPlatform) -> Seq<char> {
    match p {
        LarkPlatform::Lark => "lark"@,
        LarkPlatform::Feishu => "feishu"@,
    }
}

impl LarkPlatform {
    /// The base URL of the open API.
    pub fn api_base(self) -> (r: &'static str)
        ensures
            r@ == (match self {
                LarkPlatform::Lark => "https://open.larksuite.com/open-apis"@,
                LarkPlatform::Feishu => "https://open.feishu.cn/open-apis"@,
            }),
    {
        match self {
            LarkPlatform::Lark => "https://open.larksuite.com/open-apis",
            LarkPlatform::Feishu => "https://open.feishu.cn/open-apis",
        }
    }

    /// The base URL of the WebSocket endpoint service.
    pub fn ws_base(self) -> (r: &'static str)
        ensures
            r@ == (match self {
                LarkPlatform::Lark => "https://open.larksuite.com"@,
                LarkPlatform::Feishu => "https://open.feishu.cn"@,
            }),
    {
        match self {
            LarkPlatform::Lark => "https://open.larksuite.com",
            LarkPlatform::Feishu => "https://open.feishu.cn",
        }
    }

    /// The channel name messages carry.
    pub fn channel_name(self) -> (r: &'static str)
        ensures
            r@ == platform_channel(self),
    {
        match self {
            LarkPlatform::Lark => "lark",
            LarkPlatform::Feishu => "feishu",
        }
    }

    /// The key of the platform's proxy setting.
    pub fn proxy_service_key(self) -> (r: &'static str)
        ensures
            r@ == (match self {
                LarkPlatform::Lark => "lark"@,
                LarkPlatform::Feishu => "feishu"@,
            }),
    {
        match self {
            LarkPlatform::Lark => "lark",
            LarkPlatform::Feishu => "feishu",
        }
    }

    /// The `locale` header the platform expects.
    pub fn locale_header(self) -> (r: &'static str)
        ensures
            r@ == (match self {
                LarkPlatform::Lark => "en_us"@,
                LarkPlatform::Feishu => "zh_cn"@,
            }),
    {
        match self {
            LarkPlatform::Lark => "en_us",
            LarkPlatform::Feishu => "zh_cn",
        }
    }
}

/// The open API base of a platform.
pub open spec fn api_base_of(p: LarkPlatform) -> Seq<char> {
    match p {
        LarkPlatform::Lark => "https://open.larksuite.com/open-apis"@,
        LarkPlatform::Feishu => "https://open.feishu.cn/open-apis"@,
    }
}

/// `<api base><path>`.
fn api_url(p: LarkPlatform, path: &str) -> (r: String)
    ensures
        r@ == api_base_of(p) + path@,
{
    let mut u = String::new();
    push_str(&mut u, p.api_base());
    push_str(&mut u, path);
    u
}

impl LarkPlatform {
    /// Where the tenant access token is requested.
    pub fn tenant_access_token_url(self) -> (r: String)
        ensures
            r@ == api_base_of(self) + "/auth/v3/tenant_access_token/internal"@,
    {
        api_url(self, "/auth/v3/tenant_access_token/internal")
    }

    /// Where messages to a chat are sent.
    pub fn send_message_url(self) -> (r: String)
        ensures
            r@ == api_base_of(self) + "/im/v1/messages?receive_id_type=chat_id"@,
    {
        api_url(self, "/im/v1/messages?receive_id_type=chat_id")
    }

    /// Where images are uploaded.
    pub fn upload_image_url(self) -> (r: String)
        ensures
            r@ == api_base_of(self) + "/im/v1/images"@,
    {
        api_url(self, "/im/v1/images")
    }

    /// Where files are uploaded.
    pub fn upload_file_url(self) -> (r: String)
        ensures
            r@ == api_base_of(self) + "/im/v1/files"@,
    {
        api_url(self, "/im/v1/files")
    }

    /// Where CardKit cards are created (and, below it by id, updated).
    pub fn cardkit_url(self) -> (r: String)
        ensures
            r@ == api_base_of(self) + "/cardkit/v1/cards"@,
    {
        api_url(self, "/cardkit/v1/cards")
    }

    /// Where the image `image_key` of the message `message_id` is downloaded.
    pub fn download_image_url(self, message_id: &str, image_key: &str) -> (r: String)
        ensures
            r@ == api_base_of(self) + "/im/v1/messages/"@ + message_id@ + "/resources/"@
                + image_key@ + "?type=image"@,
    {
        let mut u = api_url(self, "/im/v1/messages/");
        push_str(&mut u, message_id);
        push_str(&mut u, "/resources/");
        push_str(&mut u, image_key);
        push_str(&mut u, "?type=image");
        u
    }

    /// Where the file, audio or media `file_key` of the message `message_id` is downloaded.
    pub fn download_file_url(self, message_id: &str, file_key: &str, resource_type: &str) -> (r:
        String)
        ensures
            r@ == api_base_of(self) + "/im/v1/messages/"@ + message_id@ + "/resources/"@
                + file_key@ + "?type="@ + resource_type@,
    {
        let mut u = api_url(self, "/im/v1/messages/");
        push_str(&mut u, message_id);
        push_str(&mut u, "/resources/");
        push_str(&mut u, file_key);
        push_str(&mut u, "?type=");
        push_str(&mut u, resource_type);
        u
    }

    /// Where reactions to the message `message_id` are posted.
    pub fn message_reaction_url(self, message_id: &str) -> (r: String)
        ensures
            r@ == api_base_of(self) + "/im/v1/messages/"@ + message_id@ + "/reactions"@,
    {
        let mut u = api_url(self, "/im/v1/messages/");
        push_str(&mut u, message_id);
        push_str(&mut u, "/reactions");
        u
    }
}

/// The business code of an expired or invalid tenant access token.
pub const LARK_INVALID_ACCESS_TOKEN_CODE: i64 = 99991663;

/// Seconds before the announced expiry at which the tenant token is refreshed.
pub const LARK_TOKEN_REFRESH_SKEW_SECS: u64 = 120;

/// The token lifetime assumed when the response announces none.
pub const LARK_DEFAULT_TOKEN_TTL_SECS: u64 = 7200;

/// The `code` of a response body, where it is an integer.
pub fn extract_lark_response_code(body: &JsonValue) -> (r: Option<i64>)
    ensures
        r == ji64(jget(Some(*body), "code"@)),
{
    as_i64(get(Some(body), "code"))
}

/// Whether the body reports an invalid or expired tenant token.
pub fn is_lark_invalid_access_token(body: &JsonValue) -> (r: bool)
    ensures
        r == (ji64(jget(Some(*body), "code"@)) == Some(LARK_INVALID_ACCESS_TOKEN_CODE)),
{
    match extract_lark_response_code(body) {
        Some(c) => c == LARK_INVALID_ACCESS_TOKEN_CODE,
        None => false,
    }
}

/// Whether a response calls for a fresh tenant token: HTTP 401, or the invalid-token code.
pub fn should_refresh_lark_tenant_token(status: u16, body: &JsonValue) -> (r: bool)
    ensures
        r == (status == 401 || ji64(jget(Some(*body), "code"@)) == Some(
            LARK_INVALID_ACCESS_TOKEN_CODE,
        )),
{
    status == 401 || is_lark_invalid_access_token(body)
}

/// The token lifetime a token response announces: `expire`, or else `expires_in`, when the
/// first of them present is a non-negative integer; else the default; at least one second.
pub open spec fn token_ttl(body: JsonValue) -> u64 {
    let field = match jget(Some(body), "expire"@) {
        Some(v) => Some(v),
        None => jget(Some(body), "expires_in"@),
    };
    let ttl: u64 = match ju64(field) {
        Some(n) => n,
        None => match ji64(field) {
            Some(i) => if i >= 0 {
                i as u64
            } else {
                LARK_DEFAULT_TOKEN_TTL_SECS
            },
            None => LARK_DEFAULT_TOKEN_TTL_SECS,
        },
    };
    if ttl >= 1 {
        ttl
    } else {
        1
    }
}

/// The token lifetime, in seconds, that a token response announces.
pub fn extract_lark_token_ttl_seconds(body: &JsonValue) -> (r: u64)
    ensures
        r == token_ttl(*body),
{
    let field = match get(Some(body), "expire") {
        Some(v) => Some(v),
        None => get(Some(body), "expires_in"),
    };
    let ttl: u64 = match as_u64(field) {
        Some(n) => n,
        None => match as_i64(field) {
            Some(i) => if i >= 0 {
                i as u64
            } else {
                LARK_DEFAULT_TOKEN_TTL_SECS
            },
            None => LARK_DEFAULT_TOKEN_TTL_SECS,
        },
    };
    if ttl >= 1 {
        ttl
    } else {
        1
    }
}

/// Seconds from now until a token of the given lifetime is refreshed: the lifetime (at
/// least one second) less the skew, or one second when the lifetime is shorter than the skew.
pub fn token_refresh_delay_secs(ttl_seconds: u64) -> (r: u64)
    ensures
        r == (if ttl_seconds < 1 {
            1
        } else if ttl_seconds >= LARK_TOKEN_REFRESH_SKEW_SECS {
            (ttl_seconds - LARK_TOKEN_REFRESH_SKEW_SECS) as u64
        } else {
            1
        }),
{
    let ttl = if ttl_seconds < 1 {
        1
    } else {
        ttl_seconds
    };
    if ttl >= LARK_TOKEN_REFRESH_SKEW_SECS {
        ttl - LARK_TOKEN_REFRESH_SKEW_SECS
    } else {
        1
    }
}

/// A point in time, `std::time::Instant`.
#[verifier::external_type_specification]
#[verifier::external_body]
pub struct ExInstant(std::time::Instant);

/// What `Instant::checked_add` gives for `now` and a duration of `secs` seconds: the
/// instant that many seconds later, or `None` where the platform cannot represent it.
pub uninterp spec fn spec_instant_after(now: std::time::Instant, secs: u64) -> Option<
    std::time::Instant,
>;

/// `now` plus `secs` seconds, with `Instant::checked_add` on `Duration::from_secs(secs)`; the
/// result is named `spec_instant_after`. Which instants can be represented is the
/// platform's, and nothing more is stated of them.
#[verifier::external_body]
fn instant_after(now: std::time::Instant, secs: u64) -> (r: Option<std::time::Instant>)
    ensures
        r == spec_instant_after(now, secs),
{
    now.checked_add(std::time::Duration::from_secs(secs))
}

/// When a token fetched at `now` with the given lifetime is refreshed: `now` plus
/// `token_refresh_delay_secs(ttl_seconds)`, or `None` where that instant cannot be represented.
pub fn next_token_refresh_deadline(now: std::time::Instant, ttl_seconds: u64) -> (r: Option<
    std::time::Instant,
>)
    ensures
        r == spec_instant_after(
            now,
            if ttl_seconds < 1 {
                1
            } else if ttl_seconds >= LARK_TOKEN_REFRESH_SKEW_SECS {
                (ttl_seconds - LARK_TOKEN_REFRESH_SKEW_SECS) as u64
            } else {
                1
            },
        ),
{
    instant_after(now, token_refresh_delay_secs(ttl_seconds))
}

/// The error of a failed send, or `Ok` when the status is 2xx and the body's `code` (0 when
/// absent) is 0. `status_text` and `body_text` are how the status and the body print.
pub open spec fn send_outcome(
    status: u16,
    status_text: Seq<char>,
    body: JsonValue,
    body_text: Seq<char>,
    context: Seq<char>,
) -> Result<(), Seq<char>> {
    if !(200 <= status && status <= 299) {
        Err(
            "Lark send failed "@ + context + ": status="@ + status_text + ", body="@ + body_text,
        )
    } else {
        let code: i64 = match ji64(jget(Some(body), "code"@)) {
            Some(c) => c,
            None => 0,
        };
        if code != 0 {
            Err(
                "Lark send failed "@ + context + ": code="@ + signed_decimal(code as int)
                    + ", body="@ + body_text,
            )
        } else {
            Ok(())
        }
    }
}

/// Checks the outcome of a send request.
pub fn ensure_lark_send_success(
    status: u16,
    status_text: &str,
    body: &JsonValue,
    body_text: &str,
    context: &str,
) -> (r: Result<(), String>)
    ensures
        match send_outcome(status, status_text@, *body, body_text@, context@) {
            Ok(()) => r is Ok,
            Err(m) => r matches Err(e) && e@ == m,
        },
{
    if !(200 <= status && status <= 299) {
        let mut m = String::new();
        push_str(&mut m, "Lark send failed ");
        push_str(&mut m, context);
        push_str(&mut m, ": status=");
        push_str(&mut m, status_text);
        push_str(&mut m, ", body=");
        push_str(&mut m, body_text);
        return Err(m);
    }
    let code: i64 = match extract_lark_response_code(body) {
        Some(c) => c,
        None => 0,
    };
    if code != 0 {
        let mut m = String::new();
        push_str(&mut m, "Lark send failed ");
        push_str(&mut m, context);
        push_str(&mut m, ": code=");
        push_signed_decimal(&mut m, code);
        push_str(&mut m, ", body=");
        push_str(&mut m, body_text);
        return Err(m);
    }
    Ok(())
}

/// The Feishu upload `file_type` for a file extension, in any ASCII case.
pub open spec fn feishu_file_type(ext: Seq<char>) -> Seq<char> {
    let e = lower_all(ext);
    if e == "pdf"@ {
        "pdf"@
    } else if e == "doc"@ || e == "docx"@ {
        "doc"@
    } else if e == "xls"@ || e == "xlsx"@ {
        "xls"@
    } else if e == "ppt"@ || e == "pptx"@ {
        "ppt"@
    } else if e == "opus"@ || e == "ogg"@ {
        "opus"@
    } else if e == "mp4"@ {
        "mp4"@
    } else {
        "stream"@
    }
}

/// Maps a file extension to Feishu's upload `file_type`; unknown extensions are `stream`.
pub fn resolve_feishu_file_type(ext: &str) -> (r: &'static str)
    ensures
        r@ == feishu_file_type(ext@),
{
    let v = chars_of(ext);
    let e = lower_range(&v, 0, v.len());
    assert(v@.subrange(0, v@.len() as int) =~= v@);
    let n = e.len();
    assert(e@.subrange(0, n as int) =~= e@);
    if range_eq(&e, 0, n, "pdf") {
        "pdf"
    } else if range_eq(&e, 0, n, "doc") || range_eq(&e, 0, n, "docx") {
        "doc"
    } else if range_eq(&e, 0, n, "xls") || range_eq(&e, 0, n, "xlsx") {
        "xls"
    } else if range_eq(&e, 0, n, "ppt") || range_eq(&e, 0, n, "pptx") {
        "ppt"
    } else if range_eq(&e, 0, n, "opus") || range_eq(&e, 0, n, "ogg") {
        "opus"
    } else if range_eq(&e, 0, n, "mp4") {
        "mp4"
    } else {
        "stream"
    }
}

/// The length of the run of ASCII digits at the start of `s`.
pub open spec fn digit_run(s: Seq<char>) -> nat
    decreases s.len(),
{
    if s.len() > 0 && '0' <= s[0] && s[0] <= '9' {
        1 + digit_run(s.drop_first())
    } else {
        0
    }
}

/// The text after `@` that starts a mention placeholder.
pub open spec fn user_marker() -> Seq<char> {
    seq!['_', 'u', 's', 'e', 'r', '_']
}

/// `s` without the `@_user_<digits>` mention placeholders Feishu inserts, each with one
/// following space.
pub open spec fn strip_placeholders(s: Seq<char>) -> Seq<char>
    decreases s.len(),
{
    if s.len() == 0 {
        Seq::empty()
    } else if s[0] == '@' && starts_with(s.drop_first(), user_marker()) {
        let rest = s.skip(7);
        proof {
            lemma_digit_run_bound(rest);
        }
        let after = rest.skip(digit_run(rest) as int);
        if after.len() > 0 && after[0] == ' ' {
            strip_placeholders(after.drop_first())
        } else {
            strip_placeholders(after)
        }
    } else {
        seq![s[0]] + strip_placeholders(s.drop_first())
    }
}

pub proof fn lemma_digit_run_bound(s: Seq<char>)
    ensures
        digit_run(s) <= s.len(),
    decreases s.len(),
{
    if s.len() > 0 && '0' <= s[0] && s[0] <= '9' {
        lemma_digit_run_bound(s.drop_first());
    }
}

/// Removes the `@_user_N` placeholders that Feishu puts into group messages.
pub fn strip_at_placeholders(text: &str) -> (r: String)
    ensures
        r@ == strip_placeholders(text@),
{
    let v = chars_of(text);
    let marker = vec!['_', 'u', 's', 'e', 'r', '_'];
    assert(marker@ =~= user_marker());
    let mut out = String::new();
    let mut i: usize = 0;
    assert(v@.skip(0) =~= v@);
    while i < v.len()
        invariant
            i <= v.len(),
            marker@ == user_marker(),
            strip_placeholders(v@) == out@ + strip_placeholders(v@.skip(i as int)),
        decreases v.len() - i,
    {
        let ghost s = v@.skip(i as int);
        assert(s[0] == v@[i as int]);
        assert(s.drop_first() =~= v@.skip(i + 1));
        let is_marker = v[i] == '@' && v.len() - (i + 1) >= 6 && crate::text::occurs_at_exec(
            &v,
            i + 1,
            &marker,
        );
        proof {
            if v@[i as int] == '@' {
                if v.len() - (i + 1) >= 6 {
                    assert(v@.skip(i + 1).subrange(0, 6) =~= v@.subrange(i + 1, i + 7));
                }
            }
        }
        assert(is_marker == (s[0] == '@' && starts_with(s.drop_first(), user_marker())));
        if is_marker {
            let mut j = i + 7;
            assert(v@.skip(j as int) =~= s.skip(7));
            let ghost rest = s.skip(7);
            while j < v.len() && '0' <= v[j] && v[j] <= '9'
                invariant
                    i + 7 <= j <= v.len(),
                    rest == v@.skip(i + 7),
                    digit_run(rest) == (j - (i + 7)) + digit_run(v@.skip(j as int)),
                decreases v.len() - j,
            {
                assert(v@.skip(j as int).drop_first() =~= v@.skip(j + 1));
                j = j + 1;
            }
            assert(rest.skip(digit_run(rest) as int) =~= v@.skip(j as int));
            if j < v.len() && v[j] == ' ' {
                assert(v@.skip(j as int).drop_first() =~= v@.skip(j + 1));
                j = j + 1;
            }
            i = j;
        } else {
            push_char(&mut out, v[i]);
            i = i + 1;
        }
    }
    assert(v@.skip(i as int) =~= Seq::<char>::empty());
    out
}

/// The kinds of attachment an outgoing message can carry.
#[derive(PartialEq, Eq, Structural, Clone, Copy, Debug)]
pub enum LarkAttachmentKind {
    Image,
    Document,
    Audio,
    Video,
}

/// An attachment marker of an outgoing message.
#[derive(PartialEq, Eq, Clone, Debug)]
pub struct LarkAttachment {
    pub kind: LarkAttachmentKind,
    pub target: String,
}

/// The attachment kind a marker names, in any ASCII case.
pub open spec fn attachment_kind(name: Seq<char>) -> Option<LarkAttachmentKind> {
    let k = upper_all(trim(name));
    if k == "IMAGE"@ {
        Some(LarkAttachmentKind::Image)
    } else if k == "DOCUMENT"@ {
        Some(LarkAttachmentKind::Document)
    } else if k == "AUDIO"@ {
        Some(LarkAttachmentKind::Audio)
    } else if k == "VIDEO"@ {
        Some(LarkAttachmentKind::Video)
    } else {
        None
    }
}

/// Scans `s` from `cursor` for `[KIND:target]` markers: returns the text kept (before the
/// final trim) and the attachments found. A bracketed text that is not a known kind with a
/// non-empty target stays in the text; a `[` with no `]` after it ends the scan.
pub open spec fn scan_attachments(s: Seq<char>, cursor: int) -> (
    Seq<char>,
    Seq<(LarkAttachmentKind, Seq<char>)>,
)
    decreases s.len() - cursor,
{
    if cursor < 0 || cursor >= s.len() {
        (Seq::empty(), Seq::empty())
    } else {
        match find_char(s, cursor, '[') {
            None => (s.subrange(cursor, s.len() as int), Seq::empty()),
            Some(open) => {
                proof {
                    lemma_find_char_bounds(s, cursor, '[');
                }
                match find_char(s, open, ']') {
                    None => (s.subrange(cursor, s.len() as int), Seq::empty()),
                    Some(close) => {
                        proof {
                            lemma_find_char_bounds(s, open, ']');
                        }
                        let rest = scan_attachments(s, close + 1);
                        let found = match find_char(s, open + 1, ':') {
                            Some(colon) => if colon < close {
                                let target = trim(s.subrange(colon + 1, close));
                                match attachment_kind(s.subrange(open + 1, colon)) {
                                    Some(kind) => if target.len() > 0 {
                                        Some((kind, target))
                                    } else {
                                        None
                                    },
                                    None => None,
                                }
                            } else {
                                None
                            },
                            None => None,
                        };
                        match found {
                            Some(a) => (s.subrange(cursor, open) + rest.0, seq![a] + rest.1),
                            None => (s.subrange(cursor, close + 1) + rest.0, rest.1),
                        }
                    },
                }
            },
        }
    }
}

/// The view of a list of attachments.
pub open spec fn attachment_views(v: Seq<LarkAttachment>) -> Seq<(LarkAttachmentKind, Seq<char>)> {
    v.map_values(|a: LarkAttachment| (a.kind, a.target@))
}

/// The attachment a marker body `s[open+1..close]` names, if any.
fn marker_attachment(v: &Vec<char>, open: usize, close: usize) -> (r: Option<LarkAttachment>)
    requires
        open < close <= v.len(),
    ensures
        match r {
            Some(a) => (match find_char(v@, open + 1, ':') {
                Some(colon) => colon < close && attachment_kind(v@.subrange(open + 1, colon))
                    == Some(a.kind) && trim(v@.subrange(colon + 1, close as int)) == a.target@
                    && a.target@.len() > 0,
                None => false,
            }),
            None => match find_char(v@, open + 1, ':') {
                Some(colon) => colon < close ==> (match attachment_kind(
                    v@.subrange(open + 1, colon),
                ) {
                    Some(k) => trim(v@.subrange(colon + 1, close as int)).len() == 0,
                    None => true,
                }),
                None => true,
            },
        },
{
    let colon = match find_char_from(v, open + 1, ':') {
        Some(c) => c,
        None => return None,
    };
    proof {
        lemma_find_char_bounds(v@, open + 1, ':');
    }
    if colon >= close {
        return None;
    }
    let (ka, kb) = trim_range(v, open + 1, colon);
    let k = upper_range(v, ka, kb);
    let n = k.len();
    assert(k@.subrange(0, n as int) =~= k@);
    let kind = if range_eq(&k, 0, n, "IMAGE") {
        LarkAttachmentKind::Image
    } else if range_eq(&k, 0, n, "DOCUMENT") {
        LarkAttachmentKind::Document
    } else if range_eq(&k, 0, n, "AUDIO") {
        LarkAttachmentKind::Audio
    } else if range_eq(&k, 0, n, "VIDEO") {
        LarkAttachmentKind::Video
    } else {
        return None;
    };
    let (ta, tb) = trim_range(v, colon + 1, close);
    if ta == tb {
        return None;
    }
    Some(LarkAttachment { kind, target: string_of_range(v, ta, tb) })
}

/// Takes the `[IMAGE:…]`, `[DOCUMENT:…]`, `[AUDIO:…]` and `[VIDEO:…]` markers (kind in any
/// ASCII case, target trimmed and non-empty) out of an outgoing message. Returns the rest of
/// the text, trimmed, and the attachments in order.
pub fn parse_lark_attachment_markers(message: &str) -> (r: (String, Vec<LarkAttachment>))
    ensures
        r.0@ == trim(scan_attachments(message@, 0).0),
        attachment_views(r.1@) == scan_attachments(message@, 0).1,
{
    let s = chars_of(message);
    let mut cleaned = String::new();
    let mut found: Vec<LarkAttachment> = Vec::new();
    let mut cursor: usize = 0;
    let ghost full = scan_attachments(s@, 0);
    while cursor < s.len()
        invariant
            cursor <= s.len(),
            full == scan_attachments(s@, 0),
            full.0 == cleaned@ + scan_attachments(s@, cursor as int).0,
            full.1 == attachment_views(found@) + scan_attachments(s@, cursor as int).1,
        decreases s.len() - cursor,
    {
        let ghost old_cleaned = cleaned@;
        let ghost old_found = attachment_views(found@);
        let open = match find_char_from(&s, cursor, '[') {
            None => {
                push_range(&mut cleaned, &s, cursor, s.len());
                assert(attachment_views(found@) + Seq::<(LarkAttachmentKind, Seq<char>)>::empty()
                    =~= attachment_views(found@));
                assert(scan_attachments(s@, s.len() as int).0 =~= Seq::<char>::empty());
                assert(cleaned@ + Seq::<char>::empty() =~= cleaned@);
                cursor = s.len();
                continue;
            },
            Some(o) => o,
        };
        proof {
            lemma_find_char_bounds(s@, cursor as int, '[');
        }
        let close = match find_char_from(&s, open, ']') {
            None => {
                push_range(&mut cleaned, &s, cursor, s.len());
                assert(attachment_views(found@) + Seq::<(LarkAttachmentKind, Seq<char>)>::empty()
                    =~= attachment_views(found@));
                assert(scan_attachments(s@, s.len() as int).0 =~= Seq::<char>::empty());
                assert(cleaned@ + Seq::<char>::empty() =~= cleaned@);
                cursor = s.len();
                continue;
            },
            Some(c) => c,
        };
        proof {
            lemma_find_char_bounds(s@, open as int, ']');
        }
        let ghost rest = scan_attachments(s@, close + 1);
        match marker_attachment(&s, open, close) {
            Some(a) => {
                push_range(&mut cleaned, &s, cursor, open);
                let ghost av = (a.kind, a.target@);
                found.push(a);
                assert(attachment_views(found@) =~= old_found.push(av));
                assert(old_cleaned + (s@.subrange(cursor as int, open as int) + rest.0)
                    =~= cleaned@ + rest.0);
                assert(old_found + (seq![av] + rest.1) =~= attachment_views(found@) + rest.1);
            },
            None => {
                push_range(&mut cleaned, &s, cursor, close + 1);
                assert(old_cleaned + (s@.subrange(cursor as int, close + 1) + rest.0)
                    =~= cleaned@ + rest.0);
            },
        }
        cursor = close + 1;
    }
    assert(scan_attachments(s@, cursor as int).0 =~= Seq::<char>::empty());
    assert(scan_attachments(s@, cursor as int).1 =~= Seq::<(LarkAttachmentKind, Seq<char>)>::empty());
    assert(cleaned@ + Seq::<char>::empty() =~= cleaned@);
    assert(attachment_views(found@) + Seq::<(LarkAttachmentKind, Seq<char>)>::empty()
        =~= attachment_views(found@));
    let cv = chars_of(cleaned.as_str());
    let (a, b) = trim_range(&cv, 0, cv.len());
    assert(cv@.subrange(0, cv@.len() as int) =~= cv@);
    (string_of_range(&cv, a, b), found)
}

/// The targets of the image attachments, in order.
pub open spec fn image_targets(atts: Seq<(LarkAttachmentKind, Seq<char>)>) -> Seq<Seq<char>>
    decreases atts.len(),
{
    if atts.len() == 0 {
        Seq::empty()
    } else {
        image_targets(atts.drop_last()) + (if atts.last().0 == LarkAttachmentKind::Image {
            seq![atts.last().1]
        } else {
            Seq::empty()
        })
    }
}

/// Takes the attachment markers out of a message and keeps only the image targets.
pub fn parse_lark_image_markers(message: &str) -> (r: (String, Vec<String>))
    ensures
        r.0@ == trim(scan_attachments(message@, 0).0),
        r.1@.map_values(|t: String| t@) == image_targets(scan_attachments(message@, 0).1),
{
    let (text, attachments) = parse_lark_attachment_markers(message);
    let mut images: Vec<String> = Vec::new();
    let mut i: usize = 0;
    while i < attachments.len()
        invariant
            i <= attachments.len(),
            images@.map_values(|t: String| t@) == image_targets(
                attachment_views(attachments@.take(i as int)),
            ),
        decreases attachments.len() - i,
    {
        assert(attachment_views(attachments@.take(i + 1)).drop_last() =~= attachment_views(
            attachments@.take(i as int),
        ));
        if attachments[i].kind == LarkAttachmentKind::Image {
            images.push(attachments[i].target.clone());
        }
        assert(images@.map_values(|t: String| t@) =~= image_targets(
            attachment_views(attachments@.take(i + 1)),
        ));
        i = i + 1;
    }
    assert(attachments@.take(attachments@.len() as int) =~= attachments@);
    (text, images)
}

/// Reads the response to a tenant-token request: a failed HTTP status fails with the status
/// and body as printed (`status_text`, `body_text`); a `code` other than 0 (or none) fails
/// with the response's `msg`; else the `tenant_access_token` and its lifetime in seconds.
pub fn tenant_token_from_response(
    status_ok: bool,
    status_text: &str,
    data: &JsonValue,
    body_text: &str,
) -> (r: Result<(String, u64), String>)
    ensures
        !status_ok ==> (r matches Err(e) && e@ == "Lark tenant_access_token request failed: status="@
            + status_text@ + ", body="@ + body_text@),
        status_ok && ji64(jget(Some(*data), "code"@)) != Some(0i64) ==> (r matches Err(e) && e@
            == "Lark tenant_access_token failed: "@ + match jstr(jget(Some(*data), "msg"@)) {
            Some(m) => m,
            None => "unknown error"@,
        }),
        status_ok && ji64(jget(Some(*data), "code"@)) == Some(0i64) ==> match jstr(
            jget(Some(*data), "tenant_access_token"@),
        ) {
            Some(t) => r matches Ok(p) && p.0@ == t && p.1 == token_ttl(*data),
            None => r matches Err(e) && e@ == "missing tenant_access_token in response"@,
        },
{
    if !status_ok {
        let mut e = String::new();
        push_str(&mut e, "Lark tenant_access_token request failed: status=");
        push_str(&mut e, status_text);
        push_str(&mut e, ", body=");
        push_str(&mut e, body_text);
        return Err(e);
    }
    let code = match extract_lark_response_code(data) {
        Some(c) => c,
        None => -1,
    };
    if code != 0 {
        let msg = match crate::json::as_str(get(Some(data), "msg")) {
            Some(m) => m,
            None => "unknown error",
        };
        let mut e = String::new();
        push_str(&mut e, "Lark tenant_access_token failed: ");
        push_str(&mut e, msg);
        return Err(e);
    }
    match crate::json::as_str(get(Some(data), "tenant_access_token")) {
        Some(t) => Ok((t.to_string(), extract_lark_token_ttl_seconds(data))),
        None => Err("missing tenant_access_token in response".to_string()),
    }
}

} // verus!
