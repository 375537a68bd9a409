//! The decisions of the Feishu Docs client: its endpoints, how a response is read, how long
//! a token is trusted, how requests are retried and spaced.
use vstd::prelude::*;
use crate::json::{as_i64, as_str, as_u64, get, ji64, jget, jstr, ju64, JsonValue};
use crate::text::push_str;

verus! {

/// The open API base the client talks to.
pub open spec fn feishu_base() -> Seq<char> {
    "https://open.feishu.cn/open-apis"@
}

/// `<base><path>`.
fn feishu_url(path: &str) -> (r: String)
    ensures
        r@ == feishu_base() + path@,
{
    let mut u = String::new();
    push_str(&mut u, "https://open.feishu.cn/open-apis");
    push_str(&mut u, path);
    u
}

/// Where the tenant access token is requested.
pub fn token_url() -> (r: String)
    ensures
        r@ == feishu_base() + "/auth/v3/tenant_access_token/internal"@,
{
    feishu_url("/auth/v3/tenant_access_token/internal")
}

/// Where the raw text of the document `document_id` is read.
pub fn raw_content_url(document_id: &str) -> (r: String)
    ensures
        r@ == feishu_base() + "/docx/v1/documents/"@ + document_id@ + "/raw_content"@,
{
    let mut u = feishu_url("/docx/v1/documents/");
    push_str(&mut u, document_id);
    push_str(&mut u, "/raw_content");
    u
}

/// Where the blocks of the document `document_id` are updated.
pub fn batch_update_url(document_id: &str) -> (r: String)
    ensures
        r@ == feishu_base() + "/docx/v1/documents/"@ + document_id@ + "/blocks/batch_update"@,
{
    let mut u = feishu_url("/docx/v1/documents/");
    push_str(&mut u, document_id);
    push_str(&mut u, "/blocks/batch_update");
    u
}

/// Where documents are created.
pub fn create_document_url() -> (r: String)
    ensures
        r@ == feishu_base() + "/docx/v1/documents"@,
{
    feishu_url("/docx/v1/documents")
}

/// Whether a response body reports success: its `code` is 0 (a missing code is not).
pub open spec fn code_ok(data: JsonValue) -> bool {
    ji64(jget(Some(data), "code"@)) == Some(0i64)
}

/// The `msg` of a response body, `unknown` where it has none.
pub open spec fn msg_or_unknown(data: JsonValue) -> Seq<char> {
    match jstr(jget(Some(data), "msg"@)) {
        Some(m) => m,
        None => "unknown"@,
    }
}

/// The `msg` of a response body, `unknown` where it has none.
fn msg_of(data: &JsonValue) -> (r: &str)
    ensures
        r@ == msg_or_unknown(*data),
{
    match as_str(get(Some(data), "msg")) {
        Some(m) => m,
        None => "unknown",
    }
}

/// Whether the response to the operation `op` succeeded: a failed HTTP status gives
/// `Feishu <op> failed: status=<status>, body=<body>`; a `code` other than 0 (or none)
/// gives `Feishu <op> error: <msg>`.
pub fn check_response(op: &str, status_ok: bool, status_text: &str, data: &JsonValue, body_text: &str) -> (r:
    Result<(), String>)
    ensures
        !status_ok ==> (r matches Err(e) && e@ == "Feishu "@ + op@ + " failed: status="@
            + status_text@ + ", body="@ + body_text@),
        status_ok && !code_ok(*data) ==> (r matches Err(e) && e@ == "Feishu "@ + op@ + " error: "@
            + msg_or_unknown(*data)),
        status_ok && code_ok(*data) ==> r is Ok,
{
    if !status_ok {
        let mut e = String::new();
        push_str(&mut e, "Feishu ");
        push_str(&mut e, op);
        push_str(&mut e, " failed: status=");
        push_str(&mut e, status_text);
        push_str(&mut e, ", body=");
        push_str(&mut e, body_text);
        return Err(e);
    }
    let code = match as_i64(get(Some(data), "code")) {
        Some(c) => c,
        None => -1,
    };
    if code != 0 {
        let mut e = String::new();
        push_str(&mut e, "Feishu ");
        push_str(&mut e, op);
        push_str(&mut e, " error: ");
        push_str(&mut e, msg_of(data));
        return Err(e);
    }
    Ok(())
}

/// The text of a document read: `data.content`, empty where it has none.
pub fn raw_content_of(data: &JsonValue) -> (r: String)
    ensures
        r@ == match jstr(jget(jget(Some(*data), "data"@), "content"@)) {
            Some(c) => c,
            None => Seq::empty(),
        },
{
    match as_str(get(get(Some(data), "data"), "content")) {
        Some(c) => c.to_string(),
        None => String::new(),
    }
}

/// The id of a created document, `data.document.document_id`.
pub fn created_document_id(data: &JsonValue) -> (r: Result<String, String>)
    ensures
        match jstr(jget(jget(jget(Some(*data), "data"@), "document"@), "document_id"@)) {
            Some(d) => r matches Ok(x) && x@ == d,
            None => r matches Err(e) && e@ == "missing document_id in create response"@,
        },
{
    match as_str(get(get(get(Some(data), "data"), "document"), "document_id")) {
        Some(d) => Ok(d.to_string()),
        None => Err("missing document_id in create response".to_string()),
    }
}

/// Seconds before the announced expiry at which the token is refreshed.
pub const TOKEN_REFRESH_SKEW_SECS: u64 = 120;

/// The token lifetime assumed when the response announces none.
pub const DEFAULT_TOKEN_TTL_SECS: u64 = 7200;

/// The lifetime a token response announces (`expire`, else `expires_in`, as an unsigned
/// number), the default where it announces none, and at least one second.
pub open spec fn announced_ttl(data: JsonValue) -> u64 {
    let field = match jget(Some(data), "expire"@) {
        Some(v) => Some(v),
        None => jget(Some(data), "expires_in"@),
    };
    let t = match ju64(field) {
        Some(n) => n,
        None => DEFAULT_TOKEN_TTL_SECS,
    };
    if t >= 1 {
        t
    } else {
        1
    }
}

/// How long a token is trusted: the announced lifetime less the skew, or one second when
/// the lifetime is shorter than the skew.
pub open spec fn trusted_secs(ttl: u64) -> u64 {
    if ttl >= TOKEN_REFRESH_SKEW_SECS {
        (ttl - TOKEN_REFRESH_SKEW_SECS) as u64
    } else {
        1
    }
}

/// Reads a token response: the token and how many seconds it is trusted, or why there is
/// none (a failed status, a `code` other than 0, no token).
pub fn token_from_response(status_ok: bool, status_text: &str, data: &JsonValue, body_text: &str) -> (r:
    Result<(String, u64), String>)
    ensures
        !status_ok ==> (r matches Err(e) && e@
            == "Feishu tenant_access_token request failed: status="@ + status_text@ + ", body="@
            + body_text@),
        status_ok && !code_ok(*data) ==> (r matches Err(e) && e@
            == "Feishu tenant_access_token failed: "@ + msg_or_unknown(*data)),
        status_ok && code_ok(*data) ==> match jstr(jget(Some(*data), "tenant_access_token"@)) {
            Some(t) => r matches Ok(p) && p.0@ == t && p.1 == trusted_secs(announced_ttl(*data)),
            None => r matches Err(e) && e@ == "missing tenant_access_token"@,
        },
{
    if !status_ok {
        let mut e = String::new();
        push_str(&mut e, "Feishu tenant_access_token request failed: status=");
        push_str(&mut e, status_text);
        push_str(&mut e, ", body=");
        push_str(&mut e, body_text);
        return Err(e);
    }
    let code = match as_i64(get(Some(data), "code")) {
        Some(c) => c,
        None => -1,
    };
    if code != 0 {
        let mut e = String::new();
        push_str(&mut e, "Feishu tenant_access_token failed: ");
        push_str(&mut e, msg_of(data));
        return Err(e);
    }
    let token = match as_str(get(Some(data), "tenant_access_token")) {
        Some(t) => t.to_string(),
        None => return Err("missing tenant_access_token".to_string()),
    };
    let field = match get(Some(data), "expire") {
        Some(v) => Some(v),
        None => get(Some(data), "expires_in"),
    };
    let announced = match as_u64(field) {
        Some(n) => n,
        None => DEFAULT_TOKEN_TTL_SECS,
    };
    let ttl = if announced >= 1 {
        announced
    } else {
        1
    };
    let trusted = if ttl >= TOKEN_REFRESH_SKEW_SECS {
        ttl - TOKEN_REFRESH_SKEW_SECS
    } else {
        1
    };
    Ok((token, trusted))
}

/// The most retries after the first attempt.
pub const RETRY_MAX_ATTEMPTS: u32 = 3;

/// The first pause between attempts, in milliseconds.
pub const RETRY_BASE_BACKOFF_MS: u64 = 1000;

/// The longest pause the backoff grows to, in milliseconds.
pub const RETRY_BACKOFF_CAP_MS: u64 = 10000;

/// The longest pause a `Retry-After` header may ask for, in milliseconds.
pub const RETRY_AFTER_CAP_MS: u64 = 30000;

/// How one attempt of a request ended.
pub enum AttemptOutcome {
    /// The request did not reach the server.
    NetworkError,
    /// The server answered with this status; `retry_after_ms` is the pause its
    /// `Retry-After` header asks for, where it has a readable one.
    Status { status: u16, retry_after_ms: Option<u64> },
}

/// What comes after an attempt.
#[derive(Debug, PartialEq, Eq)]
pub enum RetryStep {
    /// Hand the response to the caller.
    Deliver,
    /// Give up with the network error.
    Fail,
    /// Wait this long, then try again with this backoff.
    Retry { wait_ms: u64, next_backoff_ms: u64 },
}

/// The backoff after `backoff_ms`: doubled, at most the cap.
pub open spec fn next_backoff(backoff_ms: u64) -> u64 {
    if backoff_ms * 2 <= RETRY_BACKOFF_CAP_MS {
        (backoff_ms * 2) as u64
    } else {
        RETRY_BACKOFF_CAP_MS
    }
}

/// Decides what follows attempt `attempt` (from 0): success and client errors other than
/// 429 are delivered at once; on the last attempt a response is delivered and a network
/// error fails; otherwise the request is retried after the backoff, or for 429 after the
/// `Retry-After` pause (at most 30 s) where the response gives one.
pub fn retry_step(attempt: u32, outcome: &AttemptOutcome, backoff_ms: u64) -> (r: RetryStep)
    requires
        backoff_ms <= RETRY_BACKOFF_CAP_MS,
    ensures
        match *outcome {
            AttemptOutcome::NetworkError => if attempt >= RETRY_MAX_ATTEMPTS {
                r is Fail
            } else {
                r == RetryStep::Retry { wait_ms: backoff_ms, next_backoff_ms: next_backoff(backoff_ms) }
            },
            AttemptOutcome::Status { status, retry_after_ms } => if 200 <= status <= 299 || (400
                <= status <= 499 && status != 429) || attempt >= RETRY_MAX_ATTEMPTS {
                r is Deliver
            } else {
                r == RetryStep::Retry {
                    wait_ms: if status == 429 {
                        match retry_after_ms {
                            Some(w) => if w <= RETRY_AFTER_CAP_MS {
                                w
                            } else {
                                RETRY_AFTER_CAP_MS
                            },
                            None => backoff_ms,
                        }
                    } else {
                        backoff_ms
                    },
                    next_backoff_ms: next_backoff(backoff_ms),
                }
            },
        },
        r matches RetryStep::Retry { wait_ms, next_backoff_ms } ==> wait_ms <= RETRY_AFTER_CAP_MS
            && next_backoff_ms <= RETRY_BACKOFF_CAP_MS && attempt < RETRY_MAX_ATTEMPTS,
{
    let next = if backoff_ms <= RETRY_BACKOFF_CAP_MS / 2 {
        backoff_ms * 2
    } else {
        RETRY_BACKOFF_CAP_MS
    };
    match outcome {
        AttemptOutcome::NetworkError => if attempt >= RETRY_MAX_ATTEMPTS {
            RetryStep::Fail
        } else {
            RetryStep::Retry { wait_ms: backoff_ms, next_backoff_ms: next }
        },
        AttemptOutcome::Status { status, retry_after_ms } => {
            let s = *status;
            if (200 <= s && s <= 299) || (400 <= s && s <= 499 && s != 429) || attempt
                >= RETRY_MAX_ATTEMPTS {
                return RetryStep::Deliver;
            }
            let wait = if s == 429 {
                match retry_after_ms {
                    Some(w) => if *w <= RETRY_AFTER_CAP_MS {
                        *w
                    } else {
                        RETRY_AFTER_CAP_MS
                    },
                    None => backoff_ms,
                }
            } else {
                backoff_ms
            };
            RetryStep::Retry { wait_ms: wait, next_backoff_ms: next }
        },
    }
}

/// The shortest spacing of block updates, in milliseconds (three a second).
pub const BATCH_UPDATE_MIN_INTERVAL_MS: u64 = 334;

/// How long a block update waits when the previous one was `elapsed_ms` ago.
pub fn batch_update_wait_ms(elapsed_ms: u64) -> (r: u64)
    ensures
        r == if elapsed_ms < BATCH_UPDATE_MIN_INTERVAL_MS {
            (BATCH_UPDATE_MIN_INTERVAL_MS - elapsed_ms) as u64
        } else {
            0
        },
{
    if elapsed_ms < BATCH_UPDATE_MIN_INTERVAL_MS {
        BATCH_UPDATE_MIN_INTERVAL_MS - elapsed_ms
    } else {
        0
    }
}

} // verus!
