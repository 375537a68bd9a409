//! The Lark / Feishu WebSocket long connection: protocol frames, heartbeat timing, and the
//! reassembly of events that arrive in fragments.
use vstd::prelude::*;
use crate::hooks::reload::{all_digits, digits_value, parse_u64_range, parse_u64_spec, unsigned_digits};
use crate::text::{
    chars_of, find_char, find_char_from, lemma_find_char_bounds, push_decimal, push_str,
    signed_decimal, starts_with, str_eq,
};

verus! {

/// One header of a protocol frame.
#[derive(Clone, Debug)]
pub struct PbHeader {
    pub key: String,
    pub value: String,
}

/// A protocol frame: method 0 is control (ping, pong), method 1 carries data.
#[derive(Clone, Debug)]
pub struct PbFrame {
    pub seq_id: u64,
    pub log_id: u64,
    pub service: i32,
    pub method: i32,
    pub headers: Vec<PbHeader>,
    pub payload: Option<Vec<u8>>,
}

/// The value of the first header named `key`, or empty.
pub open spec fn header_of(hs: Seq<PbHeader>, key: Seq<char>) -> Seq<char>
    decreases hs.len(),
{
    if hs.len() == 0 {
        Seq::empty()
    } else if hs[0].key@ == key {
        hs[0].value@
    } else {
        header_of(hs.drop_first(), key)
    }
}

impl PbFrame {
    /// The value of the first header named `key`, or the empty string.
    pub fn header_value<'a>(&'a self, key: &str) -> (r: &'a str)
        ensures
            r@ == header_of(self.headers@, key@),
    {
        let mut i: usize = 0;
        assert(self.headers@.skip(0) =~= self.headers@);
        while i < self.headers.len()
            invariant
                i <= self.headers.len(),
                header_of(self.headers@, key@) == header_of(self.headers@.skip(i as int), key@),
            decreases self.headers.len() - i,
        {
            assert(self.headers@.skip(i as int)[0] == self.headers@[i as int]);
            if str_eq(self.headers[i].key.as_str(), key) {
                return self.headers[i].value.as_str();
            }
            assert(self.headers@.skip(i as int).drop_first() =~= self.headers@.skip(i + 1));
            i = i + 1;
        }
        proof {
            reveal_strlit("");
        }
        ""
    }
}

/// A decoded event, handed to every subscriber.
#[derive(Clone, Debug)]
pub struct LarkWsEvent {
    pub event_type: String,
    pub payload: Vec<u8>,
}

/// The ping a client sends: a control frame with the header `type: ping`.
pub fn ping_frame(seq: u64, service: i32) -> (f: PbFrame)
    ensures
        f.seq_id == seq,
        f.log_id == 0,
        f.service == service,
        f.method == 0,
        f.headers@.len() == 1,
        f.headers@[0].key@ == "type"@,
        f.headers@[0].value@ == "ping"@,
        f.payload is None,
{
    PbFrame {
        seq_id: seq,
        log_id: 0,
        service,
        method: 0,
        headers: vec![PbHeader { key: "type".to_owned(), value: "ping".to_owned() }],
        payload: None,
    }
}

/// The acknowledgement of a data frame: the same frame with a `200` response as its payload
/// and the header `biz_rt: 0` appended.
pub fn ack_frame(frame: &PbFrame) -> (f: PbFrame)
    ensures
        f.seq_id == frame.seq_id,
        f.log_id == frame.log_id,
        f.service == frame.service,
        f.method == frame.method,
        f.headers@.len() == frame.headers@.len() + 1,
        forall|i: int|
            0 <= i < frame.headers@.len() ==> #[trigger] f.headers@[i].key@ == frame.headers@[i].key@
                && f.headers@[i].value@ == frame.headers@[i].value@,
        f.headers@.last().key@ == "biz_rt"@,
        f.headers@.last().value@ == "0"@,
        f.payload matches Some(p) && p@ == ack_body_bytes(),
{
    let mut headers: Vec<PbHeader> = Vec::new();
    let mut i: usize = 0;
    while i < frame.headers.len()
        invariant
            i <= frame.headers.len(),
            headers@.len() == i,
            forall|j: int|
                0 <= j < i ==> #[trigger] headers@[j].key@ == frame.headers@[j].key@
                    && headers@[j].value@ == frame.headers@[j].value@,
        decreases frame.headers.len() - i,
    {
        headers.push(
            PbHeader {
                key: frame.headers[i].key.clone(),
                value: frame.headers[i].value.clone(),
            },
        );
        i = i + 1;
    }
    headers.push(PbHeader { key: "biz_rt".to_owned(), value: "0".to_owned() });
    let body = ack_body();
    PbFrame {
        seq_id: frame.seq_id,
        log_id: frame.log_id,
        service: frame.service,
        method: frame.method,
        headers,
        payload: Some(body),
    }
}

/// The acknowledgement body `{"code":200,"headers":{},"data":[]}`, as ASCII bytes.
pub open spec fn ack_body_bytes() -> Seq<u8> {
    seq![
        123, 34, 99, 111, 100, 101,
        34, 58, 50, 48, 48, 44, 34, 104, 101, 97, 100, 101, 114, 115, 34, 58, 123, 125, 44, 34, 100, 97, 116, 97, 34, 58, 91, 93, 125,
    ]
}

/// The bytes of the acknowledgement body.
fn ack_body() -> (b: Vec<u8>)
    ensures
        b@ == ack_body_bytes(),
{
    let b: Vec<u8> = vec![
        123, 34, 99, 111, 100, 101,
        34, 58, 50, 48, 48, 44, 34, 104, 101, 97, 100, 101, 114, 115, 34, 58, 123, 125, 44, 34, 100, 97, 116, 97, 34, 58, 91, 93, 125,
    ];
    assert(b@ =~= ack_body_bytes());
    b
}

/// The text after the first `c`, up to the next `c` (as `split(c).nth(1)`).
pub open spec fn second_segment(s: Seq<char>, c: char) -> Option<Seq<char>> {
    match find_char(s, 0, c) {
        None => None,
        Some(i) => Some(first_segment(s.skip(i + 1), c)),
    }
}

/// The text before the first `c` (as `split(c).next()`).
pub open spec fn first_segment(s: Seq<char>, c: char) -> Seq<char> {
    match find_char(s, 0, c) {
        None => s,
        Some(i) => s.take(i),
    }
}

/// The first `&`-separated parameter of `qs` that starts with `service_id=`.
pub open spec fn service_param(qs: Seq<char>) -> Option<Seq<char>>
    decreases qs.len(),
{
    let seg = first_segment(qs, '&');
    if starts_with(seg, "service_id="@) {
        Some(seg)
    } else {
        match find_char(qs, 0, '&') {
            None => None,
            Some(i) => if 0 <= i < qs.len() {
                service_param(qs.skip(i + 1))
            } else {
                None
            },
        }
    }
}

/// What `str::parse::<i32>` gives: an optional sign, then one or more ASCII digits whose value
/// fits in 32 bits.
pub open spec fn parse_i32_spec(s: Seq<char>) -> Option<i32> {
    if s.len() > 0 && s[0] == '-' {
        let d = s.drop_first();
        if d.len() == 0 || !all_digits(d) || digits_value(d) > 2147483648 {
            None
        } else {
            Some((0 - digits_value(d)) as i32)
        }
    } else {
        let d = unsigned_digits(s);
        if d.len() == 0 || !all_digits(d) || digits_value(d) > 2147483647 {
            None
        } else {
            Some(digits_value(d) as i32)
        }
    }
}

/// The service id a connection URL carries in its query (`service_id=<n>`), or 0.
pub open spec fn service_id_of(url: Seq<char>) -> i32 {
    match second_segment(url, '?') {
        None => 0,
        Some(qs) => match service_param(qs) {
            None => 0,
            Some(kv) => match second_segment(kv, '=') {
                None => 0,
                Some(v) => match parse_i32_spec(v) {
                    Some(n) => n,
                    None => 0,
                },
            },
        },
    }
}

/// The characters `v[lo..]` up to the first `c`, as a vector.
fn segment_until(v: &Vec<char>, lo: usize, c: char) -> (r: Vec<char>)
    requires
        lo <= v.len(),
    ensures
        r@ == first_segment(v@.skip(lo as int), c),
{
    let mut out: Vec<char> = Vec::new();
    let mut i = lo;
    while i < v.len() && v[i] != c
        invariant
            lo <= i <= v.len(),
            out@ == v@.subrange(lo as int, i as int),
            forall|k: int| lo <= k < i ==> v@[k] != c,
        decreases v.len() - i,
    {
        out.push(v[i]);
        assert(v@.subrange(lo as int, i + 1) =~= v@.subrange(lo as int, i as int).push(v@[i as int]));
        i = i + 1;
    }
    proof {
        let s = v@.skip(lo as int);
        lemma_find_char_bounds(s, 0, c);
        if i < v.len() {
            assert(s[i - lo] == c);
            assert(forall|k: int| 0 <= k < i - lo ==> s[k] != c);
            match find_char(s, 0, c) {
                Some(j) => {
                    assert(j == i - lo);
                },
                None => {},
            }
            assert(s.take(i - lo) =~= out@);
        } else {
            assert(forall|k: int| 0 <= k < s.len() ==> s[k] != c);
            assert(s =~= out@);
        }
    }
    out
}

/// Reads an `i32` as `str::parse` does.
pub fn parse_i32_chars(v: &Vec<char>) -> (r: Option<i32>)
    ensures
        r == parse_i32_spec(v@),
{
    if v.len() > 0 && v[0] == '-' {
        if v.len() == 1 || v[1] == '+' {
            proof {
                if v.len() > 1 {
                    assert(!all_digits(v@.drop_first())) by {
                        assert(v@.drop_first()[0] == '+');
                    }
                }
            }
            return None;
        }
        let ghost d = v@.drop_first();
        assert(v@.subrange(1, v@.len() as int) =~= d);
        assert(unsigned_digits(d) == d);
        match parse_u64_range(v, 1, v.len()) {
            Some(n) => if n <= 2147483648 {
                Some((0 - (n as i64)) as i32)
            } else {
                None
            },
            None => None,
        }
    } else {
        assert(v@.subrange(0, v@.len() as int) =~= v@);
        match parse_u64_range(v, 0, v.len()) {
            Some(n) => if n <= 2147483647 {
                Some(n as i32)
            } else {
                None
            },
            None => None,
        }
    }
}

/// The first `&`-separated parameter of `qs` that starts with `service_id=`.
fn find_service_param(qs: &Vec<char>) -> (r: Option<Vec<char>>)
    ensures
        match service_param(qs@) {
            Some(p) => r matches Some(x) && x@ == p,
            None => r is None,
        },
{
    let mut start: usize = 0;
    assert(qs@.skip(0) =~= qs@);
    let key = chars_of("service_id=");
    while start <= qs.len()
        invariant
            start <= qs.len(),
            key@ == "service_id="@,
            service_param(qs@) == service_param(qs@.skip(start as int)),
        decreases qs.len() - start,
    {
        let seg = segment_until(qs, start, '&');
        let is_param = seg.len() >= key.len() && crate::text::occurs_at_exec(&seg, 0, &key);
        assert(is_param == starts_with(seg@, "service_id="@));
        if is_param {
            return Some(seg);
        }
        let ghost rest = qs@.skip(start as int);
        match find_char_from(qs, start, '&') {
            None => {
                proof {
                    crate::docs_sync::lemma_find_char_skip(qs@, start as int, '&', 0);
                }
                return None;
            },
            Some(amp) => {
                proof {
                    lemma_find_char_bounds(qs@, start as int, '&');
                    crate::docs_sync::lemma_find_char_skip(qs@, start as int, '&', 0);
                    assert(rest.skip(amp - start + 1) =~= qs@.skip(amp + 1));
                }
                start = amp + 1;
            },
        }
    }
    None
}

/// The service id a connection URL carries, or 0.
pub fn service_id_from_url(url: &str) -> (r: i32)
    ensures
        r == service_id_of(url@),
{
    let v = chars_of(url);
    let q = match find_char_from(&v, 0, '?') {
        None => return 0,
        Some(q) => q,
    };
    proof {
        lemma_find_char_bounds(v@, 0, '?');
    }
    let qs = segment_until(&v, q + 1, '?');
    assert(second_segment(v@, '?') == Some(qs@));
    let kv = find_service_param(&qs);
    let kv = match kv {
        Some(kv) => kv,
        None => return 0,
    };
    let eq = match find_char_from(&kv, 0, '=') {
        None => return 0,
        Some(e) => e,
    };
    proof {
        lemma_find_char_bounds(kv@, 0, '=');
    }
    let value = segment_until(&kv, eq + 1, '=');
    match parse_i32_chars(&value) {
        Some(n) => n,
        None => 0,
    }
}

/// The ping interval a connection starts with: the server's, else 30 seconds; at least 10.
pub fn initial_ping_secs(configured: Option<u64>) -> (r: u64)
    ensures
        r == (match configured {
            Some(s) => if s >= 10 {
                s
            } else {
                10
            },
            None => 30,
        }),
{
    let s = match configured {
        Some(s) => s,
        None => 30,
    };
    if s >= 10 {
        s
    } else {
        10
    }
}

/// The new ping interval after a pong that announces one: the announced value (at least 10
/// seconds) when it differs from the current one, else `None`.
pub fn pong_ping_update(current_secs: u64, announced: Option<u64>) -> (r: Option<u64>)
    ensures
        r == (match announced {
            Some(s) => {
                let t: u64 = if s >= 10 {
                    s
                } else {
                    10
                };
                if t != current_secs {
                    Some(t)
                } else {
                    None
                }
            },
            None => None,
        }),
{
    match announced {
        Some(s) => {
            let t: u64 = if s >= 10 {
                s
            } else {
                10
            };
            if t != current_secs {
                Some(t)
            } else {
                None
            }
        },
        None => None,
    }
}

/// The wait before the next heartbeat check: doubled, at most ten seconds.
pub fn next_timeout_backoff_ms(current_ms: u64) -> (r: u64)
    ensures
        r == (if 2 * current_ms <= 10000 {
            2 * current_ms
        } else {
            10000
        }),
{
    if current_ms <= 5000 {
        current_ms * 2
    } else {
        10000
    }
}

/// The wait, in milliseconds, after live traffic.
pub const INITIAL_TIMEOUT_BACKOFF_MS: u64 = 500;

/// Whether the connection is dead: nothing live received for over five minutes.
pub fn heartbeat_expired(elapsed_nanos: u128) -> (r: bool)
    ensures
        r == (elapsed_nanos > 300_000_000_000),
{
    elapsed_nanos > 300_000_000_000
}

/// The kinds of WebSocket message.
#[derive(PartialEq, Eq, Structural, Clone, Copy, Debug)]
pub enum WsMessageKind {
    Text,
    Binary,
    Ping,
    Pong,
    Close,
    Frame,
}

/// Whether a message counts as live traffic for the heartbeat watchdog: binary data, pings
/// and pongs.
pub fn should_refresh_last_recv(kind: WsMessageKind) -> (r: bool)
    ensures
        r == (kind == WsMessageKind::Binary || kind == WsMessageKind::Ping || kind
            == WsMessageKind::Pong),
{
    match kind {
        WsMessageKind::Binary | WsMessageKind::Ping | WsMessageKind::Pong => true,
        _ => false,
    }
}

/// What `str::parse::<usize>` gives.
pub open spec fn parse_usize_spec(s: Seq<char>) -> Option<usize> {
    match parse_u64_spec(s) {
        Some(n) => if n <= usize::MAX {
            Some(n as usize)
        } else {
            None
        },
        None => None,
    }
}

fn parse_usize_str(s: &str) -> (r: Option<usize>)
    ensures
        r == parse_usize_spec(s@),
{
    let v = chars_of(s);
    assert(v@.subrange(0, v@.len() as int) =~= v@);
    match parse_u64_range(&v, 0, v.len()) {
        Some(n) => if n <= usize::MAX as u64 {
            Some(n as usize)
        } else {
            None
        },
        None => None,
    }
}

/// Where a data frame belongs: the number of fragments of its message (`sum`, 1 when absent
/// or unreadable) and its own index (`seq`, 0 when absent or unreadable).
pub fn fragment_position(frame: &PbFrame) -> (r: (usize, usize))
    ensures
        r.0 == (match parse_usize_spec(header_of(frame.headers@, "sum"@)) {
            Some(n) => n,
            None => 1,
        }),
        r.1 == (match parse_usize_spec(header_of(frame.headers@, "seq"@)) {
            Some(n) => n,
            None => 0,
        }),
{
    let sum = match parse_usize_str(frame.header_value("sum")) {
        Some(n) => n,
        None => 1,
    };
    let seq = match parse_usize_str(frame.header_value("seq")) {
        Some(n) => n,
        None => 0,
    };
    (sum, seq)
}

/// The outcome of asking for a connection endpoint: the URL and the announced ping
/// interval, or the error.
pub fn check_ws_endpoint(
    code: i32,
    msg: Option<String>,
    data: Option<(String, Option<u64>)>,
) -> (r: Result<(String, Option<u64>), String>)
    ensures
        code != 0 ==> (r matches Err(e) && e@ == "Lark WS endpoint failed: code="@ + signed_decimal(
            code as int,
        ) + " msg="@ + (match msg {
            Some(m) => m@,
            None => "(none)"@,
        })),
        code == 0 ==> match data {
            Some(d) => r matches Ok(x) && x.0@ == d.0@ && x.1 == d.1,
            None => r matches Err(e) && e@ == "Lark WS endpoint: empty data"@,
        },
{
    if code != 0 {
        let mut e = String::new();
        push_str(&mut e, "Lark WS endpoint failed: code=");
        crate::text::push_signed_decimal(&mut e, code as i64);
        push_str(&mut e, " msg=");
        match &msg {
            Some(m) => push_str(&mut e, m.as_str()),
            None => push_str(&mut e, "(none)"),
        }
        return Err(e);
    }
    match data {
        Some(d) => Ok(d),
        None => Err("Lark WS endpoint: empty data".to_owned()),
    }
}

} // verus!
