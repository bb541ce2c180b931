//! The capturing proxy's records: one exchange per request/response pair,
//! and the list of exchanges captured so far.

use vstd::prelude::*;

use crate::http::{self, StrMap, encode_body};
use crate::text;
use crate::text::{chars_of, parse_u16_in, skip_word, trimmed, word_ranges, line_ranges};

verus! {

broadcast use vstd::string::group_string_axioms;

/// One captured HTTP request and its response.
#[derive(Debug, Clone)]
pub struct CapturedExchange {
    /// RFC 3339 time of the capture.
    pub timestamp: String,
    /// Request method.
    pub method: String,
    /// Request target, as the client sent it.
    pub url: String,
    /// Request headers.
    pub request_headers: StrMap,
    /// Request body as Base64.
    pub request_body_base64: Option<String>,
    /// Request body as text, when it is UTF-8.
    pub request_body_text: Option<String>,
    /// Response status code.
    pub response_status: u16,
    /// Response status text: the rest of the status line after the code.
    pub response_reason: String,
    /// Response headers.
    pub response_headers: StrMap,
    /// Response body as Base64.
    pub response_body_base64: Option<String>,
    /// Response body as text, when it is UTF-8.
    pub response_body_text: Option<String>,
    /// Target host.
    pub host: String,
}

/// The two exchanges hold the same values, field by field.
pub open spec fn same_exchange(a: CapturedExchange, b: CapturedExchange) -> bool {
    &&& a.timestamp@ == b.timestamp@
    &&& a.method@ == b.method@
    &&& a.url@ == b.url@
    &&& a.request_headers@ == b.request_headers@
    &&& a.request_body_base64.deep_view() == b.request_body_base64.deep_view()
    &&& a.request_body_text.deep_view() == b.request_body_text.deep_view()
    &&& a.response_status == b.response_status
    &&& a.response_reason@ == b.response_reason@
    &&& a.response_headers@ == b.response_headers@
    &&& a.response_body_base64.deep_view() == b.response_body_base64.deep_view()
    &&& a.response_body_text.deep_view() == b.response_body_text.deep_view()
    &&& a.host@ == b.host@
}

fn copy_text(t: &Option<String>) -> (r: Option<String>)
    ensures
        r.deep_view() == t.deep_view(),
{
    match t {
        Some(s) => Some(s.clone()),
        None => None,
    }
}

impl CapturedExchange {
    /// A copy of this exchange.
    pub fn duplicate(&self) -> (r: CapturedExchange)
        ensures
            same_exchange(r, *self),
    {
        CapturedExchange {
            timestamp: self.timestamp.clone(),
            method: self.method.clone(),
            url: self.url.clone(),
            request_headers: self.request_headers.duplicate(),
            request_body_base64: copy_text(&self.request_body_base64),
            request_body_text: copy_text(&self.request_body_text),
            response_status: self.response_status,
            response_reason: self.response_reason.clone(),
            response_headers: self.response_headers.duplicate(),
            response_body_base64: copy_text(&self.response_body_base64),
            response_body_text: copy_text(&self.response_body_text),
            host: self.host.clone(),
        }
    }
}

/// The saved capture: how many exchanges, and the exchanges.
#[derive(Debug, Clone)]
pub struct CapturedLog {
    pub total_exchanges: usize,
    pub exchanges: Vec<CapturedExchange>,
}

impl CapturedLog {
    /// A log of the given exchanges.
    pub fn new(exchanges: Vec<CapturedExchange>) -> (r: CapturedLog)
        ensures
            r.total_exchanges == exchanges@.len(),
            r.exchanges@ == exchanges@,
    {
        CapturedLog { total_exchanges: exchanges.len(), exchanges }
    }
}

/// The exchanges captured by the proxy, in the order in which they were
/// recorded.
pub struct ProxyServer {
    captured: Vec<CapturedExchange>,
}

impl View for ProxyServer {
    type V = Seq<CapturedExchange>;

    closed spec fn view(&self) -> Seq<CapturedExchange> {
        self.captured@
    }
}

impl ProxyServer {
    /// A proxy that has captured nothing yet.
    pub fn new() -> (r: ProxyServer)
        ensures
            r@ == Seq::<CapturedExchange>::empty(),
    {
        ProxyServer { captured: Vec::new() }
    }

    /// Records one exchange; returns how many are captured now.
    pub fn record(&mut self, exchange: CapturedExchange) -> (r: usize)
        requires
            old(self)@.len() < usize::MAX,
        ensures
            final(self)@ == old(self)@.push(exchange),
            r == final(self)@.len(),
    {
        self.captured.push(exchange);
        self.captured.len()
    }

    /// Number of captured exchanges.
    pub fn capture_count(&self) -> (r: usize)
        ensures
            r == self@.len(),
    {
        self.captured.len()
    }

    /// The log to save: every exchange captured so far, in capture order,
    /// with their number. The captures themselves are kept.
    pub fn snapshot(&self) -> (r: CapturedLog)
        ensures
            r.total_exchanges == self@.len(),
            r.exchanges@.len() == self@.len(),
            forall|i: int| 0 <= i < self@.len() ==> same_exchange(#[trigger] r.exchanges@[i], self@[i]),
    {
        let mut out: Vec<CapturedExchange> = Vec::new();
        let mut i: usize = 0;
        while i < self.captured.len()
            invariant
                0 <= i <= self.captured@.len(),
                out@.len() == i,
                forall|k: int| 0 <= k < i ==> same_exchange(#[trigger] out@[k], self.captured@[k]),
            decreases self.captured.len() - i,
        {
            out.push(self.captured[i].duplicate());
            i = i + 1;
        }
        CapturedLog::new(out)
    }

    /// The captured exchanges.
    pub fn exchanges(&self) -> (r: &Vec<CapturedExchange>)
        ensures
            r@ == self@,
    {
        &self.captured
    }
}

/// The captures after recording `es` in order, one `record` call each,
/// starting from `s`.
pub open spec fn after_records(s: Seq<CapturedExchange>, es: Seq<CapturedExchange>) -> Seq<
    CapturedExchange,
>
    decreases es.len(),
{
    if es.len() == 0 {
        s
    } else {
        after_records(s, es.drop_last()).push(es.last())
    }
}

/// Recording only appends: after any run of `record` calls the earlier
/// captures are still there, in their order, followed by the new ones, so
/// the capture count never goes down and grows by one per record.
pub proof fn law_records_only_append(s: Seq<CapturedExchange>, es: Seq<CapturedExchange>)
    ensures
        after_records(s, es) == s + es,
        after_records(s, es).len() == s.len() + es.len(),
        after_records(s, es).take(s.len() as int) == s,
    decreases es.len(),
{
    if es.len() > 0 {
        law_records_only_append(s, es.drop_last());
        assert(s + es =~= (s + es.drop_last()).push(es.last()));
    } else {
        assert(s + es =~= s);
    }
    assert((s + es).take(s.len() as int) =~= s);
}

/// Status code and reason phrase of a response text: the second word of the
/// first line as a `u16`, and the rest of that line after it, trimmed
/// (empty when there is none).
pub open spec fn status_line(t: Seq<char>) -> Option<(u16, Seq<char>)> {
    match http::first_line(t) {
        None => None,
        Some(l) => {
            let ws = text::words(l);
            if ws.len() < 2 {
                None
            } else {
                match text::parse_u16(ws[1]) {
                    None => None,
                    Some(st) => Some((st, text::trim(text::after_words(l, 2)))),
                }
            }
        },
    }
}

/// Status and reason of the response in `cs`.
fn read_status(cs: &[char]) -> (r: Option<(u16, String)>)
    ensures
        match status_line(cs@) {
            Some((st, reason)) => r matches Some((rs, rr)) && rs == st && rr@ == reason,
            None => r is None,
        },
{
    let ranges = line_ranges(cs);
    if ranges.len() == 0 {
        return None;
    }
    let (a, b) = ranges[0];
    assert(text::lines(cs@)[0] == cs@.subrange(a as int, b as int));
    let ws = word_ranges(cs, a, b);
    if ws.len() < 2 {
        return None;
    }
    let status = match parse_u16_in(cs, ws[1].0, ws[1].1) {
        None => {
            return None;
        },
        Some(st) => st,
    };
    let p1 = skip_word(cs, a, b);
    let p2 = skip_word(cs, p1, b);
    proof {
        text::lemma_after_words_step(cs@.subrange(a as int, b as int), 2);
    }
    let reason = trimmed(cs, p2, b);
    Some((status, reason))
}

/// Reads a response and builds the record of its exchange with the given
/// request; `None` when the response has no status line with a numeric
/// code or no complete header block.
pub fn parse_response(
    method: &str,
    url: &str,
    host: &str,
    req_headers: &StrMap,
    req_body: &Option<Vec<u8>>,
    resp_data: &[u8],
    timestamp: String,
) -> (r: Option<CapturedExchange>)
    ensures
        match (status_line(http::utf8_lossy(resp_data@)), http::parsed_headers(http::utf8_lossy(resp_data@))) {
            (Some((st, reason)), Some((h, b))) => r matches Some(ex) && ex.timestamp@ == timestamp@
                && ex.method@ == method@ && ex.url@ == url@ && ex.host@ == host@
                && ex.request_headers@ == req_headers@ && (
                ex.request_body_base64.deep_view(),
                ex.request_body_text.deep_view(),
            ) == http::encoded_body(req_body.deep_view()) && ex.response_status == st
                && ex.response_reason@ == reason && ex.response_headers@ == h && (
                ex.response_body_base64.deep_view(),
                ex.response_body_text.deep_view(),
            ) == http::encoded_body(http::body_from(resp_data@, b)),
            _ => r is None,
        },
        vstd::utf8::valid_utf8(resp_data@) ==> http::utf8_lossy(resp_data@) == vstd::utf8::decode_utf8(
            resp_data@,
        ),
{
    let text = http::response_text(resp_data);
    let cs = chars_of(text.as_str());
    let (status, reason) = match read_status(cs.as_slice()) {
        None => {
            return None;
        },
        Some(x) => x,
    };
    let (resp_headers, start) = match http::parse_http_headers(resp_data) {
        Err(_) => {
            return None;
        },
        Ok(x) => x,
    };
    let resp_body = http::body_after(resp_data, start);
    let (req_b64, req_text) = encode_body(req_body);
    let (resp_b64, resp_text) = encode_body(&resp_body);
    Some(
        CapturedExchange {
            timestamp,
            method: method.to_string(),
            url: url.to_string(),
            request_headers: req_headers.duplicate(),
            request_body_base64: req_b64,
            request_body_text: req_text,
            response_status: status,
            response_reason: reason,
            response_headers: resp_headers,
            response_body_base64: resp_b64,
            response_body_text: resp_text,
            host: host.to_string(),
        },
    )
}

} // verus!
