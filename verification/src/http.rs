//! HTTP message parsing for the capturing proxy: request and status lines,
//! header blocks, bodies, and the requests forwarded to the origin server.

use vstd::prelude::*;
use vstd::utf8::{decode_utf8, valid_utf8};

use crate::text;
use crate::text::{append_str, chars_of, find_in, line_ranges, next_index_of, parse_u16_in, push_char, string_of, trimmed, utf8_prefix_len, word_ranges};
use base64::Engine as _;

verus! {

broadcast use vstd::string::group_string_axioms;

// ---------------------------------------------------------------------------
// Outside calls
// ---------------------------------------------------------------------------

/// What `String::from_utf8_lossy` gives for a byte sequence.
pub uninterp spec fn utf8_lossy(bytes: Seq<u8>) -> Seq<char>;

/// Calls `String::from_utf8_lossy`. Claimed: the result is named
/// `utf8_lossy` of the bytes, and it is the decoded text when the bytes
/// are valid UTF-8 (as the documentation says, no replacement happens then).
#[verifier::external_body]
fn lossy_text(data: &[u8]) -> (r: String)
    ensures
        r@ == utf8_lossy(data@),
        valid_utf8(data@) ==> r@ == decode_utf8(data@),
        vstd::utf8::encode_utf8(r@).len() <= isize::MAX,
{
    String::from_utf8_lossy(data).into_owned()
}

/// The text of a message, as `String::from_utf8_lossy` reads it.
pub(crate) fn response_text(data: &[u8]) -> (r: String)
    ensures
        r@ == utf8_lossy(data@),
        valid_utf8(data@) ==> utf8_lossy(data@) == decode_utf8(data@),
{
    lossy_text(data)
}

/// Calls `String::from_utf8`. Claimed: it succeeds exactly on valid UTF-8,
/// and then holds the decoded characters.
#[verifier::external_body]
fn utf8_string(data: &[u8]) -> (r: Option<String>)
    ensures
        r is Some <==> valid_utf8(data@),
        r matches Some(s) ==> s@ == decode_utf8(data@),
{
    String::from_utf8(data.to_vec()).ok()
}

/// The character of the standard Base64 alphabet (`A`-`Z`, `a`-`z`,
/// `0`-`9`, `+`, `/`) for a six-bit value.
pub open spec fn base64_digit(v: int) -> char {
    if v < 26 {
        ('A' as int + v) as char
    } else if v < 52 {
        ('a' as int + v - 26) as char
    } else if v < 62 {
        ('0' as int + v - 52) as char
    } else if v == 62 {
        '+'
    } else {
        '/'
    }
}

/// Base64 with the standard alphabet and `=` padding (RFC 4648, section 4):
/// each group of three bytes gives four characters of six bits each; a last
/// group of one or two bytes is filled with zero bits and padded with `=`.
pub open spec fn base64_standard(b: Seq<u8>) -> Seq<char>
    decreases b.len(),
{
    if b.len() == 0 {
        seq![]
    } else if b.len() == 1 {
        seq![base64_digit(b[0] as int / 4), base64_digit((b[0] % 4) * 16), '=', '=']
    } else if b.len() == 2 {
        seq![
            base64_digit(b[0] as int / 4),
            base64_digit((b[0] % 4) * 16 + b[1] / 16),
            base64_digit((b[1] % 16) * 4),
            '=',
        ]
    } else {
        seq![
            base64_digit(b[0] as int / 4),
            base64_digit((b[0] % 4) * 16 + b[1] / 16),
            base64_digit((b[1] % 16) * 4 + b[2] / 64),
            base64_digit(b[2] as int % 64),
        ] + base64_standard(b.skip(3))
    }
}

/// Calls `STANDARD.encode` of the `base64` crate. Claimed: the result is
/// `base64_standard` of the bytes (the engine `STANDARD` is the standard
/// alphabet with padding, and `encode` writes the RFC 4648 encoding).
#[verifier::external_body]
pub(crate) fn base64_encode(data: &[u8]) -> (r: String)
    ensures
        r@ == base64_standard(data@),
{
    base64::engine::general_purpose::STANDARD.encode(data)
}

/// The parts of a URL that `url::Url::parse` reports when it accepts the
/// text: host (`host_str`), explicit non-default port (`port`), `path`,
/// and `query`; `None` when the text does not parse.
pub uninterp spec fn url_parts(s: Seq<char>) -> Option<
    (Option<Seq<char>>, Option<u16>, Seq<char>, Option<Seq<char>>),
>;

/// The parts of a parsed URL, as plain values.
pub struct UrlParts {
    pub host: Option<String>,
    pub port: Option<u16>,
    pub path: String,
    pub query: Option<String>,
}

/// Calls `url::Url::parse` and reads `host_str`, `port`, `path` and `query`
/// of the result. Claimed: the result is named `url_parts` of the text.
#[verifier::external_body]
fn parse_url(s: &str) -> (r: Option<UrlParts>)
    ensures
        r is Some <==> url_parts(s@) is Some,
        r matches Some(p) ==> url_parts(s@) == Some(
            (p.host.deep_view(), p.port, p.path@, p.query.deep_view()),
        ),
{
    match url::Url::parse(s) {
        Ok(u) => Some(
            UrlParts {
                host: u.host_str().map(|h| h.to_string()),
                port: u.port(),
                path: u.path().to_string(),
                query: u.query().map(|q| q.to_string()),
            },
        ),
        Err(_) => None,
    }
}

// ---------------------------------------------------------------------------
// String maps (header fields, cookie jars)
// ---------------------------------------------------------------------------

/// Index of the first entry whose key is `k`, or -1.
pub open spec fn key_index(m: Seq<(Seq<char>, Seq<char>)>, k: Seq<char>) -> int
    decreases m.len(),
{
    if m.len() == 0 {
        -1
    } else if m[0].0 == k {
        0
    } else {
        let r = key_index(m.drop_first(), k);
        if r < 0 {
            -1
        } else {
            r + 1
        }
    }
}

/// `HashMap::insert`: the value of `k` becomes `v`.
pub open spec fn map_insert(m: Seq<(Seq<char>, Seq<char>)>, k: Seq<char>, v: Seq<char>) -> Seq<
    (Seq<char>, Seq<char>),
> {
    let i = key_index(m, k);
    if i < 0 {
        m.push((k, v))
    } else {
        m.update(i, (k, v))
    }
}

/// `HashMap::get`.
pub open spec fn map_lookup(m: Seq<(Seq<char>, Seq<char>)>, k: Seq<char>) -> Option<Seq<char>> {
    let i = key_index(m, k);
    if i < 0 {
        None
    } else {
        Some(m[i].1)
    }
}

/// `HashMap::remove`: `k` has no value any more.
pub open spec fn map_remove(m: Seq<(Seq<char>, Seq<char>)>, k: Seq<char>) -> Seq<(Seq<char>, Seq<char>)> {
    let i = key_index(m, k);
    if i < 0 {
        m
    } else {
        m.remove(i)
    }
}

/// `HashMap::entry(k).or_insert(v)`: `k` gets the value `v` unless it
/// has one.
pub open spec fn map_insert_if_absent(m: Seq<(Seq<char>, Seq<char>)>, k: Seq<char>, v: Seq<char>) -> Seq<
    (Seq<char>, Seq<char>),
> {
    if key_index(m, k) < 0 {
        m.push((k, v))
    } else {
        m
    }
}

/// No name occurs twice.
pub open spec fn keys_distinct(m: Seq<(Seq<char>, Seq<char>)>) -> bool {
    forall|i: int, j: int| 0 <= i < j < m.len() ==> (#[trigger] m[i]).0 != (#[trigger] m[j]).0
}

/// `key_index` finds the only entry with a name, or says there is none.
pub proof fn lemma_key_index_exact(m: Seq<(Seq<char>, Seq<char>)>, k: Seq<char>)
    ensures
        -1 <= key_index(m, k) < m.len(),
        key_index(m, k) >= 0 ==> m[key_index(m, k)].0 == k,
        key_index(m, k) >= 0 ==> forall|j: int| 0 <= j < key_index(m, k) ==> m[j].0 != k,
        key_index(m, k) < 0 ==> forall|j: int| 0 <= j < m.len() ==> m[j].0 != k,
    decreases m.len(),
{
    if m.len() > 0 && m[0].0 != k {
        lemma_key_index_exact(m.drop_first(), k);
        assert forall|j: int| 0 < j < m.len() implies m[j] == m.drop_first()[j - 1] by {}
    }
}

/// Two maps that have the same entries named `k`, at the same places,
/// read the same value for `k`.
proof fn lemma_lookup_congruent(m: Seq<(Seq<char>, Seq<char>)>, m2: Seq<(Seq<char>, Seq<char>)>, k: Seq<char>)
    requires
        m.len() <= m2.len(),
        forall|j: int| 0 <= j < m.len() ==> ((#[trigger] m[j]).0 == k) == (m2[j].0 == k),
        forall|j: int| 0 <= j < m.len() && m[j].0 == k ==> (#[trigger] m2[j]).1 == m[j].1,
        forall|j: int| m.len() <= j < m2.len() ==> (#[trigger] m2[j]).0 != k,
    ensures
        map_lookup(m2, k) == map_lookup(m, k),
{
    lemma_key_index_exact(m, k);
    lemma_key_index_exact(m2, k);
    let a = key_index(m, k);
    let b = key_index(m2, k);
    if a >= 0 {
        assert(m2[a].0 == k);
        if b < a {
            assert(m[b].0 == k);
        }
    } else if b >= 0 {
        if b < m.len() {
            assert(m[b].0 == k);
        } else {
            assert(m2[b].0 != k);
        }
    }
}

/// After setting a name, reading it gives the value set, and reading any
/// other name gives what it gave before.
pub proof fn law_lookup_after_insert(m: Seq<(Seq<char>, Seq<char>)>, k: Seq<char>, v: Seq<char>, other: Seq<char>)
    ensures
        map_lookup(map_insert(m, k, v), k) == Some(v),
        other != k ==> map_lookup(map_insert(m, k, v), other) == map_lookup(m, other),
        keys_distinct(m) ==> keys_distinct(map_insert(m, k, v)),
{
    let m2 = map_insert(m, k, v);
    lemma_key_index_exact(m, k);
    lemma_key_index_exact(m, other);
    lemma_key_index_exact(m2, k);
    lemma_key_index_exact(m2, other);
    let i = key_index(m, k);
    if i < 0 {
        assert(m2[m.len() as int].0 == k);
    } else {
        assert(m2[i].0 == k);
    }
    if other != k {
        lemma_lookup_congruent(m, m2, other);
    }
}

/// After removing a name from a map without repeated names, reading it
/// gives nothing, and reading any other name gives what it gave before.
pub proof fn law_lookup_after_remove(m: Seq<(Seq<char>, Seq<char>)>, k: Seq<char>, other: Seq<char>)
    requires
        keys_distinct(m),
    ensures
        map_lookup(map_remove(m, k), k) is None,
        other != k ==> map_lookup(map_remove(m, k), other) == map_lookup(m, other),
        keys_distinct(map_remove(m, k)),
{
    let m2 = map_remove(m, k);
    lemma_key_index_exact(m, k);
    lemma_key_index_exact(m, other);
    lemma_key_index_exact(m2, k);
    lemma_key_index_exact(m2, other);
    let i = key_index(m, k);
    if i >= 0 {
        let a = key_index(m, other);
        let b = key_index(m2, other);
        if other != k {
            if b >= 0 {
                if b < i {
                    assert(m2[b] == m[b]);
                } else {
                    assert(m2[b] == m[b + 1]);
                }
            }
            if a >= 0 {
                if a < i {
                    assert(m2[a] == m[a]);
                } else {
                    assert(m2[a - 1] == m[a]);
                }
            }
        }
        assert(keys_distinct(m2)) by {
            assert forall|x: int, y: int| 0 <= x < y < m2.len() implies (#[trigger] m2[x]).0 != (#[trigger] m2[y]).0 by {
                let x1 = if x < i { x } else { x + 1 };
                let y1 = if y < i { y } else { y + 1 };
                assert(m2[x] == m[x1]);
                assert(m2[y] == m[y1]);
            }
        }
    }
}

/// Setting a name only when it has no value keeps a value it has, and
/// reads the new value otherwise.
pub proof fn law_insert_if_absent(m: Seq<(Seq<char>, Seq<char>)>, k: Seq<char>, v: Seq<char>, other: Seq<char>)
    ensures
        map_lookup(m, k) is Some ==> map_insert_if_absent(m, k, v) == m,
        map_lookup(m, k) is None ==> map_lookup(map_insert_if_absent(m, k, v), k) == Some(v),
        other != k ==> map_lookup(map_insert_if_absent(m, k, v), other) == map_lookup(m, other),
        keys_distinct(m) ==> keys_distinct(map_insert_if_absent(m, k, v)),
{
    let m2 = map_insert_if_absent(m, k, v);
    lemma_key_index_exact(m, k);
    lemma_key_index_exact(m, other);
    lemma_key_index_exact(m2, k);
    lemma_key_index_exact(m2, other);
    if key_index(m, k) < 0 {
        assert(m2[m.len() as int].0 == k);
    }
    if other != k {
        lemma_lookup_congruent(m, m2, other);
    }
}

proof fn lemma_key_index(m: Seq<(Seq<char>, Seq<char>)>, k: Seq<char>, i: int)
    requires
        0 <= i <= m.len(),
        forall|j: int| 0 <= j < i ==> m[j].0 != k,
        i == m.len() || m[i].0 == k,
    ensures
        key_index(m, k) == if i < m.len() {
            i
        } else {
            -1
        },
    decreases m.len(),
{
    if m.len() > 0 && m[0].0 != k {
        lemma_key_index(m.drop_first(), k, i - 1);
    }
}

/// A map from names to values (header fields, cookies), kept in the order
/// in which names were first inserted; inserting an existing name replaces
/// its value.
#[derive(Debug, Clone)]
pub struct StrMap {
    entries: Vec<(String, String)>,
}

impl View for StrMap {
    type V = Seq<(Seq<char>, Seq<char>)>;

    closed spec fn view(&self) -> Seq<(Seq<char>, Seq<char>)> {
        Seq::new(self.entries@.len(), |i: int| (self.entries@[i].0@, self.entries@[i].1@))
    }
}

impl StrMap {
    pub fn new() -> (r: StrMap)
        ensures
            r@ == Seq::<(Seq<char>, Seq<char>)>::empty(),
    {
        let r = StrMap { entries: Vec::new() };
        assert(r@ =~= Seq::<(Seq<char>, Seq<char>)>::empty());
        r
    }

    /// Number of entries.
    pub fn len(&self) -> (r: usize)
        ensures
            r == self@.len(),
    {
        self.entries.len()
    }

    /// Name of the `i`-th entry.
    pub fn key_at(&self, i: usize) -> (r: &String)
        requires
            i < self@.len(),
        ensures
            r@ == self@[i as int].0,
    {
        &self.entries[i].0
    }

    /// Value of the `i`-th entry.
    pub fn value_at(&self, i: usize) -> (r: &String)
        requires
            i < self@.len(),
        ensures
            r@ == self@[i as int].1,
    {
        &self.entries[i].1
    }

    fn position(&self, k: &String) -> (r: usize)
        ensures
            r <= self@.len(),
            key_index(self@, k@) == if r < self@.len() {
                r as int
            } else {
                -1
            },
    {
        let mut i: usize = 0;
        while i < self.entries.len()
            invariant
                0 <= i <= self@.len(),
                self@.len() == self.entries@.len(),
                forall|j: int| 0 <= j < i ==> self@[j].0 != k@,
            decreases self.entries.len() - i,
        {
            if self.entries[i].0 == *k {
                proof {
                    lemma_key_index(self@, k@, i as int);
                }
                return i;
            }
            i = i + 1;
        }
        proof {
            lemma_key_index(self@, k@, i as int);
        }
        i
    }

    /// `HashMap::insert`: sets the value of `k` to `v`.
    pub fn insert(&mut self, k: String, v: String)
        ensures
            final(self)@ == map_insert(old(self)@, k@, v@),
    {
        let i = self.position(&k);
        let ghost kv = k@;
        let ghost vv = v@;
        if i < self.entries.len() {
            self.entries.set(i, (k, v));
            assert(self@ =~= old(self)@.update(i as int, (kv, vv)));
        } else {
            self.entries.push((k, v));
            assert(self@ =~= old(self)@.push((kv, vv)));
        }
    }

    /// `HashMap::get`: the value of `k`, if any.
    pub fn get(&self, k: &str) -> (r: Option<&String>)
        ensures
            r.deep_view() == map_lookup(self@, k@),
    {
        let key = k.to_string();
        let i = self.position(&key);
        if i < self.entries.len() {
            Some(&self.entries[i].1)
        } else {
            None
        }
    }

    /// `HashMap::remove`: `k` has no value any more.
    pub fn remove(&mut self, k: &str)
        ensures
            final(self)@ == map_remove(old(self)@, k@),
    {
        let key = k.to_string();
        let i = self.position(&key);
        if i < self.entries.len() {
            self.entries.remove(i);
            assert(self@ =~= old(self)@.remove(i as int));
        }
    }

    /// `HashMap::entry(k).or_insert(v)`: sets `k` to `v` unless `k` has a
    /// value.
    pub fn insert_if_absent(&mut self, k: String, v: String)
        ensures
            final(self)@ == map_insert_if_absent(old(self)@, k@, v@),
    {
        let i = self.position(&k);
        let ghost kv = k@;
        let ghost vv = v@;
        if i == self.entries.len() {
            self.entries.push((k, v));
            assert(self@ =~= old(self)@.push((kv, vv)));
        }
    }

    /// A copy of this map.
    pub fn duplicate(&self) -> (r: StrMap)
        ensures
            r@ == self@,
    {
        let mut entries: Vec<(String, String)> = Vec::new();
        let mut i: usize = 0;
        while i < self.entries.len()
            invariant
                0 <= i <= self.entries@.len(),
                entries@.len() == i,
                forall|j: int|
                    0 <= j < i ==> (#[trigger] entries@[j]).0@ == self.entries@[j].0@
                        && entries@[j].1@ == self.entries@[j].1@,
            decreases self.entries.len() - i,
        {
            entries.push((self.entries[i].0.clone(), self.entries[i].1.clone()));
            i = i + 1;
        }
        let r = StrMap { entries };
        assert(r@ =~= self@);
        r
    }
}

// ---------------------------------------------------------------------------
// Specification of the parsers
// ---------------------------------------------------------------------------

pub open spec fn crlf_crlf() -> Seq<char> {
    seq!['\r', '\n', '\r', '\n']
}

pub open spec fn lf_lf() -> Seq<char> {
    seq!['\n', '\n']
}

/// End of the header block of an HTTP message: the character index of the
/// first `\r\n\r\n` (or, when there is none, of the first `\n\n`), with the
/// length of that separator.
pub open spec fn header_end(text: Seq<char>) -> Option<(int, int)> {
    match text::find(text, crlf_crlf()) {
        Some(k) => Some((k, 4)),
        None => match text::find(text, lf_lf()) {
            Some(k) => Some((k, 2)),
            None => None,
        },
    }
}

/// All but the first element.
pub open spec fn rest_of<A>(s: Seq<A>) -> Seq<A> {
    if s.len() == 0 {
        s
    } else {
        s.drop_first()
    }
}

/// `line.split_once(':')`, with both sides trimmed.
pub open spec fn header_line(line: Seq<char>) -> Option<(Seq<char>, Seq<char>)> {
    let p = text::index_of(line, ':');
    if p < 0 {
        None
    } else {
        Some((text::trim(line.take(p)), text::trim(line.skip(p + 1))))
    }
}

/// The header map built from header lines, in order.
pub open spec fn headers_from(ls: Seq<Seq<char>>) -> Seq<(Seq<char>, Seq<char>)>
    decreases ls.len(),
{
    if ls.len() == 0 {
        seq![]
    } else {
        let m = headers_from(ls.drop_last());
        match header_line(ls.last()) {
            Some((k, v)) => map_insert(m, k, v),
            None => m,
        }
    }
}

/// The headers of an HTTP message text (the lines after the first one, up
/// to the blank line) and the byte offset at which its body starts.
pub open spec fn parsed_headers(text: Seq<char>) -> Option<(Seq<(Seq<char>, Seq<char>)>, int)> {
    match header_end(text) {
        Some((k, n)) => Some(
            (headers_from(rest_of(text::lines(text.take(k)))), text::utf8_len(text.take(k)) + n),
        ),
        None => None,
    }
}

/// The body of a message whose body starts at byte `start`.
pub open spec fn body_from(data: Seq<u8>, start: int) -> Option<Seq<u8>> {
    if start < data.len() {
        Some(data.skip(start))
    } else {
        None
    }
}

/// Errors of the proxy's request handling.
#[derive(Debug)]
pub enum ProxyError {
    /// The data holds no line at all.
    EmptyRequest,
    /// A request line with fewer than two words (`parse_http_request`).
    InvalidRequest(String),
    /// A request line with fewer than two words (plain proxy requests).
    InvalidRequestLine(String),
    /// A `CONNECT` line with fewer than two words.
    InvalidConnect(String),
    /// No blank line ends the header block.
    NoHeaderTerminator,
    /// The request target is not a URL.
    InvalidUrl(String),
    /// The request URL has no host.
    NoHost,
}

impl ProxyError {
    /// The message that describes this error.
    pub fn message(&self) -> (r: String)
        ensures
            r@ == match self {
                ProxyError::EmptyRequest => "empty request"@,
                ProxyError::InvalidRequest(l) => "invalid request: "@ + l@,
                ProxyError::InvalidRequestLine(l) => "invalid request line: "@ + l@,
                ProxyError::InvalidConnect(l) => "invalid CONNECT request: "@ + l@,
                ProxyError::NoHeaderTerminator => "no header terminator found"@,
                ProxyError::InvalidUrl(u) => "invalid URL: "@ + u@,
                ProxyError::NoHost => "no host in URL"@,
            },
    {
        let mut s = String::new();
        match self {
            ProxyError::EmptyRequest => {
                append_str(&mut s, "empty request");
            },
            ProxyError::InvalidRequest(l) => {
                append_str(&mut s, "invalid request: ");
                append_str(&mut s, l.as_str());
            },
            ProxyError::InvalidRequestLine(l) => {
                append_str(&mut s, "invalid request line: ");
                append_str(&mut s, l.as_str());
            },
            ProxyError::InvalidConnect(l) => {
                append_str(&mut s, "invalid CONNECT request: ");
                append_str(&mut s, l.as_str());
            },
            ProxyError::NoHeaderTerminator => {
                append_str(&mut s, "no header terminator found");
            },
            ProxyError::InvalidUrl(u) => {
                append_str(&mut s, "invalid URL: ");
                append_str(&mut s, u.as_str());
            },
            ProxyError::NoHost => {
                append_str(&mut s, "no host in URL");
            },
        }
        s
    }
}

// ---------------------------------------------------------------------------
// Header block
// ---------------------------------------------------------------------------

/// The header map of the lines `ranges[1..]` of `cs`.
fn headers_of_lines(cs: &[char], ranges: &Vec<(usize, usize)>, ghost_lines: Ghost<Seq<Seq<char>>>) -> (r:
    StrMap)
    requires
        ranges@.len() == ghost_lines@.len(),
        forall|i: int|
            0 <= i < ranges@.len() ==> (#[trigger] ranges@[i]).0 <= ranges@[i].1 <= cs@.len()
                && ghost_lines@[i] == cs@.subrange(ranges@[i].0 as int, ranges@[i].1 as int),
    ensures
        r@ == headers_from(rest_of(ghost_lines@)),
{
    let ghost ls = rest_of(ghost_lines@);
    let mut m = StrMap::new();
    if ranges.len() == 0 {
        assert(ls.len() == 0);
        return m;
    }
    let mut i: usize = 1;
    assert(ls.take(0) =~= Seq::<Seq<char>>::empty());
    while i < ranges.len()
        invariant
            1 <= i <= ranges@.len(),
            ranges@.len() == ghost_lines@.len(),
            ls == ghost_lines@.drop_first(),
            forall|j: int|
                0 <= j < ranges@.len() ==> (#[trigger] ranges@[j]).0 <= ranges@[j].1 <= cs@.len()
                    && ghost_lines@[j] == cs@.subrange(ranges@[j].0 as int, ranges@[j].1 as int),
            m@ == headers_from(ls.take(i - 1)),
        decreases ranges.len() - i,
    {
        let (a, b) = ranges[i];
        let ghost line = cs@.subrange(a as int, b as int);
        assert(ranges@[i as int].0 <= ranges@[i as int].1 <= cs@.len());
        let p = next_index_of(cs, a, ':');
        proof {
            assert(ls.take(i as int).drop_last() =~= ls.take(i - 1));
            assert(ls.take(i as int).last() == ghost_lines@[i as int]);
            // the first ':' of the line, if it is inside the line
            assert forall|j: int| 0 <= j < (if p < b { p - a } else { b - a }) implies line[j] != ':' by {
                assert(line[j] == cs@[a + j]);
            }
            lemma_index_of_sub(cs@, a as int, b as int, p as int);
        }
        if p < b {
            let k = trimmed(cs, a, p);
            let v = trimmed(cs, p + 1, b);
            proof {
                assert(line.take(p - a) =~= cs@.subrange(a as int, p as int));
                assert(line.skip(p - a + 1) =~= cs@.subrange(p + 1, b as int));
            }
            m.insert(k, v);
        }
        i = i + 1;
    }
    assert(ls.take(i - 1) =~= ls);
    m
}

pub proof fn lemma_index_of_sub(s: Seq<char>, a: int, b: int, p: int)
    requires
        0 <= a <= b <= s.len(),
        a <= p <= s.len(),
        forall|j: int| a <= j < p ==> s[j] != ':',
        p == s.len() || s[p] == ':',
    ensures
        text::index_of(s.subrange(a, b), ':') == if p < b {
            p - a
        } else {
            -1
        },
{
    let line = s.subrange(a, b);
    let q = if p < b {
        p - a
    } else {
        b - a
    };
    assert forall|j: int| 0 <= j < q implies line[j] != ':' by {
        assert(line[j] == s[a + j]);
    }
    text::lemma_index_of(line, ':', q);
}

/// `header_end` of `cs`.
fn locate_header_end(cs: &[char]) -> (r: Option<(usize, usize)>)
    ensures
        r matches Some((k, n)) ==> header_end(cs@) == Some((k as int, n as int)) && k + n <= cs@.len(),
        r is None ==> header_end(cs@) is None,
        r matches Some((k, n)) ==> (n == 4 ==> text::matches_at(cs@, crlf_crlf(), k as int)) && (n
            == 2 ==> text::matches_at(cs@, lf_lf(), k as int)) && (n == 4 || n == 2),
{
    let crlf2: Vec<char> = vec!['\r', '\n', '\r', '\n'];
    let lf2: Vec<char> = vec!['\n', '\n'];
    assert(crlf2@ =~= crlf_crlf());
    assert(lf2@ =~= lf_lf());
    match find_in(cs, crlf2.as_slice()) {
        Some(k) => Some((k, 4usize)),
        None => match find_in(cs, lf2.as_slice()) {
            Some(k) => Some((k, 2usize)),
            None => None,
        },
    }
}

/// The separator found at `k` is `n` one-byte characters inside the text.
proof fn lemma_separator_bytes(cs: Seq<char>, k: int, n: int)
    requires
        n == 4 ==> text::matches_at(cs, crlf_crlf(), k),
        n == 2 ==> text::matches_at(cs, lf_lf(), k),
        n == 4 || n == 2,
    ensures
        text::utf8_len(cs.take(k)) + n <= text::utf8_len(cs),
{
    text::lemma_utf8_len_concat(cs.take(k), cs.skip(k));
    assert(cs.take(k) + cs.skip(k) =~= cs);
    let rest = cs.skip(k);
    text::lemma_utf8_len_concat(rest.take(n), rest.skip(n));
    assert(rest.take(n) + rest.skip(n) =~= rest);
    if n == 4 {
        assert(rest.take(4) =~= crlf_crlf());
    } else {
        assert(rest.take(2) =~= lf_lf());
    }
    assert(text::utf8_len(rest.take(n)) == n) by {
        reveal_with_fuel(text::utf8_len, 5);
    }
}

/// Parses the header block of an HTTP message: the header map and the byte
/// offset at which the body starts.
pub fn parse_http_headers(data: &[u8]) -> (r: Result<(StrMap, usize), ProxyError>)
    ensures
        match parsed_headers(utf8_lossy(data@)) {
            Some((h, b)) => r matches Ok((m, start)) && m@ == h && start == b,
            None => r == Err::<(StrMap, usize), ProxyError>(ProxyError::NoHeaderTerminator),
        },
        valid_utf8(data@) ==> utf8_lossy(data@) == decode_utf8(data@),
{
    let text = lossy_text(data);
    let cs = chars_of(text.as_str());
    let total = text.as_str().len();
    proof {
        text::lemma_utf8_len_encode(cs@);
    }
    let (k, sep) = match locate_header_end(cs.as_slice()) {
        Some(p) => p,
        None => {
            return Err(ProxyError::NoHeaderTerminator);
        },
    };
    let head = &cs.as_slice()[0..k];
    assert(head@ =~= cs@.take(k as int));
    let ranges = line_ranges(head);
    assert forall|i: int| 0 <= i < ranges@.len() implies (#[trigger] ranges@[i]).0 <= ranges@[i].1 <= head@.len()
        && text::lines(head@)[i] == head@.subrange(ranges@[i].0 as int, ranges@[i].1 as int) by {
        assert(text::lines(head@)[i] == head@.subrange(ranges@[i].0 as int, ranges@[i].1 as int));
    }
    let headers = headers_of_lines(head, &ranges, Ghost(text::lines(head@)));
    let before = utf8_prefix_len(cs.as_slice(), k);
    proof {
        lemma_separator_bytes(cs@, k as int, sep as int);
        assert(cs@ == utf8_lossy(data@));
        assert(header_end(cs@) == Some((k as int, sep as int)));
        assert(head@ == cs@.take(k as int));
    }
    Ok((headers, before + sep))
}


// ---------------------------------------------------------------------------
// Requests and responses
// ---------------------------------------------------------------------------

/// The first line of a text, if it has any line.
pub open spec fn first_line(text: Seq<char>) -> Option<Seq<char>> {
    let ls = text::lines(text);
    if ls.len() > 0 {
        Some(ls[0])
    } else {
        None
    }
}

/// The words of the first line of `cs`, as index ranges, with the bounds of
/// that line; `None` when `cs` has no line.
fn first_line_words(cs: &[char]) -> (r: Option<(usize, usize, Vec<(usize, usize)>)>)
    ensures
        r is None <==> first_line(cs@) is None,
        r matches Some((a, b, ws)) ==> a <= b <= cs@.len() && first_line(cs@) == Some(
            cs@.subrange(a as int, b as int),
        ) && ws@.len() == text::words(cs@.subrange(a as int, b as int)).len() && forall|i: int|
            0 <= i < ws@.len() ==> a <= (#[trigger] ws@[i]).0 <= ws@[i].1 <= b && text::words(
                cs@.subrange(a as int, b as int),
            )[i] == cs@.subrange(ws@[i].0 as int, ws@[i].1 as int),
{
    let ranges = line_ranges(cs);
    if ranges.len() == 0 {
        return None;
    }
    let (a, b) = ranges[0];
    assert(text::lines(cs@)[0] == cs@.subrange(a as int, b as int));
    let ws = word_ranges(cs, a, b);
    Some((a, b, ws))
}

/// `parse_http_request`: method, target, headers and body of a request.
pub open spec fn request_parts(data: Seq<u8>) -> Result<
    (Seq<char>, Seq<char>, Seq<(Seq<char>, Seq<char>)>, Option<Seq<u8>>),
    ProxyErrorKind,
> {
    let text = utf8_lossy(data);
    match first_line(text) {
        None => Err(ProxyErrorKind::EmptyRequest),
        Some(l) => {
            let ws = text::words(l);
            if ws.len() < 2 {
                Err(ProxyErrorKind::InvalidRequest(l))
            } else {
                match parsed_headers(text) {
                    None => Err(ProxyErrorKind::NoHeaderTerminator),
                    Some((h, b)) => Ok((ws[0], ws[1], h, body_from(data, b))),
                }
            }
        },
    }
}

/// The request parser reads the same header block as the header parser:
/// a parsed request carries exactly the headers that `parse_http_headers`
/// finds in the same bytes, and the bytes after the block as its body.
pub proof fn law_request_uses_header_block(data: Seq<u8>)
    ensures
        request_parts(data) matches Ok((_m, _u, h, b)) ==> exists|start: int|
            parsed_headers(utf8_lossy(data)) == Some((h, start)) && b == body_from(data, start),
{
    if let Ok((_m, _u, h, b)) = request_parts(data) {
        let (h2, start) = parsed_headers(utf8_lossy(data))->0;
        assert(parsed_headers(utf8_lossy(data)) == Some((h, start)) && b == body_from(data, start));
    }
}

/// An error as plain values.
pub enum ProxyErrorKind {
    EmptyRequest,
    InvalidRequest(Seq<char>),
    InvalidRequestLine(Seq<char>),
    InvalidConnect(Seq<char>),
    NoHeaderTerminator,
    InvalidUrl(Seq<char>),
    NoHost,
}

impl ProxyError {
    pub open spec fn kind(&self) -> ProxyErrorKind {
        match self {
            ProxyError::EmptyRequest => ProxyErrorKind::EmptyRequest,
            ProxyError::InvalidRequest(l) => ProxyErrorKind::InvalidRequest(l@),
            ProxyError::InvalidRequestLine(l) => ProxyErrorKind::InvalidRequestLine(l@),
            ProxyError::InvalidConnect(l) => ProxyErrorKind::InvalidConnect(l@),
            ProxyError::NoHeaderTerminator => ProxyErrorKind::NoHeaderTerminator,
            ProxyError::InvalidUrl(u) => ProxyErrorKind::InvalidUrl(u@),
            ProxyError::NoHost => ProxyErrorKind::NoHost,
        }
    }
}

/// The body that starts at byte `start`, if any byte is left.
pub(crate) fn body_after(data: &[u8], start: usize) -> (r: Option<Vec<u8>>)
    ensures
        r.deep_view() == body_from(data@, start as int),
{
    if start < data.len() {
        let v = vstd::slice::slice_to_vec(&data[start..data.len()]);
        assert(v@ =~= data@.skip(start as int));
        Some(v)
    } else {
        None
    }
}

/// Parses an HTTP request: method, target, headers and body.
pub fn parse_http_request(data: &[u8]) -> (r: Result<
    (String, String, StrMap, Option<Vec<u8>>),
    ProxyError,
>)
    ensures
        match request_parts(data@) {
            Ok((m, u, h, b)) => r matches Ok((rm, ru, rh, rb)) && rm@ == m && ru@ == u && rh@ == h
                && rb.deep_view() == b,
            Err(e) => r matches Err(re) && re.kind() == e,
        },
        valid_utf8(data@) ==> utf8_lossy(data@) == decode_utf8(data@),
{
    let text = lossy_text(data);
    let cs = chars_of(text.as_str());
    let (a, b, ws) = match first_line_words(cs.as_slice()) {
        None => {
            return Err(ProxyError::EmptyRequest);
        },
        Some(x) => x,
    };
    if ws.len() < 2 {
        return Err(ProxyError::InvalidRequest(string_of(cs.as_slice(), a, b)));
    }
    let method = string_of(cs.as_slice(), ws[0].0, ws[0].1);
    let url = string_of(cs.as_slice(), ws[1].0, ws[1].1);
    let (headers, start) = match parse_http_headers(data) {
        Ok(x) => x,
        Err(e) => {
            return Err(e);
        },
    };
    let body = body_after(data, start);
    Ok((method, url, headers, body))
}

/// `url` starts with `http`.
pub open spec fn starts_with_http(url: Seq<char>) -> bool {
    url.len() >= 4 && url.take(4) == "http"@
}

/// A URL's path followed by `?` and its query, when it has one.
pub open spec fn path_and_query(path: Seq<char>, query: Option<Seq<char>>) -> Seq<char> {
    match query {
        Some(q) => path + "?"@ + q,
        None => path,
    }
}

/// `extract_path`: the path and query of an absolute `http…` URL that
/// parses; any other text unchanged.
pub open spec fn extracted_path(url: Seq<char>) -> Seq<char> {
    if starts_with_http(url) {
        match url_parts(url) {
            Some((_h, _p, path, query)) => path_and_query(path, query),
            None => url,
        }
    } else {
        url
    }
}

fn join_path_query(path: String, query: Option<String>) -> (r: String)
    ensures
        r@ == path_and_query(path@, query.deep_view()),
{
    match query {
        Some(q) => {
            let mut s = path;
            append_str(&mut s, "?");
            append_str(&mut s, q.as_str());
            s
        },
        None => path,
    }
}

/// The path (with query) of a request target: for an absolute `http…`
/// URL its path and query, otherwise the target itself.
pub fn extract_path(url: &str) -> (r: String)
    ensures
        r@ == extracted_path(url@),
{
    proof {
        reveal_strlit("http");
    }
    if text::starts_with(url, "http") {
        match parse_url(url) {
            Some(p) => join_path_query(p.path, p.query),
            None => url.to_string(),
        }
    } else {
        url.to_string()
    }
}

/// `encode_body`: Base64 and UTF-8 text of a non-empty body.
pub open spec fn encoded_body(body: Option<Seq<u8>>) -> (Option<Seq<char>>, Option<Seq<char>>) {
    match body {
        Some(d) => if d.len() > 0 {
            (
                Some(base64_standard(d)),
                if valid_utf8(d) {
                    Some(decode_utf8(d))
                } else {
                    None
                },
            )
        } else {
            (None, None)
        },
        None => (None, None),
    }
}

/// Encodes an optional body as Base64 and, when it is UTF-8, as text.
pub fn encode_body(body: &Option<Vec<u8>>) -> (r: (Option<String>, Option<String>))
    ensures
        (r.0.deep_view(), r.1.deep_view()) == encoded_body(body.deep_view()),
{
    match body {
        Some(data) => {
            assert(data.deep_view() =~= data@);
            if data.len() > 0 {
                let b64 = base64_encode(data.as_slice());
                let text = utf8_string(data.as_slice());
                (Some(b64), text)
            } else {
                (None, None)
            }
        },
        None => (None, None),
    }
}

/// `pad_right`: `s` followed by spaces up to `width` bytes.
pub open spec fn padded(s: Seq<char>, width: nat) -> Seq<char> {
    let n = vstd::utf8::encode_utf8(s).len();
    if n >= width {
        s
    } else {
        s + Seq::new((width - n) as nat, |_i: int| ' ')
    }
}

/// Pads `s` on the right with spaces to `width` bytes.
pub fn pad_right(s: &str, width: usize) -> (r: String)
    requires
        vstd::utf8::encode_utf8(s@).len() <= usize::MAX,
    ensures
        r@ == padded(s@, width as nat),
{
    let n = s.len();
    let mut out = s.to_string();
    if n >= width {
        return out;
    }
    let mut i = n;
    assert(Seq::new(0 as nat, |_i: int| ' ') =~= Seq::<char>::empty());
    assert(out@ =~= s@ + Seq::new((i - n) as nat, |_i: int| ' '));
    while i < width
        invariant
            n <= i <= width,
            out@ == s@ + Seq::new((i - n) as nat, |_i: int| ' '),
        decreases width - i,
    {
        push_char(&mut out, ' ');
        assert(s@ + Seq::new((i + 1 - n) as nat, |_i: int| ' ') =~= (s@ + Seq::new((i - n) as nat, |_i: int| ' ')).push(' '));
        i = i + 1;
    }
    out
}


// ---------------------------------------------------------------------------
// CONNECT requests
// ---------------------------------------------------------------------------

/// Host and port of a `CONNECT` target `host:port`: the text before the
/// first `:`, and the number between it and the next `:` (443 when it is
/// missing or not a port number).
pub open spec fn connect_host_port(t: Seq<char>) -> (Seq<char>, u16) {
    let i = text::index_of(t, ':');
    if i < 0 {
        (t, 443)
    } else {
        let rest = t.skip(i + 1);
        let j = text::index_of(rest, ':');
        let piece = if j < 0 {
            rest
        } else {
            rest.take(j)
        };
        (
            t.take(i),
            match text::parse_u16(piece) {
                Some(p) => p,
                None => 443,
            },
        )
    }
}

/// What the first read of a client connection asks for: `Ok(None)` for a
/// plain HTTP request, `Ok(Some((host, port)))` for a `CONNECT` tunnel.
pub open spec fn connect_request(text: Seq<char>) -> Result<Option<(Seq<char>, u16)>, ProxyErrorKind> {
    if text.len() >= 7 && text.take(7) == "CONNECT"@ {
        let line = match first_line(text) {
            Some(l) => l,
            None => seq![],
        };
        let ws = text::words(line);
        if ws.len() < 2 {
            Err(ProxyErrorKind::InvalidConnect(line))
        } else {
            Ok(Some(connect_host_port(ws[1])))
        }
    } else {
        Ok(None)
    }
}

/// Classifies the first bytes read from a proxy client: a `CONNECT` tunnel
/// to `host:port`, or a plain HTTP request.
#[verifier::rlimit(40)]
pub fn connect_target(data: &[u8]) -> (r: Result<Option<(String, u16)>, ProxyError>)
    ensures
        match connect_request(utf8_lossy(data@)) {
            Ok(None) => r matches Ok(None),
            Ok(Some((h, p))) => r matches Ok(Some((rh, rp))) && rh@ == h && rp == p,
            Err(e) => r matches Err(re) && re.kind() == e,
        },
        valid_utf8(data@) ==> utf8_lossy(data@) == decode_utf8(data@),
{
    let text = lossy_text(data);
    proof {
        reveal_strlit("CONNECT");
    }
    if !text::starts_with(text.as_str(), "CONNECT") {
        return Ok(None);
    }
    let cs = chars_of(text.as_str());
    let (a, b, ws) = match first_line_words(cs.as_slice()) {
        None => {
            assert(text::words(Seq::<char>::empty()) =~= Seq::<Seq<char>>::empty());
            return Err(ProxyError::InvalidConnect(String::new()));
        },
        Some(x) => x,
    };
    if ws.len() < 2 {
        return Err(ProxyError::InvalidConnect(string_of(cs.as_slice(), a, b)));
    }
    let (ta, tb) = ws[1];
    let (host, port) = split_host_port(cs.as_slice(), ta, tb);
    Ok(Some((host, port)))
}

/// `connect_host_port` of `cs[ta..tb]`.
fn split_host_port(cs: &[char], ta: usize, tb: usize) -> (r: (String, u16))
    requires
        ta <= tb <= cs@.len(),
    ensures
        (r.0@, r.1) == connect_host_port(cs@.subrange(ta as int, tb as int)),
{
    let ghost t = cs@.subrange(ta as int, tb as int);
    let i = next_index_of(cs, ta, ':');
    proof {
        lemma_index_of_sub(cs@, ta as int, tb as int, i as int);
    }
    if i >= tb {
        return (string_of(cs, ta, tb), 443);
    }
    let j = next_index_of(cs, i + 1, ':');
    proof {
        lemma_index_of_sub(cs@, i + 1, tb as int, j as int);
        assert(t.skip(i - ta + 1) =~= cs@.subrange(i + 1, tb as int));
        assert(t.take(i - ta) =~= cs@.subrange(ta as int, i as int));
    }
    let pe = if j < tb {
        j
    } else {
        tb
    };
    proof {
        let rest = t.skip(i - ta + 1);
        if j < tb {
            assert(rest.take(j - i - 1) =~= cs@.subrange(i + 1, j as int));
        }
    }
    let port = match parse_u16_in(cs, i + 1, pe) {
        Some(p) => p,
        None => 443,
    };
    (string_of(cs, ta, i), port)
}


// ---------------------------------------------------------------------------
// Forwarded requests
// ---------------------------------------------------------------------------

/// `k: v\r\n` for every header, in order.
pub open spec fn header_lines(h: Seq<(Seq<char>, Seq<char>)>) -> Seq<char>
    decreases h.len(),
{
    if h.len() == 0 {
        seq![]
    } else {
        header_lines(h.drop_last()) + h.last().0 + ": "@ + h.last().1 + "\r\n"@
    }
}

/// An HTTP/1.1 request head: request line, header lines, blank line.
pub open spec fn request_head(method: Seq<char>, path: Seq<char>, h: Seq<(Seq<char>, Seq<char>)>) -> Seq<
    char,
> {
    method + " "@ + path + " HTTP/1.1\r\n"@ + header_lines(h) + "\r\n"@
}

/// Code of the lower case of an ASCII letter; any other code unchanged.
pub open spec fn ascii_lower(u: u32) -> u32 {
    if 65 <= u <= 90 {
        (u + 32) as u32
    } else {
        u
    }
}

/// `s` equals the lower-case word `w` when ASCII letters are compared
/// without case. For the header names compared here (`host`,
/// `accept-encoding`, `proxy-connection`) this is what
/// `s.to_lowercase() == w` decides: no other character lower-cases into
/// one of their letters.
pub open spec fn same_name(s: Seq<char>, w: Seq<char>) -> bool {
    s.len() == w.len() && forall|i: int| 0 <= i < s.len() ==> ascii_lower(s[i] as u32) == w[i] as u32
}

/// The header line that the MITM relay sends for one request header.
pub open spec fn relay_line(k: Seq<char>, v: Seq<char>, host: Seq<char>) -> Seq<char> {
    if same_name(k, "host"@) {
        "Host: "@ + host + "\r\n"@
    } else if same_name(k, "accept-encoding"@) || same_name(k, "proxy-connection"@) {
        seq![]
    } else {
        k + ": "@ + v + "\r\n"@
    }
}

pub open spec fn relay_header_lines(h: Seq<(Seq<char>, Seq<char>)>, host: Seq<char>) -> Seq<char>
    decreases h.len(),
{
    if h.len() == 0 {
        seq![]
    } else {
        relay_header_lines(h.drop_last(), host) + relay_line(h.last().0, h.last().1, host)
    }
}

/// The request head that the MITM relay sends upstream: the target reduced
/// to its path, `Host` set to the tunnel's host, `Accept-Encoding` and
/// `Proxy-Connection` dropped, and `Accept-Encoding: identity` added.
pub open spec fn relay_request(
    method: Seq<char>,
    url: Seq<char>,
    h: Seq<(Seq<char>, Seq<char>)>,
    host: Seq<char>,
) -> Seq<char> {
    method + " "@ + extracted_path(url) + " HTTP/1.1\r\n"@ + relay_header_lines(h, host)
        + "Accept-Encoding: identity\r\n"@ + "\r\n"@
}

/// `same_name(s, w)`.
fn is_named(s: &str, w: &str) -> (r: bool)
    ensures
        r == same_name(s@, w@),
{
    let cs = chars_of(s);
    let ws = chars_of(w);
    if cs.len() != ws.len() {
        return false;
    }
    let mut i: usize = 0;
    while i < cs.len()
        invariant
            0 <= i <= cs@.len(),
            cs@.len() == ws@.len(),
            cs@ == s@,
            ws@ == w@,
            forall|j: int| 0 <= j < i ==> ascii_lower(cs@[j] as u32) == ws@[j] as u32,
        decreases cs.len() - i,
    {
        let u = cs[i] as u32;
        let l = if 65 <= u && u <= 90 {
            u + 32
        } else {
            u
        };
        if l != ws[i] as u32 {
            return false;
        }
        i = i + 1;
    }
    true
}

/// Appends the header lines of `h` to `out`.
fn append_header_lines(out: &mut String, h: &StrMap)
    ensures
        final(out)@ == old(out)@ + header_lines(h@),
{
    let mut i: usize = 0;
    assert(h@.take(0) =~= Seq::<(Seq<char>, Seq<char>)>::empty());
    while i < h.len()
        invariant
            0 <= i <= h@.len(),
            out@ == old(out)@ + header_lines(h@.take(i as int)),
        decreases h@.len() - i,
    {
        append_str(out, h.key_at(i).as_str());
        append_str(out, ": ");
        append_str(out, h.value_at(i).as_str());
        append_str(out, "\r\n");
        proof {
            let t = h@.take(i + 1);
            assert(t.drop_last() =~= h@.take(i as int));
        }
        i = i + 1;
    }
    assert(h@.take(i as int) =~= h@);
}

/// The head of an HTTP/1.1 request.
pub fn build_request_head(method: &str, path: &str, headers: &StrMap) -> (r: String)
    ensures
        r@ == request_head(method@, path@, headers@),
{
    let mut out = method.to_string();
    append_str(&mut out, " ");
    append_str(&mut out, path);
    append_str(&mut out, " HTTP/1.1\r\n");
    append_header_lines(&mut out, headers);
    append_str(&mut out, "\r\n");
    out
}

/// The head of the request that the MITM relay sends upstream for a
/// request that the client sent through a tunnel to `host`.
pub fn build_relay_request(method: &str, url: &str, headers: &StrMap, host: &str) -> (r: String)
    ensures
        r@ == relay_request(method@, url@, headers@, host@),
{
    let path = extract_path(url);
    let mut out = method.to_string();
    append_str(&mut out, " ");
    append_str(&mut out, path.as_str());
    append_str(&mut out, " HTTP/1.1\r\n");
    let ghost start = out@;
    let mut i: usize = 0;
    assert(headers@.take(0) =~= Seq::<(Seq<char>, Seq<char>)>::empty());
    while i < headers.len()
        invariant
            0 <= i <= headers@.len(),
            out@ == start + relay_header_lines(headers@.take(i as int), host@),
        decreases headers@.len() - i,
    {
        let k = headers.key_at(i);
        let ghost before = out@;
        if is_named(k.as_str(), "host") {
            append_str(&mut out, "Host: ");
            append_str(&mut out, host);
            append_str(&mut out, "\r\n");
        } else if is_named(k.as_str(), "accept-encoding") || is_named(k.as_str(), "proxy-connection") {
        } else {
            append_str(&mut out, k.as_str());
            append_str(&mut out, ": ");
            append_str(&mut out, headers.value_at(i).as_str());
            append_str(&mut out, "\r\n");
        }
        proof {
            let t = headers@.take(i + 1);
            assert(t.drop_last() =~= headers@.take(i as int));
            assert(out@ =~= before + relay_line(headers@[i as int].0, headers@[i as int].1, host@));
        }
        i = i + 1;
    }
    assert(headers@.take(i as int) =~= headers@);
    append_str(&mut out, "Accept-Encoding: identity\r\n");
    append_str(&mut out, "\r\n");
    out
}

/// What the proxy does with a plain (non-`CONNECT`) request.
pub struct HttpProxyPlan {
    /// Request method.
    pub method: String,
    /// The absolute URL of the request line.
    pub full_url: String,
    /// Origin host.
    pub host: String,
    /// Origin port (80 unless the URL names another).
    pub port: u16,
    /// Request headers.
    pub headers: StrMap,
    /// Request body, if any byte follows the header block.
    pub body: Option<Vec<u8>>,
    /// The request head to send to the origin.
    pub forward_head: String,
}

/// `plan_http_proxy` as plain values: method, URL, host, port, headers,
/// body and forwarded head.
pub open spec fn http_proxy_plan(data: Seq<u8>) -> Result<
    (
        Seq<char>,
        Seq<char>,
        Seq<char>,
        u16,
        Seq<(Seq<char>, Seq<char>)>,
        Option<Seq<u8>>,
        Seq<char>,
    ),
    ProxyErrorKind,
> {
    let text = utf8_lossy(data);
    match first_line(text) {
        None => Err(ProxyErrorKind::EmptyRequest),
        Some(l) => {
            let ws = text::words(l);
            if ws.len() < 2 {
                Err(ProxyErrorKind::InvalidRequestLine(l))
            } else {
                match url_parts(ws[1]) {
                    None => Err(ProxyErrorKind::InvalidUrl(ws[1])),
                    Some((host, port, path, query)) => match host {
                        None => Err(ProxyErrorKind::NoHost),
                        Some(h) => {
                            let p = path_and_query(path, query);
                            match parsed_headers(text) {
                                None => Err(ProxyErrorKind::NoHeaderTerminator),
                                Some((hs, b)) => Ok(
                                    (
                                        ws[0],
                                        ws[1],
                                        h,
                                        match port {
                                            Some(n) => n,
                                            None => 80,
                                        },
                                        hs,
                                        body_from(data, b),
                                        request_head(ws[0], p, hs),
                                    ),
                                ),
                            }
                        },
                    },
                }
            }
        },
    }
}

/// Reads a plain proxy request (absolute URL in the request line) and
/// works out the origin to connect to and the request head to send it.
#[verifier::rlimit(40)]
pub fn plan_http_proxy(data: &[u8]) -> (r: Result<HttpProxyPlan, ProxyError>)
    ensures
        match http_proxy_plan(data@) {
            Ok((m, u, h, p, hs, b, f)) => r matches Ok(plan) && plan.method@ == m && plan.full_url@
                == u && plan.host@ == h && plan.port == p && plan.headers@ == hs
                && plan.body.deep_view() == b && plan.forward_head@ == f,
            Err(e) => r matches Err(re) && re.kind() == e,
        },
        valid_utf8(data@) ==> utf8_lossy(data@) == decode_utf8(data@),
{
    let text = lossy_text(data);
    let cs = chars_of(text.as_str());
    let (a, b, ws) = match first_line_words(cs.as_slice()) {
        None => {
            return Err(ProxyError::EmptyRequest);
        },
        Some(x) => x,
    };
    if ws.len() < 2 {
        return Err(ProxyError::InvalidRequestLine(string_of(cs.as_slice(), a, b)));
    }
    let method = string_of(cs.as_slice(), ws[0].0, ws[0].1);
    let full_url = string_of(cs.as_slice(), ws[1].0, ws[1].1);
    let parts = match parse_url(full_url.as_str()) {
        None => {
            return Err(ProxyError::InvalidUrl(full_url));
        },
        Some(p) => p,
    };
    let host = match parts.host {
        None => {
            return Err(ProxyError::NoHost);
        },
        Some(h) => h,
    };
    let port = match parts.port {
        Some(n) => n,
        None => 80,
    };
    let path = join_path_query(parts.path, parts.query);
    let (headers, start) = match parse_http_headers(data) {
        Ok(x) => x,
        Err(e) => {
            return Err(e);
        },
    };
    let body = body_after(data, start);
    let forward_head = build_request_head(method.as_str(), path.as_str(), &headers);
    Ok(HttpProxyPlan { method, full_url, host, port, headers, body, forward_head })
}

} // verus!
