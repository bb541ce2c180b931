//! The saved cookie file (`weibo_cookies.json`): reading its cookies into
//! the headers that authenticate requests.
//!
//! The file holds `{"cookies": [{"name": …, "value": …, …}, …]}`.

use vstd::prelude::*;

use crate::domain::CookieData;
use crate::json::{self, Json};
use crate::text;
use crate::text::append_str;

verus! {

broadcast use vstd::string::group_string_axioms;

/// Name of the cookie file.
pub const COOKIE_FILE: &'static str = "weibo_cookies.json";

/// The cookie entries of the document (its `cookies` array).
pub open spec fn cookie_entries(doc: Json) -> Option<Seq<Json>> {
    json::array_of(json::field(doc, "cookies"@))
}

/// Name and value of an entry that has both as strings.
pub open spec fn cookie_pair(c: Json) -> Option<(Seq<char>, Seq<char>)> {
    match (json::str_of(json::field(c, "name"@)), json::str_of(json::field(c, "value"@))) {
        (Some(n), Some(v)) => Some((n, v)),
        _ => None,
    }
}

/// The (name, value) pairs of the entries, in order.
pub open spec fn cookie_pairs(cs: Seq<Json>) -> Seq<(Seq<char>, Seq<char>)>
    decreases cs.len(),
{
    if cs.len() == 0 {
        seq![]
    } else {
        let before = cookie_pairs(cs.drop_last());
        match cookie_pair(cs.last()) {
            Some(p) => before.push(p),
            None => before,
        }
    }
}

/// The value of the last pair named `name` (later entries override
/// earlier ones, as when they are collected into a map).
pub open spec fn last_value(ps: Seq<(Seq<char>, Seq<char>)>, name: Seq<char>) -> Option<Seq<char>>
    decreases ps.len(),
{
    if ps.len() == 0 {
        None
    } else if ps.last().0 == name {
        Some(ps.last().1)
    } else {
        last_value(ps.drop_last(), name)
    }
}

/// `load`: the `Cookie` header made of `SUB` and, when present, `SUBP`,
/// with the value of `SUB`; nothing when `SUB` is missing or empty.
pub open spec fn saved_cookie(doc: Json) -> Option<(Seq<char>, Seq<char>)> {
    match cookie_entries(doc) {
        None => None,
        Some(cs) => {
            let ps = cookie_pairs(cs);
            match last_value(ps, "SUB"@) {
                None => None,
                Some(sub) => if sub.len() == 0 {
                    None
                } else {
                    Some(
                        (
                            "SUB="@ + sub + match last_value(ps, "SUBP"@) {
                                Some(p) => "; SUBP="@ + p,
                                None => seq![],
                            },
                            sub,
                        ),
                    )
                },
            }
        },
    }
}

/// `name=value`.
pub open spec fn cookie_text(p: (Seq<char>, Seq<char>)) -> Seq<char> {
    p.0 + "="@ + p.1
}

/// The pairs as `name=value`, joined with `; `.
pub open spec fn joined_cookies(ps: Seq<(Seq<char>, Seq<char>)>) -> Seq<char>
    decreases ps.len(),
{
    if ps.len() == 0 {
        seq![]
    } else if ps.len() == 1 {
        cookie_text(ps[0])
    } else {
        joined_cookies(ps.drop_last()) + "; "@ + cookie_text(ps.last())
    }
}

/// `load_full`: every cookie as `name=value`, joined with `; `.
pub open spec fn full_cookie_header(doc: Json) -> Seq<char> {
    match cookie_entries(doc) {
        None => seq![],
        Some(cs) => joined_cookies(cookie_pairs(cs)),
    }
}

/// The value of the first entry named `XSRF-TOKEN` that has a value.
pub open spec fn xsrf_in(cs: Seq<Json>) -> Option<Seq<char>>
    decreases cs.len(),
{
    if cs.len() == 0 {
        None
    } else {
        match cookie_pair(cs[0]) {
            Some((n, v)) => if n == "XSRF-TOKEN"@ {
                Some(v)
            } else {
                xsrf_in(cs.drop_first())
            },
            None => xsrf_in(cs.drop_first()),
        }
    }
}

/// `load_xsrf`: the `XSRF-TOKEN` cookie.
pub open spec fn saved_xsrf(doc: Json) -> Option<Seq<char>> {
    match cookie_entries(doc) {
        None => None,
        Some(cs) => xsrf_in(cs),
    }
}

/// Name and value of an entry.
fn pair_of(c: &Json) -> (r: Option<(String, String)>)
    ensures
        match cookie_pair(*c) {
            Some((n, v)) => r matches Some((rn, rv)) && rn@ == n && rv@ == v,
            None => r is None,
        },
{
    let n = json::str_opt(c.get("name"));
    let v = json::str_opt(c.get("value"));
    match (n, v) {
        (Some(n), Some(v)) => Some((n, v)),
        _ => None,
    }
}

/// The (name, value) pairs of the entries.
fn pairs_of(cs: &Vec<Json>) -> (r: Vec<(String, String)>)
    ensures
        r@.len() == cookie_pairs(cs@).len(),
        forall|i: int|
            0 <= i < r@.len() ==> (#[trigger] r@[i]).0@ == cookie_pairs(cs@)[i].0 && r@[i].1@
                == cookie_pairs(cs@)[i].1,
{
    let mut out: Vec<(String, String)> = Vec::new();
    let mut i: usize = 0;
    assert(cs@.take(0) =~= Seq::<Json>::empty());
    while i < cs.len()
        invariant
            0 <= i <= cs@.len(),
            out@.len() == cookie_pairs(cs@.take(i as int)).len(),
            forall|j: int|
                0 <= j < out@.len() ==> (#[trigger] out@[j]).0@ == cookie_pairs(cs@.take(i as int))[j].0
                    && out@[j].1@ == cookie_pairs(cs@.take(i as int))[j].1,
        decreases cs.len() - i,
    {
        proof {
            assert(cs@.take(i + 1).drop_last() =~= cs@.take(i as int));
        }
        match pair_of(&cs[i]) {
            Some(p) => {
                out.push(p);
            },
            None => {},
        }
        i = i + 1;
    }
    assert(cs@.take(i as int) =~= cs@);
    out
}

/// The value of the last pair named `name`.
fn find_last(ps: &Vec<(String, String)>, name: &str, ghost_pairs: Ghost<Seq<(Seq<char>, Seq<char>)>>) -> (r:
    Option<String>)
    requires
        ps@.len() == ghost_pairs@.len(),
        forall|i: int|
            0 <= i < ps@.len() ==> (#[trigger] ps@[i]).0@ == ghost_pairs@[i].0 && ps@[i].1@
                == ghost_pairs@[i].1,
    ensures
        r.deep_view() == last_value(ghost_pairs@, name@),
{
    let mut i = ps.len();
    let ghost g = ghost_pairs@;
    assert(g.take(i as int) =~= g);
    while i > 0
        invariant
            0 <= i <= ps@.len(),
            ps@.len() == g.len(),
            g == ghost_pairs@,
            forall|q: int| 0 <= q < ps@.len() ==> (#[trigger] ps@[q]).0@ == g[q].0 && ps@[q].1@ == g[q].1,
            last_value(g, name@) == last_value(g.take(i as int), name@),
        decreases i,
    {
        let ghost t = g.take(i as int);
        assert(t.last() == g[i - 1]);
        assert(t.drop_last() =~= g.take(i - 1));
        if text::same_str(ps[i - 1].0.as_str(), name) {
            assert(last_value(t, name@) == Some(g[i - 1].1));
            return Some(ps[i - 1].1.clone());
        }
        i = i - 1;
    }
    None
}

/// Reads the saved cookies: the `Cookie` header made of `SUB` and, when
/// present, `SUBP`, with the value of `SUB`; `None` when there is no
/// cookie list or no non-empty `SUB`.
pub fn cookie_data_from_json(doc: &Json) -> (r: Option<CookieData>)
    ensures
        match saved_cookie(*doc) {
            Some((h, s)) => r matches Some(c) && c.header@ == h && c.sub@ == s,
            None => r is None,
        },
{
    let cs = match doc.get("cookies") {
        Some(v) => match v.as_array() {
            Some(a) => a,
            None => {
                return None;
            },
        },
        None => {
            return None;
        },
    };
    let ps = pairs_of(cs);
    let ghost g = cookie_pairs(cs@);
    let sub = match find_last(&ps, "SUB", Ghost(g)) {
        Some(s) => s,
        None => {
            return None;
        },
    };
    if sub.as_str().is_empty() {
        return None;
    }
    let mut header = "SUB=".to_string();
    append_str(&mut header, sub.as_str());
    match find_last(&ps, "SUBP", Ghost(g)) {
        Some(p) => {
            append_str(&mut header, "; SUBP=");
            append_str(&mut header, p.as_str());
        },
        None => {},
    }
    Some(CookieData { header, sub })
}

/// Every saved cookie as `name=value`, joined with `; ` (empty when there
/// is no cookie list).
pub fn build_full_cookie_header(doc: &Json) -> (r: String)
    ensures
        r@ == full_cookie_header(*doc),
{
    let cs = match doc.get("cookies") {
        Some(v) => match v.as_array() {
            Some(a) => a,
            None => {
                return String::new();
            },
        },
        None => {
            return String::new();
        },
    };
    let ps = pairs_of(cs);
    let ghost g = cookie_pairs(cs@);
    let mut out = String::new();
    let mut i: usize = 0;
    assert(g.take(0) =~= Seq::<(Seq<char>, Seq<char>)>::empty());
    while i < ps.len()
        invariant
            0 <= i <= ps@.len(),
            ps@.len() == g.len(),
            forall|q: int| 0 <= q < ps@.len() ==> (#[trigger] ps@[q]).0@ == g[q].0 && ps@[q].1@ == g[q].1,
            out@ == joined_cookies(g.take(i as int)),
        decreases ps.len() - i,
    {
        let ghost t = g.take(i + 1);
        assert(t.drop_last() =~= g.take(i as int));
        if i > 0 {
            append_str(&mut out, "; ");
        } else {
            assert(t =~= seq![g[0]]);
        }
        append_str(&mut out, ps[i].0.as_str());
        append_str(&mut out, "=");
        append_str(&mut out, ps[i].1.as_str());
        i = i + 1;
    }
    assert(g.take(i as int) =~= g);
    out
}

/// The saved `XSRF-TOKEN` cookie: the value of the first entry with that
/// name and a value.
pub fn get_xsrf_token(doc: &Json) -> (r: Option<String>)
    ensures
        r.deep_view() == saved_xsrf(*doc),
{
    let cs = match doc.get("cookies") {
        Some(v) => match v.as_array() {
            Some(a) => a,
            None => {
                return None;
            },
        },
        None => {
            return None;
        },
    };
    let mut i: usize = 0;
    assert(cs@.skip(0) =~= cs@);
    while i < cs.len()
        invariant
            0 <= i <= cs@.len(),
            cookie_entries(*doc) == Some(cs@),
            xsrf_in(cs@) == xsrf_in(cs@.skip(i as int)),
        decreases cs.len() - i,
    {
        assert(cs@.skip(i as int).drop_first() =~= cs@.skip(i + 1));
        assert(cs@.skip(i as int)[0] == cs@[i as int]);
        match pair_of(&cs[i]) {
            Some((n, v)) => {
                if text::same_str(n.as_str(), "XSRF-TOKEN") {
                    return Some(v);
                }
            },
            None => {},
        }
        i = i + 1;
    }
    None
}

/// The `Cookie` header for what the user pasted: the trimmed input when it
/// holds `=` (a whole cookie string), else `SUB=` and the input (the value
/// of `SUB`); nothing for blank input.
pub open spec fn pasted_cookie_header(input: Seq<char>) -> Option<Seq<char>> {
    let t = text::trim(input);
    if t.len() == 0 {
        None
    } else if text::index_of(t, '=') >= 0 {
        Some(t)
    } else {
        Some("SUB="@ + t)
    }
}

/// Turns pasted input into a `Cookie` header.
pub fn cookie_header_from_input(input: &str) -> (r: Option<String>)
    ensures
        r.deep_view() == pasted_cookie_header(input@),
{
    let cs = text::chars_of(input);
    let t = text::trimmed(cs.as_slice(), 0, cs.len());
    assert(cs@.subrange(0, cs@.len() as int) =~= input@);
    if t.as_str().is_empty() {
        return None;
    }
    let tc = text::chars_of(t.as_str());
    let i = text::next_index_of(tc.as_slice(), 0, '=');
    assert(tc@.skip(0) =~= tc@);
    if i < tc.len() {
        Some(t)
    } else {
        let mut h = "SUB=".to_string();
        append_str(&mut h, t.as_str());
        Some(h)
    }
}

/// `load` on the text of the cookie file: the saved cookie of the document
/// it holds; nothing when it is not JSON.
pub open spec fn saved_cookie_of_text(text: Seq<char>) -> Option<(Seq<char>, Seq<char>)> {
    match json::json_of_text(text) {
        Some(d) => saved_cookie(d),
        None => None,
    }
}

/// `load_full` on the text of the cookie file: every cookie of the
/// document it holds, joined; empty when it is not JSON.
pub open spec fn full_cookie_header_of(text: Seq<char>) -> Seq<char> {
    match json::json_of_text(text) {
        Some(d) => full_cookie_header(d),
        None => seq![],
    }
}

/// `load_xsrf` on the text of the cookie file: the `XSRF-TOKEN` of the
/// document it holds; nothing when it is not JSON.
pub open spec fn saved_xsrf_of_text(text: Seq<char>) -> Option<Seq<char>> {
    match json::json_of_text(text) {
        Some(d) => saved_xsrf(d),
        None => None,
    }
}

/// Reads the saved cookies from the text of the cookie file (see
/// `cookie_data_from_json`); `None` when the text is not JSON.
pub fn cookie_data_of_text(text: &str) -> (r: Option<CookieData>)
    ensures
        match saved_cookie_of_text(text@) {
            Some((h, s)) => r matches Some(c) && c.header@ == h && c.sub@ == s,
            None => r is None,
        },
{
    match json::parse_json(text) {
        Some(d) => cookie_data_from_json(&d),
        None => None,
    }
}

/// Every saved cookie of the text of the cookie file as one header (see
/// `build_full_cookie_header`); empty when the text is not JSON.
pub fn full_cookie_header_of_text(text: &str) -> (r: String)
    ensures
        r@ == full_cookie_header_of(text@),
{
    match json::parse_json(text) {
        Some(d) => build_full_cookie_header(&d),
        None => String::new(),
    }
}

/// The saved `XSRF-TOKEN` of the text of the cookie file (see
/// `get_xsrf_token`); `None` when the text is not JSON.
pub fn xsrf_of_text(text: &str) -> (r: Option<String>)
    ensures
        r.deep_view() == saved_xsrf_of_text(text@),
{
    match json::parse_json(text) {
        Some(d) => get_xsrf_token(&d),
        None => None,
    }
}

} // verus!
