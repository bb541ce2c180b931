//! QR-code login: decoding the replies of the QR endpoints, the session
//! state of a login, the ticket exchange that follows the redirects, and the
//! cookie jar that it fills.

use vstd::prelude::*;

use crate::http::{self, StrMap};
use crate::json::{self, Json};
use crate::text;
use crate::text::{append_str, i64_to_decimal, starts_with};

verus! {

broadcast use vstd::string::group_string_axioms;

/// State of a QR code, from the `retcode` of the check endpoint.
#[derive(Debug)]
pub enum QrStatus {
    /// Not scanned yet (50114001).
    Waiting,
    /// Scanned, waiting for confirmation (50114002).
    Scanned,
    /// Confirmed (20000000): where to exchange the ticket.
    Confirmed { alt: String, redirect_url: String },
    /// Expired (50114004).
    Expired,
    /// Any other code, with its message and data.
    Unknown { code: i64, msg: String, raw: Json },
}

/// `retcode` of a successful call.
pub const RETCODE_OK: i64 = 20000000;

/// `QrStatus` as plain values.
pub ghost enum QrStatusView {
    Waiting,
    Scanned,
    Confirmed { alt: Seq<char>, redirect_url: Seq<char> },
    Expired,
    Unknown { code: i64, msg: Seq<char>, raw: Json },
}

impl View for QrStatus {
    type V = QrStatusView;

    open spec fn view(&self) -> QrStatusView {
        match self {
            QrStatus::Waiting => QrStatusView::Waiting,
            QrStatus::Scanned => QrStatusView::Scanned,
            QrStatus::Confirmed { alt, redirect_url } => QrStatusView::Confirmed {
                alt: alt@,
                redirect_url: redirect_url@,
            },
            QrStatus::Expired => QrStatusView::Expired,
            QrStatus::Unknown { code, msg, raw } => QrStatusView::Unknown {
                code: *code,
                msg: msg@,
                raw: *raw,
            },
        }
    }
}

/// The member `k` of optional data, as text (empty when absent).
pub open spec fn data_text(data: Option<Json>, k: Seq<char>) -> Seq<char> {
    match data {
        Some(d) => match json::str_of(json::field(d, k)) {
            Some(t) => t,
            None => seq![],
        },
        None => seq![],
    }
}

/// The state that a reply of the check endpoint reports.
pub open spec fn qr_status_of(retcode: i64, msg: Option<Seq<char>>, data: Option<Json>) -> QrStatusView {
    if retcode == 50114001 {
        QrStatusView::Waiting
    } else if retcode == 50114002 {
        QrStatusView::Scanned
    } else if retcode == 50114004 {
        QrStatusView::Expired
    } else if retcode == 20000000 {
        QrStatusView::Confirmed { alt: data_text(data, "alt"@), redirect_url: data_text(data, "url"@) }
    } else {
        QrStatusView::Unknown {
            code: retcode,
            msg: match msg {
                Some(m) => m,
                None => seq![],
            },
            raw: match data {
                Some(d) => d,
                None => Json::Null,
            },
        }
    }
}

fn data_member_text(data: &Option<Json>, k: &str) -> (r: String)
    ensures
        r@ == data_text(*data, k@),
{
    proof {
        reveal_strlit("");
    }
    match data {
        Some(d) => json::text_or(json::str_opt(d.get(k)), ""),
        None => String::new(),
    }
}

/// Decodes a reply of the QR check endpoint: `retcode`, optional `msg`,
/// optional `data`. An unknown code keeps its data (`null` when absent).
pub fn qr_status_from_check(retcode: i64, msg: Option<String>, data: Option<Json>) -> (r: QrStatus)
    ensures
        r@ == qr_status_of(retcode, msg.deep_view(), data),
{
    if retcode == 50114001 {
        QrStatus::Waiting
    } else if retcode == 50114002 {
        QrStatus::Scanned
    } else if retcode == 50114004 {
        QrStatus::Expired
    } else if retcode == 20000000 {
        let alt = data_member_text(&data, "alt");
        let redirect_url = data_member_text(&data, "url");
        QrStatus::Confirmed { alt, redirect_url }
    } else {
        let m = match msg {
            Some(m) => m,
            None => String::new(),
        };
        let raw = match data {
            Some(d) => d,
            None => Json::Null,
        };
        QrStatus::Unknown { code: retcode, msg: m, raw }
    }
}

/// A reply of the web API whose `ok` is 1.
pub open spec fn reply_ok(data: Json) -> bool {
    json::i64_of(json::field(data, "ok"@)) == Some(1i64)
}

/// Whether a reply reports success: its `ok` is 1 (a missing `ok` counts
/// as 0).
pub fn is_reply_ok(data: &Json) -> (r: bool)
    ensures
        r == reply_ok(*data),
{
    let ok = match json::i64_opt(data.get("ok")) {
        Some(v) => v,
        None => 0,
    };
    ok == 1
}

// ---------------------------------------------------------------------------
// Saved cookies
// ---------------------------------------------------------------------------

/// A cookie as the cookie file stores it.
#[derive(Debug, Clone)]
pub struct StoredCookie {
    pub name: String,
    pub value: String,
    pub domain: String,
    pub path: String,
}

/// The content of the cookie file.
#[derive(Debug)]
pub struct CookieStore {
    pub cookies: Vec<StoredCookie>,
}

// ---------------------------------------------------------------------------
// Errors
// ---------------------------------------------------------------------------

/// What can go wrong in a QR login.
#[derive(Debug)]
pub enum QrError {
    /// The QR-code request was answered with another `retcode`.
    Retcode(i64),
    /// The QR-code reply had no `data`.
    NoData,
    /// No QR code was fetched yet.
    NoQrCode,
    /// The QR image was not downloaded yet.
    NoImage,
    /// The confirmation carried no redirect URL.
    EmptyRedirect,
    /// A `Location` could not be resolved against the current URL.
    BadLocation(String),
}

impl QrError {
    /// The message that describes this error.
    pub fn message(&self) -> (r: String)
        ensures
            r@ == match self {
                QrError::Retcode(c) => "二维码 retcode="@ + text::signed_decimal(*c as int),
                QrError::NoData => "无 data"@,
                QrError::NoQrCode => "先调 fetch_qr_code"@,
                QrError::NoImage => "先调 download_qr_image"@,
                QrError::EmptyRedirect => "redirect_url 为空"@,
                QrError::BadLocation(m) => m@,
            },
    {
        match self {
            QrError::Retcode(c) => {
                let mut s = "二维码 retcode=".to_string();
                let d = i64_to_decimal(*c);
                append_str(&mut s, d.as_str());
                s
            },
            QrError::NoData => "无 data".to_string(),
            QrError::NoQrCode => "先调 fetch_qr_code".to_string(),
            QrError::NoImage => "先调 download_qr_image".to_string(),
            QrError::EmptyRedirect => "redirect_url 为空".to_string(),
            QrError::BadLocation(m) => m.clone(),
        }
    }
}

// ---------------------------------------------------------------------------
// Session state
// ---------------------------------------------------------------------------

/// The cookie jar after the cookies of a response were stored, in order:
/// `HashMap::insert` for each.
pub open spec fn inserted_all(m: Seq<(Seq<char>, Seq<char>)>, cs: Seq<(Seq<char>, Seq<char>)>) -> Seq<
    (Seq<char>, Seq<char>),
>
    decreases cs.len(),
{
    if cs.len() == 0 {
        m
    } else {
        http::map_insert(inserted_all(m, cs.drop_last()), cs.last().0, cs.last().1)
    }
}

/// A `Set-Cookie` that deletes its cookie: an empty value or `deleted`.
pub open spec fn deletes(v: Seq<char>) -> bool {
    v.len() == 0 || v == "deleted"@
}

/// The cookie jar after the `Set-Cookie` headers of one hop of the ticket
/// exchange, in order: a deleting one removes its cookie, any other sets
/// it unless it is set already.
pub open spec fn after_set_cookies(m: Seq<(Seq<char>, Seq<char>)>, cs: Seq<(Seq<char>, Seq<char>)>) -> Seq<
    (Seq<char>, Seq<char>),
>
    decreases cs.len(),
{
    if cs.len() == 0 {
        m
    } else {
        let before = after_set_cookies(m, cs.drop_last());
        if deletes(cs.last().1) {
            http::map_remove(before, cs.last().0)
        } else {
            http::map_insert_if_absent(before, cs.last().0, cs.last().1)
        }
    }
}

/// No name occurs twice in the cookie jar: storing the cookies of the
/// sign-in page and applying the `Set-Cookie` headers of a hop both keep
/// the names of the jar distinct.
pub proof fn law_jar_names_distinct(m: Seq<(Seq<char>, Seq<char>)>, cs: Seq<(Seq<char>, Seq<char>)>)
    requires
        http::keys_distinct(m),
    ensures
        http::keys_distinct(inserted_all(m, cs)),
        http::keys_distinct(after_set_cookies(m, cs)),
    decreases cs.len(),
{
    if cs.len() > 0 {
        law_jar_names_distinct(m, cs.drop_last());
        let k = cs.last().0;
        let v = cs.last().1;
        http::law_lookup_after_insert(inserted_all(m, cs.drop_last()), k, v, k);
        let before = after_set_cookies(m, cs.drop_last());
        http::law_lookup_after_remove(before, k, k);
        http::law_insert_if_absent(before, k, v, k);
    }
}

/// A deleting `Set-Cookie` (empty value or `deleted`) leaves no value for
/// its name; any other sets the name's value unless it had one, which it
/// keeps.
pub proof fn law_set_cookie(m: Seq<(Seq<char>, Seq<char>)>, name: Seq<char>, value: Seq<char>)
    requires
        http::keys_distinct(m),
    ensures
        deletes(value) ==> http::map_lookup(after_set_cookies(m, seq![(name, value)]), name) is None,
        !deletes(value) ==> http::map_lookup(after_set_cookies(m, seq![(name, value)]), name) == match http::map_lookup(m, name) {
            Some(old) => Some(old),
            None => Some(value),
        },
{
    let cs = seq![(name, value)];
    assert(cs.drop_last() =~= Seq::<(Seq<char>, Seq<char>)>::empty());
    assert(after_set_cookies(m, cs.drop_last()) == m);
    assert(cs.last() == (name, value));
    http::law_lookup_after_remove(m, name, name);
    http::law_insert_if_absent(m, name, value, name);
}

/// The `Cookie` header of the jar: `SUB` and `SUBP`, those that are set,
/// joined by `; `.
pub open spec fn jar_cookie_header(m: Seq<(Seq<char>, Seq<char>)>) -> Seq<char> {
    match (http::map_lookup(m, "SUB"@), http::map_lookup(m, "SUBP"@)) {
        (Some(a), Some(b)) => "SUB="@ + a + "; "@ + "SUBP="@ + b,
        (Some(a), None) => "SUB="@ + a,
        (None, Some(b)) => "SUBP="@ + b,
        (None, None) => Seq::<char>::empty(),
    }
}

/// The query of a status check: entry, QR id, version, and the `rid` when
/// one is known.
pub open spec fn poll_query_of(qrid: Seq<char>, rid: Option<Seq<char>>) -> Seq<(Seq<char>, Seq<char>)> {
    let base = seq![("entry"@, "miniblog"@), ("qrid"@, qrid), ("ver"@, "20250520"@)];
    match rid {
        Some(r) => base.push(("rid"@, r)),
        None => base,
    }
}

/// The state of one QR login: the QR code fetched, its image, the `rid` of
/// the bot check, and the cookies collected so far.
#[derive(Debug)]
pub struct QrSession {
    pub qrid: Option<String>,
    pub image_url: Option<String>,
    pub image_bytes: Option<Vec<u8>>,
    pub rid: Option<String>,
    pub cookie_jar: StrMap,
}

impl QrSession {
    /// A session before any request.
    pub fn new() -> (r: QrSession)
        ensures
            r.qrid is None,
            r.image_url is None,
            r.image_bytes is None,
            r.rid is None,
            r.cookie_jar@.len() == 0,
    {
        QrSession { qrid: None, image_url: None, image_bytes: None, rid: None, cookie_jar: StrMap::new() }
    }

    /// The cookies of the sign-in page are stored, each replacing a cookie
    /// of the same name.
    pub fn apply_warmup_cookies(&mut self, cookies: Vec<(String, String)>)
        ensures
            final(self).cookie_jar@ == inserted_all(old(self).cookie_jar@, pairs_view(cookies@)),
            final(self).qrid == old(self).qrid,
            final(self).image_url == old(self).image_url,
            final(self).image_bytes == old(self).image_bytes,
            final(self).rid == old(self).rid,
    {
        let ghost start = self.cookie_jar@;
        let mut i: usize = 0;
        while i < cookies.len()
            invariant
                0 <= i <= cookies@.len(),
                self.cookie_jar@ == inserted_all(start, pairs_view(cookies@.take(i as int))),
                self.qrid == old(self).qrid,
                self.image_url == old(self).image_url,
                self.image_bytes == old(self).image_bytes,
                self.rid == old(self).rid,
            decreases cookies.len() - i,
        {
            assert(pairs_view(cookies@.take(i + 1)).drop_last() =~= pairs_view(cookies@.take(i as int)));
            let (n, v) = (cookies[i].0.clone(), cookies[i].1.clone());
            self.cookie_jar.insert(n, v);
            i = i + 1;
        }
        assert(cookies@.take(cookies@.len() as int) =~= cookies@);
    }

    /// A reply of the QR-image endpoint: with `retcode` 20000000 and data
    /// (QR id, image URL), the new QR code replaces the old one and its
    /// image is to be downloaded; otherwise nothing changes and the error
    /// says why.
    pub fn apply_qr_image(&mut self, retcode: i64, data: Option<(String, String)>) -> (r: Result<(), QrError>)
        ensures
            retcode != RETCODE_OK ==> (r matches Err(QrError::Retcode(c)) && c == retcode),
            retcode == RETCODE_OK && data is None ==> r matches Err(QrError::NoData),
            r is Err ==> final(self).qrid == old(self).qrid && final(self).image_url == old(self).image_url
                && final(self).image_bytes == old(self).image_bytes,
            retcode == RETCODE_OK ==> match data {
                Some((q, u)) => {
                    &&& r is Ok
                    &&& final(self).qrid.deep_view() == Some(q@)
                    &&& final(self).image_url.deep_view() == Some(u@)
                    &&& final(self).image_bytes is None
                },
                None => true,
            },
            final(self).rid == old(self).rid,
            final(self).cookie_jar@ == old(self).cookie_jar@,
    {
        if retcode != RETCODE_OK {
            return Err(QrError::Retcode(retcode));
        }
        match data {
            None => Err(QrError::NoData),
            Some((qrid, image)) => {
                self.qrid = Some(qrid);
                self.image_url = Some(image);
                self.image_bytes = None;
                Ok(())
            },
        }
    }

    /// The URL of the QR image to download.
    pub fn image_url_to_download(&self) -> (r: Result<String, QrError>)
        ensures
            match self.image_url {
                Some(u) => r matches Ok(t) && t@ == u@,
                None => r matches Err(QrError::NoQrCode),
            },
    {
        match &self.image_url {
            Some(u) => Ok(u.clone()),
            None => Err(QrError::NoQrCode),
        }
    }

    /// The downloaded QR image.
    pub fn apply_image(&mut self, bytes: Vec<u8>)
        ensures
            final(self).image_bytes == Some(bytes),
            final(self).qrid == old(self).qrid,
            final(self).image_url == old(self).image_url,
            final(self).rid == old(self).rid,
            final(self).cookie_jar@ == old(self).cookie_jar@,
    {
        self.image_bytes = Some(bytes);
    }

    /// The image to save.
    pub fn image_to_save(&self) -> (r: Result<&Vec<u8>, QrError>)
        ensures
            match self.image_bytes {
                Some(b) => r matches Ok(v) && v@ == b@,
                None => r matches Err(QrError::NoImage),
            },
    {
        match &self.image_bytes {
            Some(b) => Ok(b),
            None => Err(QrError::NoImage),
        }
    }

    /// The `rid` of the bot check, sent with each status check.
    pub fn set_rid(&mut self, rid: String)
        ensures
            final(self).rid.deep_view() == Some(rid@),
            final(self).qrid == old(self).qrid,
            final(self).image_url == old(self).image_url,
            final(self).image_bytes == old(self).image_bytes,
            final(self).cookie_jar@ == old(self).cookie_jar@,
    {
        self.rid = Some(rid);
    }

    /// The query of a status check of the current QR code.
    pub fn poll_query(&self) -> (r: Result<Vec<(String, String)>, QrError>)
        ensures
            match self.qrid {
                Some(q) => r matches Ok(v) && pairs_view(v@) == poll_query_of(q@, self.rid.deep_view()),
                None => r matches Err(QrError::NoQrCode),
            },
    {
        let qrid = match &self.qrid {
            Some(q) => q.clone(),
            None => {
                return Err(QrError::NoQrCode);
            },
        };
        let mut v: Vec<(String, String)> = Vec::new();
        v.push(("entry".to_string(), "miniblog".to_string()));
        v.push(("qrid".to_string(), qrid));
        v.push(("ver".to_string(), "20250520".to_string()));
        match &self.rid {
            Some(r) => {
                v.push(("rid".to_string(), r.clone()));
            },
            None => {},
        }
        let ghost want = poll_query_of(self.qrid->0@, self.rid.deep_view());
        assert(pairs_view(v@) =~= want);
        Ok(v)
    }

    /// The `Cookie` header that authenticates requests: `SUB` and `SUBP`.
    pub fn cookie_header(&self) -> (r: String)
        ensures
            r@ == jar_cookie_header(self.cookie_jar@),
    {
        let mut out = String::new();
        let sub = self.cookie_jar.get("SUB");
        let subp = self.cookie_jar.get("SUBP");
        match sub {
            Some(a) => {
                append_str(&mut out, "SUB=");
                append_str(&mut out, a.as_str());
            },
            None => {},
        }
        match subp {
            Some(b) => {
                if sub.is_some() {
                    append_str(&mut out, "; ");
                }
                append_str(&mut out, "SUBP=");
                append_str(&mut out, b.as_str());
            },
            None => {},
        }
        proof {
            reveal_strlit("");
        }
        out
    }

    /// The `Set-Cookie` headers of one hop of the ticket exchange, in
    /// order.
    pub fn apply_set_cookies(&mut self, cookies: Vec<(String, String)>)
        ensures
            final(self).cookie_jar@ == after_set_cookies(old(self).cookie_jar@, pairs_view(cookies@)),
            final(self).qrid == old(self).qrid,
            final(self).image_url == old(self).image_url,
            final(self).image_bytes == old(self).image_bytes,
            final(self).rid == old(self).rid,
    {
        let ghost start = self.cookie_jar@;
        let mut i: usize = 0;
        while i < cookies.len()
            invariant
                0 <= i <= cookies@.len(),
                self.cookie_jar@ == after_set_cookies(start, pairs_view(cookies@.take(i as int))),
                self.qrid == old(self).qrid,
                self.image_url == old(self).image_url,
                self.image_bytes == old(self).image_bytes,
                self.rid == old(self).rid,
            decreases cookies.len() - i,
        {
            proof {
                reveal_strlit("deleted");
            }
            assert(pairs_view(cookies@.take(i + 1)).drop_last() =~= pairs_view(cookies@.take(i as int)));
            let n = cookies[i].0.clone();
            let v = cookies[i].1.clone();
            if v.as_str().is_empty() || text::same_str(v.as_str(), "deleted") {
                self.cookie_jar.remove(n.as_str());
            } else {
                self.cookie_jar.insert_if_absent(n, v);
            }
            i = i + 1;
        }
        assert(cookies@.take(cookies@.len() as int) =~= cookies@);
    }

    /// The cookies to save: every cookie of the jar, for `weibo.com` and
    /// path `/`.
    pub fn stored_cookies(&self) -> (r: CookieStore)
        ensures
            r.cookies@.len() == self.cookie_jar@.len(),
            forall|i: int| 0 <= i < r.cookies@.len() ==> {
                &&& (#[trigger] r.cookies@[i]).name@ == self.cookie_jar@[i].0
                &&& r.cookies@[i].value@ == self.cookie_jar@[i].1
                &&& r.cookies@[i].domain@ == "weibo.com"@
                &&& r.cookies@[i].path@ == "/"@
            },
    {
        let mut cookies: Vec<StoredCookie> = Vec::new();
        let mut i: usize = 0;
        while i < self.cookie_jar.len()
            invariant
                0 <= i <= self.cookie_jar@.len(),
                cookies@.len() == i,
                forall|j: int| 0 <= j < i ==> {
                    &&& (#[trigger] cookies@[j]).name@ == self.cookie_jar@[j].0
                    &&& cookies@[j].value@ == self.cookie_jar@[j].1
                    &&& cookies@[j].domain@ == "weibo.com"@
                    &&& cookies@[j].path@ == "/"@
                },
            decreases self.cookie_jar@.len() - i,
        {
            cookies.push(StoredCookie {
                name: self.cookie_jar.key_at(i).clone(),
                value: self.cookie_jar.value_at(i).clone(),
                domain: "weibo.com".to_string(),
                path: "/".to_string(),
            });
            i = i + 1;
        }
        CookieStore { cookies }
    }
}

/// Pairs of strings as plain values.
pub open spec fn pairs_view(v: Seq<(String, String)>) -> Seq<(Seq<char>, Seq<char>)> {
    Seq::new(v.len(), |i: int| (v[i].0@, v[i].1@))
}

// ---------------------------------------------------------------------------
// Ticket exchange
// ---------------------------------------------------------------------------

/// Hops that the ticket exchange follows at most.
pub const MAX_HOPS: usize = 12;

/// Names what `url::Url::parse` of `base`, then `Url::join` with
/// `location`, give as text: `None` when either fails.
pub uninterp spec fn url_join(base: Seq<char>, location: Seq<char>) -> Option<Seq<char>>;

/// Calls `url::Url::parse` on `base` and `Url::join` on the result, and
/// renders the joined URL with `to_string`. Claimed: the text is named
/// `url_join` of the two arguments, and an error comes exactly when that
/// name is `None`.
#[verifier::external_body]
fn join_url(base: &str, location: &str) -> (r: Result<String, url::ParseError>)
    ensures
        match r {
            Ok(t) => url_join(base@, location@) == Some(t@),
            Err(_) => url_join(base@, location@) is None,
        },
{
    let u = url::Url::parse(base)?;
    let j = u.join(location)?;
    Ok(j.to_string())
}

/// `url::ParseError`, carried from `join_url` to its caller.
#[verifier::external_type_specification]
#[verifier::external_body]
pub struct ExParseError(url::ParseError);

/// Calls `to_string` (`Display`) on a `url::ParseError`. Nothing is
/// claimed of the text.
#[verifier::external_body]
fn parse_error_text(e: &url::ParseError) -> String {
    e.to_string()
}

/// Where a `Location` leads from `base`: itself when it starts with
/// `http`, else the URL joined to `base`.
pub open spec fn resolved(base: Seq<char>, location: Seq<char>) -> Option<Seq<char>> {
    if location.len() >= 4 && location.take(4) == "http"@ {
        Some(location)
    } else {
        url_join(base, location)
    }
}

/// Resolves a `Location` against the URL that answered with it.
pub fn resolve_url(base: &str, location: &str) -> (r: Result<String, QrError>)
    ensures
        match resolved(base@, location@) {
            Some(t) => r matches Ok(u) && u@ == t,
            None => r matches Err(QrError::BadLocation(_)),
        },
{
    proof {
        reveal_strlit("http");
    }
    if starts_with(location, "http") {
        return Ok(location.to_string());
    }
    match join_url(base, location) {
        Ok(t) => Ok(t),
        Err(e) => Err(QrError::BadLocation(parse_error_text(&e))),
    }
}

/// The first URL of the ticket exchange: the redirect URL of the
/// confirmation, which must not be empty.
pub fn exchange_start(redirect_url: &str) -> (r: Result<String, QrError>)
    ensures
        redirect_url@.len() == 0 ==> r matches Err(QrError::EmptyRedirect),
        redirect_url@.len() > 0 ==> (r matches Ok(u) && u@ == redirect_url@),
{
    if redirect_url.is_empty() {
        Err(QrError::EmptyRedirect)
    } else {
        Ok(redirect_url.to_string())
    }
}

/// What the ticket exchange does after a hop.
#[derive(Debug)]
pub enum HopStep {
    /// Request this URL next.
    Follow(String),
    /// The exchange is over.
    Done,
}

/// An HTTP status that redirects (3xx).
pub open spec fn is_redirection(status: u16) -> bool {
    300 <= status <= 399
}

/// After hop `hop` (counted from 0) answered `status` at `url`: a redirect
/// with a `Location` is followed, while fewer than `MAX_HOPS` hops were
/// made; anything else ends the exchange. A `Location` that cannot be
/// resolved is an error.
pub fn next_hop(hop: usize, url: &str, status: u16, location: Option<String>) -> (r: Result<HopStep, QrError>)
    ensures
        !is_redirection(status) || location is None ==> r matches Ok(HopStep::Done),
        is_redirection(status) && location is Some ==> match resolved(url@, location->0@) {
            None => r matches Err(QrError::BadLocation(_)),
            Some(t) => if hop + 1 < MAX_HOPS {
                r matches Ok(HopStep::Follow(u)) && u@ == t
            } else {
                r matches Ok(HopStep::Done)
            },
        },
{
    if status < 300 || status > 399 {
        return Ok(HopStep::Done);
    }
    match location {
        None => Ok(HopStep::Done),
        Some(loc) => {
            let next = match resolve_url(url, loc.as_str()) {
                Ok(u) => u,
                Err(e) => {
                    return Err(e);
                },
            };
            if hop < MAX_HOPS - 1 {
                Ok(HopStep::Follow(next))
            } else {
                Ok(HopStep::Done)
            }
        },
    }
}

} // verus!
