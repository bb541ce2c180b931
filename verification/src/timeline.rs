//! The home timeline: reading the feed-group list, the friends timeline
//! and the hot-search list, and the choice between them.

use vstd::prelude::*;

use crate::domain::{TimelineItem, items_view};
use crate::json::{self, Json};
use crate::session::{format_timeline_title, timeline_title};
use crate::text;
use crate::text::{append_str, u64_to_decimal};

verus! {

broadcast use vstd::string::group_string_axioms;

/// How many hot-search entries are shown at most.
pub const MAX_HOTSEARCH_ITEMS: usize = 50;

/// `text`, or `default` when there is none.
pub open spec fn or_default(t: Option<Seq<char>>, default: Seq<char>) -> Seq<char> {
    match t {
        Some(x) => x,
        None => default,
    }
}

// ---------------------------------------------------------------------------
// Friends timeline
// ---------------------------------------------------------------------------

/// A post of the friends timeline: author (`user.screen_name`, else `?`)
/// and text (`text_raw`, else `text`, as a string, else empty).
pub open spec fn status_item(s: Json) -> (Seq<char>, Seq<char>) {
    (
        or_default(json::str_of(json::path2(s, "user"@, "screen_name"@)), "?"@),
        or_default(json::str_of(json::either(json::field(s, "text_raw"@), json::field(s, "text"@))), seq![]),
    )
}

/// The posts of a friends-timeline reply (its `statuses` array).
pub open spec fn statuses(data: Json) -> Seq<(Seq<char>, Seq<char>)> {
    match json::array_of(json::field(data, "statuses"@)) {
        Some(a) => Seq::new(a.len(), |i: int| status_item(a[i])),
        None => seq![],
    }
}

fn status_of(s: &Json) -> (r: TimelineItem)
    ensures
        r@ == status_item(*s),
{
    proof {
        reveal_strlit("?");
        reveal_strlit("");
    }
    let user_name = json::text_or(json::str_opt(json::get_path(s, "user", "screen_name")), "?");
    let text = json::text_or(json::str_opt(json::get_either(s, "text_raw", "text")), "");
    TimelineItem { user_name, text }
}

/// The posts of a friends-timeline reply.
pub fn parse_statuses(data: &Json) -> (r: Vec<TimelineItem>)
    ensures
        items_view(r@) == statuses(*data),
{
    let a = match data.get("statuses") {
        Some(v) => match v.as_array() {
            Some(a) => a,
            None => {
                let r = Vec::new();
                assert(items_view(r@) =~= statuses(*data));
                return r;
            },
        },
        None => {
            let r = Vec::new();
            assert(items_view(r@) =~= statuses(*data));
            return r;
        },
    };
    let mut out: Vec<TimelineItem> = Vec::new();
    let mut i: usize = 0;
    while i < a.len()
        invariant
            0 <= i <= a@.len(),
            out@.len() == i,
            forall|j: int| 0 <= j < i ==> (#[trigger] out@[j])@ == status_item(a@[j]),
        decreases a.len() - i,
    {
        out.push(status_of(&a[i]));
        i = i + 1;
    }
    assert(items_view(out@) =~= statuses(*data));
    out
}

/// A friends-timeline reply is usable: its `ok` is 1.
pub open spec fn timeline_ok(data: Json) -> bool {
    json::i64_of(json::field(data, "ok"@)) == Some(1i64)
}

/// The posts of a friends-timeline reply, or `None` when its `ok` is not 1
/// (then the hot-search list is shown instead).
pub fn timeline_from_response(data: &Json) -> (r: Option<Vec<TimelineItem>>)
    ensures
        timeline_ok(*data) ==> (r matches Some(items) && items_view(items@) == statuses(*data)),
        !timeline_ok(*data) ==> r is None,
{
    let ok = match json::i64_opt(data.get("ok")) {
        Some(v) => v,
        None => 0,
    };
    if ok != 1 {
        return None;
    }
    Some(parse_statuses(data))
}

/// The URL of the friends timeline of the feed list `list_id`.
pub open spec fn friendstimeline_url(list_id: Seq<char>) -> Seq<char> {
    "https://weibo.com/ajax/feed/friendstimeline?list_id="@ + list_id
        + "&refresh=0&since_id=0&count=25&fid="@ + list_id
}

/// The URL of the friends timeline of the feed list `list_id`.
pub fn friendstimeline_url_for(list_id: &str) -> (r: String)
    ensures
        r@ == friendstimeline_url(list_id@),
{
    let mut out = "https://weibo.com/ajax/feed/friendstimeline?list_id=".to_string();
    append_str(&mut out, list_id);
    append_str(&mut out, "&refresh=0&since_id=0&count=25&fid=");
    append_str(&mut out, list_id);
    out
}

// ---------------------------------------------------------------------------
// Feed groups
// ---------------------------------------------------------------------------

/// The group of all followed users has an id starting with `10001`.
pub open spec fn is_following_gid(gid: Seq<char>) -> bool {
    gid.len() >= 5 && gid.take(5) == "10001"@
}

/// The first id of `sub` (a list of groups) that names the following list.
pub open spec fn following_in(sub: Seq<Json>) -> Option<Seq<char>>
    decreases sub.len(),
{
    if sub.len() == 0 {
        None
    } else {
        match json::str_of(json::field(sub[0], "gid"@)) {
            Some(g) => if is_following_gid(g) {
                Some(g)
            } else {
                following_in(sub.drop_first())
            },
            None => following_in(sub.drop_first()),
        }
    }
}

/// The first following-list id among the `group` lists of `groups`.
pub open spec fn following_in_groups(groups: Seq<Json>) -> Option<Seq<char>>
    decreases groups.len(),
{
    if groups.len() == 0 {
        None
    } else {
        match json::array_of(json::field(groups[0], "group"@)) {
            Some(sub) => match following_in(sub) {
                Some(g) => Some(g),
                None => following_in_groups(groups.drop_first()),
            },
            None => following_in_groups(groups.drop_first()),
        }
    }
}

/// `get_following_list_id`: the id of the list of all followed users in an
/// `allGroups` reply.
pub open spec fn following_list_id(data: Json) -> Option<Seq<char>> {
    match json::array_of(json::field(data, "groups"@)) {
        Some(gs) => following_in_groups(gs),
        None => None,
    }
}

fn following_in_exec(sub: &Vec<Json>) -> (r: Option<String>)
    ensures
        r.deep_view() == following_in(sub@),
{
    let mut i: usize = 0;
    assert(sub@.skip(0) =~= sub@);
    while i < sub.len()
        invariant
            0 <= i <= sub@.len(),
            following_in(sub@) == following_in(sub@.skip(i as int)),
        decreases sub.len() - i,
    {
        proof {
            reveal_strlit("10001");
        }
        assert(sub@.skip(i as int).drop_first() =~= sub@.skip(i + 1));
        assert(sub@.skip(i as int)[0] == sub@[i as int]);
        let f = sub[i].get("gid");
        assert(json::deref_opt(f) == json::field(sub@[i as int], "gid"@));
        let c = json::str_opt(f);
        assert(c.deep_view() == json::str_of(json::field(sub@[i as int], "gid"@)));
        match c {
            Some(g) => {
                if text::starts_with(g.as_str(), "10001") {
                    assert(is_following_gid(g@));
                    return Some(g);
                }
            },
            None => {},
        }
        i = i + 1;
    }
    None
}

/// The id of the list of all followed users in an `allGroups` reply: the
/// first group id that starts with `10001`.
pub fn following_list_id_of(data: &Json) -> (r: Option<String>)
    ensures
        r.deep_view() == following_list_id(*data),
{
    let gs = match data.get("groups") {
        Some(v) => match v.as_array() {
            Some(a) => a,
            None => {
                return None;
            },
        },
        None => {
            return None;
        },
    };
    let mut i: usize = 0;
    assert(gs@.skip(0) =~= gs@);
    while i < gs.len()
        invariant
            0 <= i <= gs@.len(),
            json::array_of(json::field(*data, "groups"@)) == Some(gs@),
            following_in_groups(gs@) == following_in_groups(gs@.skip(i as int)),
        decreases gs.len() - i,
    {
        assert(gs@.skip(i as int).drop_first() =~= gs@.skip(i + 1));
        assert(gs@.skip(i as int)[0] == gs@[i as int]);
        match gs[i].get("group") {
            Some(v) => match v.as_array() {
                Some(sub) => match following_in_exec(sub) {
                    Some(g) => {
                        return Some(g);
                    },
                    None => {},
                },
                None => {},
            },
            None => {},
        }
        i = i + 1;
    }
    None
}

// ---------------------------------------------------------------------------
// Hot search
// ---------------------------------------------------------------------------

/// The text of a hot-search entry with heat `num` and note `note`.
pub open spec fn hot_text(num: i64, note: Seq<char>) -> Seq<char> {
    if num > 0 && note.len() > 0 {
        "🔥 热度 "@ + text::decimal(num as nat) + " — "@ + note
    } else if num > 0 {
        "🔥 热度 "@ + text::decimal(num as nat)
    } else if note.len() > 0 {
        "["@ + note + "]"@
    } else {
        seq![]
    }
}

/// A hot-search entry: its `word` (else `?`) and the text made of its
/// `num` (else 0) and its `note` (else `category`, else empty).
pub open spec fn hot_item(item: Json) -> (Seq<char>, Seq<char>) {
    (
        or_default(json::str_of(json::field(item, "word"@)), "?"@),
        hot_text(
            match json::i64_of(json::field(item, "num"@)) {
                Some(n) => n,
                None => 0,
            },
            or_default(json::str_of(json::either(json::field(item, "note"@), json::field(item, "category"@))), seq![]),
        ),
    )
}

/// The hot-search entries of a reply: `data.realtime` (else
/// `data.band_list`), at most `MAX_HOTSEARCH_ITEMS` of them.
pub open spec fn hot_items(data: Json) -> Seq<(Seq<char>, Seq<char>)> {
    let band = match json::field(data, "data"@) {
        Some(d) => json::array_of(json::either(json::field(d, "realtime"@), json::field(d, "band_list"@))),
        None => None,
    };
    match band {
        Some(a) => {
            let n = if a.len() <= MAX_HOTSEARCH_ITEMS {
                a.len() as int
            } else {
                MAX_HOTSEARCH_ITEMS as int
            };
            Seq::new(n as nat, |i: int| hot_item(a[i]))
        },
        None => seq![],
    }
}

/// The hot-search list never holds more than `MAX_HOTSEARCH_ITEMS` entries.
pub proof fn law_hot_items_bound(data: Json)
    ensures
        hot_items(data).len() <= MAX_HOTSEARCH_ITEMS,
{
}

/// An entry of the hot-search list that has its own `note` as text shows
/// its heat and that note; the `category` is not read then.
pub proof fn law_hot_note_first(data: Json, a: Seq<Json>, i: int, num: i64, note: Seq<char>)
    requires
        json::array_of(json::path2(data, "data"@, "realtime"@)) == Some(a),
        0 <= i < a.len(),
        i < MAX_HOTSEARCH_ITEMS,
        json::str_of(json::field(a[i], "note"@)) == Some(note),
        json::i64_of(json::field(a[i], "num"@)) == Some(num),
        num > 0,
        note.len() > 0,
    ensures
        hot_items(data)[i].1 == "🔥 热度 "@ + text::decimal(num as nat) + " — "@ + note,
{
}

/// An entry without a `note` shows its `category` in the note's place.
pub proof fn law_hot_category_without_note(data: Json, a: Seq<Json>, i: int, num: i64, category: Seq<char>)
    requires
        json::array_of(json::path2(data, "data"@, "realtime"@)) == Some(a),
        0 <= i < a.len(),
        i < MAX_HOTSEARCH_ITEMS,
        json::field(a[i], "note"@) is None,
        json::str_of(json::field(a[i], "category"@)) == Some(category),
        json::i64_of(json::field(a[i], "num"@)) == Some(num),
        num > 0,
        category.len() > 0,
    ensures
        hot_items(data)[i].1 == "🔥 热度 "@ + text::decimal(num as nat) + " — "@ + category,
{
}

/// An entry with no heat shows its note in brackets, and one with heat but
/// no note shows the heat alone; its title is its `word`.
pub proof fn law_hot_partial_entries(data: Json, a: Seq<Json>, i: int, word: Seq<char>, note: Seq<char>, num: i64)
    requires
        json::array_of(json::path2(data, "data"@, "realtime"@)) == Some(a),
        0 <= i < a.len(),
        i < MAX_HOTSEARCH_ITEMS,
        json::str_of(json::field(a[i], "word"@)) == Some(word),
    ensures
        hot_items(data)[i].0 == word,
        json::field(a[i], "num"@) is None && json::str_of(json::field(a[i], "note"@)) == Some(note) && note.len()
            > 0 ==> hot_items(data)[i].1 == "["@ + note + "]"@,
        json::i64_of(json::field(a[i], "num"@)) == Some(num) && num > 0 && json::field(a[i], "note"@) is None
            && json::field(a[i], "category"@) is None ==> hot_items(data)[i].1 == "🔥 热度 "@ + text::decimal(
            num as nat,
        ),
{
}

/// The list is read from `data.realtime`, and from `data.band_list` only
/// when there is no `realtime`; it keeps the entries' order.
pub proof fn law_hot_source(data: Json, d: Json, a: Seq<Json>, i: int)
    requires
        json::field(data, "data"@) == Some(d),
        json::field(d, "realtime"@) is None,
        json::array_of(json::field(d, "band_list"@)) == Some(a),
        0 <= i < a.len(),
        i < MAX_HOTSEARCH_ITEMS,
    ensures
        hot_items(data).len() == if a.len() <= MAX_HOTSEARCH_ITEMS { a.len() as int } else { MAX_HOTSEARCH_ITEMS as int },
        hot_items(data)[i].0 == match json::str_of(json::field(a[i], "word"@)) {
            Some(w) => w,
            None => "?"@,
        },
{
}

fn hot_entry(item: &Json) -> (r: TimelineItem)
    ensures
        r@ == hot_item(*item),
{
    proof {
        reveal_strlit("?");
        reveal_strlit("");
    }
    let word = json::text_or(json::str_opt(item.get("word")), "?");
    let num = match json::i64_opt(item.get("num")) {
        Some(n) => n,
        None => 0,
    };
    let note = json::text_or(json::str_opt(json::get_either(item, "note", "category")), "");
    let note_empty = note.as_str().is_empty();
    let text = if num > 0 && !note_empty {
        let mut t = "🔥 热度 ".to_string();
        append_str(&mut t, u64_to_decimal(num as u64).as_str());
        append_str(&mut t, " — ");
        append_str(&mut t, note.as_str());
        t
    } else if num > 0 {
        let mut t = "🔥 热度 ".to_string();
        append_str(&mut t, u64_to_decimal(num as u64).as_str());
        t
    } else if !note_empty {
        let mut t = "[".to_string();
        append_str(&mut t, note.as_str());
        append_str(&mut t, "]");
        t
    } else {
        String::new()
    };
    TimelineItem { user_name: word, text }
}

/// The hot-search entries of a reply.
pub fn hotsearch_items(data: &Json) -> (r: Vec<TimelineItem>)
    ensures
        items_view(r@) == hot_items(*data),
{
    let band = match data.get("data") {
        Some(d) => match json::get_either(d, "realtime", "band_list") {
            Some(b) => b.as_array(),
            None => None,
        },
        None => None,
    };
    let a = match band {
        Some(a) => a,
        None => {
            let r = Vec::new();
            assert(items_view(r@) =~= hot_items(*data));
            return r;
        },
    };
    let n = if a.len() <= MAX_HOTSEARCH_ITEMS {
        a.len()
    } else {
        MAX_HOTSEARCH_ITEMS
    };
    let mut out: Vec<TimelineItem> = Vec::new();
    let mut i: usize = 0;
    while i < n
        invariant
            0 <= i <= n <= a@.len(),
            out@.len() == i,
            forall|j: int| 0 <= j < i ==> (#[trigger] out@[j])@ == hot_item(a@[j]),
        decreases n - i,
    {
        out.push(hot_entry(&a[i]));
        i = i + 1;
    }
    assert(items_view(out@) =~= hot_items(*data));
    out
}

// ---------------------------------------------------------------------------
// Choosing what the home page shows
// ---------------------------------------------------------------------------

/// The title of the hot-search list with `n` entries.
pub open spec fn hotsearch_title(n: nat) -> Seq<char> {
    "🔥 热搜榜 ("@ + text::decimal(n) + "条)"@
}

/// What the home page shows after the timeline was fetched.
#[derive(Debug)]
pub enum HomeStep {
    /// These items, with this title.
    Show(Vec<TimelineItem>, String),
    /// Nothing usable: fetch the hot-search list.
    FetchHotsearch,
}

/// The timeline fetch gave `items` (`None` when it failed): non-empty items
/// are shown as the home timeline; otherwise the hot-search list is
/// fetched.
pub fn home_after_timeline(items: Option<Vec<TimelineItem>>) -> (r: HomeStep)
    ensures
        match items {
            Some(v) => if v@.len() > 0 {
                r matches HomeStep::Show(ri, t) && ri@ == v@ && t@ == timeline_title(v@.len() as nat)
            } else {
                r matches HomeStep::FetchHotsearch
            },
            None => r matches HomeStep::FetchHotsearch,
        },
{
    match items {
        Some(v) => {
            if v.len() > 0 {
                let title = format_timeline_title(v.len());
                HomeStep::Show(v, title)
            } else {
                HomeStep::FetchHotsearch
            }
        },
        None => HomeStep::FetchHotsearch,
    }
}

/// The hot-search fetch gave `items` (`None` when it failed): they are
/// shown with the hot-search title, or nothing with `加载失败`.
pub fn home_after_hotsearch(items: Option<Vec<TimelineItem>>) -> (r: (Vec<TimelineItem>, String))
    ensures
        match items {
            Some(v) => r.0@ == v@ && r.1@ == hotsearch_title(v@.len() as nat),
            None => r.0@.len() == 0 && r.1@ == "加载失败"@,
        },
{
    match items {
        Some(v) => {
            let mut t = "🔥 热搜榜 (".to_string();
            append_str(&mut t, u64_to_decimal(v.len() as u64).as_str());
            append_str(&mut t, "条)");
            (v, t)
        },
        None => (Vec::new(), "加载失败".to_string()),
    }
}

} // verus!
