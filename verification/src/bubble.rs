//! What the message bubbles and lists show as text: role badges, initials
//! in place of avatars, quoted replies, and the caption of images.

use vstd::prelude::*;
use vstd::string::StringSliceAdditionalSpecFns;

use crate::domain::ChatMessage;
use crate::text;
use crate::text::{append_str, chars_of, push_char, string_of, u64_to_decimal};

verus! {

broadcast use vstd::string::group_string_axioms;

/// The badge of a group role: 4 is the owner, 1 an administrator.
pub open spec fn role_label(role: u8) -> Option<Seq<char>> {
    if role == 4 {
        Some("群主"@)
    } else if role == 1 {
        Some("管理员"@)
    } else {
        None
    }
}

/// The badge shown beside a sender of the given role, if any.
pub fn role_badge(role: u8) -> (r: Option<&'static str>)
    ensures
        r.deep_view() == role_label(role),
{
    if role == 4 {
        Some("群主")
    } else if role == 1 {
        Some("管理员")
    } else {
        None
    }
}

/// The first character of a name, as text (empty for an empty name).
pub open spec fn initial_of(name: Seq<char>) -> Seq<char> {
    if name.len() > 0 {
        seq![name[0]]
    } else {
        Seq::<char>::empty()
    }
}

/// The first character of `name`, shown in place of an avatar.
pub fn initial(name: &str) -> (r: String)
    ensures
        r@ == initial_of(name@),
{
    let cs = chars_of(name);
    let mut s = String::new();
    if cs.len() > 0 {
        push_char(&mut s, cs[0]);
    }
    s
}

/// What stands in place of a conversation's avatar: `群` for a group, the
/// initial of its name otherwise.
pub fn contact_initial(screen_name: &str, is_group: bool) -> (r: String)
    ensures
        r@ == if is_group {
            "群"@
        } else {
            initial_of(screen_name@)
        },
{
    if is_group {
        "群".to_string()
    } else {
        initial(screen_name)
    }
}

/// The name shown above a message: `我` for the user's own.
pub fn sender_label(msg: &ChatMessage) -> (r: String)
    ensures
        r@ == if msg.is_self {
            "我"@
        } else {
            msg.sender_name@
        },
{
    if msg.is_self {
        "我".to_string()
    } else {
        msg.sender_name.clone()
    }
}

/// The line between a quoted message and the reply.
pub open spec fn quote_separator() -> Seq<char> {
    "\n- - - - - - - - - - - - - - -\n"@
}

/// `s` without the copies of `c` at its start.
pub open spec fn strip_start(s: Seq<char>, c: char) -> Seq<char>
    decreases s.len(),
{
    if s.len() > 0 && s[0] == c {
        strip_start(s.drop_first(), c)
    } else {
        s
    }
}

/// `s` without the copies of `c` at its end.
pub open spec fn strip_end(s: Seq<char>, c: char) -> Seq<char>
    decreases s.len(),
{
    if s.len() > 0 && s.last() == c {
        strip_end(s.drop_last(), c)
    } else {
        s
    }
}

/// `str::trim_matches` with a character.
pub open spec fn trim_char(s: Seq<char>, c: char) -> Seq<char> {
    strip_end(strip_start(s, c), c)
}

/// A quoted reply split into the quote (without its `「` `」` marks) and
/// the reply; text without the separator is all reply.
pub open spec fn quote_parts_of(t: Seq<char>) -> (Seq<char>, Seq<char>) {
    match text::find(t, quote_separator()) {
        Some(k) => (
            trim_char(trim_char(t.take(k), '「'), '」'),
            t.skip(k + quote_separator().len()),
        ),
        None => (Seq::<char>::empty(), t),
    }
}

/// Bounds of `trim_char(s[from..to], c)` in `s`.
fn trim_char_bounds(s: &[char], from: usize, to: usize, c: char) -> (r: (usize, usize))
    requires
        from <= to <= s@.len(),
    ensures
        from <= r.0 <= r.1 <= to,
        s@.subrange(r.0 as int, r.1 as int) == trim_char(s@.subrange(from as int, to as int), c),
{
    let mut a = from;
    while a < to && s[a] == c
        invariant
            from <= a <= to <= s@.len(),
            strip_start(s@.subrange(from as int, to as int), c) == strip_start(s@.subrange(a as int, to as int), c),
        decreases to - a,
    {
        assert(s@.subrange(a as int, to as int).drop_first() =~= s@.subrange(a + 1, to as int));
        a = a + 1;
    }
    assert(strip_start(s@.subrange(a as int, to as int), c) == s@.subrange(a as int, to as int));
    let mut b = to;
    while b > a && s[b - 1] == c
        invariant
            from <= a <= b <= to <= s@.len(),
            strip_end(s@.subrange(a as int, to as int), c) == strip_end(s@.subrange(a as int, b as int), c),
        decreases b - a,
    {
        assert(s@.subrange(a as int, b as int).drop_last() =~= s@.subrange(a as int, b - 1));
        b = b - 1;
    }
    assert(strip_end(s@.subrange(a as int, b as int), c) == s@.subrange(a as int, b as int));
    (a, b)
}

/// Splits a quoted reply into the quote and the reply.
pub fn quote_parts(t: &str) -> (r: (String, String))
    ensures
        (r.0@, r.1@) == quote_parts_of(t@),
{
    let cs = chars_of(t);
    let sep = chars_of("\n- - - - - - - - - - - - - - -\n");
    match text::find_in(cs.as_slice(), sep.as_slice()) {
        Some(k) => {
            let (a, b) = trim_char_bounds(cs.as_slice(), 0, k, '「');
            assert(cs@.subrange(0, k as int) =~= t@.take(k as int));
            let (a2, b2) = trim_char_bounds(cs.as_slice(), a, b, '」');
            let quote = string_of(cs.as_slice(), a2, b2);
            let reply = string_of(cs.as_slice(), k + sep.len(), cs.len());
            assert(cs@.subrange(k + sep@.len(), cs@.len() as int) =~= t@.skip(k + sep@.len()));
            (quote, reply)
        },
        None => (String::new(), t.to_string()),
    }
}

/// The caption of an image message: the number of images and the first
/// bytes (at most 12) of the first image id; `图片` when there are none.
pub open spec fn image_caption_of(fids: Seq<Seq<char>>) -> Seq<char> {
    if fids.len() > 0 {
        let bytes = vstd::utf8::encode_utf8(fids[0]);
        let k = if bytes.len() < 12 { bytes.len() as int } else { 12 };
        text::decimal(fids.len()) + " 张图片\nfid: "@ + vstd::utf8::decode_utf8(bytes.take(k)) + "..."@
    } else {
        "图片"@
    }
}

/// The first image id can be cut after its first 12 bytes (or is shorter).
pub open spec fn caption_cut_ok(fids: Seq<Seq<char>>) -> bool {
    fids.len() > 0 ==> {
        let bytes = vstd::utf8::encode_utf8(fids[0]);
        bytes.len() <= 12 || vstd::utf8::is_char_boundary(bytes, 12)
    }
}

/// The caption shown in an image bubble.
pub fn image_caption(fids: &Vec<String>) -> (r: String)
    requires
        caption_cut_ok(fids.deep_view()),
    ensures
        r@ == image_caption_of(fids.deep_view()),
{
    let ghost fv = fids.deep_view();
    if fids.len() == 0 {
        return "图片".to_string();
    }
    let first = fids[0].as_str();
    assert(fv[0] == first@);
    assert(first.spec_bytes() == vstd::utf8::encode_utf8(first@));
    let n = first.as_bytes().len();
    let k: usize = if n < 12 {
        n
    } else {
        12
    };
    proof {
        vstd::utf8::encode_utf8_valid_utf8(first@);
        vstd::utf8::is_char_boundary_start_end_of_seq(vstd::utf8::encode_utf8(first@));
    }

    let (head, _rest) = first.split_at(k);
    proof {
        vstd::utf8::encode_utf8_decode_utf8(head@);
    }
    let mut s = u64_to_decimal(fids.len() as u64);
    append_str(&mut s, " 张图片\nfid: ");
    append_str(&mut s, head);
    append_str(&mut s, "...");
    s
}

/// The text under an image is shown unless it is empty or the default
/// `分享图片`.
pub fn image_text_shown(t: &str) -> (r: bool)
    ensures
        r == (t@.len() > 0 && t@ != "分享图片"@),
{
    !t.is_empty() && !text::same_str(t, "分享图片")
}

} // verus!
