//! Text utilities over the character view of strings: the pieces of `str`
//! that the parsers of this crate rely on (`lines`, `trim`,
//! `split_whitespace`, `find`, `parse::<u16>`, decimal formatting), each
//! with a specification over `Seq<char>`.

use vstd::prelude::*;

verus! {

broadcast use vstd::string::group_string_axioms;

// ---------------------------------------------------------------------------
// Specifications
// ---------------------------------------------------------------------------

/// `char::is_whitespace`: the characters with the Unicode `White_Space` property.
pub open spec fn is_ws(c: char) -> bool {
    let u = c as u32;
    ||| 0x9 <= u <= 0xd
    ||| u == 0x20
    ||| u == 0x85
    ||| u == 0xa0
    ||| u == 0x1680
    ||| 0x2000 <= u <= 0x200a
    ||| u == 0x2028
    ||| u == 0x2029
    ||| u == 0x202f
    ||| u == 0x205f
    ||| u == 0x3000
}

/// `s` with its leading whitespace removed.
pub open spec fn trim_start(s: Seq<char>) -> Seq<char>
    decreases s.len(),
{
    if s.len() > 0 && is_ws(s[0]) {
        trim_start(s.drop_first())
    } else {
        s
    }
}

/// `s` with its trailing whitespace removed.
pub open spec fn trim_end(s: Seq<char>) -> Seq<char>
    decreases s.len(),
{
    if s.len() > 0 && is_ws(s.last()) {
        trim_end(s.drop_last())
    } else {
        s
    }
}

/// `str::trim`.
pub open spec fn trim(s: Seq<char>) -> Seq<char> {
    trim_end(trim_start(s))
}

/// Index of the first `c` in `s`, or -1.
pub open spec fn index_of(s: Seq<char>, c: char) -> int
    decreases s.len(),
{
    if s.len() == 0 {
        -1
    } else if s[0] == c {
        0
    } else {
        let r = index_of(s.drop_first(), c);
        if r < 0 {
            -1
        } else {
            r + 1
        }
    }
}

/// `s` without one trailing `c`, if it ends with one.
pub open spec fn strip_last(s: Seq<char>, c: char) -> Seq<char> {
    if s.len() > 0 && s.last() == c {
        s.drop_last()
    } else {
        s
    }
}

/// `str::lines`: the pieces of `s` ended by `\n`, each without its `\n` and
/// then without one `\r` before it; a last piece without `\n` is kept whole,
/// and an empty last piece is not a line.
pub open spec fn lines(s: Seq<char>) -> Seq<Seq<char>>
    decreases s.len(),
{
    if s.len() == 0 {
        seq![]
    } else {
        let k = index_of(s, '\n');
        proof {
            lemma_index_of_bound(s, '\n');
        }
        if k < 0 {
            seq![s]
        } else {
            seq![strip_last(s.take(k), '\r')] + lines(s.skip(k + 1))
        }
    }
}

/// Length of the run of non-whitespace characters at the start of `s`.
pub open spec fn word_len(s: Seq<char>) -> nat
    decreases s.len(),
{
    if s.len() > 0 && !is_ws(s[0]) {
        1 + word_len(s.drop_first())
    } else {
        0
    }
}

/// `str::split_whitespace`: the maximal runs of non-whitespace characters.
pub open spec fn words(s: Seq<char>) -> Seq<Seq<char>>
    decreases s.len(),
{
    if s.len() == 0 {
        seq![]
    } else if is_ws(s[0]) {
        words(s.drop_first())
    } else {
        let w = word_len(s);
        proof {
            lemma_word_len_bound(s);
        }
        if w == 0 {
            seq![]
        } else {
            seq![s.take(w as int)] + words(s.skip(w as int))
        }
    }
}

/// `p` occurs in `s` at index `k`.
pub open spec fn matches_at(s: Seq<char>, p: Seq<char>, k: int) -> bool {
    0 <= k && k + p.len() <= s.len() && s.subrange(k, k + p.len()) == p
}

/// `str::find`, counted in characters: the first index at which `p` occurs in `s`.
#[verifier::opaque]
pub open spec fn find(s: Seq<char>, p: Seq<char>) -> Option<int> {
    if exists|k: int| matches_at(s, p, k) {
        Some(
            choose|k: int|
                matches_at(s, p, k) && forall|j: int| 0 <= j < k ==> !matches_at(s, p, j),
        )
    } else {
        None
    }
}

/// Number of bytes in the UTF-8 encoding of `c`.
pub open spec fn utf8_width(c: char) -> nat {
    let u = c as u32;
    if u <= 0x7f {
        1
    } else if u <= 0x7ff {
        2
    } else if u <= 0xffff {
        3
    } else {
        4
    }
}

/// Number of bytes in the UTF-8 encoding of `s`.
pub open spec fn utf8_len(s: Seq<char>) -> nat
    decreases s.len(),
{
    if s.len() == 0 {
        0
    } else {
        utf8_width(s[0]) + utf8_len(s.drop_first())
    }
}

/// Value of an ASCII decimal digit.
pub open spec fn digit_value(c: char) -> int {
    c as u32 - '0' as u32
}

pub open spec fn is_digit(c: char) -> bool {
    '0' as u32 <= c as u32 <= '9' as u32
}

/// Value of a sequence of decimal digits.
pub open spec fn decimal_value(s: Seq<char>) -> nat
    decreases s.len(),
{
    if s.len() == 0 {
        0
    } else {
        (decimal_value(s.drop_last()) * 10 + digit_value(s.last())) as nat
    }
}

/// The part of `s` after an optional leading `+` (a lone `+` is kept).
pub open spec fn unsigned_digits(s: Seq<char>) -> Seq<char> {
    if s.len() > 1 && s[0] == '+' {
        s.drop_first()
    } else {
        s
    }
}

/// Every character of `d` is a decimal digit.
pub open spec fn all_digits(d: Seq<char>) -> bool {
    forall|i: int| 0 <= i < d.len() ==> is_digit(d[i])
}

/// `str::parse::<u16>`: an optional `+` followed by at least one decimal
/// digit, whose value fits in 16 bits.
pub open spec fn parse_u16(s: Seq<char>) -> Option<u16> {
    let d = unsigned_digits(s);
    if d.len() > 0 && all_digits(d) && decimal_value(d) <= 0xffff {
        Some(decimal_value(d) as u16)
    } else {
        None
    }
}

/// The decimal digit for `d < 10`.
pub open spec fn digit_char(d: nat) -> char {
    (('0' as u32) + d) as char
}

/// Decimal representation of `n` (as `Display` writes an unsigned integer).
pub open spec fn decimal(n: nat) -> Seq<char>
    decreases n,
{
    if n < 10 {
        seq![digit_char(n)]
    } else {
        decimal(n / 10).push(digit_char(n % 10))
    }
}

// ---------------------------------------------------------------------------
// Lemmas
// ---------------------------------------------------------------------------

pub proof fn lemma_index_of_bound(s: Seq<char>, c: char)
    ensures
        -1 <= index_of(s, c) < s.len(),
    decreases s.len(),
{
    if s.len() > 0 {
        lemma_index_of_bound(s.drop_first(), c);
    }
}

pub proof fn lemma_word_len_bound(s: Seq<char>)
    ensures
        word_len(s) <= s.len(),
    decreases s.len(),
{
    if s.len() > 0 {
        lemma_word_len_bound(s.drop_first());
    }
}

pub proof fn lemma_index_of(s: Seq<char>, c: char, k: int)
    requires
        0 <= k <= s.len(),
        forall|j: int| 0 <= j < k ==> s[j] != c,
        k == s.len() || s[k] == c,
    ensures
        index_of(s, c) == if k < s.len() {
            k
        } else {
            -1
        },
    decreases s.len(),
{
    if s.len() > 0 && s[0] != c {
        lemma_index_of(s.drop_first(), c, k - 1);
    }
}

/// `s` after its first `n` words (whitespace-separated runs), with the
/// whitespace that follows the last of them.
pub open spec fn after_words(s: Seq<char>, n: nat) -> Seq<char>
    decreases s.len(), n,
{
    if n == 0 || s.len() == 0 {
        s
    } else if is_ws(s[0]) {
        after_words(s.drop_first(), n)
    } else {
        let w = word_len(s);
        proof {
            lemma_word_len_bound(s);
        }
        if w == 0 {
            s
        } else {
            after_words(s.skip(w as int), (n - 1) as nat)
        }
    }
}

/// Skipping `n` words skips one word, then `n - 1`.
pub proof fn lemma_after_words_step(s: Seq<char>, n: nat)
    requires
        n >= 1,
    ensures
        after_words(s, n) == after_words(after_words(s, 1), (n - 1) as nat),
    decreases s.len(),
{
    if s.len() > 0 {
        if is_ws(s[0]) {
            lemma_after_words_step(s.drop_first(), n);
        } else {
            lemma_word_len_bound(s);
            let w = word_len(s);
            if w > 0 {
                assert(after_words(s.skip(w as int), 0) == s.skip(w as int));
            }
        }
    }
}

pub proof fn lemma_word_len(s: Seq<char>, k: int)
    requires
        0 <= k <= s.len(),
        forall|j: int| 0 <= j < k ==> !is_ws(s[j]),
        k == s.len() || is_ws(s[k]),
    ensures
        word_len(s) == k,
    decreases s.len(),
{
    if k > 0 {
        lemma_word_len(s.drop_first(), k - 1);
    }
}

proof fn lemma_trim_start(s: Seq<char>, i: int)
    requires
        0 <= i <= s.len(),
        forall|j: int| 0 <= j < i ==> is_ws(s[j]),
    ensures
        trim_start(s) == trim_start(s.skip(i)),
    decreases i,
{
    if i > 0 {
        assert(is_ws(s[0]));
        assert(s.skip(1) =~= s.drop_first());
        lemma_trim_start(s.drop_first(), i - 1);
        assert(s.drop_first().skip(i - 1) =~= s.skip(i));
    } else {
        assert(s.skip(0) =~= s);
    }
}

proof fn lemma_trim_end(s: Seq<char>, i: int)
    requires
        0 <= i <= s.len(),
        forall|j: int| i <= j < s.len() ==> is_ws(s[j]),
    ensures
        trim_end(s) == trim_end(s.take(i)),
    decreases s.len() - i,
{
    if i < s.len() {
        assert(s.take(s.len() - 1) =~= s.drop_last());
        lemma_trim_end(s.drop_last(), i);
        assert(s.drop_last().take(i) =~= s.take(i));
    } else {
        assert(s.take(i) =~= s);
    }
}

pub proof fn lemma_utf8_len_concat(a: Seq<char>, b: Seq<char>)
    ensures
        utf8_len(a + b) == utf8_len(a) + utf8_len(b),
    decreases a.len(),
{
    if a.len() == 0 {
        assert(a + b =~= b);
    } else {
        assert((a + b).drop_first() =~= a.drop_first() + b);
        lemma_utf8_len_concat(a.drop_first(), b);
    }
}

pub proof fn lemma_utf8_len_push(s: Seq<char>, c: char)
    ensures
        utf8_len(s.push(c)) == utf8_len(s) + utf8_width(c),
{
    lemma_utf8_len_concat(s, seq![c]);
    assert(s + seq![c] =~= s.push(c));
    assert(seq![c].drop_first() =~= Seq::<char>::empty());
    assert(utf8_len(Seq::<char>::empty()) == 0);
    assert(utf8_len(seq![c]) == utf8_width(seq![c][0]) + utf8_len(seq![c].drop_first()));
}

/// `utf8_len` is the length of the UTF-8 encoding.
pub proof fn lemma_utf8_len_encode(s: Seq<char>)
    ensures
        utf8_len(s) == vstd::utf8::encode_utf8(s).len(),
    decreases s.len(),
{
    if s.len() > 0 {
        lemma_utf8_len_encode(s.drop_first());
        vstd::utf8::char_is_scalar(s[0]);
    }
}

/// Every character takes at least one byte.
pub proof fn lemma_utf8_len_ge(s: Seq<char>)
    ensures
        utf8_len(s) >= s.len(),
    decreases s.len(),
{
    if s.len() > 0 {
        lemma_utf8_len_ge(s.drop_first());
    }
}

/// Every character takes at most four bytes.
pub proof fn lemma_utf8_len_le(s: Seq<char>)
    ensures
        utf8_len(s) <= 4 * s.len(),
    decreases s.len(),
{
    if s.len() > 0 {
        lemma_utf8_len_le(s.drop_first());
    }
}

// ---------------------------------------------------------------------------
// Executable functions
// ---------------------------------------------------------------------------

/// `String::push`: appends one character.
#[verifier::external_body]
pub(crate) fn push_char(s: &mut String, c: char)
    ensures
        final(s)@ == old(s)@.push(c),
{
    s.push(c);
}

/// The characters of `s`, in order.
pub fn chars_of(s: &str) -> (r: Vec<char>)
    ensures
        r@ == s@,
{
    let mut v: Vec<char> = Vec::new();
    for c in it: s.chars()
        invariant
            v@ == it.seq().take(it.index() as int),
    {
        v.push(c);
    }
    v
}

/// The string made of the characters `s[from..to]`.
pub fn string_of(s: &[char], from: usize, to: usize) -> (r: String)
    requires
        from <= to <= s@.len(),
    ensures
        r@ == s@.subrange(from as int, to as int),
{
    let mut out = String::new();
    let mut i = from;
    while i < to
        invariant
            from <= i <= to <= s@.len(),
            out@ == s@.subrange(from as int, i as int),
        decreases to - i,
    {
        push_char(&mut out, s[i]);
        assert(s@.subrange(from as int, i + 1) =~= s@.subrange(from as int, i as int).push(s@[i as int]));
        i = i + 1;
    }
    out
}

/// Appends the characters of `t` to `out`.
pub fn append_chars(out: &mut String, t: &[char])
    ensures
        final(out)@ == old(out)@ + t@,
{
    let mut i: usize = 0;
    while i < t.len()
        invariant
            0 <= i <= t@.len(),
            out@ == old(out)@ + t@.take(i as int),
        decreases t.len() - i,
    {
        push_char(out, t[i]);
        assert(t@.take(i + 1) =~= t@.take(i as int).push(t@[i as int]));
        i = i + 1;
    }
    assert(t@.take(t@.len() as int) =~= t@);
}

/// Appends `t` to `out`.
pub fn append_str(out: &mut String, t: &str)
    ensures
        final(out)@ == old(out)@ + t@,
{
    let cs = chars_of(t);
    append_chars(out, cs.as_slice());
}

/// `char::is_whitespace`.
pub fn is_whitespace(c: char) -> (r: bool)
    ensures
        r == is_ws(c),
{
    let u = c as u32;
    (0x9 <= u && u <= 0xd) || u == 0x20 || u == 0x85 || u == 0xa0 || u == 0x1680 || (0x2000 <= u
        && u <= 0x200a) || u == 0x2028 || u == 0x2029 || u == 0x202f || u == 0x205f || u == 0x3000
}

/// Bounds `(a, b)` of `trim(s[from..to])` inside `s`.
pub fn trim_bounds(s: &[char], from: usize, to: usize) -> (r: (usize, usize))
    requires
        from <= to <= s@.len(),
    ensures
        from <= r.0 <= r.1 <= to,
        s@.subrange(r.0 as int, r.1 as int) == trim(s@.subrange(from as int, to as int)),
{
    let ghost t = s@.subrange(from as int, to as int);
    let mut a = from;
    while a < to && is_whitespace(s[a])
        invariant
            from <= a <= to <= s@.len(),
            forall|j: int| from <= j < a ==> is_ws(s@[j]),
        decreases to - a,
    {
        a = a + 1;
    }
    proof {
        lemma_trim_start(t, a - from);
        assert(t.skip(a - from) =~= s@.subrange(a as int, to as int));
        let u = s@.subrange(a as int, to as int);
        if u.len() > 0 {
            assert(!is_ws(u[0]));
        }
    }
    let mut b = to;
    while b > a && is_whitespace(s[b - 1])
        invariant
            from <= a <= b <= to <= s@.len(),
            forall|j: int| b <= j < to ==> is_ws(s@[j]),
        decreases b - a,
    {
        b = b - 1;
    }
    proof {
        let u = s@.subrange(a as int, to as int);
        lemma_trim_end(u, b - a);
        assert(u.take(b - a) =~= s@.subrange(a as int, b as int));
        let v = s@.subrange(a as int, b as int);
        if v.len() > 0 {
            assert(!is_ws(v.last()));
        }
    }
    (a, b)
}

/// The end of the first word of `s[from..to]`: `s[r..to]` is what
/// follows it.
pub fn skip_word(s: &[char], from: usize, to: usize) -> (r: usize)
    requires
        from <= to <= s@.len(),
    ensures
        from <= r <= to,
        s@.subrange(r as int, to as int) == after_words(s@.subrange(from as int, to as int), 1),
{
    let mut i = from;
    while i < to && is_whitespace(s[i])
        invariant
            from <= i <= to <= s@.len(),
            after_words(s@.subrange(from as int, to as int), 1) == after_words(
                s@.subrange(i as int, to as int),
                1,
            ),
        decreases to - i,
    {
        assert(s@.subrange(i as int, to as int).drop_first() =~= s@.subrange(i + 1, to as int));
        i = i + 1;
    }
    let mut j = i;
    while j < to && !is_whitespace(s[j])
        invariant
            from <= i <= j <= to <= s@.len(),
            forall|k: int| i <= k < j ==> !is_ws(s@[k]),
        decreases to - j,
    {
        j = j + 1;
    }
    let ghost t = s@.subrange(i as int, to as int);
    if j == i {
        assert(t.len() == 0);
        assert(s@.subrange(to as int, to as int) =~= t);
        return to;
    }
    proof {
        lemma_word_len(t, j - i);
        assert(t.skip(j - i) =~= s@.subrange(j as int, to as int));
        assert(after_words(t.skip(j - i), 0) == t.skip(j - i));
    }
    j
}

/// The characters of `trim(s[from..to])`.
pub fn trimmed(s: &[char], from: usize, to: usize) -> (r: String)
    requires
        from <= to <= s@.len(),
    ensures
        r@ == trim(s@.subrange(from as int, to as int)),
{
    let (a, b) = trim_bounds(s, from, to);
    string_of(s, a, b)
}

/// Index of the first `c` in `s[from..]`, or `s.len()`.
pub fn next_index_of(s: &[char], from: usize, c: char) -> (r: usize)
    requires
        from <= s@.len(),
    ensures
        from <= r <= s@.len(),
        forall|j: int| from <= j < r ==> s@[j] != c,
        r == s@.len() || s@[r as int] == c,
        index_of(s@.skip(from as int), c) == if r < s@.len() {
            r - from
        } else {
            -1
        },
{
    let mut i = from;
    while i < s.len() && s[i] != c
        invariant
            from <= i <= s@.len(),
            forall|j: int| from <= j < i ==> s@[j] != c,
        decreases s.len() - i,
    {
        i = i + 1;
    }
    proof {
        lemma_index_of(s@.skip(from as int), c, i - from);
    }
    i
}

/// `str::lines` of `s`, as index ranges `(start, end)` into `s`.
pub fn line_ranges(s: &[char]) -> (r: Vec<(usize, usize)>)
    ensures
        r@.len() == lines(s@).len(),
        forall|i: int|
            0 <= i < r@.len() ==> r@[i].0 <= r@[i].1 <= s@.len() && #[trigger] lines(s@)[i]
                == s@.subrange(r@[i].0 as int, r@[i].1 as int),
{
    let mut out: Vec<(usize, usize)> = Vec::new();
    let mut pos: usize = 0;
    assert(s@.skip(0) =~= s@);
    assert(Seq::new(0 as nat, |i: int| s@.subrange(out@[i].0 as int, out@[i].1 as int)) =~= Seq::<Seq<char>>::empty());
    while pos < s.len()
        invariant
            0 <= pos <= s@.len(),
            lines(s@) == Seq::new(out@.len() as nat, |i: int| s@.subrange(out@[i].0 as int, out@[i].1 as int))
                + lines(s@.skip(pos as int)),
            forall|i: int| 0 <= i < out@.len() ==> (#[trigger] out@[i]).0 <= out@[i].1 <= s@.len(),
        decreases s.len() - pos,
    {
        let ghost rest = s@.skip(pos as int);
        let ghost before = Seq::new(out@.len() as nat, |i: int| s@.subrange(out@[i].0 as int, out@[i].1 as int));
        let k = next_index_of(s, pos, '\n');
        if k == s.len() {
            out.push((pos, k));
            proof {
                assert(rest =~= s@.subrange(pos as int, k as int));
                assert(s@.skip(k as int).len() == 0);
                assert(lines(s@.skip(k as int)) =~= Seq::<Seq<char>>::empty());
                let after = Seq::new(out@.len() as nat, |i: int| s@.subrange(out@[i].0 as int, out@[i].1 as int));
                assert(after =~= before.push(rest));
                assert(before + lines(rest) =~= after + lines(s@.skip(k as int)));
            }
            pos = k;
        } else {
            let end = if k > pos && s[k - 1] == '\r' {
                k - 1
            } else {
                k
            };
            out.push((pos, end));
            proof {
                let kk = k - pos;
                assert(rest.take(kk) =~= s@.subrange(pos as int, k as int));
                assert(strip_last(rest.take(kk), '\r') =~= s@.subrange(pos as int, end as int));
                assert(rest.skip(kk + 1) =~= s@.skip(k + 1));
                let after = Seq::new(out@.len() as nat, |i: int| s@.subrange(out@[i].0 as int, out@[i].1 as int));
                assert(after =~= before.push(s@.subrange(pos as int, end as int)));
                assert(lines(rest) == seq![strip_last(rest.take(kk), '\r')] + lines(rest.skip(kk + 1)));
                assert(before + lines(rest) =~= after + lines(s@.skip(k + 1)));
            }
            pos = k + 1;
        }
    }
    proof {
        assert(s@.skip(pos as int).len() == 0);
        assert(lines(s@.skip(pos as int)) =~= Seq::<Seq<char>>::empty());
        let fin = Seq::new(out@.len() as nat, |i: int| s@.subrange(out@[i].0 as int, out@[i].1 as int));
        assert(lines(s@) =~= fin);
    }
    out
}


/// `str::split_whitespace` of `s[from..to]`, as index ranges into `s`.
pub fn word_ranges(s: &[char], from: usize, to: usize) -> (r: Vec<(usize, usize)>)
    requires
        from <= to <= s@.len(),
    ensures
        r@.len() == words(s@.subrange(from as int, to as int)).len(),
        forall|i: int|
            0 <= i < r@.len() ==> from <= (#[trigger] r@[i]).0 <= r@[i].1 <= to
                && words(s@.subrange(from as int, to as int))[i] == s@.subrange(
                r@[i].0 as int,
                r@[i].1 as int,
            ),
{
    let ghost t = s@.subrange(from as int, to as int);
    let mut out: Vec<(usize, usize)> = Vec::new();
    let mut pos = from;
    assert(t =~= s@.subrange(pos as int, to as int));
    assert(Seq::new(0 as nat, |i: int| s@.subrange(out@[i].0 as int, out@[i].1 as int)) =~= Seq::<Seq<char>>::empty());
    while pos < to
        invariant
            from <= pos <= to <= s@.len(),
            t == s@.subrange(from as int, to as int),
            words(t) == Seq::new(out@.len() as nat, |i: int| s@.subrange(out@[i].0 as int, out@[i].1 as int))
                + words(s@.subrange(pos as int, to as int)),
            forall|i: int| 0 <= i < out@.len() ==> from <= (#[trigger] out@[i]).0 <= out@[i].1 <= to,
        decreases to - pos,
    {
        let ghost rest = s@.subrange(pos as int, to as int);
        let ghost before = Seq::new(out@.len() as nat, |i: int| s@.subrange(out@[i].0 as int, out@[i].1 as int));
        if is_whitespace(s[pos]) {
            assert(rest.drop_first() =~= s@.subrange(pos + 1, to as int));
            pos = pos + 1;
        } else {
            let mut e = pos;
            while e < to && !is_whitespace(s[e])
                invariant
                    pos <= e <= to <= s@.len(),
                    forall|j: int| pos <= j < e ==> !is_ws(s@[j]),
                decreases to - e,
            {
                e = e + 1;
            }
            out.push((pos, e));
            proof {
                lemma_word_len(rest, e - pos);
                assert(rest.take(e - pos) =~= s@.subrange(pos as int, e as int));
                assert(rest.skip(e - pos) =~= s@.subrange(e as int, to as int));
                let after = Seq::new(out@.len() as nat, |i: int| s@.subrange(out@[i].0 as int, out@[i].1 as int));
                assert(after =~= before.push(s@.subrange(pos as int, e as int)));
                assert(before + words(rest) =~= after + words(s@.subrange(e as int, to as int)));
            }
            pos = e;
        }
    }
    proof {
        assert(words(s@.subrange(pos as int, to as int)) =~= Seq::<Seq<char>>::empty());
        let fin = Seq::new(out@.len() as nat, |i: int| s@.subrange(out@[i].0 as int, out@[i].1 as int));
        assert(words(t) =~= fin);
    }
    out
}

/// `p` occurs in `s` at `k` (executable check).
fn matches_here(s: &[char], p: &[char], k: usize) -> (r: bool)
    requires
        k <= s@.len(),
    ensures
        r == matches_at(s@, p@, k as int),
{
    if p.len() > s.len() - k {
        return false;
    }
    let mut i: usize = 0;
    while i < p.len()
        invariant
            0 <= i <= p@.len(),
            k + p@.len() <= s.len(),
            forall|j: int| 0 <= j < i ==> s@[k + j] == p@[j],
        decreases p.len() - i,
    {
        if s[k + i] != p[i] {
            assert(s@.subrange(k as int, k + p@.len())[i as int] != p@[i as int]);
            return false;
        }
        i = i + 1;
    }
    assert(s@.subrange(k as int, k + p@.len()) =~= p@);
    true
}

/// `str::find`: the first index at which `p` occurs in `s`.
pub fn find_in(s: &[char], p: &[char]) -> (r: Option<usize>)
    ensures
        r matches Some(k) ==> find(s@, p@) == Some(k as int) && matches_at(s@, p@, k as int),
        r is None ==> find(s@, p@) is None,
{
    reveal(find);
    let mut k: usize = 0;
    while k < s.len()
        invariant
            0 <= k <= s@.len(),
            forall|j: int| 0 <= j < k ==> !matches_at(s@, p@, j),
        decreases s.len() - k,
    {
        if matches_here(s, p, k) {
            proof {
                reveal(find);
                assert(matches_at(s@, p@, k as int) && forall|j: int| 0 <= j < k ==> !matches_at(s@, p@, j));
                let c = choose|c: int| matches_at(s@, p@, c) && forall|j: int| 0 <= j < c ==> !matches_at(s@, p@, j);
                assert(matches_at(s@, p@, c));
                assert(c == k);
            }
            return Some(k);
        }
        k = k + 1;
    }
    if matches_here(s, p, k) {
        proof {
            assert(matches_at(s@, p@, k as int) && forall|j: int| 0 <= j < k ==> !matches_at(s@, p@, j));
            let c = choose|c: int| matches_at(s@, p@, c) && forall|j: int| 0 <= j < c ==> !matches_at(s@, p@, j);
            assert(matches_at(s@, p@, c));
            assert(c == k);
        }
        return Some(k);
    }
    proof {
        assert forall|j: int| !matches_at(s@, p@, j) by {
            if 0 <= j && j + p@.len() <= s@.len() {
                assert(j <= k);
            }
        }
    }
    None
}

/// Number of bytes in the UTF-8 encoding of `s[..k]`.
pub fn utf8_prefix_len(s: &[char], k: usize) -> (r: usize)
    requires
        k <= s@.len(),
        utf8_len(s@) <= usize::MAX,
    ensures
        r == utf8_len(s@.take(k as int)),
{
    let mut n: usize = 0;
    let mut i: usize = 0;
    assert(s@.take(0) =~= Seq::<char>::empty());
    while i < k
        invariant
            0 <= i <= k <= s@.len(),
            utf8_len(s@) <= usize::MAX,
            n == utf8_len(s@.take(i as int)),
        decreases k - i,
    {
        proof {
            lemma_utf8_len_concat(s@.take(i + 1), s@.skip(i + 1));
            assert(s@.take(i + 1) + s@.skip(i + 1) =~= s@);
        }
        let u = s[i] as u32;
        let w: usize = if u <= 0x7f {
            1
        } else if u <= 0x7ff {
            2
        } else if u <= 0xffff {
            3
        } else {
            4
        };
        proof {
            assert(s@.take(i + 1) =~= s@.take(i as int).push(s@[i as int]));
            lemma_utf8_len_push(s@.take(i as int), s@[i as int]);
        }
        n = n + w;
        i = i + 1;
    }
    n
}

proof fn lemma_decimal_value_push(d: Seq<char>, c: char)
    ensures
        decimal_value(d.push(c)) == (decimal_value(d) * 10 + digit_value(c)) as nat,
{
    assert(d.push(c).drop_last() =~= d);
}

proof fn lemma_decimal_value_mono(d: Seq<char>, i: int)
    requires
        0 <= i <= d.len(),
        forall|j: int| 0 <= j < d.len() ==> is_digit(d[j]),
    ensures
        decimal_value(d.take(i)) <= decimal_value(d),
    decreases d.len() - i,
{
    if i < d.len() {
        lemma_decimal_value_mono(d.drop_last(), i);
        assert(d.drop_last().take(i) =~= d.take(i));
        assert(d.take(i).len() <= d.drop_last().len());
    } else {
        assert(d.take(i) =~= d);
    }
}

/// `str::parse::<u16>` of `s[from..to]`.
pub fn parse_u16_in(s: &[char], from: usize, to: usize) -> (r: Option<u16>)
    requires
        from <= to <= s@.len(),
    ensures
        r == parse_u16(s@.subrange(from as int, to as int)),
{
    let ghost t = s@.subrange(from as int, to as int);
    let start = if to - from > 1 && s[from] == '+' {
        from + 1
    } else {
        from
    };
    let ghost d = s@.subrange(start as int, to as int);
    assert(d =~= unsigned_digits(t));
    if start == to {
        return None;
    }
    let mut v: u32 = 0;
    let mut i = start;
    assert(s@.subrange(start as int, start as int) =~= Seq::<char>::empty());
    while i < to
        invariant
            from <= start <= i <= to <= s@.len(),
            d == s@.subrange(start as int, to as int),
            t == s@.subrange(from as int, to as int),
            d == unsigned_digits(t),
            forall|j: int| start <= j < i ==> is_digit(s@[j]),
            v == decimal_value(s@.subrange(start as int, i as int)),
            v <= 0xffff,
        decreases to - i,
    {
        let c = s[i];
        if !((c as u32) >= ('0' as u32) && (c as u32) <= ('9' as u32)) {
            assert(d[i - start] == c);
            assert(!is_digit(c));
            assert(!is_digit(d[i - start]));
            return None;
        }
        let nv = v * 10 + ((c as u32) - ('0' as u32));
        proof {
            assert(s@.subrange(start as int, i + 1) =~= s@.subrange(start as int, i as int).push(c));
            lemma_decimal_value_push(s@.subrange(start as int, i as int), c);
        }
        if nv > 0xffff {
            proof {
                let k = i + 1 - start;
                if all_digits(d) {
                    lemma_decimal_value_mono(d, k);
                    assert(d.take(k) =~= s@.subrange(start as int, i + 1));
                }
            }
            return None;
        }
        v = nv;
        i = i + 1;
    }
    assert(d =~= s@.subrange(start as int, i as int));
    Some(v as u16)
}

/// Decimal representation of `n`, as `n.to_string()` gives it.
pub fn u64_to_decimal(n: u64) -> (r: String)
    ensures
        r@ == decimal(n as nat),
    decreases n,
{
    if n < 10 {
        let mut s = String::new();
        push_char(&mut s, char_of_digit(n as u32));
        assert(s@ =~= seq![digit_char(n as nat)]);
        s
    } else {
        let mut s = u64_to_decimal(n / 10);
        push_char(&mut s, char_of_digit((n % 10) as u32));
        s
    }
}

/// Decimal representation of a signed number, with a leading `-` when it
/// is negative.
pub open spec fn signed_decimal(n: int) -> Seq<char> {
    if n < 0 {
        seq!['-'] + decimal((-n) as nat)
    } else {
        decimal(n as nat)
    }
}

/// Decimal representation of `n`, as `n.to_string()` gives it.
pub fn i64_to_decimal(n: i64) -> (r: String)
    ensures
        r@ == signed_decimal(n as int),
{
    if n < 0 {
        let m: u64 = ((-(n + 1)) as u64) + 1;
        let mut s = String::new();
        push_char(&mut s, '-');
        let d = u64_to_decimal(m);
        append_str(&mut s, d.as_str());
        s
    } else {
        u64_to_decimal(n as u64)
    }
}

fn char_of_digit(d: u32) -> (c: char)
    requires
        d < 10,
    ensures
        c == digit_char(d as nat),
{
    match d {
        0 => '0',
        1 => '1',
        2 => '2',
        3 => '3',
        4 => '4',
        5 => '5',
        6 => '6',
        7 => '7',
        8 => '8',
        _ => '9',
    }
}

/// `s` starts with the characters of `p`.
pub fn starts_with(s: &str, p: &str) -> (r: bool)
    ensures
        r == (s@.len() >= p@.len() && s@.take(p@.len() as int) == p@),
{
    let cs = chars_of(s);
    let ps = chars_of(p);
    if ps.len() > cs.len() {
        return false;
    }
    let mut i: usize = 0;
    while i < ps.len()
        invariant
            0 <= i <= ps@.len() <= cs@.len(),
            cs@ == s@,
            ps@ == p@,
            forall|j: int| 0 <= j < i ==> cs@[j] == ps@[j],
        decreases ps.len() - i,
    {
        if cs[i] != ps[i] {
            assert(cs@.take(ps@.len() as int)[i as int] == cs@[i as int]);
            assert(cs@.take(ps@.len() as int) != ps@);
            assert(s@.take(p@.len() as int) != p@);
            return false;
        }
        i = i + 1;
    }
    assert(cs@.take(ps@.len() as int) =~= ps@);
    true
}

/// `a == b` for string slices.
pub fn same_str(a: &str, b: &str) -> (r: bool)
    ensures
        r == (a@ == b@),
{
    let x = a.to_string();
    let y = b.to_string();
    x == y
}


/// `s` without its last character (unchanged when empty).
pub open spec fn drop_last_char(s: Seq<char>) -> Seq<char> {
    if s.len() > 0 {
        s.drop_last()
    } else {
        s
    }
}

/// `String::pop`: removes the last character, if any.
#[verifier::external_body]
pub(crate) fn pop_char(s: &mut String) -> (r: Option<char>)
    ensures
        final(s)@ == drop_last_char(old(s)@),
        old(s)@.len() > 0 ==> r == Some(old(s)@.last()),
        old(s)@.len() == 0 ==> r is None,
{
    s.pop()
}

/// The first `n` characters of `s` (all of them when it is shorter).
pub open spec fn prefix_chars(s: Seq<char>, n: nat) -> Seq<char> {
    if s.len() <= n {
        s
    } else {
        s.take(n as int)
    }
}

/// The first `n` characters of `s`, as `s.chars().take(n).collect()` gives them.
pub fn first_chars(s: &str, n: usize) -> (r: String)
    ensures
        r@ == prefix_chars(s@, n as nat),
{
    let cs = chars_of(s);
    let k = if cs.len() <= n {
        cs.len()
    } else {
        n
    };
    let r = string_of(cs.as_slice(), 0, k);
    assert(cs@.subrange(0, k as int) =~= prefix_chars(s@, n as nat));
    r
}

/// `p` occurs in `s` (`str::contains`).
pub open spec fn contains(s: Seq<char>, p: Seq<char>) -> bool {
    exists|k: int| matches_at(s, p, k)
}

/// `s.contains(p)`.
pub fn str_contains(s: &str, p: &str) -> (r: bool)
    ensures
        r == contains(s@, p@),
{
    let cs = chars_of(s);
    let ps = chars_of(p);
    match find_in(cs.as_slice(), ps.as_slice()) {
        Some(_) => true,
        None => {
            proof {
                reveal(find);
            }
            false
        },
    }
}
} // verus!
