//! Escape-aware text layout: measuring, truncating and padding strings
//! that may carry ANSI style sequences (`ESC [ params m`).
//!
//! The scanner is an explicit state machine over characters: an escape
//! introducer followed by `[`, a run of digits and semicolons, and a
//! terminating `m` form one invisible sequence; anything else, a lone
//! escape included, is a visible character. Measurement, truncation and
//! padding are all defined over the stripped character sequence, so a
//! cell reaches its exact target width no matter how many style codes
//! it contains.
use vstd::prelude::*;

use crate::num::is_digit;

verus! {

/// Characters allowed between the introducer and the terminator.
pub open spec fn is_param_char(c: char) -> bool {
    is_digit(c) || c == ';'
}

/// Index of the `m` terminating a parameter run that starts at `i`, or
/// -1 when something other than a parameter intervenes or the string
/// ends first.
pub open spec fn term_from(s: Seq<char>, i: int) -> int
    decreases s.len() - i,
    when 0 <= i
{
    if i >= s.len() {
        -1
    } else if s[i] == 'm' {
        i
    } else if is_param_char(s[i]) {
        term_from(s, i + 1)
    } else {
        -1
    }
}

pub proof fn lemma_term_from_bounds(s: Seq<char>, i: int)
    requires
        0 <= i,
    ensures
        term_from(s, i) == -1 || (i <= term_from(s, i) < s.len() && s[term_from(s, i)] == 'm'),
    decreases s.len() - i,
{
    if i < s.len() && s[i] != 'm' && is_param_char(s[i]) {
        lemma_term_from_bounds(s, i + 1);
    }
}

/// The visible characters of `s` from position `i` on.
pub open spec fn strip_from(s: Seq<char>, i: int) -> Seq<char>
    decreases s.len() - i,
    when 0 <= i
    via strip_from_dec
{
    if i >= s.len() {
        Seq::<char>::empty()
    } else if s[i] == '\u{1b}' && i + 1 < s.len() && s[i + 1] == '[' && term_from(s, i + 2)
        >= 0 {
        strip_from(s, term_from(s, i + 2) + 1)
    } else {
        seq![s[i]] + strip_from(s, i + 1)
    }
}

#[via_fn]
proof fn strip_from_dec(s: Seq<char>, i: int) {
    if 0 <= i && i < s.len() && s[i] == '\u{1b}' && i + 1 < s.len() && s[i + 1] == '['
        && term_from(s, i + 2) >= 0 {
        lemma_term_from_bounds(s, i + 2);
    }
}

/// `s` with every complete style sequence removed.
pub open spec fn strip_ansi(s: Seq<char>) -> Seq<char> {
    strip_from(s, 0)
}

/// The visible length of `s`.
pub open spec fn visible_len_spec(s: Seq<char>) -> nat {
    strip_ansi(s).len()
}

pub proof fn lemma_strip_from_len(s: Seq<char>, i: int)
    requires
        0 <= i <= s.len(),
    ensures
        strip_from(s, i).len() <= s.len() - i,
    decreases s.len() - i,
{
    if i < s.len() {
        if s[i] == '\u{1b}' && i + 1 < s.len() && s[i + 1] == '[' && term_from(s, i + 2) >= 0 {
            lemma_term_from_bounds(s, i + 2);
            lemma_strip_from_len(s, term_from(s, i + 2) + 1);
        } else {
            lemma_strip_from_len(s, i + 1);
        }
    }
}

/// Characters that can never extend or form a style sequence: not an
/// escape, an introducer, a parameter, or a terminator. Spaces and dots
/// qualify.
pub open spec fn plain_char(c: char) -> bool {
    c != '\u{1b}' && c != '[' && c != 'm' && !is_param_char(c)
}

pub open spec fn all_plain(s: Seq<char>) -> bool {
    forall|k: int| 0 <= k < s.len() ==> plain_char(#[trigger] s[k])
}

/// A region of plain characters is entirely visible.
pub proof fn lemma_strip_plain_region(u: Seq<char>, j: int)
    requires
        0 <= j <= u.len(),
        forall|k: int| j <= k < u.len() ==> plain_char(#[trigger] u[k]),
    ensures
        strip_from(u, j) == u.skip(j),
    decreases u.len() - j,
{
    if j >= u.len() {
        assert(u.skip(j) =~= Seq::<char>::empty());
    } else {
        lemma_strip_plain_region(u, j + 1);
        assert(seq![u[j]] + u.skip(j + 1) =~= u.skip(j));
    }
}

pub proof fn lemma_term_from_append_plain(s: Seq<char>, t: Seq<char>, j: int)
    requires
        0 <= j <= s.len(),
        all_plain(t),
    ensures
        term_from(s + t, j) == term_from(s, j),
    decreases s.len() - j,
{
    if j == s.len() {
        if t.len() > 0 {
            assert((s + t)[j] == t[0]);
        }
    } else {
        assert((s + t)[j] == s[j]);
        if s[j] != 'm' && is_param_char(s[j]) {
            lemma_term_from_append_plain(s, t, j + 1);
        }
    }
}

/// Appending plain text extends the stripped form by exactly that text.
pub proof fn lemma_strip_append_plain(s: Seq<char>, t: Seq<char>, i: int)
    requires
        0 <= i <= s.len(),
        all_plain(t),
    ensures
        strip_from(s + t, i) == strip_from(s, i) + t,
    decreases s.len() - i,
{
    let u = s + t;
    if i == s.len() {
        lemma_strip_plain_region(u, i);
        assert(u.skip(i) =~= t);
        assert(strip_from(s, i) + t =~= t);
    } else {
        assert(u[i] == s[i]);
        if i + 1 < s.len() {
            assert(u[i + 1] == s[i + 1]);
        } else if i + 1 < u.len() {
            assert(u[i + 1] == t[0]);
        }
        if s[i] == '\u{1b}' && i + 1 < s.len() && s[i + 1] == '[' {
            lemma_term_from_append_plain(s, t, i + 2);
            if term_from(s, i + 2) >= 0 {
                lemma_term_from_bounds(s, i + 2);
                lemma_strip_append_plain(s, t, term_from(s, i + 2) + 1);
            } else {
                lemma_strip_append_plain(s, t, i + 1);
                assert(seq![u[i]] + (strip_from(s, i + 1) + t) =~= (seq![s[i]] + strip_from(
                    s,
                    i + 1,
                )) + t);
            }
        } else {
            lemma_strip_append_plain(s, t, i + 1);
            assert(seq![u[i]] + (strip_from(s, i + 1) + t) =~= (seq![s[i]] + strip_from(s, i + 1))
                + t);
        }
    }
}

pub proof fn lemma_term_from_offset(a: Seq<char>, b: Seq<char>, j: int)
    requires
        0 <= j,
    ensures
        term_from(a + b, a.len() + j) == if term_from(b, j) == -1 {
            -1
        } else {
            a.len() + term_from(b, j)
        },
    decreases b.len() - j,
{
    if j < b.len() {
        assert((a + b)[a.len() + j] == b[j]);
        if b[j] != 'm' && is_param_char(b[j]) {
            lemma_term_from_offset(a, b, j + 1);
        }
    }
}

/// Stripping is position-local: from inside the suffix it cannot see
/// the prefix.
pub proof fn lemma_strip_from_offset(a: Seq<char>, b: Seq<char>, j: int)
    requires
        0 <= j,
    ensures
        strip_from(a + b, a.len() + j) == strip_from(b, j),
    decreases b.len() - j,
{
    let u = a + b;
    if j >= b.len() {
        assert(a.len() + j >= u.len());
        assert(strip_from(u, a.len() + j) =~= Seq::<char>::empty());
        assert(strip_from(b, j) =~= Seq::<char>::empty());
    } else {
        assert(u[a.len() + j] == b[j]);
        if j + 1 < b.len() {
            assert(u[a.len() + j + 1] == b[j + 1]);
        }
        if b[j] == '\u{1b}' && j + 1 < b.len() && b[j + 1] == '[' {
            lemma_term_from_offset(a, b, j + 2);
            if term_from(b, j + 2) >= 0 {
                lemma_term_from_bounds(b, j + 2);
                lemma_strip_from_offset(a, b, term_from(b, j + 2) + 1);
                assert(term_from(u, a.len() + j + 2) == a.len() + term_from(b, j + 2));
                assert(strip_from(u, a.len() + j) == strip_from(u, a.len() + term_from(b, j + 2)
                    + 1));
                assert(strip_from(b, j) == strip_from(b, term_from(b, j + 2) + 1));
            } else {
                lemma_term_from_bounds(b, j + 2);
                lemma_strip_from_offset(a, b, j + 1);
                assert(term_from(u, a.len() + j + 2) == -1);
                assert(strip_from(u, a.len() + j) == seq![u[a.len() + j]] + strip_from(
                    u,
                    a.len() + j + 1,
                ));
                assert(strip_from(b, j) == seq![b[j]] + strip_from(b, j + 1));
            }
        } else {
            lemma_strip_from_offset(a, b, j + 1);
            assert(strip_from(u, a.len() + j) == seq![u[a.len() + j]] + strip_from(
                u,
                a.len() + j + 1,
            ));
            assert(strip_from(b, j) == seq![b[j]] + strip_from(b, j + 1));
        }
    }
}

/// One complete style sequence: introducer, parameters, terminator.
pub open spec fn is_escape_seq(c: Seq<char>) -> bool {
    &&& c.len() >= 3
    &&& c[0] == '\u{1b}'
    &&& c[1] == '['
    &&& forall|k: int| 2 <= k < c.len() - 1 ==> is_param_char(#[trigger] c[k])
    &&& c[c.len() - 1] == 'm'
}

pub proof fn lemma_term_from_exact(u: Seq<char>, j: int, e: int)
    requires
        0 <= j <= e < u.len(),
        forall|k: int| j <= k < e ==> is_param_char(#[trigger] u[k]),
        u[e] == 'm',
    ensures
        term_from(u, j) == e,
    decreases e - j,
{
    if j < e {
        assert(is_param_char(u[j]));
        assert(u[j] != 'm');
        lemma_term_from_exact(u, j + 1, e);
    }
}

/// A leading style sequence is invisible.
pub proof fn lemma_strip_esc_prefix(c: Seq<char>, rest: Seq<char>)
    requires
        is_escape_seq(c),
    ensures
        strip_ansi(c + rest) == strip_ansi(rest),
{
    let u = c + rest;
    assert(u[0] == c[0]);
    assert(u[1] == c[1]);
    assert forall|k: int| 2 <= k < c.len() - 1 implies is_param_char(#[trigger] u[k]) by {
        assert(u[k] == c[k]);
    }
    assert(u[c.len() - 1] == c[c.len() - 1]);
    lemma_term_from_exact(u, 2, c.len() - 1);
    assert(strip_from(u, 0) == strip_from(u, c.len() as int));
    lemma_strip_from_offset(c, rest, 0);
}

/// Escape-free text passes through unstripped, whatever follows it.
pub proof fn lemma_strip_esc_free_head(s: Seq<char>, rest: Seq<char>, i: int)
    requires
        0 <= i <= s.len(),
        forall|k: int| 0 <= k < s.len() ==> s[k] != '\u{1b}',
    ensures
        strip_from(s + rest, i) == s.skip(i) + strip_from(rest, 0),
    decreases s.len() - i,
{
    let u = s + rest;
    if i == s.len() {
        lemma_strip_from_offset(s, rest, 0);
        assert(s.skip(i) + strip_from(rest, 0) =~= strip_from(rest, 0));
    } else {
        assert(u[i] == s[i]);
        assert(s[i] != '\u{1b}');
        lemma_strip_esc_free_head(s, rest, i + 1);
        assert(seq![u[i]] + (s.skip(i + 1) + strip_from(rest, 0)) =~= s.skip(i) + strip_from(
            rest,
            0,
        ));
    }
}

fn is_param_exec(c: char) -> (b: bool)
    ensures
        b == is_param_char(c),
{
    let u: u32 = c as u32;
    (48 <= u && u <= 57) || c == ';'
}

/// Scans a parameter run for its terminating `m`.
fn find_term(s: &str, from: usize) -> (r: Option<usize>)
    requires
        from <= s@.len(),
    ensures
        r matches Some(t) ==> term_from(s@, from as int) == t && from <= t < s@.len(),
        r is None ==> term_from(s@, from as int) == -1,
{
    let n: usize = s.unicode_len();
    let mut j: usize = from;
    while j < n
        invariant
            from <= j <= n,
            n == s@.len(),
            term_from(s@, from as int) == term_from(s@, j as int),
        decreases n - j,
    {
        let c = s.get_char(j);
        if c == 'm' {
            return Some(j);
        }
        if !is_param_exec(c) {
            return None;
        }
        j = j + 1;
    }
    None
}

/// Character count of `text` with style sequences excluded.
pub fn visible_len(text: &str) -> (n: usize)
    ensures
        n == visible_len_spec(text@),
{
    let len: usize = text.unicode_len();
    let mut i: usize = 0;
    let mut count: usize = 0;
    while i < len
        invariant
            0 <= i <= len,
            len == text@.len(),
            count <= i,
            count + strip_from(text@, i as int).len() == strip_ansi(text@).len(),
        decreases len - i,
    {
        let c = text.get_char(i);
        let mut skipped = false;
        if c == '\u{1b}' && i + 1 < len {
            if text.get_char(i + 1) == '[' {
                match find_term(text, i + 2) {
                    Some(t) => {
                        i = t + 1;
                        skipped = true;
                    },
                    None => {},
                }
            }
        }
        if !skipped {
            count = count + 1;
            i = i + 1;
        }
    }
    count
}

/// `text` with every style sequence removed.
pub fn strip(text: &str) -> (r: String)
    ensures
        r@ == strip_ansi(text@),
{
    let len: usize = text.unicode_len();
    let mut i: usize = 0;
    let mut out = String::new();
    while i < len
        invariant
            0 <= i <= len,
            len == text@.len(),
            out@ + strip_from(text@, i as int) == strip_ansi(text@),
        decreases len - i,
    {
        let c = text.get_char(i);
        let mut skipped = false;
        if c == '\u{1b}' && i + 1 < len {
            if text.get_char(i + 1) == '[' {
                match find_term(text, i + 2) {
                    Some(t) => {
                        i = t + 1;
                        skipped = true;
                    },
                    None => {},
                }
            }
        }
        if !skipped {
            let ghost pre = out@;
            out.append(text.substring_char(i, i + 1));
            proof {
                assert(text@.subrange(i as int, i + 1) =~= seq![text@[i as int]]);
                assert(out@ + strip_from(text@, i + 1) =~= pre + (seq![text@[i as int]]
                    + strip_from(text@, i + 1)));
            }
            i = i + 1;
        }
    }
    proof {
        assert(out@ + Seq::<char>::empty() =~= out@);
    }
    out
}

/// The run of `n` spaces.
pub open spec fn spaces(n: int) -> Seq<char> {
    Seq::new(n as nat, |i: int| ' ')
}

/// What truncation yields: a string that already fits is unchanged,
/// style sequences and all; an overlong one is stripped of styling and
/// cut, with a trailing ellipsis when there is room for it.
pub open spec fn truncate_spec(s: Seq<char>, max: int) -> Seq<char> {
    if max == 0 {
        Seq::<char>::empty()
    } else if strip_ansi(s).len() <= max {
        s
    } else if max <= 3 {
        strip_ansi(s).take(max)
    } else {
        strip_ansi(s).take(max - 3) + seq!['.', '.', '.']
    }
}

/// What padding yields: the truncation, right-filled with spaces up to
/// the target visible width.
pub open spec fn pad_spec(s: Seq<char>, width: int) -> Seq<char> {
    let t = truncate_spec(s, width);
    if strip_ansi(t).len() >= width {
        t
    } else {
        t + spaces(width - strip_ansi(t).len())
    }
}

/// Cuts `text` down to at most `max_len` visible characters.
pub fn truncate_visible(text: &str, max_len: usize) -> (r: String)
    ensures
        r@ == truncate_spec(text@, max_len as int),
        strip_ansi(r@).len() <= max_len,
{
    if max_len == 0 {
        let r = String::new();
        proof {
            assert(strip_from(r@, 0) =~= Seq::<char>::empty());
        }
        return r;
    }
    let vl = visible_len(text);
    if vl <= max_len {
        return String::from_str(text);
    }
    let plain = strip(text);
    let take_n: usize = if max_len <= 3 {
        max_len
    } else {
        max_len - 3
    };
    let head = plain.as_str().substring_char(0, take_n);
    let mut out = String::from_str(head);
    proof {
        assert(out@ =~= strip_ansi(text@).take(take_n as int));
    }
    if max_len > 3 {
        out.append("...");
        proof {
            reveal_strlit("...");
            assert("..."@ =~= seq!['.', '.', '.']);
        }
    }
    proof {
        lemma_strip_from_len(out@, 0);
    }
    out
}

/// Pads (after truncation) so that the visible length is exactly the
/// requested width: the alignment guarantee of the table layout.
pub fn pad_visible(text: &str, width: usize) -> (r: String)
    ensures
        r@ == pad_spec(text@, width as int),
        strip_ansi(r@).len() == width,
{
    let t = truncate_visible(text, width);
    let l = visible_len(t.as_str());
    if l >= width {
        return t;
    }
    let mut out = t;
    let ghost base = out@;
    let mut k: usize = l;
    proof {
        assert(base + spaces(0) =~= base);
    }
    while k < width
        invariant
            l <= k <= width,
            out@ == base + spaces(k - l),
            base == truncate_spec(text@, width as int),
            strip_ansi(base).len() == l,
            l < width,
        decreases width - k,
    {
        out.append(" ");
        proof {
            reveal_strlit(" ");
            assert(" "@ =~= seq![' ']);
            assert(base + spaces(k - l) + seq![' '] =~= base + spaces(k + 1 - l));
        }
        k = k + 1;
    }
    proof {
        let fill = spaces(width - l);
        assert(all_plain(fill)) by {
            assert(forall|q: int| 0 <= q < fill.len() ==> #[trigger] fill[q] == ' ');
        }
        lemma_strip_append_plain(base, fill, 0);
    }
    out
}

/// A fixed palette of terminal styles, consulted by value.
#[derive(Clone, Copy, PartialEq, Eq, Structural, Debug)]
pub enum Style {
    Reset,
    Bold,
    Dim,
    Cyan,
    Blue,
    Green,
    Red,
    Yellow,
    White,
}

pub open spec fn style_seq(s: Style) -> Seq<char> {
    match s {
        Style::Reset => "\u{1b}[0m"@,
        Style::Bold => "\u{1b}[1m"@,
        Style::Dim => "\u{1b}[2m"@,
        Style::Cyan => "\u{1b}[36m"@,
        Style::Blue => "\u{1b}[94m"@,
        Style::Green => "\u{1b}[92m"@,
        Style::Red => "\u{1b}[91m"@,
        Style::Yellow => "\u{1b}[93m"@,
        Style::White => "\u{1b}[97m"@,
    }
}

/// The escape sequence that selects a style.
pub fn style_code(s: Style) -> (r: &'static str)
    ensures
        r@ == style_seq(s),
{
    match s {
        Style::Reset => "\u{1b}[0m",
        Style::Bold => "\u{1b}[1m",
        Style::Dim => "\u{1b}[2m",
        Style::Cyan => "\u{1b}[36m",
        Style::Blue => "\u{1b}[94m",
        Style::Green => "\u{1b}[92m",
        Style::Red => "\u{1b}[91m",
        Style::Yellow => "\u{1b}[93m",
        Style::White => "\u{1b}[97m",
    }
}

/// Two style codes in sequence, for combined color and weight.
pub fn style_pair(a: Style, b: Style) -> (r: String)
    ensures
        r@ == style_seq(a) + style_seq(b),
{
    let mut out = String::from_str(style_code(a));
    out.append(style_code(b));
    out
}

/// What painting yields: when styling is enabled, the color code, the
/// text, and a reset; when disabled, the text itself, byte for byte.
pub open spec fn paint_spec(text: Seq<char>, color: Seq<char>, enabled: bool) -> Seq<char> {
    if enabled {
        color + text + "\u{1b}[0m"@
    } else {
        text
    }
}

/// Wraps `text` in a style code and a reset when styling is enabled.
pub fn paint(text: &str, color: &str, enabled: bool) -> (r: String)
    ensures
        r@ == paint_spec(text@, color@, enabled),
{
    if !enabled {
        return String::from_str(text);
    }
    let mut out = String::from_str(color);
    out.append(text);
    out.append("\u{1b}[0m");
    out
}

/// Wrapping escape-free text in a pair of style sequences leaves its
/// visible content, and so its visible length, unchanged.
pub proof fn lemma_visible_wrapped(c1: Seq<char>, s: Seq<char>, c2: Seq<char>)
    requires
        is_escape_seq(c1),
        is_escape_seq(c2),
        forall|k: int| 0 <= k < s.len() ==> s[k] != '\u{1b}',
    ensures
        strip_ansi(c1 + s + c2) == s,
        visible_len_spec(c1 + s + c2) == s.len(),
{
    assert(c1 + s + c2 =~= c1 + (s + c2));
    lemma_strip_esc_prefix(c1, s + c2);
    lemma_strip_esc_free_head(s, c2, 0);
    assert(s.skip(0) =~= s);
    lemma_strip_esc_prefix(c2, Seq::<char>::empty());
    assert(c2 + Seq::<char>::empty() =~= c2);
    assert(strip_ansi(Seq::<char>::empty()) =~= Seq::<char>::empty());
    assert(s + strip_from(c2, 0) =~= s);
}

/// Every palette code is one complete style sequence.
pub proof fn lemma_style_is_escape(s: Style)
    ensures
        is_escape_seq(style_seq(s)),
{
    reveal_strlit("\u{1b}[0m");
    reveal_strlit("\u{1b}[1m");
    reveal_strlit("\u{1b}[2m");
    reveal_strlit("\u{1b}[36m");
    reveal_strlit("\u{1b}[94m");
    reveal_strlit("\u{1b}[92m");
    reveal_strlit("\u{1b}[91m");
    reveal_strlit("\u{1b}[93m");
    reveal_strlit("\u{1b}[97m");
}

/// Painting escape-free text changes its visible length in no way:
/// with styling on, the color pair is invisible; with styling off, the
/// text passes through untouched.
pub proof fn lemma_paint_preserves_visible_len(text: Seq<char>, color: Seq<char>, enabled: bool)
    requires
        is_escape_seq(color),
        forall|k: int| 0 <= k < text.len() ==> text[k] != '\u{1b}',
    ensures
        visible_len_spec(paint_spec(text, color, enabled)) == text.len(),
        strip_ansi(paint_spec(text, color, enabled)) == text,
{
    reveal_strlit("\u{1b}[0m");
    assert(is_escape_seq("\u{1b}[0m"@));
    if enabled {
        lemma_visible_wrapped(color, text, "\u{1b}[0m"@);
    } else {
        lemma_strip_esc_free_head(text, Seq::<char>::empty(), 0);
        assert(text + Seq::<char>::empty() =~= text);
        assert(strip_from(Seq::<char>::empty(), 0) =~= Seq::<char>::empty());
        assert(text.skip(0) + strip_from(Seq::<char>::empty(), 0) =~= text);
    }
}

} // verus!
