//! Fixed-point numbers for market volumes and percentage changes.
//!
//! A `Decimal` stores a signed count of ten-thousandths (four decimal
//! places), which is enough resolution for the feed's fractional change
//! values while keeping every operation in exact integer arithmetic.
//! Values are clamped to +/- 10^14 whole units, far beyond any traded
//! volume. Decimal-string parsing accepts an optional sign, an integer
//! part and a fractional part; fractional digits beyond the fourth are
//! dropped.
use vstd::prelude::*;

verus! {

/// Number of ten-thousandth units in one whole unit.
pub const UNIT: i64 = 10_000;

/// Largest representable magnitude, in ten-thousandth units (10^18).
pub const MAX_UNITS: i64 = 1_000_000_000_000_000_000;

/// Largest integer-part value a parse tracks exactly (10^14 whole units).
pub const MAX_WHOLE: i64 = 100_000_000_000_000;

/// A signed fixed-point number with four decimal places.
#[derive(Clone, Copy, PartialEq, Eq, Structural, Debug)]
pub struct Decimal {
    /// The value scaled by 10^4.
    pub units: i64,
}

impl Decimal {
    /// Every value handed out by this library stays within the clamp range.
    pub open spec fn wf(self) -> bool {
        -MAX_UNITS <= self.units <= MAX_UNITS
    }

    /// The represented value, as an integer count of ten-thousandths.
    pub open spec fn units_spec(self) -> int {
        self.units as int
    }

    pub fn from_units(units: i64) -> (r: Decimal)
        requires
            -MAX_UNITS <= units <= MAX_UNITS,
        ensures
            r.units == units,
            r.wf(),
    {
        Decimal { units }
    }

    /// The value `whole.frac` where `frac` counts ten-thousandths.
    pub fn from_parts(negative: bool, whole: i64, frac: i64) -> (r: Decimal)
        requires
            0 <= whole <= MAX_WHOLE,
            0 <= frac < UNIT,
            whole == MAX_WHOLE ==> frac == 0,
        ensures
            r.units == if negative {
                -(whole * UNIT + frac)
            } else {
                whole * UNIT + frac
            },
            r.wf(),
    {
        let magnitude: i64 = whole * UNIT + frac;
        if negative {
            Decimal { units: -magnitude }
        } else {
            Decimal { units: magnitude }
        }
    }

    pub fn zero() -> (r: Decimal)
        ensures
            r.units == 0,
            r.wf(),
    {
        Decimal { units: 0 }
    }
}

pub open spec fn clamp_units(v: int) -> int {
    if v > MAX_UNITS {
        MAX_UNITS as int
    } else if v < -MAX_UNITS {
        -MAX_UNITS as int
    } else {
        v
    }
}

pub open spec fn pow10(k: nat) -> int
    decreases k,
{
    if k == 0 {
        1
    } else {
        10 * pow10((k - 1) as nat)
    }
}

pub open spec fn is_digit(c: char) -> bool {
    48 <= c as u32 <= 57
}

pub open spec fn digit_of(c: char) -> int {
    c as u32 - 48
}

pub open spec fn all_digits(s: Seq<char>) -> bool {
    forall|i: int| 0 <= i < s.len() ==> is_digit(#[trigger] s[i])
}

/// The number denoted by a digit string, most significant digit first.
pub open spec fn digits_value(s: Seq<char>) -> int
    decreases s.len(),
{
    if s.len() == 0 {
        0
    } else {
        10 * digits_value(s.drop_last()) + digit_of(s.last())
    }
}

pub proof fn lemma_digits_value_bounds(s: Seq<char>)
    requires
        all_digits(s),
    ensures
        0 <= digits_value(s),
        digits_value(s) < pow10(s.len()),
    decreases s.len(),
{
    if s.len() > 0 {
        assert(all_digits(s.drop_last()));
        lemma_digits_value_bounds(s.drop_last());
        assert(is_digit(s.last()));
    }
}

/// Index of the first `.` in `s`, or -1 if there is none.
pub open spec fn dot_index(s: Seq<char>) -> int
    decreases s.len(),
{
    if s.len() == 0 {
        -1
    } else if s[0] == '.' {
        0
    } else {
        let r = dot_index(s.drop_first());
        if r == -1 {
            -1
        } else {
            r + 1
        }
    }
}

pub proof fn lemma_dot_index_at(s: Seq<char>, i: int)
    requires
        0 <= i <= s.len(),
        forall|k: int| 0 <= k < i ==> s[k] != '.',
        i < s.len() ==> s[i] == '.',
    ensures
        dot_index(s) == if i < s.len() {
            i
        } else {
            -1
        },
    decreases i,
{
    if s.len() == 0 {
    } else if i == 0 {
    } else {
        lemma_dot_index_at(s.drop_first(), i - 1);
    }
}

pub open spec fn is_space(c: char) -> bool {
    c == ' ' || c == '\t' || c == '\n' || c == '\r' || c == '\u{b}' || c == '\u{c}'
}

pub open spec fn trim_left(s: Seq<char>) -> Seq<char>
    decreases s.len(),
{
    if s.len() > 0 && is_space(s[0]) {
        trim_left(s.drop_first())
    } else {
        s
    }
}

pub open spec fn trim_right(s: Seq<char>) -> Seq<char>
    decreases s.len(),
{
    if s.len() > 0 && is_space(s.last()) {
        trim_right(s.drop_last())
    } else {
        s
    }
}

/// `s` with leading and trailing whitespace removed.
pub open spec fn trim_spec(s: Seq<char>) -> Seq<char> {
    trim_right(trim_left(s))
}

pub proof fn lemma_trim_left_skip(s: Seq<char>, i: int)
    requires
        0 <= i <= s.len(),
        forall|k: int| 0 <= k < i ==> is_space(#[trigger] s[k]),
        i < s.len() ==> !is_space(s[i]),
    ensures
        trim_left(s) == s.skip(i),
    decreases i,
{
    if i == 0 {
        assert(s.skip(0) =~= s);
    } else {
        lemma_trim_left_skip(s.drop_first(), i - 1);
        assert(s.drop_first().skip(i - 1) =~= s.skip(i));
    }
}

pub proof fn lemma_trim_right_take(s: Seq<char>, j: int)
    requires
        0 <= j <= s.len(),
        forall|k: int| j <= k < s.len() ==> is_space(#[trigger] s[k]),
        j > 0 ==> !is_space(s[j - 1]),
    ensures
        trim_right(s) == s.take(j),
    decreases s.len() - j,
{
    if j == s.len() {
        assert(s.take(j) =~= s);
    } else {
        lemma_trim_right_take(s.drop_last(), j);
        assert(s.drop_last().take(j) =~= s.take(j));
    }
}

/// The number of ten-thousandth units denoted by the fractional digit
/// string `fp`: digits beyond the fourth are dropped, shorter strings
/// count as if padded with zeros.
pub open spec fn frac_units(fp: Seq<char>) -> int {
    if fp.len() >= 4 {
        digits_value(fp.take(4))
    } else {
        digits_value(fp) * pow10((4 - fp.len()) as nat)
    }
}

/// The exact (unclamped) value, in ten-thousandth units, denoted by a
/// trimmed decimal string: an optional sign, then either digits, or
/// digits on at least one side of a single dot. `None` when the string
/// does not have that shape.
pub open spec fn parse_units(t: Seq<char>) -> Option<int> {
    let negative = t.len() > 0 && t[0] == '-';
    let body = if t.len() > 0 && (t[0] == '-' || t[0] == '+') {
        t.drop_first()
    } else {
        t
    };
    let d = dot_index(body);
    let magnitude = if d == -1 {
        if body.len() > 0 && all_digits(body) {
            Some(digits_value(body) * (UNIT as int))
        } else {
            Option::<int>::None
        }
    } else {
        let ip = body.take(d);
        let fp = body.skip(d + 1);
        if all_digits(ip) && all_digits(fp) && ip.len() + fp.len() > 0 {
            Some(digits_value(ip) * (UNIT as int) + frac_units(fp))
        } else {
            Option::<int>::None
        }
    };
    match magnitude {
        Some(m) => Some(
            if negative {
                -m
            } else {
                m
            },
        ),
        None => None,
    }
}

/// What a decimal-string coercion yields: the denoted value, clamped to
/// the representable range, or nothing when the trimmed string is not a
/// decimal number.
pub open spec fn parse_decimal_spec(s: Seq<char>) -> Option<int> {
    match parse_units(trim_spec(s)) {
        Some(v) => Some(clamp_units(v)),
        None => None,
    }
}

fn is_space_char(c: char) -> (b: bool)
    ensures
        b == is_space(c),
{
    c == ' ' || c == '\t' || c == '\n' || c == '\r' || c == '\u{b}' || c == '\u{c}'
}

/// Whether the characters of `s` at `[from, to)` are all decimal digits.
fn all_digits_range(s: &str, from: usize, to: usize) -> (b: bool)
    requires
        from <= to <= s@.len(),
    ensures
        b == all_digits(s@.subrange(from as int, to as int)),
{
    let mut k: usize = from;
    while k < to
        invariant
            from <= k <= to <= s@.len(),
            forall|j: int| from <= j < k ==> is_digit(#[trigger] s@[j]),
        decreases to - k,
    {
        let c = s.get_char(k);
        let u: u32 = c as u32;
        if u < 48 || u > 57 {
            proof {
                assert(s@.subrange(from as int, to as int)[k - from] == s@[k as int]);
            }
            return false;
        }
        k = k + 1;
    }
    proof {
        assert forall|j: int| 0 <= j < to - from implies is_digit(
            #[trigger] s@.subrange(from as int, to as int)[j],
        ) by {
            assert(s@.subrange(from as int, to as int)[j] == s@[from + j]);
        }
    }
    true
}

/// The value of the digit string at `[from, to)`, saturating: the flag is
/// set exactly when the value exceeds `MAX_WHOLE`.
fn digits_range_value(s: &str, from: usize, to: usize) -> (r: (i64, bool))
    requires
        from <= to <= s@.len(),
        all_digits(s@.subrange(from as int, to as int)),
    ensures
        !r.1 ==> r.0 == digits_value(s@.subrange(from as int, to as int)) && 0 <= r.0
            <= MAX_WHOLE,
        r.1 ==> digits_value(s@.subrange(from as int, to as int)) > MAX_WHOLE,
{
    let mut k: usize = from;
    let mut acc: i64 = 0;
    let mut sat: bool = false;
    while k < to
        invariant
            from <= k <= to <= s@.len(),
            all_digits(s@.subrange(from as int, to as int)),
            !sat ==> acc == digits_value(s@.subrange(from as int, k as int)) && 0 <= acc
                <= MAX_WHOLE,
            sat ==> digits_value(s@.subrange(from as int, k as int)) > MAX_WHOLE,
        decreases to - k,
    {
        proof {
            assert(s@.subrange(from as int, to as int)[k - from] == s@[k as int]);
        }
        let c = s.get_char(k);
        let d: i64 = (c as u32 - 48) as i64;
        proof {
            assert(s@.subrange(from as int, k + 1).drop_last() =~= s@.subrange(
                from as int,
                k as int,
            ));
            assert(s@.subrange(from as int, k + 1).last() == s@[k as int]);
        }
        if sat {
            proof {
                let prev = s@.subrange(from as int, k as int);
                assert(all_digits(prev)) by {
                    assert forall|j: int| 0 <= j < prev.len() implies is_digit(
                        #[trigger] prev[j],
                    ) by {
                        assert(prev[j] == s@.subrange(from as int, to as int)[j]);
                    }
                }
                lemma_digits_value_bounds(prev);
            }
        } else {
            let next: i64 = acc * 10 + d;
            if next > MAX_WHOLE {
                sat = true;
            } else {
                acc = next;
            }
        }
        k = k + 1;
    }
    (acc, sat)
}

/// Parses a decimal string after whitespace trimming, yielding the
/// denoted value clamped to the representable range; `None` exactly when
/// the trimmed text is not of the shape `[+|-] digits [. digits]` (with
/// digits required on at least one side of the dot).
#[verifier::rlimit(100)]
pub fn parse_decimal(s: &str) -> (r: Option<Decimal>)
    ensures
        r is Some <==> parse_decimal_spec(s@) is Some,
        r matches Some(d) ==> d.wf() && parse_decimal_spec(s@) == Some(d.units as int),
{
    let n: usize = s.unicode_len();
    let mut lo: usize = 0;
    while lo < n && is_space_char(s.get_char(lo))
        invariant
            0 <= lo <= n,
            n == s@.len(),
            forall|k: int| 0 <= k < lo ==> is_space(#[trigger] s@[k]),
        decreases n - lo,
    {
        lo = lo + 1;
    }
    let mut hi: usize = n;
    while hi > lo && is_space_char(s.get_char(hi - 1))
        invariant
            lo <= hi <= n,
            n == s@.len(),
            forall|k: int| hi <= k < n ==> is_space(#[trigger] s@[k]),
        decreases hi,
    {
        hi = hi - 1;
    }
    let ghost t = s@.subrange(lo as int, hi as int);
    proof {
        lemma_trim_left_skip(s@, lo as int);
        lemma_trim_right_take(s@.skip(lo as int), hi - lo);
        assert(s@.skip(lo as int).take(hi - lo) =~= t);
    }
    assert(trim_spec(s@) == t);

    let negative: bool;
    let blo: usize;
    if lo < hi {
        let c = s.get_char(lo);
        if c == '-' {
            negative = true;
            blo = lo + 1;
        } else if c == '+' {
            negative = false;
            blo = lo + 1;
        } else {
            negative = false;
            blo = lo;
        }
    } else {
        negative = false;
        blo = lo;
    }
    let ghost body = s@.subrange(blo as int, hi as int);
    proof {
        if blo > lo {
            assert(t.drop_first() =~= body);
        } else {
            assert(t =~= body);
        }
    }

    let mut dj: usize = blo;
    while dj < hi && s.get_char(dj) != '.'
        invariant
            blo <= dj <= hi <= n,
            n == s@.len(),
            forall|k: int| blo <= k < dj ==> s@[k] != '.',
        decreases hi - dj,
    {
        dj = dj + 1;
    }
    proof {
        assert forall|k: int| 0 <= k < dj - blo implies body[k] != '.' by {
            assert(body[k] == s@[blo + k]);
        }
        if dj < hi {
            assert(body[dj - blo] == s@[dj as int]);
        }
        lemma_dot_index_at(body, dj - blo);
    }

    if dj == hi {
        // no dot: the whole body must be nonempty digits
        if blo == hi || !all_digits_range(s, blo, hi) {
            return None;
        }
        let (whole, sat) = digits_range_value(s, blo, hi);
        proof {
            lemma_digits_value_bounds(body);
        }
        let magnitude: i64 = if sat {
            MAX_UNITS
        } else if whole == MAX_WHOLE {
            MAX_UNITS
        } else {
            whole * UNIT
        };
        let units: i64 = if negative {
            -magnitude
        } else {
            magnitude
        };
        return Some(Decimal { units });
    }

    // dot at dj: digits before and after, at least one of them present
    if hi - blo <= 1 {
        return None;
    }
    let ghost ip = body.take(dj - blo);
    let ghost fp = body.skip(dj + 1 - blo);
    proof {
        assert(ip =~= s@.subrange(blo as int, dj as int));
        assert(fp =~= s@.subrange(dj + 1, hi as int));
    }
    if !all_digits_range(s, blo, dj) || !all_digits_range(s, dj + 1, hi) {
        return None;
    }
    let (whole, sat) = digits_range_value(s, blo, dj);
    proof {
        lemma_digits_value_bounds(ip);
        lemma_digits_value_bounds(fp);
    }
    let flen: usize = hi - (dj + 1);
    let frac: i64;
    if flen >= 4 {
        proof {
            assert(fp.take(4) =~= s@.subrange(dj + 1, dj + 1 + 4));
            assert(all_digits(fp.take(4)));
            lemma_digits_value_bounds(fp.take(4));
            assert(pow10(0) == 1);
            assert(pow10(1) == 10);
            assert(pow10(2) == 100);
            assert(pow10(3) == 1000);
            assert(pow10(4) == 10000);
        }
        let (f4, fsat) = digits_range_value(s, dj + 1, dj + 1 + 4);
        assert(!fsat);
        frac = f4;
    } else {
        proof {
            assert(pow10(0) == 1);
            assert(pow10(1) == 10);
            assert(pow10(2) == 100);
            assert(pow10(3) == 1000);
            assert(pow10(4) == 10000);
            lemma_digits_value_bounds(fp);
        }
        let (fv, fsat) = digits_range_value(s, dj + 1, hi);
        proof {
            assert(!fsat);
        }
        let scale: i64 = if flen == 0 {
            10000
        } else if flen == 1 {
            1000
        } else if flen == 2 {
            100
        } else {
            10
        };
        frac = fv * scale;
    }
    assert(frac == frac_units(fp));
    assert(0 <= frac <= 9999);

    let magnitude: i64 = if sat {
        MAX_UNITS
    } else if whole == MAX_WHOLE && frac > 0 {
        MAX_UNITS
    } else {
        whole * UNIT + frac
    };
    let units: i64 = if negative {
        -magnitude
    } else {
        magnitude
    };
    Some(Decimal { units })
}

/// The decimal character for the digit `d`.
pub open spec fn digit_char(d: int) -> char {
    if d == 0 {
        '0'
    } else if d == 1 {
        '1'
    } else if d == 2 {
        '2'
    } else if d == 3 {
        '3'
    } else if d == 4 {
        '4'
    } else if d == 5 {
        '5'
    } else if d == 6 {
        '6'
    } else if d == 7 {
        '7'
    } else if d == 8 {
        '8'
    } else {
        '9'
    }
}

/// The usual decimal rendering of `n`: no sign, no leading zeros except
/// for zero itself.
pub open spec fn dec_seq(n: int) -> Seq<char>
    decreases n,
{
    if n < 10 {
        seq![digit_char(n)]
    } else {
        dec_seq(n / 10).push(digit_char(n % 10))
    }
}

fn digit_str(d: u64) -> (r: &'static str)
    requires
        d < 10,
    ensures
        r@ == seq![digit_char(d as int)],
{
    let r: &'static str = if d == 0 {
        "0"
    } else if d == 1 {
        "1"
    } else if d == 2 {
        "2"
    } else if d == 3 {
        "3"
    } else if d == 4 {
        "4"
    } else if d == 5 {
        "5"
    } else if d == 6 {
        "6"
    } else if d == 7 {
        "7"
    } else if d == 8 {
        "8"
    } else {
        "9"
    };
    proof {
        reveal_strlit("0");
        reveal_strlit("1");
        reveal_strlit("2");
        reveal_strlit("3");
        reveal_strlit("4");
        reveal_strlit("5");
        reveal_strlit("6");
        reveal_strlit("7");
        reveal_strlit("8");
        reveal_strlit("9");
        assert(r@ =~= seq![digit_char(d as int)]);
    }
    r
}

/// Renders `n` in decimal.
pub fn u64_to_string(n: u64) -> (r: String)
    ensures
        r@ == dec_seq(n as int),
    decreases n,
{
    if n < 10 {
        let mut r = String::new();
        r.append(digit_str(n));
        proof {
            assert(r@ =~= dec_seq(n as int));
        }
        r
    } else {
        let mut r = u64_to_string(n / 10);
        r.append(digit_str(n % 10));
        proof {
            assert(r@ =~= dec_seq(n as int));
        }
        r
    }
}

/// Two-character decimal rendering of `n < 100`, with a leading zero.
pub open spec fn two_dec_seq(n: int) -> Seq<char> {
    seq![digit_char(n / 10), digit_char(n % 10)]
}

pub fn two_digits(n: u64) -> (r: String)
    requires
        n < 100,
    ensures
        r@ == two_dec_seq(n as int),
{
    let mut r = String::new();
    r.append(digit_str(n / 10));
    r.append(digit_str(n % 10));
    proof {
        assert(r@ =~= two_dec_seq(n as int));
    }
    r
}

/// Quotient of `a` by `b` rounded to the nearest integer, halves away
/// from zero.
pub open spec fn div_round(a: int, b: int) -> int {
    (a + b / 2) / b
}

pub fn div_round_nearest(a: u64, b: u64) -> (r: u64)
    requires
        b > 0,
        a + b / 2 <= u64::MAX,
    ensures
        r == div_round(a as int, b as int),
{
    (a + b / 2) / b
}

} // verus!
