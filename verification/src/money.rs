//! Fixed display formats for money and percentage cells.
//!
//! Money uses unit suffixes with exact contractual thresholds and
//! decimal counts: billions and millions with two decimals, thousands
//! with one, plain dollars with none. Rounding is to nearest, halves
//! away from zero. Percentages always carry two decimals.
use vstd::prelude::*;

use crate::num::dec_seq;
use crate::num::div_round;
use crate::num::div_round_nearest;
use crate::num::two_dec_seq;
use crate::num::two_digits;
use crate::num::u64_to_string;
use crate::num::Decimal;

verus! {

/// Digits of `scaled` hundredths: whole part, dot, two decimals.
pub open spec fn two_dec_text(scaled: int) -> Seq<char> {
    dec_seq(scaled / 100) + "."@ + two_dec_seq(scaled % 100)
}

/// The money cell for a value of `units` ten-thousandths of a dollar:
/// `$`, the sign, and the scaled magnitude with its unit suffix.
pub open spec fn money_spec(units: int) -> Seq<char> {
    let a = if units < 0 {
        -units
    } else {
        units
    };
    let sign: Seq<char> = if units < 0 {
        "-"@
    } else {
        Seq::<char>::empty()
    };
    if a >= 10_000_000_000_000 {
        "$"@ + sign + two_dec_text(div_round(a, 100_000_000_000)) + "B"@
    } else if a >= 10_000_000_000 {
        "$"@ + sign + two_dec_text(div_round(a, 100_000_000)) + "M"@
    } else if a >= 10_000_000 {
        "$"@ + sign + dec_seq(div_round(a, 1_000_000) / 10) + "."@ + dec_seq(
            div_round(a, 1_000_000) % 10,
        ) + "K"@
    } else {
        "$"@ + sign + dec_seq(div_round(a, 10_000))
    }
}

fn two_dec_string(scaled: u64) -> (r: String)
    ensures
        r@ == two_dec_text(scaled as int),
{
    let mut out = u64_to_string(scaled / 100);
    out.append(".");
    let frac = two_digits(scaled % 100);
    out.append(frac.as_str());
    out
}

/// Renders a volume as `$` with a unit suffix, e.g. a billion and a
/// half as `$1.50B` and a quarter thousand as `$250`.
pub fn format_money(v: Decimal) -> (r: String)
    requires
        v.wf(),
    ensures
        r@ == money_spec(v.units as int),
{
    let neg: bool = v.units < 0;
    let a: u64 = if neg {
        (-v.units) as u64
    } else {
        v.units as u64
    };
    let mut out = String::from_str("$");
    if neg {
        out.append("-");
    }
    if a >= 10_000_000_000_000 {
        let scaled = div_round_nearest(a, 100_000_000_000);
        let t = two_dec_string(scaled);
        out.append(t.as_str());
        out.append("B");
    } else if a >= 10_000_000_000 {
        let scaled = div_round_nearest(a, 100_000_000);
        let t = two_dec_string(scaled);
        out.append(t.as_str());
        out.append("M");
    } else if a >= 10_000_000 {
        let scaled = div_round_nearest(a, 1_000_000);
        let whole = u64_to_string(scaled / 10);
        out.append(whole.as_str());
        out.append(".");
        let tenth = u64_to_string(scaled % 10);
        out.append(tenth.as_str());
        out.append("K");
    } else {
        let scaled = div_round_nearest(a, 10_000);
        let whole = u64_to_string(scaled);
        out.append(whole.as_str());
    }
    out
}

/// The digits of a percentage magnitude in hundredths: whole part, dot,
/// two decimals, percent sign.
pub open spec fn percent_body(h: int) -> Seq<char> {
    dec_seq(h / 100) + "."@ + two_dec_seq(h % 100) + "%"@
}

/// The magnitude of a change in hundredths of a percent, rounded to
/// nearest with halves away from zero.
pub open spec fn percent_hundredths(units: int) -> int {
    div_round(
        if units < 0 {
            -units
        } else {
            units
        },
        100,
    )
}

/// The percent cell: unknown is `n/a`; a positive change carries a `+`,
/// a negative one a `-`, a flat zero neither.
pub open spec fn percent_spec(change: Option<int>) -> Seq<char> {
    match change {
        None => "n/a"@,
        Some(u) => if u > 0 {
            "+"@ + percent_body(percent_hundredths(u))
        } else if u < 0 {
            "-"@ + percent_body(percent_hundredths(u))
        } else {
            percent_body(0)
        },
    }
}

/// The unsigned digits of a percentage, shared by the positive, the
/// negative and the specially prefixed table renderings.
pub fn percent_magnitude(d: Decimal) -> (r: String)
    requires
        d.wf(),
    ensures
        r@ == percent_body(percent_hundredths(d.units as int)),
{
    let a: u64 = if d.units < 0 {
        (-d.units) as u64
    } else {
        d.units as u64
    };
    let h = div_round_nearest(a, 100);
    let mut out = u64_to_string(h / 100);
    out.append(".");
    let frac = two_digits(h % 100);
    out.append(frac.as_str());
    out.append("%");
    out
}

/// Renders a change as a signed two-decimal percentage, `n/a` when
/// unknown.
pub fn format_percent(change: Option<Decimal>) -> (r: String)
    requires
        change matches Some(d) ==> d.wf(),
    ensures
        r@ == percent_spec(match change {
            Some(d) => Some(d.units as int),
            None => None,
        }),
{
    match change {
        None => String::from_str("n/a"),
        Some(d) => {
            if d.units > 0 {
                let mut out = String::from_str("+");
                let body = percent_magnitude(d);
                out.append(body.as_str());
                out
            } else if d.units < 0 {
                let mut out = String::from_str("-");
                let body = percent_magnitude(d);
                out.append(body.as_str());
                out
            } else {
                percent_magnitude(d)
            }
        },
    }
}

} // verus!
