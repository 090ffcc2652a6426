//! Composing the fixed-width table: header, divider rule, and one line
//! per ranked row, with the color semantics of each column.
//!
//! Column widths are fixed: index 4, market title 64, total volume 14,
//! 24h volume 12, 24h change 11, end date 20, with ` | ` between
//! columns and a divider as wide as the whole table.
use vstd::prelude::*;

use crate::datefmt::end_date_display_spec;
use crate::datefmt::format_end_date;
use crate::extract::Row;
use crate::extract::RowView;
use crate::layout::pad_spec;
use crate::layout::pad_visible;
use crate::layout::paint;
use crate::layout::paint_spec;
use crate::layout::style_code;
use crate::layout::style_pair;
use crate::layout::style_seq;
use crate::layout::Style;
use crate::money::format_money;
use crate::money::format_percent;
use crate::money::money_spec;
use crate::money::percent_body;
use crate::money::percent_hundredths;
use crate::money::percent_spec;
use crate::money::percent_magnitude;
use crate::num::dec_seq;
use crate::num::u64_to_string;

verus! {

/// The divider rule: as many dashes as the table is wide, separators
/// included.
pub open spec fn dashes_seq() -> Seq<char> {
    Seq::new(140, |i: int| '-')
}

fn dashes() -> (r: String)
    ensures
        r@ == dashes_seq(),
{
    let mut out = String::new();
    let mut k: usize = 0;
    while k < 140
        invariant
            0 <= k <= 140,
            out@ == Seq::new(k as nat, |i: int| '-'),
        decreases 140 - k,
    {
        out.append("-");
        proof {
            reveal_strlit("-");
            assert(out@ =~= Seq::new((k + 1) as nat, |i: int| '-'));
        }
        k = k + 1;
    }
    out
}

/// One header cell, in the header's blue bold.
pub open spec fn header_cell_spec(h: Seq<char>, width: int, color: bool) -> Seq<char> {
    pad_spec(paint_spec(h, style_seq(Style::Blue) + style_seq(Style::Bold), color), width)
}

/// The full header line.
pub open spec fn header_line_spec(color: bool) -> Seq<char> {
    header_cell_spec("#"@, 4, color) + " | "@ + header_cell_spec("Market"@, 64, color) + " | "@
        + header_cell_spec("Total Volume"@, 14, color) + " | "@ + header_cell_spec(
        "24h Volume"@,
        12,
        color,
    ) + " | "@ + header_cell_spec("24h Change"@, 11, color) + " | "@ + header_cell_spec(
        "End"@,
        20,
        color,
    )
}

/// The dimmed divider line.
pub open spec fn divider_spec(color: bool) -> Seq<char> {
    paint_spec(dashes_seq(), style_seq(Style::Dim), color)
}

/// The change cell before padding: green bold `+ +x.xx%` for a rise,
/// red bold `- x.xx%` for a fall, plain yellow for flat, dimmed `n/a`
/// for unknown.
pub open spec fn change_cell_spec(change: Option<int>, color: bool) -> Seq<char> {
    match change {
        None => paint_spec("n/a"@, style_seq(Style::Dim), color),
        Some(u) => if u > 0 {
            paint_spec(
                "+ "@ + percent_spec(Some(u)),
                style_seq(Style::Green) + style_seq(Style::Bold),
                color,
            )
        } else if u < 0 {
            paint_spec(
                "- "@ + percent_body(percent_hundredths(u)),
                style_seq(Style::Red) + style_seq(Style::Bold),
                color,
            )
        } else {
            paint_spec(percent_spec(Some(u)), style_seq(Style::Yellow), color)
        },
    }
}

/// One data line for `row`, displayed at 1-based position `idx1`.
pub open spec fn row_line_spec(row: RowView, idx1: int, color: bool) -> Seq<char> {
    pad_spec(
        paint_spec(dec_seq(idx1), style_seq(Style::Cyan) + style_seq(Style::Bold), color),
        4,
    ) + " | "@ + pad_spec(paint_spec(row.title, style_seq(Style::White), color), 64) + " | "@
        + pad_spec(paint_spec(money_spec(row.volume), style_seq(Style::Cyan), color), 14) + " | "@
        + pad_spec(paint_spec(money_spec(row.volume_24h), style_seq(Style::Cyan), color), 12)
        + " | "@ + pad_spec(change_cell_spec(row.change_24h_pct, color), 11) + " | "@ + pad_spec(
        paint_spec(end_date_display_spec(row.end_date), style_seq(Style::Dim), color),
        20,
    )
}

/// Header, divider and the first `k` data lines, joined by newlines.
pub open spec fn lines_spec(rows: Seq<RowView>, k: int, color: bool) -> Seq<char>
    decreases k,
{
    if k <= 0 {
        header_line_spec(color) + "\n"@ + divider_spec(color)
    } else {
        lines_spec(rows, k - 1, color) + "\n"@ + row_line_spec(rows[k - 1], k, color)
    }
}

/// The whole table over the first `top` rows (or all of them, if
/// fewer).
pub open spec fn table_spec(rows: Seq<RowView>, top: int, color: bool) -> Seq<char> {
    lines_spec(
        rows,
        if top <= rows.len() {
            top
        } else {
            rows.len() as int
        },
        color,
    )
}

/// Renders one data line.
fn render_row(row: &Row, idx1: u64, color: bool) -> (r: String)
    requires
        row.wf(),
    ensures
        r@ == row_line_spec(row.deep_view(), idx1 as int, color),
{
    let idx_text = u64_to_string(idx1);
    let cyan_bold = style_pair(Style::Cyan, Style::Bold);
    let painted_idx = paint(idx_text.as_str(), cyan_bold.as_str(), color);
    let mut out = pad_visible(painted_idx.as_str(), 4);
    out.append(" | ");

    let painted_title = paint(row.title.as_str(), style_code(Style::White), color);
    let title_cell = pad_visible(painted_title.as_str(), 64);
    out.append(title_cell.as_str());
    out.append(" | ");

    let vol_text = format_money(row.volume);
    let painted_vol = paint(vol_text.as_str(), style_code(Style::Cyan), color);
    let vol_cell = pad_visible(painted_vol.as_str(), 14);
    out.append(vol_cell.as_str());
    out.append(" | ");

    let vol24_text = format_money(row.volume_24h);
    let painted_vol24 = paint(vol24_text.as_str(), style_code(Style::Cyan), color);
    let vol24_cell = pad_visible(painted_vol24.as_str(), 12);
    out.append(vol24_cell.as_str());
    out.append(" | ");

    let change_text: String = match &row.change_24h_pct {
        None => paint("n/a", style_code(Style::Dim), color),
        Some(d) => {
            if d.units > 0 {
                let mut t = String::from_str("+ ");
                let pct = format_percent(Some(*d));
                t.append(pct.as_str());
                paint(t.as_str(), style_pair(Style::Green, Style::Bold).as_str(), color)
            } else if d.units < 0 {
                let mut t = String::from_str("- ");
                let body = percent_magnitude(*d);
                t.append(body.as_str());
                paint(t.as_str(), style_pair(Style::Red, Style::Bold).as_str(), color)
            } else {
                let pct = format_percent(Some(*d));
                paint(pct.as_str(), style_code(Style::Yellow), color)
            }
        },
    };
    let change_cell = pad_visible(change_text.as_str(), 11);
    out.append(change_cell.as_str());
    out.append(" | ");

    let date_text = format_end_date(&row.end_date);
    let painted_date = paint(date_text.as_str(), style_code(Style::Dim), color);
    let date_cell = pad_visible(painted_date.as_str(), 20);
    out.append(date_cell.as_str());

    proof {
        assert(out@ =~= row_line_spec(row.deep_view(), idx1 as int, color));
    }
    out
}

/// Composes the header, the divider and the first `top` ranked rows
/// into the final display string.
pub fn render_table(rows: &Vec<Row>, top: usize, color: bool) -> (r: String)
    requires
        forall|i: int| 0 <= i < rows@.len() ==> (#[trigger] rows@[i]).wf(),
    ensures
        r@ == table_spec(rows.deep_view(), top as int, color),
{
    let blue_bold = style_pair(Style::Blue, Style::Bold);
    let h1 = paint("#", blue_bold.as_str(), color);
    let mut out = pad_visible(h1.as_str(), 4);
    out.append(" | ");
    let h2 = paint("Market", blue_bold.as_str(), color);
    let c2 = pad_visible(h2.as_str(), 64);
    out.append(c2.as_str());
    out.append(" | ");
    let h3 = paint("Total Volume", blue_bold.as_str(), color);
    let c3 = pad_visible(h3.as_str(), 14);
    out.append(c3.as_str());
    out.append(" | ");
    let h4 = paint("24h Volume", blue_bold.as_str(), color);
    let c4 = pad_visible(h4.as_str(), 12);
    out.append(c4.as_str());
    out.append(" | ");
    let h5 = paint("24h Change", blue_bold.as_str(), color);
    let c5 = pad_visible(h5.as_str(), 11);
    out.append(c5.as_str());
    out.append(" | ");
    let h6 = paint("End", blue_bold.as_str(), color);
    let c6 = pad_visible(h6.as_str(), 20);
    out.append(c6.as_str());
    out.append("\n");
    let rule = dashes();
    let painted_rule = paint(rule.as_str(), style_code(Style::Dim), color);
    out.append(painted_rule.as_str());
    proof {
        assert(out@ =~= lines_spec(rows.deep_view(), 0, color));
    }

    let count: usize = if top <= rows.len() {
        top
    } else {
        rows.len()
    };
    let mut i: usize = 0;
    while i < count
        invariant
            0 <= i <= count,
            count == if top as int <= rows@.len() {
                top as int
            } else {
                rows@.len() as int
            },
            forall|q: int| 0 <= q < rows@.len() ==> (#[trigger] rows@[q]).wf(),
            out@ == lines_spec(rows.deep_view(), i as int, color),
        decreases count - i,
    {
        out.append("\n");
        let row = &rows[i];
        proof {
            assert(rows@[i as int].wf());
            assert(row.deep_view() == rows.deep_view()[i as int]);
        }
        let line = render_row(row, (i + 1) as u64, color);
        out.append(line.as_str());
        proof {
            assert(out@ =~= lines_spec(rows.deep_view(), i + 1, color));
        }
        i = i + 1;
    }
    out
}

/// The title line: the dashboard name with the display count, and the
/// refresh timestamp handed in by the caller.
pub open spec fn title_line_spec(top: int, now: Seq<char>, color: bool) -> Seq<char> {
    paint_spec(
        "Polymarket Top "@ + dec_seq(top) + " by Volume"@,
        style_seq(Style::Bold) + style_seq(Style::Cyan),
        color,
    ) + "  |  "@ + paint_spec("Updated: "@ + now, style_seq(Style::Dim), color)
}

pub fn render_title(top: usize, now: &str, color: bool) -> (r: String)
    ensures
        r@ == title_line_spec(top as int, now@, color),
{
    let mut t = String::from_str("Polymarket Top ");
    let n = u64_to_string(top as u64);
    t.append(n.as_str());
    t.append(" by Volume");
    let mut out = paint(t.as_str(), style_pair(Style::Bold, Style::Cyan).as_str(), color);
    out.append("  |  ");
    let mut u = String::from_str("Updated: ");
    u.append(now);
    let painted_u = paint(u.as_str(), style_code(Style::Dim), color);
    out.append(painted_u.as_str());
    proof {
        assert(out@ =~= title_line_spec(top as int, now@, color));
    }
    out
}

/// The trailing attribution line, dimmed, preceded by a blank line.
pub open spec fn source_line_spec(color: bool) -> Seq<char> {
    paint_spec(
        "\nSource: https://gamma-api.polymarket.com/events"@,
        style_seq(Style::Dim),
        color,
    )
}

pub fn render_source_line(color: bool) -> (r: String)
    ensures
        r@ == source_line_spec(color),
{
    paint("\nSource: https://gamma-api.polymarket.com/events", style_code(Style::Dim), color)
}

} // verus!
