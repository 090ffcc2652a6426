use poly_cli::datefmt::format_end_date;
use poly_cli::extract::Row;
use poly_cli::layout::pad_visible;
use poly_cli::layout::paint;
use poly_cli::layout::strip;
use poly_cli::layout::style_code;
use poly_cli::layout::truncate_visible;
use poly_cli::layout::visible_len;
use poly_cli::layout::Style;
use poly_cli::money::format_money;
use poly_cli::money::format_percent;
use poly_cli::num::Decimal;
use poly_cli::render::render_source_line;
use poly_cli::render::render_table;
use poly_cli::render::render_title;

fn dollars(n: i64) -> Decimal {
    Decimal::from_units(n * 10_000)
}

#[test]
fn visible_len_ignores_color_pair() {
    let painted = paint("hello", style_code(Style::Cyan), true);
    assert_eq!(visible_len(&painted), 5);
    assert_eq!(visible_len("hello"), 5);
}

#[test]
fn visible_len_counts_lone_escape() {
    // an escape that opens no sequence is a visible character
    assert_eq!(visible_len("\u{1b}x"), 2);
    assert_eq!(visible_len("\u{1b}[12x"), 5);
}

#[test]
fn strip_removes_sequences_in_place() {
    let painted = paint("ab", style_code(Style::Red), true);
    assert_eq!(strip(&painted), "ab");
}

#[test]
fn pad_visible_plain() {
    assert_eq!(pad_visible("AB", 5), "AB   ");
}

#[test]
fn pad_visible_colored_keeps_width() {
    let painted = paint("AB", style_code(Style::Green), true);
    let padded = pad_visible(&painted, 5);
    assert_eq!(visible_len(&padded), 5);
    assert!(padded.ends_with("   "));
    assert!(padded.contains('\u{1b}'));
}

#[test]
fn pad_visible_holds_width_on_adversarial_input() {
    // stripping can splice a new escape sequence together out of the
    // leftovers; the padded result still measures exactly the target
    let tricky = "\u{1b}\u{1b}[1m[0m";
    assert_eq!(visible_len(tricky), 4);
    let padded = pad_visible(tricky, 10);
    assert_eq!(visible_len(&padded), 10);
}

#[test]
fn truncate_visible_adds_ellipsis() {
    assert_eq!(truncate_visible("abcdefgh", 5), "ab...");
}

#[test]
fn truncate_visible_tiny_width_has_no_ellipsis() {
    assert_eq!(truncate_visible("ab", 1), "a");
    assert_eq!(truncate_visible("abcdefgh", 3), "abc");
}

#[test]
fn truncate_visible_short_input_unchanged() {
    let painted = paint("hi", style_code(Style::Blue), true);
    assert_eq!(truncate_visible(&painted, 10), painted);
    assert_eq!(truncate_visible("", 4), "");
    assert_eq!(truncate_visible("xyz", 0), "");
}

#[test]
fn truncate_strips_styling_past_the_boundary() {
    let painted = paint("abcdefgh", style_code(Style::Red), true);
    assert_eq!(truncate_visible(&painted, 5), "ab...");
}

#[test]
fn money_formats_exact_values() {
    assert_eq!(format_money(dollars(1_500_000_000)), "$1.50B");
    assert_eq!(format_money(dollars(2_500_000)), "$2.50M");
    assert_eq!(format_money(dollars(7_500)), "$7.5K");
    assert_eq!(format_money(dollars(250)), "$250");
}

#[test]
fn money_negative_and_zero() {
    assert_eq!(format_money(dollars(0)), "$0");
    assert_eq!(format_money(dollars(-1_500_000_000)), "$-1.50B");
}

#[test]
fn percent_formats_signed() {
    assert_eq!(format_percent(Some(Decimal::from_units(73_400))), "+7.34%");
    assert_eq!(format_percent(Some(Decimal::from_units(-123_400))), "-12.34%");
    assert_eq!(format_percent(Some(Decimal::from_units(0))), "0.00%");
    assert_eq!(format_percent(None), "n/a");
}

#[test]
fn end_date_reformats_rfc3339() {
    let d = Some("2024-03-05T12:34:56Z".to_string());
    assert_eq!(format_end_date(&d), "2024-03-05 12:34");
}

#[test]
fn end_date_accepts_fraction_and_offset() {
    let d = Some("2030-12-31T23:59:60.123+05:30".to_string());
    assert_eq!(format_end_date(&d), "2030-12-31 23:59");
}

#[test]
fn end_date_knows_leap_years() {
    let ok = Some("2024-02-29T00:00:00Z".to_string());
    assert_eq!(format_end_date(&ok), "2024-02-29 00:00");
    let bad = Some("2023-02-29T00:00:00Z".to_string());
    assert_eq!(format_end_date(&bad), "2023-02-29T00:00:00Z");
}

#[test]
fn end_date_invalid_or_absent() {
    let raw = Some("soon".to_string());
    assert_eq!(format_end_date(&raw), "soon");
    assert_eq!(format_end_date(&None), "n/a");
}

fn sample_row(title: &str, vol: i64) -> Row {
    Row {
        event: "Event".to_string(),
        title: title.to_string(),
        slug: None,
        volume: dollars(vol),
        volume_24h: dollars(0),
        change_24h_pct: None,
        end_date: None,
    }
}

#[test]
fn table_without_color_is_plain_and_aligned() {
    let rows = vec![sample_row("Alpha", 100)];
    let text = render_table(&rows, 5, false);
    assert!(!text.contains('\u{1b}'));
    let lines: Vec<&str> = text.split('\n').collect();
    assert_eq!(lines.len(), 3);
    let header = format!(
        "{:<4} | {:<64} | {:<14} | {:<12} | {:<11} | {:<20}",
        "#", "Market", "Total Volume", "24h Volume", "24h Change", "End"
    );
    assert_eq!(lines[0], header);
    assert_eq!(lines[1], "-".repeat(140));
    let row_line = format!(
        "{:<4} | {:<64} | {:<14} | {:<12} | {:<11} | {:<20}",
        "1", "Alpha", "$100", "$0", "n/a", "n/a"
    );
    assert_eq!(lines[2], row_line);
}

#[test]
fn table_shows_at_most_top_rows() {
    let rows = vec![sample_row("A", 3), sample_row("B", 2), sample_row("C", 1)];
    let text = render_table(&rows, 2, false);
    assert_eq!(text.split('\n').count(), 4);
    assert!(text.contains("A"));
    assert!(text.contains("B"));
    assert!(!text.contains(" C "));
}

#[test]
fn table_change_prefixes() {
    let mut up = sample_row("Up", 1);
    up.change_24h_pct = Some(Decimal::from_units(73_400));
    let mut down = sample_row("Down", 1);
    down.change_24h_pct = Some(Decimal::from_units(-50_000));
    let mut flat = sample_row("Flat", 1);
    flat.change_24h_pct = Some(Decimal::from_units(0));
    let text = render_table(&vec![up, down, flat], 3, false);
    assert!(text.contains("+ +7.34%"));
    assert!(text.contains("- 5.00%"));
    assert!(text.contains(" 0.00%"));
}

#[test]
fn table_with_color_keeps_visible_widths() {
    let rows = vec![sample_row("Colored", 42)];
    let text = render_table(&rows, 1, true);
    assert!(text.contains('\u{1b}'));
    for line in text.split('\n').take(1) {
        assert_eq!(visible_len(line), 4 + 64 + 14 + 12 + 11 + 20 + 3 * 5);
    }
}

#[test]
fn title_and_source_lines() {
    let title = render_title(7, "2024-01-01 00:00:00 UTC", false);
    assert_eq!(title, "Polymarket Top 7 by Volume  |  Updated: 2024-01-01 00:00:00 UTC");
    let src = render_source_line(false);
    assert_eq!(src, "\nSource: https://gamma-api.polymarket.com/events");
}
