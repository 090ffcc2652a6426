use poly_cli::extract::extract;
use poly_cli::extract::normalize_change;
use poly_cli::extract::ShapeError;
use poly_cli::json::coerce;
use poly_cli::json::Json;
use poly_cli::num::parse_decimal;
use poly_cli::num::Decimal;

fn dec(units: i64) -> Decimal {
    Decimal::from_units(units)
}

#[test]
fn coerce_numeric_string_parses() {
    let v = Json::Str("42.5".to_string());
    let r = coerce(Some(&v), dec(0));
    assert_eq!(r.units, 425_000);
}

#[test]
fn coerce_null_returns_default() {
    let v = Json::Null;
    let r = coerce(Some(&v), dec(77));
    assert_eq!(r.units, 77);
}

#[test]
fn coerce_absent_returns_default() {
    let r = coerce(None, dec(55));
    assert_eq!(r.units, 55);
}

#[test]
fn coerce_number_passes_through() {
    let v = Json::Num(dec(123_456));
    let r = coerce(Some(&v), dec(0));
    assert_eq!(r.units, 123_456);
}

#[test]
fn coerce_bool_and_array_fall_back() {
    assert_eq!(coerce(Some(&Json::Bool(true)), dec(9)).units, 9);
    assert_eq!(coerce(Some(&Json::Arr(vec![])), dec(9)).units, 9);
}

#[test]
fn coerce_trims_whitespace() {
    let v = Json::Str("  7.5\t".to_string());
    assert_eq!(coerce(Some(&v), dec(0)).units, 75_000);
}

#[test]
fn coerce_garbage_string_falls_back() {
    let v = Json::Str("12x".to_string());
    assert_eq!(coerce(Some(&v), dec(31)).units, 31);
}

#[test]
fn parse_decimal_shapes() {
    assert_eq!(parse_decimal("1.").map(|d| d.units), Some(10_000));
    assert_eq!(parse_decimal(".5").map(|d| d.units), Some(5_000));
    assert_eq!(parse_decimal("+3").map(|d| d.units), Some(30_000));
    assert_eq!(parse_decimal("-2.25").map(|d| d.units), Some(-22_500));
    assert!(parse_decimal("-").is_none());
    assert!(parse_decimal(".").is_none());
    assert!(parse_decimal("1.2.3").is_none());
    assert!(parse_decimal("").is_none());
}

#[test]
fn normalize_fraction_scales_to_percent() {
    // raw 0.0734 becomes 7.34 percent
    let v = Json::Num(dec(734));
    let r = normalize_change(Some(&v)).unwrap();
    assert_eq!(r.units, 73_400);
}

#[test]
fn normalize_percent_scale_unchanged() {
    // raw 12.5 is already percent-scale
    let v = Json::Num(dec(125_000));
    let r = normalize_change(Some(&v)).unwrap();
    assert_eq!(r.units, 125_000);
}

#[test]
fn normalize_negative_one_is_minus_hundred() {
    let v = Json::Num(dec(-10_000));
    let r = normalize_change(Some(&v)).unwrap();
    assert_eq!(r.units, -1_000_000);
}

#[test]
fn normalize_null_and_absent_are_unknown() {
    assert!(normalize_change(Some(&Json::Null)).is_none());
    assert!(normalize_change(None).is_none());
}

fn obj(pairs: Vec<(&str, Json)>) -> Json {
    Json::Obj(pairs.into_iter().map(|(k, v)| (k.to_string(), v)).collect())
}

fn s(text: &str) -> Json {
    Json::Str(text.to_string())
}

#[test]
fn extract_rejects_non_array() {
    assert_eq!(extract(&s("nope")).unwrap_err(), ShapeError);
    assert_eq!(extract(&Json::Null).unwrap_err(), ShapeError);
}

#[test]
fn extract_empty_array_yields_no_rows() {
    let rows = extract(&Json::Arr(vec![])).unwrap();
    assert!(rows.is_empty());
}

#[test]
fn extract_event_without_markets_contributes_nothing() {
    let doc = Json::Arr(vec![obj(vec![("title", s("lonely"))])]);
    assert!(extract(&doc).unwrap().is_empty());
}

#[test]
fn extract_title_fallback_chain() {
    let m = obj(vec![("volumeNum", Json::Num(dec(10_000)))]);
    let ev_untitled = obj(vec![("markets", Json::Arr(vec![m]))]);
    let rows = extract(&Json::Arr(vec![ev_untitled])).unwrap();
    assert_eq!(rows[0].event, "Untitled Event");
    assert_eq!(rows[0].title, "Untitled Event");

    let m2 = obj(vec![("title", s("mkt"))]);
    let ev_slug = obj(vec![("slug", s("ev-slug")), ("markets", Json::Arr(vec![m2]))]);
    let rows2 = extract(&Json::Arr(vec![ev_slug])).unwrap();
    assert_eq!(rows2[0].event, "ev-slug");
    assert_eq!(rows2[0].title, "mkt");
}

#[test]
fn extract_market_title_prefers_question() {
    let m = obj(vec![("question", s("Q?")), ("title", s("T")), ("slug", s("sl"))]);
    let ev = obj(vec![("title", s("E")), ("markets", Json::Arr(vec![m]))]);
    let rows = extract(&Json::Arr(vec![ev])).unwrap();
    assert_eq!(rows[0].title, "Q?");
}

#[test]
fn extract_volume_chain_goes_by_key_presence() {
    // a present-but-null volumeNum still wins the chain, then coerces to 0
    let m = obj(vec![("volumeNum", Json::Null), ("volume", Json::Num(dec(50_000)))]);
    let ev = obj(vec![("markets", Json::Arr(vec![m]))]);
    let rows = extract(&Json::Arr(vec![ev])).unwrap();
    assert_eq!(rows[0].volume.units, 0);

    let m2 = obj(vec![("volumeClob", Json::Num(dec(70_000)))]);
    let ev2 = obj(vec![("markets", Json::Arr(vec![m2]))]);
    let rows2 = extract(&Json::Arr(vec![ev2])).unwrap();
    assert_eq!(rows2[0].volume.units, 70_000);
}

#[test]
fn extract_slug_and_dates_fall_back() {
    let m = obj(vec![("endDate", s("whenever"))]);
    let ev = obj(vec![("slug", s("parent")), ("markets", Json::Arr(vec![m]))]);
    let rows = extract(&Json::Arr(vec![ev])).unwrap();
    assert_eq!(rows[0].slug.as_deref(), Some("parent"));
    assert_eq!(rows[0].end_date.as_deref(), Some("whenever"));

    let m2 = obj(vec![("slug", s("own")), ("endDateIso", s("iso")), ("endDate", s("other"))]);
    let ev2 = obj(vec![("markets", Json::Arr(vec![m2]))]);
    let rows2 = extract(&Json::Arr(vec![ev2])).unwrap();
    assert_eq!(rows2[0].slug.as_deref(), Some("own"));
    assert_eq!(rows2[0].end_date.as_deref(), Some("iso"));
}

#[test]
fn extract_flattens_in_document_order() {
    let m = |name: &str| obj(vec![("question", s(name))]);
    let ev1 = obj(vec![("title", s("one")), ("markets", Json::Arr(vec![m("a"), m("b")]))]);
    let ev2 = obj(vec![("title", s("two")), ("markets", Json::Arr(vec![m("c")]))]);
    let rows = extract(&Json::Arr(vec![ev1, ev2])).unwrap();
    let titles: Vec<&str> = rows.iter().map(|r| r.title.as_str()).collect();
    assert_eq!(titles, vec!["a", "b", "c"]);
    assert_eq!(rows[2].event, "two");
}

#[test]
fn extract_change_chain_and_normalization() {
    let m = obj(vec![("oneDayPriceChange", Json::Num(dec(500)))]);  // 0.05 -> 5%
    let ev = obj(vec![("markets", Json::Arr(vec![m]))]);
    let rows = extract(&Json::Arr(vec![ev])).unwrap();
    assert_eq!(rows[0].change_24h_pct.map(|d| d.units), Some(50_000));

    let m2 = obj(vec![("volume24hr", Json::Num(dec(30_000)))]);
    let ev2 = obj(vec![("markets", Json::Arr(vec![m2]))]);
    let rows2 = extract(&Json::Arr(vec![ev2])).unwrap();
    assert!(rows2[0].change_24h_pct.is_none());
    assert_eq!(rows2[0].volume_24h.units, 30_000);
}
