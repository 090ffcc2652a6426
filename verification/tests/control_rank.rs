use poly_cli::control::next_after_fetch;
use poly_cli::control::next_after_render;
use poly_cli::control::Config;
use poly_cli::control::Decision;
use poly_cli::extract::extract;
use poly_cli::extract::Row;
use poly_cli::json::Json;
use poly_cli::num::Decimal;
use poly_cli::rank::rank;
use poly_cli::rank::take_top;

fn dollars(n: i64) -> Decimal {
    Decimal::from_units(n * 10_000)
}

fn row(title: &str, vol: i64) -> Row {
    Row {
        event: "E".to_string(),
        title: title.to_string(),
        slug: None,
        volume: dollars(vol),
        volume_24h: dollars(0),
        change_24h_pct: None,
        end_date: None,
    }
}

#[test]
fn rank_is_descending_and_stable() {
    let rows = vec![row("a", 10), row("b", 30), row("c", 30), row("d", 5)];
    let ranked = rank(rows);
    let titles: Vec<&str> = ranked.iter().map(|r| r.title.as_str()).collect();
    // the tied 30s keep their original relative order, ahead of 10 and 5
    assert_eq!(titles, vec!["b", "c", "a", "d"]);
}

#[test]
fn rank_keeps_every_row() {
    let rows = vec![row("x", 1), row("y", 9), row("z", 4)];
    let ranked = rank(rows);
    assert_eq!(ranked.len(), 3);
    let vols: Vec<i64> = ranked.iter().map(|r| r.volume.units).collect();
    assert_eq!(vols, vec![90_000, 40_000, 10_000]);
}

#[test]
fn take_top_clamps_to_length() {
    let rows = vec![row("x", 1), row("y", 2)];
    let only = take_top(rows, 5);
    assert_eq!(only.len(), 2);
    let rows2 = vec![row("x", 1), row("y", 2)];
    let one = take_top(rows2, 1);
    assert_eq!(one.len(), 1);
    assert_eq!(one[0].title, "x");
}

fn obj(pairs: Vec<(&str, Json)>) -> Json {
    Json::Obj(pairs.into_iter().map(|(k, v)| (k.to_string(), v)).collect())
}

#[test]
fn end_to_end_top_one_is_highest_volume() {
    // one event with two markets of volumes 100 and 50, in both orders
    for flipped in [false, true] {
        let m_small = obj(vec![
            ("question", Json::Str("small".to_string())),
            ("volumeNum", Json::Num(dollars(50))),
        ]);
        let m_big = obj(vec![
            ("question", Json::Str("big".to_string())),
            ("volumeNum", Json::Num(dollars(100))),
        ]);
        let markets = if flipped {
            vec![m_big, m_small]
        } else {
            vec![m_small, m_big]
        };
        let doc = Json::Arr(vec![obj(vec![
            ("title", Json::Str("E".to_string())),
            ("markets", Json::Arr(markets)),
        ])]);
        let rows = extract(&doc).unwrap();
        let ranked = rank(rows);
        let top = take_top(ranked, 1);
        assert_eq!(top.len(), 1);
        assert_eq!(top[0].title, "big");
        assert_eq!(top[0].volume.units, 1_000_000);
    }
}

fn cfg(watch: bool, json: bool) -> Config {
    Config::new(20, 150, watch, 30, json).unwrap()
}

#[test]
fn config_rejects_bad_preconditions() {
    assert_eq!(Config::new(0, 150, false, 30, false).unwrap_err(), 2);
    assert_eq!(Config::new(20, 0, false, 30, false).unwrap_err(), 2);
    assert_eq!(Config::new(20, 150, false, 1, false).unwrap_err(), 2);
    assert!(Config::new(1, 1, false, 2, false).is_ok());
}

#[test]
fn watch_mode_failure_sleeps_and_retries_forever() {
    let c = cfg(true, false);
    // every failed cycle decides the same way, no matter how many came before
    for _ in 0..5 {
        assert_eq!(next_after_fetch(&c, false), Decision::Sleep(30));
    }
    assert_eq!(next_after_render(&c, true), Decision::Sleep(30));
}

#[test]
fn one_shot_failure_is_fatal() {
    let c = cfg(false, false);
    assert_eq!(next_after_fetch(&c, false), Decision::Exit(1));
    let cj = cfg(true, true);
    // JSON output always runs one-shot, even when watch was asked for
    assert_eq!(next_after_fetch(&cj, false), Decision::Exit(1));
}

#[test]
fn successful_cycle_decisions() {
    let watch = cfg(true, false);
    assert_eq!(next_after_fetch(&watch, true), Decision::Proceed);
    assert_eq!(next_after_render(&watch, true), Decision::Sleep(30));
    let oneshot = cfg(false, false);
    assert_eq!(next_after_fetch(&oneshot, true), Decision::Proceed);
    assert_eq!(next_after_render(&oneshot, true), Decision::Exit(0));
}

#[test]
fn render_failure_always_fatal() {
    assert_eq!(next_after_render(&cfg(true, false), false), Decision::Exit(1));
    assert_eq!(next_after_render(&cfg(false, false), false), Decision::Exit(1));
}
