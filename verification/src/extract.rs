//! Flattening the nested event/market document into typed rows.
//!
//! Extraction fails only when the top level of the document is not an
//! array; every other structural absence degrades to a default. Field
//! fallback chains go by key presence, exactly as the feed requires:
//! a present-but-null field still wins its chain and then coerces to
//! the default.
use vstd::prelude::*;

use crate::json::coerce;
use crate::json::coerce_spec;
use crate::json::json_get_spec;
use crate::json::str_field;
use crate::json::Json;
use crate::num::Decimal;
use crate::num::MAX_UNITS;
use crate::num::UNIT;

verus! {

/// The one extraction failure: a document whose top level is not an
/// array of events.
#[derive(Clone, Copy, PartialEq, Eq, Structural, Debug)]
pub struct ShapeError;

/// The mathematical content of a row: field views and fixed-point unit
/// counts.
pub ghost struct RowView {
    pub event: Seq<char>,
    pub title: Seq<char>,
    pub slug: Option<Seq<char>>,
    pub volume: int,
    pub volume_24h: int,
    pub change_24h_pct: Option<int>,
    pub end_date: Option<Seq<char>>,
}

/// One trading market, the unit of ranking and display.
#[derive(Debug, Clone)]
pub struct Row {
    /// Parent event title; never empty thanks to the fallback chain.
    pub event: String,
    /// Market-specific title, falling back to the event title.
    pub title: String,
    /// Identifier for linking, from the market or else the event.
    pub slug: Option<String>,
    /// Cumulative traded volume; defaults to zero.
    pub volume: Decimal,
    /// Rolling 24h volume; defaults to zero.
    pub volume_24h: Decimal,
    /// Signed percentage; `None` means unknown, distinct from flat zero.
    pub change_24h_pct: Option<Decimal>,
    /// Raw end-date text; parsed only at render time.
    pub end_date: Option<String>,
}

impl DeepView for Row {
    type V = RowView;

    open spec fn deep_view(&self) -> RowView {
        RowView {
            event: self.event@,
            title: self.title@,
            slug: match self.slug {
                Some(s) => Some(s@),
                None => None,
            },
            volume: self.volume.units as int,
            volume_24h: self.volume_24h.units as int,
            change_24h_pct: match self.change_24h_pct {
                Some(d) => Some(d.units as int),
                None => None,
            },
            end_date: match self.end_date {
                Some(s) => Some(s@),
                None => None,
            },
        }
    }
}

impl RowView {
    /// Every numeric field stays in the representable range.
    pub open spec fn wf(self) -> bool {
        &&& -MAX_UNITS <= self.volume <= MAX_UNITS
        &&& -MAX_UNITS <= self.volume_24h <= MAX_UNITS
        &&& self.change_24h_pct matches Some(c) ==> -MAX_UNITS <= c <= MAX_UNITS
    }
}

impl Row {
    /// Every numeric field stays in the representable range.
    pub open spec fn wf(self) -> bool {
        self.deep_view().wf()
    }
}

/// Event title fallback chain: `title`, then `slug`, then a fixed label.
pub open spec fn event_title_spec(ev: Json) -> Seq<char> {
    match str_field(ev, "title"@) {
        Some(s) => s@,
        None => match str_field(ev, "slug"@) {
            Some(s) => s@,
            None => "Untitled Event"@,
        },
    }
}

pub open spec fn event_slug_spec(ev: Json) -> Option<Seq<char>> {
    match str_field(ev, "slug"@) {
        Some(s) => Some(s@),
        None => None,
    }
}

/// Market title fallback chain: `question`, `title`, `slug`, then the
/// event title.
pub open spec fn market_title_spec(ev: Json, m: Json) -> Seq<char> {
    match str_field(m, "question"@) {
        Some(s) => s@,
        None => match str_field(m, "title"@) {
            Some(s) => s@,
            None => match str_field(m, "slug"@) {
                Some(s) => s@,
                None => event_title_spec(ev),
            },
        },
    }
}

pub open spec fn slug_spec(ev: Json, m: Json) -> Option<Seq<char>> {
    match str_field(m, "slug"@) {
        Some(s) => Some(s@),
        None => event_slug_spec(ev),
    }
}

pub open spec fn end_date_spec(m: Json) -> Option<Seq<char>> {
    match str_field(m, "endDateIso"@) {
        Some(s) => Some(s@),
        None => match str_field(m, "endDate"@) {
            Some(s) => Some(s@),
            None => None,
        },
    }
}

/// First present of the four volume keys, by key presence alone.
pub open spec fn volume_field_spec(m: Json) -> Option<Json> {
    match json_get_spec(m, "volumeNum"@) {
        Some(v) => Some(v),
        None => match json_get_spec(m, "volume"@) {
            Some(v) => Some(v),
            None => match json_get_spec(m, "volumeClob"@) {
                Some(v) => Some(v),
                None => json_get_spec(m, "volumeAmm"@),
            },
        },
    }
}

/// First present of the two differently-named raw change keys.
pub open spec fn change_field_spec(m: Json) -> Option<Json> {
    match json_get_spec(m, "oneDayPriceChange"@) {
        Some(v) => Some(v),
        None => json_get_spec(m, "oneDayPriceChangePercent"@),
    }
}

/// Coercion of an optional field with default zero, as a unit count.
pub open spec fn coerce_units(v: Option<Json>) -> int {
    match v {
        Some(j) => coerce_spec(j, Decimal { units: 0 }).units as int,
        None => 0,
    }
}

/// The change-normalization rule: a missing or null raw value stays
/// unknown; a raw magnitude within 1 is read as a fraction and scaled
/// to a percentage; anything larger is already percentage-scale. This
/// magnitude heuristic is a deliberate, documented approximation of an
/// ambiguous upstream unit, to be preserved exactly.
pub open spec fn normalize_change_spec(raw: Option<Json>) -> Option<Decimal> {
    match raw {
        Some(v) => if v is Null {
            None
        } else {
            let d = coerce_spec(v, Decimal { units: 0 });
            if -(UNIT as int) <= d.units as int <= UNIT as int {
                Some(Decimal { units: (d.units * 100) as i64 })
            } else {
                Some(d)
            }
        },
        None => None,
    }
}

pub fn normalize_change(raw: Option<&Json>) -> (r: Option<Decimal>)
    ensures
        raw is None ==> r is None,
        raw matches Some(v) ==> r == normalize_change_spec(Some(*v)),
        r matches Some(d) ==> d.wf(),
{
    match raw {
        None => None,
        Some(v) => match v {
            Json::Null => None,
            _ => {
                let d = coerce(Some(v), Decimal::zero());
                if -UNIT <= d.units && d.units <= UNIT {
                    Some(Decimal { units: d.units * 100 })
                } else {
                    Some(d)
                }
            },
        },
    }
}

/// The row contributed by market `m` of event `ev`.
pub open spec fn row_of_market(ev: Json, m: Json) -> RowView {
    RowView {
        event: event_title_spec(ev),
        title: market_title_spec(ev, m),
        slug: slug_spec(ev, m),
        volume: coerce_units(volume_field_spec(m)),
        volume_24h: coerce_units(json_get_spec(m, "volume24hr"@)),
        change_24h_pct: match normalize_change_spec(change_field_spec(m)) {
            Some(d) => Some(d.units as int),
            None => None,
        },
        end_date: end_date_spec(m),
    }
}

/// The markets array of an event; absent or non-array yields none.
pub open spec fn markets_of(ev: Json) -> Seq<Json> {
    match json_get_spec(ev, "markets"@) {
        Some(j) => match j {
            Json::Arr(ms) => ms@,
            _ => Seq::<Json>::empty(),
        },
        None => Seq::<Json>::empty(),
    }
}

pub open spec fn rows_of_markets(ev: Json, ms: Seq<Json>) -> Seq<RowView>
    decreases ms.len(),
{
    if ms.len() == 0 {
        Seq::<RowView>::empty()
    } else {
        rows_of_markets(ev, ms.drop_last()).push(row_of_market(ev, ms.last()))
    }
}

/// All rows of one event, in market order.
pub open spec fn rows_of_event(ev: Json) -> Seq<RowView> {
    rows_of_markets(ev, markets_of(ev))
}

pub open spec fn rows_of_events(evs: Seq<Json>) -> Seq<RowView>
    decreases evs.len(),
{
    if evs.len() == 0 {
        Seq::<RowView>::empty()
    } else {
        rows_of_events(evs.drop_last()) + rows_of_event(evs.last())
    }
}

/// The flat row list of a whole document, event by event, market by
/// market, in document order.
pub open spec fn rows_of_doc(doc: Json) -> Seq<RowView> {
    match doc {
        Json::Arr(evs) => rows_of_events(evs@),
        _ => Seq::<RowView>::empty(),
    }
}

/// Clones the string, or falls back to the already-resolved event title.
fn title_or<'a>(found: Option<&'a String>, fallback: &String) -> (r: String)
    ensures
        found matches Some(s) ==> r@ == s@,
        found is None ==> r@ == fallback@,
{
    match found {
        Some(s) => s.clone(),
        None => fallback.clone(),
    }
}

/// Builds the row of market `m` inside event `ev`, whose title and slug
/// have already been resolved.
fn build_row(ev: &Json, m: &Json, event_title: &String, event_slug: &Option<String>) -> (r: Row)
    requires
        event_title@ == event_title_spec(*ev),
        event_slug.deep_view() == event_slug_spec(*ev),
    ensures
        r.deep_view() == row_of_market(*ev, *m),
        r.wf(),
{
    let title: String = match m.get_str("question") {
        Some(s) => s.clone(),
        None => match m.get_str("title") {
            Some(s) => s.clone(),
            None => match m.get_str("slug") {
                Some(s) => s.clone(),
                None => event_title.clone(),
            },
        },
    };
    let slug: Option<String> = match m.get_str("slug") {
        Some(s) => Some(s.clone()),
        None => match event_slug {
            Some(s) => Some(s.clone()),
            None => None,
        },
    };
    let end_date: Option<String> = match m.get_str("endDateIso") {
        Some(s) => Some(s.clone()),
        None => match m.get_str("endDate") {
            Some(s) => Some(s.clone()),
            None => None,
        },
    };
    let volume_field: Option<&Json> = match m.get("volumeNum") {
        Some(v) => Some(v),
        None => match m.get("volume") {
            Some(v) => Some(v),
            None => match m.get("volumeClob") {
                Some(v) => Some(v),
                None => m.get("volumeAmm"),
            },
        },
    };
    let volume = coerce(volume_field, Decimal::zero());
    let volume_24h = coerce(m.get("volume24hr"), Decimal::zero());
    let change_field: Option<&Json> = match m.get("oneDayPriceChange") {
        Some(v) => Some(v),
        None => m.get("oneDayPriceChangePercent"),
    };
    let change_24h_pct = normalize_change(change_field);
    proof {
        match volume_field_spec(*m) {
            Some(j) => {
                assert(volume_field matches Some(x) && *x == j);
            },
            None => {
                assert(volume_field is None);
            },
        }
        match change_field_spec(*m) {
            Some(j) => {
                assert(change_field matches Some(x) && *x == j);
            },
            None => {
                assert(change_field is None);
            },
        }
    }
    let r = Row {
        event: event_title.clone(),
        title,
        slug,
        volume,
        volume_24h,
        change_24h_pct,
        end_date,
    };
    proof {
        assert(r.deep_view() == row_of_market(*ev, *m));
    }
    r
}

/// Flattens the document into rows: per event, its title chain and its
/// markets; per market, the field fallback chains and coercions. Fails
/// exactly when the top level is not an array.
pub fn extract(doc: &Json) -> (r: Result<Vec<Row>, ShapeError>)
    ensures
        r is Ok <==> doc is Arr,
        r matches Ok(rows) ==> rows.deep_view() == rows_of_doc(*doc) && forall|i: int|
            0 <= i < rows@.len() ==> (#[trigger] rows@[i]).wf(),
{
    let events: &Vec<Json> = match doc {
        Json::Arr(evs) => evs,
        _ => {
            return Err(ShapeError);
        },
    };
    let mut rows: Vec<Row> = Vec::new();
    let n: usize = events.len();
    let mut i: usize = 0;
    proof {
        assert(rows.deep_view() =~= rows_of_events(events@.take(0)));
    }
    while i < n
        invariant
            0 <= i <= n,
            n == events@.len(),
            *doc == Json::Arr(*events),
            rows.deep_view() == rows_of_events(events@.take(i as int)),
            forall|k: int| 0 <= k < rows@.len() ==> (#[trigger] rows@[k]).wf(),
        decreases n - i,
    {
        let ev = &events[i];
        let event_title: String = match ev.get_str("title") {
            Some(s) => s.clone(),
            None => match ev.get_str("slug") {
                Some(s) => s.clone(),
                None => String::from_str("Untitled Event"),
            },
        };
        let event_slug: Option<String> = match ev.get_str("slug") {
            Some(s) => Some(s.clone()),
            None => None,
        };
        assert(event_title@ == event_title_spec(*ev));
        assert(event_slug.deep_view() == event_slug_spec(*ev));
        let markets: Option<&Vec<Json>> = match ev.get("markets") {
            Some(j) => match j {
                Json::Arr(ms) => Some(ms),
                _ => None,
            },
            None => None,
        };
        match markets {
            Some(ms) => {
                proof {
                    assert(markets_of(*ev) == ms@);
                }
                let m_count: usize = ms.len();
                let mut j: usize = 0;
                proof {
                    assert(rows.deep_view() + rows_of_markets(*ev, ms@.take(0)) =~= rows.deep_view());
                }
                while j < m_count
                    invariant
                        0 <= j <= m_count,
                        m_count == ms@.len(),
                        event_title@ == event_title_spec(*ev),
                        event_slug.deep_view() == event_slug_spec(*ev),
                        rows.deep_view() == rows_of_events(events@.take(i as int))
                            + rows_of_markets(*ev, ms@.take(j as int)),
                        forall|k: int| 0 <= k < rows@.len() ==> (#[trigger] rows@[k]).wf(),
                    decreases m_count - j,
                {
                    let m = &ms[j];
                    let row = build_row(ev, m, &event_title, &event_slug);
                    let ghost pre = rows.deep_view();
                    let ghost rowv = row.deep_view();
                    rows.push(row);
                    proof {
                        assert(rows.deep_view() =~= pre.push(rowv));
                        assert(ms@.take(j + 1).drop_last() =~= ms@.take(j as int));
                        assert(ms@.take(j + 1).last() == ms@[j as int]);
                        assert(rows_of_markets(*ev, ms@.take(j + 1)) == rows_of_markets(
                            *ev,
                            ms@.take(j as int),
                        ).push(row_of_market(*ev, ms@[j as int])));
                        assert(rows.deep_view() =~= rows_of_events(events@.take(i as int))
                            + rows_of_markets(*ev, ms@.take(j + 1)));
                    }
                    j = j + 1;
                }
                proof {
                    assert(ms@.take(m_count as int) =~= ms@);
                }
            },
            None => {
                proof {
                    assert(markets_of(*ev) =~= Seq::<Json>::empty());
                    assert(rows.deep_view() =~= rows_of_events(events@.take(i as int))
                        + rows_of_markets(*ev, markets_of(*ev)));
                }
            },
        }
        proof {
            assert(events@.take(i + 1).drop_last() =~= events@.take(i as int));
            assert(events@.take(i + 1).last() == events@[i as int]);
        }
        i = i + 1;
    }
    proof {
        assert(events@.take(n as int) =~= events@);
    }
    Ok(rows)
}

} // verus!
