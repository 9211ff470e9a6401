//! Fusing one tick's readings into rows.
//!
//! A tick owns one weather snapshot and one daylight flag; every light the
//! hub returned yields exactly one row combining its own reading with those
//! two shared values, in the hub's iteration order. Each row's capture
//! timestamp is taken at the moment that light is processed.

use vstd::prelude::*;
use crate::model::{FusedRow, LightReading, RowV, WeatherSnapshot};
use crate::record::plain;

verus! {

/// Relies on chrono: `Local::now().to_rfc3339()` renders the capture
/// instant. RFC 3339 text holds only digits, letters and the signs
/// '-', ':', '+', '.', never a comma, a quote or a line break, so it is
/// plain; its value depends on the wall clock, so nothing more is assumed.
#[verifier::external_body]
fn now_rfc3339() -> (r: String)
    ensures
        plain(r@),
{
    chrono::Local::now().to_rfc3339()
}

/// Fuses one light with the tick's shared snapshot under a given timestamp.
pub fn fuse_one(light: LightReading, weather: &WeatherSnapshot, daylight: bool, timestamp: String) -> (r:
    FusedRow)
    ensures
        r@.light == light@,
        r@.weather == weather@,
        r@.daylight == daylight,
        r@.timestamp == timestamp@,
{
    FusedRow { timestamp, weather: weather.duplicate(), light, daylight }
}

/// Fuses one light with the tick's shared snapshot, stamping it with the
/// wall clock at this moment; a well-formed snapshot and light give a
/// well-formed row, and the timestamp needs no quoting.
pub fn fuse_one_now(light: LightReading, weather: &WeatherSnapshot, daylight: bool) -> (r: FusedRow)
    ensures
        r@.light == light@,
        r@.weather == weather@,
        r@.daylight == daylight,
        plain(r@.timestamp),
        crate::schema::wf_weather(weather@) && crate::schema::wf_light(light@)
            ==> crate::schema::wf_row(r@),
{
    let ts = now_rfc3339();
    fuse_one(light, weather, daylight, ts)
}

/// Fuses a whole tick: one row per light, in the hub's order, all sharing
/// the tick's weather snapshot and daylight flag, each under its own
/// timestamp.
pub fn fuse_tick(
    lights: &Vec<LightReading>,
    weather: &WeatherSnapshot,
    daylight: bool,
    timestamps: &Vec<String>,
) -> (rows: Vec<FusedRow>)
    requires
        timestamps@.len() == lights@.len(),
    ensures
        rows@.len() == lights@.len(),
        forall|i: int|
            0 <= i < rows@.len() ==> (#[trigger] rows@[i])@.light == lights@[i]@ && rows@[i]@.weather
                == weather@ && rows@[i]@.daylight == daylight && rows@[i]@.timestamp
                == timestamps@[i]@,
{
    let mut rows: Vec<FusedRow> = Vec::new();
    let mut i: usize = 0;
    while i < lights.len()
        invariant
            0 <= i <= lights@.len(),
            timestamps@.len() == lights@.len(),
            rows@.len() == i,
            forall|j: int|
                0 <= j < i ==> (#[trigger] rows@[j])@.light == lights@[j]@ && rows@[j]@.weather
                    == weather@ && rows@[j]@.daylight == daylight && rows@[j]@.timestamp
                    == timestamps@[j]@,
        decreases lights@.len() - i,
    {
        let row = fuse_one(lights[i].duplicate(), weather, daylight, timestamps[i].clone());
        rows.push(row);
        i += 1;
    }
    rows
}

/// All rows fused in one tick carry the same weather snapshot and the same
/// daylight flag: the two are identical across every pair of the tick's
/// rows.
pub proof fn lemma_tick_rows_uniform(rows: Seq<RowV>, w: crate::model::WeatherV, d: bool)
    requires
        forall|i: int|
            0 <= i < rows.len() ==> (#[trigger] rows[i]).weather == w && rows[i].daylight == d,
    ensures
        forall|i: int, j: int|
            0 <= i < rows.len() && 0 <= j < rows.len() ==> (#[trigger] rows[i]).weather == (
            #[trigger] rows[j]).weather && rows[i].daylight == rows[j].daylight,
{
}

} // verus!
