//! The fixed row schema of the output destination.
//!
//! Every row carries the same twenty-nine columns in the same order, for the
//! lifetime of the destination. An absent optional value is written as the
//! fixed sentinel token, never as an empty field. The header line names the
//! columns in that same order.

use vstd::prelude::*;
use crate::model::{FusedRow, LightReadingV, RowV, WeatherV, WindV};
use crate::numtext::{dec_rep, dec_rep_int, i64_to_dec, is_digit, lemma_dec_rep_wf, u64_to_dec};
use crate::record::{csv_special, encode_fields, encode_record, plain, views_of};

verus! {

/// The sentinel token that stands for an absent optional value.
pub open spec fn sentinel_text() -> Seq<char> {
    seq!['N', 'A']
}

/// The sentinel token as a string.
pub fn sentinel() -> (s: &'static str)
    ensures
        s@ == sentinel_text(),
{
    proof {
        reveal_strlit("NA");
        assert("NA"@ =~= sentinel_text());
    }
    "NA"
}

/// How a boolean column is written.
pub open spec fn bool_text(b: bool) -> Seq<char> {
    if b {
        seq!['t', 'r', 'u', 'e']
    } else {
        seq!['f', 'a', 'l', 's', 'e']
    }
}

/// The boolean column token.
pub fn bool_token(b: bool) -> (s: String)
    ensures
        s@ == bool_text(b),
{
    proof {
        reveal_strlit("true");
        reveal_strlit("false");
        assert("true"@ =~= bool_text(true));
        assert("false"@ =~= bool_text(false));
    }
    if b {
        String::from_str("true")
    } else {
        String::from_str("false")
    }
}

/// The token of an optional integer column: its decimal text when present,
/// the sentinel when absent.
pub open spec fn opt_i64_text(o: Option<i64>) -> Seq<char> {
    match o {
        Some(v) => dec_rep_int(v as int),
        None => sentinel_text(),
    }
}

pub open spec fn opt_u16_text(o: Option<u16>) -> Seq<char> {
    match o {
        Some(v) => dec_rep(v as nat),
        None => sentinel_text(),
    }
}

/// The token of an optional free-text column.
pub open spec fn opt_plain_text(o: Option<Seq<char>>) -> Seq<char> {
    match o {
        Some(s) => s,
        None => sentinel_text(),
    }
}

/// The wind direction, flattened across the optional sub-record.
pub open spec fn wind_deg(w: Option<WindV>) -> Option<i64> {
    match w {
        Some(x) => x.deg,
        None => None,
    }
}

/// The wind speed, flattened across the optional sub-record.
pub open spec fn wind_speed(w: Option<WindV>) -> Option<Seq<char>> {
    match w {
        Some(x) => x.speed,
        None => None,
    }
}

/// One-hour accumulation, flattened across the optional sub-record.
pub open spec fn precip_one(p: Option<crate::model::Precip>) -> Option<i64> {
    match p {
        Some(x) => x.one_h,
        None => None,
    }
}

/// Three-hour accumulation, flattened across the optional sub-record.
pub open spec fn precip_three(p: Option<crate::model::Precip>) -> Option<i64> {
    match p {
        Some(x) => x.three_h,
        None => None,
    }
}

pub open spec fn xy_first(o: Option<(Seq<char>, Seq<char>)>) -> Option<Seq<char>> {
    match o {
        Some(p) => Some(p.0),
        None => None,
    }
}

pub open spec fn xy_second(o: Option<(Seq<char>, Seq<char>)>) -> Option<Seq<char>> {
    match o {
        Some(p) => Some(p.1),
        None => None,
    }
}

/// The twenty-nine tokens of one row, in the fixed column order.
pub open spec fn tokens_of(r: RowV) -> Seq<Seq<char>> {
    seq![
        r.timestamp,
        r.weather.feels_like,
        r.weather.humidity,
        r.weather.pressure,
        r.weather.temp,
        r.weather.temp_max,
        r.weather.temp_min,
        dec_rep_int(r.weather.visibility as int),
        opt_i64_text(r.weather.weather_id),
        opt_i64_text(r.weather.clouds_all),
        opt_i64_text(wind_deg(r.weather.wind)),
        opt_plain_text(wind_speed(r.weather.wind)),
        opt_i64_text(precip_one(r.weather.rain)),
        opt_i64_text(precip_three(r.weather.rain)),
        opt_i64_text(precip_one(r.weather.snow)),
        opt_i64_text(precip_three(r.weather.snow)),
        r.light.name,
        r.light.modelid,
        r.light.swversion,
        r.light.uniqueid,
        bool_text(r.light.state.on),
        dec_rep(r.light.state.bri as nat),
        dec_rep(r.light.state.hue as nat),
        dec_rep(r.light.state.sat as nat),
        opt_u16_text(r.light.state.ct),
        opt_plain_text(xy_first(r.light.state.xy)),
        opt_plain_text(xy_second(r.light.state.xy)),
        dec_rep(r.light.id as nat),
        bool_text(r.daylight),
    ]
}

/// One whole serialized row.
pub open spec fn encoded_row(r: RowV) -> Seq<char> {
    encode_fields(tokens_of(r))
}

/// An optional free-text value that can stand in a row: never spelled like
/// the sentinel, so presence stays decidable.
pub open spec fn wf_opt_text(o: Option<Seq<char>>) -> bool {
    match o {
        Some(s) => s != sentinel_text(),
        None => true,
    }
}

/// A weather snapshot that can stand in a row: no optional text is spelled
/// like the sentinel, and a present sub-record reports at least one field.
pub open spec fn wf_weather(w: WeatherV) -> bool {
    &&& wf_opt_text(wind_speed(w.wind))
    &&& (match w.wind {
        Some(x) => x.deg is Some || x.speed is Some,
        None => true,
    })
    &&& (match w.rain {
        Some(p) => p.one_h is Some || p.three_h is Some,
        None => true,
    })
    &&& (match w.snow {
        Some(p) => p.one_h is Some || p.three_h is Some,
        None => true,
    })
}

/// A light reading that can stand in a row.
pub open spec fn wf_light(l: LightReadingV) -> bool {
    &&& wf_opt_text(xy_first(l.state.xy))
    &&& wf_opt_text(xy_second(l.state.xy))
}

/// A row that can stand in the destination and be read back exactly.
pub open spec fn wf_row(r: RowV) -> bool {
    &&& wf_weather(r.weather)
    &&& wf_light(r.light)
}

/// Decimal text never collides with the delimiter set or the sentinel.
pub proof fn lemma_dec_plain(n: nat)
    ensures
        plain(dec_rep(n)),
        dec_rep(n) != sentinel_text(),
{
    lemma_dec_rep_wf(n);
    let s = dec_rep(n);
    assert forall|i: int| 0 <= i < s.len() implies !csv_special(#[trigger] s[i]) by {
        assert(is_digit(s[i]));
    }
    assert(is_digit(s[0]));
    assert(s[0] != 'N');
    if s == sentinel_text() {
        assert(s[0] == 'N');
    }
}

/// Signed decimal text never collides with the delimiter set or the sentinel.
pub proof fn lemma_dec_int_plain(v: int)
    ensures
        plain(dec_rep_int(v)),
        dec_rep_int(v) != sentinel_text(),
{
    if v < 0 {
        lemma_dec_plain((-v) as nat);
        let m = dec_rep((-v) as nat);
        let s = dec_rep_int(v);
        assert forall|i: int| 0 <= i < s.len() implies !csv_special(#[trigger] s[i]) by {
            if i == 0 {
                assert(s[0] == '-');
            } else {
                assert(s[i] == m[i - 1]);
            }
        }
        assert(s[0] == '-');
        if s == sentinel_text() {
            assert(s[0] == 'N');
        }
    } else {
        lemma_dec_plain(v as nat);
    }
}

/// Serialization is a pure function of the row's value: a row with the same
/// fields, absent or present, serializes to byte-identical text every time.
pub proof fn lemma_encode_deterministic(a: RowV, b: RowV)
    requires
        a == b,
    ensures
        encoded_row(a) == encoded_row(b),
{
}

/// A row whose weather omits the wind sub-record entirely carries the
/// sentinel in both wind columns, whatever the other columns hold.
pub proof fn lemma_absent_wind_sentinel(r: RowV)
    requires
        r.weather.wind is None,
    ensures
        tokens_of(r)[10] == sentinel_text(),
        tokens_of(r)[11] == sentinel_text(),
{
}

/// The header line: the column names in the fixed order.
pub open spec fn header_text() -> Seq<char> {
    "timestamp,weather_main_feels_like,weather_main_humidity,weather_main_pressure,weather_main_temp,weather_main_temp_max,weather_main_temp_min,weather_visibility,weather_weather_0_id,weather_clouds_all,weather_wind_deg,weather_wind_speed,weather_rain_1h,weather_rain_3h,weather_snow_1h,weather_snow_3h,light_name,light_modelid,light_swversion,light_uniqueid,light_state_on,light_state_bri,light_state_hue,light_state_sat,light_state_ct,light_state_xy_0,light_state_xy_1,id,daylight"@
}

/// The header line as a string.
pub fn header_line() -> (s: String)
    ensures
        s@ == header_text(),
{
    String::from_str(
        "timestamp,weather_main_feels_like,weather_main_humidity,weather_main_pressure,weather_main_temp,weather_main_temp_max,weather_main_temp_min,weather_visibility,weather_weather_0_id,weather_clouds_all,weather_wind_deg,weather_wind_speed,weather_rain_1h,weather_rain_3h,weather_snow_1h,weather_snow_3h,light_name,light_modelid,light_swversion,light_uniqueid,light_state_on,light_state_bri,light_state_hue,light_state_sat,light_state_ct,light_state_xy_0,light_state_xy_1,id,daylight",
    )
}

/// The sentinel token, owned.
fn sentinel_string() -> (s: String)
    ensures
        s@ == sentinel_text(),
{
    String::from_str(sentinel())
}

fn opt_i64_token(o: &Option<i64>) -> (s: String)
    ensures
        s@ == opt_i64_text(*o),
{
    match o {
        Some(v) => i64_to_dec(*v),
        None => sentinel_string(),
    }
}

fn opt_u16_token(o: &Option<u16>) -> (s: String)
    ensures
        s@ == opt_u16_text(*o),
{
    match o {
        Some(v) => u64_to_dec(*v as u64),
        None => sentinel_string(),
    }
}

fn opt_text_token(o: &Option<String>) -> (s: String)
    ensures
        s@ == opt_plain_text(
            match *o {
                Some(ref t) => Some(t@),
                None => None,
            },
        ),
{
    match o {
        Some(t) => t.clone(),
        None => sentinel_string(),
    }
}

/// The row's tokens, in the fixed column order.
pub fn row_tokens(r: &FusedRow) -> (v: Vec<String>)
    ensures
        views_of(v@) == tokens_of(r@),
{
    let mut v: Vec<String> = Vec::new();
    v.push(r.timestamp.clone());
    v.push(r.weather.feels_like.clone());
    v.push(r.weather.humidity.clone());
    v.push(r.weather.pressure.clone());
    v.push(r.weather.temp.clone());
    v.push(r.weather.temp_max.clone());
    v.push(r.weather.temp_min.clone());
    v.push(i64_to_dec(r.weather.visibility));
    v.push(opt_i64_token(&r.weather.weather_id));
    v.push(opt_i64_token(&r.weather.clouds_all));
    let (wdeg, wspd): (Option<i64>, Option<String>) = match &r.weather.wind {
        Some(w) => (
            w.deg,
            match &w.speed {
                Some(s) => Some(s.clone()),
                None => None,
            },
        ),
        None => (None, None),
    };
    v.push(opt_i64_token(&wdeg));
    v.push(opt_text_token(&wspd));
    let (r1, r3): (Option<i64>, Option<i64>) = match &r.weather.rain {
        Some(p) => (p.one_h, p.three_h),
        None => (None, None),
    };
    v.push(opt_i64_token(&r1));
    v.push(opt_i64_token(&r3));
    let (s1, s3): (Option<i64>, Option<i64>) = match &r.weather.snow {
        Some(p) => (p.one_h, p.three_h),
        None => (None, None),
    };
    v.push(opt_i64_token(&s1));
    v.push(opt_i64_token(&s3));
    v.push(r.light.name.clone());
    v.push(r.light.modelid.clone());
    v.push(r.light.swversion.clone());
    v.push(r.light.uniqueid.clone());
    v.push(bool_token(r.light.state.on));
    v.push(u64_to_dec(r.light.state.bri as u64));
    v.push(u64_to_dec(r.light.state.hue as u64));
    v.push(u64_to_dec(r.light.state.sat as u64));
    v.push(opt_u16_token(&r.light.state.ct));
    let (x0, x1): (Option<String>, Option<String>) = match &r.light.state.xy {
        Some(p) => (Some(p.0.clone()), Some(p.1.clone())),
        None => (None, None),
    };
    v.push(opt_text_token(&x0));
    v.push(opt_text_token(&x1));
    v.push(u64_to_dec(r.light.id));
    v.push(bool_token(r.daylight));
    proof {
        assert(views_of(v@) =~= tokens_of(r@));
    }
    v
}

/// Whether an optional free-text value is not spelled like the sentinel.
fn text_ok(s: &String) -> (b: bool)
    ensures
        b == (s@ != sentinel_text()),
{
    let sent = String::from_str(sentinel());
    !(*s == sent)
}

/// Whether a row is well-formed: parsing such a row's serialization
/// reconstructs the row exactly.
pub fn row_well_formed(r: &FusedRow) -> (b: bool)
    ensures
        b == wf_row(r@),
{
    let mut ok = (match &r.weather.wind {
        Some(w) => (w.deg.is_some() || w.speed.is_some()) && (match &w.speed {
            Some(s) => text_ok(s),
            None => true,
        }),
        None => true,
    });
    ok = ok && (match &r.weather.rain {
        Some(p) => p.one_h.is_some() || p.three_h.is_some(),
        None => true,
    });
    ok = ok && (match &r.weather.snow {
        Some(p) => p.one_h.is_some() || p.three_h.is_some(),
        None => true,
    });
    ok = ok && (match &r.light.state.xy {
        Some(p) => text_ok(&p.0) && text_ok(&p.1),
        None => true,
    });
    ok
}

/// Serializes one row in the fixed column order, with the sentinel standing
/// for every absent optional value.
pub fn encode_row(r: &FusedRow) -> (out: String)
    ensures
        out@ == encoded_row(r@),
{
    let toks = row_tokens(r);
    proof {
        assert(views_of(toks@).len() == 29);
        assert(toks@.len() == 29);
    }
    encode_record(&toks)
}

} // verus!
