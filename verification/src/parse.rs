//! Reading an emitted row back.
//!
//! Each decoder carries an inversion contract: whenever its token is the
//! serialization of some value, it returns exactly that value. Chained
//! together they prove the round trip: parsing a row that was emitted from a
//! well-formed `FusedRow` reconstructs that row, presence and values alike.

use vstd::prelude::*;
use crate::model::{FusedRow, LightReading, LightState, Precip, RowV, WeatherSnapshot, Wind};
use crate::numtext::{
    dec_rep, dec_rep_int, dec_to_i64, dec_to_u64, lemma_i64_round_trip, lemma_u64_round_trip,
};
use crate::record::{lemma_scan_inverts_encode, scan_fields, split_record, views_of};
use crate::schema::{
    bool_text, bool_token, encoded_row, lemma_dec_int_plain, lemma_dec_plain, opt_i64_text,
    opt_plain_text, opt_u16_text, precip_one, precip_three, sentinel, sentinel_text, tokens_of,
    wf_opt_text, wf_row, wind_deg, wind_speed, xy_first, xy_second,
};

verus! {

/// The presence-and-text view of an optional owned token.
pub open spec fn opt_str_view(o: Option<String>) -> Option<Seq<char>> {
    match o {
        Some(s) => Some(s@),
        None => None,
    }
}

fn is_sentinel(tok: &str) -> (b: bool)
    ensures
        b == (tok@ == sentinel_text()),
{
    let t = String::from_str(tok);
    let n = String::from_str(sentinel());
    t == n
}

fn parse_bool(tok: &str) -> (r: Option<bool>)
    ensures
        forall|b: bool| tok@ == #[trigger] bool_text(b) ==> r == Some(b),
{
    let t = String::from_str(tok);
    if t == bool_token(true) {
        Some(true)
    } else if t == bool_token(false) {
        Some(false)
    } else {
        None
    }
}

fn parse_opt_i64(tok: &str) -> (r: Option<Option<i64>>)
    ensures
        forall|o: Option<i64>| tok@ == #[trigger] opt_i64_text(o) ==> r == Some(o),
{
    if is_sentinel(tok) {
        proof {
            assert forall|o: Option<i64>| tok@ == #[trigger] opt_i64_text(o) implies Some(
                None::<i64>,
            ) == Some(o) by {
                match o {
                    Some(v) => {
                        lemma_dec_int_plain(v as int);
                    },
                    None => {},
                }
            }
        }
        Some(None)
    } else {
        let d = dec_to_i64(tok);
        proof {
            assert forall|o: Option<i64>| tok@ == #[trigger] opt_i64_text(o) implies (
            match d {
                Some(v) => Some(Some(v)),
                None => None,
            }) == Some(o) by {
                match o {
                    Some(v) => {
                        lemma_i64_round_trip(v);
                    },
                    None => {},
                }
            }
        }
        match d {
            Some(v) => Some(Some(v)),
            None => None,
        }
    }
}

fn parse_opt_u16(tok: &str) -> (r: Option<Option<u16>>)
    ensures
        forall|o: Option<u16>| tok@ == #[trigger] opt_u16_text(o) ==> r == Some(o),
{
    if is_sentinel(tok) {
        proof {
            assert forall|o: Option<u16>| tok@ == #[trigger] opt_u16_text(o) implies Some(
                None::<u16>,
            ) == Some(o) by {
                match o {
                    Some(v) => {
                        lemma_dec_plain(v as nat);
                    },
                    None => {},
                }
            }
        }
        Some(None)
    } else {
        let d = dec_to_u64(tok);
        let r: Option<Option<u16>> = match d {
            Some(v) => {
                if v <= 65535 {
                    Some(Some(v as u16))
                } else {
                    None
                }
            },
            None => None,
        };
        proof {
            assert forall|o: Option<u16>| tok@ == #[trigger] opt_u16_text(o) implies r == Some(
                o,
            ) by {
                match o {
                    Some(v) => {
                        lemma_u64_round_trip(v as u64);
                    },
                    None => {},
                }
            }
        }
        r
    }
}

fn parse_opt_text(tok: &str) -> (r: Option<String>)
    ensures
        forall|o: Option<Seq<char>>|
            wf_opt_text(o) && tok@ == #[trigger] opt_plain_text(o) ==> opt_str_view(r) == o,
{
    if is_sentinel(tok) {
        None
    } else {
        Some(String::from_str(tok))
    }
}

fn parse_i64_req(tok: &str) -> (r: Option<i64>)
    ensures
        forall|v: i64| tok@ == #[trigger] dec_rep_int(v as int) ==> r == Some(v),
{
    let r = dec_to_i64(tok);
    proof {
        assert forall|v: i64| tok@ == #[trigger] dec_rep_int(v as int) implies r == Some(v) by {
            lemma_i64_round_trip(v);
        }
    }
    r
}

fn parse_u64_req(tok: &str) -> (r: Option<u64>)
    ensures
        forall|v: u64| tok@ == #[trigger] dec_rep(v as nat) ==> r == Some(v),
{
    let r = dec_to_u64(tok);
    proof {
        assert forall|v: u64| tok@ == #[trigger] dec_rep(v as nat) implies r == Some(v) by {
            lemma_u64_round_trip(v);
        }
    }
    r
}

fn parse_u16_req(tok: &str) -> (r: Option<u16>)
    ensures
        forall|v: u16| tok@ == #[trigger] dec_rep(v as nat) ==> r == Some(v),
{
    let d = dec_to_u64(tok);
    let r: Option<u16> = match d {
        Some(v) => {
            if v <= 65535 {
                Some(v as u16)
            } else {
                None
            }
        },
        None => None,
    };
    proof {
        assert forall|v: u16| tok@ == #[trigger] dec_rep(v as nat) implies r == Some(v) by {
            lemma_u64_round_trip(v as u64);
        }
    }
    r
}

fn parse_u8_req(tok: &str) -> (r: Option<u8>)
    ensures
        forall|v: u8| tok@ == #[trigger] dec_rep(v as nat) ==> r == Some(v),
{
    let d = dec_to_u64(tok);
    let r: Option<u8> = match d {
        Some(v) => {
            if v <= 255 {
                Some(v as u8)
            } else {
                None
            }
        },
        None => None,
    };
    proof {
        assert forall|v: u8| tok@ == #[trigger] dec_rep(v as nat) implies r == Some(v) by {
            lemma_u64_round_trip(v as u64);
        }
    }
    r
}

/// The fields scanned out of a row's serialization are that row's token
/// list.
proof fn lemma_fields_are_tokens(fields: Seq<Seq<char>>, rv: RowV, line: Seq<char>)
    requires
        line == encoded_row(rv),
        scan_fields(line) == Some(fields),
    ensures
        fields == tokens_of(rv),
{
    assert(tokens_of(rv).len() == 29);
    lemma_scan_inverts_encode(tokens_of(rv));
}

/// Parses one emitted row under the fixed column order and the sentinel
/// convention.
///
/// Round trip: whenever the input is the serialization of a well-formed
/// row, parsing succeeds and reconstructs exactly that row — absent fields
/// come back absent, present fields come back with their source values.
#[verifier::rlimit(60)]
pub fn parse_row(line: &str) -> (r: Option<FusedRow>)
    ensures
        forall|rv: RowV|
            wf_row(rv) && line@ == #[trigger] encoded_row(rv) ==> r is Some && r.unwrap()@ == rv,
{
    let fields = match split_record(line) {
        Some(f) => f,
        None => {
            proof {
                assert forall|rv: RowV|
                    wf_row(rv) && line@ == #[trigger] encoded_row(rv) implies false by {
                    assert(tokens_of(rv).len() == 29);
                    lemma_scan_inverts_encode(tokens_of(rv));
                }
            }
            return None;
        },
    };
    if fields.len() != 29 {
        proof {
            assert forall|rv: RowV|
                wf_row(rv) && line@ == #[trigger] encoded_row(rv) implies false by {
                lemma_fields_are_tokens(views_of(fields@), rv, line@);
            }
        }
        return None;
    }
    let vis = parse_i64_req(fields[7].as_str());
    let wid = parse_opt_i64(fields[8].as_str());
    let cld = parse_opt_i64(fields[9].as_str());
    let wdg = parse_opt_i64(fields[10].as_str());
    let wsp = parse_opt_text(fields[11].as_str());
    let rn1 = parse_opt_i64(fields[12].as_str());
    let rn3 = parse_opt_i64(fields[13].as_str());
    let sn1 = parse_opt_i64(fields[14].as_str());
    let sn3 = parse_opt_i64(fields[15].as_str());
    let on = parse_bool(fields[20].as_str());
    let bri = parse_u8_req(fields[21].as_str());
    let hue = parse_u16_req(fields[22].as_str());
    let sat = parse_u8_req(fields[23].as_str());
    let ct = parse_opt_u16(fields[24].as_str());
    let x0 = parse_opt_text(fields[25].as_str());
    let x1 = parse_opt_text(fields[26].as_str());
    let id = parse_u64_req(fields[27].as_str());
    let day = parse_bool(fields[28].as_str());
    let ghost fv = views_of(fields@);
    proof {
        assert(fv[7] == fields@[7]@);
        assert(fv[8] == fields@[8]@);
        assert(fv[9] == fields@[9]@);
        assert(fv[10] == fields@[10]@);
        assert(fv[11] == fields@[11]@);
        assert(fv[12] == fields@[12]@);
        assert(fv[13] == fields@[13]@);
        assert(fv[14] == fields@[14]@);
        assert(fv[15] == fields@[15]@);
        assert(fv[20] == fields@[20]@);
        assert(fv[21] == fields@[21]@);
        assert(fv[22] == fields@[22]@);
        assert(fv[23] == fields@[23]@);
        assert(fv[24] == fields@[24]@);
        assert(fv[25] == fields@[25]@);
        assert(fv[26] == fields@[26]@);
        assert(fv[27] == fields@[27]@);
        assert(fv[28] == fields@[28]@);
    }
    if vis.is_none() || wid.is_none() || cld.is_none() || wdg.is_none() || rn1.is_none()
        || rn3.is_none() || sn1.is_none() || sn3.is_none() || on.is_none() || bri.is_none()
        || hue.is_none() || sat.is_none() || ct.is_none() || id.is_none() || day.is_none() {
        proof {
            assert forall|rv: RowV|
                wf_row(rv) && line@ == #[trigger] encoded_row(rv) implies false by {
                lemma_fields_are_tokens(fv, rv, line@);
            }
        }
        return None;
    }
    let ghost g_wsp = opt_str_view(wsp);
    let ghost g_x0 = opt_str_view(x0);
    let ghost g_x1 = opt_str_view(x1);
    let wdg_v = wdg.unwrap();
    let wind: Option<Wind> = if wdg_v.is_none() && wsp.is_none() {
        None
    } else {
        Some(Wind { deg: wdg_v, speed: wsp })
    };
    let rn1_v = rn1.unwrap();
    let rn3_v = rn3.unwrap();
    let rain: Option<Precip> = if rn1_v.is_none() && rn3_v.is_none() {
        None
    } else {
        Some(Precip { one_h: rn1_v, three_h: rn3_v })
    };
    let sn1_v = sn1.unwrap();
    let sn3_v = sn3.unwrap();
    let snow: Option<Precip> = if sn1_v.is_none() && sn3_v.is_none() {
        None
    } else {
        Some(Precip { one_h: sn1_v, three_h: sn3_v })
    };
    let xy: Option<(String, String)> = match (x0, x1) {
        (Some(a), Some(b)) => Some((a, b)),
        (None, None) => None,
        _ => {
            proof {
                assert forall|rv: RowV|
                    wf_row(rv) && line@ == #[trigger] encoded_row(rv) implies false by {
                    lemma_fields_are_tokens(fv, rv, line@);
                    match rv.light.state.xy {
                        Some(p) => {
                            assert(g_x0 == Some(p.0));
                            assert(g_x1 == Some(p.1));
                        },
                        None => {
                            assert(g_x0 == None::<Seq<char>>);
                            assert(g_x1 == None::<Seq<char>>);
                        },
                    }
                }
            }
            return None;
        },
    };
    let weather = WeatherSnapshot {
        feels_like: fields[1].clone(),
        humidity: fields[2].clone(),
        pressure: fields[3].clone(),
        temp: fields[4].clone(),
        temp_max: fields[5].clone(),
        temp_min: fields[6].clone(),
        visibility: vis.unwrap(),
        weather_id: wid.unwrap(),
        clouds_all: cld.unwrap(),
        wind,
        rain,
        snow,
    };
    let state = LightState {
        on: on.unwrap(),
        bri: bri.unwrap(),
        hue: hue.unwrap(),
        sat: sat.unwrap(),
        ct: ct.unwrap(),
        xy,
    };
    let light = LightReading {
        id: id.unwrap(),
        name: fields[16].clone(),
        modelid: fields[17].clone(),
        swversion: fields[18].clone(),
        uniqueid: fields[19].clone(),
        state,
    };
    let row = FusedRow { timestamp: fields[0].clone(), weather, light, daylight: day.unwrap() };
    proof {
        assert forall|rv: RowV|
            wf_row(rv) && line@ == #[trigger] encoded_row(rv) implies Some(row) is Some && Some(
            row,
        ).unwrap()@ == rv by {
            lemma_fields_are_tokens(fv, rv, line@);
            assert(fv[0] == fields@[0]@);
            assert(fv[1] == fields@[1]@);
            assert(fv[2] == fields@[2]@);
            assert(fv[3] == fields@[3]@);
            assert(fv[4] == fields@[4]@);
            assert(fv[5] == fields@[5]@);
            assert(fv[6] == fields@[6]@);
            assert(fv[16] == fields@[16]@);
            assert(fv[17] == fields@[17]@);
            assert(fv[18] == fields@[18]@);
            assert(fv[19] == fields@[19]@);
            match rv.weather.wind {
                Some(w) => {
                    assert(wind_deg(rv.weather.wind) == w.deg);
                    assert(wind_speed(rv.weather.wind) == w.speed);
                    assert(g_wsp == w.speed);
                    assert(row@.weather.wind =~~= rv.weather.wind);
                },
                None => {
                    assert(wind_deg(rv.weather.wind) == None::<i64>);
                    assert(g_wsp == None::<Seq<char>>);
                    assert(row@.weather.wind =~~= rv.weather.wind);
                },
            }
            match rv.weather.rain {
                Some(p) => {
                    assert(row@.weather.rain =~~= rv.weather.rain);
                },
                None => {
                    assert(row@.weather.rain =~~= rv.weather.rain);
                },
            }
            match rv.weather.snow {
                Some(p) => {
                    assert(row@.weather.snow =~~= rv.weather.snow);
                },
                None => {
                    assert(row@.weather.snow =~~= rv.weather.snow);
                },
            }
            match rv.light.state.xy {
                Some(p) => {
                    assert(g_x0 == Some(p.0));
                    assert(g_x1 == Some(p.1));
                    assert(row@.light.state.xy =~~= rv.light.state.xy);
                },
                None => {
                    assert(g_x0 == None::<Seq<char>>);
                    assert(g_x1 == None::<Seq<char>>);
                    assert(row@.light.state.xy =~~= rv.light.state.xy);
                },
            }
            assert(row@ =~~= rv);
        }
    }
    Some(row)
}

} // verus!
