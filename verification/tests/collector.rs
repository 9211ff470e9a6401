use huelog::errors::CollectError;
use huelog::fuse::{fuse_one, fuse_tick};
use huelog::model::{FusedRow, LightReading, LightState, Precip, WeatherSnapshot, Wind};
use huelog::numtext::{dec_to_i64, dec_to_u64, i64_to_dec, u64_to_dec};
use huelog::parse::parse_row;
use huelog::sched::{reading_message, should_sample, wait_message};
use huelog::schema::{encode_row, header_line, row_well_formed};
use huelog::sink::Sink;
use huelog::solar::{daylight_state, SolarOutcome};

fn sample_weather() -> WeatherSnapshot {
    WeatherSnapshot {
        feels_like: "1.5".to_string(),
        humidity: "40".to_string(),
        pressure: "1013".to_string(),
        temp: "2.0".to_string(),
        temp_max: "3.5".to_string(),
        temp_min: "-1.5".to_string(),
        visibility: 10000,
        weather_id: Some(800),
        clouds_all: None,
        wind: Some(Wind { deg: Some(180), speed: Some("5.1".to_string()) }),
        rain: None,
        snow: Some(Precip { one_h: None, three_h: Some(3) }),
    }
}

fn sample_light() -> LightReading {
    LightReading {
        id: 4,
        name: "Desk lamp".to_string(),
        modelid: "LCT001".to_string(),
        swversion: "1.0".to_string(),
        uniqueid: "00:11".to_string(),
        state: LightState {
            on: true,
            bri: 254,
            hue: 8402,
            sat: 140,
            ct: Some(366),
            xy: Some(("0.4573".to_string(), "0.41".to_string())),
        },
    }
}

fn sample_row() -> FusedRow {
    fuse_one(
        sample_light(),
        &sample_weather(),
        true,
        "2021-01-02T03:04:05+00:00".to_string(),
    )
}

const SAMPLE_LINE: &str = "2021-01-02T03:04:05+00:00,1.5,40,1013,2.0,3.5,-1.5,10000,800,NA,180,5.1,NA,NA,NA,3,Desk lamp,LCT001,1.0,00:11,true,254,8402,140,366,0.4573,0.41,4,true";

#[test]
fn tick_zero_samples_immediately() {
    assert!(should_sample(0, 60));
    assert!(!should_sample(30, 60));
    assert!(should_sample(60, 60));
    assert!(!should_sample(61, 60));
    assert!(should_sample(120, 60));
}

#[test]
fn every_tick_samples_at_interval_one() {
    for t in 0..5u64 {
        assert!(should_sample(t, 1));
    }
}

#[test]
fn fuse_tick_one_row_per_light() {
    let weather = sample_weather();
    let mut second = sample_light();
    second.id = 7;
    second.name = "Hall".to_string();
    let lights = vec![sample_light(), second];
    let stamps = vec!["t0".to_string(), "t1".to_string()];
    let rows = fuse_tick(&lights, &weather, false, &stamps);
    assert_eq!(rows.len(), 2);
    assert_eq!(rows[0].light.id, 4);
    assert_eq!(rows[1].light.id, 7);
    assert_eq!(rows[0].timestamp, "t0");
    assert_eq!(rows[1].timestamp, "t1");
    assert_eq!(rows[0].weather, rows[1].weather);
    assert_eq!(rows[0].daylight, rows[1].daylight);
    assert!(!rows[0].daylight);
}

#[test]
fn zero_lights_zero_rows() {
    let weather = sample_weather();
    let rows = fuse_tick(&Vec::new(), &weather, true, &Vec::new());
    assert_eq!(rows.len(), 0);
}

#[test]
fn encode_row_exact_text() {
    let row = sample_row();
    assert_eq!(encode_row(&row), SAMPLE_LINE);
}

#[test]
fn reserialize_is_byte_identical() {
    let row = sample_row();
    let once = encode_row(&row);
    let twice = encode_row(&row.duplicate());
    assert_eq!(once.into_bytes(), twice.into_bytes());
}

#[test]
fn row_round_trip() {
    let row = sample_row();
    let line = encode_row(&row);
    let back = parse_row(&line).expect("an emitted row parses");
    assert_eq!(back, row);
}

#[test]
fn round_trip_keeps_absence_exactly() {
    let mut weather = sample_weather();
    weather.wind = Some(Wind { deg: None, speed: Some("0.5".to_string()) });
    weather.weather_id = None;
    weather.snow = None;
    let mut light = sample_light();
    light.state.ct = None;
    light.state.xy = None;
    let row = fuse_one(light, &weather, false, "ts".to_string());
    let back = parse_row(&encode_row(&row)).expect("an emitted row parses");
    assert_eq!(back.weather.weather_id, None);
    assert_eq!(back.weather.wind, Some(Wind { deg: None, speed: Some("0.5".to_string()) }));
    assert_eq!(back.weather.snow, None);
    assert_eq!(back.light.state.ct, None);
    assert_eq!(back.light.state.xy, None);
    assert_eq!(back, row);
}

#[test]
fn absent_wind_gives_sentinel_in_both_wind_columns() {
    let mut weather = sample_weather();
    weather.wind = None;
    let row = fuse_one(sample_light(), &weather, true, "ts".to_string());
    let line = encode_row(&row);
    let fields: Vec<&str> = line.split(',').collect();
    assert_eq!(fields.len(), 29);
    assert_eq!(fields[10], "NA");
    assert_eq!(fields[11], "NA");
    assert_eq!(fields[8], "800");
    assert_eq!(fields[15], "3");
}

#[test]
fn header_names_in_fixed_order() {
    let header = header_line();
    let names: Vec<&str> = header.split(',').collect();
    assert_eq!(names.len(), 29);
    assert_eq!(names[0], "timestamp");
    assert_eq!(names[1], "weather_main_feels_like");
    assert_eq!(names[10], "weather_wind_deg");
    assert_eq!(names[11], "weather_wind_speed");
    assert_eq!(names[27], "id");
    assert_eq!(names[28], "daylight");
}

#[test]
fn fresh_destination_gets_one_header_line() {
    let mut sink = Sink::open_sink(false, false, 0);
    let first = sink.emit_row(&sample_row());
    let second = sink.emit_row(&sample_row());
    let expected_first = format!("{}\n{}\n", header_line(), SAMPLE_LINE);
    assert_eq!(first, expected_first);
    assert_eq!(second, format!("{}\n", SAMPLE_LINE));
}

#[test]
fn empty_destination_gets_one_header_line() {
    let mut sink = Sink::open_sink(false, true, 0);
    let first = sink.emit_row(&sample_row());
    assert!(first.starts_with(&format!("{}\n", header_line())));
}

#[test]
fn nonempty_destination_gets_no_header() {
    let mut sink = Sink::open_sink(false, true, 512);
    let first = sink.emit_row(&sample_row());
    let second = sink.emit_row(&sample_row());
    assert_eq!(first, format!("{}\n", SAMPLE_LINE));
    assert_eq!(second, format!("{}\n", SAMPLE_LINE));
}

#[test]
fn live_stdout_always_gets_a_header() {
    let mut sink = Sink::open_sink(true, true, 512);
    let first = sink.emit_row(&sample_row());
    assert!(first.starts_with(&format!("{}\n", header_line())));
}

#[test]
fn polar_day_is_daylight_at_every_instant() {
    for now in [i64::MIN, -1, 0, 1, 1609556645, i64::MAX] {
        assert!(daylight_state(&SolarOutcome::PolarDay, now));
        assert!(!daylight_state(&SolarOutcome::PolarNight, now));
    }
}

#[test]
fn daylight_window_is_strict() {
    let window = SolarOutcome::Daylight { rise: 100, set: 200 };
    assert!(!daylight_state(&window, 99));
    assert!(!daylight_state(&window, 100));
    assert!(daylight_state(&window, 101));
    assert!(daylight_state(&window, 150));
    assert!(daylight_state(&window, 199));
    assert!(!daylight_state(&window, 200));
    assert!(!daylight_state(&window, 201));
}

#[test]
fn decimal_text_of_naturals() {
    assert_eq!(u64_to_dec(0), "0");
    assert_eq!(u64_to_dec(7), "7");
    assert_eq!(u64_to_dec(254), "254");
    assert_eq!(u64_to_dec(u64::MAX), "18446744073709551615");
}

#[test]
fn decimal_text_of_integers() {
    assert_eq!(i64_to_dec(0), "0");
    assert_eq!(i64_to_dec(-42), "-42");
    assert_eq!(i64_to_dec(i64::MAX), "9223372036854775807");
    assert_eq!(i64_to_dec(i64::MIN), "-9223372036854775808");
}

#[test]
fn decimal_parsing_accepts_what_it_emitted() {
    for n in [0u64, 9, 10, 254, 65535, u64::MAX] {
        assert_eq!(dec_to_u64(&u64_to_dec(n)), Some(n));
    }
    for n in [0i64, -1, 180, i64::MIN, i64::MAX] {
        assert_eq!(dec_to_i64(&i64_to_dec(n)), Some(n));
    }
}

#[test]
fn decimal_parsing_rejects_malformed_text() {
    assert_eq!(dec_to_u64(""), None);
    assert_eq!(dec_to_u64("x12"), None);
    assert_eq!(dec_to_u64("12 "), None);
    assert_eq!(dec_to_u64("18446744073709551616"), None);
    assert_eq!(dec_to_u64("99999999999999999999999"), None);
    assert_eq!(dec_to_i64("-"), None);
    assert_eq!(dec_to_i64("--1"), None);
    assert_eq!(dec_to_i64("9223372036854775808"), None);
    assert_eq!(dec_to_i64("-9223372036854775809"), None);
}

#[test]
fn parse_rejects_wrong_shape() {
    assert_eq!(parse_row("a,b,c"), None);
    assert_eq!(parse_row(""), None);
    let mut bad = String::from(SAMPLE_LINE);
    bad = bad.replace(",10000,", ",10x00,");
    assert_eq!(parse_row(&bad), None);
}

#[test]
fn well_formed_rows_are_recognized() {
    assert!(row_well_formed(&sample_row()));

    let mut named = sample_row();
    named.light.name = "Desk, lamp".to_string();
    assert!(row_well_formed(&named));

    let mut empty_wind = sample_row();
    empty_wind.weather.wind = Some(Wind { deg: None, speed: None });
    assert!(!row_well_formed(&empty_wind));

    let mut sentinel_speed = sample_row();
    sentinel_speed.weather.wind = Some(Wind { deg: None, speed: Some("NA".to_string()) });
    assert!(!row_well_formed(&sentinel_speed));
}

#[test]
fn quoted_name_still_serializes_as_csv() {
    let mut row = sample_row();
    row.light.name = "Desk, \"old\" lamp".to_string();
    let line = encode_row(&row);
    assert!(line.contains("\"Desk, \"\"old\"\" lamp\""));
}

#[test]
fn quoted_fields_round_trip_too() {
    let mut row = sample_row();
    row.light.name = "Desk, \"old\" lamp".to_string();
    row.timestamp = "odd\ntimestamp".to_string();
    let back = parse_row(&encode_row(&row)).expect("an emitted row parses");
    assert_eq!(back, row);
}

#[test]
fn status_messages() {
    assert_eq!(wait_message(60), "Sleeping for 60 sec");
    assert_eq!(reading_message("Desk lamp", 4), "Reading light Desk lamp (4)");
}

#[test]
fn error_messages_name_the_kind() {
    assert_eq!(CollectError::Config.message(), "invalid configuration");
    assert_eq!(CollectError::Connectivity.message(), "remote source unreachable");
    assert_eq!(CollectError::Io.message(), "cannot write to the destination");
}
