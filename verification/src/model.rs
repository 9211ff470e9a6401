//! The data model of one sampling tick.
//!
//! A tick yields one `WeatherSnapshot` and one daylight flag, shared by all
//! lights read in that tick, and one `LightReading` per light; each light
//! becomes one `FusedRow`. Readings are tick-scoped values; nothing here
//! survives a tick except through the rows handed to the sink.
//!
//! Free-form numeric measurements (temperatures, wind speed, chromaticity)
//! arrive as decimal text already rendered by the caller; the library treats
//! them as opaque tokens, so no floating point enters the verified logic.

use vstd::prelude::*;

verus! {

/// Ghost view of a light's state.
#[verifier::ext_equal]
pub struct LightStateV {
    pub on: bool,
    pub bri: u8,
    pub hue: u16,
    pub sat: u8,
    pub ct: Option<u16>,
    pub xy: Option<(Seq<char>, Seq<char>)>,
}

/// The state sub-record of one light: switched on or off, brightness, hue,
/// saturation, and the optional colour-temperature and chromaticity fields
/// that only some fixtures report.
#[derive(Debug, PartialEq, Eq)]
pub struct LightState {
    pub on: bool,
    pub bri: u8,
    pub hue: u16,
    pub sat: u8,
    pub ct: Option<u16>,
    pub xy: Option<(String, String)>,
}

impl View for LightState {
    type V = LightStateV;

    open spec fn view(&self) -> LightStateV {
        LightStateV {
            on: self.on,
            bri: self.bri,
            hue: self.hue,
            sat: self.sat,
            ct: self.ct,
            xy: match self.xy {
                Some(p) => Some((p.0@, p.1@)),
                None => None,
            },
        }
    }
}

impl LightState {
    /// A value-equal copy.
    pub fn duplicate(&self) -> (r: LightState)
        ensures
            r@ == self@,
    {
        LightState {
            on: self.on,
            bri: self.bri,
            hue: self.hue,
            sat: self.sat,
            ct: self.ct,
            xy: match &self.xy {
                Some(p) => Some((p.0.clone(), p.1.clone())),
                None => None,
            },
        }
    }
}

/// Ghost view of one light reading.
#[verifier::ext_equal]
pub struct LightReadingV {
    pub id: u64,
    pub name: Seq<char>,
    pub modelid: Seq<char>,
    pub swversion: Seq<char>,
    pub uniqueid: Seq<char>,
    pub state: LightStateV,
}

/// One light as the hub reports it at a tick.
#[derive(Debug, PartialEq, Eq)]
pub struct LightReading {
    pub id: u64,
    pub name: String,
    pub modelid: String,
    pub swversion: String,
    pub uniqueid: String,
    pub state: LightState,
}

impl View for LightReading {
    type V = LightReadingV;

    open spec fn view(&self) -> LightReadingV {
        LightReadingV {
            id: self.id,
            name: self.name@,
            modelid: self.modelid@,
            swversion: self.swversion@,
            uniqueid: self.uniqueid@,
            state: self.state@,
        }
    }
}

impl LightReading {
    /// A value-equal copy.
    pub fn duplicate(&self) -> (r: LightReading)
        ensures
            r@ == self@,
    {
        LightReading {
            id: self.id,
            name: self.name.clone(),
            modelid: self.modelid.clone(),
            swversion: self.swversion.clone(),
            uniqueid: self.uniqueid.clone(),
            state: self.state.duplicate(),
        }
    }
}

/// Ghost view of the wind sub-record.
#[verifier::ext_equal]
pub struct WindV {
    pub deg: Option<i64>,
    pub speed: Option<Seq<char>>,
}

/// The wind sub-record; direction and speed are independently optional.
#[derive(Debug, PartialEq, Eq)]
pub struct Wind {
    pub deg: Option<i64>,
    pub speed: Option<String>,
}

impl View for Wind {
    type V = WindV;

    open spec fn view(&self) -> WindV {
        WindV {
            deg: self.deg,
            speed: match self.speed {
                Some(s) => Some(s@),
                None => None,
            },
        }
    }
}

impl Wind {
    /// A value-equal copy.
    pub fn duplicate(&self) -> (r: Wind)
        ensures
            r@ == self@,
    {
        Wind {
            deg: self.deg,
            speed: match &self.speed {
                Some(s) => Some(s.clone()),
                None => None,
            },
        }
    }
}

/// A precipitation sub-record: accumulation over the last one and three
/// hours, each independently optional.
#[derive(Debug, PartialEq, Eq, Clone, Copy)]
pub struct Precip {
    pub one_h: Option<i64>,
    pub three_h: Option<i64>,
}

/// Ghost view of the weather snapshot.
#[verifier::ext_equal]
pub struct WeatherV {
    pub feels_like: Seq<char>,
    pub humidity: Seq<char>,
    pub pressure: Seq<char>,
    pub temp: Seq<char>,
    pub temp_max: Seq<char>,
    pub temp_min: Seq<char>,
    pub visibility: i64,
    pub weather_id: Option<i64>,
    pub clouds_all: Option<i64>,
    pub wind: Option<WindV>,
    pub rain: Option<Precip>,
    pub snow: Option<Precip>,
}

/// One weather reading, shared by every light sampled in the same tick.
/// The temperature family, humidity, pressure and visibility are required;
/// the condition id, cloud cover, wind, rain and snow are optional.
#[derive(Debug, PartialEq, Eq)]
pub struct WeatherSnapshot {
    pub feels_like: String,
    pub humidity: String,
    pub pressure: String,
    pub temp: String,
    pub temp_max: String,
    pub temp_min: String,
    pub visibility: i64,
    pub weather_id: Option<i64>,
    pub clouds_all: Option<i64>,
    pub wind: Option<Wind>,
    pub rain: Option<Precip>,
    pub snow: Option<Precip>,
}

impl View for WeatherSnapshot {
    type V = WeatherV;

    open spec fn view(&self) -> WeatherV {
        WeatherV {
            feels_like: self.feels_like@,
            humidity: self.humidity@,
            pressure: self.pressure@,
            temp: self.temp@,
            temp_max: self.temp_max@,
            temp_min: self.temp_min@,
            visibility: self.visibility,
            weather_id: self.weather_id,
            clouds_all: self.clouds_all,
            wind: match self.wind {
                Some(w) => Some(w@),
                None => None,
            },
            rain: self.rain,
            snow: self.snow,
        }
    }
}

impl WeatherSnapshot {
    /// A value-equal copy.
    pub fn duplicate(&self) -> (r: WeatherSnapshot)
        ensures
            r@ == self@,
    {
        WeatherSnapshot {
            feels_like: self.feels_like.clone(),
            humidity: self.humidity.clone(),
            pressure: self.pressure.clone(),
            temp: self.temp.clone(),
            temp_max: self.temp_max.clone(),
            temp_min: self.temp_min.clone(),
            visibility: self.visibility,
            weather_id: self.weather_id,
            clouds_all: self.clouds_all,
            wind: match &self.wind {
                Some(w) => Some(w.duplicate()),
                None => None,
            },
            rain: self.rain,
            snow: self.snow,
        }
    }
}

/// Ghost view of one persisted row.
#[verifier::ext_equal]
pub struct RowV {
    pub timestamp: Seq<char>,
    pub weather: WeatherV,
    pub light: LightReadingV,
    pub daylight: bool,
}

/// One persisted record: one light's reading joined with the tick's shared
/// weather snapshot and daylight flag, under the capture timestamp taken
/// when the light was processed.
#[derive(Debug, PartialEq, Eq)]
pub struct FusedRow {
    pub timestamp: String,
    pub weather: WeatherSnapshot,
    pub light: LightReading,
    pub daylight: bool,
}

impl View for FusedRow {
    type V = RowV;

    open spec fn view(&self) -> RowV {
        RowV {
            timestamp: self.timestamp@,
            weather: self.weather@,
            light: self.light@,
            daylight: self.daylight,
        }
    }
}

impl FusedRow {
    /// A value-equal copy.
    pub fn duplicate(&self) -> (r: FusedRow)
        ensures
            r@ == self@,
    {
        FusedRow {
            timestamp: self.timestamp.clone(),
            weather: self.weather.duplicate(),
            light: self.light.duplicate(),
            daylight: self.daylight,
        }
    }
}

} // verus!
