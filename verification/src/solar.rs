//! The daylight flag of a tick.
//!
//! The solar calculator classifies an instant at a coordinate as polar day,
//! polar night, or an ordinary day with a sunrise and a sunset instant.
//! The tick's daylight flag is true in polar day, false in polar night, and
//! otherwise true exactly on the instants strictly between sunrise and
//! sunset: the two boundary instants themselves do not count as daylight.

use vstd::prelude::*;

verus! {

/// What the solar calculator reports for an instant at a coordinate.
/// Instants are seconds of the Unix epoch.
#[derive(Debug, Clone, Copy, PartialEq, Eq)]
pub enum SolarOutcome {
    PolarNight,
    PolarDay,
    Daylight { rise: i64, set: i64 },
}

/// The daylight flag for an outcome at an instant.
pub open spec fn daylight_spec(o: SolarOutcome, now: i64) -> bool {
    match o {
        SolarOutcome::PolarNight => false,
        SolarOutcome::PolarDay => true,
        SolarOutcome::Daylight { rise, set } => rise < now && now < set,
    }
}

/// Decides the tick's daylight flag.
pub fn daylight_state(o: &SolarOutcome, now: i64) -> (b: bool)
    ensures
        b == daylight_spec(*o, now),
{
    match o {
        SolarOutcome::PolarNight => false,
        SolarOutcome::PolarDay => true,
        SolarOutcome::Daylight { rise, set } => *rise < now && now < *set,
    }
}

/// In polar day the daylight flag is true at every instant.
pub proof fn lemma_polar_day(now: i64)
    ensures
        daylight_spec(SolarOutcome::PolarDay, now),
{
}

/// In polar night the daylight flag is false at every instant.
pub proof fn lemma_polar_night(now: i64)
    ensures
        !daylight_spec(SolarOutcome::PolarNight, now),
{
}

} // verus!
