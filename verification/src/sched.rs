//! The tick schedule and the operator-facing status text.
//!
//! The loop runs on discrete one-second ticks; a tick samples exactly when
//! its ordinal is a multiple of the poll interval, so the very first tick
//! (ordinal 0) samples immediately.

use vstd::prelude::*;
use crate::numtext::{dec_rep, u64_to_dec};

verus! {

/// Whether the tick with this ordinal runs a sampling cycle.
pub fn should_sample(tick: u64, interval: u64) -> (b: bool)
    requires
        interval >= 1,
    ensures
        b == (tick % interval == 0),
{
    tick % interval == 0
}

/// The status message shown between sampling cycles.
pub fn wait_message(interval: u64) -> (s: String)
    ensures
        s@ == "Sleeping for "@ + dec_rep(interval as nat) + " sec"@,
{
    let mut s = String::from_str("Sleeping for ");
    let num = u64_to_dec(interval);
    s.append(num.as_str());
    s.append(" sec");
    s
}

/// The status message shown while one light is being read.
pub fn reading_message(name: &str, id: u64) -> (s: String)
    ensures
        s@ == "Reading light "@ + name@ + " ("@ + dec_rep(id as nat) + ")"@,
{
    let mut s = String::from_str("Reading light ");
    s.append(name);
    s.append(" (");
    let num = u64_to_dec(id);
    s.append(num.as_str());
    s.append(")");
    s
}

} // verus!
