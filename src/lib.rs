// Harvests live departure predictions for transit stops and turns each into a
// record ready to be stored.
//
// - `clock`: reads `HH:MM` clock texts.
// - `feed`: the feed's data, its literals and its addresses.
// - `records`: normalizes one passage, or a stop's passages.
// - `schedule`: hands stops out for fetching with a bound on those in flight.
// - `driver`: the run from the stop list to the last write, and its counts.
// - `config`: the connection string of the destination store.
use vstd::prelude::*;

pub mod clock;
pub mod config;
pub mod feed;
pub mod records;
pub mod schedule;
pub mod driver;

verus! {

} // verus!
