use vstd::prelude::*;
use crate::clock::{TimeOfDay, parse_clock_time, is_clock_text, clock_of};
use crate::feed::{StopInfoTrips, StopInfoStatus};

verus! {

/// One passage ready to be stored: the feed's fields, the clock texts read as
/// times of day, and the moment it was captured.
#[derive(Clone, Debug)]
pub struct NormalizedTrip {
    pub trip_id: String,
    /// Unix time, in seconds, at which the passage was processed.
    pub captured_at: i64,
    pub actual_relative_time: i32,
    pub actual_time: Option<TimeOfDay>,
    pub direction: String,
    pub mixed_time: String,
    pub passage_id: String,
    pub pattern_text: String,
    pub planned_time: TimeOfDay,
    pub route_id: String,
    pub status: StopInfoStatus,
    pub vehicle_id: String,
}

/// Why one passage could not be normalized.
#[derive(Clone, Copy, Debug, PartialEq, Eq, Structural)]
pub enum BuildError {
    /// The actual time is present and is not `HH:MM`.
    MalformedActualTime,
    /// The planned time is not `HH:MM`.
    MalformedPlannedTime,
}

/// The error that normalizing `t` meets first, if any.
pub open spec fn build_error(t: StopInfoTrips) -> Option<BuildError> {
    if t.actual_time matches Some(a) && !is_clock_text(a@) {
        Some(BuildError::MalformedActualTime)
    } else if !is_clock_text(t.planned_time@) {
        Some(BuildError::MalformedPlannedTime)
    } else {
        None
    }
}

/// `rec` is passage `t` normalized at time `captured_at`.
pub open spec fn is_record_of(rec: NormalizedTrip, t: StopInfoTrips, captured_at: i64) -> bool {
    &&& rec.trip_id@ == t.trip_id@
    &&& rec.captured_at == captured_at
    &&& rec.actual_relative_time == t.actual_relative_time
    &&& rec.actual_time == (match t.actual_time {
        Some(a) => Some(clock_of(a@)),
        None => None,
    })
    &&& rec.direction@ == t.direction@
    &&& rec.mixed_time@ == t.mixed_time@
    &&& rec.passage_id@ == t.passageid@
    &&& rec.pattern_text@ == t.pattern_text@
    &&& rec.planned_time == clock_of(t.planned_time@)
    &&& rec.route_id@ == t.route_id@
    &&& rec.status == t.status
    &&& rec.vehicle_id@ == t.vehicle_id@
}

/// `r` is what normalizing `t` at time `captured_at` gives.
pub open spec fn is_built_from(
    r: Result<NormalizedTrip, BuildError>,
    t: StopInfoTrips,
    captured_at: i64,
) -> bool {
    match build_error(t) {
        Some(e) => r == Err::<NormalizedTrip, BuildError>(e),
        None => r matches Ok(rec) && is_record_of(rec, t, captured_at),
    }
}

/// Normalizes one passage: reads its clock texts and copies the other fields.
pub fn build_record(t: &StopInfoTrips, captured_at: i64) -> (r: Result<NormalizedTrip, BuildError>)
    ensures
        is_built_from(r, *t, captured_at),
{
    let actual_time = match &t.actual_time {
        Some(a) => match parse_clock_time(a.as_str()) {
            Ok(time) => Some(time),
            Err(_) => {
                return Err(BuildError::MalformedActualTime);
            },
        },
        None => None,
    };
    let planned_time = match parse_clock_time(t.planned_time.as_str()) {
        Ok(time) => time,
        Err(_) => {
            return Err(BuildError::MalformedPlannedTime);
        },
    };
    Ok(
        NormalizedTrip {
            trip_id: t.trip_id.clone(),
            captured_at,
            actual_relative_time: t.actual_relative_time,
            actual_time,
            direction: t.direction.clone(),
            mixed_time: t.mixed_time.clone(),
            passage_id: t.passageid.clone(),
            pattern_text: t.pattern_text.clone(),
            planned_time,
            route_id: t.route_id.clone(),
            status: t.status,
            vehicle_id: t.vehicle_id.clone(),
        },
    )
}

/// Normalizes a stop's passages, one result for each, in the order given.
/// A passage that fails leaves the others as they are.
pub fn build_records(trips: &Vec<StopInfoTrips>, captured_at: i64) -> (r: Vec<
    Result<NormalizedTrip, BuildError>,
>)
    ensures
        r@.len() == trips@.len(),
        forall|i: int| 0 <= i < trips@.len() ==> is_built_from(#[trigger] r@[i], trips@[i], captured_at),
{
    let mut r: Vec<Result<NormalizedTrip, BuildError>> = Vec::new();
    let mut i: usize = 0;
    while i < trips.len()
        invariant
            i <= trips@.len(),
            r@.len() == i,
            forall|k: int| 0 <= k < i ==> is_built_from(#[trigger] r@[k], trips@[k], captured_at),
        decreases trips@.len() - i,
    {
        r.push(build_record(&trips[i], captured_at));
        i = i + 1;
    }
    r
}

} // verus!
