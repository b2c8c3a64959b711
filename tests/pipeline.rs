use mpk_hate::clock::TimeOfDay;
use mpk_hate::driver::{build_batch, FetchError, PersistenceError, RunDriver, RunOutcome, RunState};
use mpk_hate::feed::{StopInfoStatus, StopInfoTrips};
use mpk_hate::records::{build_record, build_records, BuildError};
use mpk_hate::schedule::FetchScheduler;

fn trip(id: &str, planned: &str, actual: Option<&str>, status: StopInfoStatus) -> StopInfoTrips {
    StopInfoTrips {
        actual_relative_time: -30,
        actual_time: actual.map(|a| a.to_string()),
        direction: "Nowy Bieżanów".to_string(),
        mixed_time: "3 %UNIT_MIN%".to_string(),
        passageid: "-1152921504264998915".to_string(),
        pattern_text: "50".to_string(),
        planned_time: planned.to_string(),
        route_id: "8095257447305838642".to_string(),
        status,
        trip_id: id.to_string(),
        vehicle_id: "-1187828697915982226".to_string(),
    }
}

fn stops(ids: &[&str]) -> Vec<String> {
    ids.iter().map(|s| s.to_string()).collect()
}

#[test]
fn record_without_actual_time_builds() {
    let t = trip("t1", "10:00", None, StopInfoStatus::Predicted);
    let rec = build_record(&t, 1_700_000_000).unwrap();
    assert_eq!(rec.actual_time, None);
    assert_eq!(rec.planned_time, TimeOfDay { hour: 10, minute: 0 });
    assert_eq!(rec.trip_id, "t1");
    assert_eq!(rec.captured_at, 1_700_000_000);
    assert_eq!(rec.actual_relative_time, -30);
    assert_eq!(rec.passage_id, "-1152921504264998915");
    assert_eq!(rec.vehicle_id, "-1187828697915982226");
    assert_eq!(rec.direction, "Nowy Bieżanów");
    assert_eq!(rec.mixed_time, "3 %UNIT_MIN%");
    assert_eq!(rec.status, StopInfoStatus::Predicted);
}

#[test]
fn record_with_actual_time_builds() {
    let t = trip("t2", "10:00", Some("10:03"), StopInfoStatus::Stopping);
    let rec = build_record(&t, 5).unwrap();
    assert_eq!(rec.actual_time, Some(TimeOfDay { hour: 10, minute: 3 }));
}

#[test]
fn record_errors() {
    let bad_actual = trip("t3", "10:00", Some("bad"), StopInfoStatus::Predicted);
    assert!(matches!(build_record(&bad_actual, 0), Err(BuildError::MalformedActualTime)));
    let bad_planned = trip("t4", "9:00", None, StopInfoStatus::Predicted);
    assert!(matches!(build_record(&bad_planned, 0), Err(BuildError::MalformedPlannedTime)));
    let both_bad = trip("t5", "x", Some("y"), StopInfoStatus::Predicted);
    assert!(matches!(build_record(&both_bad, 0), Err(BuildError::MalformedActualTime)));
}

#[test]
fn bad_actual_time_is_isolated_in_batch() {
    let trips = vec![
        trip("a", "10:00", None, StopInfoStatus::Predicted),
        trip("b", "10:05", Some("bad"), StopInfoStatus::Predicted),
        trip("c", "10:10", Some("10:11"), StopInfoStatus::Departed),
    ];
    let results = build_records(&trips, 7);
    assert_eq!(results.len(), 3);
    assert!(results[0].is_ok());
    assert!(matches!(results[1], Err(BuildError::MalformedActualTime)));
    assert!(results[2].is_ok());
    let (records, failed) = build_batch(&trips, 7);
    assert_eq!(failed, 1);
    assert_eq!(records.len(), 2);
    assert_eq!(records[0].trip_id, "a");
    assert_eq!(records[1].trip_id, "c");
}

#[test]
fn empty_batch_is_no_error() {
    let (records, failed) = build_batch(&Vec::new(), 7);
    assert!(records.is_empty());
    assert_eq!(failed, 0);
}

#[test]
fn scheduler_limits_in_flight_and_covers_every_stop() {
    let mut s = FetchScheduler::new(stops(&["1", "2", "3", "4", "5"]), 2);
    assert_eq!(s.next_launch(), Some(0));
    assert_eq!(s.next_launch(), Some(1));
    assert_eq!(s.next_launch(), None);
    assert_eq!(s.in_flight(), 2);
    s.complete(1);
    assert!(!s.is_in_flight(1));
    assert_eq!(s.next_launch(), Some(2));
    assert_eq!(s.next_launch(), None);
    s.complete(0);
    s.complete(2);
    assert_eq!(s.next_launch(), Some(3));
    assert_eq!(s.next_launch(), Some(4));
    assert_eq!(s.next_launch(), None);
    assert!(!s.is_exhausted());
    s.complete(4);
    s.complete(3);
    assert!(s.is_exhausted());
    assert_eq!(s.in_flight(), 0);
    assert_eq!(s.len(), 5);
    assert_eq!(s.stop(3), "4");
}

fn run_outcome(
    stops_attempted: u64,
    stop_fetch_failures: u64,
    records_built: u64,
    build_failures: u64,
    records_persisted: u64,
    persistence_failures: u64,
) -> RunOutcome {
    RunOutcome {
        stops_attempted,
        stop_fetch_failures,
        records_built,
        build_failures,
        records_persisted,
        persistence_failures,
    }
}

#[test]
fn run_one_record_one_failed_stop() {
    let mut d = RunDriver::new(10);
    assert_eq!(d.current_state(), RunState::Idle);
    d.start();
    assert_eq!(d.current_state(), RunState::ListingStops);
    d.stops_listed(Ok(stops(&["A", "B"])));
    assert_eq!(d.current_state(), RunState::Fetching);
    assert_eq!(d.next_fetch(), Some((0, "A".to_string())));
    assert_eq!(d.next_fetch(), Some((1, "B".to_string())));
    assert_eq!(d.next_fetch(), None);
    let none = d.fetch_finished(1, Err(FetchError), 100);
    assert!(none.is_empty());
    assert_eq!(d.current_state(), RunState::Fetching);
    let records = d.fetch_finished(
        0,
        Ok(vec![trip("t", "10:00", None, StopInfoStatus::Predicted)]),
        100,
    );
    assert_eq!(records.len(), 1);
    assert_eq!(d.current_state(), RunState::Draining);
    assert_eq!(d.writes_pending(), 1);
    d.write_finished(Ok(()));
    assert_eq!(d.current_state(), RunState::Done);
    assert_eq!(d.report(), run_outcome(2, 1, 1, 0, 1, 0));
}

#[test]
fn run_fails_when_stop_list_fails() {
    let mut d = RunDriver::new(10);
    d.start();
    d.stops_listed(Err(FetchError));
    assert_eq!(d.current_state(), RunState::Failed);
    assert_eq!(d.next_fetch(), None);
    assert_eq!(d.report(), run_outcome(0, 0, 0, 0, 0, 0));
}

#[test]
fn run_with_no_stops_is_done() {
    let mut d = RunDriver::new(3);
    d.start();
    d.stops_listed(Ok(Vec::new()));
    assert_eq!(d.current_state(), RunState::Done);
    assert_eq!(d.next_fetch(), None);
}

#[test]
fn run_counts_build_and_write_failures() {
    let mut d = RunDriver::new(1);
    d.start();
    d.stops_listed(Ok(stops(&["A", "B", "C"])));
    assert_eq!(d.next_fetch(), Some((0, "A".to_string())));
    assert_eq!(d.next_fetch(), None);
    assert!(d.is_fetching(0));
    assert!(!d.is_fetching(1));
    let recs = d.fetch_finished(
        0,
        Ok(vec![
            trip("a1", "10:00", Some("bad"), StopInfoStatus::Predicted),
            trip("a2", "10:01", None, StopInfoStatus::Departed),
            trip("a3", "10:02", Some("10:02"), StopInfoStatus::Stopping),
        ]),
        1,
    );
    assert_eq!(recs.len(), 2);
    d.write_finished(Err(PersistenceError::Transient));
    assert_eq!(d.next_fetch(), Some((1, "B".to_string())));
    let _ = d.fetch_finished(1, Err(FetchError), 2);
    assert_eq!(d.next_fetch(), Some((2, "C".to_string())));
    let recs = d.fetch_finished(2, Ok(Vec::new()), 3);
    assert!(recs.is_empty());
    assert_eq!(d.current_state(), RunState::Draining);
    d.write_finished(Err(PersistenceError::Rejected));
    assert_eq!(d.current_state(), RunState::Done);
    assert_eq!(d.report(), run_outcome(3, 1, 2, 1, 0, 2));
}

#[test]
fn every_stop_fails_run_still_done() {
    let mut d = RunDriver::new(2);
    d.start();
    d.stops_listed(Ok(stops(&["A", "B", "C"])));
    let mut finished = 0;
    while finished < 3 {
        while let Some((i, _)) = d.next_fetch() {
            let _ = d.fetch_finished(i, Err(FetchError), 0);
            finished += 1;
        }
    }
    assert_eq!(d.current_state(), RunState::Done);
    assert_eq!(d.report(), run_outcome(3, 3, 0, 0, 0, 0));
}

#[test]
fn rerun_builds_the_same_rows_again() {
    let trips = vec![
        trip("a", "10:00", None, StopInfoStatus::Predicted),
        trip("b", "10:05", Some("10:06"), StopInfoStatus::Stopping),
    ];
    let (first, _) = build_batch(&trips, 10);
    let (second, _) = build_batch(&trips, 20);
    assert_eq!(first.len(), second.len());
    for (a, b) in first.iter().zip(second.iter()) {
        assert_eq!(a.trip_id, b.trip_id);
        assert_eq!(a.planned_time, b.planned_time);
        assert_eq!(a.actual_time, b.actual_time);
        assert_ne!(a.captured_at, b.captured_at);
    }
}
