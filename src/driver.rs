use vstd::prelude::*;
use crate::feed::StopInfoTrips;
use crate::records::{NormalizedTrip, BuildError, build_record, build_error, is_record_of};
use crate::schedule::{FetchScheduler, Slot};

verus! {

/// The stages of one run.
#[derive(Clone, Copy, Debug, PartialEq, Eq, Structural)]
pub enum RunState {
    Idle,
    ListingStops,
    Fetching,
    Draining,
    Done,
    Failed,
}

/// A fetch that failed: the stop list, or one stop's passages.
#[derive(Clone, Copy, Debug, PartialEq, Eq, Structural)]
pub struct FetchError;

/// Why the store did not take a record.
#[derive(Clone, Copy, Debug, PartialEq, Eq, Structural)]
pub enum PersistenceError {
    /// Connection lost or timed out; another attempt might succeed.
    Transient,
    /// The store refused the record; sending it again would not help.
    Rejected,
}

/// What a run did, stage by stage. Each counter stops at its largest value.
#[derive(Clone, Copy, Debug, PartialEq, Eq, Structural)]
pub struct RunOutcome {
    pub stops_attempted: u64,
    pub stop_fetch_failures: u64,
    pub records_built: u64,
    pub build_failures: u64,
    pub records_persisted: u64,
    pub persistence_failures: u64,
}

/// `a + k`, or the largest `u64` where that does not fit.
pub open spec fn sat_add(a: u64, k: nat) -> u64 {
    if a + k > u64::MAX {
        u64::MAX
    } else {
        (a + k) as u64
    }
}

fn add_capped(a: u64, k: usize) -> (r: u64)
    ensures
        r == sat_add(a, k as nat),
{
    a.saturating_add(k as u64)
}

/// The indices of the passages of `trips` that normalize without error, in order.
pub open spec fn buildable(trips: Seq<StopInfoTrips>) -> Seq<int>
    decreases trips.len(),
{
    if trips.len() == 0 {
        Seq::empty()
    } else if build_error(trips.last()) is None {
        buildable(trips.drop_last()).push(trips.len() - 1)
    } else {
        buildable(trips.drop_last())
    }
}

pub proof fn lemma_buildable_bounds(trips: Seq<StopInfoTrips>)
    ensures
        buildable(trips).len() <= trips.len(),
        forall|k: int|
            0 <= k < buildable(trips).len() ==> 0 <= #[trigger] buildable(trips)[k] < trips.len(),
    decreases trips.len(),
{
    if trips.len() > 0 {
        lemma_buildable_bounds(trips.drop_last());
    }
}

/// `records` are, in order, the passages of `trips` that normalize, each
/// normalized at time `captured_at`.
pub open spec fn is_batch_of(records: Seq<NormalizedTrip>, trips: Seq<StopInfoTrips>, captured_at: i64) -> bool {
    &&& records.len() == buildable(trips).len()
    &&& forall|k: int|
        0 <= k < records.len() ==> is_record_of(
            #[trigger] records[k],
            trips[buildable(trips)[k]],
            captured_at,
        )
}

/// Normalizes a stop's passages and keeps those that succeed, in order, with
/// the number of those that failed.
pub fn build_batch(trips: &Vec<StopInfoTrips>, captured_at: i64) -> (r: (Vec<NormalizedTrip>, usize))
    ensures
        is_batch_of(r.0@, trips@, captured_at),
        r.1 == trips@.len() - buildable(trips@).len(),
{
    let mut records: Vec<NormalizedTrip> = Vec::new();
    let mut failed: usize = 0;
    let mut i: usize = 0;
    while i < trips.len()
        invariant
            i <= trips@.len(),
            is_batch_of(records@, trips@.take(i as int), captured_at),
            failed == i - buildable(trips@.take(i as int)).len(),
        decreases trips@.len() - i,
    {
        let ghost prefix = trips@.take(i as int);
        let ghost next = trips@.take(i + 1);
        proof {
            assert(next.drop_last() =~= prefix);
            lemma_buildable_bounds(prefix);
        }
        match build_record(&trips[i], captured_at) {
            Ok(rec) => {
                records.push(rec);
            },
            Err(_) => {
                failed = failed + 1;
            },
        }
        assert forall|k: int| 0 <= k < records@.len() implies is_record_of(
            #[trigger] records@[k],
            next[buildable(next)[k]],
            captured_at,
        ) by {
            if k < buildable(prefix).len() {
                assert(buildable(next)[k] == buildable(prefix)[k]);
                assert(next[buildable(prefix)[k]] == prefix[buildable(prefix)[k]]);
            }
        }
        i = i + 1;
    }
    assert(trips@.take(trips@.len() as int) =~= trips@);
    (records, failed)
}

/// Drives one run: lists the stops, hands them out for fetching, normalizes
/// what comes back, and counts what was stored, until every stop and every
/// write has finished.
pub struct RunDriver {
    state: RunState,
    outcome: RunOutcome,
    scheduler: FetchScheduler,
    limit: usize,
    pending_writes: usize,
}

impl RunDriver {
    pub closed spec fn state(&self) -> RunState {
        self.state
    }

    pub closed spec fn outcome(&self) -> RunOutcome {
        self.outcome
    }

    /// The stops of the run and where each stands.
    pub closed spec fn scheduler(&self) -> FetchScheduler {
        self.scheduler
    }

    /// The most fetches that may be in flight at once.
    pub closed spec fn limit(&self) -> nat {
        self.limit as nat
    }

    /// Records handed out to be written whose write has not finished.
    pub closed spec fn pending_writes(&self) -> nat {
        self.pending_writes as nat
    }

    pub closed spec fn wf(&self) -> bool {
        &&& self.scheduler.wf()
        &&& self.limit > 0
        &&& self.scheduler.limit() == self.limit
        &&& (self.state == RunState::Idle || self.state == RunState::ListingStops
            || self.state == RunState::Failed) ==> self.scheduler.stops().len() == 0
            && self.pending_writes == 0
        &&& self.state == RunState::Fetching ==> !self.scheduler.exhausted()
        &&& self.state == RunState::Draining ==> self.scheduler.exhausted() && self.pending_writes
            > 0
        &&& self.state == RunState::Done ==> self.scheduler.exhausted() && self.pending_writes == 0
    }

    /// A run that has not started, which will let at most `limit` fetches be in
    /// flight at once.
    pub fn new(limit: usize) -> (r: RunDriver)
        requires
            limit > 0,
        ensures
            r.wf(),
            r.state() == RunState::Idle,
            r.limit() == limit,
            r.outcome() == (RunOutcome {
                stops_attempted: 0,
                stop_fetch_failures: 0,
                records_built: 0,
                build_failures: 0,
                records_persisted: 0,
                persistence_failures: 0,
            }),
    {
        RunDriver {
            state: RunState::Idle,
            outcome: RunOutcome {
                stops_attempted: 0,
                stop_fetch_failures: 0,
                records_built: 0,
                build_failures: 0,
                records_persisted: 0,
                persistence_failures: 0,
            },
            scheduler: FetchScheduler::new(Vec::new(), limit),
            limit,
            pending_writes: 0,
        }
    }

    /// Starts the run: the stop list is to be fetched, once.
    pub fn start(&mut self)
        requires
            old(self).wf(),
            old(self).state() == RunState::Idle,
        ensures
            final(self).wf(),
            final(self).state() == RunState::ListingStops,
            final(self).outcome() == old(self).outcome(),
            final(self).limit() == old(self).limit(),
    {
        self.state = RunState::ListingStops;
    }

    /// Takes the stop list, or the failure to fetch it, which ends the run.
    pub fn stops_listed(&mut self, listed: Result<Vec<String>, FetchError>)
        requires
            old(self).wf(),
            old(self).state() == RunState::ListingStops,
        ensures
            final(self).wf(),
            final(self).outcome() == old(self).outcome(),
            final(self).limit() == old(self).limit(),
            final(self).pending_writes() == 0,
            match listed {
                Err(_) => final(self).state() == RunState::Failed,
                Ok(stops) => {
                    &&& final(self).scheduler().stops() == stops@
                    &&& final(self).scheduler().launched() == 0
                    &&& final(self).scheduler().completed() == Seq::<int>::empty()
                    &&& final(self).state() == if stops@.len() == 0 {
                        RunState::Done
                    } else {
                        RunState::Fetching
                    }
                },
            },
    {
        match listed {
            Err(_) => {
                self.state = RunState::Failed;
            },
            Ok(stops) => {
                let empty = stops.len() == 0;
                self.scheduler = FetchScheduler::new(stops, self.limit);
                if empty {
                    self.state = RunState::Done;
                } else {
                    assert(self.scheduler.slots()[0] == Slot::Pending);
                    self.state = RunState::Fetching;
                }
            },
        }
    }

    /// The next stop to fetch, by index and identifier, while the run is
    /// fetching, a stop is left and fewer than `limit` fetches are in flight.
    pub fn next_fetch(&mut self) -> (r: Option<(usize, String)>)
        requires
            old(self).wf(),
        ensures
            final(self).wf(),
            final(self).state() == old(self).state(),
            final(self).outcome() == old(self).outcome(),
            final(self).limit() == old(self).limit(),
            final(self).pending_writes() == old(self).pending_writes(),
            final(self).scheduler().stops() == old(self).scheduler().stops(),
            final(self).scheduler().completed() == old(self).scheduler().completed(),
            r is Some <==> old(self).state() == RunState::Fetching
                && old(self).scheduler().in_flight_count() < old(self).limit()
                && old(self).scheduler().launched() < old(self).scheduler().stops().len(),
            r matches Some(p) ==> p.0 == old(self).scheduler().launched() && p.1@ == old(
                self,
            ).scheduler().stops()[p.0 as int]@ && final(self).scheduler().slots() == old(
                self,
            ).scheduler().slots().update(p.0 as int, Slot::InFlight),
            r is None ==> final(self).scheduler().slots() == old(self).scheduler().slots()
                && final(self).scheduler().launched() == old(self).scheduler().launched(),
    {
        if self.state != RunState::Fetching {
            return None;
        }
        let ghost before = self.scheduler.slots();
        proof {
            self.scheduler.lemma_shape();
        }
        match self.scheduler.next_launch() {
            Some(i) => {
                assert(self.scheduler.slots()[i as int] == Slot::InFlight);
                let id = self.scheduler.stop(i).clone();
                Some((i, id))
            },
            None => None,
        }
    }

    /// Whether stop `i`'s fetch is in flight in this run.
    pub fn is_fetching(&self, i: usize) -> (r: bool)
        requires
            self.wf(),
        ensures
            r == (self.state() == RunState::Fetching && i < self.scheduler().slots().len()
                && self.scheduler().slots()[i as int] == Slot::InFlight),
    {
        self.state == RunState::Fetching && self.scheduler.is_in_flight(i)
    }

    fn settle(&mut self)
        requires
            old(self).scheduler.wf(),
            old(self).limit > 0,
            old(self).scheduler.limit() == old(self).limit,
            old(self).state == RunState::Fetching || old(self).state == RunState::Draining,
            old(self).state == RunState::Draining ==> old(self).scheduler.exhausted(),
        ensures
            final(self).wf(),
            final(self).outcome == old(self).outcome,
            final(self).scheduler == old(self).scheduler,
            final(self).limit == old(self).limit,
            final(self).pending_writes == old(self).pending_writes,
            final(self).state == if !old(self).scheduler.exhausted() {
                RunState::Fetching
            } else if old(self).pending_writes > 0 {
                RunState::Draining
            } else {
                RunState::Done
            },
    {
        if !self.scheduler.is_exhausted() {
            self.state = RunState::Fetching;
        } else if self.pending_writes > 0 {
            self.state = RunState::Draining;
        } else {
            self.state = RunState::Done;
        }
    }

    /// Takes what the fetch of stop `i` returned, captured at `captured_at`,
    /// and hands back the records to write: the passages that normalize, in
    /// the order the feed gave them. A failed fetch yields no record and
    /// touches nothing but its own stop and the failure count.
    pub fn fetch_finished(
        &mut self,
        i: usize,
        fetched: Result<Vec<StopInfoTrips>, FetchError>,
        captured_at: i64,
    ) -> (records: Vec<NormalizedTrip>)
        requires
            old(self).wf(),
            old(self).state() == RunState::Fetching,
            i < old(self).scheduler().slots().len(),
            old(self).scheduler().slots()[i as int] == Slot::InFlight,
            fetched matches Ok(trips) ==> old(self).pending_writes() + trips@.len() <= usize::MAX,
        ensures
            final(self).wf(),
            final(self).limit() == old(self).limit(),
            final(self).scheduler().stops() == old(self).scheduler().stops(),
            final(self).scheduler().launched() == old(self).scheduler().launched(),
            final(self).scheduler().slots() == old(self).scheduler().slots().update(
                i as int,
                Slot::Done,
            ),
            final(self).scheduler().completed() == old(self).scheduler().completed().push(i as int),
            final(self).pending_writes() == old(self).pending_writes() + records@.len(),
            final(self).state() == if !final(self).scheduler().exhausted() {
                RunState::Fetching
            } else if final(self).pending_writes() > 0 {
                RunState::Draining
            } else {
                RunState::Done
            },
            final(self).outcome().stops_attempted == sat_add(old(self).outcome().stops_attempted, 1),
            final(self).outcome().records_persisted == old(self).outcome().records_persisted,
            final(self).outcome().persistence_failures == old(self).outcome().persistence_failures,
            match fetched {
                Err(_) => {
                    &&& records@.len() == 0
                    &&& final(self).outcome().stop_fetch_failures == sat_add(
                        old(self).outcome().stop_fetch_failures,
                        1,
                    )
                    &&& final(self).outcome().records_built == old(self).outcome().records_built
                    &&& final(self).outcome().build_failures == old(self).outcome().build_failures
                },
                Ok(trips) => {
                    &&& is_batch_of(records@, trips@, captured_at)
                    &&& final(self).outcome().stop_fetch_failures == old(
                        self,
                    ).outcome().stop_fetch_failures
                    &&& final(self).outcome().records_built == sat_add(
                        old(self).outcome().records_built,
                        buildable(trips@).len(),
                    )
                    &&& final(self).outcome().build_failures == sat_add(
                        old(self).outcome().build_failures,
                        (trips@.len() - buildable(trips@).len()) as nat,
                    )
                },
            },
    {
        self.scheduler.complete(i);
        self.outcome.stops_attempted = add_capped(self.outcome.stops_attempted, 1);
        let ghost pending = self.pending_writes;
        let records = match fetched {
            Err(_) => {
                self.outcome.stop_fetch_failures = add_capped(self.outcome.stop_fetch_failures, 1);
                Vec::new()
            },
            Ok(trips) => {
                let (records, failed) = build_batch(&trips, captured_at);
                proof {
                    lemma_buildable_bounds(trips@);
                }
                self.outcome.records_built = add_capped(self.outcome.records_built, records.len());
                self.outcome.build_failures = add_capped(self.outcome.build_failures, failed);
                records
            },
        };
        self.pending_writes = self.pending_writes + records.len();
        self.settle();
        records
    }

    /// Takes the result of one write. A failed write is counted, not retried.
    pub fn write_finished(&mut self, written: Result<(), PersistenceError>)
        requires
            old(self).wf(),
            old(self).state() == RunState::Fetching || old(self).state() == RunState::Draining,
            old(self).pending_writes() > 0,
        ensures
            final(self).wf(),
            final(self).limit() == old(self).limit(),
            final(self).scheduler() == old(self).scheduler(),
            final(self).pending_writes() == old(self).pending_writes() - 1,
            final(self).state() == if old(self).state() == RunState::Draining
                && final(self).pending_writes() == 0 {
                RunState::Done
            } else {
                old(self).state()
            },
            final(self).outcome().stops_attempted == old(self).outcome().stops_attempted,
            final(self).outcome().stop_fetch_failures == old(self).outcome().stop_fetch_failures,
            final(self).outcome().records_built == old(self).outcome().records_built,
            final(self).outcome().build_failures == old(self).outcome().build_failures,
            match written {
                Ok(_) => final(self).outcome().records_persisted == sat_add(
                    old(self).outcome().records_persisted,
                    1,
                ) && final(self).outcome().persistence_failures == old(
                    self,
                ).outcome().persistence_failures,
                Err(_) => final(self).outcome().persistence_failures == sat_add(
                    old(self).outcome().persistence_failures,
                    1,
                ) && final(self).outcome().records_persisted == old(self).outcome().records_persisted,
            },
    {
        match written {
            Ok(_) => {
                self.outcome.records_persisted = add_capped(self.outcome.records_persisted, 1);
            },
            Err(_) => {
                self.outcome.persistence_failures = add_capped(self.outcome.persistence_failures, 1);
            },
        }
        self.pending_writes = self.pending_writes - 1;
        self.settle();
    }

    /// The stage the run is in.
    pub fn current_state(&self) -> (r: RunState)
        ensures
            r == self.state(),
    {
        self.state
    }

    /// The counts of the run so far.
    pub fn report(&self) -> (r: RunOutcome)
        ensures
            r == self.outcome(),
    {
        self.outcome
    }

    /// The number of records handed out whose write has not finished.
    pub fn writes_pending(&self) -> (r: usize)
        ensures
            r == self.pending_writes(),
    {
        self.pending_writes
    }
}

impl RunDriver {
    /// A run is done only once every stop's fetch has finished, each exactly
    /// once, and no write is left.
    pub proof fn lemma_done_covers_every_stop(&self)
        requires
            self.wf(),
            self.state() == RunState::Done,
        ensures
            self.scheduler().wf(),
            self.scheduler().exhausted(),
            self.pending_writes() == 0,
            self.scheduler().completed().len() == self.scheduler().stops().len(),
            self.scheduler().completed().no_duplicates(),
            forall|i: int|
                0 <= i < self.scheduler().stops().len() ==> self.scheduler().completed().contains(i),
    {
        self.scheduler.lemma_each_stop_once();
    }

    /// Never more than `limit` fetches of a run are in flight.
    pub proof fn lemma_fetches_bounded(&self)
        requires
            self.wf(),
        ensures
            self.scheduler().in_flight_count() <= self.limit(),
    {
        self.scheduler.lemma_in_flight_bounded();
    }
}

/// `a` and `b` hold the same passage: every field but the capture time agrees.
pub open spec fn same_passage(a: NormalizedTrip, b: NormalizedTrip) -> bool {
    &&& a.trip_id@ == b.trip_id@
    &&& a.actual_relative_time == b.actual_relative_time
    &&& a.actual_time == b.actual_time
    &&& a.direction@ == b.direction@
    &&& a.mixed_time@ == b.mixed_time@
    &&& a.passage_id@ == b.passage_id@
    &&& a.pattern_text@ == b.pattern_text@
    &&& a.planned_time == b.planned_time
    &&& a.route_id@ == b.route_id@
    &&& a.status == b.status
    &&& a.vehicle_id@ == b.vehicle_id@
}

/// Runs are not idempotent: two runs over the same passages of a stop hand
/// out the same records again, one for one, differing only in capture time,
/// so writing both stores every passage twice.
pub proof fn lemma_rerun_repeats_records(
    first: Seq<NormalizedTrip>,
    second: Seq<NormalizedTrip>,
    trips: Seq<StopInfoTrips>,
    first_at: i64,
    second_at: i64,
)
    requires
        is_batch_of(first, trips, first_at),
        is_batch_of(second, trips, second_at),
    ensures
        first.len() == second.len(),
        forall|k: int| 0 <= k < first.len() ==> same_passage(#[trigger] first[k], second[k]),
{
    assert forall|k: int| 0 <= k < first.len() implies same_passage(#[trigger] first[k], second[k]) by {
        assert(is_record_of(first[k], trips[buildable(trips)[k]], first_at));
        assert(is_record_of(second[k], trips[buildable(trips)[k]], second_at));
    }
}

} // verus!