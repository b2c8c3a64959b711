use vstd::prelude::*;

verus! {

/// Where one stop stands in a run: not yet fetched, being fetched, or fetched.
#[derive(Clone, Copy, Debug, PartialEq, Eq, Structural)]
pub enum Slot {
    Pending,
    InFlight,
    Done,
}

/// How many entries of `s` are `v`.
pub open spec fn count_of(s: Seq<Slot>, v: Slot) -> nat
    decreases s.len(),
{
    if s.len() == 0 {
        0
    } else {
        count_of(s.drop_last(), v) + if s.last() == v {
            1nat
        } else {
            0nat
        }
    }
}

pub proof fn lemma_count_update(s: Seq<Slot>, i: int, x: Slot, v: Slot)
    requires
        0 <= i < s.len(),
    ensures
        count_of(s.update(i, x), v) + (if s[i] == v { 1int } else { 0int }) == count_of(s, v) + (
        if x == v {
            1int
        } else {
            0int
        }),
    decreases s.len(),
{
    if i == s.len() - 1 {
        assert(s.update(i, x).drop_last() =~= s.drop_last());
    } else {
        assert(s.update(i, x).drop_last() =~= s.drop_last().update(i, x));
        lemma_count_update(s.drop_last(), i, x, v);
    }
}

pub proof fn lemma_count_bounds(s: Seq<Slot>, v: Slot)
    ensures
        count_of(s, v) <= s.len(),
        count_of(s, v) == s.len() ==> forall|i: int| 0 <= i < s.len() ==> s[i] == v,
        (forall|i: int| 0 <= i < s.len() ==> s[i] != v) ==> count_of(s, v) == 0,
    decreases s.len(),
{
    if s.len() > 0 {
        lemma_count_bounds(s.drop_last(), v);
        if count_of(s, v) == s.len() {
            assert forall|i: int| 0 <= i < s.len() implies s[i] == v by {
                if i < s.len() - 1 {
                    assert(s[i] == s.drop_last()[i]);
                }
            }
        }
        if forall|i: int| 0 <= i < s.len() ==> s[i] != v {
            assert forall|i: int| 0 <= i < s.drop_last().len() implies s.drop_last()[i] != v by {
                assert(s[i] == s.drop_last()[i]);
            }
        }
    }
}

/// Hands out the stops of a run for fetching, in order, with never more than
/// `limit` of them in flight, and records each completion once.
pub struct FetchScheduler {
    stops: Vec<String>,
    slots: Vec<Slot>,
    limit: usize,
    next: usize,
    in_flight: usize,
    done: usize,
    completed: Ghost<Seq<int>>,
}

impl FetchScheduler {
    /// The stops of the run.
    pub closed spec fn stops(&self) -> Seq<String> {
        self.stops@
    }

    /// Where each stop stands.
    pub closed spec fn slots(&self) -> Seq<Slot> {
        self.slots@
    }

    /// The most fetches that may be in flight at once.
    pub closed spec fn limit(&self) -> nat {
        self.limit as nat
    }

    /// How many stops have been handed out; they are the first ones.
    pub closed spec fn launched(&self) -> nat {
        self.next as nat
    }

    /// The stops whose fetch has finished, by index, in the order they finished.
    pub closed spec fn completed(&self) -> Seq<int> {
        self.completed@
    }

    pub closed spec fn wf(&self) -> bool {
        &&& self.slots@.len() == self.stops@.len()
        &&& self.limit > 0
        &&& self.next <= self.slots@.len()
        &&& forall|i: int|
            0 <= i < self.slots@.len() ==> (#[trigger] self.slots@[i] == Slot::Pending <==> i
                >= self.next)
        &&& self.in_flight == count_of(self.slots@, Slot::InFlight)
        &&& self.done == count_of(self.slots@, Slot::Done)
        &&& self.in_flight <= self.limit
        &&& self.completed@.len() == self.done
        &&& self.completed@.no_duplicates()
        &&& forall|k: int|
            0 <= k < self.completed@.len() ==> 0 <= #[trigger] self.completed@[k]
                < self.slots@.len() && self.slots@[self.completed@[k]] == Slot::Done
        &&& forall|i: int|
            0 <= i < self.slots@.len() && #[trigger] self.slots@[i] == Slot::Done
                ==> self.completed@.contains(i)
    }

    /// The number of stops whose fetch is in flight.
    pub closed spec fn in_flight_count(&self) -> nat {
        count_of(self.slots@, Slot::InFlight)
    }

    /// Every stop's fetch has finished.
    pub open spec fn exhausted(&self) -> bool {
        forall|i: int| 0 <= i < self.slots().len() ==> #[trigger] self.slots()[i] == Slot::Done
    }

    /// A scheduler for `stops` that lets at most `limit` fetches be in flight.
    pub fn new(stops: Vec<String>, limit: usize) -> (r: FetchScheduler)
        requires
            limit > 0,
        ensures
            r.wf(),
            r.stops() == stops@,
            r.limit() == limit,
            r.launched() == 0,
            r.slots() == Seq::new(stops@.len(), |i: int| Slot::Pending),
            r.completed() == Seq::<int>::empty(),
    {
        let mut slots: Vec<Slot> = Vec::new();
        let mut i: usize = 0;
        while i < stops.len()
            invariant
                i <= stops@.len(),
                slots@ == Seq::new(i as nat, |k: int| Slot::Pending),
            decreases stops@.len() - i,
        {
            slots.push(Slot::Pending);
            i = i + 1;
        }
        proof {
            lemma_count_bounds(slots@, Slot::InFlight);
            lemma_count_bounds(slots@, Slot::Done);
        }
        FetchScheduler {
            stops,
            slots,
            limit,
            next: 0,
            in_flight: 0,
            done: 0,
            completed: Ghost(Seq::empty()),
        }
    }

    /// Hands out the next stop to fetch, by index, when one is left and a
    /// place among the `limit` is free.
    pub fn next_launch(&mut self) -> (r: Option<usize>)
        requires
            old(self).wf(),
        ensures
            final(self).wf(),
            final(self).stops() == old(self).stops(),
            final(self).limit() == old(self).limit(),
            final(self).completed() == old(self).completed(),
            r is Some <==> old(self).in_flight_count() < old(self).limit() && old(self).launched()
                < old(self).stops().len(),
            r matches Some(i) ==> i == old(self).launched() && final(self).launched() == i + 1
                && final(self).slots() == old(self).slots().update(i as int, Slot::InFlight),
            r is None ==> final(self).slots() == old(self).slots() && final(self).launched()
                == old(self).launched(),
    {
        if self.in_flight < self.limit && self.next < self.slots.len() {
            let i = self.next;
            proof {
                lemma_count_update(self.slots@, i as int, Slot::InFlight, Slot::InFlight);
                lemma_count_update(self.slots@, i as int, Slot::InFlight, Slot::Done);
            }
            self.slots[i] = Slot::InFlight;
            self.next = i + 1;
            self.in_flight = self.in_flight + 1;
            Some(i)
        } else {
            None
        }
    }

    /// Records that the fetch of stop `i` has finished.
    pub fn complete(&mut self, i: usize)
        requires
            old(self).wf(),
            i < old(self).slots().len(),
            old(self).slots()[i as int] == Slot::InFlight,
        ensures
            final(self).wf(),
            final(self).stops() == old(self).stops(),
            final(self).limit() == old(self).limit(),
            final(self).launched() == old(self).launched(),
            final(self).slots() == old(self).slots().update(i as int, Slot::Done),
            final(self).completed() == old(self).completed().push(i as int),
    {
        proof {
            lemma_count_update(self.slots@, i as int, Slot::Done, Slot::InFlight);
            lemma_count_update(self.slots@, i as int, Slot::Done, Slot::Done);
            lemma_count_bounds(self.slots@.update(i as int, Slot::Done), Slot::Done);
        }
        let n = self.slots.len();
        let ghost before = self.slots@;
        let ghost before_completed = self.completed@;
        self.slots[i] = Slot::Done;
        self.in_flight = self.in_flight - 1;
        self.done = self.done + 1;
        self.completed = Ghost(self.completed@.push(i as int));
        assert forall|k: int| 0 <= k < self.completed@.len() implies 0 <= #[trigger] self.completed@[k]
            < self.slots@.len() && self.slots@[self.completed@[k]] == Slot::Done by {
            if k < self.completed@.len() - 1 {
                assert(self.completed@[k] == before_completed[k]);
                assert(before[before_completed[k]] == Slot::Done);
            }
        }
        assert forall|j: int|
            0 <= j < self.slots@.len() && #[trigger] self.slots@[j] == Slot::Done
                implies self.completed@.contains(j) by {
            if j != i {
                assert(before[j] == Slot::Done);
                assert(before_completed.contains(j));
                let k = choose|k: int| 0 <= k < before_completed.len() && before_completed[k] == j;
                assert(self.completed@[k] == before_completed[k]);
            } else {
                assert(self.completed@[self.completed@.len() - 1] == j);
            }
        }
    }

    /// Whether stop `i`'s fetch is in flight.
    pub fn is_in_flight(&self, i: usize) -> (r: bool)
        requires
            self.wf(),
        ensures
            r == (i < self.slots().len() && self.slots()[i as int] == Slot::InFlight),
    {
        i < self.slots.len() && self.slots[i] == Slot::InFlight
    }

    /// Whether every stop's fetch has finished.
    pub fn is_exhausted(&self) -> (r: bool)
        requires
            self.wf(),
        ensures
            r == self.exhausted(),
    {
        proof {
            lemma_count_bounds(self.slots@, Slot::Done);
            if self.exhausted() {
                lemma_count_bounds(self.slots@, Slot::InFlight);
                lemma_count_bounds(self.slots@, Slot::Pending);
                lemma_all_done_counted(self.slots@);
            }
        }
        self.done == self.slots.len()
    }

    /// The identifier of stop `i`.
    pub fn stop(&self, i: usize) -> (r: &String)
        requires
            i < self.stops().len(),
        ensures
            *r == self.stops()[i as int],
    {
        &self.stops[i]
    }

    /// The number of fetches in flight.
    pub fn in_flight(&self) -> (r: usize)
        requires
            self.wf(),
        ensures
            r == self.in_flight_count(),
    {
        self.in_flight
    }

    /// The number of stops in the run.
    pub fn len(&self) -> (r: usize)
        requires
            self.wf(),
        ensures
            r == self.stops().len(),
    {
        self.stops.len()
    }

    /// One slot per stop, a positive limit, and the stops handed out are among them.
    pub proof fn lemma_shape(&self)
        requires
            self.wf(),
        ensures
            self.slots().len() == self.stops().len(),
            self.limit() > 0,
            self.launched() <= self.stops().len(),
    {
    }

    /// Never more than `limit` fetches are in flight.
    pub proof fn lemma_in_flight_bounded(&self)
        requires
            self.wf(),
        ensures
            self.in_flight_count() <= self.limit(),
    {
    }

    /// Once every fetch has finished, each stop of the run has finished exactly
    /// once: the completions are as many as the stops, with no repeat and none
    /// left out, whatever the fetches returned.
    pub proof fn lemma_each_stop_once(&self)
        requires
            self.wf(),
            self.exhausted(),
        ensures
            self.completed().len() == self.stops().len(),
            self.completed().no_duplicates(),
            forall|i: int| 0 <= i < self.stops().len() ==> self.completed().contains(i),
            forall|k: int|
                0 <= k < self.completed().len() ==> 0 <= #[trigger] self.completed()[k]
                    < self.stops().len(),
    {
        lemma_all_done_counted(self.slots@);
        assert forall|i: int| 0 <= i < self.stops().len() implies self.completed().contains(i) by {
            assert(self.slots@[i] == Slot::Done);
        }
    }
}

proof fn lemma_all_done_counted(s: Seq<Slot>)
    requires
        forall|i: int| 0 <= i < s.len() ==> #[trigger] s[i] == Slot::Done,
    ensures
        count_of(s, Slot::Done) == s.len(),
    decreases s.len(),
{
    if s.len() > 0 {
        assert forall|i: int| 0 <= i < s.drop_last().len() implies #[trigger] s.drop_last()[i]
            == Slot::Done by {
            assert(s[i] == s.drop_last()[i]);
        }
        lemma_all_done_counted(s.drop_last());
    }
}

} // verus!
