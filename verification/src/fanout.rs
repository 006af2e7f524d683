//! The bounded fan-out: which sources are being fetched, which have
//! reported, and which is launched next.
//!
//! The scheduler holds no fetch itself. Its caller launches the sources it
//! names, waits for any of them, and tells it which one has completed; the
//! scheduler answers with the source to launch in its place.

use crate::registry::{distinct, SourceRegistry};
use vstd::prelude::*;

verus! {

/// The place of `id` in `ids`; meant for an `id` that occurs in `ids`.
pub open spec fn position(ids: Seq<u64>, id: u64) -> int {
    choose|i: int| 0 <= i < ids.len() && ids[i] == id
}

/// The smaller of `a` and `b`.
pub open spec fn smaller(a: int, b: int) -> int {
    if a <= b {
        a
    } else {
        b
    }
}

/// A completion that the scheduler cannot take.
#[derive(Clone, Copy, Debug, PartialEq, Eq)]
pub enum SchedulerError {
    /// The source is not being fetched: it was never launched, or it has
    /// reported already.
    NotInFlight,
}

/// One run over the sources of a registry with at most `cap` fetches at a
/// time.
#[derive(Debug)]
pub struct FanOut {
    sources: Vec<u64>,
    cap: usize,
    started: usize,
    in_flight: Vec<u64>,
    reported: Vec<u64>,
}

impl FanOut {
    /// The sources of the run, in the order in which they are launched.
    pub closed spec fn sources(&self) -> Seq<u64> {
        self.sources@
    }

    /// The most fetches that may be in flight at once.
    pub closed spec fn cap(&self) -> int {
        self.cap as int
    }

    /// How many sources have been launched: the first `started()` of
    /// `sources()`.
    pub closed spec fn started(&self) -> int {
        self.started as int
    }

    /// The sources that have been launched and have not completed, oldest
    /// first.
    pub closed spec fn in_flight(&self) -> Seq<u64> {
        self.in_flight@
    }

    /// The sources that have completed, in the order of their completion.
    pub closed spec fn reported(&self) -> Seq<u64> {
        self.reported@
    }

    /// Whether `id` is among the sources launched so far.
    pub open spec fn launched(&self, id: u64) -> bool {
        exists|i: int| 0 <= i < self.started() && self.sources()[i] == id
    }

    /// The source that is launched next; `None` where all have been.
    pub open spec fn next_source(&self) -> Option<u64> {
        if self.started() < self.sources().len() {
            Some(self.sources()[self.started()])
        } else {
            None
        }
    }

    /// Whether every source has reported.
    pub open spec fn finished(&self) -> bool {
        self.reported().len() == self.sources().len()
    }

    /// What holds of a run at every moment: no more than `cap` fetches are
    /// in flight, none is idle while a source waits to be launched, and every
    /// launched source is either in flight or has reported, once.
    pub open spec fn wf(&self) -> bool {
        &&& distinct(self.sources())
        &&& 1 <= self.cap()
        &&& 0 <= self.started() <= self.sources().len()
        &&& self.in_flight().len() <= self.cap()
        &&& self.in_flight().len() == self.cap() || self.started() == self.sources().len()
        &&& self.in_flight().len() + self.reported().len() == self.started()
        &&& distinct(self.in_flight())
        &&& distinct(self.reported())
        &&& forall|id: u64| !(self.in_flight().contains(id) && self.reported().contains(id))
        &&& forall|i: int|
            0 <= i < self.started() ==> self.in_flight().contains(#[trigger] self.sources()[i])
                || self.reported().contains(self.sources()[i])
        &&& forall|id: u64|
            self.in_flight().contains(id) || self.reported().contains(id) ==> self.launched(id)
    }

    /// Begins a run over `registry` with at most `cap` fetches at a time: the
    /// first `cap` sources, or all where there are fewer, are in flight.
    pub fn start(registry: &SourceRegistry, cap: usize) -> (run: FanOut)
        requires
            registry.wf(),
            cap >= 1,
        ensures
            run.wf(),
            run.sources() == registry@,
            run.cap() == cap,
            run.started() == smaller(cap as int, registry@.len() as int),
            run.in_flight() == registry@.take(run.started()),
            run.reported() == Seq::<u64>::empty(),
    {
        let ids = registry.ids();
        let mut sources: Vec<u64> = Vec::new();
        let mut in_flight: Vec<u64> = Vec::new();
        let mut i: usize = 0;
        while i < ids.len()
            invariant
                i <= ids.len(),
                sources@ == ids@.take(i as int),
                in_flight@ == ids@.take(smaller(cap as int, i as int)),
            decreases ids.len() - i,
        {
            sources.push(ids[i]);
            if i < cap {
                in_flight.push(ids[i]);
                assert(in_flight@ =~= ids@.take(i + 1));
            }
            i += 1;
            assert(sources@ =~= ids@.take(i as int));
        }
        assert(sources@ =~= ids@);
        let started = in_flight.len();
        let run = FanOut { sources, cap, started, in_flight, reported: Vec::new() };
        proof {
            assert forall|k: int| 0 <= k < run.started() implies run.in_flight().contains(
                #[trigger] run.sources()[k],
            ) by {
                assert(run.in_flight()[k] == run.sources()[k]);
            }
            assert forall|id: u64| run.in_flight().contains(id) implies run.launched(id) by {
                let k = choose|k: int| 0 <= k < run.in_flight().len() && run.in_flight()[k] == id;
                assert(run.sources()[k] == id);
            }
        }
        run
    }

    /// Records that the fetch of `source` has completed, and launches the
    /// next source in its place where one is left. It returns the source
    /// that is launched; `None` where all had been launched before. A
    /// `source` that is not in flight is refused and changes nothing.
    pub fn complete(&mut self, source: u64) -> (next: Result<Option<u64>, SchedulerError>)
        requires
            old(self).wf(),
        ensures
            final(self).wf(),
            final(self).sources() == old(self).sources(),
            final(self).cap() == old(self).cap(),
            match next {
                Err(e) => {
                    &&& !old(self).in_flight().contains(source)
                    &&& e == SchedulerError::NotInFlight
                    &&& final(self).started() == old(self).started()
                    &&& final(self).in_flight() == old(self).in_flight()
                    &&& final(self).reported() == old(self).reported()
                },
                Ok(launched) => {
                    &&& old(self).in_flight().contains(source)
                    &&& launched == old(self).next_source()
                    &&& final(self).reported() == old(self).reported().push(source)
                    &&& final(self).in_flight() == old(self).in_flight().remove(
                        position(old(self).in_flight(), source),
                    ) + match launched {
                        Some(id) => seq![id],
                        None => Seq::<u64>::empty(),
                    }
                    &&& final(self).started() == old(self).started() + if launched is Some {
                        1int
                    } else {
                        0int
                    }
                },
            },
    {
        let mut at: usize = 0;
        while at < self.in_flight.len() && self.in_flight[at] != source
            invariant
                at <= self.in_flight.len(),
                forall|k: int| 0 <= k < at ==> self.in_flight@[k] != source,
            decreases self.in_flight.len() - at,
        {
            at += 1;
        }
        if at == self.in_flight.len() {
            return Err(SchedulerError::NotInFlight);
        }
        proof {
            assert(self.in_flight@[at as int] == source);
            assert(self.in_flight().contains(source));
            assert(position(self.in_flight(), source) == at);
            assert(!self.reported().contains(source));
        }
        let ghost before = *self;
        let ghost rest = self.in_flight@.remove(at as int);
        self.in_flight.remove(at);
        self.reported.push(source);
        proof {
            assert forall|id: u64| rest.contains(id) implies before.in_flight().contains(id) && id
                != source by {
                let k = choose|k: int| 0 <= k < rest.len() && rest[k] == id;
                if k < at {
                    assert(before.in_flight()[k] == id);
                } else {
                    assert(before.in_flight()[k + 1] == id);
                }
            }
            assert forall|id: u64| before.in_flight().contains(id) && id != source implies rest.contains(
                id,
            ) by {
                let k = choose|k: int| 0 <= k < before.in_flight().len() && before.in_flight()[k] == id;
                if k < at {
                    assert(rest[k] == id);
                } else {
                    assert(rest[k - 1] == id);
                }
            }
            assert forall|id: u64| self.reported@.contains(id) implies before.reported().contains(id)
                || id == source by {
                let k = choose|k: int| 0 <= k < self.reported@.len() && self.reported@[k] == id;
                if k < before.reported().len() {
                    assert(before.reported()[k] == id);
                }
            }
            assert forall|id: u64| before.reported().contains(id) || id == source implies self.reported@.contains(
                id,
            ) by {
                if id == source {
                    assert(self.reported@[before.reported().len() as int] == source);
                } else {
                    let k = choose|k: int|
                        0 <= k < before.reported().len() && before.reported()[k] == id;
                    assert(self.reported@[k] == id);
                }
            }
        }
        if self.started < self.sources.len() {
            let id = self.sources[self.started];
            proof {
                assert(!before.launched(id));
                assert(!rest.contains(id));
                assert(!self.reported@.contains(id));
            }
            self.in_flight.push(id);
            self.started += 1;
            proof {
                let now = self.in_flight@;
                assert(now =~= rest + seq![id]);
                assert forall|x: u64| now.contains(x) implies rest.contains(x) || x == id by {
                    let k = choose|k: int| 0 <= k < now.len() && now[k] == x;
                    if k < rest.len() {
                        assert(rest[k] == x);
                    }
                }
                assert forall|x: u64| rest.contains(x) || x == id implies now.contains(x) by {
                    if x == id && !rest.contains(x) {
                        assert(now[rest.len() as int] == id);
                    } else {
                        let k = choose|k: int| 0 <= k < rest.len() && rest[k] == x;
                        assert(now[k] == x);
                    }
                }
                assert forall|x: u64| now.contains(x) || self.reported@.contains(x) implies self.launched(
                    x,
                ) by {
                    if x == id {
                        assert(self.sources()[before.started()] == id);
                    } else {
                        assert(before.launched(x));
                        let k = choose|k: int| 0 <= k < before.started() && before.sources()[k] == x;
                        assert(self.sources()[k] == x);
                    }
                }
                assert forall|k: int| 0 <= k < self.started() implies now.contains(
                    #[trigger] self.sources()[k],
                ) || self.reported@.contains(self.sources()[k]) by {
                    if k < before.started() {
                        assert(before.in_flight().contains(before.sources()[k])
                            || before.reported().contains(before.sources()[k]));
                    }
                }
            }
            Ok(Some(id))
        } else {
            proof {
                assert(self.in_flight@ =~= rest + Seq::<u64>::empty());
                assert forall|x: u64|
                    self.in_flight@.contains(x) || self.reported@.contains(x) implies self.launched(
                    x,
                ) by {
                    assert(before.launched(x));
                    let k = choose|k: int| 0 <= k < before.started() && before.sources()[k] == x;
                    assert(self.sources()[k] == x);
                }
                assert forall|k: int| 0 <= k < self.started() implies self.in_flight@.contains(
                    #[trigger] self.sources()[k],
                ) || self.reported@.contains(self.sources()[k]) by {
                    assert(before.in_flight().contains(before.sources()[k])
                        || before.reported().contains(before.sources()[k]));
                }
            }
            Ok(None)
        }
    }

    /// Whether every source has reported.
    pub fn is_finished(&self) -> (done: bool)
        ensures
            done == self.finished(),
    {
        self.reported.len() == self.sources.len()
    }

    /// The sources that are being fetched, oldest first.
    pub fn flying(&self) -> (ids: &Vec<u64>)
        ensures
            ids@ == self.in_flight(),
    {
        &self.in_flight
    }

    /// The sources that have reported, in the order of their completion.
    pub fn completed(&self) -> (ids: &Vec<u64>)
        ensures
            ids@ == self.reported(),
    {
        &self.reported
    }

    /// The most fetches that may be in flight at once.
    pub fn limit(&self) -> (cap: usize)
        ensures
            cap == self.cap(),
    {
        self.cap
    }

    /// How many sources wait to be launched.
    pub fn waiting(&self) -> (n: usize)
        requires
            self.wf(),
        ensures
            n == self.sources().len() - self.started(),
    {
        self.sources.len() - self.started
    }
}

/// A finished run has reported every source of the registry exactly once:
/// none is missing, none occurs twice, and nothing is still in flight.
pub proof fn lemma_finished_run_reports_each_source_once(run: FanOut)
    requires
        run.wf(),
        run.finished(),
    ensures
        run.in_flight().len() == 0,
        run.started() == run.sources().len(),
        run.reported().len() == run.sources().len(),
        distinct(run.reported()),
        forall|id: u64| run.sources().contains(id) <==> run.reported().contains(id),
{
    assert forall|id: u64| run.sources().contains(id) implies run.reported().contains(id) by {
        let k = choose|k: int| 0 <= k < run.sources().len() && run.sources()[k] == id;
        assert(run.in_flight().contains(run.sources()[k]) || run.reported().contains(
            run.sources()[k],
        ));
        if run.in_flight().contains(id) {
            let m = choose|m: int| 0 <= m < run.in_flight().len() && run.in_flight()[m] == id;
        }
    }
    assert forall|id: u64| run.reported().contains(id) implies run.sources().contains(id) by {
        assert(run.launched(id));
        let k = choose|k: int| 0 <= k < run.started() && run.sources()[k] == id;
        assert(run.sources()[k] == id);
    }
}

/// At every moment the number of fetches in flight is the cap, or the
/// number of sources that have not reported where that is smaller: never
/// more than the cap, and no slot idle while a source waits.
pub proof fn lemma_in_flight_is_bounded(run: FanOut)
    requires
        run.wf(),
    ensures
        run.in_flight().len() <= run.cap(),
        run.in_flight().len() == smaller(run.cap(), run.sources().len() - run.reported().len()),
{
}

/// A run that is not finished has a fetch in flight, so that a completion
/// is always still to come: the run cannot stall.
pub proof fn lemma_unfinished_run_is_waiting(run: FanOut)
    requires
        run.wf(),
        !run.finished(),
    ensures
        run.in_flight().len() >= 1,
{
}

/// Every source that has been launched and has not reported is in flight,
/// whatever became of the other sources.
pub proof fn lemma_launched_sources_are_tracked(run: FanOut, id: u64)
    requires
        run.wf(),
        run.launched(id),
    ensures
        run.in_flight().contains(id) != run.reported().contains(id),
{
    let k = choose|k: int| 0 <= k < run.started() && run.sources()[k] == id;
    assert(run.in_flight().contains(run.sources()[k]) || run.reported().contains(run.sources()[k]));
}

} // verus!
