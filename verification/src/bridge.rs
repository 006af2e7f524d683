//! The bookkeeping of the worker that serves fetch requests.
//!
//! A request names a source and carries a place for the reply. The worker
//! gives each request a ticket and starts its fetch without waiting for it.
//! When the fetch is over the outcome is handed to the place for the reply,
//! which may be gone by then; either way the request is settled, once.

use vstd::prelude::*;

verus! {

/// A request whose fetch is under way.
#[derive(Clone, Copy, Debug, PartialEq, Eq, Structural)]
pub struct Pending {
    pub ticket: u64,
    pub source: u64,
}

/// What became of a request when its fetch was over.
#[derive(Clone, Copy, Debug, PartialEq, Eq, Structural)]
pub enum Resolution {
    /// The outcome reached whoever asked for `source`.
    Delivered { source: u64 },
    /// Nobody was listening for the outcome of `source` any more. The worker
    /// goes on; the drop is to be logged.
    Dropped { source: u64 },
    /// No request with that ticket is under way: none was made, or it is
    /// settled already.
    Unknown,
}

/// The state of a worker: whether requests may still arrive, how many
/// tickets it has given out, and the requests under way, oldest first.
pub struct WorkerModel {
    pub open: bool,
    pub issued: nat,
    pub pending: Seq<Pending>,
}

impl WorkerModel {
    /// What holds of a worker at every moment: the requests under way have
    /// tickets that were given out, each a different one.
    pub open spec fn wf(self) -> bool {
        &&& self.issued <= u64::MAX
        &&& forall|i: int| 0 <= i < self.pending.len() ==> (#[trigger] self.pending[i]).ticket < self.issued
        &&& forall|i: int, j: int|
            0 <= i < j < self.pending.len() ==> (#[trigger] self.pending[i]).ticket != (
            #[trigger] self.pending[j]).ticket
    }

    /// Whether the request with `ticket` is under way.
    pub open spec fn waits_for(self, ticket: u64) -> bool {
        exists|i: int| 0 <= i < self.pending.len() && (#[trigger] self.pending[i]).ticket == ticket
    }

    /// The place of the request with `ticket` among those under way.
    pub open spec fn place(self, ticket: u64) -> int {
        choose|i: int| 0 <= i < self.pending.len() && (#[trigger] self.pending[i]).ticket == ticket
    }

    /// Whether a request that arrives now is taken.
    pub open spec fn can_accept(self) -> bool {
        self.open && self.issued < u64::MAX
    }

    /// The worker after a request for `source` has arrived.
    pub open spec fn accept(self, source: u64) -> WorkerModel {
        if self.can_accept() {
            WorkerModel {
                open: self.open,
                issued: self.issued + 1,
                pending: self.pending.push(Pending { ticket: self.issued as u64, source }),
            }
        } else {
            self
        }
    }

    /// The worker after the stream of requests has ended.
    pub open spec fn close(self) -> WorkerModel {
        WorkerModel { open: false, issued: self.issued, pending: self.pending }
    }

    /// The worker after the request with `ticket` has been settled.
    pub open spec fn resolve(self, ticket: u64) -> WorkerModel {
        if self.waits_for(ticket) {
            WorkerModel {
                open: self.open,
                issued: self.issued,
                pending: self.pending.remove(self.place(ticket)),
            }
        } else {
            self
        }
    }

    /// What settling the request with `ticket` reports, where `delivered`
    /// says whether the outcome could be handed over.
    pub open spec fn resolution(self, ticket: u64, delivered: bool) -> Resolution {
        if self.waits_for(ticket) {
            let source = self.pending[self.place(ticket)].source;
            if delivered {
                Resolution::Delivered { source }
            } else {
                Resolution::Dropped { source }
            }
        } else {
            Resolution::Unknown
        }
    }

    /// Whether the worker is done: no request can arrive and none is under
    /// way.
    pub open spec fn finished(self) -> bool {
        !self.open && self.pending.len() == 0
    }
}

/// The worker's books.
#[derive(Debug)]
pub struct Worker {
    open: bool,
    issued: u64,
    pending: Vec<Pending>,
}

impl View for Worker {
    type V = WorkerModel;

    closed spec fn view(&self) -> WorkerModel {
        WorkerModel { open: self.open, issued: self.issued as nat, pending: self.pending@ }
    }
}

impl Worker {
    /// A worker that waits for its first request.
    pub fn new() -> (worker: Worker)
        ensures
            worker@.wf(),
            worker@.open,
            worker@.issued == 0,
            worker@.pending == Seq::<Pending>::empty(),
    {
        Worker { open: true, issued: 0, pending: Vec::new() }
    }

    /// Takes a request for `source` and returns its ticket; the caller starts
    /// the fetch and goes on to the next request without waiting for it. A
    /// request is not taken, and `None` returned, after the stream of
    /// requests has ended or when the tickets have run out.
    pub fn accept(&mut self, source: u64) -> (ticket: Option<u64>)
        requires
            old(self)@.wf(),
        ensures
            final(self)@.wf(),
            final(self)@ == old(self)@.accept(source),
            ticket == if old(self)@.can_accept() {
                Some(old(self)@.issued as u64)
            } else {
                None
            },
    {
        if !self.open || self.issued == u64::MAX {
            return None;
        }
        let ticket = self.issued;
        self.pending.push(Pending { ticket, source });
        self.issued = ticket + 1;
        assert(self@ == old(self)@.accept(source));
        Some(ticket)
    }

    /// Notes that the stream of requests has ended. The requests under way
    /// are still settled.
    pub fn close(&mut self)
        requires
            old(self)@.wf(),
        ensures
            final(self)@.wf(),
            final(self)@ == old(self)@.close(),
    {
        self.open = false;
    }

    /// Settles the request with `ticket` after its fetch: `delivered` says
    /// whether the outcome could be handed to whoever asked. The request is
    /// no longer under way afterwards, delivered or not, and the worker
    /// serves on as before. A ticket that is not under way changes nothing.
    pub fn resolve(&mut self, ticket: u64, delivered: bool) -> (resolution: Resolution)
        requires
            old(self)@.wf(),
        ensures
            final(self)@.wf(),
            final(self)@ == old(self)@.resolve(ticket),
            resolution == old(self)@.resolution(ticket, delivered),
    {
        let mut at: usize = 0;
        while at < self.pending.len() && self.pending[at].ticket != ticket
            invariant
                at <= self.pending.len(),
                forall|k: int| 0 <= k < at ==> (#[trigger] self.pending@[k]).ticket != ticket,
            decreases self.pending.len() - at,
        {
            at += 1;
        }
        if at == self.pending.len() {
            return Resolution::Unknown;
        }
        proof {
            assert(self@.pending[at as int].ticket == ticket);
            assert(self@.waits_for(ticket));
            assert(self@.place(ticket) == at);
        }
        let settled = self.pending.remove(at);
        assert(self@ == old(self)@.resolve(ticket));
        if delivered {
            Resolution::Delivered { source: settled.source }
        } else {
            Resolution::Dropped { source: settled.source }
        }
    }

    /// Whether requests may still arrive.
    pub fn is_open(&self) -> (open: bool)
        ensures
            open == self@.open,
    {
        self.open
    }

    /// Whether the worker is done: the stream of requests has ended and no
    /// request is under way.
    pub fn is_finished(&self) -> (done: bool)
        ensures
            done == self@.finished(),
    {
        !self.open && self.pending.len() == 0
    }

    /// The requests under way, oldest first.
    pub fn outstanding(&self) -> (pending: &Vec<Pending>)
        ensures
            pending@ == self@.pending,
    {
        &self.pending
    }
}

/// Each step leaves the books in order.
pub proof fn lemma_steps_keep_the_books(worker: WorkerModel, source: u64, ticket: u64)
    requires
        worker.wf(),
    ensures
        worker.accept(source).wf(),
        worker.close().wf(),
        worker.resolve(ticket).wf(),
{
    lemma_resolve_removes_one(worker, ticket);
}

/// Settling a request takes that request from those under way and leaves
/// every other one as it was.
pub proof fn lemma_resolve_removes_one(worker: WorkerModel, ticket: u64)
    requires
        worker.wf(),
    ensures
        worker.resolve(ticket).wf(),
        !worker.resolve(ticket).waits_for(ticket),
        forall|other: u64|
            other != ticket ==> (worker.resolve(ticket).waits_for(other) <==> worker.waits_for(other)),
        worker.waits_for(ticket) ==> worker.resolve(ticket).pending.len() + 1
            == worker.pending.len(),
{
    let after = worker.resolve(ticket);
    if worker.waits_for(ticket) {
        let at = worker.place(ticket);
        assert forall|k: int| 0 <= k < after.pending.len() implies (#[trigger] after.pending[k])
            == worker.pending[if k < at {
            k
        } else {
            k + 1
        }] by {}
        assert forall|k: int| 0 <= k < after.pending.len() implies (#[trigger] after.pending[k]).ticket
            != ticket by {
            if k < at {
                assert(worker.pending[k].ticket != worker.pending[at].ticket);
            } else {
                assert(worker.pending[at].ticket != worker.pending[k + 1].ticket);
            }
        }
        assert forall|other: u64| other != ticket && worker.waits_for(other) implies after.waits_for(
            other,
        ) by {
            let k = worker.place(other);
            if k < at {
                assert(after.pending[k].ticket == other);
            } else {
                assert(after.pending[k - 1].ticket == other);
            }
        }
        assert forall|other: u64| other != ticket && after.waits_for(other) implies worker.waits_for(
            other,
        ) by {
            let k = after.place(other);
            if k < at {
                assert(worker.pending[k].ticket == other);
            } else {
                assert(worker.pending[k + 1].ticket == other);
            }
        }
        assert forall|i: int, j: int| 0 <= i < j < after.pending.len() implies (
        #[trigger] after.pending[i]).ticket != (#[trigger] after.pending[j]).ticket by {
            let a = if i < at {
                i
            } else {
                i + 1
            };
            let b = if j < at {
                j
            } else {
                j + 1
            };
            assert(worker.pending[a].ticket != worker.pending[b].ticket);
        }
    }
}

/// A request whose listener has gone leaves nothing behind: once it is taken
/// and then settled, delivered or not, the worker has the same requests
/// under way as before it came, and takes requests as before.
pub proof fn lemma_dropped_listener_leaves_nothing(worker: WorkerModel, source: u64, delivered: bool)
    requires
        worker.wf(),
        worker.can_accept(),
    ensures
        worker.accept(source).waits_for(worker.issued as u64),
        worker.accept(source).resolution(worker.issued as u64, false) == (Resolution::Dropped {
            source,
        }),
        worker.accept(source).resolve(worker.issued as u64).pending == worker.pending,
        worker.accept(source).resolve(worker.issued as u64).open,
        worker.accept(source).resolve(worker.issued as u64).wf(),
{
    let ticket = worker.issued as u64;
    let taken = worker.accept(source);
    let last = worker.pending.len() as int;
    assert(taken.pending[last].ticket == ticket);
    assert(taken.waits_for(ticket));
    let at = taken.place(ticket);
    if at != last {
        assert(taken.pending[at] == worker.pending[at]);
        assert(worker.pending[at].ticket < worker.issued);
    }
    assert(taken.pending.remove(last) =~= worker.pending);
}

/// A request is settled at most once: settling it again reports that it is
/// unknown and changes nothing.
pub proof fn lemma_settled_once(worker: WorkerModel, ticket: u64, delivered: bool)
    requires
        worker.wf(),
    ensures
        worker.resolve(ticket).resolution(ticket, delivered) == Resolution::Unknown,
        worker.resolve(ticket).resolve(ticket) == worker.resolve(ticket),
{
    lemma_resolve_removes_one(worker, ticket);
}

/// Settling or dropping a request never ends the worker: only the end of the
/// stream of requests closes it, and it is done only after that.
pub proof fn lemma_only_closing_ends_the_worker(worker: WorkerModel, source: u64, ticket: u64)
    requires
        worker.wf(),
    ensures
        worker.resolve(ticket).open == worker.open,
        worker.accept(source).open == worker.open,
        worker.open ==> !worker.finished(),
        !worker.close().open,
{
}

} // verus!
