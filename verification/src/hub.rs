//! The broadcast hub: a single producer fans accepted reports out to any
//! number of live subscribers. The hub keeps a bounded window of the most
//! recently published reports; each subscriber owns an independent cursor
//! into the publish history. A subscriber that falls behind the window
//! observes one explicit gap and resumes at the oldest retained report —
//! publishing itself never blocks and has no failure outcome.

use vstd::prelude::*;

use crate::types::Log;
use crate::types::log_like;

verus! {

broadcast use vstd::std_specs::vec::group_vec_axioms;

/// The buffer capacity used by the log socket between the ingestion
/// endpoint and the live-viewer sessions.
pub const LOG_SOCKET_CAPACITY: usize = 16;

/// The sequence number of the oldest report still retained by a hub that
/// has published `len` reports with window capacity `cap`.
pub open spec fn oldest_retained(len: int, cap: int) -> int {
    if len <= cap {
        0
    } else {
        len - cap
    }
}

/// Where a subscriber's cursor stands after one read from a hub that has
/// published `len` reports with window capacity `cap`, starting at `c`.
pub open spec fn next_cursor(len: int, cap: int, c: int) -> int {
    let oldest = oldest_retained(len, cap);
    if c >= len {
        c
    } else if c < oldest {
        oldest
    } else {
        c + 1
    }
}

/// The fan-out point. `entries` is the retained window: exactly the
/// publish history from sequence number `base` on.
pub struct Hub {
    entries: Vec<Log>,
    capacity: usize,
    base: u64,
    hist: Ghost<Seq<Log>>,
}

/// One subscription: an independent cursor into the hub's publish history,
/// holding the sequence number of the next report to deliver.
pub struct Subscriber {
    pub cursor: u64,
}

/// What one read yields: the next report, a gap of `n` reports that were
/// dropped because the subscriber fell behind the window, or nothing yet.
pub enum RecvOutcome {
    Received(Log),
    Lagged(u64),
    Pending,
}

impl Hub {
    /// Every report ever published, in publish order.
    pub closed spec fn history(&self) -> Seq<Log> {
        self.hist@
    }

    /// The size of the retained window.
    pub closed spec fn cap(&self) -> int {
        self.capacity as int
    }

    pub closed spec fn wf(&self) -> bool {
        &&& self.capacity >= 1
        &&& self.entries@.len() <= self.capacity
        &&& self.hist@.len() <= u64::MAX
        &&& self.base as int == oldest_retained(self.hist@.len() as int, self.capacity as int)
        &&& self.base as int + self.entries@.len() == self.hist@.len()
        &&& self.entries@ == self.hist@.skip(self.base as int)
    }

    pub fn new(capacity: usize) -> (hub: Hub)
        requires
            capacity >= 1,
        ensures
            hub.wf(),
            hub.history().len() == 0,
            hub.cap() == capacity,
    {
        let hub = Hub { entries: Vec::new(), capacity, base: 0, hist: Ghost(Seq::empty()) };
        proof {
            assert(hub.entries@ =~= hub.hist@.skip(0));
        }
        hub
    }

    /// Publishes one report. The call always succeeds and never waits for
    /// any subscriber: a subscriber that has not kept up only loses the
    /// oldest retained entries.
    pub fn publish(&mut self, log: Log)
        requires
            old(self).wf(),
            old(self).history().len() < u64::MAX,
        ensures
            final(self).wf(),
            final(self).history() == old(self).history().push(log),
            final(self).cap() == old(self).cap(),
    {
        let ghost hist0 = self.hist@;
        let ghost base0 = self.base as int;
        if self.entries.len() == self.capacity {
            self.entries.remove(0);
            self.base = self.base + 1;
        }
        self.entries.push(log);
        proof {
            self.hist@ = hist0.push(log);
        }
        proof {
            assert(self.hist@.skip(self.base as int) =~= hist0.skip(self.base as int).push(log));
            if self.base as int == base0 {
                assert(self.entries@ =~= hist0.skip(base0).push(log));
            } else {
                assert(hist0.skip(base0).drop_first() =~= hist0.skip(base0 + 1));
                assert(self.entries@ =~= hist0.skip(base0 + 1).push(log));
            }
        }
    }

    /// A new subscription, positioned to receive every report published
    /// after this call.
    pub fn subscribe(&self) -> (sub: Subscriber)
        requires
            self.wf(),
        ensures
            sub.cursor == self.history().len(),
    {
        Subscriber { cursor: self.base + self.entries.len() as u64 }
    }
}

/// A hub and one initial subscription with the default window capacity.
pub fn new_log_socket() -> (r: (Hub, Subscriber))
    ensures
        r.0.wf(),
        r.0.history().len() == 0,
        r.0.cap() == LOG_SOCKET_CAPACITY as int,
        r.1.cursor == 0,
{
    let hub = Hub::new(LOG_SOCKET_CAPACITY);
    let sub = hub.subscribe();
    (hub, sub)
}

impl Subscriber {
    /// A subscription is live for a hub while its cursor does not run past
    /// the publish history.
    pub open spec fn live(&self, hub: &Hub) -> bool {
        self.cursor <= hub.history().len()
    }

    /// One read: the report at the cursor, in publish order, if it is
    /// still retained; an explicit gap if the subscriber fell behind the
    /// window, resuming at the oldest retained report; or nothing yet.
    pub fn recv(&mut self, hub: &Hub) -> (r: RecvOutcome)
        requires
            hub.wf(),
            old(self).live(hub),
        ensures
            final(self).live(hub),
            ({
                let len = hub.history().len() as int;
                let oldest = oldest_retained(len, hub.cap());
                let c = old(self).cursor as int;
                &&& final(self).cursor == next_cursor(len, hub.cap(), c)
                &&& (c >= len ==> r is Pending)
                &&& (c < oldest ==> (r matches RecvOutcome::Lagged(n) && n == oldest - c))
                &&& (oldest <= c < len ==> (r matches RecvOutcome::Received(l) && log_like(
                    l,
                    hub.history()[c],
                )))
            }),
    {
        let len: u64 = hub.base + hub.entries.len() as u64;
        if self.cursor >= len {
            return RecvOutcome::Pending;
        }
        if self.cursor < hub.base {
            let missed = hub.base - self.cursor;
            self.cursor = hub.base;
            return RecvOutcome::Lagged(missed);
        }
        let off = (self.cursor - hub.base) as usize;
        proof {
            assert(hub.history()[self.cursor as int] == hub.history().skip(hub.base as int)[off as int]);
        }
        let l = hub.entries[off].duplicate();
        self.cursor = self.cursor + 1;
        RecvOutcome::Received(l)
    }
}

/// Law (paced delivery): publishing `batch` while a subscriber keeps pace —
/// it reads each report before the next one is published — delivers every
/// report of the batch to that subscriber, in publish order. For each `k`,
/// before the `k`-th read the history holds `len0 + k + 1` reports and the
/// kept-pace cursor stands at `len0 + k`; the read then falls in the
/// retained window, returns exactly the `k`-th published report, and leaves
/// the cursor caught up again.
pub proof fn lemma_paced_delivery(hist0: Seq<Log>, batch: Seq<Log>, cap: int, k: int)
    requires
        cap >= 1,
        0 <= k < batch.len(),
    ensures
        ({
            let len_k = hist0.len() + k + 1;
            let c_k = hist0.len() + k;
            let hist_k = hist0 + batch.subrange(0, k + 1);
            &&& hist_k.len() == len_k
            &&& oldest_retained(len_k as int, cap) <= c_k < len_k
            &&& hist_k[c_k] == batch[k]
            &&& c_k + 1 == len_k
        }),
{
    let hist_k = hist0 + batch.subrange(0, k + 1);
    assert(hist_k[hist0.len() as int + k] == batch.subrange(0, k + 1)[k]);
}

/// Law (lag drop): if a subscriber stops reading while more than `cap`
/// reports are published, it does not stall the publisher — `publish` has
/// no failure outcome — and on resuming it observes exactly one gap of
/// `batch.len() - cap` dropped reports (so it receives fewer than the
/// `batch.len()` published), after which the reads deliver the newest `cap`
/// reports in publish order, never out of order: the `k`-th read after the
/// gap returns the report published at position `batch.len() - cap + k` of
/// the batch.
pub proof fn lemma_lagged_subscriber(hist0: Seq<Log>, batch: Seq<Log>, cap: int, k: int)
    requires
        cap >= 1,
        batch.len() > cap,
        0 <= k < cap,
    ensures
        ({
            let len1 = hist0.len() + batch.len();
            let hist1 = hist0 + batch;
            let c0 = hist0.len() as int;
            let oldest = oldest_retained(len1 as int, cap);
            &&& c0 < oldest
            &&& oldest - c0 == batch.len() - cap
            &&& oldest_retained(len1 as int, cap) <= oldest + k < len1
            &&& hist1[oldest + k] == batch[batch.len() - cap + k]
        }),
{
    let hist1 = hist0 + batch;
    let oldest = oldest_retained((hist0.len() + batch.len()) as int, cap);
    assert(hist1[oldest + k] == batch[batch.len() - cap + k]);
}

/// Reads never run backwards: one read never moves the cursor down, and a
/// delivered report always sits exactly at the cursor the read started
/// from — so the sequence numbers of the reports delivered to any single
/// subscriber strictly increase, even across a gap.
pub proof fn lemma_recv_monotonic(len: int, cap: int, c: int)
    requires
        cap >= 1,
        0 <= c <= len,
    ensures
        next_cursor(len, cap, c) >= c,
        oldest_retained(len, cap) <= c < len ==> next_cursor(len, cap, c) > c,
{
}

} // verus!
