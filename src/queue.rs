use vstd::prelude::*;
use crate::record::LogRecord;

verus! {

/// What a full queue does with one more record.
#[derive(Clone, Copy, Debug, PartialEq, Eq, Structural)]
pub enum DropPolicy {
    /// The incoming record is dropped.
    DropNewest,
    /// The oldest queued record is dropped to make room.
    DropOldest,
}

pub open spec fn sat_inc(n: nat) -> nat {
    if n < u64::MAX {
        n + 1
    } else {
        n
    }
}

/// The queue's records after one more is offered.
pub open spec fn step_items(
    items: Seq<LogRecord>,
    bound: nat,
    policy: DropPolicy,
    r: LogRecord,
) -> Seq<LogRecord> {
    if items.len() < bound {
        items.push(r)
    } else if policy == DropPolicy::DropOldest && bound > 0 {
        items.subrange(1, items.len() as int).push(r)
    } else {
        items
    }
}

/// The dropped-record counter after one more record is offered; it saturates.
pub open spec fn step_dropped(items: Seq<LogRecord>, bound: nat, dropped: nat) -> nat {
    if items.len() < bound {
        dropped
    } else {
        sat_inc(dropped)
    }
}

/// The records that a fresh queue holds after `recs` are offered in turn.
pub open spec fn offered_items(bound: nat, policy: DropPolicy, recs: Seq<LogRecord>) -> Seq<
    LogRecord,
>
    decreases recs.len(),
{
    if recs.len() == 0 {
        Seq::empty()
    } else {
        step_items(offered_items(bound, policy, recs.drop_last()), bound, policy, recs.last())
    }
}

/// The dropped-record counter of a fresh queue after `recs` are offered in turn.
pub open spec fn offered_dropped(bound: nat, policy: DropPolicy, recs: Seq<LogRecord>) -> nat
    decreases recs.len(),
{
    if recs.len() == 0 {
        0
    } else {
        step_dropped(
            offered_items(bound, policy, recs.drop_last()),
            bound,
            offered_dropped(bound, policy, recs.drop_last()),
        )
    }
}

pub open spec fn min_nat(a: nat, b: nat) -> nat {
    if a < b {
        a
    } else {
        b
    }
}

/// A bounded first-in first-out queue of records with a dropped-record counter.
pub struct BoundedQueue {
    items: Vec<LogRecord>,
    bound: usize,
    policy: DropPolicy,
    dropped: u64,
}

impl BoundedQueue {
    /// The queued records, oldest first.
    pub closed spec fn items(&self) -> Seq<LogRecord> {
        self.items@
    }

    pub closed spec fn bound(&self) -> nat {
        self.bound as nat
    }

    pub closed spec fn policy(&self) -> DropPolicy {
        self.policy
    }

    pub closed spec fn dropped_count(&self) -> nat {
        self.dropped as nat
    }

    pub open spec fn wf(&self) -> bool {
        self.items().len() <= self.bound()
    }

    pub fn new(bound: usize, policy: DropPolicy) -> (q: BoundedQueue)
        ensures
            q.wf(),
            q.items() == Seq::<LogRecord>::empty(),
            q.bound() == bound,
            q.policy() == policy,
            q.dropped_count() == 0,
    {
        BoundedQueue { items: Vec::new(), bound, policy, dropped: 0 }
    }

    /// Offers a record; never blocks. Returns whether the record was queued.
    pub fn enqueue(&mut self, rec: LogRecord) -> (queued: bool)
        requires
            old(self).wf(),
        ensures
            final(self).wf(),
            final(self).items() == step_items(
                old(self).items(),
                old(self).bound(),
                old(self).policy(),
                rec,
            ),
            final(self).dropped_count() == step_dropped(
                old(self).items(),
                old(self).bound(),
                old(self).dropped_count(),
            ),
            final(self).bound() == old(self).bound(),
            final(self).policy() == old(self).policy(),
            queued <==> (old(self).items().len() < old(self).bound() || (old(self).policy()
                == DropPolicy::DropOldest && old(self).bound() > 0)),
    {
        if self.items.len() < self.bound {
            self.items.push(rec);
            true
        } else {
            if self.dropped < u64::MAX {
                self.dropped = self.dropped + 1;
            }
            if self.policy == DropPolicy::DropOldest && self.bound > 0 {
                let _oldest = self.items.remove(0);
                self.items.push(rec);
                assert(self.items@ =~= old(self).items@.subrange(1, old(self).items@.len() as int).push(rec));
                true
            } else {
                false
            }
        }
    }

    /// Takes the oldest queued record, if any.
    pub fn dequeue(&mut self) -> (r: Option<LogRecord>)
        requires
            old(self).wf(),
        ensures
            final(self).wf(),
            old(self).items().len() == 0 ==> r.is_none() && final(self).items() == old(self).items(),
            old(self).items().len() > 0 ==> r == Some(old(self).items()[0]) && final(self).items()
                == old(self).items().subrange(1, old(self).items().len() as int),
            final(self).bound() == old(self).bound(),
            final(self).policy() == old(self).policy(),
            final(self).dropped_count() == old(self).dropped_count(),
    {
        if self.items.len() == 0 {
            None
        } else {
            let r = self.items.remove(0);
            assert(self.items@ =~= old(self).items@.subrange(1, old(self).items@.len() as int));
            Some(r)
        }
    }

    pub fn len(&self) -> (n: usize)
        ensures
            n == self.items().len(),
    {
        self.items.len()
    }

    pub fn dropped(&self) -> (n: u64)
        ensures
            n == self.dropped_count(),
    {
        self.dropped
    }
}

/// Backpressure: offering `n` records to a fresh queue of bound `b` keeps
/// `min(n, b)` of them (the newest under drop-oldest, the first under
/// drop-newest, in order) and the dropped-record counter equals the number
/// offered minus the number kept.
pub proof fn lemma_backpressure(bound: nat, policy: DropPolicy, recs: Seq<LogRecord>)
    requires
        recs.len() <= u64::MAX,
    ensures
        offered_items(bound, policy, recs).len() == min_nat(recs.len(), bound),
        offered_dropped(bound, policy, recs) == recs.len() - min_nat(recs.len(), bound),
        policy == DropPolicy::DropOldest ==> offered_items(bound, policy, recs) == recs.subrange(
            recs.len() - min_nat(recs.len(), bound),
            recs.len() as int,
        ),
        policy == DropPolicy::DropNewest ==> offered_items(bound, policy, recs) == recs.subrange(
            0,
            min_nat(recs.len(), bound) as int,
        ),
    decreases recs.len(),
{
    if recs.len() > 0 {
        let p = recs.drop_last();
        lemma_backpressure(bound, policy, p);
        let n = recs.len();
        if policy == DropPolicy::DropOldest {
            if p.len() < bound {
                assert(recs.subrange(0, n as int) =~= p.subrange(0, p.len() as int).push(recs.last()));
            } else if bound > 0 {
                assert(recs.subrange(n - bound, n as int) =~= p.subrange(
                    p.len() - bound,
                    p.len() as int,
                ).subrange(1, bound as int).push(recs.last()));
            } else {
                assert(recs.subrange(n as int, n as int) =~= Seq::<LogRecord>::empty());
            }
        } else {
            if p.len() < bound {
                assert(recs.subrange(0, n as int) =~= p.subrange(0, p.len() as int).push(recs.last()));
            } else {
                assert(recs.subrange(0, bound as int) =~= p.subrange(0, bound as int));
            }
        }
    }
}

} // verus!
