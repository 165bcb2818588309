use vstd::prelude::*;
use crate::format::{SinkConfig, format_record, line_of};
use crate::queue::{BoundedQueue, DropPolicy, step_dropped, step_items};
use crate::record::LogRecord;
use crate::rotation::{FileWrite, RotatingFileSink, file_name_of, files_of};

verus! {

/// The facility's lifecycle: `Active` from initialisation, `Draining` once
/// release is asked for, `Closed` when the queue is empty. It never goes back.
#[derive(Clone, Copy, Debug, PartialEq, Eq, Structural)]
pub enum Lifecycle {
    Active,
    Draining,
    Closed,
}

/// The dispatcher: fans each record out to the console (formatted at once)
/// and to the bounded queue that the background task drains into the
/// rotating file sink.
pub struct Logger {
    console: SinkConfig,
    queue: BoundedQueue,
    sink: RotatingFileSink,
    state: Lifecycle,
    logged: Ghost<Seq<LogRecord>>,
}

impl Logger {
    pub closed spec fn console_config(&self) -> SinkConfig {
        self.console
    }

    pub closed spec fn file_config(&self) -> SinkConfig {
        self.sink.config()
    }

    pub closed spec fn prefix_view(&self) -> Seq<char> {
        self.sink.prefix_view()
    }

    pub closed spec fn lifecycle(&self) -> Lifecycle {
        self.state
    }

    /// The records waiting for the background task, oldest first.
    pub closed spec fn queued(&self) -> Seq<LogRecord> {
        self.queue.items()
    }

    pub closed spec fn bound(&self) -> nat {
        self.queue.bound()
    }

    pub closed spec fn policy(&self) -> DropPolicy {
        self.queue.policy()
    }

    pub closed spec fn dropped_count(&self) -> nat {
        self.queue.dropped_count()
    }

    pub closed spec fn failure_count(&self) -> nat {
        self.sink.failure_count()
    }

    /// The records handed to the file sink, in order.
    pub closed spec fn written(&self) -> Seq<LogRecord> {
        self.sink.written()
    }

    /// The records logged while the facility was active, in order.
    pub closed spec fn logged(&self) -> Seq<LogRecord> {
        self.logged@
    }

    pub closed spec fn wf(&self) -> bool {
        &&& self.queue.wf()
        &&& self.sink.wf()
        &&& self.queue.dropped_count() == 0 ==> self.sink.written() + self.queue.items()
            == self.logged@
        &&& self.state == Lifecycle::Closed ==> self.queue.items().len() == 0
    }

    /// Sets up both sinks: the console with `console`, the files named from
    /// `prefix` with `file`, behind a queue of `bound` records.
    pub fn initialize(
        prefix: String,
        console: SinkConfig,
        file: SinkConfig,
        bound: usize,
        policy: DropPolicy,
    ) -> (l: Logger)
        ensures
            l.wf(),
            l.lifecycle() == Lifecycle::Active,
            l.console_config() == console,
            l.file_config() == file,
            l.prefix_view() == prefix@,
            l.bound() == bound,
            l.policy() == policy,
            l.queued() == Seq::<LogRecord>::empty(),
            l.written() == Seq::<LogRecord>::empty(),
            l.logged() == Seq::<LogRecord>::empty(),
            l.dropped_count() == 0,
            l.failure_count() == 0,
    {
        let l = Logger {
            console,
            queue: BoundedQueue::new(bound, policy),
            sink: RotatingFileSink::new(prefix, file),
            state: Lifecycle::Active,
            logged: Ghost(Seq::empty()),
        };
        assert(l.sink.written() + l.queue.items() =~= Seq::<LogRecord>::empty());
        l
    }

    /// Logs a record: returns the console line, and, while the facility is
    /// active, offers the record to the file queue without blocking.
    pub fn log(&mut self, rec: LogRecord) -> (console_line: Vec<u8>)
        requires
            old(self).wf(),
        ensures
            final(self).wf(),
            console_line@ == line_of(rec, old(self).console_config()),
            final(self).lifecycle() == old(self).lifecycle(),
            final(self).console_config() == old(self).console_config(),
            final(self).file_config() == old(self).file_config(),
            final(self).prefix_view() == old(self).prefix_view(),
            final(self).bound() == old(self).bound(),
            final(self).policy() == old(self).policy(),
            final(self).written() == old(self).written(),
            final(self).failure_count() == old(self).failure_count(),
            old(self).lifecycle() == Lifecycle::Active ==> {
                &&& final(self).logged() == old(self).logged().push(rec)
                &&& final(self).queued() == step_items(
                    old(self).queued(),
                    old(self).bound(),
                    old(self).policy(),
                    rec,
                )
                &&& final(self).dropped_count() == step_dropped(
                    old(self).queued(),
                    old(self).bound(),
                    old(self).dropped_count(),
                )
            },
            old(self).lifecycle() != Lifecycle::Active ==> {
                &&& final(self).logged() == old(self).logged()
                &&& final(self).queued() == old(self).queued()
                &&& final(self).dropped_count() == old(self).dropped_count()
            },
    {
        let line = format_record(&rec, &self.console);
        if self.state == Lifecycle::Active {
            let ghost r = rec;
            let _queued = self.queue.enqueue(rec);
            self.logged = Ghost(self.logged@.push(r));
            proof {
                if self.queue.dropped_count() == 0 {
                    assert(self.sink.written() + self.queue.items() =~= self.logged@);
                }
            }
        }
        line
    }

    /// One step of the background task: takes the oldest queued record and
    /// says what to write for it. Once release has been asked for, the step
    /// that finds the queue empty closes the facility.
    pub fn next_write(&mut self) -> (fw: Option<FileWrite>)
        requires
            old(self).wf(),
        ensures
            final(self).wf(),
            final(self).console_config() == old(self).console_config(),
            final(self).file_config() == old(self).file_config(),
            final(self).prefix_view() == old(self).prefix_view(),
            final(self).bound() == old(self).bound(),
            final(self).policy() == old(self).policy(),
            final(self).logged() == old(self).logged(),
            final(self).dropped_count() == old(self).dropped_count(),
            final(self).failure_count() == old(self).failure_count(),
            old(self).queued().len() == 0 ==> {
                &&& fw.is_none()
                &&& final(self).queued() == old(self).queued()
                &&& final(self).written() == old(self).written()
                &&& final(self).lifecycle() == if old(self).lifecycle() == Lifecycle::Active {
                    Lifecycle::Active
                } else {
                    Lifecycle::Closed
                }
            },
            old(self).queued().len() > 0 ==> {
                let r = old(self).queued()[0];
                &&& fw.is_some()
                &&& fw.unwrap().line@ == line_of(r, old(self).file_config())
                &&& fw.unwrap().open.is_some() <==> (files_of(old(self).written()).len() == 0
                    || files_of(old(self).written()).last().0 != r.window_of())
                &&& fw.unwrap().open.is_some() ==> fw.unwrap().open.unwrap()@ == file_name_of(
                    old(self).prefix_view(),
                    r.window_of(),
                )
                &&& final(self).queued() == old(self).queued().subrange(
                    1,
                    old(self).queued().len() as int,
                )
                &&& final(self).written() == old(self).written().push(r)
                &&& final(self).lifecycle() == old(self).lifecycle()
            },
    {
        match self.queue.dequeue() {
            None => {
                if self.state == Lifecycle::Draining {
                    self.state = Lifecycle::Closed;
                }
                None
            },
            Some(rec) => {
                let fw = self.sink.write(&rec);
                proof {
                    if self.queue.dropped_count() == 0 {
                        assert(self.sink.written() + self.queue.items() =~= old(self).sink.written()
                            + old(self).queue.items());
                    }
                }
                Some(fw)
            },
        }
    }

    /// Counts a failed file open or write reported by the background task.
    /// Nothing else changes: the console and the queue are unaffected.
    pub fn report_write_failure(&mut self)
        requires
            old(self).wf(),
        ensures
            final(self).wf(),
            final(self).failure_count() == crate::queue::sat_inc(old(self).failure_count()),
            final(self).console_config() == old(self).console_config(),
            final(self).file_config() == old(self).file_config(),
            final(self).prefix_view() == old(self).prefix_view(),
            final(self).lifecycle() == old(self).lifecycle(),
            final(self).bound() == old(self).bound(),
            final(self).policy() == old(self).policy(),
            final(self).queued() == old(self).queued(),
            final(self).written() == old(self).written(),
            final(self).logged() == old(self).logged(),
            final(self).dropped_count() == old(self).dropped_count(),
    {
        self.sink.record_failure();
    }
    /// Asks for release: an active facility stops taking records for the
    /// file and drains; with nothing queued it closes at once.
    pub fn begin_release(&mut self)
        requires
            old(self).wf(),
        ensures
            final(self).wf(),
            final(self).lifecycle() == if old(self).lifecycle() == Lifecycle::Active {
                if old(self).queued().len() == 0 {
                    Lifecycle::Closed
                } else {
                    Lifecycle::Draining
                }
            } else {
                old(self).lifecycle()
            },
            final(self).console_config() == old(self).console_config(),
            final(self).file_config() == old(self).file_config(),
            final(self).prefix_view() == old(self).prefix_view(),
            final(self).bound() == old(self).bound(),
            final(self).policy() == old(self).policy(),
            final(self).queued() == old(self).queued(),
            final(self).written() == old(self).written(),
            final(self).logged() == old(self).logged(),
            final(self).dropped_count() == old(self).dropped_count(),
            final(self).failure_count() == old(self).failure_count(),
    {
        if self.state == Lifecycle::Active {
            if self.queue.len() == 0 {
                self.state = Lifecycle::Closed;
            } else {
                self.state = Lifecycle::Draining;
            }
        }
    }

    /// Releases the facility: drains every queued record to the file sink,
    /// in order, and closes. Returns the file work for the drained records.
    pub fn release(&mut self) -> (writes: Vec<FileWrite>)
        requires
            old(self).wf(),
        ensures
            final(self).wf(),
            final(self).lifecycle() == Lifecycle::Closed,
            final(self).queued() == Seq::<LogRecord>::empty(),
            final(self).written() == old(self).written() + old(self).queued(),
            writes@.len() == old(self).queued().len(),
            forall|i: int|
                0 <= i < writes@.len() ==> (#[trigger] writes@[i]).line@ == line_of(
                    old(self).queued()[i],
                    old(self).file_config(),
                ),
            final(self).dropped_count() == 0 ==> final(self).written() == final(self).logged(),
            final(self).console_config() == old(self).console_config(),
            final(self).file_config() == old(self).file_config(),
            final(self).prefix_view() == old(self).prefix_view(),
            final(self).logged() == old(self).logged(),
            final(self).dropped_count() == old(self).dropped_count(),
            final(self).failure_count() == old(self).failure_count(),
    {
        self.begin_release();
        let mut writes: Vec<FileWrite> = Vec::new();
        let ghost q0 = old(self).queue.items();
        let ghost w0 = old(self).sink.written();
        while self.state != Lifecycle::Closed
            invariant
                self.wf(),
                self.lifecycle() != Lifecycle::Active,
                writes@.len() + self.queued().len() == q0.len(),
                self.queued() == q0.subrange(writes@.len() as int, q0.len() as int),
                self.written() == w0 + q0.subrange(0, writes@.len() as int),
                forall|i: int|
                    0 <= i < writes@.len() ==> (#[trigger] writes@[i]).line@ == line_of(
                        q0[i],
                        old(self).file_config(),
                    ),
                self.console_config() == old(self).console_config(),
                self.file_config() == old(self).file_config(),
                self.prefix_view() == old(self).prefix_view(),
                self.logged() == old(self).logged(),
                self.dropped_count() == old(self).dropped_count(),
                self.failure_count() == old(self).failure_count(),
            decreases self.queued().len() + if self.lifecycle() == Lifecycle::Closed {
                0int
            } else {
                1int
            },
        {
            match self.next_write() {
                None => {},
                Some(fw) => {
                    proof {
                        let k = writes@.len() as int;
                        assert(q0.subrange(0, k + 1) =~= q0.subrange(0, k).push(q0[k]));
                        assert(q0.subrange(k + 1, q0.len() as int) =~= q0.subrange(
                            k,
                            q0.len() as int,
                        ).subrange(1, q0.len() - k));
                    }
                    writes.push(fw);
                },
            }
        }
        proof {
            assert(q0.subrange(0, q0.len() as int) =~= q0);
        }
        writes
    }

    pub fn lifecycle_state(&self) -> (s: Lifecycle)
        ensures
            s == self.lifecycle(),
    {
        self.state
    }

    pub fn dropped(&self) -> (n: u64)
        ensures
            n == self.dropped_count(),
    {
        self.queue.dropped()
    }

    pub fn failures(&self) -> (n: u64)
        ensures
            n == self.failure_count(),
    {
        self.sink.failures()
    }

    pub fn queued_len(&self) -> (n: usize)
        ensures
            n == self.queued().len(),
    {
        self.queue.len()
    }
}

/// No loss: once the facility has closed with no record dropped, the file
/// sink has received every record logged while active, once each and in the
/// order they were logged.
pub proof fn lemma_closed_without_drops_keeps_all(l: Logger)
    requires
        l.wf(),
        l.lifecycle() == Lifecycle::Closed,
        l.dropped_count() == 0,
    ensures
        l.written() == l.logged(),
        l.written().len() == l.logged().len(),
{
    assert(l.written() + l.queued() =~= l.written());
}

/// Sink isolation: a failure reported by the file side leaves the console
/// options, and so the console line of every record, as they were.
pub proof fn lemma_sink_isolation(before: Logger, after: Logger, rec: LogRecord)
    requires
        after.console_config() == before.console_config(),
        after.failure_count() == crate::queue::sat_inc(before.failure_count()),
    ensures
        line_of(rec, after.console_config()) == line_of(rec, before.console_config()),
{
}

/// Graceful shutdown: before the background task has taken anything, and with
/// no record dropped, the queue holds every record logged, in order; release
/// then hands all of them to the file sink.
pub proof fn lemma_undrained_queue_holds_all(l: Logger)
    requires
        l.wf(),
        l.written().len() == 0,
        l.dropped_count() == 0,
    ensures
        l.queued() == l.logged(),
{
    assert(l.written() + l.queued() =~= l.queued());
}

} // verus!
