use vstd::prelude::*;
use vstd::utf8::encode_utf8;
use crate::format::{SinkConfig, digit, format_record, line_of, padded};
use crate::record::{LogRecord, Window, window_le, window_lt};

verus! {

/// `{prefix}.YYYY-MM-DD-HH`: the name of the file that holds a window.
pub open spec fn file_name_of(prefix: Seq<char>, w: Window) -> Seq<u8> {
    encode_utf8(prefix) + seq![46u8] + padded(w.year as nat, 4) + seq![45u8]
        + padded(w.month as nat, 2) + seq![45u8] + padded(w.day as nat, 2) + seq![45u8]
        + padded(w.hour as nat, 2)
}

/// The files that a stream of records fills, in the order they were opened:
/// each is its window and the records appended to it. A record extends the
/// current file when it falls in the current window and opens a new file
/// otherwise.
pub open spec fn files_of(recs: Seq<LogRecord>) -> Seq<(Window, Seq<LogRecord>)>
    decreases recs.len(),
{
    if recs.len() == 0 {
        Seq::empty()
    } else {
        let prev = files_of(recs.drop_last());
        let r = recs.last();
        if prev.len() > 0 && prev.last().0 == r.window_of() {
            prev.update(prev.len() - 1, (r.window_of(), prev.last().1.push(r)))
        } else {
            prev.push((r.window_of(), seq![r]))
        }
    }
}

/// The number of places where two consecutive records fall in different
/// windows: the hour boundaries that the stream crosses.
pub open spec fn boundaries(recs: Seq<LogRecord>) -> nat
    decreases recs.len(),
{
    if recs.len() <= 1 {
        0
    } else {
        let prev = recs.drop_last();
        boundaries(prev) + if recs.last().window_of() != prev.last().window_of() {
            1nat
        } else {
            0nat
        }
    }
}

/// The records of `recs` whose instant falls in window `w`, in order.
pub open spec fn records_in(recs: Seq<LogRecord>, w: Window) -> Seq<LogRecord>
    decreases recs.len(),
{
    if recs.len() == 0 {
        Seq::empty()
    } else if recs.last().window_of() == w {
        records_in(recs.drop_last(), w).push(recs.last())
    } else {
        records_in(recs.drop_last(), w)
    }
}

/// Records whose windows never go back in time.
pub open spec fn windows_ordered(recs: Seq<LogRecord>) -> bool {
    forall|i: int, j: int|
        0 <= i < j < recs.len() ==> window_le(
            #[trigger] recs[i].window_of(),
            #[trigger] recs[j].window_of(),
        )
}

/// What the background task does for one record: open (create or append to)
/// the named file when the record starts a new window, then append the line.
#[derive(Clone, Debug)]
pub struct FileWrite {
    pub open: Option<Vec<u8>>,
    pub line: Vec<u8>,
}

/// The rotating file sink's state: the file prefix, the line options, the
/// window of the open file, and the count of failed file operations.
pub struct RotatingFileSink {
    prefix: String,
    cfg: SinkConfig,
    current: Option<Window>,
    failures: u64,
    written: Ghost<Seq<LogRecord>>,
}

impl RotatingFileSink {
    pub closed spec fn prefix_view(&self) -> Seq<char> {
        self.prefix@
    }

    pub closed spec fn config(&self) -> SinkConfig {
        self.cfg
    }

    pub closed spec fn failure_count(&self) -> nat {
        self.failures as nat
    }

    /// Every record handed to the sink so far, in order.
    pub closed spec fn written(&self) -> Seq<LogRecord> {
        self.written@
    }

    /// The files written so far.
    pub open spec fn files(&self) -> Seq<(Window, Seq<LogRecord>)> {
        files_of(self.written())
    }

    pub closed spec fn wf(&self) -> bool {
        &&& self.written@.len() == 0 ==> self.current.is_none()
        &&& self.written@.len() > 0 ==> self.current == Some(self.written@.last().window_of())
    }

    pub fn new(prefix: String, cfg: SinkConfig) -> (s: RotatingFileSink)
        ensures
            s.wf(),
            s.prefix_view() == prefix@,
            s.config() == cfg,
            s.failure_count() == 0,
            s.written() == Seq::<LogRecord>::empty(),
    {
        RotatingFileSink { prefix, cfg, current: None, failures: 0, written: Ghost(Seq::empty()) }
    }

    /// Decides the file work for one record. A file is opened exactly when the
    /// record starts a new file: there is none yet, or the record's window is
    /// not the current file's.
    pub fn write(&mut self, rec: &LogRecord) -> (fw: FileWrite)
        requires
            old(self).wf(),
        ensures
            final(self).wf(),
            final(self).written() == old(self).written().push(*rec),
            final(self).prefix_view() == old(self).prefix_view(),
            final(self).config() == old(self).config(),
            final(self).failure_count() == old(self).failure_count(),
            fw.line@ == line_of(*rec, old(self).config()),
            fw.open.is_some() <==> (old(self).files().len() == 0
                || old(self).files().last().0 != rec.window_of()),
            fw.open.is_some() ==> fw.open.unwrap()@ == file_name_of(
                old(self).prefix_view(),
                rec.window_of(),
            ),
            final(self).files() == files_of(old(self).written().push(*rec)),
    {
        proof {
            lemma_files_last(self.written@);
        }
        let w = rec.timestamp.window();
        let open = match self.current {
            Some(c) if c == w => None,
            _ => Some(file_name(&self.prefix, &w)),
        };
        self.current = Some(w);
        self.written = Ghost(self.written@.push(*rec));
        let line = format_record(rec, &self.cfg);
        FileWrite { open, line }
    }

    /// Counts a failed file open or write; the record is lost to this sink
    /// only, and the sink goes on with the next one.
    pub fn record_failure(&mut self)
        requires
            old(self).wf(),
        ensures
            final(self).wf(),
            final(self).written() == old(self).written(),
            final(self).prefix_view() == old(self).prefix_view(),
            final(self).config() == old(self).config(),
            final(self).failure_count() == if old(self).failure_count() < u64::MAX {
                old(self).failure_count() + 1
            } else {
                old(self).failure_count()
            },
    {
        if self.failures < u64::MAX {
            self.failures = self.failures + 1;
        }
    }

    pub fn failures(&self) -> (n: u64)
        ensures
            n == self.failure_count(),
    {
        self.failures
    }
}

/// The name of the file that holds window `w`.
pub fn file_name(prefix: &String, w: &Window) -> (name: Vec<u8>)
    ensures
        name@ == file_name_of(prefix@, *w),
{
    let mut out: Vec<u8> = Vec::new();
    crate::format::push_str_bytes(&mut out, prefix);
    out.push(46u8);
    crate::format::push_padded(&mut out, w.year, 4);
    out.push(45u8);
    crate::format::push_padded(&mut out, w.month as u32, 2);
    out.push(45u8);
    crate::format::push_padded(&mut out, w.day as u32, 2);
    out.push(45u8);
    crate::format::push_padded(&mut out, w.hour as u32, 2);
    assert(out@ =~= file_name_of(prefix@, *w));
    out
}

/// The last file of a non-empty stream holds the last record's window.
pub proof fn lemma_files_last(recs: Seq<LogRecord>)
    ensures
        recs.len() == 0 ==> files_of(recs).len() == 0,
        recs.len() > 0 ==> files_of(recs).len() > 0 && files_of(recs).last().0
            == recs.last().window_of(),
    decreases recs.len(),
{
    if recs.len() > 0 {
        lemma_files_last(recs.drop_last());
    }
}

proof fn lemma_records_in_absent(recs: Seq<LogRecord>, w: Window)
    requires
        forall|i: int| 0 <= i < recs.len() ==> #[trigger] recs[i].window_of() != w,
    ensures
        records_in(recs, w) == Seq::<LogRecord>::empty(),
    decreases recs.len(),
{
    if recs.len() > 0 {
        let p = recs.drop_last();
        assert forall|i: int| 0 <= i < p.len() implies #[trigger] p[i].window_of() != w by {
            assert(p[i] == recs[i]);
        }
        lemma_records_in_absent(p, w);
    }
}

/// Rotation: a stream whose windows never go back in time and that crosses
/// `boundaries(recs)` hour boundaries fills exactly one more file than that,
/// the files' windows are distinct and ascending, and each file holds exactly
/// the records whose instant falls in its window, in order.
pub proof fn lemma_rotation(recs: Seq<LogRecord>)
    requires
        recs.len() > 0,
        windows_ordered(recs),
    ensures
        files_of(recs).len() == boundaries(recs) + 1,
        forall|i: int, j: int|
            0 <= i < j < files_of(recs).len() ==> window_lt(
                #[trigger] files_of(recs)[i].0,
                #[trigger] files_of(recs)[j].0,
            ),
        forall|j: int|
            0 <= j < files_of(recs).len() ==> #[trigger] files_of(recs)[j].1 == records_in(
                recs,
                files_of(recs)[j].0,
            ),
        files_of(recs).last().0 == recs.last().window_of(),
    decreases recs.len(),
{
    let p = recs.drop_last();
    let r = recs.last();
    let w = r.window_of();
    if p.len() == 0 {
        assert(files_of(p).len() == 0);
        assert(records_in(p, w) == Seq::<LogRecord>::empty());
        assert(records_in(recs, w) =~= seq![r]);
    } else {
        assert forall|i: int, j: int| 0 <= i < j < p.len() implies window_le(
            #[trigger] p[i].window_of(),
            #[trigger] p[j].window_of(),
        ) by {
            assert(p[i] == recs[i] && p[j] == recs[j]);
        }
        lemma_rotation(p);
        let prev = files_of(p);
        let files = files_of(recs);
        let u = p.last().window_of();
        assert(p.last() == recs[recs.len() - 2]);
        assert(window_le(u, w));
        if u == w {
            assert(files.len() == prev.len());
            assert forall|j: int| 0 <= j < files.len() implies #[trigger] files[j].1 == records_in(
                recs,
                files[j].0,
            ) by {
                if j < files.len() - 1 {
                    assert(window_lt(prev[j].0, prev.last().0));
                    assert(files[j] == prev[j]);
                }
            }
            assert forall|i: int, j: int| 0 <= i < j < files.len() implies window_lt(
                #[trigger] files[i].0,
                #[trigger] files[j].0,
            ) by {
                assert(files[i].0 == prev[i].0 && files[j].0 == prev[j].0);
            }
        } else {
            assert(window_lt(u, w));
            assert forall|i: int| 0 <= i < p.len() implies #[trigger] p[i].window_of() != w by {
                if i < p.len() - 1 {
                    assert(window_le(p[i].window_of(), u));
                }
            }
            lemma_records_in_absent(p, w);
            assert(records_in(recs, w) =~= seq![r]);
            assert forall|j: int| 0 <= j < files.len() implies #[trigger] files[j].1 == records_in(
                recs,
                files[j].0,
            ) by {
                if j < files.len() - 1 {
                    assert(files[j] == prev[j]);
                    if j < prev.len() - 1 {
                        assert(window_lt(prev[j].0, prev.last().0));
                    }
                }
            }
            assert forall|i: int, j: int| 0 <= i < j < files.len() implies window_lt(
                #[trigger] files[i].0,
                #[trigger] files[j].0,
            ) by {
                assert(files[i] == prev[i]);
                if j < files.len() - 1 {
                    assert(files[j] == prev[j]);
                } else if i < prev.len() - 1 {
                    assert(window_lt(prev[i].0, prev.last().0));
                }
            }
        }
    }
}

pub open spec fn pow10(w: nat) -> nat
    decreases w,
{
    if w == 0 {
        1
    } else {
        10 * pow10((w - 1) as nat)
    }
}

proof fn lemma_padded_len(n: nat, w: nat)
    ensures
        padded(n, w).len() == w,
    decreases w,
{
    if w > 0 {
        lemma_padded_len(n / 10, (w - 1) as nat);
    }
}

proof fn lemma_padded_injective(n: nat, m: nat, w: nat)
    requires
        n < pow10(w),
        m < pow10(w),
        padded(n, w) == padded(m, w),
    ensures
        n == m,
    decreases w,
{
    if w > 0 {
        let k = (w - 1) as nat;
        let pn = padded(n / 10, k);
        let pm = padded(m / 10, k);
        assert(padded(n, w) == pn.push(digit(n)));
        assert(padded(m, w) == pm.push(digit(m)));
        assert(pn =~= padded(n, w).drop_last());
        assert(pm =~= padded(m, w).drop_last());
        assert(padded(n, w).last() == digit(n));
        assert(padded(m, w).last() == digit(m));
        assert(digit(n) == digit(m));
        assert(n % 10 == m % 10);
        let p = pow10(k);
        assert(n / 10 < p) by (nonlinear_arith)
            requires
                n < 10 * p,
        ;
        assert(m / 10 < p) by (nonlinear_arith)
            requires
                m < 10 * p,
        ;
        lemma_padded_injective(n / 10, m / 10, k);
    }
}

pub open spec fn window_nameable(w: Window) -> bool {
    w.year <= 9999 && w.month < 100 && w.day < 100 && w.hour < 100
}

/// Distinct windows, each with at most four year digits and two of month,
/// day and hour, name distinct files.
pub proof fn lemma_file_names_distinct(prefix: Seq<char>, a: Window, b: Window)
    requires
        a != b,
        window_nameable(a),
        window_nameable(b),
    ensures
        file_name_of(prefix, a) != file_name_of(prefix, b),
{
    let l = encode_utf8(prefix).len() as int;
    lemma_padded_len(a.year as nat, 4);
    lemma_padded_len(b.year as nat, 4);
    lemma_padded_len(a.month as nat, 2);
    lemma_padded_len(b.month as nat, 2);
    lemma_padded_len(a.day as nat, 2);
    lemma_padded_len(b.day as nat, 2);
    lemma_padded_len(a.hour as nat, 2);
    lemma_padded_len(b.hour as nat, 2);
    let na = file_name_of(prefix, a);
    let nb = file_name_of(prefix, b);
    if na == nb {
        assert(na.subrange(l + 1, l + 5) =~= padded(a.year as nat, 4));
        assert(nb.subrange(l + 1, l + 5) =~= padded(b.year as nat, 4));
        assert(na.subrange(l + 6, l + 8) =~= padded(a.month as nat, 2));
        assert(nb.subrange(l + 6, l + 8) =~= padded(b.month as nat, 2));
        assert(na.subrange(l + 9, l + 11) =~= padded(a.day as nat, 2));
        assert(nb.subrange(l + 9, l + 11) =~= padded(b.day as nat, 2));
        assert(na.subrange(l + 12, l + 14) =~= padded(a.hour as nat, 2));
        assert(nb.subrange(l + 12, l + 14) =~= padded(b.hour as nat, 2));
        assert(pow10(0) == 1);
        assert(pow10(1) == 10);
        assert(pow10(2) == 100);
        assert(pow10(3) == 1000);
        assert(pow10(4) == 10000);
        lemma_padded_injective(a.year as nat, b.year as nat, 4);
        lemma_padded_injective(a.month as nat, b.month as nat, 2);
        lemma_padded_injective(a.day as nat, b.day as nat, 2);
        lemma_padded_injective(a.hour as nat, b.hour as nat, 2);
    }
}

proof fn lemma_files_nameable(recs: Seq<LogRecord>)
    requires
        forall|i: int| 0 <= i < recs.len() ==> window_nameable(#[trigger] recs[i].window_of()),
    ensures
        forall|j: int|
            0 <= j < files_of(recs).len() ==> window_nameable(#[trigger] files_of(recs)[j].0),
    decreases recs.len(),
{
    if recs.len() > 0 {
        let p = recs.drop_last();
        assert forall|i: int| 0 <= i < p.len() implies window_nameable(
            #[trigger] p[i].window_of(),
        ) by {
            assert(p[i] == recs[i]);
        }
        lemma_files_nameable(p);
        assert(window_nameable(recs[recs.len() - 1].window_of()));
        let prev = files_of(p);
        let files = files_of(recs);
        assert forall|j: int| 0 <= j < files.len() implies window_nameable(
            #[trigger] files[j].0,
        ) by {
            if j < prev.len() && !(j == prev.len() - 1 && prev.last().0 == recs.last().window_of()) {
                assert(files[j] == prev[j]);
            }
        }
    }
}

/// The files that a stream of valid instants fills, windows never going back
/// in time, all have distinct names.
pub proof fn lemma_rotation_file_names(prefix: Seq<char>, recs: Seq<LogRecord>)
    requires
        recs.len() > 0,
        windows_ordered(recs),
        forall|i: int| 0 <= i < recs.len() ==> (#[trigger] recs[i]).timestamp.wf(),
    ensures
        forall|i: int, j: int|
            0 <= i < j < files_of(recs).len() ==> file_name_of(prefix, #[trigger] files_of(recs)[i].0)
                != file_name_of(prefix, #[trigger] files_of(recs)[j].0),
{
    assert forall|i: int| 0 <= i < recs.len() implies window_nameable(
        #[trigger] recs[i].window_of(),
    ) by {
        assert(recs[i].timestamp.wf());
    }
    lemma_files_nameable(recs);
    lemma_rotation(recs);
    let files = files_of(recs);
    assert forall|i: int, j: int| 0 <= i < j < files.len() implies file_name_of(
        prefix,
        #[trigger] files[i].0,
    ) != file_name_of(prefix, #[trigger] files[j].0) by {
        assert(window_lt(files[i].0, files[j].0));
        lemma_file_names_distinct(prefix, files[i].0, files[j].0);
    }
}

} // verus!
