use vstd::prelude::*;
use vstd::utf8::encode_utf8;
use crate::record::{Level, LogRecord, Timestamp};

verus! {

/// Formatting options of one sink.
#[derive(Clone, Copy, Debug, PartialEq, Eq, Structural)]
pub struct SinkConfig {
    pub with_target: bool,
    pub with_ansi: bool,
    pub with_thread_ids: bool,
    pub with_thread_names: bool,
    pub with_file: bool,
    pub with_line_number: bool,
}

pub open spec fn digit(d: nat) -> u8 {
    (48 + d % 10) as u8
}

/// Decimal digits of `n`, without leading zeros.
pub open spec fn dec(n: nat) -> Seq<u8>
    decreases n,
{
    if n < 10 {
        seq![digit(n)]
    } else {
        dec(n / 10).push(digit(n))
    }
}

/// The last `w` decimal digits of `n`, padded with leading zeros.
pub open spec fn padded(n: nat, w: nat) -> Seq<u8>
    decreases w,
{
    if w == 0 {
        Seq::empty()
    } else {
        padded(n / 10, (w - 1) as nat).push(digit(n))
    }
}

/// `YYYY-MM-DDTHH:MM:SS.ffffffZ`
pub open spec fn timestamp_bytes(t: Timestamp) -> Seq<u8> {
    padded(t.year as nat, 4) + seq![45u8] + padded(t.month as nat, 2) + seq![45u8]
        + padded(t.day as nat, 2) + seq![84u8] + padded(t.hour as nat, 2) + seq![58u8]
        + padded(t.minute as nat, 2) + seq![58u8] + padded(t.second as nat, 2) + seq![46u8]
        + padded(t.micros as nat, 6) + seq![90u8]
}

/// The level's name, right-aligned in five columns.
pub open spec fn level_name(l: Level) -> Seq<u8> {
    match l {
        Level::Trace => seq![84u8, 82u8, 65u8, 67u8, 69u8],
        Level::Debug => seq![68u8, 69u8, 66u8, 85u8, 71u8],
        Level::Info => seq![32u8, 73u8, 78u8, 70u8, 79u8],
        Level::Warn => seq![32u8, 87u8, 65u8, 82u8, 78u8],
        Level::Error => seq![69u8, 82u8, 82u8, 79u8, 82u8],
    }
}

/// The ANSI colour code of a level: purple, blue, green, yellow, red.
pub open spec fn level_color(l: Level) -> u8 {
    match l {
        Level::Trace => 53u8,
        Level::Debug => 52u8,
        Level::Info => 50u8,
        Level::Warn => 51u8,
        Level::Error => 49u8,
    }
}

pub open spec fn level_bytes(l: Level, ansi: bool) -> Seq<u8> {
    if ansi {
        seq![27u8, 91u8, 51u8, level_color(l), 109u8] + level_name(l) + seq![27u8, 91u8, 48u8, 109u8]
    } else {
        level_name(l)
    }
}

pub open spec fn thread_id_bytes(r: LogRecord, c: SinkConfig) -> Seq<u8> {
    if c.with_thread_ids {
        seq![32u8, 84u8, 104u8, 114u8, 101u8, 97u8, 100u8, 73u8, 100u8, 40u8] + dec(r.thread_id as nat)
            + seq![41u8]
    } else {
        Seq::empty()
    }
}

pub open spec fn thread_name_bytes(r: LogRecord, c: SinkConfig) -> Seq<u8> {
    match r.thread_name {
        Some(name) if c.with_thread_names => seq![32u8] + encode_utf8(name@),
        _ => Seq::empty(),
    }
}

pub open spec fn target_bytes(r: LogRecord, c: SinkConfig) -> Seq<u8> {
    if c.with_target {
        seq![32u8] + encode_utf8(r.target@) + seq![58u8]
    } else {
        Seq::empty()
    }
}

/// ` file:line:`, ` file:` or ` line:`, as the options ask.
pub open spec fn location_bytes(r: LogRecord, c: SinkConfig) -> Seq<u8> {
    if c.with_file && c.with_line_number {
        seq![32u8] + encode_utf8(r.source_file@) + seq![58u8] + dec(r.source_line as nat) + seq![
            58u8,
        ]
    } else if c.with_file {
        seq![32u8] + encode_utf8(r.source_file@) + seq![58u8]
    } else if c.with_line_number {
        seq![32u8] + dec(r.source_line as nat) + seq![58u8]
    } else {
        Seq::empty()
    }
}

/// The line a sink writes for a record: timestamp, level, thread id, thread
/// name, target, location and message, each optional part as the options ask,
/// ended by a newline.
pub open spec fn line_of(r: LogRecord, c: SinkConfig) -> Seq<u8> {
    timestamp_bytes(r.timestamp) + seq![32u8] + level_bytes(r.level, c.with_ansi)
        + thread_id_bytes(r, c) + thread_name_bytes(r, c) + target_bytes(r, c)
        + location_bytes(r, c) + seq![32u8] + encode_utf8(r.message@) + seq![10u8]
}

fn push_dec(out: &mut Vec<u8>, n: u64)
    ensures
        final(out)@ == old(out)@ + dec(n as nat),
    decreases n,
{
    if n < 10 {
        out.push((48 + n) as u8);
    } else {
        push_dec(out, n / 10);
        out.push((48 + n % 10) as u8);
    }
}

pub(crate) fn push_padded(out: &mut Vec<u8>, n: u32, w: u32)
    ensures
        final(out)@ == old(out)@ + padded(n as nat, w as nat),
    decreases w,
{
    if w > 0 {
        push_padded(out, n / 10, w - 1);
        out.push((48 + n % 10) as u8);
    }
}

pub(crate) fn push_str_bytes(out: &mut Vec<u8>, s: &String)
    ensures
        final(out)@ == old(out)@ + encode_utf8(s@),
{
    let b = s.as_str().as_bytes();
    let ghost start = out@;
    let mut i: usize = 0;
    while i < b.len()
        invariant
            i <= b@.len(),
            b@ == encode_utf8(s@),
            out@ == start + b@.subrange(0, i as int),
        decreases b@.len() - i,
    {
        out.push(b[i]);
        i = i + 1;
        proof {
            assert(b@.subrange(0, i as int) =~= b@.subrange(0, i - 1) .push(b@[i - 1]));
        }
    }
    proof {
        assert(b@.subrange(0, b@.len() as int) =~= b@);
    }
}

fn push_timestamp(out: &mut Vec<u8>, t: &Timestamp)
    ensures
        final(out)@ == old(out)@ + timestamp_bytes(*t),
{
    let ghost start = out@;
    push_padded(out, t.year, 4);
    out.push(45u8);
    push_padded(out, t.month as u32, 2);
    out.push(45u8);
    push_padded(out, t.day as u32, 2);
    out.push(84u8);
    push_padded(out, t.hour as u32, 2);
    out.push(58u8);
    push_padded(out, t.minute as u32, 2);
    out.push(58u8);
    push_padded(out, t.second as u32, 2);
    out.push(46u8);
    push_padded(out, t.micros, 6);
    out.push(90u8);
    assert(out@ =~= start + timestamp_bytes(*t));
}

fn push_level(out: &mut Vec<u8>, l: Level, ansi: bool)
    ensures
        final(out)@ == old(out)@ + level_bytes(l, ansi),
{
    let ghost start = out@;
    if ansi {
        out.push(27u8);
        out.push(91u8);
        out.push(51u8);
        let color: u8 = match l {
            Level::Trace => 53u8,
            Level::Debug => 52u8,
            Level::Info => 50u8,
            Level::Warn => 51u8,
            Level::Error => 49u8,
        };
        out.push(color);
        out.push(109u8);
    }
    let ghost mid = out@;
    match l {
        Level::Trace => {
            out.push(84u8); out.push(82u8); out.push(65u8); out.push(67u8); out.push(69u8);
        },
        Level::Debug => {
            out.push(68u8); out.push(69u8); out.push(66u8); out.push(85u8); out.push(71u8);
        },
        Level::Info => {
            out.push(32u8); out.push(73u8); out.push(78u8); out.push(70u8); out.push(79u8);
        },
        Level::Warn => {
            out.push(32u8); out.push(87u8); out.push(65u8); out.push(82u8); out.push(78u8);
        },
        Level::Error => {
            out.push(69u8); out.push(82u8); out.push(82u8); out.push(79u8); out.push(82u8);
        },
    }
    assert(out@ =~= mid + level_name(l));
    if ansi {
        out.push(27u8);
        out.push(91u8);
        out.push(48u8);
        out.push(109u8);
    }
    assert(out@ =~= start + level_bytes(l, ansi));
}

fn push_thread_id(out: &mut Vec<u8>, rec: &LogRecord, cfg: &SinkConfig)
    ensures
        final(out)@ == old(out)@ + thread_id_bytes(*rec, *cfg),
{
    let ghost start = out@;
    if cfg.with_thread_ids {
        out.push(32u8); out.push(84u8); out.push(104u8); out.push(114u8); out.push(101u8);
        out.push(97u8); out.push(100u8); out.push(73u8); out.push(100u8); out.push(40u8);
        let ghost mid = out@;
        push_dec(out, rec.thread_id);
        out.push(41u8);
        assert(mid =~= start + seq![32u8, 84u8, 104u8, 114u8, 101u8, 97u8, 100u8, 73u8, 100u8, 40u8]);
    }
    assert(out@ =~= start + thread_id_bytes(*rec, *cfg));
}

fn push_thread_name(out: &mut Vec<u8>, rec: &LogRecord, cfg: &SinkConfig)
    ensures
        final(out)@ == old(out)@ + thread_name_bytes(*rec, *cfg),
{
    let ghost start = out@;
    if cfg.with_thread_names {
        match &rec.thread_name {
            Some(name) => {
                out.push(32u8);
                push_str_bytes(out, name);
            },
            None => {},
        }
    }
    assert(out@ =~= start + thread_name_bytes(*rec, *cfg));
}

fn push_target(out: &mut Vec<u8>, rec: &LogRecord, cfg: &SinkConfig)
    ensures
        final(out)@ == old(out)@ + target_bytes(*rec, *cfg),
{
    let ghost start = out@;
    if cfg.with_target {
        out.push(32u8);
        push_str_bytes(out, &rec.target);
        out.push(58u8);
    }
    assert(out@ =~= start + target_bytes(*rec, *cfg));
}

fn push_location(out: &mut Vec<u8>, rec: &LogRecord, cfg: &SinkConfig)
    ensures
        final(out)@ == old(out)@ + location_bytes(*rec, *cfg),
{
    let ghost start = out@;
    if cfg.with_file {
        out.push(32u8);
        push_str_bytes(out, &rec.source_file);
        if cfg.with_line_number {
            out.push(58u8);
            push_dec(out, rec.source_line as u64);
        }
        out.push(58u8);
    } else if cfg.with_line_number {
        out.push(32u8);
        push_dec(out, rec.source_line as u64);
        out.push(58u8);
    }
    assert(out@ =~= start + location_bytes(*rec, *cfg));
}

fn push_byte(out: &mut Vec<u8>, b: u8)
    ensures
        final(out)@ == old(out)@ + seq![b],
{
    out.push(b);
    assert(out@ =~= old(out)@ + seq![b]);
}

/// Formats a record as the line a sink with options `cfg` writes.
pub fn format_record(rec: &LogRecord, cfg: &SinkConfig) -> (line: Vec<u8>)
    ensures
        line@ == line_of(*rec, *cfg),
{
    let mut out: Vec<u8> = Vec::new();
    push_timestamp(&mut out, &rec.timestamp);
    assert(out@ =~= timestamp_bytes(rec.timestamp));
    push_byte(&mut out, 32u8);
    push_level(&mut out, rec.level, cfg.with_ansi);
    push_thread_id(&mut out, rec, cfg);
    push_thread_name(&mut out, rec, cfg);
    push_target(&mut out, rec, cfg);
    push_location(&mut out, rec, cfg);
    push_byte(&mut out, 32u8);
    push_str_bytes(&mut out, &rec.message);
    push_byte(&mut out, 10u8);
    out
}

/// Formatting is a function of the record and the options alone: formatting
/// the same record with the same options twice yields byte-identical lines.
pub proof fn lemma_format_deterministic(r1: LogRecord, r2: LogRecord, c1: SinkConfig, c2: SinkConfig)
    requires
        r1 == r2,
        c1 == c2,
    ensures
        line_of(r1, c1) == line_of(r2, c2),
{
}

} // verus!
