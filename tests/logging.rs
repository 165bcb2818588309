use tracingl::{
    console_config, file_config, file_name, format_record, BoundedQueue, Data, DropPolicy,
    FileWrite, Level, Lifecycle, LogRecord, Logger, RotatingFileSink, SinkConfig, Timestamp,
    Window, LOG_DIRECTORY, LOG_PREFIX,
};

fn at(year: u32, month: u8, day: u8, hour: u8, minute: u8, second: u8, micros: u32) -> Timestamp {
    Timestamp { year, month, day, hour, minute, second, micros }
}

fn record(level: Level, message: &str, timestamp: Timestamp) -> LogRecord {
    LogRecord::new(
        level,
        message.to_string(),
        timestamp,
        1,
        Some("main".to_string()),
        "tracingl".to_string(),
        "src/main.rs".to_string(),
        7,
    )
}

fn text(bytes: &[u8]) -> String {
    String::from_utf8(bytes.to_vec()).unwrap()
}

fn plain() -> SinkConfig {
    SinkConfig {
        with_target: false,
        with_ansi: false,
        with_thread_ids: false,
        with_thread_names: false,
        with_file: false,
        with_line_number: false,
    }
}

#[test]
fn file_line_has_every_field_in_order() {
    let r = record(Level::Info, "Hello, world!", at(2024, 3, 5, 7, 8, 9, 123));
    let line = format_record(&r, &file_config());
    assert_eq!(
        text(&line),
        "2024-03-05T07:08:09.000123Z  INFO ThreadId(1) main src/main.rs:7: Hello, world!\n"
    );
}

#[test]
fn console_line_colours_the_level() {
    let r = record(Level::Warn, "warning 1", at(2024, 3, 5, 7, 8, 9, 0));
    let line = format_record(&r, &console_config());
    assert_eq!(
        text(&line),
        "2024-03-05T07:08:09.000000Z \u{1b}[33m WARN\u{1b}[0m ThreadId(1) main src/main.rs:7: warning 1\n"
    );
}

#[test]
fn plain_line_has_only_timestamp_level_and_message() {
    let r = record(Level::Error, "boom", at(1999, 12, 31, 23, 59, 59, 999999));
    assert_eq!(text(&format_record(&r, &plain())), "1999-12-31T23:59:59.999999Z ERROR boom\n");
}

#[test]
fn every_level_has_a_five_column_name() {
    let t = at(2024, 1, 1, 0, 0, 0, 0);
    let names = [
        (Level::Trace, "TRACE"),
        (Level::Debug, "DEBUG"),
        (Level::Info, " INFO"),
        (Level::Warn, " WARN"),
        (Level::Error, "ERROR"),
    ];
    for (level, name) in names {
        let line = format_record(&record(level, "m", t), &plain());
        assert_eq!(text(&line), format!("2024-01-01T00:00:00.000000Z {} m\n", name));
    }
}

#[test]
fn target_file_and_line_options() {
    let t = at(2024, 1, 1, 0, 0, 0, 0);
    let r = LogRecord::new(Level::Debug, "x".to_string(), t, 42, None, "app".to_string(), "a.rs".to_string(), 1234);
    let mut c = plain();
    c.with_target = true;
    assert_eq!(text(&format_record(&r, &c)), "2024-01-01T00:00:00.000000Z DEBUG app: x\n");
    let mut c = plain();
    c.with_file = true;
    assert_eq!(text(&format_record(&r, &c)), "2024-01-01T00:00:00.000000Z DEBUG a.rs: x\n");
    let mut c = plain();
    c.with_line_number = true;
    assert_eq!(text(&format_record(&r, &c)), "2024-01-01T00:00:00.000000Z DEBUG 1234: x\n");
    let mut c = plain();
    c.with_thread_ids = true;
    c.with_thread_names = true;
    assert_eq!(text(&format_record(&r, &c)), "2024-01-01T00:00:00.000000Z DEBUG ThreadId(42) x\n");
}

#[test]
fn formatting_twice_is_byte_identical() {
    let r = record(Level::Info, "same", at(2024, 6, 1, 12, 0, 0, 5));
    for c in [console_config(), file_config(), plain()] {
        assert_eq!(format_record(&r, &c), format_record(&r, &c));
    }
}

#[test]
fn non_ascii_message_is_utf8() {
    let r = record(Level::Info, "日志", at(2024, 1, 1, 0, 0, 0, 0));
    assert_eq!(text(&format_record(&r, &plain())), "2024-01-01T00:00:00.000000Z  INFO 日志\n");
}

#[test]
fn file_name_is_prefix_and_hour() {
    let w = Window { year: 2024, month: 3, day: 5, hour: 7 };
    assert_eq!(text(&file_name(&"app.log".to_string(), &w)), "app.log.2024-03-05-07");
    assert_eq!(at(2024, 3, 5, 7, 59, 59, 999999).window(), w);
}

#[test]
fn rotation_opens_one_file_per_window() {
    let mut sink = RotatingFileSink::new("app.log".to_string(), file_config());
    let stamps = [
        at(2024, 3, 5, 10, 0, 0, 0),
        at(2024, 3, 5, 10, 59, 59, 0),
        at(2024, 3, 5, 11, 0, 0, 0),
        at(2024, 3, 5, 11, 30, 0, 0),
        at(2024, 3, 5, 12, 1, 0, 0),
    ];
    let mut files: Vec<(String, Vec<String>)> = Vec::new();
    for (i, t) in stamps.iter().enumerate() {
        let r = record(Level::Info, &format!("r{}", i), *t);
        let fw: FileWrite = sink.write(&r);
        if let Some(name) = fw.open {
            files.push((text(&name), Vec::new()));
        }
        files.last_mut().unwrap().1.push(text(&fw.line));
    }
    let names: Vec<&str> = files.iter().map(|f| f.0.as_str()).collect();
    assert_eq!(names, vec!["app.log.2024-03-05-10", "app.log.2024-03-05-11", "app.log.2024-03-05-12"]);
    let counts: Vec<usize> = files.iter().map(|f| f.1.len()).collect();
    assert_eq!(counts, vec![2, 2, 1]);
    assert!(files[1].1[0].ends_with(" r2\n"));
    assert!(files[1].1[1].ends_with(" r3\n"));
}

#[test]
fn rotation_at_midnight_and_new_year() {
    let mut sink = RotatingFileSink::new("p".to_string(), plain());
    let a = sink.write(&record(Level::Info, "a", at(2023, 12, 31, 23, 59, 59, 999999)));
    let b = sink.write(&record(Level::Info, "b", at(2024, 1, 1, 0, 0, 0, 0)));
    let c = sink.write(&record(Level::Info, "c", at(2024, 1, 1, 0, 0, 0, 1)));
    assert_eq!(text(&a.open.unwrap()), "p.2023-12-31-23");
    assert_eq!(text(&b.open.unwrap()), "p.2024-01-01-00");
    assert!(c.open.is_none());
}

#[test]
fn sink_counts_failures() {
    let mut sink = RotatingFileSink::new("p".to_string(), plain());
    assert_eq!(sink.failures(), 0);
    sink.record_failure();
    sink.record_failure();
    assert_eq!(sink.failures(), 2);
}

fn offer_all(bound: usize, policy: DropPolicy, n: usize) -> (Vec<String>, u64) {
    let mut q = BoundedQueue::new(bound, policy);
    for i in 0..n {
        q.enqueue(record(Level::Info, &format!("m{}", i), at(2024, 1, 1, 0, 0, 0, 0)));
    }
    let dropped = q.dropped();
    let mut kept = Vec::new();
    while let Some(r) = q.dequeue() {
        kept.push(r.message);
    }
    (kept, dropped)
}

#[test]
fn full_queue_drops_oldest() {
    let (kept, dropped) = offer_all(3, DropPolicy::DropOldest, 5);
    assert_eq!(kept, vec!["m2", "m3", "m4"]);
    assert_eq!(dropped, 2);
}

#[test]
fn full_queue_drops_newest() {
    let (kept, dropped) = offer_all(3, DropPolicy::DropNewest, 5);
    assert_eq!(kept, vec!["m0", "m1", "m2"]);
    assert_eq!(dropped, 2);
}

#[test]
fn queue_under_bound_keeps_all_in_order() {
    let (kept, dropped) = offer_all(8, DropPolicy::DropOldest, 4);
    assert_eq!(kept, vec!["m0", "m1", "m2", "m3"]);
    assert_eq!(dropped, 0);
}

#[test]
fn queue_of_bound_zero_keeps_nothing() {
    let (kept, dropped) = offer_all(0, DropPolicy::DropOldest, 3);
    assert!(kept.is_empty());
    assert_eq!(dropped, 3);
}

#[test]
fn enqueue_reports_whether_queued() {
    let mut q = BoundedQueue::new(1, DropPolicy::DropNewest);
    let t = at(2024, 1, 1, 0, 0, 0, 0);
    assert!(q.enqueue(record(Level::Info, "a", t)));
    assert!(!q.enqueue(record(Level::Info, "b", t)));
    assert_eq!(q.len(), 1);
}

fn logger(bound: usize, policy: DropPolicy) -> Logger {
    Logger::initialize(LOG_PREFIX.to_string(), console_config(), file_config(), bound, policy)
}

#[test]
fn every_logged_line_reaches_the_file_in_order() {
    let mut l = logger(64, DropPolicy::DropNewest);
    let t = at(2024, 3, 5, 7, 0, 0, 0);
    let mut expected = Vec::new();
    let mut lines = Vec::new();
    for i in 0..10 {
        let r = record(Level::Info, &format!("n{}", i), t);
        expected.push(text(&format_record(&r, &file_config())));
        l.log(r);
        if i % 3 == 0 {
            lines.push(text(&l.next_write().unwrap().line));
        }
    }
    for fw in l.release() {
        lines.push(text(&fw.line));
    }
    assert_eq!(lines.len(), 10);
    assert_eq!(lines, expected);
    assert_eq!(l.lifecycle_state(), Lifecycle::Closed);
    assert_eq!(l.dropped(), 0);
}

#[test]
fn release_before_any_drain_keeps_every_record() {
    let mut l = logger(16, DropPolicy::DropOldest);
    let t = at(2024, 3, 5, 7, 0, 0, 0);
    for i in 0..5 {
        l.log(record(Level::Info, &format!("k{}", i), t));
    }
    assert_eq!(l.queued_len(), 5);
    let writes = l.release();
    assert_eq!(writes.len(), 5);
    assert_eq!(text(writes[0].open.as_ref().unwrap()), "app.log.2024-03-05-07");
    for (i, fw) in writes.iter().enumerate() {
        assert!(text(&fw.line).ends_with(&format!(" k{}\n", i)));
        assert_eq!(fw.open.is_some(), i == 0);
    }
    assert_eq!(l.queued_len(), 0);
}

#[test]
fn logger_backpressure_counts_drops() {
    let mut l = logger(2, DropPolicy::DropOldest);
    let t = at(2024, 3, 5, 7, 0, 0, 0);
    for i in 0..6 {
        l.log(record(Level::Info, &format!("d{}", i), t));
    }
    assert_eq!(l.queued_len(), 2);
    assert_eq!(l.dropped(), 4);
    let writes = l.release();
    assert!(text(&writes[0].line).ends_with(" d4\n"));
    assert!(text(&writes[1].line).ends_with(" d5\n"));
}

#[test]
fn file_failure_leaves_console_line_unchanged() {
    let mut healthy = logger(8, DropPolicy::DropNewest);
    let mut failing = logger(8, DropPolicy::DropNewest);
    let t = at(2024, 3, 5, 7, 0, 0, 0);
    failing.log(record(Level::Info, "first", t));
    let _ = failing.next_write();
    failing.report_write_failure();
    assert_eq!(failing.failures(), 1);
    let a = healthy.log(record(Level::Error, "same", t));
    let b = failing.log(record(Level::Error, "same", t));
    assert_eq!(a, b);
    assert_eq!(a, format_record(&record(Level::Error, "same", t), &console_config()));
}

#[test]
fn lifecycle_goes_active_draining_closed() {
    let mut l = logger(8, DropPolicy::DropNewest);
    let t = at(2024, 3, 5, 7, 0, 0, 0);
    assert_eq!(l.lifecycle_state(), Lifecycle::Active);
    l.log(record(Level::Info, "a", t));
    l.begin_release();
    assert_eq!(l.lifecycle_state(), Lifecycle::Draining);
    let line = l.log(record(Level::Info, "late", t));
    assert!(text(&line).ends_with(" late\n"));
    assert_eq!(l.queued_len(), 1);
    assert!(l.next_write().is_some());
    assert_eq!(l.lifecycle_state(), Lifecycle::Draining);
    assert!(l.next_write().is_none());
    assert_eq!(l.lifecycle_state(), Lifecycle::Closed);
    assert!(l.release().is_empty());
    assert_eq!(l.lifecycle_state(), Lifecycle::Closed);
}

#[test]
fn release_of_an_idle_logger_closes_at_once() {
    let mut l = logger(8, DropPolicy::DropNewest);
    l.begin_release();
    assert_eq!(l.lifecycle_state(), Lifecycle::Closed);
    assert!(l.next_write().is_none());
}

#[test]
fn setup_values() {
    assert_eq!(LOG_DIRECTORY, "./logs");
    assert_eq!(LOG_PREFIX, "app.log");
    let c = console_config();
    assert!(c.with_ansi && !c.with_target && c.with_thread_ids && c.with_thread_names);
    let f = file_config();
    assert!(!f.with_ansi && !f.with_target && f.with_file && f.with_line_number);
}

#[test]
fn data_new_and_push() {
    let d = Data::new();
    d.push(1);
}

#[test]
fn timestamp_from_parts_checks_the_calendar() {
    assert_eq!(Timestamp::from_parts(2024, 2, 29, 23, 59, 59, 999999), Some(at(2024, 2, 29, 23, 59, 59, 999999)));
    assert_eq!(Timestamp::from_parts(2023, 2, 29, 0, 0, 0, 0), None);
    assert_eq!(Timestamp::from_parts(1900, 2, 29, 0, 0, 0, 0), None);
    assert_eq!(Timestamp::from_parts(2000, 2, 29, 0, 0, 0, 0), Some(at(2000, 2, 29, 0, 0, 0, 0)));
    assert_eq!(Timestamp::from_parts(2024, 4, 31, 0, 0, 0, 0), None);
    assert_eq!(Timestamp::from_parts(2024, 13, 1, 0, 0, 0, 0), None);
    assert_eq!(Timestamp::from_parts(2024, 1, 1, 24, 0, 0, 0), None);
    assert_eq!(Timestamp::from_parts(2024, 1, 1, 0, 0, 0, 1_000_000), None);
    assert_eq!(Timestamp::from_parts(0, 1, 1, 0, 0, 0, 0), None);
    assert_eq!(Timestamp::from_parts(10000, 1, 1, 0, 0, 0, 0), None);
}
