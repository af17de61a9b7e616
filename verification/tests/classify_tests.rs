use logmon::classify::classify;
use logmon::record::LogRecord;

fn expect_structured(
    rec: LogRecord,
) -> (Vec<u8>, Option<Vec<u8>>, Vec<u8>, Option<u64>, Vec<u8>, Vec<u8>) {
    match rec {
        LogRecord::Structured { timestamp, hostname, process, pid, level, message } => {
            (timestamp, hostname, process, pid, level, message)
        }
        LogRecord::Raw { text } => panic!("expected structured, got raw {:?}", text),
    }
}

#[test]
fn syslog_example_line() {
    let rec = classify(b"<34>Oct 11 22:14:15 mymachine su: 'su root' failed for lonvick");
    let (ts, host, proc_name, pid, level, msg) = expect_structured(rec);
    assert_eq!(ts, b"Oct 11 22:14:15".to_vec());
    assert_eq!(host, Some(b"mymachine".to_vec()));
    assert_eq!(proc_name, b"su".to_vec());
    assert_eq!(pid, None);
    // severity 34 % 8 == 2
    assert_eq!(level, b"crit".to_vec());
    assert_eq!(msg, b"'su root' failed for lonvick".to_vec());
}

#[test]
fn syslog_line_with_terminator_and_pid() {
    let rec = classify(b"<13>Feb  5 03:04:05 host cron[99]: job done\n");
    let (ts, host, proc_name, pid, level, msg) = expect_structured(rec);
    assert_eq!(ts, b"Feb  5 03:04:05".to_vec());
    assert_eq!(host, Some(b"host".to_vec()));
    assert_eq!(proc_name, b"cron".to_vec());
    assert_eq!(pid, Some(99));
    // severity 13 % 8 == 5
    assert_eq!(level, b"notice".to_vec());
    assert_eq!(msg, b"job done".to_vec());
}

#[test]
fn syslog_priority_too_large_is_not_syslog() {
    // 192 is outside the valid priority range, so the syslog strategy
    // rejects the line. The fixed-format strategy still matches it, with
    // the whole `<192>...` prefix read as the timestamp word.
    let rec = classify(b"<192>Oct 11 22:14:15 mymachine su: hello");
    let (ts, host, _, _, level, _) = expect_structured(rec);
    assert_eq!(ts, b"<192>Oct 11 22:14:15".to_vec());
    assert_eq!(host, None);
    assert_eq!(level, b"mymachine".to_vec());
    // With no time-of-day shape anywhere, both strategies fail.
    let rec = classify(b"<192>badline");
    assert!(matches!(rec, LogRecord::Raw { .. }));
}

#[test]
fn fixed_format_line() {
    let rec = classify(b"Dec 10 06:55:48 ERROR sshd[4721]: Failed password for root\n");
    let (ts, host, proc_name, pid, level, msg) = expect_structured(rec);
    assert_eq!(ts, b"Dec 10 06:55:48".to_vec());
    assert_eq!(host, None);
    assert_eq!(level, b"ERROR".to_vec());
    assert_eq!(proc_name, b"sshd".to_vec());
    assert_eq!(pid, Some(4721));
    assert_eq!(msg, b"Failed password for root".to_vec());
}

#[test]
fn fixed_format_non_numeric_pid_is_absent() {
    // A bracketed but non-numeric pid folds into the process name and
    // the pid stays absent; the line still parses.
    let rec = classify(b"Dec 10 06:55:48 warn app[ab]: something happened");
    let (_, host, proc_name, pid, level, msg) = expect_structured(rec);
    assert_eq!(host, None);
    assert_eq!(level, b"warn".to_vec());
    assert_eq!(proc_name, b"app[ab]".to_vec());
    assert_eq!(pid, None);
    assert_eq!(msg, b"something happened".to_vec());
}

#[test]
fn unparsable_line_is_raw() {
    let rec = classify(b"hello world\n");
    match rec {
        LogRecord::Raw { text } => assert_eq!(text, b"hello world".to_vec()),
        _ => panic!("expected raw"),
    }
}

#[test]
fn empty_line_is_raw() {
    match classify(b"") {
        LogRecord::Raw { text } => assert_eq!(text, Vec::<u8>::new()),
        _ => panic!("expected raw"),
    }
    match classify(b"\n") {
        LogRecord::Raw { text } => assert_eq!(text, Vec::<u8>::new()),
        _ => panic!("expected raw"),
    }
    match classify(b"\r\n") {
        LogRecord::Raw { text } => assert_eq!(text, Vec::<u8>::new()),
        _ => panic!("expected raw"),
    }
}

#[test]
fn every_severity_name() {
    let names: [&[u8]; 8] = [
        b"emerg", b"alert", b"crit", b"err", b"warning", b"notice", b"info", b"debug",
    ];
    for (sev, want) in names.iter().enumerate() {
        // priority = facility 0, severity `sev`
        let line = format!("<{}>Oct 11 22:14:15 host tag: msg", sev);
        let (_, _, _, _, level, _) = expect_structured(classify(line.as_bytes()));
        assert_eq!(level, want.to_vec());
    }
}
