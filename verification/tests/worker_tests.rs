use logmon::filter::FilterSpec;
use logmon::record::LogRecord;
use logmon::worker::{StartMode, TailAction, TailEvent, TailWorker, WorkerState};

fn raw_text(rec: LogRecord) -> Vec<u8> {
    match rec {
        LogRecord::Raw { text } => text,
        _ => panic!("expected raw record"),
    }
}

fn lines_of(n: usize) -> Vec<Vec<u8>> {
    (1..=n).map(|i| format!("line number {}\n", i).into_bytes()).collect()
}

#[test]
fn tail_three_of_ten_then_stop() {
    // A ten-line file shown with tail count three in one-shot mode:
    // exactly the last three lines come out, then the worker stops.
    let lines = lines_of(10);
    let size: u64 = lines.iter().map(|l| l.len() as u64).sum();
    let mut w = TailWorker::new(StartMode::TailLines(3), false, FilterSpec::none(), size, 10);
    let mut emitted: Vec<Vec<u8>> = Vec::new();
    for l in &lines {
        match w.step(TailEvent::Line(l.clone())) {
            TailAction::Emit(rec) => emitted.push(raw_text(rec)),
            TailAction::Advance => {}
            other => panic!("unexpected action {:?}", action_name(&other)),
        }
    }
    assert_eq!(emitted.len(), 3);
    assert_eq!(emitted[0], b"line number 8".to_vec());
    assert_eq!(emitted[1], b"line number 9".to_vec());
    assert_eq!(emitted[2], b"line number 10".to_vec());
    assert!(matches!(w.step(TailEvent::NoData), TailAction::Stop));
    assert!(matches!(w.state, WorkerState::Stopped));
}

#[test]
fn tail_count_larger_than_file_shows_all() {
    let lines = lines_of(2);
    let mut w = TailWorker::new(StartMode::TailLines(5), false, FilterSpec::none(), 0, 2);
    let mut emitted = 0;
    for l in &lines {
        if let TailAction::Emit(_) = w.step(TailEvent::Line(l.clone())) {
            emitted += 1;
        }
    }
    assert_eq!(emitted, 2);
}

#[test]
fn follow_empty_file_emits_one_appended_line() {
    // Follow mode on an empty file: the cursor starts at offset zero
    // (the end of the empty file); after one line is appended, one poll
    // cycle emits exactly one record.
    let mut w = TailWorker::new(StartMode::FromEnd, true, FilterSpec::none(), 0, 0);
    assert_eq!(w.cursor.offset, 0);
    assert!(matches!(w.step(TailEvent::NoData), TailAction::Sleep));
    assert!(matches!(w.state, WorkerState::Waiting));
    // The poll sees the file has grown; no rotation.
    assert!(matches!(w.step(TailEvent::Poll(6)), TailAction::Advance));
    assert!(matches!(w.state, WorkerState::Reading));
    match w.step(TailEvent::Line(b"hello\n".to_vec())) {
        TailAction::Emit(rec) => assert_eq!(raw_text(rec), b"hello".to_vec()),
        _ => panic!("expected an emission"),
    }
    assert_eq!(w.cursor.offset, 6);
    assert!(matches!(w.step(TailEvent::NoData), TailAction::Sleep));
}

#[test]
fn rotation_resets_to_start_of_new_file() {
    // Read a large file, then observe it shrunk: the worker asks for a
    // reopen, resets to offset zero, and reads the new content from the
    // first byte without skipping or repeating anything.
    let mut w = TailWorker::new(StartMode::FromStart, true, FilterSpec::none(), 100, 0);
    w.step(TailEvent::Line(vec![b'x'; 50]));
    w.step(TailEvent::Line(vec![b'y'; 50]));
    assert_eq!(w.cursor.offset, 100);
    assert!(matches!(w.step(TailEvent::NoData), TailAction::Sleep));
    assert!(matches!(w.step(TailEvent::Poll(10)), TailAction::Reopen));
    assert_eq!(w.cursor.offset, 0);
    assert!(matches!(w.state, WorkerState::Reading));
    match w.step(TailEvent::Line(b"fresh\n".to_vec())) {
        TailAction::Emit(rec) => assert_eq!(raw_text(rec), b"fresh".to_vec()),
        _ => panic!("expected an emission"),
    }
    assert_eq!(w.cursor.offset, 6);
}

#[test]
fn one_shot_mode_stops_at_end_of_file() {
    let mut w = TailWorker::new(StartMode::FromStart, false, FilterSpec::none(), 6, 0);
    assert!(matches!(w.step(TailEvent::Line(b"hello\n".to_vec())), TailAction::Emit(_)));
    assert!(matches!(w.step(TailEvent::NoData), TailAction::Stop));
    assert!(matches!(w.state, WorkerState::Stopped));
    // A stopped worker ignores everything else.
    assert!(matches!(w.step(TailEvent::Line(b"late\n".to_vec())), TailAction::Stop));
}

#[test]
fn cancellation_stops_from_any_state() {
    let mut w = TailWorker::new(StartMode::FromStart, true, FilterSpec::none(), 0, 0);
    assert!(matches!(w.step(TailEvent::Cancel), TailAction::Stop));
    assert!(matches!(w.state, WorkerState::Stopped));

    let mut w = TailWorker::new(StartMode::TailLines(5), true, FilterSpec::none(), 0, 10);
    assert!(matches!(w.state, WorkerState::Positioning));
    assert!(matches!(w.step(TailEvent::Cancel), TailAction::Stop));
    assert!(matches!(w.state, WorkerState::Stopped));
}

#[test]
fn emission_order_matches_line_order() {
    let lines = lines_of(5);
    let mut w = TailWorker::new(StartMode::FromStart, false, FilterSpec::none(), 0, 0);
    let mut emitted: Vec<Vec<u8>> = Vec::new();
    for l in &lines {
        if let TailAction::Emit(rec) = w.step(TailEvent::Line(l.clone())) {
            emitted.push(raw_text(rec));
        }
    }
    let expected: Vec<Vec<u8>> =
        (1..=5).map(|i| format!("line number {}", i).into_bytes()).collect();
    assert_eq!(emitted, expected);
}

#[test]
fn filtered_lines_are_consumed_but_not_emitted() {
    let f = FilterSpec::new(Some(b"err".to_vec()), None, None);
    let mut w = TailWorker::new(StartMode::FromStart, false, f, 0, 0);
    // Structured line at level info: filtered out, but offset advances.
    let line = b"Dec 10 06:55:48 info cron: routine\n".to_vec();
    let len = line.len() as u64;
    assert!(matches!(w.step(TailEvent::Line(line)), TailAction::Advance));
    assert_eq!(w.cursor.offset, len);
    // Structured line at level error: emitted.
    assert!(matches!(
        w.step(TailEvent::Line(b"Dec 10 06:55:49 error cron: broken\n".to_vec())),
        TailAction::Emit(_)
    ));
    // A raw line bypasses the filters entirely.
    assert!(matches!(
        w.step(TailEvent::Line(b"unstructured noise\n".to_vec())),
        TailAction::Emit(_)
    ));
}

fn action_name(a: &TailAction) -> &'static str {
    match a {
        TailAction::Emit(_) => "emit",
        TailAction::Advance => "advance",
        TailAction::Sleep => "sleep",
        TailAction::Reopen => "reopen",
        TailAction::Stop => "stop",
    }
}
