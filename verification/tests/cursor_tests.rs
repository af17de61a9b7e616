use logmon::cursor::{count_newlines, tail_skip, FileCursor, LineCounter};

#[test]
fn newline_counting() {
    assert_eq!(count_newlines(b""), 0);
    assert_eq!(count_newlines(b"no newline"), 0);
    assert_eq!(count_newlines(b"a\nb\nc\n"), 3);
    assert_eq!(count_newlines(b"\n\n\n\n"), 4);
}

#[test]
fn line_counter_accumulates_across_chunks() {
    let mut lc = LineCounter::new();
    assert_eq!(lc.count, 0);
    lc.add_chunk(b"one\ntw");
    lc.add_chunk(b"o\nthree\n");
    lc.add_chunk(b"partial");
    assert_eq!(lc.count, 3);
}

#[test]
fn tail_skip_arithmetic() {
    assert_eq!(tail_skip(10, 3), 7);
    assert_eq!(tail_skip(3, 3), 0);
    assert_eq!(tail_skip(2, 5), 0);
    assert_eq!(tail_skip(0, 0), 0);
}

#[test]
fn rotation_detection_is_size_decrease() {
    let c = FileCursor::new_at(40, 100);
    assert!(c.detect_rotation(99));
    assert!(c.detect_rotation(0));
    assert!(!c.detect_rotation(100));
    assert!(!c.detect_rotation(250));
}

#[test]
fn cursor_advance_tracks_offset_and_size() {
    let mut c = FileCursor::new_at(0, 10);
    c.advance(6);
    assert_eq!(c.offset, 6);
    assert_eq!(c.last_size, 10);
    c.advance(6);
    assert_eq!(c.offset, 12);
    assert_eq!(c.last_size, 12);
    c.reset_for_rotation(3);
    assert_eq!(c.offset, 0);
    assert_eq!(c.last_size, 3);
}
