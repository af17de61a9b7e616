use logmon::classify::classify;
use logmon::filter::FilterSpec;
use logmon::record::LogRecord;

fn sample_structured() -> LogRecord {
    // level ERROR, process sshd, message "Failed password for root"
    classify(b"Dec 10 06:55:48 ERROR sshd[4721]: Failed password for root")
}

#[test]
fn no_filters_pass_everything() {
    let f = FilterSpec::none();
    assert!(f.accepts(&sample_structured()));
    assert!(f.accepts(&LogRecord::Raw { text: b"noise".to_vec() }));
}

#[test]
fn level_filter_is_case_insensitive_substring() {
    let f = FilterSpec::new(Some(b"err".to_vec()), None, None);
    assert!(f.accepts(&sample_structured()));
    let f = FilterSpec::new(Some(b"ERR".to_vec()), None, None);
    assert!(f.accepts(&sample_structured()));
    let f = FilterSpec::new(Some(b"warn".to_vec()), None, None);
    assert!(!f.accepts(&sample_structured()));
}

#[test]
fn process_filter_is_case_insensitive_substring() {
    let f = FilterSpec::new(None, Some(b"SSH".to_vec()), None);
    assert!(f.accepts(&sample_structured()));
    let f = FilterSpec::new(None, Some(b"cron".to_vec()), None);
    assert!(!f.accepts(&sample_structured()));
}

#[test]
fn message_filter_matches_regex_case_insensitively() {
    let f = FilterSpec::new(None, None, Some("failed|timeout".to_string()));
    assert!(f.accepts(&sample_structured()));
    let f = FilterSpec::new(None, None, Some("FAILED".to_string()));
    assert!(f.accepts(&sample_structured()));
    let f = FilterSpec::new(None, None, Some("oom".to_string()));
    assert!(!f.accepts(&sample_structured()));
}

#[test]
fn filters_are_conjoined() {
    let f = FilterSpec::new(Some(b"err".to_vec()), Some(b"sshd".to_vec()), Some("failed".to_string()));
    assert!(f.accepts(&sample_structured()));
    let f = FilterSpec::new(Some(b"err".to_vec()), Some(b"cron".to_vec()), Some("failed".to_string()));
    assert!(!f.accepts(&sample_structured()));
    let f = FilterSpec::new(Some(b"warn".to_vec()), Some(b"sshd".to_vec()), Some("failed".to_string()));
    assert!(!f.accepts(&sample_structured()));
}

#[test]
fn invalid_pattern_fails_open() {
    let f = FilterSpec::new(None, None, Some("([".to_string()));
    assert!(f.accepts(&sample_structured()));
    assert!(!f.message_filter_active());
    let f = FilterSpec::new(None, None, Some("failed".to_string()));
    assert!(f.message_filter_active());
}

#[test]
fn raw_records_bypass_all_filters() {
    let f = FilterSpec::new(
        Some(b"nomatch".to_vec()),
        Some(b"nomatch".to_vec()),
        Some("nomatch".to_string()),
    );
    assert!(!f.accepts(&sample_structured()));
    assert!(f.accepts(&LogRecord::Raw { text: b"anything at all".to_vec() }));
}
