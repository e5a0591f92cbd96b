use bedrock::log::{Level, LogBuffer};

#[test]
fn the_oldest_lines_are_dropped_first() {
    let mut log = LogBuffer::new(2);
    log.push(Level::Info, "a".to_string());
    log.push(Level::Warn, "b".to_string());
    log.push(Level::Error, "c".to_string());
    assert_eq!(log.lines(), vec![(Level::Warn, "b".to_string()), (Level::Error, "c".to_string())]);
    log.clear();
    assert!(log.lines().is_empty());
}

#[test]
fn a_zero_capacity_buffer_keeps_the_last_line() {
    let mut log = LogBuffer::new(0);
    log.push(Level::Info, "a".to_string());
    log.push(Level::Info, "b".to_string());
    assert_eq!(log.lines(), vec![(Level::Info, "b".to_string())]);
}

#[test]
fn levels_have_labels() {
    assert_eq!(Level::Error.label(), "ERROR");
    assert_eq!(Level::Trace.label(), "TRACE");
}
