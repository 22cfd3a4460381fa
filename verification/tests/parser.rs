use datafusion_log_reader::parser::{find_first, parse_line, split_lines, tokenize};
use datafusion_log_reader::DataFusionLogError;

#[test]
fn round_trip_single_line() {
    let rec = parse_line("[2023-01-01T10:00:00Z] [INFO] [loc] hello world").unwrap();

    assert_eq!(1_672_567_200_000_000i64, rec.time_micros);
    assert_eq!("INFO", rec.level);
    assert_eq!("loc", rec.location);
    assert_eq!("hello world", rec.message);
}

#[test]
fn tokenize_discards_empty_tokens() {
    let toks = tokenize("[2023-01-01T10:00:00Z] [INFO] [loc] hello world");
    assert_eq!(
        vec!["2023-01-01T10:00:00Z", "INFO", "loc", "hello", "world"],
        toks
    );

    assert_eq!(vec!["a", "b"], tokenize("  a   ]][ b ["));
    assert!(tokenize("").is_empty());
    assert!(tokenize(" [ ] ").is_empty());
}

#[test]
fn short_line_is_format_error() {
    let result = parse_line("[2023-01-01T10:00:00Z] [INFO]");

    assert!(matches!(
        result,
        Err(DataFusionLogError::Format { line }) if line == "[2023-01-01T10:00:00Z] [INFO]"
    ));
}

#[test]
fn bad_timestamp_is_format_error() {
    let result = parse_line("[not-a-time] [INFO] [loc] message");

    assert!(matches!(result, Err(DataFusionLogError::Format { .. })));
}

#[test]
fn message_keeps_spaces_and_punctuation() {
    let rec = parse_line("[2023-01-01T10:00:00Z] [ERROR] [db::conn] retry 3/5: timeout,  backing off").unwrap();

    assert_eq!("ERROR", rec.level);
    assert_eq!("db::conn", rec.location);
    assert_eq!("retry 3/5: timeout,  backing off", rec.message);
}

#[test]
fn message_splits_at_first_location_occurrence() {
    // The message starts after the first occurrence of the location token
    // in the raw line; when the location text recurs earlier (here inside
    // the timestamp) the split lands there. The parse must agree with that
    // documented rule, computed here directly on the raw line.
    for line in [
        "[2023-01-01T10:00:00Z] [INFO] [loc] hello world",
        "[2023-01-01T10:00:00Z] [INFO] [01] tail text",
        "[2023-01-01T10:00:00Z] [WARN] [IN] drop",
    ] {
        let rec = parse_line(line).unwrap();
        let loc = &rec.location;
        let start = line.find(loc.as_str()).unwrap() + loc.len() + 2;
        let expected = if start <= line.len() { &line[start..] } else { "" };
        assert_eq!(expected, rec.message, "line: {line}");
    }
}

#[test]
fn timestamps_convert_to_utc_micros() {
    let rec = parse_line("[2023-01-01T12:00:00+02:00] [INFO] [loc] offset").unwrap();
    // 2023-01-01T12:00:00+02:00 is 2023-01-01T10:00:00Z.
    assert_eq!(1_672_567_200_000_000i64, rec.time_micros);

    let rec = parse_line("[1970-01-01T00:00:01Z] [INFO] [loc] second one").unwrap();
    assert_eq!(1_000_000i64, rec.time_micros);
}

#[test]
fn split_lines_matches_line_semantics() {
    assert_eq!(vec!["a", "b"], split_lines("a\nb\n"));
    assert_eq!(vec!["a", "", "b"], split_lines("a\n\nb"));
    assert_eq!(vec!["a", "b"], split_lines("a\r\nb\r\n"));
    assert!(split_lines("").is_empty());
    assert_eq!(vec!["last"], split_lines("last"));
    // A bare final carriage return that no newline terminates is kept.
    assert_eq!(vec!["a\r"], split_lines("a\r"));
}

#[test]
fn find_first_returns_earliest_occurrence() {
    assert_eq!(Some(2), find_first("abcabc", "cab"));
    assert_eq!(Some(0), find_first("abc", ""));
    assert_eq!(None, find_first("abc", "zz"));
    assert_eq!(None, find_first("ab", "abc"));
}
