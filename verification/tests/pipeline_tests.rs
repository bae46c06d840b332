use cu::config::Opt;
use cu::pipeline::{go, Driver, RunError};
use cu::pattern::Pattern;
use cu::record::join_fields;
use cu::tester::CsvRecordTester;

fn opt(regex: &str, no_header: bool) -> Opt {
    Opt { regex: regex.to_string(), no_header, file: None }
}

#[test]
fn header_kept_with_exemption() {
    let input = b"id,name\n1,apple\n2,banana\n" as &[u8];
    let (lines, status) = go(&opt("an", false), input);
    assert_eq!(lines, vec!["id,name".to_string(), "2,banana".to_string()]);
    assert!(status.is_none());
}

#[test]
fn header_suppressed_without_exemption() {
    let input = b"id,name\n1,apple\n2,banana\n" as &[u8];
    let (lines, status) = go(&opt("an", true), input);
    assert_eq!(lines, vec!["2,banana".to_string()]);
    assert!(status.is_none());

    let (lines, status) = go(&opt("id", true), input);
    assert_eq!(lines, vec!["id,name".to_string()]);
    assert!(status.is_none());
}

#[test]
fn variable_field_counts_are_tolerated() {
    let input = b"a,b,c\nx,y\n" as &[u8];
    let (lines, status) = go(&opt("x,y", false), input);
    assert_eq!(lines, vec!["a,b,c".to_string(), "x,y".to_string()]);
    assert!(status.is_none());
}

#[test]
fn empty_input_yields_nothing_and_succeeds() {
    let (lines, status) = go(&opt("an", false), b"" as &[u8]);
    assert!(lines.is_empty());
    assert!(status.is_none());
}

#[test]
fn invalid_pattern_fails_before_any_output() {
    let input = b"id,name\n1,apple\n" as &[u8];
    let (lines, status) = go(&opt("(", false), input);
    assert!(lines.is_empty());
    let err = status.expect("an unbalanced group must be rejected");
    assert!(matches!(err, RunError::Pattern(_)));
    assert!(!err.message().is_empty());
}

#[test]
fn malformed_row_stops_the_stream() {
    let mut input = b"apple,1\napple,2\n".to_vec();
    input.extend_from_slice(&[0xff, 0xfe]);
    input.extend_from_slice(b"\napple,3\n");
    let (lines, status) = go(&opt("apple", true), &input);
    assert_eq!(lines, vec!["apple,1".to_string(), "apple,2".to_string()]);
    let err = status.expect("a malformed row must fail the run");
    assert!(matches!(err, RunError::Parse(_)));
    assert!(!err.message().is_empty());
}

#[test]
fn match_is_substring_not_anchored() {
    let input = b"1,banana\n" as &[u8];
    let (lines, status) = go(&opt("an", true), input);
    assert_eq!(lines, vec!["1,banana".to_string()]);
    assert!(status.is_none());

    let (lines, status) = go(&opt("^an", true), input);
    assert!(lines.is_empty());
    assert!(status.is_none());
}

#[test]
fn quoted_fields_are_parsed_and_rejoined_losslessly_enough_to_match() {
    let input = b"\"a,b\",c\n" as &[u8];
    let (lines, status) = go(&opt("a,b,c", true), input);
    assert_eq!(lines, vec!["a,b,c".to_string()]);
    assert!(status.is_none());
}

#[test]
fn join_fields_reconstructs_the_line() {
    let fields = vec!["a".to_string(), "b".to_string(), "c".to_string()];
    assert_eq!(join_fields(&fields), "a,b,c".to_string());
    assert_eq!(join_fields(&Vec::new()), String::new());
    assert_eq!(join_fields(&vec!["x".to_string()]), "x".to_string());
    let fields = vec!["a,b".to_string(), "c".to_string()];
    assert_eq!(join_fields(&fields), "a,b,c".to_string());
}

#[test]
fn tester_exempts_only_index_zero() {
    let p = Pattern::new("apple").expect("valid pattern");
    let t = CsvRecordTester::new(true, p);
    assert!(t.test(0, "zzz"));
    assert!(!t.test(1, "zzz"));
    assert!(t.test(1, "an apple a day"));

    let p = Pattern::new("apple").expect("valid pattern");
    let t = CsvRecordTester::new(false, p);
    assert!(!t.test(0, "zzz"));
    assert!(t.test(0, "apple"));
}

#[test]
fn pattern_compilation_is_checked_once() {
    assert!(Pattern::new("a(b)c").is_ok());
    let err = Pattern::new("a(b").err().expect("unbalanced group must fail");
    assert!(!err.is_empty());
}

#[test]
fn driver_emits_each_passing_line_as_the_record_arrives() {
    let p = Pattern::new("an").expect("valid pattern");
    let mut d = Driver::new(CsvRecordTester::new(true, p));
    // The first record's output is available before any later record
    // is supplied.
    let first = d.on_record(&vec!["id".to_string(), "name".to_string()]);
    assert_eq!(first, Some("id,name".to_string()));
    let second = d.on_record(&vec!["1".to_string(), "apple".to_string()]);
    assert_eq!(second, None);
    let third = d.on_record(&vec!["2".to_string(), "banana".to_string()]);
    assert_eq!(third, Some("2,banana".to_string()));
}
