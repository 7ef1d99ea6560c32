use s3grep::emit::Channel;
use s3grep::emit::emit_outcome;
use s3grep::emit::highlight_match;
use s3grep::emit::listing_error_line;
use s3grep::emit::u64_to_dec;
use s3grep::scanner::LineMatch;
use s3grep::scanner::ObjectOutcome;

#[test]
fn decimal_formatting_is_exact() {
    assert_eq!(u64_to_dec(0), "0");
    assert_eq!(u64_to_dec(7), "7");
    assert_eq!(u64_to_dec(10), "10");
    assert_eq!(u64_to_dec(907), "907");
    assert_eq!(u64_to_dec(u64::MAX), "18446744073709551615");
}

#[test]
fn match_line_carries_location_number_and_text() {
    colored::control::set_override(false);
    let outcome = ObjectOutcome::Matches {
        matches: vec![LineMatch { line_number: 2, text: "BAR".to_string() }],
    };
    let lines = emit_outcome("bucket", "key.log", &outcome, true, "bar");
    assert_eq!(lines.len(), 1);
    assert!(matches!(lines[0].channel, Channel::Output));
    assert_eq!(lines[0].text, "s3://bucket/key.log:2:BAR");
}

#[test]
fn match_line_omits_number_when_not_requested() {
    colored::control::set_override(false);
    let outcome = ObjectOutcome::Matches {
        matches: vec![LineMatch { line_number: 2, text: "BAR".to_string() }],
    };
    let lines = emit_outcome("bucket", "key.log", &outcome, false, "bar");
    assert_eq!(lines.len(), 1);
    assert_eq!(lines[0].text, "s3://bucket/key.log:BAR");
}

#[test]
fn one_line_per_match_in_order() {
    colored::control::set_override(false);
    let outcome = ObjectOutcome::Matches {
        matches: vec![
            LineMatch { line_number: 1, text: "err one".to_string() },
            LineMatch { line_number: 3, text: "err two".to_string() },
        ],
    };
    let lines = emit_outcome("b", "k", &outcome, true, "err");
    assert_eq!(lines.len(), 2);
    assert_eq!(lines[0].text, "s3://b/k:1:err one");
    assert_eq!(lines[1].text, "s3://b/k:3:err two");
}

#[test]
fn binary_notice_names_the_object() {
    let lines = emit_outcome("b", "blob.bin", &ObjectOutcome::BinaryNotice, false, "p");
    assert_eq!(lines.len(), 1);
    assert!(matches!(lines[0].channel, Channel::Output));
    assert_eq!(lines[0].text, "Binary file blob.bin matches");
}

#[test]
fn error_outcome_is_one_diagnostic_line() {
    let outcome = ObjectOutcome::Error { message: "read failed".to_string() };
    let lines = emit_outcome("b", "k.log", &outcome, false, "p");
    assert_eq!(lines.len(), 1);
    assert!(matches!(lines[0].channel, Channel::Diagnostic));
    assert_eq!(lines[0].text, "k.log: read failed");
}

#[test]
fn skipped_container_is_one_diagnostic_line() {
    let lines = emit_outcome("b", "dir/", &ObjectOutcome::SkippedAsContainer, false, "p");
    assert_eq!(lines.len(), 1);
    assert!(matches!(lines[0].channel, Channel::Diagnostic));
    assert_eq!(lines[0].text, "dir/: Is a directory");
}

#[test]
fn listing_error_is_one_diagnostic_line() {
    let line = listing_error_line("timeout");
    assert!(matches!(line.channel, Channel::Diagnostic));
    assert_eq!(line.text, "Error searching objects: timeout");
}

#[test]
fn highlight_preserves_original_casing_and_rest_of_line() {
    colored::control::set_override(false);
    assert_eq!(highlight_match("foo BAR baz", "bar"), "foo BAR baz");
    assert_eq!(highlight_match("no hit", "zz"), "no hit");
}
