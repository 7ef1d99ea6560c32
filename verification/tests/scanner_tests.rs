use s3grep::scanner::ObjectOutcome;
use s3grep::scanner::ScanState;

fn scan_bytes(bytes: &[u8], pattern: &str, case_sensitive: bool) -> ObjectOutcome {
    let mut state = ScanState::new(pattern, case_sensitive);
    state.push_chunk(bytes);
    state.finish()
}

#[test]
fn insensitive_scan_yields_single_match() {
    match scan_bytes(b"foo\nBAR\nbaz\n", "bar", false) {
        ObjectOutcome::Matches { matches } => {
            assert_eq!(matches.len(), 1);
            assert_eq!(matches[0].line_number, 2);
            assert_eq!(matches[0].text, "BAR");
        }
        _ => panic!("expected a match list"),
    }
}

#[test]
fn trailing_line_without_terminator_is_reported() {
    match scan_bytes(b"alpha\nbeta", "beta", true) {
        ObjectOutcome::Matches { matches } => {
            assert_eq!(matches.len(), 1);
            assert_eq!(matches[0].line_number, 2);
            assert_eq!(matches[0].text, "beta");
        }
        _ => panic!("expected a match list"),
    }
}

#[test]
fn line_numbers_start_at_one_and_strictly_increase() {
    match scan_bytes(b"m1\nx\nm2\nm3\n", "m", true) {
        ObjectOutcome::Matches { matches } => {
            let got: Vec<(u64, &str)> =
                matches.iter().map(|m| (m.line_number, m.text.as_str())).collect();
            assert_eq!(got, vec![(1, "m1"), (3, "m2"), (4, "m3")]);
            for w in matches.windows(2) {
                assert!(w[0].line_number < w[1].line_number);
            }
        }
        _ => panic!("expected a match list"),
    }
}

#[test]
fn binary_object_with_matching_line_yields_notice() {
    let outcome = scan_bytes(b"ab\x00cd\nmatch line\n", "match", true);
    assert!(matches!(outcome, ObjectOutcome::BinaryNotice));
}

#[test]
fn binary_object_without_matching_line_yields_empty_list() {
    match scan_bytes(b"ab\x00cd\nzz\n", "match", true) {
        ObjectOutcome::Matches { matches } => assert!(matches.is_empty()),
        _ => panic!("expected an empty match list"),
    }
}

#[test]
fn binary_flag_is_sticky_across_chunks() {
    let mut state = ScanState::new("match", true);
    state.push_chunk(b"\x00\n");
    state.push_chunk(b"match\n");
    assert!(matches!(state.finish(), ObjectOutcome::BinaryNotice));
}

#[test]
fn chunk_boundaries_do_not_change_the_outcome() {
    let mut split = ScanState::new("match", true);
    split.push_chunk(b"mat");
    split.push_chunk(b"ch li");
    split.push_chunk(b"ne\nno\n");
    let whole = scan_bytes(b"match line\nno\n", "match", true);
    match (split.finish(), whole) {
        (
            ObjectOutcome::Matches { matches: split_matches },
            ObjectOutcome::Matches { matches: whole_matches },
        ) => {
            assert_eq!(split_matches.len(), 1);
            assert_eq!(split_matches[0].line_number, 1);
            assert_eq!(split_matches[0].text, "match line");
            assert_eq!(whole_matches.len(), split_matches.len());
            assert_eq!(whole_matches[0].line_number, split_matches[0].line_number);
            assert_eq!(whole_matches[0].text, split_matches[0].text);
        }
        _ => panic!("expected match lists"),
    }
}

#[test]
fn invalid_utf8_is_replaced_never_fatal() {
    match scan_bytes(&[0xff, b'm', b'a', b't', b'c', b'h', b'\n'], "match", true) {
        ObjectOutcome::Matches { matches } => {
            assert_eq!(matches.len(), 1);
            assert_eq!(matches[0].text, "\u{FFFD}match");
        }
        _ => panic!("expected a match list"),
    }
}

#[test]
fn empty_object_yields_no_lines() {
    match scan_bytes(b"", "x", true) {
        ObjectOutcome::Matches { matches } => assert!(matches.is_empty()),
        _ => panic!("expected an empty match list"),
    }
}
