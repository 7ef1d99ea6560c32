use s3grep::enumerate::Enumerator;

#[test]
fn pages_yield_each_key_exactly_once_in_order() {
    let mut e = Enumerator::new();
    assert!(!e.is_done());
    assert!(e.next_token().is_none());

    let out1 = e.apply_page(
        vec!["k1".to_string(), "k2".to_string()],
        Some("t1".to_string()),
    );
    assert_eq!(out1, vec!["k1".to_string(), "k2".to_string()]);
    assert!(!e.is_done());
    assert_eq!(e.next_token().as_deref(), Some("t1"));

    let out2 = e.apply_page(vec!["k3".to_string()], None);
    assert_eq!(out2, vec!["k3".to_string()]);
    assert!(e.is_done());
    assert!(!e.did_fail());
}

#[test]
fn empty_page_with_continuation_keeps_going() {
    let mut e = Enumerator::new();
    let out = e.apply_page(Vec::new(), Some("t".to_string()));
    assert!(out.is_empty());
    assert!(!e.is_done());
    assert_eq!(e.next_token().as_deref(), Some("t"));

    let out = e.apply_page(Vec::new(), None);
    assert!(out.is_empty());
    assert!(e.is_done());
    assert!(!e.did_fail());
}

#[test]
fn listing_failure_ends_the_walk() {
    let mut e = Enumerator::new();
    let _ = e.apply_page(vec!["k1".to_string()], Some("t1".to_string()));
    e.fail();
    assert!(e.is_done());
    assert!(e.did_fail());
}
