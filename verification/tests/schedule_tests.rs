use s3grep::SearchRequest;
use s3grep::schedule::Scheduler;

#[test]
fn zero_concurrency_is_a_configuration_error() {
    assert!(Scheduler::new(0).is_err());
    assert!(Scheduler::new(1).is_ok());
    let err = Scheduler::new(0).err().unwrap();
    assert!(!err.message.is_empty());
}

#[test]
fn at_most_two_scans_in_flight_for_five_keys() {
    let mut scheduler = Scheduler::new(2).unwrap();
    let mut observed_active: usize = 0;
    let mut pending: usize = 5;
    let mut completed: usize = 0;
    // Starts and completions interleave in an uneven pattern; the cap must
    // hold at every sampled instant and all five keys must complete.
    while completed < 5 {
        while pending > 0 && scheduler.can_start() {
            scheduler.start();
            observed_active += 1;
            pending -= 1;
            assert!(observed_active <= 2);
        }
        scheduler.complete();
        observed_active -= 1;
        completed += 1;
        assert!(observed_active <= 2);
    }
    assert_eq!(completed, 5);
    assert_eq!(pending, 0);
    assert_eq!(observed_active, 0);
}

#[test]
fn request_validation_rejects_zero_concurrency() {
    let bad = SearchRequest {
        bucket: "logs".to_string(),
        prefix: String::new(),
        pattern: "error".to_string(),
        case_sensitive: true,
        max_concurrency: 0,
        want_line_numbers: false,
    };
    assert!(bad.validate().is_err());

    let good = SearchRequest {
        bucket: "logs".to_string(),
        prefix: String::new(),
        pattern: "error".to_string(),
        case_sensitive: true,
        max_concurrency: 8,
        want_line_numbers: false,
    };
    assert!(good.validate().is_ok());
}
