use uptime_monitor::record::{FlatRecord, Outcome, StatusRecord, Timestamp};

fn answered(code: u16, elapsed_nanos: u128) -> StatusRecord {
    StatusRecord {
        url: "https://a.test/health?probe=1".to_string(),
        outcome: Outcome::Success(code),
        elapsed_nanos,
        observed_at: Timestamp { secs: 1_700_000_000, nanos: 123_456_789 },
    }
}

#[test]
fn a_successful_record_survives_its_flat_form() {
    let record = answered(200, 1_234_567_890);
    let flat = record.clone().into_flat();
    assert_eq!(
        flat,
        FlatRecord {
            url: "https://a.test/health?probe=1".to_string(),
            status: Ok(200),
            elapsed_secs: 1,
            elapsed_subsec_nanos: 234_567_890,
            observed_at: Timestamp { secs: 1_700_000_000, nanos: 123_456_789 },
        }
    );
    assert_eq!(StatusRecord::from_flat(flat), record);
}

#[test]
fn a_failed_record_survives_its_flat_form() {
    let record = StatusRecord {
        url: "https://down.test".to_string(),
        outcome: Outcome::Failure("connection refused".to_string()),
        elapsed_nanos: 15_000_000_999,
        observed_at: Timestamp { secs: 0, nanos: 0 },
    };
    let flat = record.clone().into_flat();
    assert_eq!(flat.status, Err("connection refused".to_string()));
    assert_eq!((flat.elapsed_secs, flat.elapsed_subsec_nanos), (15, 999));
    assert_eq!(StatusRecord::from_flat(flat), record);
}

#[test]
fn every_elapsed_time_that_fits_survives_the_flat_form() {
    let longest = u64::MAX as u128 * 1_000_000_000 + 999_999_999;
    for elapsed in [0, 1, 999_999_999, 1_000_000_000, 1_000_000_001, 86_400_000_000_000, longest] {
        let record = answered(200, elapsed);
        assert_eq!(StatusRecord::from_flat(record.clone().into_flat()), record);
    }
}

#[test]
fn an_elapsed_time_beyond_the_flat_form_is_written_as_the_longest() {
    let flat = answered(200, u128::MAX).into_flat();
    assert_eq!((flat.elapsed_secs, flat.elapsed_subsec_nanos), (u64::MAX, 999_999_999));
}

#[test]
fn an_outcome_is_a_success_or_a_failure() {
    let up = Outcome::Success(301);
    assert!(up.is_success());
    assert_eq!(up.status_code(), Some(301));
    let down = Outcome::Failure("timed out".to_string());
    assert!(!down.is_success());
    assert_eq!(down.status_code(), None);
}
