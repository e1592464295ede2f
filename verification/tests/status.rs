use workflow_core::{Error, JobState, Status};

#[test]
fn test_status_conversion() {
    let all_statuses = vec![
        Status::NotStarted,
        Status::Queued,
        Status::Running,
        Status::Finished,
        Status::Failed,
    ];

    for status in all_statuses {
        let i = i32::from(status);
        let converted_status = Status::try_from(i).unwrap();
        assert_eq!(status, converted_status);
    }
}

#[test]
fn status_codes_are_zero_to_four() {
    assert_eq!(i32::from(Status::NotStarted), 0);
    assert_eq!(i32::from(Status::Queued), 1);
    assert_eq!(i32::from(Status::Running), 2);
    assert_eq!(i32::from(Status::Finished), 3);
    assert_eq!(i32::from(Status::Failed), 4);
    for code in 0..5 {
        assert_eq!(i32::from(Status::try_from(code).unwrap()), code);
    }
}

#[test]
fn invalid_status_codes_are_refused() {
    for code in [-1, 5, 42, i32::MIN, i32::MAX] {
        match Status::try_from(code) {
            Err(Error::InvalidStatusCode(c)) => assert_eq!(c, code),
            other => panic!("unexpected result {:?}", other),
        }
    }
}

#[test]
fn only_finished_and_failed_are_done() {
    assert!(!Status::NotStarted.is_done());
    assert!(!Status::Queued.is_done());
    assert!(!Status::Running.is_done());
    assert!(Status::Finished.is_done());
    assert!(Status::Failed.is_done());
}

#[test]
fn status_names() {
    assert_eq!(Status::NotStarted.to_string(), "Not Started");
    assert_eq!(Status::Queued.to_string(), "Queued");
    assert_eq!(Status::Running.to_string(), "Running");
    assert_eq!(Status::Finished.to_string(), "Finished");
    assert_eq!(Status::Failed.to_string(), "Failed");
}

#[test]
fn statuses_are_ordered_by_code() {
    assert!(Status::NotStarted < Status::Queued);
    assert!(Status::Queued < Status::Running);
    assert!(Status::Running < Status::Finished);
    assert!(Status::Finished < Status::Failed);
}

#[test]
fn job_state_equality() {
    let a = JobState { status: Status::Running, stage: 2 };
    let b = JobState { status: Status::Running, stage: 2 };
    let c = JobState { status: Status::Running, stage: 3 };
    assert_eq!(a, b);
    assert_ne!(a, c);
}
