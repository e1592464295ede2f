use uuid::Uuid;
use workflow_core::{
    job_state_columns, job_state_from_row, job_state_update_outcome, job_states_from_rows,
    message_payload, task_registration_outcome, task_state_from_row, task_state_update_outcome,
    task_states_from_rows, Error, Id, JobState, Status, TaskSummary,
};

fn id(v: u128) -> Id {
    Id::from(Uuid::from_u128(v))
}

#[test]
fn job_state_rows() {
    assert!(matches!(job_state_from_row(None), Ok(None)));
    assert_eq!(
        job_state_from_row(Some((2, 3))).unwrap(),
        Some(JobState { status: Status::Running, stage: 3 })
    );
    assert!(matches!(job_state_from_row(Some((7, 0))), Err(Error::InvalidStatusCode(7))));
}

#[test]
fn job_state_list_fails_on_first_bad_status() {
    let states = job_states_from_rows(&vec![(0, 0), (4, 1)]).unwrap();
    assert_eq!(
        states,
        vec![
            JobState { status: Status::NotStarted, stage: 0 },
            JobState { status: Status::Failed, stage: 1 }
        ]
    );
    assert!(matches!(
        job_states_from_rows(&vec![(0, 0), (9, 1), (-1, 0)]),
        Err(Error::InvalidStatusCode(9))
    ));
    assert!(job_states_from_rows(&vec![]).unwrap().is_empty());
}

#[test]
fn task_state_rows() {
    assert!(matches!(task_state_from_row(None), Ok(None)));
    assert_eq!(task_state_from_row(Some(1)).unwrap(), Some(Status::Queued));
    assert!(matches!(task_state_from_row(Some(-3)), Err(Error::InvalidStatusCode(-3))));
    assert_eq!(
        task_states_from_rows(&vec![3, 2]).unwrap(),
        vec![Status::Finished, Status::Running]
    );
    assert!(matches!(task_states_from_rows(&vec![3, 5, 6]), Err(Error::InvalidStatusCode(5))));
}

#[test]
fn job_state_columns_and_back() {
    let state = JobState { status: Status::Finished, stage: 5 };
    let (status, stage) = job_state_columns(state);
    assert_eq!((status, stage), (3, 5));
    assert_eq!(job_state_from_row(Some((status, stage))).unwrap(), Some(state));
}

#[test]
fn job_update_outcomes() {
    assert!(job_state_update_outcome(id(1), true).is_ok());
    assert!(matches!(job_state_update_outcome(id(1), false), Err(Error::JobNotFound(j)) if j == id(1)));
}

#[test]
fn task_registration_outcomes() {
    let job = id(1);
    let task = id(0x67e5504410b1426f9247bb680e5fe0c8);
    assert!(task_registration_outcome(job, task, 0).is_ok());
    assert!(matches!(task_registration_outcome(job, task, 1), Err(Error::JobNotFound(j)) if j == job));
    match task_registration_outcome(job, task, 2) {
        Err(Error::InternalError(m)) => {
            assert_eq!(m, "Task 67e55044-10b1-426f-9247-bb680e5fe0c8 already exists")
        }
        other => panic!("unexpected {:?}", other),
    }
    assert!(matches!(task_registration_outcome(job, task, 3), Err(Error::JobNotRunning(j)) if j == job));
    match task_registration_outcome(job, task, 4) {
        Err(Error::InternalError(m)) => assert_eq!(m, "Unknown return code"),
        other => panic!("unexpected {:?}", other),
    }
}

#[test]
fn task_update_outcomes() {
    let task = id(7);
    assert!(matches!(
        task_state_update_outcome(task, Status::Running, -2),
        Err(Error::TaskInvalidStateSwitch(t, Status::Running)) if t == task
    ));
    assert!(matches!(task_state_update_outcome(task, Status::Running, -1), Err(Error::TaskNotFound(t)) if t == task));
    assert_eq!(task_state_update_outcome(task, Status::Finished, 0).unwrap(), true);
    assert_eq!(task_state_update_outcome(task, Status::Finished, 1).unwrap(), false);
    match task_state_update_outcome(task, Status::Failed, -17) {
        Err(Error::InternalError(m)) => assert_eq!(m, "Unknown return code: -17"),
        other => panic!("unexpected {:?}", other),
    }
    match task_state_update_outcome(task, Status::Failed, 2024) {
        Err(Error::InternalError(m)) => assert_eq!(m, "Unknown return code: 2024"),
        other => panic!("unexpected {:?}", other),
    }
}

#[test]
fn task_summary_counts() {
    let s = TaskSummary::from_counts(6, Some(1), None, Some(2), Some(3), None);
    assert_eq!(
        s,
        TaskSummary {
            total_count: 6,
            not_started_count: 1,
            queued_count: 0,
            running_count: 2,
            finished_count: 3,
            failed_count: 0
        }
    );
}

#[test]
fn message_payloads() {
    assert_eq!(message_payload(Some(vec![1, 2, 3])).unwrap(), vec![1, 2, 3]);
    assert!(matches!(message_payload(None), Err(Error::MessageQueueNoMessage)));
}
