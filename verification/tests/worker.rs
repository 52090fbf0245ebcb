use bisect_pipeline::bisect::{
    bisect_worker, finish_job, process_job, BisectStatus, Bisection, Job, RunnerFault, ToolOutput,
    WorkerAction, WorkerEvent, WorkerState,
};
use bisect_pipeline::db::{get_bisection, get_bisections, setup, StoreError};
use bisect_pipeline::options::{Date, Options};
use bisect_pipeline::queue::{submit, JobQueue};
use rusqlite::Connection;

fn store() -> Connection {
    let conn = Connection::open_in_memory().unwrap();
    setup(&conn).unwrap();
    conn
}

fn options() -> Options {
    Options { start: Date { year: 2022, month: 1, day: 1 }, end: None, kind: None }
}

fn job(id: u128, code: &str) -> Job {
    Job::new(id, code.to_string(), options())
}

fn ran(success: bool, stderr: &str) -> Result<ToolOutput, RunnerFault> {
    Ok(ToolOutput { success, stdout: Vec::new(), stderr: stderr.as_bytes().to_vec() })
}

#[test]
fn process_job_writes_the_record_in_progress() {
    let conn = store();
    let record = process_job(&job(1, "code"), &conn).unwrap();
    let expected = Bisection { id: 1, code: "code".to_string(), status: BisectStatus::InProgress };
    assert_eq!(record, expected);
    assert_eq!(get_bisection(&conn, 1).unwrap(), Some(expected));
}

#[test]
fn process_job_fails_where_the_record_exists() {
    let conn = store();
    process_job(&job(1, "code"), &conn).unwrap();
    assert!(matches!(process_job(&job(1, "again"), &conn), Err(StoreError::Engine(_))));
    assert_eq!(get_bisections(&conn).unwrap().len(), 1);
}

#[test]
fn finish_job_writes_the_final_status() {
    let conn = store();
    let record = process_job(&job(1, "code"), &conn).unwrap();
    let done = finish_job(record, ran(true, "searched nightlies: all"), &conn);
    let expected = Bisection {
        id: 1,
        code: "code".to_string(),
        status: BisectStatus::Success { output: "searched nightlies: all".to_string() },
    };
    assert_eq!(done.record, expected);
    assert_eq!(done.run_fault, None);
    assert!(done.store_fault.is_none());
    assert_eq!(get_bisection(&conn, 1).unwrap(), Some(expected));
}

#[test]
fn a_job_runs_through_the_worker() {
    let conn = store();
    let step = bisect_worker(WorkerState::Waiting, WorkerEvent::Received(job(7, "fn f() {}")), &conn);
    assert_eq!(step.action, WorkerAction::Run);
    assert!(step.store_fault.is_none());
    match &step.state {
        WorkerState::Running { job, record } => {
            assert_eq!(job.id(), 7);
            assert_eq!(record.status, BisectStatus::InProgress);
        }
        other => panic!("unexpected state {:?}", other),
    }
    assert_eq!(
        get_bisection(&conn, 7).unwrap(),
        Some(Bisection { id: 7, code: "fn f() {}".to_string(), status: BisectStatus::InProgress })
    );
    let mut stderr = String::new();
    for i in 1..=50 {
        stderr.push_str(&format!("line {}\n", i));
    }
    let step = bisect_worker(step.state, WorkerEvent::Finished(ran(false, &stderr)), &conn);
    assert_eq!(step.action, WorkerAction::Receive);
    assert_eq!(step.run_fault, None);
    assert!(step.store_fault.is_none());
    assert!(matches!(step.state, WorkerState::Waiting));
    let expected: Vec<String> = (21..=50).map(|i| format!("line {}", i)).collect();
    assert_eq!(
        get_bisection(&conn, 7).unwrap(),
        Some(Bisection {
            id: 7,
            code: "fn f() {}".to_string(),
            status: BisectStatus::Error { output: expected.join("\n") }
        })
    );
    assert_eq!(get_bisections(&conn).unwrap().len(), 1);
}

#[test]
fn a_run_that_failed_ends_in_the_internal_error() {
    let conn = store();
    let step = bisect_worker(WorkerState::Waiting, WorkerEvent::Received(job(1, "x")), &conn);
    let step = bisect_worker(step.state, WorkerEvent::Finished(Err(RunnerFault::Spawn)), &conn);
    assert!(matches!(step.state, WorkerState::Waiting));
    assert_eq!(step.run_fault, Some(RunnerFault::Spawn));
    assert!(step.store_fault.is_none());
    assert_eq!(
        get_bisection(&conn, 1).unwrap().unwrap().status,
        BisectStatus::Error { output: "Internal error".to_string() }
    );
}

#[test]
fn success_without_summary_ends_in_the_internal_error() {
    let conn = store();
    let step = bisect_worker(WorkerState::Waiting, WorkerEvent::Received(job(1, "x")), &conn);
    let step = bisect_worker(step.state, WorkerEvent::Finished(ran(true, "no summary")), &conn);
    assert_eq!(step.action, WorkerAction::Receive);
    assert_eq!(step.run_fault, Some(RunnerFault::MissingMarker));
    assert_eq!(
        get_bisection(&conn, 1).unwrap().unwrap().status,
        BisectStatus::Error { output: "Internal error".to_string() }
    );
}

#[test]
fn a_job_whose_record_cannot_be_written_is_given_up() {
    let conn = Connection::open_in_memory().unwrap();
    let step = bisect_worker(WorkerState::Waiting, WorkerEvent::Received(job(1, "x")), &conn);
    assert!(matches!(step.state, WorkerState::Waiting));
    assert_eq!(step.action, WorkerAction::Receive);
    assert!(matches!(step.store_fault, Some(StoreError::Engine(_))));
}

#[test]
fn a_final_status_that_cannot_be_written_leaves_the_record_in_progress() {
    let conn = store();
    let step = bisect_worker(WorkerState::Waiting, WorkerEvent::Received(job(1, "x")), &conn);
    let other = Connection::open_in_memory().unwrap();
    let step = bisect_worker(step.state, WorkerEvent::Finished(ran(false, "bad")), &other);
    assert!(matches!(step.state, WorkerState::Waiting));
    assert_eq!(step.action, WorkerAction::Receive);
    assert!(matches!(step.store_fault, Some(StoreError::Engine(_))));
    assert_eq!(get_bisection(&conn, 1).unwrap().unwrap().status, BisectStatus::InProgress);
}

#[test]
fn finish_job_keeps_the_final_record_where_the_store_fails() {
    let conn = Connection::open_in_memory().unwrap();
    let record = Bisection { id: 3, code: "c".to_string(), status: BisectStatus::InProgress };
    let done = finish_job(record, Err(RunnerFault::Workspace), &conn);
    assert_eq!(
        done.record,
        Bisection {
            id: 3,
            code: "c".to_string(),
            status: BisectStatus::Error { output: "Internal error".to_string() }
        }
    );
    assert_eq!(done.run_fault, Some(RunnerFault::Workspace));
    assert!(matches!(done.store_fault, Some(StoreError::Engine(_))));
}

#[test]
fn closing_the_queue_stops_the_worker() {
    let conn = store();
    let step = bisect_worker(WorkerState::Waiting, WorkerEvent::Closed, &conn);
    assert!(matches!(step.state, WorkerState::Stopped));
    assert_eq!(step.action, WorkerAction::Stop);
    let step = bisect_worker(step.state, WorkerEvent::Received(job(1, "x")), &conn);
    assert!(matches!(step.state, WorkerState::Stopped));
    assert_eq!(step.action, WorkerAction::Stop);
    assert_eq!(get_bisections(&conn).unwrap(), Vec::new());
}

#[test]
fn events_out_of_turn_change_nothing() {
    let conn = store();
    let step = bisect_worker(WorkerState::Waiting, WorkerEvent::Finished(ran(true, "x")), &conn);
    assert!(matches!(step.state, WorkerState::Waiting));
    assert_eq!(step.action, WorkerAction::Receive);
    assert_eq!(get_bisections(&conn).unwrap(), Vec::new());
    let step = bisect_worker(WorkerState::Waiting, WorkerEvent::Received(job(1, "x")), &conn);
    let step = bisect_worker(step.state, WorkerEvent::Received(job(2, "y")), &conn);
    assert_eq!(step.action, WorkerAction::Run);
    assert!(matches!(&step.state, WorkerState::Running { job, .. } if job.id() == 1));
    let step = bisect_worker(step.state, WorkerEvent::Closed, &conn);
    assert_eq!(step.action, WorkerAction::Run);
    assert!(matches!(&step.state, WorkerState::Running { job, .. } if job.id() == 1));
    assert_eq!(get_bisections(&conn).unwrap().len(), 1);
}

#[test]
fn submission_writes_nothing_to_the_store() {
    let conn = store();
    let mut queue = JobQueue::new();
    submit(&mut queue, "code".to_string(), options()).unwrap();
    assert_eq!(get_bisections(&conn).unwrap(), Vec::new());
}

#[test]
fn jobs_are_processed_in_the_order_of_their_submission() {
    let conn = store();
    let mut queue = JobQueue::new();
    let a = submit(&mut queue, "A".to_string(), options()).unwrap();
    let b = submit(&mut queue, "B".to_string(), options()).unwrap();
    let c = submit(&mut queue, "C".to_string(), options()).unwrap();
    let mut started = Vec::new();
    let mut state = WorkerState::Waiting;
    let mut action = WorkerAction::Receive;
    loop {
        let event = match action {
            WorkerAction::Receive => match queue.dequeue() {
                Some(job) => WorkerEvent::Received(job),
                None => WorkerEvent::Closed,
            },
            WorkerAction::Run => {
                match &state {
                    WorkerState::Running { job, .. } => started.push(job.id()),
                    other => panic!("unexpected state {:?}", other),
                }
                WorkerEvent::Finished(ran(true, "searched nightlies: ok"))
            }
            WorkerAction::Stop => break,
        };
        let step = bisect_worker(state, event, &conn);
        state = step.state;
        action = step.action;
    }
    assert_eq!(started, vec![a, b, c]);
    for id in [a, b, c] {
        assert_eq!(
            get_bisection(&conn, id).unwrap().unwrap().status,
            BisectStatus::Success { output: "searched nightlies: ok".to_string() }
        );
    }
    assert_eq!(get_bisections(&conn).unwrap().len(), 3);
}
