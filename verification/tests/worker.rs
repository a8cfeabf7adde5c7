use mem_server_demo::worker::{Worker, WorkerEvent, WorkerState};

const STATES: [WorkerState; 4] = [
    WorkerState::Waiting,
    WorkerState::Running,
    WorkerState::Terminated,
    WorkerState::Failed,
];

const EVENTS: [WorkerEvent; 4] = [
    WorkerEvent::JobReceived,
    WorkerEvent::QueueClosed,
    WorkerEvent::JobReturned,
    WorkerEvent::JobFailed,
];

fn worker_in(state: WorkerState) -> Worker {
    let mut worker = Worker::new(3);
    match state {
        WorkerState::Waiting => {}
        WorkerState::Running => assert!(worker.step(WorkerEvent::JobReceived)),
        WorkerState::Terminated => assert!(worker.step(WorkerEvent::QueueClosed)),
        WorkerState::Failed => {
            assert!(worker.step(WorkerEvent::JobReceived));
            assert!(worker.step(WorkerEvent::JobFailed));
        }
    }
    assert_eq!(worker.state(), state);
    worker
}

#[test]
fn new_worker_waits_under_its_id() {
    for id in [0usize, 1, 17, usize::MAX] {
        let worker = Worker::new(id);
        assert_eq!(worker.id(), id);
        assert_eq!(worker.state(), WorkerState::Waiting);
    }
}

#[test]
fn worker_follows_the_service_loop() {
    let mut worker = Worker::new(0);
    assert!(worker.step(WorkerEvent::JobReceived));
    assert_eq!(worker.state(), WorkerState::Running);
    assert!(worker.step(WorkerEvent::JobReturned));
    assert_eq!(worker.state(), WorkerState::Waiting);
    assert!(worker.step(WorkerEvent::JobReceived));
    assert!(worker.step(WorkerEvent::JobReturned));
    assert!(worker.step(WorkerEvent::QueueClosed));
    assert_eq!(worker.state(), WorkerState::Terminated);
    assert_eq!(worker.id(), 0);
}

#[test]
fn worker_takes_each_event_only_in_its_state() {
    for state in STATES {
        for event in EVENTS {
            let mut worker = worker_in(state);
            let expected = match (state, event) {
                (WorkerState::Waiting, WorkerEvent::JobReceived) => Some(WorkerState::Running),
                (WorkerState::Waiting, WorkerEvent::QueueClosed) => Some(WorkerState::Terminated),
                (WorkerState::Running, WorkerEvent::JobReturned) => Some(WorkerState::Waiting),
                (WorkerState::Running, WorkerEvent::JobFailed) => Some(WorkerState::Failed),
                _ => None,
            };
            let accepted = worker.step(event);
            assert_eq!(accepted, expected.is_some());
            assert_eq!(worker.state(), expected.unwrap_or(state));
            assert_eq!(worker.id(), 3);
        }
    }
}

#[test]
fn worker_that_left_the_loop_never_comes_back() {
    for state in [WorkerState::Terminated, WorkerState::Failed] {
        let mut worker = worker_in(state);
        for event in EVENTS {
            assert!(!worker.step(event));
            assert_eq!(worker.state(), state);
        }
    }
}

#[test]
fn live_states_are_waiting_and_running() {
    assert!(WorkerState::Waiting.is_live());
    assert!(WorkerState::Running.is_live());
    assert!(!WorkerState::Terminated.is_live());
    assert!(!WorkerState::Failed.is_live());
}
