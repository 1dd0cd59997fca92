use brush::widget::grid_points;
use brush::worker::{is_busy, worker_step, WorkerAction, WorkerEvent, WorkerState};

#[test]
fn worker_runs_latest_request() {
    let (s, a) = worker_step(WorkerState::Idle, WorkerEvent::RequestChanged { has_request: true });
    assert_eq!((s, a), (WorkerState::Running, WorkerAction::RunRequest));
    assert!(is_busy(s));
    let (s, a) = worker_step(s, WorkerEvent::WorkFinished { has_output: true });
    assert_eq!((s, a), (WorkerState::Publishing, WorkerAction::PublishOutput));
    assert!(!is_busy(s));
    let (s, a) = worker_step(s, WorkerEvent::OutputSent { delivered: true });
    assert_eq!((s, a), (WorkerState::Idle, WorkerAction::FinishRequest));
    let (s, a) = worker_step(s, WorkerEvent::RequestChanged { has_request: false });
    assert_eq!((s, a), (WorkerState::Idle, WorkerAction::WaitForRequest));
    let (s, a) = worker_step(s, WorkerEvent::RequestsClosed);
    assert_eq!((s, a), (WorkerState::Stopped, WorkerAction::Stop));
    let (s, a) = worker_step(s, WorkerEvent::RequestChanged { has_request: true });
    assert_eq!((s, a), (WorkerState::Stopped, WorkerAction::Stop));
}

#[test]
fn worker_skips_publishing_without_output() {
    let (s, a) = worker_step(WorkerState::Running, WorkerEvent::WorkFinished { has_output: false });
    assert_eq!((s, a), (WorkerState::Idle, WorkerAction::SkipOutput));
    assert!(!is_busy(s));
    let (s, a) = worker_step(s, WorkerEvent::RequestChanged { has_request: true });
    assert_eq!((s, a), (WorkerState::Running, WorkerAction::RunRequest));
}

#[test]
fn worker_trace_counts_runs_and_publishes() {
    let events = [
        WorkerEvent::RequestChanged { has_request: true },
        WorkerEvent::WorkFinished { has_output: true },
        WorkerEvent::OutputSent { delivered: true },
        WorkerEvent::RequestChanged { has_request: true },
        WorkerEvent::WorkFinished { has_output: false },
        WorkerEvent::RequestChanged { has_request: true },
        WorkerEvent::WorkFinished { has_output: true },
    ];
    let mut state = WorkerState::Idle;
    let mut actions = Vec::new();
    for e in events {
        let (next, a) = worker_step(state, e);
        actions.push(a);
        state = next;
    }
    let count = |x: WorkerAction| actions.iter().filter(|a| **a == x).count();
    assert_eq!(count(WorkerAction::RunRequest), 3);
    assert_eq!(count(WorkerAction::PublishOutput), 2);
    assert_eq!(count(WorkerAction::SkipOutput), 1);
    assert_eq!(count(WorkerAction::FinishRequest), 1);
    assert_eq!(state, WorkerState::Publishing);
    // completed runs are reported done, but the one being published
    let completed = count(WorkerAction::PublishOutput) + count(WorkerAction::SkipOutput);
    let done = count(WorkerAction::FinishRequest) + count(WorkerAction::SkipOutput);
    assert_eq!(completed, done + 1);
}

#[test]
fn worker_stops_when_output_has_no_receiver() {
    let (s, a) = worker_step(WorkerState::Publishing, WorkerEvent::OutputSent { delivered: false });
    assert_eq!((s, a), (WorkerState::Stopped, WorkerAction::Stop));
    let (s, a) = worker_step(WorkerState::Running, WorkerEvent::RequestsClosed);
    assert_eq!((s, a), (WorkerState::Running, WorkerAction::Ignore));
}

#[test]
fn grid_has_twenty_one_lines_each_way() {
    let points = grid_points();
    assert_eq!(points.len(), 84);
    assert_eq!(points[0], (-10, 0, -10));
    assert_eq!(points[1], (10, 0, -10));
    assert_eq!(points[2], (-10, 0, -10));
    assert_eq!(points[3], (-10, 0, 10));
    assert_eq!(points[83], (10, 0, 10));
    assert_eq!(points[40], (-10, 0, 0));
    assert_eq!(points[42], (0, 0, -10));
}
