use thunkpool::threadpooling::pool::{
    check_pool_size, pool_size_verdict, size_within_limit, worker_ids, MasterState, MonitorAction, PoolSizeError,
    TaskPoll, WorkerAction, WorkerState,
};
use thunkpool::transport::messages::{Signal, Steal};

#[test]
fn pool_size_limit_is_a_hundred_workers_per_core() {
    assert!(!size_within_limit(0, 4));
    assert!(size_within_limit(1, 1));
    assert!(size_within_limit(100, 1));
    assert!(!size_within_limit(101, 1));
    assert!(size_within_limit(400, 4));
    assert!(!size_within_limit(401, 4));
    assert!(size_within_limit(usize::MAX, usize::MAX));
    assert!(size_within_limit(usize::MAX, usize::MAX / 100 + 1));
    assert!(!size_within_limit(usize::MAX, usize::MAX / 100));
}

#[test]
fn check_pool_size_refuses_an_empty_pool() {
    assert_eq!(check_pool_size(0), Err(PoolSizeError::Empty));
}

#[test]
fn check_pool_size_accepts_small_pools() {
    for size in [1usize, 3, 4, 100] {
        let cores = check_pool_size(size).unwrap();
        assert!(cores >= 1);
        assert!(size <= cores * 100);
    }
}

#[test]
fn check_pool_size_refuses_a_huge_pool() {
    match check_pool_size(usize::MAX) {
        Err(PoolSizeError::TooLarge { size, cores }) => {
            assert_eq!(size, usize::MAX);
            assert!(cores >= 1);
        }
        _ => panic!("a pool of usize::MAX workers was accepted"),
    }
}

#[test]
fn worker_ids_list_every_worker_in_order() {
    assert_eq!(worker_ids(3), vec![0, 1, 2]);
    assert_eq!(worker_ids(1), vec![0]);
    assert!(worker_ids(0).is_empty());
}

#[test]
fn master_hands_out_tasks_round_robin() {
    let mut m = MasterState::new(3);
    assert_eq!(m.size(), 3);
    assert_eq!(m.current_thread(), 0);
    let targets: Vec<usize> = (0..7).map(|_| m.dispatch()).collect();
    assert_eq!(targets, vec![0, 1, 2, 0, 1, 2, 0]);
    assert_eq!(m.current_thread(), 1);
}

#[test]
fn master_with_one_worker_always_picks_it() {
    let mut m = MasterState::new(1);
    for _ in 0..5 {
        assert_eq!(m.dispatch(), 0);
    }
}

#[test]
fn master_drains_its_queue_after_terminate() {
    let mut m = MasterState::new(2);
    assert!(m.is_running());
    m.on_user_signal(None);
    m.on_user_signal(Some(Signal::steal(0)));
    assert!(!m.is_stopping());
    assert_eq!(m.on_incoming(false), None);
    assert!(m.is_running());
    m.on_user_signal(Some(Signal::terminate()));
    assert!(m.is_stopping());
    assert!(m.is_running());
    assert_eq!(m.on_incoming(true), Some(0));
    assert_eq!(m.on_incoming(true), Some(1));
    assert_eq!(m.on_incoming(true), Some(0));
    assert!(m.is_running());
    m.on_user_signal(None);
    assert!(m.is_stopping());
    assert_eq!(m.on_incoming(false), None);
    assert!(!m.is_running());
    assert!(m.is_stopping());
}

#[test]
fn master_answers_worker_signals() {
    let m = MasterState::new(4);
    assert!(matches!(m.on_monitor_signal(None), MonitorAction::Ignore));
    assert!(matches!(m.on_monitor_signal(Some(Signal::terminate())), MonitorAction::Ignore));
    assert!(matches!(
        m.on_monitor_signal(Some(Signal::terminated(2))),
        MonitorAction::Respawn(2)
    ));
    assert!(matches!(m.on_monitor_signal(Some(Signal::terminated(4))), MonitorAction::Ignore));
    assert!(matches!(m.on_monitor_signal(Some(Signal::steal(9))), MonitorAction::Ignore));
    match m.on_monitor_signal(Some(Signal::steal(1))) {
        MonitorAction::Steal(scan) => {
            assert_eq!(scan.thief(), 1);
            assert_eq!(scan.victim(), Some(0));
        }
        _ => panic!("a steal request was not answered with a scan"),
    }
}

#[test]
fn worker_reports_results_and_asks_for_work() {
    let mut w = WorkerState::new(5);
    assert_eq!(w.thread_id(), 5);
    assert!(w.is_running());
    match w.on_poll(TaskPoll::Finished(Some(2))) {
        WorkerAction::Report(m) => {
            assert!(m.success);
            assert_eq!(m.message, 2);
        }
        _ => panic!("an i64 result was not reported"),
    }
    assert!(matches!(w.on_poll(TaskPoll::Finished(None)), WorkerAction::Idle));
    match w.on_poll(TaskPoll::Empty) {
        WorkerAction::RequestSteal(s) => assert_eq!(s, Signal::Steal(Steal { thread_id: 5 })),
        _ => panic!("an empty queue did not lead to a steal request"),
    }
    assert!(w.is_running());
}

#[test]
fn worker_finishes_its_queue_after_terminate() {
    let mut w = WorkerState::new(0);
    w.on_signal(Some(Signal::steal(3)));
    w.on_signal(None);
    assert!(!w.is_stopping());
    w.on_signal(Some(Signal::terminate()));
    assert!(w.is_stopping());
    assert!(w.is_running());
    match w.on_poll(TaskPoll::Finished(Some(2))) {
        WorkerAction::Report(m) => assert_eq!(m.message, 2),
        _ => panic!("a task queued before the stop was not reported"),
    }
    assert!(matches!(w.on_poll(TaskPoll::Finished(None)), WorkerAction::Idle));
    assert!(w.is_running());
    assert!(matches!(w.on_poll(TaskPoll::Empty), WorkerAction::Stop));
    assert!(!w.is_running());
    assert!(matches!(w.on_poll(TaskPoll::Finished(Some(7))), WorkerAction::Stop));
    assert!(matches!(w.on_poll(TaskPoll::Empty), WorkerAction::Stop));
    w.on_signal(None);
    assert!(!w.is_running());
}
