use hash_folderoo::tidy::dir_verdict;
use hash_folderoo::memory::MemoryMode;
use hash_folderoo::pipeline::{worker_step, Pipeline, RunLedger, RunPhase, WorkerStep};

fn run_ledger(workers: usize, outcomes: &[bool]) -> RunLedger {
    let mut l = RunLedger::new();
    l.start(workers);
    for _ in outcomes {
        l.path_produced();
    }
    l.producer_finished();
    for ok in outcomes {
        assert!(l.can_finish_item());
        l.item_finished(*ok);
    }
    for _ in 0..workers {
        assert!(l.can_exit_worker());
        l.worker_exited();
    }
    l
}

#[test]
fn ledger_counts_every_path() {
    let l = run_ledger(3, &[true; 10]);
    assert_eq!(l.phase(), RunPhase::Done);
    assert_eq!(l.total(), 10);
    assert_eq!(l.failed(), 0);
}

#[test]
fn ledger_counts_failed_items() {
    let outcomes = [true, false, true, false, false, true];
    let l = run_ledger(2, &outcomes);
    assert_eq!(l.total(), 6);
    assert_eq!(l.failed(), 3);
    assert_eq!(l.offered(), 6);
}

#[test]
fn ledger_guards() {
    let mut l = RunLedger::new();
    assert_eq!(l.phase(), RunPhase::Planning);
    l.start(1);
    assert!(!l.can_finish_item());
    l.path_produced();
    assert!(!l.can_exit_worker());
    l.item_finished(true);
    l.producer_finished();
    assert_eq!(l.phase(), RunPhase::Draining);
    assert!(l.can_exit_worker());
    l.worker_exited();
    assert_eq!(l.phase(), RunPhase::Done);
    assert!(!l.can_exit_worker());
}

#[test]
fn backpressure_step() {
    assert_eq!(worker_step(5, 4), WorkerStep::PauseThenProceed);
    assert_eq!(worker_step(4, 4), WorkerStep::Proceed);
}

#[test]
fn builders_drop_zero_overrides() {
    let p = Pipeline::new(MemoryMode::Stream).with_threads(Some(0)).with_max_ram(Some(0));
    assert_eq!(p.threads_override(), None);
    assert_eq!(p.max_ram_override(), None);
    let q = Pipeline::new(MemoryMode::Stream).with_threads(Some(3)).with_max_ram(Some(128 * 1024));
    assert_eq!(q.threads_override(), Some(3));
    assert_eq!(q.max_ram_override(), Some(128 * 1024));
    let plan = q.plan_for_host(8, None);
    assert_eq!(plan.buffer_size, 64 * 1024);
    assert_eq!(plan.num_buffers, 2);
    assert_eq!(plan.threads, 2);
    let live = q.plan();
    assert!(live.threads <= live.num_buffers);
}

#[test]
fn empty_dir_verdicts() {
    let v = dir_verdict(true, false, 2, 2);
    assert!(v.remove && v.empty_for_parent);
    let shallow = dir_verdict(true, false, 1, 2);
    assert!(!shallow.remove && shallow.empty_for_parent);
    let excluded = dir_verdict(true, true, 3, 0);
    assert!(!excluded.remove && !excluded.empty_for_parent);
    let full = dir_verdict(false, false, 3, 0);
    assert!(!full.remove && !full.empty_for_parent);
}
