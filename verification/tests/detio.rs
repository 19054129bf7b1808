use turso_dst::detio::{short_read_len, DetIo, OpKind, StepRun, Submission};

fn idle() -> DetIo<u32> {
    DetIo::new(7, 0, false, 0)
}

#[test]
fn idle_layer_is_transparent() {
    let mut io = idle();
    for kind in [OpKind::Pread, OpKind::Pwrite, OpKind::Pwritev, OpKind::Sync, OpKind::Truncate] {
        assert_eq!(io.state.submit(kind), Submission::Inline);
    }
    assert_eq!(io.pending_len(), 0);
    assert_eq!(io.state.injected_failures, 0);
}

#[test]
fn armed_failure_fires_once_on_its_operation() {
    let mut io = idle();
    io.arm_fail(OpKind::Sync, 1);
    assert_eq!(io.state.submit(OpKind::Pwrite), Submission::Inline);
    assert_eq!(io.state.submit(OpKind::Sync), Submission::Inline);
    assert_eq!(io.state.submit(OpKind::Pwrite), Submission::Inline);
    assert_eq!(io.state.submit(OpKind::Sync), Submission::Fail);
    assert_eq!(io.state.injected_failures, 1);
    for _ in 0..5 {
        assert_eq!(io.state.submit(OpKind::Sync), Submission::Inline);
    }
}

#[test]
fn two_failures_of_one_kind() {
    let mut io = idle();
    io.arm_fail(OpKind::Sync, 0);
    io.arm_fail(OpKind::Sync, 1);
    let fired: Vec<bool> = (0..4).map(|_| io.state.take_failure(OpKind::Sync)).collect();
    assert_eq!(fired, vec![true, true, false, false]);
}

#[test]
fn faults_are_exactly_placed() {
    let mut io = idle();
    io.arm_fail(OpKind::Sync, 3);
    io.arm_fail(OpKind::Sync, 0);
    io.arm_fail(OpKind::Pwrite, 1);
    io.arm_fail(OpKind::Sync, 4);
    let fired: Vec<bool> = (0..6).map(|_| io.state.take_failure(OpKind::Sync)).collect();
    assert_eq!(fired, vec![true, false, false, true, true, false]);
    let fired: Vec<bool> = (0..3).map(|_| io.state.take_failure(OpKind::Pwrite)).collect();
    assert_eq!(fired, vec![false, true, false]);
    assert_eq!(io.state.injected_failures, 4);
}

#[test]
fn two_due_on_one_operation_take_turns() {
    let mut io = idle();
    io.arm_fail(OpKind::Sync, 1);
    io.arm_fail(OpKind::Sync, 1);
    let fired: Vec<bool> = (0..4).map(|_| io.state.take_failure(OpKind::Sync)).collect();
    assert_eq!(fired, vec![false, true, true, false]);
}

#[test]
fn cuts_are_exactly_placed() {
    let mut io = idle();
    io.arm_crash(OpKind::Pwrite, 0);
    io.arm_crash(OpKind::Pwrite, 1);
    let fired: Vec<bool> = (0..3).map(|_| io.state.take_crash(OpKind::Pwrite)).collect();
    assert_eq!(fired, vec![true, true, false]);
}

#[test]
fn short_reads_are_exactly_placed() {
    let mut io = idle();
    io.arm_short_read(0, 16);
    io.arm_short_read(2, 8);
    io.arm_short_read(1, 4);
    let cut: Vec<Option<usize>> = (0..4).map(|_| io.state.take_short()).collect();
    assert_eq!(cut, vec![Some(16), Some(4), Some(8), None]);
}

#[test]
fn every_operation_counts_for_every_fault() {
    let mut io = idle();
    io.arm_fail(OpKind::Pread, 0);
    io.arm_crash(OpKind::Pread, 1);
    io.arm_short_read(2, 16);
    let seen: Vec<Submission> = (0..4).map(|_| io.state.submit(OpKind::Pread)).collect();
    assert_eq!(
        seen,
        vec![
            Submission::Fail,
            Submission::RunThenCut,
            Submission::ShortRead(16),
            Submission::Inline
        ]
    );
}

#[test]
fn failed_operation_uses_up_only_its_failure() {
    let mut io: DetIo<u32> = DetIo::new(5, 500, true, 0);
    io.arm_fail(OpKind::Pread, 0);
    io.arm_crash(OpKind::Pread, 0);
    io.arm_crash(OpKind::Sync, 2);
    io.arm_short_read(3, 16);
    assert_eq!(io.state.submit(OpKind::Pread), Submission::Fail);
    assert!(io.state.armed.is_empty());
    assert_eq!(io.state.armed_crash, vec![(OpKind::Pread, 0), (OpKind::Sync, 2)]);
    assert_eq!(io.state.armed_short, vec![(2, 16)]);
    assert_eq!((io.state.rng.0, io.pending_len(), io.state.injected_failures), (5, 0, 1));
}

#[test]
fn armed_cut_follows_its_operation() {
    let mut io = idle();
    io.arm_crash(OpKind::Pwritev, 0);
    assert_eq!(io.state.armed_crash_len(), 1);
    assert_eq!(io.state.submit(OpKind::Pwrite), Submission::Inline);
    assert_eq!(io.state.submit(OpKind::Pwritev), Submission::RunThenCut);
    assert_eq!(io.state.armed_crash_len(), 0);
    assert_eq!(io.state.injected_failures, 0);
}

#[test]
fn failure_comes_before_cut() {
    let mut io = idle();
    io.arm_crash(OpKind::Sync, 0);
    io.arm_fail(OpKind::Sync, 0);
    assert_eq!(io.state.submit(OpKind::Sync), Submission::Fail);
    assert_eq!(io.state.armed_crash_len(), 1);
    assert_eq!(io.state.submit(OpKind::Sync), Submission::RunThenCut);
}

#[test]
fn short_read_hits_reads_only() {
    let mut io = idle();
    io.arm_short_read(1, 16);
    assert_eq!(io.state.submit(OpKind::Pwrite), Submission::Inline);
    assert_eq!(io.state.submit(OpKind::Pread), Submission::Inline);
    assert_eq!(io.state.submit(OpKind::Pread), Submission::ShortRead(16));
    assert_eq!(io.state.submit(OpKind::Pread), Submission::Inline);
    assert_eq!(io.state.injected_failures, 1);
    assert_eq!(short_read_len(16, 4096), 16);
    assert_eq!(short_read_len(16, 8), 8);
}

#[test]
fn everything_is_disarmed() {
    let mut io = idle();
    io.arm_fail(OpKind::Pread, 0);
    io.arm_crash(OpKind::Pread, 0);
    io.arm_short_read(0, 1);
    io.state.clear_armed();
    assert_eq!(io.state.submit(OpKind::Pread), Submission::Inline);
}

#[test]
fn deferred_operations_keep_their_order() {
    let mut io: DetIo<u32> = DetIo::new(7, 1000, false, 0);
    for i in 0..5 {
        assert_eq!(io.state.submit(OpKind::Pwrite), Submission::Defer);
        io.state.defer(i);
    }
    assert_eq!(io.pending_len(), 5);
    assert_eq!(io.state.drain(), vec![0, 1, 2, 3, 4]);
    assert_eq!((io.state.deferred_ops, io.state.steps, io.state.reordered_steps), (5, 1, 0));
    io.state.set_defer_permille(0);
    assert_eq!(io.state.submit(OpKind::Pwrite), Submission::Inline);
}

#[test]
fn reordering_loses_nothing() {
    let mut moved = false;
    for seed in 0..20 {
        let mut io: DetIo<u32> = DetIo::new(seed, 1000, true, 0);
        for i in 0..8 {
            io.state.defer(i);
        }
        let mut ops = io.state.drain();
        moved = moved || io.state.reordered_steps > 0;
        ops.sort();
        assert_eq!(ops, vec![0, 1, 2, 3, 4, 5, 6, 7]);
        assert_eq!(io.pending_len(), 0);
    }
    assert!(moved);
}

#[test]
fn a_step_always_performs_something() {
    let mut io: DetIo<u32> = DetIo::new(3, 1000, false, 1000);
    io.state.defer(1);
    io.state.defer(2);
    io.state.defer(3);
    assert_eq!(io.state.drain(), vec![1, 2]);
    assert_eq!(io.pending_len(), 1);
    assert_eq!(io.state.drain(), vec![3]);
}

#[test]
fn two_steps_empty_the_queue() {
    for hold in [0, 500, 1000, 2000] {
        for n in 0..6 {
            let mut io: DetIo<u32> = DetIo::new(n, 1000, true, hold);
            for i in 0..n {
                io.state.defer(i as u32);
            }
            let first = io.step().len();
            assert_eq!(first > 0, n > 0);
            assert!(io.pending_len() <= 1);
            io.step();
            assert_eq!(io.pending_len(), 0);
            assert_eq!(io.state.steps, 2);
        }
    }
}

#[test]
fn operations_are_taken_one_by_one() {
    let mut io: DetIo<u32> = DetIo::new(3, 1000, false, 1000);
    io.state.defer(1);
    io.state.begin_step();
    let mut run = StepRun::begin();
    assert!(!run.held_this_step());
    assert_eq!(io.state.next_op(&run), Some(1));
    run.mark_ran_this_step();
    io.state.defer(2);
    assert_eq!(io.state.next_op(&run), None);
    assert_eq!(io.pending_len(), 1);
}

#[test]
fn kinds_have_names() {
    let names: Vec<&str> =
        [OpKind::Pread, OpKind::Pwrite, OpKind::Pwritev, OpKind::Sync, OpKind::Truncate]
            .iter()
            .map(|k| k.label())
            .collect();
    assert_eq!(names, vec!["pread", "pwrite", "pwritev", "sync", "truncate"]);
}
