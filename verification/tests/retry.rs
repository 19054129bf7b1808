use turso_dst::exec::Fail;
use turso_dst::retry::{
    sentinel_crashed, Effort, OpenRun, SentinelProbe, ARM_ATTEMPTS, OPEN_ATTEMPTS,
};

#[test]
fn dead_descriptor_tells_of_a_power_cut() {
    assert!(sentinel_crashed(SentinelProbe::Failed(Some(9))));
    assert!(!sentinel_crashed(SentinelProbe::Failed(Some(5))));
    assert!(!sentinel_crashed(SentinelProbe::Failed(None)));
    assert!(!sentinel_crashed(SentinelProbe::Alive));
    assert!(!sentinel_crashed(SentinelProbe::Unarmed));
}

#[test]
fn efforts_end() {
    let mut effort = Effort::new(ARM_ATTEMPTS);
    let mut n = 0;
    while effort.again() {
        n += 1;
    }
    assert_eq!(n, 20);
    assert!(!effort.again());
}

#[test]
fn open_is_tried_again_and_given_up() {
    let mut run = OpenRun::start();
    assert!(!run.on_opened());
    let mut attempts = 1;
    while run.on_failed(&Fail::Error(format!("e{attempts}"))) {
        attempts += 1;
        assert!(run.on_opened());
    }
    assert_eq!(attempts, OPEN_ATTEMPTS);
    let v = run.gave_up();
    assert_eq!((v.label.as_str(), v.detail.as_str()), ("reopen-failed", "Error(\"e40\")"));
    assert_eq!(OpenRun::start().gave_up().detail, "");
}
