use yubikey_notifier::alert::{poll_steps, BurstSchedule, POLL_INTERVAL_MS};
use yubikey_notifier::sound::{BURST_COUNT, BURST_DELAY_MS, BURST_PAUSE_MS};

#[test]
fn bursts_repeat() {
    let mut schedule = BurstSchedule::new();
    let mut pauses = Vec::new();
    for _ in 0..(2 * BURST_COUNT) {
        pauses.push(schedule.pause_after_sound());
    }
    assert_eq!(
        pauses,
        vec![BURST_DELAY_MS, BURST_DELAY_MS, BURST_PAUSE_MS, BURST_DELAY_MS, BURST_DELAY_MS, BURST_PAUSE_MS]
    );
}

#[test]
fn poll_steps_count_whole_intervals() {
    assert_eq!(POLL_INTERVAL_MS, 20);
    assert_eq!(poll_steps(BURST_DELAY_MS), 20);
    assert_eq!(poll_steps(BURST_PAUSE_MS), 100);
    assert_eq!(poll_steps(39), 1);
    assert_eq!(poll_steps(0), 0);
}
