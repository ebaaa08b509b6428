use pong_wars::scheduler::{FrameScheduler, FrameStep, SPIN_MARGIN_NS};

#[test]
fn ticks_when_deadline_passed() {
    let mut s = FrameScheduler::new(60, 0, 50);
    assert_eq!(s.period_ns, 16_666_666);
    assert_eq!(s.poll(0), FrameStep::Tick);
    assert_eq!(s.next_deadline_ns, 16_666_666);
}

#[test]
fn waits_until_deadline() {
    let mut s = FrameScheduler::new(60, 0, 50);
    s.poll(0);
    assert_eq!(
        s.poll(10),
        FrameStep::Wait { sleep_ns: 16_666_656 - SPIN_MARGIN_NS, deadline_ns: 16_666_666 }
    );
    assert_eq!(s.poll(16_000_000), FrameStep::Wait { sleep_ns: 0, deadline_ns: 16_666_666 });
    assert_eq!(s.next_deadline_ns, 16_666_666);
}

#[test]
fn overrun_resets_deadline_without_backlog() {
    let mut s = FrameScheduler::new(10, 1_000, 50);
    let period = s.period_ns;
    assert_eq!(s.poll(1_000), FrameStep::Tick);
    // The tick's work overruns by more than two periods.
    let late = 1_000 + 2 * period + period / 2;
    assert_eq!(s.poll(late), FrameStep::Tick);
    assert_eq!(s.next_deadline_ns, late + period);
    assert!(matches!(s.poll(late + 1), FrameStep::Wait { .. }));
    assert!(matches!(s.poll(late + period - 1), FrameStep::Wait { .. }));
    assert_eq!(s.poll(late + period), FrameStep::Tick);
}

#[test]
fn simulated_clock_never_bursts() {
    let mut s = FrameScheduler::new(30, 0, 50);
    let period = s.period_ns;
    let work = [1_000u64, 90_000_000, 2_000, 5_000_000, 70_000_000, 3_000];
    let mut now = 0u64;
    let mut ticks: Vec<u64> = Vec::new();
    let mut i = 0;
    while ticks.len() < work.len() {
        match s.poll(now) {
            FrameStep::Tick => {
                ticks.push(now);
                now += work[i];
                i += 1;
            }
            FrameStep::Wait { sleep_ns, deadline_ns } => {
                now += sleep_ns;
                now = now.max(deadline_ns);
            }
        }
    }
    for pair in ticks.windows(2) {
        assert!(pair[1] - pair[0] >= period);
    }
}

#[test]
fn brightness_forwarded_only_on_change() {
    let mut s = FrameScheduler::new(30, 0, 50);
    assert_eq!(s.brightness_change(50), None);
    assert_eq!(s.brightness_change(80), Some(80));
    assert_eq!(s.brightness_change(80), None);
    assert_eq!(s.last_sent_brightness, 80);
}

#[test]
fn deadline_holds_at_end_of_clock() {
    let mut s = FrameScheduler::new(1, 0, 50);
    assert_eq!(s.poll(u64::MAX - 5), FrameStep::Tick);
    assert_eq!(s.next_deadline_ns, u64::MAX);
}
