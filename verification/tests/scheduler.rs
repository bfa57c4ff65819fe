use uptime_monitor::scheduler::{Command, Phase, Scheduler, Signal};

#[test]
fn the_first_round_is_dispatched_at_once() {
    let (scheduler, command) = Scheduler::start(60_000);
    assert_eq!(command, Command::Dispatch);
    assert_eq!(scheduler.current_phase(), Phase::Dispatching);
    assert_eq!(scheduler.interval_ms(), 60_000);
}

#[test]
fn rounds_and_pauses_alternate() {
    let (mut scheduler, _) = Scheduler::start(250);
    for _ in 0..5 {
        assert_eq!(scheduler.on_signal(Signal::RoundComplete), Some(Command::Sleep(250)));
        assert_eq!(scheduler.current_phase(), Phase::Sleeping);
        assert_eq!(scheduler.on_signal(Signal::Woke), Some(Command::Dispatch));
        assert_eq!(scheduler.current_phase(), Phase::Dispatching);
    }
}

#[test]
fn the_pause_is_the_whole_interval_every_time() {
    let (mut scheduler, _) = Scheduler::start(0);
    assert_eq!(scheduler.on_signal(Signal::RoundComplete), Some(Command::Sleep(0)));
    let (mut scheduler, _) = Scheduler::start(u64::MAX);
    assert_eq!(scheduler.on_signal(Signal::RoundComplete), Some(Command::Sleep(u64::MAX)));
    assert_eq!(scheduler.on_signal(Signal::Woke), Some(Command::Dispatch));
    assert_eq!(scheduler.on_signal(Signal::RoundComplete), Some(Command::Sleep(u64::MAX)));
}

#[test]
fn a_signal_that_is_not_awaited_changes_nothing() {
    let (mut scheduler, _) = Scheduler::start(10);
    assert_eq!(scheduler.on_signal(Signal::Woke), None);
    assert_eq!(scheduler.current_phase(), Phase::Dispatching);
    assert_eq!(scheduler.on_signal(Signal::RoundComplete), Some(Command::Sleep(10)));
    assert_eq!(scheduler.on_signal(Signal::RoundComplete), None);
    assert_eq!(scheduler.current_phase(), Phase::Sleeping);
    assert_eq!(scheduler.interval_ms(), 10);
}

#[test]
fn no_round_is_dispatched_before_the_last_one_completed() {
    // every sequence of eight signals: at each step at most one round is
    // under way, and a round is dispatched only when none is
    for pattern in 0u32..256 {
        let (mut scheduler, _) = Scheduler::start(1);
        let mut dispatched = 1u32;
        let mut completed = 0u32;
        for bit in 0..8 {
            let signal =
                if pattern >> bit & 1 == 0 { Signal::RoundComplete } else { Signal::Woke };
            match scheduler.on_signal(signal) {
                Some(Command::Dispatch) => {
                    assert_eq!(completed, dispatched);
                    dispatched += 1;
                }
                Some(Command::Sleep(_)) => completed += 1,
                None => {}
            }
            let under_way = dispatched - completed;
            match scheduler.current_phase() {
                Phase::Dispatching => assert_eq!(under_way, 1),
                Phase::Sleeping => assert_eq!(under_way, 0),
            }
        }
    }
}
