use cosmic_applet_ram::timer::{Timer, TimerCommand, TimerEvent, STARTUP_PERIOD};

#[test]
fn starts_with_the_startup_period() {
    assert_eq!(STARTUP_PERIOD, 1000);
    assert_eq!(Timer::new().period(), 1000);
}

#[test]
fn the_end_of_a_period_sends_one_tick() {
    let mut timer = Timer::new();
    assert_eq!(timer.step(TimerEvent::Elapsed), TimerCommand::SendTick);
    assert_eq!(timer.period(), 1000);
}

#[test]
fn a_wanted_period_rearms_at_once() {
    let mut timer = Timer::new();
    assert_eq!(timer.step(TimerEvent::PeriodChanged(250)), TimerCommand::Rearm { period: 250 });
    assert_eq!(timer.period(), 250);
    assert_eq!(timer.step(TimerEvent::Elapsed), TimerCommand::SendTick);
    assert_eq!(timer.period(), 250);
    assert_eq!(timer.step(TimerEvent::PeriodChanged(250)), TimerCommand::Rearm { period: 250 });
    assert_eq!(timer.step(TimerEvent::PeriodChanged(1)), TimerCommand::Rearm { period: 1 });
    assert_eq!(timer.period(), 1);
}
