//! The decisions of the refresh timer.
//!
//! The host waits for whichever comes first, the end of the running period
//! or a notice that another period is wanted, and reports it here. The timer
//! answers with what to do: send a tick, or start over with the new period.

use vstd::prelude::*;

verus! {

/// The period that the timer runs with until it is told the configured one,
/// in milliseconds.
pub const STARTUP_PERIOD: u64 = 1000;

/// What happened while the timer was waiting.
#[derive(Clone, Copy, Debug, PartialEq, Eq, Structural)]
pub enum TimerEvent {
    /// The running period is over.
    Elapsed,
    /// Another period is wanted, in milliseconds.
    PeriodChanged(u64),
}

/// What the host is to do next.
#[derive(Clone, Copy, Debug, PartialEq, Eq, Structural)]
pub enum TimerCommand {
    /// Tell the applet to refresh.
    SendTick,
    /// Drop the running period and start one of `period` milliseconds now:
    /// the next tick is due one full period from now, and ticks that are
    /// missed are skipped, not caught up.
    Rearm { period: u64 },
}

/// The refresh timer: the period it runs with.
#[derive(Clone, Copy, Debug)]
pub struct Timer {
    period: u64,
}

impl Timer {
    /// The running period in milliseconds.
    pub closed spec fn spec_period(self) -> u64 {
        self.period
    }

    /// What an event makes of a running period, and what it asks of the
    /// host.
    pub open spec fn next(period: u64, event: TimerEvent) -> (u64, TimerCommand) {
        match event {
            TimerEvent::Elapsed => (period, TimerCommand::SendTick),
            TimerEvent::PeriodChanged(msec) => (msec, TimerCommand::Rearm { period: msec }),
        }
    }

    /// A timer that runs with the startup period.
    pub fn new() -> (timer: Timer)
        ensures
            timer.spec_period() == STARTUP_PERIOD,
    {
        Timer { period: STARTUP_PERIOD }
    }

    /// The running period in milliseconds.
    pub fn period(&self) -> (msec: u64)
        ensures
            msec == self.spec_period(),
    {
        self.period
    }

    /// Takes an event and says what to do. The end of a period sends one
    /// tick and leaves the period as it is; a wanted period replaces the
    /// running one at once.
    pub fn step(&mut self, event: TimerEvent) -> (command: TimerCommand)
        requires
            old(self).spec_period() > 0,
            event matches TimerEvent::PeriodChanged(msec) ==> msec > 0,
        ensures
            (final(self).spec_period(), command) == Timer::next(old(self).spec_period(), event),
            final(self).spec_period() > 0,
    {
        match event {
            TimerEvent::Elapsed => TimerCommand::SendTick,
            TimerEvent::PeriodChanged(msec) => {
                self.period = msec;
                TimerCommand::Rearm { period: msec }
            },
        }
    }
}

/// A change of period neither loses nor doubles the signal: it sends no tick
/// of its own, and the end of each period sends exactly one, whatever the
/// period is by then.
pub proof fn lemma_one_tick_per_period(period: u64, wanted: u64)
    ensures
        Timer::next(period, TimerEvent::PeriodChanged(wanted)).1 != TimerCommand::SendTick,
        Timer::next(Timer::next(period, TimerEvent::PeriodChanged(wanted)).0, TimerEvent::Elapsed)
            == (wanted, TimerCommand::SendTick),
        Timer::next(period, TimerEvent::Elapsed) == (period, TimerCommand::SendTick),
{
}

} // verus!
