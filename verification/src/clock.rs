//! The clock: when to show the time, and when to look again.
use vstd::prelude::*;

verus! {

/// A module that shows the time of day.
#[derive(Debug)]
pub struct TimeModule {
    /// The minute that was shown last.
    pub last_minute: Option<u32>,
}

/// How often a clock looks: a number of milliseconds for each second that is
/// left of the minute, and at least some of them.
#[derive(Clone, Copy, Debug, PartialEq, Eq, Structural)]
pub struct Pace {
    pub per_second: u64,
    pub at_least: u64,
}

impl Pace {
    /// A clock that looks three to four times before the minute is over.
    pub fn calm() -> (r: Self)
        ensures
            r == (Pace { per_second: 750, at_least: 100 }),
    {
        Pace { per_second: 750, at_least: 100 }
    }

    /// A clock that looks more often.
    pub fn eager() -> (r: Self)
        ensures
            r == (Pace { per_second: 500, at_least: 250 }),
    {
        Pace { per_second: 500, at_least: 250 }
    }

    /// How long to wait.
    pub open spec fn wait(self, second: u32) -> int {
        if self.per_second * (60 - second) >= self.at_least {
            self.per_second * (60 - second)
        } else {
            self.at_least as int
        }
    }

    /// How long to wait before looking again, in milliseconds.
    pub fn timeout_ms(self, second: u32) -> (r: u64)
        requires
            second <= 60,
            self.per_second <= 1000,
        ensures
            r == self.wait(second),
    {
        let left: u64 = 60 - second as u64;
        assert(self.per_second * left <= 1000 * 60) by (nonlinear_arith)
            requires
                self.per_second <= 1000u64,
                left <= 60u64,
        ;
        let wait: u64 = self.per_second * left;
        if wait >= self.at_least {
            wait
        } else {
            self.at_least
        }
    }
}

/// A clock that waits no longer than a second for each second that is left does
/// not sleep past the end of the minute, unless it would wait less than its least.
pub proof fn law_wait_ends_in_time(pace: Pace, second: u32)
    requires
        second <= 60,
        pace.per_second <= 1000,
    ensures
        pace.wait(second) <= 1000 * (60 - second) || pace.wait(second) == pace.at_least,
{
    let left = 60 - second;
    assert(pace.per_second * left <= 1000 * left) by (nonlinear_arith)
        requires
            pace.per_second <= 1000,
            left >= 0,
    ;
}

/// A clock waits its share for each second that is left of the minute, and never
/// less than its least. The later in the minute, the shorter it waits.
pub proof fn law_wait_shrinks_with_the_minute(pace: Pace, early: u32, late: u32)
    requires
        early <= late <= 60,
    ensures
        pace.wait(late) <= pace.wait(early),
        pace.wait(late) >= pace.at_least,
        pace.wait(late) >= pace.per_second * (60 - late),
        pace.wait(late) == pace.at_least || pace.wait(late) == pace.per_second * (60 - late),
{
    assert(pace.per_second * (60 - late) <= pace.per_second * (60 - early)) by (nonlinear_arith)
        requires
            early <= late,
            pace.per_second >= 0,
    ;
}

/// What a clock does.
#[derive(Clone, Copy, Debug, PartialEq, Eq, Structural)]
pub enum ClockAct {
    /// Show the time, and look again at once.
    Show,
    /// Look again after some milliseconds.
    Sleep(u64),
}

impl TimeModule {
    /// What the clock does when it looks at the time.
    pub open spec fn act_at(self, minute: u32, second: u32, pace: Pace) -> ClockAct {
        if self.last_minute == Some(minute) {
            ClockAct::Sleep(pace.wait(second) as u64)
        } else {
            ClockAct::Show
        }
    }

    pub fn new() -> (r: Self)
        ensures
            r.last_minute is None,
    {
        TimeModule { last_minute: None }
    }

    /// Looks at the time. It is shown where the minute is not the one that was
    /// shown last.
    pub fn look(&mut self, minute: u32, second: u32, pace: Pace) -> (r: ClockAct)
        requires
            second <= 60,
            pace.per_second <= 1000,
        ensures
            final(self).last_minute == Some(minute),
            r == old(self).act_at(minute, second, pace),
    {
        let shown = match self.last_minute {
            Some(last) => last == minute,
            None => false,
        };
        if shown {
            ClockAct::Sleep(pace.timeout_ms(second))
        } else {
            self.last_minute = Some(minute);
            ClockAct::Show
        }
    }

    /// Forgets what was shown, so that the time is shown again.
    pub fn reload(&mut self)
        ensures
            final(self).last_minute is None,
    {
        self.last_minute = None;
    }
}

/// The time is shown once in each minute: where it was not shown in this one, it is,
/// and once it was, the clock sleeps for as long as its pace asks.
pub proof fn law_time_is_shown_once_a_minute(
    before: TimeModule,
    after: TimeModule,
    minute: u32,
    second: u32,
    pace: Pace,
)
    requires
        after.last_minute == Some(minute),
        before.last_minute != Some(minute),
    ensures
        before.act_at(minute, second, pace) is Show,
        after.act_at(minute, second, pace) matches ClockAct::Sleep(wait) && (pace.wait(second)
            <= u64::MAX && pace.wait(second) >= 0 ==> wait == pace.wait(second)),
        forall|other: u32| other != minute ==> after.act_at(other, second, pace) is Show,
{
}

} // verus!
