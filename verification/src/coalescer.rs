//! Coalescing of rapid same-kind activity events into single duration-bounded
//! periods, so a burst of edits becomes one record instead of hundreds.

use vstd::prelude::*;

verus! {

/// One merged burst of activity in a given environment, in milliseconds of
/// session time.
#[derive(Debug, PartialEq, Eq)]
pub struct CoalescedPeriod {
    pub start_millis: u64,
    pub end_millis: u64,
    pub environment: String,
}

impl Clone for CoalescedPeriod {
    fn clone(&self) -> (r: Self)
        ensures
            r == *self,
    {
        CoalescedPeriod {
            start_millis: self.start_millis,
            end_millis: self.end_millis,
            environment: self.environment.clone(),
        }
    }
}

/// Mathematical value of a period.
pub struct PeriodView {
    pub start: u64,
    pub end: u64,
    pub environment: Seq<char>,
}

impl View for CoalescedPeriod {
    type V = PeriodView;

    open spec fn view(&self) -> PeriodView {
        PeriodView {
            start: self.start_millis,
            end: self.end_millis,
            environment: self.environment@,
        }
    }
}

pub open spec fn opt_period_view(p: Option<CoalescedPeriod>) -> Option<PeriodView> {
    match p {
        Option::Some(p) => Some(p@),
        Option::None => None,
    }
}

/// A new event extends an open period when it carries the same environment
/// and arrives no later than the configured gap after the period's end.  An
/// event whose timestamp lies before the period's end (a clock that went
/// backwards) never extends it.
pub open spec fn spec_extends(p: PeriodView, now: u64, env: Seq<char>, max_gap: u64) -> bool {
    p.environment == env && p.end <= now && now - p.end <= max_gap
}

/// What one logged event does to the open period: `.0` is the period left
/// open afterwards, `.1` the period closed and handed back for emission.
pub open spec fn spec_log_step(
    current: Option<PeriodView>,
    now: u64,
    env: Seq<char>,
    max_gap: u64,
) -> (Option<PeriodView>, Option<PeriodView>) {
    match current {
        Option::None => (Some(PeriodView { start: now, end: now, environment: env }), None),
        Option::Some(p) => if spec_extends(p, now, env, max_gap) {
            (Some(PeriodView { start: p.start, end: now, environment: p.environment }), None)
        } else {
            (Some(PeriodView { start: now, end: now, environment: env }), Some(p))
        },
    }
}

/// Merges bursts of rapid same-environment events into single periods.  At
/// most one period is open at a time; a period is emitted only when a new
/// event falls outside it or on an explicit flush.
pub struct EventCoalescer {
    current: Option<CoalescedPeriod>,
    max_gap_millis: u64,
}

impl EventCoalescer {
    pub closed spec fn spec_current(self) -> Option<PeriodView> {
        opt_period_view(self.current)
    }

    pub closed spec fn spec_max_gap(self) -> u64 {
        self.max_gap_millis
    }

    pub fn new(max_gap_millis: u64) -> (r: Self)
        ensures
            r.spec_current() is None,
            r.spec_max_gap() == max_gap_millis,
    {
        EventCoalescer { current: None, max_gap_millis }
    }

    /// Records one activity event at `now_millis` in `environment`.  The
    /// event either extends the open period or closes it; a closed period is
    /// returned for emission and a fresh one opens at the event.
    pub fn log_event(&mut self, now_millis: u64, environment: &str) -> (closed_period: Option<
        CoalescedPeriod,
    >)
        ensures
            (final(self).spec_current(), opt_period_view(closed_period)) == spec_log_step(
                old(self).spec_current(),
                now_millis,
                environment@,
                old(self).spec_max_gap(),
            ),
            final(self).spec_max_gap() == old(self).spec_max_gap(),
    {
        let mut taken: Option<CoalescedPeriod> = None;
        core::mem::swap(&mut taken, &mut self.current);
        match taken {
            None => {
                self.current = Some(
                    CoalescedPeriod {
                        start_millis: now_millis,
                        end_millis: now_millis,
                        environment: environment.to_owned(),
                    },
                );
                None
            },
            Some(p) => {
                let fresh_env = environment.to_owned();
                let same_env = p.environment == fresh_env;
                let extends = same_env && p.end_millis <= now_millis && now_millis - p.end_millis
                    <= self.max_gap_millis;
                if extends {
                    self.current = Some(
                        CoalescedPeriod {
                            start_millis: p.start_millis,
                            end_millis: now_millis,
                            environment: p.environment,
                        },
                    );
                    None
                } else {
                    self.current = Some(
                        CoalescedPeriod {
                            start_millis: now_millis,
                            end_millis: now_millis,
                            environment: environment.to_owned(),
                        },
                    );
                    Some(p)
                }
            },
        }
    }

    /// Closes and returns the open period, if any, without opening a new one.
    pub fn flush(&mut self) -> (closed_period: Option<CoalescedPeriod>)
        ensures
            opt_period_view(closed_period) == old(self).spec_current(),
            final(self).spec_current() is None,
            final(self).spec_max_gap() == old(self).spec_max_gap(),
    {
        let mut taken: Option<CoalescedPeriod> = None;
        core::mem::swap(&mut taken, &mut self.current);
        taken
    }
}

/// Two events with the same environment within the merge window coalesce:
/// neither call emits anything and the open period spans both timestamps.
pub proof fn lemma_coalesce_within_window(now1: u64, now2: u64, env: Seq<char>, max_gap: u64)
    requires
        now1 <= now2,
        now2 - now1 <= max_gap,
    ensures
        ({
            let first = spec_log_step(None, now1, env, max_gap);
            let second = spec_log_step(first.0, now2, env, max_gap);
            &&& first.1 is None
            &&& second.1 is None
            &&& second.0 == Some(PeriodView { start: now1, end: now2, environment: env })
        }),
{
}

/// An event outside the merge window, or with a different environment,
/// closes the open period: exactly that period is emitted, unchanged, and a
/// fresh period opens at the new event.
pub proof fn lemma_coalesce_closes_period(p: PeriodView, now: u64, env: Seq<char>, max_gap: u64)
    requires
        !spec_extends(p, now, env, max_gap),
    ensures
        spec_log_step(Some(p), now, env, max_gap) == (
            Some(PeriodView { start: now, end: now, environment: env }),
            Some(p),
        ),
{
}

/// Reported edit durations are clamped to one day to defend against clock
/// anomalies.
pub const MAX_EDIT_PERIOD_MILLIS: u64 = 24 * 60 * 60 * 1000;

/// The duration a closed period reports: the elapsed time, zero if the clock
/// ran backwards, and never more than a day.
pub open spec fn spec_clamped_duration(start: u64, end: u64) -> u64 {
    if end <= start {
        0
    } else if end - start > MAX_EDIT_PERIOD_MILLIS {
        MAX_EDIT_PERIOD_MILLIS
    } else {
        (end - start) as u64
    }
}

pub fn clamped_duration_millis(start_millis: u64, end_millis: u64) -> (r: u64)
    ensures
        r == spec_clamped_duration(start_millis, end_millis),
{
    if end_millis <= start_millis {
        0
    } else {
        let d = end_millis - start_millis;
        if d > MAX_EDIT_PERIOD_MILLIS {
            MAX_EDIT_PERIOD_MILLIS
        } else {
            d
        }
    }
}

} // verus!
