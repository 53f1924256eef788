use vstd::prelude::*;
use crate::moment::{Moment, MOMENT_LIMIT};
use crate::span::ordered;

verus! {

/// Whole minutes from `start` to `end`, rounded down.
pub open spec fn span_minutes(start: Moment, end: Moment) -> int {
    (end.seconds - start.seconds) / 60
}

/// Total of the first `n` spans of `t`, span `k` running from `t[2k]` to
/// `t[2k + 1]`.
pub open spec fn pairs_total(t: Seq<Moment>, n: nat) -> int
    decreases n,
{
    if n == 0 {
        0
    } else {
        pairs_total(t, (n - 1) as nat) + span_minutes(t[2 * n - 2], t[2 * n - 1])
    }
}

/// The later of `at` and the last moment a session has seen.
pub open spec fn later_of(latest: Option<Moment>, at: Moment) -> Moment {
    match latest {
        Some(l) => if l.seconds > at.seconds { l } else { at },
        None => at,
    }
}

/// What a tick did to a session.
#[derive(Clone, Copy, Debug, PartialEq, Eq, Structural)]
pub enum Tick {
    /// A span was opened at this moment.
    Opened(Moment),
    /// The span from `start` to `end` was closed; it lasted `minutes`.
    Closed { start: Moment, end: Moment, minutes: i64 },
}

/// A day's work: the minutes of all closed spans, how many spans were closed,
/// and the start of the span still open, if any.
#[derive(Clone, Copy, Debug, PartialEq, Eq, Structural)]
pub struct WorkSession {
    pub total_minutes: i64,
    pub closed_spans: usize,
    pub open: Option<Moment>,
    /// The last moment the session has seen.
    pub latest: Option<Moment>,
}

impl WorkSession {
    /// Spans are laid end to end in time, so their minutes never exceed the
    /// time from the first moment seen to the last.
    pub open spec fn wf(self) -> bool {
        &&& self.total_minutes >= 0
        &&& self.open is Some ==> self.latest == self.open
        &&& match self.latest {
            None => self.total_minutes == 0 && self.closed_spans == 0,
            Some(l) => l.wf() && self.total_minutes * 60 <= l.seconds + MOMENT_LIMIT,
        }
    }

    /// An idle session with nothing counted.
    pub fn new() -> (r: WorkSession)
        ensures
            r.wf(),
            r.total_minutes == 0,
            r.closed_spans == 0,
            r.open is None,
            r.latest is None,
    {
        WorkSession { total_minutes: 0, closed_spans: 0, open: None, latest: None }
    }

    /// One clock event at `at`: an idle session opens a span, an open one
    /// closes it and adds its minutes. A moment before the last one seen is
    /// taken as that last one, so time never runs backwards.
    pub fn tick(&mut self, at: Moment) -> (r: Tick)
        requires
            old(self).wf(),
            at.wf(),
            old(self).closed_spans < usize::MAX,
        ensures
            final(self).wf(),
            final(self).total_minutes >= old(self).total_minutes,
            final(self).latest == Some(later_of(old(self).latest, at)),
            match old(self).open {
                None => {
                    &&& r == Tick::Opened(later_of(old(self).latest, at))
                    &&& final(self).open == Some(later_of(old(self).latest, at))
                    &&& final(self).total_minutes == old(self).total_minutes
                    &&& final(self).closed_spans == old(self).closed_spans
                },
                Some(start) => {
                    &&& final(self).open is None
                    &&& final(self).total_minutes == old(self).total_minutes + span_minutes(
                        start,
                        later_of(old(self).latest, at),
                    )
                    &&& final(self).closed_spans == old(self).closed_spans + 1
                    &&& r == (Tick::Closed {
                        start,
                        end: later_of(old(self).latest, at),
                        minutes: span_minutes(start, later_of(old(self).latest, at)) as i64,
                    })
                },
            },
    {
        let end = match self.latest {
            Some(l) => if l.seconds > at.seconds { l } else { at },
            None => at,
        };
        match self.open {
            None => {
                self.open = Some(end);
                self.latest = Some(end);
                Tick::Opened(end)
            },
            Some(start) => {
                let minutes = (end.seconds - start.seconds) / 60;
                proof {
                    let d = end.seconds - start.seconds;
                    assert(0 <= d);
                    assert((d / 60) * 60 <= d) by (nonlinear_arith)
                        requires
                            0 <= d,
                    ;
                }
                self.total_minutes = self.total_minutes + minutes;
                self.closed_spans = self.closed_spans + 1;
                self.open = None;
                self.latest = Some(end);
                Tick::Closed { start, end, minutes }
            },
        }
    }

    /// Closes a span left open when input ends, at `now`; does nothing to an
    /// idle session.
    pub fn finish(&mut self, now: Moment) -> (r: Option<Tick>)
        requires
            old(self).wf(),
            now.wf(),
            old(self).closed_spans < usize::MAX,
        ensures
            final(self).wf(),
            final(self).open is None,
            match old(self).open {
                None => r is None && *final(self) == *old(self),
                Some(start) => {
                    &&& final(self).total_minutes == old(self).total_minutes + span_minutes(
                        start,
                        later_of(old(self).latest, now),
                    )
                    &&& final(self).closed_spans == old(self).closed_spans + 1
                    &&& final(self).latest == Some(later_of(old(self).latest, now))
                    &&& r == Some(
                        Tick::Closed {
                            start,
                            end: later_of(old(self).latest, now),
                            minutes: span_minutes(start, later_of(old(self).latest, now)) as i64,
                        },
                    )
                },
            },
    {
        if self.open.is_some() {
            Some(self.tick(now))
        } else {
            None
        }
    }
}

/// Pairs ordered moments into spans, first with second, third with fourth
/// and so on, and adds up their minutes. With an odd count the last moment
/// is left as the start of an open span.
pub fn tally(times: &Vec<Moment>) -> (r: WorkSession)
    requires
        ordered(times@),
    ensures
        r.wf(),
        r.total_minutes == pairs_total(times@, times@.len() / 2),
        r.closed_spans == times@.len() / 2,
        r.open == (if times@.len() % 2 == 1 { Some(times@.last()) } else { None::<Moment> }),
{
    let mut session = WorkSession::new();
    let mut i: usize = 0;
    while i < times.len()
        invariant
            ordered(times@),
            i <= times@.len(),
            session.wf(),
            session.total_minutes == pairs_total(times@, i as nat / 2),
            session.closed_spans == i / 2,
            session.open == (if i % 2 == 1 { Some(times@[i - 1]) } else { None::<Moment> }),
            session.latest == (if i == 0 { None::<Moment> } else { Some(times@[i - 1]) }),
        decreases times@.len() - i,
    {
        let at = times[i];
        let _ = session.tick(at);
        proof {
            if i % 2 == 1 {
                assert((i as nat + 1) / 2 == (i as nat / 2) + 1);
                assert(2 * ((i as nat + 1) / 2) - 2 == i - 1);
            }
        }
        i = i + 1;
    }
    session
}

} // verus!
