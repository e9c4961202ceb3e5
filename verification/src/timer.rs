//! How long a clip has been encoding: a timer that counts up while it does, and
//! freezes at the end.

use crate::text;
use vstd::prelude::*;

verus! {

/// A timer over a clock of milliseconds.
#[derive(Clone, Copy, Debug, PartialEq, Eq, Structural)]
pub enum Timer {
    Idle,
    Running { since_ms: u64 },
    Stopped { elapsed_ms: u64 },
}

/// How long it is from `since` to `now`; nothing where the clock went back.
pub open spec fn span(since: int, now: int) -> int {
    if now >= since {
        now - since
    } else {
        0
    }
}

/// What a timer shows, in milliseconds; `None` where it never ran.
pub open spec fn shown(t: Timer, now: int) -> Option<int> {
    match t {
        Timer::Idle => None,
        Timer::Running { since_ms } => Some(span(since_ms as int, now)),
        Timer::Stopped { elapsed_ms } => Some(elapsed_ms as int),
    }
}

/// A timer that was told to start.
pub open spec fn started(t: Timer, now: u64) -> Timer {
    match t {
        Timer::Idle => Timer::Running { since_ms: now },
        _ => t,
    }
}

/// A timer that was told to stop.
pub open spec fn stopped(t: Timer, now: u64) -> Timer {
    match t {
        Timer::Running { since_ms } => Timer::Stopped {
            elapsed_ms: span(since_ms as int, now as int) as u64,
        },
        _ => t,
    }
}

/// Milliseconds as minutes and two digits of seconds.
pub open spec fn clock_text(ms: int) -> Seq<char> {
    let seconds = ms / 1000;
    text::digits(seconds / 60) + ":"@ + text::digits(seconds % 60 / 10) + text::digits(
        seconds % 10,
    )
}

impl Timer {
    /// Start, unless it already did.
    pub fn start(&mut self, now_ms: u64)
        ensures
            *final(self) == started(*old(self), now_ms),
    {
        if let Timer::Idle = *self {
            *self = Timer::Running { since_ms: now_ms };
        }
    }

    /// Stop, if it is running.
    pub fn stop(&mut self, now_ms: u64)
        ensures
            *final(self) == stopped(*old(self), now_ms),
    {
        if let Timer::Running { since_ms } = *self {
            *self = Timer::Stopped {
                elapsed_ms: if now_ms >= since_ms {
                    now_ms - since_ms
                } else {
                    0
                },
            };
        }
    }

    /// What it shows, in milliseconds; `None` where it never ran.
    pub fn elapsed(&self, now_ms: u64) -> (r: Option<u64>)
        ensures
            match shown(*self, now_ms as int) {
                Some(ms) => r matches Some(e) && e == ms,
                None => r is None,
            },
    {
        match *self {
            Timer::Idle => None,
            Timer::Running { since_ms } => Some(
                if now_ms >= since_ms {
                    now_ms - since_ms
                } else {
                    0
                },
            ),
            Timer::Stopped { elapsed_ms } => Some(elapsed_ms),
        }
    }

    /// What it shows, in minutes and seconds.
    pub fn to_text(&self, now_ms: u64) -> (r: Option<String>)
        ensures
            match shown(*self, now_ms as int) {
                Some(ms) => r matches Some(s) && s@ == clock_text(ms),
                None => r is None,
            },
    {
        match self.elapsed(now_ms) {
            None => None,
            Some(ms) => {
                let seconds: u64 = ms / 1000;
                let mut s = String::new();
                text::push_number(&mut s, (seconds / 60) as u128);
                s.append(":");
                text::push_number(&mut s, (seconds % 60 / 10) as u128);
                text::push_number(&mut s, (seconds % 10) as u128);
                assert(s@ =~= clock_text(ms as int));
                Some(s)
            },
        }
    }
}

/// A timer counts up: as the clock goes on, it never shows less.
pub proof fn law_timer_counts_up(t: Timer, earlier: int, later: int)
    requires
        earlier <= later,
    ensures
        shown(t, earlier) is Some == shown(t, later) is Some,
        shown(t, earlier) matches Some(a) ==> a <= shown(t, later)->0,
{
}

/// A timer freezes at the end: once stopped it shows what it showed then,
/// whatever the clock says and whatever it is told afterwards.
pub proof fn law_timer_freezes(t: Timer, at: u64, later: int, told: u64)
    requires
        !(t is Idle),
    ensures
        shown(stopped(t, at), later) == shown(t, at as int),
        started(stopped(t, at), told) == stopped(t, at),
        stopped(stopped(t, at), told) == stopped(t, at),
{
}

/// A timer measures from its first start to its first stop: between them it
/// shows the time since the start, and from then on the time between the two.
pub proof fn law_timer_measures(start: u64, now: u64, stop: u64, later: u64)
    requires
        start <= now,
        start <= stop,
    ensures
        shown(Timer::Idle, now as int) is None,
        stopped(Timer::Idle, stop) == Timer::Idle,
        shown(started(Timer::Idle, start), now as int) == Some(now - start),
        shown(started(started(Timer::Idle, start), later), now as int) == Some(now - start),
        shown(stopped(started(Timer::Idle, start), stop), later as int) == Some(stop - start),
{
}

/// A clock shows whole minutes, and the seconds left over in two digits.
pub proof fn law_clock_shows_minutes_and_seconds(ms: int)
    requires
        ms >= 0,
    ensures
        ({
            let minutes = ms / 60_000;
            let seconds = (ms - 60_000 * minutes) / 1_000;
            &&& 0 <= seconds < 60
            &&& clock_text(ms) == text::digits(minutes) + ":"@ + text::digits(seconds / 10)
                + text::digits(seconds % 10)
        }),
{
    let minutes = ms / 60_000;
    let seconds = (ms - 60_000 * minutes) / 1_000;
    assert(ms / 1000 / 60 == minutes);
    assert(ms / 1000 % 60 == seconds);
    assert(ms / 1000 % 10 == seconds % 10);
}

} // verus!
