//! The day's star jar and tomato box, the pomodoro timer and idle tracking.
use vstd::prelude::*;
use vstd::string::*;

use crate::app::{idle_options, next_idle_timeout, App, Counters, POMODORO_MS};
use crate::text::str_eq;
use crate::dates::date_ok;

verus! {

/// `n + 1`, held at the top.
pub open spec fn sat_inc(n: u64) -> u64 {
    if n == u64::MAX {
        n
    } else {
        (n + 1) as u64
    }
}

/// The count after a day change check: zero when `date` is not `today`.
pub open spec fn rolled(count: u64, date: Seq<char>, today: Seq<char>) -> u64 {
    if date == today {
        count
    } else {
        0
    }
}

/// Milliseconds elapsed from `start` to `now` (zero if the clock went back).
/// Whether the user has been away for the configured timeout at `now`.
pub open spec fn idle_at(app: App, now: u64) -> bool {
    app.counters.idle_timeout_secs > 0 && elapsed_ms(app.counters.last_activity, now) / 1000
        >= app.counters.idle_timeout_secs
}

pub open spec fn elapsed_ms(start: u64, now: u64) -> u64 {
    if now >= start {
        (now - start) as u64
    } else {
        0
    }
}

/// Milliseconds left at `now` on the running pomodoro, zero once it has
/// run its course; `None` when none runs.
pub open spec fn remaining_at(app: App, now: u64) -> Option<u64> {
    match app.counters.pomodoro_started_at {
        Some(s) => Some(
            if elapsed_ms(s, now) >= POMODORO_MS {
                0u64
            } else {
                (POMODORO_MS - elapsed_ms(s, now)) as u64
            },
        ),
        None => None,
    }
}

impl App {
    /// Adds one star for `today`, emptying the jar first when the stored
    /// date is another day. The jar only ever grows within a day.
    pub fn increment_star_jar_on(&mut self, today: &str)
        ensures
            *final(self) == (App {
                counters: Counters {
                    star_count: sat_inc(
                        rolled(old(self).counters.star_count, old(self).counters.star_date@, today@),
                    ),
                    star_date: final(self).counters.star_date,
                    ..old(self).counters
                },
                ..*old(self)
            }),
            final(self).counters.star_date@ == today@,
    {
        if !str_eq(self.counters.star_date.as_str(), today) {
            self.counters.star_date = String::from_str(today);
            self.counters.star_count = 0;
        }
        if self.counters.star_count < u64::MAX {
            self.counters.star_count = self.counters.star_count + 1;
        }
    }

    /// What `toggle_pomodoro_at` does to the state.
    pub open spec fn toggle_pomodoro_at_effect(old: App, new: App, now: u64) -> bool {
        &&& new == (App {
            counters: Counters {
                pomodoro_started_at: match old.counters.pomodoro_started_at {
                    Some(_) => None,
                    None => Some(now),
                },
                ..old.counters
            },
            ..old
        })
    }

    /// Starts a pomodoro at `now`, or cancels the running one.
    pub fn toggle_pomodoro_at(&mut self, now: u64)
        ensures
            Self::toggle_pomodoro_at_effect(*old(self), *final(self), now),
    {
        if self.counters.pomodoro_started_at.is_some() {
            self.counters.pomodoro_started_at = None;
        } else {
            self.counters.pomodoro_started_at = Some(now);
        }
    }

    /// Starts or cancels the pomodoro now.
    pub fn toggle_pomodoro(&mut self)
        ensures
            *final(self) == (App {
                counters: Counters {
                    pomodoro_started_at: final(self).counters.pomodoro_started_at,
                    ..old(self).counters
                },
                ..*old(self)
            }),
            final(self).counters.pomodoro_started_at is Some <==> old(
                self,
            ).counters.pomodoro_started_at is None,
    {
        let now = crate::ids::now_ms();
        self.toggle_pomodoro_at(now);
    }

    /// Milliseconds left on the running pomodoro at `now`, zero once it has
    /// run its course; `None` when none runs.
    pub fn pomodoro_remaining_at(&self, now: u64) -> (r: Option<u64>)
        ensures
            r == remaining_at(*self, now),
    {
        match self.counters.pomodoro_started_at {
            Some(s) => {
                let e = if now >= s {
                    now - s
                } else {
                    0
                };
                Some(
                    if e >= POMODORO_MS {
                        0
                    } else {
                        POMODORO_MS - e
                    },
                )
            },
            None => None,
        }
    }

    /// What `maybe_award_tomato_at` does to the state and returns.
    pub open spec fn maybe_award_tomato_at_effect(old: App, new: App, now: u64, today: &str, changed: bool) -> bool {
        &&& changed == match old.counters.pomodoro_started_at {
            Some(s) => elapsed_ms(s, now) >= POMODORO_MS,
            None => false,
        }
        &&& !changed ==> new == old
        &&& changed ==> new == (App {
            counters: Counters {
                pomodoro_started_at: None,
                tomato_count: sat_inc(
                    rolled(old.counters.tomato_count, old.counters.tomato_date@, today@),
                ),
                tomato_date: new.counters.tomato_date,
                ..old.counters
            },
            ..old
        })
        &&& changed ==> new.counters.tomato_date@ == today@
    }

    /// When the running pomodoro has run its course at `now`: stops it and
    /// adds a tomato for `today` (emptying the box first on a new day).
    /// Returns whether anything changed.
    pub fn maybe_award_tomato_at(&mut self, now: u64, today: &str) -> (changed: bool)
        ensures
            Self::maybe_award_tomato_at_effect(*old(self), *final(self), now, today, changed),
    {
        let start = match self.counters.pomodoro_started_at {
            Some(s) => s,
            None => return false,
        };
        let e = if now >= start {
            now - start
        } else {
            0
        };
        if e < POMODORO_MS {
            return false;
        }
        self.counters.pomodoro_started_at = None;
        if !str_eq(self.counters.tomato_date.as_str(), today) {
            self.counters.tomato_date = String::from_str(today);
            self.counters.tomato_count = 0;
        }
        if self.counters.tomato_count < u64::MAX {
            self.counters.tomato_count = self.counters.tomato_count + 1;
        }
        true
    }

    /// Whether the user has been idle for the configured timeout at `now`
    /// (a timeout of zero turns idling off).
    pub fn is_idle_at(&self, now: u64) -> (r: bool)
        ensures
            r == idle_at(*self, now),
    {
        let e = if now >= self.counters.last_activity {
            now - self.counters.last_activity
        } else {
            0
        };
        self.counters.idle_timeout_secs > 0 && e / 1000 >= self.counters.idle_timeout_secs
    }

    /// Moves the idle timeout to the next offered value.
    pub fn cycle_idle_timeout(&mut self)
        ensures
            *final(self) == (App {
                counters: Counters {
                    idle_timeout_secs: next_idle_timeout(
                        old(self).counters.idle_forcer,
                        old(self).counters.idle_timeout_secs,
                    ),
                    ..old(self).counters
                },
                ..*old(self)
            }),
    {
        let forcer = self.counters.idle_forcer;
        let cur = self.counters.idle_timeout_secs;
        let opts: Vec<u64> = if forcer {
            vec![5u64, 60, 120, 300, 600, 900, 1800]
        } else {
            vec![60u64, 120, 300, 600, 900, 1800]
        };
        assert(opts@ =~= idle_options(forcer));
        let mut i: usize = 0;
        while i < opts.len() && opts[i] != cur
            invariant
                opts@ == idle_options(forcer),
                i <= opts.len(),
                forall|j: int| 0 <= j < i ==> opts@[j] != cur,
            decreases opts.len() - i,
        {
            i += 1;
        }
        let pos: usize = if i < opts.len() {
            i
        } else {
            2
        };
        proof {
            let o = idle_options(forcer);
            if exists|k: int| 0 <= k < o.len() && o[k] == cur {
                let k = choose|k: int| 0 <= k < o.len() && o[k] == cur;
                assert(i < opts.len());
                assert(o[pos as int] == cur);
                assert(forall|a: int, b: int| 0 <= a < b < o.len() ==> o[a] != o[b]);
                assert(k == pos);
            }
        }
        let next = opts[(pos + 1) % opts.len()];
        self.counters.idle_timeout_secs = next;
    }
}

} // verus!

verus! {

impl App {
    /// Awards a tomato when the running pomodoro has run its course now.
    /// Returns whether anything changed.
    pub fn maybe_award_tomato(&mut self) -> (changed: bool)
        ensures
            exists|now: u64, today: &str|
                now <= i64::MAX && date_ok(today@) && #[trigger] Self::maybe_award_tomato_at_effect(
                    *old(self),
                    *final(self),
                    now,
                    today,
                    changed,
                ),
    {
        let now = crate::ids::now_ms();
        let today = crate::dates::today_str();
        let t = today.as_str();
        let changed = self.maybe_award_tomato_at(now, t);
        assert(Self::maybe_award_tomato_at_effect(*old(self), *self, now, t, changed));
        changed
    }

    /// Milliseconds left on the running pomodoro now.
    pub fn pomodoro_remaining(&self) -> (r: Option<u64>)
        ensures
            exists|now: u64| now <= i64::MAX && r == #[trigger] remaining_at(*self, now),
    {
        let now = crate::ids::now_ms();
        self.pomodoro_remaining_at(now)
    }

    /// Whether the user is idle now.
    pub fn is_idle(&self) -> (r: bool)
        ensures
            exists|now: u64| now <= i64::MAX && r == #[trigger] idle_at(*self, now),
    {
        let now = crate::ids::now_ms();
        self.is_idle_at(now)
    }

    /// Adds one star for today now.
    pub fn increment_star_jar(&mut self)
        ensures
            *final(self) == (App {
                counters: Counters {
                    star_count: final(self).counters.star_count,
                    star_date: final(self).counters.star_date,
                    ..old(self).counters
                },
                ..*old(self)
            }),
            final(self).counters.star_count >= 1,
    {
        let today = crate::dates::today_str();
        self.increment_star_jar_on(today.as_str());
    }
}

} // verus!
