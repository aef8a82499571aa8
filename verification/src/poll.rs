//! The event loop's own decisions: which background fetches to start on
//! each frame and at startup, what a key press after a pause wakes up,
//! and the lazy day change of the star jar and tomato box.
use vstd::prelude::*;
use vstd::string::*;

use crate::app::{App, Counters, External};
use crate::counters::{idle_at, rolled};
use crate::text::str_eq;

verus! {

/// Whole seconds from `at` to `now` (milliseconds), negative when the
/// clock went back, truncated toward zero.
pub open spec fn elapsed_secs(at: u64, now: u64) -> int {
    if now >= at {
        (now - at) / 1000
    } else {
        -((at - now) / 1000)
    }
}

/// A source last fetched at `at` (never, for `None`) is due at `now` for a
/// poll every `interval` seconds.
pub open spec fn poll_due(at: Option<u64>, now: u64, interval: u64) -> bool {
    match at {
        None => true,
        Some(a) => elapsed_secs(a, now) >= (interval as i64),
    }
}

fn is_due(at: Option<u64>, now: u64, interval: u64) -> (r: bool)
    ensures
        r == poll_due(at, now, interval),
{
    match at {
        None => true,
        Some(a) => {
            let iv = interval as i64;
            if now >= a {
                let e = (now - a) / 1000;
                e as i64 >= iv
            } else {
                let e = ((a - now) / 1000) as i64;
                -e >= iv
            }
        },
    }
}

/// How a poll check for one source ends.
pub open spec fn poll_outcome(available: bool, loading: bool, due: bool, idle: bool) -> (bool, bool) {
    // (start a fetch now, defer it to the next key press)
    if !available || loading || !due {
        (false, false)
    } else if idle {
        (false, true)
    } else {
        (true, false)
    }
}

impl App {
    /// The per-frame pull-request poll at `now`: a due fetch starts unless
    /// the user is idle, in which case it waits for the next key press.
    /// Returns whether the fetch is to start.
    pub fn maybe_poll_github_prs_at(&mut self, now: u64) -> (start: bool)
        ensures
            ({
                let x = old(self).external;
                let (go, defer) = poll_outcome(
                    x.gh_available,
                    x.github_prs_loading,
                    poll_due(x.github_prs_fetched_at, now, x.github_prs_poll_interval_secs),
                    idle_at(*old(self), now),
                );
                &&& start == go
                &&& *final(self) == (App {
                    external: External {
                        github_prs_loading: x.github_prs_loading || go,
                        github_prs_error: if go {
                            None
                        } else {
                            x.github_prs_error
                        },
                        pending_pr_poll: x.pending_pr_poll || defer,
                        ..x
                    },
                    ..*old(self)
                })
            }),
    {
        if !self.external.gh_available || self.external.github_prs_loading {
            return false;
        }
        if !is_due(self.external.github_prs_fetched_at, now, self.external.github_prs_poll_interval_secs) {
            return false;
        }
        if self.is_idle_at(now) {
            self.external.pending_pr_poll = true;
            return false;
        }
        self.begin_github_prs_fetch()
    }

    /// The per-frame Jira poll at `now`, as for pull requests.
    pub fn maybe_poll_jira_cards_at(&mut self, now: u64) -> (start: bool)
        ensures
            ({
                let x = old(self).external;
                let (go, defer) = poll_outcome(
                    x.acli_available,
                    x.jira_cards_loading,
                    poll_due(x.jira_cards_fetched_at, now, x.jira_cards_poll_interval_secs),
                    idle_at(*old(self), now),
                );
                &&& start == go
                &&& *final(self) == (App {
                    external: External {
                        jira_cards_loading: x.jira_cards_loading || go,
                        jira_cards_error: if go {
                            None
                        } else {
                            x.jira_cards_error
                        },
                        pending_jira_poll: x.pending_jira_poll || defer,
                        ..x
                    },
                    ..*old(self)
                })
            }),
    {
        if !self.external.acli_available || self.external.jira_cards_loading {
            return false;
        }
        if !is_due(self.external.jira_cards_fetched_at, now, self.external.jira_cards_poll_interval_secs) {
            return false;
        }
        if self.is_idle_at(now) {
            self.external.pending_jira_poll = true;
            return false;
        }
        self.begin_jira_cards_fetch()
    }

    /// The per-frame calendar poll at `now`, as for pull requests.
    pub fn maybe_poll_agenda_at(&mut self, now: u64) -> (start: bool)
        ensures
            ({
                let x = old(self).external;
                let (go, defer) = poll_outcome(
                    x.gws_available,
                    x.agenda_loading,
                    poll_due(x.agenda_fetched_at, now, x.agenda_poll_interval_secs),
                    idle_at(*old(self), now),
                );
                &&& start == go
                &&& *final(self) == (App {
                    external: External {
                        agenda_loading: x.agenda_loading || go,
                        agenda_error: if go {
                            None
                        } else {
                            x.agenda_error
                        },
                        pending_agenda_poll: x.pending_agenda_poll || defer,
                        ..x
                    },
                    ..*old(self)
                })
            }),
    {
        if !self.external.gws_available || self.external.agenda_loading {
            return false;
        }
        if !is_due(self.external.agenda_fetched_at, now, self.external.agenda_poll_interval_secs) {
            return false;
        }
        if self.is_idle_at(now) {
            self.external.pending_agenda_poll = true;
            return false;
        }
        self.begin_agenda_fetch()
    }

    /// Empties the star jar and the tomato box when `today` is not the day
    /// they count.
    pub fn roll_jars_on(&mut self, today: &str)
        ensures
            *final(self) == (App {
                counters: Counters {
                    star_count: rolled(old(self).counters.star_count, old(self).counters.star_date@, today@),
                    star_date: final(self).counters.star_date,
                    tomato_count: rolled(old(self).counters.tomato_count, old(self).counters.tomato_date@, today@),
                    tomato_date: final(self).counters.tomato_date,
                    ..old(self).counters
                },
                ..*old(self)
            }),
            final(self).counters.star_date@ == today@,
            final(self).counters.tomato_date@ == today@,
            old(self).counters.star_date@ == today@ ==> final(self).counters.star_date == old(self).counters.star_date,
            old(self).counters.tomato_date@ == today@ ==> final(self).counters.tomato_date == old(
                self,
            ).counters.tomato_date,
    {
        if !str_eq(self.counters.star_date.as_str(), today) {
            self.counters.star_date = String::from_str(today);
            self.counters.star_count = 0;
        }
        if !str_eq(self.counters.tomato_date.as_str(), today) {
            self.counters.tomato_date = String::from_str(today);
            self.counters.tomato_count = 0;
        }
    }
}

/// Work deferred while the user was idle, to start on a key press.
pub struct Wake {
    pub incremental_sync: bool,
    pub github_prs: bool,
    pub jira_cards: bool,
    pub agenda: bool,
}

/// What a key press at `now` does before the key itself is handled: the
/// activity clock is reset and, when the user was idle, the deferred sync
/// and polls are released (a poll only starts when that source is not
/// already loading).
pub open spec fn woken(old: App, new: App, now: u64, w: Wake) -> bool {
    let idle = idle_at(old, now);
    let x = old.external;
    let k = old.counters;
    let ws = idle && k.pending_ws_sync;
    let pr = idle && x.pending_pr_poll;
    let jr = idle && x.pending_jira_poll;
    let ag = idle && x.pending_agenda_poll;
    &&& w.incremental_sync == ws
    &&& w.github_prs == (pr && !x.github_prs_loading)
    &&& w.jira_cards == (jr && !x.jira_cards_loading)
    &&& w.agenda == (ag && !x.agenda_loading)
    &&& new == (App {
        counters: Counters { last_activity: now, pending_ws_sync: k.pending_ws_sync && !ws, ..k },
        external: External {
            pending_pr_poll: x.pending_pr_poll && !pr,
            github_prs_loading: x.github_prs_loading || pr,
            github_prs_error: if w.github_prs {
                None
            } else {
                x.github_prs_error
            },
            pending_jira_poll: x.pending_jira_poll && !jr,
            jira_cards_loading: x.jira_cards_loading || jr,
            jira_cards_error: if w.jira_cards {
                None
            } else {
                x.jira_cards_error
            },
            pending_agenda_poll: x.pending_agenda_poll && !ag,
            agenda_loading: x.agenda_loading || ag,
            agenda_error: if w.agenda {
                None
            } else {
                x.agenda_error
            },
            ..x
        },
        ..old
    })
}

impl App {
    /// Records a key press at `now` and releases what waited for the user.
    #[verifier::rlimit(60)]
    pub fn on_key_activity_at(&mut self, now: u64) -> (w: Wake)
        ensures
            woken(*old(self), *final(self), now, w),
    {
        let idle = self.is_idle_at(now);
        let ws = idle && self.counters.pending_ws_sync;
        let pr = idle && self.external.pending_pr_poll;
        let jr = idle && self.external.pending_jira_poll;
        let ag = idle && self.external.pending_agenda_poll;
        let x = &self.external;
        let w = Wake {
            incremental_sync: ws,
            github_prs: pr && !x.github_prs_loading,
            jira_cards: jr && !x.jira_cards_loading,
            agenda: ag && !x.agenda_loading,
        };
        self.counters.last_activity = now;
        self.counters.pending_ws_sync = self.counters.pending_ws_sync && !ws;
        self.external.pending_pr_poll = self.external.pending_pr_poll && !pr;
        self.external.pending_jira_poll = self.external.pending_jira_poll && !jr;
        self.external.pending_agenda_poll = self.external.pending_agenda_poll && !ag;
        if w.github_prs {
            self.external.github_prs_error = None;
        }
        if w.jira_cards {
            self.external.jira_cards_error = None;
        }
        if w.agenda {
            self.external.agenda_error = None;
        }
        self.external.github_prs_loading = self.external.github_prs_loading || pr;
        self.external.jira_cards_loading = self.external.jira_cards_loading || jr;
        self.external.agenda_loading = self.external.agenda_loading || ag;
        w
    }

    /// The fetches to start when the program comes up: each source that is
    /// available and has never been fetched. Returns (pull requests, Jira
    /// cards, calendar).
    pub fn startup_fetches(&mut self) -> (r: (bool, bool, bool))
        ensures
            ({
                let x = old(self).external;
                let pr = x.gh_available && x.github_prs@.len() == 0 && x.github_prs_fetched_at is None
                    && !x.github_prs_loading;
                let jr = x.acli_available && x.jira_cards@.len() == 0 && x.jira_cards_fetched_at is None
                    && !x.jira_cards_loading;
                let ag = x.gws_available && x.agenda_events@.len() == 0 && x.agenda_fetched_at is None
                    && !x.agenda_loading;
                &&& r == (pr, jr, ag)
                &&& *final(self) == (App {
                    external: External {
                        github_prs_loading: x.github_prs_loading || pr,
                        github_prs_error: if pr {
                            None
                        } else {
                            x.github_prs_error
                        },
                        jira_cards_loading: x.jira_cards_loading || jr,
                        jira_cards_error: if jr {
                            None
                        } else {
                            x.jira_cards_error
                        },
                        agenda_loading: x.agenda_loading || ag,
                        agenda_error: if ag {
                            None
                        } else {
                            x.agenda_error
                        },
                        ..x
                    },
                    ..*old(self)
                })
            }),
    {
        let mut r = (false, false, false);
        if self.external.gh_available && self.external.github_prs.len() == 0
            && self.external.github_prs_fetched_at.is_none() {
            r.0 = self.begin_github_prs_fetch();
        }
        if self.external.acli_available && self.external.jira_cards.len() == 0
            && self.external.jira_cards_fetched_at.is_none() {
            r.1 = self.begin_jira_cards_fetch();
        }
        if self.external.gws_available && self.external.agenda_events.len() == 0
            && self.external.agenda_fetched_at.is_none() {
            r.2 = self.begin_agenda_fetch();
        }
        r
    }
}

} // verus!
