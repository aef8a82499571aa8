//! Small state changes the event loop makes around key presses: the task
//! filter cycle, the overview numbers, what a browser is to open, and the
//! commands handed over for sending.
use vstd::prelude::*;
use vstd::string::*;

use crate::app::{task_filter_next, App, Nav, OverviewStats, Pending, TaskFilter};
use crate::events::first_key_entry;
use crate::model::Task;
use crate::sync::SyncCommand;
use crate::tasks::{visible_rows, Clock};
use crate::text::{lex_lt, str_eq, str_lt};

verus! {

/// The completed tasks of project `pid` are already cached.
pub open spec fn cached_for(cache: Seq<(String, Vec<Task>)>, pid: Seq<char>) -> bool {
    exists|i: int| first_key_entry(cache, pid, i)
}

fn has_cached(cache: &Vec<(String, Vec<Task>)>, pid: &str) -> (r: bool)
    ensures
        r == cached_for(cache@, pid@),
{
    let mut i: usize = 0;
    while i < cache.len()
        invariant
            i <= cache.len(),
            forall|j: int| 0 <= j < i ==> cache@[j].0@ != pid@,
        decreases cache.len() - i,
    {
        if str_eq(cache[i].0.as_str(), pid) {
            assert(first_key_entry(cache@, pid@, i as int));
            return true;
        }
        i += 1;
    }
    proof {
        if cached_for(cache@, pid@) {
            let k = choose|k: int| first_key_entry(cache@, pid@, k);
            assert(cache@[k].0@ != pid@);
        }
    }
    false
}

/// The state after the task filter moved on, before the cursor is fixed.
pub open spec fn filter_cycled(app: App) -> App {
    App { nav: Nav { task_filter: task_filter_next(app.nav.task_filter), ..app.nav }, ..app }
}

/// The project whose completed tasks are to be fetched after the filter
/// moved on: the selected one, when completed tasks are now shown and none
/// of it are cached.
pub open spec fn completed_fetch(app: App) -> Option<Seq<char>> {
    let f = task_filter_next(app.nav.task_filter);
    if (f == TaskFilter::Done || f == TaskFilter::Both) && app.nav.selected_project < app.data.projects@.len()
        && !cached_for(
        app.data.completed_cache@,
        app.data.projects@[app.nav.selected_project as int].id@,
    ) {
        Some(app.data.projects@[app.nav.selected_project as int].id@)
    } else {
        None
    }
}

/// The cursor kept inside a list of `n` rows: the last row when it ran
/// past the end, zero when the list is empty.
pub open spec fn cursor_in(sel: usize, n: nat) -> usize {
    if n == 0 {
        0
    } else if sel >= n {
        (n - 1) as usize
    } else {
        sel
    }
}

impl App {
    /// What `cycle_task_filter_on` does to the state and returns.
    pub open spec fn cycle_task_filter_on_effect(old: App, new: App, c: Clock, fetch: Option<String>) -> bool {
        &&& crate::app::opt_view(fetch) == completed_fetch(old)
        &&& ({
            let mid = filter_cycled(old);
            new == (App {
                nav: Nav {
                    selected_task: cursor_in(mid.nav.selected_task, visible_rows(mid, c).len()),
                    ..mid.nav
                },
                ..mid
            })
        })
    }

    /// Moves the task filter on (open, done, both) on clock `c`, keeping
    /// the cursor inside the new list. Returns the project whose completed
    /// tasks are to be fetched.
    pub fn cycle_task_filter_on(&mut self, c: &Clock) -> (fetch: Option<String>)
        ensures
            Self::cycle_task_filter_on_effect(*old(self), *final(self), *c, fetch),
    {
        self.nav.task_filter = self.nav.task_filter.next();
        let wants = match self.nav.task_filter {
            TaskFilter::Done | TaskFilter::Both => true,
            TaskFilter::Active => false,
        };
        let mut fetch: Option<String> = None;
        if wants && self.nav.selected_project < self.data.projects.len() {
            let pid = self.data.projects[self.nav.selected_project].id.clone();
            if !has_cached(&self.data.completed_cache, pid.as_str()) {
                fetch = Some(pid);
            }
        }
        let n = self.visible_tasks_on(c).len();
        if n == 0 {
            self.nav.selected_task = 0;
        } else if self.nav.selected_task >= n {
            self.nav.selected_task = n - 1;
        }
        fetch
    }

    /// Hands over the commands waiting to be sent, leaving none behind.
    pub fn take_pending_commands(&mut self) -> (cmds: Vec<SyncCommand>)
        ensures
            cmds@ == old(self).pending.pending_commands@,
            final(self).pending.pending_commands@.len() == 0,
            *final(self) == (App {
                pending: Pending { pending_commands: final(self).pending.pending_commands, ..old(self).pending },
                ..*old(self)
            }),
    {
        let mut cmds: Vec<SyncCommand> = Vec::new();
        std::mem::swap(&mut cmds, &mut self.pending.pending_commands);
        cmds
    }
}

/// An open task due on `today`.
pub open spec fn due_today_task(t: Task, today: Seq<char>) -> bool {
    !t.is_deleted && !t.checked && (t.due matches Some(d) && d.date@ == today)
}

/// An open task due before `today`.
pub open spec fn overdue_task(t: Task, today: Seq<char>) -> bool {
    !t.is_deleted && !t.checked && (t.due matches Some(d) && lex_lt(d.date@, today))
}

/// A task (open or done) due between `today` and `week_end`, both included.
pub open spec fn due_this_week(t: Task, today: Seq<char>, week_end: Seq<char>) -> bool {
    !t.is_deleted && (t.due matches Some(d) && !lex_lt(d.date@, today) && !lex_lt(week_end, d.date@))
}

/// An open task of priority `p`.
pub open spec fn open_at_priority(t: Task, p: int) -> bool {
    !t.is_deleted && !t.checked && t.priority == p
}

/// Open tasks of priority `p` in `s`.
pub open spec fn priority_count(s: Seq<Task>, p: int) -> nat {
    s.filter(|t: Task| open_at_priority(t, p)).len()
}

/// The overview numbers over `tasks` on `today` with the week ending on
/// `week_end`: each count is the number of tasks the predicate above holds of.
pub open spec fn stats_of(tasks: Seq<Task>, today: Seq<char>, week_end: Seq<char>, r: OverviewStats) -> bool {
    &&& r.due_today == tasks.filter(|t: Task| due_today_task(t, today)).len()
    &&& r.overdue == tasks.filter(|t: Task| overdue_task(t, today)).len()
    &&& r.due_week == tasks.filter(|t: Task| due_this_week(t, today, week_end)).len()
    &&& forall|p: int| 0 <= p < 5 ==> r.by_priority@[p] == #[trigger] priority_count(tasks, p)
}

impl App {
    /// The overview numbers of the stats dock on clock `c`.
    pub fn overview_stats_on(&self, c: &Clock) -> (r: OverviewStats)
        requires
            self.data.tasks@.len() <= u32::MAX,
        ensures
            stats_of(self.data.tasks@, c.today@, c.week_end@, r),
    {
        let tasks = &self.data.tasks;
        let today = c.today.as_str();
        let week_end = c.week_end.as_str();
        let ghost ft = |t: Task| due_today_task(t, today@);
        let ghost fo = |t: Task| overdue_task(t, today@);
        let ghost fw = |t: Task| due_this_week(t, today@, week_end@);
        let mut due_today: u32 = 0;
        let mut due_week: u32 = 0;
        let mut overdue: u32 = 0;
        let mut by_priority: [u32; 5] = [0u32; 5];
        let mut i: usize = 0;
        while i < tasks.len()
            invariant
                tasks == &self.data.tasks,
                tasks@.len() <= u32::MAX,
                i <= tasks.len(),
                today@ == c.today@,
                week_end@ == c.week_end@,
                ft == (|t: Task| due_today_task(t, today@)),
                fo == (|t: Task| overdue_task(t, today@)),
                fw == (|t: Task| due_this_week(t, today@, week_end@)),
                due_today == tasks@.take(i as int).filter(ft).len(),
                overdue == tasks@.take(i as int).filter(fo).len(),
                due_week == tasks@.take(i as int).filter(fw).len(),
                by_priority@.len() == 5,
                forall|p: int| 0 <= p < 5 ==> by_priority@[p] == #[trigger] priority_count(tasks@.take(i as int), p),
            decreases tasks.len() - i,
        {
            let t = &tasks[i];
            let ghost pre = tasks@.take(i as int);
            proof {
                assert(tasks@.take(i + 1) =~= pre.push(*t));
                pre.lemma_filter_push(*t, ft);
                pre.lemma_filter_push(*t, fo);
                pre.lemma_filter_push(*t, fw);
                pre.lemma_filter_len(ft);
                pre.lemma_filter_len(fo);
                pre.lemma_filter_len(fw);
                assert forall|p: int| 0 <= p < 5 implies #[trigger] priority_count(tasks@.take(i + 1), p)
                    == priority_count(pre, p) + if open_at_priority(*t, p) {
                    1int
                } else {
                    0int
                } && priority_count(pre, p) <= i by {
                    pre.lemma_filter_push(*t, |t: Task| open_at_priority(t, p));
                    pre.lemma_filter_len(|t: Task| open_at_priority(t, p));
                }
            }
            if !t.is_deleted {
                if !t.checked && t.priority < 5 {
                    let p = t.priority as usize;
                    let ghost before = by_priority@;
                    assert(by_priority@[p as int] == priority_count(pre, p as int));
                    assert(priority_count(tasks@.take(i + 1), p as int) == priority_count(pre, p as int) + 1);
                    by_priority[p] = by_priority[p] + 1;
                    assert(by_priority@ =~= before.update(p as int, (before[p as int] + 1) as u32));
                }
                match &t.due {
                    Some(d) => {
                        let date = d.date.as_str();
                        if !t.checked && str_eq(date, today) {
                            due_today = due_today + 1;
                        }
                        if !t.checked && str_lt(date, today) {
                            overdue = overdue + 1;
                        }
                        if !str_lt(date, today) && !str_lt(week_end, date) {
                            due_week = due_week + 1;
                        }
                    },
                    None => {},
                }
            }
            i += 1;
        }
        assert(tasks@.take(tasks@.len() as int) =~= tasks@);
        OverviewStats { due_today, due_week, overdue, by_priority }
    }
}

/// The address of the pull request under the cursor: the cursor indexes
/// every fetched pull request on the All view, and the viewed owner's ones
/// elsewhere.
pub open spec fn selected_pr_url(app: App) -> Option<Seq<char>> {
    let prs = app.external.github_prs@;
    let sel = app.nav.selected_pr as int;
    if app.views.all_view_active {
        if sel < prs.len() {
            Some(prs[sel].url@)
        } else {
            None
        }
    } else {
        match app.views.active_pr_org {
            Some(org) => {
                let mine = prs.filter(|p: crate::model::PullRequest| crate::prs::in_org(p.repo_full_name@, org@));
                if sel < mine.len() {
                    Some(mine[sel].url@)
                } else {
                    None
                }
            },
            None => None,
        }
    }
}

impl App {
    /// The pull request to open in the browser.
    pub fn pr_to_open(&self) -> (r: Option<String>)
        ensures
            crate::app::opt_view(r) == selected_pr_url(*self),
    {
        let sel = self.nav.selected_pr;
        if self.views.all_view_active {
            if sel < self.external.github_prs.len() {
                Some(self.external.github_prs[sel].url.clone())
            } else {
                None
            }
        } else {
            let mine = self.active_org_prs();
            proof {
                if self.views.active_pr_org is Some {
                    assert(mine@.len() == crate::prs::derefs(mine@).len());
                }
            }
            if sel < mine.len() {
                let u = mine[sel].url.clone();
                proof {
                    assert(*mine@[sel as int] == crate::prs::derefs(mine@)[sel as int]);
                }
                Some(u)
            } else {
                None
            }
        }
    }

    /// The key of the Jira card under the cursor.
    pub fn jira_card_to_open(&self) -> (r: Option<String>)
        ensures
            crate::app::opt_view(r) == (if (self.nav.selected_jira_card as int) < self.external.jira_cards@.len() {
                Some(self.external.jira_cards@[self.nav.selected_jira_card as int].key@)
            } else {
                None
            }),
    {
        if self.nav.selected_jira_card < self.external.jira_cards.len() {
            Some(self.external.jira_cards[self.nav.selected_jira_card].key.clone())
        } else {
            None
        }
    }

    /// The link of the calendar event under the cursor, when it has one.
    pub fn event_to_open(&self) -> (r: Option<String>)
        ensures
            crate::app::opt_view(r) == (if (self.nav.selected_agenda_item as int) < self.external.agenda_events@.len()
                && self.external.agenda_events@[self.nav.selected_agenda_item as int].html_link@.len() > 0 {
                Some(self.external.agenda_events@[self.nav.selected_agenda_item as int].html_link@)
            } else {
                None
            }),
    {
        if self.nav.selected_agenda_item < self.external.agenda_events.len() {
            let link = &self.external.agenda_events[self.nav.selected_agenda_item].html_link;
            if link.as_str().unicode_len() > 0 {
                return Some(link.clone());
            }
        }
        None
    }
}

} // verus!
