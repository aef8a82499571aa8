//! Which tasks the task pane lists, in which order: the Today and Upcoming
//! views, the selected project's outline, and completed tasks fetched
//! on demand.
use vstd::prelude::*;
use vstd::string::*;

use crate::app::{opt_view, str_set, vec_contains_str, AllViewItem, App, DockItem, SortMode, TaskFilter, Views};
use crate::prs::{owner_hidden, repo_owner};
use crate::dates::{
    current_local_hour, date_ok, evening_task_hidden, has_label, is_weekend_local, offset_days_str,
    today_str, work_weekend_hidden,
};
use crate::model::{Section, Task};
use crate::order::{key_views, sorted_rows, sorted_rows_exec, KeyView, SortKey};
use crate::text::{lex_le, lex_lt, str_eq, str_le, str_lt};

verus! {

/// A row of the task pane: a loaded task, or a completed task fetched for
/// a project (entry of the completed cache, index inside it).
#[derive(Clone, Copy, Debug, PartialEq, Eq, Structural)]
pub enum TaskRow {
    Live(usize),
    Cached(usize, usize),
}

/// What the task lists read from the local clock.
#[derive(Clone, Debug)]
pub struct Clock {
    /// Today as `YYYY-MM-DD`.
    pub today: String,
    /// Seven days from today as `YYYY-MM-DD`.
    pub week_end: String,
    /// Local hour, 0..=23.
    pub hour: u32,
    /// Local minute, 0..=59.
    pub minute: u32,
    /// Saturday or Sunday.
    pub weekend: bool,
}

/// A clock reading the local clock can give: today a real date from 1969
/// on (or a year past 9999), a week on a real date, hour and minute in range.
pub open spec fn clock_ok(c: Clock) -> bool {
    &&& date_ok(c.today@) && crate::dates::clock_date(c.today@)
    &&& date_ok(c.week_end@) && crate::dates::written_date(c.week_end@)
    &&& c.hour < 24 && c.minute < 60
}

/// Reads the local clock.
pub fn read_clock() -> (c: Clock)
    ensures
        clock_ok(c),
{
    Clock {
        today: today_str(),
        week_end: offset_days_str(7),
        hour: current_local_hour(),
        minute: crate::dates::current_local_minute(),
        weekend: is_weekend_local(),
    }
}

/// The due date of `t`.
pub open spec fn due_date(t: Task) -> Option<Seq<char>> {
    match t.due {
        Some(d) => Some(d.date@),
        None => None,
    }
}

/// The due date of `t`, or `dflt`.
pub open spec fn date_or(t: Task, dflt: Seq<char>) -> Seq<char> {
    match due_date(t) {
        Some(d) => d,
        None => dflt,
    }
}

/// Unassigned, or assigned to the signed-in user `me`.
pub open spec fn mine(me: Option<Seq<char>>, t: Task) -> bool {
    match t.responsible_uid {
        None => true,
        Some(u) => me == Some(u@),
    }
}

/// `i` is the first task whose id is `id`.
pub open spec fn first_id_at(tasks: Seq<Task>, id: Seq<char>, i: int) -> bool {
    0 <= i < tasks.len() && tasks[i].id@ == id && forall|j: int| 0 <= j < i ==> tasks[j].id@ != id
}

/// Index of the first task whose id is `id`.
pub open spec fn first_with_id(tasks: Seq<Task>, id: Seq<char>) -> Option<int> {
    if exists|i: int| first_id_at(tasks, id, i) {
        Some(choose|i: int| first_id_at(tasks, id, i))
    } else {
        None
    }
}

/// The parent id of the first task whose id is `id`.
pub open spec fn parent_of(tasks: Seq<Task>, id: Seq<char>) -> Option<Seq<char>> {
    match first_with_id(tasks, id) {
        Some(i) => opt_view(tasks[i].parent_id),
        None => None,
    }
}

/// Following parent links from `id` reaches `anc` within `fuel` steps.
pub open spec fn descends(tasks: Seq<Task>, id: Seq<char>, anc: Seq<char>, fuel: nat) -> bool
    decreases fuel,
{
    if fuel == 0 {
        false
    } else {
        match parent_of(tasks, id) {
            None => false,
            Some(p) => p == anc || descends(tasks, p, anc, (fuel - 1) as nat),
        }
    }
}

/// A parent chain that does not end within `tasks.len() + 1` steps
/// repeats a task and never ends, so that many steps decide it.
pub open spec fn is_descendant(tasks: Seq<Task>, id: Seq<char>, anc: Seq<char>) -> bool {
    descends(tasks, id, anc, tasks.len() + 1)
}

/// Some live completed task lies below `id`.
pub open spec fn has_done_descendant(tasks: Seq<Task>, id: Seq<char>) -> bool {
    exists|u: int|
        0 <= u < tasks.len() && !tasks[u].is_deleted && tasks[u].checked && is_descendant(
            tasks,
            #[trigger] tasks[u].id@,
            id,
        )
}

/// Index of the first task with id `id`.
pub fn find_task(tasks: &Vec<Task>, id: &str) -> (r: Option<usize>)
    ensures
        match r {
            Some(i) => first_with_id(tasks@, id@) == Some(i as int),
            None => first_with_id(tasks@, id@) is None,
        },
{
    let mut i: usize = 0;
    while i < tasks.len()
        invariant
            i <= tasks.len(),
            forall|j: int| 0 <= j < i ==> tasks@[j].id@ != id@,
        decreases tasks.len() - i,
    {
        if str_eq(tasks[i].id.as_str(), id) {
            proof {
                assert(first_id_at(tasks@, id@, i as int));
                let k = choose|k: int| first_id_at(tasks@, id@, k);
                if k < i {
                    assert(tasks@[k].id@ != id@);
                } else if k > i {
                    assert(tasks@[i as int].id@ != id@);
                }
            }
            return Some(i);
        }
        i += 1;
    }
    None
}

fn parent_of_exec(tasks: &Vec<Task>, id: &str) -> (r: Option<String>)
    ensures
        opt_view(r) == parent_of(tasks@, id@),
{
    match find_task(tasks, id) {
        Some(i) => match &tasks[i].parent_id {
            Some(p) => Some(p.clone()),
            None => None,
        },
        None => None,
    }
}

/// Whether `id` lies below `anc` in the task tree.
pub fn is_descendant_of(tasks: &Vec<Task>, id: &str, anc: &str) -> (r: bool)
    ensures
        r == is_descendant(tasks@, id@, anc@),
{
    let mut cur = String::from_str(id);
    let mut fuel: usize = tasks.len();
    loop
        invariant
            fuel < tasks.len() + 1,
            descends(tasks@, cur@, anc@, (fuel + 1) as nat) == is_descendant(tasks@, id@, anc@),
        decreases fuel,
    {
        match parent_of_exec(tasks, cur.as_str()) {
            None => return false,
            Some(p) => {
                if str_eq(p.as_str(), anc) {
                    return true;
                }
                if fuel == 0 {
                    assert(!descends(tasks@, p@, anc@, 0));
                    return false;
                }
                fuel -= 1;
                cur = p;
            },
        }
    }
}

/// Whether a live completed task lies below `id`.
pub fn has_completed_descendant(tasks: &Vec<Task>, id: &str) -> (r: bool)
    ensures
        r == has_done_descendant(tasks@, id@),
{
    let mut u: usize = 0;
    while u < tasks.len()
        invariant
            u <= tasks.len(),
            forall|k: int|
                0 <= k < u ==> !(!tasks@[k].is_deleted && tasks@[k].checked && is_descendant(
                    tasks@,
                    #[trigger] tasks@[k].id@,
                    id@,
                )),
        decreases tasks.len() - u,
    {
        let t = &tasks[u];
        if !t.is_deleted && t.checked && is_descendant_of(tasks, t.id.as_str(), id) {
            return true;
        }
        u += 1;
    }
    false
}

} // verus!

verus! {

/// A recurring task whose close is in flight stays hidden until it lands.
pub open spec fn pending_close(app: App, id: Seq<char>) -> bool {
    str_set(app.pending.pending_close_recurring@).contains(id)
}

/// Today view: open top-level tasks due today or earlier, not hidden by the
/// evening, weekend or time-of-day labels, unassigned or assigned to the user; with the
/// overdue section folded, only those due today.
pub open spec fn today_keep(app: App, c: Clock, t: Task) -> bool {
    &&& !t.is_deleted && !t.checked && t.parent_id is None
    &&& !pending_close(app, t.id@)
    &&& !(c.hour < 17 && has_label(t.labels@, "evening"@))
    &&& !(c.weekend && has_label(t.labels@, "work"@))
    &&& !crate::dates::time_label_pending(t.labels@, c.hour * 60 + c.minute)
    &&& match due_date(t) {
        Some(d) => lex_le(d, c.today@),
        None => false,
    }
    &&& mine(opt_view(app.data.current_user_id), t)
    &&& (app.nav.overdue_section_collapsed ==> due_date(t) == Some(c.today@))
}

/// Today view order: due date (overdue oldest first, then today), then
/// project, then creation order (`child_order`).
pub open spec fn today_key(t: Task) -> KeyView {
    (date_or(t, ""@), t.project_id@, t.child_order as int, 0)
}

/// Upcoming view: open top-level tasks with any due date, unassigned or
/// assigned to the user.
pub open spec fn upcoming_keep(app: App, t: Task) -> bool {
    &&& !t.is_deleted && !t.checked && t.parent_id is None
    &&& !pending_close(app, t.id@)
    &&& t.due is Some
    &&& mine(opt_view(app.data.current_user_id), t)
}

/// Upcoming view order: due date, project, `child_order`.
pub open spec fn upcoming_key(t: Task) -> KeyView {
    (date_or(t, ""@), t.project_id@, t.child_order as int, 0)
}

/// Id of the selected project.
pub open spec fn selected_project_id(app: App) -> Option<Seq<char>> {
    if app.nav.selected_project < app.data.projects@.len() {
        Some(app.data.projects@[app.nav.selected_project as int].id@)
    } else {
        None
    }
}

/// What a stats-dock filter lets through.
pub open spec fn dock_keep(d: DockItem, c: Clock, t: Task) -> bool {
    match d {
        DockItem::DueOverdue => match due_date(t) {
            Some(x) => lex_lt(x, c.today@) && !t.checked,
            None => false,
        },
        DockItem::DueToday => due_date(t) == Some(c.today@),
        DockItem::DueWeek => match due_date(t) {
            Some(x) => lex_le(c.today@, x) && lex_le(x, c.week_end@),
            None => false,
        },
        DockItem::Priority(p) => t.priority == p && !t.checked,
    }
}

/// What the Active / Done / Both filter lets through.
pub open spec fn filter_keep(f: TaskFilter, tasks: Seq<Task>, t: Task) -> bool {
    match f {
        TaskFilter::Active => !t.checked,
        TaskFilter::Done => t.checked || has_done_descendant(tasks, t.id@),
        TaskFilter::Both => true,
    }
}

/// Top-level rows of the project view: with a dock filter, matching tasks of
/// every project; otherwise the selected project's tasks that pass the
/// task filter.
pub open spec fn top_keep(app: App, c: Clock, t: Task) -> bool {
    &&& !t.is_deleted && t.parent_id is None
    &&& !pending_close(app, t.id@)
    &&& match app.nav.dock_filter {
        Some(d) => dock_keep(d, c, t),
        None => Some(t.project_id@) == selected_project_id(app) && filter_keep(
            app.nav.task_filter,
            app.data.tasks@,
            t,
        ),
    }
}

/// `i` is the first section whose id is `id`.
pub open spec fn first_section_at(sections: Seq<Section>, id: Seq<char>, i: int) -> bool {
    0 <= i < sections.len() && sections[i].id@ == id && forall|j: int|
        0 <= j < i ==> sections[j].id@ != id
}

/// The `section_order` of a task's section; tasks outside any known section
/// (or in one without an order) come first.
pub open spec fn section_rank(sections: Seq<Section>, sid: Option<String>) -> int {
    match sid {
        None => i32::MIN as int,
        Some(id) => if exists|i: int| first_section_at(sections, id@, i) {
            match sections[choose|i: int| first_section_at(sections, id@, i)].section_order {
                Some(o) => o as int,
                None => i32::MIN as int,
            }
        } else {
            i32::MIN as int
        },
    }
}

/// Project view order for the chosen sort mode. Priority sorts high first;
/// Created sorts newest first (the first key compared in reverse).
pub open spec fn top_key(app: App, t: Task) -> KeyView {
    match app.nav.sort_mode {
        SortMode::Default => if app.nav.dock_filter is None {
            (""@, ""@, section_rank(app.data.sections@, t.section_id), t.child_order as int)
        } else {
            (""@, ""@, t.child_order as int, 0)
        },
        SortMode::Priority => (""@, ""@, -(t.priority as int), 0),
        SortMode::DueDate => (date_or(t, "9999"@), ""@, 0, 0),
        SortMode::Created => (
            match t.added_at {
                Some(a) => a@,
                None => ""@,
            },
            ""@,
            0,
            0,
        ),
    }
}

pub open spec fn top_desc(app: App) -> bool {
    app.nav.sort_mode == SortMode::Created
}

/// Sibling order: `child_order`.
pub open spec fn order_key(t: Task) -> KeyView {
    (""@, ""@, t.child_order as int, 0)
}

} // verus!

verus! {

fn mine_exec(me: &Option<String>, t: &Task) -> (r: bool)
    ensures
        r == mine(opt_view(*me), *t),
{
    match &t.responsible_uid {
        None => true,
        Some(u) => match me {
            Some(m) => str_eq(m.as_str(), u.as_str()),
            None => false,
        },
    }
}

fn due_before_or_on(t: &Task, day: &str) -> (r: bool)
    ensures
        r == (match due_date(*t) {
            Some(d) => lex_le(d, day@),
            None => false,
        }),
{
    match &t.due {
        Some(d) => str_le(d.date.as_str(), day),
        None => false,
    }
}

fn due_is(t: &Task, day: &str) -> (r: bool)
    ensures
        r == (due_date(*t) == Some(day@)),
{
    match &t.due {
        Some(d) => str_eq(d.date.as_str(), day),
        None => false,
    }
}

fn date_or_exec(t: &Task, dflt: &str) -> (r: String)
    ensures
        r@ == date_or(*t, dflt@),
{
    match &t.due {
        Some(d) => d.date.clone(),
        None => String::from_str(dflt),
    }
}

fn plain_key(s1: String, s2: String, n1: i64, n2: i64) -> (k: SortKey)
    ensures
        k@ == (s1@, s2@, n1 as int, n2 as int),
{
    SortKey { s1, s2, n1, n2 }
}

impl App {
    fn today_keep_exec(&self, c: &Clock, t: &Task) -> (r: bool)
        ensures
            r == today_keep(*self, *c, *t),
    {
        if t.is_deleted || t.checked || t.parent_id.is_some() {
            return false;
        }
        if vec_contains_str(&self.pending.pending_close_recurring, t.id.as_str()) {
            return false;
        }
        if evening_task_hidden(&t.labels, c.hour) {
            return false;
        }
        if work_weekend_hidden(&t.labels, c.weekend) {
            return false;
        }
        if crate::dates::time_label_hidden(&t.labels, c.hour, c.minute) {
            return false;
        }
        if !due_before_or_on(t, c.today.as_str()) {
            return false;
        }
        if !mine_exec(&self.data.current_user_id, t) {
            return false;
        }
        if self.nav.overdue_section_collapsed && !due_is(t, c.today.as_str()) {
            return false;
        }
        true
    }

    fn upcoming_keep_exec(&self, t: &Task) -> (r: bool)
        ensures
            r == upcoming_keep(*self, *t),
    {
        if t.is_deleted || t.checked || t.parent_id.is_some() {
            return false;
        }
        if vec_contains_str(&self.pending.pending_close_recurring, t.id.as_str()) {
            return false;
        }
        t.due.is_some() && mine_exec(&self.data.current_user_id, t)
    }

    fn selected_project_id_exec(&self) -> (r: Option<&String>)
        ensures
            match r {
                Some(s) => selected_project_id(*self) == Some(s@),
                None => selected_project_id(*self) is None,
            },
    {
        if self.nav.selected_project < self.data.projects.len() {
            Some(&self.data.projects[self.nav.selected_project].id)
        } else {
            None
        }
    }

    fn top_keep_exec(&self, c: &Clock, t: &Task) -> (r: bool)
        ensures
            r == top_keep(*self, *c, *t),
    {
        if t.is_deleted || t.parent_id.is_some() {
            return false;
        }
        if vec_contains_str(&self.pending.pending_close_recurring, t.id.as_str()) {
            return false;
        }
        match self.nav.dock_filter {
            Some(d) => match d {
                DockItem::DueOverdue => match &t.due {
                    Some(x) => str_lt(x.date.as_str(), c.today.as_str()) && !t.checked,
                    None => false,
                },
                DockItem::DueToday => due_is(t, c.today.as_str()),
                DockItem::DueWeek => match &t.due {
                    Some(x) => str_le(c.today.as_str(), x.date.as_str()) && str_le(
                        x.date.as_str(),
                        c.week_end.as_str(),
                    ),
                    None => false,
                },
                DockItem::Priority(p) => t.priority == p && !t.checked,
            },
            None => {
                let in_project = match self.selected_project_id_exec() {
                    Some(pid) => str_eq(t.project_id.as_str(), pid.as_str()),
                    None => false,
                };
                if !in_project {
                    return false;
                }
                match self.nav.task_filter {
                    TaskFilter::Active => !t.checked,
                    TaskFilter::Done => t.checked || has_completed_descendant(
                        &self.data.tasks,
                        t.id.as_str(),
                    ),
                    TaskFilter::Both => true,
                }
            },
        }
    }
}

fn section_rank_exec(sections: &Vec<Section>, sid: &Option<String>) -> (r: i64)
    ensures
        r as int == section_rank(sections@, *sid),
{
    match sid {
        None => i32::MIN as i64,
        Some(id) => {
            let mut i: usize = 0;
            while i < sections.len()
                invariant
                    i <= sections.len(),
                    *sid == Some(*id),
                    forall|j: int| 0 <= j < i ==> sections@[j].id@ != id@,
                decreases sections.len() - i,
            {
                if str_eq(sections[i].id.as_str(), id.as_str()) {
                    proof {
                        assert(first_section_at(sections@, id@, i as int));
                        let k = choose|k: int| first_section_at(sections@, id@, k);
                        if k < i {
                            assert(sections@[k].id@ != id@);
                        } else if k > i {
                            assert(sections@[i as int].id@ != id@);
                        }
                        assert(k == i);
                    }
                    return match sections[i].section_order {
                        Some(o) => o as i64,
                        None => i32::MIN as i64,
                    };
                }
                i += 1;
            }
            i32::MIN as i64
        },
    }
}

impl App {
    fn top_key_exec(&self, t: &Task) -> (k: SortKey)
        ensures
            k@ == top_key(*self, *t),
    {
        proof {
            reveal_strlit("");
        }
        match self.nav.sort_mode {
            SortMode::Default => if self.nav.dock_filter.is_none() {
                plain_key(
                    String::new(),
                    String::new(),
                    section_rank_exec(&self.data.sections, &t.section_id),
                    t.child_order as i64,
                )
            } else {
                plain_key(String::new(), String::new(), t.child_order as i64, 0)
            },
            SortMode::Priority => plain_key(String::new(), String::new(), -(t.priority as i64), 0),
            SortMode::DueDate => plain_key(date_or_exec(t, "9999"), String::new(), 0, 0),
            SortMode::Created => {
                let at = match &t.added_at {
                    Some(a) => a.clone(),
                    None => String::new(),
                };
                plain_key(at, String::new(), 0, 0)
            },
        }
    }
}

} // verus!

verus! {

/// Children of `pid` shown in the outline: not deleted, and with `done`
/// only completed ones or ones with a completed task below them.
pub open spec fn child_keep(tasks: Seq<Task>, pid: Seq<char>, done: bool, t: Task) -> bool {
    &&& !t.is_deleted
    &&& opt_view(t.parent_id) == Some(pid)
    &&& (done ==> (t.checked || has_done_descendant(tasks, t.id@)))
}

pub open spec fn order_keys(tasks: Seq<Task>) -> Seq<KeyView> {
    Seq::new(tasks.len(), |i: int| order_key(tasks[i]))
}

pub open spec fn child_keeps(tasks: Seq<Task>, pid: Seq<char>, done: bool) -> Seq<bool> {
    Seq::new(tasks.len(), |i: int| child_keep(tasks, pid, done, tasks[i]))
}

/// The shown children of `pid`, by `child_order`.
pub open spec fn child_list(tasks: Seq<Task>, pid: Seq<char>, done: bool) -> Seq<usize> {
    sorted_rows(false, order_keys(tasks), child_keeps(tasks, pid, done))
}

/// The outline below `pid`: each shown child, then (unless it is folded)
/// its own outline. `fuel` bounds the depth.
pub open spec fn children_rows(
    tasks: Seq<Task>,
    folded: Set<Seq<char>>,
    done: bool,
    pid: Seq<char>,
    fuel: nat,
) -> Seq<TaskRow>
    decreases fuel, 0nat,
{
    if fuel == 0 {
        Seq::empty()
    } else {
        rows_of(tasks, folded, done, child_list(tasks, pid, done), (fuel - 1) as nat)
    }
}

/// Each task of `kids` followed by its outline unless it is folded.
pub open spec fn rows_of(
    tasks: Seq<Task>,
    folded: Set<Seq<char>>,
    done: bool,
    kids: Seq<usize>,
    fuel: nat,
) -> Seq<TaskRow>
    decreases fuel, kids.len() + 1,
{
    if kids.len() == 0 {
        Seq::empty()
    } else {
        let k = kids[0] as int;
        let below = if k < tasks.len() && !folded.contains(tasks[k].id@) {
            children_rows(tasks, folded, done, tasks[k].id@, fuel)
        } else {
            Seq::empty()
        };
        seq![TaskRow::Live(kids[0])] + below + rows_of(tasks, folded, done, kids.drop_first(), fuel)
    }
}

fn order_keys_exec(tasks: &Vec<Task>) -> (v: Vec<SortKey>)
    ensures
        key_views(v@) == order_keys(tasks@),
{
    let mut v: Vec<SortKey> = Vec::new();
    let mut i: usize = 0;
    while i < tasks.len()
        invariant
            i <= tasks.len(),
            v.len() == i,
            forall|j: int| 0 <= j < i ==> (#[trigger] v@[j])@ == order_key(tasks@[j]),
        decreases tasks.len() - i,
    {
        proof {
            reveal_strlit("");
        }
        v.push(plain_key(String::new(), String::new(), tasks[i].child_order as i64, 0));
        i += 1;
    }
    assert(key_views(v@) =~= order_keys(tasks@));
    v
}

fn child_keeps_exec(tasks: &Vec<Task>, pid: &str, done: bool) -> (v: Vec<bool>)
    ensures
        v@ == child_keeps(tasks@, pid@, done),
{
    let mut v: Vec<bool> = Vec::new();
    let mut i: usize = 0;
    while i < tasks.len()
        invariant
            i <= tasks.len(),
            v.len() == i,
            forall|j: int| 0 <= j < i ==> v@[j] == child_keep(tasks@, pid@, done, tasks@[j]),
        decreases tasks.len() - i,
    {
        let t = &tasks[i];
        let is_child = match &t.parent_id {
            Some(p) => str_eq(p.as_str(), pid),
            None => false,
        };
        let keep = !t.is_deleted && is_child && (!done || t.checked || has_completed_descendant(
            tasks,
            t.id.as_str(),
        ));
        v.push(keep);
        i += 1;
    }
    assert(v@ =~= child_keeps(tasks@, pid@, done));
    v
}

/// Appends the outline below `pid`.
fn push_children(
    tasks: &Vec<Task>,
    folded: &Vec<String>,
    done: bool,
    pid: &str,
    fuel: usize,
    out: &mut Vec<TaskRow>,
)
    ensures
        final(out)@ == old(out)@ + children_rows(tasks@, str_set(folded@), done, pid@, fuel as nat),
    decreases fuel, 0nat,
{
    if fuel == 0 {
        assert(final(out)@ =~= old(out)@ + children_rows(tasks@, str_set(folded@), done, pid@, fuel as nat));
        return;
    }
    let keys = order_keys_exec(tasks);
    let keep = child_keeps_exec(tasks, pid, done);
    assert(key_views(keys@).len() == keys@.len());
    let kids = sorted_rows_exec(&keys, &keep, false);
    push_rows(tasks, folded, done, &kids, fuel - 1, out);
}

/// Appends each task of `kids` and, unless folded, its outline.
fn push_rows(
    tasks: &Vec<Task>,
    folded: &Vec<String>,
    done: bool,
    kids: &Vec<usize>,
    fuel: usize,
    out: &mut Vec<TaskRow>,
)
    ensures
        final(out)@ == old(out)@ + rows_of(tasks@, str_set(folded@), done, kids@, fuel as nat),
    decreases fuel, 1nat,
{
    let ghost f = str_set(folded@);
    let mut j: usize = 0;
    assert(kids@.skip(0) =~= kids@);
    while j < kids.len()
        invariant
            j <= kids.len(),
            f == str_set(folded@),
            old(out)@ + rows_of(tasks@, f, done, kids@, fuel as nat) == out@ + rows_of(
                tasks@,
                f,
                done,
                kids@.skip(j as int),
                fuel as nat,
            ),
        decreases kids.len() - j,
    {
        let k = kids[j];
        proof {
            assert(kids@.skip(j as int).drop_first() =~= kids@.skip(j + 1));
            assert(kids@.skip(j as int)[0] == k);
        }
        let ghost before = out@;
        out.push(TaskRow::Live(k));
        if k < tasks.len() && !vec_contains_str(folded, tasks[k].id.as_str()) {
            push_children(tasks, folded, done, tasks[k].id.as_str(), fuel, out);
        }
        proof {
            let below = if (k as int) < tasks@.len() && !f.contains(tasks@[k as int].id@) {
                children_rows(tasks@, f, done, tasks@[k as int].id@, fuel as nat)
            } else {
                Seq::empty()
            };
            assert(out@ =~= before + (seq![TaskRow::Live(k)] + below));
        }
        j += 1;
    }
    assert(kids@.skip(kids.len() as int) =~= Seq::<usize>::empty());
}

} // verus!

verus! {

/// Some task of `tasks` has id `id`.
pub open spec fn has_id(tasks: Seq<Task>, id: Seq<char>) -> bool {
    exists|i: int| 0 <= i < tasks.len() && (#[trigger] tasks[i]).id@ == id
}

/// `i` is the first live task whose id is `id`.
pub open spec fn first_live_at(tasks: Seq<Task>, id: Seq<char>, i: int) -> bool {
    &&& 0 <= i < tasks.len()
    &&& tasks[i].id@ == id && !tasks[i].is_deleted
    &&& forall|j: int| 0 <= j < i ==> !(tasks[j].id@ == id && !tasks[j].is_deleted)
}

/// `e` is the first completed-cache entry of project `pid`.
pub open spec fn first_entry_at(cache: Seq<(String, Vec<Task>)>, pid: Seq<char>, e: int) -> bool {
    0 <= e < cache.len() && cache[e].0@ == pid && forall|j: int| 0 <= j < e ==> cache[j].0@ != pid
}

/// The ids of the loaded tasks among `rows`.
pub open spec fn row_ids(tasks: Seq<Task>, rows: Seq<TaskRow>) -> Set<Seq<char>> {
    Set::new(
        |s: Seq<char>|
            exists|k: int|
                0 <= k < rows.len() && match #[trigger] rows[k] {
                    TaskRow::Live(i) => i < tasks.len() && tasks[i as int].id@ == s,
                    TaskRow::Cached(_, _) => false,
                },
    )
}

/// Roots of a fetched completed list: tasks whose parent is not in it.
pub open spec fn root_keeps(cached: Seq<Task>) -> Seq<bool> {
    Seq::new(
        cached.len(),
        |i: int|
            match cached[i].parent_id {
                None => true,
                Some(p) => !has_id(cached, p@),
            },
    )
}

pub open spec fn cached_child_keeps(cached: Seq<Task>, pid: Seq<char>) -> Seq<bool> {
    Seq::new(cached.len(), |i: int| opt_view(cached[i].parent_id) == Some(pid))
}

/// The fetched completed tasks below `pid`, depth first by `child_order`.
pub open spec fn cached_children(cached: Seq<Task>, e: usize, pid: Seq<char>, fuel: nat) -> Seq<TaskRow>
    decreases fuel, 0nat,
{
    if fuel == 0 {
        Seq::empty()
    } else {
        cached_rows_of(
            cached,
            e,
            sorted_rows(false, order_keys(cached), cached_child_keeps(cached, pid)),
            (fuel - 1) as nat,
        )
    }
}

pub open spec fn cached_rows_of(cached: Seq<Task>, e: usize, kids: Seq<usize>, fuel: nat) -> Seq<TaskRow>
    decreases fuel, kids.len() + 1,
{
    if kids.len() == 0 {
        Seq::empty()
    } else {
        let k = kids[0] as int;
        let below = if k < cached.len() {
            cached_children(cached, e, cached[k].id@, fuel)
        } else {
            Seq::empty()
        };
        seq![TaskRow::Cached(e, kids[0])] + below + cached_rows_of(cached, e, kids.drop_first(), fuel)
    }
}

/// The row that gives a fetched root its context: its open parent, when
/// that parent is loaded and not already listed.
pub open spec fn context_row(tasks: Seq<Task>, shown: Set<Seq<char>>, root: Task) -> Seq<TaskRow> {
    match root.parent_id {
        Some(p) => if !shown.contains(p@) && exists|i: int| first_live_at(tasks, p@, i) {
            seq![TaskRow::Live((choose|i: int| first_live_at(tasks, p@, i)) as usize)]
        } else {
            Seq::empty()
        },
        None => Seq::empty(),
    }
}

/// For each root: its context row, the root, and the fetched tasks below.
pub open spec fn roots_rows(
    tasks: Seq<Task>,
    shown: Set<Seq<char>>,
    cached: Seq<Task>,
    e: usize,
    roots: Seq<usize>,
) -> Seq<TaskRow>
    decreases roots.len(),
{
    if roots.len() == 0 {
        Seq::empty()
    } else {
        let r = roots[0] as int;
        let part = if r < cached.len() {
            context_row(tasks, shown, cached[r]) + seq![TaskRow::Cached(e, roots[0])]
                + cached_children(cached, e, cached[r].id@, cached.len())
        } else {
            seq![TaskRow::Cached(e, roots[0])]
        };
        part + roots_rows(tasks, shown, cached, e, roots.drop_first())
    }
}

/// The completed tasks fetched for project `pid`, after the rows `base`.
pub open spec fn cached_tail(app: App, pid: Seq<char>, base: Seq<TaskRow>) -> Seq<TaskRow> {
    let cache = app.data.completed_cache@;
    if exists|e: int| first_entry_at(cache, pid, e) {
        let e = choose|e: int| first_entry_at(cache, pid, e);
        let cached = cache[e].1@;
        roots_rows(
            app.data.tasks@,
            row_ids(app.data.tasks@, base),
            cached,
            e as usize,
            sorted_rows(false, order_keys(cached), root_keeps(cached)),
        )
    } else {
        Seq::empty()
    }
}

} // verus!

verus! {

fn has_id_exec(tasks: &Vec<Task>, id: &str) -> (r: bool)
    ensures
        r == has_id(tasks@, id@),
{
    let mut i: usize = 0;
    while i < tasks.len()
        invariant
            i <= tasks.len(),
            forall|j: int| 0 <= j < i ==> (#[trigger] tasks@[j]).id@ != id@,
        decreases tasks.len() - i,
    {
        if str_eq(tasks[i].id.as_str(), id) {
            assert(tasks@[i as int].id@ == id@);
            return true;
        }
        i += 1;
    }
    false
}

fn first_live_exec(tasks: &Vec<Task>, id: &str) -> (r: Option<usize>)
    ensures
        match r {
            Some(i) => first_live_at(tasks@, id@, i as int),
            None => !exists|i: int| first_live_at(tasks@, id@, i),
        },
{
    let mut i: usize = 0;
    while i < tasks.len()
        invariant
            i <= tasks.len(),
            forall|j: int| 0 <= j < i ==> !(tasks@[j].id@ == id@ && !tasks@[j].is_deleted),
        decreases tasks.len() - i,
    {
        if !tasks[i].is_deleted && str_eq(tasks[i].id.as_str(), id) {
            return Some(i);
        }
        i += 1;
    }
    None
}

proof fn lemma_first_live_unique(tasks: Seq<Task>, id: Seq<char>, i: int, k: int)
    requires
        first_live_at(tasks, id, i),
        first_live_at(tasks, id, k),
    ensures
        i == k,
{
    if i < k {
        assert(!(tasks[i].id@ == id && !tasks[i].is_deleted));
    } else if k < i {
        assert(!(tasks[k].id@ == id && !tasks[k].is_deleted));
    }
}

fn shows_id(tasks: &Vec<Task>, rows: &Vec<TaskRow>, id: &str) -> (r: bool)
    ensures
        r == row_ids(tasks@, rows@).contains(id@),
{
    let mut k: usize = 0;
    while k < rows.len()
        invariant
            k <= rows.len(),
            forall|j: int|
                0 <= j < k ==> !match #[trigger] rows@[j] {
                    TaskRow::Live(i) => i < tasks@.len() && tasks@[i as int].id@ == id@,
                    TaskRow::Cached(_, _) => false,
                },
        decreases rows.len() - k,
    {
        match rows[k] {
            TaskRow::Live(i) => {
                if i < tasks.len() && str_eq(tasks[i].id.as_str(), id) {
                    assert(row_ids(tasks@, rows@).contains(id@)) by {
                        assert(match rows@[k as int] {
                            TaskRow::Live(i) => i < tasks@.len() && tasks@[i as int].id@ == id@,
                            TaskRow::Cached(_, _) => false,
                        });
                    }
                    return true;
                }
            },
            TaskRow::Cached(_, _) => {},
        }
        k += 1;
    }
    false
}

fn cached_child_keeps_exec(cached: &Vec<Task>, pid: &str) -> (v: Vec<bool>)
    ensures
        v@ == cached_child_keeps(cached@, pid@),
{
    let mut v: Vec<bool> = Vec::new();
    let mut i: usize = 0;
    while i < cached.len()
        invariant
            i <= cached.len(),
            v.len() == i,
            forall|j: int| 0 <= j < i ==> v@[j] == (opt_view(cached@[j].parent_id) == Some(pid@)),
        decreases cached.len() - i,
    {
        let keep = match &cached[i].parent_id {
            Some(p) => str_eq(p.as_str(), pid),
            None => false,
        };
        v.push(keep);
        i += 1;
    }
    assert(v@ =~= cached_child_keeps(cached@, pid@));
    v
}

fn root_keeps_exec(cached: &Vec<Task>) -> (v: Vec<bool>)
    ensures
        v@ == root_keeps(cached@),
{
    let mut v: Vec<bool> = Vec::new();
    let mut i: usize = 0;
    while i < cached.len()
        invariant
            i <= cached.len(),
            v.len() == i,
            forall|j: int|
                0 <= j < i ==> v@[j] == match cached@[j].parent_id {
                    None => true,
                    Some(p) => !has_id(cached@, p@),
                },
        decreases cached.len() - i,
    {
        let keep = match &cached[i].parent_id {
            Some(p) => !has_id_exec(cached, p.as_str()),
            None => true,
        };
        v.push(keep);
        i += 1;
    }
    assert(v@ =~= root_keeps(cached@));
    v
}

fn push_cached_children(cached: &Vec<Task>, e: usize, pid: &str, fuel: usize, out: &mut Vec<TaskRow>)
    ensures
        final(out)@ == old(out)@ + cached_children(cached@, e, pid@, fuel as nat),
    decreases fuel, 0nat,
{
    if fuel == 0 {
        assert(final(out)@ =~= old(out)@ + cached_children(cached@, e, pid@, fuel as nat));
        return;
    }
    let keys = order_keys_exec(cached);
    let keep = cached_child_keeps_exec(cached, pid);
    assert(key_views(keys@).len() == keys@.len());
    let kids = sorted_rows_exec(&keys, &keep, false);
    push_cached_rows(cached, e, &kids, fuel - 1, out);
}

fn push_cached_rows(cached: &Vec<Task>, e: usize, kids: &Vec<usize>, fuel: usize, out: &mut Vec<TaskRow>)
    ensures
        final(out)@ == old(out)@ + cached_rows_of(cached@, e, kids@, fuel as nat),
    decreases fuel, 1nat,
{
    let mut j: usize = 0;
    assert(kids@.skip(0) =~= kids@);
    while j < kids.len()
        invariant
            j <= kids.len(),
            old(out)@ + cached_rows_of(cached@, e, kids@, fuel as nat) == out@ + cached_rows_of(
                cached@,
                e,
                kids@.skip(j as int),
                fuel as nat,
            ),
        decreases kids.len() - j,
    {
        let k = kids[j];
        proof {
            assert(kids@.skip(j as int).drop_first() =~= kids@.skip(j + 1));
            assert(kids@.skip(j as int)[0] == k);
        }
        let ghost before = out@;
        out.push(TaskRow::Cached(e, k));
        if k < cached.len() {
            push_cached_children(cached, e, cached[k].id.as_str(), fuel, out);
        }
        proof {
            let below = if (k as int) < cached@.len() {
                cached_children(cached@, e, cached@[k as int].id@, fuel as nat)
            } else {
                Seq::empty()
            };
            assert(out@ =~= before + (seq![TaskRow::Cached(e, k)] + below));
        }
        j += 1;
    }
    assert(kids@.skip(kids.len() as int) =~= Seq::<usize>::empty());
}

/// Appends, for each root, its context row, the root and its fetched
/// descendants.
fn push_roots(
    tasks: &Vec<Task>,
    shown_in: &Vec<TaskRow>,
    cached: &Vec<Task>,
    e: usize,
    roots: &Vec<usize>,
    out: &mut Vec<TaskRow>,
)
    ensures
        final(out)@ == old(out)@ + roots_rows(tasks@, row_ids(tasks@, shown_in@), cached@, e, roots@),
{
    let ghost shown = row_ids(tasks@, shown_in@);
    let mut j: usize = 0;
    assert(roots@.skip(0) =~= roots@);
    while j < roots.len()
        invariant
            j <= roots.len(),
            shown == row_ids(tasks@, shown_in@),
            old(out)@ + roots_rows(tasks@, shown, cached@, e, roots@) == out@ + roots_rows(
                tasks@,
                shown,
                cached@,
                e,
                roots@.skip(j as int),
            ),
        decreases roots.len() - j,
    {
        let r = roots[j];
        proof {
            assert(roots@.skip(j as int).drop_first() =~= roots@.skip(j + 1));
            assert(roots@.skip(j as int)[0] == r);
        }
        let ghost before = out@;
        if r < cached.len() {
            let root = &cached[r];
            let ghost ctx = context_row(tasks@, shown, *root);
            match &root.parent_id {
                Some(p) => {
                    if !shows_id(tasks, shown_in, p.as_str()) {
                        match first_live_exec(tasks, p.as_str()) {
                            Some(i) => {
                                proof {
                                    let c = choose|c: int| first_live_at(tasks@, p@, c);
                                    lemma_first_live_unique(tasks@, p@, i as int, c);
                                }
                                out.push(TaskRow::Live(i));
                            },
                            None => {},
                        }
                    }
                },
                None => {},
            }
            assert(out@ =~= before + ctx);
            let ghost mid = out@;
            out.push(TaskRow::Cached(e, r));
            push_cached_children(cached, e, root.id.as_str(), cached.len(), out);
            assert(out@ =~= mid + seq![TaskRow::Cached(e, r)] + cached_children(
                cached@,
                e,
                root.id@,
                cached.len() as nat,
            ));
        } else {
            out.push(TaskRow::Cached(e, r));
        }
        j += 1;
    }
    assert(roots@.skip(roots.len() as int) =~= Seq::<usize>::empty());
}

} // verus!

verus! {

pub open spec fn live_rows(ix: Seq<usize>) -> Seq<TaskRow> {
    ix.map_values(|i: usize| TaskRow::Live(i))
}

pub open spec fn today_keeps(app: App, c: Clock) -> Seq<bool> {
    Seq::new(app.data.tasks@.len(), |i: int| today_keep(app, c, app.data.tasks@[i]))
}

pub open spec fn today_keys(tasks: Seq<Task>) -> Seq<KeyView> {
    Seq::new(tasks.len(), |i: int| today_key(tasks[i]))
}

pub open spec fn upcoming_keeps(app: App) -> Seq<bool> {
    Seq::new(app.data.tasks@.len(), |i: int| upcoming_keep(app, app.data.tasks@[i]))
}

pub open spec fn upcoming_keys(tasks: Seq<Task>) -> Seq<KeyView> {
    Seq::new(tasks.len(), |i: int| upcoming_key(tasks[i]))
}

pub open spec fn top_keeps(app: App, c: Clock) -> Seq<bool> {
    Seq::new(app.data.tasks@.len(), |i: int| top_keep(app, c, app.data.tasks@[i]))
}

pub open spec fn top_keys(app: App) -> Seq<KeyView> {
    Seq::new(app.data.tasks@.len(), |i: int| top_key(app, app.data.tasks@[i]))
}

/// The selected project's outline: its top-level tasks in the chosen
/// order, each followed by its unfolded subtasks; with the Done or Both
/// filter, then the completed tasks fetched for the project. A dock filter
/// lists its matching tasks flat.
pub open spec fn project_rows(app: App, c: Clock) -> Seq<TaskRow> {
    let tasks = app.data.tasks@;
    let top = sorted_rows(top_desc(app), top_keys(app), top_keeps(app, c));
    if app.nav.dock_filter is Some {
        live_rows(top)
    } else {
        let base = rows_of(
            tasks,
            str_set(app.nav.collapsed@),
            app.nav.task_filter == TaskFilter::Done,
            top,
            tasks.len() as nat,
        );
        match selected_project_id(app) {
            Some(pid) => if app.nav.task_filter != TaskFilter::Active {
                base + cached_tail(app, pid, base)
            } else {
                base
            },
            None => base,
        }
    }
}

/// The rows of the task pane on clock `c`.
pub open spec fn visible_rows(app: App, c: Clock) -> Seq<TaskRow> {
    let tasks = app.data.tasks@;
    if app.views.today_view_active {
        live_rows(sorted_rows(false, today_keys(tasks), today_keeps(app, c)))
    } else if app.views.upcoming_view_active {
        live_rows(sorted_rows(false, upcoming_keys(tasks), upcoming_keeps(app)))
    } else {
        project_rows(app, c)
    }
}

fn live_rows_exec(ix: &Vec<usize>) -> (r: Vec<TaskRow>)
    ensures
        r@ == live_rows(ix@),
{
    let mut r: Vec<TaskRow> = Vec::new();
    let mut j: usize = 0;
    while j < ix.len()
        invariant
            j <= ix.len(),
            r@ == live_rows(ix@.take(j as int)),
        decreases ix.len() - j,
    {
        r.push(TaskRow::Live(ix[j]));
        assert(live_rows(ix@.take(j + 1)) =~= live_rows(ix@.take(j as int)).push(TaskRow::Live(ix[j as int])));
        j += 1;
    }
    assert(ix@.take(ix.len() as int) =~= ix@);
    r
}

impl App {
    fn today_vectors(&self, c: &Clock) -> (r: (Vec<SortKey>, Vec<bool>))
        ensures
            key_views(r.0@) == today_keys(self.data.tasks@),
            r.1@ == today_keeps(*self, *c),
            r.0.len() == r.1.len(),
    {
        let tasks = &self.data.tasks;
        let mut keys: Vec<SortKey> = Vec::new();
        let mut keep: Vec<bool> = Vec::new();
        let mut i: usize = 0;
        while i < tasks.len()
            invariant
                tasks == &self.data.tasks,
                i <= tasks.len(),
                keys.len() == i,
                keep.len() == i,
                forall|j: int| 0 <= j < i ==> (#[trigger] keys@[j])@ == today_key(tasks@[j]),
                forall|j: int| 0 <= j < i ==> keep@[j] == today_keep(*self, *c, tasks@[j]),
            decreases tasks.len() - i,
        {
            proof {
                reveal_strlit("");
            }
            let t = &tasks[i];
            keys.push(plain_key(date_or_exec(t, ""), t.project_id.clone(), t.child_order as i64, 0));
            keep.push(self.today_keep_exec(c, t));
            i += 1;
        }
        assert(key_views(keys@) =~= today_keys(tasks@));
        assert(keep@ =~= today_keeps(*self, *c));
        (keys, keep)
    }

    fn upcoming_vectors(&self) -> (r: (Vec<SortKey>, Vec<bool>))
        ensures
            key_views(r.0@) == upcoming_keys(self.data.tasks@),
            r.1@ == upcoming_keeps(*self),
            r.0.len() == r.1.len(),
    {
        let tasks = &self.data.tasks;
        let mut keys: Vec<SortKey> = Vec::new();
        let mut keep: Vec<bool> = Vec::new();
        let mut i: usize = 0;
        while i < tasks.len()
            invariant
                tasks == &self.data.tasks,
                i <= tasks.len(),
                keys.len() == i,
                keep.len() == i,
                forall|j: int| 0 <= j < i ==> (#[trigger] keys@[j])@ == upcoming_key(tasks@[j]),
                forall|j: int| 0 <= j < i ==> keep@[j] == upcoming_keep(*self, tasks@[j]),
            decreases tasks.len() - i,
        {
            proof {
                reveal_strlit("");
            }
            let t = &tasks[i];
            keys.push(plain_key(date_or_exec(t, ""), t.project_id.clone(), t.child_order as i64, 0));
            keep.push(self.upcoming_keep_exec(t));
            i += 1;
        }
        assert(key_views(keys@) =~= upcoming_keys(tasks@));
        assert(keep@ =~= upcoming_keeps(*self));
        (keys, keep)
    }

    fn top_vectors(&self, c: &Clock) -> (r: (Vec<SortKey>, Vec<bool>))
        ensures
            key_views(r.0@) == top_keys(*self),
            r.1@ == top_keeps(*self, *c),
            r.0.len() == r.1.len(),
    {
        let tasks = &self.data.tasks;
        let mut keys: Vec<SortKey> = Vec::new();
        let mut keep: Vec<bool> = Vec::new();
        let mut i: usize = 0;
        while i < tasks.len()
            invariant
                tasks == &self.data.tasks,
                i <= tasks.len(),
                keys.len() == i,
                keep.len() == i,
                forall|j: int| 0 <= j < i ==> (#[trigger] keys@[j])@ == top_key(*self, tasks@[j]),
                forall|j: int| 0 <= j < i ==> keep@[j] == top_keep(*self, *c, tasks@[j]),
            decreases tasks.len() - i,
        {
            let t = &tasks[i];
            keys.push(self.top_key_exec(t));
            keep.push(self.top_keep_exec(c, t));
            i += 1;
        }
        assert(key_views(keys@) =~= top_keys(*self));
        assert(keep@ =~= top_keeps(*self, *c));
        (keys, keep)
    }

    /// First completed-cache entry of project `pid`.
    fn cache_entry(&self, pid: &str) -> (r: Option<usize>)
        ensures
            match r {
                Some(e) => first_entry_at(self.data.completed_cache@, pid@, e as int),
                None => !exists|e: int| first_entry_at(self.data.completed_cache@, pid@, e),
            },
    {
        let cache = &self.data.completed_cache;
        let mut e: usize = 0;
        while e < cache.len()
            invariant
                cache == &self.data.completed_cache,
                e <= cache.len(),
                forall|j: int| 0 <= j < e ==> cache@[j].0@ != pid@,
            decreases cache.len() - e,
        {
            if str_eq(cache[e].0.as_str(), pid) {
                return Some(e);
            }
            e += 1;
        }
        None
    }

    /// The rows of the task pane on clock `c`.
    pub fn visible_tasks_on(&self, c: &Clock) -> (r: Vec<TaskRow>)
        ensures
            r@ == visible_rows(*self, *c),
    {
        if self.views.today_view_active {
            let (keys, keep) = self.today_vectors(c);
            let ix = sorted_rows_exec(&keys, &keep, false);
            return live_rows_exec(&ix);
        }
        if self.views.upcoming_view_active {
            let (keys, keep) = self.upcoming_vectors();
            let ix = sorted_rows_exec(&keys, &keep, false);
            return live_rows_exec(&ix);
        }
        let (keys, keep) = self.top_vectors(c);
        let top = sorted_rows_exec(&keys, &keep, self.nav.sort_mode == SortMode::Created);
        if self.nav.dock_filter.is_some() {
            return live_rows_exec(&top);
        }
        let mut out: Vec<TaskRow> = Vec::new();
        push_rows(
            &self.data.tasks,
            &self.nav.collapsed,
            self.nav.task_filter == TaskFilter::Done,
            &top,
            self.data.tasks.len(),
            &mut out,
        );
        assert(out@ =~= rows_of(
            self.data.tasks@,
            str_set(self.nav.collapsed@),
            self.nav.task_filter == TaskFilter::Done,
            top@,
            self.data.tasks@.len() as nat,
        ));
        if self.nav.task_filter == TaskFilter::Active {
            return out;
        }
        match self.selected_project_id_exec() {
            None => out,
            Some(pid) => {
                let base = out.clone();
                assert(base@ == out@);
                match self.cache_entry(pid.as_str()) {
                    None => {
                        assert(out@ =~= out@ + cached_tail(*self, pid@, base@));
                        out
                    },
                    Some(e) => {
                        let cached = &self.data.completed_cache[e].1;
                        let keys = order_keys_exec(cached);
                        let keep = root_keeps_exec(cached);
                        assert(key_views(keys@).len() == keys@.len());
                        let roots = sorted_rows_exec(&keys, &keep, false);
                        proof {
                            let k = choose|k: int| first_entry_at(self.data.completed_cache@, pid@, k);
                            if k < e {
                                assert(self.data.completed_cache@[k].0@ != pid@);
                            } else if k > e {
                                assert(self.data.completed_cache@[e as int].0@ != pid@);
                            }
                            assert(k == e);
                        }
                        push_roots(&self.data.tasks, &base, cached, e, &roots, &mut out);
                        out
                    },
                }
            },
        }
    }

    /// The rows of the task pane now.
    pub fn visible_tasks(&self) -> (r: Vec<TaskRow>)
        ensures
            exists|c: Clock| clock_ok(c) && r@ == visible_rows(*self, c),
    {
        let c = read_clock();
        self.visible_tasks_on(&c)
    }
}

} // verus!

verus! {

/// The task a row stands for.
pub open spec fn row_task_spec(app: App, row: TaskRow) -> Option<Task> {
    match row {
        TaskRow::Live(i) => if i < app.data.tasks@.len() {
            Some(app.data.tasks@[i as int])
        } else {
            None
        },
        TaskRow::Cached(e, k) => if e < app.data.completed_cache@.len() && k
            < app.data.completed_cache@[e as int].1@.len() {
            Some(app.data.completed_cache@[e as int].1@[k as int])
        } else {
            None
        },
    }
}

/// Number of parent links above a task whose parent is `parent`.
pub open spec fn depth_from(tasks: Seq<Task>, parent: Option<Seq<char>>, fuel: nat) -> nat
    decreases fuel,
{
    match parent {
        None => 0,
        Some(p) => if fuel == 0 {
            0
        } else {
            1 + depth_from(tasks, parent_of(tasks, p), (fuel - 1) as nat)
        },
    }
}

/// Following parent links (inside `cached`) from `parent` meets `anc`.
pub open spec fn cached_descends(cached: Seq<Task>, parent: Option<Seq<char>>, anc: Seq<char>, fuel: nat) -> bool
    decreases fuel,
{
    match parent {
        None => false,
        Some(p) => p == anc || (fuel > 0 && cached_descends(
            cached,
            parent_of(cached, p),
            anc,
            (fuel - 1) as nat,
        )),
    }
}

/// In the Done filter, an open task shown only because completed work lies
/// below it.
pub open spec fn context_task(app: App, t: Task) -> bool {
    &&& app.nav.task_filter == TaskFilter::Done && app.nav.dock_filter is None && !t.checked
    &&& (has_done_descendant(app.data.tasks@, t.id@) || cache_context(
        app.data.completed_cache@,
        selected_project_id(app),
        t.id@,
    ))
}

/// The completed tasks fetched for project `pid` hold one below `id`.
pub open spec fn cache_context(cache: Seq<(String, Vec<Task>)>, pid: Option<Seq<char>>, id: Seq<char>) -> bool {
    match pid {
        Some(p) => exists|e: int| first_entry_at(cache, p, e) && #[trigger] cached_has_below(cache[e].1@, id),
        None => false,
    }
}

proof fn lemma_cache_context(cache: Seq<(String, Vec<Task>)>, p: Seq<char>, id: Seq<char>, e: int)
    requires
        first_entry_at(cache, p, e),
        cached_has_below(cache[e].1@, id),
    ensures
        cache_context(cache, Some(p), id),
{
    assert(first_entry_at(cache, p, e) && cached_has_below(cache[e].1@, id));
}

/// Some fetched completed task lies below `id`.
pub open spec fn cached_has_below(cached: Seq<Task>, id: Seq<char>) -> bool {
    exists|u: int|
        0 <= u < cached.len() && cached_descends(
            cached,
            opt_view((#[trigger] cached[u]).parent_id),
            id,
            cached.len() + 1,
        )
}

/// The Upcoming view of `app`: the same state with only the Upcoming view on.
pub open spec fn upcoming_only(app: App) -> App {
    App {
        views: Views {
            all_view_active: false,
            today_view_active: false,
            upcoming_view_active: true,
            active_pr_org: None,
            jira_cards_view_active: false,
            agenda_view_active: false,
        },
        ..app
    }
}

fn cached_descendant_exec(cached: &Vec<Task>, task: &Task, anc: &str) -> (r: bool)
    ensures
        r == cached_descends(cached@, opt_view(task.parent_id), anc@, (cached.len() + 1) as nat),
{
    let mut cur: Option<String> = match &task.parent_id {
        Some(p) => Some(p.clone()),
        None => None,
    };
    let mut fuel: usize = cached.len();
    loop
        invariant
            fuel <= cached.len(),
            cached_descends(cached@, opt_view(cur), anc@, (fuel + 1) as nat) == cached_descends(
                cached@,
                opt_view(task.parent_id),
                anc@,
                (cached.len() + 1) as nat,
            ),
        decreases fuel,
    {
        match cur {
            None => return false,
            Some(p) => {
                if str_eq(p.as_str(), anc) {
                    return true;
                }
                let next = parent_of_exec(cached, p.as_str());
                if fuel == 0 {
                    assert(cached_descends(cached@, Some(p@), anc@, 1) == cached_descends(
                        cached@,
                        opt_view(next),
                        anc@,
                        0,
                    ));
                    return match next {
                        None => false,
                        Some(q) => {
                            assert(cached_descends(cached@, Some(q@), anc@, 0) == (q@ == anc@));
                            str_eq(q.as_str(), anc)
                        },
                    };
                }
                fuel -= 1;
                cur = next;
            },
        }
    }
}

impl App {
    /// The task a row stands for.
    pub fn row_task(&self, row: TaskRow) -> (r: Option<&Task>)
        ensures
            match r {
                Some(t) => row_task_spec(*self, row) == Some(*t),
                None => row_task_spec(*self, row) is None,
            },
    {
        match row {
            TaskRow::Live(i) => if i < self.data.tasks.len() {
                Some(&self.data.tasks[i])
            } else {
                None
            },
            TaskRow::Cached(e, k) => if e < self.data.completed_cache.len() && k
                < self.data.completed_cache[e].1.len() {
                Some(&self.data.completed_cache[e].1[k])
            } else {
                None
            },
        }
    }

    /// Whether some task has `task_id` as its parent.
    pub fn has_children(&self, task_id: &str) -> (r: bool)
        ensures
            r == exists|i: int|
                0 <= i < self.data.tasks@.len() && opt_view(#[trigger] self.data.tasks@[i].parent_id)
                    == Some(task_id@),
    {
        let tasks = &self.data.tasks;
        let mut i: usize = 0;
        while i < tasks.len()
            invariant
                tasks == &self.data.tasks,
                i <= tasks.len(),
                forall|j: int| 0 <= j < i ==> opt_view(#[trigger] tasks@[j].parent_id) != Some(task_id@),
            decreases tasks.len() - i,
        {
            let is_child = match &tasks[i].parent_id {
                Some(p) => str_eq(p.as_str(), task_id),
                None => false,
            };
            if is_child {
                return true;
            }
            i += 1;
        }
        false
    }

    /// Whether the subtasks of `task_id` are folded.
    pub fn is_collapsed(&self, task_id: &str) -> (r: bool)
        ensures
            r == str_set(self.nav.collapsed@).contains(task_id@),
    {
        vec_contains_str(&self.nav.collapsed, task_id)
    }

    /// How many parent links lie above `task`.
    pub fn task_depth(&self, task: &Task) -> (r: usize)
        requires
            self.data.tasks.len() < usize::MAX,
        ensures
            r == depth_from(self.data.tasks@, opt_view(task.parent_id), self.data.tasks@.len() + 1),
    {
        let tasks = &self.data.tasks;
        let mut cur: Option<String> = match &task.parent_id {
            Some(p) => Some(p.clone()),
            None => None,
        };
        let mut depth: usize = 0;
        let mut fuel: usize = tasks.len();
        loop
            invariant
                tasks == &self.data.tasks,
                tasks.len() < usize::MAX,
                fuel <= tasks.len(),
                depth + fuel == tasks.len(),
                depth + depth_from(tasks@, opt_view(cur), (fuel + 1) as nat) == depth_from(
                    tasks@,
                    opt_view(task.parent_id),
                    tasks@.len() + 1,
                ),
            decreases fuel,
        {
            match cur {
                None => return depth,
                Some(p) => {
                    let next = parent_of_exec(tasks, p.as_str());
                    if fuel == 0 {
                        assert(depth_from(tasks@, opt_view(next), 0) == 0);
                        return depth + 1;
                    }
                    depth += 1;
                    fuel -= 1;
                    cur = next;
                },
            }
        }
    }

    /// Whether `task` is listed only as context for completed work below it.
    pub fn is_context_task(&self, task: &Task) -> (r: bool)
        ensures
            r == context_task(*self, *task),
    {
        if !(self.nav.task_filter == TaskFilter::Done && self.nav.dock_filter.is_none()
            && !task.checked) {
            return false;
        }
        if has_completed_descendant(&self.data.tasks, task.id.as_str()) {
            return true;
        }
        match self.selected_project_id_exec() {
            None => false,
            Some(pid) => match self.cache_entry(pid.as_str()) {
                None => false,
                Some(e) => {
                    let cached = &self.data.completed_cache[e].1;
                    proof {
                        assert forall|k: int| first_entry_at(self.data.completed_cache@, pid@, k) implies k == e by {
                            if k < e {
                                assert(self.data.completed_cache@[k].0@ != pid@);
                            } else if k > e {
                                assert(self.data.completed_cache@[e as int].0@ != pid@);
                            }
                        }
                    }
                    let mut u: usize = 0;
                    while u < cached.len()
                        invariant
                            cached == &self.data.completed_cache@[e as int].1,
                            first_entry_at(self.data.completed_cache@, pid@, e as int),
                            selected_project_id(*self) == Some(pid@),
                            self.nav.task_filter == TaskFilter::Done,
                            self.nav.dock_filter is None,
                            !task.checked,
                            u <= cached.len(),
                            forall|j: int|
                                0 <= j < u ==> !cached_descends(
                                    cached@,
                                    opt_view(#[trigger] cached@[j].parent_id),
                                    task.id@,
                                    cached@.len() + 1,
                                ),
                        decreases cached.len() - u,
                    {
                        if cached_descendant_exec(cached, &cached[u], task.id.as_str()) {
                            assert(cached_has_below(cached@, task.id@)) by {
                                assert(cached_descends(
                                    cached@,
                                    opt_view(cached@[u as int].parent_id),
                                    task.id@,
                                    cached@.len() + 1,
                                ));
                            }
                            proof {
                                lemma_cache_context(self.data.completed_cache@, pid@, task.id@, e as int);
                            }
                            return true;
                        }
                        u += 1;
                    }
                    false
                },
            },
        }
    }

    /// Number of tasks the Upcoming view lists: its badge equals the list.
    pub fn upcoming_task_count(&self) -> (r: usize)
        ensures
            r == sorted_rows(false, upcoming_keys(self.data.tasks@), upcoming_keeps(*self)).len(),
            forall|c: Clock| r == #[trigger] visible_rows(upcoming_only(*self), c).len(),
    {
        let (keys, keep) = self.upcoming_vectors();
        let ix = sorted_rows_exec(&keys, &keep, false);
        proof {
            assert(upcoming_keeps(upcoming_only(*self)) =~= upcoming_keeps(*self));
        }
        ix.len()
    }
}

} // verus!

verus! {

/// The indices below `n` that satisfy `pred`, ascending.
pub open spec fn indices_where(n: nat, pred: spec_fn(int) -> bool) -> Seq<usize>
    decreases n,
{
    if n == 0 {
        Seq::empty()
    } else {
        indices_where((n - 1) as nat, pred) + if pred(n - 1) {
            seq![(n - 1) as usize]
        } else {
            Seq::empty()
        }
    }
}

/// The All view's Today section: the Today view's filter without the
/// overdue fold and without the time-of-day label rule (only the evening
/// and work label rules apply here), in loaded order.
pub open spec fn all_today_keep(app: App, c: Clock, t: Task) -> bool {
    &&& !t.is_deleted && !t.checked && t.parent_id is None
    &&& !pending_close(app, t.id@)
    &&& !(c.hour < 17 && has_label(t.labels@, "evening"@))
    &&& !(c.weekend && has_label(t.labels@, "work"@))
    &&& match due_date(t) {
        Some(d) => lex_le(d, c.today@),
        None => false,
    }
    &&& mine(opt_view(app.data.current_user_id), t)
}

/// The All view: today's calendar events, today's tasks, the pull requests
/// of owners that are not hidden, then the Jira cards.
pub open spec fn all_items(app: App, c: Clock) -> Seq<AllViewItem> {
    let tasks = app.data.tasks@;
    let prs = app.external.github_prs@;
    let hidden = str_set(app.external.hidden_pr_orgs@);
    Seq::new(app.external.agenda_events@.len(), |i: int| AllViewItem::AgendaEvent(i as usize))
        + indices_where(tasks.len(), |i: int| all_today_keep(app, c, tasks[i])).map_values(
        |i: usize| AllViewItem::Task(i),
    ) + indices_where(prs.len(), |i: int| !owner_hidden(hidden, prs[i].repo_full_name@)).map_values(
        |i: usize| AllViewItem::PullRequest(i),
    ) + Seq::new(app.external.jira_cards@.len(), |i: int| AllViewItem::JiraCard(i as usize))
}

impl App {
    fn all_today_keep_exec(&self, c: &Clock, t: &Task) -> (r: bool)
        ensures
            r == all_today_keep(*self, *c, *t),
    {
        if t.is_deleted || t.checked || t.parent_id.is_some() {
            return false;
        }
        if vec_contains_str(&self.pending.pending_close_recurring, t.id.as_str()) {
            return false;
        }
        if evening_task_hidden(&t.labels, c.hour) {
            return false;
        }
        if work_weekend_hidden(&t.labels, c.weekend) {
            return false;
        }
        due_before_or_on(t, c.today.as_str()) && mine_exec(&self.data.current_user_id, t)
    }

    /// The rows of the All view on clock `c`.
    pub fn all_view_items_on(&self, c: &Clock) -> (r: Vec<AllViewItem>)
        ensures
            r@ == all_items(*self, *c),
    {
        let mut items: Vec<AllViewItem> = Vec::new();
        let n_ev = self.external.agenda_events.len();
        let mut i: usize = 0;
        while i < n_ev
            invariant
                n_ev == self.external.agenda_events@.len(),
                i <= n_ev,
                items@ == Seq::new(i as nat, |k: int| AllViewItem::AgendaEvent(k as usize)),
            decreases n_ev - i,
        {
            items.push(AllViewItem::AgendaEvent(i));
            assert(items@ =~= Seq::new((i + 1) as nat, |k: int| AllViewItem::AgendaEvent(k as usize)));
            i += 1;
        }
        let ghost s1 = items@;
        let tasks = &self.data.tasks;
        let ghost tp = |k: int| all_today_keep(*self, *c, tasks@[k]);
        let mut i: usize = 0;
        while i < tasks.len()
            invariant
                tasks == &self.data.tasks,
                tp == (|k: int| all_today_keep(*self, *c, tasks@[k])),
                i <= tasks.len(),
                items@ == s1 + indices_where(i as nat, tp).map_values(|j: usize| AllViewItem::Task(j)),
            decreases tasks.len() - i,
        {
            let ghost before = indices_where(i as nat, tp);
            if self.all_today_keep_exec(c, &tasks[i]) {
                items.push(AllViewItem::Task(i));
            }
            assert(indices_where((i + 1) as nat, tp).map_values(|j: usize| AllViewItem::Task(j))
                =~= before.map_values(|j: usize| AllViewItem::Task(j)) + if tp(i as int) {
                seq![AllViewItem::Task(i)]
            } else {
                Seq::empty()
            });
            i += 1;
        }
        let ghost s2 = items@;
        let prs = &self.external.github_prs;
        let ghost hidden = str_set(self.external.hidden_pr_orgs@);
        let ghost pp = |k: int| !owner_hidden(hidden, prs@[k].repo_full_name@);
        let mut i: usize = 0;
        while i < prs.len()
            invariant
                prs == &self.external.github_prs,
                hidden == str_set(self.external.hidden_pr_orgs@),
                pp == (|k: int| !owner_hidden(hidden, prs@[k].repo_full_name@)),
                i <= prs.len(),
                items@ == s2 + indices_where(i as nat, pp).map_values(|j: usize| AllViewItem::PullRequest(j)),
            decreases prs.len() - i,
        {
            let ghost before = indices_where(i as nat, pp);
            let hide = match repo_owner(prs[i].repo_full_name.as_str()) {
                Some(o) => vec_contains_str(&self.external.hidden_pr_orgs, o.as_str()),
                None => false,
            };
            if !hide {
                items.push(AllViewItem::PullRequest(i));
            }
            assert(indices_where((i + 1) as nat, pp).map_values(|j: usize| AllViewItem::PullRequest(j))
                =~= before.map_values(|j: usize| AllViewItem::PullRequest(j)) + if pp(i as int) {
                seq![AllViewItem::PullRequest(i)]
            } else {
                Seq::empty()
            });
            i += 1;
        }
        let ghost s3 = items@;
        let n_j = self.external.jira_cards.len();
        let mut i: usize = 0;
        while i < n_j
            invariant
                n_j == self.external.jira_cards@.len(),
                i <= n_j,
                items@ == s3 + Seq::new(i as nat, |k: int| AllViewItem::JiraCard(k as usize)),
            decreases n_j - i,
        {
            items.push(AllViewItem::JiraCard(i));
            assert(items@ =~= s3 + Seq::new((i + 1) as nat, |k: int| AllViewItem::JiraCard(k as usize)));
            i += 1;
        }
        assert(items@ =~= all_items(*self, *c));
        items
    }

    /// The rows of the All view now.
    pub fn all_view_items(&self) -> (r: Vec<AllViewItem>)
        ensures
            exists|c: Clock| clock_ok(c) && r@ == all_items(*self, c),
    {
        let c = read_clock();
        self.all_view_items_on(&c)
    }
}

} // verus!
