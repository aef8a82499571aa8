//! Laws on what the task and sidebar orders, keys, completions and syncs do,
//! stated over the tasks, projects and commands themselves.
use vstd::prelude::*;

use crate::app::{App, InputMode, Pane, SortMode, VimState};
use crate::delta::{first_key_at, list_merged, lists_merged, notes_merged, sync_finished, upsert_all, upsert_one, Keyed, SyncResponse};
use crate::edit::completes;
use crate::keys::{key_effect, KeyAction, KeyCode, KeyEvent};
use crate::sync::{CommandArgs, OptimisticOp};
use crate::model::same_task;
use crate::model::Project;
use crate::order::{lemma_sorted_rows_sorted, sorted_rows};
use crate::projects::{child_of, pin_keys, proj_rows, subtree};
use crate::text::lex_le;
use crate::tasks::{
    date_or, section_rank, today_keeps, today_keys, upcoming_keeps, upcoming_keys, child_keeps, child_list, children_rows, live_rows, order_keys, rows_of, top_desc, top_keeps, top_keys,
    visible_rows, Clock, TaskRow,
};
use crate::model::Task;
use crate::app::{str_set, TaskFilter};

verus! {

/// The task pane in Vim normal mode with nothing else open: no overlay,
/// form, input, picker, settings, detail pane, stats-dock cursor or
/// pending `z`.
pub open spec fn vim_task_pane(app: App) -> bool {
    &&& app.input.input_mode == InputMode::Vim(VimState::Normal)
    &&& !app.input.show_help && !app.input.show_priority_picker && app.input.task_form is None
    &&& !app.input.show_input && !app.input.show_theme_picker && !app.input.pending_z
    &&& app.nav.active_pane == Pane::Tasks
    &&& app.nav.dock_focus is None
}

/// In Vim normal mode on the task pane, `o` moves the sort order on and
/// `f` moves the Active/Done/Both filter on; neither key changes the state
/// itself, so the two keys never do the same thing.
pub proof fn law_vim_o_sorts_and_f_filters(
    old: App,
    c: Clock,
    new_o: App,
    a_o: KeyAction,
    new_f: App,
    a_f: KeyAction,
)
    requires
        vim_task_pane(old),
        key_effect(old, new_o, KeyEvent { code: KeyCode::Char('o'), control: false }, c, a_o),
        key_effect(old, new_f, KeyEvent { code: KeyCode::Char('f'), control: false }, c, a_f),
    ensures
        a_o is CycleSort,
        a_f is CycleFilter,
        new_o == old,
        new_f == old,
{
    reveal(key_effect);
    reveal(crate::keys::vim_normal_effect);
}

/// Toggling a task queues the matching command: a task that was done is
/// reopened with `item_reopen`, an open one closed with `item_close`,
/// either way naming the task.
pub proof fn law_toggle_sends_matching_command(
    old: App,
    new: App,
    id: Seq<char>,
    i: int,
    today: Seq<char>,
    ns: u32,
)
    requires
        0 <= i < old.data.tasks@.len(),
        completes(old, new, id, i, today, ns),
    ensures
        new.pending.pending_commands@.len() == old.pending.pending_commands@.len() + 1,
        new.pending.pending_commands@.last().kind@ == (if old.data.tasks@[i].checked {
            "item_reopen"@
        } else {
            "item_close"@
        }),
        new.pending.pending_commands@.last().args matches CommandArgs::ItemId { id: x } && x@ == id,
        new.pending.temp_id_pending@.len() == old.pending.temp_id_pending@.len() + 1,
        new.pending.temp_id_pending@.last().0@ == new.pending.pending_commands@.last().uuid@,
        new.pending.temp_id_pending@.last().1 matches OptimisticOp::TaskUpdated { task_id: x, before: b }
            && x@ == id && same_task(b, old.data.tasks@[i]),
{
}

/// The keys of Vim normal mode on the task pane (outside the All view):
/// `q` quits, `?` toggles help, `,` opens settings, `p` toggles the
/// pomodoro, `x` completes the selected task, `a` opens the add form, `f`
/// moves the filter on and `o` the sort order; none of them changes the
/// state by itself.
pub proof fn law_vim_task_keys(old: App, new: App, ch: char, c: Clock, a: KeyAction)
    requires
        vim_task_pane(old),
        !old.views.all_view_active,
        key_effect(old, new, KeyEvent { code: KeyCode::Char(ch), control: false }, c, a),
    ensures
        ch == 'q' ==> a is Quit && new == old,
        ch == '?' ==> a is ToggleHelp && new == old,
        ch == ',' ==> a is ToggleSettings && new == old,
        ch == 'p' ==> a is TogglePomodoro && new == old,
        ch == 'x' ==> a is CompleteTask && new == old,
        ch == 'a' ==> a is StartInput && new == old,
        ch == 'f' ==> a is CycleFilter && new == old,
        ch == 'o' ==> a is CycleSort && new == old,
{
    reveal(key_effect);
    reveal(crate::keys::vim_normal_effect);
}

/// In standard mode on the task pane (outside the All view), `f` moves
/// the filter on, Ctrl-a opens the add form and Ctrl-x completes the
/// selected task.
pub proof fn law_standard_task_keys(old: App, new: App, ch: char, ctrl: bool, c: Clock, a: KeyAction)
    requires
        vim_task_pane(App { input: crate::app::Input { input_mode: InputMode::Vim(VimState::Normal), ..old.input }, ..old }),
        old.input.input_mode == InputMode::Standard,
        !old.views.all_view_active,
        key_effect(old, new, KeyEvent { code: KeyCode::Char(ch), control: ctrl }, c, a),
    ensures
        (ch == 'f' && !ctrl) ==> a is CycleFilter && new == old,
        (ch == 'a' && ctrl) ==> a is StartInput && new == old,
        (ch == 'x' && ctrl) ==> a is CompleteTask && new == old,
        (ch == 'p' && !ctrl) ==> a is TogglePomodoro && new == old,
{
    reveal(key_effect);
    reveal(crate::keys::standard_effect);
}

/// Applying a record whose id is not `k` keeps `k` absent.
proof fn lemma_upsert_keeps_absent<T: Keyed>(cur: Seq<T>, x: T, k: Seq<char>)
    requires
        x.key() != k,
        forall|j: int| 0 <= j < cur.len() ==> (#[trigger] cur[j]).key() != k,
    ensures
        forall|j: int| 0 <= j < upsert_one(cur, x).len() ==> (#[trigger] upsert_one(cur, x)[j]).key() != k,
{
    let r = upsert_one(cur, x);
    if x.gone() {
        let f = |e: T| e.key() != x.key();
        assert(r == cur.filter(f));
        assert forall|j: int| 0 <= j < r.len() implies (#[trigger] r[j]).key() != k by {
            assert(r.contains(r[j]));
            cur.lemma_filter_contains_rev(f, r[j]);
        }
    } else if exists|j: int| first_key_at(cur, x.key(), j) {
        let p = choose|j: int| first_key_at(cur, x.key(), j);
        assert forall|j: int| 0 <= j < r.len() implies (#[trigger] r[j]).key() != k by {
            if j != p {
                assert(r[j] == cur[j]);
            }
        }
    } else {
        assert forall|j: int| 0 <= j < r.len() implies (#[trigger] r[j]).key() != k by {
            if j < cur.len() {
                assert(r[j] == cur[j]);
            }
        }
    }
}

/// A delta that never mentions `k` keeps `k` absent.
proof fn lemma_upsert_all_keeps_absent<T: Keyed>(cur: Seq<T>, inc: Seq<T>, k: Seq<char>)
    requires
        forall|l: int| 0 <= l < inc.len() ==> (#[trigger] inc[l]).key() != k,
        forall|j: int| 0 <= j < cur.len() ==> (#[trigger] cur[j]).key() != k,
    ensures
        forall|j: int| 0 <= j < upsert_all(cur, inc).len() ==> (#[trigger] upsert_all(cur, inc)[j]).key() != k,
    decreases inc.len(),
{
    if inc.len() > 0 {
        lemma_upsert_keeps_absent(cur, inc[0], k);
        let rest = inc.drop_first();
        assert(upsert_all(cur, inc) == upsert_all(upsert_one(cur, inc[0]), rest));
        assert forall|l: int| 0 <= l < rest.len() implies (#[trigger] rest[l]).key() != k by {
            assert(rest[l] == inc[l + 1]);
        }
        lemma_upsert_all_keeps_absent(upsert_one(cur, inc[0]), rest, k);
    }
}

/// A record deleted by the delta, and not sent again later in it, leaves
/// no record with its id.
proof fn lemma_deleted_stays_gone<T: Keyed>(cur: Seq<T>, inc: Seq<T>, d: int)
    requires
        0 <= d < inc.len(),
        inc[d].gone(),
        forall|l: int| d < l < inc.len() ==> (#[trigger] inc[l]).key() != inc[d].key(),
    ensures
        forall|j: int|
            0 <= j < upsert_all(cur, inc).len() ==> (#[trigger] upsert_all(cur, inc)[j]).key() != inc[d].key(),
    decreases inc.len(),
{
    let k = inc[d].key();
    let rest = inc.drop_first();
    let next = upsert_one(cur, inc[0]);
    assert(upsert_all(cur, inc) == upsert_all(next, rest));
    if d == 0 {
        let f = |e: T| e.key() != inc[0].key();
        assert(next == cur.filter(f));
        assert forall|j: int| 0 <= j < next.len() implies (#[trigger] next[j]).key() != k by {
            cur.lemma_filter_pred(f, j);
        }
        assert forall|l: int| 0 <= l < rest.len() implies (#[trigger] rest[l]).key() != k by {
            assert(rest[l] == inc[l + 1]);
        }
        lemma_upsert_all_keeps_absent(next, rest, k);
    } else {
        assert(rest[d - 1] == inc[d]);
        assert forall|l: int| d - 1 < l < rest.len() implies (#[trigger] rest[l]).key() != rest[d - 1].key() by {
            assert(rest[l] == inc[l + 1]);
        }
        lemma_deleted_stays_gone(next, rest, d - 1);
    }
}

/// A delta sync drops what it deletes: a task, label, section or other
/// record that the delta marks deleted, and does not send again later in
/// the same delta, is no longer in the merged list. A full sync keeps no
/// deleted record at all.
pub proof fn law_delta_drops_deleted<T: Keyed>(full: bool, old: Seq<T>, new: Seq<T>, inc: Vec<T>)
    requires
        list_merged(full, old, new, Some(inc)),
    ensures
        !full ==> forall|d: int, j: int|
            0 <= d < inc@.len() && inc@[d].gone() && (forall|l: int|
                d < l < inc@.len() ==> (#[trigger] inc@[l]).key() != inc@[d].key()) && 0 <= j < new.len()
                ==> (#[trigger] new[j]).key() != #[trigger] inc@[d].key(),
        full ==> forall|j: int| 0 <= j < new.len() ==> !(#[trigger] new[j]).gone(),
{
    if full {
        assert forall|j: int| 0 <= j < new.len() implies !(#[trigger] new[j]).gone() by {
            inc@.lemma_filter_pred(|e: T| !e.gone(), j);
        }
    } else {
        assert forall|d: int, j: int|
            0 <= d < inc@.len() && inc@[d].gone() && (forall|l: int|
                d < l < inc@.len() ==> (#[trigger] inc@[l]).key() != inc@[d].key()) && 0 <= j < new.len()
                implies (#[trigger] new[j]).key() != #[trigger] inc@[d].key() by {
            lemma_deleted_stays_gone(old, inc@, d);
        }
    }
}

/// With the Priority sort, the project view lists its top-level tasks
/// highest priority first: of any two listed, the earlier one's priority is
/// at least the later one's.
pub proof fn law_priority_sort_highest_first(app: App, c: Clock)
    requires
        app.nav.sort_mode == SortMode::Priority,
    ensures
        ({
            let tasks = app.data.tasks@;
            let top = sorted_rows(top_desc(app), top_keys(app), top_keeps(app, c));
            forall|a: int, b: int|
                0 <= a < b < top.len() ==> top[a] < tasks.len() && top[b] < tasks.len()
                    && tasks[#[trigger] top[a] as int].priority >= tasks[#[trigger] top[b] as int].priority
        }),
{
    let tasks = app.data.tasks@;
    assert(tasks.len() == app.data.tasks.len());
    lemma_sorted_rows_sorted(top_desc(app), top_keys(app), top_keeps(app, c));
}

/// A project is pinned in the sidebar: the Inbox or a favourite.
pub open spec fn pinned(p: Project) -> bool {
    p.spec_is_inbox() || p.is_favorite
}

/// The sidebar lists the children of any project (or the top level, for
/// `None`) pinned ones first: of two siblings, a pinned one never follows
/// one that is neither Inbox nor favourite.
pub proof fn law_pinned_projects_first(all: Seq<Project>, parent: Option<Seq<char>>)
    requires
        all.len() <= usize::MAX,
    ensures
        ({
            let sib = sorted_rows(false, pin_keys(all), child_of(all, parent));
            forall|a: int, b: int|
                0 <= a < b < sib.len() ==> sib[a] < all.len() && sib[b] < all.len() && (pinned(
                    all[#[trigger] sib[b] as int],
                ) ==> pinned(all[#[trigger] sib[a] as int])) && (pinned(all[sib[a] as int]) == pinned(
                    all[sib[b] as int],
                ) ==> all[sib[a] as int].child_order <= all[sib[b] as int].child_order)
        }),
{
    lemma_sorted_rows_sorted(false, pin_keys(all), child_of(all, parent));
}

/// A sync that applies a delta (not a full snapshot) drops the tasks it
/// deletes: after `apply_sync_delta_on`, no task carries the id of a task
/// that the delta marks deleted and does not send again later in it. The
/// same holds of labels and sections.
pub proof fn law_sync_drops_deleted_tasks(
    old: App,
    mid: App,
    mid2: App,
    new: App,
    resp: SyncResponse,
    open: Option<Seq<char>>,
    now_secs: i64,
    c: Clock,
)
    requires
        !resp.full_sync,
        lists_merged(old, mid, resp),
        notes_merged(mid, mid2, resp.full_sync, resp.notes, open),
        sync_finished(mid2, new, resp.sync_token@, now_secs, c),
    ensures
        resp.items matches Some(v) ==> forall|d: int, j: int|
            0 <= d < v@.len() && v@[d].is_deleted && (forall|l: int|
                d < l < v@.len() ==> (#[trigger] v@[l]).id@ != v@[d].id@) && 0 <= j < new.data.tasks@.len()
                ==> (#[trigger] new.data.tasks@[j]).id@ != #[trigger] v@[d].id@,
        resp.labels matches Some(v) ==> forall|d: int, j: int|
            0 <= d < v@.len() && v@[d].gone() && (forall|l: int|
                d < l < v@.len() ==> (#[trigger] v@[l]).key() != v@[d].key()) && 0 <= j < new.data.labels@.len()
                ==> (#[trigger] new.data.labels@[j]).key() != #[trigger] v@[d].key(),
        resp.sections matches Some(v) ==> forall|d: int, j: int|
            0 <= d < v@.len() && v@[d].gone() && (forall|l: int|
                d < l < v@.len() ==> (#[trigger] v@[l]).key() != v@[d].key()) && 0 <= j < new.data.sections@.len()
                ==> (#[trigger] new.data.sections@[j]).key() != #[trigger] v@[d].key(),
{
    assert(new.data.tasks == mid.data.tasks);
    assert(new.data.labels == mid.data.labels);
    assert(new.data.sections == mid.data.sections);
    if let Some(v) = resp.items {
        law_delta_drops_deleted(false, old.data.tasks@, mid.data.tasks@, v);
        assert forall|d: int, j: int|
            0 <= d < v@.len() && v@[d].is_deleted && (forall|l: int|
                d < l < v@.len() ==> (#[trigger] v@[l]).id@ != v@[d].id@) && 0 <= j < new.data.tasks@.len()
                implies (#[trigger] new.data.tasks@[j]).id@ != #[trigger] v@[d].id@ by {
            assert(v@[d].gone());
            assert forall|l: int| d < l < v@.len() implies (#[trigger] v@[l]).key() != v@[d].key() by {
                assert(v@[l].id@ != v@[d].id@);
            }
            assert(new.data.tasks@[j].key() != v@[d].key());
        }
    }
    if let Some(v) = resp.labels {
        law_delta_drops_deleted(false, old.data.labels@, mid.data.labels@, v);
    }
    if let Some(v) = resp.sections {
        law_delta_drops_deleted(false, old.data.sections@, mid.data.sections@, v);
    }
}

/// The task index of a row of a loaded task.
pub open spec fn live_index(r: TaskRow) -> usize {
    match r {
        TaskRow::Live(i) => i,
        TaskRow::Cached(_, k) => k,
    }
}

/// Row `r` is a loaded top-level task.
pub open spec fn top_live(tasks: Seq<Task>, r: TaskRow) -> bool {
    r matches TaskRow::Live(i) && i < tasks.len() && tasks[i as int].parent_id is None
}

proof fn lemma_children_nested(tasks: Seq<Task>, folded: Set<Seq<char>>, done: bool, pid: Seq<char>, fuel: nat)
    requires
        tasks.len() <= usize::MAX,
    ensures
        forall|x: int|
            0 <= x < children_rows(tasks, folded, done, pid, fuel).len() ==> !top_live(
                tasks,
                #[trigger] children_rows(tasks, folded, done, pid, fuel)[x],
            ),
    decreases fuel, 0nat,
{
    if fuel > 0 {
        let kids = child_list(tasks, pid, done);
        lemma_sorted_rows_sorted(false, order_keys(tasks), child_keeps(tasks, pid, done));
        assert forall|k: int| 0 <= k < kids.len() implies (#[trigger] kids[k]) < tasks.len()
            && tasks[kids[k] as int].parent_id is Some by {
            assert(child_keeps(tasks, pid, done)[kids[k] as int]);
        }
        lemma_rows_nested(tasks, folded, done, kids, (fuel - 1) as nat);
        assert(children_rows(tasks, folded, done, pid, fuel) == rows_of(tasks, folded, done, kids, (fuel - 1) as nat));
    }
}

proof fn lemma_rows_nested(tasks: Seq<Task>, folded: Set<Seq<char>>, done: bool, kids: Seq<usize>, fuel: nat)
    requires
        tasks.len() <= usize::MAX,
        forall|k: int| 0 <= k < kids.len() ==> (#[trigger] kids[k]) < tasks.len() && tasks[kids[k] as int].parent_id is Some,
    ensures
        forall|x: int|
            0 <= x < rows_of(tasks, folded, done, kids, fuel).len() ==> !top_live(
                tasks,
                #[trigger] rows_of(tasks, folded, done, kids, fuel)[x],
            ),
    decreases fuel, kids.len() + 1,
{
    if kids.len() > 0 {
        let k = kids[0] as int;
        let below = if k < tasks.len() && !folded.contains(tasks[k].id@) {
            children_rows(tasks, folded, done, tasks[k].id@, fuel)
        } else {
            Seq::empty()
        };
        let rest = kids.drop_first();
        let tail = rows_of(tasks, folded, done, rest, fuel);
        let r = rows_of(tasks, folded, done, kids, fuel);
        assert(r == seq![TaskRow::Live(kids[0])] + below + tail);
        if k < tasks.len() && !folded.contains(tasks[k].id@) {
            lemma_children_nested(tasks, folded, done, tasks[k].id@, fuel);
        }
        assert forall|j: int| 0 <= j < rest.len() implies (#[trigger] rest[j]) < tasks.len()
            && tasks[rest[j] as int].parent_id is Some by {
            assert(rest[j] == kids[j + 1]);
        }
        lemma_rows_nested(tasks, folded, done, rest, fuel);
        assert forall|x: int| 0 <= x < r.len() implies !top_live(tasks, #[trigger] r[x]) by {
            if x == 0 {
            } else if x < 1 + below.len() {
                assert(r[x] == below[x - 1]);
            } else {
                assert(r[x] == tail[x - 1 - below.len()]);
            }
        }
    }
}

/// In an outline of `kids`, the loaded top-level rows are rows of `kids`,
/// in the order of `kids`.
proof fn lemma_outline_tops(tasks: Seq<Task>, folded: Set<Seq<char>>, done: bool, kids: Seq<usize>, fuel: nat)
    requires
        tasks.len() <= usize::MAX,
    ensures
        ({
            let r = rows_of(tasks, folded, done, kids, fuel);
            &&& forall|x: int|
                0 <= x < r.len() && top_live(tasks, #[trigger] r[x]) ==> exists|a: int|
                    0 <= a < kids.len() && r[x] == TaskRow::Live(#[trigger] kids[a])
            &&& forall|x: int, y: int|
                0 <= x < y < r.len() && top_live(tasks, #[trigger] r[x]) && top_live(tasks, #[trigger] r[y])
                    ==> exists|a: int, b: int|
                    0 <= a < b < kids.len() && r[x] == TaskRow::Live(#[trigger] kids[a]) && r[y] == TaskRow::Live(
                        #[trigger] kids[b],
                    )
        }),
    decreases kids.len(),
{
    if kids.len() > 0 {
        let k = kids[0] as int;
        let below = if k < tasks.len() && !folded.contains(tasks[k].id@) {
            children_rows(tasks, folded, done, tasks[k].id@, fuel)
        } else {
            Seq::empty()
        };
        let rest = kids.drop_first();
        let tail = rows_of(tasks, folded, done, rest, fuel);
        let r = rows_of(tasks, folded, done, kids, fuel);
        assert(r == seq![TaskRow::Live(kids[0])] + below + tail);
        if k < tasks.len() && !folded.contains(tasks[k].id@) {
            lemma_children_nested(tasks, folded, done, tasks[k].id@, fuel);
        }
        lemma_outline_tops(tasks, folded, done, rest, fuel);
        let off = 1 + below.len();
        assert forall|x: int| 0 <= x < r.len() && top_live(tasks, #[trigger] r[x]) implies exists|a: int|
            0 <= a < kids.len() && r[x] == TaskRow::Live(#[trigger] kids[a]) by {
            if x == 0 {
                assert(r[0] == TaskRow::Live(kids[0]));
            } else if x < off {
                assert(r[x] == below[x - 1]);
            } else {
                assert(r[x] == tail[x - off]);
                let a = choose|a: int| 0 <= a < rest.len() && tail[x - off] == TaskRow::Live(#[trigger] rest[a]);
                assert(rest[a] == kids[a + 1]);
            }
        }
        assert forall|x: int, y: int|
            0 <= x < y < r.len() && top_live(tasks, #[trigger] r[x]) && top_live(tasks, #[trigger] r[y])
                implies exists|a: int, b: int|
            0 <= a < b < kids.len() && r[x] == TaskRow::Live(#[trigger] kids[a]) && r[y] == TaskRow::Live(
                #[trigger] kids[b],
            ) by {
            if 0 < y && y < off {
                assert(r[y] == below[y - 1]);
            }
            if 0 < x && x < off {
                assert(r[x] == below[x - 1]);
            }
            if x == 0 {
                assert(r[y] == tail[y - off]);
                let b = choose|b: int| 0 <= b < rest.len() && tail[y - off] == TaskRow::Live(#[trigger] rest[b]);
                assert(rest[b] == kids[b + 1]);
                assert(r[0] == TaskRow::Live(kids[0]));
            } else {
                assert(r[x] == tail[x - off]);
                assert(r[y] == tail[y - off]);
                let (a, b) = choose|a: int, b: int|
                    0 <= a < b < rest.len() && tail[x - off] == TaskRow::Live(#[trigger] rest[a])
                        && tail[y - off] == TaskRow::Live(#[trigger] rest[b]);
                assert(rest[a] == kids[a + 1]);
                assert(rest[b] == kids[b + 1]);
            }
        }
    }
}

/// With the Priority sort and the Active filter (or a stats-dock filter),
/// the project view's rows list the top-level tasks highest priority
/// first: of any two top-level task rows, the earlier one's priority is at
/// least the later one's, whatever subtasks are shown between them.
pub proof fn law_priority_rows_highest_first(app: App, c: Clock)
    requires
        app.nav.sort_mode == SortMode::Priority,
        !app.views.today_view_active,
        !app.views.upcoming_view_active,
        app.nav.dock_filter is Some || app.nav.task_filter == TaskFilter::Active,
    ensures
        ({
            let tasks = app.data.tasks@;
            let rows = visible_rows(app, c);
            forall|x: int, y: int|
                0 <= x < y < rows.len() && top_live(tasks, #[trigger] rows[x]) && top_live(tasks, #[trigger] rows[y])
                    ==> tasks[live_index(rows[x]) as int].priority >= tasks[live_index(rows[y]) as int].priority
        }),
{
    let tasks = app.data.tasks@;
    assert(tasks.len() == app.data.tasks.len());
    let rows = visible_rows(app, c);
    let top = sorted_rows(top_desc(app), top_keys(app), top_keeps(app, c));
    law_priority_sort_highest_first(app, c);
    if app.nav.dock_filter is Some {
        assert(rows == live_rows(top));
        assert forall|x: int, y: int|
            0 <= x < y < rows.len() && top_live(tasks, #[trigger] rows[x]) && top_live(tasks, #[trigger] rows[y])
                implies tasks[live_index(rows[x]) as int].priority >= tasks[live_index(rows[y]) as int].priority by {
            assert(rows[x] == TaskRow::Live(top[x]));
            assert(rows[y] == TaskRow::Live(top[y]));
            assert(tasks[top[x] as int].priority >= tasks[top[y] as int].priority);
        }
    } else {
        let folded = str_set(app.nav.collapsed@);
        let done = app.nav.task_filter == TaskFilter::Done;
        assert(rows == rows_of(tasks, folded, done, top, tasks.len() as nat));
        lemma_outline_tops(tasks, folded, done, top, tasks.len() as nat);
        assert forall|x: int, y: int|
            0 <= x < y < rows.len() && top_live(tasks, #[trigger] rows[x]) && top_live(tasks, #[trigger] rows[y])
                implies tasks[live_index(rows[x]) as int].priority >= tasks[live_index(rows[y]) as int].priority by {
            let (a, b) = choose|a: int, b: int|
                0 <= a < b < top.len() && rows[x] == TaskRow::Live(#[trigger] top[a]) && rows[y] == TaskRow::Live(
                    #[trigger] top[b],
                );
            assert(tasks[top[a] as int].priority >= tasks[top[b] as int].priority);
        }
    }
}

proof fn lemma_subtree_nested(all: Seq<Project>, pid: Seq<char>, fuel: nat)
    requires
        all.len() <= usize::MAX,
    ensures
        forall|x: int|
            0 <= x < subtree(all, Some(pid), fuel).len() ==> (#[trigger] subtree(all, Some(pid), fuel)[x]).parent_id is Some,
    decreases fuel, 0nat,
{
    if fuel > 0 {
        let kids = sorted_rows(false, pin_keys(all), child_of(all, Some(pid)));
        lemma_sorted_rows_sorted(false, pin_keys(all), child_of(all, Some(pid)));
        assert forall|k: int| 0 <= k < kids.len() implies (#[trigger] kids[k]) < all.len()
            && all[kids[k] as int].parent_id is Some by {
            assert(child_of(all, Some(pid))[kids[k] as int]);
        }
        lemma_proj_nested(all, kids, (fuel - 1) as nat);
        assert(subtree(all, Some(pid), fuel) == proj_rows(all, kids, (fuel - 1) as nat));
    }
}

proof fn lemma_proj_nested(all: Seq<Project>, kids: Seq<usize>, fuel: nat)
    requires
        all.len() <= usize::MAX,
        forall|k: int| 0 <= k < kids.len() ==> (#[trigger] kids[k]) < all.len() && all[kids[k] as int].parent_id is Some,
    ensures
        forall|x: int| 0 <= x < proj_rows(all, kids, fuel).len() ==> (#[trigger] proj_rows(all, kids, fuel)[x]).parent_id is Some,
    decreases fuel, kids.len() + 1,
{
    if kids.len() > 0 {
        let k = kids[0] as int;
        let below = subtree(all, Some(all[k].id@), fuel);
        let rest = kids.drop_first();
        let tail = proj_rows(all, rest, fuel);
        let r = proj_rows(all, kids, fuel);
        assert(r == seq![all[k]] + below + tail);
        lemma_subtree_nested(all, all[k].id@, fuel);
        assert forall|j: int| 0 <= j < rest.len() implies (#[trigger] rest[j]) < all.len()
            && all[rest[j] as int].parent_id is Some by {
            assert(rest[j] == kids[j + 1]);
        }
        lemma_proj_nested(all, rest, fuel);
        assert forall|x: int| 0 <= x < r.len() implies (#[trigger] r[x]).parent_id is Some by {
            if x == 0 {
            } else if x < 1 + below.len() {
                assert(r[x] == below[x - 1]);
            } else {
                assert(r[x] == tail[x - 1 - below.len()]);
            }
        }
    }
}

proof fn lemma_proj_tops(all: Seq<Project>, kids: Seq<usize>, fuel: nat)
    requires
        all.len() <= usize::MAX,
        forall|k: int| 0 <= k < kids.len() ==> (#[trigger] kids[k]) < all.len(),
    ensures
        ({
            let r = proj_rows(all, kids, fuel);
            &&& forall|x: int|
                0 <= x < r.len() && (#[trigger] r[x]).parent_id is None ==> exists|a: int|
                    0 <= a < kids.len() && r[x] == all[#[trigger] kids[a] as int]
            &&& forall|x: int, y: int|
                0 <= x < y < r.len() && (#[trigger] r[x]).parent_id is None && (#[trigger] r[y]).parent_id is None
                    ==> exists|a: int, b: int|
                    0 <= a < b < kids.len() && r[x] == all[#[trigger] kids[a] as int] && r[y] == all[#[trigger] kids[b] as int]
        }),
    decreases kids.len(),
{
    if kids.len() > 0 {
        let k = kids[0] as int;
        let below = subtree(all, Some(all[k].id@), fuel);
        let rest = kids.drop_first();
        let tail = proj_rows(all, rest, fuel);
        let r = proj_rows(all, kids, fuel);
        assert(r == seq![all[k]] + below + tail);
        lemma_subtree_nested(all, all[k].id@, fuel);
        assert forall|j: int| 0 <= j < rest.len() implies (#[trigger] rest[j]) < all.len() by {
            assert(rest[j] == kids[j + 1]);
        }
        lemma_proj_tops(all, rest, fuel);
        let off = 1 + below.len();
        assert forall|x: int| 0 <= x < r.len() && (#[trigger] r[x]).parent_id is None implies exists|a: int|
            0 <= a < kids.len() && r[x] == all[#[trigger] kids[a] as int] by {
            if x == 0 {
                assert(r[0] == all[kids[0] as int]);
            } else if x < off {
                assert(r[x] == below[x - 1]);
            } else {
                assert(r[x] == tail[x - off]);
                let a = choose|a: int| 0 <= a < rest.len() && tail[x - off] == all[#[trigger] rest[a] as int];
                assert(rest[a] == kids[a + 1]);
            }
        }
        assert forall|x: int, y: int|
            0 <= x < y < r.len() && (#[trigger] r[x]).parent_id is None && (#[trigger] r[y]).parent_id is None
                implies exists|a: int, b: int|
            0 <= a < b < kids.len() && r[x] == all[#[trigger] kids[a] as int] && r[y] == all[#[trigger] kids[b] as int] by {
            if 0 < y && y < off {
                assert(r[y] == below[y - 1]);
            }
            if 0 < x && x < off {
                assert(r[x] == below[x - 1]);
            }
            if x == 0 {
                assert(r[y] == tail[y - off]);
                let b = choose|b: int| 0 <= b < rest.len() && tail[y - off] == all[#[trigger] rest[b] as int];
                assert(rest[b] == kids[b + 1]);
                assert(r[0] == all[kids[0] as int]);
            } else {
                assert(r[x] == tail[x - off]);
                assert(r[y] == tail[y - off]);
                let (a, b) = choose|a: int, b: int|
                    0 <= a < b < rest.len() && tail[x - off] == all[#[trigger] rest[a] as int]
                        && tail[y - off] == all[#[trigger] rest[b] as int];
                assert(rest[a] == kids[a + 1]);
                assert(rest[b] == kids[b + 1]);
            }
        }
    }
}

/// The sidebar lists top-level projects pinned first: in the outline of a
/// project list (the personal block, a workspace's block or a folder's),
/// of any two top-level projects a pinned one (Inbox or favourite) never
/// follows one that is neither.
pub proof fn law_sidebar_pins_top_level_first(all: Seq<Project>, fuel: nat)
    requires
        all.len() <= usize::MAX,
    ensures
        ({
            let out = subtree(all, None, fuel);
            forall|x: int, y: int|
                0 <= x < y < out.len() && (#[trigger] out[x]).parent_id is None && (#[trigger] out[y]).parent_id is None
                    ==> (pinned(out[y]) ==> pinned(out[x]))
        }),
{
    let out = subtree(all, None, fuel);
    if fuel > 0 {
        let kids = sorted_rows(false, pin_keys(all), child_of(all, None));
        lemma_sorted_rows_sorted(false, pin_keys(all), child_of(all, None));
        law_pinned_projects_first(all, None);
        assert(out == proj_rows(all, kids, (fuel - 1) as nat));
        lemma_proj_tops(all, kids, (fuel - 1) as nat);
        assert forall|x: int, y: int|
            0 <= x < y < out.len() && (#[trigger] out[x]).parent_id is None && (#[trigger] out[y]).parent_id is None
                implies (pinned(out[y]) ==> pinned(out[x])) by {
            let (a, b) = choose|a: int, b: int|
                0 <= a < b < kids.len() && out[x] == all[#[trigger] kids[a] as int] && out[y] == all[#[trigger] kids[b] as int];
        }
    }
}

/// When `added` was set: the text, or empty.
pub open spec fn added_text(t: Task) -> Seq<char> {
    match t.added_at {
        Some(a) => a@,
        None => ""@,
    }
}

/// The project view's other sort modes, over the top-level tasks it lists
/// (earlier index `a`, later `b`): by due date, earliest first with
/// undated tasks last; by creation, newest first; by default, section
/// order then `child_order` (with a stats-dock filter, `child_order`).
pub proof fn law_project_sort_orders(app: App, c: Clock)
    ensures
        ({
            let tasks = app.data.tasks@;
            let top = sorted_rows(top_desc(app), top_keys(app), top_keeps(app, c));
            forall|a: int, b: int|
                0 <= a < b < top.len() ==> ({
                    let ti = tasks[#[trigger] top[a] as int];
                    let tj = tasks[#[trigger] top[b] as int];
                    &&& top[a] < tasks.len() && top[b] < tasks.len()
                    &&& app.nav.sort_mode == SortMode::DueDate ==> lex_le(date_or(ti, "9999"@), date_or(tj, "9999"@))
                    &&& app.nav.sort_mode == SortMode::Created ==> lex_le(added_text(tj), added_text(ti))
                    &&& (app.nav.sort_mode == SortMode::Default && app.nav.dock_filter is None) ==> (section_rank(
                        app.data.sections@,
                        ti.section_id,
                    ) < section_rank(app.data.sections@, tj.section_id) || (section_rank(
                        app.data.sections@,
                        ti.section_id,
                    ) == section_rank(app.data.sections@, tj.section_id) && ti.child_order <= tj.child_order))
                    &&& (app.nav.sort_mode == SortMode::Default && app.nav.dock_filter is Some) ==> ti.child_order
                        <= tj.child_order
                })
        }),
{
    let tasks = app.data.tasks@;
    assert(tasks.len() == app.data.tasks.len());
    lemma_sorted_rows_sorted(top_desc(app), top_keys(app), top_keeps(app, c));
}

/// The Today and Upcoming views list their tasks by due date (overdue,
/// oldest first, before today's), then by project, then by creation order
/// (`child_order`).
pub proof fn law_day_views_order(app: App, c: Clock)
    ensures
        ({
            let tasks = app.data.tasks@;
            let td = sorted_rows(false, today_keys(tasks), today_keeps(app, c));
            let up = sorted_rows(false, upcoming_keys(tasks), upcoming_keeps(app));
            &&& forall|a: int, b: int|
                0 <= a < b < td.len() ==> day_order(tasks[#[trigger] td[a] as int], tasks[#[trigger] td[b] as int])
            &&& forall|a: int, b: int|
                0 <= a < b < up.len() ==> day_order(tasks[#[trigger] up[a] as int], tasks[#[trigger] up[b] as int])
        }),
{
    let tasks = app.data.tasks@;
    assert(tasks.len() == app.data.tasks.len());
    lemma_sorted_rows_sorted(false, today_keys(tasks), today_keeps(app, c));
    lemma_sorted_rows_sorted(false, upcoming_keys(tasks), upcoming_keeps(app));
}

/// `s` may be listed before `t` in a day view: an earlier due date; or
/// the same date and an earlier project id; or both the same and a lower
/// `child_order`.
pub open spec fn day_order(s: Task, t: Task) -> bool {
    let ds = date_or(s, ""@);
    let dt = date_or(t, ""@);
    &&& lex_le(ds, dt)
    &&& ds == dt ==> lex_le(s.project_id@, t.project_id@)
    &&& (ds == dt && s.project_id@ == t.project_id@) ==> s.child_order <= t.child_order
}

proof fn lemma_upsert_keeps_present<T: Keyed>(cur: Seq<T>, x: T, y: T)
    requires
        cur.contains(y),
        x.key() != y.key(),
    ensures
        upsert_one(cur, x).contains(y),
{
    let p = choose|p: int| 0 <= p < cur.len() && cur[p] == y;
    if x.gone() {
        let f = |e: T| e.key() != x.key();
        cur.lemma_filter_contains(f, p);
    } else if exists|j: int| first_key_at(cur, x.key(), j) {
        let q = choose|j: int| first_key_at(cur, x.key(), j);
        assert(q != p);
        assert(upsert_one(cur, x)[p] == y);
    } else {
        assert(upsert_one(cur, x)[p] == y);
    }
}

proof fn lemma_upsert_all_keeps_present<T: Keyed>(cur: Seq<T>, inc: Seq<T>, y: T)
    requires
        cur.contains(y),
        forall|l: int| 0 <= l < inc.len() ==> (#[trigger] inc[l]).key() != y.key(),
    ensures
        upsert_all(cur, inc).contains(y),
    decreases inc.len(),
{
    if inc.len() > 0 {
        lemma_upsert_keeps_present(cur, inc[0], y);
        let rest = inc.drop_first();
        assert(upsert_all(cur, inc) == upsert_all(upsert_one(cur, inc[0]), rest));
        assert forall|l: int| 0 <= l < rest.len() implies (#[trigger] rest[l]).key() != y.key() by {
            assert(rest[l] == inc[l + 1]);
        }
        lemma_upsert_all_keeps_present(upsert_one(cur, inc[0]), rest, y);
    }
}

proof fn lemma_sent_is_kept<T: Keyed>(cur: Seq<T>, inc: Seq<T>, d: int)
    requires
        0 <= d < inc.len(),
        !inc[d].gone(),
        forall|l: int| d < l < inc.len() ==> (#[trigger] inc[l]).key() != inc[d].key(),
    ensures
        upsert_all(cur, inc).contains(inc[d]),
    decreases inc.len(),
{
    let rest = inc.drop_first();
    let next = upsert_one(cur, inc[0]);
    assert(upsert_all(cur, inc) == upsert_all(next, rest));
    if d == 0 {
        let x = inc[0];
        if exists|j: int| first_key_at(cur, x.key(), j) {
            let q = choose|j: int| first_key_at(cur, x.key(), j);
            assert(next[q] == x);
        } else {
            assert(next[cur.len() as int] == x);
        }
        assert forall|l: int| 0 <= l < rest.len() implies (#[trigger] rest[l]).key() != x.key() by {
            assert(rest[l] == inc[l + 1]);
        }
        lemma_upsert_all_keeps_present(next, rest, x);
    } else {
        assert(rest[d - 1] == inc[d]);
        assert forall|l: int| d - 1 < l < rest.len() implies (#[trigger] rest[l]).key() != rest[d - 1].key() by {
            assert(rest[l] == inc[l + 1]);
        }
        lemma_sent_is_kept(next, rest, d - 1);
    }
}

/// A sync keeps what it sends: the last record a delta sends for an id,
/// when it is not a deletion, is in the merged list as sent; a full sync
/// keeps every record it sends that is not deleted.
pub proof fn law_sync_keeps_sent<T: Keyed>(full: bool, old: Seq<T>, new: Seq<T>, inc: Vec<T>)
    requires
        list_merged(full, old, new, Some(inc)),
    ensures
        forall|d: int|
            0 <= d < inc@.len() && !inc@[d].gone() && (full || forall|l: int|
                d < l < inc@.len() ==> (#[trigger] inc@[l]).key() != inc@[d].key()) ==> new.contains(
                #[trigger] inc@[d],
            ),
{
    assert forall|d: int|
        0 <= d < inc@.len() && !inc@[d].gone() && (full || forall|l: int|
            d < l < inc@.len() ==> (#[trigger] inc@[l]).key() != inc@[d].key()) implies new.contains(
            #[trigger] inc@[d],
        ) by {
        if full {
            inc@.lemma_filter_contains(|e: T| !e.gone(), d);
        } else {
            lemma_sent_is_kept(old, inc@, d);
        }
    }
}

} // verus!
