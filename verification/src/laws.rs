//! Properties that span the library's operations: cycles that come back
//! to their start, changes that a later step undoes, counters that only
//! move one way within a day, and orders the lists keep.
use vstd::prelude::*;

use crate::app::{sort_mode_next, str_set, task_filter_next, App, Data, ProjectEntry, SortMode, TaskFilter};
use crate::app::opt_view;
use crate::projects::{entries_from, group_headers, inbox_extras, project_entries};
use crate::counters::{idle_at, rolled, sat_inc};
use crate::delta::{upsert_one, first_key_at, CommandStatus, Keyed};
use crate::edit::{completes, form_down, form_up};
use crate::events::{renamed_step, reverted, tasks_reverted};
use crate::model::{same_task, Project, Task};
use crate::poll::{poll_outcome, woken, Wake};
use crate::sync::OptimisticOp;
use crate::tasks::first_with_id;

verus! {

/// Moving the task filter on three times comes back to where it started.
pub proof fn law_task_filter_cycles(f: TaskFilter)
    ensures
        task_filter_next(task_filter_next(task_filter_next(f))) == f,
        task_filter_next(f) != f,
{
}

/// Moving the sort order on four times comes back to where it started,
/// passing through every mode.
pub proof fn law_sort_mode_cycles(m: SortMode)
    ensures
        sort_mode_next(sort_mode_next(sort_mode_next(sort_mode_next(m)))) == m,
        sort_mode_next(m) != m,
        sort_mode_next(sort_mode_next(m)) != m,
        sort_mode_next(sort_mode_next(sort_mode_next(m))) != m,
{
}

/// In the add-task form, moving up undoes moving down and the other way
/// round, over its four fields.
pub proof fn law_form_moves_undo(i: usize)
    requires
        i < 4,
    ensures
        form_up(form_down(i)) == i,
        form_down(form_up(i)) == i,
        form_up(i) < 4 && form_down(i) < 4,
{
}

/// Entering any view leaves at most one virtual view active: exactly the
/// one entered, or none for a project's own tasks.
pub proof fn law_one_view_at_a_time(old: App, new: App, start: bool)
    requires
        App::activate_all_view_effect(old, new) || App::activate_today_view_effect(old, new)
            || App::activate_upcoming_view_effect(old, new) || App::activate_jira_cards_view_effect(
            old,
            new,
            start,
        ) || App::activate_agenda_view_effect(old, new, start) || App::switch_to_project_tasks_effect(old, new),
    ensures
        new.views.active_count() <= 1,
        !App::switch_to_project_tasks_effect(old, new) ==> new.views.active_count() == 1,
{
}

/// Completing a task on `today` when the jar already counts today never
/// shrinks the jar and adds at most one star.
pub proof fn law_star_jar_grows_by_at_most_one(old: App, new: App, id: Seq<char>, i: int, today: Seq<char>, ns: u32)
    requires
        0 <= i < old.data.tasks@.len(),
        completes(old, new, id, i, today, ns),
        old.counters.star_date@ == today,
    ensures
        old.counters.star_count <= new.counters.star_count <= old.counters.star_count + 1,
        new.counters.star_date@ == today,
{
}

/// Reopening a done task takes no star back.
pub proof fn law_reopen_keeps_stars(old: App, new: App, id: Seq<char>, i: int, today: Seq<char>, ns: u32)
    requires
        0 <= i < old.data.tasks@.len(),
        completes(old, new, id, i, today, ns),
        old.data.tasks@[i].checked,
    ensures
        new.counters.star_count == old.counters.star_count,
        new.counters.star_date@ == old.counters.star_date@,
{
}

/// The first completion on a new day starts the jar again at one star.
pub proof fn law_star_jar_restarts_each_day(old: App, new: App, id: Seq<char>, i: int, today: Seq<char>, ns: u32)
    requires
        0 <= i < old.data.tasks@.len(),
        completes(old, new, id, i, today, ns),
        !old.data.tasks@[i].checked,
        old.counters.star_date@ != today,
    ensures
        new.counters.star_count == 1,
        new.counters.star_date@ == today,
{
}

/// Completing an open recurring task leaves it on the list untouched
/// (the server moves its due date) and hides it until the close lands.
pub proof fn law_recurring_complete_keeps_task(old: App, new: App, id: Seq<char>, i: int, today: Seq<char>, ns: u32)
    requires
        0 <= i < old.data.tasks@.len(),
        completes(old, new, id, i, today, ns),
        !old.data.tasks@[i].checked,
        old.data.tasks@[i].due matches Some(d) && d.is_recurring,
    ensures
        new.data.tasks@ == old.data.tasks@,
        str_set(new.pending.pending_close_recurring@).contains(id),
{
}

/// Completing any other task flips its done mark and nothing else of the
/// task list.
pub proof fn law_complete_flips_checked(old: App, new: App, id: Seq<char>, i: int, today: Seq<char>, ns: u32)
    requires
        0 <= i < old.data.tasks@.len(),
        completes(old, new, id, i, today, ns),
        old.data.tasks@[i].checked || !(old.data.tasks@[i].due matches Some(d) && d.is_recurring),
    ensures
        new.data.tasks@.len() == old.data.tasks@.len(),
        new.data.tasks@[i].checked == !old.data.tasks@[i].checked,
        forall|j: int| 0 <= j < old.data.tasks@.len() && j != i ==> new.data.tasks@[j] == old.data.tasks@[j],
{
}

/// Undoing the change of a completion the server rejected gives back the
/// task list from before the completion.
pub proof fn law_rejected_complete_is_undone(
    a: App,
    b: App,
    c: App,
    id: Seq<char>,
    i: int,
    today: Seq<char>,
    ns: u32,
    clock: crate::tasks::Clock,
)
    requires
        0 <= i < a.data.tasks@.len(),
        first_with_id(a.data.tasks@, id) == Some(i),
        completes(a, b, id, i, today, ns),
        reverted(b, c, b.pending.temp_id_pending@.last().1, clock),
    ensures
        c.data.tasks@.len() == a.data.tasks@.len(),
        forall|j: int| 0 <= j < a.data.tasks@.len() ==> same_task(#[trigger] c.data.tasks@[j], a.data.tasks@[j]),
{
    let ta = a.data.tasks@;
    let tb = b.data.tasks@;
    assert(first_with_id(tb, id) == Some(i)) by {
        let k = choose|k: int| crate::tasks::first_id_at(tb, id, k);
        assert(crate::tasks::first_id_at(ta, id, i));
        assert(crate::tasks::first_id_at(tb, id, i)) by {
            assert forall|j: int| 0 <= j < i implies tb[j].id@ != id by {
                assert(tb[j] == ta[j] || tb[j].id == ta[j].id);
            }
            assert(tb[i].id == ta[i].id);
        }
        if crate::tasks::first_id_at(tb, id, k) {
            if k < i {
                assert(tb[k].id@ != id);
            } else if k > i {
                assert(tb[i].id@ != id);
            }
        }
    }
    assert forall|j: int| 0 <= j < ta.len() implies same_task(#[trigger] c.data.tasks@[j], ta[j]) by {
        if j == i {
            let t = ta[i];
            assert(same_task(t, t));
        } else {
            assert(same_task(ta[j], ta[j]));
        }
    }
}

/// Undoing an added task removes every task under its temporary id;
/// undoing a deletion brings the task back.
pub proof fn law_revert_add_and_delete(old: Seq<Task>, new: Seq<Task>, op: OptimisticOp)
    requires
        tasks_reverted(old, new, op),
    ensures
        op matches OptimisticOp::TaskAdded { temp_id } ==> forall|j: int|
            0 <= j < new.len() ==> (#[trigger] new[j]).id@ != temp_id@,
        op matches OptimisticOp::TaskRemoved { snapshot } ==> new.len() > 0 && new.last() == snapshot,
{
    if let OptimisticOp::TaskAdded { temp_id } = op {
        assert forall|j: int| 0 <= j < new.len() implies (#[trigger] new[j]).id@ != temp_id@ by {
            old.lemma_filter_pred(|e: Task| e.key() != temp_id@, j);
        }
    }
}

/// After the server's id replaced a temporary one, no comment keeps the
/// temporary id, and a renamed task carries the new id.
pub proof fn law_temp_ids_replaced(a: App, b: App, temp_id: Seq<char>, real_id: Seq<char>)
    requires
        renamed_step(a, b, temp_id, real_id),
        temp_id != real_id,
    ensures
        forall|j: int| 0 <= j < b.data.comments@.len() ==> (#[trigger] b.data.comments@[j]).id@ != temp_id,
        first_with_id(a.data.tasks@, temp_id) matches Some(i) ==> b.data.tasks@[i].id@ == real_id,
{
    assert forall|j: int| 0 <= j < b.data.comments@.len() implies (#[trigger] b.data.comments@[j]).id@
        != temp_id by {
        assert(crate::events::comment_renamed(a.data.comments@[j], b.data.comments@[j], temp_id, real_id));
    }
}

/// Applying the same delta record twice is the same as applying it once.
pub proof fn law_upsert_idempotent<T: Keyed>(s: Seq<T>, x: T)
    ensures
        upsert_one(upsert_one(s, x), x) == upsert_one(s, x),
{
    let once = upsert_one(s, x);
    if x.gone() {
        let f = |e: T| e.key() != x.key();
        assert(once == s.filter(f));
        assert forall|j: int| 0 <= j < once.len() implies f(#[trigger] once[j]) by {
            s.lemma_filter_pred(f, j);
        }
        lemma_filter_keeps_all(once, f);
    } else if exists|j: int| first_key_at(s, x.key(), j) {
        let j = choose|j: int| first_key_at(s, x.key(), j);
        assert(first_key_at(once, x.key(), j));
        let j2 = choose|q: int| first_key_at(once, x.key(), q);
        if j2 < j {
            assert(once[j2] == s[j2]);
        } else if j2 > j {
            assert(once[j].key() == x.key());
        }
        assert(once.update(j, x) =~= once);
    } else {
        let n = s.len() as int;
        assert(first_key_at(once, x.key(), n)) by {
            assert forall|q: int| 0 <= q < n implies once[q].key() != x.key() by {
                assert(once[q] == s[q]);
                if s[q].key() == x.key() {
                    assert forall|r: int| 0 <= r < q implies s[r].key() != x.key() by {
                        if s[r].key() == x.key() {
                            lemma_some_first_key(s, x.key(), r);
                        }
                    }
                    assert(first_key_at(s, x.key(), q));
                }
            }
        }
        let j2 = choose|q: int| first_key_at(once, x.key(), q);
        if j2 < n {
            assert(once[j2] == s[j2]);
            lemma_some_first_key(s, x.key(), j2);
        }
        assert(once.update(n, x) =~= once);
    }
}

/// Filtering keeps a sequence whose items all pass.
proof fn lemma_filter_keeps_all<T>(s: Seq<T>, f: spec_fn(T) -> bool)
    requires
        forall|j: int| 0 <= j < s.len() ==> f(#[trigger] s[j]),
    ensures
        s.filter(f) == s,
    decreases s.len(),
{
    if s.len() > 0 {
        let init = s.drop_last();
        assert forall|j: int| 0 <= j < init.len() implies f(#[trigger] init[j]) by {
            assert(init[j] == s[j]);
        }
        lemma_filter_keeps_all(init, f);
        init.lemma_filter_push(s.last(), f);
        assert(init.push(s.last()) =~= s);
    } else {
        assert(s.filter(f) =~= s) by {
            s.lemma_filter_len(f);
        }
    }
}

/// A record with key `k` at `r` means some record is the first with it.
proof fn lemma_some_first_key<T: Keyed>(s: Seq<T>, k: Seq<char>, r: int)
    requires
        0 <= r < s.len(),
        s[r].key() == k,
    ensures
        exists|j: int| first_key_at(s, k, j),
    decreases r,
{
    if exists|q: int| 0 <= q < r && s[q].key() == k {
        let q = choose|q: int| 0 <= q < r && s[q].key() == k;
        lemma_some_first_key(s, k, q);
    } else {
        assert(first_key_at(s, k, r));
    }
}

/// Starting and then stopping the pomodoro leaves the state as it was;
/// stopping a running one earns no tomato.
pub proof fn law_pomodoro_toggle_undoes(a: App, b: App, c: App, t1: u64, t2: u64)
    requires
        a.counters.pomodoro_started_at is None,
        App::toggle_pomodoro_at_effect(a, b, t1),
        App::toggle_pomodoro_at_effect(b, c, t2),
    ensures
        c == a,
        b.counters.pomodoro_started_at == Some(t1),
        c.counters.tomato_count == b.counters.tomato_count,
{
}

/// A finished pomodoro earns one tomato, once: checking again at any later
/// time changes nothing.
pub proof fn law_tomato_awarded_once(a: App, b: App, c: App, t1: u64, t2: u64, today: &str, x: bool, y: bool)
    requires
        App::maybe_award_tomato_at_effect(a, b, t1, today, x),
        App::maybe_award_tomato_at_effect(b, c, t2, today, y),
        x,
    ensures
        !y,
        c == b,
        b.counters.tomato_count == sat_inc(rolled(a.counters.tomato_count, a.counters.tomato_date@, today@)),
{
}

/// A poll never starts while its source is unavailable, already loading,
/// not yet due, or the user is idle; it is deferred only in that last case.
pub proof fn law_poll_gates(available: bool, loading: bool, due: bool, idle: bool)
    ensures
        poll_outcome(available, loading, due, idle).0 ==> available && !loading && due && !idle,
        poll_outcome(available, loading, due, idle).1 ==> available && !loading && due && idle,
        !(poll_outcome(available, loading, due, idle).0 && poll_outcome(available, loading, due, idle).1),
{
}

/// Right after a key press the user is not idle, and everything deferred
/// while idle has been released.
pub proof fn law_key_press_wakes(old: App, new: App, now: u64, w: Wake)
    requires
        woken(old, new, now, w),
    ensures
        !idle_at(new, now),
        idle_at(old, now) ==> !new.counters.pending_ws_sync && !new.external.pending_pr_poll
            && !new.external.pending_jira_poll && !new.external.pending_agenda_poll,
{
}

/// Between two dates, the number of days from `a` to `b` is minus the
/// number from `b` to `a`, and zero from a date to itself.
pub proof fn law_days_between_antisymmetric(a: Seq<char>, b: Seq<char>)
    requires
        crate::dates::date_triple(a) is Some,
        crate::dates::date_triple(b) is Some,
    ensures
        crate::dates::days_between_spec(a, b) == -crate::dates::days_between_spec(b, a),
        crate::dates::days_between_spec(a, a) == 0,
{
}

/// Once an owner is hidden, the pull-request sidebar lists none of its
/// entries, and the owner's view is left if it was open.
pub proof fn law_hidden_owner_not_listed(old: App, new: App, o: Seq<char>, r: Seq<(String, usize)>)
    requires
        o.len() > 0,
        crate::prs::hide_effect(old, new, o),
        crate::prs::owner_counts_ok(new.external.github_prs@, str_set(new.external.hidden_pr_orgs@), r),
    ensures
        forall|k: int| 0 <= k < r.len() ==> (#[trigger] r[k]).0@ != o,
        !crate::prs::opt_is(new.views.active_pr_org, o),
{
    reveal(crate::prs::hide_effect);
    assert forall|k: int| 0 <= k < r.len() implies (#[trigger] r[k]).0@ != o by {
        assert(str_set(new.external.hidden_pr_orgs@).contains(o));
    }
}

/// Merging the authored and assigned pull requests lists each address
/// once, and every address of either list.
pub proof fn law_merged_prs_unique(all: Seq<crate::model::PullRequest>, url: Seq<char>)
    ensures
        crate::sources::has_url(crate::sources::first_by_url(all), url) == crate::sources::has_url(all, url),
        forall|i: int, j: int|
            0 <= i < j < crate::sources::first_by_url(all).len() ==> (#[trigger] crate::sources::first_by_url(
                all,
            )[i]).url@ != (#[trigger] crate::sources::first_by_url(all)[j]).url@,
    decreases all.len(),
{
    crate::sources::lemma_first_by_url_urls(all, url);
    if all.len() > 0 {
        let init = all.drop_last();
        law_merged_prs_unique(init, url);
        let rest = crate::sources::first_by_url(init);
        let out = crate::sources::first_by_url(all);
        if !crate::sources::has_url(init, all.last().url@) {
            crate::sources::lemma_first_by_url_urls(init, all.last().url@);
            assert forall|i: int, j: int| 0 <= i < j < out.len() implies (#[trigger] out[i]).url@
                != (#[trigger] out[j]).url@ by {
                if j == rest.len() {
                    assert(out[i] == rest[i]);
                    assert(out[j] == all.last());
                    if rest[i].url@ == all.last().url@ {
                        assert(crate::sources::has_url(rest, all.last().url@));
                    }
                } else {
                    assert(out[i] == rest[i] && out[j] == rest[j]);
                    law_merged_prs_unique(init, url);
                }
            }
        }
    }
}

/// The blended agenda is in order of start time.
pub proof fn law_agenda_in_start_order(
    rs: Seq<Result<Vec<crate::model::CalendarEvent>, String>>,
    out: Vec<crate::model::CalendarEvent>,
)
    requires
        crate::sources::agenda_of(rs, Ok(out)),
    ensures
        forall|i: int, j: int|
            0 <= i < j < out@.len() ==> !crate::text::lex_lt((#[trigger] out@[j]).start@, (#[trigger] out@[i]).start@),
{
    let all = crate::sources::answered(rs);
    let keys = crate::sources::start_keys(all);
    let idx = choose|idx: Seq<usize>|
        #[trigger] crate::order::sorted_selection(false, keys, crate::settings::all_kept(all.len()), idx)
            && out@.len() == idx.len() && forall|k: int|
            0 <= k < idx.len() ==> crate::sources::same_event(out@[k], all[idx[k] as int]);
    assert forall|i: int, j: int| 0 <= i < j < out@.len() implies !crate::text::lex_lt(
        (#[trigger] out@[j]).start@,
        (#[trigger] out@[i]).start@,
    ) by {
        assert(crate::order::row_before(false, keys, idx[i] as int, idx[j] as int));
        assert(crate::sources::same_event(out@[i], all[idx[i] as int]));
        assert(crate::sources::same_event(out@[j], all[idx[j] as int]));
        assert(keys[idx[i] as int].0 == all[idx[i] as int].start@);
        assert(keys[idx[j] as int].0 == all[idx[j] as int].start@);
        crate::text::lemma_lex_lt_total(out@[i].start@, out@[j].start@);
    }
}

/// A sync that stays rate limited gives up after its fourth try, and its
/// base delay never passes a minute.
pub proof fn law_backoff_gives_up_on_fourth_try(
    s0: crate::todoist::RateLimitStep,
    s1: crate::todoist::RateLimitStep,
    s2: crate::todoist::RateLimitStep,
    s3: crate::todoist::RateLimitStep,
    w: Seq<Option<u64>>,
    rnd: Seq<u64>,
)
    requires
        w.len() == 4,
        rnd.len() == 4,
        crate::todoist::rate_limit_step(crate::todoist::Backoff { attempt: 0, base_delay_secs: 1 }, w[0], rnd[0], s0),
        crate::todoist::rate_limit_step(s0.next, w[1], rnd[1], s1),
        crate::todoist::rate_limit_step(s1.next, w[2], rnd[2], s2),
        crate::todoist::rate_limit_step(s2.next, w[3], rnd[3], s3),
    ensures
        !s0.give_up && !s1.give_up && !s2.give_up && s3.give_up,
        s0.next.base_delay_secs == 2 && s1.next.base_delay_secs == 4 && s2.next.base_delay_secs == 8,
        w[0] is None ==> s0.sleep_secs <= 3,
{
}

/// A day counter written to the settings file is read back unchanged on
/// the same day, and as zero on any other.
pub proof fn law_jar_survives_restart_same_day(count: u64, stored: Seq<char>, today: Seq<char>)
    ensures
        crate::settings::jar_read(Some(stored), Some(count), stored) == count,
        stored != today ==> crate::settings::jar_read(Some(stored), Some(count), today) == 0,
{
}

/// A poll interval written back is read back unchanged: what was read
/// already sits at or above its floor.
pub proof fn law_interval_round_trip(v: Option<u64>, floor: u64, default: u64)
    requires
        default >= floor,
    ensures
        crate::settings::interval_of(Some(crate::settings::interval_of(v, floor, default)), floor, default)
            == crate::settings::interval_of(v, floor, default),
{
}

/// A fetched list keeps the cursor inside it.
pub proof fn law_fetched_list_keeps_cursor(old: App, new: App, v: Vec<crate::model::PullRequest>, now: u64)
    requires
        crate::events::prs_fetched(old, new, Ok(v), now),
    ensures
        v@.len() == 0 || new.nav.selected_pr < v@.len(),
        !new.external.github_prs_loading,
{
}

/// An accepted command the client kept no change for leaves the state
/// as it was and asks for no refresh.
pub proof fn law_accepted_without_record_changes_nothing(
    old: App,
    mid: App,
    undone: App,
    new: App,
    uuid: Seq<char>,
    c: crate::tasks::Clock,
    refresh: Option<Seq<char>>,
)
    requires
        crate::events::status_applied(
            old,
            mid,
            None,
            undone,
            new,
            uuid,
            crate::delta::CommandStatus::Accepted,
            c,
            refresh,
        ),
    ensures
        new.pending.temp_id_pending@ == old.pending.temp_id_pending@,
        new == (App {
            pending: crate::app::Pending { temp_id_pending: new.pending.temp_id_pending, ..old.pending },
            ..old
        }),
        refresh is None,
{
}


/// Days from the start of the March-based year `yy` (years counted from
/// March 1 of year 0) to March 1 of year `yy`, as `civil_days` counts them.
spec fn march_start(yy: int) -> int {
    let era = yy / 400;
    let yoe = yy % 400;
    era * 146097 + yoe * 365 + yoe / 4 - yoe / 100
}

/// The March-based year `yy` has 366 days exactly when `yy + 1` is a leap
/// year (its February closes it).
proof fn lemma_march_year_length(yy: int)
    ensures
        march_start(yy + 1) - march_start(yy) == 365 + if crate::dates::leap_year(yy + 1) {
            1int
        } else {
            0int
        },
{
    let q = yy / 400;
    let r = yy % 400;
    vstd::arithmetic::div_mod::lemma_fundamental_div_mod(yy, 400);
    assert(0 <= r < 400);
    if r < 399 {
        vstd::arithmetic::div_mod::lemma_fundamental_div_mod_converse(yy + 1, 400, q, r + 1);
        let s = r + 1;
        vstd::arithmetic::div_mod::lemma_fundamental_div_mod_converse(yy + 1, 4, 100 * q + s / 4, s % 4);
        vstd::arithmetic::div_mod::lemma_fundamental_div_mod_converse(yy + 1, 100, 4 * q + s / 100, s % 100);
        assert((yy + 1) % 400 == s);
    } else {
        vstd::arithmetic::div_mod::lemma_fundamental_div_mod_converse(yy + 1, 400, q + 1, 0);
        vstd::arithmetic::div_mod::lemma_fundamental_div_mod_converse(yy + 1, 4, 100 * (q + 1), 0);
        vstd::arithmetic::div_mod::lemma_fundamental_div_mod_converse(yy + 1, 100, 4 * (q + 1), 0);
    }
}

/// Day numbers count days from 1970-01-01: the epoch is day 0, and
/// 2000-03-01 is day 11017.
pub proof fn law_civil_days_epoch()
    ensures
        crate::dates::civil_days(1970, 1, 1) == 0,
        crate::dates::civil_days(2000, 3, 1) == 11017,
{
}

/// Consecutive calendar days have consecutive day numbers.
pub proof fn law_next_date_is_next_day(y: int, m: int, d: int)
    requires
        crate::dates::valid_date(y, m, d),
    ensures
        ({
            let (y2, m2, d2) = crate::dates::next_date(y, m, d);
            crate::dates::valid_date(y2, m2, d2) && crate::dates::civil_days(y2, m2, d2)
                == crate::dates::civil_days(y, m, d) + 1
        }),
{
    let (y2, m2, d2) = crate::dates::next_date(y, m, d);
    if m == 2 && d == crate::dates::month_days(y, m) {
        lemma_march_year_length(y - 1);
        assert(crate::dates::civil_days(y, m, d) == march_start(y - 1) + 337 + d - 1 - 719468);
        assert(crate::dates::civil_days(y2, m2, d2) == march_start(y) - 719468);
    }
}


/// A completion the server rejects is rolled back in full: every task is
/// as before the key press, the change record for the command is gone,
/// and the "Command failed" popup shows the server's reason.
pub proof fn law_rejected_command_rolls_back(
    a: App,
    b: App,
    mid: App,
    undone: App,
    new: App,
    id: Seq<char>,
    i: int,
    today: Seq<char>,
    ns: u32,
    op: Option<OptimisticOp>,
    msg: Option<String>,
    clock: crate::tasks::Clock,
    refresh: Option<Seq<char>>,
)
    requires
        0 <= i < a.data.tasks@.len(),
        first_with_id(a.data.tasks@, id) == Some(i),
        completes(a, b, id, i, today, ns),
        crate::events::no_op_for(a.pending.temp_id_pending@, crate::ids::uuid_text(ns, a.counters.cmd_counter)),
        crate::events::status_applied(
            b,
            mid,
            op,
            undone,
            new,
            crate::ids::uuid_text(ns, a.counters.cmd_counter),
            CommandStatus::Error(msg),
            clock,
            refresh,
        ),
    ensures
        new.data.tasks@.len() == a.data.tasks@.len(),
        forall|j: int| 0 <= j < a.data.tasks@.len() ==> same_task(#[trigger] new.data.tasks@[j], a.data.tasks@[j]),
        new.pending.temp_id_pending@ == a.pending.temp_id_pending@,
        new.error matches Some(e) && e.title@ == "Command failed"@ && e.message@ == crate::events::rejection_text(msg)
            && e.recoverable,
        refresh is None,
{
    let uuid = crate::ids::uuid_text(ns, a.counters.cmd_counter);
    let ao = a.pending.temp_id_pending@;
    let bo = b.pending.temp_id_pending@;
    let last = bo.len() - 1;
    assert(bo.drop_last() == ao);
    assert forall|j: int| 0 <= j < last implies bo[j].0@ != uuid by {
        assert(bo[j] == ao[j]);
    }
    if op is None {
        assert(bo[last].0@ == uuid);
        assert(false);
    }
    let k = choose|k: int| crate::events::first_op_at(bo, uuid, k) && op->0 == bo[k].1
        && mid.pending.temp_id_pending@ == bo.remove(k);
    assert(k == last);
    assert(bo.remove(k) =~= ao);
    let c2 = App { data: Data { tasks: undone.data.tasks, ..b.data }, ..b };
    assert(crate::events::reverted(b, c2, bo.last().1, clock));
    law_rejected_complete_is_undone(a, b, c2, id, i, today, ns, clock);
}


/// A sidebar row that stands for a view rather than a project.
pub open spec fn virtual_entry(e: ProjectEntry) -> bool {
    ||| e is TodayView
    ||| e is UpcomingView
    ||| e is GithubPrsView
    ||| e is JiraCardsView
    ||| e is AgendaView
}

/// Row `k` of `s` is an Inbox project.
pub open spec fn inbox_row(app: App, s: Seq<ProjectEntry>, k: int) -> bool {
    s[k] matches ProjectEntry::Project(j) && j < app.data.projects@.len() && app.data.projects@[j as int].spec_is_inbox()
}

/// No All row; each Inbox row is followed by the view rows; each view row
/// lies in the block that follows an Inbox row.
spec fn no_all_row(s: Seq<ProjectEntry>) -> bool {
    forall|k: int| 0 <= k < s.len() ==> !((#[trigger] s[k]) is AllView)
}

spec fn extras_follow(app: App, x: Seq<ProjectEntry>, s: Seq<ProjectEntry>) -> bool {
    forall|k: int|
        0 <= k < s.len() && #[trigger] inbox_row(app, s, k) ==> k + 1 + x.len() <= s.len() && s.subrange(
            k + 1,
            k + 1 + x.len(),
        ) == x
}

spec fn views_placed(app: App, x: Seq<ProjectEntry>, s: Seq<ProjectEntry>) -> bool {
    forall|k: int|
        0 <= k < s.len() && virtual_entry(#[trigger] s[k]) ==> exists|k0: int|
            0 <= k0 < k && #[trigger] inbox_row(app, s, k0) && k < k0 + 1 + x.len()
}

/// No All row; each Inbox row is followed by the view rows; each view row
/// lies in the block that follows an Inbox row.
spec fn placed(app: App, owners: Seq<(String, usize)>, s: Seq<ProjectEntry>) -> bool {
    let x = inbox_extras(app, owners);
    &&& no_all_row(s)
    &&& extras_follow(app, x, s)
    &&& views_placed(app, x, s)
}

proof fn lemma_no_all_concat(a: Seq<ProjectEntry>, b: Seq<ProjectEntry>)
    requires
        no_all_row(a),
        no_all_row(b),
    ensures
        no_all_row(a + b),
{
    let s = a + b;
    assert forall|k: int| 0 <= k < s.len() implies !((#[trigger] s[k]) is AllView) by {
        if k < a.len() {
            assert(s[k] == a[k]);
        } else {
            assert(s[k] == b[k - a.len()]);
        }
    }
}

proof fn lemma_extras_concat(app: App, x: Seq<ProjectEntry>, a: Seq<ProjectEntry>, b: Seq<ProjectEntry>)
    requires
        extras_follow(app, x, a),
        extras_follow(app, x, b),
    ensures
        extras_follow(app, x, a + b),
{
    let s = a + b;
    assert forall|k: int| 0 <= k < s.len() && #[trigger] inbox_row(app, s, k) implies k + 1 + x.len() <= s.len()
        && s.subrange(k + 1, k + 1 + x.len()) == x by {
        if k < a.len() {
            assert(s[k] == a[k]);
            assert(inbox_row(app, a, k));
            assert(s.subrange(k + 1, k + 1 + x.len()) =~= a.subrange(k + 1, k + 1 + x.len()));
        } else {
            let kb = k - a.len();
            assert(s[k] == b[kb]);
            assert(inbox_row(app, b, kb));
            assert(s.subrange(k + 1, k + 1 + x.len()) =~= b.subrange(kb + 1, kb + 1 + x.len()));
        }
    }
}

proof fn lemma_views_concat(app: App, x: Seq<ProjectEntry>, a: Seq<ProjectEntry>, b: Seq<ProjectEntry>)
    requires
        views_placed(app, x, a),
        views_placed(app, x, b),
    ensures
        views_placed(app, x, a + b),
{
    let s = a + b;
    assert forall|k: int| 0 <= k < s.len() && virtual_entry(#[trigger] s[k]) implies exists|k0: int|
        0 <= k0 < k && #[trigger] inbox_row(app, s, k0) && k < k0 + 1 + x.len() by {
        if k < a.len() {
            assert(s[k] == a[k]);
            let k0 = choose|k0: int| 0 <= k0 < k && #[trigger] inbox_row(app, a, k0) && k < k0 + 1 + x.len();
            assert(s[k0] == a[k0]);
            assert(inbox_row(app, s, k0));
        } else {
            let kb = k - a.len();
            assert(s[k] == b[kb]);
            let k0 = choose|k0: int| 0 <= k0 < kb && #[trigger] inbox_row(app, b, k0) && kb < k0 + 1 + x.len();
            assert(s[k0 + a.len()] == b[k0]);
            assert(inbox_row(app, s, k0 + a.len()));
        }
    }
}

proof fn lemma_placed_concat(app: App, owners: Seq<(String, usize)>, a: Seq<ProjectEntry>, b: Seq<ProjectEntry>)
    requires
        placed(app, owners, a),
        placed(app, owners, b),
    ensures
        placed(app, owners, a + b),
{
    let x = inbox_extras(app, owners);
    lemma_no_all_concat(a, b);
    lemma_extras_concat(app, x, a, b);
    lemma_views_concat(app, x, a, b);
}

proof fn lemma_extras_rows(app: App, owners: Seq<(String, usize)>)
    ensures
        forall|k: int|
            0 <= k < inbox_extras(app, owners).len() ==> virtual_entry(#[trigger] inbox_extras(app, owners)[k]),
{
    let x = inbox_extras(app, owners);
    let a = seq![ProjectEntry::TodayView, ProjectEntry::UpcomingView];
    let pr = if app.external.gh_available {
        owners.map_values(|o: (String, usize)| ProjectEntry::GithubPrsView(o.0))
    } else {
        Seq::empty()
    };
    let jr = if app.external.acli_available {
        seq![ProjectEntry::JiraCardsView]
    } else {
        Seq::empty()
    };
    let ag = if app.external.gws_available {
        seq![ProjectEntry::AgendaView]
    } else {
        Seq::empty()
    };
    assert(x == a + pr + jr + ag);
    assert forall|k: int| 0 <= k < x.len() implies virtual_entry(#[trigger] x[k]) by {
        if k < a.len() {
        } else if k < a.len() + pr.len() {
            assert(x[k] == pr[k - a.len()]);
        } else if k < a.len() + pr.len() + jr.len() {
            assert(x[k] == jr[k - a.len() - pr.len()]);
        } else {
            assert(x[k] == ag[k - a.len() - pr.len() - jr.len()]);
        }
    }
}

proof fn lemma_headers_placed(app: App, owners: Seq<(String, usize)>, h: Seq<ProjectEntry>)
    requires
        forall|k: int|
            0 <= k < h.len() ==> (#[trigger] h[k]) is PersonalHeader || h[k] is WorkspaceHeader || h[k] is FolderHeader
                || h[k] is Separator,
    ensures
        placed(app, owners, h),
{
    assert forall|k: int| 0 <= k < h.len() && #[trigger] inbox_row(app, h, k) implies false by {
        assert(h[k] is PersonalHeader || h[k] is WorkspaceHeader || h[k] is FolderHeader || h[k] is Separator);
    }
}

proof fn lemma_entries_placed(
    app: App,
    owners: Seq<(String, usize)>,
    i: nat,
    in_personal: bool,
    last_ws: Option<Seq<char>>,
    last_folder: Option<Seq<char>>,
)
    ensures
        placed(app, owners, entries_from(app, owners, i, in_personal, last_ws, last_folder)),
    decreases app.data.projects@.len() - i,
{
    let ps = app.data.projects@;
    if i >= ps.len() {
        return;
    }
    let p = ps[i as int];
    assert(ps.len() == app.data.projects.len());
    assert((i as usize) as int == i);
    let g = group_headers(app, p, in_personal, last_ws, last_folder);
    let x = inbox_extras(app, owners);
    let folded = match opt_view(p.folder_id) {
        Some(f) => str_set(app.nav.collapsed_folders@).contains(f),
        None => false,
    };
    let body = if folded {
        Seq::empty()
    } else {
        seq![ProjectEntry::Project(i as usize)] + if p.spec_is_inbox() {
            x
        } else {
            Seq::empty()
        }
    };
    let rest = entries_from(app, owners, i + 1, g.1, g.2, g.3);
    assert(entries_from(app, owners, i, in_personal, last_ws, last_folder) == g.0 + body + rest);
    assert forall|k: int| 0 <= k < g.0.len() implies (#[trigger] g.0[k]) is PersonalHeader || g.0[k] is WorkspaceHeader
        || g.0[k] is FolderHeader || g.0[k] is Separator by {
        match opt_view(p.workspace_id) {
            None => {},
            Some(w) => {
                let new_ws = last_ws != opt_view(p.workspace_id);
                let h1 = if new_ws {
                    seq![ProjectEntry::Separator] + match crate::projects::first_ws(app.data.workspaces@, w) {
                        Some(wi) => seq![ProjectEntry::WorkspaceHeader(wi as usize)],
                        None => Seq::empty(),
                    }
                } else {
                    Seq::empty()
                };
                if k < h1.len() {
                    assert(g.0[k] == h1[k]);
                } else {
                    assert(g.0[k] == g.0.subrange(h1.len() as int, g.0.len() as int)[k - h1.len()]);
                }
            },
        }
    }
    lemma_headers_placed(app, owners, g.0);
    lemma_extras_rows(app, owners);
    assert(placed(app, owners, body)) by {
        if !folded {
            assert forall|k: int| 0 <= k < body.len() implies !((#[trigger] body[k]) is AllView) by {
                if k > 0 {
                    assert(body[k] == x[k - 1]);
                }
            }
            assert forall|k: int| 0 <= k < body.len() && #[trigger] inbox_row(app, body, k) implies k + 1 + x.len()
                <= body.len() && body.subrange(k + 1, k + 1 + x.len()) == x by {
                if k > 0 {
                    if p.spec_is_inbox() {
                        assert(body[k] == x[k - 1]);
                        assert(virtual_entry(x[k - 1]));
                    }
                } else {
                    assert(body[0] == ProjectEntry::Project(i as usize));
                    assert(p.spec_is_inbox());
                    assert(body.subrange(1, 1 + x.len() as int) =~= x);
                }
            }
            assert forall|k: int| 0 <= k < body.len() && virtual_entry(#[trigger] body[k]) implies exists|k0: int|
                0 <= k0 < k && #[trigger] inbox_row(app, body, k0) && k < k0 + 1 + x.len() by {
                if p.spec_is_inbox() {
                    assert(inbox_row(app, body, 0));
                }
            }
        }
    }
    lemma_entries_placed(app, owners, i + 1, g.1, g.2, g.3);
    lemma_placed_concat(app, owners, g.0, body);
    lemma_placed_concat(app, owners, g.0 + body, rest);
}

/// Project `p` sits in a folder the sidebar has folded away.
pub open spec fn project_folded(app: App, p: Project) -> bool {
    match opt_view(p.folder_id) {
        Some(f) => str_set(app.nav.collapsed_folders@).contains(f),
        None => false,
    }
}

proof fn lemma_entries_list(
    app: App,
    owners: Seq<(String, usize)>,
    i: nat,
    in_personal: bool,
    last_ws: Option<Seq<char>>,
    last_folder: Option<Seq<char>>,
    j: nat,
)
    requires
        i <= j < app.data.projects@.len(),
        !project_folded(app, app.data.projects@[j as int]),
    ensures
        exists|k: int|
            0 <= k < entries_from(app, owners, i, in_personal, last_ws, last_folder).len() && #[trigger] entries_from(
                app,
                owners,
                i,
                in_personal,
                last_ws,
                last_folder,
            )[k] == ProjectEntry::Project(j as usize),
    decreases app.data.projects@.len() - i,
{
    let ps = app.data.projects@;
    let p = ps[i as int];
    let g = group_headers(app, p, in_personal, last_ws, last_folder);
    let x = inbox_extras(app, owners);
    let folded = project_folded(app, p);
    let body = if folded {
        Seq::empty()
    } else {
        seq![ProjectEntry::Project(i as usize)] + if p.spec_is_inbox() {
            x
        } else {
            Seq::empty()
        }
    };
    let rest = entries_from(app, owners, i + 1, g.1, g.2, g.3);
    let es = entries_from(app, owners, i, in_personal, last_ws, last_folder);
    assert(es == g.0 + body + rest);
    if j == i {
        assert(es[g.0.len() as int] == body[0]);
    } else {
        lemma_entries_list(app, owners, i + 1, g.1, g.2, g.3, j);
        let k = choose|k: int| 0 <= k < rest.len() && #[trigger] rest[k] == ProjectEntry::Project(j as usize);
        assert(es[g.0.len() + body.len() + k] == rest[k]);
    }
}

/// The sidebar rows `es` are laid out as documented: the All row comes
/// first and nowhere else; right under each Inbox row come Today,
/// Upcoming, the pull-request owners `owners`, Jira and the agenda (as
/// their tools allow); those view rows appear only there; and every
/// project whose folder is open is listed, the Inbox too.
pub open spec fn sidebar_laid_out(app: App, owners: Seq<(String, usize)>, es: Seq<ProjectEntry>) -> bool {
    let x = inbox_extras(app, owners);
    &&& es.len() > 0 && es[0] is AllView
    &&& forall|j: int|
        0 <= j < app.data.projects@.len() && !project_folded(app, #[trigger] app.data.projects@[j])
            ==> exists|k: int| 0 <= k < es.len() && es[k] == ProjectEntry::Project(j as usize)
    &&& forall|k: int| 1 <= k < es.len() ==> !((#[trigger] es[k]) is AllView)
    &&& forall|k: int|
        0 <= k < es.len() && #[trigger] inbox_row(app, es, k) ==> k + 1 + x.len() <= es.len()
            && es.subrange(k + 1, k + 1 + x.len()) == x
    &&& forall|k: int|
        0 <= k < es.len() && virtual_entry(#[trigger] es[k]) ==> exists|k0: int|
            0 <= k0 < k && #[trigger] inbox_row(app, es, k0) && k < k0 + 1 + x.len()
}

/// Sidebar placement: the sidebar is laid out as `sidebar_laid_out` says.
pub proof fn law_sidebar_placement(app: App, owners: Seq<(String, usize)>)
    ensures
        sidebar_laid_out(app, owners, project_entries(app, owners)),
{
    let es = project_entries(app, owners);
    let x = inbox_extras(app, owners);
    let rest = entries_from(app, owners, 0, false, None, None);
    lemma_entries_placed(app, owners, 0, false, None, None);
    let top = seq![ProjectEntry::AllView];
    assert(es == top + rest);
    assert forall|j: int|
        0 <= j < app.data.projects@.len() && !project_folded(app, #[trigger] app.data.projects@[j]) implies exists|
        k: int,
    | 0 <= k < es.len() && es[k] == ProjectEntry::Project(j as usize) by {
        lemma_entries_list(app, owners, 0, false, None, None, j as nat);
        let k = choose|k: int| 0 <= k < rest.len() && #[trigger] rest[k] == ProjectEntry::Project(j as usize);
        assert(es[k + 1] == rest[k]);
    }
    assert forall|k: int| 1 <= k < es.len() implies !((#[trigger] es[k]) is AllView) by {
        assert(es[k] == rest[k - 1]);
    }
    assert forall|k: int| 0 <= k < es.len() && #[trigger] inbox_row(app, es, k) implies k + 1 + x.len() <= es.len()
        && es.subrange(k + 1, k + 1 + x.len()) == x by {
        assert(k >= 1);
        assert(es[k] == rest[k - 1]);
        assert(inbox_row(app, rest, k - 1));
        assert(es.subrange(k + 1, k + 1 + x.len()) =~= rest.subrange(k, k + x.len()));
    }
    assert forall|k: int| 0 <= k < es.len() && virtual_entry(#[trigger] es[k]) implies exists|k0: int|
        0 <= k0 < k && #[trigger] inbox_row(app, es, k0) && k < k0 + 1 + x.len() by {
        assert(k >= 1);
        assert(es[k] == rest[k - 1]);
        let k0 = choose|k0: int| 0 <= k0 < k - 1 && #[trigger] inbox_row(app, rest, k0) && k - 1 < k0 + 1 + x.len();
        assert(es[k0 + 1] == rest[k0]);
        assert(inbox_row(app, es, k0 + 1));
    }
}


/// Command ids recorded at most once each.
pub open spec fn distinct_uuids(ops: Seq<(String, OptimisticOp)>) -> bool {
    forall|a: int, b: int| 0 <= a < b < ops.len() ==> (#[trigger] ops[a]).0@ != (#[trigger] ops[b]).0@
}

/// What refusing command `uuid` with reason `msg` leaves behind, `op` being
/// the change recorded for it (if any): the record is gone, an added task
/// or comment disappears, a deleted task comes back, an edited task is
/// restored to its saved copy and leaves the pending-close list, an edited
/// project is listed again under its saved copy's id, and the "Command
/// failed" popup shows the server's reason.
pub open spec fn refused_undone(
    old: App,
    new: App,
    op: Option<OptimisticOp>,
    uuid: Seq<char>,
    msg: Option<String>,
) -> bool {
    let ops = old.pending.temp_id_pending@;
    &&& match op {
        Some(o) => exists|i: int| crate::events::first_op_at(ops, uuid, i) && #[trigger] ops[i].1 == o,
        None => crate::events::no_op_for(ops, uuid),
    }
    &&& crate::events::no_op_for(new.pending.temp_id_pending@, uuid)
    &&& new.error matches Some(e) && e.title@ == "Command failed"@ && e.message@ == crate::events::rejection_text(msg)
        && e.recoverable
    &&& op matches Some(OptimisticOp::TaskAdded { temp_id }) ==> forall|j: int|
        0 <= j < new.data.tasks@.len() ==> (#[trigger] new.data.tasks@[j]).id@ != temp_id@
    &&& op matches Some(OptimisticOp::TaskRemoved { snapshot }) ==> new.data.tasks@.len() > 0
        && new.data.tasks@.last() == snapshot
    &&& op matches Some(OptimisticOp::TaskUpdated { task_id, before }) ==> !str_set(
        new.pending.pending_close_recurring@,
    ).contains(task_id@) && (first_with_id(old.data.tasks@, task_id@) matches Some(i) ==> new.data.tasks@[i]
        == before)
    &&& op matches Some(OptimisticOp::ProjectUpdated { project_id, before }) ==> (crate::edit::project_pos(
        old.data.projects@,
        project_id@,
    ) is Some ==> crate::projects::project_ids(new.data.projects@).contains(before.id@))
    &&& op matches Some(OptimisticOp::CommentAdded { temp_id, task_id: _ }) ==> new.data.comments@.len()
        <= old.data.comments@.len()
}

/// A command the server refuses is rolled back whatever it did, as
/// `refused_undone` says, and asks for no comment refresh.
pub proof fn law_refused_command_undone(
    old: App,
    mid: App,
    op: Option<OptimisticOp>,
    undone: App,
    new: App,
    uuid: Seq<char>,
    msg: Option<String>,
    clock: crate::tasks::Clock,
    refresh: Option<Seq<char>>,
)
    requires
        distinct_uuids(old.pending.temp_id_pending@),
        crate::events::status_applied(old, mid, op, undone, new, uuid, CommandStatus::Error(msg), clock, refresh),
    ensures
        refused_undone(old, new, op, uuid, msg),
        refresh is None,
{
    let ops = old.pending.temp_id_pending@;
    match op {
        Some(o) => {
            let i = choose|i: int|
                crate::events::first_op_at(ops, uuid, i) && o == ops[i].1 && mid.pending.temp_id_pending@
                    == ops.remove(i);
            assert forall|j: int| 0 <= j < ops.remove(i).len() implies (#[trigger] ops.remove(i)[j]).0@ != uuid by {
                if j < i {
                } else {
                    assert(ops.remove(i)[j] == ops[j + 1]);
                    assert(ops[i].0@ != ops[j + 1].0@);
                }
            }
            assert(new.pending == undone.pending);
            match o {
                OptimisticOp::TaskAdded { temp_id } => {
                    assert forall|j: int| 0 <= j < new.data.tasks@.len() implies (#[trigger] new.data.tasks@[j]).id@
                        != temp_id@ by {
                        mid.data.tasks@.lemma_filter_pred(|e: Task| e.key() != temp_id@, j);
                    }
                },
                OptimisticOp::ProjectUpdated { project_id, before } => {
                    if let Some(k) = crate::edit::project_pos(old.data.projects@, project_id@) {
                        let restored = crate::events::projects_restored(mid.data.projects@, project_id@, before);
                        assert(restored[k] == before);
                        let ps = crate::projects::personal(restored);
                        let base = crate::projects::subtree(ps, None, ps.len()) + crate::projects::ws_blocks(
                            restored,
                            mid.data.workspaces@,
                            mid.data.folders@,
                        );
                        let pred = |p: Project| !crate::projects::project_ids(base).contains(p.id@);
                        let tail = restored.filter(pred);
                        assert(new.data.projects@ == base + tail);
                        if crate::projects::project_ids(base).contains(before.id@) {
                            let b = choose|b: int| 0 <= b < base.len() && (#[trigger] base[b]).id@ == before.id@;
                            assert(new.data.projects@[b] == base[b]);
                        } else {
                            restored.lemma_filter_contains(pred, k);
                            let t = choose|t: int| 0 <= t < tail.len() && tail[t] == before;
                            assert(new.data.projects@[base.len() + t] == tail[t]);
                        }
                    }
                },
                OptimisticOp::CommentAdded { temp_id, task_id } => {
                    mid.data.comments@.lemma_filter_len(|e: crate::model::Comment| e.key() != temp_id@);
                },
                _ => {},
            }
        },
        None => {},
    }
}

} // verus!
