use ratatoist::actions::selected_pr_url;
use ratatoist::app::{App, AppSettings, DockItem, InputMode, OverviewStats, Pane, SortMode, TaskFilter, VimState};
use ratatoist::dates::label_minutes;
use ratatoist::delta::{CommandStatus, SyncResponse};
use ratatoist::dispatch::Work;
use ratatoist::edit::Moment;
use ratatoist::events::{BgEvent, FollowUp};
use ratatoist::keys::KeyAction;
use ratatoist::model::{CalendarEvent, CheckStatus, Comment, Due, JiraCard, Project, PullRequest, Task};
use ratatoist::screen::{
    age_label, agenda_time_label_from, compact_time_text, countdown_text, dock_texts, fetched_label,
    format_time_range_from, jar_body_budget, key_hints, sort_badge, toaster_rect, Area, Look, Tone,
};
use ratatoist::sync::{CommandArgs, OptimisticOp, SyncCommand};
use ratatoist::tasks::Clock;

fn clock() -> Clock {
    Clock {
        today: "2026-04-15".to_string(),
        week_end: "2026-04-22".to_string(),
        hour: 10,
        minute: 0,
        weekend: false,
    }
}

fn moment() -> Moment {
    Moment { clock: clock(), nanos: 7, posted_at: "2026-04-15T10:00:00Z".to_string() }
}

fn app() -> App {
    App::new(AppSettings {
        theme_names: vec!["default".to_string(), "dark".to_string()],
        theme_idx: 0,
        sync_token: "*".to_string(),
        idle_timeout_secs: 300,
        idle_forcer: false,
        ephemeral: true,
        star_count: 0,
        star_date: "2026-04-15".to_string(),
        tomato_count: 0,
        tomato_date: "2026-04-15".to_string(),
        show_stats: true,
        gh_available: true,
        acli_available: true,
        gws_available: true,
        hidden_pr_orgs: Vec::new(),
        github_prs_poll_interval_secs: 20,
        jira_cards_poll_interval_secs: 10,
        agenda_poll_interval_secs: 300,
        now_ms: 1_000_000,
    })
}

fn task(id: &str, project: &str, date: Option<&str>) -> Task {
    Task {
        id: id.to_string(),
        content: format!("task {id}"),
        project_id: project.to_string(),
        due: date.map(|d| Due { date: d.to_string(), ..Due::default() }),
        priority: 1,
        ..Task::default()
    }
}

fn empty_response() -> SyncResponse {
    SyncResponse {
        full_sync: false,
        sync_token: String::new(),
        projects: None,
        items: None,
        labels: None,
        sections: None,
        notes: None,
        collaborators: None,
        workspaces: None,
        folders: None,
        user: None,
        sync_status: Vec::new(),
        temp_id_mapping: Vec::new(),
    }
}

fn pr(url: &str, repo: &str, node: &str) -> PullRequest {
    PullRequest {
        number: 1,
        title: "t".to_string(),
        url: url.to_string(),
        repo_full_name: repo.to_string(),
        author_login: "me".to_string(),
        updated_at: String::new(),
        is_draft: false,
        node_id: node.to_string(),
        check_status: None,
    }
}

#[test]
fn rejected_add_is_undone_and_shows_error() {
    let mut a = app();
    a.data.tasks.push(task("tmp_1", "p1", None));
    a.pending.temp_id_pending.push(("u1".to_string(), OptimisticOp::TaskAdded { temp_id: "tmp_1".to_string() }));
    let mut resp = empty_response();
    resp.sync_status.push(("u1".to_string(), CommandStatus::Error(Some("Invalid date".to_string()))));
    let f = a.handle_bg_event_at(BgEvent::CommandResults(resp), 0, 0, &clock());
    assert!(a.data.tasks.is_empty());
    assert!(a.pending.temp_id_pending.is_empty());
    let e = a.error.as_ref().expect("error shown");
    assert_eq!(e.title, "Command failed");
    assert_eq!(e.message, "Invalid date");
    assert!(e.suggestion.is_none());
    assert!(!f.save_sync_token && f.fetch_comments.is_none() && !f.incremental_sync);
}

#[test]
fn rejected_without_message_says_unknown_error() {
    let mut a = app();
    let mut resp = empty_response();
    resp.sync_status.push(("nobody".to_string(), CommandStatus::Error(None)));
    a.handle_bg_event_at(BgEvent::CommandResults(resp), 0, 0, &clock());
    assert_eq!(a.error.as_ref().unwrap().message, "unknown error");
}

#[test]
fn rejected_update_restores_task_and_clears_recurring_hold() {
    let mut a = app();
    let mut done = task("t1", "p1", None);
    done.checked = true;
    a.data.tasks.push(done);
    a.pending.pending_close_recurring.push("t1".to_string());
    a.pending.temp_id_pending.push((
        "u9".to_string(),
        OptimisticOp::TaskUpdated { task_id: "t1".to_string(), before: task("t1", "p1", None) },
    ));
    let mut resp = empty_response();
    resp.sync_status.push(("u9".to_string(), CommandStatus::Error(None)));
    a.handle_bg_event_at(BgEvent::CommandResults(resp), 0, 0, &clock());
    assert!(!a.data.tasks[0].checked);
    assert!(a.pending.pending_close_recurring.is_empty());
}

#[test]
fn command_results_map_temp_ids_and_take_token() {
    let mut a = app();
    a.data.tasks.push(task("tmp_5", "p1", None));
    a.data.comments.push(Comment {
        id: "tmp_6".to_string(),
        item_id: Some("tmp_5".to_string()),
        ..Comment::default()
    });
    let mut resp = empty_response();
    resp.sync_token = "tok2".to_string();
    resp.temp_id_mapping.push(("tmp_5".to_string(), "real5".to_string()));
    resp.temp_id_mapping.push(("tmp_6".to_string(), "real6".to_string()));
    let f = a.handle_bg_event_at(BgEvent::CommandResults(resp), 0, 0, &clock());
    assert_eq!(a.data.tasks[0].id, "real5");
    assert_eq!(a.data.comments[0].id, "real6");
    assert_eq!(a.data.comments[0].item_id.as_deref(), Some("real5"));
    assert_eq!(a.data.sync_token, "tok2");
    assert!(f.save_sync_token);
}

#[test]
fn accepted_comment_on_open_task_refetches_its_comments() {
    let mut a = app();
    a.data.tasks.push(task("t1", "p1", None));
    a.nav.detail_task_id = Some("t1".to_string());
    a.counters.comments_fetch_seq = 4;
    a.pending.temp_id_pending.push((
        "u2".to_string(),
        OptimisticOp::CommentAdded { temp_id: "tmp_c".to_string(), task_id: "t1".to_string() },
    ));
    let mut resp = empty_response();
    resp.sync_status.push(("u2".to_string(), CommandStatus::Accepted));
    let f: FollowUp = a.handle_bg_event_at(BgEvent::CommandResults(resp), 0, 0, &clock());
    assert_eq!(f.fetch_comments, Some(("t1".to_string(), 5)));
    assert_eq!(a.counters.comments_fetch_seq, 5);
    assert!(a.pending.temp_id_pending.is_empty());
}

#[test]
fn stale_comments_do_not_replace_open_list() {
    let mut a = app();
    a.data.tasks.push(task("t1", "p1", None));
    a.nav.detail_task_id = Some("t1".to_string());
    a.counters.comments_fetch_seq = 3;
    let c = Comment { id: "c1".to_string(), content: "hi".to_string(), ..Comment::default() };
    a.handle_bg_event_at(
        BgEvent::Comments { task_id: "t1".to_string(), comments: Ok(vec![c.clone()]), fetch_seq: 2 },
        0,
        0,
        &clock(),
    );
    assert!(a.data.comments.is_empty());
    assert_eq!(a.data.tasks[0].note_count, Some(1));
    assert_eq!(a.data.comments_by_task.len(), 1);
    a.handle_bg_event_at(
        BgEvent::Comments { task_id: "t1".to_string(), comments: Ok(vec![c]), fetch_seq: 3 },
        0,
        0,
        &clock(),
    );
    assert_eq!(a.data.comments.len(), 1);
    assert_eq!(a.data.comments_by_task.len(), 1);
}

#[test]
fn comment_fetch_failure_shows_error() {
    let mut a = app();
    a.handle_bg_event_at(
        BgEvent::Comments { task_id: "t1".to_string(), comments: Err("boom".to_string()), fetch_seq: 0 },
        0,
        0,
        &clock(),
    );
    assert!(a.error.as_ref().unwrap().title.contains("Load comments"));
}

#[test]
fn websocket_event_syncs_now_or_waits_for_return() {
    let mut a = app();
    a.counters.last_activity = 1_000_000;
    let f = a.handle_bg_event_at(BgEvent::WebSocketEvent, 1_000_500, 0, &clock());
    assert!(f.incremental_sync);
    assert!(a.data.websocket_connected);
    let f = a.handle_bg_event_at(BgEvent::WebSocketEvent, 1_000_000 + 301_000, 0, &clock());
    assert!(!f.incremental_sync);
    assert!(a.counters.pending_ws_sync);
    a.handle_bg_event_at(BgEvent::WebSocketDisconnected, 0, 0, &clock());
    assert!(!a.data.websocket_connected);
}

#[test]
fn fetched_prs_keep_cursor_inside_and_record_errors() {
    let mut a = app();
    a.nav.selected_pr = 9;
    a.external.github_prs_loading = true;
    a.handle_bg_event_at(
        BgEvent::GithubPrsFetched(Ok(vec![pr("u1", "o/r", ""), pr("u2", "o/r", "")])),
        42,
        0,
        &clock(),
    );
    assert_eq!(a.nav.selected_pr, 1);
    assert!(!a.external.github_prs_loading);
    assert_eq!(a.external.github_prs_fetched_at, Some(42));
    a.handle_bg_event_at(BgEvent::JiraCardsFetched(Err("no auth".to_string())), 43, 0, &clock());
    assert_eq!(a.external.jira_cards_error.as_deref(), Some("no auth"));
    assert_eq!(a.external.jira_cards_fetched_at, Some(43));
}

#[test]
fn completed_tasks_are_cached_per_project() {
    let mut a = app();
    let mut t = task("d1", "p1", None);
    t.checked = true;
    a.handle_bg_event_at(
        BgEvent::CompletedTasks { project_id: "p1".to_string(), records: Ok(vec![t.clone()]) },
        0,
        0,
        &clock(),
    );
    a.handle_bg_event_at(
        BgEvent::CompletedTasks { project_id: "p1".to_string(), records: Ok(vec![t.clone(), t]) },
        0,
        0,
        &clock(),
    );
    assert_eq!(a.data.completed_cache.len(), 1);
    assert_eq!(a.data.completed_cache[0].1.len(), 2);
}

#[test]
fn poll_starts_when_due_and_waits_while_idle() {
    let mut a = app();
    a.counters.last_activity = 0;
    a.external.github_prs_fetched_at = Some(0);
    assert!(!a.maybe_poll_github_prs_at(19_999));
    assert!(a.maybe_poll_github_prs_at(20_000));
    assert!(a.external.github_prs_loading);
    assert!(!a.maybe_poll_github_prs_at(60_000), "never while loading");
    let mut b = app();
    b.counters.last_activity = 0;
    assert!(!b.maybe_poll_jira_cards_at(400_000));
    assert!(b.external.pending_jira_poll);
    let w = b.on_key_activity_at(400_001);
    assert!(w.jira_cards);
    assert!(!b.external.pending_jira_poll);
    assert!(b.external.jira_cards_loading);
    assert_eq!(b.counters.last_activity, 400_001);
}

#[test]
fn startup_fetches_each_available_source_once() {
    let mut a = app();
    assert_eq!(a.startup_fetches(), (true, true, true));
    assert_eq!(a.startup_fetches(), (false, false, false));
}

#[test]
fn cycle_filter_asks_for_completed_tasks_once() {
    let mut a = app();
    a.data.projects.push(Project { id: "p1".to_string(), name: "Work".to_string(), ..Project::default() });
    assert_eq!(a.nav.task_filter, TaskFilter::Active);
    assert_eq!(a.cycle_task_filter_on(&clock()), Some("p1".to_string()));
    assert_eq!(a.nav.task_filter, TaskFilter::Done);
    a.data.completed_cache.push(("p1".to_string(), Vec::new()));
    assert_eq!(a.cycle_task_filter_on(&clock()), None);
    assert_eq!(a.nav.task_filter, TaskFilter::Both);
    assert_eq!(a.cycle_task_filter_on(&clock()), None);
    assert_eq!(a.nav.task_filter, TaskFilter::Active);
}

#[test]
fn overview_stats_count_due_dates_and_priorities() {
    let mut a = app();
    a.data.tasks.push(task("a", "p", Some("2026-04-15")));
    a.data.tasks.push(task("b", "p", Some("2026-04-10")));
    a.data.tasks.push(task("c", "p", Some("2026-04-22")));
    a.data.tasks.push(task("d", "p", Some("2026-04-23")));
    let mut done = task("e", "p", Some("2026-04-16"));
    done.checked = true;
    a.data.tasks.push(done);
    let mut p4 = task("f", "p", None);
    p4.priority = 4;
    a.data.tasks.push(p4);
    let s = a.overview_stats_on(&clock());
    assert_eq!(s.due_today, 1);
    assert_eq!(s.overdue, 1);
    assert_eq!(s.due_week, 3);
    assert_eq!(s.by_priority, [0, 4, 0, 0, 1]);
}

#[test]
fn browser_targets_follow_the_cursor() {
    let mut a = app();
    a.external.github_prs = vec![pr("u1", "acme/x", ""), pr("u2", "beta/y", ""), pr("u3", "acme/z", "")];
    a.views.all_view_active = true;
    a.nav.selected_pr = 1;
    assert_eq!(a.pr_to_open(), Some("u2".to_string()));
    a.views.all_view_active = false;
    a.views.active_pr_org = Some("acme".to_string());
    assert_eq!(a.pr_to_open(), Some("u3".to_string()));
    a.external.jira_cards = vec![JiraCard { key: "ABC-1".to_string(), ..JiraCard::default() }];
    assert_eq!(a.jira_card_to_open(), Some("ABC-1".to_string()));
    a.external.agenda_events = vec![CalendarEvent::default()];
    assert_eq!(a.event_to_open(), None);
}

#[test]
fn pending_commands_are_handed_over_once() {
    let mut a = app();
    a.pending.pending_commands.push(SyncCommand {
        kind: "item_close".to_string(),
        temp_id: None,
        uuid: "u".to_string(),
        args: CommandArgs::ItemId { id: "t".to_string() },
    });
    assert_eq!(a.take_pending_commands().len(), 1);
    assert!(a.take_pending_commands().is_empty());
}

#[test]
fn actions_change_state_and_ask_for_work() {
    let mut a = app();
    let w: Work = a.perform_action_at(KeyAction::CycleSort, &moment(), 0);
    assert_eq!(a.nav.sort_mode, SortMode::Default.next());
    assert!(!w.save_settings && !w.github_prs);
    a.input.theme_selection = 1;
    let w = a.perform_action_at(KeyAction::SelectTheme, &moment(), 0);
    assert!(w.save_settings);
    assert_eq!(a.input.theme_idx, 1);
    let w = a.perform_action_at(KeyAction::RefreshAllSources, &moment(), 0);
    assert!(w.github_prs && w.jira_cards && w.agenda);
    a.nav.active_pane = Pane::Tasks;
    a.nav.dock_filter = Some(DockItem::DueToday);
    a.perform_action_at(KeyAction::ToggleSettings, &moment(), 0);
    assert_eq!(a.nav.active_pane, Pane::Settings);
    assert!(a.nav.dock_filter.is_none(), "leaving the task list drops the dock filter");
    a.perform_action_at(KeyAction::Quit, &moment(), 0);
    assert!(!a.running);
}

#[test]
fn selected_pr_url_matches_pr_to_open_on_all_view() {
    let mut a = app();
    a.external.github_prs = vec![pr("only", "o/r", "")];
    a.views.all_view_active = true;
    assert_eq!(a.pr_to_open().as_deref(), Some("only"));
    let _ = selected_pr_url;
}

#[test]
fn countdown_and_toaster_geometry() {
    assert_eq!(countdown_text(1_499_000), "🍅 24:59");
    assert_eq!(countdown_text(5_000), "🍅 00:05");
    let r = toaster_rect(&Area { x: 10, y: 5, width: 100, height: 30 }, 2).unwrap();
    assert_eq!((r.x, r.y, r.width, r.height), (70, 30, 40, 5));
    let r = toaster_rect(&Area { x: 0, y: 0, width: 20, height: 4 }, 9).unwrap();
    assert_eq!((r.x, r.y, r.width, r.height), (0, 0, 20, 4));
    assert!(toaster_rect(&Area { x: 0, y: 0, width: 5, height: 10 }, 0).is_none());
}

#[test]
fn jar_budget_leaves_room_for_the_other_blocks() {
    assert_eq!(jar_body_budget(40, true, false), 40 - 4 - 3 - 2 - 3);
    assert_eq!(jar_body_budget(40, true, true), 40 - 4 - 3 - 2 - 5 - 3);
    assert_eq!(jar_body_budget(5, true, true), 1);
}

#[test]
fn age_labels_use_the_largest_unit() {
    assert_eq!(age_label(-3), "-3s ago");
    assert_eq!(age_label(59), "59s ago");
    assert_eq!(age_label(60), "1m ago");
    assert_eq!(age_label(7_200), "2h ago");
    assert_eq!(age_label(3 * 86_400), "3d ago");
    assert_eq!(age_label(2_592_000 * 2 + 5), "2mo ago");
}

#[test]
fn agenda_times_are_compact() {
    assert_eq!(compact_time_text(9, 0), "9");
    assert_eq!(compact_time_text(9, 30), "9:30");
    let ev = CalendarEvent { start: "bad".to_string(), ..CalendarEvent::default() };
    assert_eq!(agenda_time_label_from(&ev, None), "bad");
    assert_eq!(agenda_time_label_from(&ev, Some((14, 5))), "14:05");
    assert_eq!(format_time_range_from(&ev, Some((9, 0)), Some((10, 30))), "9–10:30");
    assert_eq!(format_time_range_from(&ev, Some((9, 0)), None), "9");
    let all_day = CalendarEvent { all_day: true, ..CalendarEvent::default() };
    assert_eq!(format_time_range_from(&all_day, None, None), "all day");
}

#[test]
fn hints_badges_and_dock_texts() {
    let h = key_hints(InputMode::Vim(VimState::Normal), Pane::Tasks);
    assert_eq!(h.len(), 10);
    assert_eq!(h[7], ("za", "fold"));
    let h = key_hints(InputMode::Standard, Pane::Projects);
    assert_eq!(h[0], ("↑/↓", "navigate"));
    assert_eq!(sort_badge(SortMode::Default), None);
    assert!(sort_badge(SortMode::Default.next()).unwrap().starts_with("   ⟳ "));
    let st = OverviewStats { due_today: 2, due_week: 5, overdue: 1, by_priority: [0, 7, 3, 2, 1] };
    let t = dock_texts(&st);
    assert_eq!(t, vec!["▲ 1  ", "◆ 2  ", "◇ 5", "● 1  ", "● 2  ", "● 3  ", "─ 7"]);
    assert_eq!(fetched_label(None, true), "· fetched —  refreshing…");
    assert_eq!(fetched_label(Some("09:01:02"), false), "· fetched 09:01:02");
}

#[test]
fn status_bar_texts() {
    let mut a = app();
    a.data.projects.push(Project { id: "p1".to_string(), name: "Work".to_string(), ..Project::default() });
    a.switch_to_project_tasks();
    a.nav.active_pane = Pane::Settings;
    assert_eq!(a.breadcrumb_on(&clock()), "  Settings");
    a.nav.active_pane = Pane::Tasks;
    assert_eq!(a.breadcrumb_on(&clock()), "  Work ▸ 0 tasks");
    assert_eq!(a.connection_status_at(0, "x"), ("○", "Offline".to_string()));
    a.data.websocket_connected = true;
    a.counters.last_activity = 0;
    assert_eq!(a.connection_status_at(1, "x").1, "Connected");
    assert_eq!(a.connection_status_at(400_000, "12:00").1, "Idle (last sync @ 12:00)");
    a.nav.dock_filter = Some(DockItem::Priority(3));
    let (title, tone) = a.tasks_block_title();
    assert!(title.starts_with(" ◈ "));
    assert_eq!(tone, Some(Tone::Yellow));
    a.nav.dock_focus = Some(0);
    assert_eq!(a.dock_item_look(0), Look::Focused);
    assert_eq!(a.dock_item_look(4), Look::Filtered);
    assert_eq!(a.dock_item_look(1), Look::Plain);
    let _ = CheckStatus::Success;
}

#[test]
fn time_of_day_labels_read_as_clock_times() {
    assert_eq!(label_minutes("2pm"), Some(14 * 60));
    assert_eq!(label_minutes("9am"), Some(9 * 60));
    assert_eq!(label_minutes("9:30am"), Some(9 * 60 + 30));
    assert_eq!(label_minutes("11:30pm"), Some(23 * 60 + 30));
    assert_eq!(label_minutes("12am"), Some(0));
    assert_eq!(label_minutes("12pm"), Some(12 * 60));
    assert_eq!(label_minutes("5pmm"), None);
    assert_eq!(label_minutes("pm"), None);
    assert_eq!(label_minutes("afternoon"), None);
    assert_eq!(label_minutes("13pm"), None);
    assert_eq!(label_minutes("9:75am"), None);
}

#[test]
fn time_labelled_task_waits_on_today_until_its_time() {
    let mut a = app();
    let mut t = task("t1", "p1", Some("2026-04-15"));
    t.labels = vec!["2pm".to_string()];
    a.data.tasks.push(t);
    a.activate_today_view();
    let mut c = clock();
    assert!(a.visible_tasks_on(&c).is_empty(), "hidden at 10:00");
    assert_eq!(a.all_view_items_on(&c).len(), 1, "the All view keeps it");
    c.hour = 13;
    c.minute = 59;
    assert!(a.visible_tasks_on(&c).is_empty(), "hidden at 13:59");
    c.hour = 14;
    c.minute = 0;
    assert_eq!(a.visible_tasks_on(&c).len(), 1, "shown from 14:00");
}
