use ratatoist::app::{AllViewItem, App, AppError, AppSettings, InputMode, Pane};
use ratatoist::dates::days_from_civil;
use ratatoist::dispatch::Work;
use ratatoist::edit::Moment;
use ratatoist::keys::{KeyAction, KeyCode, KeyEvent};
use ratatoist::model::{Due, Project, PullRequest, Task};
use ratatoist::settings::{session_settings, start_sync_token, Machine, StoredSettings};
use ratatoist::screen::{age_between, age_label, fetched_line};
use ratatoist::app::{api_error_parts_from, rem_euclid_i64};
use ratatoist::sync::{args_fields, ArgValue, CommandArgs, OptimisticOp};
use ratatoist::delta::CommandStatus;
use ratatoist::tasks::{Clock, TaskRow};
use ratatoist::todoist::{first_backoff, next_try, Backoff, RetryStep, TryOutcome};

fn settings(token: &str) -> AppSettings {
    AppSettings {
        theme_names: vec!["default".to_string()],
        theme_idx: 0,
        sync_token: token.to_string(),
        idle_timeout_secs: 300,
        idle_forcer: false,
        ephemeral: false,
        star_count: 0,
        star_date: "2026-04-15".to_string(),
        tomato_count: 0,
        tomato_date: "2026-04-15".to_string(),
        show_stats: true,
        gh_available: true,
        acli_available: false,
        gws_available: false,
        hidden_pr_orgs: Vec::new(),
        github_prs_poll_interval_secs: 10,
        jira_cards_poll_interval_secs: 11,
        agenda_poll_interval_secs: 300,
        now_ms: 0,
    }
}

fn clock() -> Clock {
    Clock {
        today: "2026-04-15".to_string(),
        week_end: "2026-04-22".to_string(),
        hour: 12,
        minute: 0,
        weekend: false,
    }
}

fn moment() -> Moment {
    Moment { clock: clock(), nanos: 7, posted_at: "2026-04-15T12:00:00Z".to_string() }
}

fn task(id: &str, project_id: &str, date: Option<&str>, child_order: i32) -> Task {
    Task {
        id: id.to_string(),
        content: id.to_string(),
        project_id: project_id.to_string(),
        child_order,
        due: date.map(|d| Due { date: d.to_string(), ..Due::default() }),
        ..Task::default()
    }
}

fn pr(repo: &str) -> PullRequest {
    PullRequest {
        number: 1,
        title: "t".into(),
        url: String::new(),
        repo_full_name: repo.into(),
        author_login: "me".into(),
        updated_at: String::new(),
        is_draft: false,
        node_id: String::new(),
        check_status: None,
    }
}

fn row_ids(app: &App, rows: &[TaskRow]) -> Vec<String> {
    rows.iter()
        .map(|r| match r {
            TaskRow::Live(i) => app.data.tasks[*i].id.clone(),
            _ => panic!("expected live rows"),
        })
        .collect()
}

#[test]
fn new_app_keeps_token_and_poll_intervals() {
    let app = App::new(settings("abc"));
    assert_eq!(app.data.sync_token, "abc");
    assert_eq!(app.external.github_prs_poll_interval_secs, 10);
    assert_eq!(app.external.jira_cards_poll_interval_secs, 11);
    assert_eq!(app.external.agenda_poll_interval_secs, 300);
}

#[test]
fn ephemeral_session_starts_a_full_sync() {
    assert_eq!(start_sync_token(true, Some("abc".to_string())), "*");
    assert_eq!(start_sync_token(false, Some("abc".to_string())), "abc");
    assert_eq!(start_sync_token(false, None), "*");
}

#[test]
fn p_toggles_the_pomodoro_in_vim_and_standard_mode() {
    let mut app = App::new(settings("*"));
    app.nav.active_pane = Pane::Tasks;
    let a = app.handle_key_on(KeyEvent::plain(KeyCode::Char('p')), &clock());
    assert!(matches!(a, KeyAction::TogglePomodoro));
    app.perform_action_at(a, &moment(), 5_000);
    assert_eq!(app.counters.pomodoro_started_at, Some(5_000));
    app.input.input_mode = InputMode::Standard;
    let a = app.handle_key_on(KeyEvent::plain(KeyCode::Char('p')), &clock());
    assert!(matches!(a, KeyAction::TogglePomodoro));
    app.perform_action_at(a, &moment(), 9_000);
    assert_eq!(app.counters.pomodoro_started_at, None);
    assert_eq!(app.counters.tomato_count, 0);
}

#[test]
fn ctrl_x_in_all_view_completes_the_selected_all_view_task() {
    let mut app = App::new(settings("*"));
    app.data.projects.push(Project { id: "p1".into(), name: "Work".into(), ..Project::default() });
    app.data.tasks.push(task("other", "p1", None, 1));
    app.data.tasks.push(task("right", "p1", Some("2026-04-15"), 2));
    app.input.input_mode = InputMode::Standard;
    app.nav.active_pane = Pane::Tasks;
    app.nav.selected_all_item = 0;
    let items = app.all_view_items_on(&clock());
    assert!(matches!(items[0], AllViewItem::Task(1)));
    let a = app.handle_key_on(KeyEvent { code: KeyCode::Char('x'), control: true }, &clock());
    match a {
        KeyAction::CompleteTaskById(id) => assert_eq!(id, "right"),
        _ => panic!("expected CompleteTaskById"),
    }
    assert_eq!(app.nav.selected_task, 0);
}

#[test]
fn empty_pr_owner_is_dropped() {
    let mut app = App::new(settings("*"));
    app.external.github_prs = vec![pr("appfolio/apm_bundle"), pr("/x"), pr("appfolio/otto"), pr("cxrlos/ratatoist")];
    let owners = app.pr_owners_with_counts();
    assert_eq!(owners, vec![("appfolio".to_string(), 2), ("cxrlos".to_string(), 1)]);
}

#[test]
fn today_view_orders_by_date_then_project_then_creation() {
    let mut app = App::new(settings("*"));
    app.data.tasks.push(task("b2", "pb", Some("2026-04-15"), 1));
    app.data.tasks.push(task("a2", "pa", Some("2026-04-15"), 2));
    app.data.tasks.push(task("old", "pz", Some("2026-04-10"), 9));
    app.data.tasks.push(task("a1", "pa", Some("2026-04-15"), 1));
    app.activate_today_view();
    let rows = app.visible_tasks_on(&clock());
    assert_eq!(row_ids(&app, &rows), vec!["old", "a1", "a2", "b2"]);
}

#[test]
fn upcoming_badge_matches_the_upcoming_list() {
    let mut app = App::new(settings("*"));
    app.data.tasks.push(task("r", "p", Some("2026-04-20"), 1));
    app.data.tasks.push(task("s", "p", Some("2026-04-21"), 2));
    app.data.tasks.push(task("undated", "p", None, 3));
    app.pending.pending_close_recurring.push("s".to_string());
    assert_eq!(app.upcoming_task_count(), 1);
    app.activate_upcoming_view();
    assert_eq!(app.visible_tasks_on(&clock()).len(), 1);
}

#[test]
fn key_while_error_shown_only_dismisses_it() {
    let mut app = App::new(settings("*"));
    app.error = Some(AppError {
        title: "t".into(),
        message: "m".into(),
        suggestion: None,
        recoverable: true,
    });
    let w: Work = app.press_key_at(KeyEvent::plain(KeyCode::Char('q')), &moment(), 0);
    assert!(app.error.is_none());
    assert!(app.running, "a recoverable error keeps the program running");
    assert!(!w.save_settings);
    app.error = Some(AppError {
        title: "t".into(),
        message: "m".into(),
        suggestion: None,
        recoverable: false,
    });
    app.press_key_at(KeyEvent::plain(KeyCode::Char('j')), &moment(), 0);
    assert!(app.error.is_none());
    assert!(!app.running, "an unrecoverable error stops the program");
}

#[test]
fn key_without_error_is_handled() {
    let mut app = App::new(settings("*"));
    app.press_key_at(KeyEvent::plain(KeyCode::Char('q')), &moment(), 0);
    assert!(!app.running);
}

#[test]
fn sync_retry_steps() {
    let b = first_backoff();
    match next_try::<u32, String>(&b, TryOutcome::Done(7), 0) {
        RetryStep::Finish(Ok(7)) => {}
        _ => panic!("a response is returned"),
    }
    match next_try::<u32, String>(&b, TryOutcome::Failed("boom".to_string()), 0) {
        RetryStep::Finish(Err(e)) => assert_eq!(e, "boom"),
        _ => panic!("other errors pass unchanged"),
    }
    match next_try::<u32, String>(&b, TryOutcome::RateLimited(None), 4) {
        RetryStep::Retry(secs, next) => {
            assert_eq!(secs, 2);
            assert_eq!(next.attempt, 1);
            assert_eq!(next.base_delay_secs, 2);
        }
        _ => panic!("the first rate limit retries"),
    }
    let last = Backoff { attempt: 3, base_delay_secs: 8 };
    match next_try::<u32, String>(&last, TryOutcome::RateLimited(Some(5)), 2) {
        RetryStep::GiveUp(secs) => assert_eq!(secs, 7),
        _ => panic!("the fourth rate limit gives up"),
    }
}

#[test]
fn day_numbers_count_from_the_epoch_and_step_by_one() {
    assert_eq!(days_from_civil(1970, 1, 1), 0);
    assert_eq!(days_from_civil(2000, 3, 1), 11017);
    assert_eq!(days_from_civil(2024, 3, 1), days_from_civil(2024, 2, 29) + 1);
    assert_eq!(days_from_civil(2023, 3, 1), days_from_civil(2023, 2, 28) + 1);
    assert_eq!(days_from_civil(2100, 3, 1), days_from_civil(2100, 2, 28) + 1);
    assert_eq!(days_from_civil(2025, 1, 1), days_from_civil(2024, 12, 31) + 1);
}

#[test]
fn session_settings_start_an_ephemeral_session_fresh() {
    let stored = StoredSettings {
        theme: Some("dark".to_string()),
        idle_timeout_secs: None,
        idle_timeout_mins: Some(2),
        hidden_pr_orgs: Some(vec!["zed".to_string()]),
        github_prs_poll_interval_secs: None,
        jira_cards_poll_interval_secs: Some(1),
        agenda_poll_interval_secs: None,
        show_stats: Some(true),
        star_count: Some(4),
        star_date: Some("2026-04-14".to_string()),
        tomato_count: Some(2),
        tomato_date: Some("2026-04-15".to_string()),
    };
    let machine = Machine {
        theme_names: vec!["default".to_string(), "dark".to_string()],
        gh_available: true,
        acli_available: false,
        gws_available: false,
        now_ms: 42,
    };
    let s = session_settings(stored, Some("tok".to_string()), machine, true, false, "2026-04-15");
    assert_eq!(s.sync_token, "*");
    assert_eq!(s.star_date, "2026-04-15");
    assert_eq!(s.star_count, 0, "yesterday's stars are gone");
    assert_eq!(s.tomato_date, "2026-04-15");
    assert_eq!(s.tomato_count, 2);
    assert_eq!(s.theme_idx, 1);
    assert_eq!(s.idle_timeout_secs, 120);
    assert_eq!(s.github_prs_poll_interval_secs, 10);
    assert_eq!(s.jira_cards_poll_interval_secs, 5);
    assert_eq!(s.agenda_poll_interval_secs, 300);
    assert!(s.show_stats);
    assert_eq!(s.hidden_pr_orgs, vec!["zed".to_string()]);
    assert_eq!(s.now_ms, 42);
    let app = App::new(s);
    assert_eq!(app.data.sync_token, "*");
    assert_eq!(app.counters.star_date, "2026-04-15");
}

#[test]
fn stored_token_is_kept_outside_ephemeral_sessions() {
    let stored = StoredSettings {
        theme: None,
        idle_timeout_secs: None,
        idle_timeout_mins: None,
        hidden_pr_orgs: None,
        github_prs_poll_interval_secs: None,
        jira_cards_poll_interval_secs: None,
        agenda_poll_interval_secs: None,
        show_stats: None,
        star_count: None,
        star_date: None,
        tomato_count: None,
        tomato_date: None,
    };
    let machine = Machine { theme_names: vec!["default".to_string()], gh_available: false, acli_available: false, gws_available: false, now_ms: 0 };
    let s = session_settings(stored, Some("tok".to_string()), machine, false, false, "2026-04-15");
    assert_eq!(s.sync_token, "tok");
    assert_eq!(s.idle_timeout_secs, 300);
    assert!(!s.show_stats);
}

#[test]
fn time_stamps_have_their_shape() {
    let mut app = App::new(settings("*"));
    assert_eq!(app.sync_age_label(), "--");
    app.data.last_sync_at = Some(1_700_000_000);
    let label = app.sync_age_label();
    assert_eq!(label.len(), 16);
    assert_eq!(&label[13..14], ":");
    let line = fetched_line(Some(1_700_000_000_000), false);
    assert!(line.starts_with("· fetched "));
    assert_eq!(line.chars().count(), "· fetched ".chars().count() + 8);
    assert_eq!(fetched_line(None, true), "· fetched —  refreshing…");
}

#[test]
fn ages_and_api_errors_from_their_parts() {
    assert_eq!(age_between(0, 90_000), age_label(90));
    assert_eq!(age_between(5_000, 0), age_label(-5));
    let (t, m, h) = api_error_parts_from(
        "HTTP 400 {\"error\":\"Bad\"}",
        "Sync",
        Some((Some("Bad".to_string()), Some("NOT_FOUND".to_string()))),
    );
    assert_eq!(t, "Sync failed");
    assert_eq!(m, "Bad");
    assert_eq!(h.unwrap(), "The item may have been deleted. Try refreshing.");
    let (t, m, h) = api_error_parts_from("plain", "Sync", None);
    assert_eq!((t.as_str(), m.as_str(), h), ("Sync failed", "plain", None));
}

#[test]
fn remainder_by_a_positive_divisor_is_never_negative() {
    assert_eq!(rem_euclid_i64(-1, 4), 3);
    assert_eq!(rem_euclid_i64(i64::MIN, 7), i64::MIN.rem_euclid(7));
    assert_eq!(rem_euclid_i64(i64::MAX, i64::MAX), 0);
}

#[test]
fn pomodoro_remaining_counts_down() {
    let mut app = App::new(settings("*"));
    assert_eq!(app.pomodoro_remaining(), None);
    app.counters.pomodoro_started_at = Some(0);
    assert_eq!(app.pomodoro_remaining_at(60_000), Some(1_440_000));
    assert_eq!(app.pomodoro_remaining_at(2_000_000), Some(0));
}

#[test]
fn refused_project_edit_is_put_back() {
    let mut app = App::new(settings("*"));
    let before = Project { id: "p1".into(), name: "Old".into(), ..Project::default() };
    app.data.projects.push(Project { id: "p1".into(), name: "New".into(), ..Project::default() });
    app.pending.temp_id_pending.push(("u1".to_string(), OptimisticOp::ProjectUpdated { project_id: "p1".into(), before }));
    app.apply_command_status("u1", &CommandStatus::Error(None), &clock());
    assert_eq!(app.data.projects.len(), 1);
    assert_eq!(app.data.projects[0].name, "Old");
    assert!(app.pending.temp_id_pending.is_empty());
    assert_eq!(app.error.as_ref().unwrap().title, "Command failed");
}

#[test]
fn item_add_sends_due_as_an_object() {
    let args = CommandArgs::ItemAdd {
        content: "Buy milk".to_string(),
        project_id: "p1".to_string(),
        due: Some("tomorrow".to_string()),
        priority: Some(4),
    };
    let fields = args_fields(&args);
    let keys: Vec<&str> = fields.iter().map(|(k, _)| k.as_str()).collect();
    assert_eq!(keys, vec!["content", "project_id", "due", "priority"]);
    assert!(matches!(&fields[2].1, ArgValue::DueObject(s) if s == "tomorrow"));
    assert!(matches!(fields[3].1, ArgValue::Number(4)));
}
