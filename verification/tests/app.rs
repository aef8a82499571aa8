use ratatoist::app::{build_item_add_args, AllViewItem, App, AppSettings, Pane, ProjectEntry, TaskForm};
use ratatoist::dates::{offset_days_str, today_str};
use ratatoist::ids::now_ms;
use ratatoist::keys::{KeyAction, KeyCode, KeyEvent};
use ratatoist::model::{CalendarEvent, Due, Project, PullRequest, Task};
use ratatoist::sync::{args_fields, CommandArgs};
use ratatoist::tasks::TaskRow;
use ratatoist::app::POMODORO_MS;

fn test_app() -> App {
    App::new(AppSettings {
        theme_names: vec!["default".to_string()],
        theme_idx: 0,
        sync_token: "*".to_string(),
        idle_timeout_secs: 300,
        idle_forcer: false,
        ephemeral: true,
        star_count: 0,
        star_date: today_str(),
        tomato_count: 0,
        tomato_date: today_str(),
        show_stats: true,
        gh_available: false,
        acli_available: false,
        gws_available: false,
        hidden_pr_orgs: Vec::new(),
        github_prs_poll_interval_secs: 300,
        jira_cards_poll_interval_secs: 300,
        agenda_poll_interval_secs: 300,
        now_ms: now_ms(),
    })
}

fn press(app: &mut App, code: KeyCode) {
    match app.handle_key(KeyEvent::plain(code)) {
        KeyAction::StartInput => app.start_input(),
        KeyAction::SubmitInput => app.submit_input(),
        KeyAction::SubmitForm => app.submit_task_form(),
        KeyAction::FormFieldUp => app.form_field_up(),
        KeyAction::FormFieldDown => app.form_field_down(),
        KeyAction::FormEditField => app.form_edit_field(),
        KeyAction::FormEscNormal => app.submit_input(),
        KeyAction::CancelInput => app.cancel_input(),
        KeyAction::CompleteTaskById(id) => app.complete_task_by_id(id),
        KeyAction::OpenDetailById(id) => {
            app.open_detail_for(id);
        }
        KeyAction::Consumed | KeyAction::Nothing => {}
        _ => panic!("unexpected key action in test"),
    }
}

fn project(id: &str, name: &str, inbox: bool) -> Project {
    Project {
        id: id.to_string(),
        name: name.to_string(),
        inbox_project: if inbox { Some(true) } else { None },
        ..Project::default()
    }
}

fn task(id: &str, content: &str, project_id: &str, due: Option<Due>) -> Task {
    Task {
        id: id.to_string(),
        content: content.to_string(),
        project_id: project_id.to_string(),
        due,
        ..Task::default()
    }
}

fn due(date: &str, recurring: bool, string: Option<&str>) -> Due {
    Due {
        date: date.to_string(),
        is_recurring: recurring,
        string: string.map(|s| s.to_string()),
        ..Due::default()
    }
}

fn pr(number: u64, title: &str, repo: &str) -> PullRequest {
    PullRequest {
        number,
        title: title.into(),
        url: String::new(),
        repo_full_name: repo.into(),
        author_login: "me".into(),
        updated_at: String::new(),
        is_draft: false,
        node_id: String::new(),
        check_status: None,
    }
}

fn event(summary: &str, start: &str, end: &str, link: &str, cal: &str) -> CalendarEvent {
    CalendarEvent {
        summary: summary.to_string(),
        start: start.to_string(),
        end: end.to_string(),
        all_day: false,
        location: String::new(),
        html_link: link.to_string(),
        calendar_name: cal.to_string(),
    }
}

fn visible_ids(app: &App) -> Vec<String> {
    app.visible_tasks()
        .into_iter()
        .map(|r| app.row_task(r).unwrap().id.clone())
        .collect()
}

fn pending_cmd_types(app: &App) -> Vec<String> {
    app.pending.pending_commands.iter().map(|c| c.kind.clone()).collect()
}

fn find<'a>(app: &'a App, id: &str) -> &'a Task {
    app.data.tasks.iter().find(|t| t.id == id).unwrap()
}

#[test]
fn add_modal_updates_due_date() {
    let mut app = test_app();
    app.nav.active_pane = Pane::Tasks;
    press(&mut app, KeyCode::Char('a'));
    let form = app.input.task_form.as_ref().expect("form opens");
    assert_eq!(form.active_field, 0);
    assert!(form.editing, "new form starts editing content");

    for c in "Buy milk".chars() {
        press(&mut app, KeyCode::Char(c));
    }
    press(&mut app, KeyCode::Enter);
    let form = app.input.task_form.as_ref().unwrap();
    assert_eq!(form.content, "Buy milk");
    assert!(!form.editing);

    press(&mut app, KeyCode::Char('j'));
    press(&mut app, KeyCode::Char('j'));
    assert_eq!(app.input.task_form.as_ref().unwrap().active_field, 2);

    press(&mut app, KeyCode::Enter);
    assert!(app.input.task_form.as_ref().unwrap().editing, "Enter on Due date should enter editing mode");

    for c in "tomorrow".chars() {
        press(&mut app, KeyCode::Char(c));
    }
    press(&mut app, KeyCode::Enter);
    let form = app.input.task_form.as_ref().unwrap();
    assert_eq!(form.due_string, "tomorrow", "Due date should be saved into the form after editing");
    assert!(!form.editing);
}

#[test]
fn item_add_args_use_due_object_for_sync_api() {
    let mut form = TaskForm::new("project_1".to_string());
    form.content = "Buy milk".to_string();
    form.due_string = "tomorrow".to_string();
    let args = build_item_add_args(&form, "project_1");
    match args {
        CommandArgs::ItemAdd { content, project_id, due, priority } => {
            assert_eq!(content, "Buy milk");
            assert_eq!(project_id, "project_1");
            assert_eq!(due, Some("tomorrow".to_string()), "Sync API expects a `due` object");
            assert_eq!(priority, None);
        }
        _ => panic!("expected item_add args"),
    }
}

#[test]
fn item_add_args_omits_due_when_empty() {
    let mut form = TaskForm::new("project_1".to_string());
    form.content = "Buy milk".to_string();
    let args = build_item_add_args(&form, "project_1");
    match &args {
        CommandArgs::ItemAdd { due, .. } => assert!(due.is_none()),
        _ => panic!("expected item_add args"),
    }
    let keys: Vec<String> = args_fields(&args).into_iter().map(|(k, _)| k).collect();
    assert!(!keys.iter().any(|k| k == "due"));
    assert!(!keys.iter().any(|k| k == "due_string"));
}

#[test]
fn add_from_today_view_defaults_to_today() {
    let mut app = test_app();
    app.data.projects.push(project("inbox_1", "Inbox", true));
    app.data.projects.push(project("proj_2", "Work", false));
    app.nav.selected_project = 1;
    app.activate_today_view();
    app.start_input();
    let form = app.input.task_form.as_ref().expect("form opens");
    assert_eq!(form.due_string, "today", "Due date pre-fills to today");
    assert_eq!(form.project_id, "inbox_1", "Today-view adds go to Inbox");
}

#[test]
fn add_from_all_view_today_section_defaults_to_today() {
    let mut app = test_app();
    app.data.projects.push(project("inbox_1", "Inbox", true));
    app.data.projects.push(project("proj_2", "Work", false));
    app.nav.selected_project = 1;
    app.data.tasks.push(task("t1", "Plan week", "proj_2", Some(due(&today_str(), false, None))));
    app.external.agenda_events.push(event(
        "Standup",
        "2026-04-18T09:00:00-04:00",
        "2026-04-18T09:30:00-04:00",
        "",
        "Work",
    ));
    app.views.all_view_active = true;
    app.views.today_view_active = false;
    app.nav.selected_all_item = 1;

    app.start_input();
    let form = app.input.task_form.as_ref().expect("form opens");
    assert_eq!(form.due_string, "today", "All-view Today-section adds default to today");
    assert_eq!(form.project_id, "inbox_1", "All-view Today-section adds route to Inbox");

    app.cancel_input();
    app.nav.selected_all_item = 0;
    app.start_input();
    let form = app.input.task_form.as_ref().expect("form opens");
    assert_eq!(form.due_string, "", "All-view Agenda-section adds keep empty due");
}

#[test]
fn add_from_project_keeps_due_empty() {
    let mut app = test_app();
    app.data.projects.push(project("proj_1", "Work", false));
    app.nav.selected_project = 0;
    app.start_input();
    let form = app.input.task_form.as_ref().expect("form opens");
    assert_eq!(form.due_string, "");
    assert_eq!(form.project_id, "proj_1");
}

#[test]
fn completing_recurring_in_today_hides_optimistically() {
    let mut app = test_app();
    app.data.projects.push(project("p1", "Work", false));
    app.data.tasks.push(task("rec", "Brush teeth", "p1", Some(due(&today_str(), true, Some("every day")))));
    app.data.tasks.push(task("other", "Take pills", "p1", Some(due(&today_str(), true, Some("every day")))));
    app.activate_today_view();
    app.nav.active_pane = Pane::Tasks;
    app.nav.selected_task = 0;
    assert_eq!(app.visible_tasks().len(), 2);

    app.enqueue_complete_selected();

    assert_eq!(visible_ids(&app), vec!["other".to_string()], "Brush teeth hides immediately");
    assert!(!find(&app, "rec").checked);
    assert!(app.pending.pending_close_recurring.contains(&"rec".to_string()));
    assert_eq!(pending_cmd_types(&app), vec!["item_close".to_string()]);
}

#[test]
fn complete_recurring_keeps_task_visible_and_sends_item_close() {
    let mut app = test_app();
    app.data.projects.push(project("p1", "Work", false));
    app.data.tasks.push(task("t_rec", "Stand-up", "p1", Some(due("2026-04-15", true, Some("every weekday")))));
    app.nav.active_pane = Pane::Tasks;
    app.nav.selected_task = 0;

    app.enqueue_complete_selected();

    assert!(!app.data.tasks[0].checked, "recurring task must stay unchecked after optimistic complete");
    assert_eq!(pending_cmd_types(&app), vec!["item_close".to_string()]);
}

#[test]
fn completing_recurring_in_project_view_hides_immediately() {
    let mut app = test_app();
    app.data.projects.push(project("p1", "Work", false));
    app.data.tasks.push(task(
        "rec",
        "Clean air purifier prefilters",
        "p1",
        Some(due("2026-07-16", true, Some("every month"))),
    ));
    app.data.tasks.push(task("other", "Other task", "p1", None));
    app.nav.selected_project = 0;
    app.nav.active_pane = Pane::Tasks;
    app.nav.selected_task = 0;

    app.enqueue_complete_selected();

    let ids = visible_ids(&app);
    assert!(!ids.contains(&"rec".to_string()), "recurring task must disappear from project view after completing");
    assert!(app.pending.pending_close_recurring.contains(&"rec".to_string()));
    assert!(!find(&app, "rec").checked);
}

#[test]
fn all_view_x_completes_task_by_id() {
    let mut app = test_app();
    app.data.projects.push(project("p1", "Work", false));
    app.data.tasks.push(task("wrong", "Not due today", "p1", None));
    app.data.tasks.push(task("right", "Due today", "p1", Some(due(&today_str(), false, None))));
    app.nav.selected_project = 0;
    app.activate_all_view();
    app.nav.active_pane = Pane::Tasks;
    app.nav.selected_all_item = 0;

    let items = app.all_view_items();
    assert_eq!(items.len(), 1);
    assert!(matches!(items[0], AllViewItem::Task(_)));

    let action = app.handle_key(KeyEvent::plain(KeyCode::Char('x')));
    match action {
        KeyAction::CompleteTaskById(id) => {
            assert_eq!(id, "right", "handler resolved the correct task ID");
            app.enqueue_complete_task_by_id(id);
        }
        _ => panic!("expected CompleteTaskById"),
    }
    assert!(find(&app, "right").checked, "Due-today task was marked complete");
    assert!(!find(&app, "wrong").checked, "Project task outside All view must not be touched");
    assert_eq!(pending_cmd_types(&app), vec!["item_close".to_string()]);
}

#[test]
fn all_view_enter_opens_detail_for_the_right_task() {
    let mut app = test_app();
    app.data.projects.push(project("p_selected", "Selected", false));
    app.data.projects.push(project("p_other", "Other", false));
    app.data.tasks.push(task("visible_but_wrong", "In selected project, not due today", "p_selected", None));
    app.data.tasks.push(task("all_view_task", "Due today elsewhere", "p_other", Some(due(&today_str(), false, None))));
    app.nav.selected_project = 0;
    app.activate_all_view();
    app.nav.active_pane = Pane::Tasks;
    app.nav.selected_all_item = 0;

    let action = app.handle_key(KeyEvent::plain(KeyCode::Enter));
    match action {
        KeyAction::OpenDetailById(id) => {
            assert_eq!(id, "all_view_task");
            app.open_detail_for(id);
        }
        _ => panic!("expected OpenDetailById"),
    }
    assert_eq!(app.nav.detail_task_id.as_deref(), Some("all_view_task"));
    assert!(matches!(app.nav.active_pane, Pane::Detail));
    assert_eq!(app.selected_task().map(|t| t.id.as_str()), Some("all_view_task"));
}

#[test]
fn upcoming_view_lists_all_scheduled_tasks_sorted_by_date() {
    let mut app = test_app();
    app.data.projects.push(project("p1", "Work", false));
    app.data.tasks.push(task("past", "Old", "p1", Some(due("2026-04-10", false, None))));
    app.data.tasks.push(task("today", "Now", "p1", Some(due(&today_str(), false, None))));
    app.data.tasks.push(task("future", "Later", "p1", Some(due(&offset_days_str(30), false, None))));
    app.data.tasks.push(task("undated", "Someday", "p1", None));
    let mut done = task("done", "Shipped", "p1", Some(due(&today_str(), false, None)));
    done.checked = true;
    app.data.tasks.push(done);

    app.activate_upcoming_view();
    assert_eq!(visible_ids(&app), vec!["past".to_string(), "today".to_string(), "future".to_string()]);
}

#[test]
fn add_from_upcoming_view_targets_inbox_no_default_due() {
    let mut app = test_app();
    app.data.projects.push(project("inbox_1", "Inbox", true));
    app.data.projects.push(project("p2", "Work", false));
    app.nav.selected_project = 1;
    app.activate_upcoming_view();
    app.start_input();
    let form = app.input.task_form.as_ref().expect("form opens");
    assert_eq!(form.project_id, "inbox_1");
    assert_eq!(form.due_string, "");
}

#[test]
fn activating_upcoming_deactivates_today() {
    let mut app = test_app();
    app.activate_today_view();
    assert!(app.views.today_view_active);
    app.activate_upcoming_view();
    assert!(app.views.upcoming_view_active);
    assert!(!app.views.today_view_active);
}

#[test]
fn sidebar_hides_external_entries_when_cli_missing() {
    let mut app = test_app();
    app.data.projects.push(project("inbox", "Inbox", true));
    app.external.gh_available = false;
    app.external.acli_available = false;
    app.external.gws_available = false;

    let entries = app.project_list_entries();
    assert!(!entries.iter().any(|e| matches!(e, ProjectEntry::GithubPrsView(_))), "PRs hidden when gh missing");
    assert!(!entries.iter().any(|e| matches!(e, ProjectEntry::JiraCardsView)), "Jira hidden when acli missing");
    assert!(!entries.iter().any(|e| matches!(e, ProjectEntry::AgendaView)), "Agenda hidden when gws missing");

    app.external.gh_available = true;
    let entries = app.project_list_entries();
    assert!(
        !entries.iter().any(|e| matches!(e, ProjectEntry::GithubPrsView(_))),
        "no PR entries until we have PR data"
    );

    app.external.github_prs.push(pr(1, "t", "cxrlos/ratatoist"));
    let entries = app.project_list_entries();
    assert!(entries.iter().any(|e| matches!(e, ProjectEntry::GithubPrsView(_))), "PR entry appears once we have data");
    assert!(!entries.iter().any(|e| matches!(e, ProjectEntry::JiraCardsView)));

    app.external.acli_available = true;
    let entries = app.project_list_entries();
    assert!(entries.iter().any(|e| matches!(e, ProjectEntry::JiraCardsView)));
}

#[test]
fn show_stats_false_skips_stats_pane_on_tab() {
    let mut app = test_app();
    app.counters.show_stats = false;
    app.nav.active_pane = Pane::Tasks;
    press(&mut app, KeyCode::Tab);
    assert!(matches!(app.nav.active_pane, Pane::Projects), "Tab from Tasks wraps to Projects when Stats hidden");
    app.nav.active_pane = Pane::Projects;
    press(&mut app, KeyCode::BackTab);
    assert!(matches!(app.nav.active_pane, Pane::Tasks), "BackTab from Projects wraps to Tasks when Stats hidden");

    app.counters.show_stats = true;
    app.nav.active_pane = Pane::Tasks;
    press(&mut app, KeyCode::Tab);
    assert!(matches!(app.nav.active_pane, Pane::StatsDock), "Tab from Tasks descends into Stats when shown");
}

#[test]
fn github_prs_view_is_mutually_exclusive_with_today_and_upcoming() {
    let mut app = test_app();
    app.activate_today_view();
    app.activate_github_prs_view("cxrlos".to_string());
    assert!(app.is_pr_view_active());
    assert_eq!(app.views.active_pr_org.as_deref(), Some("cxrlos"));
    assert!(!app.views.today_view_active);
    assert!(!app.views.upcoming_view_active);

    app.activate_upcoming_view();
    assert!(app.views.upcoming_view_active);
    assert!(!app.is_pr_view_active());
}

#[test]
fn all_view_interleaves_agenda_events_before_tasks() {
    let mut app = test_app();
    app.data.projects.push(project("p1", "Work", false));
    app.data.tasks.push(task("t1", "Today task", "p1", Some(due(&today_str(), false, None))));
    app.external.agenda_events.push(event(
        "Standup",
        "2026-04-17T09:00:00-04:00",
        "2026-04-17T09:30:00-04:00",
        "https://calendar.google.com/event?eid=abc",
        "Work",
    ));
    app.external.agenda_events.push(event(
        "Dentist",
        "2026-04-17T14:00:00-04:00",
        "2026-04-17T15:00:00-04:00",
        "https://calendar.google.com/event?eid=def",
        "Personal",
    ));
    let items = app.all_view_items();
    assert_eq!(items.len(), 3, "one task + two events");
    assert!(matches!(items[0], AllViewItem::AgendaEvent(0)));
    assert!(matches!(items[1], AllViewItem::AgendaEvent(1)));
    assert!(matches!(items[2], AllViewItem::Task(_)));
}

#[test]
fn agenda_sidebar_entry_gated_by_gws_available() {
    let mut app = test_app();
    app.data.projects.push(project("inbox", "Inbox", true));
    app.external.gh_available = false;
    app.external.acli_available = false;
    app.external.gws_available = false;
    assert!(
        !app.project_list_entries().iter().any(|e| matches!(e, ProjectEntry::AgendaView)),
        "Agenda hidden when gws missing"
    );
    app.external.gws_available = true;
    assert!(
        app.project_list_entries().iter().any(|e| matches!(e, ProjectEntry::AgendaView)),
        "Agenda appears once gws is detected"
    );
}

#[test]
fn hide_pr_org_removes_owner_from_sidebar() {
    let mut app = test_app();
    app.external.github_prs = vec![pr(1, "a", "appfolio/apm_bundle"), pr(2, "c", "cxrlos/ratatoist")];
    let before: Vec<String> = app.pr_owners_with_counts().into_iter().map(|(o, _)| o).collect();
    assert_eq!(before, vec!["appfolio".to_string(), "cxrlos".to_string()]);

    app.activate_github_prs_view("appfolio".to_string());
    assert_eq!(app.views.active_pr_org.as_deref(), Some("appfolio"));

    app.hide_pr_org("appfolio".to_string());
    let after: Vec<String> = app.pr_owners_with_counts().into_iter().map(|(o, _)| o).collect();
    assert_eq!(after, vec!["cxrlos".to_string()]);
    assert!(app.views.active_pr_org.is_none());
    assert!(app.external.hidden_pr_orgs.contains(&"appfolio".to_string()));
}

#[test]
fn pr_owners_with_counts_groups_by_owner() {
    let mut app = test_app();
    app.external.github_prs = vec![
        pr(1, "a", "appfolio/apm_bundle"),
        pr(2, "b", "appfolio/otto"),
        pr(3, "c", "cxrlos/ratatoist"),
    ];
    let owners = app.pr_owners_with_counts();
    assert_eq!(owners, vec![("appfolio".to_string(), 2), ("cxrlos".to_string(), 1)]);
}

#[test]
fn active_org_prs_filters_to_chosen_org() {
    let mut app = test_app();
    app.external.github_prs = vec![pr(1, "apm", "appfolio/apm_bundle"), pr(2, "rata", "cxrlos/ratatoist")];
    app.activate_github_prs_view("cxrlos".to_string());
    let filtered: Vec<&str> = app.active_org_prs().iter().map(|p| p.repo_full_name.as_str()).collect();
    assert_eq!(filtered, vec!["cxrlos/ratatoist"]);
}

#[test]
fn complete_nonrecurring_flips_checked_and_sends_item_close() {
    let mut app = test_app();
    app.data.projects.push(project("p1", "Work", false));
    app.data.tasks.push(task("t_once", "Write memo", "p1", Some(due("2026-04-15", false, None))));
    app.nav.active_pane = Pane::Tasks;
    app.nav.selected_task = 0;

    app.enqueue_complete_selected();

    assert!(app.data.tasks[0].checked);
    assert_eq!(pending_cmd_types(&app), vec!["item_close".to_string()]);
}

#[test]
fn star_jar_earns_one_per_completion_and_resets_at_day_rollover() {
    let mut app = test_app();
    app.data.projects.push(project("p1", "Work", false));
    app.data.tasks.push(task("t_once", "Write memo", "p1", Some(due("2026-04-15", false, None))));
    app.data.tasks.push(task("t_recur", "Standup", "p1", Some(due("2026-04-15", true, None))));

    assert_eq!(app.counters.star_count, 0, "jar starts empty");
    app.enqueue_complete_task_by_id("t_once".to_string());
    assert_eq!(app.counters.star_count, 1);
    app.enqueue_complete_task_by_id("t_recur".to_string());
    assert_eq!(app.counters.star_count, 2);
    app.enqueue_complete_task_by_id("t_once".to_string());
    assert_eq!(app.counters.star_count, 2, "reopen does not remove stars");

    app.counters.star_date = "1999-01-01".to_string();
    app.data.tasks[0].checked = false;
    app.enqueue_complete_task_by_id("t_once".to_string());
    assert_eq!(app.counters.star_count, 1, "jar reset at day rollover");
    assert_eq!(app.counters.star_date, today_str());
}

#[test]
fn toggle_pomodoro_starts_and_cancels() {
    let mut app = test_app();
    app.counters.tomato_count = 0;
    assert!(app.counters.pomodoro_started_at.is_none(), "starts idle");
    app.toggle_pomodoro();
    assert!(app.counters.pomodoro_started_at.is_some(), "p starts a pomodoro");
    assert_eq!(app.counters.tomato_count, 0, "start doesn't award a tomato");
    app.toggle_pomodoro();
    assert!(app.counters.pomodoro_started_at.is_none(), "second p cancels the pomodoro");
    assert_eq!(app.counters.tomato_count, 0, "cancel doesn't award a tomato");
}

#[test]
fn maybe_award_tomato_credits_and_resets_at_rollover() {
    let mut app = test_app();
    app.counters.tomato_count = 0;
    app.counters.tomato_date = today_str();

    app.maybe_award_tomato();
    assert_eq!(app.counters.tomato_count, 0);

    app.toggle_pomodoro();
    app.maybe_award_tomato();
    assert_eq!(app.counters.tomato_count, 0, "mid-timer awards nothing");
    assert!(app.counters.pomodoro_started_at.is_some());

    app.counters.pomodoro_started_at = Some(now_ms() - POMODORO_MS);
    app.maybe_award_tomato();
    assert_eq!(app.counters.tomato_count, 1, "completion awards a tomato");
    assert!(app.counters.pomodoro_started_at.is_none(), "completion clears running state");

    app.counters.tomato_date = "1999-01-01".to_string();
    app.counters.pomodoro_started_at = Some(now_ms() - POMODORO_MS);
    app.maybe_award_tomato();
    assert_eq!(app.counters.tomato_count, 1, "rollover zeroed then incremented");
    assert_eq!(app.counters.tomato_date, today_str());
}

#[test]
fn project_outline_lists_subtasks_under_parents_unless_folded() {
    let mut app = test_app();
    app.views.all_view_active = false;
    app.data.projects.push(project("p1", "Work", false));
    let mut b = task("b", "B", "p1", None);
    b.child_order = 2;
    let mut a = task("a", "A", "p1", None);
    a.child_order = 1;
    let mut a2 = task("a2", "A2", "p1", None);
    a2.parent_id = Some("a".to_string());
    a2.child_order = 2;
    let mut a1 = task("a1", "A1", "p1", None);
    a1.parent_id = Some("a".to_string());
    a1.child_order = 1;
    app.data.tasks = vec![b, a, a2, a1];
    assert_eq!(visible_ids(&app), vec!["a", "a1", "a2", "b"]);
    app.nav.collapsed.push("a".to_string());
    assert_eq!(visible_ids(&app), vec!["a", "b"]);
    assert!(app.visible_tasks().iter().all(|r| matches!(r, TaskRow::Live(_))));
}
