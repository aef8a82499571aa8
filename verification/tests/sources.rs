use ratatoist::app::{App, AppSettings, SortMode, TaskFilter};
use ratatoist::model::{CalendarEvent, CheckStatus, PullRequest};
use ratatoist::settings::{
    agenda_interval, github_prs_interval, idle_timeout_from, jar_for_today, jira_cards_interval, sort_strings,
    theme_index,
};
use ratatoist::sources::{
    apply_check_states, calendar_scope_granted, card_from_item, check_states, check_status_query, events_from_items,
    extract_time, merge_agenda, merge_prs, pr_from_item, project_key, visible_calendars, CalendarEntry, EventItem,
    JiraItem, NameField, PrItem, TimeField,
};
use ratatoist::todoist::{
    after_rate_limit, api_error_text, comments_url, completed_tasks_url, first_backoff, parse_u64_text,
    retry_after_of, task_from_completed, user_url, ws_reconnect, CompletedRecord, RateLimitError,
};

fn pr(url: &str, node: &str) -> PullRequest {
    pr_from_item(PrItem {
        id: Some(node.to_string()),
        number: Some(7),
        title: Some("Fix".to_string()),
        url: Some(url.to_string()),
        repo_name_with_owner: Some("acme/app".to_string()),
        author_login: None,
        updated_at: None,
        is_draft: None,
    })
}

fn event(start: &str, cal: &str) -> CalendarEvent {
    CalendarEvent { start: start.to_string(), calendar_name: cal.to_string(), ..CalendarEvent::default() }
}

#[test]
fn pr_items_take_defaults_for_missing_fields() {
    let p = pr("https://x/1", "N1");
    assert_eq!(p.number, 7);
    assert_eq!(p.author_login, "");
    assert!(!p.is_draft);
    assert!(p.check_status.is_none());
    let blank = pr_from_item(PrItem {
        id: None,
        number: None,
        title: None,
        url: None,
        repo_name_with_owner: None,
        author_login: None,
        updated_at: None,
        is_draft: Some(true),
    });
    assert_eq!(blank.number, 0);
    assert_eq!(blank.node_id, "");
    assert!(blank.is_draft);
}

#[test]
fn authored_and_assigned_prs_merge_without_repeats() {
    let merged = merge_prs(vec![pr("a", "1"), pr("b", "2")], vec![pr("b", "2"), pr("c", "3")]);
    let urls: Vec<&str> = merged.iter().map(|p| p.url.as_str()).collect();
    assert_eq!(urls, vec!["a", "b", "c"]);
}

#[test]
fn check_query_aliases_each_node() {
    let prs = vec![pr("a", "N\"1"), pr("b", ""), pr("c", "N2")];
    let (ids, q) = check_status_query(&prs).unwrap();
    assert_eq!(ids, vec!["N\"1".to_string(), "N2".to_string()]);
    assert_eq!(
        q,
        "query { n0: node(id: \"N\\\"1\") { ...S } n1: node(id: \"N2\") { ...S }  } fragment S on PullRequest { commits(last: 1) { nodes { commit { statusCheckRollup { state } } } } }"
    );
    assert!(check_status_query(&vec![pr("z", "")]).is_none());
}

#[test]
fn check_states_fill_in_known_rollups() {
    let ids = vec!["N1".to_string(), "N2".to_string(), "N3".to_string()];
    let table = check_states(&ids, &vec![Some("SUCCESS".to_string()), Some("WEIRD".to_string()), Some("EXPECTED".to_string())]);
    assert_eq!(table, vec![("N1".to_string(), CheckStatus::Success), ("N3".to_string(), CheckStatus::Pending)]);
    let mut prs = vec![pr("a", "N1"), pr("b", "N2"), pr("c", "N3")];
    apply_check_states(&mut prs, &table);
    assert_eq!(prs[0].check_status, Some(CheckStatus::Success));
    assert_eq!(prs[1].check_status, None);
    assert_eq!(prs[2].check_status, Some(CheckStatus::Pending));
}

#[test]
fn jira_items_become_cards() {
    assert_eq!(project_key("ABC-12"), "ABC");
    assert_eq!(project_key("NOKEY"), "");
    let c = card_from_item(JiraItem {
        key: Some("OPS-3".to_string()),
        summary: None,
        status: NameField { text: None, name: Some("In Progress".to_string()) },
        priority: NameField { text: Some("High".to_string()), name: None },
        issue_type: NameField { text: None, name: None },
    });
    assert_eq!(c.project_key, "OPS");
    assert_eq!(c.summary, "");
    assert_eq!(c.status, "In Progress");
    assert_eq!(c.priority, "High");
    assert_eq!(c.issue_type, "");
}

#[test]
fn only_selected_visible_calendars_are_blended() {
    let cals = visible_calendars(vec![
        CalendarEntry {
            id: Some("a".to_string()),
            selected: Some(true),
            hidden: None,
            summary_override: Some("Mine".to_string()),
            summary: Some("Owner".to_string()),
        },
        CalendarEntry { id: Some("b".to_string()), selected: None, hidden: None, summary_override: None, summary: None },
        CalendarEntry { id: Some("c".to_string()), selected: Some(true), hidden: Some(true), summary_override: None, summary: None },
        CalendarEntry { id: Some("d".to_string()), selected: Some(true), hidden: Some(false), summary_override: None, summary: None },
    ]);
    assert_eq!(cals, vec![("a".to_string(), "Mine".to_string()), ("d".to_string(), "d".to_string())]);
}

#[test]
fn events_skip_cancelled_and_mark_all_day() {
    assert_eq!(extract_time(TimeField { date_time: None, date: Some("2026-04-15".to_string()) }), ("2026-04-15".to_string(), true));
    assert_eq!(extract_time(TimeField { date_time: None, date: None }), (String::new(), false));
    let evs = events_from_items(
        vec![
            EventItem {
                status: Some("cancelled".to_string()),
                start: TimeField { date_time: Some("x".to_string()), date: None },
                end: TimeField { date_time: None, date: None },
                summary: None,
                location: None,
                html_link: None,
            },
            EventItem {
                status: None,
                start: TimeField { date_time: Some("2026-04-15T09:00:00Z".to_string()), date: None },
                end: TimeField { date_time: Some("2026-04-15T10:00:00Z".to_string()), date: None },
                summary: None,
                location: None,
                html_link: Some("https://cal/1".to_string()),
            },
        ],
        "Work",
    );
    assert_eq!(evs.len(), 1);
    assert_eq!(evs[0].summary, "(no title)");
    assert!(!evs[0].all_day);
    assert_eq!(evs[0].calendar_name, "Work");
}

#[test]
fn agenda_blends_in_start_order_and_fails_only_when_all_fail() {
    let out = merge_agenda(vec![
        Ok(vec![event("2026-04-15T11:00:00Z", "a"), event("2026-04-15T08:00:00Z", "a")]),
        Err("down".to_string()),
        Ok(vec![event("2026-04-15T09:00:00Z", "b")]),
    ])
    .unwrap();
    let starts: Vec<&str> = out.iter().map(|e| e.start.as_str()).collect();
    assert_eq!(starts, vec!["2026-04-15T08:00:00Z", "2026-04-15T09:00:00Z", "2026-04-15T11:00:00Z"]);
    assert_eq!(merge_agenda(vec![Err("first".to_string()), Err("second".to_string())]).unwrap_err(), "first");
    assert!(merge_agenda(Vec::new()).unwrap().is_empty());
}

#[test]
fn calendar_scope_detection() {
    assert!(calendar_scope_granted(&vec!["openid".to_string(), "https://www.googleapis.com/auth/calendar.readonly".to_string()]));
    assert!(!calendar_scope_granted(&vec!["https://www.googleapis.com/auth/drive".to_string()]));
}

#[test]
fn settings_values_are_resolved() {
    let names = vec!["default".to_string(), "dark".to_string()];
    assert_eq!(theme_index(&names, &Some("dark".to_string())), 1);
    assert_eq!(theme_index(&names, &Some("missing".to_string())), 0);
    assert_eq!(idle_timeout_from(Some(90), Some(5)), 90);
    assert_eq!(idle_timeout_from(None, Some(5)), 300);
    assert_eq!(idle_timeout_from(None, Some(2)), 120);
    assert_eq!(idle_timeout_from(None, None), 300);
    assert_eq!(github_prs_interval(Some(1)), 5);
    assert_eq!(github_prs_interval(None), 10);
    assert_eq!(jira_cards_interval(Some(42)), 42);
    assert_eq!(jira_cards_interval(None), 10);
    assert_eq!(agenda_interval(Some(10)), 30);
    assert_eq!(agenda_interval(None), 300);
    assert_eq!(jar_for_today(&Some("2026-04-15".to_string()), Some(4), "2026-04-15"), (4, "2026-04-15".to_string()));
    assert_eq!(jar_for_today(&Some("2026-04-14".to_string()), Some(4), "2026-04-15"), (0, "2026-04-15".to_string()));
    assert_eq!(
        sort_strings(&vec!["zeta".to_string(), "acme".to_string(), "mid".to_string()]),
        vec!["acme".to_string(), "mid".to_string(), "zeta".to_string()]
    );
}

#[test]
fn settings_record_lists_hidden_owners_sorted() {
    let mut a = App::new(AppSettings {
        theme_names: vec!["default".to_string()],
        theme_idx: 0,
        sync_token: "*".to_string(),
        idle_timeout_secs: 600,
        idle_forcer: false,
        ephemeral: true,
        star_count: 3,
        star_date: "2026-04-15".to_string(),
        tomato_count: 1,
        tomato_date: "2026-04-15".to_string(),
        show_stats: false,
        gh_available: false,
        acli_available: false,
        gws_available: false,
        hidden_pr_orgs: vec!["zed".to_string(), "abc".to_string()],
        github_prs_poll_interval_secs: 20,
        jira_cards_poll_interval_secs: 10,
        agenda_poll_interval_secs: 300,
        now_ms: 0,
    });
    a.counters.star_count = 3;
    let r = a.ui_settings();
    assert_eq!(r.theme, "default");
    assert_eq!(r.hidden_pr_orgs, vec!["abc".to_string(), "zed".to_string()]);
    assert_eq!(r.idle_timeout_secs, 600);
    assert_eq!(r.star_count, 3);
}

#[test]
fn api_addresses_and_errors() {
    assert_eq!(user_url(), "https://api.todoist.com/api/v1/user");
    assert_eq!(comments_url("42"), "https://api.todoist.com/api/v1/comments?task_id=42");
    assert_eq!(
        completed_tasks_url(Some("p1"), None, Some(30)),
        "https://api.todoist.com/api/v1/tasks/completed?annotate_items=1&project_id=p1&limit=30"
    );
    assert_eq!(api_error_text("404 Not Found", "gone"), "Todoist API error (404 Not Found): gone");
    assert_eq!(RateLimitError { retry_after_secs: Some(12) }.message(), "rate limited (retry after 12s)");
    assert_eq!(RateLimitError { retry_after_secs: None }.message(), "rate limited");
}

#[test]
fn completed_records_become_done_tasks() {
    let t = task_from_completed(CompletedRecord {
        task_id: "t9".to_string(),
        content: "Ship".to_string(),
        completed_at: "2026-04-15T10:00:00Z".to_string(),
        project_id: "p1".to_string(),
        section_id: None,
        note_count: Some(2),
        user_id: None,
        item_object: None,
    });
    assert_eq!(t.id, "t9");
    assert!(t.checked);
    assert_eq!(t.completed_at.as_deref(), Some("2026-04-15T10:00:00Z"));
    assert_eq!(t.priority, 0);
}

#[test]
fn retry_after_parsing_and_backoff() {
    assert_eq!(parse_u64_text("12"), Some(12));
    assert_eq!(parse_u64_text("+7"), Some(7));
    assert_eq!(parse_u64_text(""), None);
    assert_eq!(parse_u64_text("+"), None);
    assert_eq!(parse_u64_text("1.5"), None);
    assert_eq!(parse_u64_text("18446744073709551615"), Some(u64::MAX));
    assert_eq!(parse_u64_text("18446744073709551616"), None);
    assert_eq!(retry_after_of(Some("abc"), Some(9)), Some(9));
    assert_eq!(retry_after_of(Some("4"), Some(9)), Some(4));
    let b = first_backoff();
    let s = after_rate_limit(&b, None, 5);
    assert_eq!(s.sleep_secs, 1 + 2);
    assert_eq!(s.next.base_delay_secs, 2);
    assert!(!s.give_up);
    let s3 = after_rate_limit(&ratatoist::todoist::Backoff { attempt: 3, base_delay_secs: 40 }, Some(10), 3);
    assert_eq!(s3.sleep_secs, 10);
    assert_eq!(s3.next.base_delay_secs, 60);
    assert!(s3.give_up);
    assert_eq!(ws_reconnect(5, true), (1, 5));
    assert_eq!(ws_reconnect(40, false), (40, 60));
}

#[test]
fn filter_and_sort_cycles_come_back() {
    let f = TaskFilter::Active;
    assert_eq!(f.next().next().next(), f);
    let m = SortMode::Default;
    assert_eq!(m.next().next().next().next(), m);
    assert_ne!(m.next(), m);
}
