use ratatoist::dates::{
    days_between, days_from_civil, display_label, evening_task_hidden, format_due_on,
    format_short_date, offset_days_str, parse_date, today_str, upcoming_header_on,
    weekday_name, work_weekend_hidden, DueUrgency,
};
use ratatoist::model::Due;

fn due(date: &str, recurring: bool, string: Option<&str>) -> Due {
    Due {
        date: date.to_string(),
        is_recurring: recurring,
        timezone: None,
        string: string.map(|s| s.to_string()),
        datetime: None,
        lang: None,
    }
}

#[test]
fn evening_label_hidden_before_5pm_and_visible_after() {
    let evening = vec!["evening".to_string()];
    let other = vec!["work".to_string()];
    let none: Vec<String> = vec![];

    assert!(evening_task_hidden(&evening, 9));
    assert!(evening_task_hidden(&evening, 16));
    assert!(!evening_task_hidden(&other, 9));
    assert!(!evening_task_hidden(&none, 9));

    assert!(!evening_task_hidden(&evening, 17));
    assert!(!evening_task_hidden(&evening, 20));

    let capitalized = vec!["Evening".to_string()];
    assert!(!evening_task_hidden(&capitalized, 9));
}

#[test]
fn recurring_today_shows_today_not_recurrence_string() {
    let today = today_str();
    let d = due(&today, true, Some("every day"));
    assert_eq!(display_label(&d, 0), "today");
}

#[test]
fn recurring_tomorrow_shows_tomorrow() {
    let d = due(&offset_days_str(1), true, Some("every day"));
    assert_eq!(display_label(&d, 1), "tomorrow");
}

#[test]
fn recurring_midweek_shows_weekday() {
    let d = due(&offset_days_str(3), true, Some("every Tue"));
    let label = display_label(&d, 3);
    assert!(
        matches!(
            label.as_str(),
            "Sunday" | "Monday" | "Tuesday" | "Wednesday" | "Thursday" | "Friday" | "Saturday"
        ),
        "got {label:?}"
    );
}

#[test]
fn non_recurring_keeps_user_string() {
    let d = due("2026-04-10", false, Some("10 Apr"));
    assert_eq!(display_label(&d, -5), "10 Apr");
}

#[test]
fn non_recurring_without_string_computes_label() {
    let d = due("2026-04-10", false, None);
    assert_eq!(display_label(&d, -5), "Friday");
}

#[test]
fn display_label_far_dates_use_short_form() {
    let d = due("2026-04-10", true, Some("every month"));
    assert_eq!(display_label(&d, 30), "Apr 10");
    assert_eq!(display_label(&d, -1), "yesterday");
    let empty = due("2026-04-10", false, Some(""));
    assert_eq!(display_label(&empty, 9), "Apr 10");
}

#[test]
fn parse_date_reads_three_numeric_parts() {
    assert_eq!(parse_date("2026-04-10"), Some((2026, 4, 10)));
    assert_eq!(parse_date("+2026-+4-07"), Some((2026, 4, 7)));
    assert_eq!(parse_date("2026-04"), None);
    assert_eq!(parse_date("2026-04-10-1"), None);
    assert_eq!(parse_date("2026-0x-10"), None);
    assert_eq!(parse_date("2026--10"), None);
    assert_eq!(parse_date("2147483648-01-01"), None);
    assert_eq!(parse_date("2147483647-4294967295-0"), Some((2147483647, 4294967295, 0)));
}

#[test]
fn days_from_civil_matches_known_days() {
    assert_eq!(days_from_civil(1970, 1, 1), 0);
    assert_eq!(days_from_civil(2000, 3, 1), 11017);
    assert_eq!(days_from_civil(1969, 12, 31), -1);
    assert_eq!(days_from_civil(2026, 4, 10), 20553);
}

#[test]
fn days_between_counts_days_and_flags_bad_dates() {
    assert_eq!(days_between("2026-04-10", "2026-04-17"), 7);
    assert_eq!(days_between("2026-04-17", "2026-04-10"), -7);
    assert_eq!(days_between("2024-02-28", "2024-03-01"), 2);
    assert_eq!(days_between("nope", "2026-04-10"), 999);
}

#[test]
fn weekday_names_follow_the_calendar() {
    assert_eq!(weekday_name("2026-04-10"), "Friday");
    assert_eq!(weekday_name("1970-01-01"), "Thursday");
    assert_eq!(weekday_name("1969-12-28"), "Sunday");
    assert_eq!(weekday_name("garbage"), "");
}

#[test]
fn short_dates_and_month_edges() {
    assert_eq!(format_short_date("2026-04-10"), "Apr 10");
    assert_eq!(format_short_date("2026-12-01"), "Dec 1");
    assert_eq!(format_short_date("2026-13-01"), "??? 1");
    assert_eq!(format_short_date("2026-00-05"), " 5");
    assert_eq!(format_short_date("someday"), "someday");
}

#[test]
fn upcoming_headers_mark_today_tomorrow_and_overdue() {
    assert_eq!(
        upcoming_header_on("2026-04-15", "2026-04-15"),
        "15 Apr · Today · Wednesday"
    );
    assert_eq!(
        upcoming_header_on("2026-04-16", "2026-04-15"),
        "16 Apr · Tomorrow · Thursday"
    );
    assert_eq!(upcoming_header_on("2026-04-17", "2026-04-15"), "17 Apr · Friday");
    assert_eq!(
        upcoming_header_on("2026-04-01", "2026-04-15"),
        "1 Apr · Overdue · Wednesday"
    );
    assert_eq!(upcoming_header_on("later", "2026-04-15"), "0  · ");
}

#[test]
fn format_due_classifies_urgency() {
    let d = due("2026-04-10", false, None);
    let f = format_due_on(&d, "2026-04-11");
    assert_eq!(f.text, "yesterday");
    assert_eq!(f.urgency, DueUrgency::Overdue);
    assert_eq!(format_due_on(&d, "2026-04-10").urgency, DueUrgency::Today);
    assert_eq!(format_due_on(&d, "2026-04-05").urgency, DueUrgency::Upcoming);
    let far = format_due_on(&d, "2026-03-01");
    assert_eq!(far.urgency, DueUrgency::Future);
    assert_eq!(far.text, "Apr 10");
}

#[test]
fn work_label_hidden_only_on_weekends() {
    let work = vec!["work".to_string()];
    let caps = vec!["Work".to_string()];
    assert!(work_weekend_hidden(&work, true));
    assert!(!work_weekend_hidden(&work, false));
    assert!(!work_weekend_hidden(&caps, true));
}
