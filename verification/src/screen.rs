//! What the screen shows, decided apart from drawing it: the sidebar
//! height budget, the pomodoro countdown and toaster box, the status bar
//! texts, the stats dock lines and the tasks block title.
use vstd::prelude::*;
use vstd::string::*;

use crate::app::{dock_hint, dock_item_at, sort_mode_label, App, DockItem, OverviewStats, Pane, SortMode};
use crate::model::CheckStatus;
use crate::tasks::Clock;
use crate::text::{decimal, push_decimal};

verus! {

/// Rows of the stats dock when shown.
pub const STATS_HEIGHT: u16 = 4;

/// Rows of the pomodoro box.
pub const POMODORO_HEIGHT: u16 = 3;

/// Border rows of the star jar.
pub const STAR_JAR_BORDER_ROWS: u16 = 2;

/// Project rows kept before the star jar collapses its stars.
pub const STAR_JAR_PROJECT_FLOOR: u16 = 3;

/// Rows of the settings block when shown.
pub const SETTINGS_HEIGHT: u16 = 5;

/// Widest the pomodoro toaster gets, borders included.
pub const TOASTER_WIDTH: u16 = 40;

/// Body rows the star jar may take in a left column `height` rows high:
/// what the stats dock, the pomodoro box, the jar's borders, the settings
/// block and the project floor leave, at least one.
pub open spec fn jar_budget(height: int, show_stats: bool, show_settings: bool) -> int {
    let used = (if show_stats {
        4int
    } else {
        0int
    }) + 3 + 2 + (if show_settings {
        5int
    } else {
        0int
    }) + 3;
    if height - used >= 1 {
        height - used
    } else {
        1
    }
}

/// The star jar's body budget for a left column `height` rows high.
pub fn jar_body_budget(height: u16, show_stats: bool, show_settings: bool) -> (r: u16)
    ensures
        r == jar_budget(height as int, show_stats, show_settings),
{
    let stats: u16 = if show_stats {
        STATS_HEIGHT
    } else {
        0
    };
    let settings: u16 = if show_settings {
        SETTINGS_HEIGHT
    } else {
        0
    };
    let left = height.saturating_sub(stats).saturating_sub(POMODORO_HEIGHT).saturating_sub(
        STAR_JAR_BORDER_ROWS,
    ).saturating_sub(settings).saturating_sub(STAR_JAR_PROJECT_FLOOR);
    if left >= 1 {
        left
    } else {
        1
    }
}

/// `n` with at least two digits, zero-padded.
pub open spec fn two_digits(n: nat) -> Seq<char> {
    if n < 10 {
        seq!['0'] + decimal(n)
    } else {
        decimal(n)
    }
}

fn push_two_digits(out: &mut String, n: u64)
    ensures
        final(out)@ == old(out)@ + two_digits(n as nat),
{
    if n < 10 {
        out.append("0");
        proof {
            reveal_strlit("0");
        }
    }
    push_decimal(out, n);
    assert(final(out)@ =~= old(out)@ + two_digits(n as nat));
}

/// The toaster's countdown for `remaining_ms` milliseconds left: minutes
/// and seconds of the whole seconds left, each at least two digits.
pub open spec fn countdown(remaining_ms: nat) -> Seq<char> {
    let total = remaining_ms / 1000;
    "🍅 "@ + two_digits(total / 60) + ":"@ + two_digits(total % 60)
}

/// The toaster's countdown line.
pub fn countdown_text(remaining_ms: u64) -> (r: String)
    ensures
        r@ == countdown(remaining_ms as nat),
{
    let total = remaining_ms / 1000;
    let mut s = String::from_str("🍅 ");
    push_two_digits(&mut s, total / 60);
    s.append(":");
    push_two_digits(&mut s, total % 60);
    s
}

/// A screen rectangle: column, row, width, height.
pub struct Area {
    pub x: u16,
    pub y: u16,
    pub width: u16,
    pub height: u16,
}

/// `a + b`, held at the top of `u16`.
pub open spec fn sat_add16(a: int, b: int) -> int {
    if a + b > 0xffff {
        0xffff
    } else {
        a + b
    }
}

/// `a - b`, held at zero.
pub open spec fn sat_sub(a: int, b: int) -> int {
    if a >= b {
        a - b
    } else {
        0
    }
}

/// Where the pomodoro toaster floats over `pane` with `rows` session
/// lines: at the pane's bottom right, at most `TOASTER_WIDTH` wide and one
/// countdown row, the session rows and two border rows high, both cut to
/// the pane. A pane narrower than six columns or lower than three rows
/// gets none.
pub open spec fn toaster_area(pane: Area, rows: u16) -> Option<Area> {
    if pane.width < 6 || pane.height < 3 {
        None
    } else {
        let width = if pane.width < 40 {
            pane.width as int
        } else {
            40int
        };
        let want = sat_add16(sat_add16(1, rows as int), 2);
        let height = if want < pane.height {
            want
        } else {
            pane.height as int
        };
        Some(
            Area {
                x: sat_add16(pane.x as int, sat_sub(pane.width as int, width)) as u16,
                y: sat_add16(pane.y as int, sat_sub(pane.height as int, height)) as u16,
                width: width as u16,
                height: height as u16,
            },
        )
    }
}

/// The pomodoro toaster's box over `pane`.
pub fn toaster_rect(pane: &Area, rows: u16) -> (r: Option<Area>)
    ensures
        r == toaster_area(*pane, rows),
{
    if pane.width < 6 || pane.height < 3 {
        return None;
    }
    let width = if pane.width < TOASTER_WIDTH {
        pane.width
    } else {
        TOASTER_WIDTH
    };
    let want = 1u16.saturating_add(rows).saturating_add(2);
    let height = if want < pane.height {
        want
    } else {
        pane.height
    };
    Some(
        Area {
            x: pane.x.saturating_add(pane.width.saturating_sub(width)),
            y: pane.y.saturating_add(pane.height.saturating_sub(height)),
            width,
            height,
        },
    )
}

/// The glyph shown for a pull request's checks.
pub open spec fn check_glyph(s: Option<CheckStatus>) -> Seq<char> {
    match s {
        Some(CheckStatus::Success) => "✓ "@,
        Some(CheckStatus::Failure) => "✗ "@,
        Some(CheckStatus::Pending) => "· "@,
        None => "  "@,
    }
}

/// The tone a glyph, badge or block is drawn in; the theme gives it a colour.
#[derive(Clone, Copy, Debug, PartialEq, Eq, Structural)]
pub enum Tone {
    Success,
    Overdue,
    Today,
    Upcoming,
    Muted,
    Red,
    Yellow,
    Cyan,
    Maroon,
    Subtle,
}

/// The glyph and tone for a pull request's checks.
pub fn check_status_mark(s: Option<CheckStatus>) -> (r: (&'static str, Tone))
    ensures
        r.0@ == check_glyph(s),
        r.1 == match s {
            Some(CheckStatus::Success) => Tone::Success,
            Some(CheckStatus::Failure) => Tone::Overdue,
            _ => Tone::Muted,
        },
{
    match s {
        Some(CheckStatus::Success) => ("✓ ", Tone::Success),
        Some(CheckStatus::Failure) => ("✗ ", Tone::Overdue),
        Some(CheckStatus::Pending) => ("· ", Tone::Muted),
        None => ("  ", Tone::Muted),
    }
}

/// The colour of the tasks block under a stats-dock filter.
pub open spec fn filter_tone(d: DockItem) -> Tone {
    match d {
        DockItem::DueOverdue => Tone::Red,
        DockItem::DueToday => Tone::Yellow,
        DockItem::DueWeek => Tone::Cyan,
        DockItem::Priority(p) => if p == 4 {
            Tone::Red
        } else if p == 3 {
            Tone::Yellow
        } else if p == 2 {
            Tone::Maroon
        } else {
            Tone::Subtle
        },
    }
}

/// The colour of the tasks block under filter `d`.
pub fn dock_filter_tone(d: DockItem) -> (t: Tone)
    ensures
        t == filter_tone(d),
{
    match d {
        DockItem::DueOverdue => Tone::Red,
        DockItem::DueToday => Tone::Yellow,
        DockItem::DueWeek => Tone::Cyan,
        DockItem::Priority(p) => if p == 4 {
            Tone::Red
        } else if p == 3 {
            Tone::Yellow
        } else if p == 2 {
            Tone::Maroon
        } else {
            Tone::Subtle
        },
    }
}

/// The badge beside the filter row for a sort order other than the default.
pub open spec fn sort_badge_text(m: SortMode) -> Option<Seq<char>> {
    if m == SortMode::Default {
        None
    } else {
        Some("   ⟳ "@ + sort_mode_label(m))
    }
}

/// The sort badge of the filter row.
pub fn sort_badge(m: SortMode) -> (r: Option<String>)
    ensures
        crate::app::opt_view(r) == sort_badge_text(m),
{
    if m == SortMode::Default {
        None
    } else {
        let mut s = String::from_str("   ⟳ ");
        s.append(m.label());
        Some(s)
    }
}

/// How a stats-dock item is drawn: under the dock cursor, as the active
/// filter, or plain.
#[derive(Clone, Copy, Debug, PartialEq, Eq, Structural)]
pub enum Look {
    Focused,
    Filtered,
    Plain,
}

/// How dock item `idx` is drawn in `app`.
pub open spec fn dock_look(app: App, idx: int) -> Look {
    if app.nav.dock_focus == Some(idx as usize) {
        Look::Focused
    } else if app.nav.dock_filter == Some(dock_item_at(idx)) {
        Look::Filtered
    } else {
        Look::Plain
    }
}

/// The text of dock item `idx` for the overview numbers `st`.
pub open spec fn dock_text(st: OverviewStats, idx: int) -> Seq<char> {
    if idx == 0 {
        "▲ "@ + decimal(st.overdue as nat) + "  "@
    } else if idx == 1 {
        "◆ "@ + decimal(st.due_today as nat) + "  "@
    } else if idx == 2 {
        "◇ "@ + decimal(st.due_week as nat)
    } else if idx == 3 {
        "● "@ + decimal(st.by_priority@[4] as nat) + "  "@
    } else if idx == 4 {
        "● "@ + decimal(st.by_priority@[3] as nat) + "  "@
    } else if idx == 5 {
        "● "@ + decimal(st.by_priority@[2] as nat) + "  "@
    } else {
        "─ "@ + decimal(st.by_priority@[1] as nat)
    }
}

/// The stats block's title: the focused item's hint while the dock has
/// the cursor.
pub open spec fn stats_title_text(app: App) -> Seq<char> {
    match app.nav.dock_focus {
        Some(i) => " Stats → "@ + dock_hint(dock_item_at(i as int)) + " "@,
        None => " Stats "@,
    }
}

impl App {
    /// How dock item `idx` is drawn.
    pub fn dock_item_look(&self, idx: usize) -> (r: Look)
        requires
            idx < 7,
        ensures
            r == dock_look(*self, idx as int),
    {
        if self.nav.dock_focus == Some(idx) {
            return Look::Focused;
        }
        let item = crate::app::dock_item(idx);
        match self.nav.dock_filter {
            Some(f) => if f == item {
                Look::Filtered
            } else {
                Look::Plain
            },
            None => Look::Plain,
        }
    }

    /// The stats block's title.
    pub fn stats_title(&self) -> (r: String)
        requires
            crate::keys::keys_ok(*self),
        ensures
            r@ == stats_title_text(*self),
    {
        match self.nav.dock_focus {
            Some(i) => {
                let mut s = String::from_str(" Stats → ");
                s.append(crate::app::dock_item(i).hint());
                s.append(" ");
                s
            },
            None => String::from_str(" Stats "),
        }
    }
}

/// The seven dock items' texts, in dock order.
pub fn dock_texts(st: &OverviewStats) -> (r: Vec<String>)
    ensures
        r@.len() == 7,
        forall|i: int| 0 <= i < 7 ==> (#[trigger] r@[i])@ == dock_text(*st, i),
{
    let mut r: Vec<String> = Vec::new();
    let mut s = String::from_str("▲ ");
    push_decimal(&mut s, st.overdue as u64);
    s.append("  ");
    r.push(s);
    let mut s = String::from_str("◆ ");
    push_decimal(&mut s, st.due_today as u64);
    s.append("  ");
    r.push(s);
    let mut s = String::from_str("◇ ");
    push_decimal(&mut s, st.due_week as u64);
    r.push(s);
    let mut s = String::from_str("● ");
    push_decimal(&mut s, st.by_priority[4] as u64);
    s.append("  ");
    r.push(s);
    let mut s = String::from_str("● ");
    push_decimal(&mut s, st.by_priority[3] as u64);
    s.append("  ");
    r.push(s);
    let mut s = String::from_str("● ");
    push_decimal(&mut s, st.by_priority[2] as u64);
    s.append("  ");
    r.push(s);
    let mut s = String::from_str("─ ");
    push_decimal(&mut s, st.by_priority[1] as u64);
    r.push(s);
    r
}

/// The tone the overdue count is drawn in: alarming only when some are.
pub fn overdue_tone(st: &OverviewStats) -> (t: Tone)
    ensures
        t == (if st.overdue > 0 {
            Tone::Overdue
        } else {
            Tone::Muted
        }),
{
    if st.overdue > 0 {
        Tone::Overdue
    } else {
        Tone::Muted
    }
}

/// The status bar's location text on clock `c`.
pub open spec fn breadcrumb_text(app: App, c: Clock) -> Seq<char> {
    let name = crate::projects::view_title(app);
    match app.nav.active_pane {
        Pane::Projects => "  "@ + name,
        Pane::Tasks => "  "@ + name + " ▸ "@ + decimal(crate::tasks::visible_rows(app, c).len()) + " tasks"@,
        Pane::Detail => "  "@ + name + " ▸ "@ + match crate::edit::selected_task_spec(app, c) {
            Some(t) => t.content@,
            None => "Task"@,
        },
        Pane::Settings => "  Settings"@,
        Pane::StatsDock => "  "@ + name + " ▸ weekly progress"@,
    }
}

/// The status bar's connection dot and text at `now`; `age` is the time
/// of the last sync as shown.
pub open spec fn connection_text(app: App, now: u64, age: Seq<char>) -> (Seq<char>, Seq<char>) {
    if app.data.websocket_connected {
        if crate::counters::idle_at(app, now) {
            ("◌"@, "Idle (last sync @ "@ + age + ")"@)
        } else {
            ("●"@, "Connected"@)
        }
    } else {
        ("○"@, "Offline"@)
    }
}

impl App {
    /// The status bar's location text on clock `c`.
    pub fn breadcrumb_on(&self, c: &Clock) -> (r: String)
        ensures
            r@ == breadcrumb_text(*self, *c),
    {
        let name = self.selected_project_name();
        let mut s = String::from_str("  ");
        match self.nav.active_pane {
            Pane::Projects => {
                s.append(name.as_str());
            },
            Pane::Tasks => {
                let n = self.visible_tasks_on(c).len();
                s.append(name.as_str());
                s.append(" ▸ ");
                push_decimal(&mut s, n as u64);
                s.append(" tasks");
            },
            Pane::Detail => {
                s.append(name.as_str());
                s.append(" ▸ ");
                match self.selected_task_on(c) {
                    Some(t) => s.append(t.content.as_str()),
                    None => s.append("Task"),
                }
            },
            Pane::Settings => {
                s.append("Settings");
                proof {
                    reveal_strlit("  ");
                    reveal_strlit("Settings");
                    reveal_strlit("  Settings");
                }
            },
            Pane::StatsDock => {
                s.append(name.as_str());
                s.append(" ▸ weekly progress");
            },
        }
        s
    }

    /// The status bar's connection dot and text at `now`, with `age` the
    /// last sync time as shown.
    pub fn connection_status_at(&self, now: u64, age: &str) -> (r: (&'static str, String))
        ensures
            (r.0@, r.1@) == connection_text(*self, now, age@),
    {
        if self.data.websocket_connected {
            if self.is_idle_at(now) {
                let mut s = String::from_str("Idle (last sync @ ");
                s.append(age);
                s.append(")");
                ("◌", s)
            } else {
                ("●", String::from_str("Connected"))
            }
        } else {
            ("○", String::from_str("Offline"))
        }
    }

    /// The tasks block's title, and the tone it takes under a dock filter.
    pub fn tasks_block_title(&self) -> (r: (String, Option<Tone>))
        ensures
            r.0@ == match self.nav.dock_filter {
                Some(f) => " ◈ "@ + dock_hint(f) + " "@,
                None => " "@ + crate::projects::view_title(*self) + " "@,
            },
            r.1 == match self.nav.dock_filter {
                Some(f) => Some(filter_tone(f)),
                None => None,
            },
    {
        match self.nav.dock_filter {
            Some(f) => {
                let mut s = String::from_str(" ◈ ");
                s.append(f.hint());
                s.append(" ");
                (s, Some(dock_filter_tone(f)))
            },
            None => {
                let mut s = String::from_str(" ");
                let name = self.selected_project_name();
                s.append(name.as_str());
                s.append(" ");
                (s, None)
            },
        }
    }
}

/// `n` in base ten with a leading `-` when negative.
pub open spec fn signed_decimal(n: int) -> Seq<char> {
    if n < 0 {
        "-"@ + decimal((-n) as nat)
    } else {
        decimal(n as nat)
    }
}

fn push_signed(out: &mut String, n: i64)
    ensures
        final(out)@ == old(out)@ + signed_decimal(n as int),
{
    if n < 0 {
        out.append("-");
        proof {
            reveal_strlit("-");
        }
        let m: u64 = (0i128 - (n as i128)) as u64;
        push_decimal(out, m);
        assert(final(out)@ =~= old(out)@ + signed_decimal(n as int));
    } else {
        push_decimal(out, n as u64);
    }
}

/// How long ago something happened `secs` seconds back, in its largest
/// whole unit (30-day months).
pub open spec fn age_text(secs: int) -> Seq<char> {
    if secs < 60 {
        signed_decimal(secs) + "s ago"@
    } else if secs < 3_600 {
        decimal((secs / 60) as nat) + "m ago"@
    } else if secs < 86_400 {
        decimal((secs / 3_600) as nat) + "h ago"@
    } else if secs < 2_592_000 {
        decimal((secs / 86_400) as nat) + "d ago"@
    } else {
        decimal((secs / 2_592_000) as nat) + "mo ago"@
    }
}

/// The age label for `secs` seconds.
pub fn age_label(secs: i64) -> (r: String)
    ensures
        r@ == age_text(secs as int),
{
    let mut s = String::new();
    if secs < 60 {
        push_signed(&mut s, secs);
        s.append("s ago");
    } else if secs < 3_600 {
        push_decimal(&mut s, (secs / 60) as u64);
        s.append("m ago");
    } else if secs < 86_400 {
        push_decimal(&mut s, (secs / 3_600) as u64);
        s.append("h ago");
    } else if secs < 2_592_000 {
        push_decimal(&mut s, (secs / 86_400) as u64);
        s.append("d ago");
    } else {
        push_decimal(&mut s, (secs / 2_592_000) as u64);
        s.append("mo ago");
    }
    s
}

/// What `chrono::DateTime::parse_from_rfc3339` makes of a text, as
/// milliseconds since the Unix epoch (`timestamp_millis`); `None` when it
/// does not parse.
pub uninterp spec fn rfc3339_millis(s: Seq<char>) -> Option<i64>;

/// Parses an RFC 3339 time stamp with `chrono::DateTime::parse_from_rfc3339`
/// and gives its `timestamp_millis`.
#[verifier::external_body]
pub(crate) fn parse_rfc3339_millis(s: &str) -> (r: Option<i64>)
    ensures
        r == rfc3339_millis(s@),
{
    chrono::DateTime::parse_from_rfc3339(s).ok().map(|d| d.timestamp_millis())
}

/// Whole seconds from `then` to `now` (milliseconds), truncated toward zero.
pub open spec fn secs_between(then: int, now: int) -> int {
    let d = now - then;
    if d >= 0 {
        d / 1000
    } else {
        -((-d) / 1000)
    }
}

/// The age of an RFC 3339 time stamp `iso` at `now` (milliseconds since
/// the epoch), when it parses.
pub fn relative_time_at(iso: &str, now: i64) -> (r: Option<String>)
    ensures
        match rfc3339_millis(iso@) {
            Some(t) => {
                let s = secs_between(t as int, now as int);
                &&& i64::MIN <= s <= i64::MAX
                &&& r matches Some(x) && x@ == age_text(s)
            },
            None => r is None,
        },
{
    match parse_rfc3339_millis(iso) {
        Some(t) => Some(age_between(t, now)),
        None => None,
    }
}

/// The age at `now` of a time `then`, both in milliseconds since the epoch.
pub fn age_between(then: i64, now: i64) -> (r: String)
    ensures
        i64::MIN <= secs_between(then as int, now as int) <= i64::MAX,
        r@ == age_text(secs_between(then as int, now as int)),
{
    let d: i128 = (now as i128) - (then as i128);
    let s: i128 = if d >= 0 {
        d / 1000
    } else {
        0 - ((0 - d) / 1000)
    };
    age_label(s as i64)
}

/// The age of `iso` now.
pub fn relative_time(iso: &str) -> (r: Option<String>)
    ensures
        match rfc3339_millis(iso@) {
            Some(t) => r matches Some(x) && exists|now: i64|
                x@ == age_text(#[trigger] secs_between(t as int, now as int)),
            None => r is None,
        },
{
    let now = crate::ids::clock_millis();
    let r = relative_time_at(iso, now);
    proof {
        if let Some(t) = rfc3339_millis(iso@) {
            assert(r->0@ == age_text(secs_between(t as int, now as int)));
        }
    }
    r
}

/// A local time of day as the agenda shows it, on a 24-hour clock: the
/// hour without a leading zero, and the two-digit minutes only when they
/// are not zero (`9`, `9:30`, `14`).
pub open spec fn compact_time(h: nat, m: nat) -> Seq<char> {
    if m == 0 {
        decimal(h)
    } else {
        decimal(h) + ":"@ + two_digits(m)
    }
}

/// The agenda form of local time `h`:`m`.
pub fn compact_time_text(h: u32, m: u32) -> (r: String)
    ensures
        r@ == compact_time(h as nat, m as nat),
{
    let mut s = String::new();
    push_decimal(&mut s, h as u64);
    if m != 0 {
        s.append(":");
        push_two_digits(&mut s, m as u64);
    }
    s
}

/// The local hour and minute of an RFC 3339 time stamp, from
/// `chrono::DateTime::parse_from_rfc3339` and `with_timezone(&Local)`.
/// It parses exactly when `rfc3339_millis` has a value; chrono documents
/// the hour as 0..=23 and the minute as 0..=59. Which hour it is depends on
/// the machine's time zone, so nothing more is said of it.
#[verifier::external_body]
pub(crate) fn local_hour_minute(s: &str) -> (r: Option<(u32, u32)>)
    ensures
        r is Some <==> rfc3339_millis(s@) is Some,
        r matches Some((h, m)) ==> h < 24 && m < 60,
{
    chrono::DateTime::parse_from_rfc3339(s).ok().map(|d| {
        let l = d.with_timezone(&chrono::Local);
        (chrono::Timelike::hour(&l), chrono::Timelike::minute(&l))
    })
}

/// The agenda's time label for an event starting at `start`, whose local
/// hour and minute are `hm` when the start parses.
pub open spec fn start_label(all_day: bool, start: Seq<char>, hm: Option<(u32, u32)>) -> Seq<char> {
    if all_day {
        "all day"@
    } else {
        match hm {
            Some((h, m)) => compact_time(h as nat, m as nat),
            None => start,
        }
    }
}

/// The agenda's time label of `event` given the local time `hm` of its start.
pub fn agenda_time_label_from(event: &crate::model::CalendarEvent, hm: Option<(u32, u32)>) -> (r: String)
    ensures
        r@ == start_label(event.all_day, event.start@, hm),
{
    if event.all_day {
        proof {
            reveal_strlit("all day");
        }
        return String::from_str("all day");
    }
    match hm {
        Some((h, m)) => compact_time_text(h, m),
        None => event.start.clone(),
    }
}

/// The All view's time label of `event`: "all day", the compact local
/// start time, or the raw start text when it does not parse.
pub fn agenda_time_label(event: &crate::model::CalendarEvent) -> (r: String)
    ensures
        exists|hm: Option<(u32, u32)>|
            (hm is Some <==> rfc3339_millis(event.start@) is Some) && (hm matches Some((h, m)) ==> h < 24 && m < 60)
                && r@ == #[trigger] start_label(event.all_day, event.start@, hm),
{
    let hm = local_hour_minute(event.start.as_str());
    agenda_time_label_from(event, hm)
}

/// The agenda's time range of an event whose start and end have local
/// times `s` and `e` when they parse: "all day", the raw start when it
/// does not parse, the start alone when the end does not, else both.
pub open spec fn range_label(all_day: bool, start: Seq<char>, s: Option<(u32, u32)>, e: Option<(u32, u32)>) -> Seq<char> {
    if all_day {
        "all day"@
    } else {
        match s {
            None => start,
            Some((h, m)) => match e {
                None => compact_time(h as nat, m as nat),
                Some((h2, m2)) => compact_time(h as nat, m as nat) + "–"@ + compact_time(h2 as nat, m2 as nat),
            },
        }
    }
}

/// The agenda's time range of `event` given the local times of its ends.
pub fn format_time_range_from(
    event: &crate::model::CalendarEvent,
    s: Option<(u32, u32)>,
    e: Option<(u32, u32)>,
) -> (r: String)
    ensures
        r@ == range_label(event.all_day, event.start@, s, e),
{
    if event.all_day {
        proof {
            reveal_strlit("all day");
        }
        return String::from_str("all day");
    }
    match s {
        None => event.start.clone(),
        Some((h, m)) => {
            let mut out = compact_time_text(h, m);
            match e {
                None => {},
                Some((h2, m2)) => {
                    out.append("–");
                    let tail = compact_time_text(h2, m2);
                    out.append(tail.as_str());
                },
            }
            out
        },
    }
}

/// The Agenda view's time range of `event`.
pub fn format_time_range(event: &crate::model::CalendarEvent) -> (r: String)
    ensures
        exists|s: Option<(u32, u32)>, e: Option<(u32, u32)>|
            (s is Some <==> rfc3339_millis(event.start@) is Some) && (e is Some <==> rfc3339_millis(event.end@) is Some)
                && r@ == #[trigger] range_label(event.all_day, event.start@, s, e),
{
    let s = local_hour_minute(event.start.as_str());
    let e = local_hour_minute(event.end.as_str());
    format_time_range_from(event, s, e)
}

/// A decimal digit.
pub open spec fn is_digit(c: char) -> bool {
    '0' <= c <= '9'
}

/// The shape of chrono's `%H:%M:%S`: two digits, `:`, two digits, `:`,
/// two digits.
pub open spec fn second_stamp_shape(t: Seq<char>) -> bool {
    &&& t.len() == 8
    &&& is_digit(t[0]) && is_digit(t[1]) && t[2] == ':' && is_digit(t[3]) && is_digit(t[4])
    &&& t[5] == ':' && is_digit(t[6]) && is_digit(t[7])
}

/// The shape of chrono's `%Y-%m-%d %H:%M`: the year (at least four
/// characters), then `-MM-DD HH:MM`.
pub open spec fn minute_stamp_shape(t: Seq<char>) -> bool {
    let n = t.len() as int;
    &&& n >= 16
    &&& t[n - 12] == '-' && is_digit(t[n - 11]) && is_digit(t[n - 10])
    &&& t[n - 9] == '-' && is_digit(t[n - 8]) && is_digit(t[n - 7])
    &&& t[n - 6] == ' ' && is_digit(t[n - 5]) && is_digit(t[n - 4])
    &&& t[n - 3] == ':' && is_digit(t[n - 2]) && is_digit(t[n - 1])
}

/// `secs` seconds since the epoch as `%Y-%m-%d %H:%M` in the machine's
/// time zone, through `chrono::DateTime::from_timestamp`,
/// `with_timezone(&Local)` and `format`; empty when `from_timestamp`
/// gives `None` (chrono documents that only for seconds outside its
/// range of about ±262,000 years, so not within ±2^40 seconds). chrono
/// documents `%Y` as the year zero-padded to four digits and `%m`, `%d`,
/// `%H`, `%M` as zero-padded two-digit numbers. Which date and time it
/// shows depends on the time zone, so nothing more is said of it.
#[verifier::external_body]
pub(crate) fn local_minute_stamp(secs: i64) -> (r: String)
    ensures
        r@.len() == 0 || minute_stamp_shape(r@),
        -0x100_0000_0000 <= secs <= 0x100_0000_0000 ==> minute_stamp_shape(r@),
{
    match chrono::DateTime::from_timestamp(secs, 0) {
        Some(d) => d.with_timezone(&chrono::Local).format("%Y-%m-%d %H:%M").to_string(),
        None => String::new(),
    }
}

/// `ms` milliseconds since the epoch as `%H:%M:%S` in the machine's time
/// zone, through `chrono::DateTime::from_timestamp_millis`,
/// `with_timezone(&Local)` and `format`; empty when
/// `from_timestamp_millis` gives `None` (only outside chrono's range of
/// about ±262,000 years, so not within ±2^50 milliseconds). chrono
/// documents `%H`, `%M`, `%S` as zero-padded two-digit numbers. Which
/// time it shows depends on the time zone.
#[verifier::external_body]
pub(crate) fn local_second_stamp(ms: i64) -> (r: String)
    ensures
        r@.len() == 0 || second_stamp_shape(r@),
        -0x4_0000_0000_0000 <= ms <= 0x4_0000_0000_0000 ==> second_stamp_shape(r@),
{
    match chrono::DateTime::from_timestamp_millis(ms) {
        Some(d) => d.with_timezone(&chrono::Local).format("%H:%M:%S").to_string(),
        None => String::new(),
    }
}

impl App {
    /// When the last sync happened, for the status bar; `--` before any.
    pub fn sync_age_label(&self) -> (r: String)
        ensures
            match self.data.last_sync_at {
                None => r@ == "--"@,
                Some(t) => (r@.len() == 0 || minute_stamp_shape(r@)) && (-0x100_0000_0000 <= t
                    <= 0x100_0000_0000 ==> minute_stamp_shape(r@)),
            },
    {
        match self.data.last_sync_at {
            Some(t) => local_minute_stamp(t),
            None => String::from_str("--"),
        }
    }
}

/// The fetch line above an external list: when it was last fetched (a
/// dash before the first fetch) and whether a fetch is running.
pub open spec fn fetched_text(stamp: Option<Seq<char>>, loading: bool) -> Seq<char> {
    "· fetched "@ + match stamp {
        Some(t) => t,
        None => "—"@,
    } + if loading {
        "  refreshing…"@
    } else {
        ""@
    }
}

/// The fetch line for a list last fetched at `stamp` (as shown).
pub fn fetched_label(stamp: Option<&str>, loading: bool) -> (r: String)
    ensures
        r@ == fetched_text(
            match stamp {
                Some(t) => Some(t@),
                None => None,
            },
            loading,
        ),
{
    let mut s = String::from_str("· fetched ");
    match stamp {
        Some(t) => s.append(t),
        None => s.append("—"),
    }
    if loading {
        s.append("  refreshing…");
    } else {
        proof {
            reveal_strlit("");
        }
    }
    proof {
        reveal_strlit("");
    }
    assert(s@ =~= fetched_text(
        match stamp {
            Some(t) => Some(t@),
            None => None,
        },
        loading,
    ));
    s
}

/// The fetch line for a list last fetched at `at` (milliseconds since
/// the epoch), shown in local time.
pub fn fetched_line(at: Option<u64>, loading: bool) -> (r: String)
    ensures
        match at {
            None => r@ == fetched_text(None, loading),
            Some(ms) => exists|t: Seq<char>|
                (t.len() == 0 || second_stamp_shape(t)) && (ms <= 0x4_0000_0000_0000 ==> second_stamp_shape(t))
                    && r@ == #[trigger] fetched_text(Some(t), loading),
        },
{
    match at {
        Some(ms) => {
            let t: i64 = if ms > i64::MAX as u64 {
                i64::MAX
            } else {
                ms as i64
            };
            let stamp = local_second_stamp(t);
            let r = fetched_label(Some(stamp.as_str()), loading);
            assert(r@ == fetched_text(Some(stamp@), loading));
            r
        },
        None => fetched_label(None, loading),
    }
}

/// Key hints by view.
pub open spec fn hint_views(v: Seq<(&str, &str)>) -> Seq<(Seq<char>, Seq<char>)> {
    v.map_values(|p: (&str, &str)| (p.0@, p.1@))
}

/// The key hints of the bottom bar for input mode `mode` in pane `pane`:
/// (keys, what they do).
pub open spec fn key_hints_for(mode: crate::app::InputMode, pane: Pane) -> Seq<(Seq<char>, Seq<char>)> {
    match pane {
        Pane::StatsDock => seq![("h/l"@, "navigate"@), ("Enter"@, "filter"@), ("Esc"@, "clear"@)],
        Pane::Settings => seq![("j/k"@, "navigate"@), ("Enter/Space"@, "toggle"@), ("Esc"@, "close"@)],
        Pane::Detail => seq![("j/k"@, "scroll"@), ("x"@, "complete"@), ("Esc/h"@, "back"@), ("?"@, "help"@), ("q"@, "quit"@)],
        Pane::Projects => match mode {
            crate::app::InputMode::Vim(_) => seq![("j/k"@, "navigate"@), ("g/G"@, "top/bottom"@), ("l/Tab"@, "tasks"@), (","@, "settings"@), ("?"@, "help"@), ("q"@, "quit"@)],
            crate::app::InputMode::Standard => seq![("↑/↓"@, "navigate"@), ("Tab"@, "tasks"@), (","@, "settings"@), ("?"@, "help"@), ("q"@, "quit"@)],
        },
        Pane::Tasks => match mode {
            crate::app::InputMode::Vim(_) => seq![("j/k"@, "navigate"@), ("Enter"@, "open/fold"@), ("x"@, "complete"@), ("t/e"@, "defer"@), ("a"@, "add"@), ("f"@, "filter"@), ("o"@, "sort"@), ("za"@, "fold"@), ("Esc/h"@, "back"@), ("q"@, "quit"@)],
            crate::app::InputMode::Standard => seq![("↑/↓"@, "navigate"@), ("Enter"@, "open/fold"@), ("Ctrl-x"@, "complete"@), ("Ctrl-a"@, "add"@), ("f"@, "filter"@), ("Esc"@, "projects"@), ("q"@, "quit"@)],
        },
    }
}

/// The key hints of the bottom bar for `mode` in `pane`.
pub fn key_hints(mode: crate::app::InputMode, pane: Pane) -> (r: Vec<(&'static str, &'static str)>)
    ensures
        hint_views(r@) == key_hints_for(mode, pane),
{
    let mut v: Vec<(&'static str, &'static str)> = Vec::new();
    match pane {
        Pane::StatsDock => {
            v.push(("h/l", "navigate"));
            v.push(("Enter", "filter"));
            v.push(("Esc", "clear"));
        },
        Pane::Settings => {
            v.push(("j/k", "navigate"));
            v.push(("Enter/Space", "toggle"));
            v.push(("Esc", "close"));
        },
        Pane::Detail => {
            v.push(("j/k", "scroll"));
            v.push(("x", "complete"));
            v.push(("Esc/h", "back"));
            v.push(("?", "help"));
            v.push(("q", "quit"));
        },
        Pane::Projects => match mode {
            crate::app::InputMode::Vim(_) => {
                v.push(("j/k", "navigate"));
                v.push(("g/G", "top/bottom"));
                v.push(("l/Tab", "tasks"));
                v.push((",", "settings"));
                v.push(("?", "help"));
                v.push(("q", "quit"));
            },
            crate::app::InputMode::Standard => {
                v.push(("↑/↓", "navigate"));
                v.push(("Tab", "tasks"));
                v.push((",", "settings"));
                v.push(("?", "help"));
                v.push(("q", "quit"));
            },
        },
        Pane::Tasks => match mode {
            crate::app::InputMode::Vim(_) => {
                v.push(("j/k", "navigate"));
                v.push(("Enter", "open/fold"));
                v.push(("x", "complete"));
                v.push(("t/e", "defer"));
                v.push(("a", "add"));
                v.push(("f", "filter"));
                v.push(("o", "sort"));
                v.push(("za", "fold"));
                v.push(("Esc/h", "back"));
                v.push(("q", "quit"));
            },
            crate::app::InputMode::Standard => {
                v.push(("↑/↓", "navigate"));
                v.push(("Enter", "open/fold"));
                v.push(("Ctrl-x", "complete"));
                v.push(("Ctrl-a", "add"));
                v.push(("f", "filter"));
                v.push(("Esc", "projects"));
                v.push(("q", "quit"));
            },
        },
    }
    assert(hint_views(v@) =~= key_hints_for(mode, pane));
    v
}

} // verus!
