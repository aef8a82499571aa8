//! Application state: panes, modes, filters, the add-task form and the
//! external items shown beside tasks.
use vstd::prelude::*;
use vstd::string::*;

use crate::model::{
    CalendarEvent, Comment, Folder, JiraCard, Label, Project, PullRequest, Section, Task, Workspace,
};
use crate::sync::{CommandArgs, OptimisticOp, SyncCommand};
use crate::text::str_eq;

verus! {

/// Which pane has keyboard focus.
#[derive(Clone, Copy, Debug, PartialEq, Eq, Structural)]
pub enum Pane {
    Projects,
    Tasks,
    Detail,
    Settings,
    StatsDock,
}

/// Vim sub-mode.
#[derive(Clone, Copy, Debug, PartialEq, Eq, Structural)]
pub enum VimState {
    Normal,
    Visual,
    Insert,
}

/// Keyboard scheme.
#[derive(Clone, Copy, Debug, PartialEq, Eq, Structural)]
pub enum InputMode {
    Standard,
    Vim(VimState),
}

pub open spec fn input_mode_label(m: InputMode) -> Seq<char> {
    match m {
        InputMode::Standard => "STANDARD"@,
        InputMode::Vim(VimState::Normal) => "NORMAL"@,
        InputMode::Vim(VimState::Visual) => "VISUAL"@,
        InputMode::Vim(VimState::Insert) => "INSERT"@,
    }
}

impl InputMode {
    /// Status-bar name of the mode.
    pub fn label(&self) -> (s: &'static str)
        ensures
            s@ == input_mode_label(*self),
    {
        match self {
            InputMode::Standard => "STANDARD",
            InputMode::Vim(VimState::Normal) => "NORMAL",
            InputMode::Vim(VimState::Visual) => "VISUAL",
            InputMode::Vim(VimState::Insert) => "INSERT",
        }
    }
}

/// Counts shown in the stats dock.
#[derive(Clone, Copy, Debug)]
pub struct OverviewStats {
    pub due_today: u32,
    pub due_week: u32,
    pub overdue: u32,
    /// Active tasks per priority, indexed by priority (1 = none, 4 = urgent).
    pub by_priority: [u32; 5],
}

/// Which tasks of a project are listed.
#[derive(Clone, Copy, Debug, PartialEq, Eq, Structural)]
pub enum TaskFilter {
    Active,
    Done,
    Both,
}

pub open spec fn task_filter_next(f: TaskFilter) -> TaskFilter {
    match f {
        TaskFilter::Active => TaskFilter::Done,
        TaskFilter::Done => TaskFilter::Both,
        TaskFilter::Both => TaskFilter::Active,
    }
}

impl TaskFilter {
    /// Active → Done → Both → Active.
    pub fn next(self) -> (r: TaskFilter)
        ensures
            r == task_filter_next(self),
    {
        match self {
            TaskFilter::Active => TaskFilter::Done,
            TaskFilter::Done => TaskFilter::Both,
            TaskFilter::Both => TaskFilter::Active,
        }
    }
}

/// One entry of the stats dock, usable as a task filter.
#[derive(Clone, Copy, Debug, PartialEq, Eq, Structural)]
pub enum DockItem {
    DueOverdue,
    DueToday,
    DueWeek,
    Priority(u8),
}

/// Number of entries in the stats dock.
pub const DOCK_ITEM_COUNT: usize = 7;

/// The dock's entries, left to right.
pub open spec fn dock_item_at(i: int) -> DockItem {
    if i == 0 {
        DockItem::DueOverdue
    } else if i == 1 {
        DockItem::DueToday
    } else if i == 2 {
        DockItem::DueWeek
    } else if i == 3 {
        DockItem::Priority(4)
    } else if i == 4 {
        DockItem::Priority(3)
    } else if i == 5 {
        DockItem::Priority(2)
    } else {
        DockItem::Priority(1)
    }
}

/// The dock entry at position `i` (0..7).
pub fn dock_item(i: usize) -> (d: DockItem)
    requires
        i < DOCK_ITEM_COUNT,
    ensures
        d == dock_item_at(i as int),
{
    if i == 0 {
        DockItem::DueOverdue
    } else if i == 1 {
        DockItem::DueToday
    } else if i == 2 {
        DockItem::DueWeek
    } else if i == 3 {
        DockItem::Priority(4)
    } else if i == 4 {
        DockItem::Priority(3)
    } else if i == 5 {
        DockItem::Priority(2)
    } else {
        DockItem::Priority(1)
    }
}

pub open spec fn dock_hint(d: DockItem) -> Seq<char> {
    match d {
        DockItem::DueOverdue => "overdue"@,
        DockItem::DueToday => "due today"@,
        DockItem::DueWeek => "due this week"@,
        DockItem::Priority(p) => if p == 4 {
            "urgent (P1)"@
        } else if p == 3 {
            "high (P2)"@
        } else if p == 2 {
            "medium (P3)"@
        } else if p == 1 {
            "no priority"@
        } else {
            "by priority"@
        },
    }
}

impl DockItem {
    /// Hint text shown for the focused dock entry.
    pub fn hint(self) -> (s: &'static str)
        ensures
            s@ == dock_hint(self),
    {
        match self {
            DockItem::DueOverdue => "overdue",
            DockItem::DueToday => "due today",
            DockItem::DueWeek => "due this week",
            DockItem::Priority(p) => {
                if p == 4 {
                    "urgent (P1)"
                } else if p == 3 {
                    "high (P2)"
                } else if p == 2 {
                    "medium (P3)"
                } else if p == 1 {
                    "no priority"
                } else {
                    "by priority"
                }
            },
        }
    }
}

/// Order of the project task list.
#[derive(Clone, Copy, Debug, PartialEq, Eq, Structural)]
pub enum SortMode {
    Default,
    Priority,
    DueDate,
    Created,
}

pub open spec fn sort_mode_label(m: SortMode) -> Seq<char> {
    match m {
        SortMode::Default => "order"@,
        SortMode::Priority => "priority"@,
        SortMode::DueDate => "due"@,
        SortMode::Created => "created"@,
    }
}

pub open spec fn sort_mode_next(m: SortMode) -> SortMode {
    match m {
        SortMode::Default => SortMode::Priority,
        SortMode::Priority => SortMode::DueDate,
        SortMode::DueDate => SortMode::Created,
        SortMode::Created => SortMode::Default,
    }
}

impl SortMode {
    /// Short name for the status line.
    pub fn label(&self) -> (s: &'static str)
        ensures
            s@ == sort_mode_label(*self),
    {
        match self {
            SortMode::Default => "order",
            SortMode::Priority => "priority",
            SortMode::DueDate => "due",
            SortMode::Created => "created",
        }
    }

    /// order → priority → due → created → order.
    pub fn next(&self) -> (r: SortMode)
        ensures
            r == sort_mode_next(*self),
    {
        match self {
            SortMode::Default => SortMode::Priority,
            SortMode::Priority => SortMode::DueDate,
            SortMode::DueDate => SortMode::Created,
            SortMode::Created => SortMode::Default,
        }
    }
}

/// A user known from the shared projects, with a display string.
#[derive(Clone, Debug)]
pub struct UserRecord {
    pub id: String,
    pub full_name: String,
    pub email: String,
    pub display: String,
}

/// `"name - mail"`, or whichever of the two is present, or the id.
pub open spec fn user_display(id: Seq<char>, name: Seq<char>, mail: Seq<char>) -> Seq<char> {
    if name.len() > 0 && mail.len() > 0 {
        name + " - "@ + mail
    } else if name.len() > 0 {
        name
    } else if mail.len() > 0 {
        mail
    } else {
        id
    }
}

pub open spec fn opt_text(s: Option<String>) -> Seq<char> {
    match s {
        Some(t) => t@,
        None => Seq::empty(),
    }
}

impl UserRecord {
    pub fn new(id: String, full_name: Option<String>, email: Option<String>) -> (r: UserRecord)
        ensures
            r.id@ == id@,
            r.full_name@ == opt_text(full_name),
            r.email@ == opt_text(email),
            r.display@ == user_display(id@, opt_text(full_name), opt_text(email)),
    {
        let name = match full_name {
            Some(n) => n,
            None => String::new(),
        };
        let mail = match email {
            Some(m) => m,
            None => String::new(),
        };
        let display = if !name.as_str().is_empty() && !mail.as_str().is_empty() {
            let mut d = name.clone();
            d.append(" - ");
            d.append(mail.as_str());
            d
        } else if !name.as_str().is_empty() {
            name.clone()
        } else if !mail.as_str().is_empty() {
            mail.clone()
        } else {
            id.clone()
        };
        UserRecord { id, full_name: name, email: mail, display }
    }
}

/// The add-task form.
#[derive(Clone, Debug)]
pub struct TaskForm {
    pub content: String,
    pub priority: u8,
    pub due_string: String,
    pub project_id: String,
    /// 0 content, 1 priority, 2 due date, 3 project.
    pub active_field: usize,
    pub editing: bool,
}

impl TaskForm {
    /// An empty form for `project_id`, editing its content.
    pub fn new(project_id: String) -> (f: TaskForm)
        ensures
            f.content@ == Seq::<char>::empty(),
            f.priority == 1,
            f.due_string@ == Seq::<char>::empty(),
            f.project_id == project_id,
            f.active_field == 0,
            f.editing,
    {
        TaskForm {
            content: String::new(),
            priority: 1,
            due_string: String::new(),
            project_id,
            active_field: 0,
            editing: true,
        }
    }

    /// Number of fields in the form.
    pub fn field_count() -> (n: usize)
        ensures
            n == 4,
    {
        4
    }
}

} // verus!

verus! {

/// An error popup: what failed, what the server said, and a hint.
#[derive(Clone, Debug)]
pub struct AppError {
    pub title: String,
    pub message: String,
    pub suggestion: Option<String>,
    pub recoverable: bool,
}

pub open spec fn opt_view(o: Option<String>) -> Option<Seq<char>> {
    match o {
        Some(s) => Some(s@),
        None => None,
    }
}

/// The `error` and `error_tag` string members of the JSON value that
/// `serde_json` parses from `text` (`None` for a member that is absent or
/// not a string); `None` when `text` is not one JSON document.
pub uninterp spec fn json_error_fields(text: Seq<char>) -> Option<(Option<Seq<char>>, Option<Seq<char>>)>;

/// Parses `text` with `serde_json::from_str::<serde_json::Value>` and reads
/// the `error` and `error_tag` members with `as_str`. The result is named
/// `json_error_fields`: it depends on the text alone.
#[verifier::external_body]
fn read_json_error_fields(text: &str) -> (r: Option<(Option<String>, Option<String>)>)
    ensures
        match r {
            Some((e, t)) => json_error_fields(text@) == Some((opt_view(e), opt_view(t))),
            None => json_error_fields(text@) is None,
        },
{
    match serde_json::from_str::<serde_json::Value>(text) {
        Ok(v) => Some((v["error"].as_str().map(String::from), v["error_tag"].as_str().map(String::from))),
        Err(_) => None,
    }
}

/// Index of the first `c` in `s`.
pub open spec fn first_index_of(s: Seq<char>, c: char, i: int) -> bool {
    0 <= i < s.len() && s[i] == c && forall|k: int| 0 <= k < i ==> s[k] != c
}

/// Finds the first occurrence of `c` in `s`.
pub fn find_char(s: &str, c: char) -> (r: Option<usize>)
    ensures
        match r {
            Some(i) => first_index_of(s@, c, i as int),
            None => forall|k: int| 0 <= k < s@.len() ==> s@[k] != c,
        },
{
    let n = s.unicode_len();
    let mut i: usize = 0;
    while i < n
        invariant
            n == s@.len(),
            i <= n,
            forall|k: int| 0 <= k < i ==> s@[k] != c,
        decreases n - i,
    {
        if s.get_char(i) == c {
            return Some(i);
        }
        i += 1;
    }
    None
}

/// The hint offered for a Todoist `error_tag`.
pub open spec fn error_tag_suggestion(tag: Seq<char>) -> Option<Seq<char>> {
    if tag == "INVALID_DATE_FORMAT"@ || tag == "BAD_REQUEST"@ {
        Some("Try natural language like \"tomorrow\", \"next monday\", or \"Feb 28\""@)
    } else if tag == "NOT_FOUND"@ {
        Some("The item may have been deleted. Try refreshing."@)
    } else if tag == "FORBIDDEN"@ {
        Some("You don't have permission for this action."@)
    } else if tag == "UNAUTHORIZED"@ {
        Some("Your API token may have expired. Check your config."@)
    } else {
        None
    }
}

/// `(title, message, suggestion)` for an error text `raw` raised while doing
/// `context`, given the `error` and `error_tag` members read from its JSON
/// part (`None` when there is no JSON document): the server's message and a
/// hint for its tag, or else `raw` itself.
pub open spec fn api_error_from(
    raw: Seq<char>,
    context: Seq<char>,
    fields: Option<(Option<Seq<char>>, Option<Seq<char>>)>,
) -> (Seq<char>, Seq<char>, Option<Seq<char>>) {
    let title = context + " failed"@;
    match fields {
        Some((e, t)) => (
            title,
            match e {
                Some(m) => m,
                None => "Unknown error"@,
            },
            error_tag_suggestion(
                match t {
                    Some(x) => x,
                    None => ""@,
                },
            ),
        ),
        None => (title, raw, None),
    }
}

/// `(title, message, suggestion)` for an error text `raw` raised while doing
/// `context`: when `raw` holds a JSON document from its first `{` on, the
/// server's `error` message and a hint for its `error_tag`; otherwise `raw`.
pub open spec fn api_error_parts(raw: Seq<char>, context: Seq<char>) -> (Seq<char>, Seq<char>, Option<Seq<char>>) {
    if exists|i: int| first_index_of(raw, '{', i) {
        let i = choose|i: int| first_index_of(raw, '{', i);
        api_error_from(raw, context, json_error_fields(raw.skip(i)))
    } else {
        api_error_from(raw, context, None)
    }
}

/// The popup's title, message and hint for an error text `raw` raised
/// while doing `context`, given the JSON `error` and `error_tag` members
/// read from it (`None` when it holds no JSON document).
pub fn api_error_parts_from(raw: &str, context: &str, fields: Option<(Option<String>, Option<String>)>) -> (r: (
    String,
    String,
    Option<String>,
))
    ensures
        (r.0@, r.1@, opt_view(r.2)) == api_error_from(
            raw@,
            context@,
            match fields {
                Some((e, t)) => Some((opt_view(e), opt_view(t))),
                None => None,
            },
        ),
{
    let mut title = String::from_str(context);
    title.append(" failed");
    match fields {
        Some((err, tag)) => {
            let ghost e0 = opt_view(err);
            let ghost t0 = opt_view(tag);
            let message = match err {
                Some(m) => m,
                None => String::from_str("Unknown error"),
            };
            let tag_text = match tag {
                Some(t) => t,
                None => String::from_str(""),
            };
            let suggestion = suggestion_for_tag(tag_text.as_str());
            assert(message@ == match e0 { Some(m) => m, None => "Unknown error"@ });
            assert(tag_text@ == match t0 { Some(x) => x, None => ""@ });
            assert(title@ == context@ + " failed"@);
            (title, message, suggestion)
        },
        None => (title, String::from_str(raw), None),
    }
}

fn suggestion_for_tag(tag: &str) -> (r: Option<String>)
    ensures
        opt_view(r) == error_tag_suggestion(tag@),
{
    if str_eq(tag, "INVALID_DATE_FORMAT") || str_eq(tag, "BAD_REQUEST") {
        Some(String::from_str("Try natural language like \"tomorrow\", \"next monday\", or \"Feb 28\""))
    } else if str_eq(tag, "NOT_FOUND") {
        Some(String::from_str("The item may have been deleted. Try refreshing."))
    } else if str_eq(tag, "FORBIDDEN") {
        Some(String::from_str("You don't have permission for this action."))
    } else if str_eq(tag, "UNAUTHORIZED") {
        Some(String::from_str("Your API token may have expired. Check your config."))
    } else {
        None
    }
}

/// Splits an API error text into the popup's title, message and hint.
pub fn parse_api_error(raw: &str, context: &str) -> (r: (String, String, Option<String>))
    ensures
        (r.0@, r.1@, opt_view(r.2)) == api_error_parts(raw@, context@),
{
    if let Some(json_start) = find_char(raw, '{') {
        proof {
            assert(first_index_of(raw@, '{', json_start as int));
            let i = choose|i: int| first_index_of(raw@, '{', i);
            if i < json_start {
                assert(raw@[i] != '{');
            } else if i > json_start {
                assert(raw@[json_start as int] != '{');
            }
            assert(i == json_start);
        }
        let rest = raw.substring_char(json_start, raw.unicode_len());
        assert(rest@ =~= raw@.skip(json_start as int));
        let fields = read_json_error_fields(rest);
        return api_error_parts_from(raw, context, fields);
    }
    api_error_parts_from(raw, context, None)
}

impl AppError {
    /// The popup for an API failure whose text is `raw` while doing `context`.
    pub fn from_api(raw: &str, context: &str) -> (e: AppError)
        ensures
            (e.title@, e.message@, opt_view(e.suggestion)) == api_error_parts(raw@, context@),
            e.recoverable,
    {
        let (title, message, suggestion) = parse_api_error(raw, context);
        AppError { title, message, suggestion, recoverable: true }
    }
}

} // verus!

verus! {

/// `item_add` arguments for a submitted form: the due date only when one
/// was typed, the priority only above the default.
pub fn build_item_add_args(form: &TaskForm, project_id: &str) -> (a: CommandArgs)
    ensures
        a matches CommandArgs::ItemAdd { content, project_id: pid, due, priority } && content@
            == form.content@ && pid@ == project_id@ && opt_view(due) == (if form.due_string@.len()
            > 0 {
            Some(form.due_string@)
        } else {
            None
        }) && priority == (if form.priority > 1 {
            Some(form.priority)
        } else {
            None
        }),
{
    let due = if !form.due_string.as_str().is_empty() {
        Some(form.due_string.clone())
    } else {
        None
    };
    let priority = if form.priority > 1 {
        Some(form.priority)
    } else {
        None
    };
    CommandArgs::ItemAdd {
        content: form.content.clone(),
        project_id: String::from_str(project_id),
        due,
        priority,
    }
}

/// Entries of the sidebar, top to bottom.
#[derive(Clone, Debug)]
pub enum ProjectEntry {
    PersonalHeader,
    WorkspaceHeader(usize),
    FolderHeader(usize),
    Project(usize),
    Separator,
    AllView,
    AgendaView,
    TodayView,
    UpcomingView,
    /// One entry per GitHub owner with open pull requests.
    GithubPrsView(String),
    JiraCardsView,
}

/// The sidebar entries the cursor can rest on.
#[derive(Clone, Debug)]
pub enum ProjectNavItem {
    Folder(usize),
    Project(usize),
    AllView,
    AgendaView,
    TodayView,
    UpcomingView,
    GithubPrsView(String),
    JiraCardsView,
}

/// A row of the All view, indexing its source collection.
#[derive(Clone, Copy, Debug, PartialEq, Eq, Structural)]
pub enum AllViewItem {
    Task(usize),
    PullRequest(usize),
    JiraCard(usize),
    AgendaEvent(usize),
}

/// Values read from the settings file and the environment at start-up.
#[derive(Clone, Debug)]
pub struct AppSettings {
    pub theme_names: Vec<String>,
    pub theme_idx: usize,
    pub sync_token: String,
    pub idle_timeout_secs: u64,
    pub idle_forcer: bool,
    pub ephemeral: bool,
    pub star_count: u64,
    pub star_date: String,
    pub tomato_count: u64,
    pub tomato_date: String,
    pub show_stats: bool,
    pub gh_available: bool,
    pub acli_available: bool,
    pub gws_available: bool,
    pub hidden_pr_orgs: Vec<String>,
    pub github_prs_poll_interval_secs: u64,
    pub jira_cards_poll_interval_secs: u64,
    pub agenda_poll_interval_secs: u64,
    /// Monotonic milliseconds at start-up.
    pub now_ms: u64,
}

/// Loaded resources and what the server told us about the user.
pub struct Data {
    pub projects: Vec<Project>,
    pub workspaces: Vec<Workspace>,
    pub folders: Vec<Folder>,
    pub tasks: Vec<Task>,
    pub labels: Vec<Label>,
    pub sections: Vec<Section>,
    /// Comments of the task in the detail pane.
    pub comments: Vec<Comment>,
    /// Comments per task id.
    pub comments_by_task: Vec<(String, Vec<Comment>)>,
    /// Completed tasks fetched per project id.
    pub completed_cache: Vec<(String, Vec<Task>)>,
    pub users: Vec<UserRecord>,
    pub current_user_id: Option<String>,
    pub current_user_name: Option<String>,
    pub sync_token: String,
    /// Unix seconds of the last applied sync.
    pub last_sync_at: Option<i64>,
    pub websocket_url: Option<String>,
    pub websocket_connected: bool,
}

/// Cursor positions, focus and list options.
pub struct Nav {
    pub selected_project: usize,
    pub selected_task: usize,
    pub active_pane: Pane,
    pub folder_cursor: Option<usize>,
    /// Ids of tasks whose subtasks are folded.
    pub collapsed: Vec<String>,
    /// Ids of folders whose projects are hidden.
    pub collapsed_folders: Vec<String>,
    pub detail_scroll: u16,
    pub detail_field: usize,
    /// The task shown in the detail pane.
    pub detail_task_id: Option<String>,
    pub dock_focus: Option<usize>,
    pub dock_filter: Option<DockItem>,
    pub task_filter: TaskFilter,
    pub sort_mode: SortMode,
    pub overdue_section_collapsed: bool,
    pub selected_all_item: usize,
    pub selected_pr: usize,
    pub selected_jira_card: usize,
    pub selected_agenda_item: usize,
}

/// Which virtual view replaces the project's task list.
#[derive(Clone, Debug, PartialEq, Eq)]
pub struct Views {
    pub all_view_active: bool,
    pub today_view_active: bool,
    pub upcoming_view_active: bool,
    /// Owner whose pull requests are shown.
    pub active_pr_org: Option<String>,
    pub jira_cards_view_active: bool,
    pub agenda_view_active: bool,
}

/// Modal inputs, pickers and overlays.
pub struct Input {
    pub input_mode: InputMode,
    pub show_input: bool,
    pub input_buffer: String,
    pub comment_input: bool,
    pub editing_field: bool,
    pub task_form: Option<TaskForm>,
    pub show_priority_picker: bool,
    pub priority_selection: u8,
    pub show_settings: bool,
    pub show_help: bool,
    pub settings_selection: usize,
    pub show_theme_picker: bool,
    pub theme_selection: usize,
    pub theme_idx: usize,
    pub theme_names: Vec<String>,
    /// A `z` was pressed in Vim normal mode and awaits its second key.
    pub pending_z: bool,
}

/// Pull requests, Jira cards and calendar events fetched by CLI tools.
pub struct External {
    pub github_prs: Vec<PullRequest>,
    pub github_prs_loading: bool,
    pub github_prs_error: Option<String>,
    /// Monotonic milliseconds of the last completed fetch.
    pub github_prs_fetched_at: Option<u64>,
    pub gh_available: bool,
    /// Owners hidden from the sidebar.
    pub hidden_pr_orgs: Vec<String>,
    pub github_prs_poll_interval_secs: u64,
    pub pending_pr_poll: bool,
    pub jira_cards: Vec<JiraCard>,
    pub jira_cards_loading: bool,
    pub jira_cards_error: Option<String>,
    pub jira_cards_fetched_at: Option<u64>,
    pub acli_available: bool,
    pub jira_cards_poll_interval_secs: u64,
    pub pending_jira_poll: bool,
    pub agenda_events: Vec<CalendarEvent>,
    pub agenda_loading: bool,
    pub agenda_error: Option<String>,
    pub agenda_fetched_at: Option<u64>,
    pub gws_available: bool,
    pub agenda_poll_interval_secs: u64,
    pub pending_agenda_poll: bool,
}

/// The day's counters, timers and idle tracking.
#[derive(Clone, Debug, PartialEq, Eq)]
pub struct Counters {
    /// Completions on local date `star_date`.
    pub star_count: u64,
    pub star_date: String,
    pub tomato_count: u64,
    pub tomato_date: String,
    /// Monotonic millisecond the running pomodoro began.
    pub pomodoro_started_at: Option<u64>,
    pub show_stats: bool,
    pub idle_timeout_secs: u64,
    pub idle_forcer: bool,
    pub ephemeral: bool,
    /// Monotonic millisecond of the last key press.
    pub last_activity: u64,
    pub pending_ws_sync: bool,
    pub comments_fetch_seq: u64,
    /// Source of command and temporary ids.
    pub cmd_counter: u64,
}

/// Commands not yet sent and edits not yet confirmed.
pub struct Pending {
    pub pending_commands: Vec<SyncCommand>,
    /// Undo records keyed by command uuid.
    pub temp_id_pending: Vec<(String, OptimisticOp)>,
    /// Recurring tasks whose close is in flight; hidden until it lands.
    pub pending_close_recurring: Vec<String>,
}

/// The whole UI state.
pub struct App {
    pub data: Data,
    pub nav: Nav,
    pub views: Views,
    pub input: Input,
    pub external: External,
    pub counters: Counters,
    pub pending: Pending,
    pub running: bool,
    pub error: Option<AppError>,
}

impl App {
    /// Fresh state: no data yet, the All view selected, Vim normal mode.
    pub fn new(settings: AppSettings) -> (app: App)
        ensures
            app.views == (Views {
                all_view_active: true,
                today_view_active: false,
                upcoming_view_active: false,
                active_pr_org: None,
                jira_cards_view_active: false,
                agenda_view_active: false,
            }),
            app.nav.active_pane == Pane::Projects,
            app.input.input_mode == InputMode::Vim(VimState::Normal),
            app.running,
            app.data.tasks@.len() == 0,
            app.data.projects@.len() == 0,
            app.counters == (Counters {
                star_count: settings.star_count,
                star_date: settings.star_date,
                tomato_count: settings.tomato_count,
                tomato_date: settings.tomato_date,
                pomodoro_started_at: None,
                show_stats: settings.show_stats,
                idle_timeout_secs: settings.idle_timeout_secs,
                idle_forcer: settings.idle_forcer,
                ephemeral: settings.ephemeral,
                last_activity: settings.now_ms,
                pending_ws_sync: false,
                comments_fetch_seq: 0,
                cmd_counter: 0,
            }),
            app.input.theme_idx == settings.theme_idx,
            app.input.theme_selection == settings.theme_idx,
            app.external.hidden_pr_orgs == settings.hidden_pr_orgs,
            app.external.gh_available == settings.gh_available,
            app.external.acli_available == settings.acli_available,
            app.external.gws_available == settings.gws_available,
            app.nav.task_filter == TaskFilter::Active,
            app.nav.sort_mode == SortMode::Default,
            app.input.task_form is None,
            app.nav.dock_filter is None,
            app.nav.dock_focus is None,
            app.pending.pending_commands@.len() == 0,
            app.pending.pending_close_recurring@.len() == 0,
            app.nav.collapsed@.len() == 0,
            app.data.sync_token == settings.sync_token,
            app.input.theme_names == settings.theme_names,
            app.external.github_prs_poll_interval_secs == settings.github_prs_poll_interval_secs,
            app.external.jira_cards_poll_interval_secs == settings.jira_cards_poll_interval_secs,
            app.external.agenda_poll_interval_secs == settings.agenda_poll_interval_secs,
            app.error is None,
    {
        let theme_idx = settings.theme_idx;
        App {
            data: Data {
                projects: Vec::new(),
                workspaces: Vec::new(),
                folders: Vec::new(),
                tasks: Vec::new(),
                labels: Vec::new(),
                sections: Vec::new(),
                comments: Vec::new(),
                comments_by_task: Vec::new(),
                completed_cache: Vec::new(),
                users: Vec::new(),
                current_user_id: None,
                current_user_name: None,
                sync_token: settings.sync_token,
                last_sync_at: None,
                websocket_url: None,
                websocket_connected: false,
            },
            nav: Nav {
                selected_project: 0,
                selected_task: 0,
                active_pane: Pane::Projects,
                folder_cursor: None,
                collapsed: Vec::new(),
                collapsed_folders: Vec::new(),
                detail_scroll: 0,
                detail_field: 0,
                detail_task_id: None,
                dock_focus: None,
                dock_filter: None,
                task_filter: TaskFilter::Active,
                sort_mode: SortMode::Default,
                overdue_section_collapsed: false,
                selected_all_item: 0,
                selected_pr: 0,
                selected_jira_card: 0,
                selected_agenda_item: 0,
            },
            views: Views {
                all_view_active: true,
                today_view_active: false,
                upcoming_view_active: false,
                active_pr_org: None,
                jira_cards_view_active: false,
                agenda_view_active: false,
            },
            input: Input {
                input_mode: InputMode::Vim(VimState::Normal),
                show_input: false,
                input_buffer: String::new(),
                comment_input: false,
                editing_field: false,
                task_form: None,
                show_priority_picker: false,
                priority_selection: 1,
                show_settings: false,
                show_help: false,
                settings_selection: 0,
                show_theme_picker: false,
                theme_selection: theme_idx,
                theme_idx,
                theme_names: settings.theme_names,
                pending_z: false,
            },
            external: External {
                github_prs: Vec::new(),
                github_prs_loading: false,
                github_prs_error: None,
                github_prs_fetched_at: None,
                gh_available: settings.gh_available,
                hidden_pr_orgs: settings.hidden_pr_orgs,
                github_prs_poll_interval_secs: settings.github_prs_poll_interval_secs,
                pending_pr_poll: false,
                jira_cards: Vec::new(),
                jira_cards_loading: false,
                jira_cards_error: None,
                jira_cards_fetched_at: None,
                acli_available: settings.acli_available,
                jira_cards_poll_interval_secs: settings.jira_cards_poll_interval_secs,
                pending_jira_poll: false,
                agenda_events: Vec::new(),
                agenda_loading: false,
                agenda_error: None,
                agenda_fetched_at: None,
                gws_available: settings.gws_available,
                agenda_poll_interval_secs: settings.agenda_poll_interval_secs,
                pending_agenda_poll: false,
            },
            counters: Counters {
                star_count: settings.star_count,
                star_date: settings.star_date,
                tomato_count: settings.tomato_count,
                tomato_date: settings.tomato_date,
                pomodoro_started_at: None,
                show_stats: settings.show_stats,
                idle_timeout_secs: settings.idle_timeout_secs,
                idle_forcer: settings.idle_forcer,
                ephemeral: settings.ephemeral,
                last_activity: settings.now_ms,
                pending_ws_sync: false,
                comments_fetch_seq: 0,
                cmd_counter: 0,
            },
            pending: Pending {
                pending_commands: Vec::new(),
                temp_id_pending: Vec::new(),
                pending_close_recurring: Vec::new(),
            },
            running: true,
            error: None,
        }
    }
}

} // verus!

verus! {

/// Length of a pomodoro in milliseconds (25 minutes).
pub const POMODORO_MS: u64 = 1_500_000;

/// Distinct views of a list of strings.
pub open spec fn str_set(v: Seq<String>) -> Set<Seq<char>> {
    Set::new(|s: Seq<char>| exists|i: int| 0 <= i < v.len() && (#[trigger] v[i])@ == s)
}

/// Whether some string of `v` reads `s`.
pub fn vec_contains_str(v: &Vec<String>, s: &str) -> (r: bool)
    ensures
        r == str_set(v@).contains(s@),
{
    let mut i: usize = 0;
    while i < v.len()
        invariant
            i <= v.len(),
            forall|j: int| 0 <= j < i ==> (#[trigger] v@[j])@ != s@,
        decreases v.len() - i,
    {
        if str_eq(v[i].as_str(), s) {
            assert(str_set(v@).contains(s@)) by {
                assert(v@[i as int]@ == s@);
            }
            return true;
        }
        i += 1;
    }
    false
}

/// Adds `s` to the string set `v` unless it is already there.
pub fn vec_insert_str(v: &mut Vec<String>, s: String)
    ensures
        str_set(final(v)@) == str_set(old(v)@).insert(s@),
{
    if !vec_contains_str(v, s.as_str()) {
        let ghost before = v@;
        v.push(s);
        assert(str_set(v@) =~= str_set(before).insert(s@)) by {
            assert forall|x: Seq<char>| str_set(v@).contains(x) implies str_set(before).insert(
                s@,
            ).contains(x) by {
                let i = choose|i: int| 0 <= i < v@.len() && (#[trigger] v@[i])@ == x;
                if i < before.len() {
                    assert(before[i] == v@[i]);
                }
            }
            assert forall|x: Seq<char>| str_set(before).insert(s@).contains(x) implies str_set(
                v@,
            ).contains(x) by {
                if x == s@ {
                    assert(v@[before.len() as int]@ == x);
                } else {
                    let i = choose|i: int| 0 <= i < before.len() && (#[trigger] before[i])@ == x;
                    assert(v@[i] == before[i]);
                }
            }
        }
    } else {
        assert(str_set(old(v)@).insert(s@) =~= str_set(old(v)@));
    }
}

/// Euclidean remainder of `x` by a positive `d`.
pub fn rem_euclid_i64(x: i64, d: i64) -> (r: i64)
    requires
        0 < d,
    ensures
        r == x % d,
        0 <= r < d,
{
    if x >= 0 {
        let r = x % d;
        proof {
            let q = x as int / d as int;
            assert(x == q * d + r) by (nonlinear_arith)
                requires
                    x >= 0,
                    d > 0,
                    q == x / d,
                    r == x % d,
            ;
            vstd::arithmetic::div_mod::lemma_fundamental_div_mod_converse(x as int, d as int, q, r as int);
        }
        r
    } else {
        let t: i128 = 0 - (x as i128);
        let tr: i128 = t % (d as i128);
        let r: i64 = if tr == 0 { 0 } else { (d as i128 - tr) as i64 };
        proof {
            let q = t as int / d as int;
            assert(t == q * d + tr) by (nonlinear_arith)
                requires
                    t >= 0,
                    d > 0,
                    q == t as int / d as int,
                    tr == t as int % d as int,
            ;
            assert(0 <= tr < d) by (nonlinear_arith)
                requires
                    t >= 0,
                    d > 0,
                    tr == t as int % d as int,
            ;
            let k = if tr == 0 { -q } else { -q - 1 };
            assert(x == k * d + r) by (nonlinear_arith)
                requires
                    x == -t,
                    t == q * d + tr,
                    k == (if tr == 0 { -q } else { -q - 1 }),
                    r == (if tr == 0 { 0 } else { d - tr }),
            ;
            vstd::arithmetic::div_mod::lemma_fundamental_div_mod_converse(x as int, d as int, k, r as int);
        }
        r
    }
}

/// Idle timeouts offered in settings, in seconds.
pub open spec fn idle_options(forcer: bool) -> Seq<u64> {
    if forcer {
        seq![5u64, 60, 120, 300, 600, 900, 1800]
    } else {
        seq![60u64, 120, 300, 600, 900, 1800]
    }
}

/// The option after `current` (after 300 s when `current` is not offered).
pub open spec fn next_idle_timeout(forcer: bool, current: u64) -> u64 {
    let opts = idle_options(forcer);
    let pos = if exists|i: int| 0 <= i < opts.len() && opts[i] == current {
        choose|i: int| 0 <= i < opts.len() && opts[i] == current
    } else {
        2
    };
    opts[(pos + 1) % (opts.len() as int)]
}

} // verus!

verus! {

/// Removes every string reading `s` from the string set `v`.
pub fn vec_remove_str(v: &mut Vec<String>, s: &str)
    ensures
        str_set(final(v)@) == str_set(old(v)@).remove(s@),
{
    let ghost orig = v@;
    let mut out: Vec<String> = Vec::new();
    let mut i: usize = 0;
    while i < v.len()
        invariant
            v@ == orig,
            i <= v.len(),
            forall|k: int| 0 <= k < out.len() ==> (#[trigger] out@[k])@ != s@,
            forall|x: Seq<char>|
                str_set(out@).contains(x) <==> (x != s@ && exists|j: int| 0 <= j < i && (#[trigger] orig[j])@ == x),
        decreases v.len() - i,
    {
        if !crate::text::str_eq(v[i].as_str(), s) {
            let ghost before = out@;
            out.push(v[i].clone());
            assert forall|x: Seq<char>|
                str_set(out@).contains(x) <==> (x != s@ && exists|j: int| 0 <= j < i + 1 && (#[trigger] orig[j])@ == x) by {
                if str_set(out@).contains(x) {
                    let k = choose|k: int| 0 <= k < out@.len() && (#[trigger] out@[k])@ == x;
                    if k < before.len() {
                        assert(out@[k] == before[k]);
                        assert(str_set(before).contains(x));
                    } else {
                        assert(orig[i as int]@ == x);
                    }
                }
                if x != s@ && exists|j: int| 0 <= j < i + 1 && (#[trigger] orig[j])@ == x {
                    let j = choose|j: int| 0 <= j < i + 1 && (#[trigger] orig[j])@ == x;
                    if j < i {
                        assert(str_set(before).contains(x));
                        let k = choose|k: int| 0 <= k < before.len() && (#[trigger] before[k])@ == x;
                        assert(out@[k] == before[k]);
                    } else {
                        assert(out@[before.len() as int]@ == x);
                    }
                }
            }
        } else {
            assert forall|x: Seq<char>|
                str_set(out@).contains(x) <==> (x != s@ && exists|j: int| 0 <= j < i + 1 && (#[trigger] orig[j])@ == x) by {
                if x != s@ && exists|j: int| 0 <= j < i + 1 && (#[trigger] orig[j])@ == x {
                    let j = choose|j: int| 0 <= j < i + 1 && (#[trigger] orig[j])@ == x;
                    assert(j < i);
                }
            }
        }
        i += 1;
    }
    *v = out;
    assert(str_set(v@) =~= str_set(orig).remove(s@));
}

} // verus!
