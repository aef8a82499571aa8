//! Plain records for the Todoist resources and the external work items
//! (pull requests, Jira cards, calendar events) the views show.
use vstd::prelude::*;

use crate::text::str_eq;

verus! {

/// A task's due date as Todoist reports it.
#[derive(Clone, Debug, Default)]
pub struct Due {
    /// `YYYY-MM-DD`.
    pub date: String,
    pub is_recurring: bool,
    pub timezone: Option<String>,
    /// What the user typed (`"every day"`, `"10 Apr"`), if known.
    pub string: Option<String>,
    pub datetime: Option<String>,
    pub lang: Option<String>,
}

/// A Todoist task ("item").
#[derive(Clone, Debug, Default)]
pub struct Task {
    pub id: String,
    pub content: String,
    pub description: String,
    pub project_id: String,
    pub section_id: Option<String>,
    pub parent_id: Option<String>,
    pub priority: u8,
    pub due: Option<Due>,
    pub labels: Vec<String>,
    pub checked: bool,
    pub is_deleted: bool,
    pub child_order: i32,
    pub responsible_uid: Option<String>,
    pub added_at: Option<String>,
    pub completed_at: Option<String>,
    pub note_count: Option<i32>,
    pub user_id: Option<String>,
}

/// A Todoist project.
#[derive(Clone, Debug, Default)]
pub struct Project {
    pub id: String,
    pub name: String,
    pub parent_id: Option<String>,
    pub workspace_id: Option<String>,
    pub folder_id: Option<String>,
    pub child_order: i32,
    pub is_favorite: bool,
    pub inbox_project: Option<bool>,
    pub is_deleted: Option<bool>,
}

impl Project {
    pub open spec fn spec_is_inbox(&self) -> bool {
        self.inbox_project == Some(true)
    }

    /// Whether this is the user's Inbox.
    #[verifier::when_used_as_spec(spec_is_inbox)]
    pub fn is_inbox(&self) -> (r: bool)
        ensures
            r == self.spec_is_inbox(),
    {
        match self.inbox_project {
            Some(b) => b,
            None => false,
        }
    }
}

/// A team workspace.
#[derive(Clone, Debug, Default)]
pub struct Workspace {
    pub id: String,
    pub name: String,
    pub is_deleted: bool,
}

/// A folder of projects inside a workspace.
#[derive(Clone, Debug, Default)]
pub struct Folder {
    pub id: String,
    pub name: String,
    pub workspace_id: String,
    pub child_order: i32,
    pub is_deleted: bool,
}

/// A section of a project.
#[derive(Clone, Debug, Default)]
pub struct Section {
    pub id: String,
    pub name: String,
    pub project_id: String,
    pub section_order: Option<i32>,
    pub is_deleted: Option<bool>,
}

/// A personal label.
#[derive(Clone, Debug, Default)]
pub struct Label {
    pub id: String,
    pub name: String,
    pub color: String,
    pub is_deleted: Option<bool>,
}

/// A comment ("note") on a task.
#[derive(Clone, Debug, Default)]
pub struct Comment {
    pub id: String,
    pub content: String,
    pub posted_at: Option<String>,
    pub posted_by_uid: Option<String>,
    pub task_id: Option<String>,
    pub item_id: Option<String>,
    pub is_deleted: bool,
}

} // verus!

verus! {

/// CI rollup of a pull request's latest commit.
#[derive(Clone, Copy, Debug, PartialEq, Eq, Structural)]
pub enum CheckStatus {
    Success,
    Failure,
    Pending,
}

/// An open pull request as listed by `gh search prs`.
#[derive(Clone, Debug, Default)]
pub struct PullRequest {
    pub number: u64,
    pub title: String,
    pub url: String,
    /// `owner/name`.
    pub repo_full_name: String,
    pub author_login: String,
    pub updated_at: String,
    pub is_draft: bool,
    pub node_id: String,
    pub check_status: Option<CheckStatus>,
}

/// A Jira work item as listed by `acli jira workitem search`.
#[derive(Clone, Debug, Default)]
pub struct JiraCard {
    pub key: String,
    pub summary: String,
    pub status: String,
    pub priority: String,
    pub issue_type: String,
    /// The key's prefix before its first `-`.
    pub project_key: String,
}

/// A calendar event of today.
#[derive(Clone, Debug, Default)]
pub struct CalendarEvent {
    pub summary: String,
    /// RFC 3339 for timed events, `YYYY-MM-DD` for all-day ones.
    pub start: String,
    pub end: String,
    pub all_day: bool,
    pub location: String,
    pub html_link: String,
    pub calendar_name: String,
}

/// GitHub's `statusCheckRollup.state` folded into three outcomes.
pub open spec fn check_state_of(s: Seq<char>) -> Option<CheckStatus> {
    if s == "SUCCESS"@ {
        Some(CheckStatus::Success)
    } else if s == "FAILURE"@ || s == "ERROR"@ {
        Some(CheckStatus::Failure)
    } else if s == "PENDING"@ || s == "EXPECTED"@ {
        Some(CheckStatus::Pending)
    } else {
        None
    }
}

/// Maps a rollup state string to a `CheckStatus`.
pub fn parse_check_state(s: &str) -> (r: Option<CheckStatus>)
    ensures
        r == check_state_of(s@),
{
    if str_eq(s, "SUCCESS") {
        Some(CheckStatus::Success)
    } else if str_eq(s, "FAILURE") || str_eq(s, "ERROR") {
        Some(CheckStatus::Failure)
    } else if str_eq(s, "PENDING") || str_eq(s, "EXPECTED") {
        Some(CheckStatus::Pending)
    } else {
        None
    }
}

/// Glyph (with trailing space) for a Jira issue type.
pub open spec fn issue_glyph(t: Seq<char>) -> Seq<char> {
    if t == "Bug"@ {
        "✦ "@
    } else if t == "Story"@ {
        "◈ "@
    } else if t == "Task"@ {
        "☐ "@
    } else if t == "Epic"@ {
        "▼ "@
    } else if t == "Sub-task"@ || t == "Subtask"@ {
        "⤷ "@
    } else if t == ""@ {
        "  "@
    } else {
        "• "@
    }
}

pub fn issue_type_glyph(issue_type: &str) -> (g: &'static str)
    ensures
        g@ == issue_glyph(issue_type@),
{
    if str_eq(issue_type, "Bug") {
        "✦ "
    } else if str_eq(issue_type, "Story") {
        "◈ "
    } else if str_eq(issue_type, "Task") {
        "☐ "
    } else if str_eq(issue_type, "Epic") {
        "▼ "
    } else if str_eq(issue_type, "Sub-task") || str_eq(issue_type, "Subtask") {
        "⤷ "
    } else if str_eq(issue_type, "") {
        "  "
    } else {
        "• "
    }
}

} // verus!

verus! {

fn clone_opt_string(o: &Option<String>) -> (r: Option<String>)
    ensures
        r == *o,
{
    match o {
        Some(s) => Some(s.clone()),
        None => None,
    }
}

fn clone_strings(v: &Vec<String>) -> (r: Vec<String>)
    ensures
        r@ == v@,
{
    let mut r: Vec<String> = Vec::new();
    let mut i: usize = 0;
    while i < v.len()
        invariant
            i <= v.len(),
            r@ == v@.take(i as int),
        decreases v.len() - i,
    {
        r.push(v[i].clone());
        assert(r@ =~= v@.take(i + 1));
        i += 1;
    }
    assert(v@.take(v.len() as int) =~= v@);
    r
}

impl Due {
    /// An equal `Due`, built field by field.
    pub fn duplicate(&self) -> (r: Due)
        ensures
            r == *self,
    {
        Due {
            date: self.date.clone(),
            is_recurring: self.is_recurring,
            timezone: clone_opt_string(&self.timezone),
            string: clone_opt_string(&self.string),
            datetime: clone_opt_string(&self.datetime),
            lang: clone_opt_string(&self.lang),
        }
    }
}

/// Two tasks agree field by field (labels by their contents).
pub open spec fn same_task(a: Task, b: Task) -> bool {
    a == (Task { labels: a.labels, ..b }) && a.labels@ == b.labels@
}

impl Task {
    /// An equal `Task`, built field by field.
    pub fn duplicate(&self) -> (r: Task)
        ensures
            same_task(r, *self),
    {
        let labels = clone_strings(&self.labels);
        Task {
            id: self.id.clone(),
            content: self.content.clone(),
            description: self.description.clone(),
            project_id: self.project_id.clone(),
            section_id: clone_opt_string(&self.section_id),
            parent_id: clone_opt_string(&self.parent_id),
            priority: self.priority,
            due: match &self.due {
                Some(d) => Some(d.duplicate()),
                None => None,
            },
            labels,
            checked: self.checked,
            is_deleted: self.is_deleted,
            child_order: self.child_order,
            responsible_uid: clone_opt_string(&self.responsible_uid),
            added_at: clone_opt_string(&self.added_at),
            completed_at: clone_opt_string(&self.completed_at),
            note_count: self.note_count,
            user_id: clone_opt_string(&self.user_id),
        }
    }
}

impl Project {
    /// An equal `Project`, built field by field.
    pub fn duplicate(&self) -> (r: Project)
        ensures
            r == *self,
    {
        Project {
            id: self.id.clone(),
            name: self.name.clone(),
            parent_id: clone_opt_string(&self.parent_id),
            workspace_id: clone_opt_string(&self.workspace_id),
            folder_id: clone_opt_string(&self.folder_id),
            child_order: self.child_order,
            is_favorite: self.is_favorite,
            inbox_project: self.inbox_project,
            is_deleted: self.is_deleted,
        }
    }
}

} // verus!

verus! {

impl Comment {
    /// An equal `Comment`, built field by field.
    pub fn duplicate(&self) -> (r: Comment)
        ensures
            r == *self,
    {
        Comment {
            id: self.id.clone(),
            content: self.content.clone(),
            posted_at: clone_opt_string(&self.posted_at),
            posted_by_uid: clone_opt_string(&self.posted_by_uid),
            task_id: clone_opt_string(&self.task_id),
            item_id: clone_opt_string(&self.item_id),
            is_deleted: self.is_deleted,
        }
    }
}

/// The comments of a list, duplicated one by one.
pub fn duplicate_comments(v: &Vec<Comment>) -> (r: Vec<Comment>)
    ensures
        r@ == v@,
{
    let mut r: Vec<Comment> = Vec::new();
    let mut i: usize = 0;
    while i < v.len()
        invariant
            i <= v.len(),
            r@ == v@.take(i as int),
        decreases v.len() - i,
    {
        r.push(v[i].duplicate());
        assert(r@ =~= v@.take(i + 1));
        i += 1;
    }
    assert(v@.take(v.len() as int) =~= v@);
    r
}

} // verus!
