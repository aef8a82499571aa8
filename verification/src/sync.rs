//! Sync API commands queued by local edits, and the bookkeeping that
//! lets a rejected command be undone.
use vstd::prelude::*;
use vstd::string::*;

use crate::model::{Project, Task};

verus! {

/// Which field an `item_update` changes.
#[derive(Clone, Debug)]
pub enum TaskUpdate {
    Content(String),
    /// Sent as a `due` object whose `string` the server parses.
    DueString(String),
    Description(String),
    Priority(u8),
}

/// The `args` of a Sync API command.
#[derive(Clone, Debug)]
pub enum CommandArgs {
    /// `item_add`: `due` and `priority` are only sent when present.
    ItemAdd {
        content: String,
        project_id: String,
        /// Sent as `due: { string: .. }`, never as a top-level `due_string`.
        due: Option<String>,
        priority: Option<u8>,
    },
    /// `item_close` / `item_reopen`.
    ItemId { id: String },
    ItemUpdate { id: String, update: TaskUpdate },
    NoteAdd { item_id: String, content: String },
    ProjectUpdate { id: String, is_favorite: bool },
}

/// One Sync API command.
#[derive(Clone, Debug)]
pub struct SyncCommand {
    /// `item_add`, `item_close`, `item_reopen`, `item_update`, `note_add`, `project_update`.
    pub kind: String,
    pub temp_id: Option<String>,
    pub uuid: String,
    pub args: CommandArgs,
}

/// What a local edit changed, kept until the server confirms it.
#[derive(Clone, Debug)]
pub enum OptimisticOp {
    TaskAdded { temp_id: String },
    TaskRemoved { snapshot: Task },
    TaskUpdated { task_id: String, before: Task },
    CommentAdded { temp_id: String, task_id: String },
    ProjectUpdated { project_id: String, before: Project },
}

/// A value of a command's `args` as the Sync API takes it.
pub enum ArgValue {
    Text(String),
    Number(u64),
    Flag(bool),
    /// A `due` object: `{ "string": .. }`.
    DueObject(String),
}

/// An argument value as a mathematical value.
pub enum ArgView {
    Text(Seq<char>),
    Number(u64),
    Flag(bool),
    DueObject(Seq<char>),
}

impl ArgValue {
    pub open spec fn view(self) -> ArgView {
        match self {
            ArgValue::Text(s) => ArgView::Text(s@),
            ArgValue::Number(n) => ArgView::Number(n),
            ArgValue::Flag(b) => ArgView::Flag(b),
            ArgValue::DueObject(s) => ArgView::DueObject(s@),
        }
    }
}

/// The named fields of `args`, in order: `item_add` sends its due date as
/// a `due` object (never a top-level `due_string`) and its due date and
/// priority only when present.
pub open spec fn arg_fields(a: CommandArgs) -> Seq<(Seq<char>, ArgView)> {
    match a {
        CommandArgs::ItemAdd { content, project_id, due, priority } => seq![
            ("content"@, ArgView::Text(content@)),
            ("project_id"@, ArgView::Text(project_id@)),
        ] + match due {
            Some(d) => seq![("due"@, ArgView::DueObject(d@))],
            None => Seq::empty(),
        } + match priority {
            Some(p) => seq![("priority"@, ArgView::Number(p as u64))],
            None => Seq::empty(),
        },
        CommandArgs::ItemId { id } => seq![("id"@, ArgView::Text(id@))],
        CommandArgs::ItemUpdate { id, update } => seq![("id"@, ArgView::Text(id@))] + match update {
            TaskUpdate::Content(s) => seq![("content"@, ArgView::Text(s@))],
            TaskUpdate::DueString(s) => seq![("due"@, ArgView::DueObject(s@))],
            TaskUpdate::Description(s) => seq![("description"@, ArgView::Text(s@))],
            TaskUpdate::Priority(p) => seq![("priority"@, ArgView::Number(p as u64))],
        },
        CommandArgs::NoteAdd { item_id, content } => seq![
            ("item_id"@, ArgView::Text(item_id@)),
            ("content"@, ArgView::Text(content@)),
        ],
        CommandArgs::ProjectUpdate { id, is_favorite } => seq![
            ("id"@, ArgView::Text(id@)),
            ("is_favorite"@, ArgView::Flag(is_favorite)),
        ],
    }
}

/// The fields of `fs` as mathematical values.
pub open spec fn fields_view(fs: Seq<(String, ArgValue)>) -> Seq<(Seq<char>, ArgView)> {
    fs.map_values(|f: (String, ArgValue)| (f.0@, f.1.view()))
}

fn text(s: &String) -> (v: ArgValue)
    ensures
        v.view() == ArgView::Text(s@),
{
    ArgValue::Text(s.clone())
}

/// The named fields of a command's `args`, as `arg_fields` says.
pub fn args_fields(a: &CommandArgs) -> (r: Vec<(String, ArgValue)>)
    ensures
        fields_view(r@) == arg_fields(*a),
{
    let mut r: Vec<(String, ArgValue)> = Vec::new();
    match a {
        CommandArgs::ItemAdd { content, project_id, due, priority } => {
            r.push((String::from_str("content"), text(content)));
            r.push((String::from_str("project_id"), text(project_id)));
            match due {
                Some(d) => r.push((String::from_str("due"), ArgValue::DueObject(d.clone()))),
                None => {},
            }
            match priority {
                Some(p) => r.push((String::from_str("priority"), ArgValue::Number(*p as u64))),
                None => {},
            }
        },
        CommandArgs::ItemId { id } => {
            r.push((String::from_str("id"), text(id)));
        },
        CommandArgs::ItemUpdate { id, update } => {
            r.push((String::from_str("id"), text(id)));
            match update {
                TaskUpdate::Content(s) => r.push((String::from_str("content"), text(s))),
                TaskUpdate::DueString(s) => r.push((String::from_str("due"), ArgValue::DueObject(s.clone()))),
                TaskUpdate::Description(s) => r.push((String::from_str("description"), text(s))),
                TaskUpdate::Priority(p) => r.push((String::from_str("priority"), ArgValue::Number(*p as u64))),
            }
        },
        CommandArgs::NoteAdd { item_id, content } => {
            r.push((String::from_str("item_id"), text(item_id)));
            r.push((String::from_str("content"), text(content)));
        },
        CommandArgs::ProjectUpdate { id, is_favorite } => {
            r.push((String::from_str("id"), text(id)));
            r.push((String::from_str("is_favorite"), ArgValue::Flag(*is_favorite)));
        },
    }
    assert(fields_view(r@) =~= arg_fields(*a));
    r
}

} // verus!
