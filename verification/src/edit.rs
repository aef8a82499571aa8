//! Local edits: completing tasks, the add-task form, comments and field
//! edits. Each edit updates the state at once and queues the Sync API
//! command that makes it on the server, with an undo record.
use vstd::prelude::*;
use vstd::string::*;

use crate::app::{
    api_error_parts, opt_view, rem_euclid_i64, str_set, vec_contains_str, vec_insert_str,
    vec_remove_str, AllViewItem, App, AppError, Counters, Data, Input, InputMode, Nav, Pane, Pending,
    TaskForm, VimState,
};
use crate::nav::{insert_mode, normal_mode};
use crate::model::Project;
use crate::counters::{rolled, sat_inc};
use crate::dates::today_str;
use crate::ids::{
    bump_counter, clock_subsec_nanos, next_counter, temp_id_for, temp_id_text, uuid_for, uuid_text,
};
use crate::text::{str_eq, trim_text, trim_ws};
use crate::app::build_item_add_args;
use crate::model::{duplicate_comments, same_task, Comment, Task};
use crate::sync::{CommandArgs, OptimisticOp, SyncCommand, TaskUpdate};
use crate::tasks::{
    all_items, clock_ok, find_task, first_with_id, read_clock, row_task_spec, selected_project_id,
    visible_rows, Clock, TaskRow,
};

verus! {

/// `new` is `old` with one more element at the end.
pub open spec fn pushed<T>(old: Seq<T>, new: Seq<T>) -> bool {
    new.len() == old.len() + 1 && new.drop_last() == old
}

/// The command that closes or reopens task `id`.
pub open spec fn close_command(c: SyncCommand, reopen: bool, id: Seq<char>, uuid: Seq<char>) -> bool {
    &&& c.kind@ == (if reopen {
        "item_reopen"@
    } else {
        "item_close"@
    })
    &&& c.temp_id is None
    &&& c.uuid@ == uuid
    &&& c.args matches CommandArgs::ItemId { id: x } && x@ == id
}

/// The whole effect of completing (or reopening) the task at index `i`
/// whose id is `id`, on `today`, with command uuid nanos `ns`.
pub open spec fn completes(old: App, new: App, id: Seq<char>, i: int, today: Seq<char>, ns: u32) -> bool {
    let t = old.data.tasks@[i];
    let was = t.checked;
    let recurring = match t.due {
        Some(d) => d.is_recurring,
        None => false,
    };
    let closing_recurring = !was && recurring;
    let uuid = uuid_text(ns, old.counters.cmd_counter);
    &&& new.data == (Data { tasks: new.data.tasks, ..old.data })
    &&& new.data.tasks@ == (if closing_recurring {
        old.data.tasks@
    } else {
        old.data.tasks@.update(i, Task { checked: !was, ..t })
    })
    &&& new.nav == old.nav && new.views == old.views && new.input == old.input
    &&& new.external == old.external && new.running == old.running && new.error == old.error
    &&& new.counters == (Counters {
        star_count: if !was {
            sat_inc(rolled(old.counters.star_count, old.counters.star_date@, today))
        } else {
            old.counters.star_count
        },
        star_date: new.counters.star_date,
        cmd_counter: next_counter(old.counters.cmd_counter),
        ..old.counters
    })
    &&& new.counters.star_date@ == (if !was {
        today
    } else {
        old.counters.star_date@
    })
    &&& str_set(new.pending.pending_close_recurring@) == (if closing_recurring {
        str_set(old.pending.pending_close_recurring@).insert(id)
    } else {
        str_set(old.pending.pending_close_recurring@)
    })
    &&& pushed(old.pending.pending_commands@, new.pending.pending_commands@)
    &&& close_command(new.pending.pending_commands@.last(), was, id, uuid)
    &&& pushed(old.pending.temp_id_pending@, new.pending.temp_id_pending@)
    &&& new.pending.temp_id_pending@.last().0@ == uuid
    &&& new.pending.temp_id_pending@.last().1 matches OptimisticOp::TaskUpdated { task_id: x, before: b }
        && x@ == id && same_task(b, t)
}

impl App {
    /// A fresh command uuid; advances the id counter.
    fn next_uuid(&mut self, ns: u32) -> (u: String)
        ensures
            u@ == uuid_text(ns, old(self).counters.cmd_counter),
            *final(self) == (App {
                counters: Counters {
                    cmd_counter: next_counter(old(self).counters.cmd_counter),
                    ..old(self).counters
                },
                ..*old(self)
            }),
    {
        let u = uuid_for(ns, self.counters.cmd_counter);
        self.counters.cmd_counter = bump_counter(self.counters.cmd_counter);
        u
    }

    /// Completes (or, when it is done, reopens) the task `task_id` on
    /// `today`: a completed recurring task is hidden until the server moves
    /// its due date, any other task flips `checked`; completing earns a
    /// star; an `item_close` / `item_reopen` command and an undo record are
    /// queued. An unknown id changes nothing.
    pub fn enqueue_complete_task_by_id_at(&mut self, task_id: String, today: &str, ns: u32)
        ensures
            first_with_id(old(self).data.tasks@, task_id@) is None ==> *final(self) == *old(self),
            first_with_id(old(self).data.tasks@, task_id@) matches Some(i) ==> completes(
                *old(self),
                *final(self),
                task_id@,
                i,
                today@,
                ns,
            ),
    {
        let i = match find_task(&self.data.tasks, task_id.as_str()) {
            Some(i) => i,
            None => return,
        };
        let ghost old_app = *self;
        let before = self.data.tasks[i].duplicate();
        let was = before.checked;
        let recurring = match &before.due {
            Some(d) => d.is_recurring,
            None => false,
        };
        if !was && recurring {
            vec_insert_str(&mut self.pending.pending_close_recurring, task_id.clone());
        } else {
            let mut t = self.data.tasks.remove(i);
            t.checked = !was;
            self.data.tasks.insert(i, t);
            assert(self.data.tasks@ =~= old_app.data.tasks@.update(
                i as int,
                Task { checked: !was, ..old_app.data.tasks@[i as int] },
            ));
        }
        if !was {
            self.increment_star_jar_on(today);
        }
        let uuid = self.next_uuid(ns);
        let kind = if was {
            String::from_str("item_reopen")
        } else {
            String::from_str("item_close")
        };
        self.pending.pending_commands.push(
            SyncCommand {
                kind,
                temp_id: None,
                uuid: uuid.clone(),
                args: CommandArgs::ItemId { id: task_id.clone() },
            },
        );
        self.pending.temp_id_pending.push((uuid, OptimisticOp::TaskUpdated { task_id, before }));
        assert(self.pending.pending_commands@.drop_last() =~= old_app.pending.pending_commands@);
        assert(self.pending.temp_id_pending@.drop_last() =~= old_app.pending.temp_id_pending@);
    }

    /// Completes or reopens the task `task_id` now.
    pub fn enqueue_complete_task_by_id(&mut self, task_id: String)
        ensures
            first_with_id(old(self).data.tasks@, task_id@) is None ==> *final(self) == *old(self),
            first_with_id(old(self).data.tasks@, task_id@) matches Some(i) ==> exists|today: Seq<char>, ns: u32|
                completes(*old(self), *final(self), task_id@, i, today, ns),
    {
        let today = today_str();
        let ns = clock_subsec_nanos();
        self.enqueue_complete_task_by_id_at(task_id, today.as_str(), ns);
    }
}

} // verus!

verus! {

/// What an edit reads from the clock.
#[derive(Clone, Debug)]
pub struct Moment {
    pub clock: Clock,
    /// Sub-second nanos for the command uuid.
    pub nanos: u32,
    /// RFC 3339 time stamp for new comments.
    pub posted_at: String,
}

/// `chrono::Utc::now().to_rfc3339()`; depends on the clock, nothing is
/// promised of it.
#[verifier::external_body]
pub(crate) fn now_rfc3339() -> String {
    chrono::Utc::now().to_rfc3339()
}

/// Reads the clock for an edit.
pub fn read_moment() -> (m: Moment)
    ensures
        clock_ok(m.clock),
{
    Moment { clock: read_clock(), nanos: clock_subsec_nanos(), posted_at: now_rfc3339() }
}

/// The task the detail pane or the cursor is on.
pub open spec fn selected_task_spec(app: App, c: Clock) -> Option<Task> {
    match app.nav.detail_task_id {
        Some(id) => match first_with_id(app.data.tasks@, id@) {
            Some(i) => Some(app.data.tasks@[i]),
            None => None,
        },
        None => {
            let rows = visible_rows(app, c);
            if app.nav.selected_task < rows.len() {
                row_task_spec(app, rows[app.nav.selected_task as int])
            } else {
                None
            }
        },
    }
}

/// The input state after leaving the input line.
pub open spec fn input_closed(old: Input, new: Input) -> bool {
    &&& new == (Input {
        show_input: false,
        comment_input: false,
        editing_field: false,
        task_form: None,
        input_buffer: new.input_buffer,
        input_mode: normal_mode(old.input_mode),
        ..old
    })
    &&& new.input_buffer@ == Seq::<char>::empty()
}

/// `i` is the first Inbox among `projects`.
pub open spec fn first_inbox_at(projects: Seq<Project>, i: int) -> bool {
    0 <= i < projects.len() && projects[i].spec_is_inbox() && forall|j: int|
        0 <= j < i ==> !(#[trigger] projects[j]).spec_is_inbox()
}

/// The Inbox's id, or empty when there is none.
pub open spec fn inbox_id(projects: Seq<Project>) -> Seq<char> {
    if exists|i: int| first_inbox_at(projects, i) {
        projects[choose|i: int| first_inbox_at(projects, i)].id@
    } else {
        Seq::empty()
    }
}

/// Project and due date an add-task form starts with: the Today view (or
/// the Today section of the All view) adds to the Inbox due today,
/// Upcoming adds to the Inbox undated, a project view adds there.
pub open spec fn add_defaults(app: App, c: Clock) -> (Seq<char>, Seq<char>) {
    let items = all_items(app, c);
    let on_all_today = app.views.all_view_active && app.nav.selected_all_item < items.len()
        && items[app.nav.selected_all_item as int] is Task;
    if app.views.today_view_active || on_all_today {
        (inbox_id(app.data.projects@), "today"@)
    } else if app.views.upcoming_view_active {
        (inbox_id(app.data.projects@), ""@)
    } else {
        (
            match selected_project_id(app) {
                Some(p) => p,
                None => ""@,
            },
            ""@,
        )
    }
}

fn first_inbox(projects: &Vec<Project>) -> (r: String)
    ensures
        r@ == inbox_id(projects@),
{
    let mut i: usize = 0;
    while i < projects.len()
        invariant
            i <= projects.len(),
            forall|j: int| 0 <= j < i ==> !(#[trigger] projects@[j]).spec_is_inbox(),
        decreases projects.len() - i,
    {
        if projects[i].is_inbox() {
            proof {
                assert(first_inbox_at(projects@, i as int));
                let k = choose|k: int| first_inbox_at(projects@, k);
                if k < i {
                    assert(!projects@[k].spec_is_inbox());
                } else if k > i {
                    assert(!projects@[i as int].spec_is_inbox());
                }
            }
            return projects[i].id.clone();
        }
        i += 1;
    }
    proof {
        if exists|k: int| first_inbox_at(projects@, k) {
            let k = choose|k: int| first_inbox_at(projects@, k);
            assert(!projects@[k].spec_is_inbox());
        }
    }
    String::new()
}

impl App {
    /// The task the detail pane or the cursor is on, on clock `c`.
    pub fn selected_task_on(&self, c: &Clock) -> (r: Option<&Task>)
        ensures
            match r {
                Some(t) => selected_task_spec(*self, *c) == Some(*t),
                None => selected_task_spec(*self, *c) is None,
            },
    {
        match &self.nav.detail_task_id {
            Some(id) => match find_task(&self.data.tasks, id.as_str()) {
                Some(i) => Some(&self.data.tasks[i]),
                None => None,
            },
            None => {
                let rows = self.visible_tasks_on(c);
                if self.nav.selected_task < rows.len() {
                    self.row_task(rows[self.nav.selected_task])
                } else {
                    None
                }
            },
        }
    }

    /// The task the detail pane or the cursor is on now.
    pub fn selected_task(&self) -> (r: Option<&Task>)
        ensures
            exists|c: Clock|
                clock_ok(c) && match r {
                    Some(t) => selected_task_spec(*self, c) == Some(*t),
                    None => selected_task_spec(*self, c) is None,
                },
    {
        let c = read_clock();
        self.selected_task_on(&c)
    }

    /// What `cancel_input` does to the state.
    pub open spec fn cancel_input_effect(old: App, new: App) -> bool {
        &&& new == (App { input: new.input, ..old })
        &&& input_closed(old.input, new.input)
    }

    /// Leaves the input line, dropping what was typed and any open form.
    pub fn cancel_input(&mut self)
        ensures
            Self::cancel_input_effect(*old(self), *final(self)),
    {
        self.input.show_input = false;
        self.input.comment_input = false;
        self.input.editing_field = false;
        self.input.task_form = None;
        self.input.input_buffer = String::new();
        self.input.input_mode = match self.input.input_mode {
            InputMode::Vim(_) => InputMode::Vim(VimState::Normal),
            InputMode::Standard => InputMode::Standard,
        };
    }

    /// What `start_comment_input` does to the state.
    pub open spec fn start_comment_input_effect(old: App, new: App) -> bool {
        &&& new == (App { input: new.input, ..old })
        &&& new.input == (Input {
            comment_input: true,
            show_input: true,
            input_buffer: new.input.input_buffer,
            input_mode: insert_mode(old.input.input_mode),
            ..old.input
        })
        &&& new.input.input_buffer@ == Seq::<char>::empty()
    }

    /// Opens the input line for a comment.
    pub fn start_comment_input(&mut self)
        ensures
            Self::start_comment_input_effect(*old(self), *final(self)),
    {
        self.input.comment_input = true;
        self.input.show_input = true;
        self.input.input_buffer = String::new();
        self.input.input_mode = match self.input.input_mode {
            InputMode::Vim(_) => InputMode::Vim(VimState::Insert),
            InputMode::Standard => InputMode::Standard,
        };
    }

    /// What `toggle_input_mode` does to the state.
    pub open spec fn toggle_input_mode_effect(old: App, new: App) -> bool {
        &&& new == (App {
            input: Input {
                input_mode: match old.input.input_mode {
                    InputMode::Vim(_) => InputMode::Standard,
                    InputMode::Standard => InputMode::Vim(VimState::Normal),
                },
                ..old.input
            },
            ..old
        })
    }

    /// Switches between the Vim and the standard key scheme.
    pub fn toggle_input_mode(&mut self)
        ensures
            Self::toggle_input_mode_effect(*old(self), *final(self)),
    {
        self.input.input_mode = match self.input.input_mode {
            InputMode::Vim(_) => InputMode::Standard,
            InputMode::Standard => InputMode::Vim(VimState::Normal),
        };
    }

    /// Adding a multiple of four keeps the remainder by four.
    proof fn lemma_shift_mod4(x: int, q: int)
        ensures
            (x + 4 * q) % 4 == x % 4,
    {
        vstd::arithmetic::div_mod::lemma_mod_multiples_vanish(q, x, 4);
        assert(x + 4 * q == 4 * q + x);
    }

    /// What `move_detail_field` does to the state.
    pub open spec fn move_detail_field_effect(old: App, new: App, delta: i32) -> bool {
        new == (App {
            nav: Nav { detail_field: ((old.nav.detail_field + delta) % 4) as usize, ..old.nav },
            ..old
        })
    }

    /// Moves the detail pane's field cursor by `delta`, wrapping over the
    /// four fields.
    pub fn move_detail_field(&mut self, delta: i32)
        ensures
            Self::move_detail_field_effect(*old(self), *final(self), delta),
    {
        let f = self.nav.detail_field;
        let cur = (f % 4) as i64;
        let r = rem_euclid_i64(cur + delta as i64, 4);
        proof {
            let q = f as int / 4;
            assert(f as int == 4 * q + cur) by (nonlinear_arith)
                requires
                    q == f as int / 4,
                    cur == f as int % 4,
            ;
            Self::lemma_shift_mod4(cur + delta, q);
        }
        self.nav.detail_field = r as usize;
    }

    /// Shows the popup for an error text `raw` raised while doing `context`.
    pub fn set_error(&mut self, raw: &str, context: &str)
        ensures
            *final(self) == (App { error: final(self).error, ..*old(self) }),
            final(self).error matches Some(e) && (e.title@, e.message@, opt_view(e.suggestion))
                == api_error_parts(raw@, context@) && e.recoverable,
    {
        self.error = Some(AppError::from_api(raw, context));
    }

    /// What `handle_error_dismiss` does to the state.
    pub open spec fn handle_error_dismiss_effect(old: App, new: App) -> bool {
        &&& new == (App {
            error: None,
            running: match old.error {
                Some(e) => old.running && e.recoverable,
                None => old.running,
            },
            ..old
        })
    }

    /// Closes the error popup; an unrecoverable error ends the program.
    pub fn handle_error_dismiss(&mut self)
        ensures
            Self::handle_error_dismiss_effect(*old(self), *final(self)),
    {
        if let Some(err) = self.error.take() {
            if !err.recoverable {
                self.running = false;
            }
        }
    }

    /// What `form_field_up` does to the state.
    pub open spec fn form_field_up_effect(old: App, new: App) -> bool {
        &&& new == (App { input: new.input, ..old })
        &&& new.input == (Input { task_form: new.input.task_form, ..old.input })
        &&& new.input.task_form == match old.input.task_form {
            Some(f) => if f.editing {
                Some(f)
            } else {
                Some(TaskForm { active_field: form_up(f.active_field), ..f })
            },
            None => None,
        }
    }

    /// Moves the form cursor up a field (wrapping) unless a field is being
    /// edited.
    pub fn form_field_up(&mut self)
        ensures
            Self::form_field_up_effect(*old(self), *final(self)),
    {
        if let Some(form) = &mut self.input.task_form {
            if !form.editing {
                let count = TaskForm::field_count();
                form.active_field = if form.active_field == 0 {
                    count - 1
                } else {
                    form.active_field - 1
                };
            }
        }
    }

    /// What `form_field_down` does to the state.
    pub open spec fn form_field_down_effect(old: App, new: App) -> bool {
        &&& new == (App { input: new.input, ..old })
        &&& new.input == (Input { task_form: new.input.task_form, ..old.input })
        &&& new.input.task_form == match old.input.task_form {
            Some(f) => if f.editing {
                Some(f)
            } else {
                Some(TaskForm { active_field: form_down(f.active_field), ..f })
            },
            None => None,
        }
    }

    /// Moves the form cursor down a field (wrapping) unless a field is being
    /// edited.
    pub fn form_field_down(&mut self)
        ensures
            Self::form_field_down_effect(*old(self), *final(self)),
    {
        if let Some(form) = &mut self.input.task_form {
            if !form.editing {
                form.active_field = if form.active_field >= 3 {
                    if form.active_field == 3 {
                        0
                    } else {
                        (form.active_field - 3) % 4
                    }
                } else {
                    form.active_field + 1
                };
            }
        }
    }

    /// What `start_input_on` does to the state.
    pub open spec fn start_input_on_effect(old: App, new: App, c: Clock) -> bool {
        &&& new == (App { input: new.input, ..old })
        &&& new.input == (Input {
            task_form: new.input.task_form,
            show_input: true,
            input_buffer: new.input.input_buffer,
            input_mode: insert_mode(old.input.input_mode),
            ..old.input
        })
        &&& new.input.input_buffer@ == Seq::<char>::empty()
        &&& new.input.task_form matches Some(f) && f.content@ == Seq::<char>::empty()
            && f.priority == 1 && f.active_field == 0 && f.editing && f.project_id@ == add_defaults(
            old,
            c,
        ).0 && f.due_string@ == add_defaults(old, c).1
    }

    /// Opens the add-task form with the defaults of the current view, on
    /// clock `c`.
    pub fn start_input_on(&mut self, c: &Clock)
        ensures
            Self::start_input_on_effect(*old(self), *final(self), *c),
    {
        proof {
            reveal_strlit("");
            reveal_strlit("today");
        }
        let items = self.all_view_items_on(c);
        let on_all_today = self.views.all_view_active && self.nav.selected_all_item < items.len()
            && match items[self.nav.selected_all_item] {
            AllViewItem::Task(_) => true,
            _ => false,
        };
        let (project_id, due) = if self.views.today_view_active || on_all_today {
            (first_inbox(&self.data.projects), String::from_str("today"))
        } else if self.views.upcoming_view_active {
            (first_inbox(&self.data.projects), String::new())
        } else {
            let pid = if self.nav.selected_project < self.data.projects.len() {
                self.data.projects[self.nav.selected_project].id.clone()
            } else {
                String::new()
            };
            (pid, String::new())
        };
        let mut form = TaskForm::new(project_id);
        form.due_string = due;
        self.input.task_form = Some(form);
        self.input.show_input = true;
        self.input.input_buffer = String::new();
        self.input.input_mode = match self.input.input_mode {
            InputMode::Vim(_) => InputMode::Vim(VimState::Insert),
            InputMode::Standard => InputMode::Standard,
        };
        assert(*self == (App { input: self.input, ..*old(self) }));
        assert(self.input.input_buffer@ == Seq::<char>::empty());
        assert(self.input.task_form matches Some(f) && f.project_id@ == add_defaults(*old(self), *c).0);
        assert(self.input.task_form matches Some(f) && f.due_string@ == add_defaults(*old(self), *c).1);
    }

    /// Opens the add-task form now.
    pub fn start_input(&mut self)
        ensures
            exists|c: Clock| clock_ok(c) && #[trigger] Self::start_input_on_effect(*old(self), *final(self), c),
    {
        let c = read_clock();
        self.start_input_on(&c);
        assert(Self::start_input_on_effect(*old(self), *self, c));
    }
}

/// The form field above `i`, wrapping over the four fields.
pub open spec fn form_up(i: usize) -> usize {
    if i == 0 {
        3
    } else {
        (i - 1) as usize
    }
}

/// The form field below `i`, wrapping over the four fields.
pub open spec fn form_down(i: usize) -> usize {
    ((i + 1) % 4) as usize
}

} // verus!

verus! {

/// A task created locally, before the server knows it.
pub open spec fn local_task(t: Task, id: Seq<char>, content: Seq<char>, project_id: Seq<char>, priority: u8) -> bool {
    &&& t.id@ == id && t.content@ == content && t.project_id@ == project_id && t.priority == priority
    &&& t.description@ == Seq::<char>::empty() && t.section_id is None && t.parent_id is None
    &&& t.due is None && t.labels@.len() == 0 && !t.checked && !t.is_deleted && t.child_order == 0
    &&& t.responsible_uid is None && t.added_at is None && t.completed_at is None
    &&& t.note_count is None && t.user_id is None
}

fn new_local_task(id: String, content: String, project_id: String, priority: u8) -> (t: Task)
    ensures
        local_task(t, id@, content@, project_id@, priority),
{
    Task {
        id,
        content,
        description: String::new(),
        project_id,
        section_id: None,
        parent_id: None,
        priority,
        due: None,
        labels: Vec::new(),
        checked: false,
        is_deleted: false,
        child_order: 0,
        responsible_uid: None,
        added_at: None,
        completed_at: None,
        note_count: None,
        user_id: None,
    }
}

/// The project after `cur` in the list, wrapping.
pub open spec fn next_project_index(projects: Seq<Project>, id: Seq<char>) -> int {
    let cur = if exists|i: int| 0 <= i < projects.len() && (#[trigger] projects[i]).id@ == id && forall|
        j: int,
    | 0 <= j < i ==> projects[j].id@ != id {
        choose|i: int|
            0 <= i < projects.len() && (#[trigger] projects[i]).id@ == id && forall|j: int|
                0 <= j < i ==> projects[j].id@ != id
    } else {
        0
    };
    (cur + 1) % (if projects.len() == 0 {
        1
    } else {
        projects.len() as int
    })
}

/// The id of the project after the one with id `pid` (wrapping; after
/// the first project when `pid` is unknown).
fn next_project_id(projects: &Vec<Project>, pid: &str) -> (r: Option<String>)
    ensures
        match r {
            Some(s) => next_project_index(projects@, pid@) < projects@.len() && s@
                == projects@[next_project_index(projects@, pid@)].id@,
            None => next_project_index(projects@, pid@) >= projects@.len(),
        },
{
    let mut i: usize = 0;
    while i < projects.len() && !str_eq(projects[i].id.as_str(), pid)
        invariant
            i <= projects.len(),
            forall|j: int| 0 <= j < i ==> projects@[j].id@ != pid@,
        decreases projects.len() - i,
    {
        i += 1;
    }
    let cur: usize = if i < projects.len() {
        i
    } else {
        0
    };
    let len = if projects.len() == 0 {
        1
    } else {
        projects.len()
    };
    let next = (cur + 1) % len;
    proof {
        let ps = projects@;
        if exists|k: int| 0 <= k < ps.len() && (#[trigger] ps[k]).id@ == pid@ && forall|
            j: int,
        | 0 <= j < k ==> ps[j].id@ != pid@ {
            let k = choose|k: int|
                0 <= k < ps.len() && (#[trigger] ps[k]).id@ == pid@ && forall|j: int|
                    0 <= j < k ==> ps[j].id@ != pid@;
            if k < i {
                assert(ps[k].id@ != pid@);
            } else if k > i {
                assert(ps[i as int].id@ == pid@);
            }
            assert(k == i);
        } else {
            if i < ps.len() {
                assert(ps[i as int].id@ == pid@);
            }
        }
        assert(next == next_project_index(ps, pid@));
    }
    if next < projects.len() {
        Some(projects[next].id.clone())
    } else {
        None
    }
}

impl App {
    /// What `form_edit_field` does to the state.
    pub open spec fn form_edit_field_effect(old: App, new: App) -> bool {
        &&& old.input.task_form is None ==> new == old
        &&& old.input.task_form matches Some(f) ==> {
            &&& new == (App { input: new.input, ..old })
            &&& if f.active_field == 0 || f.active_field == 2 {
                &&& new.input == (Input {
                    task_form: Some(TaskForm { editing: true, ..f }),
                    show_input: true,
                    input_buffer: new.input.input_buffer,
                    input_mode: insert_mode(old.input.input_mode),
                    ..old.input
                })
                &&& new.input.input_buffer@ == (if f.active_field == 0 {
                    f.content@
                } else {
                    f.due_string@
                })
            } else if f.active_field == 1 {
                new.input == (Input {
                    priority_selection: f.priority,
                    show_priority_picker: true,
                    ..old.input
                })
            } else if f.active_field == 3 {
                let n = next_project_index(old.data.projects@, f.project_id@);
                &&& new.input == (Input {
                    task_form: new.input.task_form,
                    ..old.input
                })
                &&& new.input.task_form matches Some(g) && g == (TaskForm {
                    project_id: g.project_id,
                    ..f
                }) && g.project_id@ == (if n < old.data.projects@.len() {
                    old.data.projects@[n].id@
                } else {
                    f.project_id@
                })
            } else {
                new == old
            }
        }
    }

    /// Acts on the form field under the cursor: starts editing the content
    /// or the due date, opens the priority picker, or moves the form to the
    /// next project.
    #[verifier::rlimit(40)]
    pub fn form_edit_field(&mut self)
        ensures
            Self::form_edit_field_effect(*old(self), *final(self)),
    {
        let mut f = match self.input.task_form.take() {
            Some(f) => f,
            None => return,
        };
        let field = f.active_field;
        if field == 0 || field == 2 {
            self.input.input_buffer = if field == 0 {
                f.content.clone()
            } else {
                f.due_string.clone()
            };
            f.editing = true;
            self.input.task_form = Some(f);
            self.input.show_input = true;
            self.input.input_mode = match self.input.input_mode {
                InputMode::Vim(_) => InputMode::Vim(VimState::Insert),
                InputMode::Standard => InputMode::Standard,
            };
        } else if field == 1 {
            self.input.priority_selection = f.priority;
            self.input.show_priority_picker = true;
            self.input.task_form = Some(f);
        } else if field == 3 {
            match next_project_id(&self.data.projects, f.project_id.as_str()) {
                Some(id) => {
                    f.project_id = id;
                },
                None => {},
            }
            self.input.task_form = Some(f);
        } else {
            self.input.task_form = Some(f);
        }
    }

    /// What `submit_task_form_at` does to the state.
    pub open spec fn submit_task_form_at_effect(old: App, new: App, ns: u32) -> bool {
        &&& old.input.task_form is None ==> new == old
        &&& old.input.task_form matches Some(f) ==> {
            &&& input_closed(old.input, new.input)
            &&& new.nav == old.nav && new.views == old.views
            &&& new.external == old.external && new.error == old.error
            &&& new.running == old.running
            &&& if trim_ws(f.content@).len() == 0 {
                &&& new.data == old.data && new.pending == old.pending
                &&& new.counters == old.counters
            } else {
                let c = old.counters.cmd_counter;
                let tmp = temp_id_text(c);
                let uuid = uuid_text(ns, next_counter(c));
                &&& new.data == (Data { tasks: new.data.tasks, ..old.data })
                &&& pushed(old.data.tasks@, new.data.tasks@)
                &&& local_task(new.data.tasks@.last(), tmp, f.content@, f.project_id@, f.priority)
                &&& new.counters == (Counters {
                    cmd_counter: next_counter(next_counter(c)),
                    ..old.counters
                })
                &&& new.pending == (Pending {
                    pending_commands: new.pending.pending_commands,
                    temp_id_pending: new.pending.temp_id_pending,
                    ..old.pending
                })
                &&& pushed(old.pending.temp_id_pending@, new.pending.temp_id_pending@)
                &&& new.pending.temp_id_pending@.last().0@ == uuid
                &&& new.pending.temp_id_pending@.last().1 matches OptimisticOp::TaskAdded {
                    temp_id: x,
                } && x@ == tmp
                &&& pushed(old.pending.pending_commands@, new.pending.pending_commands@)
                &&& add_command(new.pending.pending_commands@.last(), f, tmp, uuid)
            }
        }
    }

    /// Files the add-task form: adds the task locally under a temporary id
    /// and queues `item_add`; an empty (or blank) content just closes the
    /// form. No form: nothing changes.
    pub fn submit_task_form_at(&mut self, ns: u32)
        ensures
            Self::submit_task_form_at_effect(*old(self), *final(self), ns),
    {
        let form = match self.input.task_form.take() {
            Some(f) => f,
            None => return,
        };
        let ghost old_app = *old(self);
        let content = trim_text(form.content.as_str());
        if content.as_str().unicode_len() == 0 {
            self.cancel_input();
            return;
        }
        let project_id = form.project_id.clone();
        let c = self.counters.cmd_counter;
        let temp_id = temp_id_for(c);
        self.counters.cmd_counter = bump_counter(c);
        let uuid = self.next_uuid(ns);
        let task = new_local_task(temp_id.clone(), form.content.clone(), project_id.clone(), form.priority);
        self.data.tasks.push(task);
        self.pending.temp_id_pending.push((uuid.clone(), OptimisticOp::TaskAdded { temp_id: temp_id.clone() }));
        let args = build_item_add_args(&form, project_id.as_str());
        self.pending.pending_commands.push(
            SyncCommand { kind: String::from_str("item_add"), temp_id: Some(temp_id), uuid, args },
        );
        self.cancel_input();
        assert(self.data.tasks@.drop_last() =~= old_app.data.tasks@);
        assert(self.pending.pending_commands@.drop_last() =~= old_app.pending.pending_commands@);
        assert(self.pending.temp_id_pending@.drop_last() =~= old_app.pending.temp_id_pending@);
    }

    /// Files the add-task form now.
    pub fn submit_task_form(&mut self)
        ensures
            old(self).input.task_form is None ==> *final(self) == *old(self),
            old(self).input.task_form is Some ==> input_closed(old(self).input, final(self).input),
            exists|ns: u32| #[trigger] Self::submit_task_form_at_effect(*old(self), *final(self), ns),
    {
        let ns = clock_subsec_nanos();
        self.submit_task_form_at(ns);
        assert(Self::submit_task_form_at_effect(*old(self), *self, ns));
    }
}

/// The `item_add` command for form `f`.
pub open spec fn add_command(cmd: SyncCommand, f: TaskForm, tmp: Seq<char>, uuid: Seq<char>) -> bool {
    &&& cmd.kind@ == "item_add"@
    &&& cmd.temp_id matches Some(x) && x@ == tmp
    &&& cmd.uuid@ == uuid
    &&& cmd.args matches CommandArgs::ItemAdd { content, project_id, due, priority } && content@
        == f.content@ && project_id@ == f.project_id@ && opt_view(due) == (if f.due_string@.len()
        > 0 {
        Some(f.due_string@)
    } else {
        None
    }) && priority == (if f.priority > 1 {
        Some(f.priority)
    } else {
        None
    })
}

} // verus!

verus! {

/// The effect of adding comment `content` to the selected task `t`.
pub open spec fn comment_added(old: App, new: App, t: Task, content: Seq<char>, m: Moment) -> bool {
    let c = old.counters.cmd_counter;
    let tmp = temp_id_text(c);
    let uuid = uuid_text(m.nanos, next_counter(c));
    &&& new.data == (Data { comments: new.data.comments, ..old.data })
    &&& pushed(old.data.comments@, new.data.comments@)
    &&& new.data.comments@.last() == (Comment {
        id: new.data.comments@.last().id,
        content: new.data.comments@.last().content,
        posted_at: Some(m.posted_at),
        posted_by_uid: old.data.current_user_id,
        task_id: new.data.comments@.last().task_id,
        item_id: new.data.comments@.last().item_id,
        is_deleted: false,
    })
    &&& new.data.comments@.last().id@ == tmp && new.data.comments@.last().content@ == content
    &&& opt_view(new.data.comments@.last().task_id) == Some(t.id@)
    &&& opt_view(new.data.comments@.last().item_id) == Some(t.id@)
    &&& new.counters == (Counters {
        cmd_counter: next_counter(next_counter(c)),
        comments_fetch_seq: next_counter(old.counters.comments_fetch_seq),
        ..old.counters
    })
    &&& new.pending == (Pending {
        pending_commands: new.pending.pending_commands,
        temp_id_pending: new.pending.temp_id_pending,
        ..old.pending
    })
    &&& pushed(old.pending.temp_id_pending@, new.pending.temp_id_pending@)
    &&& new.pending.temp_id_pending@.last().0@ == uuid
    &&& new.pending.temp_id_pending@.last().1 matches OptimisticOp::CommentAdded { temp_id: x, task_id: y }
        && x@ == tmp && y@ == t.id@
    &&& pushed(old.pending.pending_commands@, new.pending.pending_commands@)
    &&& new.pending.pending_commands@.last().kind@ == "note_add"@
    &&& new.pending.pending_commands@.last().temp_id matches Some(x) && x@ == tmp
    &&& new.pending.pending_commands@.last().uuid@ == uuid
    &&& new.pending.pending_commands@.last().args matches CommandArgs::NoteAdd { item_id, content: body }
        && item_id@ == t.id@ && body@ == content
    &&& new.nav == old.nav && new.views == old.views && new.input == old.input
    &&& new.external == old.external && new.running == old.running && new.error == old.error
}

/// The effect of queueing an `item_update` for task `t` that changes it
/// locally to `after` (when it is loaded).
pub open spec fn task_updated(old: App, new: App, t: Task, upd: TaskUpdate, after: Task, m: Moment) -> bool {
    let uuid = uuid_text(m.nanos, old.counters.cmd_counter);
    &&& new.data == (Data { tasks: new.data.tasks, ..old.data })
    &&& new.data.tasks@ == match first_with_id(old.data.tasks@, t.id@) {
        Some(j) => old.data.tasks@.update(j, after),
        None => old.data.tasks@,
    }
    &&& new.counters == (Counters { cmd_counter: next_counter(old.counters.cmd_counter), ..old.counters })
    &&& new.pending == (Pending {
        pending_commands: new.pending.pending_commands,
        temp_id_pending: new.pending.temp_id_pending,
        ..old.pending
    })
    &&& pushed(old.pending.temp_id_pending@, new.pending.temp_id_pending@)
    &&& new.pending.temp_id_pending@.last().0@ == uuid
    &&& new.pending.temp_id_pending@.last().1 matches OptimisticOp::TaskUpdated { task_id: x, before: b }
        && x@ == t.id@ && same_task(b, t)
    &&& pushed(old.pending.pending_commands@, new.pending.pending_commands@)
    &&& new.pending.pending_commands@.last().kind@ == "item_update"@
    &&& new.pending.pending_commands@.last().temp_id is None
    &&& new.pending.pending_commands@.last().uuid@ == uuid
    &&& new.pending.pending_commands@.last().args matches CommandArgs::ItemUpdate { id, update }
        && id@ == t.id@ && update == upd
    &&& new.nav == old.nav && new.views == old.views && new.input == old.input
    &&& new.external == old.external && new.running == old.running && new.error == old.error
}

impl App {
    /// Applies `after` to the first loaded task with id `id`, if any.
    fn replace_task(&mut self, id: &str, after: Task)
        ensures
            *final(self) == (App { data: Data { tasks: final(self).data.tasks, ..old(self).data }, ..*old(self) }),
            final(self).data.tasks@ == match first_with_id(old(self).data.tasks@, id@) {
                Some(j) => old(self).data.tasks@.update(j, after),
                None => old(self).data.tasks@,
            },
    {
        match find_task(&self.data.tasks, id) {
            Some(j) => {
                let ghost before = self.data.tasks@;
                self.data.tasks.remove(j);
                self.data.tasks.insert(j, after);
                assert(self.data.tasks@ =~= before.update(j as int, after));
            },
            None => {},
        }
    }

    /// Queues an `item_update` for task `t` with undo record, after the
    /// local change has been made.
    fn queue_update(&mut self, t: &Task, upd: TaskUpdate, ns: u32)
        ensures
            *final(self) == (App {
                counters: Counters { cmd_counter: next_counter(old(self).counters.cmd_counter), ..old(self).counters },
                pending: final(self).pending,
                ..*old(self)
            }),
            final(self).pending == (Pending {
                pending_commands: final(self).pending.pending_commands,
                temp_id_pending: final(self).pending.temp_id_pending,
                ..old(self).pending
            }),
            pushed(old(self).pending.temp_id_pending@, final(self).pending.temp_id_pending@),
            final(self).pending.temp_id_pending@.last().0@ == uuid_text(ns, old(self).counters.cmd_counter),
            final(self).pending.temp_id_pending@.last().1 matches OptimisticOp::TaskUpdated { task_id: x, before: b }
                && x@ == t.id@ && same_task(b, *t),
            pushed(old(self).pending.pending_commands@, final(self).pending.pending_commands@),
            final(self).pending.pending_commands@.last().kind@ == "item_update"@,
            final(self).pending.pending_commands@.last().temp_id is None,
            final(self).pending.pending_commands@.last().uuid@ == uuid_text(ns, old(self).counters.cmd_counter),
            final(self).pending.pending_commands@.last().args matches CommandArgs::ItemUpdate { id, update }
                && id@ == t.id@ && update == upd,
    {
        let ghost old_app = *self;
        let uuid = self.next_uuid(ns);
        self.pending.temp_id_pending.push(
            (uuid.clone(), OptimisticOp::TaskUpdated { task_id: t.id.clone(), before: t.duplicate() }),
        );
        self.pending.pending_commands.push(
            SyncCommand {
                kind: String::from_str("item_update"),
                temp_id: None,
                uuid,
                args: CommandArgs::ItemUpdate { id: t.id.clone(), update: upd },
            },
        );
        assert(self.pending.pending_commands@.drop_last() =~= old_app.pending.pending_commands@);
        assert(self.pending.temp_id_pending@.drop_last() =~= old_app.pending.temp_id_pending@);
    }

    /// Adds comment `content` to the selected task: shown at once under a
    /// temporary id, `note_add` queued. No selected task: nothing changes.
    pub fn submit_comment_at(&mut self, content: String, m: &Moment)
        ensures
            selected_task_spec(*old(self), m.clock) is None ==> *final(self) == *old(self),
            selected_task_spec(*old(self), m.clock) matches Some(t) ==> comment_added(
                *old(self),
                *final(self),
                t,
                content@,
                *m,
            ),
    {
        let t = match self.selected_task_on(&m.clock) {
            Some(t) => t.duplicate(),
            None => return,
        };
        let ghost old_app = *self;
        let c = self.counters.cmd_counter;
        let temp_id = temp_id_for(c);
        self.counters.cmd_counter = bump_counter(c);
        let uuid = self.next_uuid(m.nanos);
        let comment = Comment {
            id: temp_id.clone(),
            content: content.clone(),
            posted_at: Some(m.posted_at.clone()),
            posted_by_uid: match &self.data.current_user_id {
                Some(u) => Some(u.clone()),
                None => None,
            },
            task_id: Some(t.id.clone()),
            item_id: Some(t.id.clone()),
            is_deleted: false,
        };
        self.data.comments.push(comment);
        self.counters.comments_fetch_seq = bump_counter(self.counters.comments_fetch_seq);
        self.pending.temp_id_pending.push(
            (uuid.clone(), OptimisticOp::CommentAdded { temp_id: temp_id.clone(), task_id: t.id.clone() }),
        );
        self.pending.pending_commands.push(
            SyncCommand {
                kind: String::from_str("note_add"),
                temp_id: Some(temp_id),
                uuid,
                args: CommandArgs::NoteAdd { item_id: t.id.clone(), content },
            },
        );
        assert(self.data.comments@.drop_last() =~= old_app.data.comments@);
        assert(self.pending.pending_commands@.drop_last() =~= old_app.pending.pending_commands@);
        assert(self.pending.temp_id_pending@.drop_last() =~= old_app.pending.temp_id_pending@);
    }

    /// Saves `value` into the detail field under the cursor of the selected
    /// task (0 content, 2 due date, 3 description): content and description
    /// change locally at once, the due date waits for the server.
    pub fn submit_field_edit_at(&mut self, value: String, m: &Moment)
        ensures
            match selected_task_spec(*old(self), m.clock) {
                None => *final(self) == *old(self),
                Some(t) => field_edit_filed(*old(self), *final(self), t, value@, *m),
            },
    {
        let t = match self.selected_task_on(&m.clock) {
            Some(t) => t.duplicate(),
            None => return,
        };
        let ghost old_app = *self;
        let ghost ts = selected_task_spec(old_app, m.clock)->0;
        let f = self.nav.detail_field;
        if f == 0 {
            let mut after = t.duplicate();
            after.content = value.clone();
            let ghost a = after;
            let ghost v = value;
            self.replace_task(t.id.as_str(), after);
            self.queue_update(&t, TaskUpdate::Content(value), m.nanos);
            assert(same_task(a, Task { content: a.content, ..ts }));
            assert(task_updated(old_app, *self, ts, TaskUpdate::Content(v), a, *m));
        } else if f == 2 {
            let after = t.duplicate();
            let ghost a = after;
            let ghost v = value;
            self.replace_task(t.id.as_str(), after);
            self.queue_update(&t, TaskUpdate::DueString(value), m.nanos);
            assert(same_task(a, ts));
            assert(task_updated(old_app, *self, ts, TaskUpdate::DueString(v), a, *m));
        } else if f == 3 {
            let mut after = t.duplicate();
            after.description = value.clone();
            let ghost a = after;
            let ghost v = value;
            self.replace_task(t.id.as_str(), after);
            self.queue_update(&t, TaskUpdate::Description(value), m.nanos);
            assert(same_task(a, Task { description: a.description, ..ts }));
            assert(task_updated(old_app, *self, ts, TaskUpdate::Description(v), a, *m));
        }
    }

    /// What `apply_priority_at` does to the state.
    pub open spec fn apply_priority_at_effect(old: App, new: App, p: u8, m: Moment) -> bool {
        &&& match selected_task_spec(old, m.clock) {
            None => new == old,
            Some(t) => if t.priority == p {
                new == old
            } else {
                exists|after: Task|
                    same_task(after, Task { priority: p, ..t }) && task_updated(
                        old,
                        new,
                        t,
                        TaskUpdate::Priority(p),
                        after,
                        m,
                    )
            },
        }
    }

    /// Sets the selected task's priority to `p` locally and queues the
    /// update; the same priority (or no task) changes nothing.
    pub fn apply_priority_at(&mut self, p: u8, m: &Moment)
        ensures
            Self::apply_priority_at_effect(*old(self), *final(self), p, *m),
    {
        let t = match self.selected_task_on(&m.clock) {
            Some(t) => t.duplicate(),
            None => return,
        };
        if t.priority == p {
            return;
        }
        let ghost old_app = *self;
        let ghost ts = selected_task_spec(old_app, m.clock)->0;
        let mut after = t.duplicate();
        after.priority = p;
        let ghost a = after;
        self.replace_task(t.id.as_str(), after);
        self.queue_update(&t, TaskUpdate::Priority(p), m.nanos);
        assert(same_task(a, Task { priority: p, ..ts }));
        assert(task_updated(old_app, *self, ts, TaskUpdate::Priority(p), a, *m));
    }
}

} // verus!

verus! {

impl App {
    /// What `submit_input_at` does to the state.
    pub open spec fn submit_input_at_effect(old: App, new: App, m: Moment) -> bool {
        &&& ({
            let text = trim_ws(old.input.input_buffer@);
            if old.input.comment_input || old.input.editing_field {
                exists|mid: App|
                    #[trigger] filed(old, mid, text, m) && new == (App {
                        input: new.input,
                        ..mid
                    }) && input_closed(mid.input, new.input)
            } else {
                match old.input.task_form {
                    Some(f) => if f.editing {
                        &&& new == (App { input: new.input, ..old })
                        &&& new.input == (Input {
                            task_form: new.input.task_form,
                            input_buffer: new.input.input_buffer,
                            show_input: false,
                            input_mode: normal_mode(old.input.input_mode),
                            ..old.input
                        })
                        &&& new.input.input_buffer@ == Seq::<char>::empty()
                        &&& new.input.task_form matches Some(g) && g == (TaskForm {
                            content: g.content,
                            due_string: g.due_string,
                            editing: false,
                            ..f
                        }) && g.content@ == (if f.active_field == 0 {
                            text
                        } else {
                            f.content@
                        }) && g.due_string@ == (if f.active_field == 2 {
                            text
                        } else {
                            f.due_string@
                        })
                    } else {
                        new == (App { input: new.input, ..old })
                            && input_closed(old.input, new.input)
                    },
                    None => new == (App { input: new.input, ..old })
                        && input_closed(old.input, new.input),
                }
            }
        })
    }

    /// Commits the input line: a comment or field edit is filed (unless
    /// blank) and the line closes; while a form field is being edited, the
    /// trimmed text goes into the content (field 0) or due date (field 2)
    /// and the form stays open; otherwise the line just closes.
    #[verifier::rlimit(40)]
    pub fn submit_input_at(&mut self, m: &Moment)
        ensures
            Self::submit_input_at_effect(*old(self), *final(self), *m),
    {
        let content = trim_text(self.input.input_buffer.as_str());
        let ghost old_app = *self;
        if self.input.comment_input {
            if content.as_str().unicode_len() > 0 {
                self.submit_comment_at(content, m);
            }
            let ghost mid = *self;
            self.cancel_input();
            assert(filed(old_app, mid, trim_ws(old_app.input.input_buffer@), *m));
            return;
        }
        if self.input.editing_field {
            if content.as_str().unicode_len() > 0 {
                self.submit_field_edit_at(content, m);
            }
            let ghost mid = *self;
            self.cancel_input();
            assert(filed(old_app, mid, trim_ws(old_app.input.input_buffer@), *m));
            return;
        }
        let editing = match &self.input.task_form {
            Some(f) => f.editing,
            None => false,
        };
        if editing {
            let mut form = match self.input.task_form.take() {
                Some(f) => f,
                None => return,
            };
            if form.active_field == 0 {
                form.content = content;
            } else if form.active_field == 2 {
                form.due_string = content;
            }
            form.editing = false;
            self.input.task_form = Some(form);
            self.input.input_buffer = String::new();
            self.input.show_input = false;
            self.input.input_mode = match self.input.input_mode {
                InputMode::Vim(_) => InputMode::Vim(VimState::Normal),
                InputMode::Standard => InputMode::Standard,
            };
            return;
        }
        self.cancel_input();
    }
}

/// What saving `text` into the detail field under the cursor of task `t`
/// does.
pub open spec fn field_edit_filed(old: App, mid: App, t: Task, text: Seq<char>, m: Moment) -> bool {
    let f = old.nav.detail_field;
    if f == 0 {
        exists|after: Task, v: String|
            v@ == text && same_task(after, Task { content: after.content, ..t }) && after.content@ == text
                && #[trigger] task_updated(old, mid, t, TaskUpdate::Content(v), after, m)
    } else if f == 2 {
        exists|after: Task, v: String|
            v@ == text && same_task(after, t) && #[trigger] task_updated(
                old,
                mid,
                t,
                TaskUpdate::DueString(v),
                after,
                m,
            )
    } else if f == 3 {
        exists|after: Task, v: String|
            v@ == text && same_task(after, Task { description: after.description, ..t })
                && after.description@ == text && #[trigger] task_updated(
                old,
                mid,
                t,
                TaskUpdate::Description(v),
                after,
                m,
            )
    } else {
        mid == old
    }
}

/// What committing a comment or field edit `text` files (nothing when the
/// text is blank).
pub open spec fn filed(old: App, mid: App, text: Seq<char>, m: Moment) -> bool {
    if text.len() == 0 {
        mid == old
    } else if old.input.comment_input {
        match selected_task_spec(old, m.clock) {
            None => mid == old,
            Some(t) => comment_added(old, mid, t, text, m),
        }
    } else {
        match selected_task_spec(old, m.clock) {
            None => mid == old,
            Some(t) => field_edit_filed(old, mid, t, text, m),
        }
    }
}

} // verus!

verus! {

/// `n - 1` when `sel` has run past a non-empty list of length `n`.
pub open spec fn clamp_sel(sel: usize, n: nat) -> usize {
    if n > 0 && sel >= n {
        (n - 1) as usize
    } else {
        sel
    }
}

/// Ids that some task names as its parent.
pub open spec fn parent_ids(tasks: Seq<Task>) -> Set<Seq<char>> {
    Set::new(|s: Seq<char>| exists|i: int| 0 <= i < tasks.len() && opt_view(#[trigger] tasks[i].parent_id) == Some(s))
}

/// Ids of tasks that have subtasks.
pub open spec fn folds_of(tasks: Seq<Task>) -> Set<Seq<char>> {
    Set::new(|s: Seq<char>| exists|i: int| 0 <= i < tasks.len() && (#[trigger] tasks[i]).id@ == s && parent_ids(tasks).contains(s))
}

impl App {
    /// What `start_field_edit_on` does to the state.
    pub open spec fn start_field_edit_on_effect(old: App, new: App, c: Clock) -> bool {
        &&& match selected_task_spec(old, c) {
            None => new == old,
            Some(t) => {
                let f = old.nav.detail_field;
                if f == 1 {
                    new == (App {
                        input: Input {
                            priority_selection: t.priority,
                            show_priority_picker: true,
                            ..old.input
                        },
                        ..old
                    })
                } else if f == 0 || f == 2 || f == 3 {
                    &&& new == (App { input: new.input, ..old })
                    &&& new.input == (Input {
                        editing_field: true,
                        show_input: true,
                        input_buffer: new.input.input_buffer,
                        input_mode: insert_mode(old.input.input_mode),
                        ..old.input
                    })
                    &&& new.input.input_buffer@ == (if f == 0 {
                        t.content@
                    } else if f == 3 {
                        t.description@
                    } else {
                        match t.due {
                            Some(d) => match d.string {
                                Some(s) => s@,
                                None => Seq::empty(),
                            },
                            None => Seq::empty(),
                        }
                    })
                } else {
                    new == old
                }
            },
        }
    }

    /// Opens the input line on the selected task's field under the cursor
    /// (content, due text, description), or the priority picker for field 1.
    pub fn start_field_edit_on(&mut self, c: &Clock)
        ensures
            Self::start_field_edit_on_effect(*old(self), *final(self), *c),
    {
        let (prio, text) = match self.selected_task_on(c) {
            None => return,
            Some(t) => {
                let f = self.nav.detail_field;
                let text = if f == 0 {
                    t.content.clone()
                } else if f == 3 {
                    t.description.clone()
                } else {
                    match &t.due {
                        Some(d) => match &d.string {
                            Some(s) => s.clone(),
                            None => String::new(),
                        },
                        None => String::new(),
                    }
                };
                (t.priority, text)
            },
        };
        let f = self.nav.detail_field;
        if f == 1 {
            self.input.priority_selection = prio;
            self.input.show_priority_picker = true;
            return;
        }
        if f != 0 && f != 2 && f != 3 {
            return;
        }
        self.input.editing_field = true;
        self.input.show_input = true;
        self.input.input_buffer = text;
        self.input.input_mode = match self.input.input_mode {
            InputMode::Vim(_) => InputMode::Vim(VimState::Insert),
            InputMode::Standard => InputMode::Standard,
        };
    }

    /// What `enqueue_complete_selected_on` does to the state.
    pub open spec fn enqueue_complete_selected_on_effect(old: App, new: App, c: Clock, ns: u32) -> bool {
        &&& ({
            let rows = visible_rows(old, c);
            let sel = old.nav.selected_task;
            if sel >= rows.len() || row_task_spec(old, rows[sel as int]) is None {
                new == old
            } else {
                let id = row_task_spec(old, rows[sel as int])->0.id@;
                exists|mid: App|
                    #[trigger] completed_or_same(old, mid, id, c.today@, ns) && new
                        == (App {
                        nav: Nav {
                            selected_task: clamp_sel(sel, visible_rows(mid, c).len()),
                            ..mid.nav
                        },
                        ..mid
                    })
            }
        })
    }

    /// Completes (or reopens) the task under the cursor, then keeps the
    /// cursor inside the shortened list.
    pub fn enqueue_complete_selected_on(&mut self, c: &Clock, ns: u32)
        ensures
            Self::enqueue_complete_selected_on_effect(*old(self), *final(self), *c, ns),
    {
        let rows = self.visible_tasks_on(c);
        let sel = self.nav.selected_task;
        if sel >= rows.len() {
            return;
        }
        let id = match self.row_task(rows[sel]) {
            Some(t) => t.id.clone(),
            None => return,
        };
        self.enqueue_complete_task_by_id_at(id, c.today.as_str(), ns);
        let ghost mid = *self;
        let n = self.visible_tasks_on(c).len();
        if n > 0 && self.nav.selected_task >= n {
            self.nav.selected_task = n - 1;
        }
        assert(completed_or_same(*old(self), mid, id@, c.today@, ns));
    }

    /// What `complete_task_by_id_on` does to the state.
    pub open spec fn complete_task_by_id_on_effect(old: App, new: App, task_id: String, c: Clock, ns: u32) -> bool {
        &&& exists|mid: App|
            #[trigger] completed_or_same(old, mid, task_id@, c.today@, ns) && new
                == (App {
                nav: Nav {
                    selected_all_item: clamp_sel(mid.nav.selected_all_item, all_items(mid, c).len()),
                    ..mid.nav
                },
                ..mid
            })
    }

    /// Completes (or reopens) the task `task_id` from the All view, then
    /// keeps the All-view cursor inside the shortened list.
    pub fn complete_task_by_id_on(&mut self, task_id: String, c: &Clock, ns: u32)
        ensures
            Self::complete_task_by_id_on_effect(*old(self), *final(self), task_id, *c, ns),
    {
        let ghost id = task_id@;
        self.enqueue_complete_task_by_id_at(task_id, c.today.as_str(), ns);
        let ghost mid = *self;
        let n = self.all_view_items_on(c).len();
        if n > 0 && self.nav.selected_all_item >= n {
            self.nav.selected_all_item = n - 1;
        }
        assert(completed_or_same(*old(self), mid, id, c.today@, ns));
    }

    /// What `close_all_folds` does to the state.
    pub open spec fn close_all_folds_effect(old: App, new: App) -> bool {
        &&& new == (App { nav: Nav { collapsed: new.nav.collapsed, ..old.nav }, ..old })
        &&& str_set(new.nav.collapsed@) == str_set(old.nav.collapsed@).union(
            folds_of(old.data.tasks@),
        )
    }

    /// Folds every task that has subtasks.
    pub fn close_all_folds(&mut self)
        ensures
            Self::close_all_folds_effect(*old(self), *final(self)),
    {
        let tasks = &self.data.tasks;
        let ghost t0 = tasks@;
        let ghost c0 = str_set(self.nav.collapsed@);
        let mut out: Vec<String> = Vec::new();
        let mut i: usize = 0;
        while i < tasks.len()
            invariant
                tasks@ == t0,
                i <= tasks.len(),
                str_set(out@) == Set::new(
                    |s: Seq<char>|
                        exists|k: int| 0 <= k < i && (#[trigger] t0[k]).id@ == s && parent_ids(t0).contains(s),
                ),
            decreases tasks.len() - i,
        {
            let id = tasks[i].id.as_str();
            let mut is_parent = false;
            let mut j: usize = 0;
            while j < tasks.len() && !is_parent
                invariant
                    tasks@ == t0,
                    j <= tasks.len(),
                    i < tasks.len(),
                    id@ == t0[i as int].id@,
                    is_parent ==> parent_ids(t0).contains(id@),
                    !is_parent ==> forall|k: int| 0 <= k < j ==> opt_view(#[trigger] t0[k].parent_id) != Some(id@),
                decreases tasks.len() - j,
            {
                match &tasks[j].parent_id {
                    Some(p) => {
                        if str_eq(p.as_str(), id) {
                            is_parent = true;
                            assert(opt_view(t0[j as int].parent_id) == Some(id@));
                        }
                    },
                    None => {},
                }
                j += 1;
            }
            let ghost before = str_set(out@);
            if is_parent {
                vec_insert_str(&mut out, tasks[i].id.clone());
            }
            assert(str_set(out@) =~= Set::new(
                |s: Seq<char>|
                    exists|k: int| 0 <= k < i + 1 && (#[trigger] t0[k]).id@ == s && parent_ids(t0).contains(s),
            )) by {
                assert forall|s: Seq<char>| #[trigger] str_set(out@).contains(s) == (exists|k: int| 0 <= k < i + 1 && (#[trigger] t0[k]).id@ == s && parent_ids(t0).contains(s)) by {
                    if exists|k: int| 0 <= k < i + 1 && (#[trigger] t0[k]).id@ == s && parent_ids(t0).contains(s) {
                        let k = choose|k: int| 0 <= k < i + 1 && (#[trigger] t0[k]).id@ == s && parent_ids(t0).contains(s);
                        if k == i && !is_parent {
                            let w = choose|w: int| 0 <= w < t0.len() && opt_view(#[trigger] t0[w].parent_id) == Some(s);
                            assert(opt_view(t0[w].parent_id) != Some(id@));
                        }
                    }
                }
            }
            i += 1;
        }
        let mut k: usize = 0;
        while k < out.len()
            invariant
                k <= out.len(),
                str_set(self.nav.collapsed@) == c0.union(
                    Set::new(|s: Seq<char>| exists|q: int| 0 <= q < k && (#[trigger] out@[q])@ == s),
                ),
                self.data.tasks@ == t0,
                *self == (App { nav: Nav { collapsed: self.nav.collapsed, ..old(self).nav }, ..*old(self) }),
            decreases out.len() - k,
        {
            vec_insert_str(&mut self.nav.collapsed, out[k].clone());
            assert(c0.union(Set::new(|s: Seq<char>| exists|q: int| 0 <= q < k + 1 && (#[trigger] out@[q])@ == s))
                =~= c0.union(Set::new(|s: Seq<char>| exists|q: int| 0 <= q < k && (#[trigger] out@[q])@ == s)).insert(out@[k as int]@));
            k += 1;
        }
        assert(Set::new(|s: Seq<char>| exists|q: int| 0 <= q < out.len() && (#[trigger] out@[q])@ == s) =~= str_set(out@));
        assert(folds_of(t0) =~= Set::new(
            |s: Seq<char>| exists|q: int| 0 <= q < t0.len() && (#[trigger] t0[q]).id@ == s && parent_ids(t0).contains(s),
        ));
    }
}

/// Completing task `id` took place, or changed nothing when no loaded task
/// has that id.
pub open spec fn completed_or_same(old: App, mid: App, id: Seq<char>, today: Seq<char>, ns: u32) -> bool {
    match first_with_id(old.data.tasks@, id) {
        None => mid == old,
        Some(i) => completes(old, mid, id, i, today, ns),
    }
}

} // verus!

verus! {

/// `k` is the first row whose task has id `id`.
pub open spec fn first_row_at(app: App, rows: Seq<TaskRow>, id: Seq<char>, k: int) -> bool {
    &&& 0 <= k < rows.len()
    &&& row_task_spec(app, rows[k]) matches Some(t) && t.id@ == id
    &&& forall|j: int| 0 <= j < k ==> !(row_task_spec(app, #[trigger] rows[j]) matches Some(t) && t.id@ == id)
}

impl App {
    fn find_row(&self, rows: &Vec<TaskRow>, id: &str) -> (r: Option<usize>)
        ensures
            match r {
                Some(k) => first_row_at(*self, rows@, id@, k as int),
                None => !exists|k: int| first_row_at(*self, rows@, id@, k),
            },
    {
        let mut k: usize = 0;
        while k < rows.len()
            invariant
                k <= rows.len(),
                forall|j: int| 0 <= j < k ==> !(row_task_spec(*self, #[trigger] rows@[j]) matches Some(t) && t.id@ == id@),
            decreases rows.len() - k,
        {
            match self.row_task(rows[k]) {
                Some(t) => {
                    if str_eq(t.id.as_str(), id) {
                        return Some(k);
                    }
                },
                None => {},
            }
            k += 1;
        }
        proof {
            assert forall|q: int| !first_row_at(*self, rows@, id@, q) by {
                if first_row_at(*self, rows@, id@, q) {
                    assert(!(row_task_spec(*self, rows@[q]) matches Some(t) && t.id@ == id@));
                }
            }
        }
        None
    }

    /// What `toggle_collapse_on` does to the state.
    pub open spec fn toggle_collapse_on_effect(old: App, new: App, c: Clock) -> bool {
        &&& ({
            let rows = visible_rows(old, c);
            let sel = old.nav.selected_task;
            let folded = str_set(old.nav.collapsed@);
            if sel >= rows.len() || row_task_spec(old, rows[sel as int]) is None {
                new == old
            } else {
                let t = row_task_spec(old, rows[sel as int])->0;
                let has_kids = exists|i: int|
                    0 <= i < old.data.tasks@.len() && opt_view(
                        #[trigger] old.data.tasks@[i].parent_id,
                    ) == Some(t.id@);
                if has_kids {
                    &&& new == (App { nav: Nav { collapsed: new.nav.collapsed, ..old.nav }, ..old })
                    &&& str_set(new.nav.collapsed@) == (if folded.contains(t.id@) {
                        folded.remove(t.id@)
                    } else {
                        folded.insert(t.id@)
                    })
                } else {
                    match t.parent_id {
                        None => new == old,
                        Some(p) => {
                            let mid = App { nav: Nav { collapsed: new.nav.collapsed, ..old.nav }, ..old };
                            let rows2 = visible_rows(mid, c);
                            &&& str_set(new.nav.collapsed@) == folded.insert(p@)
                            &&& new == (App {
                                nav: Nav {
                                    selected_task: if exists|k: int| first_row_at(mid, rows2, p@, k) {
                                        (choose|k: int| first_row_at(mid, rows2, p@, k)) as usize
                                    } else {
                                        sel
                                    },
                                    ..mid.nav
                                },
                                ..mid
                            })
                        },
                    }
                }
            }
        })
    }

    /// Folds or unfolds the task under the cursor; on a task without
    /// subtasks, folds its parent and moves the cursor onto it.
    pub fn toggle_collapse_on(&mut self, c: &Clock)
        ensures
            Self::toggle_collapse_on_effect(*old(self), *final(self), *c),
    {
        let rows = self.visible_tasks_on(c);
        let sel = self.nav.selected_task;
        if sel >= rows.len() {
            return;
        }
        let (tid, parent) = match self.row_task(rows[sel]) {
            Some(t) => (t.id.clone(), match &t.parent_id {
                Some(p) => Some(p.clone()),
                None => None,
            }),
            None => return,
        };
        if self.has_children(tid.as_str()) {
            if vec_contains_str(&self.nav.collapsed, tid.as_str()) {
                vec_remove_str(&mut self.nav.collapsed, tid.as_str());
            } else {
                vec_insert_str(&mut self.nav.collapsed, tid);
            }
            return;
        }
        match parent {
            None => {},
            Some(pid) => {
                vec_insert_str(&mut self.nav.collapsed, pid.clone());
                let ghost mid = *self;
                let rows2 = self.visible_tasks_on(c);
                match self.find_row(&rows2, pid.as_str()) {
                    Some(k) => {
                        proof {
                            let q = choose|q: int| first_row_at(mid, rows2@, pid@, q);
                            if q < k {
                                assert(!(row_task_spec(mid, rows2@[q]) matches Some(t) && t.id@ == pid@));
                            } else if q > k {
                                assert(!(row_task_spec(mid, rows2@[k as int]) matches Some(t) && t.id@ == pid@));
                            }
                        }
                        self.nav.selected_task = k;
                    },
                    None => {},
                }
            },
        }
    }

    /// What `open_detail_for` does to the state and returns.
    pub open spec fn open_detail_for_effect(old: App, new: App, task_id: String, r: Option<u64>) -> bool {
        &&& first_with_id(old.data.tasks@, task_id@) is None ==> r is None && new == old
        &&& first_with_id(old.data.tasks@, task_id@) matches Some(i) ==> {
            let pid = old.data.tasks@[i].project_id@;
            let pos = project_pos(old.data.projects@, pid);
            &&& r == Some(next_counter(old.counters.comments_fetch_seq))
            &&& new == (App {
                data: Data { comments: new.data.comments, ..old.data },
                nav: Nav {
                    selected_project: if old.nav.dock_filter is Some && pos is Some {
                        pos->0 as usize
                    } else {
                        old.nav.selected_project
                    },
                    detail_task_id: new.nav.detail_task_id,
                    active_pane: Pane::Detail,
                    detail_scroll: 0,
                    detail_field: 0,
                    ..old.nav
                },
                counters: Counters {
                    comments_fetch_seq: next_counter(old.counters.comments_fetch_seq),
                    ..old.counters
                },
                ..old
            })
            &&& opt_view(new.nav.detail_task_id) == Some(task_id@)
            &&& new.data.comments@ == comments_for(old.data.comments_by_task@, task_id@)
        }
    }

    /// Opens the detail pane on task `task_id`: shows its cached comments
    /// (or none) and returns the sequence number under which its comments
    /// are to be fetched; `None` (and no change) when no loaded task has the
    /// id. With a dock filter, the task's project becomes the selected one.
    pub fn open_detail_for(&mut self, task_id: String) -> (r: Option<u64>)
        ensures
            Self::open_detail_for_effect(*old(self), *final(self), task_id, r),
    {
        let i = match find_task(&self.data.tasks, task_id.as_str()) {
            Some(i) => i,
            None => return None,
        };
        let pid = self.data.tasks[i].project_id.clone();
        if self.nav.dock_filter.is_some() {
            match project_position(&self.data.projects, pid.as_str()) {
                Some(pos) => {
                    self.nav.selected_project = pos;
                },
                None => {},
            }
        }
        let comments = cached_comments(&self.data.comments_by_task, task_id.as_str());
        self.nav.detail_task_id = Some(task_id);
        self.nav.active_pane = Pane::Detail;
        self.nav.detail_scroll = 0;
        self.nav.detail_field = 0;
        self.data.comments = comments;
        self.counters.comments_fetch_seq = bump_counter(self.counters.comments_fetch_seq);
        Some(self.counters.comments_fetch_seq)
    }

    /// What opening the detail pane on the cursor row does at clock `c`.
    pub open spec fn open_detail_on_effect(old: App, new: App, c: Clock, r: Option<u64>) -> bool {
        let rows = visible_rows(old, c);
        let sel = old.nav.selected_task;
        if sel >= rows.len() || row_task_spec(old, rows[sel as int]) is None {
            r is None && new == old
        } else {
            Self::open_detail_for_effect(old, new, row_task_spec(old, rows[sel as int])->0.id, r)
        }
    }

    /// Opens the detail pane on the task under the cursor.
    pub fn open_detail_on(&mut self, c: &Clock) -> (r: Option<u64>)
        ensures
            Self::open_detail_on_effect(*old(self), *final(self), *c, r),
    {
        let rows = self.visible_tasks_on(c);
        let sel = self.nav.selected_task;
        if sel >= rows.len() {
            return None;
        }
        let id = match self.row_task(rows[sel]) {
            Some(t) => t.id.clone(),
            None => return None,
        };
        self.open_detail_for(id)
    }
}

/// Position of the first project with id `id`.
pub open spec fn project_pos(projects: Seq<Project>, id: Seq<char>) -> Option<int> {
    if exists|i: int| 0 <= i < projects.len() && (#[trigger] projects[i]).id@ == id && forall|j: int|
        0 <= j < i ==> projects[j].id@ != id {
        Some(
            choose|i: int|
                0 <= i < projects.len() && (#[trigger] projects[i]).id@ == id && forall|j: int|
                    0 <= j < i ==> projects[j].id@ != id,
        )
    } else {
        None
    }
}

pub fn project_position(projects: &Vec<Project>, id: &str) -> (r: Option<usize>)
    ensures
        match r {
            Some(i) => project_pos(projects@, id@) == Some(i as int),
            None => project_pos(projects@, id@) is None && forall|k: int|
                0 <= k < projects@.len() ==> projects@[k].id@ != id@,
        },
{
    let mut i: usize = 0;
    while i < projects.len()
        invariant
            i <= projects.len(),
            forall|j: int| 0 <= j < i ==> projects@[j].id@ != id@,
        decreases projects.len() - i,
    {
        if str_eq(projects[i].id.as_str(), id) {
            proof {
                let k = choose|k: int|
                    0 <= k < projects@.len() && (#[trigger] projects@[k]).id@ == id@ && forall|j: int|
                        0 <= j < k ==> projects@[j].id@ != id@;
                if k < i {
                    assert(projects@[k].id@ != id@);
                } else if k > i {
                    assert(projects@[i as int].id@ == id@);
                }
            }
            return Some(i);
        }
        i += 1;
    }
    None
}

/// The comments cached for task `id` (first entry), or none.
pub open spec fn comments_for(cache: Seq<(String, Vec<Comment>)>, id: Seq<char>) -> Seq<Comment> {
    if exists|e: int| 0 <= e < cache.len() && (#[trigger] cache[e]).0@ == id && forall|j: int|
        0 <= j < e ==> cache[j].0@ != id {
        cache[choose|e: int|
            0 <= e < cache.len() && (#[trigger] cache[e]).0@ == id && forall|j: int|
                0 <= j < e ==> cache[j].0@ != id].1@
    } else {
        Seq::empty()
    }
}

fn cached_comments(cache: &Vec<(String, Vec<Comment>)>, id: &str) -> (r: Vec<Comment>)
    ensures
        r@ == comments_for(cache@, id@),
{
    let mut e: usize = 0;
    while e < cache.len()
        invariant
            e <= cache.len(),
            forall|j: int| 0 <= j < e ==> cache@[j].0@ != id@,
        decreases cache.len() - e,
    {
        if str_eq(cache[e].0.as_str(), id) {
            proof {
                let k = choose|k: int|
                    0 <= k < cache@.len() && (#[trigger] cache@[k]).0@ == id@ && forall|j: int|
                        0 <= j < k ==> cache@[j].0@ != id@;
                if k < e {
                    assert(cache@[k].0@ != id@);
                } else if k > e {
                    assert(cache@[e as int].0@ == id@);
                }
            }
            return duplicate_comments(&cache[e].1);
        }
        e += 1;
    }
    Vec::new()
}

} // verus!

verus! {

impl App {
    /// Commits the input line now.
    pub fn submit_input(&mut self)
        ensures
            exists|m: Moment| clock_ok(m.clock) && #[trigger] submit_input_done(*old(self), *final(self), m),
    {
        let m = read_moment();
        self.submit_input_at(&m);
        assert(submit_input_done(*old(self), *self, m));
    }

    /// Completes or reopens the task under the cursor now.
    pub fn enqueue_complete_selected(&mut self)
        ensures
            exists|c: Clock, ns: u32| clock_ok(c) && #[trigger] complete_selected_done(*old(self), *final(self), c, ns),
    {
        let c = read_clock();
        let ns = clock_subsec_nanos();
        self.enqueue_complete_selected_on(&c, ns);
        assert(complete_selected_done(*old(self), *self, c, ns));
    }

    /// Completes or reopens task `task_id` from the All view now.
    pub fn complete_task_by_id(&mut self, task_id: String)
        ensures
            exists|c: Clock, ns: u32|
                clock_ok(c) && #[trigger] complete_by_id_done(*old(self), *final(self), task_id@, c, ns),
    {
        let ghost id = task_id@;
        let c = read_clock();
        let ns = clock_subsec_nanos();
        self.complete_task_by_id_on(task_id, &c, ns);
        assert(complete_by_id_done(*old(self), *self, id, c, ns));
    }

    /// Folds or unfolds the task under the cursor now.
    pub fn toggle_collapse(&mut self)
        ensures
            exists|c: Clock| clock_ok(c) && #[trigger] Self::toggle_collapse_on_effect(*old(self), *final(self), c),
    {
        let c = read_clock();
        self.toggle_collapse_on(&c);
    }

    /// Opens the detail pane on the task under the cursor now; returns the
    /// comments fetch to start, if any.
    pub fn open_detail(&mut self) -> (r: Option<u64>)
        ensures
            exists|c: Clock| clock_ok(c) && #[trigger] Self::open_detail_on_effect(*old(self), *final(self), c, r),
    {
        let c = read_clock();
        self.open_detail_on(&c)
    }

    /// Opens the input line on the selected task's field now.
    pub fn start_field_edit(&mut self)
        ensures
            exists|c: Clock| clock_ok(c) && #[trigger] Self::start_field_edit_on_effect(*old(self), *final(self), c),
    {
        let c = read_clock();
        self.start_field_edit_on(&c);
    }

    /// Sets the selected task's priority now.
    pub fn apply_priority(&mut self, p: u8)
        ensures
            exists|m: Moment| clock_ok(m.clock) && #[trigger] Self::apply_priority_at_effect(*old(self), *final(self), p, m),
    {
        let m = read_moment();
        self.apply_priority_at(p, &m);
    }
}

/// What committing the input line at moment `m` does.
pub open spec fn submit_input_done(old: App, new: App, m: Moment) -> bool {
    let text = trim_ws(old.input.input_buffer@);
    if old.input.comment_input || old.input.editing_field {
        exists|mid: App|
            #[trigger] filed(old, mid, text, m) && new == (App { input: new.input, ..mid }) && input_closed(
                mid.input,
                new.input,
            )
    } else {
        match old.input.task_form {
            Some(f) => if f.editing {
                &&& new == (App { input: new.input, ..old })
                &&& (new.input.task_form matches Some(g) && !g.editing && g.content@ == (if f.active_field == 0 {
                    text
                } else {
                    f.content@
                }) && g.due_string@ == (if f.active_field == 2 {
                    text
                } else {
                    f.due_string@
                }))
            } else {
                new == (App { input: new.input, ..old }) && input_closed(old.input, new.input)
            },
            None => new == (App { input: new.input, ..old }) && input_closed(old.input, new.input),
        }
    }
}

/// What completing the task under the cursor on clock `c` does.
pub open spec fn complete_selected_done(old: App, new: App, c: Clock, ns: u32) -> bool {
    let rows = visible_rows(old, c);
    let sel = old.nav.selected_task;
    if sel >= rows.len() || row_task_spec(old, rows[sel as int]) is None {
        new == old
    } else {
        let id = row_task_spec(old, rows[sel as int])->0.id@;
        exists|mid: App|
            #[trigger] completed_or_same(old, mid, id, c.today@, ns) && new == (App {
                nav: Nav { selected_task: clamp_sel(sel, visible_rows(mid, c).len()), ..mid.nav },
                ..mid
            })
    }
}

/// What completing task `id` from the All view on clock `c` does.
pub open spec fn complete_by_id_done(old: App, new: App, id: Seq<char>, c: Clock, ns: u32) -> bool {
    exists|mid: App|
        #[trigger] completed_or_same(old, mid, id, c.today@, ns) && new == (App {
            nav: Nav { selected_all_item: clamp_sel(mid.nav.selected_all_item, all_items(mid, c).len()), ..mid.nav },
            ..mid
        })
}

} // verus!
