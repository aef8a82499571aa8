//! What the program does with the results its background work sends back:
//! command statuses from the server, fetched lists, comments and
//! connection changes. Each result is turned into a new state and the
//! follow-up work the event loop is to start.
use vstd::prelude::*;
use vstd::string::*;

use crate::app::{opt_view, str_set, vec_remove_str, App, AppError, Data, Pending};
use crate::delta::{retain_records, without_key, CommandStatus, SyncResponse};
use crate::edit::{project_pos, project_position, selected_task_spec};
use crate::model::{Comment, Project, Task};
use crate::sync::OptimisticOp;
use crate::tasks::{find_task, first_with_id, Clock};
use crate::text::str_eq;
use crate::keys::clamp_min;

verus! {

/// `i` is the first optimistic change recorded for command `uuid`.
pub open spec fn first_op_at(ops: Seq<(String, OptimisticOp)>, uuid: Seq<char>, i: int) -> bool {
    &&& 0 <= i < ops.len()
    &&& ops[i].0@ == uuid
    &&& forall|j: int| 0 <= j < i ==> ops[j].0@ != uuid
}

/// No optimistic change is recorded for command `uuid`.
pub open spec fn no_op_for(ops: Seq<(String, OptimisticOp)>, uuid: Seq<char>) -> bool {
    forall|j: int| 0 <= j < ops.len() ==> (#[trigger] ops[j]).0@ != uuid
}

/// Takes out the optimistic change recorded for command `uuid`.
pub fn take_pending_op(ops: &mut Vec<(String, OptimisticOp)>, uuid: &str) -> (r: Option<OptimisticOp>)
    ensures
        match r {
            Some(op) => exists|i: int|
                first_op_at(old(ops)@, uuid@, i) && op == old(ops)@[i].1 && final(ops)@ == old(
                    ops,
                )@.remove(i),
            None => no_op_for(old(ops)@, uuid@) && final(ops)@ == old(ops)@,
        },
{
    let mut i: usize = 0;
    while i < ops.len()
        invariant
            i <= ops.len(),
            ops@ == old(ops)@,
            forall|j: int| 0 <= j < i ==> ops@[j].0@ != uuid@,
        decreases ops.len() - i,
    {
        if str_eq(ops[i].0.as_str(), uuid) {
            let ghost before = ops@;
            let (_, op) = ops.remove(i);
            assert(first_op_at(before, uuid@, i as int));
            return Some(op);
        }
        i += 1;
    }
    None
}

/// The task list after the first task with id `temp_id` took the id `real_id`.
pub open spec fn task_renamed(old: Seq<Task>, new: Seq<Task>, temp_id: Seq<char>, real_id: Seq<char>) -> bool {
    match first_with_id(old, temp_id) {
        Some(i) => {
            &&& new.len() == old.len()
            &&& new[i].id@ == real_id
            &&& new[i] == (Task { id: new[i].id, ..old[i] })
            &&& forall|j: int| 0 <= j < new.len() && j != i ==> new[j] == old[j]
        },
        None => new == old,
    }
}

/// A comment after the temporary id `temp_id` became `real_id`, as its own id
/// and as the id of its task.
pub open spec fn comment_renamed(old: Comment, new: Comment, temp_id: Seq<char>, real_id: Seq<char>) -> bool {
    &&& new == (Comment { id: new.id, item_id: new.item_id, ..old })
    &&& if old.id@ == temp_id {
        new.id@ == real_id
    } else {
        new.id == old.id
    }
    &&& if opt_view(old.item_id) == Some(temp_id) {
        opt_view(new.item_id) == Some(real_id)
    } else {
        new.item_id == old.item_id
    }
}

fn rename_comment(c: Comment, temp_id: &str, real_id: &str) -> (r: Comment)
    ensures
        comment_renamed(c, r, temp_id@, real_id@),
{
    let mut c = c;
    if str_eq(c.id.as_str(), temp_id) {
        c.id = String::from_str(real_id);
    }
    let hit = match &c.item_id {
        Some(t) => str_eq(t.as_str(), temp_id),
        None => false,
    };
    if hit {
        c.item_id = Some(String::from_str(real_id));
    }
    c
}

/// One temporary id replaced by the server's id in tasks and comments.
pub open spec fn renamed_step(a: App, b: App, temp_id: Seq<char>, real_id: Seq<char>) -> bool {
    &&& task_renamed(a.data.tasks@, b.data.tasks@, temp_id, real_id)
    &&& b.data.comments@.len() == a.data.comments@.len()
    &&& forall|j: int|
        0 <= j < b.data.comments@.len() ==> comment_renamed(
            a.data.comments@[j],
            #[trigger] b.data.comments@[j],
            temp_id,
            real_id,
        )
    &&& b == (App { data: Data { tasks: b.data.tasks, comments: b.data.comments, ..a.data }, ..a })
}

impl App {
    /// Gives the records created under the temporary id `temp_id` the id
    /// `real_id` the server assigned: the first task with that id, and every
    /// comment that has it as its own id or as its task's id.
    pub fn apply_temp_id_mapping(&mut self, temp_id: &str, real_id: &str)
        ensures
            renamed_step(*old(self), *final(self), temp_id@, real_id@),
    {
        match find_task(&self.data.tasks, temp_id) {
            Some(i) => {
                let mut t = self.data.tasks.remove(i);
                t.id = String::from_str(real_id);
                self.data.tasks.insert(i, t);
            },
            None => {},
        }
        let mut rest: Vec<Comment> = Vec::new();
        std::mem::swap(&mut rest, &mut self.data.comments);
        let ghost orig = rest@;
        let mut out: Vec<Comment> = Vec::new();
        while rest.len() > 0
            invariant
                rest@.len() <= orig.len(),
                rest@ == orig.skip(orig.len() - rest@.len()),
                out@.len() == orig.len() - rest@.len(),
                forall|j: int| 0 <= j < out@.len() ==> comment_renamed(orig[j], #[trigger] out@[j], temp_id@, real_id@),
            decreases rest.len(),
        {
            let ghost n = orig.len() - rest@.len();
            let c = rest.remove(0);
            assert(c == orig[n]);
            assert(rest@ =~= orig.skip(n + 1));
            let r = rename_comment(c, temp_id, real_id);
            out.push(r);
        }
        self.data.comments = out;
    }
}

/// The task list after a failed command's change was undone (tasks part).
pub open spec fn tasks_reverted(old: Seq<Task>, new: Seq<Task>, op: OptimisticOp) -> bool {
    match op {
        OptimisticOp::TaskAdded { temp_id } => new == without_key(old, temp_id@),
        OptimisticOp::TaskRemoved { snapshot } => new == old.push(snapshot),
        OptimisticOp::TaskUpdated { task_id, before } => new == match first_with_id(old, task_id@) {
            Some(i) => old.update(i, before),
            None => old,
        },
        _ => new == old,
    }
}

/// The project list before sorting, after a failed project change was undone.
pub open spec fn projects_restored(old: Seq<Project>, project_id: Seq<char>, before: Project) -> Seq<Project> {
    match project_pos(old, project_id) {
        Some(i) => old.update(i, before),
        None => old,
    }
}

/// The state after a command the server rejected had its local change
/// undone; `c` is the clock that decides which task is selected.
pub open spec fn reverted(old: App, new: App, op: OptimisticOp, c: Clock) -> bool {
    match op {
        OptimisticOp::CommentAdded { temp_id, task_id } => {
            let open = match selected_task_spec(old, c) {
                Some(t) => t.id@ == task_id@,
                None => false,
            };
            &&& new.data.comments@ == (if open {
                without_key(old.data.comments@, temp_id@)
            } else {
                old.data.comments@
            })
            &&& new == (App { data: Data { comments: new.data.comments, ..old.data }, ..old })
        },
        OptimisticOp::ProjectUpdated { project_id, before } => {
            let mid = projects_restored(old.data.projects@, project_id@, before);
            &&& new.data.projects@ == crate::projects::ordered_projects(
                mid,
                old.data.workspaces@,
                old.data.folders@,
            )
            &&& new.nav.selected_project == crate::delta::resorted_sel(
                mid,
                new.data.projects@,
                old.nav.selected_project,
            )
            &&& new == (App {
                data: Data { projects: new.data.projects, ..old.data },
                nav: crate::app::Nav { selected_project: new.nav.selected_project, ..old.nav },
                ..old
            })
        },
        _ => {
            &&& tasks_reverted(old.data.tasks@, new.data.tasks@, op)
            &&& new == (App { data: Data { tasks: new.data.tasks, ..old.data }, ..old })
        },
    }
}

impl App {
    /// Undoes the local change of a command the server rejected; `c` is
    /// the clock that decides which task the comment list belongs to.
    pub fn revert_optimistic_on(&mut self, op: OptimisticOp, c: &Clock)
        ensures
            reverted(*old(self), *final(self), op, *c),
    {
        let ghost g = op;
        match op {
            OptimisticOp::TaskAdded { temp_id } => {
                retain_records(&mut self.data.tasks, false, temp_id.as_str());
            },
            OptimisticOp::TaskRemoved { snapshot } => {
                self.data.tasks.push(snapshot);
            },
            OptimisticOp::TaskUpdated { task_id, before } => {
                match find_task(&self.data.tasks, task_id.as_str()) {
                    Some(i) => {
                        self.data.tasks.set(i, before);
                    },
                    None => {},
                }
            },
            OptimisticOp::CommentAdded { temp_id, task_id } => {
                let open = match self.selected_task_on(c) {
                    Some(t) => str_eq(t.id.as_str(), task_id.as_str()),
                    None => false,
                };
                if open {
                    retain_records(&mut self.data.comments, false, temp_id.as_str());
                }
            },
            OptimisticOp::ProjectUpdated { project_id, before } => {
                match project_position(&self.data.projects, project_id.as_str()) {
                    Some(i) => {
                        self.data.projects.set(i, before);
                    },
                    None => {},
                }
                self.sort_projects();
            },
        }
    }
}

/// `mid` is `old` with the change recorded for command `uuid` taken out
/// (`op`); a task update's task is no longer awaited as a recurring close.
pub open spec fn op_taken(old: App, mid: App, uuid: Seq<char>, op: Option<OptimisticOp>) -> bool {
    let ops = old.pending.temp_id_pending@;
    &&& match op {
        Some(o) => exists|i: int|
            first_op_at(ops, uuid, i) && o == ops[i].1 && mid.pending.temp_id_pending@ == ops.remove(i),
        None => no_op_for(ops, uuid) && mid.pending.temp_id_pending@ == ops,
    }
    &&& match op {
        Some(OptimisticOp::TaskUpdated { task_id, before: _ }) => str_set(mid.pending.pending_close_recurring@)
            == str_set(old.pending.pending_close_recurring@).remove(task_id@),
        _ => mid.pending.pending_close_recurring == old.pending.pending_close_recurring,
    }
    &&& mid == (App {
        pending: Pending {
            temp_id_pending: mid.pending.temp_id_pending,
            pending_close_recurring: mid.pending.pending_close_recurring,
            ..old.pending
        },
        ..old
    })
}

/// The text shown for a rejected command.
pub open spec fn rejection_text(msg: Option<String>) -> Seq<char> {
    match msg {
        Some(m) => m@,
        None => "unknown error"@,
    }
}

/// One command status applied to `old` giving `new`, through `mid` (the
/// recorded change `op` taken out) and `undone` (that change reverted
/// when the command failed). `refresh` is the task whose comments are to
/// be fetched again: the open task, when the command added a comment to it.
pub open spec fn status_applied(
    old: App,
    mid: App,
    op: Option<OptimisticOp>,
    undone: App,
    new: App,
    uuid: Seq<char>,
    st: CommandStatus,
    c: Clock,
    refresh: Option<Seq<char>>,
) -> bool {
    &&& op_taken(old, mid, uuid, op)
    &&& match st {
        CommandStatus::Error(msg) => {
            &&& match op {
                Some(o) => reverted(mid, undone, o, c),
                None => undone == mid,
            }
            &&& new == (App { error: new.error, ..undone })
            &&& new.error matches Some(e) && e.title@ == "Command failed"@ && e.message@
                == rejection_text(msg) && e.suggestion is None && e.recoverable
            &&& refresh is None
        },
        CommandStatus::Accepted => {
            &&& new == mid
            &&& refresh == match op {
                Some(OptimisticOp::CommentAdded { temp_id: _, task_id }) => match selected_task_spec(mid, c) {
                    Some(t) => if t.id@ == task_id@ {
                        Some(task_id@)
                    } else {
                        None
                    },
                    None => None,
                },
                _ => None,
            }
        },
    }
}

impl App {
    /// Applies the server's status for command `uuid` on clock `c`: a
    /// rejected command has its local change undone and shows an error; an
    /// accepted one just forgets it. Returns the task whose comments are to
    /// be fetched again.
    pub fn apply_command_status(&mut self, uuid: &str, st: &CommandStatus, c: &Clock) -> (refresh: Option<String>)
        ensures
            exists|mid: App, op: Option<OptimisticOp>, undone: App|
                #[trigger] status_applied(*old(self), mid, op, undone, *final(self), uuid@, *st, *c, opt_view(refresh)),
            match *st {
                CommandStatus::Error(msg) => crate::laws::distinct_uuids(old(self).pending.temp_id_pending@)
                    ==> refresh is None && exists|op: Option<OptimisticOp>|
                    #[trigger] crate::laws::refused_undone(*old(self), *final(self), op, uuid@, msg),
                CommandStatus::Accepted => true,
            },
    {
        let ghost old_app = *self;
        let op = take_pending_op(&mut self.pending.temp_id_pending, uuid);
        if let Some(OptimisticOp::TaskUpdated { task_id, before: _ }) = &op {
            vec_remove_str(&mut self.pending.pending_close_recurring, task_id.as_str());
        }
        let ghost mid = *self;
        let ghost gop = op;
        assert(mid == (App {
            pending: Pending {
                temp_id_pending: mid.pending.temp_id_pending,
                pending_close_recurring: mid.pending.pending_close_recurring,
                ..old_app.pending
            },
            ..old_app
        }));
        proof {
            let ops = old_app.pending.temp_id_pending@;
            if let Some(o) = gop {
                let i = choose|i: int|
                    first_op_at(ops, uuid@, i) && o == ops[i].1 && mid.pending.temp_id_pending@ == ops.remove(i);
                assert(first_op_at(ops, uuid@, i) && o == ops[i].1 && mid.pending.temp_id_pending@ == ops.remove(i));
            }
        }
        assert(op_taken(old_app, mid, uuid@, gop));
        match st {
            CommandStatus::Error(msg) => {
                match op {
                    Some(o) => self.revert_optimistic_on(o, c),
                    None => {},
                }
                let ghost undone = *self;
                let message = match msg {
                    Some(m) => m.clone(),
                    None => String::from_str("unknown error"),
                };
                self.error = Some(
                    AppError {
                        title: String::from_str("Command failed"),
                        message,
                        suggestion: None,
                        recoverable: true,
                    },
                );
                proof {
                    reveal_strlit("Command failed");
                    reveal_strlit("unknown error");
                }
                assert(status_applied(old_app, mid, gop, undone, *self, uuid@, *st, *c, None));
                proof {
                    if crate::laws::distinct_uuids(old_app.pending.temp_id_pending@) {
                        crate::laws::law_refused_command_undone(
                            old_app,
                            mid,
                            gop,
                            undone,
                            *self,
                            uuid@,
                            *msg,
                            *c,
                            None,
                        );
                    }
                }
                None
            },
            CommandStatus::Accepted => {
                let r = match op {
                    Some(OptimisticOp::CommentAdded { temp_id: _, task_id }) => {
                        let open = match self.selected_task_on(c) {
                            Some(t) => str_eq(t.id.as_str(), task_id.as_str()),
                            None => false,
                        };
                        if open {
                            Some(task_id)
                        } else {
                            None
                        }
                    },
                    _ => None,
                };
                assert(status_applied(old_app, mid, gop, mid, *self, uuid@, *st, *c, opt_view(r)));
                r
            },
        }
    }
}

/// `states` walks through the mapping `pairs`, one pair per step.
pub open spec fn mapping_chain(states: Seq<App>, pairs: Seq<(String, String)>) -> bool {
    &&& states.len() == pairs.len() + 1
    &&& forall|k: int|
        0 <= k < pairs.len() ==> renamed_step(states[k], states[k + 1], (#[trigger] pairs[k]).0@, pairs[k].1@)
}

/// One status step: `r1` is the task whose comments are to be fetched
/// again after it, `r0` before it (a later comment wins).
pub open spec fn status_step(
    a: App,
    b: App,
    uuid: Seq<char>,
    st: CommandStatus,
    c: Clock,
    r0: Option<Seq<char>>,
    r1: Option<Seq<char>>,
) -> bool {
    exists|mid: App, op: Option<OptimisticOp>, undone: App, r: Option<Seq<char>>|
        #[trigger] status_applied(a, mid, op, undone, b, uuid, st, c, r) && r1 == (if r is Some {
            r
        } else {
            r0
        })
}

/// `states` walks through the command statuses `sts` in order.
pub open spec fn status_chain(
    states: Seq<App>,
    refs: Seq<Option<Seq<char>>>,
    sts: Seq<(String, CommandStatus)>,
    c: Clock,
) -> bool {
    &&& states.len() == sts.len() + 1
    &&& refs.len() == sts.len() + 1
    &&& refs[0] is None
    &&& forall|k: int|
        0 <= k < sts.len() ==> status_step(
            states[k],
            states[k + 1],
            (#[trigger] sts[k]).0@,
            sts[k].1,
            c,
            refs[k],
            refs[k + 1],
        )
}

/// The state after a command batch's answer: every status applied in
/// order, then every temporary id mapped, then the new sync token taken
/// when one came.
pub open spec fn results_applied(
    old: App,
    new: App,
    resp: SyncResponse,
    c: Clock,
    states: Seq<App>,
    refs: Seq<Option<Seq<char>>>,
    maps: Seq<App>,
) -> bool {
    &&& status_chain(states, refs, resp.sync_status@, c)
    &&& states[0] == old
    &&& mapping_chain(maps, resp.temp_id_mapping@)
    &&& maps[0] == states.last()
    &&& if resp.sync_token@.len() > 0 {
        &&& new.data.sync_token@ == resp.sync_token@
        &&& new == (App { data: Data { sync_token: new.data.sync_token, ..maps.last().data }, ..maps.last() })
    } else {
        new == maps.last()
    }
}

impl App {
    /// Applies every `(temporary id, id)` pair in order.
    pub fn apply_temp_id_mappings(&mut self, pairs: &Vec<(String, String)>)
        ensures
            exists|maps: Seq<App>|
                #[trigger] mapping_chain(maps, pairs@) && maps[0] == *old(self) && maps.last() == *final(self),
    {
        let ghost mut maps: Seq<App> = seq![*self];
        let mut i: usize = 0;
        while i < pairs.len()
            invariant
                i <= pairs.len(),
                maps.len() == i + 1,
                maps[0] == *old(self),
                maps.last() == *self,
                forall|k: int|
                    0 <= k < i ==> renamed_step(maps[k], maps[k + 1], (#[trigger] pairs@[k]).0@, pairs@[k].1@),
            decreases pairs.len() - i,
        {
            let ghost before = maps;
            self.apply_temp_id_mapping(pairs[i].0.as_str(), pairs[i].1.as_str());
            proof {
                maps = maps.push(*self);
                assert forall|k: int|
                    0 <= k < i + 1 implies renamed_step(maps[k], maps[k + 1], (#[trigger] pairs@[k]).0@, pairs@[k].1@) by {
                    if k < i {
                        assert(maps[k] == before[k]);
                        assert(maps[k + 1] == before[k + 1]);
                    }
                }
            }
            i += 1;
        }
        assert(mapping_chain(maps, pairs@));
    }

    /// Applies the answer to a batch of commands on clock `c`: each
    /// command's status in order, then the temporary ids the server
    /// mapped, then its sync token. Returns whether a new token came (it is
    /// then to be saved) and the task whose comments are to be fetched
    /// again.
    pub fn apply_command_results_on(&mut self, resp: SyncResponse, c: &Clock) -> (r: (bool, Option<String>))
        ensures
            r.0 == (resp.sync_token@.len() > 0),
            exists|states: Seq<App>, refs: Seq<Option<Seq<char>>>, maps: Seq<App>|
                #[trigger] results_applied(*old(self), *final(self), resp, *c, states, refs, maps) && opt_view(r.1)
                    == refs.last(),
    {
        let ghost mut states: Seq<App> = seq![*self];
        let ghost mut refs: Seq<Option<Seq<char>>> = seq![None];
        let mut refresh: Option<String> = None;
        let mut i: usize = 0;
        while i < resp.sync_status.len()
            invariant
                i <= resp.sync_status.len(),
                states.len() == i + 1,
                refs.len() == i + 1,
                refs[0] is None,
                states[0] == *old(self),
                states.last() == *self,
                refs.last() == opt_view(refresh),
                forall|k: int|
                    0 <= k < i ==> status_step(
                        states[k],
                        states[k + 1],
                        (#[trigger] resp.sync_status@[k]).0@,
                        resp.sync_status@[k].1,
                        *c,
                        refs[k],
                        refs[k + 1],
                    ),
            decreases resp.sync_status.len() - i,
        {
            let ghost s0 = states;
            let ghost r0 = refs;
            let ghost prev = opt_view(refresh);
            let hit = self.apply_command_status(resp.sync_status[i].0.as_str(), &resp.sync_status[i].1, c);
            let ghost rh = opt_view(hit);
            if hit.is_some() {
                refresh = hit;
            }
            proof {
                states = states.push(*self);
                refs = refs.push(opt_view(refresh));
                assert(opt_view(refresh) == (if rh is Some { rh } else { prev }));
                assert(status_step(
                    s0.last(),
                    *self,
                    resp.sync_status@[i as int].0@,
                    resp.sync_status@[i as int].1,
                    *c,
                    prev,
                    opt_view(refresh),
                ));
                assert forall|k: int|
                    0 <= k < i + 1 implies status_step(
                        states[k],
                        states[k + 1],
                        (#[trigger] resp.sync_status@[k]).0@,
                        resp.sync_status@[k].1,
                        *c,
                        refs[k],
                        refs[k + 1],
                    ) by {
                    if k < i {
                        assert(states[k] == s0[k] && states[k + 1] == s0[k + 1]);
                        assert(refs[k] == r0[k] && refs[k + 1] == r0[k + 1]);
                    }
                }
            }
            i += 1;
        }
        assert(status_chain(states, refs, resp.sync_status@, *c));
        let ghost after_status = *self;
        self.apply_temp_id_mappings(&resp.temp_id_mapping);
        let ghost after_maps = *self;
        let saved = resp.sync_token.as_str().unicode_len() > 0;
        if saved {
            self.data.sync_token = resp.sync_token;
        }
        proof {
            let maps = choose|maps: Seq<App>|
                #[trigger] mapping_chain(maps, resp.temp_id_mapping@) && maps[0] == after_status && maps.last()
                    == after_maps;
            assert(results_applied(*old(self), *self, resp, *c, states, refs, maps));
        }
        (saved, refresh)
    }
}

/// `i` is the first entry of `cache` under key `k`.
pub open spec fn first_key_entry<V>(cache: Seq<(String, V)>, k: Seq<char>, i: int) -> bool {
    &&& 0 <= i < cache.len()
    &&& cache[i].0@ == k
    &&& forall|j: int| 0 <= j < i ==> cache[j].0@ != k
}

/// `new` is `cache` with `v` stored under key `k`: its first entry for
/// `k` gets the value, or a new entry is appended.
pub open spec fn entry_put<V>(cache: Seq<(String, V)>, new: Seq<(String, V)>, k: String, v: V) -> bool {
    if exists|i: int| first_key_entry(cache, k@, i) {
        let i = choose|i: int| first_key_entry(cache, k@, i);
        new == cache.update(i, (cache[i].0, v))
    } else {
        new == cache.push((k, v))
    }
}

/// Stores `v` under key `k`, replacing what the key held.
pub fn put_entry<V>(cache: &mut Vec<(String, V)>, k: String, v: V)
    ensures
        entry_put(old(cache)@, final(cache)@, k, v),
{
    let mut i: usize = 0;
    while i < cache.len()
        invariant
            i <= cache.len(),
            cache@ == old(cache)@,
            forall|j: int| 0 <= j < i ==> cache@[j].0@ != k@,
        decreases cache.len() - i,
    {
        if str_eq(cache[i].0.as_str(), k.as_str()) {
            proof {
                assert(first_key_entry(old(cache)@, k@, i as int));
                let c = choose|c: int| first_key_entry(old(cache)@, k@, c);
                if c < i {
                    assert(cache@[c].0@ != k@);
                } else if c > i {
                    assert(cache@[i as int].0@ != k@);
                }
            }
            let (key, _) = cache.remove(i);
            cache.insert(i, (key, v));
            assert(cache@ =~= old(cache)@.update(i as int, (old(cache)@[i as int].0, v)));
            return;
        }
        i += 1;
    }
    proof {
        if exists|c: int| first_key_entry(old(cache)@, k@, c) {
            let c = choose|c: int| first_key_entry(old(cache)@, k@, c);
            assert(cache@[c].0@ != k@);
        }
    }
    cache.push((k, v));
}

/// The state after a list fetched by a CLI tool came back at `now`: not
/// loading, stamped, and on success the list replaced with the cursor
/// kept inside it; on failure the error text kept.
pub open spec fn prs_fetched(old: App, new: App, result: Result<Vec<crate::model::PullRequest>, String>, now: u64) -> bool {
    let x = old.external;
    match result {
        Ok(v) => new == (App {
            external: crate::app::External {
                github_prs: v,
                github_prs_loading: false,
                github_prs_fetched_at: Some(now),
                github_prs_error: None,
                ..x
            },
            nav: crate::app::Nav { selected_pr: clamp_min(old.nav.selected_pr, v@.len()), ..old.nav },
            ..old
        }),
        Err(e) => new == (App {
            external: crate::app::External {
                github_prs_loading: false,
                github_prs_fetched_at: Some(now),
                github_prs_error: Some(e),
                ..x
            },
            ..old
        }),
    }
}

/// Jira cards came back at `now`; as for pull requests.
pub open spec fn cards_fetched(old: App, new: App, result: Result<Vec<crate::model::JiraCard>, String>, now: u64) -> bool {
    let x = old.external;
    match result {
        Ok(v) => new == (App {
            external: crate::app::External {
                jira_cards: v,
                jira_cards_loading: false,
                jira_cards_fetched_at: Some(now),
                jira_cards_error: None,
                ..x
            },
            nav: crate::app::Nav { selected_jira_card: clamp_min(old.nav.selected_jira_card, v@.len()), ..old.nav },
            ..old
        }),
        Err(e) => new == (App {
            external: crate::app::External {
                jira_cards_loading: false,
                jira_cards_fetched_at: Some(now),
                jira_cards_error: Some(e),
                ..x
            },
            ..old
        }),
    }
}

/// Calendar events came back at `now`; as for pull requests.
pub open spec fn events_fetched(old: App, new: App, result: Result<Vec<crate::model::CalendarEvent>, String>, now: u64) -> bool {
    let x = old.external;
    match result {
        Ok(v) => new == (App {
            external: crate::app::External {
                agenda_events: v,
                agenda_loading: false,
                agenda_fetched_at: Some(now),
                agenda_error: None,
                ..x
            },
            nav: crate::app::Nav { selected_agenda_item: clamp_min(old.nav.selected_agenda_item, v@.len()), ..old.nav },
            ..old
        }),
        Err(e) => new == (App {
            external: crate::app::External {
                agenda_loading: false,
                agenda_fetched_at: Some(now),
                agenda_error: Some(e),
                ..x
            },
            ..old
        }),
    }
}

fn clamp_to_len(sel: usize, n: usize) -> (r: usize)
    ensures
        r == clamp_min(sel, n as nat),
{
    if n == 0 {
        0
    } else if sel > n - 1 {
        n - 1
    } else {
        sel
    }
}

impl App {
    /// Takes the pull requests fetched at `now`.
    pub fn on_github_prs_fetched(&mut self, result: Result<Vec<crate::model::PullRequest>, String>, now: u64)
        ensures
            prs_fetched(*old(self), *final(self), result, now),
    {
        self.external.github_prs_loading = false;
        self.external.github_prs_fetched_at = Some(now);
        match result {
            Ok(prs) => {
                self.nav.selected_pr = clamp_to_len(self.nav.selected_pr, prs.len());
                self.external.github_prs = prs;
                self.external.github_prs_error = None;
            },
            Err(e) => {
                self.external.github_prs_error = Some(e);
            },
        }
    }

    /// Takes the Jira cards fetched at `now`.
    pub fn on_jira_cards_fetched(&mut self, result: Result<Vec<crate::model::JiraCard>, String>, now: u64)
        ensures
            cards_fetched(*old(self), *final(self), result, now),
    {
        self.external.jira_cards_loading = false;
        self.external.jira_cards_fetched_at = Some(now);
        match result {
            Ok(cards) => {
                self.nav.selected_jira_card = clamp_to_len(self.nav.selected_jira_card, cards.len());
                self.external.jira_cards = cards;
                self.external.jira_cards_error = None;
            },
            Err(e) => {
                self.external.jira_cards_error = Some(e);
            },
        }
    }

    /// Takes the calendar events fetched at `now`.
    pub fn on_agenda_fetched(&mut self, result: Result<Vec<crate::model::CalendarEvent>, String>, now: u64)
        ensures
            events_fetched(*old(self), *final(self), result, now),
    {
        self.external.agenda_loading = false;
        self.external.agenda_fetched_at = Some(now);
        match result {
            Ok(events) => {
                self.nav.selected_agenda_item = clamp_to_len(self.nav.selected_agenda_item, events.len());
                self.external.agenda_events = events;
                self.external.agenda_error = None;
            },
            Err(e) => {
                self.external.agenda_error = Some(e);
            },
        }
    }

    /// Takes the completed tasks fetched for project `project_id`; a
    /// failure shows an error instead.
    pub fn on_completed_tasks(&mut self, project_id: String, records: Result<Vec<Task>, String>)
        ensures
            match records {
                Ok(r) => entry_put(old(self).data.completed_cache@, final(self).data.completed_cache@, project_id, r)
                    && *final(self) == (App {
                    data: Data { completed_cache: final(self).data.completed_cache, ..old(self).data },
                    ..*old(self)
                }),
                Err(e) => {
                    &&& *final(self) == (App { error: final(self).error, ..*old(self) })
                    &&& final(self).error matches Some(x) && (x.title@, x.message@, opt_view(x.suggestion))
                        == crate::app::api_error_parts(e@, "Load completed tasks"@) && x.recoverable
                },
            },
    {
        match records {
            Ok(r) => put_entry(&mut self.data.completed_cache, project_id, r),
            Err(e) => {
                self.set_error(e.as_str(), "Load completed tasks");
            },
        }
    }
}

/// The task list after the first task with id `id` took `n` as its
/// comment count.
pub open spec fn counted(old: Seq<Task>, id: Seq<char>, n: i32) -> Seq<Task> {
    match first_with_id(old, id) {
        Some(i) => old.update(i, Task { note_count: Some(n), ..old[i] }),
        None => old,
    }
}

/// The state after the comments `cs` of task `task_id` came back under
/// sequence number `seq`: the task's comment count and the cache are
/// updated, and the open comment list is replaced only when that task is
/// still the selected one and no later fetch was started.
pub open spec fn comments_loaded(old: App, new: App, task_id: String, cs: Vec<Comment>, seq: u64, c: Clock) -> bool {
    let mid = App {
        data: Data { tasks: new.data.tasks, comments_by_task: new.data.comments_by_task, ..old.data },
        ..old
    };
    let open = match selected_task_spec(mid, c) {
        Some(t) => t.id@ == task_id@,
        None => false,
    } && seq == old.counters.comments_fetch_seq;
    &&& new.data.tasks@ == counted(old.data.tasks@, task_id@, cs@.len() as i32)
    &&& entry_put(old.data.comments_by_task@, new.data.comments_by_task@, task_id, cs)
    &&& new == (App { data: Data { comments: new.data.comments, ..mid.data }, ..mid })
    &&& if open {
        new.data.comments@ == cs@
    } else {
        new.data.comments == old.data.comments
    }
}

impl App {
    /// Takes the comments fetched for task `task_id` under sequence number
    /// `seq`, on clock `c`; a failure shows an error instead.
    pub fn on_comments_on(&mut self, task_id: String, comments: Result<Vec<Comment>, String>, seq: u64, c: &Clock)
        ensures
            match comments {
                Ok(cs) => comments_loaded(*old(self), *final(self), task_id, cs, seq, *c),
                Err(e) => {
                    &&& *final(self) == (App { error: final(self).error, ..*old(self) })
                    &&& final(self).error matches Some(x) && (x.title@, x.message@, opt_view(x.suggestion))
                        == crate::app::api_error_parts(e@, "Load comments"@) && x.recoverable
                },
            },
    {
        match comments {
            Ok(cs) => {
                let n = cs.len() as i32;
                match find_task(&self.data.tasks, task_id.as_str()) {
                    Some(i) => {
                        let mut t = self.data.tasks.remove(i);
                        t.note_count = Some(n);
                        self.data.tasks.insert(i, t);
                    },
                    None => {},
                }
                let shown = crate::model::duplicate_comments(&cs);
                put_entry(&mut self.data.comments_by_task, task_id.clone(), cs);
                let open = match self.selected_task_on(c) {
                    Some(t) => str_eq(t.id.as_str(), task_id.as_str()),
                    None => false,
                } && seq == self.counters.comments_fetch_seq;
                if open {
                    self.data.comments = shown;
                }
                proof {
                    let o = old(self).data.tasks@;
                    match first_with_id(o, task_id@) {
                        Some(i) => {
                            assert(self.data.tasks@ =~= o.update(i, Task { note_count: Some(n), ..o[i] }));
                        },
                        None => {},
                    }
                }
            },
            Err(e) => {
                self.set_error(e.as_str(), "Load comments");
            },
        }
    }

    /// A change on the server was announced at `now`. Returns whether an
    /// incremental sync is to start now; while the user is idle it is
    /// deferred to the next key press instead.
    pub fn on_websocket_event(&mut self, now: u64) -> (sync: bool)
        ensures
            sync == !crate::counters::idle_at(*old(self), now),
            *final(self) == (App {
                data: Data { websocket_connected: true, ..old(self).data },
                counters: crate::app::Counters {
                    pending_ws_sync: old(self).counters.pending_ws_sync || !sync,
                    ..old(self).counters
                },
                ..*old(self)
            }),
    {
        self.data.websocket_connected = true;
        if self.is_idle_at(now) {
            self.counters.pending_ws_sync = true;
            false
        } else {
            true
        }
    }
}

/// A result sent back by background work.
pub enum BgEvent {
    /// An incremental or full sync answered.
    SyncDelta(SyncResponse),
    /// A batch of commands answered.
    CommandResults(SyncResponse),
    CompletedTasks { project_id: String, records: Result<Vec<Task>, String> },
    WebSocketConnected,
    /// The server announced a change.
    WebSocketEvent,
    WebSocketDisconnected,
    GithubPrsFetched(Result<Vec<crate::model::PullRequest>, String>),
    JiraCardsFetched(Result<Vec<crate::model::JiraCard>, String>),
    AgendaFetched(Result<Vec<crate::model::CalendarEvent>, String>),
    Comments { task_id: String, comments: Result<Vec<Comment>, String>, fetch_seq: u64 },
}

/// Work the event loop is to start after handling a background result.
pub struct FollowUp {
    /// Persist the sync token now held.
    pub save_sync_token: bool,
    /// Fetch the comments of the given task under the given sequence number.
    pub fetch_comments: Option<(String, u64)>,
    /// Start an incremental sync.
    pub incremental_sync: bool,
}

/// The comment fetch of a follow-up, by view.
pub open spec fn fetch_view(f: Option<(String, u64)>) -> Option<(Seq<char>, u64)> {
    match f {
        Some((t, n)) => Some((t@, n)),
        None => None,
    }
}

/// What handling `ev` at `now` (milliseconds; `now_secs` in seconds) on
/// clock `c` does to the state and which work it asks for.
#[verifier::opaque]
pub open spec fn bg_effect(old: App, new: App, ev: BgEvent, now: u64, now_secs: i64, c: Clock, f: FollowUp) -> bool {
    match ev {
        BgEvent::SyncDelta(resp) => {
            &&& exists|mid: App, mid2: App|
                #[trigger] crate::delta::lists_merged(old, mid, resp) && crate::delta::notes_merged(
                    mid,
                    mid2,
                    resp.full_sync,
                    resp.notes,
                    if resp.full_sync {
                        None
                    } else {
                        crate::delta::open_task(mid, c)
                    },
                ) && #[trigger] crate::delta::sync_finished(mid2, new, resp.sync_token@, now_secs, c)
            &&& f.save_sync_token == (resp.sync_token@.len() > 0)
            &&& f.fetch_comments is None && !f.incremental_sync
        },
        BgEvent::CommandResults(resp) => {
            exists|states: Seq<App>, refs: Seq<Option<Seq<char>>>, maps: Seq<App>, last: App|
                #[trigger] results_applied(old, last, resp, c, states, refs, maps) && {
                    &&& f.save_sync_token == (resp.sync_token@.len() > 0)
                    &&& !f.incremental_sync
                    &&& match refs.last() {
                        Some(t) => {
                            let n = crate::ids::next_counter(last.counters.comments_fetch_seq);
                            &&& fetch_view(f.fetch_comments) == Some((t, n))
                            &&& new == (App {
                                counters: crate::app::Counters { comments_fetch_seq: n, ..last.counters },
                                ..last
                            })
                        },
                        None => f.fetch_comments is None && new == last,
                    }
                }
        },
        BgEvent::CompletedTasks { project_id, records } => {
            &&& match records {
                Ok(r) => entry_put(old.data.completed_cache@, new.data.completed_cache@, project_id, r)
                    && new == (App { data: Data { completed_cache: new.data.completed_cache, ..old.data }, ..old }),
                Err(e) => {
                    &&& new == (App { error: new.error, ..old })
                    &&& new.error matches Some(x) && (x.title@, x.message@, opt_view(x.suggestion))
                        == crate::app::api_error_parts(e@, "Load completed tasks"@) && x.recoverable
                },
            }
            &&& !f.save_sync_token && f.fetch_comments is None && !f.incremental_sync
        },
        BgEvent::WebSocketConnected => {
            &&& new == (App { data: Data { websocket_connected: true, ..old.data }, ..old })
            &&& !f.save_sync_token && f.fetch_comments is None && !f.incremental_sync
        },
        BgEvent::WebSocketDisconnected => {
            &&& new == (App { data: Data { websocket_connected: false, ..old.data }, ..old })
            &&& !f.save_sync_token && f.fetch_comments is None && !f.incremental_sync
        },
        BgEvent::WebSocketEvent => {
            let idle = crate::counters::idle_at(old, now);
            &&& new == (App {
                data: Data { websocket_connected: true, ..old.data },
                counters: crate::app::Counters {
                    pending_ws_sync: old.counters.pending_ws_sync || idle,
                    ..old.counters
                },
                ..old
            })
            &&& f.incremental_sync == !idle
            &&& !f.save_sync_token && f.fetch_comments is None
        },
        BgEvent::GithubPrsFetched(r) => prs_fetched(old, new, r, now) && !f.save_sync_token
            && f.fetch_comments is None && !f.incremental_sync,
        BgEvent::JiraCardsFetched(r) => cards_fetched(old, new, r, now) && !f.save_sync_token
            && f.fetch_comments is None && !f.incremental_sync,
        BgEvent::AgendaFetched(r) => events_fetched(old, new, r, now) && !f.save_sync_token
            && f.fetch_comments is None && !f.incremental_sync,
        BgEvent::Comments { task_id, comments, fetch_seq } => {
            &&& match comments {
                Ok(cs) => comments_loaded(old, new, task_id, cs, fetch_seq, c),
                Err(e) => {
                    &&& new == (App { error: new.error, ..old })
                    &&& new.error matches Some(x) && (x.title@, x.message@, opt_view(x.suggestion))
                        == crate::app::api_error_parts(e@, "Load comments"@) && x.recoverable
                },
            }
            &&& !f.save_sync_token && f.fetch_comments is None && !f.incremental_sync
        },
    }
}

impl App {
    /// Handles one background result at `now` (milliseconds; `now_secs`
    /// in seconds since the epoch) on clock `c`, and says which work the
    /// event loop is to start next.
    #[verifier::rlimit(40)]
    pub fn handle_bg_event_at(&mut self, ev: BgEvent, now: u64, now_secs: i64, c: &Clock) -> (f: FollowUp)
        ensures
            bg_effect(*old(self), *final(self), ev, now, now_secs, *c, f),
    {
        let ghost g = ev;
        let none = FollowUp { save_sync_token: false, fetch_comments: None, incremental_sync: false };
        match ev {
            BgEvent::SyncDelta(resp) => {
                let saved = self.apply_sync_delta_on(resp, c, now_secs);
                let f = FollowUp { save_sync_token: saved, fetch_comments: None, incremental_sync: false };
                proof {
                    reveal(bg_effect);
                }
                f
            },
            BgEvent::CommandResults(resp) => {
                let ghost r = resp;
                let (saved, refresh) = self.apply_command_results_on(resp, c);
                let ghost last = *self;
                let fetch = match refresh {
                    Some(t) => {
                        self.counters.comments_fetch_seq = crate::ids::bump_counter(self.counters.comments_fetch_seq);
                        Some((t, self.counters.comments_fetch_seq))
                    },
                    None => None,
                };
                let f = FollowUp { save_sync_token: saved, fetch_comments: fetch, incremental_sync: false };
                proof {
                    reveal(bg_effect);
                    let (states, refs, maps) = choose|states: Seq<App>, refs: Seq<Option<Seq<char>>>, maps: Seq<App>|
                        #[trigger] results_applied(*old(self), last, r, *c, states, refs, maps) && opt_view(refresh)
                            == refs.last();
                    assert(results_applied(*old(self), last, r, *c, states, refs, maps));
                }
                f
            },
            BgEvent::CompletedTasks { project_id, records } => {
                self.on_completed_tasks(project_id, records);
                proof {
                    reveal(bg_effect);
                }
                none
            },
            BgEvent::WebSocketConnected => {
                self.data.websocket_connected = true;
                proof {
                    reveal(bg_effect);
                }
                none
            },
            BgEvent::WebSocketDisconnected => {
                self.data.websocket_connected = false;
                proof {
                    reveal(bg_effect);
                }
                none
            },
            BgEvent::WebSocketEvent => {
                let sync = self.on_websocket_event(now);
                proof {
                    reveal(bg_effect);
                }
                FollowUp { save_sync_token: false, fetch_comments: None, incremental_sync: sync }
            },
            BgEvent::GithubPrsFetched(r) => {
                self.on_github_prs_fetched(r, now);
                proof {
                    reveal(bg_effect);
                }
                none
            },
            BgEvent::JiraCardsFetched(r) => {
                self.on_jira_cards_fetched(r, now);
                proof {
                    reveal(bg_effect);
                }
                none
            },
            BgEvent::AgendaFetched(r) => {
                self.on_agenda_fetched(r, now);
                proof {
                    reveal(bg_effect);
                }
                none
            },
            BgEvent::Comments { task_id, comments, fetch_seq } => {
                self.on_comments_on(task_id, comments, fetch_seq, c);
                proof {
                    reveal(bg_effect);
                }
                none
            },
        }
    }
}

impl App {
    /// Handles one background result now, on the local clock.
    pub fn handle_bg_event(&mut self, ev: BgEvent) -> (f: FollowUp)
        ensures
            exists|now: u64, now_secs: i64, c: Clock|
                crate::tasks::clock_ok(c) && #[trigger] bg_effect(*old(self), *final(self), ev, now, now_secs, c, f),
    {
        let c = crate::tasks::read_clock();
        let ms = crate::ids::clock_millis();
        let now: u64 = if ms < 0 {
            0
        } else {
            ms as u64
        };
        self.handle_bg_event_at(ev, now, ms / 1000, &c)
    }
}

} // verus!
