//! Keyboard handling: what each key does in each pane and mode. Handlers
//! change the cursor and selection state directly and return the action
//! the main loop has to carry out.
use vstd::prelude::*;
use vstd::string::*;

use crate::app::{
    next_idle_timeout, opt_view, dock_item_at, dock_item, AllViewItem, App, DockItem, Input, InputMode,
    Nav, Pane, ProjectNavItem, TaskForm, VimState, DOCK_ITEM_COUNT,
};
use crate::nav::{insert_mode, pr_view};
use crate::tasks::{all_items, context_task, row_task_spec, visible_rows, Clock, TaskRow};

verus! {

/// A key, as the terminal reports it.
#[derive(Clone, Copy, Debug, PartialEq, Eq, Structural)]
pub enum KeyCode {
    Char(char),
    Enter,
    Esc,
    Backspace,
    Tab,
    BackTab,
    Up,
    Down,
    Left,
    Right,
    Home,
    End,
    Other,
}

/// A key press: the key and whether Control was held.
#[derive(Clone, Copy, Debug, PartialEq, Eq, Structural)]
pub struct KeyEvent {
    pub code: KeyCode,
    pub control: bool,
}

impl KeyEvent {
    /// A press of `code` without Control.
    pub fn plain(code: KeyCode) -> (k: KeyEvent)
        ensures
            k == (KeyEvent { code, control: false }),
    {
        KeyEvent { code, control: false }
    }
}

/// What the main loop does after a key.
#[derive(Clone, Debug)]
pub enum KeyAction {
    Quit,
    ProjectChanged,
    OpenDetail,
    CloseDetail,
    ToggleSettings,
    ToggleHelp,
    ToggleMode,
    ToggleCollapse,
    ToggleFolderCollapse,
    OpenAllFolds,
    CloseAllFolds,
    CompleteTask,
    CompleteTaskById(String),
    OpenDetailById(String),
    OpenPriorityPicker,
    SelectPriority,
    StarProject,
    CycleFilter,
    CycleSort,
    StartInput,
    StartCommentInput,
    StartFieldEdit,
    SubmitInput,
    SubmitForm,
    FormFieldUp,
    FormFieldDown,
    FormEditField,
    FormEscNormal,
    CancelInput,
    DetailFieldUp,
    DetailFieldDown,
    OpenThemePicker,
    SelectTheme,
    CloseThemePicker,
    AllViewSelected,
    RefreshAllSources,
    TodayViewSelected,
    UpcomingViewSelected,
    RefreshGithubPrs,
    OpenSelectedPrInBrowser,
    JiraCardsViewSelected,
    RefreshJiraCards,
    OpenSelectedJiraCardInBrowser,
    AgendaViewSelected,
    RefreshAgenda,
    OpenSelectedAgendaEventInBrowser,
    ToggleOverdueSection,
    TogglePomodoro,
    Consumed,
    Nothing,
}

/// `c` is `ch`, or one of the other keys listed.
pub open spec fn is_char(k: KeyCode, ch: char) -> bool {
    k == KeyCode::Char(ch)
}

/// `app` with priority `q` highlighted in the picker.
pub open spec fn with_priority(app: App, q: u8) -> App {
    App { input: Input { priority_selection: q, ..app.input }, ..app }
}

#[verifier::opaque]
pub open spec fn picker_effect(old: App, new: App, key: KeyEvent, a: KeyAction) -> bool {
    ({
        let k = key.code;
        let p = old.input.priority_selection;
        if k == KeyCode::Esc || is_char(k, 'q') {
            new == (App { input: Input { show_priority_picker: false, ..old.input }, ..old })
                && a is Consumed
        } else if is_char(k, 'j') || k == KeyCode::Down {
            new == with_priority(old, picker_down(p)) && a is Consumed
        } else if is_char(k, 'k') || k == KeyCode::Up {
            new == with_priority(old, picker_up(p)) && a is Consumed
        } else if is_char(k, '1') {
            new == with_priority(old, 4) && a is SelectPriority
        } else if is_char(k, '2') {
            new == with_priority(old, 3) && a is SelectPriority
        } else if is_char(k, '3') {
            new == with_priority(old, 2) && a is SelectPriority
        } else if is_char(k, '4') {
            new == with_priority(old, 1) && a is SelectPriority
        } else if k == KeyCode::Enter || is_char(k, ' ') {
            new == old && a is SelectPriority
        } else {
            new == old && a is Consumed
        }
    })
}

#[verifier::opaque]
pub open spec fn settings_effect(old: App, new: App, key: KeyEvent, a: KeyAction) -> bool {
    ({
        let k = key.code;
        let sel = old.input.settings_selection;
        if k == KeyCode::Esc || is_char(k, 'q') {
            new == old && a is ToggleSettings
        } else if is_char(k, 'j') || k == KeyCode::Down {
            new == (App { input: Input { settings_selection: settings_down(sel), ..old.input }, ..old })
                && a is Consumed
        } else if is_char(k, 'k') || k == KeyCode::Up {
            new == (App { input: Input { settings_selection: settings_up(sel), ..old.input }, ..old })
                && a is Consumed
        } else if k == KeyCode::Enter || is_char(k, ' ') {
            settings_enter_effect(old, new, a)
        } else {
            new == old && a is Nothing
        }
    })
}

#[verifier::opaque]
pub open spec fn theme_effect(old: App, new: App, key: KeyEvent, a: KeyAction) -> bool {
    ({
        let k = key.code;
        let sel = old.input.theme_selection;
        let n = old.input.theme_names@.len();
        if k == KeyCode::Esc || is_char(k, 'q') {
            new == old && a is CloseThemePicker
        } else if is_char(k, 'j') || k == KeyCode::Down {
            new == (App { input: Input { theme_selection: theme_down(sel, n), ..old.input }, ..old })
                && a is Consumed
        } else if is_char(k, 'k') || k == KeyCode::Up {
            a is Consumed && if n == 0 {
                new == old
            } else {
                new == (App {
                    input: Input {
                        theme_selection: if sel == 0 {
                            (n - 1) as usize
                        } else {
                            (sel - 1) as usize
                        },
                        ..old.input
                    },
                    ..old
                })
            }
        } else if k == KeyCode::Enter || is_char(k, ' ') {
            new == old && a is SelectTheme
        } else {
            new == old && a is Consumed
        }
    })
}

#[verifier::opaque]
pub open spec fn form_nav_effect(old: App, new: App, key: KeyEvent, a: KeyAction) -> bool {
    ({
        let k = key.code;
        if is_char(k, 'q') {
            new == old && a is CancelInput
        } else if k == KeyCode::Esc {
            match old.input.task_form {
                Some(f) => if f.active_field == 0 {
                    new == old && a is CancelInput
                } else {
                    &&& a is Consumed
                    &&& new == (App { input: new.input, ..old })
                    &&& new.input == (Input {
                        task_form: Some(TaskForm { active_field: 0, editing: true, ..f }),
                        input_buffer: new.input.input_buffer,
                        show_input: true,
                        input_mode: insert_mode(old.input.input_mode),
                        ..old.input
                    })
                    &&& new.input.input_buffer@ == f.content@
                },
                None => new == old && a is Consumed,
            }
        } else if is_char(k, 'j') || k == KeyCode::Down {
            new == old && a is FormFieldDown
        } else if is_char(k, 'k') || k == KeyCode::Up {
            new == old && a is FormFieldUp
        } else if k == KeyCode::Enter || is_char(k, 'i') || is_char(k, ' ') {
            new == old && a is FormEditField
        } else if k == KeyCode::Tab {
            new == old && a is SubmitForm
        } else {
            new == old && a is Consumed
        }
    })
}

#[verifier::opaque]
pub open spec fn input_effect(old: App, new: App, key: KeyEvent, a: KeyAction) -> bool {
    ({
        let k = key.code;
        let b = old.input.input_buffer@;
        if k == KeyCode::Esc {
            new == old && match old.input.task_form {
                Some(f) => if f.active_field == 0 {
                    a is CancelInput
                } else {
                    a is FormEscNormal
                },
                None => if old.input.input_mode == InputMode::Standard {
                    a is CancelInput
                } else {
                    a is SubmitInput
                },
            }
        } else if k == KeyCode::Enter {
            new == old && a is SubmitInput
        } else if k == KeyCode::Backspace {
            &&& a is Consumed
            &&& new == (App {
                input: Input { input_buffer: new.input.input_buffer, ..old.input },
                ..old
            })
            &&& new.input.input_buffer@ == (if b.len() > 0 {
                b.drop_last()
            } else {
                b
            })
        } else if k is Char {
            &&& a is Consumed
            &&& new == (App {
                input: Input { input_buffer: new.input.input_buffer, ..old.input },
                ..old
            })
            &&& new.input.input_buffer@ == b.push(k->0)
        } else {
            new == old && a is Consumed
        }
    })
}

#[verifier::opaque]
pub open spec fn detail_effect(key: KeyEvent, a: KeyAction) -> bool {
    ({
        let k = key.code;
        if k == KeyCode::Esc || is_char(k, 'h') || k == KeyCode::Left || k == KeyCode::BackTab {
            a is CloseDetail
        } else if is_char(k, 'q') {
            a is Quit
        } else if is_char(k, '?') {
            a is ToggleHelp
        } else if is_char(k, 'x') {
            a is CompleteTask
        } else if is_char(k, 'c') {
            a is StartCommentInput
        } else if is_char(k, 'i') || k == KeyCode::Enter {
            a is StartFieldEdit
        } else if is_char(k, 'j') || k == KeyCode::Down {
            a is DetailFieldDown
        } else if is_char(k, 'k') || k == KeyCode::Up {
            a is DetailFieldUp
        } else {
            a is Nothing
        }
    })
}

/// Enter on a settings row: the first toggles the key scheme, the second
/// opens the theme picker, the third steps the idle timeout.
#[verifier::opaque]
pub open spec fn settings_enter_effect(old: App, new: App, a: KeyAction) -> bool {
    let sel = old.input.settings_selection;
    if sel == 0 {
        new == old && a is ToggleMode
    } else if sel == 1 {
        new == old && a is OpenThemePicker
    } else if sel == 2 {
        new == (App {
            counters: crate::app::Counters {
                idle_timeout_secs: next_idle_timeout(old.counters.idle_forcer, old.counters.idle_timeout_secs),
                ..old.counters
            },
            ..old
        }) && a is Consumed
    } else {
        new == old && a is Consumed
    }
}

/// `(i + 1) % n`, without overflow.
pub fn wrap_next(i: usize, n: usize) -> (r: usize)
    requires
        n > 0,
    ensures
        r == (i + 1) % (n as int),
{
    ((i as u128 + 1) % (n as u128)) as usize
}

/// Appends `c` to `s` with `String::push`, which vstd does not specify;
/// std documents that it appends the character at the end.
#[verifier::external_body]
pub(crate) fn push_char(s: &mut String, c: char)
    ensures
        final(s)@ == old(s)@.push(c),
{
    s.push(c);
}

/// `s` without its last character (unchanged when empty).
fn pop_char(s: &mut String)
    ensures
        final(s)@ == (if old(s)@.len() > 0 {
            old(s)@.drop_last()
        } else {
            old(s)@
        }),
{
    let n = s.as_str().unicode_len();
    if n == 0 {
        return;
    }
    let t = s.as_str().substring_char(0, n - 1).to_string();
    assert(t@ =~= s@.drop_last());
    *s = t;
}

/// Priority picker: `j`/`k` move through 4→3→2→1 (wrapping), a digit picks
/// P1..P4 directly, Enter picks the highlighted one, Esc closes.
pub open spec fn picker_down(p: u8) -> u8 {
    if p == 4 {
        3
    } else if p == 3 {
        2
    } else if p == 2 {
        1
    } else {
        4
    }
}

pub open spec fn picker_up(p: u8) -> u8 {
    if p == 1 {
        2
    } else if p == 2 {
        3
    } else if p == 3 {
        4
    } else {
        1
    }
}

/// Theme picker step down (wrapping over `n` themes, at least one).
pub open spec fn theme_down(sel: usize, n: nat) -> usize {
    ((sel + 1) % (if n == 0 {
        1
    } else {
        n as int
    })) as usize
}

/// Next settings row (three rows).
pub open spec fn settings_down(sel: usize) -> usize {
    ((sel + 1) % 3) as usize
}

pub open spec fn settings_up(sel: usize) -> usize {
    if sel == 0 {
        2
    } else {
        (sel - 1) as usize
    }
}

impl App {
    /// Keys while the priority picker is open.
    pub fn handle_priority_picker(&mut self, key: KeyEvent) -> (a: KeyAction)
        ensures
            picker_effect(*old(self), *final(self), key, a),
    {
        proof {
            reveal(picker_effect);
        }
        match key.code {
            KeyCode::Esc | KeyCode::Char('q') => {
                self.input.show_priority_picker = false;
                KeyAction::Consumed
            },
            KeyCode::Char('j') | KeyCode::Down => {
                let p = self.input.priority_selection;
                self.input.priority_selection = if p == 4 {
                    3
                } else if p == 3 {
                    2
                } else if p == 2 {
                    1
                } else {
                    4
                };
                KeyAction::Consumed
            },
            KeyCode::Char('k') | KeyCode::Up => {
                let p = self.input.priority_selection;
                self.input.priority_selection = if p == 1 {
                    2
                } else if p == 2 {
                    3
                } else if p == 3 {
                    4
                } else {
                    1
                };
                KeyAction::Consumed
            },
            KeyCode::Char('1') => {
                self.input.priority_selection = 4;
                KeyAction::SelectPriority
            },
            KeyCode::Char('2') => {
                self.input.priority_selection = 3;
                KeyAction::SelectPriority
            },
            KeyCode::Char('3') => {
                self.input.priority_selection = 2;
                KeyAction::SelectPriority
            },
            KeyCode::Char('4') => {
                self.input.priority_selection = 1;
                KeyAction::SelectPriority
            },
            KeyCode::Enter | KeyCode::Char(' ') => KeyAction::SelectPriority,
            _ => KeyAction::Consumed,
        }
    }
}

/// Keys in the detail pane; nothing changes in the state.
pub fn handle_detail(key: KeyEvent) -> (a: KeyAction)
    ensures
        detail_effect(key, a),
{
    proof {
        reveal(detail_effect);
    }
    match key.code {
        KeyCode::Esc | KeyCode::Char('h') | KeyCode::Left | KeyCode::BackTab => KeyAction::CloseDetail,
        KeyCode::Char('q') => KeyAction::Quit,
        KeyCode::Char('?') => KeyAction::ToggleHelp,
        KeyCode::Char('x') => KeyAction::CompleteTask,
        KeyCode::Char('c') => KeyAction::StartCommentInput,
        KeyCode::Char('i') | KeyCode::Enter => KeyAction::StartFieldEdit,
        KeyCode::Char('j') | KeyCode::Down => KeyAction::DetailFieldDown,
        KeyCode::Char('k') | KeyCode::Up => KeyAction::DetailFieldUp,
        _ => KeyAction::Nothing,
    }
}

/// Keys in Vim visual mode (reserved): Esc is swallowed.
pub fn handle_vim_visual(key: KeyEvent) -> (a: KeyAction)
    ensures
        if key.code == KeyCode::Esc {
            a is Consumed
        } else {
            a is Nothing
        },
{
    match key.code {
        KeyCode::Esc => KeyAction::Consumed,
        _ => KeyAction::Nothing,
    }
}

/// Keys in Vim insert mode outside the input line.
pub fn handle_vim_insert(key: KeyEvent) -> (a: KeyAction)
    ensures
        if key.code == KeyCode::Esc {
            a is CancelInput
        } else if key.code == KeyCode::Enter {
            a is SubmitInput
        } else {
            a is Consumed
        },
{
    match key.code {
        KeyCode::Esc => KeyAction::CancelInput,
        KeyCode::Enter => KeyAction::SubmitInput,
        _ => KeyAction::Consumed,
    }
}

impl App {
    /// Keys in the settings pane: move over the three rows, toggle the key
    /// scheme, open the theme picker, or step the idle timeout.
    pub fn handle_settings(&mut self, key: KeyEvent) -> (a: KeyAction)
        ensures
            settings_effect(*old(self), *final(self), key, a),
    {
        proof {
            reveal(settings_effect);
        }
        match key.code {
            KeyCode::Esc | KeyCode::Char('q') => KeyAction::ToggleSettings,
            KeyCode::Char('j') | KeyCode::Down => {
                self.input.settings_selection = wrap_next(self.input.settings_selection, 3);
                KeyAction::Consumed
            },
            KeyCode::Char('k') | KeyCode::Up => {
                if self.input.settings_selection == 0 {
                    self.input.settings_selection = 2;
                } else {
                    self.input.settings_selection = self.input.settings_selection - 1;
                }
                KeyAction::Consumed
            },
            KeyCode::Enter | KeyCode::Char(' ') => self.settings_enter(),
            _ => KeyAction::Nothing,
        }
    }

    fn settings_enter(&mut self) -> (a: KeyAction)
        ensures
            settings_enter_effect(*old(self), *final(self), a),
    {
        let sel = self.input.settings_selection;
        let r = if sel == 0 {
            KeyAction::ToggleMode
        } else if sel == 1 {
            KeyAction::OpenThemePicker
        } else if sel == 2 {
            self.cycle_idle_timeout();
            KeyAction::Consumed
        } else {
            KeyAction::Consumed
        };
        proof {
            reveal(settings_enter_effect);
        }
        r
    }

    /// Keys in the theme picker.
    pub fn handle_theme_picker(&mut self, key: KeyEvent) -> (a: KeyAction)
        ensures
            theme_effect(*old(self), *final(self), key, a),
    {
        proof {
            reveal(theme_effect);
        }
        let n = self.input.theme_names.len();
        match key.code {
            KeyCode::Esc | KeyCode::Char('q') => KeyAction::CloseThemePicker,
            KeyCode::Char('j') | KeyCode::Down => {
                let m = if n == 0 {
                    1
                } else {
                    n
                };
                self.input.theme_selection = wrap_next(self.input.theme_selection, m);
                KeyAction::Consumed
            },
            KeyCode::Char('k') | KeyCode::Up => {
                if n == 0 {
                    return KeyAction::Consumed;
                }
                if self.input.theme_selection == 0 {
                    self.input.theme_selection = n - 1;
                } else {
                    self.input.theme_selection = self.input.theme_selection - 1;
                }
                KeyAction::Consumed
            },
            KeyCode::Enter | KeyCode::Char(' ') => KeyAction::SelectTheme,
            _ => KeyAction::Consumed,
        }
    }

    /// Keys on the add-task form when no field is being edited.
    pub fn handle_form_nav(&mut self, key: KeyEvent) -> (a: KeyAction)
        ensures
            form_nav_effect(*old(self), *final(self), key, a),
    {
        proof {
            reveal(form_nav_effect);
        }
        match key.code {
            KeyCode::Char('q') => KeyAction::CancelInput,
            KeyCode::Esc => {
                let on_content = match &self.input.task_form {
                    Some(f) => f.active_field == 0,
                    None => return KeyAction::Consumed,
                };
                if on_content {
                    return KeyAction::CancelInput;
                }
                let mut f = match self.input.task_form.take() {
                    Some(f) => f,
                    None => return KeyAction::Consumed,
                };
                f.active_field = 0;
                f.editing = true;
                self.input.input_buffer = f.content.clone();
                self.input.task_form = Some(f);
                self.input.show_input = true;
                self.input.input_mode = match self.input.input_mode {
                    InputMode::Vim(_) => InputMode::Vim(VimState::Insert),
                    InputMode::Standard => InputMode::Standard,
                };
                KeyAction::Consumed
            },
            KeyCode::Char('j') | KeyCode::Down => KeyAction::FormFieldDown,
            KeyCode::Char('k') | KeyCode::Up => KeyAction::FormFieldUp,
            KeyCode::Enter | KeyCode::Char('i') | KeyCode::Char(' ') => KeyAction::FormEditField,
            KeyCode::Tab => KeyAction::SubmitForm,
            _ => KeyAction::Consumed,
        }
    }

    /// Keys while typing in the input line.
    pub fn handle_input(&mut self, key: KeyEvent) -> (a: KeyAction)
        ensures
            input_effect(*old(self), *final(self), key, a),
    {
        proof {
            reveal(input_effect);
        }
        match key.code {
            KeyCode::Esc => {
                match &self.input.task_form {
                    Some(f) => if f.active_field == 0 {
                        KeyAction::CancelInput
                    } else {
                        KeyAction::FormEscNormal
                    },
                    None => match self.input.input_mode {
                        InputMode::Standard => KeyAction::CancelInput,
                        InputMode::Vim(_) => KeyAction::SubmitInput,
                    },
                }
            },
            KeyCode::Enter => KeyAction::SubmitInput,
            KeyCode::Backspace => {
                pop_char(&mut self.input.input_buffer);
                KeyAction::Consumed
            },
            KeyCode::Char(c) => {
                push_char(&mut self.input.input_buffer, c);
                KeyAction::Consumed
            },
            _ => KeyAction::Consumed,
        }
    }
}

} // verus!

verus! {

/// `(i + d) mod n` for a non-empty list of `n` rows.
pub open spec fn step_mod(i: int, d: int, n: int) -> int {
    (i + d) % n
}

/// Moves index `i` by `d` over `n` rows, wrapping.
pub fn wrap_step(i: usize, d: i32, n: usize) -> (r: usize)
    requires
        n > 0,
    ensures
        r == step_mod(i as int, d as int, n as int),
        r < n,
{
    let m: u128 = n as u128;
    if d >= 0 {
        let x: u128 = i as u128 + d as u128;
        let r = x % m;
        r as usize
    } else {
        let back: u128 = (-(d as i64)) as u128;
        if (i as u128) >= back {
            let x: u128 = i as u128 - back;
            (x % m) as usize
        } else {
            let t: u128 = back - i as u128;
            let tr = t % m;
            let r: u128 = if tr == 0 {
                0
            } else {
                m - tr
            };
            proof {
                let x = i as int + d as int;
                assert(x == -(t as int));
                let q = t as int / m as int;
                assert(t as int == q * m + tr) by (nonlinear_arith)
                    requires
                        m > 0,
                        q == t as int / m as int,
                        tr == t % m,
                ;
                let k = if tr == 0 {
                    -q
                } else {
                    -q - 1
                };
                assert(x == k * m + r) by (nonlinear_arith)
                    requires
                        x == -(t as int),
                        t as int == q * m + tr,
                        k == (if tr == 0 {
                            -q
                        } else {
                            -q - 1
                        }),
                        r == (if tr == 0 {
                            0
                        } else {
                            m - tr
                        }),
                ;
                vstd::arithmetic::div_mod::lemma_fundamental_div_mod_converse(x, m as int, k, r as int);
            }
            r as usize
        }
    }
}

} // verus!

verus! {

/// Whether the state is one the key handlers accept: a focused dock entry
/// exists.
pub open spec fn keys_ok(app: App) -> bool {
    app.nav.dock_focus matches Some(f) ==> f < DOCK_ITEM_COUNT
}

/// `min(sel, n - 1)`, zero for an empty list.
pub open spec fn clamp_min(sel: usize, n: nat) -> usize {
    if n == 0 {
        0
    } else if sel > n - 1 {
        (n - 1) as usize
    } else {
        sel
    }
}

/// Tab out of the task list: into the stats dock, or back to the projects
/// when the dock is hidden.
pub open spec fn advanced(app: App) -> App {
    if app.counters.show_stats {
        App { nav: Nav { dock_focus: Some(0), active_pane: Pane::StatsDock, ..app.nav }, ..app }
    } else {
        App { nav: Nav { active_pane: Pane::Projects, ..app.nav }, ..app }
    }
}

/// Back-tab out of the projects: into the stats dock's last entry, or to
/// the task list when the dock is hidden.
pub open spec fn retreated(app: App) -> App {
    if app.counters.show_stats {
        App {
            nav: Nav { dock_focus: Some((DOCK_ITEM_COUNT - 1) as usize), active_pane: Pane::StatsDock, ..app.nav },
            ..app
        }
    } else {
        App { nav: Nav { active_pane: Pane::Tasks, ..app.nav }, ..app }
    }
}

/// The state after the dock filter became `f` and focus went to `pane`,
/// with the task cursor kept in the list.
pub open spec fn refiltered(app: App, f: Option<DockItem>, pane: Pane, c: Clock) -> App {
    let mid = App { nav: Nav { dock_filter: f, dock_focus: None, active_pane: pane, ..app.nav }, ..app };
    App {
        nav: Nav { selected_task: clamp_min(app.nav.selected_task, visible_rows(mid, c).len()), ..mid.nav },
        ..mid
    }
}

/// What a key does with the stats dock focused.
#[verifier::opaque]
pub open spec fn dock_effect(old: App, new: App, key: KeyEvent, c: Clock, a: KeyAction) -> bool {
    let k = key.code;
    let focus = match old.nav.dock_focus {
        Some(f) => f,
        None => 0,
    };
    &&& a is Consumed
    &&& if is_char(k, 'l') || k == KeyCode::Right || k == KeyCode::Tab {
        new == if focus + 1 >= DOCK_ITEM_COUNT {
            App { nav: Nav { dock_focus: None, active_pane: Pane::Projects, ..old.nav }, ..old }
        } else {
            App { nav: Nav { dock_focus: Some((focus + 1) as usize), ..old.nav }, ..old }
        }
    } else if is_char(k, 'h') || k == KeyCode::Left || k == KeyCode::BackTab {
        new == if focus == 0 {
            App { nav: Nav { dock_focus: None, active_pane: Pane::Tasks, ..old.nav }, ..old }
        } else {
            App { nav: Nav { dock_focus: Some((focus - 1) as usize), ..old.nav }, ..old }
        }
    } else if is_char(k, 'j') || k == KeyCode::Down {
        new == App { nav: Nav { dock_focus: Some(((focus + 1) % 7) as usize), ..old.nav }, ..old }
    } else if is_char(k, 'k') || k == KeyCode::Up {
        new == App {
            nav: Nav { dock_focus: Some(if focus == 0 {
                6
            } else {
                (focus - 1) as usize
            }), ..old.nav },
            ..old
        }
    } else if k == KeyCode::Enter || is_char(k, ' ') {
        let item = dock_item_at(focus as int);
        new == refiltered(old, if old.nav.dock_filter == Some(item) {
            None
        } else {
            Some(item)
        }, Pane::Tasks, c)
    } else if k == KeyCode::Esc {
        new == refiltered(old, None, Pane::Projects, c)
    } else {
        new == old
    }
}

impl App {
    fn advance_into_stats_or_wrap(&mut self)
        ensures
            *final(self) == advanced(*old(self)),
    {
        if self.counters.show_stats {
            self.nav.dock_focus = Some(0);
            self.nav.active_pane = Pane::StatsDock;
        } else {
            self.nav.active_pane = Pane::Projects;
        }
    }

    fn retreat_into_stats_or_wrap(&mut self)
        ensures
            *final(self) == retreated(*old(self)),
    {
        if self.counters.show_stats {
            self.nav.dock_focus = Some(DOCK_ITEM_COUNT - 1);
            self.nav.active_pane = Pane::StatsDock;
        } else {
            self.nav.active_pane = Pane::Tasks;
        }
    }

    fn set_dock_filter(&mut self, f: Option<DockItem>, pane: Pane, c: &Clock)
        ensures
            *final(self) == refiltered(*old(self), f, pane, *c),
    {
        let sel = self.nav.selected_task;
        self.nav.dock_filter = f;
        self.nav.dock_focus = None;
        self.nav.active_pane = pane;
        let n = self.visible_tasks_on(c).len();
        self.nav.selected_task = if n == 0 {
            0
        } else if sel > n - 1 {
            n - 1
        } else {
            sel
        };
    }

    /// Keys with the stats dock focused: move along the entries, toggle the
    /// focused entry as the task filter, or leave the dock.
    pub fn handle_dock_nav(&mut self, key: KeyEvent, c: &Clock) -> (a: KeyAction)
        requires
            keys_ok(*old(self)),
        ensures
            dock_effect(*old(self), *final(self), key, *c, a),
    {
        proof {
            reveal(dock_effect);
        }
        let focus = match self.nav.dock_focus {
            Some(f) => f,
            None => 0,
        };
        match key.code {
            KeyCode::Char('l') | KeyCode::Right | KeyCode::Tab => {
                if focus + 1 >= DOCK_ITEM_COUNT {
                    self.nav.dock_focus = None;
                    self.nav.active_pane = Pane::Projects;
                } else {
                    self.nav.dock_focus = Some(focus + 1);
                }
            },
            KeyCode::Char('h') | KeyCode::Left | KeyCode::BackTab => {
                if focus == 0 {
                    self.nav.dock_focus = None;
                    self.nav.active_pane = Pane::Tasks;
                } else {
                    self.nav.dock_focus = Some(focus - 1);
                }
            },
            KeyCode::Char('j') | KeyCode::Down => {
                self.nav.dock_focus = Some((focus + 1) % DOCK_ITEM_COUNT);
            },
            KeyCode::Char('k') | KeyCode::Up => {
                self.nav.dock_focus = Some(
                    if focus == 0 {
                        DOCK_ITEM_COUNT - 1
                    } else {
                        focus - 1
                    },
                );
            },
            KeyCode::Enter | KeyCode::Char(' ') => {
                let item = dock_item(focus);
                let same = match self.nav.dock_filter {
                    Some(d) => d == item,
                    None => false,
                };
                let f = if same {
                    None
                } else {
                    Some(item)
                };
                self.set_dock_filter(f, Pane::Tasks, c);
            },
            KeyCode::Esc => {
                self.set_dock_filter(None, Pane::Projects, c);
            },
            _ => {},
        }
        KeyAction::Consumed
    }
}

} // verus!

verus! {

/// Whether sidebar row `it` is the one the cursor is on.
pub open spec fn item_current(app: App, it: ProjectNavItem) -> bool {
    let nofolder = app.nav.folder_cursor is None;
    match it {
        ProjectNavItem::Project(i) => app.views.active_count() == 0 && nofolder && i == app.nav.selected_project,
        ProjectNavItem::Folder(fi) => app.nav.folder_cursor == Some(fi),
        ProjectNavItem::AllView => app.views.all_view_active && nofolder,
        ProjectNavItem::TodayView => app.views.today_view_active && nofolder,
        ProjectNavItem::UpcomingView => app.views.upcoming_view_active && nofolder,
        ProjectNavItem::GithubPrsView(o) => opt_view(app.views.active_pr_org) == Some(o@) && nofolder,
        ProjectNavItem::JiraCardsView => app.views.jira_cards_view_active && nofolder,
        ProjectNavItem::AgendaView => app.views.agenda_view_active && nofolder,
    }
}

pub open spec fn first_current_at(app: App, nav: Seq<ProjectNavItem>, k: int) -> bool {
    0 <= k < nav.len() && item_current(app, nav[k]) && forall|j: int| 0 <= j < k ==> !item_current(app, #[trigger] nav[j])
}

/// Position of the cursor's row (the first matching one), or 0.
pub open spec fn current_pos(app: App, nav: Seq<ProjectNavItem>) -> int {
    if exists|k: int| first_current_at(app, nav, k) {
        choose|k: int| first_current_at(app, nav, k)
    } else {
        0
    }
}

/// What landing on sidebar row `it` does; `jump` marks the `g`/`G` form,
/// which reports a project change only when the project differs.
pub open spec fn land_on(old: App, new: App, it: ProjectNavItem, jump: bool, a: KeyAction) -> bool {
    let unfocus = App { nav: Nav { folder_cursor: None, ..old.nav }, ..old };
    match it {
        ProjectNavItem::Project(i) => new == (App { nav: Nav { folder_cursor: None, selected_project: i, ..old.nav }, ..old })
            && if jump && old.nav.selected_project == i {
            a is Consumed
        } else {
            a is ProjectChanged
        },
        ProjectNavItem::Folder(fi) => new == (App { nav: Nav { folder_cursor: Some(fi), ..old.nav }, ..old }) && a is Consumed,
        ProjectNavItem::AllView => new == unfocus && a is AllViewSelected,
        ProjectNavItem::TodayView => new == unfocus && a is TodayViewSelected,
        ProjectNavItem::UpcomingView => new == unfocus && a is UpcomingViewSelected,
        ProjectNavItem::GithubPrsView(o) => new == (App {
            views: pr_view(o),
            nav: Nav { folder_cursor: None, selected_pr: 0, ..old.nav },
            ..old
        }) && a is Consumed,
        ProjectNavItem::JiraCardsView => new == unfocus && a is JiraCardsViewSelected,
        ProjectNavItem::AgendaView => new == unfocus && a is AgendaViewSelected,
    }
}

/// The sidebar rows as the cursor sees them, for some listing of the
/// pull-request owners.
pub open spec fn nav_rows(app: App, owners: Seq<(String, usize)>) -> Seq<ProjectNavItem> {
    crate::projects::nav_items_of(crate::projects::project_entries(app, owners))
}

pub open spec fn owners_ok(app: App, owners: Seq<(String, usize)>) -> bool {
    crate::prs::owner_counts_ok(app.external.github_prs@, crate::app::str_set(app.external.hidden_pr_orgs@), owners)
}

/// Moving `delta` rows in the sidebar; past the bottom goes into the stats
/// dock when it is shown.
#[verifier::opaque]
pub open spec fn sidebar_move(old: App, new: App, delta: int, a: KeyAction) -> bool {
    exists|owners: Seq<(String, usize)>|
        #[trigger] owners_ok(old, owners) && {
            let nav = nav_rows(old, owners);
            let next = current_pos(old, nav) + delta;
            if nav.len() == 0 {
                new == old && a is Consumed
            } else if next >= nav.len() {
                a is Consumed && new == (if old.counters.show_stats {
                    App { nav: Nav { dock_focus: Some(0), active_pane: Pane::StatsDock, ..old.nav }, ..old }
                } else {
                    old
                })
            } else if next < 0 {
                new == old && a is Consumed
            } else {
                land_on(old, new, nav[next], false, a)
            }
        }
}

/// Jumping to the first (`top`) or last sidebar row.
#[verifier::opaque]
pub open spec fn sidebar_jump(old: App, new: App, top: bool, a: KeyAction) -> bool {
    exists|owners: Seq<(String, usize)>|
        #[trigger] owners_ok(old, owners) && {
            let nav = nav_rows(old, owners);
            if nav.len() == 0 {
                new == old && a is Consumed
            } else {
                land_on(old, new, if top {
                    nav[0]
                } else {
                    nav.last()
                }, true, a)
            }
        }
}

impl App {
    fn item_current_exec(&self, it: &ProjectNavItem) -> (r: bool)
        ensures
            r == item_current(*self, *it),
    {
        let nofolder = self.nav.folder_cursor.is_none();
        match it {
            ProjectNavItem::Project(i) => !self.on_virtual_view() && nofolder && *i == self.nav.selected_project,
            ProjectNavItem::Folder(fi) => match self.nav.folder_cursor {
                Some(f) => f == *fi,
                None => false,
            },
            ProjectNavItem::AllView => self.views.all_view_active && nofolder,
            ProjectNavItem::TodayView => self.views.today_view_active && nofolder,
            ProjectNavItem::UpcomingView => self.views.upcoming_view_active && nofolder,
            ProjectNavItem::GithubPrsView(o) => nofolder && match &self.views.active_pr_org {
                Some(a) => crate::text::str_eq(a.as_str(), o.as_str()),
                None => false,
            },
            ProjectNavItem::JiraCardsView => self.views.jira_cards_view_active && nofolder,
            ProjectNavItem::AgendaView => self.views.agenda_view_active && nofolder,
        }
    }

    fn land(&mut self, it: &ProjectNavItem, jump: bool) -> (a: KeyAction)
        ensures
            land_on(*old(self), *final(self), *it, jump, a),
    {
        match it {
            ProjectNavItem::Project(i) => {
                let same = self.nav.selected_project == *i;
                self.nav.folder_cursor = None;
                self.nav.selected_project = *i;
                if jump && same {
                    KeyAction::Consumed
                } else {
                    KeyAction::ProjectChanged
                }
            },
            ProjectNavItem::Folder(fi) => {
                self.nav.folder_cursor = Some(*fi);
                KeyAction::Consumed
            },
            ProjectNavItem::AllView => {
                self.nav.folder_cursor = None;
                KeyAction::AllViewSelected
            },
            ProjectNavItem::TodayView => {
                self.nav.folder_cursor = None;
                KeyAction::TodayViewSelected
            },
            ProjectNavItem::UpcomingView => {
                self.nav.folder_cursor = None;
                KeyAction::UpcomingViewSelected
            },
            ProjectNavItem::GithubPrsView(o) => {
                self.nav.folder_cursor = None;
                self.activate_github_prs_view(o.clone());
                KeyAction::Consumed
            },
            ProjectNavItem::JiraCardsView => {
                self.nav.folder_cursor = None;
                KeyAction::JiraCardsViewSelected
            },
            ProjectNavItem::AgendaView => {
                self.nav.folder_cursor = None;
                KeyAction::AgendaViewSelected
            },
        }
    }

    /// Moves the sidebar cursor by `delta` rows.
    pub fn move_in_sidebar(&mut self, delta: i32) -> (a: KeyAction)
        ensures
            sidebar_move(*old(self), *final(self), delta as int, a),
    {
        let nav = self.visible_nav_items();
        let ghost owners = choose|owners: Seq<(String, usize)>|
            crate::prs::owner_counts_ok(
                self.external.github_prs@,
                crate::app::str_set(self.external.hidden_pr_orgs@),
                owners,
            ) && nav@ == crate::projects::nav_items_of(crate::projects::project_entries(*self, owners));
        proof {
            reveal(sidebar_move);
        }
        if nav.len() == 0 {
            assert(owners_ok(*old(self), owners));
            return KeyAction::Consumed;
        }
        let mut k: usize = 0;
        while k < nav.len() && !self.item_current_exec(&nav[k])
            invariant
                k <= nav.len(),
                forall|j: int| 0 <= j < k ==> !item_current(*self, #[trigger] nav@[j]),
            decreases nav.len() - k,
        {
            k += 1;
        }
        let pos: usize = if k < nav.len() {
            k
        } else {
            0
        };
        proof {
            if exists|q: int| first_current_at(*self, nav@, q) {
                let q = choose|q: int| first_current_at(*self, nav@, q);
                if q < k {
                    assert(!item_current(*self, nav@[q]));
                } else if q > k {
                    assert(item_current(*self, nav@[k as int]));
                }
                assert(q == k);
            } else {
                if k < nav.len() {
                    assert(first_current_at(*self, nav@, k as int));
                }
            }
            assert(pos == current_pos(*self, nav@));
        }
        let next: i128 = pos as i128 + delta as i128;
        if next >= nav.len() as i128 {
            if self.counters.show_stats {
                self.nav.dock_focus = Some(0);
                self.nav.active_pane = Pane::StatsDock;
            }
            assert(owners_ok(*old(self), owners));
            return KeyAction::Consumed;
        }
        if next < 0 {
            assert(owners_ok(*old(self), owners));
            return KeyAction::Consumed;
        }
        let a = self.land(&nav[next as usize], false);
        assert(owners_ok(*old(self), owners));
        a
    }

    /// Moves the sidebar cursor to its first (`top`) or last row.
    pub fn jump_in_sidebar(&mut self, top: bool) -> (a: KeyAction)
        ensures
            sidebar_jump(*old(self), *final(self), top, a),
    {
        let nav = self.visible_nav_items();
        let ghost owners = choose|owners: Seq<(String, usize)>|
            crate::prs::owner_counts_ok(
                self.external.github_prs@,
                crate::app::str_set(self.external.hidden_pr_orgs@),
                owners,
            ) && nav@ == crate::projects::nav_items_of(crate::projects::project_entries(*self, owners));
        proof {
            reveal(sidebar_jump);
        }
        assert(owners_ok(*old(self), owners));
        if nav.len() == 0 {
            return KeyAction::Consumed;
        }
        let idx = if top {
            0
        } else {
            nav.len() - 1
        };
        self.land(&nav[idx], true)
    }
}

} // verus!

verus! {

/// Skips rows shown only as context (Done filter), trying at most `k`
/// more rows.
pub open spec fn skip_context(app: App, rows: Seq<TaskRow>, next: int, delta: int, k: nat) -> int
    decreases k,
{
    if k == 0 {
        next
    } else if !(row_task_spec(app, rows[next]) matches Some(t) && context_task(app, t)) {
        next
    } else {
        skip_context(app, rows, step_mod(next, delta, rows.len() as int), delta, (k - 1) as nat)
    }
}

/// The pull requests of the owner being viewed.
pub open spec fn org_prs(app: App) -> Seq<crate::model::PullRequest> {
    match app.views.active_pr_org {
        Some(org) => app.external.github_prs@.filter(
            |p: crate::model::PullRequest| crate::prs::in_org(p.repo_full_name@, org@),
        ),
        None => Seq::empty(),
    }
}

/// Moving `delta` rows in the task pane of whatever view is shown,
/// wrapping; the project outline skips context rows.
#[verifier::opaque]
pub open spec fn tasks_move(old: App, new: App, delta: int, c: Clock, a: KeyAction) -> bool {
    let nv = old.nav;
    &&& a is Consumed
    &&& if old.views.all_view_active {
        let n = all_items(old, c).len();
        new == if n == 0 {
            old
        } else {
            App { nav: Nav { selected_all_item: step_mod(nv.selected_all_item as int, delta, n as int) as usize, ..nv }, ..old }
        }
    } else if old.views.jira_cards_view_active {
        let n = old.external.jira_cards@.len();
        new == if n == 0 {
            old
        } else {
            App { nav: Nav { selected_jira_card: step_mod(nv.selected_jira_card as int, delta, n as int) as usize, ..nv }, ..old }
        }
    } else if old.views.agenda_view_active {
        let n = old.external.agenda_events@.len();
        new == if n == 0 {
            old
        } else {
            App { nav: Nav { selected_agenda_item: step_mod(nv.selected_agenda_item as int, delta, n as int) as usize, ..nv }, ..old }
        }
    } else if old.views.active_pr_org is Some {
        let n = org_prs(old).len();
        new == if n == 0 {
            old
        } else {
            App { nav: Nav { selected_pr: step_mod(nv.selected_pr as int, delta, n as int) as usize, ..nv }, ..old }
        }
    } else {
        let rows = visible_rows(old, c);
        let n = rows.len();
        new == if n == 0 {
            old
        } else {
            App {
                nav: Nav {
                    selected_task: skip_context(old, rows, step_mod(nv.selected_task as int, delta, n as int), delta, n)
                        as usize,
                    ..nv
                },
                ..old
            }
        }
    }
}

impl App {
    fn skip_context_rows(&self, rows: &Vec<TaskRow>, start: usize, delta: i32) -> (r: usize)
        requires
            rows.len() > 0,
            start < rows.len(),
        ensures
            r == skip_context(*self, rows@, start as int, delta as int, rows@.len()),
            r < rows.len(),
    {
        let n = rows.len();
        let mut next = start;
        let mut k: usize = n;
        while k > 0
            invariant
                n == rows.len(),
                n > 0,
                next < n,
                k <= n,
                skip_context(*self, rows@, start as int, delta as int, n as nat) == skip_context(
                    *self,
                    rows@,
                    next as int,
                    delta as int,
                    k as nat,
                ),
            decreases k,
        {
            let ctx = match self.row_task(rows[next]) {
                Some(t) => self.is_context_task(t),
                None => false,
            };
            if !ctx {
                return next;
            }
            next = wrap_step(next, delta, n);
            k -= 1;
        }
        next
    }

    fn move_in_tasks(&mut self, delta: i32, c: &Clock) -> (a: KeyAction)
        ensures
            tasks_move(*old(self), *final(self), delta as int, *c, a),
    {
        proof {
            reveal(tasks_move);
        }
        if self.views.all_view_active {
            let n = self.all_view_items_on(c).len();
            if n > 0 {
                self.nav.selected_all_item = wrap_step(self.nav.selected_all_item, delta, n);
            }
            return KeyAction::Consumed;
        }
        if self.views.jira_cards_view_active {
            let n = self.external.jira_cards.len();
            if n > 0 {
                self.nav.selected_jira_card = wrap_step(self.nav.selected_jira_card, delta, n);
            }
            return KeyAction::Consumed;
        }
        if self.views.agenda_view_active {
            let n = self.external.agenda_events.len();
            if n > 0 {
                self.nav.selected_agenda_item = wrap_step(self.nav.selected_agenda_item, delta, n);
            }
            return KeyAction::Consumed;
        }
        if self.views.active_pr_org.is_some() {
            let n = self.active_org_prs().len();
            assert(n == org_prs(*self).len());
            if n > 0 {
                self.nav.selected_pr = wrap_step(self.nav.selected_pr, delta, n);
            }
            return KeyAction::Consumed;
        }
        let rows = self.visible_tasks_on(c);
        let n = rows.len();
        if n == 0 {
            return KeyAction::Consumed;
        }
        let start = wrap_step(self.nav.selected_task, delta, n);
        let next = self.skip_context_rows(&rows, start, delta);
        self.nav.selected_task = next;
        KeyAction::Consumed
    }

    /// `j`/`k` (or arrows): moves the cursor in the focused pane.
    pub fn move_in_pane(&mut self, delta: i32, c: &Clock) -> (a: KeyAction)
        ensures
            old(self).nav.active_pane == Pane::Projects ==> sidebar_move(*old(self), *final(self), delta as int, a),
            old(self).nav.active_pane == Pane::Tasks ==> tasks_move(*old(self), *final(self), delta as int, *c, a),
            old(self).nav.active_pane != Pane::Projects && old(self).nav.active_pane != Pane::Tasks ==> *final(self)
                == *old(self) && a is Consumed,
    {
        match self.nav.active_pane {
            Pane::Projects => self.move_in_sidebar(delta),
            Pane::Tasks => self.move_in_tasks(delta, c),
            _ => KeyAction::Consumed,
        }
    }

    /// `g`/`G` (or Home/End): to the first or last row of the focused pane.
    pub fn jump_to_edge(&mut self, top: bool, c: &Clock) -> (a: KeyAction)
        ensures
            old(self).nav.active_pane == Pane::Projects ==> sidebar_jump(*old(self), *final(self), top, a),
            old(self).nav.active_pane == Pane::Tasks ==> a is Consumed && *final(self) == (App {
                nav: Nav {
                    selected_task: if top || visible_rows(*old(self), *c).len() == 0 {
                        0
                    } else {
                        (visible_rows(*old(self), *c).len() - 1) as usize
                    },
                    ..old(self).nav
                },
                ..*old(self)
            }),
            old(self).nav.active_pane != Pane::Projects && old(self).nav.active_pane != Pane::Tasks ==> *final(self)
                == *old(self) && a is Consumed,
    {
        match self.nav.active_pane {
            Pane::Projects => self.jump_in_sidebar(top),
            Pane::Tasks => {
                let n = self.visible_tasks_on(c).len();
                self.nav.selected_task = if top || n == 0 {
                    0
                } else {
                    n - 1
                };
                KeyAction::Consumed
            },
            _ => KeyAction::Consumed,
        }
    }
}

} // verus!

verus! {

/// Enter outside the input line: from the sidebar into the task list; on
/// a task list, open what is under the cursor.
#[verifier::opaque]
pub open spec fn enter_effect(old: App, new: App, c: Clock, a: KeyAction) -> bool {
    match old.nav.active_pane {
        Pane::Projects => new == (App { nav: Nav { active_pane: Pane::Tasks, ..old.nav }, ..old }) && a is Consumed,
        Pane::Tasks => if old.views.all_view_active {
            let items = all_items(old, c);
            let s = old.nav.selected_all_item;
            if s < items.len() {
                match items[s as int] {
                    AllViewItem::Task(i) => new == old && if i < old.data.tasks@.len() {
                        a matches KeyAction::OpenDetailById(id) && id == old.data.tasks@[i as int].id
                    } else {
                        a is Consumed
                    },
                    AllViewItem::PullRequest(i) => new == (App { nav: Nav { selected_pr: i, ..old.nav }, ..old })
                        && a is OpenSelectedPrInBrowser,
                    AllViewItem::JiraCard(i) => new == (App { nav: Nav { selected_jira_card: i, ..old.nav }, ..old })
                        && a is OpenSelectedJiraCardInBrowser,
                    AllViewItem::AgendaEvent(i) => new == (App { nav: Nav { selected_agenda_item: i, ..old.nav }, ..old })
                        && a is OpenSelectedAgendaEventInBrowser,
                }
            } else {
                new == old && a is Consumed
            }
        } else if old.views.active_pr_org is Some {
            new == old && a is OpenSelectedPrInBrowser
        } else if old.views.jira_cards_view_active {
            new == old && a is OpenSelectedJiraCardInBrowser
        } else if old.views.agenda_view_active {
            new == old && a is OpenSelectedAgendaEventInBrowser
        } else {
            new == old && a is OpenDetail
        },
        _ => new == old && a is Consumed,
    }
}

/// Esc outside the input line: on the task list, drop the dock filter
/// (keeping the cursor in the list) or go back to the sidebar.
#[verifier::opaque]
pub open spec fn esc_effect(old: App, new: App, c: Clock, a: KeyAction) -> bool {
    if old.nav.active_pane == Pane::Tasks {
        &&& a is Consumed
        &&& if old.nav.dock_filter is Some {
            let mid = App { nav: Nav { dock_filter: None, ..old.nav }, ..old };
            new == (App {
                nav: Nav { selected_task: clamp_min(old.nav.selected_task, visible_rows(mid, c).len()), ..mid.nav },
                ..mid
            })
        } else {
            new == (App { nav: Nav { active_pane: Pane::Projects, ..old.nav }, ..old })
        }
    } else {
        new == old && a is Nothing
    }
}

/// Right / Tab outside the input line.
pub open spec fn forward_effect(old: App) -> App {
    match old.nav.active_pane {
        Pane::Projects => App { nav: Nav { active_pane: Pane::Tasks, ..old.nav }, ..old },
        Pane::Tasks => advanced(old),
        _ => old,
    }
}

/// Left / BackTab outside the input line.
pub open spec fn backward_effect(old: App) -> App {
    match old.nav.active_pane {
        Pane::Tasks => App { nav: Nav { active_pane: Pane::Projects, ..old.nav }, ..old },
        Pane::Projects => retreated(old),
        _ => old,
    }
}

impl App {
    fn enter_key(&mut self, c: &Clock) -> (a: KeyAction)
        ensures
            enter_effect(*old(self), *final(self), *c, a),
    {
        proof {
            reveal(enter_effect);
        }
        match self.nav.active_pane {
            Pane::Projects => {
                self.nav.active_pane = Pane::Tasks;
                KeyAction::Consumed
            },
            Pane::Tasks => {
                if self.views.all_view_active {
                    let items = self.all_view_items_on(c);
                    let s = self.nav.selected_all_item;
                    if s >= items.len() {
                        return KeyAction::Consumed;
                    }
                    match items[s] {
                        AllViewItem::Task(i) => if i < self.data.tasks.len() {
                            KeyAction::OpenDetailById(self.data.tasks[i].id.clone())
                        } else {
                            KeyAction::Consumed
                        },
                        AllViewItem::PullRequest(i) => {
                            self.nav.selected_pr = i;
                            KeyAction::OpenSelectedPrInBrowser
                        },
                        AllViewItem::JiraCard(i) => {
                            self.nav.selected_jira_card = i;
                            KeyAction::OpenSelectedJiraCardInBrowser
                        },
                        AllViewItem::AgendaEvent(i) => {
                            self.nav.selected_agenda_item = i;
                            KeyAction::OpenSelectedAgendaEventInBrowser
                        },
                    }
                } else if self.views.active_pr_org.is_some() {
                    KeyAction::OpenSelectedPrInBrowser
                } else if self.views.jira_cards_view_active {
                    KeyAction::OpenSelectedJiraCardInBrowser
                } else if self.views.agenda_view_active {
                    KeyAction::OpenSelectedAgendaEventInBrowser
                } else {
                    KeyAction::OpenDetail
                }
            },
            _ => KeyAction::Consumed,
        }
    }

    fn esc_key(&mut self, c: &Clock) -> (a: KeyAction)
        ensures
            esc_effect(*old(self), *final(self), *c, a),
    {
        proof {
            reveal(esc_effect);
        }
        if self.nav.active_pane == Pane::Tasks {
            if self.nav.dock_filter.is_some() {
                let sel = self.nav.selected_task;
                self.nav.dock_filter = None;
                let n = self.visible_tasks_on(c).len();
                self.nav.selected_task = if n == 0 {
                    0
                } else if sel > n - 1 {
                    n - 1
                } else {
                    sel
                };
            } else {
                self.nav.active_pane = Pane::Projects;
            }
            KeyAction::Consumed
        } else {
            KeyAction::Nothing
        }
    }

    fn forward_key(&mut self) -> (a: KeyAction)
        ensures
            *final(self) == forward_effect(*old(self)),
            a is Consumed,
    {
        match self.nav.active_pane {
            Pane::Projects => {
                self.nav.active_pane = Pane::Tasks;
            },
            Pane::Tasks => self.advance_into_stats_or_wrap(),
            _ => {},
        }
        KeyAction::Consumed
    }

    fn backward_key(&mut self) -> (a: KeyAction)
        ensures
            *final(self) == backward_effect(*old(self)),
            a is Consumed,
    {
        match self.nav.active_pane {
            Pane::Tasks => {
                self.nav.active_pane = Pane::Projects;
            },
            Pane::Projects => self.retreat_into_stats_or_wrap(),
            _ => {},
        }
        KeyAction::Consumed
    }
}

} // verus!

verus! {

/// The task the All-view cursor is on, when it is on a task.
pub open spec fn all_view_task(app: App, c: Clock) -> Option<usize> {
    let items = all_items(app, c);
    let s = app.nav.selected_all_item;
    if s < items.len() {
        match items[s as int] {
            AllViewItem::Task(i) => Some(i),
            _ => None,
        }
    } else {
        None
    }
}

/// What a key does in Vim normal mode.
#[verifier::opaque]
pub open spec fn vim_normal_effect(old: App, new: App, key: KeyEvent, c: Clock, a: KeyAction) -> bool {
    let k = key.code;
    let tasks = old.nav.active_pane == Pane::Tasks;
    let projects = old.nav.active_pane == Pane::Projects;
    let v = old.views;
    if old.input.pending_z {
        &&& new == (App { input: Input { pending_z: false, ..old.input }, ..old })
        &&& if is_char(k, 'a') && tasks {
            a is ToggleCollapse
        } else if is_char(k, 'R') {
            a is OpenAllFolds
        } else if is_char(k, 'M') {
            a is CloseAllFolds
        } else {
            a is Consumed
        }
    } else if is_char(k, 'q') {
        new == old && a is Quit
    } else if is_char(k, '?') {
        new == old && a is ToggleHelp
    } else if is_char(k, ',') {
        new == old && a is ToggleSettings
    } else if is_char(k, 'z') {
        new == (App { input: Input { pending_z: true, ..old.input }, ..old }) && a is Consumed
    } else if is_char(k, 'p') {
        new == old && a is TogglePomodoro
    } else if is_char(k, 'x') && tasks && v.all_view_active {
        new == old && match all_view_task(old, c) {
            Some(i) => if i < old.data.tasks@.len() {
                a matches KeyAction::CompleteTaskById(id) && id == old.data.tasks@[i as int].id
            } else {
                a is Consumed
            },
            None => a is Consumed,
        }
    } else if is_char(k, 'x') && tasks {
        new == old && a is CompleteTask
    } else if is_char(k, 'a') && tasks {
        new == old && a is StartInput
    } else if is_char(k, 'f') && tasks {
        new == old && a is CycleFilter
    } else if is_char(k, 'o') && tasks {
        new == old && a is CycleSort
    } else if is_char(k, 'r') && tasks && v.all_view_active {
        new == old && a is RefreshAllSources
    } else if is_char(k, 'r') && tasks && v.active_pr_org is Some {
        new == old && a is RefreshGithubPrs
    } else if is_char(k, 'r') && tasks && v.jira_cards_view_active {
        new == old && a is RefreshJiraCards
    } else if is_char(k, 'r') && tasks && v.agenda_view_active {
        new == old && a is RefreshAgenda
    } else if is_char(k, 's') && projects {
        new == old && a is StarProject
    } else if is_char(k, 'j') || k == KeyCode::Down {
        pane_move(old, new, 1, c, a)
    } else if is_char(k, 'k') || k == KeyCode::Up {
        pane_move(old, new, -1, c, a)
    } else if is_char(k, 'g') {
        pane_jump(old, new, true, c, a)
    } else if is_char(k, 'G') {
        pane_jump(old, new, false, c, a)
    } else if is_char(k, 'l') || k == KeyCode::Right || k == KeyCode::Tab {
        new == forward_effect(old) && a is Consumed
    } else if is_char(k, 'h') && projects && v.active_pr_org is Some {
        crate::prs::hide_effect(old, new, v.active_pr_org->0@) && a is Consumed
    } else if is_char(k, 'h') || k == KeyCode::Left || k == KeyCode::BackTab {
        new == backward_effect(old) && a is Consumed
    } else if k == KeyCode::Enter {
        enter_effect(old, new, c, a)
    } else if is_char(k, ' ') && tasks && v.today_view_active {
        new == old && a is ToggleOverdueSection
    } else if is_char(k, ' ') && tasks {
        new == old && a is ToggleCollapse
    } else if is_char(k, ' ') && projects {
        new == old && a is ToggleFolderCollapse
    } else if k == KeyCode::Esc {
        esc_effect(old, new, c, a)
    } else {
        new == old && a is Nothing
    }
}

/// What `move_in_pane` does.
pub open spec fn pane_move(old: App, new: App, delta: int, c: Clock, a: KeyAction) -> bool {
    if old.nav.active_pane == Pane::Projects {
        sidebar_move(old, new, delta, a)
    } else if old.nav.active_pane == Pane::Tasks {
        tasks_move(old, new, delta, c, a)
    } else {
        new == old && a is Consumed
    }
}

/// What `jump_to_edge` does.
pub open spec fn pane_jump(old: App, new: App, top: bool, c: Clock, a: KeyAction) -> bool {
    if old.nav.active_pane == Pane::Projects {
        sidebar_jump(old, new, top, a)
    } else if old.nav.active_pane == Pane::Tasks {
        a is Consumed && new == (App {
            nav: Nav {
                selected_task: if top || visible_rows(old, c).len() == 0 {
                    0
                } else {
                    (visible_rows(old, c).len() - 1) as usize
                },
                ..old.nav
            },
            ..old
        })
    } else {
        new == old && a is Consumed
    }
}

impl App {
    fn all_view_task_exec(&self, c: &Clock) -> (r: Option<usize>)
        ensures
            r == all_view_task(*self, *c),
    {
        let items = self.all_view_items_on(c);
        let s = self.nav.selected_all_item;
        if s < items.len() {
            match items[s] {
                AllViewItem::Task(i) => Some(i),
                _ => None,
            }
        } else {
            None
        }
    }

    /// Keys in Vim normal mode.
    pub fn handle_vim_normal(&mut self, key: KeyEvent, c: &Clock) -> (a: KeyAction)
        ensures
            vim_normal_effect(*old(self), *final(self), key, *c, a),
    {
        proof {
            reveal(vim_normal_effect);
        }
        let k = key.code;
        let tasks = self.nav.active_pane == Pane::Tasks;
        let projects = self.nav.active_pane == Pane::Projects;
        if self.input.pending_z {
            self.input.pending_z = false;
            return if k == KeyCode::Char('a') && tasks {
                KeyAction::ToggleCollapse
            } else if k == KeyCode::Char('R') {
                KeyAction::OpenAllFolds
            } else if k == KeyCode::Char('M') {
                KeyAction::CloseAllFolds
            } else {
                KeyAction::Consumed
            };
        }
        if k == KeyCode::Char('q') {
            KeyAction::Quit
        } else if k == KeyCode::Char('?') {
            KeyAction::ToggleHelp
        } else if k == KeyCode::Char(',') {
            KeyAction::ToggleSettings
        } else if k == KeyCode::Char('z') {
            self.input.pending_z = true;
            KeyAction::Consumed
        } else if k == KeyCode::Char('p') {
            KeyAction::TogglePomodoro
        } else if k == KeyCode::Char('x') && tasks && self.views.all_view_active {
            match self.all_view_task_exec(c) {
                Some(i) => if i < self.data.tasks.len() {
                    KeyAction::CompleteTaskById(self.data.tasks[i].id.clone())
                } else {
                    KeyAction::Consumed
                },
                None => KeyAction::Consumed,
            }
        } else if k == KeyCode::Char('x') && tasks {
            KeyAction::CompleteTask
        } else if k == KeyCode::Char('a') && tasks {
            KeyAction::StartInput
        } else if k == KeyCode::Char('f') && tasks {
            KeyAction::CycleFilter
        } else if k == KeyCode::Char('o') && tasks {
            KeyAction::CycleSort
        } else if k == KeyCode::Char('r') && tasks && self.views.all_view_active {
            KeyAction::RefreshAllSources
        } else if k == KeyCode::Char('r') && tasks && self.views.active_pr_org.is_some() {
            KeyAction::RefreshGithubPrs
        } else if k == KeyCode::Char('r') && tasks && self.views.jira_cards_view_active {
            KeyAction::RefreshJiraCards
        } else if k == KeyCode::Char('r') && tasks && self.views.agenda_view_active {
            KeyAction::RefreshAgenda
        } else if k == KeyCode::Char('s') && projects {
            KeyAction::StarProject
        } else if k == KeyCode::Char('j') || k == KeyCode::Down {
            self.move_in_pane(1, c)
        } else if k == KeyCode::Char('k') || k == KeyCode::Up {
            self.move_in_pane(-1, c)
        } else if k == KeyCode::Char('g') {
            self.jump_to_edge(true, c)
        } else if k == KeyCode::Char('G') {
            self.jump_to_edge(false, c)
        } else if k == KeyCode::Char('l') || k == KeyCode::Right || k == KeyCode::Tab {
            self.forward_key()
        } else if k == KeyCode::Char('h') && projects && self.views.active_pr_org.is_some() {
            let owner = match &self.views.active_pr_org {
                Some(o) => o.clone(),
                None => String::new(),
            };
            self.hide_pr_org(owner);
            KeyAction::Consumed
        } else if k == KeyCode::Char('h') || k == KeyCode::Left || k == KeyCode::BackTab {
            self.backward_key()
        } else if k == KeyCode::Enter {
            self.enter_key(c)
        } else if k == KeyCode::Char(' ') && tasks && self.views.today_view_active {
            KeyAction::ToggleOverdueSection
        } else if k == KeyCode::Char(' ') && tasks {
            KeyAction::ToggleCollapse
        } else if k == KeyCode::Char(' ') && projects {
            KeyAction::ToggleFolderCollapse
        } else if k == KeyCode::Esc {
            self.esc_key(c)
        } else {
            KeyAction::Nothing
        }
    }
}

} // verus!

verus! {

/// What a key does in the standard (non-Vim) scheme.
#[verifier::opaque]
pub open spec fn standard_effect(old: App, new: App, key: KeyEvent, c: Clock, a: KeyAction) -> bool {
    let k = key.code;
    let tasks = old.nav.active_pane == Pane::Tasks;
    if key.control {
        if is_char(k, 'a') && tasks {
            new == old && a is StartInput
        } else if is_char(k, 'x') && tasks && old.views.all_view_active {
            new == old && match all_view_task(old, c) {
                Some(i) => if i < old.data.tasks@.len() {
                    a matches KeyAction::CompleteTaskById(id) && id == old.data.tasks@[i as int].id
                } else {
                    a is Consumed
                },
                None => a is Consumed,
            }
        } else if is_char(k, 'x') && tasks {
            new == old && a is CompleteTask
        } else {
            new == old && a is Nothing
        }
    } else if is_char(k, 'q') {
        new == old && a is Quit
    } else if is_char(k, '?') {
        new == old && a is ToggleHelp
    } else if is_char(k, ',') {
        new == old && a is ToggleSettings
    } else if is_char(k, 'f') && tasks {
        new == old && a is CycleFilter
    } else if is_char(k, 'p') {
        new == old && a is TogglePomodoro
    } else if k == KeyCode::Down {
        pane_move(old, new, 1, c, a)
    } else if k == KeyCode::Up {
        pane_move(old, new, -1, c, a)
    } else if k == KeyCode::Home {
        pane_jump(old, new, true, c, a)
    } else if k == KeyCode::End {
        pane_jump(old, new, false, c, a)
    } else if k == KeyCode::Right || k == KeyCode::Tab {
        new == forward_effect(old) && a is Consumed
    } else if k == KeyCode::Left || k == KeyCode::BackTab {
        new == backward_effect(old) && a is Consumed
    } else if k == KeyCode::Enter {
        enter_effect(old, new, c, a)
    } else if k == KeyCode::Esc {
        esc_effect(old, new, c, a)
    } else {
        new == old && a is Nothing
    }
}

/// Which handler a key goes to.
#[verifier::opaque]
pub open spec fn key_effect(old: App, new: App, key: KeyEvent, c: Clock, a: KeyAction) -> bool {
    let k = key.code;
    let i = old.input;
    if key.control && is_char(k, 'c') {
        new == old && a is Quit
    } else if i.show_help {
        new == old && if is_char(k, '?') || k == KeyCode::Esc || is_char(k, 'q') {
            a is ToggleHelp
        } else {
            a is Consumed
        }
    } else if i.show_priority_picker {
        picker_effect(old, new, key, a)
    } else if i.task_form is Some && i.task_form->0.editing {
        input_effect(old, new, key, a)
    } else if i.task_form is Some {
        form_nav_effect(old, new, key, a)
    } else if i.show_input {
        input_effect(old, new, key, a)
    } else if i.show_theme_picker {
        theme_effect(old, new, key, a)
    } else if old.nav.active_pane == Pane::Settings {
        settings_effect(old, new, key, a)
    } else if old.nav.active_pane == Pane::Detail {
        new == old && detail_effect(key, a)
    } else if old.nav.dock_focus is Some {
        dock_effect(old, new, key, c, a)
    } else {
        match i.input_mode {
            InputMode::Vim(VimState::Normal) => vim_normal_effect(old, new, key, c, a),
            InputMode::Vim(VimState::Visual) => new == old && if k == KeyCode::Esc {
                a is Consumed
            } else {
                a is Nothing
            },
            InputMode::Vim(VimState::Insert) => new == old && if k == KeyCode::Esc {
                a is CancelInput
            } else if k == KeyCode::Enter {
                a is SubmitInput
            } else {
                a is Consumed
            },
            InputMode::Standard => standard_effect(old, new, key, c, a),
        }
    }
}

} // verus!

verus! {

impl App {
    /// Keys in the standard (non-Vim) scheme.
    pub fn handle_standard(&mut self, key: KeyEvent, c: &Clock) -> (a: KeyAction)
        ensures
            standard_effect(*old(self), *final(self), key, *c, a),
    {
        proof {
            reveal(standard_effect);
        }
        let k = key.code;
        let tasks = self.nav.active_pane == Pane::Tasks;
        if key.control {
            return if k == KeyCode::Char('a') && tasks {
                KeyAction::StartInput
            } else if k == KeyCode::Char('x') && tasks && self.views.all_view_active {
                match self.all_view_task_exec(c) {
                    Some(i) => if i < self.data.tasks.len() {
                        KeyAction::CompleteTaskById(self.data.tasks[i].id.clone())
                    } else {
                        KeyAction::Consumed
                    },
                    None => KeyAction::Consumed,
                }
            } else if k == KeyCode::Char('x') && tasks {
                KeyAction::CompleteTask
            } else {
                KeyAction::Nothing
            };
        }
        if k == KeyCode::Char('q') {
            KeyAction::Quit
        } else if k == KeyCode::Char('?') {
            KeyAction::ToggleHelp
        } else if k == KeyCode::Char(',') {
            KeyAction::ToggleSettings
        } else if k == KeyCode::Char('f') && tasks {
            KeyAction::CycleFilter
        } else if k == KeyCode::Char('p') {
            KeyAction::TogglePomodoro
        } else if k == KeyCode::Down {
            self.move_in_pane(1, c)
        } else if k == KeyCode::Up {
            self.move_in_pane(-1, c)
        } else if k == KeyCode::Home {
            self.jump_to_edge(true, c)
        } else if k == KeyCode::End {
            self.jump_to_edge(false, c)
        } else if k == KeyCode::Right || k == KeyCode::Tab {
            self.forward_key()
        } else if k == KeyCode::Left || k == KeyCode::BackTab {
            self.backward_key()
        } else if k == KeyCode::Enter {
            self.enter_key(c)
        } else if k == KeyCode::Esc {
            self.esc_key(c)
        } else {
            KeyAction::Nothing
        }
    }

    /// Routes a key to the handler of whatever has focus, on clock `c`.
    pub fn handle_key_on(&mut self, key: KeyEvent, c: &Clock) -> (a: KeyAction)
        requires
            keys_ok(*old(self)),
        ensures
            key_effect(*old(self), *final(self), key, *c, a),
    {
        proof {
            reveal(key_effect);
        }
        if key.control && key.code == KeyCode::Char('c') {
            return KeyAction::Quit;
        }
        if self.input.show_help {
            return match key.code {
                KeyCode::Char('?') | KeyCode::Esc | KeyCode::Char('q') => KeyAction::ToggleHelp,
                _ => KeyAction::Consumed,
            };
        }
        if self.input.show_priority_picker {
            return self.handle_priority_picker(key);
        }
        let form = match &self.input.task_form {
            Some(f) => Some(f.editing),
            None => None,
        };
        match form {
            Some(true) => return self.handle_input(key),
            Some(false) => return self.handle_form_nav(key),
            None => {},
        }
        if self.input.show_input {
            return self.handle_input(key);
        }
        if self.input.show_theme_picker {
            return self.handle_theme_picker(key);
        }
        if self.nav.active_pane == Pane::Settings {
            return self.handle_settings(key);
        }
        if self.nav.active_pane == Pane::Detail {
            return handle_detail(key);
        }
        if self.nav.dock_focus.is_some() {
            return self.handle_dock_nav(key, c);
        }
        match self.input.input_mode {
            InputMode::Vim(VimState::Normal) => self.handle_vim_normal(key, c),
            InputMode::Vim(VimState::Visual) => handle_vim_visual(key),
            InputMode::Vim(VimState::Insert) => handle_vim_insert(key),
            InputMode::Standard => self.handle_standard(key, c),
        }
    }

    /// Routes a key to the handler of whatever has focus, now.
    pub fn handle_key(&mut self, key: KeyEvent) -> (a: KeyAction)
        requires
            keys_ok(*old(self)),
        ensures
            exists|c: Clock| crate::tasks::clock_ok(c) && #[trigger] key_effect(*old(self), *final(self), key, c, a),
    {
        let c = crate::tasks::read_clock();
        let a = self.handle_key_on(key, &c);
        assert(key_effect(*old(self), *self, key, c, a));
        a
    }
}

} // verus!
