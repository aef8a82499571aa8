//! Carrying out the action a key press asked for: the state change it
//! makes and the outside work (fetches, browser, settings file) the event
//! loop is to start for it.
use vstd::prelude::*;

use crate::app::{opt_view, sort_mode_next, App, Input, Nav, Pane, TaskForm};
use crate::edit::{selected_task_spec, Moment};
use crate::keys::{key_effect, keys_ok, KeyAction, KeyEvent};

verus! {

/// Outside work that an action asks for.
pub struct Work {
    pub github_prs: bool,
    pub jira_cards: bool,
    pub agenda: bool,
    /// Pull request address to open in the browser.
    pub open_pr: Option<String>,
    /// Jira card key to open in the browser.
    pub open_jira_card: Option<String>,
    /// Calendar event link to open in the browser.
    pub open_event: Option<String>,
    /// Fetch the comments of the given task under the given sequence number.
    pub fetch_comments: Option<(String, u64)>,
    /// Fetch the completed tasks of this project.
    pub fetch_completed: Option<String>,
    /// Persist the UI settings.
    pub save_settings: bool,
}

/// Work made of fetch starts only.
pub open spec fn fetches_only(w: Work, pr: bool, jr: bool, ag: bool) -> bool {
    &&& w.github_prs == pr && w.jira_cards == jr && w.agenda == ag
    &&& w.open_pr is None && w.open_jira_card is None && w.open_event is None
    &&& w.fetch_comments is None && w.fetch_completed is None && !w.save_settings
}

/// No outside work.
pub open spec fn no_work(w: Work) -> bool {
    fetches_only(w, false, false, false)
}

/// Work that only opens something in the browser or fetches comments or
/// completed tasks, as `open_pr`, `open_jira_card`, `open_event`,
/// `comments`, `completed` say.
pub open spec fn other_work(
    w: Work,
    open_pr: Option<Seq<char>>,
    open_jira_card: Option<Seq<char>>,
    open_event: Option<Seq<char>>,
    comments: Option<(Seq<char>, u64)>,
    completed: Option<Seq<char>>,
    save: bool,
) -> bool {
    &&& !w.github_prs && !w.jira_cards && !w.agenda
    &&& opt_view(w.open_pr) == open_pr && opt_view(w.open_jira_card) == open_jira_card
    &&& opt_view(w.open_event) == open_event
    &&& crate::events::fetch_view(w.fetch_comments) == comments
    &&& opt_view(w.fetch_completed) == completed
    &&& w.save_settings == save
}

/// A star was earned between `old` and `new`.
pub open spec fn star_changed(old: App, new: App) -> bool {
    new.counters.star_count != old.counters.star_count || new.counters.star_date@ != old.counters.star_date@
}

/// The comments fetch after the detail pane opened with sequence number `r`.
pub open spec fn detail_fetch(new: App, r: Option<u64>) -> Option<(Seq<char>, u64)> {
    match (r, new.nav.detail_task_id) {
        (Some(n), Some(id)) => Some((id@, n)),
        _ => None,
    }
}

/// The sequence number of the comments fetch `w` asks for.
pub open spec fn fetch_seq(w: Work) -> Option<u64> {
    match w.fetch_comments {
        Some((_, n)) => Some(n),
        None => None,
    }
}

/// What carrying out action `a` at moment `m` (`now` in milliseconds)
/// does to the state, before the dock filter is dropped, and the work it
/// asks for.
#[verifier::opaque]
pub open spec fn action_core(old: App, new: App, a: KeyAction, m: Moment, now: u64, w: Work) -> bool {
    let c = m.clock;
    let ns = m.nanos;
    match a {
        KeyAction::Quit => new == (App { running: false, ..old }) && no_work(w),
        KeyAction::ProjectChanged => App::switch_to_project_tasks_effect(old, new) && no_work(w),
        KeyAction::AllViewSelected => App::activate_all_view_effect(old, new) && no_work(w),
        KeyAction::TodayViewSelected => App::activate_today_view_effect(old, new) && no_work(w),
        KeyAction::UpcomingViewSelected => App::activate_upcoming_view_effect(old, new) && no_work(w),
        KeyAction::RefreshGithubPrs => App::refresh_github_prs_effect(old, new, w.github_prs) && fetches_only(
            w,
            w.github_prs,
            false,
            false,
        ),
        KeyAction::OpenSelectedPrInBrowser => new == old && other_work(
            w,
            crate::actions::selected_pr_url(old),
            None,
            None,
            None,
            None,
            false,
        ),
        KeyAction::JiraCardsViewSelected => App::activate_jira_cards_view_effect(old, new, w.jira_cards)
            && fetches_only(w, false, w.jira_cards, false),
        KeyAction::RefreshJiraCards => App::refresh_jira_cards_effect(old, new, w.jira_cards) && fetches_only(
            w,
            false,
            w.jira_cards,
            false,
        ),
        KeyAction::RefreshAllSources => App::refresh_all_sources_effect(
            old,
            new,
            (w.github_prs, w.jira_cards, w.agenda),
        ) && fetches_only(w, w.github_prs, w.jira_cards, w.agenda),
        KeyAction::OpenSelectedJiraCardInBrowser => new == old && other_work(
            w,
            None,
            if (old.nav.selected_jira_card as int) < old.external.jira_cards@.len() {
                Some(old.external.jira_cards@[old.nav.selected_jira_card as int].key@)
            } else {
                None
            },
            None,
            None,
            None,
            false,
        ),
        KeyAction::AgendaViewSelected => App::activate_agenda_view_effect(old, new, w.agenda) && fetches_only(
            w,
            false,
            false,
            w.agenda,
        ),
        KeyAction::RefreshAgenda => App::refresh_agenda_effect(old, new, w.agenda) && fetches_only(
            w,
            false,
            false,
            w.agenda,
        ),
        KeyAction::OpenSelectedAgendaEventInBrowser => new == old && other_work(
            w,
            None,
            None,
            if (old.nav.selected_agenda_item as int) < old.external.agenda_events@.len()
                && old.external.agenda_events@[old.nav.selected_agenda_item as int].html_link@.len() > 0 {
                Some(old.external.agenda_events@[old.nav.selected_agenda_item as int].html_link@)
            } else {
                None
            },
            None,
            None,
            false,
        ),
        KeyAction::ToggleOverdueSection => App::toggle_overdue_section_effect(old, new) && no_work(w),
        KeyAction::OpenDetail => {
            let r = fetch_seq(w);
            let rows = crate::tasks::visible_rows(old, c);
            let sel = old.nav.selected_task;
            &&& if sel >= rows.len() || crate::tasks::row_task_spec(old, rows[sel as int]) is None {
                r is None && new == old
            } else {
                App::open_detail_for_effect(old, new, crate::tasks::row_task_spec(old, rows[sel as int])->0.id, r)
            }
            &&& other_work(w, None, None, None, detail_fetch(new, r), None, false)
        },
        KeyAction::CloseDetail => new == (App {
            nav: Nav { active_pane: Pane::Tasks, detail_scroll: 0, detail_task_id: None, ..old.nav },
            ..old
        }) && no_work(w),
        KeyAction::ToggleSettings => new == (App {
            input: Input { show_settings: !old.input.show_settings, ..old.input },
            nav: Nav {
                active_pane: if !old.input.show_settings {
                    Pane::Settings
                } else {
                    Pane::Projects
                },
                ..old.nav
            },
            ..old
        }) && no_work(w),
        KeyAction::ToggleHelp => new == (App { input: Input { show_help: !old.input.show_help, ..old.input }, ..old })
            && no_work(w),
        KeyAction::ToggleMode => App::toggle_input_mode_effect(old, new) && no_work(w),
        KeyAction::ToggleCollapse => App::toggle_collapse_on_effect(old, new, c) && no_work(w),
        KeyAction::ToggleFolderCollapse => App::toggle_folder_collapse_effect(old, new) && no_work(w),
        KeyAction::OpenAllFolds => new == (App { nav: Nav { collapsed: new.nav.collapsed, ..old.nav }, ..old })
            && new.nav.collapsed@.len() == 0 && no_work(w),
        KeyAction::CloseAllFolds => App::close_all_folds_effect(old, new) && no_work(w),
        KeyAction::CompleteTask => App::enqueue_complete_selected_on_effect(old, new, c, ns) && other_work(
            w,
            None,
            None,
            None,
            None,
            None,
            star_changed(old, new),
        ),
        KeyAction::CompleteTaskById(id) => App::complete_task_by_id_on_effect(old, new, id, c, ns) && other_work(
            w,
            None,
            None,
            None,
            None,
            None,
            star_changed(old, new),
        ),
        KeyAction::OpenDetailById(id) => App::open_detail_for_effect(old, new, id, fetch_seq(w)) && other_work(
            w,
            None,
            None,
            None,
            detail_fetch(new, fetch_seq(w)),
            None,
            false,
        ),
        KeyAction::OpenPriorityPicker => {
            &&& match selected_task_spec(old, c) {
                Some(t) => new == (App {
                    input: Input { priority_selection: t.priority, show_priority_picker: true, ..old.input },
                    ..old
                }),
                None => new == old,
            }
            &&& no_work(w)
        },
        KeyAction::SelectPriority => {
            let mid = App { input: Input { show_priority_picker: false, ..old.input }, ..old };
            &&& match old.input.task_form {
                Some(f) => new == (App {
                    input: Input {
                        task_form: Some(TaskForm { priority: old.input.priority_selection, ..f }),
                        ..mid.input
                    },
                    ..mid
                }),
                None => App::apply_priority_at_effect(mid, new, old.input.priority_selection, m),
            }
            &&& no_work(w)
        },
        KeyAction::StarProject => App::star_selected_project_at_effect(old, new, ns) && no_work(w),
        KeyAction::CycleFilter => App::cycle_task_filter_on_effect(old, new, c, w.fetch_completed) && other_work(
            w,
            None,
            None,
            None,
            None,
            opt_view(w.fetch_completed),
            false,
        ),
        KeyAction::CycleSort => new == (App {
            nav: Nav { sort_mode: sort_mode_next(old.nav.sort_mode), ..old.nav },
            ..old
        }) && no_work(w),
        KeyAction::StartInput => App::start_input_on_effect(old, new, c) && no_work(w),
        KeyAction::StartCommentInput => App::start_comment_input_effect(old, new) && no_work(w),
        KeyAction::StartFieldEdit => App::start_field_edit_on_effect(old, new, c) && no_work(w),
        KeyAction::SubmitInput => App::submit_input_at_effect(old, new, m) && no_work(w),
        KeyAction::SubmitForm => App::submit_task_form_at_effect(old, new, ns) && no_work(w),
        KeyAction::FormFieldUp => App::form_field_up_effect(old, new) && no_work(w),
        KeyAction::FormFieldDown => App::form_field_down_effect(old, new) && no_work(w),
        KeyAction::FormEditField => App::form_edit_field_effect(old, new) && no_work(w),
        KeyAction::FormEscNormal => App::submit_input_at_effect(old, new, m) && no_work(w),
        KeyAction::CancelInput => App::cancel_input_effect(old, new) && no_work(w),
        KeyAction::DetailFieldUp => App::move_detail_field_effect(old, new, -1i32) && no_work(w),
        KeyAction::DetailFieldDown => App::move_detail_field_effect(old, new, 1i32) && no_work(w),
        KeyAction::OpenThemePicker => new == (App {
            input: Input { theme_selection: old.input.theme_idx, show_theme_picker: true, ..old.input },
            ..old
        }) && no_work(w),
        KeyAction::SelectTheme => new == (App {
            input: Input { theme_idx: old.input.theme_selection, show_theme_picker: false, ..old.input },
            ..old
        }) && other_work(w, None, None, None, None, None, true),
        KeyAction::CloseThemePicker => new == (App {
            input: Input { show_theme_picker: false, ..old.input },
            ..old
        }) && no_work(w),
        KeyAction::TogglePomodoro => App::toggle_pomodoro_at_effect(old, new, now) && no_work(w),
        KeyAction::Consumed => new == old && no_work(w),
        KeyAction::Nothing => new == old && no_work(w),
    }
}

/// Leaving the task list drops the stats-dock filter.
pub open spec fn dock_cleared(old: App, mid: App) -> App {
    if old.nav.active_pane == Pane::Tasks && mid.nav.active_pane != Pane::Tasks {
        App { nav: Nav { dock_filter: None, ..mid.nav }, ..mid }
    } else {
        mid
    }
}


/// What a key press does: with an error shown, only the dismissal; else
/// the key's own effect, then its action, then the dock filter dropped when
/// the press leaves the task list.
pub open spec fn press_effect(old: App, new: App, key: KeyEvent, m: Moment, now: u64, w: Work) -> bool {
    match old.error {
        Some(_) => App::handle_error_dismiss_effect(old, new) && no_work(w),
        None => exists|mid: App, a: KeyAction, mid2: App|
            #![trigger key_effect(old, mid, key, m.clock, a), action_core(mid, mid2, a, m, now, w)]
            key_effect(old, mid, key, m.clock, a) && action_core(mid, mid2, a, m, now, w) && new
                == dock_cleared(old, mid2),
    }
}

fn nothing() -> (w: Work)
    ensures
        no_work(w),
{
    Work {
        github_prs: false,
        jira_cards: false,
        agenda: false,
        open_pr: None,
        open_jira_card: None,
        open_event: None,
        fetch_comments: None,
        fetch_completed: None,
        save_settings: false,
    }
}

fn fetches(pr: bool, jr: bool, ag: bool) -> (w: Work)
    ensures
        fetches_only(w, pr, jr, ag),
{
    Work {
        github_prs: pr,
        jira_cards: jr,
        agenda: ag,
        open_pr: None,
        open_jira_card: None,
        open_event: None,
        fetch_comments: None,
        fetch_completed: None,
        save_settings: false,
    }
}

fn other(
    open_pr: Option<String>,
    open_jira_card: Option<String>,
    open_event: Option<String>,
    fetch_comments: Option<(String, u64)>,
    fetch_completed: Option<String>,
    save_settings: bool,
) -> (w: Work)
    ensures
        other_work(
            w,
            opt_view(open_pr),
            opt_view(open_jira_card),
            opt_view(open_event),
            crate::events::fetch_view(fetch_comments),
            opt_view(fetch_completed),
            save_settings,
        ),
{
    Work {
        github_prs: false,
        jira_cards: false,
        agenda: false,
        open_pr,
        open_jira_card,
        open_event,
        fetch_comments,
        fetch_completed,
        save_settings,
    }
}

/// The comments fetch for a detail pane opened with sequence number `r`.
fn detail_fetch_exec(app: &App, r: Option<u64>) -> (f: Option<(String, u64)>)
    ensures
        crate::events::fetch_view(f) == detail_fetch(*app, r),
{
    match (r, &app.nav.detail_task_id) {
        (Some(n), Some(id)) => Some((id.clone(), n)),
        _ => None,
    }
}

impl App {
    /// Carries out the view, fetch and browser actions.
    fn perform_view_action(&mut self, a: KeyAction, m: &Moment, now: u64) -> (w: Work)
        requires
            match a {
                KeyAction::ProjectChanged | KeyAction::AllViewSelected | KeyAction::TodayViewSelected
                | KeyAction::UpcomingViewSelected | KeyAction::RefreshGithubPrs
                | KeyAction::OpenSelectedPrInBrowser | KeyAction::JiraCardsViewSelected
                | KeyAction::RefreshJiraCards | KeyAction::RefreshAllSources
                | KeyAction::OpenSelectedJiraCardInBrowser | KeyAction::AgendaViewSelected
                | KeyAction::RefreshAgenda | KeyAction::OpenSelectedAgendaEventInBrowser
                | KeyAction::ToggleOverdueSection | KeyAction::Quit => true,
                _ => false,
            },
        ensures
            action_core(*old(self), *final(self), a, *m, now, w),
    {
        proof {
            reveal(action_core);
        }
        match a {
            KeyAction::Quit => {
                self.running = false;
                nothing()
            },
            KeyAction::ProjectChanged => {
                self.switch_to_project_tasks();
                nothing()
            },
            KeyAction::AllViewSelected => {
                self.activate_all_view();
                nothing()
            },
            KeyAction::TodayViewSelected => {
                self.activate_today_view();
                nothing()
            },
            KeyAction::UpcomingViewSelected => {
                self.activate_upcoming_view();
                nothing()
            },
            KeyAction::RefreshGithubPrs => {
                let pr = self.refresh_github_prs();
                fetches(pr, false, false)
            },
            KeyAction::OpenSelectedPrInBrowser => {
                let u = self.pr_to_open();
                other(u, None, None, None, None, false)
            },
            KeyAction::JiraCardsViewSelected => {
                let jr = self.activate_jira_cards_view();
                fetches(false, jr, false)
            },
            KeyAction::RefreshJiraCards => {
                let jr = self.refresh_jira_cards();
                fetches(false, jr, false)
            },
            KeyAction::RefreshAllSources => {
                let (pr, jr, ag) = self.refresh_all_sources();
                fetches(pr, jr, ag)
            },
            KeyAction::OpenSelectedJiraCardInBrowser => {
                let k = self.jira_card_to_open();
                other(None, k, None, None, None, false)
            },
            KeyAction::AgendaViewSelected => {
                let ag = self.activate_agenda_view();
                fetches(false, false, ag)
            },
            KeyAction::RefreshAgenda => {
                let ag = self.refresh_agenda();
                fetches(false, false, ag)
            },
            KeyAction::OpenSelectedAgendaEventInBrowser => {
                let e = self.event_to_open();
                other(None, None, e, None, None, false)
            },
            KeyAction::ToggleOverdueSection => {
                self.toggle_overdue_section();
                nothing()
            },
            _ => nothing(),
        }
    }
}

impl App {
    /// Carries out the actions on tasks.
    #[verifier::rlimit(40)]
    fn act_tasks(&mut self, a: KeyAction, m: &Moment, now: u64) -> (w: Work)
        requires
            match a {
                KeyAction::OpenDetail | KeyAction::ToggleCollapse | KeyAction::CompleteTask | KeyAction::CompleteTaskById(_) | KeyAction::OpenDetailById(_) | KeyAction::OpenPriorityPicker | KeyAction::SelectPriority | KeyAction::StarProject | KeyAction::CycleFilter => true,
                _ => false,
            },
        ensures
            action_core(*old(self), *final(self), a, *m, now, w),
    {
        proof {
            reveal(action_core);
        }
        let c = &m.clock;
        let ns = m.nanos;
        match a {
            KeyAction::OpenDetail => {
                let r = self.open_detail_on(c);
                let f = detail_fetch_exec(self, r);
                other(None, None, None, f, None, false)
            },
            KeyAction::ToggleCollapse => {
                self.toggle_collapse_on(c);
                nothing()
            },
            KeyAction::CompleteTask => {
                let before = self.counters.star_count;
                let before_date = self.counters.star_date.clone();
                self.enqueue_complete_selected_on(c, ns);
                let earned = self.counters.star_count != before || !crate::text::str_eq(
                    self.counters.star_date.as_str(),
                    before_date.as_str(),
                );
                other(None, None, None, None, None, earned)
            },
            KeyAction::CompleteTaskById(id) => {
                let before = self.counters.star_count;
                let before_date = self.counters.star_date.clone();
                self.complete_task_by_id_on(id, c, ns);
                let earned = self.counters.star_count != before || !crate::text::str_eq(
                    self.counters.star_date.as_str(),
                    before_date.as_str(),
                );
                other(None, None, None, None, None, earned)
            },
            KeyAction::OpenDetailById(id) => {
                let r = self.open_detail_for(id);
                let f = detail_fetch_exec(self, r);
                other(None, None, None, f, None, false)
            },
            KeyAction::OpenPriorityPicker => {
                let p = match self.selected_task_on(c) {
                    Some(t) => Some(t.priority),
                    None => None,
                };
                if let Some(p) = p {
                    self.input.priority_selection = p;
                    self.input.show_priority_picker = true;
                }
                nothing()
            },
            KeyAction::SelectPriority => {
                self.input.show_priority_picker = false;
                let sel = self.input.priority_selection;
                match self.input.task_form.take() {
                    Some(f) => {
                        let mut f = f;
                        f.priority = sel;
                        self.input.task_form = Some(f);
                    },
                    None => {
                        self.apply_priority_at(sel, m);
                    },
                }
                nothing()
            },
            KeyAction::StarProject => {
                self.star_selected_project_at(ns);
                nothing()
            },
            KeyAction::CycleFilter => {
                let f = self.cycle_task_filter_on(c);
                other(None, None, None, None, f, false)
            },
            _ => nothing(),
        }
    }

    /// Carries out the actions on the input line and the add-task form.
    #[verifier::rlimit(40)]
    fn act_input(&mut self, a: KeyAction, m: &Moment, now: u64) -> (w: Work)
        requires
            match a {
                KeyAction::StartInput | KeyAction::StartCommentInput | KeyAction::StartFieldEdit | KeyAction::SubmitInput | KeyAction::FormEscNormal | KeyAction::SubmitForm | KeyAction::FormFieldUp | KeyAction::FormFieldDown | KeyAction::FormEditField | KeyAction::CancelInput | KeyAction::DetailFieldUp | KeyAction::DetailFieldDown => true,
                _ => false,
            },
        ensures
            action_core(*old(self), *final(self), a, *m, now, w),
    {
        proof {
            reveal(action_core);
        }
        let c = &m.clock;
        let ns = m.nanos;
        match a {
            KeyAction::StartInput => {
                self.start_input_on(c);
                nothing()
            },
            KeyAction::StartCommentInput => {
                self.start_comment_input();
                nothing()
            },
            KeyAction::StartFieldEdit => {
                self.start_field_edit_on(c);
                nothing()
            },
            KeyAction::SubmitInput | KeyAction::FormEscNormal => {
                self.submit_input_at(m);
                nothing()
            },
            KeyAction::SubmitForm => {
                self.submit_task_form_at(ns);
                nothing()
            },
            KeyAction::FormFieldUp => {
                self.form_field_up();
                nothing()
            },
            KeyAction::FormFieldDown => {
                self.form_field_down();
                nothing()
            },
            KeyAction::FormEditField => {
                self.form_edit_field();
                nothing()
            },
            KeyAction::CancelInput => {
                self.cancel_input();
                nothing()
            },
            KeyAction::DetailFieldUp => {
                self.move_detail_field(-1);
                nothing()
            },
            KeyAction::DetailFieldDown => {
                self.move_detail_field(1);
                nothing()
            },
            _ => nothing(),
        }
    }

    /// Carries out the actions on panes, popups, folds and the sort order.
    #[verifier::rlimit(40)]
    fn act_popups(&mut self, a: KeyAction, m: &Moment, now: u64) -> (w: Work)
        requires
            match a {
                KeyAction::CloseDetail | KeyAction::ToggleSettings | KeyAction::ToggleHelp | KeyAction::ToggleMode | KeyAction::ToggleFolderCollapse | KeyAction::OpenAllFolds | KeyAction::CloseAllFolds | KeyAction::CycleSort | KeyAction::OpenThemePicker | KeyAction::SelectTheme | KeyAction::CloseThemePicker | KeyAction::TogglePomodoro | KeyAction::Consumed | KeyAction::Nothing => true,
                _ => false,
            },
        ensures
            action_core(*old(self), *final(self), a, *m, now, w),
    {
        proof {
            reveal(action_core);
        }
        let c = &m.clock;
        let ns = m.nanos;
        match a {
            KeyAction::CloseDetail => {
                self.nav.active_pane = Pane::Tasks;
                self.nav.detail_scroll = 0;
                self.nav.detail_task_id = None;
                nothing()
            },
            KeyAction::ToggleSettings => {
                self.input.show_settings = !self.input.show_settings;
                self.nav.active_pane = if self.input.show_settings {
                    Pane::Settings
                } else {
                    Pane::Projects
                };
                nothing()
            },
            KeyAction::ToggleHelp => {
                self.input.show_help = !self.input.show_help;
                nothing()
            },
            KeyAction::ToggleMode => {
                self.toggle_input_mode();
                nothing()
            },
            KeyAction::ToggleFolderCollapse => {
                self.toggle_folder_collapse();
                nothing()
            },
            KeyAction::OpenAllFolds => {
                self.nav.collapsed = Vec::new();
                nothing()
            },
            KeyAction::CloseAllFolds => {
                self.close_all_folds();
                nothing()
            },
            KeyAction::CycleSort => {
                self.nav.sort_mode = self.nav.sort_mode.next();
                nothing()
            },
            KeyAction::OpenThemePicker => {
                self.input.theme_selection = self.input.theme_idx;
                self.input.show_theme_picker = true;
                nothing()
            },
            KeyAction::SelectTheme => {
                self.input.theme_idx = self.input.theme_selection;
                self.input.show_theme_picker = false;
                other(None, None, None, None, None, true)
            },
            KeyAction::CloseThemePicker => {
                self.input.show_theme_picker = false;
                nothing()
            },
            KeyAction::TogglePomodoro => {
                self.toggle_pomodoro_at(now);
                nothing()
            },
            _ => nothing(),
        }
    }

    /// Carries out action `a` at moment `m` (`now` in milliseconds) and
    /// returns the outside work it asks for.
    fn carry_out(&mut self, a: KeyAction, m: &Moment, now: u64) -> (w: Work)
        ensures
            action_core(*old(self), *final(self), a, *m, now, w),
    {
        let view_action = match a {
            KeyAction::ProjectChanged | KeyAction::AllViewSelected | KeyAction::TodayViewSelected
            | KeyAction::UpcomingViewSelected | KeyAction::RefreshGithubPrs
            | KeyAction::OpenSelectedPrInBrowser | KeyAction::JiraCardsViewSelected
            | KeyAction::RefreshJiraCards | KeyAction::RefreshAllSources
            | KeyAction::OpenSelectedJiraCardInBrowser | KeyAction::AgendaViewSelected
            | KeyAction::RefreshAgenda | KeyAction::OpenSelectedAgendaEventInBrowser
            | KeyAction::ToggleOverdueSection | KeyAction::Quit => true,
            _ => false,
        };
        let on_tasks = match a {
            KeyAction::OpenDetail | KeyAction::ToggleCollapse | KeyAction::CompleteTask | KeyAction::CompleteTaskById(_) | KeyAction::OpenDetailById(_) | KeyAction::OpenPriorityPicker | KeyAction::SelectPriority | KeyAction::StarProject | KeyAction::CycleFilter => true,
            _ => false,
        };
        let on_input = match a {
            KeyAction::StartInput | KeyAction::StartCommentInput | KeyAction::StartFieldEdit | KeyAction::SubmitInput | KeyAction::FormEscNormal | KeyAction::SubmitForm | KeyAction::FormFieldUp | KeyAction::FormFieldDown | KeyAction::FormEditField | KeyAction::CancelInput | KeyAction::DetailFieldUp | KeyAction::DetailFieldDown => true,
            _ => false,
        };
        let w = if view_action {
            self.perform_view_action(a, m, now)
        } else if on_tasks {
            self.act_tasks(a, m, now)
        } else if on_input {
            self.act_input(a, m, now)
        } else {
            self.act_popups(a, m, now)
        };
        w
    }

    /// Carries out action `a` at moment `m` (`now` in milliseconds) and
    /// returns the outside work it asks for. Leaving the task list drops
    /// the stats-dock filter.
    pub fn perform_action_at(&mut self, a: KeyAction, m: &Moment, now: u64) -> (w: Work)
        ensures
            exists|mid: App|
                #[trigger] action_core(*old(self), mid, a, *m, now, w) && *final(self) == dock_cleared(*old(self), mid),
    {
        let prev = self.nav.active_pane;
        let w = self.carry_out(a, m, now);
        let ghost mid = *self;
        if prev == Pane::Tasks && self.nav.active_pane != Pane::Tasks {
            self.nav.dock_filter = None;
        }
        assert(action_core(*old(self), mid, a, *m, now, w));
        w
    }

    /// A key press at moment `m` (`now` in milliseconds): while an error is
    /// shown the key only dismisses it (an unrecoverable error stops the
    /// program); otherwise the key is handled, its action carried out, and
    /// the stats-dock filter dropped when the press leaves the task list.
    pub fn press_key_at(&mut self, key: KeyEvent, m: &Moment, now: u64) -> (w: Work)
        requires
            old(self).error is None ==> keys_ok(*old(self)),
        ensures
            press_effect(*old(self), *final(self), key, *m, now, w),
    {
        if self.error.is_some() {
            self.handle_error_dismiss();
            return nothing();
        }
        let prev = self.nav.active_pane;
        let a = self.handle_key_on(key, &m.clock);
        let ghost mid = *self;
        let w = self.carry_out(a, m, now);
        let ghost mid2 = *self;
        if prev == Pane::Tasks && self.nav.active_pane != Pane::Tasks {
            self.nav.dock_filter = None;
        }
        assert(key_effect(*old(self), mid, key, m.clock, a) && action_core(mid, mid2, a, *m, now, w)
            && *self == dock_cleared(*old(self), mid2));
        w
    }
}

} // verus!
