//! Switching between the project list and the virtual views, and the
//! fetch bookkeeping those switches start.
use vstd::prelude::*;

use crate::app::{App, External, InputMode, Nav, Views, VimState};

verus! {

/// Only the All view.
pub open spec fn all_view() -> Views {
    Views {
        all_view_active: true,
        today_view_active: false,
        upcoming_view_active: false,
        active_pr_org: None,
        jira_cards_view_active: false,
        agenda_view_active: false,
    }
}

/// No virtual view: the selected project's tasks.
pub open spec fn project_view() -> Views {
    Views {
        all_view_active: false,
        today_view_active: false,
        upcoming_view_active: false,
        active_pr_org: None,
        jira_cards_view_active: false,
        agenda_view_active: false,
    }
}

pub open spec fn today_view() -> Views {
    Views { today_view_active: true, ..project_view() }
}

pub open spec fn upcoming_view() -> Views {
    Views { upcoming_view_active: true, ..project_view() }
}

pub open spec fn pr_view(owner: String) -> Views {
    Views { active_pr_org: Some(owner), ..project_view() }
}

pub open spec fn jira_view() -> Views {
    Views { jira_cards_view_active: true, ..project_view() }
}

pub open spec fn agenda_view() -> Views {
    Views { agenda_view_active: true, ..project_view() }
}

impl Views {
    /// Number of virtual views switched on.
    pub open spec fn active_count(&self) -> int {
        (if self.all_view_active { 1int } else { 0int }) + (if self.today_view_active {
            1int
        } else {
            0int
        }) + (if self.upcoming_view_active { 1int } else { 0int }) + (if self.active_pr_org
            is Some {
            1int
        } else {
            0int
        }) + (if self.jira_cards_view_active { 1int } else { 0int }) + (if self.agenda_view_active {
            1int
        } else {
            0int
        })
    }
}

/// Vim: enter insert mode; standard: unchanged.
pub open spec fn insert_mode(m: InputMode) -> InputMode {
    match m {
        InputMode::Vim(_) => InputMode::Vim(VimState::Insert),
        InputMode::Standard => InputMode::Standard,
    }
}

/// Vim: back to normal mode; standard: unchanged.
pub open spec fn normal_mode(m: InputMode) -> InputMode {
    match m {
        InputMode::Vim(_) => InputMode::Vim(VimState::Normal),
        InputMode::Standard => InputMode::Standard,
    }
}

impl App {
    /// What `activate_all_view` does to the state.
    pub open spec fn activate_all_view_effect(old: App, new: App) -> bool {
        &&& new == (App {
            views: all_view(),
            nav: Nav { selected_all_item: 0, ..old.nav },
            ..old
        })
    }

    /// Shows the All view.
    pub fn activate_all_view(&mut self)
        ensures
            Self::activate_all_view_effect(*old(self), *final(self)),
    {
        self.views = Views {
            all_view_active: true,
            today_view_active: false,
            upcoming_view_active: false,
            active_pr_org: None,
            jira_cards_view_active: false,
            agenda_view_active: false,
        };
        self.nav.selected_all_item = 0;
    }

    /// What `switch_to_project_tasks` does to the state.
    pub open spec fn switch_to_project_tasks_effect(old: App, new: App) -> bool {
        &&& new == (App {
            views: project_view(),
            nav: Nav { selected_task: 0, detail_scroll: 0, ..old.nav },
            ..old
        })
    }

    /// Leaves every virtual view for the selected project's tasks.
    pub fn switch_to_project_tasks(&mut self)
        ensures
            Self::switch_to_project_tasks_effect(*old(self), *final(self)),
    {
        self.views = Views {
            all_view_active: false,
            today_view_active: false,
            upcoming_view_active: false,
            active_pr_org: None,
            jira_cards_view_active: false,
            agenda_view_active: false,
        };
        self.nav.selected_task = 0;
        self.nav.detail_scroll = 0;
    }

    /// What `activate_today_view` does to the state.
    pub open spec fn activate_today_view_effect(old: App, new: App) -> bool {
        &&& new == (App {
            views: today_view(),
            nav: Nav {
                overdue_section_collapsed: false,
                selected_task: 0,
                detail_scroll: 0,
                ..old.nav
            },
            ..old
        })
    }

    /// Shows the Today view with its overdue section expanded.
    pub fn activate_today_view(&mut self)
        ensures
            Self::activate_today_view_effect(*old(self), *final(self)),
    {
        self.views = Views {
            all_view_active: false,
            today_view_active: true,
            upcoming_view_active: false,
            active_pr_org: None,
            jira_cards_view_active: false,
            agenda_view_active: false,
        };
        self.nav.overdue_section_collapsed = false;
        self.nav.selected_task = 0;
        self.nav.detail_scroll = 0;
    }

    /// What `activate_upcoming_view` does to the state.
    pub open spec fn activate_upcoming_view_effect(old: App, new: App) -> bool {
        &&& new == (App {
            views: upcoming_view(),
            nav: Nav { selected_task: 0, detail_scroll: 0, ..old.nav },
            ..old
        })
    }

    /// Shows the Upcoming view.
    pub fn activate_upcoming_view(&mut self)
        ensures
            Self::activate_upcoming_view_effect(*old(self), *final(self)),
    {
        self.views = Views {
            all_view_active: false,
            today_view_active: false,
            upcoming_view_active: true,
            active_pr_org: None,
            jira_cards_view_active: false,
            agenda_view_active: false,
        };
        self.nav.selected_task = 0;
        self.nav.detail_scroll = 0;
    }

    /// Shows the pull requests of `owner`.
    pub fn activate_github_prs_view(&mut self, owner: String)
        ensures
            *final(self) == (App {
                views: pr_view(owner),
                nav: Nav { selected_pr: 0, ..old(self).nav },
                ..*old(self)
            }),
    {
        self.views = Views {
            all_view_active: false,
            today_view_active: false,
            upcoming_view_active: false,
            active_pr_org: Some(owner),
            jira_cards_view_active: false,
            agenda_view_active: false,
        };
        self.nav.selected_pr = 0;
    }

    /// Marks a Jira fetch as running unless one already is; true when the
    /// caller should start it.
    pub fn begin_jira_cards_fetch(&mut self) -> (start: bool)
        ensures
            start == !old(self).external.jira_cards_loading,
            *final(self) == (if start {
                App {
                    external: External {
                        jira_cards_loading: true,
                        jira_cards_error: None,
                        ..old(self).external
                    },
                    ..*old(self)
                }
            } else {
                *old(self)
            }),
    {
        if self.external.jira_cards_loading {
            return false;
        }
        self.external.jira_cards_loading = true;
        self.external.jira_cards_error = None;
        true
    }

    /// Marks an agenda fetch as running unless one already is.
    pub fn begin_agenda_fetch(&mut self) -> (start: bool)
        ensures
            start == !old(self).external.agenda_loading,
            *final(self) == (if start {
                App {
                    external: External {
                        agenda_loading: true,
                        agenda_error: None,
                        ..old(self).external
                    },
                    ..*old(self)
                }
            } else {
                *old(self)
            }),
    {
        if self.external.agenda_loading {
            return false;
        }
        self.external.agenda_loading = true;
        self.external.agenda_error = None;
        true
    }

    /// Marks a pull-request fetch as running unless one already is.
    pub fn begin_github_prs_fetch(&mut self) -> (start: bool)
        ensures
            start == !old(self).external.github_prs_loading,
            *final(self) == (if start {
                App {
                    external: External {
                        github_prs_loading: true,
                        github_prs_error: None,
                        ..old(self).external
                    },
                    ..*old(self)
                }
            } else {
                *old(self)
            }),
    {
        if self.external.github_prs_loading {
            return false;
        }
        self.external.github_prs_loading = true;
        self.external.github_prs_error = None;
        true
    }

    /// What `activate_jira_cards_view` does to the state and returns.
    pub open spec fn activate_jira_cards_view_effect(old: App, new: App, start: bool) -> bool {
        &&& start == !old.external.jira_cards_loading
        &&& new == (App {
            views: jira_view(),
            nav: Nav { selected_jira_card: 0, ..old.nav },
            external: External {
                jira_cards_loading: true,
                jira_cards_error: if start {
                    None
                } else {
                    old.external.jira_cards_error
                },
                ..old.external
            },
            ..old
        })
    }

    /// Shows the Jira cards view and asks for a fresh list; true when a
    /// fetch should start.
    pub fn activate_jira_cards_view(&mut self) -> (start: bool)
        ensures
            Self::activate_jira_cards_view_effect(*old(self), *final(self), start),
    {
        self.views = Views {
            all_view_active: false,
            today_view_active: false,
            upcoming_view_active: false,
            active_pr_org: None,
            jira_cards_view_active: true,
            agenda_view_active: false,
        };
        self.nav.selected_jira_card = 0;
        self.begin_jira_cards_fetch()
    }

    /// What `activate_agenda_view` does to the state and returns.
    pub open spec fn activate_agenda_view_effect(old: App, new: App, start: bool) -> bool {
        &&& start == !old.external.agenda_loading
        &&& new == (App {
            views: agenda_view(),
            nav: Nav { selected_agenda_item: 0, ..old.nav },
            external: External {
                agenda_loading: true,
                agenda_error: if start {
                    None
                } else {
                    old.external.agenda_error
                },
                ..old.external
            },
            ..old
        })
    }

    /// Shows the agenda view and asks for a fresh list.
    pub fn activate_agenda_view(&mut self) -> (start: bool)
        ensures
            Self::activate_agenda_view_effect(*old(self), *final(self), start),
    {
        self.views = Views {
            all_view_active: false,
            today_view_active: false,
            upcoming_view_active: false,
            active_pr_org: None,
            jira_cards_view_active: false,
            agenda_view_active: true,
        };
        self.nav.selected_agenda_item = 0;
        self.begin_agenda_fetch()
    }

    /// What `refresh_jira_cards` does to the state and returns.
    pub open spec fn refresh_jira_cards_effect(old: App, new: App, start: bool) -> bool {
        &&& start == (old.views.jira_cards_view_active
            && !old.external.jira_cards_loading)
        &&& new == (if start {
            App {
                external: External {
                    jira_cards_loading: true,
                    jira_cards_error: None,
                    ..old.external
                },
                ..old
            }
        } else {
            old
        })
    }

    /// `r` in the Jira view: refetch; true when a fetch should start.
    pub fn refresh_jira_cards(&mut self) -> (start: bool)
        ensures
            Self::refresh_jira_cards_effect(*old(self), *final(self), start),
    {
        if self.views.jira_cards_view_active {
            self.begin_jira_cards_fetch()
        } else {
            false
        }
    }

    /// What `refresh_agenda` does to the state and returns.
    pub open spec fn refresh_agenda_effect(old: App, new: App, start: bool) -> bool {
        &&& start == (old.views.agenda_view_active && !old.external.agenda_loading)
        &&& new == (if start {
            App {
                external: External {
                    agenda_loading: true,
                    agenda_error: None,
                    ..old.external
                },
                ..old
            }
        } else {
            old
        })
    }

    /// `r` in the agenda view.
    pub fn refresh_agenda(&mut self) -> (start: bool)
        ensures
            Self::refresh_agenda_effect(*old(self), *final(self), start),
    {
        if self.views.agenda_view_active {
            self.begin_agenda_fetch()
        } else {
            false
        }
    }

    /// What `refresh_github_prs` does to the state and returns.
    pub open spec fn refresh_github_prs_effect(old: App, new: App, start: bool) -> bool {
        &&& start == (old.views.active_pr_org is Some
            && !old.external.github_prs_loading)
        &&& new == (if start {
            App {
                external: External {
                    github_prs_loading: true,
                    github_prs_error: None,
                    ..old.external
                },
                ..old
            }
        } else {
            old
        })
    }

    /// `r` in a pull-request view.
    pub fn refresh_github_prs(&mut self) -> (start: bool)
        ensures
            Self::refresh_github_prs_effect(*old(self), *final(self), start),
    {
        if self.is_pr_view_active() {
            self.begin_github_prs_fetch()
        } else {
            false
        }
    }

    /// What `refresh_all_sources` does to the state and returns.
    pub open spec fn refresh_all_sources_effect(old: App, new: App, start: (bool, bool, bool)) -> bool {
        &&& start == (!old.external.github_prs_loading,
            !old.external.jira_cards_loading, !old.external.agenda_loading)
        &&& new == (App {
            external: External {
                github_prs_loading: true,
                github_prs_error: if start.0 {
                    None
                } else {
                    old.external.github_prs_error
                },
                jira_cards_loading: true,
                jira_cards_error: if start.1 {
                    None
                } else {
                    old.external.jira_cards_error
                },
                agenda_loading: true,
                agenda_error: if start.2 {
                    None
                } else {
                    old.external.agenda_error
                },
                ..old.external
            },
            ..old
        })
    }

    /// `r` in the All view: refetch pull requests, Jira cards and the
    /// agenda, each unless already loading; says which should start.
    pub fn refresh_all_sources(&mut self) -> (start: (bool, bool, bool))
        ensures
            Self::refresh_all_sources_effect(*old(self), *final(self), start),
    {
        let a = self.begin_github_prs_fetch();
        let b = self.begin_jira_cards_fetch();
        let c = self.begin_agenda_fetch();
        (a, b, c)
    }

    /// Whether any virtual view replaces the selected project.
    pub fn on_virtual_view(&self) -> (r: bool)
        ensures
            r == (self.views.active_count() > 0),
    {
        self.views.all_view_active || self.views.today_view_active
            || self.views.upcoming_view_active || self.views.active_pr_org.is_some()
            || self.views.jira_cards_view_active || self.views.agenda_view_active
    }

    /// Whether some owner's pull requests are shown.
    pub fn is_pr_view_active(&self) -> (r: bool)
        ensures
            r == (self.views.active_pr_org is Some),
    {
        self.views.active_pr_org.is_some()
    }

    /// What `toggle_overdue_section` does to the state.
    pub open spec fn toggle_overdue_section_effect(old: App, new: App) -> bool {
        &&& new == (App {
            nav: Nav {
                overdue_section_collapsed: !old.nav.overdue_section_collapsed,
                selected_task: if !old.nav.overdue_section_collapsed {
                    0
                } else {
                    old.nav.selected_task
                },
                ..old.nav
            },
            ..old
        })
    }

    /// Folds or unfolds Today's overdue section; folding moves the cursor
    /// to the first remaining row.
    pub fn toggle_overdue_section(&mut self)
        ensures
            Self::toggle_overdue_section_effect(*old(self), *final(self)),
    {
        self.nav.overdue_section_collapsed = !self.nav.overdue_section_collapsed;
        if self.nav.overdue_section_collapsed {
            self.nav.selected_task = 0;
        }
    }
}

} // verus!
