//! The UI settings file: what its stored values become at startup, and
//! the record written back.
use vstd::prelude::*;
use vstd::string::*;

use crate::app::{App, AppSettings};
use crate::order::{key_views, sorted_selection, sorted_rows_exec, KeyView, SortKey};
use crate::text::str_eq;

verus! {

/// The values the settings file held, each one only when present with the
/// expected JSON type.
pub struct StoredSettings {
    pub theme: Option<String>,
    pub idle_timeout_secs: Option<u64>,
    /// Older files store the idle timeout in minutes.
    pub idle_timeout_mins: Option<u64>,
    /// The string entries of `hidden_pr_orgs`, when it is an array.
    pub hidden_pr_orgs: Option<Vec<String>>,
    pub github_prs_poll_interval_secs: Option<u64>,
    pub jira_cards_poll_interval_secs: Option<u64>,
    pub agenda_poll_interval_secs: Option<u64>,
    pub show_stats: Option<bool>,
    pub star_count: Option<u64>,
    pub star_date: Option<String>,
    pub tomato_count: Option<u64>,
    pub tomato_date: Option<String>,
}

/// The sync token a session starts from: `*` (a full sync) for an
/// ephemeral session or when none was stored, else the stored token.
pub fn start_sync_token(ephemeral: bool, stored: Option<String>) -> (t: String)
    ensures
        ephemeral ==> t@ == "*"@,
        !ephemeral ==> match stored {
            Some(s) => t == s,
            None => t@ == "*"@,
        },
{
    if ephemeral {
        return String::from_str("*");
    }
    match stored {
        Some(s) => s,
        None => String::from_str("*"),
    }
}

/// Pull-request poll interval without a stored value, in seconds.
pub const DEFAULT_GITHUB_PRS_POLL_INTERVAL_SECS: u64 = 10;

/// Jira poll interval without a stored value, in seconds.
pub const DEFAULT_JIRA_CARDS_POLL_INTERVAL_SECS: u64 = 10;

/// Calendar poll interval without a stored value, in seconds.
pub const DEFAULT_AGENDA_POLL_INTERVAL_SECS: u64 = 300;

/// Idle timeout without a stored value, in seconds.
pub const DEFAULT_IDLE_TIMEOUT_SECS: u64 = 300;

/// The theme chosen by name: the first theme called `name`, else the first.
pub open spec fn theme_pos(names: Seq<String>, name: Option<String>) -> usize {
    match name {
        Some(n) => if exists|i: int| 0 <= i < names.len() && names[i]@ == n@ && forall|j: int| 0 <= j < i ==> names[j]@ != n@ {
            (choose|i: int| 0 <= i < names.len() && names[i]@ == n@ && forall|j: int| 0 <= j < i ==> names[j]@ != n@) as usize
        } else {
            0
        },
        None => 0,
    }
}

/// The index of the stored theme among `names`.
pub fn theme_index(names: &Vec<String>, name: &Option<String>) -> (r: usize)
    ensures
        r == theme_pos(names@, *name),
{
    match name {
        None => 0,
        Some(n) => {
            let mut i: usize = 0;
            while i < names.len()
                invariant
                    i <= names.len(),
                    *name == Some(*n),
                    forall|j: int| 0 <= j < i ==> names@[j]@ != n@,
                decreases names.len() - i,
            {
                if str_eq(names[i].as_str(), n.as_str()) {
                    proof {
                        assert(0 <= i < names@.len() && names@[i as int]@ == n@ && forall|j: int|
                            0 <= j < i ==> names@[j]@ != n@);
                        let w = choose|k: int|
                            0 <= k < names@.len() && names@[k]@ == n@ && forall|j: int|
                                0 <= j < k ==> names@[j]@ != n@;
                        if w < i {
                            assert(names@[w]@ != n@);
                        } else if w > i {
                            assert(names@[i as int]@ != n@);
                        }
                    }
                    return i;
                }
                i += 1;
            }
            0
        },
    }
}

/// The idle timeout: the stored seconds, else the stored minutes, else
/// five minutes.
pub open spec fn idle_timeout_of(secs: Option<u64>, mins: Option<u64>) -> int {
    match secs {
        Some(s) => s as int,
        None => match mins {
            Some(m) => m * 60,
            None => 300,
        },
    }
}

/// The idle timeout from the stored values.
pub fn idle_timeout_from(secs: Option<u64>, mins: Option<u64>) -> (r: u64)
    requires
        secs is None ==> (mins matches Some(m) ==> m <= u64::MAX / 60),
    ensures
        r == idle_timeout_of(secs, mins),
{
    match secs {
        Some(s) => s,
        None => match mins {
            Some(m) => m * 60,
            None => DEFAULT_IDLE_TIMEOUT_SECS,
        },
    }
}

/// A poll interval: the stored value held at `floor` or above, else `default`.
pub open spec fn interval_of(v: Option<u64>, floor: u64, default: u64) -> u64 {
    match v {
        Some(x) => if x < floor {
            floor
        } else {
            x
        },
        None => default,
    }
}

/// A poll interval from the stored value.
pub fn poll_interval(v: Option<u64>, floor: u64, default: u64) -> (r: u64)
    ensures
        r == interval_of(v, floor, default),
{
    match v {
        Some(x) => if x < floor {
            floor
        } else {
            x
        },
        None => default,
    }
}

/// The pull-request poll interval: at least five seconds, ten by default.
pub fn github_prs_interval(v: Option<u64>) -> (r: u64)
    ensures
        r == interval_of(v, 5, 10),
{
    poll_interval(v, 5, DEFAULT_GITHUB_PRS_POLL_INTERVAL_SECS)
}

/// The Jira poll interval: at least five seconds, ten by default.
pub fn jira_cards_interval(v: Option<u64>) -> (r: u64)
    ensures
        r == interval_of(v, 5, 10),
{
    poll_interval(v, 5, DEFAULT_JIRA_CARDS_POLL_INTERVAL_SECS)
}

/// The calendar poll interval: at least thirty seconds, five minutes by default.
pub fn agenda_interval(v: Option<u64>) -> (r: u64)
    ensures
        r == interval_of(v, 30, 300),
{
    poll_interval(v, 30, DEFAULT_AGENDA_POLL_INTERVAL_SECS)
}

/// A day counter as stored (count, date) read on `today`: the count only
/// carries over when it was stored today and is present.
pub open spec fn jar_read(date: Option<Seq<char>>, count: Option<u64>, today: Seq<char>) -> u64 {
    if date == Some(today) && count is Some {
        count->0
    } else {
        0
    }
}

/// The day counter read from the settings file on `today`.
pub fn jar_for_today(date: &Option<String>, count: Option<u64>, today: &str) -> (r: (u64, String))
    ensures
        r.1@ == today@,
        r.0 == jar_read(crate::app::opt_view(*date), count, today@),
{
    let same = match date {
        Some(d) => str_eq(d.as_str(), today),
        None => false,
    };
    let n = match count {
        Some(c) => if same {
            c
        } else {
            0
        },
        None => 0,
    };
    (n, String::from_str(today))
}

/// What the machine offers a session: the theme names found, which
/// outside tools are present, and the start time in milliseconds.
pub struct Machine {
    pub theme_names: Vec<String>,
    pub gh_available: bool,
    pub acli_available: bool,
    pub gws_available: bool,
    pub now_ms: u64,
}

/// The start-up settings of a session on `today` from the settings file's
/// values, the saved sync token and what the machine offers. An ephemeral
/// session starts from a full sync; the star and tomato jars keep their
/// count only when it was saved today, and are dated today.
pub fn session_settings(
    stored: StoredSettings,
    stored_token: Option<String>,
    machine: Machine,
    ephemeral: bool,
    idle_forcer: bool,
    today: &str,
) -> (r: AppSettings)
    requires
        stored.idle_timeout_secs is None ==> (stored.idle_timeout_mins matches Some(m) ==> m <= u64::MAX / 60),
    ensures
        ephemeral ==> r.sync_token@ == "*"@,
        !ephemeral ==> match stored_token {
            Some(t) => r.sync_token == t,
            None => r.sync_token@ == "*"@,
        },
        r.star_date@ == today@,
        r.tomato_date@ == today@,
        r.star_count == jar_read(crate::app::opt_view(stored.star_date), stored.star_count, today@),
        r.tomato_count == jar_read(crate::app::opt_view(stored.tomato_date), stored.tomato_count, today@),
        r.theme_names == machine.theme_names,
        r.theme_idx == theme_pos(machine.theme_names@, stored.theme),
        r.idle_timeout_secs == idle_timeout_of(stored.idle_timeout_secs, stored.idle_timeout_mins),
        r.idle_forcer == idle_forcer,
        r.ephemeral == ephemeral,
        r.show_stats == (stored.show_stats == Some(true)),
        r.hidden_pr_orgs@ == match stored.hidden_pr_orgs {
            Some(v) => v@,
            None => Seq::empty(),
        },
        r.github_prs_poll_interval_secs == interval_of(stored.github_prs_poll_interval_secs, 5, 10),
        r.jira_cards_poll_interval_secs == interval_of(stored.jira_cards_poll_interval_secs, 5, 10),
        r.agenda_poll_interval_secs == interval_of(stored.agenda_poll_interval_secs, 30, 300),
        r.gh_available == machine.gh_available,
        r.acli_available == machine.acli_available,
        r.gws_available == machine.gws_available,
        r.now_ms == machine.now_ms,
{
    let (star_count, star_date) = jar_for_today(&stored.star_date, stored.star_count, today);
    let (tomato_count, tomato_date) = jar_for_today(&stored.tomato_date, stored.tomato_count, today);
    let theme_idx = theme_index(&machine.theme_names, &stored.theme);
    let show_stats = match stored.show_stats {
        Some(b) => b,
        None => false,
    };
    let hidden_pr_orgs = match stored.hidden_pr_orgs {
        Some(v) => v,
        None => Vec::new(),
    };
    AppSettings {
        theme_names: machine.theme_names,
        theme_idx,
        sync_token: start_sync_token(ephemeral, stored_token),
        idle_timeout_secs: idle_timeout_from(stored.idle_timeout_secs, stored.idle_timeout_mins),
        idle_forcer,
        ephemeral,
        star_count,
        star_date,
        tomato_count,
        tomato_date,
        show_stats,
        gh_available: machine.gh_available,
        acli_available: machine.acli_available,
        gws_available: machine.gws_available,
        hidden_pr_orgs,
        github_prs_poll_interval_secs: github_prs_interval(stored.github_prs_poll_interval_secs),
        jira_cards_poll_interval_secs: jira_cards_interval(stored.jira_cards_poll_interval_secs),
        agenda_poll_interval_secs: agenda_interval(stored.agenda_poll_interval_secs),
        now_ms: machine.now_ms,
    }
}

/// The record written to the settings file.
pub struct UiSettingsRecord {
    pub theme: String,
    pub idle_timeout_secs: u64,
    /// Hidden owners in lexicographic order.
    pub hidden_pr_orgs: Vec<String>,
    pub github_prs_poll_interval_secs: u64,
    pub jira_cards_poll_interval_secs: u64,
    pub agenda_poll_interval_secs: u64,
    pub show_stats: bool,
    pub star_count: u64,
    pub star_date: String,
    pub tomato_count: u64,
    pub tomato_date: String,
}

/// Sort keys of plain strings.
pub open spec fn string_keys(v: Seq<String>) -> Seq<KeyView> {
    v.map_values(|s: String| (s@, Seq::<char>::empty(), 0int, 0int))
}

/// Every one of `n` items kept.
pub open spec fn all_kept(n: nat) -> Seq<bool> {
    Seq::new(n, |i: int| true)
}

/// `out` holds the strings of `v`, each once, in lexicographic order
/// (equal strings in their order in `v`).
pub open spec fn sorted_strings(v: Seq<String>, out: Seq<String>) -> bool {
    exists|r: Seq<usize>|
        #[trigger] sorted_selection(false, string_keys(v), all_kept(v.len()), r) && out.len()
            == r.len() && forall|k: int| 0 <= k < r.len() ==> out[k]@ == v[r[k] as int]@
}

/// `v` in lexicographic order.
pub fn sort_strings(v: &Vec<String>) -> (out: Vec<String>)
    ensures
        sorted_strings(v@, out@),
{
    let mut keys: Vec<SortKey> = Vec::new();
    let mut keep: Vec<bool> = Vec::new();
    let mut i: usize = 0;
    while i < v.len()
        invariant
            i <= v.len(),
            keys@.len() == i,
            keep@.len() == i,
            forall|k: int| 0 <= k < i ==> (#[trigger] keys@[k])@ == (v@[k]@, Seq::<char>::empty(), 0int, 0int),
            forall|k: int| 0 <= k < i ==> #[trigger] keep@[k],
        decreases v.len() - i,
    {
        keys.push(SortKey { s1: v[i].clone(), s2: String::new(), n1: 0, n2: 0 });
        keep.push(true);
        i += 1;
    }
    assert(key_views(keys@) =~= string_keys(v@));
    assert(keep@ =~= all_kept(v@.len()));
    let idx = sorted_rows_exec(&keys, &keep, false);
    let mut out: Vec<String> = Vec::new();
    let mut k: usize = 0;
    while k < idx.len()
        invariant
            k <= idx.len(),
            out@.len() == k,
            sorted_selection(false, string_keys(v@), all_kept(v@.len()), idx@),
            forall|j: int| 0 <= j < k ==> out@[j]@ == v@[idx@[j] as int]@,
        decreases idx.len() - k,
    {
        let j = idx[k];
        assert(j < v@.len());
        out.push(v[j].clone());
        k += 1;
    }
    out
}

impl App {
    /// The record to write to the settings file.
    pub fn ui_settings(&self) -> (r: UiSettingsRecord)
        requires
            self.input.theme_idx < self.input.theme_names@.len(),
        ensures
            r.theme@ == self.input.theme_names@[self.input.theme_idx as int]@,
            sorted_strings(self.external.hidden_pr_orgs@, r.hidden_pr_orgs@),
            r.idle_timeout_secs == self.counters.idle_timeout_secs,
            r.github_prs_poll_interval_secs == self.external.github_prs_poll_interval_secs,
            r.jira_cards_poll_interval_secs == self.external.jira_cards_poll_interval_secs,
            r.agenda_poll_interval_secs == self.external.agenda_poll_interval_secs,
            r.show_stats == self.counters.show_stats,
            r.star_count == self.counters.star_count,
            r.star_date@ == self.counters.star_date@,
            r.tomato_count == self.counters.tomato_count,
            r.tomato_date@ == self.counters.tomato_date@,
    {
        UiSettingsRecord {
            theme: self.input.theme_names[self.input.theme_idx].clone(),
            idle_timeout_secs: self.counters.idle_timeout_secs,
            hidden_pr_orgs: sort_strings(&self.external.hidden_pr_orgs),
            github_prs_poll_interval_secs: self.external.github_prs_poll_interval_secs,
            jira_cards_poll_interval_secs: self.external.jira_cards_poll_interval_secs,
            agenda_poll_interval_secs: self.external.agenda_poll_interval_secs,
            show_stats: self.counters.show_stats,
            star_count: self.counters.star_count,
            star_date: self.counters.star_date.clone(),
            tomato_count: self.counters.tomato_count,
            tomato_date: self.counters.tomato_date.clone(),
        }
    }
}

} // verus!
