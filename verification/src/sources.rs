//! Turning what `gh`, `acli` and `gws` print into the library's records:
//! the fields each JSON item carried (each one only when present with the
//! expected type) become pull requests, Jira cards, calendars and events,
//! with the defaults, filters and merges the views rely on.
use vstd::prelude::*;
use vstd::string::*;

use crate::app::{find_char, first_index_of, opt_view};
use crate::model::{check_state_of, parse_check_state, CalendarEvent, CheckStatus, JiraCard, PullRequest};
use crate::text::{decimal, push_decimal, str_eq};

verus! {

/// `o`'s text, or `d` when absent.
pub open spec fn text_or(o: Option<String>, d: Seq<char>) -> Seq<char> {
    match o {
        Some(s) => s@,
        None => d,
    }
}

fn string_or(o: Option<String>, d: &str) -> (r: String)
    ensures
        r@ == text_or(o, d@),
{
    match o {
        Some(s) => s,
        None => String::from_str(d),
    }
}

/// The fields of one `gh search prs --json` item.
pub struct PrItem {
    pub id: Option<String>,
    pub number: Option<u64>,
    pub title: Option<String>,
    pub url: Option<String>,
    /// `repository.nameWithOwner`.
    pub repo_name_with_owner: Option<String>,
    /// `author.login`.
    pub author_login: Option<String>,
    pub updated_at: Option<String>,
    pub is_draft: Option<bool>,
}

/// A pull request from a search item: missing texts are empty, a missing
/// number is zero, a missing draft flag is false, and no check state yet.
pub open spec fn pr_of(item: PrItem, pr: PullRequest) -> bool {
    &&& pr.number == match item.number {
        Some(n) => n,
        None => 0,
    }
    &&& pr.title@ == text_or(item.title, ""@)
    &&& pr.url@ == text_or(item.url, ""@)
    &&& pr.repo_full_name@ == text_or(item.repo_name_with_owner, ""@)
    &&& pr.author_login@ == text_or(item.author_login, ""@)
    &&& pr.updated_at@ == text_or(item.updated_at, ""@)
    &&& pr.is_draft == match item.is_draft {
        Some(b) => b,
        None => false,
    }
    &&& pr.node_id@ == text_or(item.id, ""@)
    &&& pr.check_status is None
}

/// The pull request of a search item.
pub fn pr_from_item(item: PrItem) -> (pr: PullRequest)
    ensures
        pr_of(item, pr),
{
    let ghost g = item;
    PullRequest {
        number: match item.number {
            Some(n) => n,
            None => 0,
        },
        title: string_or(item.title, ""),
        url: string_or(item.url, ""),
        repo_full_name: string_or(item.repo_name_with_owner, ""),
        author_login: string_or(item.author_login, ""),
        updated_at: string_or(item.updated_at, ""),
        is_draft: match item.is_draft {
            Some(b) => b,
            None => false,
        },
        node_id: string_or(item.id, ""),
        check_status: None,
    }
}

/// Some pull request of `prs` has address `url`.
pub open spec fn has_url(prs: Seq<PullRequest>, url: Seq<char>) -> bool {
    exists|i: int| 0 <= i < prs.len() && (#[trigger] prs[i]).url@ == url
}

/// The pull requests of `all` whose address did not come earlier, in order.
pub open spec fn first_by_url(all: Seq<PullRequest>) -> Seq<PullRequest>
    decreases all.len(),
{
    if all.len() == 0 {
        Seq::empty()
    } else {
        let rest = first_by_url(all.drop_last());
        if has_url(all.drop_last(), all.last().url@) {
            rest
        } else {
            rest.push(all.last())
        }
    }
}

pub proof fn lemma_first_by_url_urls(all: Seq<PullRequest>, url: Seq<char>)
    ensures
        has_url(first_by_url(all), url) == has_url(all, url),
    decreases all.len(),
{
    if all.len() > 0 {
        let init = all.drop_last();
        lemma_first_by_url_urls(init, url);
        let rest = first_by_url(init);
        if has_url(all, url) {
            let i = choose|i: int| 0 <= i < all.len() && (#[trigger] all[i]).url@ == url;
            if i < init.len() {
                assert(init[i] == all[i]);
            }
        }
        if has_url(init, url) {
            let i = choose|i: int| 0 <= i < init.len() && (#[trigger] init[i]).url@ == url;
            assert(all[i] == init[i]);
        }
        if !has_url(init, all.last().url@) {
            let out = rest.push(all.last());
            if has_url(rest, url) {
                let i = choose|i: int| 0 <= i < rest.len() && (#[trigger] rest[i]).url@ == url;
                assert(out[i] == rest[i]);
            }
            if has_url(out, url) {
                let i = choose|i: int| 0 <= i < out.len() && (#[trigger] out[i]).url@ == url;
                if i < rest.len() {
                    assert(out[i] == rest[i]);
                } else {
                    assert(all[all.len() - 1] == all.last());
                }
            }
            if url == all.last().url@ {
                assert(out[rest.len() as int] == all.last());
            }
        }
    }
}

/// The pull requests authored by or assigned to the user, each address
/// once, the authored ones first.
pub fn merge_prs(authored: Vec<PullRequest>, assigned: Vec<PullRequest>) -> (r: Vec<PullRequest>)
    ensures
        r@ == first_by_url(authored@ + assigned@),
{
    let ghost all = authored@ + assigned@;
    let mut rest = authored;
    let mut more = assigned;
    rest.append(&mut more);
    assert(rest@ == all);
    let mut out: Vec<PullRequest> = Vec::new();
    let ghost orig = rest@;
    while rest.len() > 0
        invariant
            orig == all,
            rest@.len() <= orig.len(),
            rest@ == orig.skip(orig.len() - rest@.len()),
            out@ == first_by_url(orig.take(orig.len() - rest@.len())),
        decreases rest.len(),
    {
        let ghost n = orig.len() - rest@.len();
        let pr = rest.remove(0);
        proof {
            assert(orig.take(n + 1).drop_last() =~= orig.take(n));
            assert(orig.take(n + 1).last() == pr);
            assert(rest@ =~= orig.skip(n + 1));
            lemma_first_by_url_urls(orig.take(n), pr.url@);
        }
        let mut seen = false;
        let mut k: usize = 0;
        while k < out.len()
            invariant
                k <= out.len(),
                !seen ==> forall|j: int| 0 <= j < k ==> out@[j].url@ != pr.url@,
                seen ==> has_url(out@, pr.url@),
            decreases out.len() - k,
        {
            if str_eq(out[k].url.as_str(), pr.url.as_str()) {
                seen = true;
            }
            k += 1;
        }
        if !seen {
            out.push(pr);
        }
    }
    assert(orig.take(orig.len() as int) =~= orig);
    out
}

/// A node id inside a GraphQL string literal: backslashes and double
/// quotes escaped with a backslash.
pub open spec fn escaped(s: Seq<char>) -> Seq<char>
    decreases s.len(),
{
    if s.len() == 0 {
        Seq::empty()
    } else {
        escaped(s.drop_last()) + if s.last() == '\\' {
            seq!['\\', '\\']
        } else if s.last() == '"' {
            seq!['\\', '"']
        } else {
            seq![s.last()]
        }
    }
}

fn push_escaped(out: &mut String, s: &str)
    ensures
        final(out)@ == old(out)@ + escaped(s@),
{
    let n = s.unicode_len();
    let mut i: usize = 0;
    while i < n
        invariant
            n == s@.len(),
            i <= n,
            out@ == old(out)@ + escaped(s@.take(i as int)),
        decreases n - i,
    {
        let c = s.get_char(i);
        proof {
            assert(s@.take(i + 1).drop_last() =~= s@.take(i as int));
            assert(s@.take(i + 1).last() == c);
        }
        let ghost before = out@;
        if c == '\\' {
            out.append("\\\\");
            proof {
                reveal_strlit("\\\\");
            }
        } else if c == '"' {
            out.append("\\\"");
            proof {
                reveal_strlit("\\\"");
            }
        } else {
            crate::keys::push_char(out, c);
        }
        assert(out@ =~= old(out)@ + escaped(s@.take(i + 1)));
        i += 1;
    }
    assert(s@.take(n as int) =~= s@);
}

/// The node ids of `prs` that are not empty, in order.
pub open spec fn node_ids(prs: Seq<PullRequest>) -> Seq<Seq<char>> {
    prs.filter(|p: PullRequest| p.node_id@.len() > 0).map_values(|p: PullRequest| p.node_id@)
}

/// The aliased lookups of a check-state query for `ids`, from index `from`.
pub open spec fn selections(ids: Seq<Seq<char>>, upto: int) -> Seq<char>
    decreases upto,
{
    if upto <= 0 {
        Seq::empty()
    } else {
        selections(ids, upto - 1) + "n"@ + decimal((upto - 1) as nat) + ": node(id: \""@ + escaped(ids[upto - 1])
            + "\") { ...S } "@
    }
}

/// The GraphQL query asking for the latest commit's check rollup of each
/// node id in `ids`, aliased `n0`, `n1`, ... in order.
pub open spec fn check_query(ids: Seq<Seq<char>>) -> Seq<char> {
    "query { "@ + selections(ids, ids.len() as int)
        + " } fragment S on PullRequest { commits(last: 1) { nodes { commit { statusCheckRollup { state } } } } }"@
}

/// The node ids to ask about and the query asking for them; `None` when
/// no pull request has a node id.
pub fn check_status_query(prs: &Vec<PullRequest>) -> (r: Option<(Vec<String>, String)>)
    ensures
        match r {
            Some((ids, q)) => ids@.map_values(|s: String| s@) == node_ids(prs@) && ids@.len() > 0 && q@
                == check_query(node_ids(prs@)),
            None => node_ids(prs@).len() == 0,
        },
{
    let ghost f = |p: PullRequest| p.node_id@.len() > 0;
    let mut ids: Vec<String> = Vec::new();
    let mut i: usize = 0;
    while i < prs.len()
        invariant
            i <= prs.len(),
            f == (|p: PullRequest| p.node_id@.len() > 0),
            ids@.map_values(|s: String| s@) == prs@.take(i as int).filter(f).map_values(
                |p: PullRequest| p.node_id@,
            ),
        decreases prs.len() - i,
    {
        let p = &prs[i];
        proof {
            assert(prs@.take(i + 1) =~= prs@.take(i as int).push(*p));
            prs@.take(i as int).lemma_filter_push(*p, f);
        }
        if p.node_id.as_str().unicode_len() > 0 {
            let ghost before = ids@;
            ids.push(p.node_id.clone());
            assert(ids@.map_values(|s: String| s@) =~= before.map_values(|s: String| s@).push(p.node_id@));
            assert(prs@.take(i + 1).filter(f).map_values(|p: PullRequest| p.node_id@) =~= prs@.take(
                i as int,
            ).filter(f).map_values(|p: PullRequest| p.node_id@).push(p.node_id@));
        }
        i += 1;
    }
    assert(prs@.take(prs.len() as int) =~= prs@);
    let ghost idv = ids@.map_values(|s: String| s@);
    assert(idv == node_ids(prs@));
    if ids.len() == 0 {
        return None;
    }
    let mut q = String::from_str("query { ");
    let mut k: usize = 0;
    while k < ids.len()
        invariant
            k <= ids.len(),
            idv == ids@.map_values(|s: String| s@),
            q@ == "query { "@ + selections(idv, k as int),
        decreases ids.len() - k,
    {
        q.append("n");
        push_decimal(&mut q, k as u64);
        q.append(": node(id: \"");
        push_escaped(&mut q, ids[k].as_str());
        q.append("\") { ...S } ");
        assert(idv[k as int] == ids@[k as int]@);
        assert(q@ =~= "query { "@ + selections(idv, k + 1));
        k += 1;
    }
    q.append(" } fragment S on PullRequest { commits(last: 1) { nodes { commit { statusCheckRollup { state } } } } }");
    assert(q@ =~= check_query(idv));
    Some((ids, q))
}

/// The check state reported for each asked node id, in order: the ids
/// paired with the states that name one of the three outcomes.
pub open spec fn states_of(ids: Seq<Seq<char>>, states: Seq<Option<String>>) -> Seq<(Seq<char>, CheckStatus)>
    decreases ids.len(),
{
    if ids.len() == 0 {
        Seq::empty()
    } else {
        let k = ids.len() - 1;
        let rest = states_of(ids.drop_last(), states);
        match if k < states.len() {
            states[k]
        } else {
            None
        } {
            Some(s) => match check_state_of(s@) {
                Some(c) => rest.push((ids[k], c)),
                None => rest,
            },
            None => rest,
        }
    }
}

/// Pairs each asked node id with the check state reported for its alias
/// (`states[i]` for `n{i}`), keeping those that name an outcome.
pub fn check_states(ids: &Vec<String>, states: &Vec<Option<String>>) -> (r: Vec<(String, CheckStatus)>)
    ensures
        r@.map_values(|p: (String, CheckStatus)| (p.0@, p.1)) == states_of(ids@.map_values(|s: String| s@), states@),
{
    let ghost idv = ids@.map_values(|s: String| s@);
    let mut r: Vec<(String, CheckStatus)> = Vec::new();
    let mut i: usize = 0;
    while i < ids.len()
        invariant
            i <= ids.len(),
            idv == ids@.map_values(|s: String| s@),
            r@.map_values(|p: (String, CheckStatus)| (p.0@, p.1)) == states_of(idv.take(i as int), states@),
        decreases ids.len() - i,
    {
        proof {
            assert(idv.take(i + 1).drop_last() =~= idv.take(i as int));
            assert(idv.take(i + 1)[i as int] == ids@[i as int]@);
        }
        let st: Option<CheckStatus> = if i < states.len() {
            match &states[i] {
                Some(s) => parse_check_state(s.as_str()),
                None => None,
            }
        } else {
            None
        };
        if let Some(c) = st {
            let ghost before = r@;
            r.push((ids[i].clone(), c));
            assert(r@.map_values(|p: (String, CheckStatus)| (p.0@, p.1)) =~= before.map_values(
                |p: (String, CheckStatus)| (p.0@, p.1),
            ).push((ids@[i as int]@, c)));
        }
        i += 1;
    }
    assert(idv.take(ids.len() as int) =~= idv);
    r
}

/// The state `table` gives node id `id`: its last entry for the id wins.
pub open spec fn state_for(table: Seq<(String, CheckStatus)>, id: Seq<char>) -> Option<CheckStatus>
    decreases table.len(),
{
    if table.len() == 0 {
        None
    } else if table.last().0@ == id {
        Some(table.last().1)
    } else {
        state_for(table.drop_last(), id)
    }
}

fn lookup_state(table: &Vec<(String, CheckStatus)>, id: &str) -> (r: Option<CheckStatus>)
    ensures
        r == state_for(table@, id@),
{
    let mut k: usize = table.len();
    assert(table@.take(k as int) =~= table@);
    while k > 0
        invariant
            k <= table.len(),
            state_for(table@, id@) == state_for(table@.take(k as int), id@),
        decreases k,
    {
        assert(table@.take(k as int).drop_last() =~= table@.take(k - 1));
        assert(table@.take(k as int).last() == table@[k - 1]);
        if str_eq(table[k - 1].0.as_str(), id) {
            return Some(table[k - 1].1);
        }
        k -= 1;
    }
    None
}

/// Sets each pull request's check state from `table` where it has one.
pub fn apply_check_states(prs: &mut Vec<PullRequest>, table: &Vec<(String, CheckStatus)>)
    ensures
        final(prs)@.len() == old(prs)@.len(),
        forall|i: int|
            0 <= i < final(prs)@.len() ==> (#[trigger] final(prs)@[i]) == match state_for(
                table@,
                old(prs)@[i].node_id@,
            ) {
                Some(s) => PullRequest { check_status: Some(s), ..old(prs)@[i] },
                None => old(prs)@[i],
            },
{
    let mut i: usize = 0;
    while i < prs.len()
        invariant
            i <= prs.len(),
            prs@.len() == old(prs)@.len(),
            forall|j: int|
                0 <= j < i ==> (#[trigger] prs@[j]) == match state_for(table@, old(prs)@[j].node_id@) {
                    Some(s) => PullRequest { check_status: Some(s), ..old(prs)@[j] },
                    None => old(prs)@[j],
                },
            forall|j: int| i <= j < prs@.len() ==> prs@[j] == old(prs)@[j],
        decreases prs.len() - i,
    {
        let st = lookup_state(table, prs[i].node_id.as_str());
        if let Some(s) = st {
            let mut p = prs.remove(i);
            p.check_status = Some(s);
            prs.insert(i, p);
        }
        i += 1;
    }
}

/// A Jira field given either as a plain string or as an object with a
/// `name`.
pub struct NameField {
    pub text: Option<String>,
    pub name: Option<String>,
}

/// The text of a Jira field: the string itself, else its `name`, else empty.
pub open spec fn name_of(f: NameField) -> Seq<char> {
    match f.text {
        Some(t) => t@,
        None => text_or(f.name, ""@),
    }
}

fn name_text(f: NameField) -> (r: String)
    ensures
        r@ == name_of(f),
{
    match f.text {
        Some(t) => t,
        None => string_or(f.name, ""),
    }
}

/// The fields of one `acli jira workitem search --json` item (read from
/// the item, or from its `fields` object when it has one).
pub struct JiraItem {
    pub key: Option<String>,
    pub summary: Option<String>,
    pub status: NameField,
    pub priority: NameField,
    pub issue_type: NameField,
}

/// A card key's project: what comes before its first `-`, empty without one.
pub open spec fn project_key_of(key: Seq<char>) -> Seq<char> {
    if exists|i: int| first_index_of(key, '-', i) {
        key.take(choose|i: int| first_index_of(key, '-', i))
    } else {
        ""@
    }
}

/// The project of card key `key`.
pub fn project_key(key: &str) -> (r: String)
    ensures
        r@ == project_key_of(key@),
{
    match find_char(key, '-') {
        Some(i) => {
            proof {
                let j = choose|j: int| first_index_of(key@, '-', j);
                if j < i {
                    assert(key@[j] != '-');
                } else if j > i {
                    assert(key@[i as int] != '-');
                }
            }
            let head = key.substring_char(0, i);
            assert(head@ =~= key@.take(i as int));
            String::from_str(head)
        },
        None => {
            proof {
                reveal_strlit("");
                if exists|i: int| first_index_of(key@, '-', i) {
                    let j = choose|j: int| first_index_of(key@, '-', j);
                    assert(key@[j] == '-');
                }
            }
            String::new()
        },
    }
}

/// A Jira card from a search item: missing texts are empty.
pub open spec fn card_of(item: JiraItem, card: JiraCard) -> bool {
    &&& card.key@ == text_or(item.key, ""@)
    &&& card.project_key@ == project_key_of(card.key@)
    &&& card.summary@ == text_or(item.summary, ""@)
    &&& card.status@ == name_of(item.status)
    &&& card.priority@ == name_of(item.priority)
    &&& card.issue_type@ == name_of(item.issue_type)
}

/// The Jira card of a search item.
pub fn card_from_item(item: JiraItem) -> (card: JiraCard)
    ensures
        card_of(item, card),
{
    let ghost g = item;
    let key = string_or(item.key, "");
    let pk = project_key(key.as_str());
    JiraCard {
        key,
        project_key: pk,
        summary: string_or(item.summary, ""),
        status: name_text(item.status),
        priority: name_text(item.priority),
        issue_type: name_text(item.issue_type),
    }
}

/// One entry of `gws calendar calendarList list`.
pub struct CalendarEntry {
    pub id: Option<String>,
    pub selected: Option<bool>,
    pub hidden: Option<bool>,
    pub summary_override: Option<String>,
    pub summary: Option<String>,
}

/// The calendar an entry stands for, when it is selected, not hidden and
/// has an id: its id, and the user's name for it, else its own name,
/// else its id.
pub open spec fn calendar_of(e: CalendarEntry) -> Option<(Seq<char>, Seq<char>)> {
    if e.selected == Some(true) && e.hidden != Some(true) && e.id is Some {
        let id = e.id->0@;
        Some(
            (
                id,
                match e.summary_override {
                    Some(n) => n@,
                    None => text_or(e.summary, id),
                },
            ),
        )
    } else {
        None
    }
}

/// The calendars of `entries` shown on the agenda, in order.
pub open spec fn calendars_of(entries: Seq<CalendarEntry>) -> Seq<(Seq<char>, Seq<char>)>
    decreases entries.len(),
{
    if entries.len() == 0 {
        Seq::empty()
    } else {
        let rest = calendars_of(entries.drop_last());
        match calendar_of(entries.last()) {
            Some(c) => rest.push(c),
            None => rest,
        }
    }
}

/// The (id, name) of each calendar the agenda blends.
pub fn visible_calendars(entries: Vec<CalendarEntry>) -> (r: Vec<(String, String)>)
    ensures
        r@.map_values(|p: (String, String)| (p.0@, p.1@)) == calendars_of(entries@),
{
    let ghost orig = entries@;
    let mut rest = entries;
    let mut out: Vec<(String, String)> = Vec::new();
    while rest.len() > 0
        invariant
            rest@.len() <= orig.len(),
            rest@ == orig.skip(orig.len() - rest@.len()),
            out@.map_values(|p: (String, String)| (p.0@, p.1@)) == calendars_of(orig.take(orig.len() - rest@.len())),
        decreases rest.len(),
    {
        let ghost n = orig.len() - rest@.len();
        let e = rest.remove(0);
        proof {
            assert(orig.take(n + 1).drop_last() =~= orig.take(n));
            assert(orig.take(n + 1).last() == e);
            assert(rest@ =~= orig.skip(n + 1));
        }
        let ghost ge = e;
        let keep = e.selected == Some(true) && e.hidden != Some(true);
        if keep {
            if let Some(id) = e.id {
                let name = match e.summary_override {
                    Some(n) => n,
                    None => match e.summary {
                        Some(n) => n,
                        None => id.clone(),
                    },
                };
                let ghost before = out@;
                out.push((id, name));
                assert(out@.map_values(|p: (String, String)| (p.0@, p.1@)) =~= before.map_values(
                    |p: (String, String)| (p.0@, p.1@),
                ).push(calendar_of(ge)->0));
            }
        }
    }
    assert(orig.take(orig.len() as int) =~= orig);
    out
}

/// The `start` or `end` object of a calendar event.
pub struct TimeField {
    pub date_time: Option<String>,
    pub date: Option<String>,
}

/// A time stamp and whether it is a whole day: `dateTime` for timed
/// events, `date` for all-day ones, empty when neither is there.
pub open spec fn time_of(t: TimeField) -> (Seq<char>, bool) {
    match t.date_time {
        Some(d) => (d@, false),
        None => match t.date {
            Some(d) => (d@, true),
            None => (""@, false),
        },
    }
}

/// The time stamp of an event's start or end.
pub fn extract_time(t: TimeField) -> (r: (String, bool))
    ensures
        (r.0@, r.1) == time_of(t),
{
    match t.date_time {
        Some(d) => (d, false),
        None => match t.date {
            Some(d) => (d, true),
            None => {
                proof {
                    reveal_strlit("");
                }
                (String::new(), false)
            },
        },
    }
}

/// One item of `gws calendar events list`.
pub struct EventItem {
    pub status: Option<String>,
    pub start: TimeField,
    pub end: TimeField,
    pub summary: Option<String>,
    pub location: Option<String>,
    pub html_link: Option<String>,
}

/// The event an item stands for on calendar `cal`, unless it was cancelled.
pub open spec fn event_of(item: EventItem, cal: Seq<char>, ev: CalendarEvent) -> bool {
    &&& ev.summary@ == text_or(item.summary, "(no title)"@)
    &&& ev.start@ == time_of(item.start).0
    &&& ev.all_day == time_of(item.start).1
    &&& ev.end@ == time_of(item.end).0
    &&& ev.location@ == text_or(item.location, ""@)
    &&& ev.html_link@ == text_or(item.html_link, ""@)
    &&& ev.calendar_name@ == cal
}

/// An item the API marks as a cancelled instance.
pub open spec fn cancelled(item: EventItem) -> bool {
    item.status matches Some(s) && s@ == "cancelled"@
}

/// The events of calendar `cal` from its items, cancelled ones left out.
pub fn events_from_items(items: Vec<EventItem>, cal: &str) -> (r: Vec<CalendarEvent>)
    ensures
        exists|kept: Seq<EventItem>|
            #[trigger] kept.len() == r@.len() && kept == items@.filter(|i: EventItem| !cancelled(i)) && forall|
                k: int,
            |
                0 <= k < r@.len() ==> event_of(kept[k], cal@, #[trigger] r@[k]),
{
    let ghost orig = items@;
    let ghost f = |i: EventItem| !cancelled(i);
    let mut rest = items;
    let mut out: Vec<CalendarEvent> = Vec::new();
    while rest.len() > 0
        invariant
            f == (|i: EventItem| !cancelled(i)),
            rest@.len() <= orig.len(),
            rest@ == orig.skip(orig.len() - rest@.len()),
            out@.len() == orig.take(orig.len() - rest@.len()).filter(f).len(),
            forall|k: int|
                0 <= k < out@.len() ==> event_of(
                    orig.take(orig.len() - rest@.len()).filter(f)[k],
                    cal@,
                    #[trigger] out@[k],
                ),
        decreases rest.len(),
    {
        let ghost n = orig.len() - rest@.len();
        let it = rest.remove(0);
        proof {
            assert(orig.take(n + 1) =~= orig.take(n).push(it));
            orig.take(n).lemma_filter_push(it, f);
            assert(rest@ =~= orig.skip(n + 1));
        }
        let is_cancelled = match &it.status {
            Some(s) => str_eq(s.as_str(), "cancelled"),
            None => false,
        };
        let ghost gi = it;
        if !is_cancelled {
            let (start, all_day) = extract_time(it.start);
            let (end, _) = extract_time(it.end);
            let ev = CalendarEvent {
                summary: string_or(it.summary, "(no title)"),
                start,
                end,
                all_day,
                location: string_or(it.location, ""),
                html_link: string_or(it.html_link, ""),
                calendar_name: String::from_str(cal),
            };
            out.push(ev);
        }
    }
    assert(orig.take(orig.len() as int) =~= orig);
    out
}

/// Whether the scopes `gws auth status` reports grant calendar access.
pub open spec fn calendar_scope(s: Seq<char>) -> bool {
    s == "https://www.googleapis.com/auth/calendar"@ || s == "https://www.googleapis.com/auth/calendar.readonly"@
        || s == "https://www.googleapis.com/auth/calendar.events"@
        || s == "https://www.googleapis.com/auth/calendar.events.readonly"@
}

/// Whether one of `scopes` grants calendar access.
pub fn calendar_scope_granted(scopes: &Vec<String>) -> (r: bool)
    ensures
        r == exists|i: int| 0 <= i < scopes@.len() && calendar_scope(#[trigger] scopes@[i]@),
{
    let mut i: usize = 0;
    while i < scopes.len()
        invariant
            i <= scopes.len(),
            forall|j: int| 0 <= j < i ==> !calendar_scope(#[trigger] scopes@[j]@),
        decreases scopes.len() - i,
    {
        let s = scopes[i].as_str();
        if str_eq(s, "https://www.googleapis.com/auth/calendar") || str_eq(
            s,
            "https://www.googleapis.com/auth/calendar.readonly",
        ) || str_eq(s, "https://www.googleapis.com/auth/calendar.events") || str_eq(
            s,
            "https://www.googleapis.com/auth/calendar.events.readonly",
        ) {
            return true;
        }
        i += 1;
    }
    false
}

/// Two events that read the same.
pub open spec fn same_event(a: CalendarEvent, b: CalendarEvent) -> bool {
    &&& a.summary@ == b.summary@ && a.start@ == b.start@ && a.end@ == b.end@ && a.all_day == b.all_day
    &&& a.location@ == b.location@ && a.html_link@ == b.html_link@ && a.calendar_name@ == b.calendar_name@
}

fn dup_event(e: &CalendarEvent) -> (r: CalendarEvent)
    ensures
        same_event(r, *e),
{
    CalendarEvent {
        summary: e.summary.clone(),
        start: e.start.clone(),
        end: e.end.clone(),
        all_day: e.all_day,
        location: e.location.clone(),
        html_link: e.html_link.clone(),
        calendar_name: e.calendar_name.clone(),
    }
}

/// The events of the calendars that answered, in calendar order.
pub open spec fn answered(rs: Seq<Result<Vec<CalendarEvent>, String>>) -> Seq<CalendarEvent>
    decreases rs.len(),
{
    if rs.len() == 0 {
        Seq::empty()
    } else {
        answered(rs.drop_last()) + match rs.last() {
            Ok(v) => v@,
            Err(_) => Seq::empty(),
        }
    }
}

/// Some calendar answered.
pub open spec fn some_answered(rs: Seq<Result<Vec<CalendarEvent>, String>>) -> bool {
    exists|i: int| 0 <= i < rs.len() && (#[trigger] rs[i]) is Ok
}

/// The first failure among the answers.
pub open spec fn first_failure(rs: Seq<Result<Vec<CalendarEvent>, String>>) -> Option<Seq<char>>
    decreases rs.len(),
{
    if rs.len() == 0 {
        None
    } else {
        match first_failure(rs.drop_last()) {
            Some(e) => Some(e),
            None => match rs.last() {
                Err(e) => Some(e@),
                Ok(_) => None,
            },
        }
    }
}

/// Sort keys of events by start.
pub open spec fn start_keys(evs: Seq<CalendarEvent>) -> Seq<crate::order::KeyView> {
    evs.map_values(|e: CalendarEvent| (e.start@, Seq::<char>::empty(), 0int, 0int))
}

/// The agenda from each calendar's answer: a failure when no calendar
/// answered and one failed (the first failure), else every answered event
/// in a stable sort by start.
pub open spec fn agenda_of(rs: Seq<Result<Vec<CalendarEvent>, String>>, r: Result<Vec<CalendarEvent>, String>) -> bool {
    if !some_answered(rs) && first_failure(rs) is Some {
        r matches Err(e) && Some(e@) == first_failure(rs)
    } else {
        let all = answered(rs);
        r matches Ok(out) && exists|idx: Seq<usize>|
            #[trigger] crate::order::sorted_selection(false, start_keys(all), crate::settings::all_kept(all.len()), idx)
                && out@.len() == idx.len() && forall|k: int|
                0 <= k < idx.len() ==> same_event(out@[k], all[idx[k] as int])
    }
}

proof fn lemma_first_failure_found(rs: Seq<Result<Vec<CalendarEvent>, String>>, i: int)
    requires
        0 <= i < rs.len(),
        rs[i] is Err,
    ensures
        first_failure(rs) is Some,
    decreases rs.len(),
{
    if i < rs.len() - 1 {
        lemma_first_failure_found(rs.drop_last(), i);
    }
}

/// Local midnight `days` days from today as an RFC 3339 text, from
/// `chrono::Local::now().date_naive() + Duration::days(days)`,
/// `and_hms_opt(0, 0, 0)`, `Local.from_local_datetime(..).single()` and
/// `to_rfc3339`; `None` when that local midnight does not exist once
/// (a time-zone change at midnight). It depends on the clock and the time
/// zone, so nothing is said of it.
#[verifier::external_body]
fn local_midnight(days: i64) -> Option<String>
    requires
        0 <= days <= 1,
{
    let day = chrono::Local::now().date_naive() + chrono::Duration::days(days);
    match day.and_hms_opt(0, 0, 0) {
        Some(t) => match chrono::TimeZone::from_local_datetime(&chrono::Local, &t).single() {
            Some(d) => Some(d.to_rfc3339()),
            None => None,
        },
        None => None,
    }
}

/// Why the day's window could not be found.
pub open spec fn window_error(e: Seq<char>) -> bool {
    e == "ambiguous local midnight today"@ || e == "ambiguous local midnight tomorrow"@
}

/// The calendar window of today: from local midnight today to local
/// midnight tomorrow; an error names the midnight that could not be
/// placed.
pub fn agenda_window() -> (r: Result<(String, String), String>)
    ensures
        r matches Err(e) ==> window_error(e@),
{
    let start = match local_midnight(0) {
        Some(s) => s,
        None => {
            proof {
                reveal_strlit("ambiguous local midnight today");
            }
            return Err(String::from_str("ambiguous local midnight today"));
        },
    };
    match local_midnight(1) {
        Some(end) => Ok((start, end)),
        None => {
            proof {
                reveal_strlit("ambiguous local midnight tomorrow");
            }
            Err(String::from_str("ambiguous local midnight tomorrow"))
        },
    }
}

/// Blends the answers of every calendar into the day's agenda.
pub fn merge_agenda(results: Vec<Result<Vec<CalendarEvent>, String>>) -> (r: Result<Vec<CalendarEvent>, String>)
    ensures
        agenda_of(results@, r),
{
    let ghost orig = results@;
    let mut rest = results;
    let mut all: Vec<CalendarEvent> = Vec::new();
    let mut first_error: Option<String> = None;
    let mut any_ok = false;
    while rest.len() > 0
        invariant
            rest@.len() <= orig.len(),
            rest@ == orig.skip(orig.len() - rest@.len()),
            all@ == answered(orig.take(orig.len() - rest@.len())),
            opt_view(first_error) == first_failure(orig.take(orig.len() - rest@.len())),
            any_ok == some_answered(orig.take(orig.len() - rest@.len())),
        decreases rest.len(),
    {
        let ghost n = orig.len() - rest@.len();
        let res = rest.remove(0);
        proof {
            let t = orig.take(n + 1);
            assert(t.drop_last() =~= orig.take(n));
            assert(t.last() == res);
            assert(rest@ =~= orig.skip(n + 1));
            if some_answered(t) && !some_answered(orig.take(n)) {
                let i = choose|i: int| 0 <= i < t.len() && (#[trigger] t[i]) is Ok;
                if i < n {
                    assert(orig.take(n)[i] == t[i]);
                }
            }
            if some_answered(orig.take(n)) {
                let i = choose|i: int| 0 <= i < orig.take(n).len() && (#[trigger] orig.take(n)[i]) is Ok;
                assert(t[i] == orig.take(n)[i]);
            }
        }
        match res {
            Ok(batch) => {
                let mut b = batch;
                all.append(&mut b);
                any_ok = true;
                proof {
                    assert(orig.take(n + 1)[n] is Ok);
                }
            },
            Err(e) => {
                if first_error.is_none() {
                    first_error = Some(e);
                }
            },
        }
    }
    assert(orig.take(orig.len() as int) =~= orig);
    if !any_ok {
        if let Some(e) = first_error {
            return Err(e);
        }
    }
    let mut keys: Vec<crate::order::SortKey> = Vec::new();
    let mut keep: Vec<bool> = Vec::new();
    let mut i: usize = 0;
    while i < all.len()
        invariant
            i <= all.len(),
            keys@.len() == i,
            keep@.len() == i,
            forall|k: int| 0 <= k < i ==> (#[trigger] keys@[k])@ == (all@[k].start@, Seq::<char>::empty(), 0int, 0int),
            forall|k: int| 0 <= k < i ==> #[trigger] keep@[k],
        decreases all.len() - i,
    {
        keys.push(crate::order::SortKey { s1: all[i].start.clone(), s2: String::new(), n1: 0, n2: 0 });
        keep.push(true);
        i += 1;
    }
    assert(crate::order::key_views(keys@) =~= start_keys(all@));
    assert(keep@ =~= crate::settings::all_kept(all@.len()));
    let idx = crate::order::sorted_rows_exec(&keys, &keep, false);
    let mut out: Vec<CalendarEvent> = Vec::new();
    let mut k: usize = 0;
    while k < idx.len()
        invariant
            k <= idx.len(),
            out@.len() == k,
            crate::order::sorted_selection(false, start_keys(all@), crate::settings::all_kept(all@.len()), idx@),
            forall|j: int| 0 <= j < k ==> same_event(out@[j], all@[idx@[j] as int]),
        decreases idx.len() - k,
    {
        let j = idx[k];
        assert(j < all@.len());
        out.push(dup_event(&all[j]));
        k += 1;
    }
    Ok(out)
}

} // verus!
