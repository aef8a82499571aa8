//! Pull requests grouped by owner for the sidebar, and the list of the
//! chosen owner.
use vstd::prelude::*;
use vstd::string::*;

use crate::app::{find_char, first_index_of, str_set, vec_contains_str, vec_insert_str, App, Pane};
use crate::model::PullRequest;
use crate::text::{lemma_lex_lt_total, lemma_lex_lt_transitive, lex_lt, str_eq, str_lt};

verus! {

/// The owner of `owner/name`: the text before the first `/`.
pub open spec fn pr_owner(repo: Seq<char>) -> Option<Seq<char>> {
    if exists|i: int| first_index_of(repo, '/', i) {
        Some(repo.take(choose|i: int| first_index_of(repo, '/', i)))
    } else {
        None
    }
}

/// The owner part of a repository name.
pub fn repo_owner(repo: &str) -> (r: Option<String>)
    ensures
        match r {
            Some(o) => pr_owner(repo@) == Some(o@),
            None => pr_owner(repo@) is None,
        },
{
    match find_char(repo, '/') {
        Some(i) => {
            proof {
                let k = choose|k: int| first_index_of(repo@, '/', k);
                if k < i {
                    assert(repo@[k] != '/');
                } else if k > i {
                    assert(repo@[i as int] != '/');
                }
            }
            let o = repo.substring_char(0, i);
            assert(o@ =~= repo@.take(i as int));
            Some(o.to_string())
        },
        None => None,
    }
}

/// The owner of a pull request is hidden from the sidebar and All view.
pub open spec fn owner_hidden(hidden: Set<Seq<char>>, repo: Seq<char>) -> bool {
    match pr_owner(repo) {
        Some(o) => hidden.contains(o),
        None => false,
    }
}

/// Pull requests of `prs` whose owner is `o`.
pub open spec fn owner_count(prs: Seq<PullRequest>, o: Seq<char>) -> nat
    decreases prs.len(),
{
    if prs.len() == 0 {
        0
    } else {
        owner_count(prs.drop_last(), o) + if pr_owner(prs.last().repo_full_name@) == Some(o) {
            1nat
        } else {
            0nat
        }
    }
}

/// Owners with an open pull request that are neither empty (a malformed
/// repository name such as `/x`) nor hidden.
pub open spec fn shown_owner(prs: Seq<PullRequest>, hidden: Set<Seq<char>>, o: Seq<char>) -> bool {
    o.len() > 0 && !hidden.contains(o) && exists|i: int|
        0 <= i < prs.len() && pr_owner((#[trigger] prs[i]).repo_full_name@) == Some(o)
}

/// `r` lists each shown owner once, alphabetically, with its count.
pub open spec fn owner_counts_ok(prs: Seq<PullRequest>, hidden: Set<Seq<char>>, r: Seq<(String, usize)>) -> bool {
    &&& forall|a: int, b: int| 0 <= a < b < r.len() ==> lex_lt((#[trigger] r[a]).0@, (#[trigger] r[b]).0@)
    &&& forall|k: int|
        0 <= k < r.len() ==> shown_owner(prs, hidden, (#[trigger] r[k]).0@) && r[k].1 == owner_count(
            prs,
            r[k].0@,
        )
    &&& forall|o: Seq<char>| shown_owner(prs, hidden, o) ==> exists|k: int| 0 <= k < r.len() && (#[trigger] r[k]).0@ == o
}

proof fn lemma_owner_count_pos(prs: Seq<PullRequest>, o: Seq<char>)
    requires
        owner_count(prs, o) > 0,
    ensures
        exists|i: int| 0 <= i < prs.len() && pr_owner((#[trigger] prs[i]).repo_full_name@) == Some(o),
    decreases prs.len(),
{
    if pr_owner(prs.last().repo_full_name@) == Some(o) {
        assert(prs[prs.len() - 1] == prs.last());
    } else {
        lemma_owner_count_pos(prs.drop_last(), o);
        let i = choose|i: int|
            0 <= i < prs.drop_last().len() && pr_owner((#[trigger] prs.drop_last()[i]).repo_full_name@)
                == Some(o);
        assert(prs[i] == prs.drop_last()[i]);
    }
}

/// `repo` starts with `org/`.
pub open spec fn in_org(repo: Seq<char>, org: Seq<char>) -> bool {
    repo.len() > org.len() && repo.take(org.len() as int) == org && repo[org.len() as int] == '/'
}

fn in_org_exec(repo: &str, org: &str) -> (r: bool)
    ensures
        r == in_org(repo@, org@),
{
    let n = org.unicode_len();
    let m = repo.unicode_len();
    if m <= n {
        return false;
    }
    let head = repo.substring_char(0, n);
    assert(head@ =~= repo@.take(n as int));
    str_eq(head, org) && repo.get_char(n) == '/'
}

impl App {
    /// Pull requests of the owner being viewed, in fetched order.
    pub fn active_org_prs(&self) -> (r: Vec<&PullRequest>)
        ensures
            match self.views.active_pr_org {
                None => r@.len() == 0,
                Some(org) => derefs(r@) == self.external.github_prs@.filter(
                    |p: PullRequest| in_org(p.repo_full_name@, org@),
                ),
            },
    {
        let org = match &self.views.active_pr_org {
            Some(o) => o,
            None => {
                let r: Vec<&PullRequest> = Vec::new();
                return r;
            },
        };
        let prs = &self.external.github_prs;
        let ghost f = |p: PullRequest| in_org(p.repo_full_name@, org@);
        let mut r: Vec<&PullRequest> = Vec::new();
        let mut i: usize = 0;
        while i < prs.len()
            invariant
                prs == &self.external.github_prs,
                self.views.active_pr_org == Some(*org),
                f == (|p: PullRequest| in_org(p.repo_full_name@, org@)),
                i <= prs.len(),
                derefs(r@) == prs@.take(i as int).filter(f),
            decreases prs.len() - i,
        {
            let p = &prs[i];
            proof {
                assert(prs@.take(i + 1) =~= prs@.take(i as int).push(*p));
                prs@.take(i as int).lemma_filter_push(*p, f);
            }
            let ghost before = r@;
            if in_org_exec(p.repo_full_name.as_str(), org.as_str()) {
                r.push(p);
                assert(derefs(r@) =~= derefs(before).push(*p));
            }
            i += 1;
        }
        assert(prs@.take(prs.len() as int) =~= prs@);
        r
    }

    /// Owners with open pull requests, alphabetically, with their counts;
    /// hidden owners and repositories without an owner are left out.
    pub fn pr_owners_with_counts(&self) -> (r: Vec<(String, usize)>)
        ensures
            owner_counts_ok(self.external.github_prs@, str_set(self.external.hidden_pr_orgs@), r@),
    {
        let prs = &self.external.github_prs;
        let ghost hidden = str_set(self.external.hidden_pr_orgs@);
        let mut r: Vec<(String, usize)> = Vec::new();
        let mut i: usize = 0;
        while i < prs.len()
            invariant
                prs == &self.external.github_prs,
                hidden == str_set(self.external.hidden_pr_orgs@),
                i <= prs.len(),
                owner_counts_ok(prs@.take(i as int), hidden, r@),
                forall|k: int| 0 <= k < r.len() ==> (#[trigger] r@[k]).1 <= i,
            decreases prs.len() - i,
        {
            let ghost pre = prs@.take(i as int);
            let ghost post = prs@.take(i + 1);
            let ghost old_r = r@;
            proof {
                assert(post.drop_last() =~= pre);
                assert(post.last() == prs@[i as int]);
                assert forall|x: Seq<char>| #[trigger] owner_count(post, x) == owner_count(pre, x)
                    + if pr_owner(prs@[i as int].repo_full_name@) == Some(x) {
                    1nat
                } else {
                    0nat
                } by {}
                assert forall|x: Seq<char>|
                    #[trigger] shown_owner(pre, hidden, x) ==> shown_owner(post, hidden, x) by {
                    if shown_owner(pre, hidden, x) {
                        let j = choose|j: int|
                            0 <= j < pre.len() && pr_owner((#[trigger] pre[j]).repo_full_name@) == Some(x);
                        assert(post[j] == pre[j]);
                    }
                }
            }
            match repo_owner(prs[i].repo_full_name.as_str()) {
                None => {
                    proof {
                        assert forall|x: Seq<char>| #[trigger] shown_owner(post, hidden, x) implies shown_owner(pre, hidden, x) by {
                            let j = choose|j: int|
                                0 <= j < post.len() && pr_owner((#[trigger] post[j]).repo_full_name@) == Some(x);
                            if j < i {
                                assert(post[j] == pre[j]);
                            }
                        }
                    }
                },
                Some(o) => {
                    if o.as_str().unicode_len() == 0 || vec_contains_str(&self.external.hidden_pr_orgs, o.as_str()) {
                        proof {
                            assert forall|x: Seq<char>| #[trigger] shown_owner(post, hidden, x) implies shown_owner(pre, hidden, x) by {
                                let j = choose|j: int|
                                    0 <= j < post.len() && pr_owner((#[trigger] post[j]).repo_full_name@) == Some(x);
                                if j < i {
                                    assert(post[j] == pre[j]);
                                }
                            }
                        }
                    } else {
                        let mut p: usize = 0;
                        while p < r.len() && str_lt(r[p].0.as_str(), o.as_str())
                            invariant
                                p <= r.len(),
                                forall|k: int| 0 <= k < p ==> lex_lt((#[trigger] r@[k]).0@, o@),
                            decreases r.len() - p,
                        {
                            p += 1;
                        }
                        proof {
                            assert(shown_owner(post, hidden, o@)) by {
                                assert(post[i as int] == prs@[i as int]);
                            }
                            assert forall|x: Seq<char>| #[trigger] shown_owner(post, hidden, x) implies shown_owner(pre, hidden, x) || x == o@ by {
                                let j = choose|j: int|
                                    0 <= j < post.len() && pr_owner((#[trigger] post[j]).repo_full_name@) == Some(x);
                                if j < i {
                                    assert(post[j] == pre[j]);
                                }
                            }
                        }
                        if p < r.len() && str_eq(r[p].0.as_str(), o.as_str()) {
                            let (name, n) = r.remove(p);
                            r.insert(p, (name, n + 1));
                            proof {
                                assert(r@ == old_r.update(p as int, (old_r[p as int].0, (n + 1) as usize)));
                                assert forall|k: int| 0 <= k < r.len() implies shown_owner(post, hidden, (#[trigger] r@[k]).0@) && r@[k].1 == owner_count(post, r@[k].0@) by {
                                    assert(shown_owner(pre, hidden, old_r[k].0@));
                                }
                                assert forall|x: Seq<char>| shown_owner(post, hidden, x) implies exists|k: int| 0 <= k < r.len() && (#[trigger] r@[k]).0@ == x by {
                                    if x == o@ {
                                        assert(r@[p as int].0@ == x);
                                    } else {
                                        assert(shown_owner(pre, hidden, x));
                                        let k = choose|k: int| 0 <= k < old_r.len() && (#[trigger] old_r[k]).0@ == x;
                                        assert(r@[k].0@ == x);
                                    }
                                }
                                assert forall|a: int, b: int| 0 <= a < b < r.len() implies lex_lt((#[trigger] r@[a]).0@, (#[trigger] r@[b]).0@) by {
                                    assert(old_r[a].0@ == r@[a].0@ && old_r[b].0@ == r@[b].0@);
                                }
                            }
                        } else {
                            proof {
                                assert(!shown_owner(pre, hidden, o@)) by {
                                    if shown_owner(pre, hidden, o@) {
                                        let k = choose|k: int| 0 <= k < old_r.len() && (#[trigger] old_r[k]).0@ == o@;
                                        if k < p {
                                            lemma_lex_lt_total(old_r[k].0@, o@);
                                        } else if k > p {
                                            lemma_lex_lt_total(old_r[p as int].0@, o@);
                                            assert(lex_lt(old_r[p as int].0@, old_r[k].0@));
                                            lemma_lex_lt_transitive(o@, old_r[p as int].0@, old_r[k].0@);
                                            lemma_lex_lt_total(o@, o@);
                                        }
                                    }
                                }
                                if owner_count(pre, o@) > 0 {
                                    lemma_owner_count_pos(pre, o@);
                                }
                            }
                            r.insert(p, (o, 1));
                            proof {
                                assert forall|a: int, b: int| 0 <= a < b < r.len() implies lex_lt((#[trigger] r@[a]).0@, (#[trigger] r@[b]).0@) by {
                                    if b < p {
                                        assert(r@[a] == old_r[a] && r@[b] == old_r[b]);
                                    } else if b == p {
                                        assert(r@[a] == old_r[a]);
                                    } else if a < p {
                                        assert(r@[a] == old_r[a] && r@[b] == old_r[b - 1]);
                                        assert(lex_lt(old_r[a].0@, o@));
                                        lemma_lex_lt_total(old_r[p as int].0@, o@);
                                        if b - 1 > p {
                                            assert(lex_lt(old_r[p as int].0@, old_r[b - 1].0@));
                                        }
                                        lemma_lex_lt_transitive(old_r[a].0@, o@, old_r[p as int].0@);
                                        if b - 1 > p {
                                            lemma_lex_lt_transitive(old_r[a].0@, old_r[p as int].0@, old_r[b - 1].0@);
                                        }
                                    } else if a == p {
                                        assert(r@[b] == old_r[b - 1]);
                                        lemma_lex_lt_total(old_r[p as int].0@, o@);
                                        if b - 1 > p {
                                            assert(lex_lt(old_r[p as int].0@, old_r[b - 1].0@));
                                            lemma_lex_lt_transitive(o@, old_r[p as int].0@, old_r[b - 1].0@);
                                        }
                                    } else {
                                        assert(r@[a] == old_r[a - 1] && r@[b] == old_r[b - 1]);
                                    }
                                }
                                assert forall|k: int| 0 <= k < r.len() implies shown_owner(post, hidden, (#[trigger] r@[k]).0@) && r@[k].1 == owner_count(post, r@[k].0@) by {
                                    if k < p {
                                        assert(r@[k] == old_r[k]);
                                        assert(shown_owner(pre, hidden, old_r[k].0@));
                                        lemma_lex_lt_total(old_r[k].0@, o@);
                                    } else if k > p {
                                        assert(r@[k] == old_r[k - 1]);
                                        assert(shown_owner(pre, hidden, old_r[k - 1].0@));
                                        lemma_lex_lt_total(old_r[p as int].0@, o@);
                                        if k - 1 > p {
                                            assert(lex_lt(old_r[p as int].0@, old_r[k - 1].0@));
                                            lemma_lex_lt_transitive(o@, old_r[p as int].0@, old_r[k - 1].0@);
                                        }
                                        lemma_lex_lt_total(o@, old_r[k - 1].0@);
                                    }
                                }
                                assert forall|x: Seq<char>| shown_owner(post, hidden, x) implies exists|k: int| 0 <= k < r.len() && (#[trigger] r@[k]).0@ == x by {
                                    if x == o@ {
                                        assert(r@[p as int].0@ == x);
                                    } else {
                                        assert(shown_owner(pre, hidden, x));
                                        let k = choose|k: int| 0 <= k < old_r.len() && (#[trigger] old_r[k]).0@ == x;
                                        if k < p {
                                            assert(r@[k].0@ == x);
                                        } else {
                                            assert(r@[k + 1].0@ == x);
                                        }
                                    }
                                }
                            }
                        }
                    }
                },
            }
            i += 1;
        }
        assert(prs@.take(prs.len() as int) =~= prs@);
        r
    }

    fn add_hidden_org(&mut self, owner: String)
        ensures
            *final(self) == (App {
                external: crate::app::External {
                    hidden_pr_orgs: final(self).external.hidden_pr_orgs,
                    ..old(self).external
                },
                ..*old(self)
            }),
            str_set(final(self).external.hidden_pr_orgs@) == str_set(old(self).external.hidden_pr_orgs@).insert(
                owner@,
            ),
    {
        vec_insert_str(&mut self.external.hidden_pr_orgs, owner);
    }

    fn close_pr_view(&mut self)
        ensures
            *final(self) == (App {
                views: crate::app::Views { active_pr_org: None, ..old(self).views },
                nav: crate::app::Nav { active_pane: Pane::Projects, ..old(self).nav },
                ..*old(self)
            }),
    {
        self.views.active_pr_org = None;
        self.nav.active_pane = Pane::Projects;
    }

    /// Hides `owner` from the sidebar; leaves its view when it was open.
    /// An empty owner changes nothing.
    pub fn hide_pr_org(&mut self, owner: String)
        ensures
            hide_effect(*old(self), *final(self), owner@),
    {
        proof {
            reveal(hide_effect);
        }
        if owner.as_str().unicode_len() == 0 {
            return;
        }
        let was_active = match &self.views.active_pr_org {
            Some(a) => str_eq(a.as_str(), owner.as_str()),
            None => false,
        };
        let ghost o = owner@;
        let ghost old_app = *self;
        self.add_hidden_org(owner);
        assert(was_active == opt_is(old_app.views.active_pr_org, o));
        if was_active {
            self.close_pr_view();
        }
    }
}

/// Hiding owner `o`: it joins the hidden owners; its view, when open,
/// closes and focus returns to the sidebar. An empty owner changes nothing.
#[verifier::opaque]
pub open spec fn hide_effect(old: App, new: App, o: Seq<char>) -> bool {
    if o.len() == 0 {
        new == old
    } else {
        let was = opt_is(old.views.active_pr_org, o);
        &&& str_set(new.external.hidden_pr_orgs@) == str_set(old.external.hidden_pr_orgs@).insert(o)
        &&& new == (App {
            external: crate::app::External { hidden_pr_orgs: new.external.hidden_pr_orgs, ..old.external },
            views: crate::app::Views { active_pr_org: if was {
                None
            } else {
                old.views.active_pr_org
            }, ..old.views },
            nav: crate::app::Nav { active_pane: if was {
                Pane::Projects
            } else {
                old.nav.active_pane
            }, ..old.nav },
            ..old
        })
    }
}

/// The values behind a sequence of references.
pub open spec fn derefs(s: Seq<&PullRequest>) -> Seq<PullRequest> {
    s.map_values(|p: &PullRequest| *p)
}

/// `o` holds text `s`.
pub open spec fn opt_is(o: Option<String>, s: Seq<char>) -> bool {
    match o {
        Some(x) => x@ == s,
        None => false,
    }
}

} // verus!
