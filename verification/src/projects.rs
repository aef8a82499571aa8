//! Project order in the sidebar: personal projects, then each workspace
//! (projects outside folders, then folder by folder), each group as a tree
//! with pinned projects first.
use vstd::prelude::*;
use vstd::string::*;

use crate::app::{opt_view, str_set, App, Nav, ProjectEntry, ProjectNavItem};
use crate::prs::owner_counts_ok;
use crate::edit::{project_pos, project_position};
use crate::ids::{bump_counter, next_counter, uuid_for, uuid_text};
use crate::model::{Folder, Project, Workspace};
use crate::order::{key_views, sorted_rows, sorted_rows_exec, KeyView, SortKey};
use crate::text::str_eq;

verus! {

/// Pinned (Inbox or favourite) projects come first, then `child_order`.
pub open spec fn pin_key(p: Project) -> KeyView {
    (""@, ""@, if p.spec_is_inbox() || p.is_favorite {
        0
    } else {
        1
    }, p.child_order as int)
}

pub open spec fn pin_keys(all: Seq<Project>) -> Seq<KeyView> {
    Seq::new(all.len(), |i: int| pin_key(all[i]))
}

pub open spec fn child_of(all: Seq<Project>, parent: Option<Seq<char>>) -> Seq<bool> {
    Seq::new(all.len(), |i: int| opt_view(all[i].parent_id) == parent)
}

/// The projects below `parent` (top level for `None`), depth first, each
/// level pinned first then by `child_order`. `fuel` bounds the depth.
pub open spec fn subtree(all: Seq<Project>, parent: Option<Seq<char>>, fuel: nat) -> Seq<Project>
    decreases fuel, 0nat,
{
    if fuel == 0 {
        Seq::empty()
    } else {
        proj_rows(all, sorted_rows(false, pin_keys(all), child_of(all, parent)), (fuel - 1) as nat)
    }
}

pub open spec fn proj_rows(all: Seq<Project>, kids: Seq<usize>, fuel: nat) -> Seq<Project>
    decreases fuel, kids.len() + 1,
{
    if kids.len() == 0 {
        Seq::empty()
    } else {
        let k = kids[0] as int;
        let here = if k < all.len() {
            seq![all[k]] + subtree(all, Some(all[k].id@), fuel)
        } else {
            Seq::empty()
        };
        here + proj_rows(all, kids.drop_first(), fuel)
    }
}

fn pin_keys_exec(all: &Vec<Project>) -> (v: Vec<SortKey>)
    ensures
        key_views(v@) == pin_keys(all@),
{
    let mut v: Vec<SortKey> = Vec::new();
    let mut i: usize = 0;
    while i < all.len()
        invariant
            i <= all.len(),
            v.len() == i,
            forall|j: int| 0 <= j < i ==> (#[trigger] v@[j])@ == pin_key(all@[j]),
        decreases all.len() - i,
    {
        proof {
            reveal_strlit("");
        }
        let p = &all[i];
        let pin: i64 = if p.is_inbox() || p.is_favorite {
            0
        } else {
            1
        };
        v.push(SortKey { s1: String::new(), s2: String::new(), n1: pin, n2: p.child_order as i64 });
        i += 1;
    }
    assert(key_views(v@) =~= pin_keys(all@));
    v
}

fn child_of_exec(all: &Vec<Project>, parent: &Option<String>) -> (v: Vec<bool>)
    ensures
        v@ == child_of(all@, opt_view(*parent)),
{
    let mut v: Vec<bool> = Vec::new();
    let mut i: usize = 0;
    while i < all.len()
        invariant
            i <= all.len(),
            v.len() == i,
            forall|j: int| 0 <= j < i ==> v@[j] == (opt_view(all@[j].parent_id) == opt_view(*parent)),
        decreases all.len() - i,
    {
        let same = match (&all[i].parent_id, parent) {
            (None, None) => true,
            (Some(a), Some(b)) => str_eq(a.as_str(), b.as_str()),
            _ => false,
        };
        v.push(same);
        i += 1;
    }
    assert(v@ =~= child_of(all@, opt_view(*parent)));
    v
}

/// Appends the projects below `parent`, depth first.
pub fn collect_project_subtree(parent: &Option<String>, all: &Vec<Project>, fuel: usize, out: &mut Vec<Project>)
    ensures
        final(out)@ == old(out)@ + subtree(all@, opt_view(*parent), fuel as nat),
    decreases fuel, 0nat,
{
    if fuel == 0 {
        assert(final(out)@ =~= old(out)@ + subtree(all@, opt_view(*parent), fuel as nat));
        return;
    }
    let keys = pin_keys_exec(all);
    let keep = child_of_exec(all, parent);
    assert(key_views(keys@).len() == keys@.len());
    let kids = sorted_rows_exec(&keys, &keep, false);
    push_projects(all, &kids, fuel - 1, out);
}

fn push_projects(all: &Vec<Project>, kids: &Vec<usize>, fuel: usize, out: &mut Vec<Project>)
    ensures
        final(out)@ == old(out)@ + proj_rows(all@, kids@, fuel as nat),
    decreases fuel, 1nat,
{
    let mut j: usize = 0;
    assert(kids@.skip(0) =~= kids@);
    while j < kids.len()
        invariant
            j <= kids.len(),
            old(out)@ + proj_rows(all@, kids@, fuel as nat) == out@ + proj_rows(
                all@,
                kids@.skip(j as int),
                fuel as nat,
            ),
        decreases kids.len() - j,
    {
        let k = kids[j];
        proof {
            assert(kids@.skip(j as int).drop_first() =~= kids@.skip(j + 1));
            assert(kids@.skip(j as int)[0] == k);
        }
        let ghost before = out@;
        if k < all.len() {
            out.push(all[k].duplicate());
            let id = Some(all[k].id.clone());
            collect_project_subtree(&id, all, fuel, out);
            assert(out@ =~= before + (seq![all@[k as int]] + subtree(all@, Some(all@[k as int].id@), fuel as nat)));
        } else {
            assert(out@ =~= before + Seq::<Project>::empty());
        }
        j += 1;
    }
    assert(kids@.skip(kids.len() as int) =~= Seq::<usize>::empty());
}

/// The ids of a list of projects.
pub open spec fn project_ids(ps: Seq<Project>) -> Set<Seq<char>> {
    Set::new(|s: Seq<char>| exists|i: int| 0 <= i < ps.len() && (#[trigger] ps[i]).id@ == s)
}

/// Personal projects (outside any workspace).
pub open spec fn personal(source: Seq<Project>) -> Seq<Project> {
    source.filter(|p: Project| p.workspace_id is None)
}

pub open spec fn in_workspace(source: Seq<Project>, ws: Seq<char>) -> Seq<Project> {
    source.filter(|p: Project| opt_view(p.workspace_id) == Some(ws))
}

pub open spec fn without_folder(ps: Seq<Project>) -> Seq<Project> {
    ps.filter(|p: Project| p.folder_id is None)
}

pub open spec fn in_folder(ps: Seq<Project>, folder: Seq<char>) -> Seq<Project> {
    ps.filter(|p: Project| opt_view(p.folder_id) == Some(folder))
}

/// A workspace's folders by `child_order`.
pub open spec fn ws_folders(folders: Seq<Folder>, ws: Seq<char>) -> Seq<usize> {
    sorted_rows(
        false,
        Seq::new(folders.len(), |i: int| (""@, ""@, folders[i].child_order as int, 0int)),
        Seq::new(folders.len(), |i: int| folders[i].workspace_id@ == ws),
    )
}

pub open spec fn folder_blocks(wsp: Seq<Project>, folders: Seq<Folder>, fix: Seq<usize>) -> Seq<Project>
    decreases fix.len(),
{
    if fix.len() == 0 {
        Seq::empty()
    } else {
        let f = fix[0] as int;
        let here = if f < folders.len() {
            let inf = in_folder(wsp, folders[f].id@);
            subtree(inf, None, inf.len())
        } else {
            Seq::empty()
        };
        here + folder_blocks(wsp, folders, fix.drop_first())
    }
}

/// One workspace's block: its projects outside folders, then each folder.
pub open spec fn ws_block(source: Seq<Project>, folders: Seq<Folder>, ws: Seq<char>) -> Seq<Project> {
    let wsp = in_workspace(source, ws);
    if wsp.len() == 0 {
        Seq::empty()
    } else {
        let nf = without_folder(wsp);
        subtree(nf, None, nf.len()) + folder_blocks(wsp, folders, ws_folders(folders, ws))
    }
}

pub open spec fn ws_blocks(source: Seq<Project>, wss: Seq<Workspace>, folders: Seq<Folder>) -> Seq<Project>
    decreases wss.len(),
{
    if wss.len() == 0 {
        Seq::empty()
    } else {
        ws_block(source, folders, wss[0].id@) + ws_blocks(source, wss.drop_first(), folders)
    }
}

/// The sidebar order of `source`; projects that fit nowhere (an unknown
/// workspace, a parent cycle) follow in their old order.
pub open spec fn ordered_projects(source: Seq<Project>, wss: Seq<Workspace>, folders: Seq<Folder>) -> Seq<Project> {
    let ps = personal(source);
    let base = subtree(ps, None, ps.len()) + ws_blocks(source, wss, folders);
    base + source.filter(|p: Project| !project_ids(base).contains(p.id@))
}

fn filter_projects(src: &Vec<Project>, ws: &Option<String>, folder: &Option<String>, by_folder: bool) -> (r: Vec<Project>)
    ensures
        r@ == (if by_folder {
            src@.filter(|p: Project| opt_view(p.folder_id) == opt_view(*folder))
        } else {
            src@.filter(|p: Project| opt_view(p.workspace_id) == opt_view(*ws))
        }),
{
    let ghost f = if by_folder {
        |p: Project| opt_view(p.folder_id) == opt_view(*folder)
    } else {
        |p: Project| opt_view(p.workspace_id) == opt_view(*ws)
    };
    let mut r: Vec<Project> = Vec::new();
    let mut i: usize = 0;
    while i < src.len()
        invariant
            i <= src.len(),
            f == (if by_folder {
                |p: Project| opt_view(p.folder_id) == opt_view(*folder)
            } else {
                |p: Project| opt_view(p.workspace_id) == opt_view(*ws)
            }),
            r@ == src@.take(i as int).filter(f),
        decreases src.len() - i,
    {
        let p = &src[i];
        proof {
            assert(src@.take(i + 1) =~= src@.take(i as int).push(*p));
            src@.take(i as int).lemma_filter_push(*p, f);
        }
        let field = if by_folder {
            &p.folder_id
        } else {
            &p.workspace_id
        };
        let want = if by_folder {
            folder
        } else {
            ws
        };
        let same = match (field, want) {
            (None, None) => true,
            (Some(a), Some(b)) => str_eq(a.as_str(), b.as_str()),
            _ => false,
        };
        if same {
            r.push(p.duplicate());
        }
        i += 1;
    }
    assert(src@.take(src.len() as int) =~= src@);
    r
}

fn folder_order_exec(folders: &Vec<Folder>, ws: &str) -> (r: Vec<usize>)
    ensures
        r@ == ws_folders(folders@, ws@),
{
    let mut keys: Vec<SortKey> = Vec::new();
    let mut keep: Vec<bool> = Vec::new();
    let mut i: usize = 0;
    while i < folders.len()
        invariant
            i <= folders.len(),
            keys.len() == i,
            keep.len() == i,
            forall|j: int| 0 <= j < i ==> (#[trigger] keys@[j])@ == (""@, ""@, folders@[j].child_order as int, 0int),
            forall|j: int| 0 <= j < i ==> keep@[j] == (folders@[j].workspace_id@ == ws@),
        decreases folders.len() - i,
    {
        proof {
            reveal_strlit("");
        }
        keys.push(SortKey { s1: String::new(), s2: String::new(), n1: folders[i].child_order as i64, n2: 0 });
        keep.push(str_eq(folders[i].workspace_id.as_str(), ws));
        i += 1;
    }
    assert(key_views(keys@) =~= Seq::new(folders@.len(), |i: int| (""@, ""@, folders@[i].child_order as int, 0int)));
    assert(keep@ =~= Seq::new(folders@.len(), |i: int| folders@[i].workspace_id@ == ws@));
    sorted_rows_exec(&keys, &keep, false)
}

fn has_project_id(ps: &Vec<Project>, id: &str) -> (r: bool)
    ensures
        r == project_ids(ps@).contains(id@),
{
    let mut i: usize = 0;
    while i < ps.len()
        invariant
            i <= ps.len(),
            forall|j: int| 0 <= j < i ==> (#[trigger] ps@[j]).id@ != id@,
        decreases ps.len() - i,
    {
        if str_eq(ps[i].id.as_str(), id) {
            assert(ps@[i as int].id@ == id@);
            return true;
        }
        i += 1;
    }
    false
}

/// The projects of `source` in sidebar order.
pub fn order_projects(source: &Vec<Project>, wss: &Vec<Workspace>, folders: &Vec<Folder>) -> (r: Vec<Project>)
    ensures
        r@ == ordered_projects(source@, wss@, folders@),
{
    let mut out: Vec<Project> = Vec::new();
    let none: Option<String> = None;
    let ps = filter_projects(source, &none, &none, false);
    assert(ps@ =~= personal(source@)) by {
        assert((|p: Project| opt_view(p.workspace_id) == opt_view(none)) =~= (|p: Project| p.workspace_id is None));
    }
    collect_project_subtree(&none, &ps, ps.len(), &mut out);
    let ghost first = out@;
    let mut w: usize = 0;
    assert(wss@.skip(0) =~= wss@);
    while w < wss.len()
        invariant
            w <= wss.len(),
            none is None,
            first + ws_blocks(source@, wss@, folders@) == out@ + ws_blocks(source@, wss@.skip(w as int), folders@),
        decreases wss.len() - w,
    {
        proof {
            assert(wss@.skip(w as int).drop_first() =~= wss@.skip(w + 1));
        }
        let ghost before = out@;
        let ws_id = Some(wss[w].id.clone());
        let wsp = filter_projects(source, &ws_id, &none, false);
        assert(wsp@ =~= in_workspace(source@, wss@[w as int].id@)) by {
            assert((|p: Project| opt_view(p.workspace_id) == opt_view(ws_id)) =~= (|p: Project| opt_view(p.workspace_id) == Some(wss@[w as int].id@)));
        }
        if wsp.len() > 0 {
            let nf = filter_projects(&wsp, &none, &none, true);
            assert(nf@ =~= without_folder(wsp@)) by {
                assert((|p: Project| opt_view(p.folder_id) == opt_view(none)) =~= (|p: Project| p.folder_id is None));
            }
            collect_project_subtree(&none, &nf, nf.len(), &mut out);
            let fix = folder_order_exec(folders, wss[w].id.as_str());
            let ghost mid = out@;
            let mut q: usize = 0;
            assert(fix@.skip(0) =~= fix@);
            while q < fix.len()
                invariant
                    q <= fix.len(),
                    none is None,
                    fix@ == ws_folders(folders@, wss@[w as int].id@),
                    mid + folder_blocks(wsp@, folders@, fix@) == out@ + folder_blocks(wsp@, folders@, fix@.skip(q as int)),
                decreases fix.len() - q,
            {
                proof {
                    assert(fix@.skip(q as int).drop_first() =~= fix@.skip(q + 1));
                }
                let f = fix[q];
                let ghost b2 = out@;
                if f < folders.len() {
                    let fid = Some(folders[f].id.clone());
                    let inf = filter_projects(&wsp, &none, &fid, true);
                    assert(inf@ =~= in_folder(wsp@, folders@[f as int].id@)) by {
                        assert((|p: Project| opt_view(p.folder_id) == opt_view(fid)) =~= (|p: Project| opt_view(p.folder_id) == Some(folders@[f as int].id@)));
                    }
                    collect_project_subtree(&none, &inf, inf.len(), &mut out);
                } else {
                    assert(out@ =~= b2 + Seq::<Project>::empty());
                }
                q += 1;
            }
            assert(fix@.skip(fix.len() as int) =~= Seq::<usize>::empty());
            assert(out@ =~= before + ws_block(source@, folders@, wss@[w as int].id@));
        } else {
            assert(out@ =~= before + Seq::<Project>::empty());
        }
        w += 1;
    }
    assert(wss@.skip(wss.len() as int) =~= Seq::<Workspace>::empty());
    let ghost base = out@;
    let ghost keepf = |p: Project| !project_ids(base).contains(p.id@);
    let snapshot = duplicate_projects(&out);
    let mut i: usize = 0;
    while i < source.len()
        invariant
            i <= source.len(),
            snapshot@ == base,
            keepf == (|p: Project| !project_ids(base).contains(p.id@)),
            out@ == base + source@.take(i as int).filter(keepf),
        decreases source.len() - i,
    {
        let p = &source[i];
        proof {
            assert(source@.take(i + 1) =~= source@.take(i as int).push(*p));
            source@.take(i as int).lemma_filter_push(*p, keepf);
        }
        if !has_project_id(&snapshot, p.id.as_str()) {
            out.push(p.duplicate());
        }
        i += 1;
    }
    assert(source@.take(source.len() as int) =~= source@);
    out
}

/// The projects of a list, duplicated one by one.
pub fn duplicate_projects(v: &Vec<Project>) -> (r: Vec<Project>)
    ensures
        r@ == v@,
{
    let mut r: Vec<Project> = Vec::new();
    let mut i: usize = 0;
    while i < v.len()
        invariant
            i <= v.len(),
            r@ == v@.take(i as int),
        decreases v.len() - i,
    {
        r.push(v[i].duplicate());
        assert(r@ =~= v@.take(i + 1));
        i += 1;
    }
    assert(v@.take(v.len() as int) =~= v@);
    r
}

impl App {
    /// Puts the projects in sidebar order, keeping the cursor on the same
    /// project.
    pub fn sort_projects(&mut self)
        ensures
            final(self).data.projects@ == ordered_projects(
                old(self).data.projects@,
                old(self).data.workspaces@,
                old(self).data.folders@,
            ),
            final(self).nav == (Nav {
                selected_project: if old(self).nav.selected_project < old(self).data.projects@.len()
                    && project_pos(
                    final(self).data.projects@,
                    old(self).data.projects@[old(self).nav.selected_project as int].id@,
                ) is Some {
                    project_pos(
                        final(self).data.projects@,
                        old(self).data.projects@[old(self).nav.selected_project as int].id@,
                    )->0 as usize
                } else {
                    old(self).nav.selected_project
                },
                ..old(self).nav
            }),
            *final(self) == (App {
                data: crate::app::Data { projects: final(self).data.projects, ..old(self).data },
                nav: final(self).nav,
                ..*old(self)
            }),
    {
        let selected_id = if self.nav.selected_project < self.data.projects.len() {
            Some(self.data.projects[self.nav.selected_project].id.clone())
        } else {
            None
        };
        let ordered = order_projects(&self.data.projects, &self.data.workspaces, &self.data.folders);
        self.data.projects = ordered;
        match selected_id {
            Some(id) => match project_position(&self.data.projects, id.as_str()) {
                Some(pos) => {
                    self.nav.selected_project = pos;
                },
                None => {},
            },
            None => {},
        }
    }
}

} // verus!

verus! {

/// Index of the first workspace with id `id`.
pub open spec fn first_ws(wss: Seq<Workspace>, id: Seq<char>) -> Option<int> {
    if exists|i: int| 0 <= i < wss.len() && (#[trigger] wss[i]).id@ == id && forall|j: int| 0 <= j < i ==> wss[j].id@ != id {
        Some(choose|i: int| 0 <= i < wss.len() && (#[trigger] wss[i]).id@ == id && forall|j: int| 0 <= j < i ==> wss[j].id@ != id)
    } else {
        None
    }
}

/// Index of the first folder with id `id`.
pub open spec fn first_folder(fs: Seq<Folder>, id: Seq<char>) -> Option<int> {
    if exists|i: int| 0 <= i < fs.len() && (#[trigger] fs[i]).id@ == id && forall|j: int| 0 <= j < i ==> fs[j].id@ != id {
        Some(choose|i: int| 0 <= i < fs.len() && (#[trigger] fs[i]).id@ == id && forall|j: int| 0 <= j < i ==> fs[j].id@ != id)
    } else {
        None
    }
}

fn ws_position(wss: &Vec<Workspace>, id: &str) -> (r: Option<usize>)
    ensures
        match r {
            Some(i) => first_ws(wss@, id@) == Some(i as int),
            None => first_ws(wss@, id@) is None,
        },
{
    let mut i: usize = 0;
    while i < wss.len()
        invariant
            i <= wss.len(),
            forall|j: int| 0 <= j < i ==> wss@[j].id@ != id@,
        decreases wss.len() - i,
    {
        if str_eq(wss[i].id.as_str(), id) {
            proof {
                let k = choose|k: int| 0 <= k < wss@.len() && (#[trigger] wss@[k]).id@ == id@ && forall|j: int| 0 <= j < k ==> wss@[j].id@ != id@;
                if k < i {
                    assert(wss@[k].id@ != id@);
                } else if k > i {
                    assert(wss@[i as int].id@ == id@);
                }
            }
            return Some(i);
        }
        i += 1;
    }
    None
}

pub fn folder_position(fs: &Vec<Folder>, id: &str) -> (r: Option<usize>)
    ensures
        match r {
            Some(i) => first_folder(fs@, id@) == Some(i as int),
            None => first_folder(fs@, id@) is None,
        },
{
    let mut i: usize = 0;
    while i < fs.len()
        invariant
            i <= fs.len(),
            forall|j: int| 0 <= j < i ==> fs@[j].id@ != id@,
        decreases fs.len() - i,
    {
        if str_eq(fs[i].id.as_str(), id) {
            proof {
                let k = choose|k: int| 0 <= k < fs@.len() && (#[trigger] fs@[k]).id@ == id@ && forall|j: int| 0 <= j < k ==> fs@[j].id@ != id@;
                if k < i {
                    assert(fs@[k].id@ != id@);
                } else if k > i {
                    assert(fs@[i as int].id@ == id@);
                }
            }
            return Some(i);
        }
        i += 1;
    }
    None
}

/// The rows shown under the Inbox: Today, Upcoming, one per pull-request
/// owner (when `gh` is available), Jira cards and the agenda (when their
/// tools are available).
pub open spec fn inbox_extras(app: App, owners: Seq<(String, usize)>) -> Seq<ProjectEntry> {
    seq![ProjectEntry::TodayView, ProjectEntry::UpcomingView] + (if app.external.gh_available {
        owners.map_values(|o: (String, usize)| ProjectEntry::GithubPrsView(o.0))
    } else {
        Seq::empty()
    }) + (if app.external.acli_available {
        seq![ProjectEntry::JiraCardsView]
    } else {
        Seq::empty()
    }) + (if app.external.gws_available {
        seq![ProjectEntry::AgendaView]
    } else {
        Seq::empty()
    })
}

/// Headers before project `p` given the group of the previous project.
pub open spec fn group_headers(
    app: App,
    p: Project,
    in_personal: bool,
    last_ws: Option<Seq<char>>,
    last_folder: Option<Seq<char>>,
) -> (Seq<ProjectEntry>, bool, Option<Seq<char>>, Option<Seq<char>>) {
    let ws = opt_view(p.workspace_id);
    let fo = opt_view(p.folder_id);
    match ws {
        None => (if !in_personal {
            seq![ProjectEntry::PersonalHeader]
        } else {
            Seq::empty()
        }, true, last_ws, last_folder),
        Some(w) => {
            let new_ws = last_ws != ws;
            let h1 = if new_ws {
                seq![ProjectEntry::Separator] + match first_ws(app.data.workspaces@, w) {
                    Some(wi) => seq![ProjectEntry::WorkspaceHeader(wi as usize)],
                    None => Seq::empty(),
                }
            } else {
                Seq::empty()
            };
            let lf1 = if new_ws {
                None
            } else {
                last_folder
            };
            let h2 = if lf1 != fo {
                match fo {
                    Some(fid) => match first_folder(app.data.folders@, fid) {
                        Some(fi) => seq![ProjectEntry::FolderHeader(fi as usize)],
                        None => Seq::empty(),
                    },
                    None => Seq::empty(),
                }
            } else {
                Seq::empty()
            };
            (h1 + h2, in_personal, ws, fo)
        },
    }
}

/// The sidebar rows from project `i` on.
pub open spec fn entries_from(
    app: App,
    owners: Seq<(String, usize)>,
    i: nat,
    in_personal: bool,
    last_ws: Option<Seq<char>>,
    last_folder: Option<Seq<char>>,
) -> Seq<ProjectEntry>
    decreases app.data.projects@.len() - i,
{
    let ps = app.data.projects@;
    if i >= ps.len() {
        Seq::empty()
    } else {
        let p = ps[i as int];
        let g = group_headers(app, p, in_personal, last_ws, last_folder);
        let folded = match opt_view(p.folder_id) {
            Some(f) => str_set(app.nav.collapsed_folders@).contains(f),
            None => false,
        };
        let body = if folded {
            Seq::empty()
        } else {
            seq![ProjectEntry::Project(i as usize)] + if p.spec_is_inbox() {
                inbox_extras(app, owners)
            } else {
                Seq::empty()
            }
        };
        g.0 + body + entries_from(app, owners, i + 1, g.1, g.2, g.3)
    }
}

/// The sidebar: the All row, then the projects with group headers.
pub open spec fn project_entries(app: App, owners: Seq<(String, usize)>) -> Seq<ProjectEntry> {
    seq![ProjectEntry::AllView] + entries_from(app, owners, 0, false, None, None)
}

/// The rows the sidebar cursor can rest on.
pub open spec fn nav_items_of(es: Seq<ProjectEntry>) -> Seq<ProjectNavItem>
    decreases es.len(),
{
    if es.len() == 0 {
        Seq::empty()
    } else {
        (match es[0] {
            ProjectEntry::FolderHeader(fi) => seq![ProjectNavItem::Folder(fi)],
            ProjectEntry::Project(i) => seq![ProjectNavItem::Project(i)],
            ProjectEntry::AllView => seq![ProjectNavItem::AllView],
            ProjectEntry::TodayView => seq![ProjectNavItem::TodayView],
            ProjectEntry::UpcomingView => seq![ProjectNavItem::UpcomingView],
            ProjectEntry::GithubPrsView(o) => seq![ProjectNavItem::GithubPrsView(o)],
            ProjectEntry::JiraCardsView => seq![ProjectNavItem::JiraCardsView],
            ProjectEntry::AgendaView => seq![ProjectNavItem::AgendaView],
            _ => Seq::empty(),
        }) + nav_items_of(es.drop_first())
    }
}

proof fn lemma_entries_step(
    app: App,
    owners: Seq<(String, usize)>,
    i: nat,
    in_personal: bool,
    last_ws: Option<Seq<char>>,
    last_folder: Option<Seq<char>>,
)
    requires
        i < app.data.projects@.len(),
    ensures
        ({
            let p = app.data.projects@[i as int];
            let g = group_headers(app, p, in_personal, last_ws, last_folder);
            let folded = match opt_view(p.folder_id) {
                Some(f) => str_set(app.nav.collapsed_folders@).contains(f),
                None => false,
            };
            let body = if folded {
                Seq::empty()
            } else {
                seq![ProjectEntry::Project(i as usize)] + if p.spec_is_inbox() {
                    inbox_extras(app, owners)
                } else {
                    Seq::empty()
                }
            };
            entries_from(app, owners, i, in_personal, last_ws, last_folder) == g.0 + body + entries_from(
                app,
                owners,
                i + 1,
                g.1,
                g.2,
                g.3,
            )
        }),
{
}

fn opt_str_eq(a: &Option<String>, b: &Option<String>) -> (r: bool)
    ensures
        r == (opt_view(*a) == opt_view(*b)),
{
    match (a, b) {
        (None, None) => true,
        (Some(x), Some(y)) => str_eq(x.as_str(), y.as_str()),
        _ => false,
    }
}

fn clone_opt(o: &Option<String>) -> (r: Option<String>)
    ensures
        r == *o,
{
    match o {
        Some(s) => Some(s.clone()),
        None => None,
    }
}

impl App {
    fn push_inbox_extras(&self, owners: &Vec<(String, usize)>, out: &mut Vec<ProjectEntry>)
        ensures
            final(out)@ == old(out)@ + inbox_extras(*self, owners@),
    {
        let ghost start = out@;
        out.push(ProjectEntry::TodayView);
        out.push(ProjectEntry::UpcomingView);
        let ghost mid = out@;
        if self.external.gh_available {
            let mut k: usize = 0;
            while k < owners.len()
                invariant
                    k <= owners.len(),
                    out@ == mid + owners@.take(k as int).map_values(
                        |o: (String, usize)| ProjectEntry::GithubPrsView(o.0),
                    ),
                decreases owners.len() - k,
            {
                out.push(ProjectEntry::GithubPrsView(owners[k].0.clone()));
                assert(owners@.take(k + 1).map_values(|o: (String, usize)| ProjectEntry::GithubPrsView(o.0))
                    =~= owners@.take(k as int).map_values(|o: (String, usize)| ProjectEntry::GithubPrsView(o.0)).push(
                    ProjectEntry::GithubPrsView(owners@[k as int].0),
                ));
                k += 1;
            }
            assert(owners@.take(owners.len() as int) =~= owners@);
        }
        if self.external.acli_available {
            out.push(ProjectEntry::JiraCardsView);
        }
        if self.external.gws_available {
            out.push(ProjectEntry::AgendaView);
        }
        assert(out@ =~= start + inbox_extras(*self, owners@));
    }

    fn push_group_headers(
        &self,
        p: &Project,
        in_personal: bool,
        last_ws: &Option<String>,
        last_folder: &Option<String>,
        out: &mut Vec<ProjectEntry>,
    ) -> (r: (bool, Option<String>, Option<String>))
        ensures
            ({
                let g = group_headers(*self, *p, in_personal, opt_view(*last_ws), opt_view(*last_folder));
                &&& final(out)@ == old(out)@ + g.0
                &&& r.0 == g.1 && opt_view(r.1) == g.2 && opt_view(r.2) == g.3
            }),
    {
        let ghost before = out@;
        match &p.workspace_id {
            None => {
                if !in_personal {
                    out.push(ProjectEntry::PersonalHeader);
                }
                assert(out@ =~= before + group_headers(*self, *p, in_personal, opt_view(*last_ws), opt_view(*last_folder)).0);
                (true, clone_opt(last_ws), clone_opt(last_folder))
            },
            Some(w) => {
                let mut lw = clone_opt(last_ws);
                let mut lf = clone_opt(last_folder);
                if !opt_str_eq(last_ws, &p.workspace_id) {
                    lw = Some(w.clone());
                    lf = None;
                    out.push(ProjectEntry::Separator);
                    match ws_position(&self.data.workspaces, w.as_str()) {
                        Some(wi) => out.push(ProjectEntry::WorkspaceHeader(wi)),
                        None => {},
                    }
                }
                let ghost mid = out@;
                if !opt_str_eq(&lf, &p.folder_id) {
                    lf = clone_opt(&p.folder_id);
                    match &p.folder_id {
                        Some(fid) => match folder_position(&self.data.folders, fid.as_str()) {
                            Some(fi) => out.push(ProjectEntry::FolderHeader(fi)),
                            None => {},
                        },
                        None => {},
                    }
                }
                assert(out@ =~= before + group_headers(*self, *p, in_personal, opt_view(*last_ws), opt_view(*last_folder)).0);
                (in_personal, lw, lf)
            },
        }
    }

    fn push_project_body(&self, i: usize, owners: &Vec<(String, usize)>, out: &mut Vec<ProjectEntry>)
        requires
            i < self.data.projects@.len(),
        ensures
            ({
                let p = self.data.projects@[i as int];
                let folded = match opt_view(p.folder_id) {
                    Some(f) => str_set(self.nav.collapsed_folders@).contains(f),
                    None => false,
                };
                final(out)@ == old(out)@ + if folded {
                    Seq::empty()
                } else {
                    seq![ProjectEntry::Project(i)] + if p.spec_is_inbox() {
                        inbox_extras(*self, owners@)
                    } else {
                        Seq::empty()
                    }
                }
            }),
    {
        let p = &self.data.projects[i];
        let folded = match &p.folder_id {
            Some(f) => crate::app::vec_contains_str(&self.nav.collapsed_folders, f.as_str()),
            None => false,
        };
        let ghost mid = out@;
        if !folded {
            out.push(ProjectEntry::Project(i));
            let ghost m2 = out@;
            if p.is_inbox() {
                self.push_inbox_extras(owners, out);
            }
            assert(out@ =~= mid + (seq![ProjectEntry::Project(i)] + if p.spec_is_inbox() {
                inbox_extras(*self, owners@)
            } else {
                Seq::empty()
            }));
        } else {
            assert(out@ =~= mid + Seq::<ProjectEntry>::empty());
        }
    }

    fn push_entries_for(
        &self,
        i: usize,
        owners: &Vec<(String, usize)>,
        in_personal: bool,
        last_ws: &Option<String>,
        last_folder: &Option<String>,
        out: &mut Vec<ProjectEntry>,
    ) -> (r: (bool, Option<String>, Option<String>))
        requires
            i < self.data.projects@.len(),
        ensures
            old(out)@ + entries_from(*self, owners@, i as nat, in_personal, opt_view(*last_ws), opt_view(*last_folder))
                == final(out)@ + entries_from(*self, owners@, (i + 1) as nat, r.0, opt_view(r.1), opt_view(r.2)),
    {
        proof {
            lemma_entries_step(*self, owners@, i as nat, in_personal, opt_view(*last_ws), opt_view(*last_folder));
        }
        let p = &self.data.projects[i];
        let ghost before = out@;
        let r = self.push_group_headers(p, in_personal, last_ws, last_folder, out);
        let ghost mid = out@;
        self.push_project_body(i, owners, out);
        proof {
            let g = group_headers(*self, *p, in_personal, opt_view(*last_ws), opt_view(*last_folder));
            assert(mid == before + g.0);
        }
        r
    }

    /// The sidebar rows.
    pub fn project_list_entries(&self) -> (r: Vec<ProjectEntry>)
        ensures
            exists|owners: Seq<(String, usize)>|
                owner_counts_ok(self.external.github_prs@, str_set(self.external.hidden_pr_orgs@), owners)
                    && r@ == project_entries(*self, owners) && #[trigger] crate::laws::sidebar_laid_out(
                    *self,
                    owners,
                    r@,
                ),
    {
        let owners = self.pr_owners_with_counts();
        let mut out: Vec<ProjectEntry> = Vec::new();
        out.push(ProjectEntry::AllView);
        let mut in_personal = false;
        let mut last_ws: Option<String> = None;
        let mut last_folder: Option<String> = None;
        let ps = &self.data.projects;
        let mut i: usize = 0;
        while i < ps.len()
            invariant
                ps == &self.data.projects,
                i <= ps.len(),
                project_entries(*self, owners@) == out@ + entries_from(
                    *self,
                    owners@,
                    i as nat,
                    in_personal,
                    opt_view(last_ws),
                    opt_view(last_folder),
                ),
            decreases ps.len() - i,
        {
            let (ip, lw, lf) = self.push_entries_for(i, &owners, in_personal, &last_ws, &last_folder, &mut out);
            in_personal = ip;
            last_ws = lw;
            last_folder = lf;
            i += 1;
        }
        proof {
            crate::laws::law_sidebar_placement(*self, owners@);
        }
        out
    }

    /// The sidebar rows the cursor can rest on.
    pub fn visible_nav_items(&self) -> (r: Vec<ProjectNavItem>)
        ensures
            exists|owners: Seq<(String, usize)>|
                owner_counts_ok(self.external.github_prs@, str_set(self.external.hidden_pr_orgs@), owners)
                    && r@ == nav_items_of(project_entries(*self, owners)),
    {
        let es = self.project_list_entries();
        let mut out: Vec<ProjectNavItem> = Vec::new();
        let mut k: usize = 0;
        assert(es@.skip(0) =~= es@);
        while k < es.len()
            invariant
                k <= es.len(),
                nav_items_of(es@) == out@ + nav_items_of(es@.skip(k as int)),
            decreases es.len() - k,
        {
            proof {
                assert(es@.skip(k as int).drop_first() =~= es@.skip(k + 1));
            }
            let ghost before = out@;
            match &es[k] {
                ProjectEntry::FolderHeader(fi) => out.push(ProjectNavItem::Folder(*fi)),
                ProjectEntry::Project(i) => out.push(ProjectNavItem::Project(*i)),
                ProjectEntry::AllView => out.push(ProjectNavItem::AllView),
                ProjectEntry::TodayView => out.push(ProjectNavItem::TodayView),
                ProjectEntry::UpcomingView => out.push(ProjectNavItem::UpcomingView),
                ProjectEntry::GithubPrsView(o) => out.push(ProjectNavItem::GithubPrsView(o.clone())),
                ProjectEntry::JiraCardsView => out.push(ProjectNavItem::JiraCardsView),
                ProjectEntry::AgendaView => out.push(ProjectNavItem::AgendaView),
                _ => {},
            }
            assert(out@ =~= before + match es@[k as int] {
                ProjectEntry::FolderHeader(fi) => seq![ProjectNavItem::Folder(fi)],
                ProjectEntry::Project(i) => seq![ProjectNavItem::Project(i)],
                ProjectEntry::AllView => seq![ProjectNavItem::AllView],
                ProjectEntry::TodayView => seq![ProjectNavItem::TodayView],
                ProjectEntry::UpcomingView => seq![ProjectNavItem::UpcomingView],
                ProjectEntry::GithubPrsView(o) => seq![ProjectNavItem::GithubPrsView(o)],
                ProjectEntry::JiraCardsView => seq![ProjectNavItem::JiraCardsView],
                ProjectEntry::AgendaView => seq![ProjectNavItem::AgendaView],
                _ => Seq::empty(),
            });
            k += 1;
        }
        assert(es@.skip(es.len() as int) =~= Seq::<ProjectEntry>::empty());
        out
    }
}

} // verus!

verus! {

/// The parent id of the first project with id `id`.
pub open spec fn project_parent(ps: Seq<Project>, id: Seq<char>) -> Option<Seq<char>> {
    match project_pos(ps, id) {
        Some(i) => opt_view(ps[i].parent_id),
        None => None,
    }
}

/// Parent hops above project `id`, at most `fuel`.
pub open spec fn project_depth_spec(ps: Seq<Project>, id: Seq<char>, fuel: nat) -> nat
    decreases fuel,
{
    match project_parent(ps, id) {
        None => 0,
        Some(p) => if fuel == 0 {
            0
        } else {
            1 + project_depth_spec(ps, p, (fuel - 1) as nat)
        },
    }
}

/// Sidebar title of the current view.
pub open spec fn view_title(app: App) -> Seq<char> {
    if app.views.all_view_active {
        "All"@
    } else if app.views.today_view_active {
        "Today"@
    } else if app.views.upcoming_view_active {
        "Upcoming"@
    } else if app.views.active_pr_org is Some {
        "Pull Requests · "@ + app.views.active_pr_org->0@
    } else if app.views.jira_cards_view_active {
        "Jira Cards"@
    } else if app.views.agenda_view_active {
        "Agenda"@
    } else if app.nav.selected_project < app.data.projects@.len() {
        app.data.projects@[app.nav.selected_project as int].name@
    } else {
        "Tasks"@
    }
}

impl App {
    /// How many parent links lie above project `project_id` (a cycle of
    /// parents is cut after one turn per project).
    pub fn project_depth(&self, project_id: &str) -> (r: usize)
        ensures
            r == project_depth_spec(self.data.projects@, project_id@, self.data.projects@.len() as nat),
            r <= self.data.projects@.len(),
    {
        let ps = &self.data.projects;
        let mut cur = String::from_str(project_id);
        let mut depth: usize = 0;
        let mut fuel: usize = ps.len();
        loop
            invariant
                ps == &self.data.projects,
                fuel <= ps.len(),
                depth + fuel == ps.len(),
                depth + project_depth_spec(ps@, cur@, fuel as nat) == project_depth_spec(
                    ps@,
                    project_id@,
                    ps@.len() as nat,
                ),
            decreases fuel,
        {
            let parent = match project_position(ps, cur.as_str()) {
                Some(i) => clone_opt(&ps[i].parent_id),
                None => None,
            };
            match parent {
                None => return depth,
                Some(p) => {
                    if fuel == 0 {
                        return depth;
                    }
                    depth += 1;
                    fuel -= 1;
                    cur = p;
                },
            }
        }
    }

    /// Indentation of a project row: deeper inside folders.
    pub fn project_indent(&self, project: &Project) -> (r: usize)
        requires
            self.data.projects.len() <= usize::MAX - 3,
        ensures
            r == (if project.folder_id is Some {
                3nat
            } else {
                1nat
            }) + project_depth_spec(self.data.projects@, project.id@, self.data.projects@.len() as nat),
    {
        let base: usize = if project.folder_id.is_some() {
            3
        } else {
            1
        };
        base + self.project_depth(project.id.as_str())
    }

    /// What `toggle_folder_collapse` does to the state.
    pub open spec fn toggle_folder_collapse_effect(old: App, new: App) -> bool {
        &&& ({
            let fid = match old.nav.folder_cursor {
                Some(fi) => if fi < old.data.folders@.len() {
                    Some(old.data.folders@[fi as int].id@)
                } else {
                    None
                },
                None => if old.nav.selected_project < old.data.projects@.len() {
                    opt_view(old.data.projects@[old.nav.selected_project as int].folder_id)
                } else {
                    None
                },
            };
            match fid {
                None => new == old,
                Some(f) => {
                    let folded = str_set(old.nav.collapsed_folders@);
                    &&& new == (App {
                        nav: Nav {
                            collapsed_folders: new.nav.collapsed_folders,
                            folder_cursor: match first_folder(old.data.folders@, f) {
                                Some(fi) => Some(fi as usize),
                                None => old.nav.folder_cursor,
                            },
                            ..old.nav
                        },
                        ..old
                    })
                    &&& str_set(new.nav.collapsed_folders@) == (if folded.contains(f) {
                        folded.remove(f)
                    } else {
                        folded.insert(f)
                    })
                },
            }
        })
    }

    /// Folds or unfolds the folder under the folder cursor (or the selected
    /// project's folder), and puts the folder cursor on it.
    pub fn toggle_folder_collapse(&mut self)
        ensures
            Self::toggle_folder_collapse_effect(*old(self), *final(self)),
    {
        let fid = match self.nav.folder_cursor {
            Some(fi) => if fi < self.data.folders.len() {
                Some(self.data.folders[fi].id.clone())
            } else {
                None
            },
            None => if self.nav.selected_project < self.data.projects.len() {
                clone_opt(&self.data.projects[self.nav.selected_project].folder_id)
            } else {
                None
            },
        };
        let fid = match fid {
            Some(f) => f,
            None => return,
        };
        if crate::app::vec_contains_str(&self.nav.collapsed_folders, fid.as_str()) {
            crate::app::vec_remove_str(&mut self.nav.collapsed_folders, fid.as_str());
        } else {
            crate::app::vec_insert_str(&mut self.nav.collapsed_folders, fid.clone());
        }
        match folder_position(&self.data.folders, fid.as_str()) {
            Some(fi) => {
                self.nav.folder_cursor = Some(fi);
            },
            None => {},
        }
    }

    /// Title of the current view.
    pub fn selected_project_name(&self) -> (r: String)
        ensures
            r@ == view_title(*self),
    {
        if self.views.all_view_active {
            return String::from_str("All");
        }
        if self.views.today_view_active {
            return String::from_str("Today");
        }
        if self.views.upcoming_view_active {
            return String::from_str("Upcoming");
        }
        match &self.views.active_pr_org {
            Some(owner) => {
                let mut s = String::from_str("Pull Requests · ");
                s.append(owner.as_str());
                return s;
            },
            None => {},
        }
        if self.views.jira_cards_view_active {
            return String::from_str("Jira Cards");
        }
        if self.views.agenda_view_active {
            return String::from_str("Agenda");
        }
        if self.nav.selected_project < self.data.projects.len() {
            self.data.projects[self.nav.selected_project].name.clone()
        } else {
            String::from_str("Tasks")
        }
    }
}

} // verus!

verus! {

impl App {
    /// What `star_selected_project_at` does to the state.
    pub open spec fn star_selected_project_at_effect(old: App, new: App, ns: u32) -> bool {
        &&& old.nav.selected_project >= old.data.projects@.len() ==> new == old
        &&& old.nav.selected_project < old.data.projects@.len() ==> {
            let p = old.data.projects@[old.nav.selected_project as int];
            let j = project_pos(old.data.projects@, p.id@)->0;
            let starred = old.data.projects@.update(
                j,
                Project { is_favorite: !p.is_favorite, ..old.data.projects@[j] },
            );
            let uuid = uuid_text(ns, old.counters.cmd_counter);
            &&& new.data.projects@ == ordered_projects(
                starred,
                old.data.workspaces@,
                old.data.folders@,
            )
            &&& new.data == (crate::app::Data { projects: new.data.projects, ..old.data })
            &&& new.nav == (Nav { selected_project: new.nav.selected_project, ..old.nav })
            &&& (project_pos(new.data.projects@, p.id@) matches Some(k) ==> new.nav.selected_project == k)
            &&& new.counters == (crate::app::Counters {
                cmd_counter: next_counter(old.counters.cmd_counter),
                ..old.counters
            })
            &&& new.views == old.views && new.input == old.input
            &&& new.external == old.external && new.running == old.running
            &&& new.error == old.error
            &&& new.pending == (crate::app::Pending {
                pending_commands: new.pending.pending_commands,
                temp_id_pending: new.pending.temp_id_pending,
                ..old.pending
            })
            &&& crate::edit::pushed(old.pending.temp_id_pending@, new.pending.temp_id_pending@)
            &&& new.pending.temp_id_pending@.last().0@ == uuid
            &&& new.pending.temp_id_pending@.last().1 matches crate::sync::OptimisticOp::ProjectUpdated {
                project_id: x,
                before: b,
            } && x@ == p.id@ && b == p
            &&& crate::edit::pushed(old.pending.pending_commands@, new.pending.pending_commands@)
            &&& new.pending.pending_commands@.last().kind@ == "project_update"@
            &&& new.pending.pending_commands@.last().temp_id is None
            &&& new.pending.pending_commands@.last().uuid@ == uuid
            &&& new.pending.pending_commands@.last().args matches crate::sync::CommandArgs::ProjectUpdate {
                id,
                is_favorite,
            } && id@ == p.id@ && is_favorite == !p.is_favorite
        }
    }

    /// Stars or unstars the selected project: the change shows at once (the
    /// sidebar is re-sorted) and a `project_update` is queued with an undo
    /// record. No selected project: nothing changes.
    pub fn star_selected_project_at(&mut self, ns: u32)
        ensures
            Self::star_selected_project_at_effect(*old(self), *final(self), ns),
    {
        if self.nav.selected_project >= self.data.projects.len() {
            return;
        }
        let ghost old_app = *self;
        let before = self.data.projects[self.nav.selected_project].duplicate();
        let pid = before.id.clone();
        let new_fav = !before.is_favorite;
        let j = match project_position(&self.data.projects, pid.as_str()) {
            Some(j) => j,
            None => {
                assert(self.data.projects@[self.nav.selected_project as int].id@ == pid@);
                return;
            },
        };
        let mut p = self.data.projects.remove(j);
        p.is_favorite = new_fav;
        self.data.projects.insert(j, p);
        assert(self.data.projects@ =~= old_app.data.projects@.update(
            j as int,
            Project { is_favorite: new_fav, ..old_app.data.projects@[j as int] },
        ));
        let ghost mid = *self;
        assert(mid.data.projects@[old_app.nav.selected_project as int].id@ == pid@);
        self.sort_projects();
        proof {
            if project_pos(self.data.projects@, pid@) is Some {
                let k = project_pos(self.data.projects@, pid@)->0;
                assert(0 <= k < self.data.projects@.len());
                assert(self.data.projects@.len() == self.data.projects.len());
                assert(self.nav.selected_project == k as usize);
                assert(self.nav.selected_project as int == k);
            }
            assert(pid@ == old(self).data.projects@[old(self).nav.selected_project as int].id@);
        }
        let u = uuid_for(ns, self.counters.cmd_counter);
        self.counters.cmd_counter = bump_counter(self.counters.cmd_counter);
        self.pending.temp_id_pending.push(
            (u.clone(), crate::sync::OptimisticOp::ProjectUpdated { project_id: pid.clone(), before }),
        );
        self.pending.pending_commands.push(
            crate::sync::SyncCommand {
                kind: String::from_str("project_update"),
                temp_id: None,
                uuid: u,
                args: crate::sync::CommandArgs::ProjectUpdate { id: pid, is_favorite: new_fav },
            },
        );
        assert(self.pending.pending_commands@.drop_last() =~= old_app.pending.pending_commands@);
        assert(self.pending.temp_id_pending@.drop_last() =~= old_app.pending.temp_id_pending@);
    }
}

} // verus!
