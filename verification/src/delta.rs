//! Merging what the Sync API sends back: a full snapshot replaces the
//! lists, a delta inserts, replaces or deletes record by record.
use vstd::prelude::*;
use vstd::string::*;

use crate::app::{opt_view, App, UserRecord};
use crate::edit::{project_pos, selected_task_spec};
use crate::tasks::{visible_rows, Clock};
use crate::projects::ordered_projects;
use crate::model::{Comment, Folder, Label, Project, Section, Task, Workspace};
use crate::text::str_eq;

verus! {

/// A record with an id that a delta can mark as deleted.
pub trait Keyed: Sized {
    spec fn key(&self) -> Seq<char>;

    spec fn gone(&self) -> bool;

    fn key_str(&self) -> (r: &str)
        ensures
            r@ == self.key(),
    ;

    fn is_gone(&self) -> (r: bool)
        ensures
            r == self.gone(),
    ;
}

impl Keyed for Project {
    open spec fn key(&self) -> Seq<char> {
        self.id@
    }

    open spec fn gone(&self) -> bool {
        self.is_deleted == Some(true)
    }

    fn key_str(&self) -> (r: &str) {
        self.id.as_str()
    }

    fn is_gone(&self) -> (r: bool) {
        match self.is_deleted {
            Some(b) => b,
            None => false,
        }
    }
}

impl Keyed for Task {
    open spec fn key(&self) -> Seq<char> {
        self.id@
    }

    open spec fn gone(&self) -> bool {
        self.is_deleted
    }

    fn key_str(&self) -> (r: &str) {
        self.id.as_str()
    }

    fn is_gone(&self) -> (r: bool) {
        self.is_deleted
    }
}

impl Keyed for Label {
    open spec fn key(&self) -> Seq<char> {
        self.id@
    }

    open spec fn gone(&self) -> bool {
        self.is_deleted == Some(true)
    }

    fn key_str(&self) -> (r: &str) {
        self.id.as_str()
    }

    fn is_gone(&self) -> (r: bool) {
        match self.is_deleted {
            Some(b) => b,
            None => false,
        }
    }
}

impl Keyed for Section {
    open spec fn key(&self) -> Seq<char> {
        self.id@
    }

    open spec fn gone(&self) -> bool {
        self.is_deleted == Some(true)
    }

    fn key_str(&self) -> (r: &str) {
        self.id.as_str()
    }

    fn is_gone(&self) -> (r: bool) {
        match self.is_deleted {
            Some(b) => b,
            None => false,
        }
    }
}

impl Keyed for Workspace {
    open spec fn key(&self) -> Seq<char> {
        self.id@
    }

    open spec fn gone(&self) -> bool {
        self.is_deleted
    }

    fn key_str(&self) -> (r: &str) {
        self.id.as_str()
    }

    fn is_gone(&self) -> (r: bool) {
        self.is_deleted
    }
}

impl Keyed for Folder {
    open spec fn key(&self) -> Seq<char> {
        self.id@
    }

    open spec fn gone(&self) -> bool {
        self.is_deleted
    }

    fn key_str(&self) -> (r: &str) {
        self.id.as_str()
    }

    fn is_gone(&self) -> (r: bool) {
        self.is_deleted
    }
}

impl Keyed for Comment {
    open spec fn key(&self) -> Seq<char> {
        self.id@
    }

    open spec fn gone(&self) -> bool {
        self.is_deleted
    }

    fn key_str(&self) -> (r: &str) {
        self.id.as_str()
    }

    fn is_gone(&self) -> (r: bool) {
        self.is_deleted
    }
}

/// The records of `s` still alive.
pub open spec fn live<T: Keyed>(s: Seq<T>) -> Seq<T> {
    s.filter(|e: T| !e.gone())
}

/// `s` without the records whose id is `k`.
pub open spec fn without_key<T: Keyed>(s: Seq<T>, k: Seq<char>) -> Seq<T> {
    s.filter(|e: T| e.key() != k)
}

pub open spec fn first_key_at<T: Keyed>(s: Seq<T>, k: Seq<char>, j: int) -> bool {
    0 <= j < s.len() && s[j].key() == k && forall|i: int| 0 <= i < j ==> s[i].key() != k
}

/// One delta record applied: a deletion drops every record with its id,
/// otherwise the first record with its id is replaced, or it is appended.
pub open spec fn upsert_one<T: Keyed>(cur: Seq<T>, x: T) -> Seq<T> {
    if x.gone() {
        without_key(cur, x.key())
    } else if exists|j: int| first_key_at(cur, x.key(), j) {
        cur.update(choose|j: int| first_key_at(cur, x.key(), j), x)
    } else {
        cur.push(x)
    }
}

/// A delta list applied in order.
pub open spec fn upsert_all<T: Keyed>(cur: Seq<T>, inc: Seq<T>) -> Seq<T>
    decreases inc.len(),
{
    if inc.len() == 0 {
        cur
    } else {
        upsert_all(upsert_one(cur, inc[0]), inc.drop_first())
    }
}

/// Keeps the records of `v` that satisfy `keep_live` (alive) or, when
/// `keep_live` is false, those whose id is not `k`.
pub(crate) fn retain_records<T: Keyed>(v: &mut Vec<T>, keep_live: bool, k: &str)
    ensures
        final(v)@ == (if keep_live {
            live(old(v)@)
        } else {
            without_key(old(v)@, k@)
        }),
{
    let ghost orig = v@;
    let ghost f = if keep_live {
        |e: T| !e.gone()
    } else {
        |e: T| e.key() != k@
    };
    let mut out: Vec<T> = Vec::new();
    while v.len() > 0
        invariant
            f == (if keep_live {
                |e: T| !e.gone()
            } else {
                |e: T| e.key() != k@
            }),
            v@.len() <= orig.len(),
            v@ == orig.skip(orig.len() - v@.len()),
            out@ == orig.take(orig.len() - v@.len()).filter(f),
        decreases v.len(),
    {
        let ghost n = orig.len() - v@.len();
        let e = v.remove(0);
        proof {
            assert(orig.take(n + 1) =~= orig.take(n).push(e));
            assert(v@ =~= orig.skip(n + 1));
            orig.take(n).lemma_filter_push(e, f);
        }
        let keep = if keep_live {
            !e.is_gone()
        } else {
            !str_eq(e.key_str(), k)
        };
        if keep {
            out.push(e);
        }
    }
    assert(orig.take(orig.len() as int) =~= orig);
    *v = out;
    proof {
        if keep_live {
            assert(f =~= (|e: T| !e.gone()));
        } else {
            assert(f =~= (|e: T| e.key() != k@));
        }
    }
}

/// The alive records of `v`.
pub fn keep_live<T: Keyed>(v: Vec<T>) -> (r: Vec<T>)
    ensures
        r@ == live(v@),
{
    let mut v = v;
    retain_records(&mut v, true, "");
    v
}

fn find_key<T: Keyed>(v: &Vec<T>, k: &str) -> (r: Option<usize>)
    ensures
        match r {
            Some(j) => first_key_at(v@, k@, j as int),
            None => !exists|j: int| first_key_at(v@, k@, j),
        },
{
    let mut i: usize = 0;
    while i < v.len()
        invariant
            i <= v.len(),
            forall|j: int| 0 <= j < i ==> v@[j].key() != k@,
        decreases v.len() - i,
    {
        if str_eq(v[i].key_str(), k) {
            return Some(i);
        }
        i += 1;
    }
    proof {
        assert forall|j: int| !first_key_at(v@, k@, j) by {
            if first_key_at(v@, k@, j) {
                assert(v@[j].key() != k@);
            }
        }
    }
    None
}

proof fn lemma_first_key_unique<T: Keyed>(s: Seq<T>, k: Seq<char>, a: int, b: int)
    requires
        first_key_at(s, k, a),
        first_key_at(s, k, b),
    ensures
        a == b,
{
    if a < b {
        assert(s[a].key() != k);
    } else if b < a {
        assert(s[b].key() != k);
    }
}

/// Applies one delta record.
pub fn upsert<T: Keyed>(v: &mut Vec<T>, x: T)
    ensures
        final(v)@ == upsert_one(old(v)@, x),
{
    if x.is_gone() {
        retain_records(v, false, x.key_str());
        return;
    }
    match find_key(v, x.key_str()) {
        Some(j) => {
            proof {
                let c = choose|c: int| first_key_at(old(v)@, x.key(), c);
                lemma_first_key_unique(old(v)@, x.key(), j as int, c);
            }
            v.remove(j);
            v.insert(j, x);
            assert(v@ =~= old(v)@.update(j as int, x));
        },
        None => {
            v.push(x);
        },
    }
}

/// Applies a delta list in order.
pub fn upsert_each<T: Keyed>(v: &mut Vec<T>, inc: Vec<T>)
    ensures
        final(v)@ == upsert_all(old(v)@, inc@),
{
    let ghost orig_inc = inc@;
    let mut inc = inc;
    while inc.len() > 0
        invariant
            inc@.len() <= orig_inc.len(),
            inc@ == orig_inc.skip(orig_inc.len() - inc@.len()),
            upsert_all(old(v)@, orig_inc) == upsert_all(v@, inc@),
        decreases inc.len(),
    {
        let ghost before = inc@;
        let x = inc.remove(0);
        proof {
            assert(inc@ =~= before.drop_first());
            assert(inc@ =~= orig_inc.skip(orig_inc.len() - inc@.len()));
        }
        upsert(v, x);
    }
}

} // verus!

verus! {

/// The task a comment belongs to (`item_id`, else `task_id`, else empty).
pub open spec fn note_task(c: Comment) -> Seq<char> {
    match c.item_id {
        Some(x) => x@,
        None => match c.task_id {
            Some(y) => y@,
            None => Seq::empty(),
        },
    }
}

fn note_task_exec(c: &Comment) -> (r: String)
    ensures
        r@ == note_task(*c),
{
    match &c.item_id {
        Some(x) => x.clone(),
        None => match &c.task_id {
            Some(y) => y.clone(),
            None => String::new(),
        },
    }
}

pub open spec fn first_entry(cache: Seq<(String, Vec<Comment>)>, k: Seq<char>, e: int) -> bool {
    0 <= e < cache.len() && cache[e].0@ == k && forall|j: int| 0 <= j < e ==> cache[j].0@ != k
}

/// Whether the comment cache has an entry for task `k`.
pub open spec fn has_entry(cache: Seq<(String, Vec<Comment>)>, k: Seq<char>) -> bool {
    exists|e: int| 0 <= e < cache.len() && (#[trigger] cache[e]).0@ == k
}

/// The cached comments of task `k`: those of its first entry.
pub open spec fn notes_of(cache: Seq<(String, Vec<Comment>)>, k: Seq<char>) -> Seq<Comment> {
    if exists|e: int| first_entry(cache, k, e) {
        cache[choose|e: int| first_entry(cache, k, e)].1@
    } else {
        Seq::empty()
    }
}

proof fn lemma_first_entry_exists(cache: Seq<(String, Vec<Comment>)>, k: Seq<char>, e: int)
    requires
        0 <= e < cache.len(),
        cache[e].0@ == k,
    ensures
        exists|f: int| first_entry(cache, k, f),
    decreases e,
{
    if forall|j: int| 0 <= j < e ==> cache[j].0@ != k {
        assert(first_entry(cache, k, e));
    } else {
        let j = choose|j: int| 0 <= j < e && cache[j].0@ != k == false;
        lemma_first_entry_exists(cache, k, j);
    }
}

proof fn lemma_first_entry_unique(cache: Seq<(String, Vec<Comment>)>, k: Seq<char>, a: int, b: int)
    requires
        first_entry(cache, k, a),
        first_entry(cache, k, b),
    ensures
        a == b,
{
    if a < b {
        assert(cache[a].0@ != k);
    } else if b < a {
        assert(cache[b].0@ != k);
    }
}

fn find_entry(cache: &Vec<(String, Vec<Comment>)>, k: &str) -> (r: Option<usize>)
    ensures
        match r {
            Some(e) => first_entry(cache@, k@, e as int),
            None => !has_entry(cache@, k@),
        },
{
    let mut i: usize = 0;
    while i < cache.len()
        invariant
            i <= cache.len(),
            forall|j: int| 0 <= j < i ==> cache@[j].0@ != k@,
        decreases cache.len() - i,
    {
        if str_eq(cache[i].0.as_str(), k) {
            return Some(i);
        }
        i += 1;
    }
    None
}

/// Replaces the list of the first entry `e` (of key `k`) with `list`.
fn set_entry(cache: &mut Vec<(String, Vec<Comment>)>, e: usize, list: Vec<Comment>)
    requires
        e < old(cache)@.len(),
    ensures
        final(cache)@.len() == old(cache)@.len(),
        forall|j: int| 0 <= j < final(cache)@.len() ==> (#[trigger] final(cache)@[j]).0@ == old(cache)@[j].0@,
        final(cache)@[e as int].1@ == list@,
        forall|j: int| 0 <= j < final(cache)@.len() && j != e ==> (#[trigger] final(cache)@[j]) == old(cache)@[j],
{
    let (key, _) = cache.remove(e);
    cache.insert(e, (key, list));
}

/// What the cache reads for every task after entry `e` got `list`.
proof fn lemma_set_entry(
    old: Seq<(String, Vec<Comment>)>,
    new: Seq<(String, Vec<Comment>)>,
    e: int,
    k: Seq<char>,
)
    requires
        first_entry(old, k, e),
        new.len() == old.len(),
        forall|j: int| 0 <= j < new.len() ==> (#[trigger] new[j]).0@ == old[j].0@,
        forall|j: int| 0 <= j < new.len() && j != e ==> (#[trigger] new[j]) == old[j],
    ensures
        forall|q: Seq<char>| q != k ==> notes_of(new, q) == notes_of(old, q),
        notes_of(new, k) == new[e].1@,
        forall|q: Seq<char>| has_entry(new, q) == has_entry(old, q),
{
    assert(first_entry(new, k, e));
    let c = choose|c: int| first_entry(new, k, c);
    lemma_first_entry_unique(new, k, e, c);
    assert forall|q: Seq<char>| q != k implies notes_of(new, q) == notes_of(old, q) by {
        if exists|f: int| first_entry(old, q, f) {
            let f = choose|f: int| first_entry(old, q, f);
            assert(f != e);
            assert(first_entry(new, q, f));
            let g = choose|g: int| first_entry(new, q, g);
            lemma_first_entry_unique(new, q, f, g);
        } else {
            if exists|f: int| first_entry(new, q, f) {
                let f = choose|f: int| first_entry(new, q, f);
                assert(new[f].0@ == old[f].0@);
                assert forall|j: int| 0 <= j < f implies old[j].0@ != q by {
                    assert(new[j].0@ == old[j].0@);
                }
                assert(first_entry(old, q, f));
            }
        }
    }
    assert forall|q: Seq<char>| has_entry(new, q) == has_entry(old, q) by {
        if has_entry(new, q) {
            let j = choose|j: int| 0 <= j < new.len() && (#[trigger] new[j]).0@ == q;
            assert(old[j].0@ == q);
        }
        if has_entry(old, q) {
            let j = choose|j: int| 0 <= j < old.len() && (#[trigger] old[j]).0@ == q;
            assert(new[j].0@ == q);
        }
    }
}

/// Appending an entry `(k, list)` for a task without one.
proof fn lemma_add_entry(old: Seq<(String, Vec<Comment>)>, new: Seq<(String, Vec<Comment>)>, k: Seq<char>)
    requires
        !has_entry(old, k),
        new.len() == old.len() + 1,
        new.drop_last() == old,
        new.last().0@ == k,
    ensures
        forall|q: Seq<char>| q != k ==> notes_of(new, q) == notes_of(old, q),
        notes_of(new, k) == new.last().1@,
        forall|q: Seq<char>| has_entry(new, q) == (has_entry(old, q) || q == k),
{
    let n = old.len() as int;
    assert forall|j: int| 0 <= j < n implies new[j] == old[j] by {
        assert(new.drop_last()[j] == new[j]);
    }
    assert forall|j: int| 0 <= j < n implies old[j].0@ != k by {
        if old[j].0@ == k {
            assert(has_entry(old, k));
        }
    }
    assert(first_entry(new, k, n));
    let c = choose|c: int| first_entry(new, k, c);
    lemma_first_entry_unique(new, k, n, c);
    assert forall|q: Seq<char>| q != k implies notes_of(new, q) == notes_of(old, q) by {
        if exists|f: int| first_entry(old, q, f) {
            let f = choose|f: int| first_entry(old, q, f);
            assert(first_entry(new, q, f));
            let g = choose|g: int| first_entry(new, q, g);
            lemma_first_entry_unique(new, q, f, g);
        } else {
            if exists|f: int| first_entry(new, q, f) {
                let f = choose|f: int| first_entry(new, q, f);
                assert(f != n);
                assert(first_entry(old, q, f));
            }
        }
    }
    assert forall|q: Seq<char>| has_entry(new, q) == (has_entry(old, q) || q == k) by {
        if has_entry(new, q) {
            let j = choose|j: int| 0 <= j < new.len() && (#[trigger] new[j]).0@ == q;
            if j < n {
                assert(old[j].0@ == q);
            }
        }
        if has_entry(old, q) {
            let j = choose|j: int| 0 <= j < old.len() && (#[trigger] old[j]).0@ == q;
            assert(new[j].0@ == q);
        }
        if q == k {
            assert(new[n].0@ == q);
        }
    }
}

/// Files one delta comment into the cache of its task.
fn cache_upsert(cache: &mut Vec<(String, Vec<Comment>)>, note: Comment)
    ensures
        forall|q: Seq<char>| q != note_task(note) ==> notes_of(final(cache)@, q) == notes_of(old(cache)@, q),
        notes_of(final(cache)@, note_task(note)) == upsert_one(notes_of(old(cache)@, note_task(note)), note),
        forall|q: Seq<char>| has_entry(final(cache)@, q) == (has_entry(old(cache)@, q) || (q == note_task(note) && !note.gone())),
{
    let tid = note_task_exec(&note);
    match find_entry(cache, tid.as_str()) {
        Some(e) => {
            let ghost before = cache@;
            let mut list = duplicate_comment_list(&cache[e].1);
            upsert(&mut list, note);
            set_entry(cache, e, list);
            proof {
                lemma_set_entry(before, cache@, e as int, tid@);
                let c = choose|c: int| first_entry(before, tid@, c);
                lemma_first_entry_unique(before, tid@, e as int, c);
            }
        },
        None => {
            proof {
                assert(notes_of(old(cache)@, tid@) =~= Seq::<Comment>::empty()) by {
                    if exists|f: int| first_entry(old(cache)@, tid@, f) {
                        let f = choose|f: int| first_entry(old(cache)@, tid@, f);
                        assert(has_entry(old(cache)@, tid@));
                    }
                }
            }
            if note.is_gone() {
                proof {
                    assert(upsert_one(Seq::<Comment>::empty(), note) =~= Seq::<Comment>::empty());
                }
                return;
            }
            let ghost before = cache@;
            let ghost n = note;
            cache.push((tid, vec![note]));
            proof {
                assert(cache@.drop_last() =~= before);
                lemma_add_entry(before, cache@, tid@);
                assert(!exists|j: int| first_key_at(Seq::<Comment>::empty(), n.key(), j));
                assert(upsert_one(Seq::<Comment>::empty(), n) =~= seq![n]);
                assert(cache@.last().1@ =~= seq![n]);
            }
        },
    }
}

/// Adds a comment at the end of its task's list (full snapshot).
fn cache_push(cache: &mut Vec<(String, Vec<Comment>)>, note: Comment)
    ensures
        forall|q: Seq<char>| q != note_task(note) ==> notes_of(final(cache)@, q) == notes_of(old(cache)@, q),
        notes_of(final(cache)@, note_task(note)) == notes_of(old(cache)@, note_task(note)).push(note),
{
    let tid = note_task_exec(&note);
    match find_entry(cache, tid.as_str()) {
        Some(e) => {
            let ghost before = cache@;
            let mut list = duplicate_comment_list(&cache[e].1);
            list.push(note);
            set_entry(cache, e, list);
            proof {
                lemma_set_entry(before, cache@, e as int, tid@);
                let c = choose|c: int| first_entry(before, tid@, c);
                lemma_first_entry_unique(before, tid@, e as int, c);
            }
        },
        None => {
            proof {
                assert(notes_of(old(cache)@, tid@) =~= Seq::<Comment>::empty()) by {
                    if exists|f: int| first_entry(old(cache)@, tid@, f) {
                        let f = choose|f: int| first_entry(old(cache)@, tid@, f);
                        assert(has_entry(old(cache)@, tid@));
                    }
                }
            }
            let ghost before = cache@;
            let ghost n = note;
            cache.push((tid, vec![note]));
            proof {
                assert(cache@.drop_last() =~= before);
                lemma_add_entry(before, cache@, tid@);
                assert(cache@.last().1@ =~= Seq::<Comment>::empty().push(n));
            }
        },
    }
}

fn duplicate_comment_list(v: &Vec<Comment>) -> (r: Vec<Comment>)
    ensures
        r@ == v@,
{
    crate::model::duplicate_comments(v)
}

} // verus!

verus! {

/// A collaborator on a shared project.
#[derive(Clone, Debug)]
pub struct Collaborator {
    pub id: String,
    pub name: Option<String>,
    pub email: Option<String>,
}

/// The signed-in user as the Sync API reports it.
#[derive(Clone, Debug)]
pub struct SyncUser {
    pub id: String,
    pub full_name: Option<String>,
    pub email: Option<String>,
    pub websocket_url: Option<String>,
}

/// How the server answered one command.
#[derive(Clone, Debug)]
pub enum CommandStatus {
    Accepted,
    /// Rejected, with the server's message when it gave one.
    Error(Option<String>),
}

/// A Sync API response.
#[derive(Debug)]
pub struct SyncResponse {
    pub full_sync: bool,
    pub sync_token: String,
    pub projects: Option<Vec<Project>>,
    pub items: Option<Vec<Task>>,
    pub labels: Option<Vec<Label>>,
    pub sections: Option<Vec<Section>>,
    pub notes: Option<Vec<Comment>>,
    pub collaborators: Option<Vec<Collaborator>>,
    pub workspaces: Option<Vec<Workspace>>,
    pub folders: Option<Vec<Folder>>,
    pub user: Option<SyncUser>,
    /// Per command uuid.
    pub sync_status: Vec<(String, CommandStatus)>,
    /// Temporary id to the id the server gave.
    pub temp_id_mapping: Vec<(String, String)>,
}

/// Some known user has id `id`.
pub open spec fn has_user(users: Seq<UserRecord>, id: Seq<char>) -> bool {
    exists|i: int| 0 <= i < users.len() && (#[trigger] users[i]).id@ == id
}

/// `users` with `u` added unless its id is known.
pub open spec fn user_added(old: Seq<UserRecord>, new: Seq<UserRecord>, id: Seq<char>, name: Option<String>, email: Option<String>) -> bool {
    if has_user(old, id) {
        new == old
    } else {
        &&& new.len() == old.len() + 1
        &&& new.drop_last() == old
        &&& new.last().id@ == id && new.last().full_name@ == crate::app::opt_text(name) && new.last().email@
            == crate::app::opt_text(email)
        &&& new.last().display@ == crate::app::user_display(id, crate::app::opt_text(name), crate::app::opt_text(email))
    }
}

/// Users after a list of collaborators: each unknown one is added.
pub open spec fn users_after(old: Seq<UserRecord>, new: Seq<UserRecord>, cs: Seq<Collaborator>) -> bool
    decreases cs.len(),
{
    if cs.len() == 0 {
        new == old
    } else {
        exists|mid: Seq<UserRecord>|
            #[trigger] user_added(old, mid, cs[0].id@, cs[0].name, cs[0].email) && users_after(
                mid,
                new,
                cs.drop_first(),
            )
    }
}

fn find_user(users: &Vec<UserRecord>, id: &str) -> (r: bool)
    ensures
        r == has_user(users@, id@),
{
    let mut i: usize = 0;
    while i < users.len()
        invariant
            i <= users.len(),
            forall|j: int| 0 <= j < i ==> (#[trigger] users@[j]).id@ != id@,
        decreases users.len() - i,
    {
        if str_eq(users[i].id.as_str(), id) {
            assert(users@[i as int].id@ == id@);
            return true;
        }
        i += 1;
    }
    false
}

/// Adds a user record unless one with the same id is known.
fn add_user(users: &mut Vec<UserRecord>, id: String, name: Option<String>, email: Option<String>)
    ensures
        user_added(old(users)@, final(users)@, id@, name, email),
{
    if find_user(users, id.as_str()) {
        return;
    }
    let ghost before = users@;
    let rec = UserRecord::new(id, name, email);
    users.push(rec);
    assert(users@.drop_last() =~= before);
}

fn add_collaborators(users: &mut Vec<UserRecord>, cs: Vec<Collaborator>)
    ensures
        users_after(old(users)@, final(users)@, cs@),
    decreases cs.len(),
{
    if cs.len() == 0 {
        return;
    }
    let mut cs = cs;
    let ghost all = cs@;
    let c = cs.remove(0);
    assert(cs@ =~= all.drop_first());
    let ghost before = users@;
    add_user(users, c.id, c.name, c.email);
    let ghost mid = users@;
    add_collaborators(users, cs);
    assert(user_added(before, mid, all[0].id@, all[0].name, all[0].email));
}

} // verus!

verus! {

/// The cursor after re-sorting projects `before` into `after`: it follows
/// the project it was on.
pub open spec fn resorted_sel(before: Seq<Project>, after: Seq<Project>, sel: usize) -> usize {
    if sel < before.len() && project_pos(after, before[sel as int].id@) is Some {
        project_pos(after, before[sel as int].id@)->0 as usize
    } else {
        sel
    }
}

/// The projects list and cursor after a response's projects.
pub open spec fn projects_merged(old: App, mid: App, resp: SyncResponse) -> bool {
    match resp.projects {
        Some(ps) => {
            let merged = if resp.full_sync {
                live(ps@)
            } else {
                upsert_all(old.data.projects@, ps@)
            };
            &&& mid.data.projects@ == ordered_projects(merged, old.data.workspaces@, old.data.folders@)
            &&& mid.nav.selected_project == resorted_sel(merged, mid.data.projects@, old.nav.selected_project)
        },
        None => mid.data.projects@ == old.data.projects@ && mid.nav.selected_project == old.nav.selected_project,
    }
}

/// A list after a response's list `inc`: replaced by its live records on
/// a full sync, merged record by record otherwise.
pub open spec fn list_merged<T: Keyed>(full: bool, old: Seq<T>, new: Seq<T>, inc: Option<Vec<T>>) -> bool {
    match inc {
        Some(v) => new == (if full {
            live(v@)
        } else {
            upsert_all(old, v@)
        }),
        None => new == old,
    }
}

/// Users after the collaborators and the signed-in user of a full sync.
pub open spec fn users_merged(old: Seq<UserRecord>, new: Seq<UserRecord>, resp: SyncResponse) -> bool {
    exists|u1: Seq<UserRecord>|
        (match resp.collaborators {
            Some(cs) => users_after(old, u1, cs@),
            None => u1 == old,
        }) && #[trigger] signed_in_added(u1, new, resp.user)
}

/// The signed-in user added to the known users unless already there.
pub open spec fn signed_in_added(old: Seq<UserRecord>, new: Seq<UserRecord>, user: Option<SyncUser>) -> bool {
    match user {
        Some(u) => user_added(old, new, u.id@, u.full_name, u.email),
        None => new == old,
    }
}

/// Everything a response changes before the comment lists.
pub open spec fn lists_merged(old: App, mid: App, resp: SyncResponse) -> bool {
    let d = old.data;
    let m = mid.data;
    let full = resp.full_sync;
    &&& projects_merged(old, mid, resp)
    &&& list_merged(full, d.tasks@, m.tasks@, resp.items)
    &&& list_merged(full, d.labels@, m.labels@, resp.labels)
    &&& list_merged(full, d.sections@, m.sections@, resp.sections)
    &&& (if full {
        &&& list_merged(true, d.workspaces@, m.workspaces@, resp.workspaces)
        &&& list_merged(true, d.folders@, m.folders@, resp.folders)
        &&& users_merged(d.users@, m.users@, resp)
        &&& match resp.user {
            Some(u) => {
                &&& opt_view(m.current_user_id) == Some(u.id@)
                &&& m.websocket_url == u.websocket_url
                &&& m.current_user_name == (if u.full_name is Some {
                    u.full_name
                } else {
                    d.current_user_name
                })
            },
            None => m.current_user_id == d.current_user_id && m.websocket_url == d.websocket_url
                && m.current_user_name == d.current_user_name,
        }
    } else {
        &&& m.workspaces == d.workspaces && m.folders == d.folders && m.users == d.users
        &&& m.current_user_id == d.current_user_id && m.websocket_url == d.websocket_url
        &&& m.current_user_name == d.current_user_name
    })
    &&& m.comments == d.comments && m.comments_by_task == d.comments_by_task
    &&& m.completed_cache == d.completed_cache && m.sync_token == d.sync_token
    &&& m.last_sync_at == d.last_sync_at && m.websocket_connected == d.websocket_connected
    &&& mid.nav == (crate::app::Nav { selected_project: mid.nav.selected_project, ..old.nav })
    &&& mid.views == old.views && mid.input == old.input && mid.external == old.external
    &&& mid.counters == old.counters && mid.pending == old.pending
    &&& mid.running == old.running && mid.error == old.error
}

} // verus!

verus! {

fn merge_list<T: Keyed>(full: bool, cur: &mut Vec<T>, inc: Option<Vec<T>>)
    ensures
        list_merged(full, old(cur)@, final(cur)@, inc),
{
    match inc {
        Some(v) => {
            if full {
                *cur = keep_live(v);
            } else {
                upsert_each(cur, v);
            }
        },
        None => {},
    }
}

impl App {
    /// Applies everything of `resp` but the comments and the sync token,
    /// and hands those back.
    #[verifier::rlimit(60)]
    fn merge_lists(&mut self, resp: SyncResponse) -> (r: (Option<Vec<Comment>>, String))
        ensures
            lists_merged(*old(self), *final(self), resp),
            r.0 == resp.notes,
            r.1 == resp.sync_token,
    {
        let ghost g = resp;
        let full = resp.full_sync;
        match resp.projects {
            Some(ps) => {
                let merged_v = if full {
                    keep_live(ps)
                } else {
                    let mut cur = crate::projects::duplicate_projects(&self.data.projects);
                    upsert_each(&mut cur, ps);
                    cur
                };
                self.data.projects = merged_v;
                self.sort_projects();
            },
            None => {},
        }
        merge_list(full, &mut self.data.tasks, resp.items);
        merge_list(full, &mut self.data.labels, resp.labels);
        merge_list(full, &mut self.data.sections, resp.sections);
        if full {
            merge_list(true, &mut self.data.workspaces, resp.workspaces);
            merge_list(true, &mut self.data.folders, resp.folders);
            let ghost u0 = self.data.users@;
            match resp.collaborators {
                Some(cs) => add_collaborators(&mut self.data.users, cs),
                None => {},
            }
            let ghost u1 = self.data.users@;
            match resp.user {
                Some(u) => {
                    self.data.current_user_id = Some(u.id.clone());
                    self.data.websocket_url = u.websocket_url;
                    match &u.full_name {
                        Some(n) => {
                            self.data.current_user_name = Some(n.clone());
                        },
                        None => {},
                    }
                    add_user(&mut self.data.users, u.id, u.full_name, u.email);
                },
                None => {},
            }
            assert(signed_in_added(u1, self.data.users@, g.user));
        }
        (resp.notes, resp.sync_token)
    }
}

} // verus!

verus! {

proof fn lemma_upsert_all_push<T: Keyed>(cur: Seq<T>, s: Seq<T>, x: T)
    ensures
        upsert_all(cur, s.push(x)) == upsert_one(upsert_all(cur, s), x),
    decreases s.len(),
{
    if s.len() == 0 {
        assert(s.push(x).drop_first() =~= Seq::<T>::empty());
        assert(s.push(x)[0] == x);
        assert(upsert_all(upsert_one(cur, x), Seq::<T>::empty()) == upsert_one(cur, x));
        assert(upsert_all(cur, s) == cur);
    } else {
        assert(s.push(x).drop_first() =~= s.drop_first().push(x));
        assert(s.push(x)[0] == s[0]);
        lemma_upsert_all_push(upsert_one(cur, s[0]), s.drop_first(), x);
    }
}

/// The comments of task `k` in a full snapshot's notes.
pub open spec fn snapshot_notes(ns: Seq<Comment>, k: Seq<char>) -> Seq<Comment> {
    live(ns).filter(|n: Comment| note_task(n) == k)
}

/// The notes of a delta that concern task `k`.
pub open spec fn delta_notes(ns: Seq<Comment>, k: Seq<char>) -> Seq<Comment> {
    ns.filter(|n: Comment| note_task(n) == k)
}

/// The comment cache, and the open task's comments, after a response's
/// notes; `open` is the task the detail pane or cursor is on.
pub open spec fn notes_merged(mid: App, new: App, full: bool, notes: Option<Vec<Comment>>, open: Option<Seq<char>>) -> bool {
    &&& match notes {
        None => new.data.comments_by_task == mid.data.comments_by_task && new.data.comments == mid.data.comments,
        Some(ns) => if full {
            &&& forall|k: Seq<char>| #[trigger] notes_of(new.data.comments_by_task@, k) == snapshot_notes(ns@, k)
            &&& new.data.comments == mid.data.comments
        } else {
            &&& forall|k: Seq<char>|
                #[trigger] notes_of(new.data.comments_by_task@, k) == upsert_all(
                    notes_of(mid.data.comments_by_task@, k),
                    delta_notes(ns@, k),
                )
            &&& match open {
                Some(o) => if (exists|i: int| 0 <= i < ns@.len() && note_task(#[trigger] ns@[i]) == o)
                    && has_entry(new.data.comments_by_task@, o) {
                    new.data.comments@ == notes_of(new.data.comments_by_task@, o)
                } else {
                    new.data.comments == mid.data.comments
                },
                None => new.data.comments == mid.data.comments,
            }
        },
    }
    &&& new == (App {
        data: crate::app::Data {
            comments_by_task: new.data.comments_by_task,
            comments: new.data.comments,
            ..mid.data
        },
        ..mid
    })
}

impl App {
    fn merge_notes(&mut self, full: bool, notes: Option<Vec<Comment>>, open: Option<String>)
        ensures
            notes_merged(*old(self), *final(self), full, notes, opt_view(open)),
    {
        let ns = match notes {
            Some(ns) => ns,
            None => return,
        };
        let ghost all = ns@;
        let ghost c0 = self.data.comments_by_task@;
        let mut ns = ns;
        if full {
            self.data.comments_by_task = Vec::new();
            proof {
                assert forall|k: Seq<char>| #[trigger] notes_of(self.data.comments_by_task@, k) == snapshot_notes(all.take(0), k) by {
                    assert(all.take(0) =~= Seq::<Comment>::empty());
                    assert(live(Seq::<Comment>::empty()) =~= Seq::<Comment>::empty());
                    assert(snapshot_notes(Seq::<Comment>::empty(), k) =~= Seq::<Comment>::empty());
                }
            }
            while ns.len() > 0
                invariant
                    ns@.len() <= all.len(),
                    ns@ == all.skip(all.len() - ns@.len()),
                    forall|k: Seq<char>| #[trigger] notes_of(self.data.comments_by_task@, k) == snapshot_notes(
                        all.take(all.len() - ns@.len()),
                        k,
                    ),
                    *self == (App {
                        data: crate::app::Data { comments_by_task: self.data.comments_by_task, ..old(self).data },
                        ..*old(self)
                    }),
                decreases ns.len(),
            {
                let ghost i = all.len() - ns@.len();
                let note = ns.remove(0);
                proof {
                    assert(all.take(i + 1) =~= all.take(i).push(note));
                    assert(ns@ =~= all.skip(i + 1));
                    all.take(i).lemma_filter_push(note, |e: Comment| !e.gone());
                }
                if !note.is_deleted {
                    let ghost n = note;
                    cache_push(&mut self.data.comments_by_task, note);
                    proof {
                        assert forall|k: Seq<char>| #[trigger] notes_of(self.data.comments_by_task@, k) == snapshot_notes(all.take(i + 1), k) by {
                            live(all.take(i)).lemma_filter_push(n, |m: Comment| note_task(m) == k);
                        }
                    }
                }
            }
            assert(all.take(all.len() as int) =~= all);
        } else {
            let mut affected = false;
            proof {
                assert forall|k: Seq<char>| #[trigger] notes_of(self.data.comments_by_task@, k) == upsert_all(notes_of(c0, k), delta_notes(all.take(0), k)) by {
                    assert(delta_notes(all.take(0), k) =~= Seq::<Comment>::empty());
                }
            }
            while ns.len() > 0
                invariant
                    ns@.len() <= all.len(),
                    ns@ == all.skip(all.len() - ns@.len()),
                    forall|k: Seq<char>| #[trigger] notes_of(self.data.comments_by_task@, k) == upsert_all(
                        notes_of(c0, k),
                        delta_notes(all.take(all.len() - ns@.len()), k),
                    ),
                    affected == match opt_view(open) {
                        Some(o) => exists|j: int| 0 <= j < all.len() - ns@.len() && note_task(#[trigger] all[j]) == o,
                        None => false,
                    },
                    *self == (App {
                        data: crate::app::Data { comments_by_task: self.data.comments_by_task, ..old(self).data },
                        ..*old(self)
                    }),
                decreases ns.len(),
            {
                let ghost i = all.len() - ns@.len();
                let note = ns.remove(0);
                proof {
                    assert(all.take(i + 1) =~= all.take(i).push(note));
                    assert(ns@ =~= all.skip(i + 1));
                    assert(all[i] == note);
                }
                let tid = note_task_exec(&note);
                let hit = match &open {
                    Some(o) => str_eq(o.as_str(), tid.as_str()),
                    None => false,
                };
                let ghost n = note;
                let ghost before = self.data.comments_by_task@;
                cache_upsert(&mut self.data.comments_by_task, note);
                proof {
                    assert forall|k: Seq<char>| #[trigger] notes_of(self.data.comments_by_task@, k) == upsert_all(notes_of(c0, k), delta_notes(all.take(i + 1), k)) by {
                        all.take(i).lemma_filter_push(n, |m: Comment| note_task(m) == k);
                        if note_task(n) == k {
                            lemma_upsert_all_push(notes_of(c0, k), delta_notes(all.take(i), k), n);
                        }
                    }
                }
                if hit {
                    affected = true;
                }
            }
            assert(all.take(all.len() as int) =~= all);
            if affected {
                match &open {
                    Some(o) => match find_entry(&self.data.comments_by_task, o.as_str()) {
                        Some(e) => {
                            let list = duplicate_comment_list(&self.data.comments_by_task[e].1);
                            proof {
                                let f = choose|f: int| first_entry(self.data.comments_by_task@, o@, f);
                                lemma_first_entry_unique(self.data.comments_by_task@, o@, e as int, f);
                                assert(has_entry(self.data.comments_by_task@, o@)) by {
                                    assert(self.data.comments_by_task@[e as int].0@ == o@);
                                }
                            }
                            self.data.comments = list;
                        },
                        None => {},
                    },
                    None => {},
                }
            }
        }
    }
}

} // verus!

verus! {

/// The task whose comments are open after the lists were merged.
pub open spec fn open_task(mid: App, c: Clock) -> Option<Seq<char>> {
    match selected_task_spec(mid, c) {
        Some(t) => Some(t.id@),
        None => None,
    }
}

/// The last step of a sync: the new token (when one came), the sync time,
/// and the cursor kept inside the task list.
pub open spec fn sync_finished(mid: App, new: App, token: Seq<char>, now_secs: i64, c: Clock) -> bool {
    let tok_app = App {
        data: crate::app::Data { sync_token: new.data.sync_token, last_sync_at: Some(now_secs), ..mid.data },
        ..mid
    };
    let n = visible_rows(tok_app, c).len();
    &&& new.data.sync_token@ == (if token.len() > 0 {
        token
    } else {
        mid.data.sync_token@
    })
    &&& (token.len() == 0 ==> new.data.sync_token == mid.data.sync_token)
    &&& new == (App {
        nav: crate::app::Nav {
            selected_task: if n == 0 {
                0
            } else if mid.nav.selected_task >= n {
                (n - 1) as usize
            } else {
                mid.nav.selected_task
            },
            ..mid.nav
        },
        ..tok_app
    })
}

impl App {
    /// Applies a Sync API response at `now_secs` on clock `c`. Returns
    /// whether a new sync token came (it is then to be saved).
    pub fn apply_sync_delta_on(&mut self, resp: SyncResponse, c: &Clock, now_secs: i64) -> (saved: bool)
        ensures
            saved == (resp.sync_token@.len() > 0),
            exists|mid: App, mid2: App|
                #[trigger] lists_merged(*old(self), mid, resp) && notes_merged(
                    mid,
                    mid2,
                    resp.full_sync,
                    resp.notes,
                    if resp.full_sync {
                        None
                    } else {
                        open_task(mid, *c)
                    },
                ) && #[trigger] sync_finished(mid2, *final(self), resp.sync_token@, now_secs, *c),
    {
        let ghost g = resp;
        let full = resp.full_sync;
        let (notes, token) = self.merge_lists(resp);
        let ghost mid = *self;
        let open = if full {
            None
        } else {
            match self.selected_task_on(c) {
                Some(t) => Some(t.id.clone()),
                None => None,
            }
        };
        self.merge_notes(full, notes, open);
        let ghost mid2 = *self;
        let saved = token.as_str().unicode_len() > 0;
        if saved {
            self.data.sync_token = token;
        }
        self.data.last_sync_at = Some(now_secs);
        let n = self.visible_tasks_on(c).len();
        if n == 0 {
            self.nav.selected_task = 0;
        } else if self.nav.selected_task >= n {
            self.nav.selected_task = n - 1;
        }
        assert(lists_merged(*old(self), mid, g));
        assert(sync_finished(mid2, *self, g.sync_token@, now_secs, *c));
        saved
    }
}

} // verus!
