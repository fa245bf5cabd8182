//! The Modrinth tasks' decisions: which projects a refresh finds out of
//! date or gone, and how a search pages through.

use vstd::prelude::*;
use crate::constants::MODRINTH_SEARCH_PAGE_SIZE;
use crate::ids::{lemma_push_contains, views};
use crate::models::modrinth::ProjectStamp;
use crate::task::{same_second, same_second_spec};

verus! {

/// The strings of an optional list, as a set; a missing list is empty.
pub open spec fn listed(o: Option<Vec<String>>) -> Set<Seq<char>> {
    match o {
        Some(v) => views(v@).to_set(),
        None => Set::empty(),
    }
}

fn all_listed_in(a: &Vec<String>, b: &Vec<String>) -> (r: bool)
    ensures
        r == (forall|k: int| 0 <= k < a@.len() ==> views(b@).contains(#[trigger] a@[k]@)),
{
    let mut i: usize = 0;
    while i < a.len()
        invariant
            i <= a.len(),
            forall|k: int| 0 <= k < i ==> views(b@).contains(#[trigger] a@[k]@),
        decreases a.len() - i,
    {
        let mut found = false;
        let mut j: usize = 0;
        while j < b.len()
            invariant
                i < a.len(),
                j <= b.len(),
                found ==> views(b@).contains(a@[i as int]@),
                !found ==> forall|k: int| 0 <= k < j ==> b@[k]@ != a@[i as int]@,
            decreases b.len() - j,
        {
            if b[j] == a[i] {
                found = true;
                assert(views(b@)[j as int] == a@[i as int]@);
            }
            j = j + 1;
        }
        if !found {
            proof {
                if views(b@).contains(a@[i as int]@) {
                    let k = choose|k: int| 0 <= k < views(b@).len() && views(b@)[k] == a@[i as int]@;
                    assert(b@[k]@ == a@[i as int]@);
                }
            }
            return false;
        }
        i = i + 1;
    }
    true
}

/// Two lists name the same set of strings, whatever their order; upstream
/// reordering a list is no change.
pub fn same_set(left: Option<&Vec<String>>, right: Option<&Vec<String>>) -> (r: bool)
    ensures
        r == (listed(match left { Some(v) => Some(*v), None => None }) == listed(match right { Some(v) => Some(*v), None => None })),
{
    let empty: Vec<String> = Vec::new();
    let l = match left { Some(v) => v, None => &empty };
    let rr = match right { Some(v) => v, None => &empty };
    let ghost ls = listed(match left { Some(v) => Some(*v), None => None });
    let ghost rs = listed(match right { Some(v) => Some(*v), None => None });
    proof {
        assert(views(empty@).to_set() =~= Set::<Seq<char>>::empty());
        assert(ls == views(l@).to_set());
        assert(rs == views(rr@).to_set());
    }
    let a = all_listed_in(l, rr);
    let b = all_listed_in(rr, l);
    proof {
        if a && b {
            assert forall|s: Seq<char>| ls.contains(s) <==> rs.contains(s) by {
                if views(l@).contains(s) {
                    let k = choose|k: int| 0 <= k < views(l@).len() && views(l@)[k] == s;
                    assert(views(rr@).contains(l@[k]@));
                }
                if views(rr@).contains(s) {
                    let k = choose|k: int| 0 <= k < views(rr@).len() && views(rr@)[k] == s;
                    assert(views(l@).contains(rr@[k]@));
                }
            }
            assert(ls =~= rs);
        } else if !a {
            let k = choose|k: int| 0 <= k < l@.len() && !views(rr@).contains(#[trigger] l@[k]@);
            assert(views(l@)[k] == l@[k]@);
            assert(ls.contains(l@[k]@));
            assert(!rs.contains(l@[k]@));
        } else {
            let k = choose|k: int| 0 <= k < rr@.len() && !views(l@).contains(#[trigger] rr@[k]@);
            assert(views(rr@)[k] == rr@[k]@);
            assert(rs.contains(rr@[k]@));
            assert(!ls.contains(rr@[k]@));
        }
    }
    a && b
}

pub open spec fn is_outdated_spec(local: ProjectStamp, remote: ProjectStamp) -> bool {
    ||| !same_second_spec(local.updated, remote.updated)
    ||| listed(local.versions) != listed(remote.versions)
    ||| listed(local.game_versions) != listed(remote.game_versions)
}

/// A project needs syncing again when `updated` moved to another second, or
/// its set of versions or of game versions changed.
pub fn is_outdated(local: &ProjectStamp, remote: &ProjectStamp) -> (r: bool)
    ensures
        r == is_outdated_spec(*local, *remote),
{
    if !same_second(local.updated, remote.updated) {
        return true;
    }
    if !same_set(local.versions.as_ref(), remote.versions.as_ref()) {
        return true;
    }
    !same_set(local.game_versions.as_ref(), remote.game_versions.as_ref())
}

pub open spec fn ids_of(s: Seq<ProjectStamp>) -> Seq<Seq<char>> {
    s.map_values(|p: ProjectStamp| p.id@)
}

/// The stored projects that upstream no longer returns, in stored order.
pub open spec fn dead_spec(batch: Seq<ProjectStamp>, remote: Seq<ProjectStamp>) -> Seq<Seq<char>>
    decreases batch.len(),
{
    if batch.len() == 0 {
        Seq::empty()
    } else {
        let rest = dead_spec(batch.drop_last(), remote);
        if ids_of(remote).contains(batch.last().id@) {
            rest
        } else {
            rest.push(batch.last().id@)
        }
    }
}

/// The stored stamp of `id`; the last one wins.
pub open spec fn stored(batch: Seq<ProjectStamp>, id: Seq<char>) -> Option<ProjectStamp>
    decreases batch.len(),
{
    if batch.len() == 0 {
        None
    } else if batch.last().id@ == id {
        Some(batch.last())
    } else {
        stored(batch.drop_last(), id)
    }
}

/// The stored stamp of a project is the last one with its id, and none when
/// no stamp has it.
pub proof fn law_stored_stamp_is_the_last(batch: Seq<ProjectStamp>, id: Seq<char>)
    ensures
        (forall|k: int| 0 <= k < batch.len() ==> #[trigger] batch[k].id@ != id) ==> stored(batch, id) is None,
        (exists|k: int| 0 <= k < batch.len() && #[trigger] batch[k].id@ == id) ==> exists|k: int|
            0 <= k < batch.len() && #[trigger] batch[k].id@ == id && stored(batch, id) == Some(batch[k])
                && forall|j: int| k < j < batch.len() ==> !(#[trigger] batch[j].id@ == id),
    decreases batch.len(),
{
    if batch.len() > 0 {
        let d = batch.drop_last();
        let n = batch.len() - 1;
        law_stored_stamp_is_the_last(d, id);
        assert(batch[n] == batch.last());
        if exists|k: int| 0 <= k < d.len() && #[trigger] d[k].id@ == id {
            let k = choose|k: int|
                0 <= k < d.len() && #[trigger] d[k].id@ == id && stored(d, id) == Some(d[k])
                    && forall|j: int| k < j < d.len() ==> !(#[trigger] d[j].id@ == id);
            assert(batch[k] == d[k]);
            assert forall|j: int| k < j < n implies !(#[trigger] batch[j].id@ == id) by {
                assert(batch[j] == d[j]);
            }
        }
        assert forall|k: int| 0 <= k < n && #[trigger] batch[k].id@ == id implies d[k].id@ == id by {
            assert(batch[k] == d[k]);
        }
        if forall|k: int| 0 <= k < batch.len() ==> !(#[trigger] batch[k].id@ == id) {
            assert forall|k: int| 0 <= k < d.len() implies !(#[trigger] d[k].id@ == id) by {
                assert(batch[k] == d[k]);
            }
        }
    }
}

/// The projects upstream returned that are stored and out of date, in
/// upstream's order.
pub open spec fn outdated_spec(batch: Seq<ProjectStamp>, remote: Seq<ProjectStamp>) -> Seq<Seq<char>>
    decreases remote.len(),
{
    if remote.len() == 0 {
        Seq::empty()
    } else {
        let rest = outdated_spec(batch, remote.drop_last());
        let value = remote.last();
        match stored(batch, value.id@) {
            Some(local) => if is_outdated_spec(local, value) { rest.push(value.id@) } else { rest },
            None => rest,
        }
    }
}

fn find_stored(batch: &Vec<ProjectStamp>, id: &String) -> (r: Option<usize>)
    ensures
        match r {
            Some(k) => k < batch@.len() && stored(batch@, id@) == Some(batch@[k as int]),
            None => stored(batch@, id@) is None,
        },
{
    let mut i: usize = batch.len();
    assert(batch@.take(i as int) =~= batch@);
    while i > 0
        invariant
            i <= batch.len(),
            stored(batch@, id@) == stored(batch@.take(i as int), id@),
        decreases i,
    {
        assert(batch@.take(i as int).drop_last() =~= batch@.take(i - 1));
        if batch[i - 1].id == *id {
            return Some(i - 1);
        }
        i = i - 1;
    }
    None
}

fn is_returned(remote: &Vec<ProjectStamp>, id: &String) -> (r: bool)
    ensures
        r == ids_of(remote@).contains(id@),
{
    let mut i: usize = 0;
    while i < remote.len()
        invariant
            i <= remote.len(),
            forall|k: int| 0 <= k < i ==> remote@[k].id@ != id@,
        decreases remote.len() - i,
    {
        if remote[i].id == *id {
            assert(ids_of(remote@)[i as int] == id@);
            return true;
        }
        i = i + 1;
    }
    proof {
        if ids_of(remote@).contains(id@) {
            let k = choose|k: int| 0 <= k < ids_of(remote@).len() && ids_of(remote@)[k] == id@;
            assert(remote@[k].id@ == id@);
        }
    }
    false
}

/// A refresh never both syncs and removes a project: what it finds out of
/// date upstream still returns and is stored; what it removes upstream no
/// longer returns.
pub proof fn law_outdated_and_dead_are_disjoint(batch: Seq<ProjectStamp>, remote: Seq<ProjectStamp>, id: Seq<char>)
    ensures
        outdated_spec(batch, remote).contains(id) ==> ids_of(remote).contains(id) && ids_of(batch).contains(id),
        dead_spec(batch, remote).contains(id) ==> !ids_of(remote).contains(id) && ids_of(batch).contains(id),
        !(outdated_spec(batch, remote).contains(id) && dead_spec(batch, remote).contains(id)),
{
    lemma_outdated_returned(batch, remote, id);
    lemma_dead_not_returned(batch, remote, id);
}

proof fn lemma_stored_is_in_batch(batch: Seq<ProjectStamp>, id: Seq<char>)
    ensures
        stored(batch, id) is Some ==> ids_of(batch).contains(id),
    decreases batch.len(),
{
    if batch.len() > 0 {
        lemma_stored_is_in_batch(batch.drop_last(), id);
        assert(ids_of(batch) =~= ids_of(batch.drop_last()).push(batch.last().id@));
        lemma_push_contains(ids_of(batch.drop_last()), batch.last().id@, id);
    }
}

proof fn lemma_outdated_returned(batch: Seq<ProjectStamp>, remote: Seq<ProjectStamp>, id: Seq<char>)
    ensures
        outdated_spec(batch, remote).contains(id) ==> ids_of(remote).contains(id) && ids_of(batch).contains(id),
    decreases remote.len(),
{
    if remote.len() > 0 {
        lemma_outdated_returned(batch, remote.drop_last(), id);
        assert(ids_of(remote) =~= ids_of(remote.drop_last()).push(remote.last().id@));
        lemma_push_contains(ids_of(remote.drop_last()), remote.last().id@, id);
        lemma_push_contains(outdated_spec(batch, remote.drop_last()), remote.last().id@, id);
        lemma_stored_is_in_batch(batch, remote.last().id@);
    }
}

proof fn lemma_dead_not_returned(batch: Seq<ProjectStamp>, remote: Seq<ProjectStamp>, id: Seq<char>)
    ensures
        dead_spec(batch, remote).contains(id) ==> !ids_of(remote).contains(id) && ids_of(batch).contains(id),
    decreases batch.len(),
{
    if batch.len() > 0 {
        lemma_dead_not_returned(batch.drop_last(), remote, id);
        assert(ids_of(batch) =~= ids_of(batch.drop_last()).push(batch.last().id@));
        lemma_push_contains(ids_of(batch.drop_last()), batch.last().id@, id);
        lemma_push_contains(dead_spec(batch.drop_last(), remote), batch.last().id@, id);
    }
}

/// A stored project is out of date exactly when upstream's `updated` falls
/// in another whole second (or only one side has one), or some version id,
/// or some game version, is listed on one side and not the other; the order
/// of the lists and repeats in them do not count.
pub proof fn law_outdated_when_something_changed(local: ProjectStamp, remote: ProjectStamp)
    ensures
        is_outdated_spec(local, remote) <==> {
            ||| (match (local.updated, remote.updated) {
                (Some(a), Some(b)) => a as int / 1000 != b as int / 1000,
                (None, None) => false,
                _ => true,
            })
            ||| (exists|x: Seq<char>| #[trigger] listed(local.versions).contains(x) != listed(remote.versions).contains(x))
            ||| (exists|x: Seq<char>| #[trigger] listed(local.game_versions).contains(x) != listed(remote.game_versions).contains(x))
        },
{
    if !(exists|x: Seq<char>| #[trigger] listed(local.versions).contains(x) != listed(remote.versions).contains(x)) {
        assert(listed(local.versions) =~= listed(remote.versions));
    }
    if !(exists|x: Seq<char>| #[trigger] listed(local.game_versions).contains(x) != listed(remote.game_versions).contains(x)) {
        assert(listed(local.game_versions) =~= listed(remote.game_versions));
    }
}

/// A refresh syncs again every project upstream returns whose stored copy
/// is out of date: in particular one whose game versions changed.
pub proof fn law_refresh_lists_every_outdated_project(
    batch: Seq<ProjectStamp>,
    remote: Seq<ProjectStamp>,
    k: int,
    local: ProjectStamp,
)
    requires
        0 <= k < remote.len(),
        stored(batch, remote[k].id@) == Some(local),
        is_outdated_spec(local, remote[k])
            || listed(local.game_versions) != listed(remote[k].game_versions)
            || listed(local.versions) != listed(remote[k].versions),
    ensures
        outdated_spec(batch, remote).contains(remote[k].id@),
    decreases remote.len(),
{
    let rest = outdated_spec(batch, remote.drop_last());
    if k == remote.len() - 1 {
        assert(outdated_spec(batch, remote) == rest.push(remote[k].id@));
        assert(outdated_spec(batch, remote)[rest.len() as int] == remote[k].id@);
    } else {
        assert(remote.drop_last()[k] == remote[k]);
        law_refresh_lists_every_outdated_project(batch, remote.drop_last(), k, local);
        let j = choose|j: int| 0 <= j < rest.len() && rest[j] == remote[k].id@;
        let value = remote.last();
        match stored(batch, value.id@) {
            Some(l) => if is_outdated_spec(l, value) {
                assert(outdated_spec(batch, remote)[j] == rest[j]);
            } else {
                assert(outdated_spec(batch, remote) == rest);
            },
            None => {
                assert(outdated_spec(batch, remote) == rest);
            },
        }
    }
}

/// What a refresh learns from one batch: the projects to sync again, and
/// the ones upstream has deleted. A batch whose request failed is skipped
/// whole, never taken for deleted.
pub fn classify_projects(batch: &Vec<ProjectStamp>, remote: &Vec<ProjectStamp>) -> (r: (Vec<String>, Vec<String>))
    ensures
        views(r.0@) == outdated_spec(batch@, remote@),
        views(r.1@) == dead_spec(batch@, remote@),
{
    let mut dead: Vec<String> = Vec::new();
    let mut i: usize = 0;
    while i < batch.len()
        invariant
            i <= batch.len(),
            views(dead@) =~= dead_spec(batch@.take(i as int), remote@),
        decreases batch.len() - i,
    {
        assert(batch@.take(i + 1).drop_last() =~= batch@.take(i as int));
        if !is_returned(remote, &batch[i].id) {
            dead.push(batch[i].id.clone());
        }
        i = i + 1;
    }
    assert(batch@.take(i as int) =~= batch@);
    let mut outdated: Vec<String> = Vec::new();
    let mut j: usize = 0;
    while j < remote.len()
        invariant
            j <= remote.len(),
            views(outdated@) =~= outdated_spec(batch@, remote@.take(j as int)),
        decreases remote.len() - j,
    {
        assert(remote@.take(j + 1).drop_last() =~= remote@.take(j as int));
        let value = &remote[j];
        match find_stored(batch, &value.id) {
            Some(k) => {
                if is_outdated(&batch[k], value) {
                    outdated.push(value.id.clone());
                }
            },
            None => {},
        }
        j = j + 1;
    }
    assert(remote@.take(j as int) =~= remote@);
    (outdated, dead)
}

/// The ids of a search page that are not stored yet, in page order.
pub open spec fn fresh_spec(page: Seq<Seq<char>>, existing: Seq<Seq<char>>) -> Seq<Seq<char>>
    decreases page.len(),
{
    if page.len() == 0 {
        Seq::empty()
    } else {
        let rest = fresh_spec(page.drop_last(), existing);
        if existing.contains(page.last()) {
            rest
        } else {
            rest.push(page.last())
        }
    }
}

/// A search passes on exactly the page's projects that are not stored yet.
pub proof fn law_search_keeps_new_projects(page: Seq<Seq<char>>, existing: Seq<Seq<char>>, y: Seq<char>)
    ensures
        fresh_spec(page, existing).contains(y) <==> page.contains(y) && !existing.contains(y),
    decreases page.len(),
{
    if page.len() > 0 {
        let d = page.drop_last();
        law_search_keeps_new_projects(d, existing, y);
        lemma_push_contains(fresh_spec(d, existing), page.last(), y);
        assert(d.push(page.last()) =~= page);
        lemma_push_contains(d, page.last(), y);
    }
}

/// A refresh removes exactly the stored projects that upstream no longer
/// returns.
pub proof fn law_refresh_removes_exactly_the_gone(batch: Seq<ProjectStamp>, remote: Seq<ProjectStamp>, id: Seq<char>)
    ensures
        dead_spec(batch, remote).contains(id) <==> ids_of(batch).contains(id) && !ids_of(remote).contains(id),
    decreases batch.len(),
{
    if batch.len() > 0 {
        let d = batch.drop_last();
        law_refresh_removes_exactly_the_gone(d, remote, id);
        assert(ids_of(batch) =~= ids_of(d).push(batch.last().id@));
        lemma_push_contains(ids_of(d), batch.last().id@, id);
        lemma_push_contains(dead_spec(d, remote), batch.last().id@, id);
    }
}

fn contains_string(v: &Vec<String>, x: &String) -> (r: bool)
    ensures
        r == views(v@).contains(x@),
{
    let mut i: usize = 0;
    while i < v.len()
        invariant
            i <= v.len(),
            forall|k: int| 0 <= k < i ==> v@[k]@ != x@,
        decreases v.len() - i,
    {
        if v[i] == *x {
            assert(views(v@)[i as int] == x@);
            return true;
        }
        i = i + 1;
    }
    proof {
        if views(v@).contains(x@) {
            let k = choose|k: int| 0 <= k < views(v@).len() && views(v@)[k] == x@;
            assert(v@[k]@ == x@);
        }
    }
    false
}

pub fn fresh_projects(page: &Vec<String>, existing: &Vec<String>) -> (r: Vec<String>)
    ensures
        views(r@) == fresh_spec(views(page@), views(existing@)),
{
    let mut r: Vec<String> = Vec::new();
    let mut i: usize = 0;
    while i < page.len()
        invariant
            i <= page.len(),
            views(r@) =~= fresh_spec(views(page@.take(i as int)), views(existing@)),
        decreases page.len() - i,
    {
        assert(views(page@.take(i + 1)).drop_last() =~= views(page@.take(i as int)));
        assert(views(page@.take(i + 1)).last() == page@[i as int]@);
        if !contains_string(existing, &page[i]) {
            r.push(page[i].clone());
        }
        i = i + 1;
    }
    assert(page@.take(i as int) =~= page@);
    r
}

/// Where a newest-first search stands.
#[derive(Debug, Clone, Copy, PartialEq, Eq, Structural)]
pub struct ModrinthSearch {
    pub offset: i64,
    pub pages: i64,
    pub max_pages: i64,
    pub full: bool,
    pub done: bool,
}

impl ModrinthSearch {
    pub open spec fn wf(self) -> bool {
        &&& 0 <= self.pages
        &&& self.offset == self.pages * MODRINTH_SEARCH_PAGE_SIZE
    }

    pub fn new(max_pages: i64, full: bool) -> (s: ModrinthSearch)
        ensures
            s.wf(),
            s.offset == 0 && s.pages == 0 && !s.done,
            s.max_pages == max_pages && s.full == full,
    {
        ModrinthSearch { offset: 0, pages: 0, max_pages, full, done: false }
    }

    /// Whether the search may still ask for a page: it is not over and, with
    /// a page allowance, has not used it up.
    pub open spec fn may_fetch(self) -> bool {
        !self.done && !(self.max_pages > 0 && self.pages >= self.max_pages)
    }

    /// The offset of the next page, or `None` once the search is over or has
    /// used up its page allowance.
    pub fn next_offset(&mut self) -> (r: Option<i64>)
        requires
            old(self).wf(),
        ensures
            final(self).wf(),
            r == (if old(self).may_fetch() { Some(old(self).offset) } else { None::<i64> }),
            *final(self) == (if old(self).may_fetch() { *old(self) } else { old(self).finished() }),
    {
        if self.done {
            return None;
        }
        if self.max_pages > 0 && self.pages >= self.max_pages {
            self.done = true;
            return None;
        }
        Some(self.offset)
    }

    /// The same search, marked over.
    pub open spec fn finished(self) -> ModrinthSearch {
        ModrinthSearch { done: true, ..self }
    }

    /// The same search, one page further on.
    pub open spec fn advanced(self) -> ModrinthSearch {
        ModrinthSearch {
            offset: (self.offset + MODRINTH_SEARCH_PAGE_SIZE) as i64,
            pages: (self.pages + 1) as i64,
            ..self
        }
    }

    /// Whether a page of `hits` projects ends the search: an empty or short
    /// page, a page with stored projects on it unless in full mode, or an
    /// offset that could not grow further.
    pub open spec fn page_ends(self, hits: usize, any_existing: bool) -> bool {
        ||| (hits as int) < MODRINTH_SEARCH_PAGE_SIZE
        ||| (!self.full && any_existing)
        ||| self.offset > i64::MAX - MODRINTH_SEARCH_PAGE_SIZE
    }

    /// After a page of `hits` projects: an empty or short page ends the
    /// search, and so does a page with stored projects on it unless in full
    /// mode; otherwise on to the next page.
    pub fn after_page(&mut self, hits: usize, any_existing: bool)
        requires
            old(self).wf(),
        ensures
            final(self).wf(),
            *final(self) == (if old(self).page_ends(hits, any_existing) {
                old(self).finished()
            } else {
                old(self).advanced()
            }),
    {
        if hits < MODRINTH_SEARCH_PAGE_SIZE as usize || (!self.full && any_existing) || self.offset > i64::MAX
            - MODRINTH_SEARCH_PAGE_SIZE {
            self.done = true;
        } else {
            self.offset = self.offset + MODRINTH_SEARCH_PAGE_SIZE;
            self.pages = self.pages + 1;
        }
    }
}

/// A search never asks for more pages than its allowance: a search that
/// starts with no pages, and asks for a page only when `next_offset` gives
/// one, has counted at most `max_pages` pages after each page (when an
/// allowance is set), and keeps its allowance and mode throughout.
pub proof fn law_modrinth_search_keeps_its_page_cap(s: ModrinthSearch, hits: usize, any_existing: bool)
    requires
        s.wf(),
        s.max_pages > 0 ==> s.pages <= s.max_pages,
    ensures
        ({
            let t = if s.may_fetch() { s } else { s.finished() };
            &&& t.max_pages == s.max_pages && t.full == s.full
            &&& t.max_pages > 0 ==> t.pages <= t.max_pages
            &&& s.may_fetch() ==> {
                let u = if t.page_ends(hits, any_existing) {
                    t.finished()
                } else {
                    t.advanced()
                };
                &&& u.max_pages == s.max_pages && u.full == s.full
                &&& u.max_pages > 0 ==> u.pages <= u.max_pages
            }
        }),
{
}

} // verus!
