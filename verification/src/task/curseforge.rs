//! The CurseForge tasks' decisions: which mods a queue run syncs, which
//! mods a refresh finds out of date, and how a search pages through.

use vstd::prelude::*;
use crate::api::curseforge::SearchSlice;
use crate::constants::{class_ids, class_ids_spec, CURSEFORGE_SEARCH_LIMIT, CURSEFORGE_SEARCH_PAGE_SIZE};
use crate::ids::{sorted_unique, strictly_increasing};
use crate::models::curseforge::ModStamp;
use crate::task::{same_second, same_second_spec};

verus! {

/// Tiny modids have turned up in the queues; they are not Minecraft's.
pub const MIN_MOD_ID: i32 = 30000;

/// The mods a queue run syncs: every candidate in scope, once, smallest first.
pub fn queue_targets(candidates: &Vec<i32>) -> (r: Vec<i32>)
    ensures
        strictly_increasing(r@),
        forall|y: i32| r@.contains(y) <==> (candidates@.contains(y) && y >= MIN_MOD_ID),
{
    let mut kept: Vec<i32> = Vec::new();
    let mut i: usize = 0;
    while i < candidates.len()
        invariant
            i <= candidates.len(),
            forall|y: i32| kept@.contains(y) <==> (candidates@.take(i as int).contains(y) && y >= MIN_MOD_ID),
        decreases candidates.len() - i,
    {
        let x = candidates[i];
        let ghost before = kept@;
        if x >= MIN_MOD_ID {
            kept.push(x);
        }
        proof {
            let prefix = candidates@.take(i as int);
            assert(candidates@.take(i + 1) =~= prefix.push(x));
            assert forall|y: i32| kept@.contains(y) <==> (candidates@.take(i + 1).contains(y) && y >= MIN_MOD_ID) by {
                crate::ids::lemma_push_contains(prefix, x, y);
                if x >= MIN_MOD_ID {
                    crate::ids::lemma_push_contains(before, x, y);
                }
            }
        }
        i = i + 1;
    }
    assert(candidates@.take(i as int) =~= candidates@);
    sorted_unique(&kept)
}

/// The ids of `batch` that are in scope, in order.
pub open spec fn scoped_ids(batch: Seq<ModStamp>) -> Seq<i32>
    decreases batch.len(),
{
    if batch.len() == 0 {
        Seq::empty()
    } else {
        let rest = scoped_ids(batch.drop_last());
        if batch.last().id >= MIN_MOD_ID {
            rest.push(batch.last().id)
        } else {
            rest
        }
    }
}

/// The ids of a batch of stored mods that a refresh asks upstream about.
pub fn refresh_ids(batch: &Vec<ModStamp>) -> (r: Vec<i32>)
    ensures
        r@ == scoped_ids(batch@),
{
    let mut r: Vec<i32> = Vec::new();
    let mut i: usize = 0;
    while i < batch.len()
        invariant
            i <= batch.len(),
            r@ == scoped_ids(batch@.take(i as int)),
        decreases batch.len() - i,
    {
        assert(batch@.take(i + 1).drop_last() =~= batch@.take(i as int));
        if batch[i].id >= MIN_MOD_ID {
            r.push(batch[i].id);
        }
        i = i + 1;
    }
    assert(batch@.take(i as int) =~= batch@);
    r
}

/// The stored dateModified of `id`: the last entry for it wins.
pub open spec fn local_date(batch: Seq<ModStamp>, id: i32) -> Option<i64>
    decreases batch.len(),
{
    if batch.len() == 0 {
        None
    } else if batch.last().id == id {
        batch.last().date_modified
    } else {
        local_date(batch.drop_last(), id)
    }
}

/// The stored date of a mod is that of the last stamp with its id, and none
/// when no stamp has it.
pub proof fn law_stored_date_is_the_last(batch: Seq<ModStamp>, id: i32)
    ensures
        (forall|k: int| 0 <= k < batch.len() ==> #[trigger] batch[k].id != id) ==> local_date(batch, id) is None,
        (exists|k: int| 0 <= k < batch.len() && #[trigger] batch[k].id == id) ==> exists|k: int|
            0 <= k < batch.len() && #[trigger] batch[k].id == id && local_date(batch, id) == batch[k].date_modified
                && forall|j: int| k < j < batch.len() ==> !(#[trigger] batch[j].id == id),
    decreases batch.len(),
{
    if batch.len() > 0 {
        let d = batch.drop_last();
        let n = batch.len() - 1;
        law_stored_date_is_the_last(d, id);
        assert(batch[n] == batch.last());
        if exists|k: int| 0 <= k < d.len() && #[trigger] d[k].id == id {
            let k = choose|k: int|
                0 <= k < d.len() && #[trigger] d[k].id == id && local_date(d, id) == d[k].date_modified
                    && forall|j: int| k < j < d.len() ==> !(#[trigger] d[j].id == id);
            assert(batch[k] == d[k]);
            assert forall|j: int| k < j < n implies !(#[trigger] batch[j].id == id) by {
                assert(batch[j] == d[j]);
            }
        }
        assert forall|k: int| 0 <= k < n && #[trigger] batch[k].id == id implies d[k].id == id by {
            assert(batch[k] == d[k]);
        }
        if forall|k: int| 0 <= k < batch.len() ==> !(#[trigger] batch[k].id == id) {
            assert forall|k: int| 0 <= k < d.len() implies !(#[trigger] d[k].id == id) by {
                assert(batch[k] == d[k]);
            }
        }
    }
}

/// The mods upstream returned whose dateModified is not the stored one, to
/// the second, in upstream's order. A mod with nothing stored counts as
/// out of date unless upstream has no date either.
pub open spec fn outdated_spec(batch: Seq<ModStamp>, remote: Seq<ModStamp>) -> Seq<i32>
    decreases remote.len(),
{
    if remote.len() == 0 {
        Seq::empty()
    } else {
        let rest = outdated_spec(batch, remote.drop_last());
        let value = remote.last();
        if !same_second_spec(local_date(batch, value.id), value.date_modified) {
            rest.push(value.id)
        } else {
            rest
        }
    }
}

fn find_local_date(batch: &Vec<ModStamp>, id: i32) -> (r: Option<i64>)
    ensures
        r == local_date(batch@, id),
{
    let mut i: usize = batch.len();
    assert(batch@.take(i as int) =~= batch@);
    while i > 0
        invariant
            i <= batch.len(),
            local_date(batch@, id) == local_date(batch@.take(i as int), id),
        decreases i,
    {
        assert(batch@.take(i as int).drop_last() =~= batch@.take(i - 1));
        if batch[i - 1].id == id {
            return batch[i - 1].date_modified;
        }
        i = i - 1;
    }
    None
}

/// The mods of this refresh batch that need syncing again.
pub fn outdated_mods(batch: &Vec<ModStamp>, remote: &Vec<ModStamp>) -> (r: Vec<i32>)
    ensures
        r@ == outdated_spec(batch@, remote@),
{
    assert(batch@.take(batch.len() as int) =~= batch@);
    let mut r: Vec<i32> = Vec::new();
    let mut i: usize = 0;
    while i < remote.len()
        invariant
            i <= remote.len(),
            r@ == outdated_spec(batch@, remote@.take(i as int)),
        decreases remote.len() - i,
    {
        assert(remote@.take(i + 1).drop_last() =~= remote@.take(i as int));
        let value = remote[i];
        let local = find_local_date(batch, value.id);
        if !same_second(local, value.date_modified) {
            r.push(value.id);
        }
        i = i + 1;
    }
    assert(remote@.take(i as int) =~= remote@);
    r
}

/// The ids of a search page that are neither stored nor out of scope, in
/// page order.
pub open spec fn fresh_spec(page: Seq<i32>, existing: Seq<i32>) -> Seq<i32>
    decreases page.len(),
{
    if page.len() == 0 {
        Seq::empty()
    } else {
        let rest = fresh_spec(page.drop_last(), existing);
        let id = page.last();
        if !existing.contains(id) && id >= MIN_MOD_ID {
            rest.push(id)
        } else {
            rest
        }
    }
}

/// A refresh asks upstream about exactly the stored mods in scope: an id is
/// asked for when, and only when, some stored mod has it and it is at
/// least `MIN_MOD_ID`.
pub proof fn law_refresh_asks_for_stored_mods_in_scope(batch: Seq<ModStamp>, y: i32)
    ensures
        scoped_ids(batch).contains(y) <==> (exists|k: int| 0 <= k < batch.len() && #[trigger] batch[k].id == y)
            && y >= MIN_MOD_ID,
    decreases batch.len(),
{
    if batch.len() > 0 {
        let d = batch.drop_last();
        law_refresh_asks_for_stored_mods_in_scope(d, y);
        crate::ids::lemma_push_contains(scoped_ids(d), batch.last().id, y);
        if exists|k: int| 0 <= k < d.len() && #[trigger] d[k].id == y {
            let k = choose|k: int| 0 <= k < d.len() && #[trigger] d[k].id == y;
            assert(batch[k] == d[k]);
        }
        if exists|k: int| 0 <= k < batch.len() && #[trigger] batch[k].id == y {
            let k = choose|k: int| 0 <= k < batch.len() && #[trigger] batch[k].id == y;
            if k < d.len() {
                assert(d[k] == batch[k]);
            }
        }
        assert(batch[batch.len() - 1] == batch.last());
    }
}

/// A refresh syncs again exactly the mods upstream returned whose
/// dateModified differs from the stored one by a whole second (a mod with
/// no stored date counts unless upstream has none either).
pub proof fn law_refresh_syncs_changed_mods(batch: Seq<ModStamp>, remote: Seq<ModStamp>, y: i32)
    ensures
        outdated_spec(batch, remote).contains(y) <==> exists|k: int|
            0 <= k < remote.len() && #[trigger] remote[k].id == y && match (local_date(batch, y), remote[k].date_modified) {
                (Some(a), Some(b)) => a as int / 1000 != b as int / 1000,
                (None, None) => false,
                _ => true,
            },
    decreases remote.len(),
{
    if remote.len() > 0 {
        let d = remote.drop_last();
        law_refresh_syncs_changed_mods(batch, d, y);
        crate::ids::lemma_push_contains(outdated_spec(batch, d), remote.last().id, y);
        let changed = |k: int| match (local_date(batch, y), remote[k].date_modified) {
            (Some(a), Some(b)) => a as int / 1000 != b as int / 1000,
            (None, None) => false,
            _ => true,
        };
        if exists|k: int| 0 <= k < d.len() && #[trigger] d[k].id == y && match (local_date(batch, y), d[k].date_modified) {
            (Some(a), Some(b)) => a as int / 1000 != b as int / 1000,
            (None, None) => false,
            _ => true,
        } {
            let k = choose|k: int| 0 <= k < d.len() && #[trigger] d[k].id == y && match (local_date(batch, y), d[k].date_modified) {
                (Some(a), Some(b)) => a as int / 1000 != b as int / 1000,
                (None, None) => false,
                _ => true,
            };
            assert(remote[k] == d[k]);
        }
        if exists|k: int| 0 <= k < remote.len() && #[trigger] remote[k].id == y && changed(k) {
            let k = choose|k: int| 0 <= k < remote.len() && #[trigger] remote[k].id == y && changed(k);
            if k < d.len() {
                assert(d[k] == remote[k]);
            }
        }
        assert(remote[remote.len() - 1] == remote.last());
    }
}

/// A search passes on exactly the page's ids that are in scope and not
/// stored yet.
pub proof fn law_search_keeps_new_ids(page: Seq<i32>, existing: Seq<i32>, y: i32)
    ensures
        fresh_spec(page, existing).contains(y) <==> page.contains(y) && !existing.contains(y) && y >= MIN_MOD_ID,
    decreases page.len(),
{
    if page.len() > 0 {
        let d = page.drop_last();
        law_search_keeps_new_ids(d, existing, y);
        crate::ids::lemma_push_contains(fresh_spec(d, existing), page.last(), y);
        assert(d.push(page.last()) =~= page);
        crate::ids::lemma_push_contains(d, page.last(), y);
    }
}

fn contains_i32(v: &Vec<i32>, x: i32) -> (r: bool)
    ensures
        r == v@.contains(x),
{
    let mut i: usize = 0;
    while i < v.len()
        invariant
            i <= v.len(),
            forall|k: int| 0 <= k < i ==> v@[k] != x,
        decreases v.len() - i,
    {
        if v[i] == x {
            return true;
        }
        i = i + 1;
    }
    false
}

pub fn fresh_ids(page: &Vec<i32>, existing: &Vec<i32>) -> (r: Vec<i32>)
    ensures
        r@ == fresh_spec(page@, existing@),
{
    let mut r: Vec<i32> = Vec::new();
    let mut i: usize = 0;
    while i < page.len()
        invariant
            i <= page.len(),
            r@ == fresh_spec(page@.take(i as int), existing@),
        decreases page.len() - i,
    {
        assert(page@.take(i + 1).drop_last() =~= page@.take(i as int));
        let id = page[i];
        if !contains_i32(existing, id) && id >= MIN_MOD_ID {
            r.push(id);
        }
        i = i + 1;
    }
    assert(page@.take(i as int) =~= page@);
    r
}

pub open spec fn class_slices(ids: Seq<i32>) -> Seq<SearchSlice> {
    ids.map_values(|id: i32| SearchSlice::Class(id))
}

/// The categories that are not classes of the game, as slices, in order.
pub open spec fn category_slices(categories: Seq<i32>, classes: Seq<i32>) -> Seq<SearchSlice>
    decreases categories.len(),
{
    if categories.len() == 0 {
        Seq::empty()
    } else {
        let rest = category_slices(categories.drop_last(), classes);
        if classes.contains(categories.last()) {
            rest
        } else {
            rest.push(SearchSlice::Category(categories.last()))
        }
    }
}

/// How a search is sliced: by class; in full mode the categories follow,
/// to reach what a class query cannot past its ten thousand results. When
/// the categories could not be fetched (`None`), classes alone.
pub fn search_slices(game_id: i32, full: bool, categories: Option<Vec<i32>>) -> (r: Vec<SearchSlice>)
    ensures
        r@ == class_slices(class_ids_spec(game_id)) + (match categories {
            Some(c) => if full { category_slices(c@, class_ids_spec(game_id)) } else { Seq::empty() },
            None => Seq::empty(),
        }),
{
    let classes = class_ids(game_id);
    let mut r: Vec<SearchSlice> = Vec::new();
    let mut i: usize = 0;
    while i < classes.len()
        invariant
            i <= classes.len(),
            classes@ == class_ids_spec(game_id),
            r@ =~= class_slices(classes@.take(i as int)),
        decreases classes.len() - i,
    {
        r.push(SearchSlice::Class(classes[i]));
        assert(classes@.take(i + 1) =~= classes@.take(i as int).push(classes@[i as int]));
        i = i + 1;
    }
    assert(classes@.take(i as int) =~= classes@);
    let ghost base = r@;
    if full {
        if let Some(c) = categories {
            let mut j: usize = 0;
            let mut known: Vec<i32> = Vec::new();
            let mut k: usize = 0;
            while k < classes.len()
                invariant
                    k <= classes.len(),
                    known@ == classes@.take(k as int),
                decreases classes.len() - k,
            {
                known.push(classes[k]);
                assert(classes@.take(k + 1) =~= classes@.take(k as int).push(classes@[k as int]));
                k = k + 1;
            }
            assert(classes@.take(k as int) =~= classes@);
            while j < c.len()
                invariant
                    j <= c.len(),
                    known@ == class_ids_spec(game_id),
                    r@ =~= base + category_slices(c@.take(j as int), known@),
                decreases c.len() - j,
            {
                assert(c@.take(j + 1).drop_last() =~= c@.take(j as int));
                if !contains_i32(&known, c[j]) {
                    r.push(SearchSlice::Category(c[j]));
                }
                j = j + 1;
            }
            assert(c@.take(j as int) =~= c@);
        }
    }
    r
}

/// The category slices are exactly the categories that are not classes,
/// and hold no class slice.
pub proof fn law_category_slices_skip_classes(categories: Seq<i32>, classes: Seq<i32>, x: i32)
    ensures
        category_slices(categories, classes).contains(SearchSlice::Category(x)) <==> categories.contains(x)
            && !classes.contains(x),
        !category_slices(categories, classes).contains(SearchSlice::Class(x)),
    decreases categories.len(),
{
    if categories.len() > 0 {
        let d = categories.drop_last();
        law_category_slices_skip_classes(d, classes, x);
        let rest = category_slices(d, classes);
        crate::ids::lemma_push_contains(rest, SearchSlice::Category(categories.last()), SearchSlice::Category(x));
        crate::ids::lemma_push_contains(rest, SearchSlice::Category(categories.last()), SearchSlice::Class(x));
        assert(d.push(categories.last()) =~= categories);
        crate::ids::lemma_push_contains(d, categories.last(), x);
    }
}

/// A search covers every class of the game, and in full mode (with the
/// categories at hand) every category that is not a class; nothing else.
pub proof fn law_search_covers_classes_then_categories(
    game_id: i32,
    full: bool,
    categories: Option<Seq<i32>>,
    slices: Seq<SearchSlice>,
    x: i32,
)
    requires
        slices == class_slices(class_ids_spec(game_id)) + (match categories {
            Some(c) => if full { category_slices(c, class_ids_spec(game_id)) } else { Seq::empty() },
            None => Seq::empty(),
        }),
    ensures
        slices.contains(SearchSlice::Class(x)) <==> class_ids_spec(game_id).contains(x),
        slices.contains(SearchSlice::Category(x)) <==> (full && (match categories {
            Some(c) => c.contains(x),
            None => false,
        }) && !class_ids_spec(game_id).contains(x)),
{
    let classes = class_ids_spec(game_id);
    let head = class_slices(classes);
    let tail = slices.skip(head.len() as int);
    assert(slices.take(head.len() as int) =~= head);
    assert(tail =~= (match categories {
        Some(c) => if full { category_slices(c, classes) } else { Seq::empty() },
        None => Seq::empty(),
    }));
    if let Some(c) = categories {
        law_category_slices_skip_classes(c, classes, x);
    }
    assert(slices.contains(SearchSlice::Class(x)) ==> classes.contains(x)) by {
        if slices.contains(SearchSlice::Class(x)) {
            let k = choose|k: int| 0 <= k < slices.len() && slices[k] == SearchSlice::Class(x);
            if k < head.len() {
                assert(head[k] == SearchSlice::Class(classes[k]));
            } else {
                assert(tail[k - head.len()] == slices[k]);
            }
        }
    }
    assert(classes.contains(x) ==> slices.contains(SearchSlice::Class(x))) by {
        if classes.contains(x) {
            let k = choose|k: int| 0 <= k < classes.len() && classes[k] == x;
            assert(slices[k] == head[k]);
        }
    }
    assert(slices.contains(SearchSlice::Category(x)) <==> tail.contains(SearchSlice::Category(x))) by {
        if slices.contains(SearchSlice::Category(x)) {
            let k = choose|k: int| 0 <= k < slices.len() && slices[k] == SearchSlice::Category(x);
            if k < head.len() {
                assert(head[k] == SearchSlice::Class(classes[k]));
            } else {
                assert(tail[k - head.len()] == slices[k]);
            }
        }
        if tail.contains(SearchSlice::Category(x)) {
            let k = choose|k: int| 0 <= k < tail.len() && tail[k] == SearchSlice::Category(x);
            assert(slices[head.len() + k] == tail[k]);
        }
    }
}

/// A search's fixed parameters: the slices, the orders to scan each in
/// (newest first; in full mode then oldest first, which reaches another ten
/// thousand), the page limit per slice (0: none) and the mode.
pub struct SearchPlan {
    pub slices: Vec<SearchSlice>,
    pub descending: Vec<bool>,
    pub max_pages: i64,
    pub full: bool,
}

pub fn search_plan(slices: Vec<SearchSlice>, max_pages: i64, full: bool) -> (p: SearchPlan)
    ensures
        p.slices == slices,
        p.max_pages == max_pages,
        p.full == full,
        p.descending@ == (if full { seq![true, false] } else { seq![true] }),
{
    let descending = if full { vec![true, false] } else { vec![true] };
    proof {
        if full {
            assert(descending@ =~= seq![true, false]);
        } else {
            assert(descending@ =~= seq![true]);
        }
    }
    SearchPlan { slices, descending, max_pages, full }
}

/// Where a search stands: which order, which slice, which page.
#[derive(Debug, Clone, Copy, PartialEq, Eq, Structural)]
pub struct SearchCursor {
    pub order: usize,
    pub slice: usize,
    pub index: i64,
    pub pages: i64,
}

/// What a search does next.
#[derive(Debug, Clone, Copy, PartialEq, Eq, Structural)]
pub enum SearchStep {
    Fetch { slice: SearchSlice, index: i64, descending: bool },
    Done,
}

impl SearchCursor {
    /// A cursor's consistency: the index is the page count times the page size.
    pub open spec fn wf(self) -> bool {
        &&& 0 <= self.pages
        &&& self.index == self.pages * CURSEFORGE_SEARCH_PAGE_SIZE
        &&& self.index <= CURSEFORGE_SEARCH_LIMIT
    }

    pub fn new() -> (c: SearchCursor)
        ensures
            c.wf(),
            c.order == 0 && c.slice == 0 && c.index == 0 && c.pages == 0,
    {
        SearchCursor { order: 0, slice: 0, index: 0, pages: 0 }
    }

    /// A page may be asked for when it stays within the deep paging limit
    /// and the slice has not used up its page allowance.
    pub open spec fn page_allowed(self, max_pages: i64) -> bool {
        &&& self.index + CURSEFORGE_SEARCH_PAGE_SIZE <= CURSEFORGE_SEARCH_LIMIT
        &&& !(max_pages > 0 && self.pages >= max_pages)
    }

    /// The cursor at the start of a slice: first page, nothing asked yet.
    pub open spec fn fresh(order: usize, slice: usize) -> SearchCursor {
        SearchCursor { order, slice, index: 0, pages: 0 }
    }

    /// Whether the cursor stands on a page that may be asked for: a real
    /// order, a real slice and a page within the limits.
    pub open spec fn fetchable(self, plan: SearchPlan) -> bool {
        &&& self.order < plan.descending@.len()
        &&& self.slice < plan.slices@.len()
        &&& self.page_allowed(plan.max_pages)
    }

    /// Where the cursor comes to rest: on its own page if that page may be
    /// asked for; else on the start of the next slice of the same order;
    /// else on the start of the first slice of the next order; past the last
    /// order it stays put. A slice's first page is always allowed, so no
    /// slice is passed over.
    pub open spec fn settled(self, plan: SearchPlan) -> SearchCursor {
        let orders = plan.descending@.len();
        let slices = plan.slices@.len();
        if self.order >= orders {
            self
        } else if self.fetchable(plan) {
            self
        } else if self.slice + 1 < slices {
            SearchCursor::fresh(self.order, (self.slice + 1) as usize)
        } else if slices > 0 {
            SearchCursor::fresh((self.order + 1) as usize, 0)
        } else {
            SearchCursor::fresh(orders as usize, 0)
        }
    }

    /// What a resting cursor names: its page, or `Done` past the last order.
    pub open spec fn step_at(self, plan: SearchPlan) -> SearchStep {
        if self.order < plan.descending@.len() {
            SearchStep::Fetch {
                slice: plan.slices@[self.slice as int],
                index: self.index,
                descending: plan.descending@[self.order as int],
            }
        } else {
            SearchStep::Done
        }
    }

    /// Moves past slices that have no page left to ask for, then names the
    /// next page, or `Done` once every order of every slice is through.
    pub fn next_step(&mut self, plan: &SearchPlan) -> (step: SearchStep)
        requires
            old(self).wf(),
        ensures
            final(self).wf(),
            *final(self) == old(self).settled(*plan),
            step == final(self).step_at(*plan),
            old(self).fetchable(*plan) ==> *final(self) == *old(self),
            match step {
                SearchStep::Fetch { slice, index, descending } => {
                    &&& final(self).fetchable(*plan)
                    &&& slice == plan.slices@[final(self).slice as int]
                    &&& descending == plan.descending@[final(self).order as int]
                    &&& index == final(self).index
                },
                SearchStep::Done => final(self).order >= plan.descending@.len(),
            },
    {
        let ghost start = *self;
        loop
            invariant
                self.wf(),
                start == *old(self),
                self.settled(*plan) == start.settled(*plan),
                start.fetchable(*plan) ==> *self == start,
            decreases plan.descending.len() - self.order, plan.slices.len() - self.slice,
        {
            if self.order >= plan.descending.len() {
                return SearchStep::Done;
            }
            if self.slice >= plan.slices.len() {
                self.order = self.order + 1;
                self.slice = 0;
                self.index = 0;
                self.pages = 0;
                continue;
            }
            let allowed = self.index + CURSEFORGE_SEARCH_PAGE_SIZE <= CURSEFORGE_SEARCH_LIMIT && !(
            plan.max_pages > 0 && self.pages >= plan.max_pages);
            if !allowed {
                self.slice = self.slice + 1;
                self.index = 0;
                self.pages = 0;
                continue;
            }
            return SearchStep::Fetch {
                slice: plan.slices[self.slice],
                index: self.index,
                descending: plan.descending[self.order],
            };
        }
    }

    /// After a page of `returned` results: a short page ends the slice, and
    /// so does a page with stored mods on it unless in full mode; otherwise
    /// on to the next page.
    pub fn after_page(&mut self, plan: &SearchPlan, returned: i64, any_existing: bool)
        requires
            old(self).wf(),
            old(self).page_allowed(plan.max_pages),
            old(self).slice < plan.slices.len(),
        ensures
            final(self).wf(),
            final(self).order == old(self).order,
            if returned < CURSEFORGE_SEARCH_PAGE_SIZE || (!plan.full && any_existing) {
                &&& final(self).slice == old(self).slice + 1
                &&& final(self).index == 0
                &&& final(self).pages == 0
            } else {
                &&& final(self).slice == old(self).slice
                &&& final(self).index == old(self).index + CURSEFORGE_SEARCH_PAGE_SIZE
                &&& final(self).pages == old(self).pages + 1
            },
    {
        if returned < CURSEFORGE_SEARCH_PAGE_SIZE || (!plan.full && any_existing) {
            self.slice = self.slice + 1;
            self.index = 0;
            self.pages = 0;
        } else {
            self.index = self.index + CURSEFORGE_SEARCH_PAGE_SIZE;
            self.pages = self.pages + 1;
        }
    }
}

/// Within a slice, pages are asked for in order, one page size apart, and
/// none beyond CurseForge's deep paging limit or the page allowance: every
/// `Fetch` that `next_step` names satisfies this.
pub proof fn law_search_stays_within_limits(c: SearchCursor, max_pages: i64)
    requires
        c.wf(),
        c.page_allowed(max_pages),
    ensures
        c.index + CURSEFORGE_SEARCH_PAGE_SIZE <= CURSEFORGE_SEARCH_LIMIT,
        c.index % CURSEFORGE_SEARCH_PAGE_SIZE == 0,
        max_pages > 0 ==> c.pages < max_pages,
{
    assert(c.index == c.pages * 50);
    assert((c.pages * 50) % 50 == 0) by (nonlinear_arith);
}

/// A search passes over no slice: when a cursor's own page may not be asked
/// for, it comes to rest on the first page of the next slice of the same
/// order, or, after the last slice, on the first page of the first slice of
/// the next order; such a first page may always be asked for while an order
/// remains. So every slice is scanned in every order of the plan, in turn
/// (in full mode: each slice newest first, then all again oldest first).
pub proof fn law_search_skips_no_slice(c: SearchCursor, plan: SearchPlan)
    requires
        c.wf(),
        c.order < plan.descending@.len(),
        c.slice < plan.slices@.len(),
        !c.fetchable(plan),
    ensures
        c.slice + 1 < plan.slices@.len() ==> {
            &&& c.settled(plan) == SearchCursor::fresh(c.order, (c.slice + 1) as usize)
            &&& c.settled(plan).fetchable(plan)
        },
        c.slice + 1 == plan.slices@.len() ==> {
            &&& c.settled(plan) == SearchCursor::fresh((c.order + 1) as usize, 0)
            &&& c.order + 1 < plan.descending@.len() ==> c.settled(plan).fetchable(plan)
        },
{
}

} // verus!
