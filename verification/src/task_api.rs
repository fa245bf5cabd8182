//! The task history API's request handling: query strings, time filters,
//! the page limit, and what an error may tell the caller.

use vstd::prelude::*;
use crate::error::Error;
use crate::text::{
    chars_of, lemma_text_less_irreflexive, lemma_text_less_total, lemma_text_less_transitive,
    parse_i64, parse_signed, str_eq, string_of, text_less, text_lt,
};

verus! {

/// Reading `s` left to right, split at each `sep`: the pieces ended so far
/// and the piece under way.
pub open spec fn pieces_acc(s: Seq<char>, sep: char) -> (Seq<Seq<char>>, Seq<char>)
    decreases s.len(),
{
    if s.len() == 0 {
        (Seq::empty(), Seq::empty())
    } else {
        let (done, cur) = pieces_acc(s.drop_last(), sep);
        if s.last() == sep {
            (done.push(cur), Seq::empty())
        } else {
            (done, cur.push(s.last()))
        }
    }
}

/// The pieces of `s` between occurrences of `sep`, as `str::split` gives
/// them; there is always at least one.
pub open spec fn pieces(s: Seq<char>, sep: char) -> Seq<Seq<char>> {
    let (done, cur) = pieces_acc(s, sep);
    done.push(cur)
}

/// The first index of `c` in `s`.
pub open spec fn first_index(s: Seq<char>, c: char) -> Option<int>
    decreases s.len(),
{
    if s.len() == 0 {
        None
    } else if s[0] == c {
        Some(0)
    } else {
        match first_index(s.drop_first(), c) {
            Some(i) => Some(i + 1),
            None => None,
        }
    }
}

/// A `key=value` piece, split at its first `=`; a piece without one is no pair.
pub open spec fn pair_of(piece: Seq<char>) -> Option<(Seq<char>, Seq<char>)> {
    match first_index(piece, '=') {
        Some(i) => Some((piece.take(i), piece.skip(i + 1))),
        None => None,
    }
}

/// The pairs of a query string, in order.
pub open spec fn query_pairs(ps: Seq<Seq<char>>) -> Seq<(Seq<char>, Seq<char>)>
    decreases ps.len(),
{
    if ps.len() == 0 {
        Seq::empty()
    } else {
        let rest = query_pairs(ps.drop_last());
        match pair_of(ps.last()) {
            Some(p) => rest.push(p),
            None => rest,
        }
    }
}

/// The pieces put back together, each separated from the next by `sep`.
pub open spec fn joined(ps: Seq<Seq<char>>, sep: char) -> Seq<char>
    decreases ps.len(),
{
    if ps.len() <= 1 {
        if ps.len() == 1 { ps[0] } else { Seq::empty() }
    } else {
        joined(ps.drop_last(), sep) + seq![sep] + ps.last()
    }
}

proof fn lemma_joined_extend_last(ps: Seq<Seq<char>>, sep: char, c: char)
    requires
        ps.len() > 0,
    ensures
        joined(ps.drop_last().push(ps.last().push(c)), sep) == joined(ps, sep).push(c),
{
    let qs = ps.drop_last().push(ps.last().push(c));
    assert(qs.drop_last() =~= ps.drop_last());
    if ps.len() > 1 {
        assert(joined(qs, sep) =~= joined(ps, sep).push(c));
    }
}

proof fn lemma_pieces_acc_shape(s: Seq<char>, sep: char)
    ensures
        joined(pieces_acc(s, sep).0.push(pieces_acc(s, sep).1), sep) == s,
        forall|k: int| 0 <= k < pieces_acc(s, sep).0.len() ==> !(#[trigger] pieces_acc(s, sep).0[k]).contains(sep),
        !pieces_acc(s, sep).1.contains(sep),
    decreases s.len(),
{
    if s.len() > 0 {
        let d = s.drop_last();
        lemma_pieces_acc_shape(d, sep);
        let (done, cur) = pieces_acc(d, sep);
        let ps = done.push(cur);
        assert(s =~= d.push(s.last()));
        if s.last() == sep {
            let qs = done.push(cur).push(Seq::<char>::empty());
            assert(qs.drop_last() =~= ps);
            assert(joined(qs, sep) =~= joined(ps, sep) + seq![sep]);
            assert forall|k: int| 0 <= k < ps.len() implies !(#[trigger] ps[k]).contains(sep) by {
                if k < done.len() {
                    assert(ps[k] == done[k]);
                }
            }
        } else {
            assert(ps.drop_last() =~= done);
            assert(ps.last() == cur);
            lemma_joined_extend_last(ps, sep, s.last());
            assert(done.push(cur.push(s.last())) =~= ps.drop_last().push(ps.last().push(s.last())));
            crate::ids::lemma_push_contains(cur, s.last(), sep);
        }
    }
}

/// Splitting at `sep` loses nothing and keeps no separator: the pieces put
/// back together with `sep` between them give the text again, and no
/// piece holds `sep`.
pub proof fn law_pieces_rejoin(s: Seq<char>, sep: char)
    ensures
        joined(pieces(s, sep), sep) == s,
        forall|k: int| 0 <= k < pieces(s, sep).len() ==> !(#[trigger] pieces(s, sep)[k]).contains(sep),
{
    lemma_pieces_acc_shape(s, sep);
    let (done, cur) = pieces_acc(s, sep);
    assert forall|k: int| 0 <= k < pieces(s, sep).len() implies !(#[trigger] pieces(s, sep)[k]).contains(sep) by {
        if k < done.len() {
            assert(pieces(s, sep)[k] == done[k]);
        }
    }
}

proof fn lemma_first_index_after(key: Seq<char>, rest: Seq<char>, c: char)
    requires
        !key.contains(c),
    ensures
        first_index(key + seq![c] + rest, c) == Some(key.len() as int),
    decreases key.len(),
{
    let s = key + seq![c] + rest;
    if key.len() > 0 {
        assert(s.drop_first() =~= key.drop_first() + seq![c] + rest);
        assert(s[0] == key[0]);
        if key.drop_first().contains(c) {
            let k = choose|k: int| 0 <= k < key.drop_first().len() && key.drop_first()[k] == c;
            assert(key[k + 1] == c);
        }
        lemma_first_index_after(key.drop_first(), rest, c);
    } else {
        assert(s[0] == c);
    }
}

/// A piece `key=value` whose key holds no `=` reads as that key and value,
/// whatever the value holds.
pub proof fn law_pair_splits_at_first_equals(key: Seq<char>, value: Seq<char>)
    requires
        !key.contains('='),
    ensures
        pair_of(key + seq!['='] + value) == Some((key, value)),
{
    lemma_first_index_after(key, value, '=');
    let s = key + seq!['='] + value;
    assert(s.take(key.len() as int) =~= key);
    assert(s.skip(key.len() as int + 1) =~= value);
}

pub open spec fn pair_views(v: Seq<(String, String)>) -> Seq<(Seq<char>, Seq<char>)> {
    v.map_values(|p: (String, String)| (p.0@, p.1@))
}

fn split_pieces(s: &Vec<char>, sep: char) -> (r: Vec<Vec<char>>)
    ensures
        r@.len() == pieces(s@, sep).len(),
        forall|k: int| 0 <= k < r@.len() ==> #[trigger] r@[k]@ == pieces(s@, sep)[k],
{
    let mut done: Vec<Vec<char>> = Vec::new();
    let mut cur: Vec<char> = Vec::new();
    let mut i: usize = 0;
    while i < s.len()
        invariant
            i <= s.len(),
            done@.len() == pieces_acc(s@.take(i as int), sep).0.len(),
            forall|k: int| 0 <= k < done@.len() ==> #[trigger] done@[k]@ == pieces_acc(s@.take(i as int), sep).0[k],
            cur@ == pieces_acc(s@.take(i as int), sep).1,
        decreases s.len() - i,
    {
        assert(s@.take(i + 1).drop_last() =~= s@.take(i as int));
        if s[i] == sep {
            let piece = cur;
            done.push(piece);
            cur = Vec::new();
        } else {
            cur.push(s[i]);
        }
        i = i + 1;
    }
    assert(s@.take(i as int) =~= s@);
    done.push(cur);
    done
}

fn split_pair(piece: &Vec<char>) -> (r: Option<(String, String)>)
    ensures
        match pair_of(piece@) {
            Some((k, v)) => r matches Some(p) && p.0@ == k && p.1@ == v,
            None => r is None,
        },
{
    let mut i: usize = 0;
    assert(piece@.skip(0) =~= piece@);
    while i < piece.len() && piece[i] != '='
        invariant
            i <= piece.len(),
            first_index(piece@, '=') == (match first_index(piece@.skip(i as int), '=') {
                Some(j) => Some(j + i),
                None => None::<int>,
            }),
        decreases piece.len() - i,
    {
        assert(piece@.skip(i as int).drop_first() =~= piece@.skip(i + 1));
        assert(piece@.skip(i as int)[0] == piece@[i as int]);
        i = i + 1;
    }
    if i == piece.len() {
        assert(piece@.skip(i as int) =~= Seq::<char>::empty());
        return None;
    }
    let mut key: Vec<char> = Vec::new();
    let mut j: usize = 0;
    while j < i
        invariant
            j <= i < piece.len(),
            key@ == piece@.take(j as int),
        decreases i - j,
    {
        key.push(piece[j]);
        assert(piece@.take(j + 1) =~= piece@.take(j as int).push(piece@[j as int]));
        j = j + 1;
    }
    let mut value: Vec<char> = Vec::new();
    let mut m: usize = i + 1;
    while m < piece.len()
        invariant
            i < m <= piece.len() || (m == i + 1 && i + 1 == piece.len()),
            i < piece.len(),
            value@ == piece@.subrange(i + 1, m as int),
        decreases piece.len() - m,
    {
        value.push(piece[m]);
        assert(piece@.subrange(i + 1, m + 1) =~= piece@.subrange(i + 1, m as int).push(piece@[m as int]));
        m = m + 1;
    }
    assert(value@ =~= piece@.skip(i + 1));
    assert(piece@.skip(i as int)[0] == '=');
    Some((string_of(&key), string_of(&value)))
}

/// The `key=value` pairs of a query string, in order; pieces without `=`
/// are ignored.
pub fn parse_query(raw: &str) -> (r: Vec<(String, String)>)
    ensures
        pair_views(r@) == query_pairs(pieces(raw@, '&')),
{
    let chars = chars_of(raw);
    let ps = split_pieces(&chars, '&');
    let ghost all = pieces(raw@, '&');
    let mut r: Vec<(String, String)> = Vec::new();
    let mut i: usize = 0;
    while i < ps.len()
        invariant
            i <= ps.len(),
            ps@.len() == all.len(),
            forall|k: int| 0 <= k < ps@.len() ==> #[trigger] ps@[k]@ == all[k],
            pair_views(r@) =~= query_pairs(all.take(i as int)),
        decreases ps.len() - i,
    {
        assert(all.take(i + 1).drop_last() =~= all.take(i as int));
        assert(all.take(i + 1).last() == ps@[i as int]@);
        match split_pair(&ps[i]) {
            Some(p) => {
                r.push(p);
            },
            None => {},
        }
        i = i + 1;
    }
    assert(all.take(i as int) =~= all);
    r
}

/// The value of `key` in a query: a key given twice keeps its last value.
pub open spec fn param_value(pairs: Seq<(Seq<char>, Seq<char>)>, key: Seq<char>) -> Option<Seq<char>>
    decreases pairs.len(),
{
    if pairs.len() == 0 {
        None
    } else if pairs.last().0 == key {
        Some(pairs.last().1)
    } else {
        param_value(pairs.drop_last(), key)
    }
}

/// A key given in the query has a value, the value of its last pair; a key
/// not given has none.
pub proof fn law_last_value_wins(pairs: Seq<(Seq<char>, Seq<char>)>, key: Seq<char>)
    ensures
        param_value(pairs, key) is None <==> forall|k: int| 0 <= k < pairs.len() ==> (#[trigger] pairs[k]).0 != key,
        param_value(pairs, key) is Some ==> exists|k: int|
            0 <= k < pairs.len() && (#[trigger] pairs[k]).0 == key && param_value(pairs, key) == Some(pairs[k].1)
                && forall|j: int| k < j < pairs.len() ==> (#[trigger] pairs[j]).0 != key,
    decreases pairs.len(),
{
    if pairs.len() > 0 {
        let d = pairs.drop_last();
        let n = pairs.len() - 1;
        law_last_value_wins(d, key);
        assert(pairs[n] == pairs.last());
        assert forall|k: int| 0 <= k < d.len() implies #[trigger] d[k] == pairs[k] by {}
        if pairs.last().0 != key && param_value(d, key) is Some {
            let k = choose|k: int|
                0 <= k < d.len() && (#[trigger] d[k]).0 == key && param_value(d, key) == Some(d[k].1)
                    && forall|j: int| k < j < d.len() ==> (#[trigger] d[j]).0 != key;
            assert(pairs[k] == d[k]);
            assert forall|j: int| k < j < pairs.len() implies (#[trigger] pairs[j]).0 != key by {
                if j < n {
                    assert(pairs[j] == d[j]);
                }
            }
        }
        if pairs.last().0 != key && param_value(d, key) is None {
            assert forall|k: int| 0 <= k < pairs.len() implies (#[trigger] pairs[k]).0 != key by {
                if k < n {
                    assert(pairs[k] == d[k]);
                }
            }
        }
    }
}

pub fn query_param(params: &Vec<(String, String)>, key: &str) -> (r: Option<String>)
    ensures
        match param_value(pair_views(params@), key@) {
            Some(v) => r matches Some(s) && s@ == v,
            None => r is None,
        },
{
    let k = String::from_str(key);
    let mut i: usize = params.len();
    assert(pair_views(params@).take(i as int) =~= pair_views(params@));
    while i > 0
        invariant
            i <= params.len(),
            k@ == key@,
            param_value(pair_views(params@), key@) == param_value(pair_views(params@).take(i as int), key@),
        decreases i,
    {
        assert(pair_views(params@).take(i as int).drop_last() =~= pair_views(params@).take(i - 1));
        if params[i - 1].0 == k {
            return Some(params[i - 1].1.clone());
        }
        i = i - 1;
    }
    None
}

/// The first millisecond chrono can name: January 1 of 262144 BCE
/// (astronomical year -262143), 00:00:00.000 UTC.
pub const CHRONO_MIN_MILLIS: i64 = -8334601228800000;

/// The last millisecond chrono can name: December 31 of 262142 CE,
/// 23:59:59.999 UTC.
pub const CHRONO_MAX_MILLIS: i64 = 8210266876799999;

/// Whether chrono has an instant for `ms` milliseconds since the epoch:
/// its dates run from the first day of its first year to the last day of
/// its last, and every millisecond of those days is an instant.
pub open spec fn chrono_millis_in_range(ms: int) -> bool {
    CHRONO_MIN_MILLIS <= ms <= CHRONO_MAX_MILLIS
}

/// chrono's `Utc.timestamp_millis_opt(ms).single()`: whether the
/// millisecond count names an instant within chrono's range of dates.
#[verifier::external_body]
fn millis_in_range(ms: i64) -> (r: bool)
    ensures
        r == chrono_millis_in_range(ms as int),
{
    chrono::TimeZone::timestamp_millis_opt(&chrono::Utc, ms).single().is_some()
}

/// A time filter given as milliseconds since the epoch; a value that is
/// not a number, or names no instant, is no filter.
pub fn timestamp_param(value: Option<&String>) -> (r: Option<i64>)
    ensures
        match value {
            None => r is None,
            Some(v) => match parse_signed(v@, i64::MIN as int, i64::MAX as int) {
                None => r is None,
                Some(ms) => if chrono_millis_in_range(ms) { r == Some(ms as i64) } else { r is None },
            },
        },
{
    let v = match value {
        Some(v) => v,
        None => return None,
    };
    let ms = match parse_i64(v.as_str()) {
        Some(ms) => ms,
        None => return None,
    };
    if millis_in_range(ms) {
        Some(ms)
    } else {
        None
    }
}

/// How many runs a listing returns: `limit` when it reads as a number,
/// else 100, always kept within 1 to 500.
pub fn task_runs_limit(value: Option<&String>) -> (r: i64)
    ensures
        1 <= r <= 500,
        ({
            let asked: int = match value {
                Some(v) => match parse_signed(v@, i64::MIN as int, i64::MAX as int) {
                    Some(n) => n,
                    None => 100,
                },
                None => 100,
            };
            r == (if asked < 1 { 1 } else if asked > 500 { 500 } else { asked })
        }),
{
    let asked: i64 = match value {
        Some(v) => match parse_i64(v.as_str()) {
            Some(n) => n,
            None => 100,
        },
        None => 100,
    };
    if asked < 1 {
        1
    } else if asked > 500 {
        500
    } else {
        asked
    }
}

/// What an API caller is told of a failure: whether the database was at
/// fault, and nothing more.
pub fn public_error(error: &Error) -> (r: &'static str)
    ensures
        r@ == (if *error is Mongo || *error is Bson { "database error"@ } else { "request failed"@ }),
{
    match error {
        Error::Mongo(_) | Error::Bson(_) => "database error",
        _ => "request failed",
    }
}

/// The resources the task API answers.
#[derive(Debug, Clone, Copy, PartialEq, Eq, Structural)]
pub enum Route {
    Health,
    TaskRuns,
    Tasks,
    NotFound,
}

pub open spec fn route_spec(path: Seq<char>) -> Route {
    if path == "/healthz"@ {
        Route::Health
    } else if path == "/api/task-runs"@ {
        Route::TaskRuns
    } else if path == "/api/tasks"@ {
        Route::Tasks
    } else {
        Route::NotFound
    }
}

/// Which resource a request path names.
pub fn route(path: &str) -> (r: Route)
    ensures
        r == route_spec(path@),
{
    if str_eq(path, "/healthz") {
        Route::Health
    } else if str_eq(path, "/api/task-runs") {
        Route::TaskRuns
    } else if str_eq(path, "/api/tasks") {
        Route::Tasks
    } else {
        Route::NotFound
    }
}

/// Entries whose names strictly increase, so that no name occurs twice.
pub open spec fn sorted_names(s: Seq<(Seq<char>, i64)>) -> bool {
    forall|i: int, j: int| 0 <= i < j < s.len() ==> text_less(#[trigger] s[i].0, #[trigger] s[j].0)
}

/// Whether the listing has the entry `(name, next)`.
pub open spec fn has_entry(s: Seq<(Seq<char>, i64)>, name: Seq<char>, next: i64) -> bool {
    exists|i: int| 0 <= i < s.len() && #[trigger] s[i] == (name, next)
}

/// The time a list of jobs gives `name`: the last one that names it wins.
pub open spec fn last_next(jobs: Seq<(Seq<char>, i64)>, name: Seq<char>) -> Option<i64>
    decreases jobs.len(),
{
    if jobs.len() == 0 {
        None
    } else if jobs.last().0 == name {
        Some(jobs.last().1)
    } else {
        last_next(jobs.drop_last(), name)
    }
}

/// A replaced schedule gives each task the time of the last job that names
/// it, and none to a task that no job names.
pub proof fn law_last_job_wins(jobs: Seq<(Seq<char>, i64)>, name: Seq<char>)
    ensures
        last_next(jobs, name) is None <==> forall|k: int| 0 <= k < jobs.len() ==> (#[trigger] jobs[k]).0 != name,
        last_next(jobs, name) is Some ==> exists|k: int|
            0 <= k < jobs.len() && (#[trigger] jobs[k]).0 == name && last_next(jobs, name) == Some(jobs[k].1)
                && forall|j: int| k < j < jobs.len() ==> (#[trigger] jobs[j]).0 != name,
    decreases jobs.len(),
{
    if jobs.len() > 0 {
        let d = jobs.drop_last();
        let n = jobs.len() - 1;
        law_last_job_wins(d, name);
        assert(jobs[n] == jobs.last());
        assert forall|k: int| 0 <= k < d.len() implies #[trigger] d[k] == jobs[k] by {}
        if jobs.last().0 != name && last_next(d, name) is Some {
            let k = choose|k: int|
                0 <= k < d.len() && (#[trigger] d[k]).0 == name && last_next(d, name) == Some(d[k].1)
                    && forall|j: int| k < j < d.len() ==> (#[trigger] d[j]).0 != name;
            assert(jobs[k] == d[k]);
            assert forall|j: int| k < j < jobs.len() implies (#[trigger] jobs[j]).0 != name by {
                if j < n {
                    assert(jobs[j] == d[j]);
                }
            }
        }
        if jobs.last().0 != name && last_next(d, name) is None {
            assert forall|k: int| 0 <= k < jobs.len() implies (#[trigger] jobs[k]).0 != name by {
                if k < n {
                    assert(jobs[k] == d[k]);
                }
            }
        }
    }
}

pub open spec fn entry_views(v: Seq<(String, i64)>) -> Seq<(Seq<char>, i64)> {
    v.map_values(|e: (String, i64)| (e.0@, e.1))
}

/// When each scheduled task fires next, by task name, listed in name order.
pub struct ScheduleState {
    entries: Vec<(String, i64)>,
}

impl ScheduleState {
    /// The schedule, in name order.
    pub closed spec fn listing(&self) -> Seq<(Seq<char>, i64)> {
        entry_views(self.entries@)
    }

    pub closed spec fn wf(&self) -> bool {
        sorted_names(self.listing())
    }

    /// Every schedule lists its tasks in name order, each once.
    pub proof fn law_listing_is_sorted(&self)
        requires
            self.wf(),
        ensures
            sorted_names(self.listing()),
    {
    }

    pub fn new() -> (s: ScheduleState)
        ensures
            s.wf(),
            s.listing() == Seq::<(Seq<char>, i64)>::empty(),
    {
        let s = ScheduleState { entries: Vec::new() };
        assert(s.listing() =~= Seq::<(Seq<char>, i64)>::empty());
        s
    }

    /// Sets when `task` fires next, leaving the other tasks as they were.
    pub fn set_next(&mut self, task: &str, next: i64)
        requires
            old(self).wf(),
        ensures
            final(self).wf(),
            forall|name: Seq<char>, t: i64| #[trigger] has_entry(final(self).listing(), name, t) <==> (
                if name == task@ { t == next } else { has_entry(old(self).listing(), name, t) }),
    {
        let ghost before = self.listing();
        let mut i: usize = 0;
        while i < self.entries.len() && text_lt(self.entries[i].0.as_str(), task)
            invariant
                i <= self.entries@.len(),
                before == entry_views(self.entries@),
                sorted_names(before),
                forall|j: int| 0 <= j < i ==> text_less(#[trigger] before[j].0, task@),
            decreases self.entries.len() - i,
        {
            i = i + 1;
        }
        if i < self.entries.len() && str_eq(self.entries[i].0.as_str(), task) {
            let name = String::from_str(task);
            self.entries.set(i, (name, next));
            let ghost after = self.listing();
            assert(after =~= before.update(i as int, (task@, next)));
            assert forall|a: int, b: int| 0 <= a < b < after.len() implies text_less(
                #[trigger] after[a].0,
                #[trigger] after[b].0,
            ) by {
                assert(after[a].0 == before[a].0);
                assert(after[b].0 == before[b].0);
                assert(text_less(before[a].0, before[b].0));
            }
            assert forall|name: Seq<char>, t: i64| has_entry(after, name, t) implies (if name == task@ {
                t == next
            } else {
                has_entry(before, name, t)
            }) by {
                let k = choose|k: int| 0 <= k < after.len() && after[k] == (name, t);
                if k != i {
                    assert(before[k] == (name, t));
                    if name == task@ {
                        if k < i {
                            assert(text_less(before[k].0, task@));
                            lemma_text_less_irreflexive(task@);
                        } else {
                            assert(text_less(before[i as int].0, before[k].0));
                            lemma_text_less_irreflexive(task@);
                        }
                    } else {
                        assert(has_entry(before, name, t));
                    }
                }
            }
            assert forall|name: Seq<char>, t: i64| (if name == task@ {
                t == next
            } else {
                has_entry(before, name, t)
            }) implies has_entry(after, name, t) by {
                if name == task@ {
                    assert(after[i as int] == (name, t));
                } else {
                    let k = choose|k: int| 0 <= k < before.len() && before[k] == (name, t);
                    assert(k != i);
                    assert(after[k] == (name, t));
                }
            }
        } else {
            let name = String::from_str(task);
            self.entries.insert(i, (name, next));
            let ghost after = self.listing();
            assert(after =~= before.insert(i as int, (task@, next)));
            proof {
                assert forall|j: int| i <= j < before.len() implies text_less(task@, #[trigger] before[j].0) by {
                    lemma_text_less_total(before[i as int].0, task@);
                    if j > i {
                        lemma_text_less_transitive(task@, before[i as int].0, before[j].0);
                    }
                }
                assert forall|a: int, b: int| 0 <= a < b < after.len() implies text_less(
                    #[trigger] after[a].0,
                    #[trigger] after[b].0,
                ) by {
                    if a < i && b > i {
                        lemma_text_less_transitive(before[a].0, task@, before[b - 1].0);
                    }
                }
            }
            assert forall|name: Seq<char>, t: i64| has_entry(after, name, t) implies (if name == task@ {
                t == next
            } else {
                has_entry(before, name, t)
            }) by {
                let k = choose|k: int| 0 <= k < after.len() && after[k] == (name, t);
                if k == i {
                    assert(after[i as int] == (task@, next));
                } else if k < i {
                    assert(before[k] == (name, t));
                    if name == task@ {
                        assert(text_less(before[k].0, task@));
                        lemma_text_less_irreflexive(task@);
                    } else {
                        assert(has_entry(before, name, t));
                    }
                } else if k > i {
                    assert(before[k - 1] == (name, t));
                    if name == task@ {
                        assert(text_less(task@, before[k - 1].0));
                        lemma_text_less_irreflexive(task@);
                    } else {
                        assert(has_entry(before, name, t));
                    }
                }
            }
            assert forall|name: Seq<char>, t: i64| (if name == task@ {
                t == next
            } else {
                has_entry(before, name, t)
            }) implies has_entry(after, name, t) by {
                if name == task@ {
                    assert(after[i as int] == (name, t));
                } else {
                    let k = choose|k: int| 0 <= k < before.len() && before[k] == (name, t);
                    if k < i {
                        assert(after[k] == (name, t));
                    } else {
                        assert(after[k + 1] == (name, t));
                    }
                }
            }
        }
    }

    /// Replaces the whole schedule with `jobs`; where a name occurs twice
    /// the later time stands.
    pub fn replace(&mut self, jobs: &Vec<(String, i64)>)
        ensures
            final(self).wf(),
            forall|name: Seq<char>, t: i64| #[trigger] has_entry(final(self).listing(), name, t) <==> last_next(
                entry_views(jobs@),
                name,
            ) == Some(t),
    {
        self.entries = Vec::new();
        let mut i: usize = 0;
        assert(self.listing() =~= Seq::<(Seq<char>, i64)>::empty());
        while i < jobs.len()
            invariant
                i <= jobs@.len(),
                self.wf(),
                forall|name: Seq<char>, t: i64| #[trigger] has_entry(self.listing(), name, t) <==> last_next(
                    entry_views(jobs@).take(i as int),
                    name,
                ) == Some(t),
            decreases jobs.len() - i,
        {
            self.set_next(jobs[i].0.as_str(), jobs[i].1);
            assert(entry_views(jobs@).take(i + 1).drop_last() =~= entry_views(jobs@).take(i as int));
            i = i + 1;
        }
        assert(entry_views(jobs@).take(i as int) =~= entry_views(jobs@));
    }

    /// The schedule as a list, in name order.
    pub fn snapshot(&self) -> (r: Vec<(String, i64)>)
        ensures
            entry_views(r@) == self.listing(),
    {
        let mut r: Vec<(String, i64)> = Vec::new();
        let mut i: usize = 0;
        while i < self.entries.len()
            invariant
                i <= self.entries@.len(),
                r@.len() == i,
                entry_views(r@) == entry_views(self.entries@).take(i as int),
            decreases self.entries.len() - i,
        {
            let name = String::from_str(self.entries[i].0.as_str());
            let next = self.entries[i].1;
            let ghost before = r@;
            let ghost entry = (name@, next);
            assert(entry == entry_views(self.entries@)[i as int]);
            r.push((name, next));
            assert(entry_views(r@)[i as int] == entry);
            assert(entry_views(r@) =~= entry_views(self.entries@).take(i + 1));
            i = i + 1;
        }
        assert(entry_views(self.entries@).take(i as int) =~= entry_views(self.entries@));
        r
    }
}

impl Default for ScheduleState {
    fn default() -> (s: ScheduleState)
        ensures
            s.wf(),
            s.listing() == Seq::<(Seq<char>, i64)>::empty(),
    {
        ScheduleState::new()
    }
}

} // verus!
