//! Id lists: reading queue members as numbers, and sets of ids in order.

use vstd::prelude::*;
use crate::text::{
    law_signed_decimal_reads_back, lemma_text_less_total, lemma_text_less_transitive, parse_i32,
    parse_i64, parse_signed, signed_decimal, str_eq, text_less, text_lt,
};

verus! {

pub open spec fn strictly_increasing(s: Seq<i32>) -> bool {
    forall|i: int, j: int| 0 <= i < j < s.len() ==> s[i] < s[j]
}

/// Puts `x` into its place in a strictly increasing list, unless it is there already.
pub fn insert_sorted(r: &mut Vec<i32>, x: i32)
    requires
        strictly_increasing(old(r)@),
    ensures
        strictly_increasing(final(r)@),
        forall|y: i32| final(r)@.contains(y) <==> (old(r)@.contains(y) || y == x),
{
    let mut i: usize = 0;
    while i < r.len() && r[i] < x
        invariant
            i <= r.len(),
            r@ == old(r)@,
            strictly_increasing(r@),
            forall|k: int| 0 <= k < i ==> r@[k] < x,
        decreases r.len() - i,
    {
        i = i + 1;
    }
    if i < r.len() && r[i] == x {
        assert(r@.contains(x));
        return;
    }
    let ghost before = r@;
    r.insert(i, x);
    proof {
        before.insert_ensures(i as int, x);
        assert forall|y: i32| r@.contains(y) <==> (before.contains(y) || y == x) by {
            if r@.contains(y) {
                let k = choose|k: int| 0 <= k < r@.len() && r@[k] == y;
                if k < i {
                    assert(before[k] == y);
                } else if k > i {
                    assert(before[k - 1] == y);
                }
            }
            if before.contains(y) {
                let k = choose|k: int| 0 <= k < before.len() && before[k] == y;
                if k < i {
                    assert(r@[k] == y);
                } else {
                    assert(r@[k + 1] == y);
                }
            }
            if y == x {
                assert(r@[i as int] == x);
            }
        }
        assert forall|a: int, b: int| 0 <= a < b < r@.len() implies r@[a] < r@[b] by {
            if b < i {
            } else if b == i {
            } else if a < i {
                assert(r@[b] == before[b - 1]);
                assert(i < before.len());
                assert(before[i as int] > x);
            } else if a == i {
                assert(r@[b] == before[b - 1]);
                assert(before[i as int] > x);
            } else {
                assert(r@[a] == before[a - 1]);
                assert(r@[b] == before[b - 1]);
            }
        }
    }
}

/// The distinct values of `v`, smallest first.
pub fn sorted_unique(v: &Vec<i32>) -> (r: Vec<i32>)
    ensures
        strictly_increasing(r@),
        forall|y: i32| r@.contains(y) <==> v@.contains(y),
{
    let mut r: Vec<i32> = Vec::new();
    let mut i: usize = 0;
    while i < v.len()
        invariant
            i <= v.len(),
            strictly_increasing(r@),
            forall|y: i32| r@.contains(y) <==> v@.take(i as int).contains(y),
        decreases v.len() - i,
    {
        let ghost before = r@;
        insert_sorted(&mut r, v[i]);
        proof {
            let prefix = v@.take(i as int);
            assert(v@.take(i + 1) =~= prefix.push(v@[i as int]));
            assert forall|y: i32| r@.contains(y) <==> v@.take(i + 1).contains(y) by {
                if prefix.contains(y) {
                    let k = choose|k: int| 0 <= k < prefix.len() && prefix[k] == y;
                    assert(prefix.push(v@[i as int])[k] == y);
                }
                if prefix.push(v@[i as int]).contains(y) {
                    let k = choose|k: int| 0 <= k < prefix.len() + 1 && prefix.push(v@[i as int])[k] == y;
                    if k < prefix.len() {
                        assert(prefix[k] == y);
                    }
                }
                if y == v@[i as int] {
                    assert(prefix.push(v@[i as int])[prefix.len() as int] == y);
                }
            }
        }
        i = i + 1;
    }
    assert(v@.take(v.len() as int) =~= v@);
    r
}

/// The values of `raw` that read as integers in `min..=max`, in order.
pub open spec fn parsed_ids(raw: Seq<String>, min: int, max: int) -> Seq<int>
    decreases raw.len(),
{
    if raw.len() == 0 {
        Seq::empty()
    } else {
        let rest = parsed_ids(raw.drop_last(), min, max);
        match parse_signed(raw.last()@, min, max) {
            Some(v) => rest.push(v),
            None => rest,
        }
    }
}

/// The members of `raw` that do not read as integers in `min..=max`, in order.
pub open spec fn invalid_ids(raw: Seq<String>, min: int, max: int) -> Seq<Seq<char>>
    decreases raw.len(),
{
    if raw.len() == 0 {
        Seq::empty()
    } else {
        let rest = invalid_ids(raw.drop_last(), min, max);
        match parse_signed(raw.last()@, min, max) {
            Some(_) => rest,
            None => rest.push(raw.last()@),
        }
    }
}

/// Splits queue members into the ones that read as `i32` and the rest.
/// Members of other shapes have turned up in the queues; they must not
/// bring the whole run down.
pub fn parse_ids_i32(raw: &Vec<String>) -> (r: (Vec<i32>, Vec<String>))
    ensures
        r.0@.len() == parsed_ids(raw@, i32::MIN as int, i32::MAX as int).len(),
        forall|k: int| 0 <= k < r.0@.len() ==> r.0@[k] as int == #[trigger] parsed_ids(raw@, i32::MIN as int, i32::MAX as int)[k],
        r.1@.len() == invalid_ids(raw@, i32::MIN as int, i32::MAX as int).len(),
        forall|k: int| 0 <= k < r.1@.len() ==> r.1@[k]@ == #[trigger] invalid_ids(raw@, i32::MIN as int, i32::MAX as int)[k],
{
    let ghost min = i32::MIN as int;
    let ghost max = i32::MAX as int;
    let mut parsed: Vec<i32> = Vec::new();
    let mut invalid: Vec<String> = Vec::new();
    let mut i: usize = 0;
    while i < raw.len()
        invariant
            i <= raw.len(),
            min == i32::MIN as int,
            max == i32::MAX as int,
            parsed@.len() == parsed_ids(raw@.take(i as int), min, max).len(),
            forall|k: int| 0 <= k < parsed@.len() ==> parsed@[k] as int == #[trigger] parsed_ids(raw@.take(i as int), min, max)[k],
            invalid@.len() == invalid_ids(raw@.take(i as int), min, max).len(),
            forall|k: int| 0 <= k < invalid@.len() ==> invalid@[k]@ == #[trigger] invalid_ids(raw@.take(i as int), min, max)[k],
        decreases raw.len() - i,
    {
        assert(raw@.take(i + 1).drop_last() =~= raw@.take(i as int));
        assert(raw@.take(i + 1).last() == raw@[i as int]);
        match parse_i32(raw[i].as_str()) {
            Some(v) => parsed.push(v),
            None => invalid.push(raw[i].clone()),
        }
        i = i + 1;
    }
    assert(raw@.take(raw.len() as int) =~= raw@);
    (parsed, invalid)
}

/// Splits queue members into the ones that read as `i64` and the rest.
pub fn parse_ids_i64(raw: &Vec<String>) -> (r: (Vec<i64>, Vec<String>))
    ensures
        r.0@.len() == parsed_ids(raw@, i64::MIN as int, i64::MAX as int).len(),
        forall|k: int| 0 <= k < r.0@.len() ==> r.0@[k] as int == #[trigger] parsed_ids(raw@, i64::MIN as int, i64::MAX as int)[k],
        r.1@.len() == invalid_ids(raw@, i64::MIN as int, i64::MAX as int).len(),
        forall|k: int| 0 <= k < r.1@.len() ==> r.1@[k]@ == #[trigger] invalid_ids(raw@, i64::MIN as int, i64::MAX as int)[k],
{
    let ghost min = i64::MIN as int;
    let ghost max = i64::MAX as int;
    let mut parsed: Vec<i64> = Vec::new();
    let mut invalid: Vec<String> = Vec::new();
    let mut i: usize = 0;
    while i < raw.len()
        invariant
            i <= raw.len(),
            min == i64::MIN as int,
            max == i64::MAX as int,
            parsed@.len() == parsed_ids(raw@.take(i as int), min, max).len(),
            forall|k: int| 0 <= k < parsed@.len() ==> parsed@[k] as int == #[trigger] parsed_ids(raw@.take(i as int), min, max)[k],
            invalid@.len() == invalid_ids(raw@.take(i as int), min, max).len(),
            forall|k: int| 0 <= k < invalid@.len() ==> invalid@[k]@ == #[trigger] invalid_ids(raw@.take(i as int), min, max)[k],
        decreases raw.len() - i,
    {
        assert(raw@.take(i + 1).drop_last() =~= raw@.take(i as int));
        assert(raw@.take(i + 1).last() == raw@[i as int]);
        match parse_i64(raw[i].as_str()) {
            Some(v) => parsed.push(v),
            None => invalid.push(raw[i].clone()),
        }
        i = i + 1;
    }
    assert(raw@.take(raw.len() as int) =~= raw@);
    (parsed, invalid)
}

/// An id put back on a queue in decimal is read as the same id next
/// round: members that spell ids in range all parse, to those ids, in
/// order, and none is set aside.
pub proof fn law_requeued_ids_read_back(raw: Seq<String>, ids: Seq<int>, min: int, max: int)
    requires
        raw.len() == ids.len(),
        forall|k: int| 0 <= k < raw.len() ==> min <= #[trigger] ids[k] <= max && raw[k]@ == signed_decimal(ids[k]),
    ensures
        parsed_ids(raw, min, max) == ids,
        invalid_ids(raw, min, max).len() == 0,
    decreases raw.len(),
{
    if raw.len() > 0 {
        let last = raw.len() - 1;
        assert(min <= ids[last] <= max && raw[last]@ == signed_decimal(ids[last]));
        assert forall|k: int| 0 <= k < raw.drop_last().len() implies min <= #[trigger] ids.drop_last()[k] <= max
            && raw.drop_last()[k]@ == signed_decimal(ids.drop_last()[k]) by {
            assert(min <= ids[k] <= max && raw[k]@ == signed_decimal(ids[k]));
        }
        law_requeued_ids_read_back(raw.drop_last(), ids.drop_last(), min, max);
        law_signed_decimal_reads_back(ids[last], min, max);
        assert(ids =~= ids.drop_last().push(ids[last]));
    }
}

/// Every queue member is either read as an id or kept aside as invalid:
/// none is lost and none is counted twice.
pub proof fn law_parse_ids_partitions(raw: Seq<String>, min: int, max: int)
    ensures
        parsed_ids(raw, min, max).len() + invalid_ids(raw, min, max).len() == raw.len(),
    decreases raw.len(),
{
    if raw.len() > 0 {
        law_parse_ids_partitions(raw.drop_last(), min, max);
    }
}

pub proof fn lemma_push_contains<A>(s: Seq<A>, a: A, y: A)
    ensures
        s.push(a).contains(y) <==> (s.contains(y) || y == a),
{
    if s.contains(y) {
        let k = choose|k: int| 0 <= k < s.len() && s[k] == y;
        assert(s.push(a)[k] == y);
    }
    if s.push(a).contains(y) {
        let k = choose|k: int| 0 <= k < s.len() + 1 && s.push(a)[k] == y;
        if k < s.len() {
            assert(s[k] == y);
        }
    }
    if y == a {
        assert(s.push(a)[s.len() as int] == y);
    }
}

pub open spec fn views(v: Seq<String>) -> Seq<Seq<char>> {
    v.map_values(|x: String| x@)
}

/// Texts in strictly increasing order, so none occurs twice.
pub open spec fn sorted_strictly(s: Seq<Seq<char>>) -> bool {
    forall|i: int, j: int| 0 <= i < j < s.len() ==> text_less(#[trigger] s[i], #[trigger] s[j])
}

fn insert_sorted_string(r: &mut Vec<String>, x: &String)
    requires
        sorted_strictly(views(old(r)@)),
    ensures
        sorted_strictly(views(final(r)@)),
        forall|s: Seq<char>| views(final(r)@).contains(s) <==> (views(old(r)@).contains(s) || s == x@),
{
    let ghost before = views(r@);
    let mut i: usize = 0;
    while i < r.len() && text_lt(r[i].as_str(), x.as_str())
        invariant
            i <= r@.len(),
            before == views(r@),
            sorted_strictly(before),
            forall|j: int| 0 <= j < i ==> text_less(#[trigger] before[j], x@),
        decreases r.len() - i,
    {
        i = i + 1;
    }
    if i < r.len() && str_eq(r[i].as_str(), x.as_str()) {
        assert(before[i as int] == x@);
        assert forall|s: Seq<char>| before.contains(s) <==> (before.contains(s) || s == x@) by {
            if s == x@ {
                assert(before[i as int] == s);
            }
        }
        return;
    }
    r.insert(i, x.clone());
    let ghost after = views(r@);
    assert(after =~= before.insert(i as int, x@));
    assert forall|j: int| i <= j < before.len() implies text_less(x@, #[trigger] before[j]) by {
        lemma_text_less_total(before[i as int], x@);
        if j > i {
            lemma_text_less_transitive(x@, before[i as int], before[j]);
        }
    }
    assert forall|a: int, b: int| 0 <= a < b < after.len() implies text_less(#[trigger] after[a], #[trigger] after[b]) by {
        if a < i && b > i {
            lemma_text_less_transitive(before[a], x@, before[b - 1]);
        }
    }
    assert forall|s: Seq<char>| after.contains(s) implies (before.contains(s) || s == x@) by {
        let k = choose|k: int| 0 <= k < after.len() && after[k] == s;
        if k < i {
            assert(before[k] == s);
        } else if k > i {
            assert(before[k - 1] == s);
        }
    }
    assert forall|s: Seq<char>| (before.contains(s) || s == x@) implies after.contains(s) by {
        if s == x@ {
            assert(after[i as int] == s);
        } else {
            let k = choose|k: int| 0 <= k < before.len() && before[k] == s;
            if k < i {
                assert(after[k] == s);
            } else {
                assert(after[k + 1] == s);
            }
        }
    }
}

/// The distinct values of `v` in the order of `String`s, as a `BTreeSet`
/// holds them.
pub fn sorted_unique_strings(v: &Vec<String>) -> (r: Vec<String>)
    ensures
        sorted_strictly(views(r@)),
        forall|s: Seq<char>| views(r@).contains(s) <==> views(v@).contains(s),
{
    let mut r: Vec<String> = Vec::new();
    let mut i: usize = 0;
    assert(views(r@) =~= Seq::<Seq<char>>::empty());
    while i < v.len()
        invariant
            i <= v.len(),
            sorted_strictly(views(r@)),
            forall|s: Seq<char>| views(r@).contains(s) <==> views(v@.take(i as int)).contains(s),
        decreases v.len() - i,
    {
        let ghost prefix = views(v@.take(i as int));
        insert_sorted_string(&mut r, &v[i]);
        assert(views(v@.take(i + 1)) =~= prefix.push(v@[i as int]@));
        proof {
            assert forall|s: Seq<char>| views(r@).contains(s) <==> views(v@.take(i + 1)).contains(s) by {
                lemma_push_contains(prefix, v@[i as int]@, s);
            }
        }
        i = i + 1;
    }
    assert(v@.take(i as int) =~= v@);
    r
}

} // verus!
