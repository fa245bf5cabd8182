//! Memory profiling: which project a profile is taken for, how a heap dump
//! is named, and the resident figures read from the process status.

use vstd::prelude::*;
use crate::text::{
    chars_eq, chars_of, decimal, format_u64, lines, parse_u64, parse_unsigned, push_char,
    split_lines, split_words, string_of, words,
};

verus! {

/// Whether a project is profiled, given the project setting: an empty
/// setting profiles every project, any other only the one it names, and
/// no setting none.
pub fn project_selected(setting: Option<&str>, project_id: &str) -> (r: bool)
    ensures
        r == (match setting {
            Some(v) => v@.len() == 0 || v@ == project_id@,
            None => false,
        }),
{
    match setting {
        Some(v) => v.unicode_len() == 0 || chars_eq(&chars_of(v), project_id),
        None => false,
    }
}

pub open spec fn label_char(c: char) -> bool {
    ('0' <= c && c <= '9') || ('a' <= c && c <= 'z') || ('A' <= c && c <= 'Z') || c == '-'
}

/// A label made safe for a file name: ASCII letters, digits and `-` stay,
/// every other character becomes `_`.
pub open spec fn safe_label_spec(label: Seq<char>) -> Seq<char> {
    label.map_values(|c: char| if label_char(c) { c } else { '_' })
}

pub fn safe_label(label: &str) -> (r: String)
    ensures
        r@ == safe_label_spec(label@),
{
    let chars = chars_of(label);
    let mut r = String::new();
    let mut i: usize = 0;
    while i < chars.len()
        invariant
            i <= chars@.len(),
            chars@ == label@,
            r@ == safe_label_spec(chars@.take(i as int)),
        decreases chars.len() - i,
    {
        let c = chars[i];
        let keep = ('0' <= c && c <= '9') || ('a' <= c && c <= 'z') || ('A' <= c && c <= 'Z') || c == '-';
        push_char(&mut r, if keep { c } else { '_' });
        assert(safe_label_spec(chars@.take(i + 1)) =~= safe_label_spec(chars@.take(i as int)).push(
            if label_char(c) { c } else { '_' },
        ));
        i = i + 1;
    }
    assert(chars@.take(i as int) =~= chars@);
    r
}

/// A heap dump's file name: the time in milliseconds, a hyphen, the safe
/// label, and `.heap`.
pub fn heap_file_name(stamp_ms: u64, label: &str) -> (name: String)
    ensures
        name@ == decimal(stamp_ms as nat) + "-"@ + safe_label_spec(label@) + ".heap"@,
{
    let name = format_u64(stamp_ms);
    let name = name.concat("-");
    let safe = safe_label(label);
    let name = name.concat(safe.as_str());
    proof {
        reveal_strlit("-");
        reveal_strlit(".heap");
    }
    name.concat(".heap")
}

/// The resident size and its high-water mark, in KiB, after reading `ls`
/// in order: a line whose first word is `VmRSS:` or `VmHWM:` sets its
/// figure from its second word, the last such line winning, even when
/// that word does not read as a number.
pub open spec fn memory_fold(ls: Seq<Seq<char>>) -> (Option<u64>, Option<u64>)
    decreases ls.len(),
{
    if ls.len() == 0 {
        (None, None)
    } else {
        let (rss, hwm) = memory_fold(ls.drop_last());
        let w = words(ls.last());
        let value = if w.len() >= 2 {
            match parse_unsigned(w[1], u64::MAX as int) {
                Some(v) => Some(v as u64),
                None => None,
            }
        } else {
            None
        };
        if w.len() >= 1 && w[0] == "VmRSS:"@ {
            (value, hwm)
        } else if w.len() >= 1 && w[0] == "VmHWM:"@ {
            (rss, value)
        } else {
            (rss, hwm)
        }
    }
}

/// Whether a status line's first word is `name`.
pub open spec fn names(line: Seq<char>, name: Seq<char>) -> bool {
    words(line).len() >= 1 && words(line)[0] == name
}

/// The number a status line carries in its second word, if it reads.
pub open spec fn number_on(line: Seq<char>) -> Option<u64> {
    if words(line).len() >= 2 {
        match parse_unsigned(words(line)[1], u64::MAX as int) {
            Some(v) => Some(v as u64),
            None => None,
        }
    } else {
        None
    }
}

/// Each memory figure is the number on the last `VmRSS:` (resident) or
/// `VmHWM:` (peak) line, and none when there is no such line.
pub proof fn law_memory_figures_come_from_their_last_line(ls: Seq<Seq<char>>)
    ensures
        (forall|k: int| 0 <= k < ls.len() ==> !#[trigger] names(ls[k], "VmRSS:"@)) ==> memory_fold(ls).0 is None,
        (exists|k: int| 0 <= k < ls.len() && #[trigger] names(ls[k], "VmRSS:"@)) ==> exists|k: int|
            0 <= k < ls.len() && #[trigger] names(ls[k], "VmRSS:"@) && memory_fold(ls).0 == number_on(ls[k])
                && forall|j: int| k < j < ls.len() ==> !#[trigger] names(ls[j], "VmRSS:"@),
        (forall|k: int| 0 <= k < ls.len() ==> !#[trigger] names(ls[k], "VmHWM:"@)) ==> memory_fold(ls).1 is None,
        (exists|k: int| 0 <= k < ls.len() && #[trigger] names(ls[k], "VmHWM:"@)) ==> exists|k: int|
            0 <= k < ls.len() && #[trigger] names(ls[k], "VmHWM:"@) && memory_fold(ls).1 == number_on(ls[k])
                && forall|j: int| k < j < ls.len() ==> !#[trigger] names(ls[j], "VmHWM:"@),
    decreases ls.len(),
{
    reveal_strlit("VmRSS:");
    reveal_strlit("VmHWM:");
    assert("VmRSS:"@ != "VmHWM:"@) by {
        assert("VmRSS:"@[2] != "VmHWM:"@[2]);
    }
    if ls.len() > 0 {
        let d = ls.drop_last();
        let n = ls.len() - 1;
        law_memory_figures_come_from_their_last_line(d);
        assert(ls[n] == ls.last());
        if exists|k: int| 0 <= k < d.len() && #[trigger] names(d[k], "VmRSS:"@) {
            let k = choose|k: int|
                0 <= k < d.len() && #[trigger] names(d[k], "VmRSS:"@) && memory_fold(d).0 == number_on(d[k])
                    && forall|j: int| k < j < d.len() ==> !#[trigger] names(d[j], "VmRSS:"@);
            assert(ls[k] == d[k]);
            if !names(ls[n], "VmRSS:"@) {
                assert forall|j: int| k < j < ls.len() implies !#[trigger] names(ls[j], "VmRSS:"@) by {
                    if j < n {
                        assert(ls[j] == d[j]);
                    }
                }
            }
        }
        assert forall|k: int| 0 <= k < n && #[trigger] names(ls[k], "VmRSS:"@) implies names(d[k], "VmRSS:"@) by {
            assert(ls[k] == d[k]);
        }
        if forall|k: int| 0 <= k < ls.len() ==> !#[trigger] names(ls[k], "VmRSS:"@) {
            assert forall|k: int| 0 <= k < d.len() implies !#[trigger] names(d[k], "VmRSS:"@) by {
                assert(ls[k] == d[k]);
                assert(!names(ls[k], "VmRSS:"@));
            }
            assert(!names(ls[n], "VmRSS:"@));
        }
        if exists|k: int| 0 <= k < d.len() && #[trigger] names(d[k], "VmHWM:"@) {
            let k = choose|k: int|
                0 <= k < d.len() && #[trigger] names(d[k], "VmHWM:"@) && memory_fold(d).1 == number_on(d[k])
                    && forall|j: int| k < j < d.len() ==> !#[trigger] names(d[j], "VmHWM:"@);
            assert(ls[k] == d[k]);
            if !names(ls[n], "VmHWM:"@) {
                assert forall|j: int| k < j < ls.len() implies !#[trigger] names(ls[j], "VmHWM:"@) by {
                    if j < n {
                        assert(ls[j] == d[j]);
                    }
                }
            }
        }
        assert forall|k: int| 0 <= k < n && #[trigger] names(ls[k], "VmHWM:"@) implies names(d[k], "VmHWM:"@) by {
            assert(ls[k] == d[k]);
        }
        if forall|k: int| 0 <= k < ls.len() ==> !#[trigger] names(ls[k], "VmHWM:"@) {
            assert forall|k: int| 0 <= k < d.len() implies !#[trigger] names(d[k], "VmHWM:"@) by {
                assert(ls[k] == d[k]);
                assert(!names(ls[k], "VmHWM:"@));
            }
            assert(!names(ls[n], "VmHWM:"@));
        }
    }
}

/// The resident memory figures of `/proc/self/status`, in KiB.
pub fn proc_memory(status: &str) -> (r: (Option<u64>, Option<u64>))
    ensures
        r == memory_fold(lines(status@)),
{
    let chars = chars_of(status);
    let ls = split_lines(&chars);
    let mut rss: Option<u64> = None;
    let mut hwm: Option<u64> = None;
    let mut i: usize = 0;
    while i < ls.len()
        invariant
            i <= ls.len(),
            ls@.len() == lines(status@).len(),
            forall|k: int| 0 <= k < ls@.len() ==> #[trigger] ls@[k]@ == lines(status@)[k],
            (rss, hwm) == memory_fold(lines(status@).take(i as int)),
        decreases ls.len() - i,
    {
        assert(lines(status@).take(i + 1).drop_last() =~= lines(status@).take(i as int));
        assert(lines(status@).take(i + 1).last() == ls@[i as int]@);
        let w = split_words(&ls[i]);
        let value: Option<u64> = if w.len() >= 2 {
            let text = string_of(&w[1]);
            parse_u64(text.as_str())
        } else {
            None
        };
        if w.len() >= 1 && chars_eq(&w[0], "VmRSS:") {
            rss = value;
        } else if w.len() >= 1 && chars_eq(&w[0], "VmHWM:") {
            hwm = value;
        }
        i = i + 1;
    }
    assert(lines(status@).take(i as int) =~= lines(status@));
    (rss, hwm)
}

/// A safe label has one character for each of the label's: letters, digits
/// and `-` stay, anything else becomes `_`, so only those and `_` remain.
pub proof fn law_safe_label_keeps_safe_characters(label: Seq<char>)
    ensures
        safe_label_spec(label).len() == label.len(),
        forall|i: int| 0 <= i < label.len() ==> {
            let c = #[trigger] safe_label_spec(label)[i];
            &&& label_char(label[i]) ==> c == label[i]
            &&& !label_char(label[i]) ==> c == '_'
            &&& label_char(c) || c == '_'
        },
{
}

} // verus!
