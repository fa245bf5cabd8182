//! The upstream APIs: response shapes and the parameters of each request.

pub mod curseforge;
pub mod modrinth;

use vstd::prelude::*;
use crate::text::{chars_of, string_of};

verus! {

/// `s` without any `/` at its end.
pub open spec fn trimmed_slashes(s: Seq<char>) -> Seq<char>
    decreases s.len(),
{
    if s.len() > 0 && s.last() == '/' {
        trimmed_slashes(s.drop_last())
    } else {
        s
    }
}

/// A base URL without trailing slashes, so that paths can be appended.
pub fn trim_trailing_slashes(s: &str) -> (r: String)
    ensures
        r@ == trimmed_slashes(s@),
{
    let mut chars = chars_of(s);
    while chars.len() > 0 && chars[chars.len() - 1] == '/'
        invariant
            trimmed_slashes(chars@) == trimmed_slashes(s@),
        decreases chars.len(),
    {
        let ghost before = chars@;
        chars.pop();
        assert(chars@ =~= before.drop_last());
    }
    string_of(&chars)
}

/// Trimming drops exactly the trailing `/`s: what is left starts the text,
/// does not end in `/`, and only `/`s followed it.
pub proof fn law_trimming_drops_only_trailing_slashes(s: Seq<char>)
    ensures
        trimmed_slashes(s).len() <= s.len(),
        trimmed_slashes(s) == s.take(trimmed_slashes(s).len() as int),
        trimmed_slashes(s).len() == 0 || trimmed_slashes(s).last() != '/',
        forall|i: int| trimmed_slashes(s).len() <= i < s.len() ==> #[trigger] s[i] == '/',
    decreases s.len(),
{
    if s.len() > 0 && s.last() == '/' {
        let d = s.drop_last();
        law_trimming_drops_only_trailing_slashes(d);
        let t = trimmed_slashes(d);
        assert(d.take(t.len() as int) =~= s.take(t.len() as int));
        assert forall|i: int| t.len() <= i < s.len() implies #[trigger] s[i] == '/' by {
            if i < d.len() {
                assert(d[i] == s[i]);
            }
        }
    } else {
        assert(s.take(s.len() as int) =~= s);
    }
}

} // verus!
