//! Translation markers. This program only flags what needs translating;
//! the translating itself is another program's work.

use vstd::prelude::*;
use crate::text::str_eq;

verus! {

/// A `*_translated` document, keyed by the mod or project it belongs to.
#[derive(Debug, Clone)]
pub struct Translation<K> {
    pub id: K,
    pub translated: Option<String>,
    pub original: Option<String>,
    pub need_to_update: bool,
    /// Unix milliseconds.
    pub translated_at: Option<i64>,
}

pub type CurseForgeTranslation = Translation<i32>;

pub type ModrinthTranslation = Translation<String>;

pub open spec fn opt_chars(o: Option<String>) -> Option<Seq<char>> {
    match o {
        Some(s) => Some(s@),
        None => None,
    }
}

/// The marker to write for an entry whose description is now `description`:
/// none when the stored original already equals it; otherwise the new
/// original, flagged for translation, with any earlier translation kept
/// until it is redone.
pub fn translation_update<K>(id: K, existing: Option<Translation<K>>, description: Option<String>) -> (r: Option<Translation<K>>)
    ensures
        r is None <==> (match existing {
            Some(e) => opt_chars(e.original) == opt_chars(description),
            None => false,
        }),
        r matches Some(t) ==> {
            &&& t.id == id
            &&& opt_chars(t.original) == opt_chars(description)
            &&& t.need_to_update
            &&& match existing {
                Some(e) => {
                    &&& opt_chars(e.original) != opt_chars(description)
                    &&& t.translated == e.translated
                    &&& t.translated_at == e.translated_at
                },
                None => t.translated is None && t.translated_at is None,
            }
        },
{
    match existing {
        Some(e) => {
            let same = match (&e.original, &description) {
                (Some(a), Some(b)) => str_eq(a.as_str(), b.as_str()),
                (None, None) => true,
                _ => false,
            };
            if same {
                None
            } else {
                Some(Translation {
                    id,
                    translated: e.translated,
                    original: description,
                    need_to_update: true,
                    translated_at: e.translated_at,
                })
            }
        },
        None => Some(Translation {
            id,
            translated: None,
            original: description,
            need_to_update: true,
            translated_at: None,
        }),
    }
}

} // verus!
