//! Plain-text notes of a topic, with markup stripped.

use vstd::prelude::*;
use crate::text::{
    chars_of, decode_entities, decode_entity_chars, string_of, strip_tag_chars, strip_tags,
    trim_chars, trimmed,
};
use crate::topic::NotesContent;

verus! {

/// The note text shown for `notes`: the plain content, trimmed, without tags,
/// with entities decoded and trimmed again; none where nothing is left.
pub open spec fn plain_notes(notes: Option<NotesContent>) -> Option<Seq<char>> {
    match notes {
        Some(n) => match n.plain {
            Some(p) => match p.content {
                Some(c) => {
                    let t = trimmed(c@);
                    let r = cleaned(t);
                    if t.len() == 0 || r.len() == 0 {
                        None
                    } else {
                        Some(r)
                    }
                },
                None => None,
            },
            None => None,
        },
        None => None,
    }
}

/// Text without tags, with entities decoded, trimmed.
pub open spec fn cleaned(s: Seq<char>) -> Seq<char> {
    trimmed(decode_entities(strip_tags(s)))
}

pub open spec fn opt_view(o: Option<String>) -> Option<Seq<char>> {
    match o {
        Some(s) => Some(s@),
        None => None,
    }
}

/// Removes tags from `s`, decodes the five entities, and trims the result.
pub fn strip_html(s: &str) -> (r: String)
    ensures
        r@ == cleaned(s@),
{
    let v = chars_of(s);
    let stripped = strip_tag_chars(&v);
    let decoded = decode_entity_chars(&stripped);
    let t = trim_chars(&decoded);
    string_of(&t)
}

/// The plain notes of a topic as they are shown, or none.
pub fn extract_plain_notes(notes: &Option<NotesContent>) -> (r: Option<String>)
    ensures
        opt_view(r) == plain_notes(*notes),
{
    match notes {
        Some(n) => match &n.plain {
            Some(p) => match &p.content {
                Some(c) => {
                    let t = string_of(&trim_chars(&chars_of(c.as_str())));
                    if t.as_str().unicode_len() == 0 {
                        None
                    } else {
                        let r = strip_html(t.as_str());
                        if r.as_str().unicode_len() == 0 {
                            None
                        } else {
                            Some(r)
                        }
                    }
                },
                None => None,
            },
            None => None,
        },
        None => None,
    }
}

} // verus!
