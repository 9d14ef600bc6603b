use vstd::prelude::*;

use crate::text::{
    chars_of, eq_ignore_case, eq_ignore_case_chars, first_index, lemma_first_index, same_chars,
    slice_of, starts_with, string_of, trim, trim_chars,
};

verus! {

pub open spec fn is_lang_stop(c: char) -> bool {
    c == '.' || c == '@'
}

/// A locale value without its encoding (`.UTF-8`) or modifier (`@latin`) suffix.
pub open spec fn lang_base(lang: Seq<char>) -> Seq<char> {
    lang.take(first_index(lang, |c: char| is_lang_stop(c)))
}

/// Whether a `Name[tag]` tag fits the current locale `lang`: the tag is the
/// locale's base, a language prefix of it followed by `_`, or longer than it
/// and starting with it. An empty tag or an empty base never fits.
pub open spec fn lang_matches(tag: Seq<char>, lang: Seq<char>) -> bool {
    let l = lang_base(lang);
    tag.len() > 0 && l.len() > 0 && (l == tag || (tag.len() < l.len() && l.take(
        tag.len() as int,
    ) == tag && l[tag.len() as int] == '_') || (l.len() <= tag.len() && tag.take(
        l.len() as int,
    ) == l))
}

/// Whether a value reads as true: `true`, `1` or `yes` after trimming, with
/// ASCII case ignored.
pub open spec fn bool_value(v: Seq<char>) -> bool {
    let t = trim(v);
    eq_ignore_case(t, "true"@) || t == "1"@ || eq_ignore_case(t, "yes"@)
}

pub fn lang_base_chars(lang: &Vec<char>) -> (r: Vec<char>)
    ensures
        r@ == lang_base(lang@),
{
    let mut i: usize = 0;
    while i < lang.len() && lang[i] != '.' && lang[i] != '@'
        invariant
            i <= lang.len(),
            forall|k: int| 0 <= k < i ==> !is_lang_stop(lang@[k]),
        decreases lang.len() - i,
    {
        i = i + 1;
    }
    proof {
        lemma_first_index(lang@, |c: char| is_lang_stop(c), i as int);
    }
    slice_of(lang, 0, i)
}

/// The locale `lang` without its encoding or modifier suffix.
pub fn normalize_lang_tag(lang: &str) -> (r: String)
    ensures
        r@ == lang_base(lang@),
{
    let v = chars_of(lang);
    let b = lang_base_chars(&v);
    string_of(&b)
}

pub fn lang_matches_chars(tag: &Vec<char>, lang: &Vec<char>) -> (r: bool)
    ensures
        r == lang_matches(tag@, lang@),
{
    let l = lang_base_chars(lang);
    if tag.len() == 0 || l.len() == 0 {
        return false;
    }
    if same_chars(&l, tag) {
        return true;
    }
    if tag.len() < l.len() && starts_with(&l, tag) && l[tag.len()] == '_' {
        return true;
    }
    starts_with(tag, &l)
}

/// Whether the tag of a `Name[tag]` key fits the current locale `lang`.
pub fn matches_lang_tag(tag: &str, lang: &str) -> (r: bool)
    ensures
        r == lang_matches(tag@, lang@),
{
    let t = chars_of(tag);
    let l = chars_of(lang);
    lang_matches_chars(&t, &l)
}

pub fn bool_value_chars(v: &Vec<char>) -> (r: bool)
    ensures
        r == bool_value(v@),
{
    let t = trim_chars(v);
    eq_ignore_case_chars(&t, &chars_of("true")) || same_chars(&t, &chars_of("1"))
        || eq_ignore_case_chars(&t, &chars_of("yes"))
}

/// Reads a boolean value: true for `true`, `1` or `yes` (trimmed, any ASCII
/// case), false for anything else.
pub fn parse_bool(value: &str) -> (r: bool)
    ensures
        r == bool_value(value@),
{
    bool_value_chars(&chars_of(value))
}

} // verus!
