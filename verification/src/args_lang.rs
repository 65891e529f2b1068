use vstd::prelude::*;
use crate::text::{chars_of, is_lit, starts_with};

verus! {

broadcast use vstd::string::group_string_axioms;

/// What `str::to_lowercase` gives for a text.
pub uninterp spec fn lowercased(s: Seq<char>) -> Seq<char>;

/// A text in lower case (`str::to_lowercase`); named by `lowercased`.
#[verifier::external_body]
fn lowercase(s: &str) -> (r: String)
    ensures
        r@ == lowercased(s@),
{
    s.to_lowercase()
}

/// Whether a text names one of the languages the application has texts for: `en`, `de`.
pub open spec fn is_listed_locale(l: Seq<char>) -> bool {
    l == "en"@ || l == "de"@
}

/// The language to use: the desired one where it is listed; else the first listed one
/// that the lower-cased `LANG` setting begins with, taking the later in the list where
/// several fit; else `en`.
pub open spec fn selected_locale(desired: Option<Seq<char>>, env_lang: Option<Seq<char>>) -> Seq<char> {
    if desired matches Some(d) && is_listed_locale(d) {
        desired.unwrap()
    } else if env_lang matches Some(l) && starts_with(lowercased(l), "de"@) {
        "de"@
    } else if env_lang matches Some(l) && starts_with(lowercased(l), "en"@) {
        "en"@
    } else {
        "en"@
    }
}

/// Picks the language of the texts (see `selected_locale`) from the desired one and the
/// `LANG` setting of the environment; always gives one.
pub fn init_locales(desired: Option<String>, env_lang: Option<String>) -> (r: Option<String>)
    ensures
        r matches Some(l) && l@ == selected_locale(
            match desired { Some(d) => Some(d@), None => None },
            match env_lang { Some(e) => Some(e@), None => None },
        ),
{
    proof {
        reveal_strlit("en");
        reveal_strlit("de");
    }
    if let Some(d) = &desired {
        if is_lit(d.as_str(), "en") || is_lit(d.as_str(), "de") {
            return Some(d.clone());
        }
    }
    let mut selected: Option<String> = None;
    if let Some(lang) = &env_lang {
        let lower = chars_of(lowercase(lang.as_str()).as_str());
        let en = chars_of("en");
        let de = chars_of("de");
        proof {
            assert(lower@.skip(0) =~= lower@);
        }
        if lower.len() >= en.len() && crate::text::matches_at(&lower, 0, &en) {
            selected = Some("en".to_string());
        }
        if lower.len() >= de.len() && crate::text::matches_at(&lower, 0, &de) {
            selected = Some("de".to_string());
        }
    }
    match selected {
        Some(s) => Some(s),
        None => Some("en".to_string()),
    }
}

} // verus!
