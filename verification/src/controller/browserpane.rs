use vstd::prelude::*;
use crate::text::{append_chars, chars_of, contains_seq, contains_vec, matches_at, starts_with, string_of, trim, trim_vec};
use crate::util::{escaped_url, string_escape_url};

verus! {

broadcast use vstd::string::group_string_axioms;

/// The markup of the link above the browser: the message title linking to its address,
/// each with its ampersands escaped.
pub open spec fn link_markup(link_title: Seq<char>, link_url: Seq<char>) -> Seq<char> {
    "<a href=\""@ + escaped_url(link_url) + "\">"@ + escaped_url(link_title) + "</a>"@
}

/// The texts of the browser's info area: the link markup (see `link_markup`), then the
/// subscription title, the message date, the authors and the categories as given.
pub fn browser_info_texts(
    link_title: String,
    link_url: String,
    msg_date: String,
    msg_author: String,
    msg_categories: String,
    subscr_title: String,
) -> (r: (String, String, String, String, String))
    ensures
        r.0@ == link_markup(link_title@, link_url@),
        r.1@ == subscr_title@,
        r.2@ == msg_date@,
        r.3@ == msg_author@,
        r.4@ == msg_categories@,
{
    let mut t = chars_of("<a href=\"");
    append_chars(&mut t, &chars_of(string_escape_url(link_url).as_str()));
    append_chars(&mut t, &chars_of("\">"));
    append_chars(&mut t, &chars_of(string_escape_url(link_title).as_str()));
    append_chars(&mut t, &chars_of("</a>"));
    (string_of(&t), subscr_title, msg_date, msg_author, msg_categories)
}

/// The text before the first occurrence of `p` in `s` (all of `s` where there is none).
pub open spec fn before_first(s: Seq<char>, p: Seq<char>) -> Seq<char>
    decreases s.len(),
{
    if s.len() == 0 || starts_with(s, p) {
        Seq::empty()
    } else {
        seq![s[0]] + before_first(s.skip(1), p)
    }
}

/// The title shown above the browser: where it mentions `http`, only the trimmed text
/// before the first `http`.
pub open spec fn shown_title(title: Seq<char>) -> Seq<char> {
    if contains_seq(title, "http"@) {
        trim(before_first(title, "http"@))
    } else {
        title
    }
}

/// The title shown above the browser (see `shown_title`).
pub fn display_title(title: String) -> (r: String)
    ensures
        r@ == shown_title(title@),
{
    let t = chars_of(title.as_str());
    let p = chars_of("http");
    if !contains_vec(&t, &p) {
        return title;
    }
    let mut i: usize = 0;
    proof {
        assert(t@.skip(0) =~= t@);
        assert(t@.take(0) + before_first(t@.skip(0), p@) =~= before_first(t@, p@));
    }
    while i < t.len() && !matches_at(&t, i, &p)
        invariant
            i <= t@.len(),
            before_first(t@, p@) == t@.take(i as int) + before_first(t@.skip(i as int), p@),
        decreases t.len() - i,
    {
        proof {
            assert(t@.skip(i as int).skip(1) =~= t@.skip(i + 1));
            assert(t@.take(i + 1) =~= t@.take(i as int).push(t@[i as int]));
            assert(t@.take(i as int) + before_first(t@.skip(i as int), p@)
                =~= t@.take(i + 1) + before_first(t@.skip(i + 1), p@));
        }
        i = i + 1;
    }
    proof {
        assert(before_first(t@.skip(i as int), p@) =~= Seq::<char>::empty());
        assert(t@.take(i as int) =~= t@.subrange(0, i as int));
    }
    let pre = crate::text::slice_chars(&t, 0, i);
    string_of(&trim_vec(&pre))
}

} // verus!
