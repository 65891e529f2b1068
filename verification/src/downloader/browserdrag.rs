use vstd::prelude::*;
use crate::text::{after_first, after_first_vec, chars_of, contains_seq, contains_vec, first_prefixed, matches_at, remove_chars, remove_chars_vec, replace_all, replace_vec, split_on, split_vec, string_of, trim, trim_vec};

verus! {

broadcast use vstd::string::group_string_axioms;

/// The feed address that a line of a page names, if it does: a trimmed line holding
/// `<link` and `rss` gives the value of its first space-separated part that begins with
/// `href`, taken after the first `=`, without double quotes and `>`.
pub open spec fn sloppy_url(line: Seq<char>) -> Option<Seq<char>> {
    let t = trim(line);
    if contains_seq(t, "<link"@) && contains_seq(t, "rss"@) {
        match first_prefixed(split_on(t, ' '), "href"@) {
            Some(part) => Some(remove_chars(after_first(part, '='), seq!['"', '>'])),
            None => None,
        }
    } else {
        None
    }
}

/// The feed addresses that the lines name, in line order.
pub open spec fn sloppy_urls(lines: Seq<Seq<char>>) -> Seq<Seq<char>>
    decreases lines.len(),
{
    if lines.len() == 0 {
        Seq::empty()
    } else {
        let rest = sloppy_urls(lines.drop_last());
        match sloppy_url(lines.last()) {
            Some(u) => rest.push(u),
            None => rest,
        }
    }
}

/// The feed addresses that a page names in its `<link` elements: the page is broken into
/// lines before each `<`, and each line read by `sloppy_url`.
pub open spec fn feed_urls_sloppy(page: Seq<char>) -> Seq<Seq<char>> {
    sloppy_urls(split_on(replace_all(page, "<"@, "\n<"@), '\n'))
}

/// The first part that begins with `p`, as `first_prefixed` gives it.
fn first_prefixed_vec(parts: &Vec<Vec<char>>, p: &Vec<char>) -> (r: Option<usize>)
    ensures
        match r {
            Some(j) => j < parts@.len() && first_prefixed(parts@.map_values(|v: Vec<char>| v@), p@) == Some(parts@[j as int]@),
            None => first_prefixed(parts@.map_values(|v: Vec<char>| v@), p@) is None,
        },
{
    let ghost pv = parts@.map_values(|v: Vec<char>| v@);
    let mut j: usize = 0;
    proof {
        assert(pv.skip(0) =~= pv);
    }
    while j < parts.len()
        invariant
            j <= parts@.len(),
            pv == parts@.map_values(|v: Vec<char>| v@),
            first_prefixed(pv, p@) == first_prefixed(pv.skip(j as int), p@),
        decreases parts.len() - j,
    {
        proof {
            assert(pv.skip(j as int).skip(1) =~= pv.skip(j + 1));
            assert(pv.skip(j as int)[0] == parts@[j as int]@);
            assert(parts@[j as int]@.skip(0) =~= parts@[j as int]@);
        }
        if matches_at(&parts[j], 0, p) {
            return Some(j);
        }
        j = j + 1;
    }
    proof {
        assert(pv.skip(j as int) =~= Seq::<Seq<char>>::empty());
    }
    None
}

/// The feed address that a line names, as `sloppy_url` reads it.
fn sloppy_url_of(line: &Vec<char>) -> (r: Option<String>)
    ensures
        match r {
            Some(u) => sloppy_url(line@) == Some(u@),
            None => sloppy_url(line@) is None,
        },
{
    let t = trim_vec(line);
    let link = chars_of("<link");
    let rss = chars_of("rss");
    proof {
        reveal_strlit("<link");
        reveal_strlit("rss");
        reveal_strlit("href");
    }
    if !contains_vec(&t, &link) || !contains_vec(&t, &rss) {
        return None;
    }
    let parts = split_vec(&t, ' ');
    proof {
        assert(parts@.map_values(|v: Vec<char>| v@) =~= split_on(t@, ' '));
    }
    let href = chars_of("href");
    match first_prefixed_vec(&parts, &href) {
        Some(j) => {
            let value = after_first_vec(&parts[j], '=');
            let mut drop: Vec<char> = Vec::new();
            drop.push('"');
            drop.push('>');
            proof {
                assert(drop@ =~= seq!['"', '>']);
            }
            let u = remove_chars_vec(&value, &drop);
            Some(string_of(&u))
        },
        None => None,
    }
}

/// The feed addresses that a page names in `<link` elements that mention `rss`, found by
/// reading the page line by line rather than parsing it.
pub fn extract_feed_urls_sloppy(pagetext: &str) -> (r: Vec<String>)
    ensures
        r@.len() == feed_urls_sloppy(pagetext@).len(),
        forall|k: int| 0 <= k < r@.len() ==> #[trigger] r@[k]@ == feed_urls_sloppy(pagetext@)[k],
{
    let page = chars_of(pagetext);
    let lt = chars_of("<");
    let nl_lt = chars_of("\n<");
    let separated = replace_vec(&page, &lt, &nl_lt);
    let lines = split_vec(&separated, '\n');
    let ghost lv = split_on(replace_all(pagetext@, "<"@, "\n<"@), '\n');
    let mut found: Vec<String> = Vec::new();
    let mut i: usize = 0;
    proof {
        assert(lines@.map_values(|v: Vec<char>| v@) =~= lv);
        assert(lv.take(0) =~= Seq::<Seq<char>>::empty());
    }
    while i < lines.len()
        invariant
            i <= lines@.len(),
            lines@.len() == lv.len(),
            forall|k: int| 0 <= k < lines@.len() ==> #[trigger] lines@[k]@ == lv[k],
            found@.len() == sloppy_urls(lv.take(i as int)).len(),
            forall|k: int| 0 <= k < found@.len() ==> #[trigger] found@[k]@ == sloppy_urls(lv.take(i as int))[k],
        decreases lines.len() - i,
    {
        proof {
            assert(lv.take(i + 1).drop_last() =~= lv.take(i as int));
            assert(lv.take(i + 1).last() == lines@[i as int]@);
        }
        match sloppy_url_of(&lines[i]) {
            Some(u) => {
                found.push(u);
            },
            None => {},
        }
        i = i + 1;
    }
    proof {
        assert(lv.take(i as int) =~= lv);
    }
    found
}

} // verus!
