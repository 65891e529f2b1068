use vstd::prelude::*;
use crate::text::{append_chars, chars_of, starts_with, string_of};

verus! {

broadcast use vstd::string::group_string_axioms;

/// The file that stands for an address: the base folder followed by the address, with a
/// leading `http://localhost/` taken off.
pub open spec fn local_path(base_folder: Seq<char>, url: Seq<char>) -> Seq<char> {
    let rest = if starts_with(url, "http://localhost/"@) { url.skip("http://localhost/"@.len() as int) } else { url };
    base_folder + rest
}

/// The file that stands for an address (see `local_path`).
pub fn local_file_path(base_folder: &str, url: &str) -> (r: String)
    ensures
        r@ == local_path(base_folder@, url@),
{
    let u = chars_of(url);
    let pre = chars_of("http://localhost/");
    proof {
        assert(u@.skip(0) =~= u@);
    }
    let mut r = chars_of(base_folder);
    if u.len() >= pre.len() && crate::text::matches_at(&u, 0, &pre) {
        let rest = crate::text::slice_chars(&u, pre.len(), u.len());
        proof {
            assert(rest@ =~= u@.skip(pre@.len() as int));
        }
        append_chars(&mut r, &rest);
    } else {
        append_chars(&mut r, &u);
    }
    string_of(&r)
}

} // verus!
