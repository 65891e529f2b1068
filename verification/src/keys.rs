use std::collections::HashMap;
use vstd::prelude::*;

verus! {

broadcast use vstd::std_specs::hash::group_hash_axioms;

/// The keys of a map, each once, in the order the map hands them out.
pub fn key_list<V>(m: &HashMap<isize, V>) -> (v: Vec<isize>)
    ensures
        v@.to_set() == m@.dom(),
        v@.no_duplicates(),
        forall|k: isize| #[trigger] m@.contains_key(k) ==> v@.contains(k),
        forall|x: int| 0 <= x < v@.len() ==> m@.contains_key(#[trigger] v@[x]),
{
    let mut v: Vec<isize> = Vec::new();
    let ghost rem = vstd::std_specs::iter::IteratorSpec::remaining(
        &vstd::std_specs::hash::spec_keys_iter(m),
    );
    for k in it: m.keys()
        invariant
            it.seq() == rem,
            v@ == rem.take(it.index()).map_values(|r: &isize| *r),
    {
        v.push(*k);
    }
    proof {
        assert(rem.take(rem.len() as int) =~= rem);
        assert(v@ =~= rem.map_values(|r: &isize| *r));
        assert(rem.unref() =~= rem.map_values(|r: &isize| *r));
        assert forall|k: isize| #[trigger] m@.contains_key(k) implies v@.contains(k) by {
            assert(v@.to_set().contains(k));
        }
        assert forall|x: int| 0 <= x < v@.len() implies m@.contains_key(#[trigger] v@[x]) by {
            assert(v@.to_set().contains(v@[x]));
        }
    }
    v
}

} // verus!
