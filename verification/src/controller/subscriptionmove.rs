use vstd::prelude::*;
use crate::db::subscription_entry::{same_subscription, SubscriptionEntry};
use crate::text::{append_chars, chars_of, string_of, trim_vec};
use crate::controller::sourcetree::{path_debug, path_debug_of};
use crate::util::{filter_by_iso8859_1, iso8859_1_encoded, remove_invalid_chars_from_input, sanitized};
use crate::db::subscription_state::{id_with_path, path_of, ISubscriptionState, SubsMapEntry, SubscriptionState};
use crate::db::subscription_entry::mask_applied;

verus! {

/// `i` is the first place in `entries` that holds the subscription `id`.
pub open spec fn first_index_of(entries: Seq<SubscriptionEntry>, id: isize, i: int) -> bool {
    &&& 0 <= i < entries.len()
    &&& entries[i].subs_id == id
    &&& forall|j: int| 0 <= j < i ==> entries[j].subs_id != id
}

/// The stored subscription with this id (the first one with it in the list).
pub open spec fn entry_by_id(entries: Seq<SubscriptionEntry>, id: isize) -> Option<SubscriptionEntry> {
    if exists|i: int| 0 <= i < entries.len() && entries[i].subs_id == id {
        Some(entries[choose|i: int| first_index_of(entries, id, i)])
    } else {
        None
    }
}

/// The stored subscription at a tree path: the one whose id the state gives for the path.
pub open spec fn entry_at_path(m: Map<isize, SubsMapEntry>, entries: Seq<SubscriptionEntry>, p: Seq<u16>) -> Option<SubscriptionEntry> {
    match id_with_path(m, p) {
        Some(id) => entry_by_id(entries, id),
        None => None,
    }
}

/// Both absent, or both present with the same values.
pub open spec fn same_found(a: Option<SubscriptionEntry>, b: Option<SubscriptionEntry>) -> bool {
    match (a, b) {
        (Some(x), Some(y)) => same_subscription(x, y),
        (None, None) => true,
        _ => false,
    }
}

/// The subscription found by id is one of the list.
pub proof fn lemma_entry_by_id_stored(entries: Seq<SubscriptionEntry>, id: isize)
    requires
        exists|i: int| 0 <= i < entries.len() && entries[i].subs_id == id,
    ensures
        first_index_of(entries, id, choose|i: int| first_index_of(entries, id, i)),
{
    let k = choose|i: int| 0 <= i < entries.len() && entries[i].subs_id == id;
    lemma_first_index_exists(entries, id, k);
}

/// Where a list holds an id, some place holds it first.
proof fn lemma_first_index_exists(entries: Seq<SubscriptionEntry>, id: isize, k: int)
    requires
        0 <= k < entries.len(),
        entries[k].subs_id == id,
    ensures
        exists|i: int| first_index_of(entries, id, i),
    decreases k,
{
    if exists|j: int| 0 <= j < k && entries[j].subs_id == id {
        let j = choose|j: int| 0 <= j < k && entries[j].subs_id == id;
        lemma_first_index_exists(entries, id, j);
    } else {
        assert(first_index_of(entries, id, k));
    }
}

/// Looks a subscription up by id in the stored list.
pub fn get_by_index(entries: &[SubscriptionEntry], id: isize) -> (r: Option<SubscriptionEntry>)
    ensures
        same_found(r, entry_by_id(entries@, id)),
{
    let mut i: usize = 0;
    while i < entries.len()
        invariant
            i <= entries.len(),
            forall|j: int| 0 <= j < i ==> entries@[j].subs_id != id,
        decreases entries.len() - i,
    {
        if entries[i].subs_id == id {
            proof {
                assert(first_index_of(entries@, id, i as int));
                let c = choose|c: int| first_index_of(entries@, id, c);
                assert(first_index_of(entries@, id, c));
                if c < i {
                    assert(entries@[c].subs_id != id);
                }
                if c > i {
                    assert(entries@[i as int].subs_id != id);
                }
            }
            return Some(entries[i].duplicate());
        }
        i = i + 1;
    }
    None
}


/// Where a subscription dragged from the tree path `from` onto the tree path `to` goes:
/// the dragged entry, the id of its new parent, and its position there.
///
/// Dropping onto an entry puts the dragged one at that entry's place, unless the entry is a
/// child of the dragged one. Where no entry is at `to`, the parent of `to` is taken (or,
/// that missing too, the grandparent), which must be a folder, and the dragged entry goes
/// first into it; where neither is known, the entry before `to` is taken, and the dragged
/// one goes right after it.
pub open spec fn drag_target(m: Map<isize, SubsMapEntry>, entries: Seq<SubscriptionEntry>, from: Seq<u16>, to: Seq<u16>) -> Option<(SubscriptionEntry, isize, int)> {
    let from_e = entry_at_path(m, entries, from);
    let parent_path = if to.len() > 0 { to.drop_last() } else { Seq::<u16>::empty() };
    let prev_path = if to.len() > 0 && to.last() > 0 {
        to.drop_last().push((to.last() - 1) as u16)
    } else {
        Seq::<u16>::empty()
    };
    let parent0 = if to.len() > 0 { entry_at_path(m, entries, parent_path) } else { None };
    let parent = if parent0 is None && parent_path.len() > 0 {
        entry_at_path(m, entries, parent_path.drop_last())
    } else {
        parent0
    };
    let direct = entry_at_path(m, entries, to);
    let prev = if direct is None && parent is None { entry_at_path(m, entries, prev_path) } else { None };
    match from_e {
        None => None,
        Some(f) => match direct {
            Some(d) => if f.subs_id == d.parent_subs_id {
                None
            } else {
                Some((f, d.parent_subs_id, d.folder_position as int))
            },
            None => match parent {
                Some(pe) => if pe.is_folder { Some((f, pe.subs_id, 0)) } else { None },
                None => match prev {
                    Some(pv) => Some((f, pv.parent_subs_id, pv.folder_position + 1)),
                    None => None,
                },
            },
        },
    }
}

/// Whether the drag would place the subscription after an entry whose folder position is
/// already the largest one an `isize` holds: the one drag whose position cannot be
/// counted.
pub open spec fn drag_overflows(m: Map<isize, SubsMapEntry>, entries: Seq<SubscriptionEntry>, from: Seq<u16>, to: Seq<u16>) -> bool {
    let parent_path = if to.len() > 0 { to.drop_last() } else { Seq::<u16>::empty() };
    let prev_path = if to.len() > 0 && to.last() > 0 {
        to.drop_last().push((to.last() - 1) as u16)
    } else {
        Seq::<u16>::empty()
    };
    let parent0 = if to.len() > 0 { entry_at_path(m, entries, parent_path) } else { None };
    let parent = if parent0 is None && parent_path.len() > 0 {
        entry_at_path(m, entries, parent_path.drop_last())
    } else {
        parent0
    };
    &&& entry_at_path(m, entries, from) is Some
    &&& entry_at_path(m, entries, to) is None
    &&& parent is None
    &&& entry_at_path(m, entries, prev_path) matches Some(pv) && pv.folder_position == isize::MAX
}

/// No stored folder position is at the top of its range.
pub open spec fn positions_bounded(entries: Seq<SubscriptionEntry>) -> bool {
    forall|i: int| 0 <= i < entries.len() ==> #[trigger] entries[i].folder_position < isize::MAX
}

/// A path without its last element.
fn path_parent(p: &[u16]) -> (r: Vec<u16>)
    requires
        p@.len() > 0,
    ensures
        r@ == p@.drop_last(),
{
    let mut r: Vec<u16> = Vec::new();
    let n: usize = p.len() - 1;
    let mut i: usize = 0;
    while i < n
        invariant
            n == p@.len() - 1,
            i <= n,
            r@ == p@.take(i as int),
        decreases p.len() - i,
    {
        r.push(p[i]);
        proof {
            assert(p@.take(i + 1) =~= p@.take(i as int).push(p@[i as int]));
        }
        i = i + 1;
    }
    proof {
        assert(p@.take(i as int) =~= p@.drop_last());
    }
    r
}

/// A change of the stored place of a subscription: its folder position, and where the
/// parent changes too, the new parent.
#[derive(Clone, Copy, Debug, PartialEq, Eq, Structural)]
pub struct PositionUpdate {
    pub subs_id: isize,
    pub parent_subs_id: Option<isize>,
    pub folder_position: isize,
}

/// The changes that number the siblings `list` 0, 1, 2, .. in their order: one for each
/// entry not at its index yet, in list order.
pub open spec fn renumbered(list: Seq<SubscriptionEntry>) -> Seq<PositionUpdate>
    decreases list.len(),
{
    if list.len() == 0 {
        Seq::empty()
    } else {
        let n = list.len() - 1;
        let rest = renumbered(list.drop_last());
        if list[n].folder_position != n {
            rest.push(PositionUpdate { subs_id: list[n].subs_id, parent_subs_id: None, folder_position: n as isize })
        } else {
            rest
        }
    }
}

/// The changes that put the siblings `list` at positions 0, 1, 2, .. and the entry
/// `moved_id` under `to_parent`: that one always changes, the others where not at their
/// index yet.
pub open spec fn placed(list: Seq<SubscriptionEntry>, moved_id: isize, to_parent: isize) -> Seq<PositionUpdate>
    decreases list.len(),
{
    if list.len() == 0 {
        Seq::empty()
    } else {
        let n = list.len() - 1;
        let rest = placed(list.drop_last(), moved_id, to_parent);
        if list[n].subs_id == moved_id {
            rest.push(PositionUpdate { subs_id: moved_id, parent_subs_id: Some(to_parent), folder_position: n as isize })
        } else if list[n].folder_position != n {
            rest.push(PositionUpdate { subs_id: list[n].subs_id, parent_subs_id: None, folder_position: n as isize })
        } else {
            rest
        }
    }
}

/// The index at which a dragged entry goes into its new siblings: the target position,
/// one less where it moves down within the same parent, and at most behind the last one.
pub open spec fn drag_index(from: SubscriptionEntry, to_parent_id: isize, to_folderpos: int, dest_len: int) -> int {
    let lim = if from.parent_subs_id == to_parent_id && to_folderpos > from.folder_position {
        to_folderpos - 1
    } else {
        to_folderpos
    };
    if lim > dest_len { dest_len } else { lim }
}

/// The siblings with the dragged entry put in at `idx`.
pub open spec fn with_inserted(list: Seq<SubscriptionEntry>, idx: int, e: SubscriptionEntry) -> Seq<SubscriptionEntry> {
    list.take(idx) + seq![e] + list.skip(idx)
}

/// Each entry of `list` ends up at its index once `ups` are applied: it is there already,
/// or a change puts it there.
pub open spec fn all_at_index(list: Seq<SubscriptionEntry>, ups: Seq<PositionUpdate>, moved_id: isize, to_parent: isize) -> bool {
    forall|n: int| 0 <= n < list.len() ==> {
        if list[n].subs_id == moved_id {
            ups.contains(PositionUpdate { subs_id: moved_id, parent_subs_id: Some(to_parent), folder_position: n as isize })
        } else {
            list[n].folder_position == n
                || ups.contains(PositionUpdate { subs_id: list[n].subs_id, parent_subs_id: None, folder_position: n as isize })
        }
    }
}

/// Each change refers to an entry of `list`, and to the index that entry has there.
pub open spec fn changes_within(list: Seq<SubscriptionEntry>, ups: Seq<PositionUpdate>) -> bool {
    forall|k: int| 0 <= k < ups.len() ==> exists|n: int| 0 <= n < list.len()
        && #[trigger] ups[k].subs_id == list[n].subs_id && ups[k].folder_position == n as isize
}

/// Renumbering puts each child at its index, and changes nothing else.
pub proof fn lemma_renumbered_puts_all(list: Seq<SubscriptionEntry>)
    ensures
        forall|n: int| 0 <= n < list.len() ==> list[n].folder_position == n
            || renumbered(list).contains(PositionUpdate { subs_id: list[n].subs_id, parent_subs_id: None, folder_position: n as isize }),
        changes_within(list, renumbered(list)),
    decreases list.len(),
{
    if list.len() > 0 {
        let pre = list.drop_last();
        let last = list.len() - 1;
        lemma_renumbered_puts_all(pre);
        let rest = renumbered(pre);
        let u = PositionUpdate { subs_id: list[last].subs_id, parent_subs_id: None, folder_position: last as isize };
        assert forall|n: int| 0 <= n < list.len() implies list[n].folder_position == n
            || renumbered(list).contains(PositionUpdate { subs_id: list[n].subs_id, parent_subs_id: None, folder_position: n as isize }) by {
            if n < last {
                assert(pre[n] == list[n]);
                if rest.contains(PositionUpdate { subs_id: list[n].subs_id, parent_subs_id: None, folder_position: n as isize }) {
                    let k = choose|k: int| 0 <= k < rest.len() && rest[k] == PositionUpdate { subs_id: list[n].subs_id, parent_subs_id: None, folder_position: n as isize };
                    if list[last].folder_position != last {
                        assert(rest.push(u)[k] == rest[k]);
                    }
                }
            } else if list[last].folder_position != last {
                assert(rest.push(u)[rest.len() as int] == u);
            }
        }
        assert forall|k: int| 0 <= k < renumbered(list).len() implies exists|n: int| 0 <= n < list.len()
            && #[trigger] renumbered(list)[k].subs_id == list[n].subs_id && renumbered(list)[k].folder_position == n as isize by {
            if k < rest.len() {
                let n = choose|n: int| 0 <= n < pre.len() && #[trigger] rest[k].subs_id == pre[n].subs_id && rest[k].folder_position == n as isize;
                assert(pre[n] == list[n]);
                if list[last].folder_position != last {
                    assert(rest.push(u)[k] == rest[k]);
                }
            } else {
                assert(renumbered(list)[k] == u);
                assert(u.subs_id == list[last].subs_id);
            }
        }
    }
}

/// Placing the dragged entry puts it under its new parent at its index, puts each other
/// sibling at its index, and changes nothing else.
pub proof fn lemma_placed_puts_all(list: Seq<SubscriptionEntry>, moved_id: isize, to_parent: isize)
    ensures
        all_at_index(list, placed(list, moved_id, to_parent), moved_id, to_parent),
        changes_within(list, placed(list, moved_id, to_parent)),
    decreases list.len(),
{
    if list.len() > 0 {
        let pre = list.drop_last();
        let last = list.len() - 1;
        lemma_placed_puts_all(pre, moved_id, to_parent);
        let rest = placed(pre, moved_id, to_parent);
        let all = placed(list, moved_id, to_parent);
        assert(all.len() == rest.len() || all.len() == rest.len() + 1);
        assert forall|k: int| 0 <= k < rest.len() implies all[k] == rest[k] by {
        }
        assert forall|n: int| 0 <= n < list.len() implies {
            if list[n].subs_id == moved_id {
                all.contains(PositionUpdate { subs_id: moved_id, parent_subs_id: Some(to_parent), folder_position: n as isize })
            } else {
                list[n].folder_position == n
                    || all.contains(PositionUpdate { subs_id: list[n].subs_id, parent_subs_id: None, folder_position: n as isize })
            }
        } by {
            if n < last {
                assert(pre[n] == list[n]);
                if list[n].subs_id == moved_id {
                    let w = PositionUpdate { subs_id: moved_id, parent_subs_id: Some(to_parent), folder_position: n as isize };
                    let k = choose|k: int| 0 <= k < rest.len() && rest[k] == w;
                    assert(all[k] == w);
                } else if list[n].folder_position != n {
                    let w = PositionUpdate { subs_id: list[n].subs_id, parent_subs_id: None, folder_position: n as isize };
                    let k = choose|k: int| 0 <= k < rest.len() && rest[k] == w;
                    assert(all[k] == w);
                }
            } else {
                if list[last].subs_id == moved_id || list[last].folder_position != last {
                    assert(all[rest.len() as int] == all.last());
                }
            }
        }
        assert forall|k: int| 0 <= k < all.len() implies exists|n: int| 0 <= n < list.len()
            && #[trigger] all[k].subs_id == list[n].subs_id && all[k].folder_position == n as isize by {
            if k < rest.len() {
                let n = choose|n: int| 0 <= n < pre.len() && #[trigger] rest[k].subs_id == pre[n].subs_id && rest[k].folder_position == n as isize;
                assert(pre[n] == list[n]);
            } else {
                assert(all[k].subs_id == list[last].subs_id);
            }
        }
    }
}

/// The changes that number the children of a folder 0, 1, 2, .. in the order given.
pub fn resort_parent_list(children: &[SubscriptionEntry]) -> (r: Vec<PositionUpdate>)
    requires
        children@.len() < isize::MAX,
    ensures
        r@ == renumbered(children@),
{
    let mut r: Vec<PositionUpdate> = Vec::new();
    let mut n: usize = 0;
    proof {
        assert(children@.take(0) =~= Seq::<SubscriptionEntry>::empty());
    }
    while n < children.len()
        invariant
            n <= children.len(),
            children@.len() < isize::MAX,
            r@ == renumbered(children@.take(n as int)),
        decreases children.len() - n,
    {
        proof {
            assert(children@.take(n + 1).drop_last() =~= children@.take(n as int));
        }
        if children[n].folder_position != n as isize {
            r.push(PositionUpdate { subs_id: children[n].subs_id, parent_subs_id: None, folder_position: n as isize });
        }
        n = n + 1;
    }
    proof {
        assert(children@.take(n as int) =~= children@);
    }
    r
}

/// The changes that put a dragged entry into the children `to_list` of its new parent, at
/// the index `drag_index`, and number the children anew.
pub fn drag_move(from_entry: &SubscriptionEntry, to_parent_id: isize, to_folderpos: isize, to_list: &[SubscriptionEntry]) -> (r: Vec<PositionUpdate>)
    requires
        0 <= drag_index(*from_entry, to_parent_id, to_folderpos as int, to_list@.len() as int),
        to_list@.len() < isize::MAX,
    ensures
        r@ == placed(with_inserted(to_list@, drag_index(*from_entry, to_parent_id, to_folderpos as int, to_list@.len() as int), *from_entry), from_entry.subs_id, to_parent_id),
{
    let mut lim: isize = to_folderpos;
    if from_entry.parent_subs_id == to_parent_id && to_folderpos > from_entry.folder_position {
        lim = to_folderpos - 1;
    }
    let len: usize = to_list.len();
    if lim > len as isize {
        lim = len as isize;
    }
    let idx: usize = lim as usize;
    let ghost big = with_inserted(to_list@, idx as int, *from_entry);
    let mut r: Vec<PositionUpdate> = Vec::new();
    let mut n: usize = 0;
    proof {
        assert(big.take(0) =~= Seq::<SubscriptionEntry>::empty());
        assert(big.len() == len + 1);
    }
    while n <= len
        invariant
            n <= len + 1,
            idx <= len,
            len == to_list@.len(),
            len < isize::MAX,
            big == with_inserted(to_list@, idx as int, *from_entry),
            big.len() == len + 1,
            r@ == placed(big.take(n as int), from_entry.subs_id, to_parent_id),
        decreases len + 1 - n,
    {
        let (id, pos) = if n < idx {
            (to_list[n].subs_id, to_list[n].folder_position)
        } else if n == idx {
            (from_entry.subs_id, from_entry.folder_position)
        } else {
            (to_list[n - 1].subs_id, to_list[n - 1].folder_position)
        };
        proof {
            assert(big.take(n + 1).drop_last() =~= big.take(n as int));
            assert(big[n as int].subs_id == id && big[n as int].folder_position == pos);
        }
        if id == from_entry.subs_id {
            r.push(PositionUpdate { subs_id: id, parent_subs_id: Some(to_parent_id), folder_position: n as isize });
        } else if pos != n as isize {
            r.push(PositionUpdate { subs_id: id, parent_subs_id: None, folder_position: n as isize });
        }
        n = n + 1;
    }
    proof {
        assert(big.take(n as int) =~= big);
    }
    r
}

/// The next id for a new subscription: above the highest stored one, at least 10, and
/// above the highest that messages refer to; 0 (the database picks it) where no message
/// refers to one as high.
pub fn get_next_available_subscription_id(subs_repo_highest: isize, msg_max_src_index: isize) -> (r: isize)
    requires
        subs_repo_highest < isize::MAX,
        msg_max_src_index < isize::MAX,
    ensures
        ({
            let next = if subs_repo_highest + 1 > 10 { subs_repo_highest + 1 } else { 10 };
            r == if msg_max_src_index >= next { msg_max_src_index + 1 } else { 0 }
        }),
{
    let mut next_subs_id: isize = if subs_repo_highest + 1 > 10 { subs_repo_highest + 1 } else { 10 };
    if msg_max_src_index >= next_subs_id {
        next_subs_id = msg_max_src_index + 1;
    } else {
        next_subs_id = 0;
    }
    next_subs_id
}

/// The highest folder position among the siblings, if there are any.
pub open spec fn max_position(list: Seq<SubscriptionEntry>) -> Option<isize>
    decreases list.len(),
{
    if list.len() == 0 {
        None
    } else {
        let p = list.last().folder_position;
        match max_position(list.drop_last()) {
            None => Some(p),
            Some(m) => Some(if p > m { p } else { m }),
        }
    }
}

/// The folder position for an entry added behind the siblings: one above the highest, or
/// 0 where there are none.
pub open spec fn next_position(list: Seq<SubscriptionEntry>) -> isize {
    match max_position(list) {
        Some(m) => (m + 1) as isize,
        None => 0,
    }
}

/// The folder position for an entry added behind the given siblings.
pub fn next_folder_position(siblings: &[SubscriptionEntry]) -> (r: isize)
    requires
        positions_bounded(siblings@),
    ensures
        r == next_position(siblings@),
{
    let mut cur: Option<isize> = None;
    let mut i: usize = 0;
    proof {
        assert(siblings@.take(0) =~= Seq::<SubscriptionEntry>::empty());
    }
    while i < siblings.len()
        invariant
            i <= siblings.len(),
            positions_bounded(siblings@),
            cur == max_position(siblings@.take(i as int)),
            cur matches Some(m) ==> m < isize::MAX,
        decreases siblings.len() - i,
    {
        proof {
            assert(siblings@.take(i + 1).drop_last() =~= siblings@.take(i as int));
            assert(siblings@.take(i + 1).last() == siblings@[i as int]);
        }
        let p = siblings[i].folder_position;
        cur = match cur {
            None => Some(p),
            Some(m) => Some(if p > m { p } else { m }),
        };
        i = i + 1;
    }
    proof {
        assert(siblings@.take(i as int) =~= siblings@);
    }
    match cur {
        Some(m) => m + 1,
        None => 0,
    }
}

/// The text trimmed at both ends.
fn trimmed(s: String) -> (r: String)
    ensures
        r@ == crate::text::trim(s@),
{
    let v = chars_of(s.as_str());
    let t = trim_vec(&v);
    string_of(&t)
}

/// The folder to store for a new folder under `parent_id`: expanded, behind its siblings,
/// with the given id and icon.
pub fn add_new_folder_at_parent(folder_name: String, parent_id: isize, siblings: &[SubscriptionEntry], next_id: isize, folder_icon_id: usize) -> (r: SubscriptionEntry)
    requires
        positions_bounded(siblings@),
    ensures
        r.subs_id == next_id && r.parent_subs_id == parent_id && r.is_folder,
        r.display_name@ == folder_name@ && r.url@ == Seq::<char>::empty() && r.icon_id == folder_icon_id,
        r.folder_position == next_position(siblings@) && r.expanded,
        r.updated_ext == 0 && r.updated_int == 0 && r.updated_icon == 0,
        r.website_url@ == Seq::<char>::empty() && r.last_selected_msg == -1,
        r.num_msg_all_unread is None && r.status == 0 && r.tree_path is None && r.is_dirty && !r.deleted,
{
    let mut fse = SubscriptionEntry::from_new_foldername(folder_name, parent_id, folder_icon_id);
    fse.expanded = true;
    fse.folder_position = next_folder_position(siblings);
    fse.subs_id = next_id;
    fse
}

/// The subscription to store for a new feed under `parent_id`, behind its siblings, and
/// whether its title held text that ISO 8859-1 cannot carry. The address and the title are
/// cleaned of quotes, line breaks and character references and trimmed; the title is
/// filtered through ISO 8859-1 where that loses nothing, else kept as it is.
pub fn add_new_subscription_at_parent(newsource: String, display: String, parent_id: isize, siblings: &[SubscriptionEntry], next_id: isize, feed_icon_id: usize) -> (r: (SubscriptionEntry, bool))
    requires
        positions_bounded(siblings@),
    ensures
        r.1 == !vstd::utf8::valid_utf8(iso8859_1_encoded(crate::text::trim(sanitized(display@)))),
        r.0.display_name@ == if r.1 {
            crate::text::trim(sanitized(display@))
        } else {
            vstd::utf8::decode_utf8(iso8859_1_encoded(crate::text::trim(sanitized(display@))))
        },
        r.0.url@ == crate::text::trim(sanitized(newsource@)),
        r.0.subs_id == next_id && r.0.parent_subs_id == parent_id && !r.0.is_folder,
        r.0.icon_id == feed_icon_id && r.0.folder_position == next_position(siblings@),
        r.0.updated_ext == 0 && r.0.updated_int == 0 && r.0.updated_icon == 0 && !r.0.expanded,
        r.0.website_url@ == Seq::<char>::empty() && r.0.last_selected_msg == -1,
        r.0.num_msg_all_unread is None && r.0.status == 0 && r.0.tree_path is None && r.0.is_dirty && !r.0.deleted,
{
    let san_source = trimmed(remove_invalid_chars_from_input(newsource));
    let mut san_display = trimmed(remove_invalid_chars_from_input(display));
    let (filtered, was_truncated) = filter_by_iso8859_1(san_display.as_str());
    if !was_truncated {
        san_display = filtered;
    }
    let mut fse = SubscriptionEntry::from_new_url(san_display, san_source, feed_icon_id);
    fse.subs_id = next_id;
    fse.parent_subs_id = parent_id;
    fse.folder_position = next_folder_position(siblings);
    (fse, was_truncated)
}

/// How many of the first `k` entries have the parent `parent`.
pub open spec fn count_with_parent(es: Seq<SubscriptionEntry>, parent: isize, k: int) -> nat
    decreases k,
{
    if k <= 0 {
        0
    } else {
        count_with_parent(es, parent, k - 1) + if es[k - 1].parent_subs_id == parent { 1nat } else { 0nat }
    }
}

/// The place of entry `i` among its siblings: how many entries before it in the list have
/// the same parent.
pub open spec fn sibling_index(es: Seq<SubscriptionEntry>, i: int) -> nat {
    count_with_parent(es, es[i].parent_subs_id, i)
}

/// The place in the list of the entry with id `id`, where there is one.
pub open spec fn place_of(es: Seq<SubscriptionEntry>, id: isize) -> Option<int> {
    if exists|i: int| 0 <= i < es.len() && es[i].subs_id == id {
        Some(choose|i: int| first_index_of(es, id, i))
    } else {
        None
    }
}

/// The tree path of entry `i`: its places among the siblings along the chain of its
/// parents, from the top level (parent 0) down; `None` where the chain does not reach the
/// top level within `fuel` steps.
pub open spec fn chain_path(es: Seq<SubscriptionEntry>, i: int, fuel: nat) -> Option<Seq<u16>>
    decreases fuel,
{
    if fuel == 0 {
        None
    } else {
        let here = sibling_index(es, i) as u16;
        if es[i].parent_subs_id == 0 {
            Some(seq![here])
        } else {
            match place_of(es, es[i].parent_subs_id) {
                Some(p) => match chain_path(es, p, (fuel - 1) as nat) {
                    Some(pp) => Some(pp.push(here)),
                    None => None,
                },
                None => None,
            }
        }
    }
}

/// The ids are as the store keeps them: no two entries have the same id, and each is
/// above 0 and within the range of `i32`.
pub open spec fn ids_unique(es: Seq<SubscriptionEntry>) -> bool {
    &&& forall|a: int, b: int| 0 <= a < es.len() && 0 <= b < es.len() && a != b ==> #[trigger] es[a].subs_id != #[trigger] es[b].subs_id
    &&& forall|a: int| 0 <= a < es.len() ==> 0 < #[trigger] es[a].subs_id <= i32::MAX
}

/// The entry `i` reaches the top level, within as many steps as there are entries.
pub open spec fn reached(es: Seq<SubscriptionEntry>, i: int) -> bool {
    chain_path(es, i, es.len()) is Some
}

/// The tree state after the paths of the entries that reach the top level were recorded:
/// each of them has its path (see `chain_path`) and is not deleted; one new to the state
/// has the folder flag of its entry and no counts. Other ids keep their state.
pub open spec fn paths_recorded(old_m: Map<isize, SubsMapEntry>, m: Map<isize, SubsMapEntry>, es: Seq<SubscriptionEntry>, k: int) -> bool {
    &&& forall|id: isize| #[trigger] m.contains_key(id)
        <==> (old_m.contains_key(id) || exists|i: int| 0 <= i < k && es[i].subs_id == id && reached(es, i))
    &&& forall|i: int| 0 <= i < k && reached(es, i) ==> {
        let id = es[i].subs_id;
        let e = #[trigger] m[es[i].subs_id];
        &&& path_of(e) == chain_path(es, i, es.len())
        &&& e.status == mask_applied(if old_m.contains_key(id) { old_m[id].status } else { mask_applied(0, 256, es[i].is_folder) }, 512, false)
        &&& e.num_msg_all_unread == if old_m.contains_key(id) { old_m[id].num_msg_all_unread } else { None }
    }
    &&& forall|id: isize| #[trigger] old_m.contains_key(id) && !(exists|i: int| 0 <= i < k && es[i].subs_id == id && reached(es, i))
        ==> m[id] == old_m[id]
}

/// A list holds at most one first place of an id.
proof fn lemma_first_index_unique(es: Seq<SubscriptionEntry>, id: isize, a: int, b: int)
    requires
        first_index_of(es, id, a),
        first_index_of(es, id, b),
    ensures
        a == b,
{
}

/// The place among its siblings of entry `i` (see `sibling_index`).
fn sibling_index_of(es: &[SubscriptionEntry], i: usize) -> (r: usize)
    requires
        i < es@.len(),
    ensures
        r == sibling_index(es@, i as int),
{
    let parent = es[i].parent_subs_id;
    let mut c: usize = 0;
    let mut j: usize = 0;
    while j < i
        invariant
            i < es@.len(),
            parent == es@[i as int].parent_subs_id,
            j <= i,
            c == count_with_parent(es@, parent, j as int),
            c <= j,
        decreases i - j,
    {
        if es[j].parent_subs_id == parent {
            c = c + 1;
        }
        j = j + 1;
    }
    c
}

/// The place in the list of the entry with id `id` (see `place_of`).
fn place_of_id(es: &[SubscriptionEntry], id: isize) -> (r: Option<usize>)
    ensures
        match r {
            Some(p) => place_of(es@, id) == Some(p as int) && p < es@.len(),
            None => place_of(es@, id) is None,
        },
{
    let mut i: usize = 0;
    while i < es.len()
        invariant
            i <= es@.len(),
            forall|j: int| 0 <= j < i ==> es@[j].subs_id != id,
        decreases es.len() - i,
    {
        if es[i].subs_id == id {
            proof {
                assert(first_index_of(es@, id, i as int));
                lemma_entry_by_id_stored(es@, id);
                lemma_first_index_unique(es@, id, i as int, choose|k: int| first_index_of(es@, id, k));
            }
            return Some(i);
        }
        i = i + 1;
    }
    None
}

/// The tree path of entry `i` (see `chain_path`).
fn chain_path_of(es: &[SubscriptionEntry], i: usize, fuel: usize) -> (r: Option<Vec<u16>>)
    requires
        i < es@.len(),
    ensures
        match r {
            Some(p) => chain_path(es@, i as int, fuel as nat) == Some(p@),
            None => chain_path(es@, i as int, fuel as nat) is None,
        },
    decreases fuel,
{
    if fuel == 0 {
        return None;
    }
    let sib = sibling_index_of(es, i);
    let here = sib as u16;
    proof {
        assert(here == (sibling_index(es@, i as int) as u16));
    }
    if es[i].parent_subs_id == 0 {
        let v: Vec<u16> = vec![here];
        proof {
            assert(v@ =~= seq![here]);
        }
        return Some(v);
    }
    match place_of_id(es, es[i].parent_subs_id) {
        Some(p) => match chain_path_of(es, p, fuel - 1) {
            Some(mut pp) => {
                pp.push(here);
                Some(pp)
            },
            None => None,
        },
        None => None,
    }
}

/// Moves subscriptions within the tree of subscriptions and folders, and keeps the state
/// of the tree (paths, flags) with it.
pub struct SubscriptionMove {
    statemap: SubscriptionState,
    need_check_fs_paths: bool,
    feedsource_delete_id: Option<usize>,
    current_new_folder_parent_id: Option<isize>,
}

impl SubscriptionMove {
    /// The state of the tree: the paths and flags of the subscriptions by id.
    pub closed spec fn state(&self) -> Map<isize, SubsMapEntry> {
        self.statemap.view()
    }

    /// Whether the tree paths are to be computed anew.
    pub closed spec fn paths_need_check(&self) -> bool {
        self.need_check_fs_paths
    }

    /// The subscription marked for deletion.
    pub closed spec fn delete_id(&self) -> Option<usize> {
        self.feedsource_delete_id
    }

    /// The folder under which new folders and subscriptions go.
    pub closed spec fn new_parent_id(&self) -> Option<isize> {
        self.current_new_folder_parent_id
    }

    /// An empty tree state whose paths are still to be computed.
    pub fn new() -> (r: SubscriptionMove)
        ensures
            r.state() == Map::<isize, SubsMapEntry>::empty(),
            r.paths_need_check(),
            r.delete_id() is None,
            r.new_parent_id() is None,
    {
        SubscriptionMove {
            statemap: SubscriptionState::new(),
            need_check_fs_paths: true,
            feedsource_delete_id: None,
            current_new_folder_parent_id: None,
        }
    }

    /// The state of the tree.
    pub fn get_state_map(&self) -> (r: &SubscriptionState)
        ensures
            r.view() == self.state(),
    {
        &self.statemap
    }

    /// Replaces the state of the tree.
    pub fn set_state_map(&mut self, s: SubscriptionState)
        ensures
            final(self).state() == s.view(),
            final(self).paths_need_check() == old(self).paths_need_check(),
            final(self).delete_id() == old(self).delete_id(),
            final(self).new_parent_id() == old(self).new_parent_id(),
    {
        self.statemap = s;
    }

    /// The stored subscription at a tree path.
    pub fn get_by_path(&self, entries: &[SubscriptionEntry], path: &[u16]) -> (r: Option<SubscriptionEntry>)
        ensures
            same_found(r, entry_at_path(self.state(), entries@, path@)),
    {
        match self.statemap.get_id_by_path(path) {
            Some(subs_id) => get_by_index(entries, subs_id),
            None => None,
        }
    }

    /// Where a drag from `from_path` onto `to_path` moves a subscription (see
    /// `drag_target`): the dragged entry, its new parent id, and its new position. A dragged
    /// path that is not known marks the tree paths to be computed anew.
    pub fn drag_calc_positions(&mut self, entries: &[SubscriptionEntry], from_path: &[u16], to_path: &[u16]) -> (r: Result<(SubscriptionEntry, isize, isize), String>)
        requires
            !drag_overflows(old(self).state(), entries@, from_path@, to_path@),
        ensures
            final(self).state() == old(self).state(),
            final(self).paths_need_check() == (old(self).paths_need_check()
                || entry_at_path(old(self).state(), entries@, from_path@) is None),
            final(self).delete_id() == old(self).delete_id(),
            final(self).new_parent_id() == old(self).new_parent_id(),
            match r {
                Ok((e, parent, pos)) => match drag_target(old(self).state(), entries@, from_path@, to_path@) {
                    Some((e0, parent0, pos0)) => same_subscription(e, e0) && parent == parent0 && pos == pos0,
                    None => false,
                },
                Err(_) => drag_target(old(self).state(), entries@, from_path@, to_path@) is None,
            },
            entry_at_path(old(self).state(), entries@, from_path@) is None ==> (r matches Err(e) && e@
                == unknown_drag_text(from_path@)),
    {
        let ghost m = self.statemap.view();
        let o_from_entry = self.get_by_path(entries, from_path);
        if o_from_entry.is_none() {
            self.need_check_fs_paths = true;
            return Err(unknown_drag_error(from_path));
        }
        let from_entry = o_from_entry.unwrap();
        let mut to_path_parent: Vec<u16> = Vec::new();
        let mut to_path_prev: Vec<u16> = Vec::new();
        let mut o_to_entry_parent: Option<SubscriptionEntry> = None;
        if to_path.len() > 0 {
            to_path_parent = path_parent(to_path);
            let last = to_path[to_path.len() - 1];
            if last > 0 {
                to_path_prev = path_parent(to_path);
                to_path_prev.push(last - 1);
            }
            o_to_entry_parent = self.get_by_path(entries, to_path_parent.as_slice());
        }
        if o_to_entry_parent.is_none() && to_path_parent.len() > 0 {
            let grand = path_parent(to_path_parent.as_slice());
            o_to_entry_parent = self.get_by_path(entries, grand.as_slice());
        }
        let o_to_entry_direct = self.get_by_path(entries, to_path);
        let mut o_to_entry_prev: Option<SubscriptionEntry> = None;
        if o_to_entry_direct.is_none() && o_to_entry_parent.is_none() {
            o_to_entry_prev = self.get_by_path(entries, to_path_prev.as_slice());
        }
        proof {
            if to_path@.len() > 0 && to_path@.last() > 0 {
                assert(to_path_prev@ =~= to_path@.drop_last().push((to_path@.last() - 1) as u16));
            } else {
                assert(to_path_prev@ =~= Seq::<u16>::empty());
            }
            if to_path@.len() == 0 {
                assert(to_path_parent@ =~= Seq::<u16>::empty());
            }
        }
        if o_to_entry_direct.is_none() && o_to_entry_parent.is_none() && o_to_entry_prev.is_none() {
            return Err("drag: no target found for the path".to_string());
        }
        if let Some(to_entry_direct) = o_to_entry_direct {
            let to_parent_id = to_entry_direct.parent_subs_id;
            if from_entry.subs_id == to_parent_id {
                return Err("drag: dropped onto an element of itself".to_string());
            }
            return Ok((from_entry, to_parent_id, to_entry_direct.folder_position));
        }
        if let Some(to_entry_parent) = o_to_entry_parent {
            if to_entry_parent.is_folder {
                return Ok((from_entry, to_entry_parent.subs_id, 0));
            }
            return Err("drag: dropped onto an entry that is no folder".to_string());
        }
        let to_entry_prev = o_to_entry_prev.unwrap();
        Ok((from_entry, to_entry_prev.parent_subs_id, to_entry_prev.folder_position + 1))
    }

    /// Marks a subscription to be moved to the trash, or clears the mark.
    pub fn set_delete_subscription_id(&mut self, o_fs_id: Option<usize>)
        ensures
            final(self).delete_id() == o_fs_id,
            final(self).state() == old(self).state(),
            final(self).paths_need_check() == old(self).paths_need_check(),
            final(self).new_parent_id() == old(self).new_parent_id(),
    {
        self.feedsource_delete_id = o_fs_id;
    }

    /// Marks a subscription to be deleted, or clears the mark.
    pub fn set_fs_delete_id(&mut self, o_fs_id: Option<usize>)
        ensures
            final(self).delete_id() == o_fs_id,
            final(self).state() == old(self).state(),
            final(self).paths_need_check() == old(self).paths_need_check(),
            final(self).new_parent_id() == old(self).new_parent_id(),
    {
        self.feedsource_delete_id = o_fs_id;
    }

    /// Sets the folder under which the next new folder or subscription goes.
    pub fn set_new_folder_parent_id(&mut self, o_parent: Option<isize>)
        ensures
            final(self).new_parent_id() == o_parent,
            final(self).state() == old(self).state(),
            final(self).paths_need_check() == old(self).paths_need_check(),
            final(self).delete_id() == old(self).delete_id(),
    {
        self.current_new_folder_parent_id = o_parent;
    }

    /// The subscription marked to go to the trash, which is then unmarked: the caller moves
    /// it under the deleted-parent at position 0, marks all below it deleted, and numbers
    /// its former siblings anew. Without a mark, nothing.
    pub fn move_subscription_to_trash(&mut self, entries: &[SubscriptionEntry]) -> (r: Option<SubscriptionEntry>)
        requires
            old(self).delete_id() matches Some(id) ==> id <= isize::MAX && entry_by_id(entries@, id as isize) is Some,
        ensures
            final(self).delete_id() is None,
            final(self).state() == old(self).state(),
            final(self).paths_need_check() == old(self).paths_need_check(),
            final(self).new_parent_id() == old(self).new_parent_id(),
            match old(self).delete_id() {
                Some(id) => same_found(r, entry_by_id(entries@, id as isize)),
                None => r is None,
            },
    {
        match self.feedsource_delete_id {
            None => None,
            Some(fs_id) => {
                let fse = get_by_index(entries, fs_id as isize);
                self.feedsource_delete_id = None;
                fse
            },
        }
    }

    /// The id of the subscription marked for deletion, which is then unmarked; the caller
    /// deletes it. Without a mark, nothing.
    pub fn feedsource_delete(&mut self) -> (r: Option<usize>)
        ensures
            r == old(self).delete_id(),
            final(self).delete_id() is None,
            final(self).state() == old(self).state(),
            final(self).paths_need_check() == old(self).paths_need_check(),
            final(self).new_parent_id() == old(self).new_parent_id(),
    {
        let r = self.feedsource_delete_id;
        self.feedsource_delete_id = None;
        r
    }

    /// Asks for the tree paths to be computed anew, or not.
    pub fn request_check_paths(&mut self, needs_check: bool)
        ensures
            final(self).paths_need_check() == needs_check,
            final(self).state() == old(self).state(),
            final(self).delete_id() == old(self).delete_id(),
            final(self).new_parent_id() == old(self).new_parent_id(),
    {
        self.need_check_fs_paths = needs_check;
    }

    /// Records the tree path of each stored subscription that reaches the top level (see
    /// `paths_recorded`), as not deleted. `entries` are the stored subscriptions in the
    /// order the store lists them, with ids as the store keeps them (see `ids_unique`).
    pub fn update_paths_rec(&mut self, entries: &[SubscriptionEntry])
        requires
            ids_unique(entries@),
        ensures
            paths_recorded(old(self).state(), final(self).state(), entries@, entries@.len() as int),
            final(self).paths_need_check() == old(self).paths_need_check(),
            final(self).delete_id() == old(self).delete_id(),
            final(self).new_parent_id() == old(self).new_parent_id(),
    {
        let ghost m0 = self.statemap.view();
        let n = entries.len();
        let mut i: usize = 0;
        while i < n
            invariant
                n == entries@.len(),
                i <= n,
                ids_unique(entries@),
                paths_recorded(m0, self.statemap.view(), entries@, i as int),
                self.need_check_fs_paths == old(self).need_check_fs_paths,
                self.feedsource_delete_id == old(self).feedsource_delete_id,
                self.current_new_folder_parent_id == old(self).current_new_folder_parent_id,
            decreases n - i,
        {
            let ghost mb = self.statemap.view();
            match chain_path_of(entries, i, n) {
                Some(p) => {
                    let id = entries[i].subs_id;
                    self.statemap.set_tree_path(id, p, entries[i].is_folder);
                    let ghost mid = self.statemap.view();
                    self.statemap.set_deleted(id, false);
                    proof {
                        let ma = self.statemap.view();
                        assert(reached(entries@, i as int));
                        assert(forall|j: int| 0 <= j < i ==> entries@[j].subs_id != id);
                        assert(!(exists|j: int| 0 <= j < i && entries@[j].subs_id == id && reached(entries@, j)));
                        assert(mb.contains_key(id) == m0.contains_key(id));
                        if m0.contains_key(id) {
                            assert(mb[id] == m0[id]);
                        }
                        assert(path_of(ma[id]) == chain_path(entries@, i as int, entries@.len()));
                        assert(ma[id].status == mask_applied(if m0.contains_key(id) { m0[id].status } else { mask_applied(0, 256, entries@[i as int].is_folder) }, 512, false));
                        assert(ma[id].num_msg_all_unread == if m0.contains_key(id) { m0[id].num_msg_all_unread } else { None });
                        assert forall|j: int| 0 <= j < i implies entries@[j].subs_id != id by {
                            assert(entries@[j].subs_id != entries@[i as int].subs_id);
                        }
                        assert forall|k: isize| #[trigger] ma.contains_key(k)
                            <==> (m0.contains_key(k) || exists|j: int| 0 <= j < i + 1 && entries@[j].subs_id == k && reached(entries@, j)) by {
                            if k == id {
                                assert(0 <= i < i + 1 && entries@[i as int].subs_id == k && reached(entries@, i as int));
                            } else if exists|j: int| 0 <= j < i + 1 && entries@[j].subs_id == k && reached(entries@, j) {
                                let j = choose|j: int| 0 <= j < i + 1 && entries@[j].subs_id == k && reached(entries@, j);
                                assert(j < i);
                            }
                        }
                        assert forall|j: int| 0 <= j < i + 1 && reached(entries@, j) implies {
                            let jd = entries@[j].subs_id;
                            let e = #[trigger] ma[entries@[j].subs_id];
                            &&& path_of(e) == chain_path(entries@, j, entries@.len())
                            &&& e.status == mask_applied(if m0.contains_key(jd) { m0[jd].status } else { mask_applied(0, 256, entries@[j].is_folder) }, 512, false)
                            &&& e.num_msg_all_unread == if m0.contains_key(jd) { m0[jd].num_msg_all_unread } else { None }
                        } by {
                            if j < i {
                                let k = entries@[j].subs_id;
                                assert(k != id);
                                assert(mb.contains_key(k));
                                assert(mid.contains_key(k) && mid[k] == mb[k]);
                                assert(ma[k] == mid[k]);
                            } else {
                                if m0.contains_key(id) {
                                    assert(mb.contains_key(id));
                                    assert(mb[id] == m0[id]);
                                }
                            }
                        }
                        assert forall|k: isize| #[trigger] m0.contains_key(k) && !(exists|j: int| 0 <= j < i + 1 && entries@[j].subs_id == k && reached(entries@, j))
                            implies ma[k] == m0[k] by {
                            assert(k != id);
                            assert(!(exists|j: int| 0 <= j < i && entries@[j].subs_id == k && reached(entries@, j)));
                            assert(mb.contains_key(k));
                            assert(mid.contains_key(k) && mid[k] == mb[k]);
                            assert(ma[k] == mid[k]);
                        }
                    }
                },
                None => {
                    proof {
                        assert(!reached(entries@, i as int));
                        assert forall|k: isize| #[trigger] mb.contains_key(k)
                            <==> (m0.contains_key(k) || exists|j: int| 0 <= j < i + 1 && entries@[j].subs_id == k && reached(entries@, j)) by {
                            if exists|j: int| 0 <= j < i + 1 && entries@[j].subs_id == k && reached(entries@, j) {
                                let j = choose|j: int| 0 <= j < i + 1 && entries@[j].subs_id == k && reached(entries@, j);
                                assert(j < i);
                            }
                        }
                        assert forall|k: isize| #[trigger] m0.contains_key(k) && !(exists|j: int| 0 <= j < i + 1 && entries@[j].subs_id == k && reached(entries@, j))
                            implies mb[k] == m0[k] by {
                            assert(!(exists|j: int| 0 <= j < i && entries@[j].subs_id == k && reached(entries@, j)));
                        }
                    }
                },
            }
            i = i + 1;
        }
    }

    /// Records the tree paths of all stored subscriptions (see `update_paths_rec`).
    pub fn update_cached_paths(&mut self, entries: &[SubscriptionEntry])
        requires
            ids_unique(entries@),
        ensures
            paths_recorded(old(self).state(), final(self).state(), entries@, entries@.len() as int),
            final(self).paths_need_check() == old(self).paths_need_check(),
            final(self).delete_id() == old(self).delete_id(),
            final(self).new_parent_id() == old(self).new_parent_id(),
    {
        self.update_paths_rec(entries);
    }

    /// Computes the tree paths anew where that was asked for (see `update_paths_rec`);
    /// the request is then cleared. Gives whether the paths were computed.
    pub fn check_paths(&mut self, entries: &[SubscriptionEntry]) -> (r: bool)
        requires
            ids_unique(entries@),
        ensures
            r == old(self).paths_need_check(),
            !final(self).paths_need_check(),
            r ==> paths_recorded(old(self).state(), final(self).state(), entries@, entries@.len() as int),
            !r ==> final(self).state() == old(self).state(),
            final(self).delete_id() == old(self).delete_id(),
            final(self).new_parent_id() == old(self).new_parent_id(),
    {
        let r = self.need_check_fs_paths;
        if r {
            self.update_paths_rec(entries);
        }
        self.need_check_fs_paths = false;
        r
    }
    /// The parent for a new folder: the one set before (then cleared), else the top level.
    pub fn add_new_folder(&mut self) -> (r: isize)
        ensures
            r == match old(self).new_parent_id() {
                Some(p) => p,
                None => 0,
            },
            final(self).new_parent_id() is None,
            final(self).state() == old(self).state(),
            final(self).delete_id() == old(self).delete_id(),
            final(self).paths_need_check() == old(self).paths_need_check(),
    {
        let p = match self.current_new_folder_parent_id {
            Some(p) => p,
            None => 0,
        };
        self.current_new_folder_parent_id = None;
        p
    }

    /// The parent for a new subscription: the one set before, else the top level.
    pub fn add_new_subscription(&self) -> (r: isize)
        ensures
            r == match self.new_parent_id() {
                Some(p) => p,
                None => 0,
            },
    {
        match self.current_new_folder_parent_id {
            Some(p) => p,
            None => 0,
        }
    }

}

/// The error text of a drag from a path that the state map does not know.
pub open spec fn unknown_drag_text(from_path: Seq<u16>) -> Seq<char> {
    "from_path="@ + path_debug(from_path) + "  Missing, check statemap"@
}

/// The error text of a drag from a path that the state map does not know.
fn unknown_drag_error(from_path: &[u16]) -> (r: String)
    ensures
        r@ == unknown_drag_text(from_path@),
{
    let mut m = chars_of("from_path=");
    append_chars(&mut m, &path_debug_of(from_path));
    append_chars(&mut m, &chars_of("  Missing, check statemap"));
    string_of(&m)
}

} // verus!
