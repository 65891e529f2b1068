use std::collections::HashMap;
use vstd::prelude::*;
use crate::db::subscription_entry::{mask_applied, mask_held};
use crate::keys::key_list;

verus! {

broadcast use vstd::std_specs::hash::group_hash_axioms;

/// Status bits kept in the subscription state map.
#[derive(Clone, Copy, Debug, PartialEq, Eq, Structural)]
pub enum StatusMask {
    FetchScheduled,
    FetchScheduledJobCreated,
    FetchInProgress,
    ErrFetchReq,
    ErrIconReq,
    IsFolderCopy,
    IsDeletedCopy,
    IsExpandedCopy,
    MessageCountsChecked,
}

/// The bit of a status flag.
pub open spec fn state_bit(s: StatusMask) -> usize {
    match s {
        StatusMask::FetchScheduled => 8,
        StatusMask::FetchScheduledJobCreated => 16,
        StatusMask::FetchInProgress => 32,
        StatusMask::ErrFetchReq => 64,
        StatusMask::ErrIconReq => 128,
        StatusMask::IsFolderCopy => 256,
        StatusMask::IsDeletedCopy => 512,
        StatusMask::IsExpandedCopy => 1024,
        StatusMask::MessageCountsChecked => 2048,
    }
}

impl StatusMask {
    /// The bit of this status flag.
    pub fn mask(&self) -> (r: usize)
        ensures
            r == state_bit(*self),
    {
        match self {
            StatusMask::FetchScheduled => 8,
            StatusMask::FetchScheduledJobCreated => 16,
            StatusMask::FetchInProgress => 32,
            StatusMask::ErrFetchReq => 64,
            StatusMask::ErrIconReq => 128,
            StatusMask::IsFolderCopy => 256,
            StatusMask::IsDeletedCopy => 512,
            StatusMask::IsExpandedCopy => 1024,
            StatusMask::MessageCountsChecked => 2048,
        }
    }
}

/// What the tree keeps of one subscription: its path in the tree, its status bits, and
/// its message counts (all, unread) once known.
#[derive(Debug)]
pub struct SubsMapEntry {
    pub tree_path: Option<Vec<u16>>,
    pub status: usize,
    pub num_msg_all_unread: Option<(isize, isize)>,
}

/// The tree path of an entry, by value.
pub open spec fn path_of(e: SubsMapEntry) -> Option<Seq<u16>> {
    match e.tree_path {
        Some(p) => Some(p@),
        None => None,
    }
}

/// Two entries hold the same values.
pub open spec fn same_entry(a: SubsMapEntry, b: SubsMapEntry) -> bool {
    path_of(a) == path_of(b) && a.status == b.status && a.num_msg_all_unread == b.num_msg_all_unread
}

/// The entry with a new status word.
pub open spec fn with_status(e: SubsMapEntry, st: usize) -> SubsMapEntry {
    SubsMapEntry { status: st, ..e }
}

/// A copy of a path.
pub(crate) fn copy_path(p: &Vec<u16>) -> (r: Vec<u16>)
    ensures
        r@ == p@,
{
    let mut r: Vec<u16> = Vec::new();
    let mut i: usize = 0;
    while i < p.len()
        invariant
            i <= p.len(),
            r@ == p@.take(i as int),
        decreases p.len() - i,
    {
        r.push(p[i]);
        proof {
            assert(p@.take(i + 1) =~= p@.take(i as int).push(p@[i as int]));
        }
        i = i + 1;
    }
    proof {
        assert(p@.take(p@.len() as int) =~= p@);
    }
    r
}

impl SubsMapEntry {
    /// A copy of this entry.
    pub fn duplicate(&self) -> (r: SubsMapEntry)
        ensures
            same_entry(r, *self),
    {
        let p = match &self.tree_path {
            Some(v) => Some(copy_path(v)),
            None => None,
        };
        SubsMapEntry { tree_path: p, status: self.status, num_msg_all_unread: self.num_msg_all_unread }
    }
}

impl Default for SubsMapEntry {
    /// No path, no status bits, no counts.
    fn default() -> (r: SubsMapEntry)
        ensures
            r.tree_path is None && r.status == 0 && r.num_msg_all_unread is None,
    {
        SubsMapEntry { tree_path: None, status: 0, num_msg_all_unread: None }
    }
}

/// Flags of a subscription as the tree keeps them.
pub trait FeedSourceState {
    fn is_expanded(&self) -> bool;
    fn set_expanded(&mut self, new_exp: bool);

    fn is_err_on_fetch(&self) -> bool;
    fn set_err_on_fetch(&mut self, n: bool);

    fn is_fetch_scheduled(&self) -> bool;
    fn set_fetch_scheduled(&mut self, n: bool);

    fn is_fetch_scheduled_jobcreated(&self) -> bool;
    fn set_fetch_scheduled_jobcreated(&mut self, n: bool);

    fn is_fetch_in_progress(&self) -> bool;
    fn set_fetch_in_progress(&mut self, n: bool);

    fn is_deleted(&self) -> bool;
    fn set_deleted(&mut self, n: bool);

    fn check_bitmask(&self, bitmask: usize) -> bool;
    fn change_bitmask(&mut self, bitmask: usize, new_state: bool);

    fn set_path(&mut self, newpath: Vec<u16>);
    fn get_path(&self) -> Option<Vec<u16>>;

    fn is_folder(&self) -> bool;
    fn set_folder(&mut self, n: bool);

    fn is_messagecounts_checked(&self) -> bool;
    fn set_messagecounts_checked(&mut self, n: bool);
}

impl FeedSourceState for SubsMapEntry {
    fn is_err_on_fetch(&self) -> (r: bool)
        ensures
            r == mask_held(self.status, 64),
    {
        self.check_bitmask(StatusMask::ErrFetchReq.mask())
    }

    fn set_err_on_fetch(&mut self, n: bool)
        ensures
            *final(self) == with_status(*old(self), mask_applied(old(self).status, 64, n)),
    {
        self.change_bitmask(StatusMask::ErrFetchReq.mask(), n)
    }

    fn is_fetch_scheduled(&self) -> (r: bool)
        ensures
            r == mask_held(self.status, 8),
    {
        self.check_bitmask(StatusMask::FetchScheduled.mask())
    }

    fn set_fetch_scheduled(&mut self, n: bool)
        ensures
            *final(self) == with_status(*old(self), mask_applied(old(self).status, 8, n)),
    {
        self.change_bitmask(StatusMask::FetchScheduled.mask(), n)
    }

    fn is_fetch_scheduled_jobcreated(&self) -> (r: bool)
        ensures
            r == mask_held(self.status, 16),
    {
        self.check_bitmask(StatusMask::FetchScheduledJobCreated.mask())
    }

    fn set_fetch_scheduled_jobcreated(&mut self, n: bool)
        ensures
            *final(self) == with_status(*old(self), mask_applied(old(self).status, 16, n)),
    {
        self.change_bitmask(StatusMask::FetchScheduledJobCreated.mask(), n)
    }

    fn is_fetch_in_progress(&self) -> (r: bool)
        ensures
            r == mask_held(self.status, 32),
    {
        self.check_bitmask(StatusMask::FetchInProgress.mask())
    }

    fn set_fetch_in_progress(&mut self, n: bool)
        ensures
            *final(self) == with_status(*old(self), mask_applied(old(self).status, 32, n)),
    {
        self.change_bitmask(StatusMask::FetchInProgress.mask(), n)
    }

    fn is_deleted(&self) -> (r: bool)
        ensures
            r == mask_held(self.status, 512),
    {
        self.check_bitmask(StatusMask::IsDeletedCopy.mask())
    }

    fn set_deleted(&mut self, n: bool)
        ensures
            *final(self) == with_status(*old(self), mask_applied(old(self).status, 512, n)),
    {
        self.change_bitmask(StatusMask::IsDeletedCopy.mask(), n)
    }

    fn is_expanded(&self) -> (r: bool)
        ensures
            r == mask_held(self.status, 1024),
    {
        self.check_bitmask(StatusMask::IsExpandedCopy.mask())
    }

    fn set_expanded(&mut self, n: bool)
        ensures
            *final(self) == with_status(*old(self), mask_applied(old(self).status, 1024, n)),
    {
        self.change_bitmask(StatusMask::IsExpandedCopy.mask(), n);
    }

    fn check_bitmask(&self, bitmask: usize) -> (r: bool)
        ensures
            r == mask_held(self.status, bitmask),
    {
        self.status & bitmask == bitmask
    }

    fn change_bitmask(&mut self, bitmask: usize, new_state: bool)
        ensures
            *final(self) == with_status(*old(self), mask_applied(old(self).status, bitmask, new_state)),
    {
        let new_st = match new_state {
            true => self.status | bitmask,
            false => self.status & !bitmask,
        };
        if new_st != self.status {
            self.status = new_st;
        }
    }

    fn set_path(&mut self, newpath: Vec<u16>)
        ensures
            final(self).tree_path == Some(newpath),
            final(self).status == old(self).status,
            final(self).num_msg_all_unread == old(self).num_msg_all_unread,
    {
        self.tree_path = Some(newpath);
    }

    fn get_path(&self) -> (r: Option<Vec<u16>>)
        ensures
            match r {
                Some(p) => path_of(*self) == Some(p@),
                None => path_of(*self) is None,
            },
    {
        match &self.tree_path {
            Some(p) => Some(copy_path(p)),
            None => None,
        }
    }

    fn is_folder(&self) -> (r: bool)
        ensures
            r == mask_held(self.status, 256),
    {
        self.check_bitmask(StatusMask::IsFolderCopy.mask())
    }

    fn set_folder(&mut self, n: bool)
        ensures
            *final(self) == with_status(*old(self), mask_applied(old(self).status, 256, n)),
    {
        self.change_bitmask(StatusMask::IsFolderCopy.mask(), n);
    }

    fn is_messagecounts_checked(&self) -> (r: bool)
        ensures
            r == mask_held(self.status, 2048),
    {
        self.check_bitmask(StatusMask::MessageCountsChecked.mask())
    }

    fn set_messagecounts_checked(&mut self, n: bool)
        ensures
            *final(self) == with_status(*old(self), mask_applied(old(self).status, 2048, n)),
    {
        self.change_bitmask(StatusMask::MessageCountsChecked.mask(), n)
    }
}

/// `id` is a live subscription whose message counts are not known yet.
pub open spec fn unscanned(m: Map<isize, SubsMapEntry>, id: isize) -> bool {
    &&& m.contains_key(id)
    &&& m[id].num_msg_all_unread is None
    &&& id > 0
    &&& !mask_held(m[id].status, 512)
}

/// `r` lists unscanned subscriptions (id, is-folder), each once, feeds before folders, at
/// most `limit` of them; all of them where fewer than `limit` are listed, and all feeds
/// where a folder is listed.
pub open spec fn scan_result(m: Map<isize, SubsMapEntry>, limit: usize, r: Seq<(isize, bool)>) -> bool {
    &&& r.len() <= limit
    &&& forall|i: int| 0 <= i < r.len() ==> unscanned(m, #[trigger] r[i].0) && r[i].1 == mask_held(m[r[i].0].status, 256)
    &&& forall|i: int, j: int| 0 <= i < j < r.len() ==> r[i].0 != r[j].0
    &&& forall|i: int, j: int| 0 <= i < j < r.len() ==> !(#[trigger] r[i].1 && !#[trigger] r[j].1)
    &&& r.len() < limit ==> forall|id: isize| #[trigger] unscanned(m, id) ==> exists|i: int| 0 <= i < r.len() && r[i].0 == id
    &&& (exists|i: int| 0 <= i < r.len() && r[i].1) ==> forall|id: isize| #[trigger] unscanned(m, id)
        && !mask_held(m[id].status, 256) ==> exists|i: int| 0 <= i < r.len() && r[i].0 == id
}

/// `id` is a feed (no folder, not deleted) due to be fetched, with no job made for it yet.
pub open spec fn due_for_fetch(m: Map<isize, SubsMapEntry>, id: isize) -> bool {
    &&& m.contains_key(id)
    &&& !mask_held(m[id].status, 256)
    &&& !mask_held(m[id].status, 512)
    &&& mask_held(m[id].status, 8)
    &&& !mask_held(m[id].status, 16)
}

/// `id` has the flag `bit` in state `activated`, and is no folder unless folders count.
pub open spec fn has_status(m: Map<isize, SubsMapEntry>, id: isize, bit: usize, activated: bool, include_folder: bool) -> bool {
    &&& m.contains_key(id)
    &&& include_folder || !mask_held(m[id].status, 256)
    &&& mask_held(m[id].status, bit) == activated
}

/// Queries and updates of the per-subscription tree state.
pub trait ISubscriptionState {
    fn get_state(&self, id: isize) -> Option<SubsMapEntry>;
    fn get_id_by_path(&self, path: &[u16]) -> Option<isize>;
    fn set_schedule_fetch_all(&mut self);
    fn get_ids_by_status(&self, statusflag: StatusMask, activated: bool, include_folder: bool) -> Vec<isize>;
    fn get_tree_path(&self, db_id: isize) -> Option<Vec<u16>>;
    fn set_tree_path(&mut self, db_id: isize, newpath: Vec<u16>, is_folder: bool);
    fn set_status(&mut self, idlist: &[isize], statusflag: StatusMask, activated: bool);
    /// subscriptions whose counts are not known yet, at most `limit` of them
    fn scan_num_all_unread(&self, limit: usize) -> Vec<(isize, bool)>;
    fn clear_num_all_unread(&mut self, subs_id: isize);
    /// returns the modified entry
    fn set_num_all_unread(&mut self, subs_id: isize, num_all: isize, num_unread: isize) -> Option<SubsMapEntry>;
    fn get_num_all_unread(&self, subs_id: isize) -> Option<(isize, isize)>;
    fn set_deleted(&mut self, subs_id: isize, new_del: bool);
    fn get_length(&self) -> usize;
    fn get_fetch_scheduled(&self) -> Vec<isize>;
}

/// `id` is the smallest id of the map whose tree path is `p`.
pub open spec fn least_with_path(m: Map<isize, SubsMapEntry>, p: Seq<u16>, id: isize) -> bool {
    &&& m.contains_key(id)
    &&& path_of(m[id]) == Some(p)
    &&& forall|j: isize| m.contains_key(j) && path_of(m[j]) == Some(p) ==> id <= j
}

/// The smallest id whose tree path is `p`, if any has that path.
pub open spec fn id_with_path(m: Map<isize, SubsMapEntry>, p: Seq<u16>) -> Option<isize> {
    if exists|id: isize| m.contains_key(id) && path_of(m[id]) == Some(p) {
        Some(choose|id: isize| least_with_path(m, p, id))
    } else {
        None
    }
}

/// Whether two paths are equal.
fn same_path(a: &Vec<u16>, b: &[u16]) -> (r: bool)
    ensures
        r == (a@ == b@),
{
    if a.len() != b.len() {
        return false;
    }
    let mut i: usize = 0;
    while i < a.len()
        invariant
            a.len() == b.len(),
            i <= a.len(),
            forall|x: int| 0 <= x < i ==> a@[x] == b@[x],
        decreases a.len() - i,
    {
        if a[i] != b[i] {
            return false;
        }
        i = i + 1;
    }
    proof {
        assert(a@ =~= b@);
    }
    true
}

/// Whether `x` occurs in `ids`.
fn contains_isize(ids: &[isize], x: isize) -> (r: bool)
    ensures
        r == ids@.contains(x),
{
    let mut i: usize = 0;
    while i < ids.len()
        invariant
            i <= ids.len(),
            forall|y: int| 0 <= y < i ==> ids@[y] != x,
        decreases ids.len() - i,
    {
        if ids[i] == x {
            return true;
        }
        i = i + 1;
    }
    false
}

/// The tree state of all subscriptions, by subscription id.
pub struct SubscriptionState {
    statemap: HashMap<isize, SubsMapEntry>,
}

impl SubscriptionState {
    /// The entries, by subscription id.
    pub closed spec fn view(&self) -> Map<isize, SubsMapEntry> {
        self.statemap@
    }

    /// An empty state.
    pub fn new() -> (r: SubscriptionState)
        ensures
            r.view() == Map::<isize, SubsMapEntry>::empty(),
    {
        SubscriptionState { statemap: HashMap::new() }
    }

    /// Changes the status word of every entry for which `sel` holds.
    fn apply_mask_where(&mut self, ids: &[isize], use_ids: bool, feeds_only: bool, mask: usize, on: bool)
        ensures
            final(self).view().dom() == old(self).view().dom(),
            forall|k: isize| #[trigger] old(self).view().contains_key(k) ==> final(self).view()[k]
                == if (!use_ids || ids@.contains(k)) && (!feeds_only || (!mask_held(old(self).view()[k].status, 256)
                    && !mask_held(old(self).view()[k].status, 512))) {
                    with_status(old(self).view()[k], mask_applied(old(self).view()[k].status, mask, on))
                } else {
                    old(self).view()[k]
                },
    {
        let ghost m0 = self.view();
        let keys = key_list(&self.statemap);
        let mut i: usize = 0;
        while i < keys.len()
            invariant
                self.view().dom() == m0.dom(),
                keys@.no_duplicates(),
                i <= keys.len(),
                forall|k: isize| #[trigger] m0.contains_key(k) ==> keys@.contains(k),
                forall|x: int| 0 <= x < keys.len() ==> m0.contains_key(#[trigger] keys@[x]),
                forall|x: int| 0 <= x < i ==> self.view()[#[trigger] keys@[x]]
                    == if (!use_ids || ids@.contains(keys@[x])) && (!feeds_only || (!mask_held(m0[keys@[x]].status, 256)
                        && !mask_held(m0[keys@[x]].status, 512))) {
                        with_status(m0[keys@[x]], mask_applied(m0[keys@[x]].status, mask, on))
                    } else {
                        m0[keys@[x]]
                    },
                forall|x: int| i <= x < keys.len() ==> self.view()[#[trigger] keys@[x]] == m0[keys@[x]],
            decreases keys.len() - i,
        {
            let k = keys[i];
            proof { assert(m0.contains_key(keys@[i as int])); }
            let sel_id = !use_ids || contains_isize(ids, k);
            let mut st = self.statemap.remove(&k).unwrap();
            let sel = sel_id && (!feeds_only || (!st.is_folder() && !st.is_deleted()));
            if sel {
                st.change_bitmask(mask, on);
            }
            self.statemap.insert(k, st);
            proof {
                assert(self.view().dom() =~= m0.dom());
                assert forall|x: int| 0 <= x < keys.len() && x != i implies keys@[x] != k by {
                    assert(keys@[x] != keys@[i as int]);
                }
            }
            i = i + 1;
        }
        proof {
            assert forall|k: isize| #[trigger] m0.contains_key(k) implies self.view()[k]
                == if (!use_ids || ids@.contains(k)) && (!feeds_only || (!mask_held(m0[k].status, 256)
                    && !mask_held(m0[k].status, 512))) {
                    with_status(m0[k], mask_applied(m0[k].status, mask, on))
                } else {
                    m0[k]
                } by {
                let x = choose|x: int| 0 <= x < keys.len() && keys@[x] == k;
            }
        }
    }
}

impl Default for SubscriptionState {
    /// An empty state.
    fn default() -> (r: SubscriptionState)
        ensures
            r.view() == Map::<isize, SubsMapEntry>::empty(),
    {
        SubscriptionState::new()
    }
}

impl ISubscriptionState for SubscriptionState {
    fn set_deleted(&mut self, subs_id: isize, new_del: bool)
        ensures
            final(self).view().dom() == old(self).view().dom(),
            forall|k: isize| k != subs_id && #[trigger] old(self).view().contains_key(k)
                ==> final(self).view()[k] == old(self).view()[k],
            old(self).view().contains_key(subs_id) ==> final(self).view()[subs_id]
                == with_status(old(self).view()[subs_id], mask_applied(old(self).view()[subs_id].status, 512, new_del)),
    {
        if self.statemap.contains_key(&subs_id) {
            let mut st = self.statemap.remove(&subs_id).unwrap();
            st.set_deleted(new_del);
            self.statemap.insert(subs_id, st);
            proof {
                assert(final(self).view().dom() =~= old(self).view().dom());
            }
        }
    }

    fn set_tree_path(&mut self, db_id: isize, newpath: Vec<u16>, is_folder: bool)
        ensures
            final(self).view().dom() == old(self).view().dom().insert(db_id),
            forall|k: isize| k != db_id && #[trigger] old(self).view().contains_key(k)
                ==> final(self).view()[k] == old(self).view()[k],
            old(self).view().contains_key(db_id) ==> final(self).view()[db_id]
                == (SubsMapEntry { tree_path: Some(newpath), ..old(self).view()[db_id] }),
            !old(self).view().contains_key(db_id) ==> final(self).view()[db_id]
                == (SubsMapEntry { tree_path: Some(newpath), status: mask_applied(0, 256, is_folder), num_msg_all_unread: None }),
    {
        if !self.statemap.contains_key(&db_id) {
            let mut sme = SubsMapEntry { tree_path: Some(newpath), status: 0, num_msg_all_unread: None };
            sme.set_folder(is_folder);
            self.statemap.insert(db_id, sme);
        } else {
            let mut st = self.statemap.remove(&db_id).unwrap();
            st.set_path(newpath);
            self.statemap.insert(db_id, st);
            proof {
                assert(final(self).view().dom() =~= old(self).view().dom().insert(db_id));
            }
        }
    }

    fn get_num_all_unread(&self, subs_id: isize) -> (r: Option<(isize, isize)>)
        ensures
            r == if self.view().contains_key(subs_id) {
                self.view()[subs_id].num_msg_all_unread
            } else {
                None
            },
    {
        match self.statemap.get(&subs_id) {
            Some(st) => st.num_msg_all_unread,
            None => None,
        }
    }

    fn set_num_all_unread(&mut self, subs_id: isize, num_all: isize, num_unread: isize) -> (r: Option<SubsMapEntry>)
        ensures
            final(self).view().dom() == old(self).view().dom(),
            forall|k: isize| k != subs_id && #[trigger] old(self).view().contains_key(k)
                ==> final(self).view()[k] == old(self).view()[k],
            old(self).view().contains_key(subs_id) ==> final(self).view()[subs_id]
                == (SubsMapEntry { num_msg_all_unread: Some((num_all, num_unread)), ..old(self).view()[subs_id] }),
            match r {
                Some(e) => old(self).view().contains_key(subs_id) && same_entry(e, final(self).view()[subs_id]),
                None => !old(self).view().contains_key(subs_id),
            },
    {
        if self.statemap.contains_key(&subs_id) {
            let mut st = self.statemap.remove(&subs_id).unwrap();
            st.num_msg_all_unread = Some((num_all, num_unread));
            let copy = st.duplicate();
            self.statemap.insert(subs_id, st);
            proof {
                assert(final(self).view().dom() =~= old(self).view().dom());
            }
            Some(copy)
        } else {
            None
        }
    }

    fn clear_num_all_unread(&mut self, subs_id: isize)
        ensures
            final(self).view().dom() == old(self).view().dom(),
            forall|k: isize| k != subs_id && #[trigger] old(self).view().contains_key(k)
                ==> final(self).view()[k] == old(self).view()[k],
            old(self).view().contains_key(subs_id) ==> final(self).view()[subs_id]
                == (SubsMapEntry { num_msg_all_unread: None, ..old(self).view()[subs_id] }),
    {
        if self.statemap.contains_key(&subs_id) {
            let mut st = self.statemap.remove(&subs_id).unwrap();
            st.num_msg_all_unread = None;
            self.statemap.insert(subs_id, st);
            proof {
                assert(final(self).view().dom() =~= old(self).view().dom());
            }
        }
    }

    fn scan_num_all_unread(&self, limit: usize) -> (r: Vec<(isize, bool)>)
        ensures
            scan_result(self.view(), limit, r@),
    {
        let ghost m = self.view();
        let keys = key_list(&self.statemap);
        let mut feeds: Vec<isize> = Vec::new();
        let mut folders: Vec<isize> = Vec::new();
        let mut i: usize = 0;
        while i < keys.len()
            invariant
                m == self.view(),
                keys@.no_duplicates(),
                i <= keys.len(),
                forall|k: isize| #[trigger] m.contains_key(k) ==> keys@.contains(k),
                forall|x: int| 0 <= x < keys.len() ==> m.contains_key(#[trigger] keys@[x]),
                forall|a: int| 0 <= a < feeds.len() ==> unscanned(m, #[trigger] feeds@[a])
                    && !mask_held(m[feeds@[a]].status, 256),
                forall|a: int| 0 <= a < folders.len() ==> unscanned(m, #[trigger] folders@[a])
                    && mask_held(m[folders@[a]].status, 256),
                forall|y: isize| #[trigger] feeds@.contains(y) ==> keys@.take(i as int).contains(y),
                forall|y: isize| #[trigger] folders@.contains(y) ==> keys@.take(i as int).contains(y),
                forall|a: int, b: int| 0 <= a < b < feeds.len() ==> feeds@[a] != feeds@[b],
                forall|a: int, b: int| 0 <= a < b < folders.len() ==> folders@[a] != folders@[b],
                forall|x: int| 0 <= x < i && unscanned(m, #[trigger] keys@[x]) && !mask_held(m[keys@[x]].status, 256)
                    ==> feeds@.contains(keys@[x]),
                forall|x: int| 0 <= x < i && unscanned(m, #[trigger] keys@[x]) && mask_held(m[keys@[x]].status, 256)
                    ==> folders@.contains(keys@[x]),
            decreases keys.len() - i,
        {
            let k = keys[i];
            proof { assert(m.contains_key(keys@[i as int])); }
            let st = self.statemap.get(&k).unwrap();
            let ghost f0 = feeds@;
            let ghost g0 = folders@;
            let sel = st.num_msg_all_unread.is_none() && k > 0 && !st.is_deleted();
            let f = st.is_folder();
            if sel {
                if f {
                    folders.push(k);
                } else {
                    feeds.push(k);
                }
            }
            proof {
                assert(sel == unscanned(m, k));
                assert(keys@.take(i + 1) =~= keys@.take(i as int).push(k));
                assert(!keys@.take(i as int).contains(k)) by {
                    if keys@.take(i as int).contains(k) {
                        let z = choose|z: int| 0 <= z < i && keys@.take(i as int)[z] == k;
                        assert(keys@[z] == keys@[i as int]);
                    }
                }
                if sel && f {
                    assert(folders@ == g0.push(k));
                    assert forall|a: int, b: int| 0 <= a < b < folders.len() implies folders@[a] != folders@[b] by {
                        if b == folders.len() - 1 {
                            assert(g0.contains(folders@[a]));
                        }
                    }
                    assert forall|y: isize| #[trigger] folders@.contains(y) implies keys@.take(i + 1).contains(y) by {
                        if y != k {
                            let z = choose|z: int| 0 <= z < folders.len() && folders@[z] == y;
                            assert(g0[z] == y);
                            assert(g0.contains(y));
                        } else {
                            assert(keys@.take(i + 1)[i as int] == k);
                        }
                    }
                    assert forall|x: int| 0 <= x < i + 1 && unscanned(m, #[trigger] keys@[x]) && mask_held(m[keys@[x]].status, 256)
                        implies folders@.contains(keys@[x]) by {
                        if x < i {
                            let z = choose|z: int| 0 <= z < g0.len() && g0[z] == keys@[x];
                            assert(folders@[z] == keys@[x]);
                        } else {
                            assert(folders@[folders.len() - 1] == k);
                        }
                    }
                } else if sel {
                    assert(feeds@ == f0.push(k));
                    assert forall|a: int, b: int| 0 <= a < b < feeds.len() implies feeds@[a] != feeds@[b] by {
                        if b == feeds.len() - 1 {
                            assert(f0.contains(feeds@[a]));
                        }
                    }
                    assert forall|y: isize| #[trigger] feeds@.contains(y) implies keys@.take(i + 1).contains(y) by {
                        if y != k {
                            let z = choose|z: int| 0 <= z < feeds.len() && feeds@[z] == y;
                            assert(f0[z] == y);
                            assert(f0.contains(y));
                        } else {
                            assert(keys@.take(i + 1)[i as int] == k);
                        }
                    }
                    assert forall|x: int| 0 <= x < i + 1 && unscanned(m, #[trigger] keys@[x]) && !mask_held(m[keys@[x]].status, 256)
                        implies feeds@.contains(keys@[x]) by {
                        if x < i {
                            let z = choose|z: int| 0 <= z < f0.len() && f0[z] == keys@[x];
                            assert(feeds@[z] == keys@[x]);
                        } else {
                            assert(feeds@[feeds.len() - 1] == k);
                        }
                    }
                }
                assert forall|y: isize| #[trigger] keys@.take(i as int).contains(y) implies keys@.take(i + 1).contains(y) by {
                    let z = choose|z: int| 0 <= z < i && keys@.take(i as int)[z] == y;
                    assert(keys@.take(i + 1)[z] == y);
                }
            }
            i = i + 1;
        }
        proof {
            assert forall|id: isize| #[trigger] unscanned(m, id) && !mask_held(m[id].status, 256) implies feeds@.contains(id) by {
                let x = choose|x: int| 0 <= x < keys.len() && keys@[x] == id;
                assert(unscanned(m, keys@[x]));
            }
            assert forall|id: isize| #[trigger] unscanned(m, id) && mask_held(m[id].status, 256) implies folders@.contains(id) by {
                let x = choose|x: int| 0 <= x < keys.len() && keys@[x] == id;
                assert(unscanned(m, keys@[x]));
            }
        }
        // feeds first, then folders, cut at `limit`
        let mut r: Vec<(isize, bool)> = Vec::new();
        let mut a: usize = 0;
        while a < feeds.len() && r.len() < limit
            invariant
                a <= feeds.len(),
                r.len() == a,
                r.len() <= limit,
                forall|x: int| 0 <= x < a ==> #[trigger] r@[x] == (feeds@[x], false),
            decreases feeds.len() - a,
        {
            r.push((feeds[a], false));
            a = a + 1;
        }
        let mut b: usize = 0;
        while b < folders.len() && r.len() < limit
            invariant
                a <= feeds.len(),
                b <= folders.len(),
                r.len() == a + b,
                r.len() <= limit,
                a < feeds.len() ==> r.len() == limit,
                forall|x: int| 0 <= x < a ==> #[trigger] r@[x] == (feeds@[x], false),
                forall|x: int| a <= x < a + b ==> #[trigger] r@[x] == (folders@[x - a], true),
            decreases folders.len() - b,
        {
            r.push((folders[b], true));
            b = b + 1;
        }
        proof {
            assert forall|x: int| 0 <= x < r.len() implies unscanned(m, #[trigger] r@[x].0)
                && r@[x].1 == mask_held(m[r@[x].0].status, 256) by {
                if x < a {
                    assert(r@[x] == (feeds@[x], false));
                } else {
                    assert(r@[x] == (folders@[x - a], true));
                }
            }
            assert forall|x: int, y: int| 0 <= x < y < r.len() implies r@[x].0 != r@[y].0 by {
                if y < a {
                    assert(r@[x] == (feeds@[x], false) && r@[y] == (feeds@[y], false));
                } else if x >= a {
                    assert(r@[x] == (folders@[x - a], true) && r@[y] == (folders@[y - a], true));
                } else {
                    assert(r@[x] == (feeds@[x], false) && r@[y] == (folders@[y - a], true));
                }
            }
            assert forall|x: int, y: int| 0 <= x < y < r.len() implies !(#[trigger] r@[x].1 && !#[trigger] r@[y].1) by {
                if x < a {
                    assert(r@[x] == (feeds@[x], false));
                } else {
                    assert(r@[x] == (folders@[x - a], true) && r@[y] == (folders@[y - a], true));
                }
            }
            if r.len() < limit {
                assert forall|id: isize| #[trigger] unscanned(m, id) implies exists|x: int| 0 <= x < r.len() && r@[x].0 == id by {
                    if mask_held(m[id].status, 256) {
                        let z = choose|z: int| 0 <= z < folders.len() && folders@[z] == id;
                        assert(r@[a + z] == (folders@[z], true));
                    } else {
                        let z = choose|z: int| 0 <= z < feeds.len() && feeds@[z] == id;
                        assert(r@[z] == (feeds@[z], false));
                    }
                }
            }
            if exists|x: int| 0 <= x < r.len() && r@[x].1 {
                let x0 = choose|x: int| 0 <= x < r.len() && r@[x].1;
                if x0 < a {
                    assert(r@[x0] == (feeds@[x0], false));
                }
                assert(b > 0);
                assert(a == feeds.len());
                assert forall|id: isize| #[trigger] unscanned(m, id) && !mask_held(m[id].status, 256)
                    implies exists|x: int| 0 <= x < r.len() && r@[x].0 == id by {
                    let z = choose|z: int| 0 <= z < feeds.len() && feeds@[z] == id;
                    assert(r@[z] == (feeds@[z], false));
                }
            }
        }
        r
    }

    fn get_state(&self, search_id: isize) -> (r: Option<SubsMapEntry>)
        ensures
            match r {
                Some(e) => self.view().contains_key(search_id) && same_entry(e, self.view()[search_id]),
                None => !self.view().contains_key(search_id),
            },
    {
        match self.statemap.get(&search_id) {
            Some(e) => Some(e.duplicate()),
            None => None,
        }
    }

    fn set_status(&mut self, idlist: &[isize], statusflag: StatusMask, activated: bool)
        ensures
            final(self).view().dom() == old(self).view().dom(),
            forall|k: isize| #[trigger] old(self).view().contains_key(k) ==> final(self).view()[k]
                == if idlist@.contains(k) {
                    with_status(old(self).view()[k], mask_applied(old(self).view()[k].status, state_bit(statusflag), activated))
                } else {
                    old(self).view()[k]
                },
    {
        let mask = statusflag.mask();
        self.apply_mask_where(idlist, true, false, mask, activated);
    }

    fn get_tree_path(&self, db_id: isize) -> (r: Option<Vec<u16>>)
        ensures
            match r {
                Some(p) => self.view().contains_key(db_id) && path_of(self.view()[db_id]) == Some(p@),
                None => !self.view().contains_key(db_id) || path_of(self.view()[db_id]) is None,
            },
    {
        match self.statemap.get(&db_id) {
            Some(entry) => match &entry.tree_path {
                Some(p) => Some(copy_path(p)),
                None => None,
            },
            None => None,
        }
    }

    fn get_ids_by_status(&self, statusflag: StatusMask, activated: bool, include_folder: bool) -> (r: Vec<isize>)
        ensures
            r@.no_duplicates(),
            forall|id: isize| #[trigger] r@.contains(id) <==> has_status(self.view(), id, state_bit(statusflag), activated, include_folder),
    {
        let ghost m = self.view();
        let mask = statusflag.mask();
        let keys = key_list(&self.statemap);
        let mut r: Vec<isize> = Vec::new();
        let mut i: usize = 0;
        while i < keys.len()
            invariant
                m == self.view(),
                mask == state_bit(statusflag),
                keys@.no_duplicates(),
                i <= keys.len(),
                forall|k: isize| #[trigger] m.contains_key(k) ==> keys@.contains(k),
                forall|x: int| 0 <= x < keys.len() ==> m.contains_key(#[trigger] keys@[x]),
                forall|a: int, b: int| 0 <= a < b < r.len() ==> r@[a] != r@[b],
                forall|y: isize| #[trigger] r@.contains(y) <==> exists|x: int| 0 <= x < i && keys@[x] == y
                    && has_status(m, y, state_bit(statusflag), activated, include_folder),
            decreases keys.len() - i,
        {
            let k = keys[i];
            proof { assert(m.contains_key(keys@[i as int])); }
            let st = self.statemap.get(&k).unwrap();
            let ghost r0 = r@;
            let sel = (include_folder || !st.is_folder()) && st.check_bitmask(mask) == activated;
            if sel {
                r.push(k);
            }
            proof {
                assert(sel == has_status(m, k, state_bit(statusflag), activated, include_folder));
                assert(sel ==> r@ == r0.push(k));
                assert(!sel ==> r@ == r0);
                assert forall|y: isize| #[trigger] r@.contains(y) <==> exists|x: int| 0 <= x < i + 1 && keys@[x] == y
                    && has_status(m, y, state_bit(statusflag), activated, include_folder) by {
                    if r@.contains(y) {
                        let z = choose|z: int| 0 <= z < r@.len() && r@[z] == y;
                        if z < r0.len() {
                            assert(r0[z] == y && r0.contains(y));
                        } else {
                            assert(y == k && keys@[i as int] == y);
                        }
                    }
                    if exists|x: int| 0 <= x < i + 1 && keys@[x] == y && has_status(m, y, state_bit(statusflag), activated, include_folder) {
                        let x = choose|x: int| 0 <= x < i + 1 && keys@[x] == y && has_status(m, y, state_bit(statusflag), activated, include_folder);
                        if x < i {
                            assert(r0.contains(y));
                            let z = choose|z: int| 0 <= z < r0.len() && r0[z] == y;
                            assert(r@[z] == y);
                        } else {
                            assert(r@[r@.len() - 1] == y);
                        }
                    }
                }
                assert forall|a: int| 0 <= a < r0.len() implies r0[a] != k by {
                    assert(r0.contains(r0[a]));
                    let x = choose|x: int| 0 <= x < i && keys@[x] == r0[a];
                    assert(keys@[x] != keys@[i as int]);
                }
            }
            i = i + 1;
        }
        proof {
            assert forall|id: isize| #[trigger] r@.contains(id) <==> has_status(m, id, state_bit(statusflag), activated, include_folder) by {
                if has_status(m, id, state_bit(statusflag), activated, include_folder) {
                    let x = choose|x: int| 0 <= x < keys.len() && keys@[x] == id;
                }
            }
        }
        r
    }

    fn get_id_by_path(&self, path: &[u16]) -> (r: Option<isize>)
        ensures
            r == id_with_path(self.view(), path@),
    {
        let ghost m = self.view();
        let keys = key_list(&self.statemap);
        let mut best: Option<isize> = None;
        let mut i: usize = 0;
        while i < keys.len()
            invariant
                m == self.view(),
                i <= keys.len(),
                forall|k: isize| #[trigger] m.contains_key(k) ==> keys@.contains(k),
                forall|x: int| 0 <= x < keys.len() ==> m.contains_key(#[trigger] keys@[x]),
                best is None ==> forall|x: int| 0 <= x < i ==> path_of(m[#[trigger] keys@[x]]) != Some(path@),
                best matches Some(b) ==> m.contains_key(b) && path_of(m[b]) == Some(path@)
                    && forall|x: int| 0 <= x < i && path_of(m[#[trigger] keys@[x]]) == Some(path@) ==> b <= keys@[x],
            decreases keys.len() - i,
        {
            let k = keys[i];
            proof { assert(m.contains_key(keys@[i as int])); }
            let st = self.statemap.get(&k).unwrap();
            if let Some(tp) = &st.tree_path {
                if same_path(tp, path) {
                    match best {
                        Some(b) => {
                            if k < b {
                                best = Some(k);
                            }
                        },
                        None => {
                            best = Some(k);
                        },
                    }
                }
            }
            i = i + 1;
        }
        proof {
            match best {
                Some(b) => {
                    assert forall|j: isize| m.contains_key(j) && path_of(m[j]) == Some(path@) implies b <= j by {
                        let x = choose|x: int| 0 <= x < keys.len() && keys@[x] == j;
                        assert(path_of(m[keys@[x]]) == Some(path@));
                    }
                    assert(least_with_path(m, path@, b));
                    let c = choose|id: isize| least_with_path(m, path@, id);
                    assert(least_with_path(m, path@, c));
                    assert(c <= b && b <= c);
                },
                None => {
                    assert forall|id: isize| m.contains_key(id) implies path_of(m[id]) != Some(path@) by {
                        let x = choose|x: int| 0 <= x < keys.len() && keys@[x] == id;
                        assert(path_of(m[keys@[x]]) != Some(path@));
                    }
                },
            }
        }
        best
    }

    fn set_schedule_fetch_all(&mut self)
        ensures
            final(self).view().dom() == old(self).view().dom(),
            forall|k: isize| #[trigger] old(self).view().contains_key(k) ==> final(self).view()[k]
                == if !mask_held(old(self).view()[k].status, 256) && !mask_held(old(self).view()[k].status, 512) {
                    with_status(old(self).view()[k], mask_applied(old(self).view()[k].status, 8, true))
                } else {
                    old(self).view()[k]
                },
    {
        let none: Vec<isize> = Vec::new();
        self.apply_mask_where(none.as_slice(), false, true, 8, true);
    }

    fn get_length(&self) -> (r: usize)
        ensures
            r == self.view().len(),
    {
        self.statemap.len()
    }

    fn get_fetch_scheduled(&self) -> (r: Vec<isize>)
        ensures
            r@.no_duplicates(),
            forall|id: isize| #[trigger] r@.contains(id) <==> due_for_fetch(self.view(), id),
    {
        let ghost m = self.view();
        let keys = key_list(&self.statemap);
        let mut r: Vec<isize> = Vec::new();
        let mut i: usize = 0;
        while i < keys.len()
            invariant
                m == self.view(),
                keys@.no_duplicates(),
                i <= keys.len(),
                forall|k: isize| #[trigger] m.contains_key(k) ==> keys@.contains(k),
                forall|x: int| 0 <= x < keys.len() ==> m.contains_key(#[trigger] keys@[x]),
                forall|a: int, b: int| 0 <= a < b < r.len() ==> r@[a] != r@[b],
                forall|y: isize| #[trigger] r@.contains(y) <==> exists|x: int| 0 <= x < i && keys@[x] == y
                    && due_for_fetch(m, y),
            decreases keys.len() - i,
        {
            let k = keys[i];
            proof { assert(m.contains_key(keys@[i as int])); }
            let st = self.statemap.get(&k).unwrap();
            let ghost r0 = r@;
            let sel = !st.is_folder() && !st.is_deleted() && st.check_bitmask(StatusMask::FetchScheduled.mask())
                && !st.is_fetch_scheduled_jobcreated();
            if sel {
                r.push(k);
            }
            proof {
                assert(sel == due_for_fetch(m, k));
                assert(sel ==> r@ == r0.push(k));
                assert(!sel ==> r@ == r0);
                assert forall|y: isize| #[trigger] r@.contains(y) <==> exists|x: int| 0 <= x < i + 1 && keys@[x] == y
                    && due_for_fetch(m, y) by {
                    if r@.contains(y) {
                        let z = choose|z: int| 0 <= z < r@.len() && r@[z] == y;
                        if z < r0.len() {
                            assert(r0[z] == y && r0.contains(y));
                        } else {
                            assert(y == k && keys@[i as int] == y);
                        }
                    }
                    if exists|x: int| 0 <= x < i + 1 && keys@[x] == y && due_for_fetch(m, y) {
                        let x = choose|x: int| 0 <= x < i + 1 && keys@[x] == y && due_for_fetch(m, y);
                        if x < i {
                            assert(r0.contains(y));
                            let z = choose|z: int| 0 <= z < r0.len() && r0[z] == y;
                            assert(r@[z] == y);
                        } else {
                            assert(r@[r@.len() - 1] == y);
                        }
                    }
                }
                assert forall|a: int| 0 <= a < r0.len() implies r0[a] != k by {
                    assert(r0.contains(r0[a]));
                    let x = choose|x: int| 0 <= x < i && keys@[x] == r0[a];
                    assert(keys@[x] != keys@[i as int]);
                }
            }
            i = i + 1;
        }
        proof {
            assert forall|id: isize| #[trigger] r@.contains(id) <==> due_for_fetch(m, id) by {
                if due_for_fetch(m, id) {
                    let x = choose|x: int| 0 <= x < keys.len() && keys@[x] == id;
                }
            }
        }
        r
    }
}

} // verus!
