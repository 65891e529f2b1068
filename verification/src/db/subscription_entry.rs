use vstd::prelude::*;

verus! {

/// Parent id of a subscription that is being moved.
pub const SRC_REPO_ID_MOVING: isize = -3;
/// Parent id of a deleted subscription.
pub const SRC_REPO_ID_DELETED: isize = -2;

/// The status word with the bits of `mask` set (`on`) or cleared.
pub open spec fn mask_applied(status: usize, mask: usize, on: bool) -> usize {
    if on { status | mask } else { status & !mask }
}

/// All bits of `mask` are set in `status`.
pub open spec fn mask_held(status: usize, mask: usize) -> bool {
    status & mask == mask
}

/// Setting the bits of a mask makes the mask hold, and changes nothing where it held
/// already; clearing them makes a non-empty mask fail; bits outside the mask keep their
/// value either way.
pub proof fn lemma_mask_applied(status: usize, mask: usize, on: bool)
    ensures
        on ==> mask_held(mask_applied(status, mask, on), mask),
        !on && mask != 0 ==> !mask_held(mask_applied(status, mask, on), mask),
        mask_applied(status, mask, on) & !mask == status & !mask,
        on && mask_held(status, mask) ==> mask_applied(status, mask, on) == status,
{
    if on {
        assert((status | mask) & mask == mask) by (bit_vector);
        assert((status | mask) & !mask == status & !mask) by (bit_vector);
        assert(status & mask == mask ==> status | mask == status) by (bit_vector);
    } else {
        assert(mask != 0 ==> (status & !mask) & mask != mask) by (bit_vector);
        assert((status & !mask) & !mask == status & !mask) by (bit_vector);
    }
}

/// Status bits of a subscription.
#[derive(Clone, Copy, Debug, PartialEq, Eq, Structural)]
pub enum StatusMask {
    Dirty,
    FetchScheduled,
    FetchScheduledJobCreated,
    FetchInProgress,
    ErrFetchReq,
    ErrIconReq,
}

/// The bit of a status flag.
pub open spec fn status_bit(s: StatusMask) -> usize {
    match s {
        StatusMask::Dirty => 1,
        StatusMask::FetchScheduled => 8,
        StatusMask::FetchScheduledJobCreated => 16,
        StatusMask::FetchInProgress => 32,
        StatusMask::ErrFetchReq => 64,
        StatusMask::ErrIconReq => 128,
    }
}

impl StatusMask {
    /// The bit of this status flag.
    pub fn mask(&self) -> (r: usize)
        ensures
            r == status_bit(*self),
    {
        match self {
            StatusMask::Dirty => 1,
            StatusMask::FetchScheduled => 8,
            StatusMask::FetchScheduledJobCreated => 16,
            StatusMask::FetchInProgress => 32,
            StatusMask::ErrFetchReq => 64,
            StatusMask::ErrIconReq => 128,
        }
    }
}

/// A subscription (a feed or a folder) as stored.
#[derive(Clone, Debug)]
pub struct SubscriptionEntry {
    pub subs_id: isize,
    pub parent_subs_id: isize,
    pub is_folder: bool,
    pub last_selected_msg: isize,
    pub expanded: bool,
    pub deleted: bool,
    pub folder_position: isize,
    pub icon_id: usize,
    /// timestamp the website compiled the feed
    pub updated_ext: i64,
    /// timestamp this feed was last updated from the website
    pub updated_int: i64,
    /// timestamp the icon was last fetched
    pub updated_icon: i64,
    pub display_name: String,
    pub url: String,
    pub website_url: String,
    pub tree_path: Option<Vec<u16>>,
    pub status: usize,
    pub num_msg_all_unread: Option<(isize, isize)>,
    pub is_dirty: bool,
}

/// Deleted, or parked under one of the special parent ids.
pub open spec fn is_gone(e: SubscriptionEntry) -> bool {
    e.parent_subs_id == SRC_REPO_ID_DELETED || e.parent_subs_id == SRC_REPO_ID_MOVING || e.deleted
}

/// The entry after its status word was changed: the word is replaced, and the entry
/// marked dirty where it changed.
pub open spec fn status_changed(old_e: SubscriptionEntry, new_e: SubscriptionEntry, mask: usize, on: bool) -> bool {
    let st = mask_applied(old_e.status, mask, on);
    &&& new_e.status == st
    &&& new_e.is_dirty == (old_e.is_dirty || st != old_e.status)
    &&& new_e == SubscriptionEntry { status: new_e.status, is_dirty: new_e.is_dirty, ..old_e }
}

/// The tree path of an entry, by value.
pub open spec fn tree_path_of(e: SubscriptionEntry) -> Option<Seq<u16>> {
    match e.tree_path {
        Some(p) => Some(p@),
        None => None,
    }
}

/// Two entries hold the same values (the tree path compared by its elements).
pub open spec fn same_subscription(a: SubscriptionEntry, b: SubscriptionEntry) -> bool {
    &&& a.subs_id == b.subs_id
    &&& a.parent_subs_id == b.parent_subs_id
    &&& a.is_folder == b.is_folder
    &&& a.last_selected_msg == b.last_selected_msg
    &&& a.expanded == b.expanded
    &&& a.deleted == b.deleted
    &&& a.folder_position == b.folder_position
    &&& a.icon_id == b.icon_id
    &&& a.updated_ext == b.updated_ext
    &&& a.updated_int == b.updated_int
    &&& a.updated_icon == b.updated_icon
    &&& a.display_name@ == b.display_name@
    &&& a.url@ == b.url@
    &&& a.website_url@ == b.website_url@
    &&& tree_path_of(a) == tree_path_of(b)
    &&& a.status == b.status
    &&& a.num_msg_all_unread == b.num_msg_all_unread
    &&& a.is_dirty == b.is_dirty
}

/// A new entry as made for a subscription or a folder that is not stored yet.
pub open spec fn fresh_entry(e: SubscriptionEntry, display: Seq<char>, url: Seq<char>, is_folder: bool, parent: isize, icon_id: usize) -> bool {
    &&& e.subs_id == 0 && e.parent_subs_id == parent && e.is_folder == is_folder
    &&& e.display_name@ == display && e.url@ == url && e.icon_id == icon_id
    &&& e.folder_position == 0 && e.updated_ext == 0 && e.updated_int == 0 && e.updated_icon == 0
    &&& !e.expanded && e.website_url@ == Seq::<char>::empty() && e.last_selected_msg == -1
    &&& e.num_msg_all_unread is None && e.status == 0 && e.tree_path is None && e.is_dirty && !e.deleted
}

impl SubscriptionEntry {
    /// A new folder under the given parent, shown with the given icon.
    pub fn from_new_foldername(display: String, parent_source_repo_id: isize, folder_icon_id: usize) -> (r: SubscriptionEntry)
        ensures
            fresh_entry(r, display@, Seq::<char>::empty(), true, parent_source_repo_id, folder_icon_id),
    {
        SubscriptionEntry {
            subs_id: 0,
            display_name: display,
            is_folder: true,
            url: String::new(),
            icon_id: folder_icon_id,
            parent_subs_id: parent_source_repo_id,
            folder_position: 0,
            updated_ext: 0,
            updated_int: 0,
            updated_icon: 0,
            expanded: false,
            website_url: String::new(),
            last_selected_msg: -1,
            num_msg_all_unread: None,
            status: 0,
            tree_path: None,
            is_dirty: true,
            deleted: false,
        }
    }

    /// A new feed at the top level, shown with the given icon.
    pub fn from_new_url(display: String, url_: String, feed_icon_id: usize) -> (r: SubscriptionEntry)
        ensures
            fresh_entry(r, display@, url_@, false, 0, feed_icon_id),
    {
        SubscriptionEntry {
            subs_id: 0,
            display_name: display,
            is_folder: false,
            url: url_,
            icon_id: feed_icon_id,
            parent_subs_id: 0,
            folder_position: 0,
            updated_ext: 0,
            updated_int: 0,
            updated_icon: 0,
            expanded: false,
            website_url: String::new(),
            last_selected_msg: -1,
            num_msg_all_unread: None,
            is_dirty: true,
            status: 0,
            tree_path: None,
            deleted: false,
        }
    }

    /// A copy of this entry.
    pub fn duplicate(&self) -> (r: SubscriptionEntry)
        ensures
            same_subscription(r, *self),
    {
        let tp = match &self.tree_path {
            Some(v) => Some(crate::db::subscription_state::copy_path(v)),
            None => None,
        };
        SubscriptionEntry {
            subs_id: self.subs_id,
            parent_subs_id: self.parent_subs_id,
            is_folder: self.is_folder,
            last_selected_msg: self.last_selected_msg,
            expanded: self.expanded,
            deleted: self.deleted,
            folder_position: self.folder_position,
            icon_id: self.icon_id,
            updated_ext: self.updated_ext,
            updated_int: self.updated_int,
            updated_icon: self.updated_icon,
            display_name: self.display_name.clone(),
            url: self.url.clone(),
            website_url: self.website_url.clone(),
            tree_path: tp,
            status: self.status,
            num_msg_all_unread: self.num_msg_all_unread,
            is_dirty: self.is_dirty,
        }
    }

    /// Whether the subscription is deleted or parked under a special parent id.
    pub fn isdeleted(&self) -> (r: bool)
        ensures
            r == is_gone(*self),
    {
        self.parent_subs_id == SRC_REPO_ID_DELETED || self.parent_subs_id == SRC_REPO_ID_MOVING
            || self.is_deleted()
    }
}

impl Default for SubscriptionEntry {
    /// An entry with all numbers 0, empty texts and no flags.
    fn default() -> (r: SubscriptionEntry)
        ensures
            r.subs_id == 0 && r.parent_subs_id == 0 && !r.is_folder && r.last_selected_msg == 0,
            !r.expanded && !r.deleted && r.folder_position == 0 && r.icon_id == 0,
            r.updated_ext == 0 && r.updated_int == 0 && r.updated_icon == 0,
            r.display_name@ == Seq::<char>::empty() && r.url@ == Seq::<char>::empty(),
            r.website_url@ == Seq::<char>::empty(),
            r.tree_path is None && r.status == 0 && r.num_msg_all_unread is None && !r.is_dirty,
    {
        SubscriptionEntry {
            subs_id: 0,
            parent_subs_id: 0,
            is_folder: false,
            last_selected_msg: 0,
            expanded: false,
            deleted: false,
            folder_position: 0,
            icon_id: 0,
            updated_ext: 0,
            updated_int: 0,
            updated_icon: 0,
            display_name: String::new(),
            url: String::new(),
            website_url: String::new(),
            tree_path: None,
            status: 0,
            num_msg_all_unread: None,
            is_dirty: false,
        }
    }
}

/// Flags of a subscription that the tree shows.
pub trait FeedSourceState {
    fn is_expanded(&self) -> bool;
    fn set_expanded(&mut self, new_exp: bool);

    fn is_err_on_fetch(&self) -> bool;
    fn set_err_on_fetch(&mut self, n: bool);

    fn is_fetch_scheduled(&self) -> bool;
    fn set_fetch_scheduled(&mut self, n: bool);

    fn is_fetch_scheduled_jobcreated(&self) -> bool;
    fn set_fetch_scheduled_jobcreated(&mut self, n: bool);

    fn is_fetch_in_progress(&self) -> bool;
    fn set_fetch_in_progress(&mut self, n: bool);

    fn is_deleted(&self) -> bool;
    fn set_deleted(&mut self, n: bool);

    fn check_bitmask(&self, bitmask: usize) -> bool;
    fn change_bitmask(&mut self, bitmask: usize, new_state: bool);
}

impl FeedSourceState for SubscriptionEntry {
    fn is_err_on_fetch(&self) -> (r: bool)
        ensures
            r == mask_held(self.status, 64),
    {
        self.check_bitmask(StatusMask::ErrFetchReq.mask())
    }

    fn set_err_on_fetch(&mut self, n: bool)
        ensures
            status_changed(*old(self), *final(self), 64, n),
    {
        self.change_bitmask(StatusMask::ErrFetchReq.mask(), n)
    }

    fn is_fetch_scheduled(&self) -> (r: bool)
        ensures
            r == mask_held(self.status, 8),
    {
        self.check_bitmask(StatusMask::FetchScheduled.mask())
    }

    fn set_fetch_scheduled(&mut self, n: bool)
        ensures
            status_changed(*old(self), *final(self), 8, n),
    {
        self.change_bitmask(StatusMask::FetchScheduled.mask(), n)
    }

    fn is_fetch_scheduled_jobcreated(&self) -> (r: bool)
        ensures
            r == mask_held(self.status, 16),
    {
        self.check_bitmask(StatusMask::FetchScheduledJobCreated.mask())
    }

    fn set_fetch_scheduled_jobcreated(&mut self, n: bool)
        ensures
            status_changed(*old(self), *final(self), 16, n),
    {
        self.change_bitmask(StatusMask::FetchScheduledJobCreated.mask(), n)
    }

    fn is_fetch_in_progress(&self) -> (r: bool)
        ensures
            r == mask_held(self.status, 32),
    {
        self.check_bitmask(StatusMask::FetchInProgress.mask())
    }

    fn set_fetch_in_progress(&mut self, n: bool)
        ensures
            status_changed(*old(self), *final(self), 32, n),
    {
        self.change_bitmask(StatusMask::FetchInProgress.mask(), n)
    }

    fn is_deleted(&self) -> (r: bool)
        ensures
            r == self.deleted,
    {
        self.deleted
    }

    fn set_deleted(&mut self, n: bool)
        ensures
            *final(self) == (SubscriptionEntry { deleted: n, ..*old(self) }),
    {
        self.deleted = n
    }

    fn is_expanded(&self) -> (r: bool)
        ensures
            r == self.expanded,
    {
        self.expanded
    }

    fn set_expanded(&mut self, new_exp: bool)
        ensures
            *final(self) == (SubscriptionEntry { expanded: new_exp, ..*old(self) }),
    {
        self.expanded = new_exp;
    }

    fn check_bitmask(&self, bitmask: usize) -> (r: bool)
        ensures
            r == mask_held(self.status, bitmask),
    {
        self.status & bitmask == bitmask
    }

    fn change_bitmask(&mut self, bitmask: usize, new_state: bool)
        ensures
            status_changed(*old(self), *final(self), bitmask, new_state),
    {
        let new_st = match new_state {
            true => self.status | bitmask,
            false => self.status & !bitmask,
        };
        if new_st != self.status {
            self.status = new_st;
            self.is_dirty = true;
        }
    }
}

} // verus!
