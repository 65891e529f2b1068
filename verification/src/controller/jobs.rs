use vstd::prelude::*;
use crate::controller::contentlist::CJob;
use crate::controller::subscriptionmove::{entry_by_id, get_by_index, same_found};
use crate::db::subscription_entry::{is_gone, mask_held, same_subscription, SubscriptionEntry};
use crate::db::subscription_state::{has_status, scan_result, state_bit, with_status, ISubscriptionState, StatusMask, SubsMapEntry, SubscriptionState};
use crate::controller::sourcetree::{feed_ids, mark_schedule_fetch, process_tree_read_count, set_fetch_finished, set_fetch_in_progress, statuses_set};
use crate::db::subscription_entry::mask_applied;
use crate::text::{append_chars, chars_of, decimal, decimal_of, is_lit, opt_text, string_of};

verus! {

broadcast use vstd::string::group_string_axioms;

/// Jobs that can be told apart, so that a batch of them is handled once each.
pub trait SameJob: Sized {
    /// Whether two jobs ask for the same work.
    spec fn same(&self, other: &Self) -> bool;

    /// Whether two jobs ask for the same work.
    fn same_as(&self, other: &Self) -> (r: bool)
        ensures
            r == self.same(other),
    ;
}

/// The jobs of a batch, each kept where no earlier kept job asks for the same work.
pub open spec fn dedup<J: SameJob>(s: Seq<J>) -> Seq<J>
    decreases s.len(),
{
    if s.len() == 0 {
        Seq::empty()
    } else {
        let d = dedup(s.drop_last());
        if exists|i: int| 0 <= i < d.len() && #[trigger] d[i].same(&s.last()) {
            d
        } else {
            d.push(s.last())
        }
    }
}

/// A batch of jobs with the repeated ones left out, in their order (see `dedup`).
pub fn dedup_jobs<J: SameJob>(jobs: Vec<J>) -> (r: Vec<J>)
    ensures
        r@ == dedup(jobs@),
{
    let ghost orig = jobs@;
    let mut rest = jobs;
    let mut out: Vec<J> = Vec::new();
    let ghost mut k: int = 0;
    proof {
        assert(orig.take(0) =~= Seq::<J>::empty());
        assert(orig.skip(0) =~= orig);
    }
    while rest.len() > 0
        invariant
            0 <= k <= orig.len(),
            rest@ == orig.skip(k),
            out@ == dedup(orig.take(k)),
        decreases rest.len(),
    {
        let j = rest.remove(0);
        proof {
            assert(j == orig[k]);
            assert(orig.take(k + 1).drop_last() =~= orig.take(k));
            assert(orig.take(k + 1).last() == orig[k]);
            assert(rest@ =~= orig.skip(k + 1));
        }
        let mut found = false;
        let mut i: usize = 0;
        while i < out.len()
            invariant
                i <= out@.len(),
                found <==> exists|t: int| 0 <= t < i && #[trigger] out@[t].same(&j),
            decreases out.len() - i,
        {
            if out[i].same_as(&j) {
                found = true;
            }
            i = i + 1;
        }
        if !found {
            out.push(j);
        }
        proof {
            k = k + 1;
        }
    }
    proof {
        assert(orig.take(k) =~= orig);
    }
    out
}

/// Whether two paths are the same.
fn same_u16s(a: &Vec<u16>, b: &Vec<u16>) -> (r: bool)
    ensures
        r == (a@ == b@),
{
    if a.len() != b.len() {
        return false;
    }
    let mut i: usize = 0;
    while i < a.len()
        invariant
            a@.len() == b@.len(),
            i <= a@.len(),
            forall|t: int| 0 <= t < i ==> a@[t] == b@[t],
        decreases a.len() - i,
    {
        if a[i] != b[i] {
            return false;
        }
        i = i + 1;
    }
    proof {
        assert(a@ =~= b@);
    }
    true
}

/// Whether two optional texts are the same.
fn same_opt_text(a: &Option<String>, b: &Option<String>) -> (r: bool)
    ensures
        r == (opt_text(*a) == opt_text(*b)),
{
    match (a, b) {
        (Some(x), Some(y)) => is_lit(x.as_str(), y.as_str()),
        (None, None) => true,
        _ => false,
    }
}

/// Work for the subscription tree.
#[derive(Debug)]
pub enum SJob {
    /// Store the subscriptions into the tree adapter.
    FillSubscriptionsAdapter,
    /// Update the whole tree view.
    GuiUpdateTreeAll,
    /// Update the tree row of a subscription.
    GuiUpdateTree(isize),
    /// Update the tree below a path.
    GuiUpdateTreePartial(Vec<u16>),
    ScheduleFetchAllFeeds,
    CheckSpinnerActive,
    /// subscription id
    ScheduleUpdateFeed(isize),
    /// subscription id
    SetFetchInProgress(isize),
    /// subscription id, whether an error happened
    SetFetchFinished(isize, bool),
    /// subscription id, icon id
    SetIconId(isize, isize),
    SanitizeSources,
    /// subscription id, time of the update, time the feed was made
    StoreFeedCreateUpdate(isize, i64, i64),
    /// feed address, display name, icon id, homepage
    NewFeedSourceEdit(String, String, isize, String),
    /// subscription id
    SetSelectedFeedSource(isize),
    /// subscription id, message id
    UpdateLastSelectedMessageId(isize, isize),
    UpdateTreePaths,
    /// subscription id, all messages, unread messages
    NotifyTreeReadCount(isize, isize, isize),
    /// subscription id, whether some were removed, all messages, unread messages
    NotifyMessagesCountsChecked(isize, bool, isize, isize),
    ScanEmptyUnread,
    EmptyTreeCreateDefaultSubscriptions,
    /// dragged text, feed address, error text, homepage title
    DragUrlEvaluated(String, String, String, String),
    /// subscription id
    SetCursorToSubsID(isize),
    SetGuiTreeColumn1Width,
}

impl SameJob for SJob {
    open spec fn same(&self, other: &Self) -> bool {
        match (*self, *other) {
            (SJob::FillSubscriptionsAdapter, SJob::FillSubscriptionsAdapter) => true,
            (SJob::GuiUpdateTreeAll, SJob::GuiUpdateTreeAll) => true,
            (SJob::GuiUpdateTree(a0), SJob::GuiUpdateTree(b0)) => a0 == b0,
            (SJob::GuiUpdateTreePartial(a0), SJob::GuiUpdateTreePartial(b0)) => a0@ == b0@,
            (SJob::ScheduleFetchAllFeeds, SJob::ScheduleFetchAllFeeds) => true,
            (SJob::CheckSpinnerActive, SJob::CheckSpinnerActive) => true,
            (SJob::ScheduleUpdateFeed(a0), SJob::ScheduleUpdateFeed(b0)) => a0 == b0,
            (SJob::SetFetchInProgress(a0), SJob::SetFetchInProgress(b0)) => a0 == b0,
            (SJob::SetFetchFinished(a0, a1), SJob::SetFetchFinished(b0, b1)) => a0 == b0 && a1 == b1,
            (SJob::SetIconId(a0, a1), SJob::SetIconId(b0, b1)) => a0 == b0 && a1 == b1,
            (SJob::SanitizeSources, SJob::SanitizeSources) => true,
            (SJob::StoreFeedCreateUpdate(a0, a1, a2), SJob::StoreFeedCreateUpdate(b0, b1, b2)) => a0 == b0 && a1 == b1 && a2 == b2,
            (SJob::NewFeedSourceEdit(a0, a1, a2, a3), SJob::NewFeedSourceEdit(b0, b1, b2, b3)) => a0@ == b0@ && a1@ == b1@ && a2 == b2 && a3@ == b3@,
            (SJob::SetSelectedFeedSource(a0), SJob::SetSelectedFeedSource(b0)) => a0 == b0,
            (SJob::UpdateLastSelectedMessageId(a0, a1), SJob::UpdateLastSelectedMessageId(b0, b1)) => a0 == b0 && a1 == b1,
            (SJob::UpdateTreePaths, SJob::UpdateTreePaths) => true,
            (SJob::NotifyTreeReadCount(a0, a1, a2), SJob::NotifyTreeReadCount(b0, b1, b2)) => a0 == b0 && a1 == b1 && a2 == b2,
            (SJob::NotifyMessagesCountsChecked(a0, a1, a2, a3), SJob::NotifyMessagesCountsChecked(b0, b1, b2, b3)) => a0 == b0 && a1 == b1 && a2 == b2 && a3 == b3,
            (SJob::ScanEmptyUnread, SJob::ScanEmptyUnread) => true,
            (SJob::EmptyTreeCreateDefaultSubscriptions, SJob::EmptyTreeCreateDefaultSubscriptions) => true,
            (SJob::DragUrlEvaluated(a0, a1, a2, a3), SJob::DragUrlEvaluated(b0, b1, b2, b3)) => a0@ == b0@ && a1@ == b1@ && a2@ == b2@ && a3@ == b3@,
            (SJob::SetCursorToSubsID(a0), SJob::SetCursorToSubsID(b0)) => a0 == b0,
            (SJob::SetGuiTreeColumn1Width, SJob::SetGuiTreeColumn1Width) => true,
            _ => false,
        }
    }

    fn same_as(&self, other: &Self) -> (r: bool) {
        match (self, other) {
            (SJob::FillSubscriptionsAdapter, SJob::FillSubscriptionsAdapter) => true,
            (SJob::GuiUpdateTreeAll, SJob::GuiUpdateTreeAll) => true,
            (SJob::GuiUpdateTree(a0), SJob::GuiUpdateTree(b0)) => *a0 == *b0,
            (SJob::GuiUpdateTreePartial(a0), SJob::GuiUpdateTreePartial(b0)) => same_u16s(a0, b0),
            (SJob::ScheduleFetchAllFeeds, SJob::ScheduleFetchAllFeeds) => true,
            (SJob::CheckSpinnerActive, SJob::CheckSpinnerActive) => true,
            (SJob::ScheduleUpdateFeed(a0), SJob::ScheduleUpdateFeed(b0)) => *a0 == *b0,
            (SJob::SetFetchInProgress(a0), SJob::SetFetchInProgress(b0)) => *a0 == *b0,
            (SJob::SetFetchFinished(a0, a1), SJob::SetFetchFinished(b0, b1)) => *a0 == *b0 && *a1 == *b1,
            (SJob::SetIconId(a0, a1), SJob::SetIconId(b0, b1)) => *a0 == *b0 && *a1 == *b1,
            (SJob::SanitizeSources, SJob::SanitizeSources) => true,
            (SJob::StoreFeedCreateUpdate(a0, a1, a2), SJob::StoreFeedCreateUpdate(b0, b1, b2)) => *a0 == *b0 && *a1 == *b1 && *a2 == *b2,
            (SJob::NewFeedSourceEdit(a0, a1, a2, a3), SJob::NewFeedSourceEdit(b0, b1, b2, b3)) => is_lit(a0.as_str(), b0.as_str()) && is_lit(a1.as_str(), b1.as_str()) && *a2 == *b2 && is_lit(a3.as_str(), b3.as_str()),
            (SJob::SetSelectedFeedSource(a0), SJob::SetSelectedFeedSource(b0)) => *a0 == *b0,
            (SJob::UpdateLastSelectedMessageId(a0, a1), SJob::UpdateLastSelectedMessageId(b0, b1)) => *a0 == *b0 && *a1 == *b1,
            (SJob::UpdateTreePaths, SJob::UpdateTreePaths) => true,
            (SJob::NotifyTreeReadCount(a0, a1, a2), SJob::NotifyTreeReadCount(b0, b1, b2)) => *a0 == *b0 && *a1 == *b1 && *a2 == *b2,
            (SJob::NotifyMessagesCountsChecked(a0, a1, a2, a3), SJob::NotifyMessagesCountsChecked(b0, b1, b2, b3)) => *a0 == *b0 && *a1 == *b1 && *a2 == *b2 && *a3 == *b3,
            (SJob::ScanEmptyUnread, SJob::ScanEmptyUnread) => true,
            (SJob::EmptyTreeCreateDefaultSubscriptions, SJob::EmptyTreeCreateDefaultSubscriptions) => true,
            (SJob::DragUrlEvaluated(a0, a1, a2, a3), SJob::DragUrlEvaluated(b0, b1, b2, b3)) => is_lit(a0.as_str(), b0.as_str()) && is_lit(a1.as_str(), b1.as_str()) && is_lit(a2.as_str(), b2.as_str()) && is_lit(a3.as_str(), b3.as_str()),
            (SJob::SetCursorToSubsID(a0), SJob::SetCursorToSubsID(b0)) => *a0 == *b0,
            (SJob::SetGuiTreeColumn1Width, SJob::SetGuiTreeColumn1Width) => true,
            _ => false,
        }
    }
}

/// Work for the window processor.
#[derive(Debug)]
pub enum Job {
    StartApplication,
    StopApplication,
    /// file name
    ReadOpmlFile(String),
    /// text view id
    UpdateTextView(u8),
    /// web view id
    UpdateWebView(u8),
    /// text entry id
    UpdateTextEntry(u8),
    /// subscription id
    SwitchContentList(isize),
    /// label id
    UpdateLabel(u8),
    NotifyConfigChanged,
    /// thread number, job kind
    DownloaderJobStarted(u8, u8),
    /// subscription id, thread number, job kind, elapsed milliseconds, job description, remote address
    DownloaderJobFinished(isize, u8, u8, u32, String, String),
    /// ticks left
    CheckFocusMarker(u8),
    /// message
    AddBottomDisplayErrorMessage(String),
    /// clean-up step, milliseconds, message of the step
    NotifyDbClean(u8, u32, Option<String>),
    StoreDefaultIcons,
}

impl SameJob for Job {
    open spec fn same(&self, other: &Self) -> bool {
        match (*self, *other) {
            (Job::StartApplication, Job::StartApplication) => true,
            (Job::StopApplication, Job::StopApplication) => true,
            (Job::ReadOpmlFile(a0), Job::ReadOpmlFile(b0)) => a0@ == b0@,
            (Job::UpdateTextView(a0), Job::UpdateTextView(b0)) => a0 == b0,
            (Job::UpdateWebView(a0), Job::UpdateWebView(b0)) => a0 == b0,
            (Job::UpdateTextEntry(a0), Job::UpdateTextEntry(b0)) => a0 == b0,
            (Job::SwitchContentList(a0), Job::SwitchContentList(b0)) => a0 == b0,
            (Job::UpdateLabel(a0), Job::UpdateLabel(b0)) => a0 == b0,
            (Job::NotifyConfigChanged, Job::NotifyConfigChanged) => true,
            (Job::DownloaderJobStarted(a0, a1), Job::DownloaderJobStarted(b0, b1)) => a0 == b0 && a1 == b1,
            (Job::DownloaderJobFinished(a0, a1, a2, a3, a4, a5), Job::DownloaderJobFinished(b0, b1, b2, b3, b4, b5)) => a0 == b0 && a1 == b1 && a2 == b2 && a3 == b3 && a4@ == b4@ && a5@ == b5@,
            (Job::CheckFocusMarker(a0), Job::CheckFocusMarker(b0)) => a0 == b0,
            (Job::AddBottomDisplayErrorMessage(a0), Job::AddBottomDisplayErrorMessage(b0)) => a0@ == b0@,
            (Job::NotifyDbClean(a0, a1, a2), Job::NotifyDbClean(b0, b1, b2)) => a0 == b0 && a1 == b1 && opt_text(a2) == opt_text(b2),
            (Job::StoreDefaultIcons, Job::StoreDefaultIcons) => true,
            _ => false,
        }
    }

    fn same_as(&self, other: &Self) -> (r: bool) {
        match (self, other) {
            (Job::StartApplication, Job::StartApplication) => true,
            (Job::StopApplication, Job::StopApplication) => true,
            (Job::ReadOpmlFile(a0), Job::ReadOpmlFile(b0)) => is_lit(a0.as_str(), b0.as_str()),
            (Job::UpdateTextView(a0), Job::UpdateTextView(b0)) => *a0 == *b0,
            (Job::UpdateWebView(a0), Job::UpdateWebView(b0)) => *a0 == *b0,
            (Job::UpdateTextEntry(a0), Job::UpdateTextEntry(b0)) => *a0 == *b0,
            (Job::SwitchContentList(a0), Job::SwitchContentList(b0)) => *a0 == *b0,
            (Job::UpdateLabel(a0), Job::UpdateLabel(b0)) => *a0 == *b0,
            (Job::NotifyConfigChanged, Job::NotifyConfigChanged) => true,
            (Job::DownloaderJobStarted(a0, a1), Job::DownloaderJobStarted(b0, b1)) => *a0 == *b0 && *a1 == *b1,
            (Job::DownloaderJobFinished(a0, a1, a2, a3, a4, a5), Job::DownloaderJobFinished(b0, b1, b2, b3, b4, b5)) => *a0 == *b0 && *a1 == *b1 && *a2 == *b2 && *a3 == *b3 && is_lit(a4.as_str(), b4.as_str()) && is_lit(a5.as_str(), b5.as_str()),
            (Job::CheckFocusMarker(a0), Job::CheckFocusMarker(b0)) => *a0 == *b0,
            (Job::AddBottomDisplayErrorMessage(a0), Job::AddBottomDisplayErrorMessage(b0)) => is_lit(a0.as_str(), b0.as_str()),
            (Job::NotifyDbClean(a0, a1, a2), Job::NotifyDbClean(b0, b1, b2)) => *a0 == *b0 && *a1 == *b1 && same_opt_text(a2, b2),
            (Job::StoreDefaultIcons, Job::StoreDefaultIcons) => true,
            _ => false,
        }
    }
}

/// What the subscription tree does for a job, besides what the state map records.
#[derive(Debug)]
pub enum TreeAction {
    /// Handle the job as it is: it calls the window layer, the stores or the subscription
    /// mover, and leaves the tree's state map alone.
    Pass(SJob),
    /// Queue a job for the tree.
    QueueJob(SJob),
    /// Show or hide the spinner that tells a fetch is running.
    SpinnerVisible(bool),
    /// Redraw the message list after a fetch of a subscription ended: only the list where
    /// that subscription is the selected one, else the selected one's list.
    RefreshMessages(isize),
    /// Queue the scan for unknown counts again.
    RequeueScan,
    /// Sum the counts of a folder from its children.
    SumUpFolder(isize),
    /// Ask the message list for the counts of a feed.
    RequestUnreadCount(isize),
    /// Redraw the tree row of a subscription.
    UpdateTreeRow(isize),
    /// Store the times of a feed: of the update, and of its making where it is known.
    StoreTimestamps(isize, i64, Option<i64>),
}

/// The request for the counts of one subscription found by the scan: folders sum up their
/// children, feeds ask the message list.
pub open spec fn count_request(p: (isize, bool)) -> TreeAction {
    if p.1 { TreeAction::SumUpFolder(p.0) } else { TreeAction::RequestUnreadCount(p.0) }
}

/// What the scan for unknown counts asks: nothing where it found none; else the scan once
/// more, and a count request for each subscription found, in order.
pub open spec fn scan_actions(u: Seq<(isize, bool)>) -> Seq<TreeAction> {
    if u.len() == 0 {
        Seq::empty()
    } else {
        seq![TreeAction::RequeueScan] + u.map_values(|p: (isize, bool)| count_request(p))
    }
}

/// The actions for the subscriptions the scan found (see `scan_actions`).
pub fn scan_unread_actions(unread_ids: &Vec<(isize, bool)>) -> (acts: Vec<TreeAction>)
    ensures
        acts@ == scan_actions(unread_ids@),
{
    let mut acts: Vec<TreeAction> = Vec::new();
    if unread_ids.len() == 0 {
        proof {
            assert(acts@ =~= scan_actions(unread_ids@));
        }
        return acts;
    }
    acts.push(TreeAction::RequeueScan);
    let mut i: usize = 0;
    while i < unread_ids.len()
        invariant
            i <= unread_ids@.len(),
            acts@ == seq![TreeAction::RequeueScan] + unread_ids@.take(i as int).map_values(|p: (isize, bool)| count_request(p)),
        decreases unread_ids.len() - i,
    {
        let (id, is_folder) = unread_ids[i];
        if is_folder {
            acts.push(TreeAction::SumUpFolder(id));
        } else {
            acts.push(TreeAction::RequestUnreadCount(id));
        }
        proof {
            assert(unread_ids@.take(i + 1) =~= unread_ids@.take(i as int).push(unread_ids@[i as int]));
            assert(acts@ =~= seq![TreeAction::RequeueScan] + unread_ids@.take(i + 1).map_values(|p: (isize, bool)| count_request(p)));
        }
        i = i + 1;
    }
    proof {
        assert(unread_ids@.take(i as int) =~= unread_ids@);
    }
    acts
}

/// The state after checked counts arrived for `id`: its counts set and marked checked,
/// and the counts of `cleared` (a parent) forgotten where there is one.
pub open spec fn counts_checked_map(m: Map<isize, SubsMapEntry>, id: isize, a: isize, u: isize, cleared: Option<isize>) -> Map<isize, SubsMapEntry> {
    Map::new(|k: isize| m.contains_key(k), |k: isize| {
        let e0 = m[k];
        let e1 = if k == id {
            with_status(SubsMapEntry { num_msg_all_unread: Some((a, u)), ..e0 }, mask_applied(e0.status, state_bit(StatusMask::MessageCountsChecked), true))
        } else {
            e0
        };
        if cleared == Some(k) { SubsMapEntry { num_msg_all_unread: None, ..e1 } } else { e1 }
    })
}

/// The parent whose counts are forgotten after messages of `id` were removed: that of the
/// stored subscription, where it is above zero.
pub open spec fn cleared_parent(m: Map<isize, SubsMapEntry>, entries: Seq<SubscriptionEntry>, id: isize, removed_some: bool) -> Option<isize> {
    if removed_some && m.contains_key(id) && entry_by_id(entries, id)->Some_0.parent_subs_id > 0 {
        Some(entry_by_id(entries, id)->Some_0.parent_subs_id)
    } else {
        None
    }
}

/// What the tree does after the counts of `id` were checked: where messages were removed
/// and the subscription is known, it redraws the row, and where it has a parent, the scan
/// for unknown counts is queued again.
pub open spec fn counts_checked_actions(m: Map<isize, SubsMapEntry>, entries: Seq<SubscriptionEntry>, id: isize, removed_some: bool) -> Seq<TreeAction> {
    if removed_some && m.contains_key(id) {
        if cleared_parent(m, entries, id, removed_some) is Some {
            seq![TreeAction::UpdateTreeRow(id), TreeAction::RequeueScan]
        } else {
            seq![TreeAction::UpdateTreeRow(id)]
        }
    } else {
        Seq::empty()
    }
}

/// Records counts that the message list checked for `id` (see `counts_checked_map` and
/// `counts_checked_actions`).
pub fn counts_checked_step(state: &mut SubscriptionState, entries: &[SubscriptionEntry], subs_id: isize, removed_some: bool, num_all: isize, num_unread: isize) -> (acts: Vec<TreeAction>)
    requires
        removed_some && old(state)@.contains_key(subs_id) ==> entry_by_id(entries@, subs_id) is Some,
    ensures
        final(state)@ == counts_checked_map(old(state)@, subs_id, num_all, num_unread,
            cleared_parent(old(state)@, entries@, subs_id, removed_some)),
        acts@ == counts_checked_actions(old(state)@, entries@, subs_id, removed_some),
{
    let ghost m0 = state@;
    let _e = state.set_num_all_unread(subs_id, num_all, num_unread);
    let ids = vec![subs_id];
    state.set_status(ids.as_slice(), StatusMask::MessageCountsChecked, true);
    let mut acts: Vec<TreeAction> = Vec::new();
    let ghost m2 = state@;
    proof {
        assert(ids@.contains(subs_id)) by { assert(ids@[0] == subs_id); }
        assert forall|k: isize| ids@.contains(k) implies k == subs_id by {}
        assert(m2 =~= counts_checked_map(m0, subs_id, num_all, num_unread, None));
    }
    if removed_some {
        if let Some(_sta) = state.get_state(subs_id) {
            let subs_e = match get_by_index(entries, subs_id) {
                Some(e) => e,
                None => { return acts; },
            };
            acts.push(TreeAction::UpdateTreeRow(subs_id));
            if subs_e.parent_subs_id > 0 {
                state.clear_num_all_unread(subs_e.parent_subs_id);
                acts.push(TreeAction::RequeueScan);
                proof {
                    assert(state@ =~= counts_checked_map(m0, subs_id, num_all, num_unread, cleared_parent(m0, entries@, subs_id, removed_some)));
                }
            }
        }
    }
    proof {
        assert(acts@ =~= counts_checked_actions(m0, entries@, subs_id, removed_some));
    }
    acts
}

/// The times of a feed to store: a time of making of zero or less counts as unknown.
pub fn store_feed_create_update(src_id: isize, update_now: i64, creation: i64) -> (a: TreeAction)
    ensures
        a == TreeAction::StoreTimestamps(src_id, update_now, if creation > 0 { Some(creation) } else { None }),
{
    let o_creation = if creation > 0 { Some(creation) } else { None };
    TreeAction::StoreTimestamps(src_id, update_now, o_creation)
}

/// The ids of the feeds among the children of `id` in the stored list, in order.
pub open spec fn child_feeds(entries: Seq<SubscriptionEntry>, id: isize) -> Seq<isize>
    decreases entries.len(),
{
    if entries.len() == 0 {
        Seq::empty()
    } else {
        let rest = child_feeds(entries.drop_last(), id);
        let e = entries.last();
        if e.parent_subs_id == id && !e.is_folder { rest.push(e.subs_id) } else { rest }
    }
}

/// The children of `id` in the stored list (what the store gives by parent id).
fn children_of(entries: &[SubscriptionEntry], id: isize) -> (r: Vec<SubscriptionEntry>)
    ensures
        feed_ids(r@) == child_feeds(entries@, id),
{
    let mut r: Vec<SubscriptionEntry> = Vec::new();
    let mut i: usize = 0;
    while i < entries.len()
        invariant
            i <= entries@.len(),
            feed_ids(r@) == child_feeds(entries@.take(i as int), id),
        decreases entries.len() - i,
    {
        proof {
            assert(entries@.take(i + 1).drop_last() =~= entries@.take(i as int));
            assert(entries@.take(i + 1).last() == entries@[i as int]);
        }
        if entries[i].parent_subs_id == id {
            let d = entries[i].duplicate();
            let ghost r0 = r@;
            r.push(d);
            proof {
                assert(r@.drop_last() =~= r0);
                assert(r@.last() == d);
            }
        }
        i = i + 1;
    }
    proof {
        assert(entries@.take(i as int) =~= entries@);
    }
    r
}

/// The state after every subscription that is no folder and not deleted is scheduled for
/// fetching.
pub open spec fn all_scheduled(m: Map<isize, SubsMapEntry>) -> Map<isize, SubsMapEntry> {
    Map::new(|k: isize| m.contains_key(k), |k: isize| if !mask_held(m[k].status, 256) && !mask_held(m[k].status, 512) {
        with_status(m[k], mask_applied(m[k].status, 8, true))
    } else {
        m[k]
    })
}

/// Whether scheduling `id` is skipped: its stored entry is deleted, or it is scheduled
/// already.
pub open spec fn schedule_skipped(m: Map<isize, SubsMapEntry>, entries: Seq<SubscriptionEntry>, id: isize) -> bool {
    entry_by_id(entries, id) matches Some(e) && (is_gone(e) || (m.contains_key(id) && mask_held(m[id].status, 8)))
}

/// Whether `id` is a stored folder.
pub open spec fn stored_folder(entries: Seq<SubscriptionEntry>, id: isize) -> bool {
    entry_by_id(entries, id) matches Some(e) && e.is_folder
}

/// The state after scheduling `id`: nothing where it is skipped; a folder schedules its
/// feeds; anything else schedules itself.
pub open spec fn schedule_map(m: Map<isize, SubsMapEntry>, entries: Seq<SubscriptionEntry>, id: isize) -> Map<isize, SubsMapEntry> {
    if schedule_skipped(m, entries, id) {
        m
    } else if stored_folder(entries, id) {
        statuses_set(m, child_feeds(entries, id), 8, true)
    } else {
        statuses_set(m, seq![id], 8, true)
    }
}

/// The state while `id` is fetched: in progress, neither scheduled nor pending.
pub open spec fn in_progress_map(m: Map<isize, SubsMapEntry>, id: isize) -> Map<isize, SubsMapEntry> {
    statuses_set(statuses_set(statuses_set(m, seq![id], 32, true), seq![id], 8, false), seq![id], 16, false)
}

/// The state after the fetch of `id` ended: not in progress, scheduled or pending, the
/// error flag as the fetch ended, and its counts forgotten.
pub open spec fn finished_map(m: Map<isize, SubsMapEntry>, id: isize, err: bool) -> Map<isize, SubsMapEntry> {
    let ids = seq![id];
    let s = statuses_set(statuses_set(statuses_set(statuses_set(m, ids, 32, false), ids, 8, false), ids, 16, false), ids, 64, err);
    Map::new(|k: isize| s.contains_key(k), |k: isize| if k == id { SubsMapEntry { num_msg_all_unread: None, ..s[k] } } else { s[k] })
}

/// The state after counts arrived for a known `id`: its counts set and those of its
/// parent folder (id above 0) forgotten.
pub open spec fn read_count_map(m: Map<isize, SubsMapEntry>, entries: Seq<SubscriptionEntry>, id: isize, a: isize, u: isize) -> Map<isize, SubsMapEntry> {
    if !m.contains_key(id) {
        m
    } else {
        let e = entry_by_id(entries, id).unwrap();
        let m1 = m.insert(id, SubsMapEntry { num_msg_all_unread: Some((a, u)), ..m[id] });
        if e.parent_subs_id > 0 && m1.contains_key(e.parent_subs_id) {
            m1.insert(e.parent_subs_id, SubsMapEntry { num_msg_all_unread: None, ..m1[e.parent_subs_id] })
        } else {
            m1
        }
    }
}

/// What the tree does after counts arrived for `id`: where the subscription is known, the
/// scan for unknown counts again where it has a parent, and a redraw of its row.
pub open spec fn read_count_actions(m: Map<isize, SubsMapEntry>, entries: Seq<SubscriptionEntry>, id: isize) -> Seq<TreeAction> {
    if !m.contains_key(id) {
        Seq::empty()
    } else if entry_by_id(entries, id).unwrap().parent_subs_id > 0 {
        seq![TreeAction::RequeueScan, TreeAction::UpdateTreeRow(id)]
    } else {
        seq![TreeAction::UpdateTreeRow(id)]
    }
}

/// Whether a feed of the state is being fetched.
pub open spec fn any_in_progress(m: Map<isize, SubsMapEntry>) -> bool {
    exists|id: isize| has_status(m, id, 32, true, false)
}

/// What the subscription tree does for one job of a batch, given the stored subscriptions
/// `entries`:
/// - the scan for unknown counts (at most `scan_limit`) gives `scan_actions` of what it found;
/// - checked counts are recorded (see `counts_checked_step`) and counts that arrived too
///   (see `read_count_map`);
/// - scheduling all feeds or one subscription, and the start and end of a fetch, change the
///   state map (`all_scheduled`, `schedule_map`, `in_progress_map`, `finished_map`) and ask
///   for the redraws and jobs that follow;
/// - the spinner check shows the spinner while a feed is being fetched;
/// - the times of a feed are stored (see `store_feed_create_update`);
/// - every other job is handed back as it is, the state map unchanged.
pub fn tree_job_step(state: &mut SubscriptionState, entries: &[SubscriptionEntry], job: SJob, scan_limit: usize) -> (acts: Vec<TreeAction>)
    requires
        job matches SJob::NotifyMessagesCountsChecked(id, removed, _, _) ==> (removed
            && old(state)@.contains_key(id) ==> entry_by_id(entries@, id) is Some),
        job matches SJob::NotifyTreeReadCount(id, _, _) ==> (old(state)@.contains_key(id) ==> entry_by_id(entries@, id) is Some),
    ensures
        match job {
            SJob::ScanEmptyUnread => final(state)@ == old(state)@ && exists|u: Seq<(isize, bool)>|
                scan_result(old(state)@, scan_limit, u) && acts@ == scan_actions(u),
            SJob::NotifyMessagesCountsChecked(id, removed, a, u) => final(state)@ == counts_checked_map(old(state)@, id, a,
                u, cleared_parent(old(state)@, entries@, id, removed)) && acts@ == counts_checked_actions(
                old(state)@, entries@, id, removed),
            SJob::NotifyTreeReadCount(id, a, u) => final(state)@ == read_count_map(old(state)@, entries@, id, a, u)
                && acts@ == read_count_actions(old(state)@, entries@, id),
            SJob::ScheduleFetchAllFeeds => final(state)@ == all_scheduled(old(state)@) && acts@.len() == 0,
            SJob::ScheduleUpdateFeed(id) => final(state)@ == schedule_map(old(state)@, entries@, id) && acts@ == if schedule_skipped(
                old(state)@, entries@, id) || stored_folder(entries@, id) {
                Seq::<TreeAction>::empty()
            } else {
                seq![TreeAction::UpdateTreeRow(id), TreeAction::QueueJob(SJob::GuiUpdateTree(id))]
            },
            SJob::SetFetchInProgress(id) => final(state)@ == in_progress_map(old(state)@, id) && acts@ == seq![
                TreeAction::SpinnerVisible(true), TreeAction::UpdateTreeRow(id)],
            SJob::SetFetchFinished(id, err) => final(state)@ == finished_map(old(state)@, id, err) && acts@ == seq![
                TreeAction::QueueJob(SJob::CheckSpinnerActive), TreeAction::RefreshMessages(id), TreeAction::RequeueScan,
                TreeAction::UpdateTreeRow(id)],
            SJob::CheckSpinnerActive => final(state)@ == old(state)@ && acts@ == seq![TreeAction::SpinnerVisible(
                any_in_progress(old(state)@))],
            SJob::StoreFeedCreateUpdate(id, now, creation) => final(state)@ == old(state)@ && acts@ == seq![
                TreeAction::StoreTimestamps(id, now, if creation > 0 { Some(creation) } else { None })],
            _ => final(state)@ == old(state)@ && acts@ == seq![TreeAction::Pass(job)],
        },
{
    let ghost m = state@;
    let mut acts: Vec<TreeAction> = Vec::new();
    match job {
        SJob::ScanEmptyUnread => {
            let u = state.scan_num_all_unread(scan_limit);
            scan_unread_actions(&u)
        },
        SJob::NotifyMessagesCountsChecked(id, removed, a, u) => counts_checked_step(state, entries, id, removed, a, u),
        SJob::NotifyTreeReadCount(id, a, u) => {
            match process_tree_read_count(state, entries, id, a, u) {
                Some((_e, _st, scan)) => {
                    if scan {
                        acts.push(TreeAction::RequeueScan);
                    }
                    acts.push(TreeAction::UpdateTreeRow(id));
                },
                None => {},
            }
            proof {
                assert(state@ =~= read_count_map(m, entries@, id, a, u));
                assert(acts@ =~= read_count_actions(m, entries@, id));
            }
            acts
        },
        SJob::ScheduleFetchAllFeeds => {
            state.set_schedule_fetch_all();
            proof {
                assert(state@ =~= all_scheduled(m));
            }
            acts
        },
        SJob::ScheduleUpdateFeed(id) => {
            let entry = get_by_index(entries, id);
            let children = children_of(entries, id);
            let redraw = mark_schedule_fetch(state, id, entry, children.as_slice());
            if redraw {
                acts.push(TreeAction::UpdateTreeRow(id));
                acts.push(TreeAction::QueueJob(SJob::GuiUpdateTree(id)));
            }
            proof {
                assert(state@ =~= schedule_map(m, entries@, id));
                if redraw {
                    assert(acts@ =~= seq![TreeAction::UpdateTreeRow(id), TreeAction::QueueJob(SJob::GuiUpdateTree(id))]);
                }
            }
            acts
        },
        SJob::SetFetchInProgress(id) => {
            set_fetch_in_progress(state, id);
            acts.push(TreeAction::SpinnerVisible(true));
            acts.push(TreeAction::UpdateTreeRow(id));
            proof {
                assert(acts@ =~= seq![TreeAction::SpinnerVisible(true), TreeAction::UpdateTreeRow(id)]);
            }
            acts
        },
        SJob::SetFetchFinished(id, err) => {
            set_fetch_finished(state, id, err);
            acts.push(TreeAction::QueueJob(SJob::CheckSpinnerActive));
            acts.push(TreeAction::RefreshMessages(id));
            acts.push(TreeAction::RequeueScan);
            acts.push(TreeAction::UpdateTreeRow(id));
            proof {
                assert(state@ =~= finished_map(m, id, err));
                assert(acts@ =~= seq![TreeAction::QueueJob(SJob::CheckSpinnerActive), TreeAction::RefreshMessages(id),
                    TreeAction::RequeueScan, TreeAction::UpdateTreeRow(id)]);
            }
            acts
        },
        SJob::CheckSpinnerActive => {
            let ids = state.get_ids_by_status(StatusMask::FetchInProgress, true, false);
            let visible = ids.len() > 0;
            proof {
                if visible {
                    assert(ids@.contains(ids@[0]));
                    assert(has_status(m, ids@[0], 32, true, false));
                } else {
                    assert forall|id: isize| !has_status(m, id, 32, true, false) by {
                        assert(!ids@.contains(id));
                    }
                }
            }
            acts.push(TreeAction::SpinnerVisible(visible));
            proof {
                assert(acts@ =~= seq![TreeAction::SpinnerVisible(any_in_progress(m))]);
            }
            acts
        },
        SJob::StoreFeedCreateUpdate(id, now, creation) => {
            acts.push(store_feed_create_update(id, now, creation));
            proof {
                assert(acts@ =~= seq![TreeAction::StoreTimestamps(id, now, if creation > 0 { Some(creation) } else { None })]);
            }
            acts
        },
        other => {
            acts.push(TreeAction::Pass(other));
            proof {
                assert(acts@ =~= seq![TreeAction::Pass(job)]);
            }
            acts
        },
    }
}

/// The last step of the database clean-up.
pub const CLEAN_STEPS_MAX: u8 = 11;

/// Which download took too long.
#[derive(Clone, Copy, Debug, PartialEq, Eq, Structural)]
pub enum SlowDownload {
    Feed,
    Icon,
}

/// What the window processor does for a job.
#[derive(Debug)]
pub enum GuiAction {
    /// Handle the job as it is: it calls the window layer and decides nothing.
    Pass(Job),
    /// A download thread finished: record a download that took too long (kind,
    /// subscription id, milliseconds, remote address), end the database check where the
    /// thread ran it, and show the thread idle.
    JobFinished {
        slow: Option<(SlowDownload, isize, u32, String)>,
        end_db_check: bool,
        thread: u8,
    },
    /// Queue the job again.
    Requeue(Job),
    /// Take the focus marker away.
    FocusMarkerOff,
    /// Show a step of the database clean-up: its number, the new text of the check
    /// (where the step brought a message), and whether the clean-up ended.
    DbCleanProgress { step: u8, text: Option<String>, finished: bool },
}

/// The text of the database check after a step with a message: the text so far, the
/// step's milliseconds, a tab, the message and a line break.
pub open spec fn db_check_text(prev: Seq<char>, duration_ms: u32, msg: Seq<char>) -> Seq<char> {
    prev + decimal(duration_ms as nat) + "\t"@ + msg + "\n"@
}

/// What the window processor does for a job (see `GuiAction`): a download of a feed
/// (kind 1) or an icon (kind 2) that took longer than `too_long_ms` for a subscription id
/// above zero is recorded, a finished job of kind 4 ends the database check; the focus
/// marker counts down to zero and is then taken away; the clean-up ends at its last step.
pub open spec fn gui_action(job: Job, too_long_ms: u32, db_check_message: Seq<char>) -> GuiActionView {
    match job {
        Job::DownloaderJobFinished(subs_id, thread, kind, elapsed, _descr, remote) => GuiActionView::JobFinished {
            slow: if elapsed > too_long_ms && subs_id > 0 && (kind == 1 || kind == 2) {
                Some((if kind == 1 { SlowDownload::Feed } else { SlowDownload::Icon }, subs_id, elapsed, remote@))
            } else {
                None
            },
            end_db_check: kind == 4,
            thread,
        },
        Job::CheckFocusMarker(n) => if n > 0 { GuiActionView::Requeue((n - 1) as u8) } else { GuiActionView::FocusMarkerOff },
        Job::NotifyDbClean(step, duration, msg) => GuiActionView::DbCleanProgress {
            step,
            text: match msg {
                Some(m) => Some(db_check_text(db_check_message, duration, m@)),
                None => None,
            },
            finished: step >= CLEAN_STEPS_MAX,
        },
        _ => GuiActionView::Pass,
    }
}

/// A window processor action by value (a passed job stays the job itself; a requeued
/// focus check by its ticks).
pub enum GuiActionView {
    Pass,
    JobFinished { slow: Option<(SlowDownload, isize, u32, Seq<char>)>, end_db_check: bool, thread: u8 },
    Requeue(u8),
    FocusMarkerOff,
    DbCleanProgress { step: u8, text: Option<Seq<char>>, finished: bool },
}

/// A window processor action by value.
pub open spec fn gui_action_view(a: GuiAction) -> GuiActionView {
    match a {
        GuiAction::Pass(_) => GuiActionView::Pass,
        GuiAction::JobFinished { slow, end_db_check, thread } => GuiActionView::JobFinished {
            slow: match slow {
                Some((k, id, e, r)) => Some((k, id, e, r@)),
                None => None,
            },
            end_db_check,
            thread,
        },
        GuiAction::Requeue(Job::CheckFocusMarker(n)) => GuiActionView::Requeue(n),
        GuiAction::Requeue(_) => GuiActionView::Pass,
        GuiAction::FocusMarkerOff => GuiActionView::FocusMarkerOff,
        GuiAction::DbCleanProgress { step, text, finished } => GuiActionView::DbCleanProgress {
            step,
            text: opt_text(text),
            finished,
        },
    }
}

/// What the window processor does for a job (see `gui_action`); a job it passes on is
/// handed back unchanged.
pub fn gui_job_action(job: Job, too_long_ms: u32, db_check_message: &str) -> (a: GuiAction)
    ensures
        gui_action_view(a) == gui_action(job, too_long_ms, db_check_message@),
        gui_action(job, too_long_ms, db_check_message@) is Pass ==> a == GuiAction::Pass(job),
{
    match job {
        Job::DownloaderJobFinished(subs_id, thread, kind, elapsed, _descr, remote) => {
            let slow = if elapsed > too_long_ms && subs_id > 0 && (kind == 1 || kind == 2) {
                let k = if kind == 1 { SlowDownload::Feed } else { SlowDownload::Icon };
                Some((k, subs_id, elapsed, remote))
            } else {
                None
            };
            GuiAction::JobFinished { slow, end_db_check: kind == 4, thread }
        },
        Job::CheckFocusMarker(n) => {
            if n > 0 {
                GuiAction::Requeue(Job::CheckFocusMarker(n - 1))
            } else {
                GuiAction::FocusMarkerOff
            }
        },
        Job::NotifyDbClean(step, duration, msg) => {
            let text = match msg {
                Some(m) => {
                    let mut t = chars_of(db_check_message);
                    append_chars(&mut t, &decimal_of(duration as u64));
                    append_chars(&mut t, &chars_of("\t"));
                    append_chars(&mut t, &chars_of(m.as_str()));
                    append_chars(&mut t, &chars_of("\n"));
                    Some(string_of(&t))
                },
                None => None,
            };
            GuiAction::DbCleanProgress { step, text, finished: step >= CLEAN_STEPS_MAX }
        },
        other => GuiAction::Pass(other),
    }
}

/// What the message list needs to know before it decides a job: nothing, whether the
/// message content of a message is cached, or the message counts of a subscription.
#[derive(Clone, Copy, Debug, PartialEq, Eq, Structural)]
pub enum ContentsQuery {
    Nothing,
    Cached(isize),
    Counts(isize),
}

/// What the message list needs to know before it decides a job.
pub fn contents_job_needs(job: &CJob) -> (q: ContentsQuery)
    ensures
        q == match *job {
            CJob::SwitchBrowserTabContent(id) => ContentsQuery::Cached(id as isize),
            CJob::RequestUnreadAllCount(id) => ContentsQuery::Counts(id),
            _ => ContentsQuery::Nothing,
        },
{
    match job {
        CJob::SwitchBrowserTabContent(id) => ContentsQuery::Cached(*id as isize),
        CJob::RequestUnreadAllCount(id) => ContentsQuery::Counts(*id),
        _ => ContentsQuery::Nothing,
    }
}

/// What the message list does for a job.
#[derive(Debug)]
pub enum ContentsAction {
    /// Store a new title, post id or entry date of a message.
    UpdateTitle(isize, String),
    UpdatePostId(isize, String),
    UpdateEntryDate(isize, i64),
    /// Redraw rows (list position, message id).
    RefreshRows(Vec<(u32, u32)>),
    /// Show a message in the browser, reading its content into the cache first where it
    /// is not there.
    ShowMessage { msg_id: isize, fill_cache: bool },
    CursorToPolicy,
    /// Tell the tree the counts of a subscription: all, unread.
    NotifyTreeReadCount(isize, isize, isize),
    RefreshList,
    CursorToMessage(isize),
    SetFavorite(Vec<(u32, u32)>, bool),
    /// Mark a message read at its list position.
    SetRead(i32, i32),
    CheckMessageCounts(isize),
    Sleep(usize),
    Nothing,
}

/// What the message list does for a job, given whether the content of the message the job
/// shows is cached and the counts (all, read) of the subscription it counts: the unread
/// count is all minus read, told only where the count of all is 0 or more.
pub open spec fn contents_action(job: CJob, cached: bool, all: isize, read: isize) -> ContentsAction {
    match job {
        CJob::DbUpdateTitle(id, t) => ContentsAction::UpdateTitle(id, t),
        CJob::DbUpdatePostId(id, p) => ContentsAction::UpdatePostId(id, p),
        CJob::DbUpdateEntryDate(id, d) => ContentsAction::UpdateEntryDate(id, d as i64),
        CJob::UpdateMessageListSome(v) => ContentsAction::RefreshRows(v),
        CJob::SwitchBrowserTabContent(id) => ContentsAction::ShowMessage { msg_id: id as isize, fill_cache: !cached },
        CJob::ListSetCursorToPolicy => ContentsAction::CursorToPolicy,
        CJob::RequestUnreadAllCount(id) => if all >= 0 {
            ContentsAction::NotifyTreeReadCount(id, all, (all - read) as isize)
        } else {
            ContentsAction::Nothing
        },
        CJob::UpdateMessageList => ContentsAction::RefreshList,
        CJob::ListSetCursorToMessage(id) => ContentsAction::CursorToMessage(id),
        CJob::SetFavoriteSome(v, f) => ContentsAction::SetFavorite(v, f),
        CJob::LaunchBrowserSuccess(id, pos) => ContentsAction::SetRead(id as i32, pos as i32),
        CJob::CheckMessageCounts(id) => ContentsAction::CheckMessageCounts(id),
        CJob::Pause(ms) => ContentsAction::Sleep(ms),
    }
}

/// What the message list does for a job (see `contents_action`).
pub fn contents_job_action(job: CJob, cached: bool, all: isize, read: isize) -> (a: ContentsAction)
    requires
        job matches CJob::RequestUnreadAllCount(_) ==> isize::MIN <= all - read <= isize::MAX,
    ensures
        a == contents_action(job, cached, all, read),
{
    match job {
        CJob::DbUpdateTitle(id, t) => ContentsAction::UpdateTitle(id, t),
        CJob::DbUpdatePostId(id, p) => ContentsAction::UpdatePostId(id, p),
        CJob::DbUpdateEntryDate(id, d) => ContentsAction::UpdateEntryDate(id, d as i64),
        CJob::UpdateMessageListSome(v) => ContentsAction::RefreshRows(v),
        CJob::SwitchBrowserTabContent(id) => ContentsAction::ShowMessage { msg_id: id as isize, fill_cache: !cached },
        CJob::ListSetCursorToPolicy => ContentsAction::CursorToPolicy,
        CJob::RequestUnreadAllCount(id) => {
            let unread = all - read;
            if all >= 0 {
                ContentsAction::NotifyTreeReadCount(id, all, unread)
            } else {
                ContentsAction::Nothing
            }
        },
        CJob::UpdateMessageList => ContentsAction::RefreshList,
        CJob::ListSetCursorToMessage(id) => ContentsAction::CursorToMessage(id),
        CJob::SetFavoriteSome(v, f) => ContentsAction::SetFavorite(v, f),
        CJob::LaunchBrowserSuccess(id, pos) => ContentsAction::SetRead(id as i32, pos as i32),
        CJob::CheckMessageCounts(id) => ContentsAction::CheckMessageCounts(id),
        CJob::Pause(ms) => ContentsAction::Sleep(ms),
    }
}

/// One value of the data a dialog hands back.
#[derive(Debug)]
pub enum DialogValue {
    Empty,
    Text(String),
    Flag(bool),
    Int(isize),
    UInt(u32),
}

/// A value read as a flag: false but for a flag that is set.
pub open spec fn flag_of(v: DialogValue) -> bool {
    match v {
        DialogValue::Flag(b) => b,
        _ => false,
    }
}

/// The eleven settings of the settings dialog.
#[derive(Debug)]
pub struct SettingsUpdate {
    pub load_on_start: bool,
    pub fetch_interval: isize,
    pub fetch_interval_unit: isize,
    pub num_threads: u8,
    pub focus_policy: u8,
    pub display_feedcount_all: bool,
    pub msg_keep_count: isize,
    pub fontsize_manual_enable: bool,
    pub fontsize_manual: isize,
    pub browser_bg: u32,
    pub browser_clear_cache: bool,
}

/// Whether the data of the settings dialog has its eleven values, numbers where numbers
/// belong: the fetch interval and its unit, the thread count, the focus policy, the
/// number of messages to keep and the font size at positions 1, 2, 3, 4, 6 and 8, and the
/// browser background at position 9 as an unsigned number.
pub open spec fn settings_payload_ok(p: Seq<DialogValue>) -> bool {
    &&& p.len() >= 11
    &&& p[1] is Int && p[2] is Int && p[3] is Int && p[4] is Int && p[6] is Int && p[8] is Int
    &&& p[9] is UInt
}

/// The settings that the data of the settings dialog gives, by position: 0 loading on
/// start, 1 fetch interval, 2 its unit, 3 download threads, 4 focus policy, 5 showing the
/// count of all messages, 6 messages to keep, 7 manual font size on, 8 font size, 9 browser
/// background, 10 clearing the browser cache. Thread count and focus policy are cut to a
/// byte.
pub open spec fn settings_of(p: Seq<DialogValue>) -> SettingsUpdate {
    SettingsUpdate {
        load_on_start: flag_of(p[0]),
        fetch_interval: p[1]->Int_0,
        fetch_interval_unit: p[2]->Int_0,
        num_threads: p[3]->Int_0 as u8,
        focus_policy: p[4]->Int_0 as u8,
        display_feedcount_all: flag_of(p[5]),
        msg_keep_count: p[6]->Int_0,
        fontsize_manual_enable: flag_of(p[7]),
        fontsize_manual: p[8]->Int_0,
        browser_bg: p[9]->UInt_0,
        browser_clear_cache: flag_of(p[10]),
    }
}

/// What the window processor does with the data a dialog hands back.
#[derive(Debug)]
pub enum DialogAction {
    NewFolder(String),
    /// A new subscription: feed address and name. A fetch is scheduled only where the new
    /// id is above zero (see `fetch_after_new_subscription`).
    NewSubscription(String, String),
    /// The new-subscription dialog handed back fewer than two values.
    TooFewData,
    ImportOpml(String),
    ExportOpml(String),
    DeleteSubscription,
    /// End the edit dialog of a subscription or a folder with the data.
    EndEdit,
    Settings(SettingsUpdate),
    /// Nothing to do: an unknown dialog, or data of the wrong kind.
    Ignore,
}

/// What the window processor does with the data of a dialog: a text at position 0 names
/// a new folder, or the OPML file to import or export; the new-subscription dialog needs
/// two values, both texts (feed address and name); the delete and edit dialogs act as they
/// are; the settings dialog gives `settings_of` its data.
pub open spec fn dialog_decision(ident: Seq<char>, p: Seq<DialogValue>) -> DialogAction {
    if ident == "new-folder"@ {
        if p.len() > 0 && p[0] is Text { DialogAction::NewFolder(p[0]->Text_0) } else { DialogAction::Ignore }
    } else if ident == "new-feedsource"@ {
        if p.len() < 2 {
            DialogAction::TooFewData
        } else if p[0] is Text && p[1] is Text {
            DialogAction::NewSubscription(p[0]->Text_0, p[1]->Text_0)
        } else {
            DialogAction::Ignore
        }
    } else if ident == "import-opml"@ {
        if p.len() > 0 && p[0] is Text { DialogAction::ImportOpml(p[0]->Text_0) } else { DialogAction::Ignore }
    } else if ident == "export-opml"@ {
        if p.len() > 0 && p[0] is Text { DialogAction::ExportOpml(p[0]->Text_0) } else { DialogAction::Ignore }
    } else if ident == "feedsource-delete"@ {
        DialogAction::DeleteSubscription
    } else if ident == "subscription-edit-ok"@ || ident == "folder-edit"@ {
        DialogAction::EndEdit
    } else if ident == "settings"@ {
        DialogAction::Settings(settings_of(p))
    } else {
        DialogAction::Ignore
    }
}

/// The text at a position of dialog data, where there is one.
fn text_at(p: &Vec<DialogValue>, i: usize) -> (r: Option<String>)
    ensures
        match r {
            Some(t) => i < p@.len() && p@[i as int] is Text && t == p@[i as int]->Text_0,
            None => !(i < p@.len() && p@[i as int] is Text),
        },
{
    if i < p.len() {
        match &p[i] {
            DialogValue::Text(t) => Some(t.clone()),
            _ => None,
        }
    } else {
        None
    }
}

/// A value of dialog data read as a flag.
fn flag_at(p: &Vec<DialogValue>, i: usize) -> (r: bool)
    requires
        i < p@.len(),
    ensures
        r == flag_of(p@[i as int]),
{
    match &p[i] {
        DialogValue::Flag(b) => *b,
        _ => false,
    }
}

/// A number of dialog data.
fn int_at(p: &Vec<DialogValue>, i: usize) -> (r: isize)
    requires
        i < p@.len(),
        p@[i as int] is Int,
    ensures
        r == p@[i as int]->Int_0,
{
    match &p[i] {
        DialogValue::Int(n) => *n,
        _ => 0,
    }
}

/// What the window processor does with the data of a dialog (see `dialog_decision`). The
/// data of the settings dialog must hold its eleven values (see `settings_payload_ok`).
pub fn dialog_action(ident: &str, payload: &Vec<DialogValue>) -> (a: DialogAction)
    requires
        ident@ == "settings"@ ==> settings_payload_ok(payload@),
    ensures
        a == dialog_decision(ident@, payload@),
{
    if is_lit(ident, "new-folder") {
        match text_at(payload, 0) {
            Some(s) => DialogAction::NewFolder(s),
            None => DialogAction::Ignore,
        }
    } else if is_lit(ident, "new-feedsource") {
        if payload.len() < 2 {
            DialogAction::TooFewData
        } else {
            match (text_at(payload, 0), text_at(payload, 1)) {
                (Some(s0), Some(s1)) => DialogAction::NewSubscription(s0, s1),
                _ => DialogAction::Ignore,
            }
        }
    } else if is_lit(ident, "import-opml") {
        match text_at(payload, 0) {
            Some(s) => DialogAction::ImportOpml(s),
            None => DialogAction::Ignore,
        }
    } else if is_lit(ident, "export-opml") {
        match text_at(payload, 0) {
            Some(s) => DialogAction::ExportOpml(s),
            None => DialogAction::Ignore,
        }
    } else if is_lit(ident, "feedsource-delete") {
        DialogAction::DeleteSubscription
    } else if is_lit(ident, "subscription-edit-ok") || is_lit(ident, "folder-edit") {
        DialogAction::EndEdit
    } else if is_lit(ident, "settings") {
        let browser_bg: u32 = match &payload[9] {
            DialogValue::UInt(b) => *b,
            _ => 0,
        };
        DialogAction::Settings(SettingsUpdate {
            load_on_start: flag_at(payload, 0),
            fetch_interval: int_at(payload, 1),
            fetch_interval_unit: int_at(payload, 2),
            num_threads: int_at(payload, 3) as u8,
            focus_policy: int_at(payload, 4) as u8,
            display_feedcount_all: flag_at(payload, 5),
            msg_keep_count: int_at(payload, 6),
            fontsize_manual_enable: flag_at(payload, 7),
            fontsize_manual: int_at(payload, 8),
            browser_bg,
            browser_clear_cache: flag_at(payload, 10),
        })
    } else {
        DialogAction::Ignore
    }
}

/// The subscription whose fetch is scheduled after a new one was added: the new id, where
/// it is above zero.
pub fn fetch_after_new_subscription(new_id: isize) -> (r: Option<isize>)
    ensures
        r == if new_id > 0 { Some(new_id) } else { None::<isize> },
{
    if new_id > 0 { Some(new_id) } else { None }
}

} // verus!
