use vstd::prelude::*;
use crate::db::subscription_entry::{is_gone, mask_applied, mask_held, same_subscription, SubscriptionEntry};
use crate::db::subscription_state::{has_status, path_of, same_entry, state_bit, with_status, FeedSourceState, ISubscriptionState, StatusMask, SubsMapEntry, SubscriptionState};
use crate::controller::subscriptionmove::{entry_by_id, get_by_index};
use crate::text::{append_chars, chars_of, decimal, decimal_of, signed_decimal, signed_decimal_of, string_of};
use crate::util::{string_truncate, truncated};

verus! {

broadcast use vstd::string::group_string_axioms;

/// Settings of the subscription tree.
#[derive(Clone, Copy, Debug)]
pub struct Config {
    pub feeds_fetch_at_start: bool,
    pub feeds_fetch_interval: u32,
    /// 1: minutes, 2: hours, 3: days
    pub feeds_fetch_interval_unit: u32,
    pub display_feedcount_all: bool,
    pub mode_debug: bool,
    pub tree_fontsize: u8,
}

/// Seconds of one interval unit: 1 minutes, 2 hours, 3 days; 0 for other units.
pub open spec fn unit_seconds(unit: u32) -> int {
    if unit == 1 { 60 } else if unit == 2 { 3600 } else if unit == 3 { 86400 } else { 0 }
}

impl Config {
    /// The fetch interval in seconds: the interval times the seconds of its unit.
    pub fn get_interval_seconds(&self) -> (r: i64)
        requires
            self.feeds_fetch_interval * unit_seconds(self.feeds_fetch_interval_unit) <= u32::MAX,
        ensures
            r == self.feeds_fetch_interval * unit_seconds(self.feeds_fetch_interval_unit),
    {
        let multiplicator: u32 = match self.feeds_fetch_interval_unit {
            1 => 60,
            2 => 3600,
            3 => 86400,
            _ => 0,
        };
        (self.feeds_fetch_interval * multiplicator) as i64
    }
}

impl Default for Config {
    /// Interval 1 of the unknown unit 32, nothing fetched at start, counts of unread
    /// messages only, font size 1.
    fn default() -> (r: Config)
        ensures
            !r.feeds_fetch_at_start && r.feeds_fetch_interval == 1 && r.feeds_fetch_interval_unit == 32,
            !r.display_feedcount_all && !r.mode_debug && r.tree_fontsize == 1,
    {
        Config {
            feeds_fetch_at_start: false,
            feeds_fetch_interval: 1,
            feeds_fetch_interval_unit: 32,
            display_feedcount_all: false,
            mode_debug: false,
            tree_fontsize: 1,
        }
    }
}

/// The icon in the status column of a subscription.
#[derive(Clone, Copy, Debug, PartialEq, Eq, Structural)]
pub enum StatusIcon {
    Transparent,
    Download,
    FlagRed,
}

/// What a row of the subscription tree shows: the subscription's icon, name, message
/// counts, status icon, id, the inputs of its font attributes (size, no unread message,
/// folder), its status word and expanded flag, its tooltip, and which of spinner, status
/// icon and counts are visible.
#[derive(Debug)]
pub struct TreeRowValues {
    pub icon: String,
    pub display_name: String,
    pub rightcol_text: String,
    pub status_icon: StatusIcon,
    pub subs_id: u32,
    pub fontsize: u32,
    pub no_unread: bool,
    pub is_folder: bool,
    pub status: u32,
    pub expanded: bool,
    pub tooltip: Option<String>,
    pub show_spinner: bool,
    pub status_icon_visible: bool,
    pub rightcol_visible: bool,
}

/// The decimals of a path joined by `, `.
pub open spec fn joined_decimals(p: Seq<u16>) -> Seq<char>
    decreases p.len(),
{
    if p.len() == 0 {
        Seq::empty()
    } else if p.len() == 1 {
        decimal(p[0] as nat)
    } else {
        joined_decimals(p.drop_last()) + ", "@ + decimal(p.last() as nat)
    }
}

/// A path in its debug form, as `[0, 1, 2]`.
pub open spec fn path_debug(p: Seq<u16>) -> Seq<char> {
    "["@ + joined_decimals(p) + "]"@
}

/// A path in its debug form.
pub(crate) fn path_debug_of(p: &[u16]) -> (r: Vec<char>)
    ensures
        r@ == path_debug(p@),
{
    let mut j: Vec<char> = Vec::new();
    let mut i: usize = 0;
    proof {
        assert(p@.take(0) =~= Seq::<u16>::empty());
    }
    while i < p.len()
        invariant
            i <= p@.len(),
            j@ == joined_decimals(p@.take(i as int)),
        decreases p.len() - i,
    {
        proof {
            assert(p@.take(i + 1).drop_last() =~= p@.take(i as int));
            assert(p@.take(i + 1).last() == p@[i as int]);
        }
        if i > 0 {
            append_chars(&mut j, &chars_of(", "));
        }
        append_chars(&mut j, &decimal_of(p[i] as u64));
        proof {
            if i == 0 {
                assert(j@ =~= decimal(p@[0] as nat));
            }
        }
        i = i + 1;
    }
    proof {
        assert(p@.take(i as int) =~= p@);
    }
    let mut r = chars_of("[");
    append_chars(&mut r, &j);
    append_chars(&mut r, &chars_of("]"));
    r
}

/// The message counts of a row: unread/all where all are shown and some are unread,
/// else all; only unread where just those are shown; nothing where unknown.
pub open spec fn rightcol(counts: Option<(isize, isize)>, display_all: bool) -> Seq<char> {
    match counts {
        Some((all, unread)) => if display_all {
            if unread > 0 { signed_decimal(unread as int) + "/"@ + signed_decimal(all as int) } else { signed_decimal(all as int) }
        } else {
            signed_decimal(unread as int)
        },
        None => Seq::empty(),
    }
}

/// The debug tooltip of a row: id, status, expanded flag, path, icon id and last
/// selected message.
pub open spec fn debug_tooltip(fse: SubscriptionEntry, st: SubsMapEntry) -> Seq<char> {
    let tp = match st.tree_path {
        Some(p) => path_debug(p@),
        None => Seq::empty(),
    };
    signed_decimal(fse.subs_id as int) + " ST"@ + decimal(st.status as nat) + " X"@ + (if fse.expanded { "1"@ } else { "0"@ })
        + "  P\""@ + tp + "\" I"@ + decimal(fse.icon_id as nat) + " L"@ + signed_decimal(fse.last_selected_msg as int)
}

/// The text cut after 100 bytes.
pub open spec fn cut_at_100(t: Seq<char>, r: Seq<char>) -> bool {
    truncated(t, 100, r)
}

/// Whether byte 100 of the text's UTF-8 form is a character boundary, or the text is not
/// that long.
pub open spec fn boundary_at_100(t: Seq<char>) -> bool {
    vstd::utf8::encode_utf8(t).len() <= 100
        || exists|k: int| 0 <= k <= t.len() && #[trigger] vstd::utf8::encode_utf8(t.take(k)).len() == 100
}

/// The values of the tree row of a subscription (see `TreeRowValues`): `icon` is the
/// icon of the subscription where the icon store has it, `last_error` the text of the
/// last recorded error of the subscription. The status icon shows a scheduled fetch,
/// else an error; the tooltip gives the error cut to 100 bytes where the fetch failed,
/// else in debug mode the debug tooltip; the counts show where neither spinner nor
/// status icon does and, where only unread messages are counted, where there are some.
pub fn tree_row_to_values(config: &Config, fse: &SubscriptionEntry, su_st: &SubsMapEntry, icon: Option<String>, last_error: Option<String>) -> (r: TreeRowValues)
    requires
        mask_held(su_st.status, 64) ==> (last_error matches Some(t) ==> boundary_at_100(t@)),
    ensures
        r.icon@ == match icon { Some(i) => i@, None => Seq::<char>::empty() },
        r.display_name@ == if fse.display_name@.len() == 0 { "--"@ } else { fse.display_name@ },
        r.rightcol_text@ == rightcol(su_st.num_msg_all_unread, config.display_feedcount_all),
        r.status_icon == if mask_held(su_st.status, 8) || mask_held(su_st.status, 16) {
            StatusIcon::Download
        } else if mask_held(su_st.status, 64) {
            StatusIcon::FlagRed
        } else {
            StatusIcon::Transparent
        },
        r.subs_id == fse.subs_id as u32,
        r.fontsize == config.tree_fontsize as u32,
        r.no_unread == match su_st.num_msg_all_unread { Some((_, u)) => u <= 0, None => true },
        r.is_folder == fse.is_folder,
        r.status == su_st.status as u32,
        r.expanded == fse.expanded,
        mask_held(su_st.status, 64) && last_error is Some ==> (r.tooltip matches Some(t) && cut_at_100(last_error.unwrap()@, t@)),
        !(mask_held(su_st.status, 64) && last_error is Some) ==> if config.mode_debug {
            r.tooltip matches Some(t) && t@ == debug_tooltip(*fse, *su_st)
        } else {
            r.tooltip is None
        },
        r.show_spinner == mask_held(su_st.status, 32),
        r.status_icon_visible == !mask_held(su_st.status, 32),
        r.rightcol_visible == (!(mask_held(su_st.status, 8) || mask_held(su_st.status, 16) || mask_held(su_st.status, 64)
            || mask_held(su_st.status, 32))
            && (config.display_feedcount_all || match su_st.num_msg_all_unread { Some((_, u)) => u != 0, None => false })),
{
    let mut rightcol_text: Vec<char> = Vec::new();
    let mut num_msg_unread: isize = 0;
    if let Some((num_all, num_unread)) = su_st.num_msg_all_unread {
        if config.display_feedcount_all {
            if num_unread > 0 {
                rightcol_text = signed_decimal_of(num_unread);
                append_chars(&mut rightcol_text, &chars_of("/"));
                append_chars(&mut rightcol_text, &signed_decimal_of(num_all));
            } else {
                rightcol_text = signed_decimal_of(num_all);
            }
        } else {
            rightcol_text = signed_decimal_of(num_unread);
        }
        num_msg_unread = num_unread;
    }
    let fs_iconstr = match icon {
        Some(i) => i,
        None => String::new(),
    };
    let mut show_status_icon = false;
    let mut status_icon = StatusIcon::Transparent;
    if su_st.is_fetch_scheduled() || su_st.is_fetch_scheduled_jobcreated() {
        status_icon = StatusIcon::Download;
        show_status_icon = true;
    } else if su_st.is_err_on_fetch() {
        status_icon = StatusIcon::FlagRed;
        show_status_icon = true;
    }
    let displayname = if chars_of(fse.display_name.as_str()).len() == 0 {
        "--".to_string()
    } else {
        fse.display_name.clone()
    };
    let mut tooltip: Option<String> = None;
    if su_st.is_err_on_fetch() {
        if let Some(t) = last_error {
            tooltip = Some(string_truncate(t, 100));
        }
    }
    if config.mode_debug && tooltip.is_none() {
        let mut tp: Vec<char> = Vec::new();
        if let Some(p) = &su_st.tree_path {
            tp = path_debug_of(p.as_slice());
        }
        let mut m = signed_decimal_of(fse.subs_id);
        append_chars(&mut m, &chars_of(" ST"));
        append_chars(&mut m, &decimal_of(su_st.status as u64));
        append_chars(&mut m, &chars_of(" X"));
        append_chars(&mut m, &chars_of(if fse.expanded { "1" } else { "0" }));
        append_chars(&mut m, &chars_of("  P\""));
        append_chars(&mut m, &tp);
        append_chars(&mut m, &chars_of("\" I"));
        append_chars(&mut m, &decimal_of(fse.icon_id as u64));
        append_chars(&mut m, &chars_of(" L"));
        append_chars(&mut m, &signed_decimal_of(fse.last_selected_msg));
        tooltip = Some(string_of(&m));
    }
    let show_spinner = su_st.is_fetch_in_progress();
    let mut rightcol_visible = !(show_status_icon || show_spinner);
    if !config.display_feedcount_all && num_msg_unread == 0 {
        rightcol_visible = false;
    }
    TreeRowValues {
        icon: fs_iconstr,
        display_name: displayname,
        rightcol_text: string_of(&rightcol_text),
        status_icon,
        subs_id: fse.subs_id as u32,
        fontsize: config.tree_fontsize as u32,
        no_unread: num_msg_unread <= 0,
        is_folder: fse.is_folder,
        status: su_st.status as u32,
        expanded: fse.expanded,
        tooltip,
        show_spinner,
        status_icon_visible: !show_spinner,
        rightcol_visible,
    }
}

/// The message counts of the given subscriptions summed up, or nothing where one of them
/// has no counts.
pub open spec fn child_counts(m: Map<isize, SubsMapEntry>, ids: Seq<isize>) -> Option<(int, int)>
    decreases ids.len(),
{
    if ids.len() == 0 {
        Some((0, 0))
    } else {
        let id = ids.last();
        match child_counts(m, ids.drop_last()) {
            None => None,
            Some((a, u)) => if m.contains_key(id) && m[id].num_msg_all_unread is Some {
                let (na, nu) = m[id].num_msg_all_unread.unwrap();
                Some((a + na, u + nu))
            } else {
                None
            },
        }
    }
}

/// Each partial sum of the counts fits an `isize`.
pub open spec fn sums_fit(m: Map<isize, SubsMapEntry>, ids: Seq<isize>) -> bool {
    forall|k: int| 0 <= k <= ids.len() ==> (#[trigger] child_counts(m, ids.take(k)) matches Some((a, u))
        ==> isize::MIN <= a <= isize::MAX && isize::MIN <= u <= isize::MAX)
}

/// Sums up the message counts of a folder's children and stores them as the folder's
/// counts; where a child's counts are not known, leaves the state as it is and gives
/// nothing.
pub fn sum_up_num_all_unread(state: &mut SubscriptionState, folder_subs_id: isize, child_ids: &[isize]) -> (r: Option<(isize, isize)>)
    requires
        sums_fit(old(state).view(), child_ids@),
    ensures
        match child_counts(old(state).view(), child_ids@) {
            None => r is None && final(state).view() == old(state).view(),
            Some((a, u)) => r == Some((a as isize, u as isize))
                && final(state).view().dom() == old(state).view().dom()
                && (forall|k: isize| k != folder_subs_id && #[trigger] old(state).view().contains_key(k)
                    ==> final(state).view()[k] == old(state).view()[k])
                && (old(state).view().contains_key(folder_subs_id) ==> final(state).view()[folder_subs_id]
                    == (SubsMapEntry { num_msg_all_unread: Some((a as isize, u as isize)), ..old(state).view()[folder_subs_id] })),
        },
{
    let ghost m = state.view();
    let mut sum_all: isize = 0;
    let mut sum_unread: isize = 0;
    let mut i: usize = 0;
    proof {
        assert(child_ids@.take(0) =~= Seq::<isize>::empty());
    }
    while i < child_ids.len()
        invariant
            i <= child_ids@.len(),
            m == state.view(),
            sums_fit(m, child_ids@),
            child_counts(m, child_ids@.take(i as int)) == Some((sum_all as int, sum_unread as int)),
        decreases child_ids.len() - i,
    {
        let id = child_ids[i];
        proof {
            assert(child_ids@.take(i + 1).drop_last() =~= child_ids@.take(i as int));
            assert(child_ids@.take(i + 1).last() == id);
        }
        match state.get_num_all_unread(id) {
            Some((n_a, n_u)) => {
                proof {
                    assert(child_counts(m, child_ids@.take(i + 1)) matches Some((a, u)) && isize::MIN <= a <= isize::MAX
                        && isize::MIN <= u <= isize::MAX);
                }
                sum_all = sum_all + n_a;
                sum_unread = sum_unread + n_u;
            },
            None => {
                proof {
                    lemma_child_counts_missing(m, child_ids@, i + 1);
                }
                return None;
            },
        }
        i = i + 1;
    }
    proof {
        assert(child_ids@.take(i as int) =~= child_ids@);
    }
    state.set_num_all_unread(folder_subs_id, sum_all, sum_unread);
    Some((sum_all, sum_unread))
}

/// Where the counts of a prefix are missing, so are those of the whole.
proof fn lemma_child_counts_missing(m: Map<isize, SubsMapEntry>, ids: Seq<isize>, k: int)
    requires
        0 <= k <= ids.len(),
        child_counts(m, ids.take(k)) is None,
    ensures
        child_counts(m, ids) is None,
    decreases ids.len() - k,
{
    if k < ids.len() {
        assert(ids.take(k + 1).drop_last() =~= ids.take(k));
        lemma_child_counts_missing(m, ids, k + 1);
    } else {
        assert(ids.take(k) =~= ids);
    }
}

/// A feed that is due for download: not scheduled and not being fetched.
pub open spec fn due_feed(m: Map<isize, SubsMapEntry>, e: SubscriptionEntry) -> bool {
    &&& !e.is_folder
    &&& !(m.contains_key(e.subs_id) && (mask_held(m[e.subs_id].status, 8) || mask_held(m[e.subs_id].status, 32)))
}

/// The ids of the feeds among `entries` that are due for download, in order.
pub open spec fn due_ids(m: Map<isize, SubsMapEntry>, entries: Seq<SubscriptionEntry>) -> Seq<isize>
    decreases entries.len(),
{
    if entries.len() == 0 {
        Seq::empty()
    } else {
        let rest = due_ids(m, entries.drop_last());
        if due_feed(m, entries.last()) { rest.push(entries.last().subs_id) } else { rest }
    }
}

/// Decides the periodic checks of the subscriptions: with a positive interval, the feeds
/// among `not_updated` (those not updated within the interval) to schedule for download,
/// and at most `check_limit` feeds whose message counts are to be checked. Nothing where
/// the interval is not positive.
pub fn check_feed_update_times(state: &SubscriptionState, interval_s: i64, not_updated: &[SubscriptionEntry], check_limit: usize) -> (r: (Vec<isize>, Vec<isize>))
    ensures
        interval_s <= 0 ==> r.0@.len() == 0 && r.1@.len() == 0,
        interval_s > 0 ==> r.0@ == due_ids(state.view(), not_updated@),
        interval_s > 0 ==> r.1@.no_duplicates() && r.1@.len() <= check_limit
            && (forall|id: isize| #[trigger] r.1@.contains(id) ==> has_status(state.view(), id, 2048, false, false)),
        interval_s > 0 ==> (r.1@.len() < check_limit ==> forall|id: isize| has_status(state.view(), id, 2048, false, false)
            ==> #[trigger] r.1@.contains(id)),
{
    if interval_s <= 0 {
        return (Vec::new(), Vec::new());
    }
    let ghost m = state.view();
    let mut update_ids: Vec<isize> = Vec::new();
    let mut i: usize = 0;
    proof {
        assert(not_updated@.take(0) =~= Seq::<SubscriptionEntry>::empty());
    }
    while i < not_updated.len()
        invariant
            i <= not_updated@.len(),
            m == state.view(),
            update_ids@ == due_ids(m, not_updated@.take(i as int)),
        decreases not_updated.len() - i,
    {
        let fse = &not_updated[i];
        proof {
            assert(not_updated@.take(i + 1).drop_last() =~= not_updated@.take(i as int));
            assert(not_updated@.take(i + 1).last() == *fse);
        }
        if !fse.is_folder {
            let (sch, pro) = match state.get_state(fse.subs_id) {
                Some(st) => (st.is_fetch_scheduled(), st.is_fetch_in_progress()),
                None => (false, false),
            };
            if !sch && !pro {
                update_ids.push(fse.subs_id);
            }
        }
        i = i + 1;
    }
    proof {
        assert(not_updated@.take(i as int) =~= not_updated@);
    }
    let all_check = state.get_ids_by_status(StatusMask::MessageCountsChecked, false, false);
    let mut check_ids: Vec<isize> = Vec::new();
    let mut j: usize = 0;
    while j < all_check.len() && j < check_limit
        invariant
            j <= all_check@.len(),
            j <= check_limit,
            check_ids@ == all_check@.take(j as int),
        decreases all_check.len() - j,
    {
        check_ids.push(all_check[j]);
        proof {
            assert(all_check@.take(j + 1) =~= all_check@.take(j as int).push(all_check@[j as int]));
        }
        j = j + 1;
    }
    proof {
        assert forall|id: isize| #[trigger] check_ids@.contains(id) implies has_status(m, id, 2048, false, false) by {
            let k = choose|k: int| 0 <= k < check_ids@.len() && check_ids@[k] == id;
            assert(all_check@[k] == id);
            assert(all_check@.contains(id));
        }
        assert(check_ids@.no_duplicates()) by {
            assert forall|a: int, b: int| 0 <= a < b < check_ids@.len() implies check_ids@[a] != check_ids@[b] by {
                assert(all_check@[a] == check_ids@[a] && all_check@[b] == check_ids@[b]);
            }
        }
        if check_ids@.len() < check_limit {
            assert(j == all_check@.len());
            assert(check_ids@ =~= all_check@);
        }
    }
    (update_ids, check_ids)
}

/// Takes one subscription scheduled for fetching off the schedule. Where it is stored,
/// not deleted, and has no download job yet, it gets one: its id comes back and it is
/// marked as having a job. Nothing where none is scheduled.
pub fn process_fetch_scheduled(state: &mut SubscriptionState, entries: &[SubscriptionEntry]) -> (r: Option<isize>)
    ensures
        (forall|id: isize| !has_status(old(state).view(), id, 8, true, false)) ==> r is None
            && final(state).view() == old(state).view(),
        (exists|id: isize| has_status(old(state).view(), id, 8, true, false)) ==> exists|id: isize| {
            &&& #[trigger] has_status(old(state).view(), id, 8, true, false)
            &&& final(state).view().dom() == old(state).view().dom()
            &&& forall|k: isize| k != id && #[trigger] old(state).view().contains_key(k) ==> final(state).view()[k] == old(state).view()[k]
            &&& match entry_by_id(entries@, id) {
                Some(e) => {
                    let job = !is_gone(e) && !mask_held(old(state).view()[id].status, 16);
                    let st = old(state).view()[id].status;
                    let st1 = if job { mask_applied(st, 16, true) } else { st };
                    &&& r == if job { Some(id) } else { None::<isize> }
                    &&& final(state).view()[id] == with_status(old(state).view()[id], mask_applied(st1, 8, false))
                },
                None => {
                    let st = old(state).view()[id].status;
                    let st1 = mask_applied(st, 16, true);
                    &&& r == Some(id)
                    &&& final(state).view()[id] == with_status(old(state).view()[id], mask_applied(st1, 8, false))
                },
            }
        },
{
    let ghost m = state.view();
    let list = state.get_ids_by_status(StatusMask::FetchScheduled, true, false);
    if list.len() == 0 {
        proof {
            assert forall|id: isize| !has_status(m, id, 8, true, false) by {
                if has_status(m, id, 8, true, false) {
                    assert(list@.contains(id));
                }
            }
        }
        return None;
    }
    let source_id = list[0];
    proof {
        assert(list@.contains(source_id));
    }
    let mut is_deleted = false;
    let mut jobcreated = false;
    let st = state.get_state(source_id);
    let jc = match &st {
        Some(s) => s.is_fetch_scheduled_jobcreated(),
        None => false,
    };
    let fse = get_by_index(entries, source_id);
    if let Some(subs_e) = &fse {
        if subs_e.isdeleted() {
            is_deleted = true;
        }
        if jc {
            jobcreated = true;
        }
    }
    let mut r: Option<isize> = None;
    if !is_deleted && !jobcreated {
        let ids = [source_id];
        state.set_status(&ids, StatusMask::FetchScheduledJobCreated, true);
        r = Some(source_id);
    }
    let ids2 = [source_id];
    state.set_status(&ids2, StatusMask::FetchScheduled, false);
    proof {
        assert(has_status(m, source_id, 8, true, false));
    }
    r
}

/// The state with a status flag set or cleared for the subscriptions `ids`.
pub open spec fn statuses_set(m: Map<isize, SubsMapEntry>, ids: Seq<isize>, bit: usize, on: bool) -> Map<isize, SubsMapEntry> {
    Map::new(
        |k: isize| m.contains_key(k),
        |k: isize| if ids.contains(k) { with_status(m[k], mask_applied(m[k].status, bit, on)) } else { m[k] },
    )
}

/// The ids of the feeds (not folders) among `children`, in order.
pub open spec fn feed_ids(children: Seq<SubscriptionEntry>) -> Seq<isize>
    decreases children.len(),
{
    if children.len() == 0 {
        Seq::empty()
    } else {
        let rest = feed_ids(children.drop_last());
        if children.last().is_folder { rest } else { rest.push(children.last().subs_id) }
    }
}

/// The ids of the feeds among `children` (see `feed_ids`).
fn feed_ids_of(children: &[SubscriptionEntry]) -> (r: Vec<isize>)
    ensures
        r@ == feed_ids(children@),
{
    let mut r: Vec<isize> = Vec::new();
    let mut i: usize = 0;
    while i < children.len()
        invariant
            i <= children@.len(),
            r@ == feed_ids(children@.take(i as int)),
        decreases children.len() - i,
    {
        proof {
            assert(children@.take(i + 1).drop_last() =~= children@.take(i as int));
        }
        if !children[i].is_folder {
            r.push(children[i].subs_id);
        }
        i = i + 1;
    }
    proof {
        assert(children@.take(i as int) =~= children@);
    }
    r
}

/// Sets or clears a status flag of the subscriptions `ids` (see `statuses_set`).
fn apply_status(state: &mut SubscriptionState, ids: &[isize], flag: StatusMask, on: bool)
    ensures
        final(state).view() == statuses_set(old(state).view(), ids@, state_bit(flag), on),
{
    state.set_status(ids, flag, on);
    proof {
        assert(final(state).view() =~= statuses_set(old(state).view(), ids@, state_bit(flag), on));
    }
}

/// Schedules a subscription for fetching. `entry` is its stored entry, where there is one,
/// and `children` are those of a folder. Nothing changes where the entry is deleted or
/// the subscription is scheduled already. A folder schedules its feeds; anything else
/// schedules itself and gives true: its tree row is to be redrawn.
pub fn mark_schedule_fetch(state: &mut SubscriptionState, subs_id: isize, entry: Option<SubscriptionEntry>, children: &[SubscriptionEntry]) -> (r: bool)
    ensures
        ({
            let m = old(state).view();
            let skip = entry matches Some(e) && (is_gone(e) || (m.contains_key(subs_id) && mask_held(m[subs_id].status, 8)));
            let folder = entry matches Some(e) && e.is_folder;
            if skip {
                !r && final(state).view() == m
            } else if folder {
                !r && final(state).view() == statuses_set(m, feed_ids(children@), 8, true)
            } else {
                r && final(state).view() == statuses_set(m, seq![subs_id], 8, true)
            }
        }),
{
    let ghost m = state.view();
    let mut is_folder = false;
    if let Some(e) = &entry {
        is_folder = e.is_folder;
        if e.isdeleted() {
            return false;
        }
        let scheduled = match state.get_state(subs_id) {
            Some(st) => st.is_fetch_scheduled(),
            None => false,
        };
        if scheduled {
            return false;
        }
    }
    if is_folder {
        let ids = feed_ids_of(children);
        apply_status(state, ids.as_slice(), StatusMask::FetchScheduled, true);
        false
    } else {
        let ids: Vec<isize> = vec![subs_id];
        proof {
            assert(ids@ =~= seq![subs_id]);
        }
        apply_status(state, ids.as_slice(), StatusMask::FetchScheduled, true);
        true
    }
}

/// Marks a subscription as being fetched: in progress, no longer scheduled, no job
/// pending.
pub fn set_fetch_in_progress(state: &mut SubscriptionState, source_repo_id: isize)
    ensures
        final(state).view() == statuses_set(statuses_set(statuses_set(old(state).view(),
            seq![source_repo_id], 32, true), seq![source_repo_id], 8, false), seq![source_repo_id], 16, false),
{
    let ids: Vec<isize> = vec![source_repo_id];
    proof {
        assert(ids@ =~= seq![source_repo_id]);
    }
    apply_status(state, ids.as_slice(), StatusMask::FetchInProgress, true);
    apply_status(state, ids.as_slice(), StatusMask::FetchScheduled, false);
    apply_status(state, ids.as_slice(), StatusMask::FetchScheduledJobCreated, false);
}

/// Marks a subscription as fetched: not in progress, scheduled or pending, with the
/// error flag as the fetch ended, and its message counts to be counted again.
pub fn set_fetch_finished(state: &mut SubscriptionState, source_repo_id: isize, error_happened: bool)
    ensures
        ({
            let ids = seq![source_repo_id];
            let m = statuses_set(statuses_set(statuses_set(statuses_set(old(state).view(),
                ids, 32, false), ids, 8, false), ids, 16, false), ids, 64, error_happened);
            &&& final(state).view().dom() == m.dom()
            &&& forall|k: isize| k != source_repo_id && #[trigger] m.contains_key(k) ==> final(state).view()[k] == m[k]
            &&& m.contains_key(source_repo_id) ==> final(state).view()[source_repo_id]
                == (SubsMapEntry { num_msg_all_unread: None, ..m[source_repo_id] })
        }),
{
    let ids: Vec<isize> = vec![source_repo_id];
    proof {
        assert(ids@ =~= seq![source_repo_id]);
    }
    apply_status(state, ids.as_slice(), StatusMask::FetchInProgress, false);
    apply_status(state, ids.as_slice(), StatusMask::FetchScheduled, false);
    apply_status(state, ids.as_slice(), StatusMask::FetchScheduledJobCreated, false);
    apply_status(state, ids.as_slice(), StatusMask::ErrFetchReq, error_happened);
    state.clear_num_all_unread(source_repo_id);
}

/// What marking a subscription as read covers: for a folder (as the state knows it) its
/// feeds, whose message counts are then to be counted again; else the subscription
/// itself. Gives the ids to mark as read and whether it was a folder.
pub fn mark_as_read(state: &mut SubscriptionState, src_repo_id: isize, children: &[SubscriptionEntry]) -> (r: (Vec<isize>, bool))
    ensures
        ({
            let m = old(state).view();
            let folder = m.contains_key(src_repo_id) && mask_held(m[src_repo_id].status, 256);
            &&& r.1 == folder
            &&& r.0@ == if folder { feed_ids(children@) } else { seq![src_repo_id] }
            &&& final(state).view().dom() == m.dom()
            &&& forall|k: isize| #[trigger] m.contains_key(k) ==> final(state).view()[k] == if folder && feed_ids(children@).contains(k) {
                SubsMapEntry { num_msg_all_unread: None, ..m[k] }
            } else {
                m[k]
            }
        }),
{
    let ghost m = state.view();
    let is_folder = match state.get_state(src_repo_id) {
        Some(st) => st.is_folder(),
        None => false,
    };
    if is_folder {
        let ids = feed_ids_of(children);
        let mut i: usize = 0;
        while i < ids.len()
            invariant
                i <= ids@.len(),
                state.view().dom() == m.dom(),
                forall|k: isize| #[trigger] m.contains_key(k) ==> state.view()[k] == if ids@.take(i as int).contains(k) {
                    SubsMapEntry { num_msg_all_unread: None, ..m[k] }
                } else {
                    m[k]
                },
            decreases ids.len() - i,
        {
            state.clear_num_all_unread(ids[i]);
            proof {
                assert forall|k: isize| #[trigger] m.contains_key(k) implies state.view()[k] == if ids@.take(i + 1).contains(k) {
                    SubsMapEntry { num_msg_all_unread: None, ..m[k] }
                } else {
                    m[k]
                } by {
                    assert(ids@.take(i + 1) =~= ids@.take(i as int).push(ids@[i as int]));
                    if k == ids@[i as int] {
                        assert(ids@.take(i + 1)[i as int] == k);
                        assert(ids@.take(i + 1).contains(k));
                    }
                }
            }
            i = i + 1;
        }
        proof {
            assert(ids@.take(i as int) =~= ids@);
        }
        (ids, true)
    } else {
        let ids: Vec<isize> = vec![src_repo_id];
        proof {
            assert(ids@ =~= seq![src_repo_id]);
        }
        (ids, false)
    }
}

/// The tree path of a subscription as the state knows it; the root (id 0) is at `[0]`
/// where the state has no path for it. Also gives whether the paths need a check: where
/// another subscription has no path.
pub fn get_path_for_src(state: &SubscriptionState, subs_id: isize) -> (r: (Option<Vec<u16>>, bool))
    ensures
        ({
            let m = state.view();
            let known = m.contains_key(subs_id) && path_of(m[subs_id]) is Some;
            if known {
                r.0 matches Some(p) && Some(p@) == path_of(m[subs_id]) && !r.1
            } else if subs_id == 0 {
                r.0 matches Some(p) && p@ == seq![0u16] && !r.1
            } else {
                r.0 is None && r.1
            }
        }),
{
    match state.get_tree_path(subs_id) {
        Some(p) => (Some(p), false),
        None => {
            if subs_id == 0 {
                let v: Vec<u16> = vec![0];
                proof {
                    assert(v@ =~= seq![0u16]);
                }
                (Some(v), false)
            } else {
                (None, true)
            }
        },
    }
}

/// Stores the message counts (all, unread) of a subscription the state knows. Its
/// stored entry (which must exist) and its new state come back, with whether the counts
/// of its parent folder were cleared (the parent is a folder, id above 0), so that empty
/// counts get scanned. Nothing where the state does not know the subscription.
pub fn process_tree_read_count(state: &mut SubscriptionState, entries: &[SubscriptionEntry], subs_id: isize, msg_all: isize, msg_unread: isize)
    -> (r: Option<(SubscriptionEntry, SubsMapEntry, bool)>)
    requires
        old(state).view().contains_key(subs_id) ==> entry_by_id(entries@, subs_id) is Some,
    ensures
        ({
            let m = old(state).view();
            let counted = SubsMapEntry { num_msg_all_unread: Some((msg_all, msg_unread)), ..m[subs_id] };
            if !m.contains_key(subs_id) {
                r is None && final(state).view() == m
            } else {
                let e = entry_by_id(entries@, subs_id).unwrap();
                let m1 = m.insert(subs_id, counted);
                &&& r matches Some((fse, st, scan)) && same_subscription(fse, e)
                    && same_entry(st, counted) && scan == (e.parent_subs_id > 0)
                &&& if e.parent_subs_id > 0 && m1.contains_key(e.parent_subs_id) {
                    final(state).view() == m1.insert(e.parent_subs_id, SubsMapEntry { num_msg_all_unread: None, ..m1[e.parent_subs_id] })
                } else {
                    final(state).view() == m1
                }
            }
        }),
{
    let ghost m = state.view();
    match state.set_num_all_unread(subs_id, msg_all, msg_unread) {
        Some(su_st) => {
            proof {
                assert(state.view() =~= m.insert(subs_id, SubsMapEntry { num_msg_all_unread: Some((msg_all, msg_unread)), ..m[subs_id] }));
            }
            let subs_e = get_by_index(entries, subs_id).unwrap();
            let scan = subs_e.parent_subs_id > 0;
            if scan {
                let ghost m1 = state.view();
                state.clear_num_all_unread(subs_e.parent_subs_id);
                proof {
                    if m1.contains_key(subs_e.parent_subs_id) {
                        assert(state.view() =~= m1.insert(subs_e.parent_subs_id, SubsMapEntry { num_msg_all_unread: None, ..m1[subs_e.parent_subs_id] }));
                    } else {
                        assert(state.view() =~= m1);
                    }
                }
            }
            Some((subs_e, su_st, scan))
        },
        None => {
            proof {
                assert(state.view() =~= m);
            }
            None
        },
    }
}

} // verus!
