use vstd::prelude::*;
use crate::db::message::{is_favorite_marker, MessageRow};
use crate::db::subscription_entry::{is_gone, SubscriptionEntry};
use crate::db::icon_row::IconRow;
use crate::db::errorentry::ErrorEntry;
use crate::text::{append_chars, chars_of, is_lit, signed_decimal, signed_decimal_of, string_of};
use crate::util::{filter_by_iso8859_1, iso_filtered, stops_within, Step, StepResult};

verus! {

/// Message `j` comes before message `i` when the messages are ordered newest first,
/// those of the same date in their given order.
pub open spec fn newer_first(ms: Seq<MessageRow>, j: int, i: int) -> bool {
    ms[j].entry_src_date > ms[i].entry_src_date || (ms[j].entry_src_date == ms[i].entry_src_date && j < i)
}

/// How many of the first `k` messages come before message `i` (see `newer_first`).
pub open spec fn rank_upto(ms: Seq<MessageRow>, i: int, k: int) -> nat
    decreases k,
{
    if k <= 0 {
        0
    } else {
        rank_upto(ms, i, k - 1) + if newer_first(ms, k - 1, i) { 1nat } else { 0nat }
    }
}

/// The place of message `i` among all, newest first.
pub open spec fn rank(ms: Seq<MessageRow>, i: int) -> nat {
    rank_upto(ms, i, ms.len() as int)
}

/// Message `i` is among the `max` newest.
pub open spec fn stays(ms: Seq<MessageRow>, max: int, i: int) -> bool {
    rank(ms, i) < max
}

/// The ids of the first `k` messages that are not among the `max` newest and not
/// favorites, in their given order.
pub open spec fn removed_upto(ms: Seq<MessageRow>, max: int, k: int) -> Seq<i32>
    decreases k,
{
    if k <= 0 {
        Seq::empty()
    } else {
        let rest = removed_upto(ms, max, k - 1);
        if !stays(ms, max, k - 1) && !is_favorite_marker(ms[k - 1].markers) {
            rest.push(ms[k - 1].message_id as i32)
        } else {
            rest
        }
    }
}

/// How many of the first `k` messages for which `unread_only` asks are among the `max`
/// newest (or, with `max` at least the number of messages, how many at all), not deleted,
/// and also unread where `unread_only` holds.
pub open spec fn count_upto(ms: Seq<MessageRow>, max: int, k: int, unread_only: bool) -> nat
    decreases k,
{
    if k <= 0 {
        0
    } else {
        let m = ms[k - 1];
        count_upto(ms, max, k - 1, unread_only)
            + if stays(ms, max, k - 1) && !m.is_deleted && (!unread_only || !m.is_read) { 1nat } else { 0nat }
    }
}

/// How many of the first `k` messages are unread and not deleted.
pub open spec fn unread_upto(ms: Seq<MessageRow>, k: int) -> nat
    decreases k,
{
    if k <= 0 {
        0
    } else {
        unread_upto(ms, k - 1) + if !ms[k - 1].is_read && !ms[k - 1].is_deleted { 1nat } else { 0nat }
    }
}

/// The place of message `i` among all, newest first (see `rank`).
fn rank_of(ms: &[MessageRow], i: usize) -> (r: usize)
    requires
        i < ms@.len(),
    ensures
        r == rank(ms@, i as int),
{
    let mut r: usize = 0;
    let mut k: usize = 0;
    while k < ms.len()
        invariant
            i < ms@.len(),
            k <= ms@.len(),
            r == rank_upto(ms@, i as int, k as int),
            r <= k,
        decreases ms.len() - k,
    {
        let dk = ms[k].entry_src_date;
        let di = ms[i].entry_src_date;
        if dk > di || (dk == di && k < i) {
            r = r + 1;
        }
        k = k + 1;
    }
    r
}

/// The messages of a subscription (deleted ones too) cut down to the `max_messages`
/// newest: those of the same date keep their order. The others, but for favorites, are
/// to be marked as deleted.
///
/// Where there are at most `max_messages` messages, nothing is removed: no update is
/// needed, and the counts are those of all messages and of those unread and not deleted.
/// Else the ids of the messages to remove are given (see `removed_upto`); where there
/// are any, an update is needed and the counts are those among the newest of messages
/// not deleted and of those also unread; where there are none, as if nothing were cut.
///
/// Gives: whether the messages need an update, the ids to mark as deleted, the number of
/// messages and the number of unread ones.
pub fn reduce_too_many_messages(all_messages: &[MessageRow], max_messages: usize) -> (r: (bool, Vec<i32>, usize, usize))
    ensures
        ({
            let ms = all_messages@;
            let n = ms.len() as int;
            let removed = removed_upto(ms, max_messages as int, n);
            if n <= max_messages || removed.len() == 0 {
                &&& !r.0
                &&& r.1@.len() == 0
                &&& r.2 == n
                &&& r.3 == unread_upto(ms, n)
            } else {
                &&& r.0
                &&& r.1@ == removed
                &&& r.2 == count_upto(ms, max_messages as int, n, false)
                &&& r.3 == count_upto(ms, max_messages as int, n, true)
            }
        }),
{
    let ghost ms = all_messages@;
    let n = all_messages.len();
    let mut num_unread: usize = 0;
    let mut k: usize = 0;
    while k < n
        invariant
            n == ms.len(),
            ms == all_messages@,
            k <= n,
            num_unread == unread_upto(ms, k as int),
            num_unread <= k,
        decreases n - k,
    {
        if !all_messages[k].is_read && !all_messages[k].is_deleted {
            num_unread = num_unread + 1;
        }
        k = k + 1;
    }
    if n <= max_messages {
        return (false, Vec::new(), n, num_unread);
    }
    let mut remove_list: Vec<i32> = Vec::new();
    let mut stay_all: usize = 0;
    let mut stay_unread: usize = 0;
    let mut i: usize = 0;
    while i < n
        invariant
            n == ms.len(),
            ms == all_messages@,
            i <= n,
            num_unread == unread_upto(ms, n as int),
            remove_list@ == removed_upto(ms, max_messages as int, i as int),
            stay_all == count_upto(ms, max_messages as int, i as int, false),
            stay_unread == count_upto(ms, max_messages as int, i as int, true),
            stay_all <= i && stay_unread <= i,
        decreases n - i,
    {
        let m = &all_messages[i];
        let stays_here = rank_of(all_messages, i) < max_messages;
        if !stays_here && !m.is_favorite() {
            remove_list.push(m.message_id as i32);
        }
        if stays_here && !m.is_deleted {
            stay_all = stay_all + 1;
            if !m.is_read {
                stay_unread = stay_unread + 1;
            }
        }
        i = i + 1;
    }
    if remove_list.len() > 0 {
        (true, remove_list, stay_all, stay_unread)
    } else {
        (false, Vec::new(), n, num_unread)
    }
}

/// The messages that are among the `max` newest.
pub open spec fn staying(ms: Seq<MessageRow>, max: int) -> Set<int> {
    Set::new(|i: int| 0 <= i < ms.len() && stays(ms, max, i))
}

/// Ordering newest first is transitive, total and strict.
proof fn lemma_newer_first_order(ms: Seq<MessageRow>)
    ensures
        forall|a: int, b: int, c: int| #[trigger] newer_first(ms, a, b) && #[trigger] newer_first(ms, b, c) ==> newer_first(ms, a, c),
        forall|a: int, b: int| #![trigger newer_first(ms, a, b)] a != b ==> newer_first(ms, a, b) || newer_first(ms, b, a),
        forall|a: int| !#[trigger] newer_first(ms, a, a),
{
}

/// A message that comes before another has fewer messages before it.
proof fn lemma_rank_below(ms: Seq<MessageRow>, j: int, i: int, k: int)
    requires
        newer_first(ms, j, i),
        0 <= j < ms.len(),
        0 <= k <= ms.len(),
    ensures
        rank_upto(ms, j, k) + (if j < k { 1int } else { 0int }) <= rank_upto(ms, i, k),
    decreases k,
{
    lemma_newer_first_order(ms);
    if k > 0 {
        let m = k - 1;
        lemma_rank_below(ms, j, i, m);
        assert(rank_upto(ms, j, k) == rank_upto(ms, j, m) + if newer_first(ms, m, j) { 1nat } else { 0nat });
        assert(rank_upto(ms, i, k) == rank_upto(ms, i, m) + if newer_first(ms, m, i) { 1nat } else { 0nat });
        if m == j {
            assert(!newer_first(ms, j, j));
            assert(newer_first(ms, m, i));
        } else if newer_first(ms, m, j) {
            assert(newer_first(ms, m, i));
        }
    }
}

/// A message is not before itself, so fewer than all come before it.
proof fn lemma_rank_bound(ms: Seq<MessageRow>, i: int, k: int)
    requires
        0 <= k <= ms.len(),
    ensures
        rank_upto(ms, i, k) + (if 0 <= i < k { 1int } else { 0int }) <= k,
    decreases k,
{
    lemma_newer_first_order(ms);
    if k > 0 {
        lemma_rank_bound(ms, i, k - 1);
    }
}

/// Different messages have different places.
proof fn lemma_rank_injective(ms: Seq<MessageRow>, i: int, j: int)
    requires
        0 <= i < ms.len(),
        0 <= j < ms.len(),
        i != j,
    ensures
        rank(ms, i) != rank(ms, j),
{
    lemma_newer_first_order(ms);
    if newer_first(ms, j, i) {
        lemma_rank_below(ms, j, i, ms.len() as int);
    } else {
        lemma_rank_below(ms, i, j, ms.len() as int);
    }
}

/// Each id to remove is that of a message that is neither among the newest nor a
/// favorite.
proof fn lemma_removed_members(ms: Seq<MessageRow>, max: int, k: int)
    requires
        0 <= k <= ms.len(),
    ensures
        forall|t: int| #![trigger removed_upto(ms, max, k)[t]] 0 <= t < removed_upto(ms, max, k).len() ==> exists|i: int|
            0 <= i < k && #[trigger] ms[i].message_id as i32 == removed_upto(ms, max, k)[t] && !stays(ms, max, i)
            && !is_favorite_marker(ms[i].markers),
    decreases k,
{
    if k > 0 {
        lemma_removed_members(ms, max, k - 1);
        let prev = removed_upto(ms, max, k - 1);
        let cur = removed_upto(ms, max, k);
        assert forall|t: int| #![trigger cur[t]] 0 <= t < cur.len() implies exists|i: int| 0 <= i < k
            && #[trigger] ms[i].message_id as i32 == cur[t] && !stays(ms, max, i) && !is_favorite_marker(ms[i].markers) by {
            if t < prev.len() {
                assert(cur[t] == prev[t]);
            } else {
                assert(ms[k - 1].message_id as i32 == cur[t]);
            }
        }
    }
}

/// Cutting a subscription down removes only messages that are not favorites and are no
/// newer than any message that stays: where one removed message is newer than one that
/// stays, the cut is wrong.
pub proof fn lemma_removed_are_oldest(ms: Seq<MessageRow>, max: int, t: int, j: int)
    requires
        0 <= t < removed_upto(ms, max, ms.len() as int).len(),
        0 <= j < ms.len(),
        stays(ms, max, j),
    ensures
        exists|i: int| 0 <= i < ms.len() && #[trigger] ms[i].message_id as i32 == removed_upto(ms, max, ms.len() as int)[t]
            && !is_favorite_marker(ms[i].markers) && ms[i].entry_src_date <= ms[j].entry_src_date,
{
    lemma_removed_members(ms, max, ms.len() as int);
    let i = choose|i: int| 0 <= i < ms.len() && #[trigger] ms[i].message_id as i32 == removed_upto(ms, max, ms.len() as int)[t]
        && !stays(ms, max, i) && !is_favorite_marker(ms[i].markers);
    if ms[i].entry_src_date > ms[j].entry_src_date {
        lemma_rank_below(ms, i, j, ms.len() as int);
        assert(false);
    }
}

/// Cutting down to the `max` newest keeps exactly `max` messages where there are more,
/// and all of them where there are not.
pub proof fn lemma_staying_count(ms: Seq<MessageRow>, max: nat)
    ensures
        staying(ms, max as int).finite(),
        staying(ms, max as int).len() == if ms.len() <= max { ms.len() } else { max },
{
    let n = ms.len() as int;
    let lim = if n <= max { n } else { max as int };
    let f = |i: int| rank(ms, i) as int;
    let all = vstd::set_lib::set_int_range(0, n);
    let st = staying(ms, max as int);
    vstd::set_lib::lemma_int_range(0, n);
    vstd::set_lib::lemma_int_range(0, lim);
    assert(vstd::relations::injective_on(f, all)) by {
        assert forall|a: int, b: int| all.contains(a) && all.contains(b) && #[trigger] f(a) == #[trigger] f(b) implies a == b by {
            if a != b {
                lemma_rank_injective(ms, a, b);
            }
        }
    }
    // the places of all messages are exactly 0 .. n
    assert(all.map(f).subset_of(vstd::set_lib::set_int_range(0, n))) by {
        assert forall|v: int| #[trigger] all.map(f).contains(v) implies vstd::set_lib::set_int_range(0, n).contains(v) by {
            let i = choose|i: int| all.contains(i) && f(i) == v;
            lemma_rank_bound(ms, i, n);
        }
    }
    vstd::set_lib::lemma_map_size(all, all.map(f), f);
    vstd::set_lib::lemma_subset_equality(all.map(f), vstd::set_lib::set_int_range(0, n));
    // the staying ones have the places 0 .. lim
    assert(st.subset_of(all));
    vstd::set_lib::lemma_len_subset(st, all);
    assert(st.map(f) =~= vstd::set_lib::set_int_range(0, lim)) by {
        assert forall|v: int| #[trigger] st.map(f).contains(v) implies vstd::set_lib::set_int_range(0, lim).contains(v) by {
            let i = choose|i: int| st.contains(i) && f(i) == v;
            lemma_rank_bound(ms, i, n);
        }
        assert forall|v: int| #[trigger] vstd::set_lib::set_int_range(0, lim).contains(v) implies st.map(f).contains(v) by {
            assert(vstd::set_lib::set_int_range(0, n).contains(v));
            assert(all.map(f).contains(v));
            let i = choose|i: int| all.contains(i) && f(i) == v;
            assert(st.contains(i));
        }
    }
    assert(vstd::relations::injective_on(f, st));
    vstd::set_lib::lemma_map_size(st, st.map(f), f);
}

/// The stages of the database clean-up, in their order.
#[derive(Clone, Copy, Debug, PartialEq, Eq, Structural)]
pub enum CleanStage {
    Start,
    RemoveNonConnectedSubscriptions,
    AnalyzeFolderPositions,
    ReSortParentId,
    CorrectNames,
    CollapseSubscriptions,
    CorrectIconsOfFolders,
    CorrectIconsDoublettes,
    CorrectIconsOnSubscriptions,
    MarkUnconnectedMessages,
    ReduceTooManyMessages,
    DeleteDoubleSameMessages,
    PurgeMessages,
    CheckErrorLog,
    Notify,
}

/// The stage that follows one of the clean-up: the stages run in order, but the folder
/// positions are re-sorted only where the analysis found parents to correct, and the
/// clean-up stops after the notification.
pub open spec fn clean_successor(stage: CleanStage, positions_to_correct: bool) -> Option<CleanStage> {
    match stage {
        CleanStage::Start => Some(CleanStage::RemoveNonConnectedSubscriptions),
        CleanStage::RemoveNonConnectedSubscriptions => Some(CleanStage::AnalyzeFolderPositions),
        CleanStage::AnalyzeFolderPositions => if positions_to_correct {
            Some(CleanStage::ReSortParentId)
        } else {
            Some(CleanStage::CorrectNames)
        },
        CleanStage::ReSortParentId => Some(CleanStage::CorrectNames),
        CleanStage::CorrectNames => Some(CleanStage::CollapseSubscriptions),
        CleanStage::CollapseSubscriptions => Some(CleanStage::CorrectIconsOfFolders),
        CleanStage::CorrectIconsOfFolders => Some(CleanStage::CorrectIconsDoublettes),
        CleanStage::CorrectIconsDoublettes => Some(CleanStage::CorrectIconsOnSubscriptions),
        CleanStage::CorrectIconsOnSubscriptions => Some(CleanStage::MarkUnconnectedMessages),
        CleanStage::MarkUnconnectedMessages => Some(CleanStage::ReduceTooManyMessages),
        CleanStage::ReduceTooManyMessages => Some(CleanStage::DeleteDoubleSameMessages),
        CleanStage::DeleteDoubleSameMessages => Some(CleanStage::PurgeMessages),
        CleanStage::PurgeMessages => Some(CleanStage::CheckErrorLog),
        CleanStage::CheckErrorLog => Some(CleanStage::Notify),
        CleanStage::Notify => None,
    }
}

/// The stage after one of the clean-up (see `clean_successor`); none after the last.
pub fn next_clean_stage(stage: CleanStage, positions_to_correct: bool) -> (r: Option<CleanStage>)
    ensures
        r == clean_successor(stage, positions_to_correct),
{
    match stage {
        CleanStage::Start => Some(CleanStage::RemoveNonConnectedSubscriptions),
        CleanStage::RemoveNonConnectedSubscriptions => Some(CleanStage::AnalyzeFolderPositions),
        CleanStage::AnalyzeFolderPositions => if positions_to_correct {
            Some(CleanStage::ReSortParentId)
        } else {
            Some(CleanStage::CorrectNames)
        },
        CleanStage::ReSortParentId => Some(CleanStage::CorrectNames),
        CleanStage::CorrectNames => Some(CleanStage::CollapseSubscriptions),
        CleanStage::CollapseSubscriptions => Some(CleanStage::CorrectIconsOfFolders),
        CleanStage::CorrectIconsOfFolders => Some(CleanStage::CorrectIconsDoublettes),
        CleanStage::CorrectIconsDoublettes => Some(CleanStage::CorrectIconsOnSubscriptions),
        CleanStage::CorrectIconsOnSubscriptions => Some(CleanStage::MarkUnconnectedMessages),
        CleanStage::MarkUnconnectedMessages => Some(CleanStage::ReduceTooManyMessages),
        CleanStage::ReduceTooManyMessages => Some(CleanStage::DeleteDoubleSameMessages),
        CleanStage::DeleteDoubleSameMessages => Some(CleanStage::PurgeMessages),
        CleanStage::PurgeMessages => Some(CleanStage::CheckErrorLog),
        CleanStage::CheckErrorLog => Some(CleanStage::Notify),
        CleanStage::Notify => None,
    }
}

/// How many stages at most are left from a stage.
pub open spec fn stages_left(stage: CleanStage) -> nat {
    match stage {
        CleanStage::Start => 15,
        CleanStage::RemoveNonConnectedSubscriptions => 14,
        CleanStage::AnalyzeFolderPositions => 13,
        CleanStage::ReSortParentId => 12,
        CleanStage::CorrectNames => 11,
        CleanStage::CollapseSubscriptions => 10,
        CleanStage::CorrectIconsOfFolders => 9,
        CleanStage::CorrectIconsDoublettes => 8,
        CleanStage::CorrectIconsOnSubscriptions => 7,
        CleanStage::MarkUnconnectedMessages => 6,
        CleanStage::ReduceTooManyMessages => 5,
        CleanStage::DeleteDoubleSameMessages => 4,
        CleanStage::PurgeMessages => 3,
        CleanStage::CheckErrorLog => 2,
        CleanStage::Notify => 1,
    }
}

/// The clean-up always comes to its end: every stage it moves to has fewer stages left.
pub proof fn lemma_clean_up_ends(stage: CleanStage, positions_to_correct: bool)
    ensures
        clean_successor(stage, positions_to_correct) matches Some(n) ==> stages_left(n) < stages_left(stage),
{
}

/// The stages that the clean-up passes from `stage` on, that one first, up to the
/// notification.
pub open spec fn clean_path(stage: CleanStage, positions_to_correct: bool) -> Seq<CleanStage>
    decreases stages_left(stage),
{
    match clean_successor(stage, positions_to_correct) {
        Some(n) => {
            proof {
                lemma_clean_up_ends(stage, positions_to_correct);
            }
            seq![stage] + clean_path(n, positions_to_correct)
        },
        None => seq![stage],
    }
}

/// A run of the clean-up: the stage it is at, whether the folder positions need
/// re-sorting, and the stages it has passed.
pub struct CleanRun {
    pub stage: CleanStage,
    pub positions_to_correct: bool,
    pub passed: Vec<CleanStage>,
}

impl Step<Vec<CleanStage>> for CleanRun {
    open spec fn obeys_step_bound() -> bool {
        true
    }

    open spec fn steps_left(&self) -> nat {
        stages_left(self.stage)
    }

    /// One step passes the present stage and moves to the next one, or stops with the
    /// stages passed after the notification.
    open spec fn may_step_to(&self, r: StepResult<Vec<CleanStage>, Self>) -> bool {
        match clean_successor(self.stage, self.positions_to_correct) {
            Some(n) => r matches StepResult::Continue(s) && s.stage == n && s.positions_to_correct
                == self.positions_to_correct && s.passed@ == self.passed@.push(self.stage),
            None => r matches StepResult::Stop(d) && d@ == self.passed@.push(self.stage),
        }
    }

    fn step(self) -> (r: StepResult<Vec<CleanStage>, Self>) {
        proof {
            lemma_clean_up_ends(self.stage, self.positions_to_correct);
        }
        let mut passed = self.passed;
        passed.push(self.stage);
        match next_clean_stage(self.stage, self.positions_to_correct) {
            Some(n) => StepResult::Continue(CleanRun { stage: n, positions_to_correct: self.positions_to_correct, passed }),
            None => StepResult::Stop(passed),
        }
    }
}

/// A run of the clean-up can only stop with the stages it had passed followed by those
/// from its present stage to the notification.
pub proof fn lemma_clean_run_stops_with_path(run: CleanRun, d: Vec<CleanStage>, n: nat)
    requires
        stops_within(StepResult::<Vec<CleanStage>, CleanRun>::Continue(run), d, n),
    ensures
        d@ == run.passed@ + clean_path(run.stage, run.positions_to_correct),
    decreases n,
{
    let r2 = choose|r2: StepResult<Vec<CleanStage>, CleanRun>| #[trigger] run.may_step_to(r2)
        && stops_within(r2, d, (n - 1) as nat);
    match clean_successor(run.stage, run.positions_to_correct) {
        Some(nx) => {
            let s = r2->Continue_0;
            lemma_clean_run_stops_with_path(s, d, (n - 1) as nat);
            assert(run.passed@.push(run.stage) + clean_path(nx, run.positions_to_correct) =~= run.passed@ + (
            seq![run.stage] + clean_path(nx, run.positions_to_correct)));
        },
        None => {
            assert(run.passed@.push(run.stage) =~= run.passed@ + seq![run.stage]);
        },
    }
}

/// The stages that a clean-up from the start passes, in order: all of them, the
/// re-sorting of folder positions only where it is needed.
pub fn clean_up_stages(positions_to_correct: bool) -> (r: Vec<CleanStage>)
    ensures
        r@ == clean_path(CleanStage::Start, positions_to_correct),
{
    let run = CleanRun { stage: CleanStage::Start, positions_to_correct, passed: Vec::new() };
    let r = StepResult::start(run);
    proof {
        let n = choose|n: nat| stops_within(StepResult::<Vec<CleanStage>, CleanRun>::Continue(run), r, n);
        lemma_clean_run_stops_with_path(run, r, n);
        assert(run.passed@ + clean_path(CleanStage::Start, positions_to_correct) =~= clean_path(
            CleanStage::Start, positions_to_correct));
    }
    r
}

/// The ids of the subscriptions to collapse: feeds that are marked expanded.
pub open spec fn collapse_list(all: Seq<SubscriptionEntry>) -> Seq<isize>
    decreases all.len(),
{
    if all.len() == 0 {
        Seq::empty()
    } else if !all.last().is_folder && all.last().expanded {
        collapse_list(all.drop_last()).push(all.last().subs_id)
    } else {
        collapse_list(all.drop_last())
    }
}

/// The feeds marked expanded, which the clean-up collapses.
pub fn collapse_ids(all: &[SubscriptionEntry]) -> (r: Vec<isize>)
    ensures
        r@ == collapse_list(all@),
{
    let mut r: Vec<isize> = Vec::new();
    let mut i: usize = 0;
    while i < all.len()
        invariant
            i <= all@.len(),
            r@ == collapse_list(all@.take(i as int)),
        decreases all.len() - i,
    {
        proof {
            assert(all@.take(i + 1).drop_last() =~= all@.take(i as int));
        }
        if !all[i].is_folder && all[i].expanded {
            r.push(all[i].subs_id);
        }
        i = i + 1;
    }
    proof {
        assert(all@.take(i as int) =~= all@);
    }
    r
}

/// The name a subscription gets when its own is empty.
pub open spec fn unnamed(id: isize) -> Seq<char> {
    "unnamed-"@ + signed_decimal(id as int)
}

/// Whether `fix` is the new name of a subscription: `unnamed-<id>` for an empty name; for
/// another one, the name cut where its ISO 8859-1 bytes stop being UTF-8, and none where
/// nothing was cut.
pub open spec fn name_fix(e: SubscriptionEntry, fix: Option<Seq<char>>) -> bool {
    if e.display_name@.len() == 0 {
        fix == Some(unnamed(e.subs_id))
    } else {
        match fix {
            Some(n) => iso_filtered(e.display_name@, (n, true)),
            None => exists|f: Seq<char>| iso_filtered(e.display_name@, (f, false)),
        }
    }
}

/// For each subscription its new name (see `name_fix`), none where it keeps its name.
pub fn name_corrections(all: &[SubscriptionEntry]) -> (r: Vec<Option<String>>)
    ensures
        r@.len() == all@.len(),
        forall|i: int| 0 <= i < all@.len() ==> name_fix(all@[i], opt_view(#[trigger] r@[i])),
{
    let mut r: Vec<Option<String>> = Vec::new();
    let mut i: usize = 0;
    while i < all.len()
        invariant
            i <= all@.len(),
            r@.len() == i,
            forall|j: int| 0 <= j < i ==> name_fix(all@[j], opt_view(#[trigger] r@[j])),
        decreases all.len() - i,
    {
        let e = &all[i];
        if chars_of(e.display_name.as_str()).len() == 0 {
            let mut n = chars_of("unnamed-");
            append_chars(&mut n, &signed_decimal_of(e.subs_id));
            r.push(Some(string_of(&n)));
        } else {
            let (filtered, truncated) = filter_by_iso8859_1(e.display_name.as_str());
            if truncated {
                r.push(Some(filtered));
            } else {
                r.push(None);
            }
        }
        i = i + 1;
    }
    r
}

/// A text by value, where there is one.
pub open spec fn opt_view(o: Option<String>) -> Option<Seq<char>> {
    match o {
        Some(s) => Some(s@),
        None => None,
    }
}

/// The ids of the messages marked deleted, in their order.
pub open spec fn deleted_list(ms: Seq<MessageRow>) -> Seq<i32>
    decreases ms.len(),
{
    if ms.len() == 0 {
        Seq::empty()
    } else if ms.last().is_deleted {
        deleted_list(ms.drop_last()).push(ms.last().message_id as i32)
    } else {
        deleted_list(ms.drop_last())
    }
}

/// The messages marked deleted, which the clean-up removes for good.
pub fn purge_ids(all: &[MessageRow]) -> (r: Vec<i32>)
    ensures
        r@ == deleted_list(all@),
{
    let mut r: Vec<i32> = Vec::new();
    let mut i: usize = 0;
    while i < all.len()
        invariant
            i <= all@.len(),
            r@ == deleted_list(all@.take(i as int)),
        decreases all.len() - i,
    {
        proof {
            assert(all@.take(i + 1).drop_last() =~= all@.take(i as int));
        }
        if all[i].is_deleted {
            r.push(all[i].message_id as i32);
        }
        i = i + 1;
    }
    proof {
        assert(all@.take(i as int) =~= all@);
    }
    r
}

/// Message `j` comes before message `k` when the messages are ordered by fetch date, those
/// of the same fetch date in their given order.
pub open spec fn fetched_before(ms: Seq<MessageRow>, j: int, k: int) -> bool {
    ms[j].fetch_date < ms[k].fetch_date || (ms[j].fetch_date == ms[k].fetch_date && j < k)
}

/// Message `k` repeats one that comes before it by fetch date: the same entry date and the
/// same (stored) title.
pub open spec fn repeats_earlier(ms: Seq<MessageRow>, k: int) -> bool {
    exists|j: int| 0 <= j < ms.len() && j != k && #[trigger] fetched_before(ms, j, k) && ms[j].entry_src_date
        == ms[k].entry_src_date && ms[j].title@ == ms[k].title@
}

/// The ids of the repeated messages of one subscription, in their given order.
pub open spec fn repeated_list(ms: Seq<MessageRow>, n: int) -> Seq<i32>
    decreases n,
{
    if n <= 0 {
        Seq::empty()
    } else if repeats_earlier(ms, n - 1) {
        repeated_list(ms, n - 1).push(ms[n - 1].message_id as i32)
    } else {
        repeated_list(ms, n - 1)
    }
}

/// Message `k` and an earlier fetched message `j` are the same item fetched twice: the
/// same entry date and the same (stored) title.
pub open spec fn same_item_fetched_earlier(ms: Seq<MessageRow>, j: int, k: int) -> bool {
    &&& 0 <= j < ms.len() && 0 <= k < ms.len() && j != k
    &&& ms[j].fetch_date < ms[k].fetch_date || (ms[j].fetch_date == ms[k].fetch_date && j < k)
    &&& ms[j].entry_src_date == ms[k].entry_src_date
    &&& ms[j].title@ == ms[k].title@
}

/// Every marked id is that of a message fetched after another one with the same entry
/// date and title.
pub open spec fn marks_only_repeats(ms: Seq<MessageRow>, marked: Seq<i32>) -> bool {
    forall|i: int| #![trigger marked[i]] 0 <= i < marked.len() ==> exists|j: int, k: int|
        #[trigger] same_item_fetched_earlier(ms, j, k) && ms[k].message_id as i32 == marked[i]
}

/// The id of every message fetched after another one with the same entry date and title
/// is marked.
pub open spec fn marks_every_repeat(ms: Seq<MessageRow>, marked: Seq<i32>) -> bool {
    forall|j: int, k: int| #[trigger] same_item_fetched_earlier(ms, j, k) ==> marked.contains(ms[k].message_id as i32)
}

/// The ids that the clean-up of repeated messages marks are exactly those of the
/// messages for which an earlier fetched message has the same entry date and the same
/// title: a message whose entry date no other message shares is never marked, and every
/// repeat is.
pub proof fn lemma_repeats_marked(ms: Seq<MessageRow>, n: int)
    requires
        0 <= n <= ms.len(),
    ensures
        marks_only_repeats(ms, repeated_list(ms, n)),
        forall|j: int, k: int| 0 <= k < n && #[trigger] same_item_fetched_earlier(ms, j, k) ==> repeated_list(
            ms, n).contains(ms[k].message_id as i32),
        n == ms.len() ==> marks_every_repeat(ms, repeated_list(ms, n)),
    decreases n,
{
    if n > 0 {
        lemma_repeats_marked(ms, n - 1);
        let prev = repeated_list(ms, n - 1);
        let cur = repeated_list(ms, n);
        if repeats_earlier(ms, n - 1) {
            let j0 = choose|j: int| 0 <= j < ms.len() && j != n - 1 && #[trigger] fetched_before(ms, j, n - 1)
                && ms[j].entry_src_date == ms[n - 1].entry_src_date && ms[j].title@ == ms[n - 1].title@;
            assert(same_item_fetched_earlier(ms, j0, n - 1));
            assert forall|i: int| #![trigger cur[i]] 0 <= i < cur.len() implies exists|j: int, k: int|
                #[trigger] same_item_fetched_earlier(ms, j, k) && ms[k].message_id as i32 == cur[i] by {
                if i < prev.len() {
                    assert(cur[i] == prev[i]);
                } else {
                    assert(cur[i] == ms[n - 1].message_id as i32);
                }
            }
            assert forall|j: int, k: int| 0 <= k < n && #[trigger] same_item_fetched_earlier(ms, j, k) implies cur.contains(
                ms[k].message_id as i32) by {
                if k < n - 1 {
                    let i = choose|i: int| 0 <= i < prev.len() && prev[i] == ms[k].message_id as i32;
                    assert(cur[i] == prev[i]);
                } else {
                    assert(cur[cur.len() - 1] == ms[n - 1].message_id as i32);
                }
            }
        } else {
            assert forall|j: int, k: int| 0 <= k < n && #[trigger] same_item_fetched_earlier(ms, j, k) implies cur.contains(
                ms[k].message_id as i32) by {
                if k == n - 1 {
                    assert(fetched_before(ms, j, k));
                }
            }
        }
    }
}

/// The messages of one subscription that repeat an earlier fetched one (see
/// `repeats_earlier`), which the clean-up marks deleted. They come in their given order;
/// the order does not matter to the marking.
pub fn duplicate_message_ids(msgs: &[MessageRow]) -> (r: Vec<i32>)
    ensures
        r@ == repeated_list(msgs@, msgs@.len() as int),
        marks_only_repeats(msgs@, r@),
        marks_every_repeat(msgs@, r@),
{
    let mut r: Vec<i32> = Vec::new();
    let mut k: usize = 0;
    while k < msgs.len()
        invariant
            k <= msgs@.len(),
            r@ == repeated_list(msgs@, k as int),
        decreases msgs.len() - k,
    {
        let mut found = false;
        let mut j: usize = 0;
        while j < msgs.len()
            invariant
                j <= msgs@.len(),
                k < msgs@.len(),
                found <==> exists|t: int| 0 <= t < j && t != k && #[trigger] fetched_before(msgs@, t, k as int)
                    && msgs@[t].entry_src_date == msgs@[k as int].entry_src_date && msgs@[t].title@
                    == msgs@[k as int].title@,
            decreases msgs.len() - j,
        {
            if j != k && (msgs[j].fetch_date < msgs[k].fetch_date || (msgs[j].fetch_date == msgs[k].fetch_date && j < k))
                && msgs[j].entry_src_date == msgs[k].entry_src_date && is_lit(msgs[j].title.as_str(), msgs[k].title.as_str()) {
                found = true;
                proof {
                    assert(fetched_before(msgs@, j as int, k as int));
                }
            }
            j = j + 1;
        }
        if found {
            r.push(msgs[k].message_id as i32);
        }
        k = k + 1;
    }
    proof {
        lemma_repeats_marked(msgs@, msgs@.len() as int);
    }
    r
}

/// The icon that a later icon with the same content is replaced by: the first one with
/// that content, where the icon is not itself the first.
pub open spec fn first_same_icon(icons: Seq<IconRow>, k: int) -> Option<int> {
    if exists|j: int| 0 <= j < k && icons[j].icon@ == icons[k].icon@ {
        Some(choose|j: int| 0 <= j < k && icons[j].icon@ == icons[k].icon@ && forall|t: int| 0 <= t < j
            ==> icons[t].icon@ != icons[k].icon@)
    } else {
        None
    }
}

/// The pairs (icon id, id of the icon that replaces it) of the repeated icons, in order.
pub open spec fn doublette_list(icons: Seq<IconRow>, n: int) -> Seq<(isize, isize)>
    decreases n,
{
    if n <= 0 {
        Seq::empty()
    } else {
        match first_same_icon(icons, n - 1) {
            Some(j) => doublette_list(icons, n - 1).push((icons[n - 1].icon_id, icons[j].icon_id)),
            None => doublette_list(icons, n - 1),
        }
    }
}

/// The repeated icons: each with the id of the first icon of the same content, which the
/// subscriptions that use it get instead (see `first_same_icon`).
pub fn icon_doublettes(icons: &[IconRow]) -> (r: Vec<(isize, isize)>)
    ensures
        r@ == doublette_list(icons@, icons@.len() as int),
{
    let mut r: Vec<(isize, isize)> = Vec::new();
    let mut k: usize = 0;
    while k < icons.len()
        invariant
            k <= icons@.len(),
            r@ == doublette_list(icons@, k as int),
        decreases icons.len() - k,
    {
        let mut j: usize = 0;
        let mut first: Option<usize> = None;
        while j < k && first.is_none()
            invariant
                j <= k < icons@.len(),
                match first {
                    Some(f) => f < k && icons@[f as int].icon@ == icons@[k as int].icon@ && forall|t: int|
                        0 <= t < f ==> icons@[t].icon@ != icons@[k as int].icon@,
                    None => forall|t: int| 0 <= t < j ==> icons@[t].icon@ != icons@[k as int].icon@,
                },
            decreases k - j,
        {
            if is_lit(icons[j].icon.as_str(), icons[k].icon.as_str()) {
                first = Some(j);
            }
            j = j + 1;
        }
        proof {
            let ki = k as int;
            match first {
                Some(f) => {
                    assert(exists|j: int| 0 <= j < ki && icons@[j].icon@ == icons@[ki].icon@) by {
                        assert(0 <= f < ki && icons@[f as int].icon@ == icons@[ki].icon@);
                    }
                    let c = first_same_icon(icons@, ki)->Some_0;
                    if c < f {
                        assert(icons@[c].icon@ != icons@[ki].icon@);
                    } else if f < c {
                        assert(icons@[f as int].icon@ != icons@[ki].icon@);
                    }
                    assert(c == f);
                },
                None => {
                    assert(first_same_icon(icons@, ki) is None);
                },
            }
        }
        match first {
            Some(f) => {
                r.push((icons[k].icon_id, icons[f].icon_id));
            },
            None => {},
        }
        k = k + 1;
    }
    r
}

/// A folder whose icon the clean-up sets to the folder icon: an id of zero or more that is
/// not the placeholder id, with another icon.
pub open spec fn folder_icon_wrong(e: SubscriptionEntry, dummy_id: isize, folder_icon: usize) -> bool {
    e.is_folder && e.subs_id >= 0 && e.subs_id != dummy_id && e.icon_id != folder_icon
}

/// The ids of the folders with a wrong icon, in order.
pub open spec fn folder_icon_list(all: Seq<SubscriptionEntry>, dummy_id: isize, folder_icon: usize) -> Seq<i32>
    decreases all.len(),
{
    if all.len() == 0 {
        Seq::empty()
    } else if folder_icon_wrong(all.last(), dummy_id, folder_icon) {
        folder_icon_list(all.drop_last(), dummy_id, folder_icon).push(all.last().subs_id as i32)
    } else {
        folder_icon_list(all.drop_last(), dummy_id, folder_icon)
    }
}

/// The folders whose icon the clean-up sets to the folder icon (see `folder_icon_wrong`);
/// the placeholder id and the folder icon come from the application's resources.
pub fn folder_icon_resets(all: &[SubscriptionEntry], dummy_id: isize, folder_icon: usize) -> (r: Vec<i32>)
    ensures
        r@ == folder_icon_list(all@, dummy_id, folder_icon),
{
    let mut r: Vec<i32> = Vec::new();
    let mut i: usize = 0;
    while i < all.len()
        invariant
            i <= all@.len(),
            r@ == folder_icon_list(all@.take(i as int), dummy_id, folder_icon),
        decreases all.len() - i,
    {
        proof {
            assert(all@.take(i + 1).drop_last() =~= all@.take(i as int));
        }
        let e = &all[i];
        if e.is_folder && e.subs_id >= 0 && e.subs_id != dummy_id && e.icon_id != folder_icon {
            r.push(e.subs_id as i32);
        }
        i = i + 1;
    }
    proof {
        assert(all@.take(i as int) =~= all@);
    }
    r
}

/// A feed whose icon the clean-up sets to the feed icon: one of the built-in icons other
/// than the feed icon, an icon that the icon store does not hold, or one below the feed
/// icon.
pub open spec fn feed_icon_wrong(e: SubscriptionEntry, icon_ids: Seq<isize>, builtin_count: usize, feed_icon: usize) -> bool {
    !e.is_folder && ((e.icon_id < builtin_count && e.icon_id != feed_icon) || !icon_ids.contains(e.icon_id as isize)
        || e.icon_id < feed_icon)
}

/// The ids of the feeds with a wrong icon, in order.
pub open spec fn feed_icon_list(all: Seq<SubscriptionEntry>, icon_ids: Seq<isize>, builtin_count: usize, feed_icon: usize) -> Seq<i32>
    decreases all.len(),
{
    if all.len() == 0 {
        Seq::empty()
    } else if feed_icon_wrong(all.last(), icon_ids, builtin_count, feed_icon) {
        feed_icon_list(all.drop_last(), icon_ids, builtin_count, feed_icon).push(all.last().subs_id as i32)
    } else {
        feed_icon_list(all.drop_last(), icon_ids, builtin_count, feed_icon)
    }
}

/// The feeds whose icon the clean-up sets to the feed icon (see `feed_icon_wrong`); none
/// where the icon store holds fewer than two icons, when the stage is skipped. The count of
/// built-in icons and the feed icon come from the application's resources.
pub fn subscription_icon_resets(all: &[SubscriptionEntry], icon_ids: &[isize], builtin_count: usize, feed_icon: usize) -> (r: Option<Vec<i32>>)
    ensures
        icon_ids@.len() < 2 ==> r is None,
        icon_ids@.len() >= 2 ==> (r matches Some(v) && v@ == feed_icon_list(all@, icon_ids@, builtin_count, feed_icon)),
{
    if icon_ids.len() < 2 {
        return None;
    }
    let mut r: Vec<i32> = Vec::new();
    let mut i: usize = 0;
    while i < all.len()
        invariant
            i <= all@.len(),
            r@ == feed_icon_list(all@.take(i as int), icon_ids@, builtin_count, feed_icon),
        decreases all.len() - i,
    {
        proof {
            assert(all@.take(i + 1).drop_last() =~= all@.take(i as int));
        }
        let e = &all[i];
        if !e.is_folder {
            let mut known = false;
            let mut j: usize = 0;
            while j < icon_ids.len()
                invariant
                    j <= icon_ids@.len(),
                    known <==> exists|t: int| 0 <= t < j && icon_ids@[t] == e.icon_id as isize,
                decreases icon_ids.len() - j,
            {
                if icon_ids[j] == e.icon_id as isize {
                    known = true;
                }
                j = j + 1;
            }
            proof {
                if known {
                    let t = choose|t: int| 0 <= t < j && icon_ids@[t] == e.icon_id as isize;
                    assert(icon_ids@.contains(e.icon_id as isize));
                } else {
                    assert(!icon_ids@.contains(e.icon_id as isize));
                }
            }
            if (e.icon_id < builtin_count && e.icon_id != feed_icon) || !known || e.icon_id < feed_icon {
                r.push(e.subs_id as i32);
            }
        }
        i = i + 1;
    }
    proof {
        assert(all@.take(i as int) =~= all@);
    }
    Some(r)
}

/// The ids of the feeds still in use: not folders, not deleted, in order.
pub open spec fn active_feed_list(all: Seq<SubscriptionEntry>) -> Seq<i32>
    decreases all.len(),
{
    if all.len() == 0 {
        Seq::empty()
    } else if !all.last().is_folder && !is_gone(all.last()) {
        active_feed_list(all.drop_last()).push(all.last().subs_id as i32)
    } else {
        active_feed_list(all.drop_last())
    }
}

/// The feeds still in use, whose messages the clean-up keeps.
pub fn active_feed_ids(all: &[SubscriptionEntry]) -> (r: Vec<i32>)
    ensures
        r@ == active_feed_list(all@),
{
    let mut r: Vec<i32> = Vec::new();
    let mut i: usize = 0;
    while i < all.len()
        invariant
            i <= all@.len(),
            r@ == active_feed_list(all@.take(i as int)),
        decreases all.len() - i,
    {
        proof {
            assert(all@.take(i + 1).drop_last() =~= all@.take(i as int));
        }
        if !all[i].is_folder && !all[i].isdeleted() {
            r.push(all[i].subs_id as i32);
        }
        i = i + 1;
    }
    proof {
        assert(all@.take(i as int) =~= all@);
    }
    r
}

/// The ids of the messages not yet deleted whose subscription is not among `active`, in
/// order.
pub open spec fn unconnected_list(active: Seq<i32>, ms: Seq<MessageRow>) -> Seq<i32>
    decreases ms.len(),
{
    if ms.len() == 0 {
        Seq::empty()
    } else if !ms.last().is_deleted && !active.contains(ms.last().subscription_id as i32) {
        unconnected_list(active, ms.drop_last()).push(ms.last().message_id as i32)
    } else {
        unconnected_list(active, ms.drop_last())
    }
}

/// The messages that belong to no feed in use, which the clean-up marks deleted.
pub fn unconnected_message_ids(active: &[i32], msgs: &[MessageRow]) -> (r: Vec<i32>)
    ensures
        r@ == unconnected_list(active@, msgs@),
{
    let mut r: Vec<i32> = Vec::new();
    let mut i: usize = 0;
    while i < msgs.len()
        invariant
            i <= msgs@.len(),
            r@ == unconnected_list(active@, msgs@.take(i as int)),
        decreases msgs.len() - i,
    {
        proof {
            assert(msgs@.take(i + 1).drop_last() =~= msgs@.take(i as int));
        }
        let m = &msgs[i];
        let sid = m.subscription_id as i32;
        let mut found = false;
        let mut j: usize = 0;
        while j < active.len()
            invariant
                j <= active@.len(),
                found <==> exists|t: int| 0 <= t < j && active@[t] == sid,
            decreases active.len() - j,
        {
            if active[j] == sid {
                found = true;
            }
            j = j + 1;
        }
        proof {
            if found {
                let t = choose|t: int| 0 <= t < j && active@[t] == sid;
                assert(active@.contains(sid));
            }
        }
        if !m.is_deleted && !found {
            r.push(m.message_id as i32);
        }
        i = i + 1;
    }
    proof {
        assert(msgs@.take(i as int) =~= msgs@);
    }
    r
}

/// The most error lines the log keeps per subscription.
pub const MAX_ERROR_LINES_PER_SUBSCRIPTION: usize = 100;
/// The age in seconds beyond which an error line is removed: 360 days.
pub const MAX_ERROR_LINE_AGE_S: i64 = 31_104_000;

/// Error line `j` comes before line `k` of the same subscription when the lines are ordered
/// by date, those of the same date in their given order.
pub open spec fn logged_before(es: Seq<ErrorEntry>, j: int, k: int) -> bool {
    es[j].subs_id == es[k].subs_id && (es[j].date < es[k].date || (es[j].date == es[k].date && j < k))
}

/// How many lines of `k`'s subscription among the first `n` come before line `k`.
pub open spec fn log_rank_upto(es: Seq<ErrorEntry>, k: int, n: int) -> nat
    decreases n,
{
    if n <= 0 {
        0
    } else {
        log_rank_upto(es, k, n - 1) + if logged_before(es, n - 1, k) { 1nat } else { 0nat }
    }
}

/// How many lines of a subscription there are among the first `n`.
pub open spec fn log_count_upto(es: Seq<ErrorEntry>, subs_id: isize, n: int) -> nat
    decreases n,
{
    if n <= 0 {
        0
    } else {
        log_count_upto(es, subs_id, n - 1) + if es[n - 1].subs_id == subs_id { 1nat } else { 0nat }
    }
}

/// Whether the clean-up removes error line `k`: its subscription is no feed in use; or the
/// subscription has more lines than the log keeps and the line is among the oldest of
/// that many; or the line is older than `earliest`.
pub open spec fn log_line_goes(es: Seq<ErrorEntry>, active: Seq<isize>, earliest: i64, k: int) -> bool {
    ||| !active.contains(es[k].subs_id)
    ||| log_count_upto(es, es[k].subs_id, es.len() as int) > MAX_ERROR_LINES_PER_SUBSCRIPTION
        && log_rank_upto(es, k, es.len() as int) < MAX_ERROR_LINES_PER_SUBSCRIPTION
    ||| es[k].date < earliest
}

/// The ids of the error lines that go, in order.
pub open spec fn log_removals(es: Seq<ErrorEntry>, active: Seq<isize>, earliest: i64, n: int) -> Seq<isize>
    decreases n,
{
    if n <= 0 {
        Seq::empty()
    } else if log_line_goes(es, active, earliest, n - 1) {
        log_removals(es, active, earliest, n - 1).push(es[n - 1].err_id)
    } else {
        log_removals(es, active, earliest, n - 1)
    }
}

/// The error lines that the clean-up removes (see `log_line_goes`), for the feeds in use
/// `active` and the time `now`: lines older than `MAX_ERROR_LINE_AGE_S` go. They come in
/// their given order; the order does not matter to the removal.
pub fn error_log_deletions(active: &[isize], entries: &[ErrorEntry], now: i64) -> (r: Vec<isize>)
    requires
        now >= i64::MIN + MAX_ERROR_LINE_AGE_S,
    ensures
        r@ == log_removals(entries@, active@, (now - MAX_ERROR_LINE_AGE_S) as i64, entries@.len() as int),
{
    let earliest: i64 = now - MAX_ERROR_LINE_AGE_S;
    let n = entries.len();
    let mut r: Vec<isize> = Vec::new();
    let mut k: usize = 0;
    while k < n
        invariant
            n == entries@.len(),
            k <= n,
            earliest == now - MAX_ERROR_LINE_AGE_S,
            r@ == log_removals(entries@, active@, earliest, k as int),
        decreases n - k,
    {
        let e = &entries[k];
        let mut in_active = false;
        let mut j: usize = 0;
        while j < active.len()
            invariant
                j <= active@.len(),
                in_active <==> exists|t: int| 0 <= t < j && active@[t] == e.subs_id,
            decreases active.len() - j,
        {
            if active[j] == e.subs_id {
                in_active = true;
            }
            j = j + 1;
        }
        proof {
            if in_active {
                let t = choose|t: int| 0 <= t < j && active@[t] == e.subs_id;
                assert(active@.contains(e.subs_id));
            } else {
                assert(!active@.contains(e.subs_id));
            }
        }
        let mut count: usize = 0;
        let mut rank: usize = 0;
        let mut t: usize = 0;
        while t < n
            invariant
                n == entries@.len(),
                k < n,
                t <= n,
                count == log_count_upto(entries@, entries@[k as int].subs_id, t as int),
                rank == log_rank_upto(entries@, k as int, t as int),
                count <= t,
                rank <= t,
            decreases n - t,
        {
            if entries[t].subs_id == entries[k].subs_id {
                count = count + 1;
                if entries[t].date < entries[k].date || (entries[t].date == entries[k].date && t < k) {
                    rank = rank + 1;
                }
            }
            t = t + 1;
        }
        let goes = !in_active || (count > MAX_ERROR_LINES_PER_SUBSCRIPTION && rank < MAX_ERROR_LINES_PER_SUBSCRIPTION)
            || entries[k].date < earliest;
        if goes {
            r.push(entries[k].err_id);
        }
        k = k + 1;
    }
    r
}

} // verus!
