use vstd::prelude::*;
use crate::db::message::MessageRow;
use crate::db::message_state::{before, settled, unread_after, unread_before, MessageState, MessageStateMap};
use crate::text::{chars_of, string_of, trim, trim_vec};

verus! {

/// Work for the message list.
#[derive(Debug)]
pub enum CJob {
    /// content_id, new title
    DbUpdateTitle(isize, String),
    /// content_id, new post id
    DbUpdatePostId(isize, String),
    /// content_id, entry date
    DbUpdateEntryDate(isize, u64),
    /// list_position, feed_content_id
    UpdateMessageListSome(Vec<(u32, u32)>),
    /// feed_content_id
    SwitchBrowserTabContent(i32),
    ListSetCursorToPolicy,
    /// feed-source-id
    RequestUnreadAllCount(isize),
    UpdateMessageList,
    ListSetCursorToMessage(isize),
    /// list_position, msg_id, favorite
    SetFavoriteSome(Vec<(u32, u32)>, bool),
    /// db-id, list-position
    LaunchBrowserSuccess(isize, u32),
    /// subs_id
    CheckMessageCounts(isize),
    /// milliseconds
    Pause(usize),
}

/// Direction of a cursor move in the message list.
#[derive(Clone, Copy, Debug, PartialEq, Eq, Structural)]
pub enum ListMoveCommand {
    Stay,
    LaterUnreadMessage,
    PreviousUnreadMessage,
}

/// Bit of `match_fce`: equal entry dates.
pub const MATCH_ENTRY_SRC_DATE: u8 = 1;
/// Bit of `match_fce`: equal, non-empty post ids.
pub const MATCH_POST_ID: u8 = 2;
/// Bit of `match_fce`: equal titles.
pub const MATCH_TITLE: u8 = 4;

/// The match bits of two messages: 1 for equal entry dates, 2 for equal post ids where the
/// existing one is not empty, 4 for equal titles.
pub open spec fn match_bits(existing: MessageRow, new_fce: MessageRow) -> u8 {
    ((if existing.entry_src_date == new_fce.entry_src_date { 1int } else { 0int })
        + (if existing.post_id@.len() > 0 && existing.post_id@ == new_fce.post_id@ { 2int } else { 0int })
        + (if existing.title@ == new_fce.title@ { 4int } else { 0int })) as u8
}

/// Compares a stored message with a newly downloaded one; returns the match bits.
pub fn match_fce(existing: &MessageRow, new_fce: &MessageRow) -> (r: u8)
    ensures
        r == match_bits(*existing, *new_fce),
{
    let mut match_bits: u8 = 0;
    if existing.entry_src_date == new_fce.entry_src_date {
        match_bits = match_bits | MATCH_ENTRY_SRC_DATE;
    }
    if !existing.post_id.as_str().is_empty() && (existing.post_id == new_fce.post_id) {
        match_bits = match_bits | MATCH_POST_ID;
    }
    if existing.title == new_fce.title {
        match_bits = match_bits | MATCH_TITLE;
    }
    assert(0u8 | 1u8 == 1u8 && 0u8 | 2u8 == 2u8 && 0u8 | 4u8 == 4u8 && 1u8 | 2u8 == 3u8 && 1u8 | 4u8 == 5u8
        && 2u8 | 4u8 == 6u8 && 3u8 | 4u8 == 7u8) by (bit_vector);
    match_bits
}

/// How many of entry date, post id and title match (see `match_bits`).
pub open spec fn score(existing: MessageRow, new_fce: MessageRow) -> int {
    (if existing.entry_src_date == new_fce.entry_src_date { 1int } else { 0int })
        + (if existing.post_id@.len() > 0 && existing.post_id@ == new_fce.post_id@ { 1int } else { 0int })
        + (if existing.title@ == new_fce.title@ { 1int } else { 0int })
}

/// The number of set bits of a match (at most three bits).
fn ones_of(m: u8) -> (r: u8)
    requires
        m < 8,
    ensures
        r as int == (if m & 1 != 0 { 1int } else { 0int }) + (if m & 2 != 0 { 1int } else { 0int })
            + (if m & 4 != 0 { 1int } else { 0int }),
{
    assert(0u8 & 1 == 0 && 0u8 & 2 == 0 && 0u8 & 4 == 0) by (bit_vector);
    assert(1u8 & 1 != 0 && 1u8 & 2 == 0 && 1u8 & 4 == 0) by (bit_vector);
    assert(2u8 & 1 == 0 && 2u8 & 2 != 0 && 2u8 & 4 == 0) by (bit_vector);
    assert(3u8 & 1 != 0 && 3u8 & 2 != 0 && 3u8 & 4 == 0) by (bit_vector);
    assert(4u8 & 1 == 0 && 4u8 & 2 == 0 && 4u8 & 4 != 0) by (bit_vector);
    assert(5u8 & 1 != 0 && 5u8 & 2 == 0 && 5u8 & 4 != 0) by (bit_vector);
    assert(6u8 & 1 == 0 && 6u8 & 2 != 0 && 6u8 & 4 != 0) by (bit_vector);
    assert(7u8 & 1 != 0 && 7u8 & 2 != 0 && 7u8 & 4 != 0) by (bit_vector);
    match m {
        0 => 0,
        1 => 1,
        2 => 1,
        3 => 2,
        4 => 1,
        5 => 2,
        6 => 2,
        _ => 3,
    }
}

/// The score of the stored messages that matches the new one best (0 where none is).
pub open spec fn best_score(existing: Seq<MessageRow>, n: MessageRow) -> int
    decreases existing.len(),
{
    if existing.len() == 0 {
        0
    } else {
        let rest = best_score(existing.drop_last(), n);
        let s = score(existing.last(), n);
        if s > rest { s } else { rest }
    }
}

/// The first stored message whose score is `s`.
pub open spec fn first_scoring(existing: Seq<MessageRow>, n: MessageRow, s: int, i: int) -> bool {
    &&& 0 <= i < existing.len()
    &&& score(existing[i], n) == s
    &&& forall|j: int| 0 <= j < i ==> score(existing[j], n) != s
}

/// The corrections of a stored message that matches a new one on two of three: the
/// entry date, the post id and the title, where each differs, in that order.
pub open spec fn corrections(e: MessageRow, n: MessageRow) -> Seq<CJob> {
    (if e.entry_src_date != n.entry_src_date { seq![CJob::DbUpdateEntryDate(e.message_id, n.entry_src_date as u64)] } else { Seq::empty() })
        + (if !(e.post_id@.len() > 0 && e.post_id@ == n.post_id@) { seq![CJob::DbUpdatePostId(e.message_id, n.post_id)] } else { Seq::empty() })
        + (if e.title@ != n.title@ { seq![CJob::DbUpdateTitle(e.message_id, n.title)] } else { Seq::empty() })
}

/// `job` corrects the stored message `e` after the new message `n`, which agrees with it
/// on two of entry date, post id and title: it gives `e` the value that `n` has for the
/// one field where they differ.
pub open spec fn corrects(job: CJob, e: MessageRow, n: MessageRow) -> bool {
    let same_date = e.entry_src_date == n.entry_src_date;
    let same_post = e.post_id@.len() > 0 && e.post_id@ == n.post_id@;
    let same_title = e.title@ == n.title@;
    match job {
        CJob::DbUpdateEntryDate(id, d) => id == e.message_id && d == n.entry_src_date as u64 && !same_date && same_post
            && same_title,
        CJob::DbUpdatePostId(id, p) => id == e.message_id && p@ == n.post_id@ && same_date && !same_post && same_title,
        CJob::DbUpdateTitle(id, t) => id == e.message_id && t@ == n.title@ && same_date && same_post && !same_title,
        _ => false,
    }
}

/// The job corrects one of the stored messages after one of the new ones (see `corrects`).
pub open spec fn corrects_some(job: CJob, new_list: Seq<MessageRow>, existing: Seq<MessageRow>) -> bool {
    exists|a: int, b: int| 0 <= a < new_list.len() && 0 <= b < existing.len() && #[trigger] corrects(job, existing[b],
        new_list[a])
}

/// Every job of matching corrects a stored message after a new one (see `corrects`).
pub open spec fn all_jobs_correct(jobs: Seq<CJob>, new_list: Seq<MessageRow>, existing: Seq<MessageRow>) -> bool {
    forall|i: int| 0 <= i < jobs.len() ==> corrects_some(#[trigger] jobs[i], new_list, existing)
}

/// Where a stored message has a score, some stored message is the first with it.
proof fn lemma_first_of(existing: Seq<MessageRow>, n: MessageRow, w: int)
    requires
        0 <= w < existing.len(),
    ensures
        exists|i: int| first_scoring(existing, n, score(existing[w], n), i),
    decreases w,
{
    let s = score(existing[w], n);
    if exists|j: int| 0 <= j < w && score(existing[j], n) == s {
        let j = choose|j: int| 0 <= j < w && score(existing[j], n) == s;
        lemma_first_of(existing, n, j);
    } else {
        assert(first_scoring(existing, n, s, w));
    }
}

/// The corrections of a stored message that agrees with a new one on exactly two fields
/// each correct it after the new one.
proof fn lemma_corrections_correct(e: MessageRow, n: MessageRow)
    requires
        score(e, n) == 2,
    ensures
        forall|i: int| 0 <= i < corrections(e, n).len() ==> corrects(#[trigger] corrections(e, n)[i], e, n),
{
    let c = corrections(e, n);
    if e.entry_src_date != n.entry_src_date {
        assert(c =~= seq![CJob::DbUpdateEntryDate(e.message_id, n.entry_src_date as u64)]);
    } else if !(e.post_id@.len() > 0 && e.post_id@ == n.post_id@) {
        assert(c =~= seq![CJob::DbUpdatePostId(e.message_id, n.post_id)]);
    } else {
        assert(c =~= seq![CJob::DbUpdateTitle(e.message_id, n.title)]);
    }
}

/// Matching asks only for corrections that give a stored message the value of the one
/// field where it differs from a new message agreeing with it on the other two: a title
/// correction carries the new message's title, a date correction its entry date, a post
/// id correction its post id.
pub proof fn lemma_matching_jobs_correct(new_list: Seq<MessageRow>, existing: Seq<MessageRow>)
    ensures
        all_jobs_correct(matched(new_list, existing).1, new_list, existing),
    decreases new_list.len(),
{
    if new_list.len() > 0 {
        let d = new_list.drop_last();
        lemma_matching_jobs_correct(d, existing);
        let n = new_list.last();
        let prev = matched(d, existing).1;
        let jobs = matched(new_list, existing).1;
        let best = best_score(existing, n);
        assert forall|i: int| 0 <= i < prev.len() implies corrects_some(#[trigger] prev[i], new_list, existing) by {
            assert(corrects_some(prev[i], d, existing));
            let (a, b) = choose|a: int, b: int| 0 <= a < d.len() && 0 <= b < existing.len() && #[trigger] corrects(
                prev[i], existing[b], d[a]);
            assert(d[a] == new_list[a]);
            assert(corrects(prev[i], existing[b], new_list[a]));
        }
        if best == 2 {
            lemma_best_below_two(existing, n);
            let w = choose|i: int| 0 <= i < existing.len() && score(existing[i], n) == best_score(existing, n);
            lemma_first_of(existing, n, w);
            let c = choose|i: int| first_scoring(existing, n, 2, i);
            let e = existing[c];
            lemma_corrections_correct(e, n);
            let cs = corrections(e, n);
            assert(jobs =~= prev + cs);
            assert forall|i: int| 0 <= i < jobs.len() implies corrects_some(#[trigger] jobs[i], new_list, existing) by {
                if i < prev.len() {
                    assert(jobs[i] == prev[i]);
                } else {
                    assert(jobs[i] == cs[i - prev.len()]);
                    assert(corrects(cs[i - prev.len()], e, n));
                    assert(corrects(jobs[i], existing[c], new_list[new_list.len() - 1]));
                }
            }
        } else {
            assert(jobs == prev);
        }
    }
}

/// What matching does with the new messages: keeps those that match no stored one on
/// two or more of entry date, post id and title; for one that matches the best stored one
/// on exactly two, corrects the first such stored one.
pub open spec fn matched(new_list: Seq<MessageRow>, existing: Seq<MessageRow>) -> (Seq<MessageRow>, Seq<CJob>)
    decreases new_list.len(),
{
    if new_list.len() == 0 {
        (Seq::empty(), Seq::empty())
    } else {
        let (kept, jobs) = matched(new_list.drop_last(), existing);
        let n = new_list.last();
        let best = best_score(existing, n);
        if best < 2 {
            (kept.push(n), jobs)
        } else if best == 2 {
            (kept, jobs + corrections(existing[choose|i: int| first_scoring(existing, n, 2, i)], n))
        } else {
            (kept, jobs)
        }
    }
}

/// A new message that matches no stored one on two or more of entry date, post id and
/// title.
pub open spec fn unmatched(existing: Seq<MessageRow>, n: MessageRow) -> bool {
    forall|i: int| 0 <= i < existing.len() ==> score(existing[i], n) < 2
}

/// The best score is below two exactly where no stored message scores two or more.
proof fn lemma_best_below_two(existing: Seq<MessageRow>, n: MessageRow)
    ensures
        best_score(existing, n) < 2 <==> unmatched(existing, n),
        best_score(existing, n) >= 0,
        forall|i: int| 0 <= i < existing.len() ==> score(existing[i], n) <= best_score(existing, n),
        existing.len() > 0 ==> exists|i: int| 0 <= i < existing.len() && score(existing[i], n) == best_score(existing, n)
            || best_score(existing, n) == 0,
    decreases existing.len(),
{
    if existing.len() > 0 {
        let d = existing.drop_last();
        lemma_best_below_two(d, n);
        assert forall|i: int| 0 <= i < d.len() implies d[i] == existing[i] by {}
        if best_score(existing, n) >= 2 {
            if score(existing.last(), n) > best_score(d, n) {
                assert(score(existing[existing.len() - 1], n) >= 2);
            } else {
                let i = choose|i: int| 0 <= i < d.len() && score(d[i], n) == best_score(d, n);
                assert(score(existing[i], n) >= 2);
            }
        }
    }
}

/// Matching keeps exactly the new messages that match no stored one on two or more of
/// entry date, post id and title, in their order.
pub proof fn lemma_matched_keeps_unmatched(new_list: Seq<MessageRow>, existing: Seq<MessageRow>)
    ensures
        matched(new_list, existing).0 == new_list.filter(unmatched_by(existing)),
    decreases new_list.len(),
{
    if new_list.len() == 0 {
        reveal(Seq::filter);
    } else {
        lemma_matched_keeps_unmatched(new_list.drop_last(), existing);
        lemma_best_below_two(existing, new_list.last());
        let p = unmatched_by(existing);
        reveal(Seq::filter);
        assert(new_list.filter(p) == if p(new_list.last()) {
            new_list.drop_last().filter(p).push(new_list.last())
        } else {
            new_list.drop_last().filter(p)
        });
        assert(p(new_list.last()) == unmatched(existing, new_list.last()));
    }
}

/// A new message that matching keeps agrees with each stored message on at most one of
/// entry date, post id (a non-empty one) and title; one that agrees with some stored
/// message on two or more is never kept.
pub proof fn lemma_kept_agree_on_at_most_one(new_list: Seq<MessageRow>, existing: Seq<MessageRow>, t: int, b: int)
    requires
        0 <= t < matched(new_list, existing).0.len(),
        0 <= b < existing.len(),
    ensures
        ({
            let n = matched(new_list, existing).0[t];
            let e = existing[b];
            let same_date = e.entry_src_date == n.entry_src_date;
            let same_post = e.post_id@.len() > 0 && e.post_id@ == n.post_id@;
            let same_title = e.title@ == n.title@;
            !(same_date && same_post) && !(same_date && same_title) && !(same_post && same_title)
        }),
{
    lemma_matched_keeps_unmatched(new_list, existing);
    new_list.lemma_filter_pred(unmatched_by(existing), t);
    let n = matched(new_list, existing).0[t];
    assert(unmatched(existing, n));
    assert(score(existing[b], n) < 2);
}

/// The test of `unmatched` against the stored messages.
pub open spec fn unmatched_by(existing: Seq<MessageRow>) -> spec_fn(MessageRow) -> bool {
    |n: MessageRow| unmatched(existing, n)
}

/// A stored message that matches a new one on exactly two of the three gets exactly one
/// correction: of the one that differs.
pub proof fn lemma_one_correction(e: MessageRow, n: MessageRow)
    requires
        score(e, n) == 2,
    ensures
        corrections(e, n).len() == 1,
{
}

/// The score of a new message against the stored ones: the best, and the first stored
/// one that has it.
fn best_match(n_fce: &MessageRow, existing: &[MessageRow]) -> (r: (u8, usize))
    ensures
        r.0 as int == best_score(existing@, *n_fce),
        r.0 > 0 ==> first_scoring(existing@, *n_fce, r.0 as int, r.1 as int),
{
    let mut best: u8 = 0;
    let mut pos: usize = 0;
    let mut k: usize = 0;
    proof {
        assert(existing@.take(0) =~= Seq::<MessageRow>::empty());
    }
    while k < existing.len()
        invariant
            k <= existing@.len(),
            best as int == best_score(existing@.take(k as int), *n_fce),
            best <= 3,
            best > 0 ==> pos < k && score(existing@[pos as int], *n_fce) == best
                && forall|j: int| 0 <= j < pos ==> score(existing@[j], *n_fce) != best,
            forall|j: int| 0 <= j < k ==> score(existing@[j], *n_fce) <= best,
        decreases existing.len() - k,
    {
        let m = match_fce(&existing[k], n_fce);
        proof {
            let e = existing@[k as int];
            assert(m == match_bits(e, *n_fce));
            let a = e.entry_src_date == n_fce.entry_src_date;
            let b = e.post_id@.len() > 0 && e.post_id@ == n_fce.post_id@;
            let c = e.title@ == n_fce.title@;
            assert(m & 1 != 0 <==> a) by (bit_vector)
                requires m == ((if a { 1int } else { 0int }) + (if b { 2int } else { 0int }) + (if c { 4int } else { 0int })) as u8;
            assert(m & 2 != 0 <==> b) by (bit_vector)
                requires m == ((if a { 1int } else { 0int }) + (if b { 2int } else { 0int }) + (if c { 4int } else { 0int })) as u8;
            assert(m & 4 != 0 <==> c) by (bit_vector)
                requires m == ((if a { 1int } else { 0int }) + (if b { 2int } else { 0int }) + (if c { 4int } else { 0int })) as u8;
            assert(m < 8);
            assert(existing@.take(k + 1).drop_last() =~= existing@.take(k as int));
            assert(existing@.take(k + 1).last() == e);
        }
        let ones = ones_of(m);
        if ones > best {
            best = ones;
            pos = k;
        }
        k = k + 1;
    }
    proof {
        assert(existing@.take(k as int) =~= existing@);
    }
    (best, pos)
}

/// Sorts newly downloaded messages against the stored ones (see `matched`): the ones to
/// store, and the corrections of stored ones.
pub fn match_new_entries_to_existing(new_list: &Vec<MessageRow>, existing_entries: &[MessageRow]) -> (r: (Vec<MessageRow>, Vec<CJob>))
    ensures
        (r.0@, r.1@) == matched(new_list@, existing_entries@),
        all_jobs_correct(r.1@, new_list@, existing_entries@),
{
    let mut kept: Vec<MessageRow> = Vec::new();
    let mut jobs: Vec<CJob> = Vec::new();
    let mut i: usize = 0;
    proof {
        assert(new_list@.take(0) =~= Seq::<MessageRow>::empty());
    }
    while i < new_list.len()
        invariant
            i <= new_list@.len(),
            (kept@, jobs@) == matched(new_list@.take(i as int), existing_entries@),
        decreases new_list.len() - i,
    {
        let n_fce = &new_list[i];
        let (best, pos) = best_match(n_fce, existing_entries);
        proof {
            assert(new_list@.take(i + 1).drop_last() =~= new_list@.take(i as int));
            assert(new_list@.take(i + 1).last() == *n_fce);
        }
        if best < 2 {
            kept.push(n_fce.duplicate());
        } else if best == 2 {
            let exi = &existing_entries[pos];
            let ghost j0 = jobs@;
            proof {
                let c = choose|c: int| first_scoring(existing_entries@, *n_fce, 2, c);
                assert(first_scoring(existing_entries@, *n_fce, 2, c));
                if c < pos {
                    assert(score(existing_entries@[c], *n_fce) != 2);
                }
                if c > pos {
                    assert(score(existing_entries@[pos as int], *n_fce) != 2);
                }
            }
            if exi.entry_src_date != n_fce.entry_src_date {
                jobs.push(CJob::DbUpdateEntryDate(exi.message_id, n_fce.entry_src_date as u64));
            }
            let post_matches = !exi.post_id.as_str().is_empty() && (exi.post_id == n_fce.post_id);
            if !post_matches {
                jobs.push(CJob::DbUpdatePostId(exi.message_id, n_fce.post_id.clone()));
            }
            if exi.title != n_fce.title {
                jobs.push(CJob::DbUpdateTitle(exi.message_id, n_fce.title.clone()));
            }
            proof {
                assert(jobs@ =~= j0 + corrections(existing_entries@[pos as int], *n_fce));
            }
        }
        i = i + 1;
    }
    proof {
        assert(new_list@.take(i as int) =~= new_list@);
        lemma_matching_jobs_correct(new_list@, existing_entries@);
    }
    (kept, jobs)
}

/// Where the focus policy puts the cursor of the message list: policy 1 clears it (-1);
/// policy 2 goes to the message last selected in the subscription, where there is one
/// (an id above 0); policy 3 to the latest message by creation time, where there is one
/// with an id above 0; policy 4 to the message before the earliest unread one, where
/// there is one. `None` leaves the cursor where it is; so do the other policies.
pub fn cursor_target(policy: u8, last_selected_msg: Option<isize>, state: &MessageStateMap) -> (r: Option<isize>)
    requires
        state.wf(),
    ensures
        policy == 1 ==> r == Some(-1isize),
        policy == 2 ==> r == match last_selected_msg {
            Some(id) => if id > 0 { Some(id) } else { None },
            None => None,
        },
        policy == 3 ==> match r {
            Some(id) => id > 0 && state.view().contains_key(id) && state.view()[id].msg_created_timestamp > 0
                && forall|k: isize| #[trigger] state.view().contains_key(k)
                    ==> state.view()[k].msg_created_timestamp <= state.view()[id].msg_created_timestamp,
            None => (forall|k: isize| #[trigger] state.view().contains_key(k) ==> state.view()[k].msg_created_timestamp <= 0)
                || exists|k: isize| k <= 0 && #[trigger] state.view().contains_key(k) && state.view()[k].msg_created_timestamp > 0
                    && forall|j: isize| #[trigger] state.view().contains_key(j)
                        ==> state.view()[j].msg_created_timestamp <= state.view()[k].msg_created_timestamp,
        },
        policy == 4 ==> match r {
            Some(e) => settled(state.view(), e) && forall|j: isize| #[trigger] settled(state.view(), j)
                ==> !before(state.view()[e], state.view()[j]),
            None => forall|j: isize| !#[trigger] settled(state.view(), j),
        },
        !(1 <= policy <= 4) ==> r is None,
{
    if policy == 1 {
        Some(-1)
    } else if policy == 2 {
        match last_selected_msg {
            Some(id) => if id > 0 { Some(id) } else { None },
            None => None,
        }
    } else if policy == 3 {
        let (latest_id, _latest_ts, _earliest_id, _earliest_ts) = state.find_latest_earliest_created_timestamp();
        if latest_id > 0 {
            Some(latest_id)
        } else {
            None
        }
    } else if policy == 4 {
        state.find_before_earliest_unread()
    } else {
        None
    }
}

/// The state the message list keeps of a message shown at position `pos`: its id, read
/// flag, date, subscription, and its title decompressed (where there is one); contents not
/// loaded yet.
pub open spec fn state_of_row(st: MessageState, m: MessageRow, pos: int) -> bool {
    &&& st.msg_id == m.message_id
    &&& st.gui_list_position == pos
    &&& st.msg_created_timestamp == m.entry_src_date
    &&& st.is_read_copy == m.is_read
    &&& st.contents_author_categories_d is None
    &&& st.subscription_id_copy == m.subscription_id
    &&& st.title_d@ == if m.title@.len() == 0 { Seq::<char>::empty() } else { crate::db::message::decompressed(m.title@) }
}

/// Message `i` is the last of the first `k` with its id.
pub open spec fn last_with_id(ms: Seq<MessageRow>, i: int, k: int) -> bool {
    forall|j: int| i < j < k ==> #[trigger] ms[j].message_id != ms[i].message_id
}

/// Fills the state of the message list with the messages shown, in their order: each
/// message at its position, the last one with an id taking its place.
pub fn fill_state_map(state: &mut MessageStateMap, messages: &[MessageRow])
    requires
        messages@.len() <= isize::MAX,
    ensures
        final(state).wf(),
        forall|k: isize| #[trigger] final(state).view().contains_key(k)
            <==> exists|i: int| 0 <= i < messages@.len() && messages@[i].message_id == k,
        forall|i: int| 0 <= i < messages@.len() && last_with_id(messages@, i, messages@.len() as int)
            ==> state_of_row(final(state).view()[#[trigger] messages@[i].message_id], messages@[i], i),
{
    state.clear();
    let mut i: usize = 0;
    while i < messages.len()
        invariant
            i <= messages@.len(),
            messages@.len() <= isize::MAX,
            state.wf(),
            forall|k: isize| #[trigger] state.view().contains_key(k)
                <==> exists|j: int| 0 <= j < i && messages@[j].message_id == k,
            forall|j: int| 0 <= j < i && last_with_id(messages@, j, i as int)
                ==> state_of_row(state.view()[#[trigger] messages@[j].message_id], messages@[j], j),
        decreases messages.len() - i,
    {
        let m = &messages[i];
        let ghost before_map = state.view();
        state.insert(m.message_id, m.is_read, i as isize, m.entry_src_date, m.title.clone(), m.subscription_id);
        proof {
            assert forall|k: isize| #[trigger] state.view().contains_key(k)
                implies exists|j: int| 0 <= j < i + 1 && messages@[j].message_id == k by {
                if k != m.message_id {
                    assert(before_map.contains_key(k));
                }
            }
            assert forall|k: isize| (exists|j: int| 0 <= j < i + 1 && messages@[j].message_id == k)
                implies #[trigger] state.view().contains_key(k) by {
                let j = choose|j: int| 0 <= j < i + 1 && messages@[j].message_id == k;
                if j < i {
                    assert(before_map.contains_key(k));
                }
            }
            assert forall|j: int| 0 <= j < i + 1 && last_with_id(messages@, j, i + 1)
                implies state_of_row(state.view()[#[trigger] messages@[j].message_id], messages@[j], j) by {
                if j < i {
                    assert(messages@[i as int].message_id != messages@[j].message_id);
                    assert(last_with_id(messages@, j, i as int));
                    assert(before_map.contains_key(messages@[j].message_id));
                }
            }
        }
        i = i + 1;
    }
}


/// The new text filter of the message list: the text without surrounding white space,
/// none where nothing is left.
pub fn set_messages_filter(msg_filter: &mut Option<String>, newtext: &str)
    ensures
        match *final(msg_filter) {
            Some(f) => f@ == trim(newtext@) && f@.len() > 0,
            None => trim(newtext@).len() == 0,
        },
{
    let t = trim_vec(&chars_of(newtext));
    if t.len() == 0 {
        *msg_filter = None;
    } else {
        *msg_filter = Some(string_of(&t));
    }
}

#[verifier::external_type_specification]
#[verifier::external_body]
pub struct ExRegex(regex::Regex);

/// Whether a title matches the filter text: the text taken literally (escaped by
/// `regex::escape`), compared without regard to case (`RegexBuilder::case_insensitive`),
/// as `Regex::is_match` finds it anywhere in the title.
pub uninterp spec fn title_filter_matches(filter: Seq<char>, title: Seq<char>) -> bool;

/// Whether the regex crate builds the search for a filter text: the text escaped by
/// `regex::escape`, case-insensitive (`RegexBuilder::build` with its default limits).
pub uninterp spec fn title_regex_built(text: Seq<char>) -> bool;

/// A search for the filter text in message titles, built once for a whole list.
pub struct TitleFilter {
    text: String,
    reg: regex::Regex,
}

impl TitleFilter {
    /// The text searched for.
    pub closed spec fn text(&self) -> Seq<char> {
        self.text@
    }

    /// Builds the search for a filter text; none where the regex crate refuses to
    /// build it (a compiled size beyond its limit).
    pub fn new(text: &str) -> (r: Option<TitleFilter>)
        ensures
            r is Some <==> title_regex_built(text@),
            r matches Some(f) ==> f.text() == text@,
    {
        match build_title_regex(text) {
            Some(reg) => Some(TitleFilter { text: string_of(&chars_of(text)), reg }),
            None => None,
        }
    }
}

/// `RegexBuilder::new(&regex::escape(text)).case_insensitive(true).build()`, the error
/// dropped. Whether the build succeeds depends on the text alone and is named by
/// `title_regex_built`.
#[verifier::external_body]
fn build_title_regex(text: &str) -> (r: Option<regex::Regex>)
    ensures
        r is Some <==> title_regex_built(text@),
{
    regex::RegexBuilder::new(&regex::escape(text)).case_insensitive(true).build().ok()
}

/// `Regex::is_match` of the filter's search on a title. Named by `title_filter_matches`
/// over the filter text, from which `TitleFilter::new` alone builds the search.
#[verifier::external_body]
fn title_regex_matches(f: &TitleFilter, title: &str) -> (r: bool)
    ensures
        r == title_filter_matches(f.text(), title@),
{
    f.reg.is_match(title)
}

/// A message stays in the filtered list where the list knows no title for it, or its
/// title matches the filter.
pub open spec fn passes_filter(states: Map<isize, MessageState>, filter: Seq<char>, m: MessageRow) -> bool {
    !states.contains_key(m.message_id) || title_filter_matches(filter, states[m.message_id].title_d@)
}

/// The messages that pass the filter, in their order.
pub open spec fn filtered(states: Map<isize, MessageState>, filter: Seq<char>, list: Seq<MessageRow>) -> Seq<MessageRow>
    decreases list.len(),
{
    if list.len() == 0 {
        Seq::empty()
    } else if passes_filter(states, filter, list.last()) {
        filtered(states, filter, list.drop_last()).push(list.last())
    } else {
        filtered(states, filter, list.drop_last())
    }
}

/// The messages whose titles match the filter, and those without a known title.
pub fn filter_messages(filter: &TitleFilter, msg_state: &MessageStateMap, list_in: &[MessageRow]) -> (r: Vec<MessageRow>)
    ensures
        r@ == filtered(msg_state@, filter.text(), list_in@),
{
    let mut out: Vec<MessageRow> = Vec::new();
    let mut i: usize = 0;
    while i < list_in.len()
        invariant
            i <= list_in@.len(),
            out@ == filtered(msg_state@, filter.text(), list_in@.take(i as int)),
        decreases list_in.len() - i,
    {
        let m = &list_in[i];
        proof {
            assert(list_in@.take(i + 1).drop_last() =~= list_in@.take(i as int));
            assert(list_in@.take(i + 1).last() == *m);
        }
        let keep = match msg_state.get_title(m.message_id) {
            None => true,
            Some(title) => title_regex_matches(filter, title.as_str()),
        };
        if keep {
            out.push(m.duplicate());
        }
        i = i + 1;
    }
    proof {
        assert(list_in@.take(list_in@.len() as int) =~= list_in@);
    }
    out
}

/// The message the cursor moves to: none for `Stay`, without a selected subscription
/// (id not above zero) or without a selected message; otherwise the unread message that
/// `find_unread_message` finds from the first selected one, seeking towards later ones
/// in the sorted list for `LaterUnreadMessage`.
pub fn move_list_cursor(c: ListMoveCommand, current_subscription_id: isize, selected: &[i32], state: &MessageStateMap) -> (r: Option<isize>)
    requires
        state.wf(),
    ensures
        (c == ListMoveCommand::Stay || current_subscription_id <= 0 || selected@.len() == 0) ==> r is None,
        c != ListMoveCommand::Stay && current_subscription_id > 0 && selected@.len() > 0 ==> {
            let cur = selected@[0] as isize;
            let m = state@;
            &&& !(m.contains_key(cur) && m[cur].is_read_copy) ==> r is None
            &&& m.contains_key(cur) && m[cur].is_read_copy && c == ListMoveCommand::LaterUnreadMessage ==> match r {
                Some(id) => unread_before(m, cur, id) && forall|j: isize|
                    #[trigger] unread_before(m, cur, j) ==> !before(m[id], m[j]),
                None => forall|j: isize| !#[trigger] unread_before(m, cur, j),
            }
            &&& m.contains_key(cur) && m[cur].is_read_copy && c == ListMoveCommand::PreviousUnreadMessage ==> match r {
                Some(id) => unread_after(m, cur, id) && forall|j: isize|
                    #[trigger] unread_after(m, cur, j) ==> !before(m[j], m[id]),
                None => forall|j: isize| !#[trigger] unread_after(m, cur, j),
            }
        },
{
    if c == ListMoveCommand::Stay || current_subscription_id <= 0 || selected.len() == 0 {
        return None;
    }
    let first_selected_msg: isize = selected[0] as isize;
    let select_later: bool = c == ListMoveCommand::LaterUnreadMessage;
    state.find_unread_message(first_selected_msg, select_later)
}

/// A (message id, list position) pair as the (list position, message id) pair of a job.
pub open spec fn pos_id(p: (i32, i32)) -> (u32, u32) {
    (p.1 as u32, p.0 as u32)
}

/// Into how many jobs a longer selection is cut: seven pairs each, rounded up.
pub open spec fn batch_count(n: int) -> int {
    (n + 6) / 7
}

/// How many pairs each job of a longer selection takes: one more than the selection,
/// divided by the number of jobs. Where that falls short, the last pairs are in no job.
pub open spec fn batch_lines(n: int) -> int {
    (n + 1) / batch_count(n)
}

/// The smaller of two integers.
pub open spec fn min_int(a: int, b: int) -> int {
    if a < b { a } else { b }
}

/// The pairs of each favorite job: a selection of up to seven pairs in one job; a
/// longer one in `batch_count` jobs of `batch_lines` pairs, taken in order.
pub open spec fn favorite_batches(s: Seq<(i32, i32)>) -> Seq<Seq<(u32, u32)>> {
    let n = s.len() as int;
    if n <= 7 {
        seq![s.map_values(|p: (i32, i32)| pos_id(p))]
    } else {
        Seq::new(batch_count(n) as nat, |c: int| s.subrange(min_int(c * batch_lines(n), n),
            min_int(c * batch_lines(n) + batch_lines(n), n)).map_values(|p: (i32, i32)| pos_id(p)))
    }
}

/// Each job of a longer selection starts inside it.
proof fn lemma_batch_start(n: int, c: int)
    requires
        n > 7,
        0 <= c < batch_count(n),
    ensures
        batch_lines(n) >= 1,
        c * batch_lines(n) <= n,
{
    let k = batch_count(n);
    let l = batch_lines(n);
    assert(k >= 2 && k <= n);
    assert(l * k <= n + 1 && l >= 1) by (nonlinear_arith)
        requires
            k >= 1,
            k <= n,
            l == (n + 1) / k,
    ;
    assert(c * l <= n) by (nonlinear_arith)
        requires
            0 <= c <= k - 1,
            l >= 1,
            l * k <= n + 1,
    ;
}

/// One more than `n`, divided by `k`, without going past `n`.
proof fn lemma_succ_div(n: int, k: int)
    requires
        n >= 0,
        k >= 2,
    ensures
        (n + 1) / k == n / k + (if n % k + 1 == k { 1int } else { 0int }),
{
    let q = n / k;
    let r = n % k;
    assert(n == q * k + r && 0 <= r < k) by (nonlinear_arith)
        requires
            k >= 2,
            q == n / k,
            r == n % k,
    ;
    if r + 1 == k {
        assert((n + 1) / k == q + 1) by (nonlinear_arith)
            requires
                n == q * k + r,
                r + 1 == k,
                k >= 2,
        ;
    } else {
        assert((n + 1) / k == q) by (nonlinear_arith)
            requires
                n + 1 == q * k + (r + 1),
                0 <= r + 1 < k,
        ;
    }
}

/// The pairs from `start` to `end`, each as (list position, message id).
fn pos_id_range(s: &[(i32, i32)], start: usize, end: usize) -> (r: Vec<(u32, u32)>)
    requires
        start <= end <= s@.len(),
    ensures
        r@ == s@.subrange(start as int, end as int).map_values(|p: (i32, i32)| pos_id(p)),
{
    let mut r: Vec<(u32, u32)> = Vec::new();
    let mut j: usize = start;
    while j < end
        invariant
            start <= j <= end <= s@.len(),
            r@ == s@.subrange(start as int, j as int).map_values(|p: (i32, i32)| pos_id(p)),
        decreases end - j,
    {
        let (msg_id, listpos) = s[j];
        r.push((listpos as u32, msg_id as u32));
        proof {
            assert(s@.subrange(start as int, j + 1) =~= s@.subrange(start as int, j as int).push(s@[j as int]));
        }
        j = j + 1;
    }
    r
}

/// The jobs that set the favorite flag of the selected messages, given as (message id,
/// list position): one job for up to seven, several for more (see `favorite_batches`).
pub fn set_favorite_multi(msg_id_listpos: &[(i32, i32)], new_fav: bool) -> (r: Vec<CJob>)
    ensures
        r@.len() == favorite_batches(msg_id_listpos@).len(),
        forall|i: int| 0 <= i < r@.len() ==> (#[trigger] r@[i] matches CJob::SetFavoriteSome(v, f)
            && v@ == favorite_batches(msg_id_listpos@)[i] && f == new_fav),
{
    let n = msg_id_listpos.len();
    let mut jobs: Vec<CJob> = Vec::new();
    if n <= 7 {
        let v = pos_id_range(msg_id_listpos, 0, n);
        proof {
            assert(msg_id_listpos@.subrange(0, n as int) =~= msg_id_listpos@);
        }
        jobs.push(CJob::SetFavoriteSome(v, new_fav));
        return jobs;
    }
    let num_chunks: usize = (n - 1) / 7 + 1;
    proof {
        assert(num_chunks == batch_count(n as int));
        assert(num_chunks >= 2);
        lemma_succ_div(n as int, num_chunks as int);
    }
    let q: usize = n / num_chunks;
    let rem: usize = n % num_chunks;
    proof {
        assert(q < n && rem < num_chunks) by (nonlinear_arith)
            requires
                num_chunks >= 2,
                n > 7,
                q == n / num_chunks,
                rem == n % num_chunks,
        ;
    }
    let num_lines: usize = if rem + 1 == num_chunks { q + 1 } else { q };
    let mut c: usize = 0;
    while c < num_chunks
        invariant
            n == msg_id_listpos@.len(),
            n > 7,
            num_chunks == batch_count(n as int),
            num_lines == batch_lines(n as int),
            c <= num_chunks,
            jobs@.len() == c,
            forall|i: int| 0 <= i < c ==> (#[trigger] jobs@[i] matches CJob::SetFavoriteSome(v, f)
                && v@ == favorite_batches(msg_id_listpos@)[i] && f == new_fav),
        decreases num_chunks - c,
    {
        proof {
            lemma_batch_start(n as int, c as int);
        }
        let start: usize = c * num_lines;
        let end: usize = if n - start < num_lines { n } else { start + num_lines };
        let v = pos_id_range(msg_id_listpos, start, end);
        jobs.push(CJob::SetFavoriteSome(v, new_fav));
        c = c + 1;
    }
    jobs
}

} // verus!
