use vstd::prelude::*;
use std::collections::VecDeque;
use crate::controller::guiprocessor::{dl_char, dl_char_for_kind};
use crate::text::{append_chars, chars_of, decimal, decimal_of, opt_text, signed_decimal, signed_decimal_of, string_of};
use crate::util::{escaped_url, string_escape_url, timestamp_now};

verus! {

broadcast use vstd::string::group_string_axioms;

/// Seconds a bottom notice stays shown.
pub const BOTTOM_MSG_SHOW_TIME_S: u8 = 10;
/// Colour of error texts in the status bar.
pub const ERROR_TEXT_COLOR: &'static str = "#CC6666";
/// Steps of the rising bar, not counting the empty one.
pub const VERTICAL_RISING_BAR_LEN: usize = 8;
/// Kinds of download jobs.
pub const DLKIND_MAX: usize = 7;

/// The rising bar: a space, then the lower block eighths.
pub open spec fn bar_char(i: int) -> char {
    if i == 0 { ' ' }
    else if i == 1 { '\u{2581}' }
    else if i == 2 { '\u{2582}' }
    else if i == 3 { '\u{2583}' }
    else if i == 4 { '\u{2584}' }
    else if i == 5 { '\u{2585}' }
    else if i == 6 { '\u{2586}' }
    else if i == 7 { '\u{2587}' }
    else { '\u{2588}' }
}

/// The step of the rising bar for `dividend` out of `divisor`: eighths, rounded down;
/// the empty step where the divisor is 0.
pub open spec fn bar_step(dividend: int, divisor: int) -> int {
    if divisor == 0 { 0 } else { dividend * 8 / divisor }
}

/// A share of at most the whole is at most the full bar.
pub proof fn lemma_share_within_bar(dividend: int, divisor: int)
    requires
        0 <= dividend,
        divisor == 0 || dividend <= divisor,
    ensures
        bar_step(dividend, divisor) <= 8,
{
    if divisor != 0 {
        assert((dividend * 8) / divisor <= 8) by (nonlinear_arith)
            requires dividend <= divisor, divisor > 0, dividend >= 0;
    }
}

/// The bar character that shows the share `dividend` of `divisor`.
pub fn get_vertical_block_char(dividend: usize, divisor: usize) -> (r: char)
    requires
        dividend * 8 <= usize::MAX,
        bar_step(dividend as int, divisor as int) <= 8,
    ensures
        r == bar_char(bar_step(dividend as int, divisor as int)),
{
    let div_idx: usize = if divisor == 0 { 0 } else { dividend * VERTICAL_RISING_BAR_LEN / divisor };
    match div_idx {
        0 => ' ',
        1 => '\u{2581}',
        2 => '\u{2582}',
        3 => '\u{2583}',
        4 => '\u{2584}',
        5 => '\u{2585}',
        6 => '\u{2586}',
        7 => '\u{2587}',
        _ => '\u{2588}',
    }
}

/// A text shown in the error colour, with ampersands escaped.
pub open spec fn error_markup(s: Seq<char>) -> Seq<char> {
    "<span foreground=\""@ + ERROR_TEXT_COLOR@ + "\">"@ + escaped_url(s) + "</span>"@
}

/// Marks a text up in the error colour.
pub fn error_formatter(s: String) -> (r: String)
    ensures
        r@ == error_markup(s@),
{
    let mut m = chars_of("<span foreground=\"");
    append_chars(&mut m, &chars_of(ERROR_TEXT_COLOR));
    append_chars(&mut m, &chars_of("\">"));
    let esc = string_escape_url(s);
    append_chars(&mut m, &chars_of(esc.as_str()));
    append_chars(&mut m, &chars_of("</span>"));
    string_of(&m)
}

/// `s` with spaces in front up to `width` characters.
pub open spec fn padded(s: Seq<char>, width: int) -> Seq<char> {
    if s.len() < width { Seq::new((width - s.len()) as nat, |i: int| ' ') + s } else { s }
}

/// Integer division rounded toward zero.
pub open spec fn div_toward_zero(a: int, d: int) -> int {
    if a >= 0 { a / d } else { -((-a) / d) }
}

/// `s` padded with spaces in front to `width` characters.
fn pad_left(s: Vec<char>, width: usize) -> (r: Vec<char>)
    ensures
        r@ == padded(s@, width as int),
{
    if s.len() >= width {
        return s;
    }
    let mut r: Vec<char> = Vec::new();
    let n = width - s.len();
    let mut i: usize = 0;
    while i < n
        invariant
            i <= n,
            r@ == Seq::new(i as nat, |k: int| ' '),
        decreases n - i,
    {
        r.push(' ');
        proof {
            assert(r@ =~= Seq::new((i + 1) as nat, |k: int| ' '));
        }
        i = i + 1;
    }
    append_chars(&mut r, &s);
    r
}

/// What the status bar shows and what changed since it was last drawn.
pub struct CachedData {
    pub last_fetch_time: i64,
    pub num_downloader_threads: u8,
    /// Estimated resident memory of the process, in bytes.
    pub mem_usage_vmrss_bytes: isize,
    pub mode_debug: bool,
    pub bottom_notices: VecDeque<String>,
    /// When the current bottom notice was first shown, and the notice.
    pub bottom_notice_current: Option<(i64, String)>,
    pub downloader_stats: [u32; 7],
    pub db_check_running: bool,
    pub db_check_display_message: String,
    pub subscription_id: isize,
    pub subscription_id_changed: bool,
    pub subscription_is_folder: bool,
    pub subscription_last_download_time: i64,
    pub num_msg_all: isize,
    pub num_msg_unread: isize,
    pub num_msg_changed: bool,
    /// The kind of job each download thread runs.
    pub downloader_kind: Vec<u8>,
    pub downloader_kind_changed: bool,
    pub num_dl_queue_length: u16,
    pub num_dl_queue_length_changed: bool,
    pub selected_msg_id: i32,
    pub selected_msg_url: String,
    pub selected_msg_changed: bool,
    pub browser_loading_progress: u8,
    pub browser_loading_progress_changed: bool,
}

impl CachedData {
    /// Nothing shown yet, with a job slot for each of `max_threads` download threads.
    pub fn new(max_threads: usize) -> (r: CachedData)
        ensures
            r.downloader_kind@ == Seq::new(max_threads as nat, |i: int| 0u8),
            r.bottom_notices@.len() == 0 && r.bottom_notice_current is None,
            r.num_downloader_threads == 0 && r.mem_usage_vmrss_bytes == 0 && r.num_msg_all == 0,
            r.num_msg_unread == 0 && r.subscription_id == 0 && r.selected_msg_id == 0,
            !r.subscription_id_changed && !r.num_msg_changed && !r.downloader_kind_changed,
            !r.num_dl_queue_length_changed && !r.selected_msg_changed && !r.browser_loading_progress_changed,
    {
        let mut kinds: Vec<u8> = Vec::new();
        let mut i: usize = 0;
        while i < max_threads
            invariant
                i <= max_threads,
                kinds@ == Seq::new(i as nat, |k: int| 0u8),
            decreases max_threads - i,
        {
            kinds.push(0);
            proof {
                assert(kinds@ =~= Seq::new((i + 1) as nat, |k: int| 0u8));
            }
            i = i + 1;
        }
        CachedData {
            last_fetch_time: 0,
            num_downloader_threads: 0,
            mem_usage_vmrss_bytes: 0,
            mode_debug: false,
            bottom_notices: VecDeque::new(),
            bottom_notice_current: None,
            downloader_stats: [0u32; 7],
            db_check_running: false,
            db_check_display_message: String::new(),
            subscription_id: 0,
            subscription_id_changed: false,
            subscription_is_folder: false,
            subscription_last_download_time: 0,
            num_msg_all: 0,
            num_msg_unread: 0,
            num_msg_changed: false,
            downloader_kind: kinds,
            downloader_kind_changed: false,
            num_dl_queue_length: 0,
            num_dl_queue_length_changed: false,
            selected_msg_id: 0,
            selected_msg_url: String::new(),
            selected_msg_changed: false,
            browser_loading_progress: 0,
            browser_loading_progress_changed: false,
        }
    }

    /// Takes the next bottom notice to show, noting the current time; with none left,
    /// no notice is current.
    pub fn pop_bottom_message_int(&mut self) -> (r: Option<String>)
        ensures
            old(self).bottom_notices@.len() == 0 ==> r is None && final(self).bottom_notice_current is None
                && final(self).bottom_notices@ == old(self).bottom_notices@,
            old(self).bottom_notices@.len() > 0 ==> (r matches Some(m) && m == old(self).bottom_notices@[0]
                && final(self).bottom_notices@ == old(self).bottom_notices@.drop_first()
                && (final(self).bottom_notice_current matches Some((_, cur)) && cur == m)),
            *final(self) == (CachedData {
                bottom_notices: final(self).bottom_notices,
                bottom_notice_current: final(self).bottom_notice_current,
                ..*old(self)
            }),
    {
        match self.bottom_notices.pop_front() {
            None => {
                self.bottom_notice_current = None;
                None
            },
            Some(msg) => {
                self.bottom_notice_current = Some((timestamp_now(), msg.clone()));
                Some(msg)
            },
        }
    }

    /// Records the kind of job a download thread runs, noting a change.
    pub fn update_downloader_kind(&mut self, idx: u8, new_dl_kind: u8)
        requires
            (idx as int) < old(self).downloader_kind@.len(),
        ensures
            final(self).downloader_kind@ == old(self).downloader_kind@.update(idx as int, new_dl_kind),
            final(self).downloader_kind_changed == (old(self).downloader_kind_changed
                || old(self).downloader_kind@[idx as int] != new_dl_kind),
    {
        if new_dl_kind != self.downloader_kind[idx as usize] {
            self.downloader_kind_changed = true;
        }
        self.downloader_kind.set(idx as usize, new_dl_kind);
    }

    /// Takes in the selected subscription (its id and last download time; `None` where
    /// none is selected) with the downloader's thread count and statistics, and gives the
    /// selected id (-1 for none). A new selection records all of them, marked as changed
    /// (as a feed, not a folder); the same selection only clears the change mark.
    pub fn get_subscription_info(&mut self, selected: Option<(isize, i64)>, num_threads: u8, stats: [u32; 7]) -> (r: isize)
        ensures
            r == match selected {
                Some((id, _)) => id,
                None => -1isize,
            },
            r != old(self).subscription_id ==> *final(self) == (CachedData {
                subscription_id: r,
                num_downloader_threads: num_threads,
                downloader_stats: stats,
                subscription_is_folder: false,
                subscription_last_download_time: match selected {
                    Some((_, t)) => t,
                    None => 0i64,
                },
                subscription_id_changed: true,
                ..*old(self)
            }),
            r == old(self).subscription_id ==> *final(self) == (CachedData { subscription_id_changed: false, ..*old(self) }),
    {
        let (id_new, updated) = match selected {
            Some((id, t)) => (id, t),
            None => (-1, 0),
        };
        if id_new != self.subscription_id {
            self.subscription_id = id_new;
            self.num_downloader_threads = num_threads;
            self.downloader_stats = stats;
            self.subscription_is_folder = false;
            self.subscription_last_download_time = updated;
            self.subscription_id_changed = true;
        } else if self.subscription_id_changed {
            self.subscription_id_changed = false;
        }
        id_new
    }

    /// Takes in the selected messages (the first counts; -1 for none) with the link the
    /// browser shows, the message counts of the subscription (all, unread; where known)
    /// and the download queue (waiting, running). Each value that differs from the cached
    /// one is recorded and marked as changed; one that is the same clears its change
    /// mark. The link is recorded with a new selection.
    pub fn get_contents_info(&mut self, selected_ids: &Vec<i32>, last_link: String, counts: Option<(isize, isize)>, queue: (u16, u16))
        requires
            queue.0 + queue.1 <= u16::MAX,
        ensures
            final(self).selected_msg_id == (if selected_ids@.len() == 0 { -1i32 } else { selected_ids@[0] }),
            final(self).selected_msg_id != old(self).selected_msg_id ==> final(self).selected_msg_changed
                && final(self).selected_msg_url == last_link,
            final(self).selected_msg_id == old(self).selected_msg_id ==> !final(self).selected_msg_changed
                && final(self).selected_msg_url == old(self).selected_msg_url,
            match counts {
                Some((a, u)) => {
                    &&& final(self).num_msg_all == a && final(self).num_msg_unread == u
                    &&& final(self).num_msg_changed == (a != old(self).num_msg_all || u != old(self).num_msg_unread)
                },
                None => {
                    &&& final(self).num_msg_all == old(self).num_msg_all
                    &&& final(self).num_msg_unread == old(self).num_msg_unread
                    &&& final(self).num_msg_changed == old(self).num_msg_changed
                },
            },
            final(self).num_dl_queue_length == queue.0 + queue.1,
            final(self).num_dl_queue_length_changed == (queue.0 + queue.1 != old(self).num_dl_queue_length),
            *final(self) == (CachedData {
                selected_msg_id: final(self).selected_msg_id,
                selected_msg_url: final(self).selected_msg_url,
                selected_msg_changed: final(self).selected_msg_changed,
                num_msg_all: final(self).num_msg_all,
                num_msg_unread: final(self).num_msg_unread,
                num_msg_changed: final(self).num_msg_changed,
                num_dl_queue_length: final(self).num_dl_queue_length,
                num_dl_queue_length_changed: final(self).num_dl_queue_length_changed,
                ..*old(self)
            }),
    {
        let new_selected: i32 = if selected_ids.len() == 0 { -1 } else { selected_ids[0] };
        self.note_selection(new_selected, last_link);
        if let Some((n_a, n_u)) = counts {
            self.note_counts(n_a, n_u);
        }
        self.note_queue_length(queue.0 + queue.1);
    }

    /// Records a new message selection with its link, or clears the change mark.
    fn note_selection(&mut self, id: i32, link: String)
        ensures
            id != old(self).selected_msg_id ==> *final(self) == (CachedData {
                selected_msg_id: id,
                selected_msg_url: link,
                selected_msg_changed: true,
                ..*old(self)
            }),
            id == old(self).selected_msg_id ==> *final(self) == (CachedData { selected_msg_changed: false, ..*old(self) }),
    {
        if id != self.selected_msg_id {
            self.selected_msg_id = id;
            self.selected_msg_changed = true;
            self.selected_msg_url = link;
        } else if self.selected_msg_changed {
            self.selected_msg_changed = false;
        }
    }

    /// Records new message counts, or clears the change mark.
    fn note_counts(&mut self, n_all: isize, n_unread: isize)
        ensures
            (n_all != old(self).num_msg_all || n_unread != old(self).num_msg_unread) ==> *final(self) == (CachedData {
                num_msg_all: n_all,
                num_msg_unread: n_unread,
                num_msg_changed: true,
                ..*old(self)
            }),
            (n_all == old(self).num_msg_all && n_unread == old(self).num_msg_unread) ==> *final(self) == (CachedData {
                num_msg_changed: false,
                ..*old(self)
            }),
    {
        if n_all != self.num_msg_all || n_unread != self.num_msg_unread {
            self.num_msg_all = n_all;
            self.num_msg_unread = n_unread;
            self.num_msg_changed = true;
        } else if self.num_msg_changed {
            self.num_msg_changed = false;
        }
    }

    /// Records a new download queue length, or clears the change mark.
    fn note_queue_length(&mut self, q: u16)
        ensures
            q != old(self).num_dl_queue_length ==> *final(self) == (CachedData {
                num_dl_queue_length: q,
                num_dl_queue_length_changed: true,
                ..*old(self)
            }),
            q == old(self).num_dl_queue_length ==> *final(self) == (CachedData {
                num_dl_queue_length_changed: false,
                ..*old(self)
            }),
    {
        if q != self.num_dl_queue_length {
            self.num_dl_queue_length = q;
            self.num_dl_queue_length_changed = true;
        } else if self.num_dl_queue_length_changed {
            self.num_dl_queue_length_changed = false;
        }
    }

    /// Notes that the download kinds were shown.
    pub fn reset_downloader_kind_updated(&mut self)
        ensures
            *final(self) == (CachedData { downloader_kind_changed: false, ..*old(self) }),
    {
        self.downloader_kind_changed = false;
    }
}

/// The download kinds of the first `n` threads as status bar characters.
pub open spec fn kinds_display(kinds: Seq<u8>, n: int) -> Seq<char> {
    Seq::new(n as nat, |a: int| dl_char(kinds[a]))
}

/// Whether the left panel shows the time since the last download of the selected feed.
pub open spec fn shows_fetch_age(c: CachedData) -> bool {
    !c.subscription_is_folder && c.subscription_id_changed
}

/// The seconds since the last download of the selected feed, at most `interval_s`.
pub open spec fn fetch_age(c: CachedData, now: i64, interval_s: i64) -> int {
    let e = now - c.subscription_last_download_time;
    if e < interval_s { e } else { interval_s as int }
}

/// What the left panel shows: the download queue as a bar, the kind of each download
/// thread, the unread and all message counts (five wide each), and the age of the last
/// download of the selected feed as a bar; its tooltip gives the queue length and the
/// memory in megabytes. Nothing where none of these changed.
pub open spec fn panel_left_text(c: CachedData, now: i64, interval_s: i64, max_threads: int) -> (Option<Seq<char>>, Option<Seq<char>>) {
    let need = c.num_msg_changed || c.downloader_kind_changed || c.num_dl_queue_length_changed || shows_fetch_age(c);
    if !need {
        (None, None)
    } else {
        let block = if shows_fetch_age(c) { bar_char(bar_step(fetch_age(c, now, interval_s), interval_s as int)) } else { ' ' };
        let qmax = max_threads * 2;
        let qlen = if c.num_dl_queue_length < qmax { c.num_dl_queue_length as int } else { qmax };
        let unread_all = padded(signed_decimal(c.num_msg_unread as int), 5) + " / "@ + padded(signed_decimal(c.num_msg_all as int), 5);
        let msg1 = "<tt>"@ + seq![bar_char(bar_step(qlen, qmax))] + " "@ + kinds_display(c.downloader_kind@, c.num_downloader_threads as int)
            + "  "@ + unread_all + "    "@ + seq!['\u{2595}', block, '\u{258F}'] + "</tt>"@;
        let popup = "q"@ + decimal(c.num_dl_queue_length as nat) + "  "@ + signed_decimal(div_toward_zero(c.mem_usage_vmrss_bytes as int, 1048576)) + "MB"@;
        (Some(msg1), Some(popup))
    }
}

impl CachedData {
    /// The cached values the left panel reads are unchanged, and nothing else changes but
    /// the flag of the download kinds.
    pub open spec fn only_kinds_flag_changed(self, other: CachedData) -> bool {
        &&& other.num_msg_changed == self.num_msg_changed
        &&& other.num_dl_queue_length_changed == self.num_dl_queue_length_changed
        &&& other.subscription_id_changed == self.subscription_id_changed
        &&& other.subscription_is_folder == self.subscription_is_folder
        &&& other.downloader_kind@ == self.downloader_kind@
        &&& other.num_msg_all == self.num_msg_all
        &&& other.num_msg_unread == self.num_msg_unread
        &&& other.num_dl_queue_length == self.num_dl_queue_length
        &&& other.mem_usage_vmrss_bytes == self.mem_usage_vmrss_bytes
        &&& other.num_downloader_threads == self.num_downloader_threads
        &&& other.subscription_last_download_time == self.subscription_last_download_time
    }

    /// The text and tooltip of the left panel (see `panel_left_text`); where it is drawn,
    /// the download kinds count as shown.
    pub fn panel_left(&mut self, now: i64, interval_s: i64, max_threads: usize) -> (r: (Option<String>, Option<String>))
        requires
            old(self).num_downloader_threads as int <= old(self).downloader_kind@.len(),
            max_threads * 16 <= usize::MAX,
            shows_fetch_age(*old(self)) ==> 0 <= now - old(self).subscription_last_download_time <= i64::MAX
                && 0 <= interval_s && interval_s * 8 <= usize::MAX,
        ensures
            (opt_text(r.0), opt_text(r.1)) == panel_left_text(*old(self), now, interval_s, max_threads as int),
            final(self).downloader_kind_changed == (old(self).downloader_kind_changed && r.0 is None),
            old(self).only_kinds_flag_changed(*final(self)),
    {
        let need_update = self.num_msg_changed || self.downloader_kind_changed || self.num_dl_queue_length_changed
            || (!self.subscription_is_folder && self.subscription_id_changed);
        if !need_update {
            return (None, None);
        }
        let mut block_vertical: char = ' ';
        if !self.subscription_is_folder && self.subscription_id_changed {
            let e: i64 = now - self.subscription_last_download_time;
            let elapsed: i64 = if e < interval_s { e } else { interval_s };
            proof {
                lemma_share_within_bar((elapsed as usize) as int, (interval_s as usize) as int);
            }
            block_vertical = get_vertical_block_char(elapsed as usize, interval_s as usize);
        }
        let mut downloader_display: Vec<char> = Vec::new();
        let n_threads: usize = self.num_downloader_threads as usize;
        let mut a: usize = 0;
        while a < n_threads
            invariant
                a <= n_threads,
                n_threads <= self.downloader_kind@.len(),
                downloader_display@ == kinds_display(self.downloader_kind@, a as int),
            decreases n_threads - a,
        {
            downloader_display.push(dl_char_for_kind(self.downloader_kind[a]));
            proof {
                assert(downloader_display@ =~= kinds_display(self.downloader_kind@, a + 1));
            }
            a = a + 1;
        }
        let mut unread_all = pad_left(signed_decimal_of(self.num_msg_unread), 5);
        append_chars(&mut unread_all, &chars_of(" / "));
        append_chars(&mut unread_all, &pad_left(signed_decimal_of(self.num_msg_all), 5));
        self.reset_downloader_kind_updated();
        let mut popup = chars_of("q");
        append_chars(&mut popup, &decimal_of(self.num_dl_queue_length as u64));
        append_chars(&mut popup, &chars_of("  "));
        append_chars(&mut popup, &signed_decimal_of(self.mem_usage_vmrss_bytes / 1048576));
        append_chars(&mut popup, &chars_of("MB"));
        let queue_display_max: usize = max_threads * 2;
        let qlen: usize = if (self.num_dl_queue_length as usize) < queue_display_max {
            self.num_dl_queue_length as usize
        } else {
            queue_display_max
        };
        proof {
            lemma_share_within_bar((qlen) as int, (queue_display_max) as int);
        }
        let dl_queue_char = get_vertical_block_char(qlen, queue_display_max);
        let mut msg1 = chars_of("<tt>");
        msg1.push(dl_queue_char);
        append_chars(&mut msg1, &chars_of(" "));
        append_chars(&mut msg1, &downloader_display);
        append_chars(&mut msg1, &chars_of("  "));
        append_chars(&mut msg1, &unread_all);
        append_chars(&mut msg1, &chars_of("    "));
        msg1.push('\u{2595}');
        msg1.push(block_vertical);
        msg1.push('\u{258F}');
        append_chars(&mut msg1, &chars_of("</tt>"));
        proof {
            let c = *old(self);
            let qmax = max_threads * 2;
            let ql = if c.num_dl_queue_length < qmax { c.num_dl_queue_length as int } else { qmax };
            assert(qlen == ql);
            assert(msg1@ =~= "<tt>"@ + seq![bar_char(bar_step(ql, qmax))] + " "@ + kinds_display(c.downloader_kind@, c.num_downloader_threads as int)
                + "  "@ + unread_all@ + "    "@ + seq!['\u{2595}', block_vertical, '\u{258F}'] + "</tt>"@);
        }
        (Some(string_of(&msg1)), Some(string_of(&popup)))
    }

    /// The text of the right panel: the loading progress of the browser as a bar, where
    /// it changed; it then counts as shown.
    pub fn panel_right(&mut self) -> (r: (Option<String>, Option<String>))
        ensures
            r.1 is None,
            old(self).browser_loading_progress_changed ==> opt_text(r.0) == Some("<tt>"@
                + seq!['\u{2595}', bar_char(bar_step(old(self).browser_loading_progress as int, 256))] + "</tt>"@),
            !old(self).browser_loading_progress_changed ==> r.0 is None,
            !final(self).browser_loading_progress_changed,
            final(self).browser_loading_progress == old(self).browser_loading_progress,
    {
        if self.browser_loading_progress_changed {
            self.browser_loading_progress_changed = false;
            proof {
                lemma_share_within_bar((self.browser_loading_progress as usize) as int, (256) as int);
            }
            let b_loading = get_vertical_block_char(self.browser_loading_progress as usize, 256);
            let mut text = chars_of("<tt>");
            text.push('\u{2595}');
            text.push(b_loading);
            append_chars(&mut text, &chars_of("</tt>"));
            proof {
                assert(text@ =~= "<tt>"@ + seq!['\u{2595}', b_loading] + "</tt>"@);
            }
            return (Some(string_of(&text)), None);
        }
        (None, None)
    }

    /// The text and tooltip of the middle panel. The text is the link of the selected
    /// message, else the address of the selected feed, ampersands escaped; while a bottom
    /// notice is current (for `BOTTOM_MSG_SHOW_TIME_S` seconds) the notice in the error
    /// colour instead; after that the notice is dropped. Without a current notice, the
    /// next queued one becomes current. Drawn where the message changed or a notice is
    /// current or came up.
    pub fn panel_middle(&mut self, feed_src_link: String, now: i64) -> (r: (Option<String>, Option<String>))
        requires
            old(self).bottom_notice_current matches Some((ts, _)) ==> ts <= i64::MAX - 10,
        ensures
            ({
                let c = *old(self);
                let plain = if c.selected_msg_url@.len() == 0 { escaped_url(feed_src_link@) } else { escaped_url(c.selected_msg_url@) };
                match c.bottom_notice_current {
                    Some((ts, msg)) => {
                        &&& now > ts + 10 ==> opt_text(r.0) == Some(plain) && final(self).bottom_notice_current is None
                        &&& now <= ts + 10 ==> opt_text(r.0) == Some(error_markup(msg@))
                            && final(self).bottom_notice_current == c.bottom_notice_current
                        &&& final(self).bottom_notices@ == c.bottom_notices@
                        &&& opt_text(r.1) == Some("Toooltip !!"@)
                    },
                    None => {
                        &&& (c.selected_msg_changed || c.bottom_notices@.len() > 0) ==> opt_text(r.0) == Some(plain)
                            && opt_text(r.1) == Some("Toooltip !!"@)
                        &&& !(c.selected_msg_changed || c.bottom_notices@.len() > 0) ==> r.0 is None && r.1 is None
                        &&& c.bottom_notices@.len() > 0 ==> final(self).bottom_notices@ == c.bottom_notices@.drop_first()
                            && (final(self).bottom_notice_current matches Some((_, cur)) && cur == c.bottom_notices@[0])
                        &&& c.bottom_notices@.len() == 0 ==> final(self).bottom_notices@ == c.bottom_notices@
                            && final(self).bottom_notice_current is None
                    },
                }
            }),
            final(self).selected_msg_changed == old(self).selected_msg_changed,
            final(self).selected_msg_url == old(self).selected_msg_url,
    {
        let mut need_update = self.selected_msg_changed;
        let url_chars = chars_of(self.selected_msg_url.as_str());
        let mut longtext = if url_chars.len() == 0 {
            string_escape_url(feed_src_link)
        } else {
            string_escape_url(self.selected_msg_url.clone())
        };
        match &self.bottom_notice_current {
            Some((ts, msg)) => {
                if now > *ts + 10 {
                    self.bottom_notice_current = None;
                } else {
                    longtext = error_formatter(msg.clone());
                }
                need_update = true;
            },
            None => {
                if self.pop_bottom_message_int().is_some() {
                    need_update = true;
                }
            },
        }
        if !need_update {
            return (None, None);
        }
        (Some(longtext), Some("Toooltip !!".to_string()))
    }
}

} // verus!
