use grassfeed::controller::guiprocessor::switch_focus_marker;
use grassfeed::controller::sourcetree::get_path_for_src;
use grassfeed::controller::sourcetree::mark_as_read;
use grassfeed::controller::sourcetree::mark_schedule_fetch;
use grassfeed::controller::sourcetree::process_tree_read_count;
use grassfeed::controller::sourcetree::set_fetch_finished;
use grassfeed::controller::sourcetree::set_fetch_in_progress;
use grassfeed::controller::browserpane::browser_info_texts;
use grassfeed::controller::browserpane::display_title;
use grassfeed::controller::contentdownloader::checked_thread_count;
use grassfeed::controller::contentdownloader::host_from_url;
use grassfeed::controller::contentdownloader::host_in_use;
use grassfeed::controller::contentdownloader::set_conf_num_threads;
use grassfeed::controller::contentdownloader::Config as DlConfig;
use grassfeed::controller::contentlist::match_new_entries_to_existing;
use grassfeed::controller::contentlist::CJob;
use grassfeed::controller::contentlist::set_favorite_multi;
use grassfeed::controller::guiprocessor::dl_char_for_kind;
use grassfeed::controller::guiprocessor::process_key_press;
use grassfeed::controller::guiprocessor::FocusByTab;
use grassfeed::controller::guiprocessor::FocusTarget;
use grassfeed::controller::guiprocessor::KeyAction;
use grassfeed::controller::guiprocessor::KeyCodes;
use grassfeed::controller::sourcetree::check_feed_update_times;
use grassfeed::controller::sourcetree::process_fetch_scheduled;
use grassfeed::controller::sourcetree::sum_up_num_all_unread;
use grassfeed::controller::sourcetree::tree_row_to_values;
use grassfeed::controller::sourcetree::Config as TreeConfig;
use grassfeed::controller::sourcetree::StatusIcon;
use grassfeed::controller::statusbar::error_formatter;
use grassfeed::controller::statusbar::get_vertical_block_char;
use grassfeed::controller::statusbar::CachedData;
use grassfeed::db::message::MessageRow;
use grassfeed::db::subscription_entry::SubscriptionEntry;
use grassfeed::db::subscription_state::ISubscriptionState;
use grassfeed::db::subscription_state::StatusMask;
use grassfeed::db::subscription_state::SubsMapEntry;
use grassfeed::db::subscription_state::SubscriptionState;

#[test]
fn focus_cycles() {
    let f = FocusByTab::FocusSubscriptions;
    assert_eq!(f.next(), FocusByTab::FocusMessages);
    assert_eq!(f.next().next().next(), f);
    assert_eq!(f.next().prev(), f);
    assert_eq!(FocusByTab::Unfocused.next(), FocusByTab::FocusSubscriptions);
    assert_eq!(FocusByTab::Unfocused.prev(), FocusByTab::FocusBrowser);
}

#[test]
fn key_presses() {
    assert_eq!(
        process_key_press(KeyCodes::Tab, FocusByTab::FocusMessages, 3),
        (KeyAction::Ignore, FocusByTab::FocusBrowser, Some(FocusTarget::Browser))
    );
    assert_eq!(
        process_key_press(KeyCodes::Key_a, FocusByTab::FocusMessages, 3),
        (KeyAction::MarkAsRead(3), FocusByTab::FocusMessages, None)
    );
    assert_eq!(process_key_press(KeyCodes::Key_a, FocusByTab::FocusMessages, -1).0, KeyAction::Ignore);
    assert_eq!(process_key_press(KeyCodes::Delete, FocusByTab::FocusSubscriptions, 1).0, KeyAction::Ignore);
    assert_eq!(process_key_press(KeyCodes::Delete, FocusByTab::FocusMessages, 1).0, KeyAction::DeleteMessages);
    assert_eq!(process_key_press(KeyCodes::Key_e, FocusByTab::Unfocused, 1).0, KeyAction::OtherSubscription(true));
    assert_eq!(dl_char_for_kind(2), '\u{2662}');
    assert_eq!(dl_char_for_kind(9), '_');
}

#[test]
fn block_chars() {
    assert_eq!(get_vertical_block_char(0, 8), ' ');
    assert_eq!(get_vertical_block_char(8, 8), '\u{2588}');
    assert_eq!(get_vertical_block_char(4, 8), '\u{2584}');
    assert_eq!(get_vertical_block_char(5, 0), ' ');
    assert_eq!(get_vertical_block_char(255, 256), '\u{2587}');
}

#[test]
fn status_texts() {
    assert_eq!(
        error_formatter("a&b".to_string()),
        "<span foreground=\"#CC6666\">a&amp;b</span>"
    );
    let mut c = CachedData::new(4);
    c.browser_loading_progress = 128;
    c.browser_loading_progress_changed = true;
    assert_eq!(c.panel_right(), (Some("<tt>\u{2595}\u{2584}</tt>".to_string()), None));
    assert_eq!(c.panel_right(), (None, None));
    c.num_msg_all = 120;
    c.num_msg_unread = 7;
    c.num_msg_changed = true;
    c.num_downloader_threads = 2;
    c.update_downloader_kind(1, 2);
    c.num_dl_queue_length = 3;
    c.mem_usage_vmrss_bytes = 3 * 1048576 + 5;
    let (t, tip) = c.panel_left(1000, 60, 4);
    assert_eq!(
        t.unwrap(),
        "<tt>\u{2583} _\u{2662}      7 /   120    \u{2595} \u{258F}</tt>"
    );
    assert_eq!(tip.unwrap(), "q3  3MB");
    assert!(!c.downloader_kind_changed);
}

#[test]
fn bottom_notices() {
    let mut c = CachedData::new(2);
    c.bottom_notices.push_back("disk full".to_string());
    let (t, _) = c.panel_middle("https://a.org/?x=1&y=2".to_string(), 100);
    assert_eq!(t.unwrap(), "https://a.org/?x=1&amp;y=2");
    let now = c.bottom_notice_current.as_ref().unwrap().0;
    let (t2, _) = c.panel_middle("f".to_string(), now);
    assert_eq!(t2.unwrap(), "<span foreground=\"#CC6666\">disk full</span>");
    let (t3, _) = c.panel_middle("f".to_string(), now + 11);
    assert_eq!(t3.unwrap(), "f");
    assert!(c.bottom_notice_current.is_none());
    assert_eq!(c.panel_middle("f".to_string(), now + 12), (None, None));
}

#[test]
fn downloader_hosts() {
    assert_eq!(host_from_url(&"https://a.org:81/x".to_string()), Some("a.org".to_string()));
    assert_eq!(host_from_url(&"nothing".to_string()), None);
    let busy = vec![(1u8, "a.org".to_string()), (0u8, String::new())];
    assert!(host_in_use(&Some("a.org".to_string()), &busy));
    assert!(!host_in_use(&Some("b.org".to_string()), &busy));
    assert!(!host_in_use(&Some(String::new()), &busy));
    assert!(!host_in_use(&None, &busy));
    assert_eq!(checked_thread_count(0, 4), 2);
    assert_eq!(checked_thread_count(3, 4), 3);
    assert_eq!(checked_thread_count(5, 4), 2);
    let mut conf = DlConfig::default();
    assert_eq!(conf.num_downloader_threads, 1);
    assert!(!set_conf_num_threads(&mut conf, 0, 4));
    assert!(set_conf_num_threads(&mut conf, 4, 4));
    assert_eq!(conf.num_downloader_threads, 4);
}

fn msg(id: isize, date: i64, post: &str, title: &str) -> MessageRow {
    let mut m = MessageRow::default();
    m.message_id = id;
    m.entry_src_date = date;
    m.post_id = post.to_string();
    m.title = title.to_string();
    m
}

#[test]
fn matching_new_messages() {
    let existing = vec![msg(1, 100, "p1", "t1"), msg(2, 200, "p2", "t2")];
    let new_list = vec![
        msg(-1, 100, "p1", "t1"),
        msg(-1, 201, "p2", "t2"),
        msg(-1, 300, "p3", "t3"),
        msg(-1, 100, "px", "tx"),
    ];
    let (kept, jobs) = match_new_entries_to_existing(&new_list, &existing);
    assert_eq!(kept.len(), 2);
    assert_eq!(kept[0].post_id, "p3");
    assert_eq!(kept[1].post_id, "px");
    assert_eq!(jobs.len(), 1);
    match &jobs[0] {
        CJob::DbUpdateEntryDate(id, d) => {
            assert_eq!(*id, 2);
            assert_eq!(*d, 201);
        }
        other => panic!("unexpected {:?}", other),
    }
}

#[test]
fn interval_seconds() {
    let mut c = TreeConfig::default();
    assert_eq!(c.get_interval_seconds(), 0);
    c.feeds_fetch_interval = 3;
    c.feeds_fetch_interval_unit = 2;
    assert_eq!(c.get_interval_seconds(), 3 * 3600);
}

fn subs(id: isize, folder: bool) -> SubscriptionEntry {
    let mut e = SubscriptionEntry::default();
    e.subs_id = id;
    e.is_folder = folder;
    e
}

#[test]
fn tree_row_values() {
    let mut conf = TreeConfig::default();
    let mut e = subs(5, false);
    e.display_name = String::new();
    let st = SubsMapEntry { tree_path: Some(vec![0, 2]), status: 64, num_msg_all_unread: Some((10, 3)) };
    let v = tree_row_to_values(&conf, &e, &st, Some("ICON".to_string()), Some("boom".to_string()));
    assert_eq!(v.display_name, "--");
    assert_eq!(v.icon, "ICON");
    assert_eq!(v.rightcol_text, "3");
    assert_eq!(v.status_icon, StatusIcon::FlagRed);
    assert_eq!(v.tooltip, Some("boom".to_string()));
    assert!(!v.rightcol_visible);
    conf.display_feedcount_all = true;
    conf.mode_debug = true;
    let st2 = SubsMapEntry { tree_path: Some(vec![0, 2]), status: 8, num_msg_all_unread: Some((10, 0)) };
    let v2 = tree_row_to_values(&conf, &e, &st2, None, None);
    assert_eq!(v2.rightcol_text, "10");
    assert_eq!(v2.status_icon, StatusIcon::Download);
    assert_eq!(v2.tooltip, Some("5 ST8 X0  P\"[0, 2]\" I0 L0".to_string()));
    assert!(v2.no_unread);
}

#[test]
fn folder_counts_sum_up() {
    let mut st = SubscriptionState::new();
    st.set_tree_path(1, vec![0], true);
    st.set_tree_path(2, vec![0, 0], false);
    st.set_tree_path(3, vec![0, 1], false);
    st.set_num_all_unread(2, 10, 4);
    assert_eq!(sum_up_num_all_unread(&mut st, 1, &[2, 3]), None);
    st.set_num_all_unread(3, 5, 1);
    assert_eq!(sum_up_num_all_unread(&mut st, 1, &[2, 3]), Some((15, 5)));
    assert_eq!(st.get_num_all_unread(1), Some((15, 5)));
}

#[test]
fn periodic_checks_and_scheduling() {
    let mut st = SubscriptionState::new();
    st.set_tree_path(2, vec![0], false);
    st.set_tree_path(3, vec![1], false);
    st.set_status(&[3], StatusMask::FetchInProgress, true);
    let due = vec![subs(2, false), subs(3, false), subs(4, true)];
    let (upd, counts) = check_feed_update_times(&st, 60, &due, 1);
    assert_eq!(upd, vec![2]);
    assert_eq!(counts.len(), 1);
    let (upd0, _) = check_feed_update_times(&st, 0, &due, 1);
    assert!(upd0.is_empty());

    st.set_status(&[2], StatusMask::FetchScheduled, true);
    let entries = vec![subs(2, false), subs(3, false)];
    assert_eq!(process_fetch_scheduled(&mut st, &entries), Some(2));
    let s2 = st.get_state(2).unwrap();
    assert_eq!(s2.status & 8, 0);
    assert_eq!(s2.status & 16, 16);
    assert_eq!(process_fetch_scheduled(&mut st, &entries), None);
}

#[test]
fn status_subscription_info() {
    let mut c = CachedData::new(2);
    let stats = [1u32, 2, 3, 4, 5, 6, 7];
    assert_eq!(c.get_subscription_info(Some((12, 500)), 3, stats), 12);
    assert_eq!(c.subscription_id, 12);
    assert!(c.subscription_id_changed);
    assert_eq!(c.num_downloader_threads, 3);
    assert_eq!(c.downloader_stats, stats);
    assert_eq!(c.subscription_last_download_time, 500);
    assert!(!c.subscription_is_folder);
    // the same selection only clears the change mark
    assert_eq!(c.get_subscription_info(Some((12, 900)), 5, [0; 7]), 12);
    assert!(!c.subscription_id_changed);
    assert_eq!(c.subscription_last_download_time, 500);
    assert_eq!(c.num_downloader_threads, 3);
    assert_eq!(c.get_subscription_info(None, 1, [0; 7]), -1);
    assert_eq!(c.subscription_id, -1);
    assert!(c.subscription_id_changed);
    assert_eq!(c.subscription_last_download_time, 0);
}

#[test]
fn status_contents_info() {
    let mut c = CachedData::new(2);
    c.get_contents_info(&vec![7, 8], "http://a/".to_string(), Some((10, 4)), (2, 1));
    assert_eq!(c.selected_msg_id, 7);
    assert!(c.selected_msg_changed);
    assert_eq!(c.selected_msg_url, "http://a/");
    assert_eq!((c.num_msg_all, c.num_msg_unread), (10, 4));
    assert!(c.num_msg_changed);
    assert_eq!(c.num_dl_queue_length, 3);
    assert!(c.num_dl_queue_length_changed);
    c.get_contents_info(&vec![7], "http://b/".to_string(), None, (3, 0));
    assert!(!c.selected_msg_changed);
    assert_eq!(c.selected_msg_url, "http://a/");
    assert!(c.num_msg_changed);
    assert!(!c.num_dl_queue_length_changed);
    c.get_contents_info(&Vec::new(), "x".to_string(), Some((10, 4)), (0, 0));
    assert_eq!(c.selected_msg_id, -1);
    assert!(c.selected_msg_changed);
    assert!(!c.num_msg_changed);
    assert_eq!(c.num_dl_queue_length, 0);
    assert!(c.num_dl_queue_length_changed);
}

#[test]
fn browser_info_area_texts() {
    let (link, subs, date, author, cats) = browser_info_texts(
        "Tom & Jerry".to_string(),
        "http://a/?x=1&y=2".to_string(),
        "2022-06-22".to_string(),
        "Ann".to_string(),
        "news".to_string(),
        "Feed".to_string(),
    );
    assert_eq!(link, "<a href=\"http://a/?x=1&amp;y=2\">Tom &amp; Jerry</a>");
    assert_eq!((subs.as_str(), date.as_str(), author.as_str(), cats.as_str()), ("Feed", "2022-06-22", "Ann", "news"));
}

#[test]
fn browser_title_cut_at_link() {
    assert_eq!(display_title("Warning : A Bubble   https://youtu.be/x".to_string()), "Warning : A Bubble");
    assert_eq!(display_title("plain title".to_string()), "plain title");
    assert_eq!(display_title("http://only".to_string()), "");
}

#[test]
fn fetch_schedule_marks() {
    let mut st = SubscriptionState::new();
    st.set_tree_path(1, vec![0], true);
    st.set_tree_path(2, vec![0, 0], false);
    st.set_tree_path(3, vec![0, 1], true);
    st.set_tree_path(4, vec![0, 2], false);
    let children = vec![subs(2, false), subs(3, true), subs(4, false)];
    // a folder schedules its feeds
    assert!(!mark_schedule_fetch(&mut st, 1, Some(subs(1, true)), &children));
    assert_eq!(st.get_state(2).unwrap().status & 8, 8);
    assert_eq!(st.get_state(3).unwrap().status & 8, 0);
    assert_eq!(st.get_state(4).unwrap().status & 8, 8);
    // a scheduled feed stays as it is
    assert!(!mark_schedule_fetch(&mut st, 2, Some(subs(2, false)), &[]));
    // a deleted entry is left alone
    let mut gone = subs(5, false);
    gone.parent_subs_id = -2;
    assert!(!mark_schedule_fetch(&mut st, 5, Some(gone), &[]));
    // a feed schedules itself
    st.set_tree_path(6, vec![1], false);
    assert!(mark_schedule_fetch(&mut st, 6, Some(subs(6, false)), &[]));
    assert_eq!(st.get_state(6).unwrap().status & 8, 8);

    set_fetch_in_progress(&mut st, 6);
    let s6 = st.get_state(6).unwrap().status;
    assert_eq!((s6 & 32, s6 & 8, s6 & 16), (32, 0, 0));
    st.set_num_all_unread(6, 9, 2);
    set_fetch_finished(&mut st, 6, true);
    let e6 = st.get_state(6).unwrap();
    assert_eq!((e6.status & 32, e6.status & 64), (0, 64));
    assert_eq!(e6.num_msg_all_unread, None);
    set_fetch_finished(&mut st, 6, false);
    assert_eq!(st.get_state(6).unwrap().status & 64, 0);
}

#[test]
fn tree_paths_and_counts() {
    let mut st = SubscriptionState::new();
    st.set_tree_path(1, vec![0], true);
    st.set_tree_path(2, vec![0, 3], false);
    assert_eq!(get_path_for_src(&st, 2), (Some(vec![0, 3]), false));
    assert_eq!(get_path_for_src(&st, 0), (Some(vec![0]), false));
    assert_eq!(get_path_for_src(&st, 7), (None, true));

    st.set_num_all_unread(1, 20, 5);
    let mut child = subs(2, false);
    child.parent_subs_id = 1;
    let entries = vec![subs(1, true), child];
    let (e, s, scan) = process_tree_read_count(&mut st, &entries, 2, 10, 4).unwrap();
    assert_eq!(e.subs_id, 2);
    assert_eq!(s.num_msg_all_unread, Some((10, 4)));
    assert!(scan);
    assert_eq!(st.get_num_all_unread(1), None);
    assert!(process_tree_read_count(&mut st, &entries, 9, 1, 1).is_none());

    st.set_num_all_unread(2, 3, 3);
    let (ids, folder) = mark_as_read(&mut st, 1, &entries[1..]);
    assert!(folder);
    assert_eq!(ids, vec![2]);
    assert_eq!(st.get_num_all_unread(2), None);
    assert_eq!(mark_as_read(&mut st, 2, &[]), (vec![2], false));
}

#[test]
fn focus_marker_widgets() {
    assert_eq!(switch_focus_marker(FocusByTab::FocusMessages, true), Some((FocusTarget::MessageList, 1)));
    assert_eq!(switch_focus_marker(FocusByTab::FocusBrowser, false), Some((FocusTarget::Browser, 2)));
    assert_eq!(switch_focus_marker(FocusByTab::FocusSubscriptions, true), Some((FocusTarget::SubscriptionTree, 1)));
    assert_eq!(switch_focus_marker(FocusByTab::Unfocused, true), None);
}

fn favorite_pairs(jobs: &[CJob]) -> Vec<Vec<(u32, u32)>> {
    jobs.iter()
        .map(|j| match j {
            CJob::SetFavoriteSome(v, true) => v.clone(),
            other => panic!("unexpected job {:?}", other),
        })
        .collect()
}

#[test]
fn t_set_favorite_multi_small() {
    let jobs = set_favorite_multi(&[(10, 0), (11, 1), (12, 2)], true);
    assert_eq!(favorite_pairs(&jobs), vec![vec![(0, 10), (1, 11), (2, 12)]]);
}

#[test]
fn t_set_favorite_multi_chunks() {
    let sel: Vec<(i32, i32)> = (0..8).map(|i| (100 + i, i)).collect();
    let jobs = set_favorite_multi(&sel, true);
    assert_eq!(jobs.len(), 2);
    assert_eq!(favorite_pairs(&jobs)[1], vec![(4, 104), (5, 105), (6, 106), (7, 107)]);
    // 22 pairs: four jobs of five pairs each, as the selection is cut
    let sel: Vec<(i32, i32)> = (0..22).map(|i| (100 + i, i)).collect();
    let pairs = favorite_pairs(&set_favorite_multi(&sel, true));
    assert_eq!(pairs.len(), 4);
    assert!(pairs.iter().all(|p| p.len() == 5));
    assert_eq!(pairs[3][4], (19, 119));
}
