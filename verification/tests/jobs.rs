use grassfeed::controller::contentlist::CJob;
use grassfeed::controller::jobs::{
    contents_job_action, contents_job_needs, counts_checked_step, dedup_jobs, dialog_action,
    fetch_after_new_subscription, gui_job_action, scan_unread_actions, store_feed_create_update,
    tree_job_step, ContentsAction, ContentsQuery, DialogAction, DialogValue, GuiAction, Job, SJob,
    SlowDownload, TreeAction,
};
use grassfeed::controller::statusbar::get_vertical_block_char;
use grassfeed::db::subscription_entry::SubscriptionEntry;
use grassfeed::db::subscription_state::{FeedSourceState, ISubscriptionState, SubscriptionState};
use grassfeed::util::string_escape_url;
use grassfeed::downloader::util::workaround_https_declaration;

fn entry(id: isize, parent: isize, folder: bool) -> SubscriptionEntry {
    let mut e = SubscriptionEntry::default();
    e.subs_id = id;
    e.parent_subs_id = parent;
    e.is_folder = folder;
    e
}

#[test]
fn t_dedup_jobs_keeps_first_of_each() {
    let jobs = vec![
        SJob::GuiUpdateTree(3),
        SJob::ScanEmptyUnread,
        SJob::GuiUpdateTree(3),
        SJob::GuiUpdateTree(4),
        SJob::DragUrlEvaluated("a".into(), "b".into(), "".into(), "".into()),
        SJob::DragUrlEvaluated("a".into(), "b".into(), "".into(), "".into()),
        SJob::ScanEmptyUnread,
    ];
    let d = dedup_jobs(jobs);
    assert_eq!(d.len(), 4);
    assert!(matches!(d[0], SJob::GuiUpdateTree(3)));
    assert!(matches!(d[2], SJob::GuiUpdateTree(4)));
    let g = dedup_jobs(vec![Job::CheckFocusMarker(2), Job::CheckFocusMarker(2), Job::CheckFocusMarker(1)]);
    assert_eq!(g.len(), 2);
}

#[test]
fn t_gui_job_action_slow_download() {
    let a = gui_job_action(Job::DownloaderJobFinished(7, 1, 2, 9000, "d".into(), "host".into()), 5000, "");
    match a {
        GuiAction::JobFinished { slow: Some((SlowDownload::Icon, 7, 9000, r)), end_db_check: false, thread: 1 } => {
            assert_eq!(r, "host")
        }
        other => panic!("{:?}", other),
    }
    let a = gui_job_action(Job::DownloaderJobFinished(0, 1, 1, 9000, "d".into(), "h".into()), 5000, "");
    assert!(matches!(a, GuiAction::JobFinished { slow: None, .. }));
    let a = gui_job_action(Job::DownloaderJobFinished(3, 2, 4, 10, "d".into(), "h".into()), 5000, "");
    assert!(matches!(a, GuiAction::JobFinished { slow: None, end_db_check: true, thread: 2 }));
}

#[test]
fn t_gui_job_action_focus_and_clean() {
    assert!(matches!(gui_job_action(Job::CheckFocusMarker(3), 1, ""), GuiAction::Requeue(Job::CheckFocusMarker(2))));
    assert!(matches!(gui_job_action(Job::CheckFocusMarker(0), 1, ""), GuiAction::FocusMarkerOff));
    match gui_job_action(Job::NotifyDbClean(11, 25, Some("done".into())), 1, "x\n") {
        GuiAction::DbCleanProgress { step: 11, text: Some(t), finished: true } => assert_eq!(t, "x\n25\tdone\n"),
        other => panic!("{:?}", other),
    }
    assert!(matches!(
        gui_job_action(Job::NotifyDbClean(3, 25, None), 1, ""),
        GuiAction::DbCleanProgress { step: 3, text: None, finished: false }
    ));
    assert!(matches!(gui_job_action(Job::UpdateLabel(2), 1, ""), GuiAction::Pass(Job::UpdateLabel(2))));
}

#[test]
fn t_contents_job_action() {
    assert_eq!(contents_job_needs(&CJob::RequestUnreadAllCount(4)), ContentsQuery::Counts(4));
    assert_eq!(contents_job_needs(&CJob::SwitchBrowserTabContent(9)), ContentsQuery::Cached(9));
    assert!(matches!(
        contents_job_action(CJob::RequestUnreadAllCount(4), false, 10, 3),
        ContentsAction::NotifyTreeReadCount(4, 10, 7)
    ));
    assert!(matches!(contents_job_action(CJob::RequestUnreadAllCount(4), false, -1, 0), ContentsAction::Nothing));
    assert!(matches!(
        contents_job_action(CJob::SwitchBrowserTabContent(9), false, 0, 0),
        ContentsAction::ShowMessage { msg_id: 9, fill_cache: true }
    ));
    assert!(matches!(contents_job_action(CJob::LaunchBrowserSuccess(5, 2), true, 0, 0), ContentsAction::SetRead(5, 2)));
}

#[test]
fn t_dialog_action() {
    let p = vec![DialogValue::Text("http://x/feed".into())];
    assert!(matches!(dialog_action("new-feedsource", &p), DialogAction::TooFewData));
    let p = vec![DialogValue::Text("http://x/feed".into()), DialogValue::Text("X".into())];
    match dialog_action("new-feedsource", &p) {
        DialogAction::NewSubscription(u, n) => assert_eq!((u.as_str(), n.as_str()), ("http://x/feed", "X")),
        other => panic!("{:?}", other),
    }
    assert!(matches!(dialog_action("other", &p), DialogAction::Ignore));
    let s = vec![
        DialogValue::Flag(true),
        DialogValue::Int(2),
        DialogValue::Int(3),
        DialogValue::Int(260),
        DialogValue::Int(1),
        DialogValue::Flag(false),
        DialogValue::Int(500),
        DialogValue::Flag(true),
        DialogValue::Int(12),
        DialogValue::UInt(200),
        DialogValue::Flag(true),
    ];
    match dialog_action("settings", &s) {
        DialogAction::Settings(u) => {
            assert!(u.load_on_start && !u.display_feedcount_all && u.browser_clear_cache);
            assert_eq!((u.fetch_interval, u.fetch_interval_unit, u.num_threads, u.msg_keep_count), (2, 3, 4, 500));
            assert_eq!((u.fontsize_manual, u.browser_bg), (12, 200));
        }
        other => panic!("{:?}", other),
    }
    assert_eq!(fetch_after_new_subscription(5), Some(5));
    assert_eq!(fetch_after_new_subscription(0), None);
}

#[test]
fn t_tree_scan_and_counts() {
    let acts = scan_unread_actions(&vec![(3, true), (4, false)]);
    assert_eq!(acts.len(), 3);
    assert!(matches!(acts[0], TreeAction::RequeueScan));
    assert!(matches!(acts[1], TreeAction::SumUpFolder(3)));
    assert!(matches!(acts[2], TreeAction::RequestUnreadCount(4)));
    assert!(scan_unread_actions(&vec![]).is_empty());
    assert!(matches!(store_feed_create_update(3, 100, 0), TreeAction::StoreTimestamps(3, 100, None)));

    let mut st = SubscriptionState::default();
    st.set_tree_path(2, vec![0], true);
    st.set_tree_path(5, vec![0, 0], false);
    st.set_num_all_unread(2, 40, 20);
    let entries = vec![entry(2, 0, true), entry(5, 2, false)];
    let acts = counts_checked_step(&mut st, &entries, 5, true, 10, 3);
    assert_eq!(st.get_num_all_unread(5), Some((10, 3)));
    assert_eq!(st.get_num_all_unread(2), None);
    assert_eq!(acts.len(), 2);
    assert!(matches!(acts[0], TreeAction::UpdateTreeRow(5)));
    assert!(matches!(acts[1], TreeAction::RequeueScan));
    let acts = tree_job_step(&mut st, &entries, SJob::SetSelectedFeedSource(5), 10);
    assert!(matches!(acts[..], [TreeAction::Pass(SJob::SetSelectedFeedSource(5))]));
}

#[test]
fn t_block_char_beyond_the_whole() {
    assert_eq!(get_vertical_block_char(10, 9), '\u{2588}');
    assert_eq!(get_vertical_block_char(128, 256), '\u{2584}');
}

#[test]
fn t_escape_then_unescape() {
    let e = string_escape_url("a&b&&c".to_string());
    assert_eq!(e, "a&amp;b&amp;&amp;c");
    assert_eq!(e.replace("&amp;", "&"), "a&b&&c");
}

#[test]
fn t_atom_fix_twice_is_once() {
    let once = workaround_https_declaration("a https://www.w3.org/2005/Atom b https://www.w3.org/2005/Atomx".to_string());
    assert_eq!(once, "a http://www.w3.org/2005/Atom b http://www.w3.org/2005/Atomx");
    assert_eq!(workaround_https_declaration(once.clone()), once);
}

#[test]
fn t_tree_fetch_lifecycle() {
    let mut st = SubscriptionState::default();
    st.set_tree_path(2, vec![0], true);
    st.set_tree_path(5, vec![0, 0], false);
    st.set_tree_path(6, vec![0, 1], false);
    let entries = vec![entry(2, 0, true), entry(5, 2, false), entry(6, 2, false)];

    let acts = tree_job_step(&mut st, &entries, SJob::ScheduleUpdateFeed(5), 10);
    assert!(matches!(
        acts[..],
        [TreeAction::UpdateTreeRow(5), TreeAction::QueueJob(SJob::GuiUpdateTree(5))]
    ));
    assert!(st.get_state(5).unwrap().is_fetch_scheduled());
    assert!(!st.get_state(6).unwrap().is_fetch_scheduled());
    let acts = tree_job_step(&mut st, &entries, SJob::ScheduleUpdateFeed(2), 10);
    assert!(acts.is_empty());
    assert!(st.get_state(6).unwrap().is_fetch_scheduled());
    assert!(!st.get_state(2).unwrap().is_fetch_scheduled());
    let acts = tree_job_step(&mut st, &entries, SJob::ScheduleUpdateFeed(5), 10);
    assert!(acts.is_empty());

    let acts = tree_job_step(&mut st, &entries, SJob::SetFetchInProgress(5), 10);
    assert!(matches!(acts[..], [TreeAction::SpinnerVisible(true), TreeAction::UpdateTreeRow(5)]));
    assert!(st.get_state(5).unwrap().is_fetch_in_progress());
    assert!(!st.get_state(5).unwrap().is_fetch_scheduled());
    let acts = tree_job_step(&mut st, &entries, SJob::CheckSpinnerActive, 10);
    assert!(matches!(acts[..], [TreeAction::SpinnerVisible(true)]));

    let acts = tree_job_step(&mut st, &entries, SJob::SetFetchFinished(5, true), 10);
    assert!(matches!(
        acts[..],
        [
            TreeAction::QueueJob(SJob::CheckSpinnerActive),
            TreeAction::RefreshMessages(5),
            TreeAction::RequeueScan,
            TreeAction::UpdateTreeRow(5)
        ]
    ));
    assert!(!st.get_state(5).unwrap().is_fetch_in_progress());
    assert!(st.get_state(5).unwrap().is_err_on_fetch());
    let acts = tree_job_step(&mut st, &entries, SJob::CheckSpinnerActive, 10);
    assert!(matches!(acts[..], [TreeAction::SpinnerVisible(false)]));

    let acts = tree_job_step(&mut st, &entries, SJob::ScheduleFetchAllFeeds, 10);
    assert!(acts.is_empty());
    assert!(st.get_state(5).unwrap().is_fetch_scheduled());
    assert!(!st.get_state(2).unwrap().is_fetch_scheduled());
}
