use grassfeed::db::errorentry::ErrorEntry;
use grassfeed::db::icon_row::IconRow;
use grassfeed::db::message::MessageRow;
use grassfeed::db::subscription_entry::SubscriptionEntry;
use grassfeed::downloader::db_clean::{
    active_feed_ids, clean_up_stages, collapse_ids, duplicate_message_ids, error_log_deletions, folder_icon_resets,
    icon_doublettes, name_corrections, next_clean_stage, purge_ids, subscription_icon_resets,
    unconnected_message_ids, CleanStage,
};

fn subs(id: isize, folder: bool, expanded: bool, icon: usize, name: &str) -> SubscriptionEntry {
    let mut e = SubscriptionEntry::default();
    e.subs_id = id;
    e.is_folder = folder;
    e.expanded = expanded;
    e.icon_id = icon;
    e.display_name = name.to_string();
    e
}

fn msg(id: isize, src: isize, fetch: i64, date: i64, title: &str, deleted: bool) -> MessageRow {
    let mut m = MessageRow::default();
    m.message_id = id;
    m.subscription_id = src;
    m.fetch_date = fetch;
    m.entry_src_date = date;
    m.title = title.to_string();
    m.is_deleted = deleted;
    m
}

#[test]
fn t_clean_stages_in_order() {
    let mut s = CleanStage::Start;
    let mut n = 0;
    while let Some(next) = next_clean_stage(s, false) {
        s = next;
        n += 1;
    }
    assert_eq!(s, CleanStage::Notify);
    assert_eq!(n, 13);
    assert_eq!(next_clean_stage(CleanStage::AnalyzeFolderPositions, true), Some(CleanStage::ReSortParentId));
}

#[test]
fn t_subscription_corrections() {
    let all = vec![subs(1, true, true, 8, "F"), subs(2, false, true, 30, ""), subs(3, false, false, 2, "ok")];
    assert_eq!(collapse_ids(&all), vec![2]);
    let names = name_corrections(&all);
    assert_eq!(names, vec![None, Some("unnamed-2".to_string()), None]);
    assert_eq!(folder_icon_resets(&all, -3, 7), vec![1]);
    assert_eq!(subscription_icon_resets(&all, &[30, 31], 10, 5), Some(vec![3]));
    assert_eq!(subscription_icon_resets(&all, &[30], 10, 5), None);
    assert_eq!(active_feed_ids(&all), vec![2, 3]);
}

#[test]
fn t_message_corrections() {
    let ms = vec![
        msg(1, 5, 200, 7, "a", false),
        msg(2, 5, 100, 7, "a", false),
        msg(3, 9, 300, 8, "b", false),
        msg(4, 9, 300, 8, "c", true),
    ];
    assert_eq!(duplicate_message_ids(&ms), vec![1]);
    assert_eq!(purge_ids(&ms), vec![4]);
    assert_eq!(unconnected_message_ids(&[5], &ms), vec![3]);
}

#[test]
fn t_icon_doublettes() {
    let mut a = IconRow::default();
    a.icon_id = 10;
    a.icon = "X".to_string();
    let mut b = IconRow::default();
    b.icon_id = 11;
    b.icon = "Y".to_string();
    let mut c = IconRow::default();
    c.icon_id = 12;
    c.icon = "X".to_string();
    assert_eq!(icon_doublettes(&[a, b, c]), vec![(12, 10)]);
}

#[test]
fn t_error_log_deletions() {
    let mut es = Vec::new();
    for i in 0..102 {
        let mut e = ErrorEntry::default();
        e.err_id = 1000 + i;
        e.subs_id = 4;
        e.date = 50_000_000 + i as i64;
        es.push(e);
    }
    let mut other = ErrorEntry::default();
    other.err_id = 7;
    other.subs_id = 99;
    other.date = 60_000_000;
    es.push(other);
    let mut old = ErrorEntry::default();
    old.err_id = 8;
    old.subs_id = 5;
    old.date = 1;
    es.push(old);
    let d = error_log_deletions(&[4, 5], &es, 60_000_000);
    // the 100 oldest of subscription 4 go, the line of an unknown subscription and the too old one
    assert_eq!(d.len(), 102);
    assert!(d.contains(&7) && d.contains(&8) && d.contains(&1000) && !d.contains(&1101));
}

#[test]
fn t_clean_up_run_passes_every_stage() {
    let plain = clean_up_stages(false);
    assert_eq!(plain.len(), 14);
    assert_eq!(plain[0], CleanStage::Start);
    assert_eq!(plain[2], CleanStage::AnalyzeFolderPositions);
    assert_eq!(plain[3], CleanStage::CorrectNames);
    assert_eq!(plain[13], CleanStage::Notify);
    let resort = clean_up_stages(true);
    assert_eq!(resort.len(), 15);
    assert_eq!(resort[3], CleanStage::ReSortParentId);
    assert_eq!(resort[14], CleanStage::Notify);
}
