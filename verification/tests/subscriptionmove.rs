use grassfeed::controller::subscriptionmove::add_new_folder_at_parent;
use grassfeed::controller::subscriptionmove::add_new_subscription_at_parent;
use grassfeed::controller::subscriptionmove::drag_move;
use grassfeed::controller::subscriptionmove::get_next_available_subscription_id;
use grassfeed::controller::subscriptionmove::next_folder_position;
use grassfeed::controller::subscriptionmove::resort_parent_list;
use grassfeed::controller::subscriptionmove::PositionUpdate;
use grassfeed::controller::subscriptionmove::SubscriptionMove;
use grassfeed::db::subscription_entry::SubscriptionEntry;
use grassfeed::db::subscription_state::ISubscriptionState;
use grassfeed::db::subscription_state::SubscriptionState;

fn entry(id: isize, parent: isize, pos: isize, folder: bool) -> SubscriptionEntry {
    let mut e = SubscriptionEntry::default();
    e.subs_id = id;
    e.parent_subs_id = parent;
    e.folder_position = pos;
    e.is_folder = folder;
    e
}

// folder 1 at [0] with feeds 2 at [0,0] and 3 at [0,1]; feed 4 at [1]
fn tree() -> (SubscriptionMove, Vec<SubscriptionEntry>) {
    let entries = vec![
        entry(1, 0, 0, true),
        entry(2, 1, 0, false),
        entry(3, 1, 1, false),
        entry(4, 0, 1, false),
    ];
    let mut st = SubscriptionState::new();
    st.set_tree_path(1, vec![0], true);
    st.set_tree_path(2, vec![0, 0], false);
    st.set_tree_path(3, vec![0, 1], false);
    st.set_tree_path(4, vec![1], false);
    let mut sm = SubscriptionMove::new();
    sm.set_state_map(st);
    assert!(sm.check_paths(&entries));
    (sm, entries)
}

#[test]
fn drag_onto_entry_takes_its_place() {
    let (mut sm, entries) = tree();
    let r = sm.drag_calc_positions(&entries, &[1], &[0, 1]).unwrap();
    assert_eq!(r.0.subs_id, 4);
    assert_eq!(r.1, 1);
    assert_eq!(r.2, 1);
}

#[test]
fn drag_behind_last_child_goes_first_into_folder() {
    let (mut sm, entries) = tree();
    let r = sm.drag_calc_positions(&entries, &[1], &[0, 2]).unwrap();
    assert_eq!(r.0.subs_id, 4);
    assert_eq!(r.1, 1);
    assert_eq!(r.2, 0);
}

#[test]
fn drag_below_last_entry_goes_after_it() {
    let (mut sm, entries) = tree();
    let r = sm.drag_calc_positions(&entries, &[0, 0], &[2]).unwrap();
    assert_eq!(r.0.subs_id, 2);
    assert_eq!(r.1, 0);
    assert_eq!(r.2, 2);
}

#[test]
fn drag_into_own_child_fails() {
    let (mut sm, entries) = tree();
    let r = sm.drag_calc_positions(&entries, &[0], &[0, 0]);
    assert!(r.is_err());
    assert!(!sm.check_paths(&entries));
}

#[test]
fn drag_onto_feed_child_path_fails() {
    let (mut sm, entries) = tree();
    // [1, 0] holds nothing; its parent [1] is a feed, not a folder
    let r = sm.drag_calc_positions(&entries, &[0, 0], &[1, 0]);
    assert!(r.is_err());
}

#[test]
fn drag_from_unknown_path_asks_for_path_check() {
    let (mut sm, entries) = tree();
    let r = sm.drag_calc_positions(&entries, &[7, 7], &[0]);
    assert_eq!(r.err(), Some("from_path=[7, 7]  Missing, check statemap".to_string()));
    assert!(sm.check_paths(&entries));
    assert!(!sm.check_paths(&entries));
}

#[test]
fn drag_move_inserts_and_renumbers() {
    let from = entry(4, 0, 1, false);
    let to_list = vec![entry(2, 1, 0, false), entry(3, 1, 1, false)];
    let ups = drag_move(&from, 1, 1, &to_list);
    assert_eq!(
        ups,
        vec![
            PositionUpdate { subs_id: 4, parent_subs_id: Some(1), folder_position: 1 },
            PositionUpdate { subs_id: 3, parent_subs_id: None, folder_position: 2 },
        ]
    );
}

#[test]
fn drag_move_down_in_same_folder_counts_one_less() {
    // entry 2 at position 0 dragged to position 2 of its own folder; the caller has parked it away
    let from = entry(2, 1, 0, false);
    let to_list = vec![entry(3, 1, 1, false), entry(5, 1, 2, false)];
    let ups = drag_move(&from, 1, 2, &to_list);
    assert_eq!(
        ups,
        vec![
            PositionUpdate { subs_id: 3, parent_subs_id: None, folder_position: 0 },
            PositionUpdate { subs_id: 2, parent_subs_id: Some(1), folder_position: 1 },
        ]
    );
}

#[test]
fn drag_move_beyond_the_end_appends() {
    let from = entry(9, 0, 0, false);
    let to_list = vec![entry(2, 1, 0, false)];
    let ups = drag_move(&from, 1, 40, &to_list);
    assert_eq!(ups, vec![PositionUpdate { subs_id: 9, parent_subs_id: Some(1), folder_position: 1 }]);
}

#[test]
fn resort_renumbers_gaps() {
    let children = vec![entry(2, 1, 0, false), entry(3, 1, 3, false), entry(5, 1, 7, false)];
    let ups = resort_parent_list(&children);
    assert_eq!(
        ups,
        vec![
            PositionUpdate { subs_id: 3, parent_subs_id: None, folder_position: 1 },
            PositionUpdate { subs_id: 5, parent_subs_id: None, folder_position: 2 },
        ]
    );
    assert!(resort_parent_list(&children[0..1]).is_empty());
}

#[test]
fn next_subscription_id() {
    assert_eq!(get_next_available_subscription_id(5, 3), 0);
    assert_eq!(get_next_available_subscription_id(15, 20), 21);
    assert_eq!(get_next_available_subscription_id(2, 10), 11);
    assert_eq!(get_next_available_subscription_id(15, 16), 17);
}

#[test]
fn folder_position_behind_siblings() {
    assert_eq!(next_folder_position(&[]), 0);
    let sib = vec![entry(2, 1, 4, false), entry(3, 1, 2, false)];
    assert_eq!(next_folder_position(&sib), 5);
}

#[test]
fn new_folder_entry() {
    let sib = vec![entry(2, 1, 0, false)];
    let f = add_new_folder_at_parent("News".to_string(), 1, &sib, 33, 8);
    assert_eq!(f.subs_id, 33);
    assert_eq!(f.parent_subs_id, 1);
    assert_eq!(f.folder_position, 1);
    assert!(f.is_folder && f.expanded);
    assert_eq!(f.display_name, "News");
    assert_eq!(f.icon_id, 8);
}

#[test]
fn new_subscription_entry_is_cleaned() {
    let (e, truncated) =
        add_new_subscription_at_parent(" https://a.org/feed \n".to_string(), " My \"Feed\" ".to_string(), 3, &[], 0, 5);
    assert!(!truncated);
    assert_eq!(e.url, "https://a.org/feed");
    assert_eq!(e.display_name, "My Feed");
    assert_eq!(e.parent_subs_id, 3);
    assert_eq!(e.folder_position, 0);
    assert!(!e.is_folder);
    assert_eq!(e.last_selected_msg, -1);
}

#[test]
fn new_subscription_with_non_iso_title_keeps_it() {
    let (e, truncated) = add_new_subscription_at_parent("u".to_string(), "Japan 無料ダウンロード".to_string(), 0, &[], 0, 5);
    assert!(truncated);
    assert_eq!(e.display_name, "Japan 無料ダウンロード");
}

#[test]
fn trash_and_delete_marks() {
    let (mut sm, entries) = tree();
    assert!(sm.move_subscription_to_trash(&entries).is_none());
    sm.set_delete_subscription_id(Some(3));
    let t = sm.move_subscription_to_trash(&entries).unwrap();
    assert_eq!(t.subs_id, 3);
    assert!(sm.move_subscription_to_trash(&entries).is_none());
    sm.set_fs_delete_id(Some(2));
    assert_eq!(sm.feedsource_delete(), Some(2));
    assert_eq!(sm.feedsource_delete(), None);
}

#[test]
fn new_parent_is_taken_once() {
    let (mut sm, _) = tree();
    assert_eq!(sm.add_new_subscription(), 0);
    sm.set_new_folder_parent_id(Some(1));
    assert_eq!(sm.add_new_subscription(), 1);
    assert_eq!(sm.add_new_folder(), 1);
    assert_eq!(sm.add_new_folder(), 0);
}

#[test]
fn paths_computed_from_the_store() {
    // folder 1 with feeds 2 and 5; feed 4 at the top; 6 under a missing parent
    let entries = vec![
        entry(1, 0, 0, true),
        entry(2, 1, 0, false),
        entry(4, 0, 1, false),
        entry(5, 1, 1, false),
        entry(6, 9, 0, false),
    ];
    let mut sm = SubscriptionMove::new();
    assert!(sm.check_paths(&entries));
    let st = sm.get_state_map();
    assert_eq!(st.get_tree_path(1), Some(vec![0]));
    assert_eq!(st.get_tree_path(2), Some(vec![0, 0]));
    assert_eq!(st.get_tree_path(4), Some(vec![1]));
    assert_eq!(st.get_tree_path(5), Some(vec![0, 1]));
    assert_eq!(st.get_tree_path(6), None);
    assert_eq!(st.get_id_by_path(&[0, 1]), Some(5));
    assert!(st.get_state(1).unwrap().status & 256 != 0);
    assert_eq!(st.get_state(2).unwrap().status & 512, 0);
    let mut sm2 = SubscriptionMove::new();
    sm2.update_cached_paths(&entries[..2]);
    assert_eq!(sm2.get_state_map().get_tree_path(2), Some(vec![0, 0]));
}
