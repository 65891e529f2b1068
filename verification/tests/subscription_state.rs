use grassfeed::db::subscription_state::ISubscriptionState;
use grassfeed::db::subscription_state::SubscriptionState;

// the group size of one scan; the application's own value lives in its resources
const SCAN_EMPTY_UNREAD_GROUP: usize = 10;

#[test]
fn t_scan_num_all_unread() {
    let lim: isize = SCAN_EMPTY_UNREAD_GROUP as isize;
    let mut ss = SubscriptionState::default();
    for a in 0..lim {
        ss.set_tree_path(a + 1, vec![a as u16], true);
    }
    ss.set_tree_path(lim + 3, vec![99], false);
    let r = ss.scan_num_all_unread(SCAN_EMPTY_UNREAD_GROUP);
    assert_eq!(r.len(), lim as usize);
    println!("scan: {:?}", r);
    assert!(r.contains(&(lim + 3, false)));
}

#[test]
fn path_lookup_takes_smallest_id() {
    let mut ss = SubscriptionState::new();
    ss.set_tree_path(7, vec![0, 1], false);
    ss.set_tree_path(3, vec![0, 1], false);
    ss.set_tree_path(5, vec![0], true);
    assert_eq!(ss.get_id_by_path(&[0, 1]), Some(3));
    assert_eq!(ss.get_id_by_path(&[0]), Some(5));
    assert_eq!(ss.get_id_by_path(&[1]), None);
}
