use grassfeed::controller::contentlist::fill_state_map;
use grassfeed::db::message::compress;
use grassfeed::db::message::MessageRow;
use grassfeed::controller::contentlist::cursor_target;
use grassfeed::db::message_state::MessageStateMap;
use grassfeed::controller::contentlist::{filter_messages, move_list_cursor, set_messages_filter, ListMoveCommand, TitleFilter};

#[test]
fn t_find_unread_message_window() {
    let mut msm = MessageStateMap::default();
    let lim = 7;
    for a in 0..lim {
        msm.insert(
            a + 1,
            a > 1 && a < 5,
            a + 100,
            (a as i64) * 10000000,
            String::default(),
            0,
        );
    }
    assert_eq!(msm.find_unread_message(4, true), Some(2));
    assert_eq!(msm.find_unread_message(4, false), Some(6));
}

#[test]
fn t_find_unread_message_simple() {
    let mut msm = MessageStateMap::default();
    for a in 0..3 {
        msm.insert(
            a + 1,
            true,
            a + 100,
            (a as i64) * 10000000,
            String::default(),
            0,
        );
    }
    assert_eq!(msm.find_unread_message(0, false), None);
    assert_eq!(msm.find_unread_message(10, true), None);
    assert_eq!(msm.find_unread_message(1, false), None);
    assert_eq!(msm.find_unread_message(1, true), None);
}

#[test]
fn t_find_before_last_unread() {
    let mut msm = MessageStateMap::default();
    let lim = 7;
    for a in 0..lim {
        msm.insert(
            a + 1,
            (a < 2) || (a > 3 && a < 5),
            a + 100,
            (a as i64) * 10000000,
            String::default(),
            0,
        );
    }
    let o_last_read = msm.find_before_earliest_unread();
    assert_eq!(o_last_read, Some(2));
}

#[test]
fn t_find_neighbour_message() {
    let mut msm = MessageStateMap::default();
    let lim = 7;
    for a in 0..lim {
        msm.insert(
            a + 1,
            (a < 2) || (a > 3 && a < 5),
            a + 100,
            (1 + a as i64) * 10000000,
            String::default(),
            0,
        );
    }
    let o_neigh = msm.find_neighbour_message(&[4, 5]);
    assert_eq!(o_neigh, Some((3, 103)))
}

#[test]
fn cursor_by_focus_policy() {
    let mut msm = MessageStateMap::default();
    msm.insert(1, true, 0, 100, String::default(), 0);
    msm.insert(2, true, 1, 300, String::default(), 0);
    msm.insert(3, false, 2, 200, String::default(), 0);
    assert_eq!(cursor_target(1, Some(5), &msm), Some(-1));
    assert_eq!(cursor_target(2, Some(5), &msm), Some(5));
    assert_eq!(cursor_target(2, Some(0), &msm), None);
    assert_eq!(cursor_target(2, None, &msm), None);
    assert_eq!(cursor_target(3, None, &msm), Some(2));
    assert_eq!(cursor_target(4, None, &msm), Some(1));
    assert_eq!(cursor_target(0, Some(5), &msm), None);
    let empty = MessageStateMap::default();
    assert_eq!(cursor_target(3, None, &empty), None);
    assert_eq!(cursor_target(4, None, &empty), None);
}

#[test]
fn state_filled_from_rows() {
    let mut msm = MessageStateMap::default();
    msm.insert(99, true, 0, 1, String::default(), 0);
    let mut a = MessageRow::default();
    a.message_id = 5;
    a.title = compress("First");
    a.entry_src_date = 100;
    let mut b = MessageRow::default();
    b.message_id = 6;
    b.is_read = true;
    b.subscription_id = 3;
    fill_state_map(&mut msm, &[a, b]);
    assert!(!msm.contains(99));
    assert_eq!(msm.get_gui_pos(5), 0);
    assert_eq!(msm.get_gui_pos(6), 1);
    assert_eq!(msm.get_title(5), Some("First".to_string()));
    assert_eq!(msm.get_title(6), Some(String::new()));
    assert!(msm.get_isread(6));
    assert_eq!(msm.get_subscription_ids(&[6]), vec![3]);
}

fn row_with_id(id: isize) -> MessageRow {
    let mut r = MessageRow::default();
    r.message_id = id;
    r
}

#[test]
fn t_filter_messages_by_title() {
    let mut msm = MessageStateMap::default();
    msm.insert(1, false, 0, 10, compress("Rust Weekly News"), 5);
    msm.insert(2, false, 1, 20, compress("Gardening tips"), 5);
    msm.insert(3, false, 2, 30, compress("a.b.c (rust)"), 5);
    let rows = vec![row_with_id(1), row_with_id(2), row_with_id(3), row_with_id(4)];
    let f = TitleFilter::new("RUST").unwrap();
    let kept: Vec<isize> = filter_messages(&f, &msm, &rows).iter().map(|m| m.message_id).collect();
    // case is ignored; a message without a known title stays
    assert_eq!(kept, vec![1, 3, 4]);
    let f = TitleFilter::new("a.b").unwrap();
    let kept: Vec<isize> = filter_messages(&f, &msm, &rows).iter().map(|m| m.message_id).collect();
    // the text is taken literally: the dot is no wildcard
    assert_eq!(kept, vec![3, 4]);
}

#[test]
fn t_set_messages_filter() {
    let mut f: Option<String> = None;
    set_messages_filter(&mut f, "  news \t");
    assert_eq!(f, Some("news".to_string()));
    set_messages_filter(&mut f, "   ");
    assert_eq!(f, None);
}

#[test]
fn t_move_list_cursor() {
    let mut msm = MessageStateMap::default();
    for a in 0..7 {
        msm.insert(a + 1, a > 1 && a < 5, a + 100, (a as i64) * 10000000, String::default(), 0);
    }
    assert_eq!(move_list_cursor(ListMoveCommand::LaterUnreadMessage, 5, &[4, 1], &msm), Some(2));
    assert_eq!(move_list_cursor(ListMoveCommand::PreviousUnreadMessage, 5, &[4], &msm), Some(6));
    assert_eq!(move_list_cursor(ListMoveCommand::Stay, 5, &[4], &msm), None);
    assert_eq!(move_list_cursor(ListMoveCommand::LaterUnreadMessage, 0, &[4], &msm), None);
    assert_eq!(move_list_cursor(ListMoveCommand::LaterUnreadMessage, 5, &[], &msm), None);
}

#[test]
fn t_title_filter_builds_for_plain_text() {
    assert!(TitleFilter::new("").is_some());
    assert!(TitleFilter::new("(unbalanced [ text").is_some());
}
