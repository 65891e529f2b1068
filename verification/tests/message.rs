use grassfeed::db::message::MessageRow;
use grassfeed::downloader::db_clean::reduce_too_many_messages;
use grassfeed::db::message::compress;
use grassfeed::db::message::decompress;
use grassfeed::db::message::CompWrap;

#[test]
fn t_decompress() {
    let input = "8AFSU1MgVHV0b3JpYWwgdHdv";
    assert_eq!(decompress(input).as_str(), "RSS Tutorial two");
}

#[test]
fn compress_round_trip() {
    let c = compress("Hello grassfeed ÄÖÜ");
    assert_ne!(c.as_str(), "Hello grassfeed ÄÖÜ");
    assert_eq!(decompress(&c).as_str(), "Hello grassfeed ÄÖÜ");
}

#[test]
fn decompress_invalid_gives_empty() {
    assert_eq!(decompress("!!not base64!!").as_str(), "");
}

#[test]
fn compwrap_set_d_get() {
    let mut cw = CompWrap(String::new(), None);
    cw.set_d(String::from("title one"));
    assert_eq!(cw.get_decompressed().as_str(), "title one");
    assert_eq!(cw.get_d().as_str(), "title one");
    let mut cw2 = CompWrap(cw.0.clone(), None);
    assert_eq!(cw2.get_d().as_str(), "title one");
    assert_eq!(cw2.1, Some(String::from("title one")));
}

fn dated(id: isize, date: i64, read: bool, deleted: bool, fav: bool) -> MessageRow {
    let mut m = MessageRow::default();
    m.message_id = id;
    m.entry_src_date = date;
    m.is_read = read;
    m.is_deleted = deleted;
    if fav {
        m.set_favorite(true);
    }
    m
}

#[test]
fn reduce_keeps_the_newest() {
    let msgs = vec![
        dated(1, 100, false, false, false),
        dated(2, 300, true, false, false),
        dated(3, 200, false, false, false),
        dated(4, 100, false, false, true),
        dated(5, 50, false, false, false),
        dated(6, 300, false, true, false),
    ];
    let (need, removed, all, unread) = reduce_too_many_messages(&msgs, 3);
    // newest first: 2, 6 (same date, given order), 3 stay; 1, 4 (favorite), 5 go
    assert!(need);
    assert_eq!(removed, vec![1, 5]);
    assert_eq!(all, 2);
    assert_eq!(unread, 1);
}

#[test]
fn reduce_nothing_to_cut() {
    let msgs = vec![dated(1, 100, false, false, false), dated(2, 200, true, false, false)];
    assert_eq!(reduce_too_many_messages(&msgs, 5), (false, Vec::new(), 2, 1));
    // only favorites beyond the limit
    let msgs = vec![dated(1, 100, false, false, true), dated(2, 200, true, false, false)];
    assert_eq!(reduce_too_many_messages(&msgs, 1), (false, Vec::new(), 2, 1));
}
