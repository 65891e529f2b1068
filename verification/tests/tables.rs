use grassfeed::db::errorentry::ErrorEntry;
use grassfeed::db::icon_row::CompressionType;
use grassfeed::db::icon_row::IconRow;
use grassfeed::db::message::MessageRow;
use grassfeed::db::sqlite_context::TableInfo;
use grassfeed::db::sqlite_context::Wrap;

#[test]
fn message_table() {
    assert_eq!(MessageRow::table_name(), "messages");
    assert_eq!(MessageRow::index_column_name(), "message_id");
    assert_eq!(
        MessageRow::create_string(),
        "message_id  INTEGER  PRIMARY KEY, feed_src_id  INTEGER, title  BLOB, post_id  text,  link  text, \
		is_deleted BOOLEAN, is_read BOOLEAN , fetch_date  INTEGER , entry_src_date INTEGER,   \
	 	content_text  BLOB, enclosure_url  text, author BLOB, categories BLOB,  \
		markers INTEGER  	"
    );
    assert_eq!(MessageRow::create_indices().len(), 2);
    let mut m = MessageRow::default();
    m.message_id = 4;
    m.subscription_id = 9;
    m.title = "T".to_string();
    m.markers = 3;
    let cols = m.get_insert_columns();
    let vals = m.get_insert_values();
    assert_eq!(cols.len(), vals.len());
    assert_eq!(cols[0], "feed_src_id");
    assert_eq!(cols[12], "markers");
    assert!(matches!(vals[0], Wrap::INT(9)));
    assert!(matches!(&vals[1], Wrap::STR(t) if t == "T"));
    assert!(matches!(vals[12], Wrap::U64(3)));
    assert_eq!(m.get_index_value(), 4);
}

#[test]
fn error_and_icon_tables() {
    assert_eq!(ErrorEntry::table_name(), "errors");
    assert_eq!(
        ErrorEntry::create_string(),
        "err_id  INTEGER  PRIMARY KEY, subs_id  INTEGER, e_src  INTEGER,  e_val  INTEGER , 
              date  INTEGER,   remote_address TEXT, err_text TEXT "
    );
    let mut e = ErrorEntry::default();
    e.err_id = 2;
    e.text = "boom".to_string();
    assert_eq!(e.get_insert_columns(), vec!["subs_id", "date", "e_src", "e_val", "remote_address", "err_text"]);
    assert!(matches!(&e.get_insert_values()[5], Wrap::STR(t) if t == "boom"));
    assert_eq!(e.get_index_value(), 2);

    assert_eq!(IconRow::table_name(), "icons");
    assert_eq!(IconRow::index_column_name(), "icon_id");
    let mut i = IconRow::default();
    i.compression_type = CompressionType::Web;
    assert_eq!(i.get_insert_columns()[4], "compression_type");
    assert!(matches!(i.get_insert_values()[4], Wrap::INT(1)));
    assert_eq!(IconRow::create_indices()[1], "CREATE INDEX IF NOT EXISTS idx_icon ON icons (icon) ; ");
}
