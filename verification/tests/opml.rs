use grassfeed::db::subscription_entry::SubscriptionEntry;
use grassfeed::opml::opmlreader::from_feed_source;
use grassfeed::opml::opmlreader::from_outline;
use grassfeed::opml::opmlreader::Outline;

#[test]
fn export_outline() {
    let mut e = SubscriptionEntry::default();
    e.display_name = "Heise".to_string();
    e.url = "https://www.heise.de/rss/heise-atom.xml".to_string();
    let o = from_feed_source(&e);
    assert_eq!(o.outline_type, Some("rss".to_string()));
    assert_eq!(o.text, "Heise");
    assert_eq!(o.title, Some("Heise".to_string()));
    assert_eq!(o.xml_url, Some(e.url.clone()));
    e.is_folder = true;
    assert_eq!(from_feed_source(&e).outline_type, Some("folder".to_string()));
}

#[test]
fn import_outline() {
    let mut o = Outline::default();
    o.text = "My \"Feed\"".to_string();
    o.xml_url = Some("https://a.org/rss".to_string());
    o.html_url = Some("https://a.org/".to_string());
    let e = from_outline(&o, 7, 3, 8, 5);
    assert_eq!(e.display_name, "My Feed");
    assert_eq!(e.url, "https://a.org/rss");
    assert_eq!(e.website_url, "https://a.org/");
    assert!(!e.is_folder);
    assert_eq!(e.icon_id, 5);
    assert_eq!(e.parent_subs_id, 7);
    assert_eq!(e.folder_position, 3);
    let mut f = Outline::default();
    f.html_url = Some("https://b.org/".to_string());
    f.outlines.push(Outline::default());
    let ef = from_outline(&f, 0, 0, 8, 5);
    assert!(ef.is_folder);
    assert_eq!(ef.icon_id, 8);
    assert_eq!(ef.url, "https://b.org/");
    assert_eq!(ef.website_url, "");
}
