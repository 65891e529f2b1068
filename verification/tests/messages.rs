use grassfeed::db::message::decompress;
use grassfeed::db::message::MessageRow;
use grassfeed::downloader::messages::feed_text_to_entries;
use grassfeed::downloader::messages::message_from_modelentry;
use grassfeed::downloader::messages::messages_from_entries;
use grassfeed::downloader::messages::parse_feed_entries;
use grassfeed::downloader::messages::strange_datetime_recover;
use grassfeed::downloader::messages::FeedEntry;
use grassfeed::downloader::messages::FeedMedia;
use grassfeed::util::db_time_to_display_nonnull;

fn first_message(text: &str) -> MessageRow {
    let (entries, _) = parse_feed_entries(text.as_bytes()).unwrap();
    message_from_modelentry(&entries[0]).0
}

fn blank_entry(id: &str) -> FeedEntry {
    FeedEntry {
        id: id.to_string(),
        title: None,
        updated: None,
        authors: Vec::new(),
        content: None,
        links: Vec::new(),
        summary: None,
        categories: Vec::new(),
        published: None,
        media: Vec::new(),
    }
}

#[test]
fn parse_convert_entry_content_simple() {
    let rss_str = r#" <?xml version="1.0" encoding="UTF-8"?>
 	        <rss   version="2.0"  xmlns:content="http://purl.org/rss/1.0/modules/content/" >
 	        <channel>
 	         <item>
 	            <title>Rama Dama</title>
 	              <description>Bereits sein Regie-Erstling war ein Hit</description>
 	              <content:encoded>Lorem1</content:encoded>
 	         </item>
 	        </channel>
 	        </rss>"#;
    let fce: MessageRow = first_message(rss_str);
    assert_eq!(fce.content_text, "Lorem1");
}

#[test]
fn parse_feed_with_namespaces() {
    let rss_str = r#" <?xml version="1.0" encoding="UTF-8"?>
 	        <rss xmlns:dc="http://purl.org/dc/elements/1.1/" xmlns:content="http://purl.org/rss/1.0/modules/content/" version="2.0">
 	        <channel>
 	            <title>Neu im Kino</title>
 	            <item>
 	              <title>Rama Dama</title>
 	              <dc:creator>Kino.de Redaktion</dc:creator>
 	              <content:encoded>Lorem2</content:encoded>
 				  <guid>1234</guid>
 	            </item>
 	        </channel>
 	        </rss>"#;
    let (entries, _) = parse_feed_entries(rss_str.as_bytes()).unwrap();
    let first_entry = &entries[0];
    assert!(!first_entry.authors.is_empty());
    assert_eq!(first_entry.authors[0], "Kino.de Redaktion");
    let fce: MessageRow = message_from_modelentry(first_entry).0;
    assert_eq!(fce.content_text, "Lorem2");
    assert_eq!(fce.post_id, "1234");
}

#[test]
fn message_from_modelentry_3() {
    let rsstext = r#" <?xml version="1.0" encoding="UTF-8"?>
 	<rss xmlns:dc="http://purl.org/dc/elements/1.1/" xmlns:content="http://purl.org/rss/1.0/modules/content/" version="2.0">
 	  <channel>
 	    <description>Alle neuen Filme in den deutschen Kinos</description>
 	    <language>de</language>
 	    <copyright>Copyright 2021 Kino.de</copyright>
 	    <title>Neu im Kino</title>
 	    <lastBuildDate>Wed, 10 Nov 2021 00:12:03 +0100</lastBuildDate>
 	    <link>https://www.kino.de/rss/stars</link>
 	    <item>
 	      <dc:creator>Kino.de Redaktion</dc:creator>
 	      <description>Bereits sein Regie-Erstling war ein Hit</description>
 	      <content:encoded>Felix Zeiler verbringt</content:encoded>
 	      <enclosure url="https://static.kino.de/rama-dama-1990-film-rcm1200x0u.jpg" type="image/jpeg" length="153553"/>
 	      <pubDate>Wed, 13 Oct 2021 12:00:00 +0200</pubDate>
 	      <title>Rama Dama</title>
 	      <link>https://www.kino.de/film/rama-dama-1990/</link>
 	      <guid isPermaLink="true">https://www.kino.de/film/rama-dama-1990/</guid>
 	    </item>
 	  </channel>
 	</rss>"#;
    let fce: MessageRow = first_message(rsstext);
    assert_eq!(fce.content_text, "Felix Zeiler verbringt");
    assert_eq!(
        fce.enclosure_url,
        "https://static.kino.de/rama-dama-1990-film-rcm1200x0u.jpg"
    );
}

#[test]
fn message_from_modelentry_4() {
    let rsstext = r#" <?xml version="1.0" encoding="UTF-8"?>
 		<?xml-stylesheet type="text/xsl" media="screen" href="/~d/styles/rss2enclosuresfull.xsl"?>
 		<?xml-stylesheet type="text/css" media="screen" href="http://feeds.feedburner.com/~d/styles/itemcontent.css"?>
 		<rss xmlns:media="http://search.yahoo.com/mrss/" xmlns:itunes="http://www.itunes.com/dtds/podcast-1.0.dtd" xmlns:feedburner="http://rssnamespace.org/feedburner/ext/1.0" version="2.0">
 		  <channel>
 		    <title>THE FINANCIAL ARMAGEDDON BLOG</title>
 		    <link>http://financearmageddon.blogspot.com/</link>
 		    <description>&lt;i&gt;&lt;small&gt;THE | ECONOMIC COLLAPSE  | FINANCIAL ARMAGEDDON |  MELTDOWN | BLOG  is digging for the Truth Deep Down the Rabbit Hole , in Order to Prepare to Survive &amp;amp; Thrive the coming &lt;b&gt;Financial Apocalypse&lt;/b&gt; &amp;amp; &lt;b&gt;Economic Collapse&lt;/b&gt; &amp;amp;  be Ready for The Resistance to Tyranny and The NWO ,  Minds are like parachutes.......They only function when they are Open so Free Your Mind and come on join the ride&lt;/small&gt;&lt;/i&gt;</description>
 		    <language>en</language>
 		    <lastBuildDate>Wed, 10 Nov 2021 14:51:28 PST</lastBuildDate>
 		<item>
 	      <title>Warning : A 2 Quadrillions Debt Bubble by 2030     https://youtu.be/x6lmb992L0Q</title>
 	      <link>http://feedproxy.google.com/~r/blogspot/cwWR/~3/wFtNHz9TStU/warning-2-quadrillions-debt-bubble-by.html</link>
 	      <author>noreply@blogger.com (Politico Cafe)</author>
 	      <pubDate>Mon, 01 Nov 2021 07:50:19 PDT</pubDate>
 	      <guid isPermaLink="false">tag:blogger.com,1999:blog-8964382413486690048.post-7263323075085527050</guid>
 	      <media:thumbnail url="https://img.youtube.com/vi/x6lmb992L0Q/default.jpg" height="72" width="72"/>
 	      <thr:total xmlns:thr="http://purl.org/syndication/thread/1.0">0</thr:total>
 	      <description>Warning : A 2 Quadrillions Debt Bubble by 2030     https://youtu.be/x6lmb992L0Q
 	Central Banks are the new  Feudalism.
 	All property is being concentrated into a few hands via Fiat and zero interest.
 	Serfdom is the endgame.
 	Central bankers were handed the Midas curse half a century...&lt;br/&gt;
 	&lt;br/&gt;
 	[[ This is a content summary only. Visit http://FinanceArmageddon.blogspot.com or  http://lindseywilliams101.blogspot.com  for full links, other content, and more! ]]&lt;img src="http://feeds.feedburner.com/~r/blogspot/cwWR/~4/wFtNHz9TStU" height="1" width="1" alt=""/&gt;</description>
 	      <feedburner:origLink>http://financearmageddon.blogspot.com/2021/11/warning-2-quadrillions-debt-bubble-by.html</feedburner:origLink>
 	    </item>
 	  </channel>
 	</rss>"#;
    let fce: MessageRow = first_message(rsstext);
    assert!(fce.content_text.len() > 10);
}

const NATURALNEWS: &str = r#"<?xml version="1.0" encoding="ISO-8859-1"?>
 <rss xmlns:dc="http://purl.org/dc/elements/1.1/" xmlns:itunes="http://www.itunes.com/dtds/podcast-1.0.dtd" version="2.0">
   <channel>
     <title>NaturalNews.com</title>
     <lastBuildDate>Wed, 22 Jun 2022 00:00:00 CST</lastBuildDate>
     <item>
       <title><![CDATA[RED ALERT: Entire U.S. supply of diesel engine oil may be wiped out in 8 weeks&#8230; no more oil until 2023 due to &#8220;Force Majeure&#8221; additive chemical shortages]]></title>
       <description><![CDATA[<table><tr><td><img src='wp-content/uploads/sites/91/2022/06/HRR-2022-06-22-Situation-Update_thumbnail.jpg' width='140' height='76' /></td><td valign='top'>(NaturalNews) <p> (Natural News)&#10; As if we all needed something else to add to our worries, a potentially catastrophic situation is emerging that threatens to wipe out the entire supply of diesel engine oil across the United States, leaving the country with no diesel engine oil until 2023.This isn't merely a rumor: We've confirmed this is &#x02026; [Read More...]</p></td></tr></table>]]></description>
       <author><![CDATA[Mike Adams]]></author>
       <pubDate>Wed, 22 Jun 2022  15:59:0 CST</pubDate>
       <link><![CDATA[https://www.naturalnews.com/2022-06-22-red-alert-entire-us-supply-of-diesel-engine-oil-wiped-out.html]]></link>
       <guid><![CDATA[https://www.naturalnews.com/2022-06-22-red-alert-entire-us-supply-of-diesel-engine-oil-wiped-out.html]]></guid>
     </item>
   </channel>
 </rss>     "#;

#[test]
fn from_modelentry_naturalnews_copy() {
    let fce: MessageRow = first_message(NATURALNEWS);
    println!(
        "entry_src_date={:?}   ",
        db_time_to_display_nonnull(fce.entry_src_date),
    );
    assert!(fce.content_text.len() > 10);
}

#[test]
fn naturalnews_date_recovered_from_text() {
    let (mut list, _ts, _err) = feed_text_to_entries(NATURALNEWS.to_string(), 5, "https://nn/".to_string());
    assert_eq!(list.len(), 1);
    let r = strange_datetime_recover(&mut list, NATURALNEWS);
    assert_eq!(r, None);
    assert!(!list[0].entry_invalid_pubdate);
    // Wed, 22 Jun 2022 15:59:00 -0600
    assert_eq!(list[0].entry_src_date, 1655935140);
}

#[test]
fn recover_reports_unreadable_date() {
    let mut m = MessageRow::default();
    m.entry_invalid_pubdate = true;
    m.entry_src_date = 7;
    let mut list = vec![m];
    let text = "<item>\n  <pubDate>no date at all</pubDate>\r\n</item>";
    let r = strange_datetime_recover(&mut list, text).unwrap();
    assert!(r.starts_with("Error parse_from_rfc2822(`no date at all`) "));
    assert!(list[0].entry_invalid_pubdate);
    assert_eq!(list[0].entry_src_date, 7);
}

#[test]
fn recover_leaves_valid_dates() {
    let mut m = MessageRow::default();
    m.entry_src_date = 7;
    let mut list = vec![m];
    let text = "<pubDate>Wed, 22 Jun 2022 15:59:00 +0000</pubDate>";
    assert_eq!(strange_datetime_recover(&mut list, text), None);
    assert_eq!(list[0].entry_src_date, 7);
    let mut empty: Vec<MessageRow> = Vec::new();
    assert_eq!(strange_datetime_recover(&mut empty, text), None);
}

#[test]
fn recover_pads_single_digit_seconds() {
    let mut m = MessageRow::default();
    m.entry_invalid_pubdate = true;
    let mut list = vec![m];
    let text = "  <pubDate>Wed, 22 Jun 2022 15:59:0 +0000</pubDate>  ";
    assert_eq!(strange_datetime_recover(&mut list, text), None);
    assert!(!list[0].entry_invalid_pubdate);
    assert_eq!(list[0].entry_src_date, 1655913540);
}

#[test]
fn entry_without_title_reports_error() {
    let mut e = blank_entry("id-7");
    e.authors = vec!["author".to_string(), "Ann".to_string(), "Bob".to_string()];
    e.categories = vec!["x".to_string(), "y".to_string()];
    e.summary = Some(String::new());
    e.links = vec![
        ("http://a/feed".to_string(), None, Some("application/rss+xml".to_string())),
        ("http://a/replies".to_string(), Some("replies".to_string()), None),
        ("http://a/post".to_string(), Some("alternate".to_string()), None),
    ];
    e.updated = Some(1000);
    let (m, err) = message_from_modelentry(&e);
    assert_eq!(err, "Message ID id-7 has no valid title.");
    assert_eq!(m.title, "id-7");
    assert_eq!(m.post_id, "id-7");
    assert_eq!(m.message_id, -1);
    assert_eq!(m.link, "http://a/post");
    assert_eq!(m.author, "Ann, Bob");
    assert_eq!(m.categories, "x, y");
    assert_eq!(m.entry_src_date, 1000);
    assert!(m.entry_invalid_pubdate);
    assert_eq!(m.content_text, "");
}

#[test]
fn media_gives_enclosure_and_text() {
    let mut e = blank_entry("m");
    e.title = Some("  A title  ".to_string());
    e.published = Some(42);
    e.content = Some((None, Some("http://src/".to_string())));
    e.media = vec![FeedMedia {
        content_urls: vec![
            Some(("https".to_string(), Some("img.example".to_string()), "/a.jpg".to_string())),
            Some(("file".to_string(), None, "/local".to_string())),
        ],
        description: Some(("text/plain".to_string(), "described".to_string())),
    }];
    let (m, err) = message_from_modelentry(&e);
    assert_eq!(err, "");
    assert_eq!(m.title, "A title");
    assert_eq!(m.enclosure_url, "https://img.example/a.jpg");
    assert_eq!(m.content_text, "described");
    assert_eq!(m.entry_src_date, 42);
    assert!(!m.entry_invalid_pubdate);
}

#[test]
fn stored_messages_are_compressed() {
    let mut e = blank_entry("k");
    e.title = Some("Title".to_string());
    e.summary = Some("Body".to_string());
    let (list, errs) = messages_from_entries(&vec![e, blank_entry("n")], 9);
    assert_eq!(list.len(), 2);
    assert_eq!(list[0].subscription_id, 9);
    assert_eq!(decompress(&list[0].title), "Title");
    assert_eq!(decompress(&list[0].content_text), "Body");
    assert_eq!(errs, "Message ID n has no valid title.");
}

#[test]
fn feed_text_parse_error_text() {
    let (list, ts, err) = feed_text_to_entries("not a feed".to_string(), 1, "http://x/".to_string());
    assert!(list.is_empty());
    assert_eq!(ts, 0);
    assert!(err.starts_with("Parsing: http://x/  length=10   "));
}

#[test]
fn feed_text_creation_time() {
    let text = r#"<?xml version="1.0"?><rss version="2.0"><channel><title>T</title>
    <lastBuildDate>Wed, 22 Jun 2022 15:59:00 +0000</lastBuildDate>
    <item><title>One</title><guid>g1</guid></item><item><title>Two</title><guid>g2</guid></item>
    </channel></rss>"#;
    let (list, ts, err) = feed_text_to_entries(text.to_string(), 3, "u".to_string());
    assert_eq!(list.len(), 2);
    assert_eq!(ts, 1655913540);
    assert_eq!(err, "");
    assert_eq!(decompress(&list[1].title), "Two");
    assert_eq!(list[1].post_id, "g2");
}
