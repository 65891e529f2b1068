use grassfeed::downloader::browserdrag::extract_feed_urls_sloppy;
use grassfeed::downloader::icons::decide_downscale;
use grassfeed::downloader::icons::icon_analyser;
use grassfeed::downloader::icons::IconAnalyseResult;
use grassfeed::downloader::icons::IconKind;
use grassfeed::downloader::icons::IsIconResult;
use grassfeed::downloader::util::compress_vec_to_string;
use grassfeed::downloader::util::extract_feed_from_website;
use grassfeed::downloader::util::extract_feed_from_website_checked;
use grassfeed::downloader::util::extract_icon_from_homepage;
use grassfeed::downloader::util::extract_icon_from_homepage_checked;
use grassfeed::downloader::util::feed_url_to_icon_url;
use grassfeed::downloader::util::feed_url_to_icon_url_checked;
use grassfeed::downloader::util::feed_url_to_main_url;
use grassfeed::downloader::util::feed_url_to_main_url_checked;
use grassfeed::downloader::util::go_to_homepage;
use grassfeed::downloader::util::go_to_homepage_checked;
use grassfeed::downloader::util::retrieve_homepage_from_feed_text;
use grassfeed::downloader::util::workaround_https_declaration;

#[test]
fn sloppy_finds_rss_links() {
    let page = "<html><head><link rel=\"alternate\" type=\"application/rss+xml\" href=\"https://x.org/feed\"><link rel=\"stylesheet\" href=\"/s.css\"></head></html>";
    assert_eq!(extract_feed_urls_sloppy(page), vec!["https://x.org/feed".to_string()]);
}

#[test]
fn sloppy_takes_first_href_and_text_after_first_equals() {
    let page = "<link type=rss hreflang=en href=a=b.xml>\n<link rss>";
    assert_eq!(extract_feed_urls_sloppy(page), vec!["en".to_string()]);
    let page2 = "x <link rss href=\"/f?a=b\">";
    assert_eq!(extract_feed_urls_sloppy(page2), vec!["/f?a=b".to_string()]);
    assert!(extract_feed_urls_sloppy("no links here").is_empty());
}

#[test]
fn icon_too_small() {
    let r = icon_analyser(&[1, 2, 3]);
    assert_eq!(r.kind, IconKind::TooSmall);
    assert_eq!(r.message, "too small, length:3 ");
}

#[test]
fn icon_unknown_bytes_collect_messages() {
    let r = icon_analyser(&[0u8; 40]);
    assert_eq!(r.kind, IconKind::AnalyseDoneUnknown);
    assert!(r.message.starts_with(" not_jpg"));
    assert!(r.message.contains("not_png"));
    for prefix in ["not_jpg: ", "not_png: ", "not_ico: ", "not_gif: ", "not_webp: ", "not_bmp: ", "not_svg: "] {
        assert!(r.message.contains(prefix), "{prefix}");
    }
}

#[test]
fn icon_png_with_size() {
    let mut buf: Vec<u8> = Vec::new();
    {
        let mut enc = png::Encoder::new(&mut buf, 2, 3);
        enc.set_color(png::ColorType::Rgba);
        enc.set_depth(png::BitDepth::Eight);
        let mut w = enc.write_header().unwrap();
        w.write_image_data(&[200u8; 2 * 3 * 4]).unwrap();
    }
    let r = icon_analyser(&buf);
    assert_eq!(r.kind, IconKind::Png);
    assert_eq!(r.width_orig, 2);
    assert_eq!(r.height_orig, 3);
    assert!(!decide_downscale(buf.len(), &r, 10000));
    assert!(decide_downscale(buf.len(), &r, 10));
}

#[test]
fn icon_result_constructors() {
    let r = IconAnalyseResult::with_msg(IconKind::Bmp, "m".to_string());
    assert_eq!(r.kind, IconKind::Bmp);
    assert_eq!(r.message, "m");
    let r2 = IconAnalyseResult::new(IconKind::Webp);
    assert!(decide_downscale(1, &r2, 10));
    let r3 = IconAnalyseResult::new(IconKind::AnalyseDoneUnknown);
    assert!(!decide_downscale(100, &r3, 10));
    assert_eq!(IsIconResult::NotWebp.code(), 64);
    assert_eq!(IsIconResult::IsIcon.code(), 0);
}

#[test]
fn homepage_of_urls() {
    assert_eq!(
        go_to_homepage(&"https://www.example.com/some/path?x=1".to_string()),
        Some("https://www.example.com".to_string())
    );
    assert_eq!(go_to_homepage(&"no url".to_string()), None);
    assert_eq!(go_to_homepage_checked(&"mailto:a@b.c".to_string()), None);
    assert_eq!(feed_url_to_main_url("http://localhost:8080/feed.xml".to_string()), "http://localhost:8080");
    assert_eq!(feed_url_to_main_url("https://a.org/x".to_string()), "https://a.org");
    assert_eq!(feed_url_to_main_url("::".to_string()), "");
    assert_eq!(feed_url_to_icon_url("https://a.org:8443/rss".to_string()), "https://a.org:8443/favicon.ico");
    assert_eq!(feed_url_to_icon_url_checked("mailto:a@b.c".to_string()), None);
    assert_eq!(feed_url_to_main_url_checked("https://a.org/x".to_string()), Some("https://a.org".to_string()));
}

#[test]
fn compressed_icon_text() {
    let data = b"hello hello hello hello";
    #[allow(deprecated)]
    let expected = base64::encode(lz4_compression::prelude::compress(data));
    assert_eq!(compress_vec_to_string(data), expected);
}

#[test]
fn atom_namespace_workaround() {
    assert_eq!(
        workaround_https_declaration("<feed xmlns=\"https://www.w3.org/2005/Atom\">".to_string()),
        "<feed xmlns=\"http://www.w3.org/2005/Atom\">"
    );
}

#[test]
fn icon_from_homepage() {
    let hp = "<html><head><link rel=\"stylesheet\" href=\"a.css\"><link rel=\"shortcut icon\" href=\"/fav.png\"></head></html>".to_string();
    assert_eq!(
        extract_icon_from_homepage(hp.clone(), &"https://site.org/blog/".to_string()),
        Ok("https://site.org/fav.png".to_string())
    );
    let hp2 = "<link rel=\"icon\" type=\"image/png\" href=\"img/i.png\">".to_string();
    assert_eq!(
        extract_icon_from_homepage(hp2, &"https://site.org/blog/".to_string()),
        Ok("https://site.org/blog/img/i.png".to_string())
    );
    let hp3 = "<link rel=\"icon\" href=\"//cdn.x/i.ico\">".to_string();
    assert_eq!(
        extract_icon_from_homepage(hp3, &"https://site.org/".to_string()),
        Ok("https://cdn.x/i.ico".to_string())
    );
    let hp4 = "<link rel=\"icon\" type=\"text/css\" href=\"x.ico\">".to_string();
    assert_eq!(
        extract_icon_from_homepage(hp4, &"https://site.org/".to_string()),
        Err("no rel_icon  on page  found".to_string())
    );
    assert_eq!(extract_icon_from_homepage_checked(hp, &"mailto:a@b.c".to_string()), None);
}

#[test]
fn feed_from_website() {
    let page = "<link rel=\"alternate\" type=\"application/rss+xml\" href=\"/comments/feed\"><link rel=\"alternate\" type=\"application/atom+xml\" href=\"/feed.xml\">".to_string();
    assert_eq!(
        extract_feed_from_website(&page, "https://site.org/a/b"),
        Ok("https://site.org/feed.xml".to_string())
    );
    let none = "<link rel=\"stylesheet\" href=\"a.css\">".to_string();
    assert_eq!(
        extract_feed_from_website(&none, "https://site.org/"),
        Err("no feed url found".to_string())
    );
    let stuck = "<link rel=\"alternate\" type=\"application/rss+xml\">".to_string();
    assert_eq!(extract_feed_from_website_checked(&stuck, "https://site.org/"), None);
    assert_eq!(
        extract_feed_from_website_checked(&page, "https://site.org/"),
        Some(Ok("https://site.org/feed.xml".to_string()))
    );
}

#[test]
fn homepage_from_feed() {
    let rss = "<?xml version=\"1.0\"?><rss version=\"2.0\"><channel><title>T</title><link>https://site.org/</link><description>d</description></channel></rss>";
    assert_eq!(
        retrieve_homepage_from_feed_text(rss.as_bytes(), "https://site.org/rss"),
        Ok(("https://site.org/".to_string(), "T".to_string()))
    );
    let r = retrieve_homepage_from_feed_text(b"garbage", "u");
    assert!(r.unwrap_err().starts_with("Parsing: \"u\" Some("));
}
