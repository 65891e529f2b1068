use grassfeed::web::mockfilefetcher::local_file_path;
use grassfeed::web::httpfetcher::HttpFetcher;
use grassfeed::web::IHttpRequester;

fn prep_fetcher() -> impl IHttpRequester {
    HttpFetcher {}
}

#[test]
fn test_local404() {
    let r = prep_fetcher().request_url("http://localhost::8123/nothing");
    assert_eq!(r.http_err_val, 1);
    assert!(r.error_description.contains("InvalidUrl"));
}

#[test]
fn local_files_for_addresses() {
    assert_eq!(local_file_path("/tmp/f/", "http://localhost/a.xml"), "/tmp/f/a.xml");
    assert_eq!(local_file_path("/b/", "x.rss"), "/b/x.rss");
    assert_eq!(local_file_path("", "http://localhost/"), "");
}

