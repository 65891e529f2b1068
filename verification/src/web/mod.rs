pub mod httpfetcher;
pub mod mockfilefetcher;

use vstd::prelude::*;

verus! {

/// Fetches the text or the bytes behind a URL.
pub trait IHttpRequester {
    fn request_url(&self, url: &str) -> HttpGetResult;
    fn request_url_bin(&self, url: &str) -> HttpGetResult;
}

/// What a fetch brought back.
#[derive(Debug)]
pub struct HttpGetResult {
    pub http_status: i16,
    pub http_err_val: i16,
    pub content: String,
    pub content_bin: Vec<u8>,
    pub error_description: String,
    pub timestamp: i64,
    pub content_length: i64,
}

impl Default for HttpGetResult {
    /// Status 0, no error, empty content, timestamps 0.
    fn default() -> (r: HttpGetResult)
        ensures
            r.http_status == 0 && r.http_err_val == 0 && r.timestamp == 0 && r.content_length == 0,
            r.content@ == Seq::<char>::empty() && r.content_bin@ == Seq::<u8>::empty(),
            r.error_description@ == Seq::<char>::empty(),
    {
        HttpGetResult {
            http_status: 0,
            http_err_val: 0,
            content: String::new(),
            content_bin: Vec::new(),
            error_description: String::new(),
            timestamp: 0,
            content_length: 0,
        }
    }
}

} // verus!
