use vstd::prelude::*;
use crate::db::sqlite_context::{TableInfo, Wrap};
use crate::text::texts_of;

verus! {

/// Bit of `MessageRow::markers` that flags a favorite message.
pub const MARKERS_FAVORITE: u64 = 1;

// ---- names for what the outside codecs compute

/// The bytes that the standard base64 alphabet (with padding) decodes `text` into, or `None`
/// where `text` is no valid base64.
pub uninterp spec fn base64_decoded(text: Seq<char>) -> Option<Seq<u8>>;

/// The standard base64 text (with padding) of `data`.
pub uninterp spec fn base64_encoded(data: Seq<u8>) -> Seq<char>;

/// The bytes that an LZ4 block in `data` decompresses into, or `None` where `data` is no
/// valid block.
pub uninterp spec fn lz4_decompressed(data: Seq<u8>) -> Option<Seq<u8>>;

/// The LZ4 block that compresses `data`.
pub uninterp spec fn lz4_compressed(data: Seq<u8>) -> Seq<u8>;

/// A character of the standard base64 alphabet, or the padding `=`.
pub open spec fn base64_symbol(c: char) -> bool {
    ('A' <= c <= 'Z') || ('a' <= c <= 'z') || ('0' <= c <= '9') || c == '+' || c == '/' || c == '='
}

/// Decodes base64 text.
///
/// Calls `base64::decode` (standard alphabet, padding required). Its result is named by
/// `base64_decoded`; an error of the crate becomes `None`. The contract also claims what
/// the crate's decoder shows: a byte outside the alphabet and the padding is an error.
#[verifier::external_body]
fn base64_decode(text: &str) -> (r: Option<Vec<u8>>)
    ensures
        match r {
            Some(v) => base64_decoded(text@) == Some(v@),
            None => base64_decoded(text@) is None,
        },
        (exists|i: int| 0 <= i < text@.len() && !base64_symbol(#[trigger] text@[i])) ==> r is None,
{
    #[allow(deprecated)]
    match base64::decode(text) {
        Ok(v) => Some(v),
        Err(_) => None,
    }
}

/// Encodes bytes as base64 text.
///
/// Calls `base64::encode` (standard alphabet, with padding). Its result is named by
/// `base64_encoded`; the contract also claims what the crate documents and tests as its
/// round trip: decoding the text gives the bytes back.
#[verifier::external_body]
pub(crate) fn base64_encode(data: &[u8]) -> (r: String)
    ensures
        r@ == base64_encoded(data@),
        base64_decoded(r@) == Some(data@),
{
    #[allow(deprecated)]
    base64::encode(data)
}

/// Decompresses an LZ4 block.
///
/// Calls `lz4_compression::prelude::decompress`. Its result is named by `lz4_decompressed`;
/// an error of the crate becomes `None`.
#[verifier::external_body]
fn lz4_decompress(data: &[u8]) -> (r: Option<Vec<u8>>)
    ensures
        match r {
            Some(v) => lz4_decompressed(data@) == Some(v@),
            None => lz4_decompressed(data@) is None,
        },
{
    match lz4_compression::prelude::decompress(data) {
        Ok(v) => Some(v),
        Err(_) => None,
    }
}

/// Compresses bytes into an LZ4 block.
///
/// Calls `lz4_compression::prelude::compress`. Its result is named by `lz4_compressed`;
/// the contract also claims the round trip that the crate's own tests check: decompressing
/// the block gives the bytes back.
#[verifier::external_body]
pub(crate) fn lz4_compress(data: &[u8]) -> (r: Vec<u8>)
    ensures
        r@ == lz4_compressed(data@),
        lz4_decompressed(r@) == Some(data@),
{
    lz4_compression::prelude::compress(data)
}

/// Turns bytes into a string where they are valid UTF-8.
///
/// Calls `String::from_utf8`, documented to succeed exactly on valid UTF-8, keeping the
/// characters that the bytes encode.
#[verifier::external_body]
fn utf8_to_string(bytes: Vec<u8>) -> (r: Option<String>)
    ensures
        r is Some <==> vstd::utf8::valid_utf8(bytes@),
        r matches Some(s) ==> s@ == vstd::utf8::decode_utf8(bytes@),
{
    match String::from_utf8(bytes) {
        Ok(s) => Some(s),
        Err(_) => None,
    }
}

/// What `decompress` gives for stored text: base64, then LZ4, then UTF-8; the empty text
/// where a step fails.
pub open spec fn decompressed(text: Seq<char>) -> Seq<char> {
    match base64_decoded(text) {
        Some(b) => match lz4_decompressed(b) {
            Some(u) => if vstd::utf8::valid_utf8(u) {
                vstd::utf8::decode_utf8(u)
            } else {
                Seq::empty()
            },
            None => Seq::empty(),
        },
        None => Seq::empty(),
    }
}

/// What `compress` stores for a text: its UTF-8 bytes, LZ4-compressed, base64-encoded.
pub open spec fn compressed(text: Seq<char>) -> Seq<char> {
    base64_encoded(lz4_compressed(vstd::utf8::encode_utf8(text)))
}

/// Decodes base64, decompresses, and reads the bytes as UTF-8; the empty string where
/// any step fails.
pub fn decompress(compr_b64: &str) -> (r: String)
    ensures
        r@ == decompressed(compr_b64@),
        (exists|i: int| 0 <= i < compr_b64@.len() && !base64_symbol(#[trigger] compr_b64@[i])) ==> r@.len() == 0,
{
    match base64_decode(compr_b64) {
        Some(buffer) => match lz4_decompress(buffer.as_slice()) {
            Some(vec_u8) => match utf8_to_string(vec_u8) {
                Some(s) => s,
                None => String::new(),
            },
            None => String::new(),
        },
        None => String::new(),
    }
}

/// Compresses the text's UTF-8 bytes, then encodes them as base64.
/// Decompressing the result gives the text back.
pub fn compress(uncompressed: &str) -> (r: String)
    ensures
        r@ == compressed(uncompressed@),
        decompressed(r@) == uncompressed@,
{
    let bytes = uncompressed.as_bytes();
    let compressed_data = lz4_compress(bytes);
    let r = base64_encode(compressed_data.as_slice());
    proof {
        vstd::utf8::encode_utf8_valid_utf8(uncompressed@);
        vstd::utf8::encode_utf8_decode_utf8(uncompressed@);
    }
    r
}

/// A stored text (compressed, as in the database) and, once computed, its decompressed form.
#[derive(Debug)]
pub struct CompWrap(pub String, pub Option<String>);

impl CompWrap {
    /// Replaces the compressed text; the cached display text stays.
    pub fn set(&mut self, s: String)
        ensures
            final(self).0@ == s@,
            final(self).1 == old(self).1,
    {
        self.0 = s;
    }

    /// The display text: the cached one, or else the decompressed text, which is then cached.
    pub fn get_d(&mut self) -> (r: String)
        ensures
            match old(self).1 {
                Some(c) => r@ == c@ && final(self).1 == old(self).1,
                None => r@ == decompressed(old(self).0@) && (final(self).1 matches Some(c)
                    && c@ == r@),
            },
            final(self).0 == old(self).0,
    {
        match &self.1 {
            Some(c) => c.clone(),
            None => {
                let d = decompress(self.0.as_str());
                let r = d.clone();
                self.1 = Some(d);
                r
            },
        }
    }

    /// The decompressed stored text; the cache is not touched.
    pub fn get_decompressed(&self) -> (r: String)
        ensures
            r@ == decompressed(self.0@),
    {
        decompress(self.0.as_str())
    }

    /// Stores the compressed form of `s` and caches `s` as display text.
    /// Decompressing what is stored gives `s` back.
    pub fn set_d(&mut self, s: String)
        ensures
            final(self).0@ == compressed(s@),
            decompressed(final(self).0@) == s@,
            final(self).1 == Some(s),
    {
        self.0 = compress(s.as_str());
        self.1 = Some(s);
    }
}

/// Whether the favorite bit is set in `markers`.
pub open spec fn is_favorite_marker(markers: u64) -> bool {
    markers & MARKERS_FAVORITE > 0
}

/// The content of one feed item: title, link, read flag, dates, text, and so on.
#[derive(Clone, Debug)]
pub struct MessageRow {
    pub message_id: isize,
    pub subscription_id: isize,
    /// compressed, as in the database
    pub title: String,
    /// individual id of each item
    pub post_id: String,
    pub link: String,
    pub is_deleted: bool,
    pub is_read: bool,
    /// when it was requested
    pub fetch_date: i64,
    /// when it was created or modified
    pub entry_src_date: i64,
    /// the publication date was missing or malformed
    pub entry_invalid_pubdate: bool,
    /// delivered display text, in html
    pub content_text: String,
    pub enclosure_url: String,
    pub author: String,
    pub categories: String,
    pub markers: u64,
    /// a copy of the decompressed title, for sorting
    pub title_d: Option<String>,
}

/// All fields hold their default values, but for the id and the fetch date.
pub open spec fn is_blank_row(r: MessageRow) -> bool {
    &&& r.subscription_id == 0
    &&& r.title@ == Seq::<char>::empty()
    &&& r.post_id@ == Seq::<char>::empty()
    &&& r.link@ == Seq::<char>::empty()
    &&& !r.is_deleted
    &&& !r.is_read
    &&& r.entry_src_date == 0
    &&& !r.entry_invalid_pubdate
    &&& r.content_text@ == Seq::<char>::empty()
    &&& r.enclosure_url@ == Seq::<char>::empty()
    &&& r.author@ == Seq::<char>::empty()
    &&& r.categories@ == Seq::<char>::empty()
    &&& r.markers == 0
    &&& r.title_d is None
}

/// The row with its markers replaced.
pub open spec fn with_markers(r: MessageRow, m: u64) -> MessageRow {
    MessageRow { markers: m, ..r }
}

impl MessageRow {
    /// A copy of this row.
    pub fn duplicate(&self) -> (r: MessageRow)
        ensures
            r == *self,
    {
        MessageRow {
            message_id: self.message_id,
            subscription_id: self.subscription_id,
            title: self.title.clone(),
            post_id: self.post_id.clone(),
            link: self.link.clone(),
            is_deleted: self.is_deleted,
            is_read: self.is_read,
            fetch_date: self.fetch_date,
            entry_src_date: self.entry_src_date,
            entry_invalid_pubdate: self.entry_invalid_pubdate,
            content_text: self.content_text.clone(),
            enclosure_url: self.enclosure_url.clone(),
            author: self.author.clone(),
            categories: self.categories.clone(),
            markers: self.markers,
            title_d: match &self.title_d {
                Some(t) => Some(t.clone()),
                None => None,
            },
        }
    }

    /// A blank row without an id (-1), fetched now.
    pub fn new() -> (r: MessageRow)
        ensures
            r.message_id == -1,
            is_blank_row(r),
    {
        let mut r = MessageRow::default();
        r.message_id = -1;
        r.fetch_date = crate::util::timestamp_now();
        r
    }

    /// Whether the favorite marker is set.
    pub fn is_favorite(&self) -> (r: bool)
        ensures
            r == is_favorite_marker(self.markers),
    {
        self.markers & MARKERS_FAVORITE > 0
    }

    /// Sets or clears the favorite marker; the other markers stay.
    pub fn set_favorite(&mut self, n: bool)
        ensures
            *final(self) == with_markers(*old(self), final(self).markers),
            is_favorite_marker(final(self).markers) == n,
            final(self).markers & !MARKERS_FAVORITE == old(self).markers & !MARKERS_FAVORITE,
    {
        let m = self.markers;
        if n {
            self.markers = m | MARKERS_FAVORITE;
            assert((m | 1u64) & 1u64 > 0 && (m | 1u64) & !1u64 == m & !1u64) by (bit_vector);
        } else {
            self.markers = m & !MARKERS_FAVORITE;
            assert(!((m & !1u64) & 1u64 > 0) && (m & !1u64) & !1u64 == m & !1u64) by (bit_vector);
        }
    }
}

impl Default for MessageRow {
    /// A blank row: id 0, dates 0, empty texts, no markers.
    fn default() -> (r: MessageRow)
        ensures
            r.message_id == 0,
            r.fetch_date == 0,
            is_blank_row(r),
    {
        MessageRow {
            message_id: 0,
            subscription_id: 0,
            title: String::new(),
            post_id: String::new(),
            link: String::new(),
            is_deleted: false,
            is_read: false,
            fetch_date: 0,
            entry_src_date: 0,
            entry_invalid_pubdate: false,
            content_text: String::new(),
            enclosure_url: String::new(),
            author: String::new(),
            categories: String::new(),
            markers: 0,
            title_d: None,
        }
    }
}

impl TableInfo for MessageRow {
    fn table_name() -> (r: String)
        ensures
            r@ == "messages"@,
    {
        "messages".to_string()
    }

    fn create_string() -> (r: String)
        ensures
            r@ == "message_id  INTEGER  PRIMARY KEY, feed_src_id  INTEGER, title  BLOB, post_id  text,  link  text, is_deleted BOOLEAN, is_read BOOLEAN , fetch_date  INTEGER , entry_src_date INTEGER,   content_text  BLOB, enclosure_url  text, author BLOB, categories BLOB,  markers INTEGER  \t"@,
    {
        "message_id  INTEGER  PRIMARY KEY, feed_src_id  INTEGER, title  BLOB, post_id  text,  link  text, is_deleted BOOLEAN, is_read BOOLEAN , fetch_date  INTEGER , entry_src_date INTEGER,   content_text  BLOB, enclosure_url  text, author BLOB, categories BLOB,  markers INTEGER  \t".to_string()
    }

    fn index_column_name() -> (r: String)
        ensures
            r@ == "message_id"@,
    {
        "message_id".to_string()
    }

    fn create_indices() -> (r: Vec<String>)
        ensures
            texts_of(r@) == seq!["CREATE INDEX IF NOT EXISTS idx_id ON messages (message_id) ; "@, "CREATE INDEX IF NOT EXISTS idx_feed_src ON messages (feed_src_id) ; "@],
    {
        let r = vec!["CREATE INDEX IF NOT EXISTS idx_id ON messages (message_id) ; ".to_string(), "CREATE INDEX IF NOT EXISTS idx_feed_src ON messages (feed_src_id) ; ".to_string()];
        proof {
            assert(texts_of(r@) =~= seq!["CREATE INDEX IF NOT EXISTS idx_id ON messages (message_id) ; "@, "CREATE INDEX IF NOT EXISTS idx_feed_src ON messages (feed_src_id) ; "@]);
        }
        r
    }

    fn get_insert_columns(&self) -> (r: Vec<String>)
        ensures
            texts_of(r@) == seq!["feed_src_id"@, "title"@, "post_id"@, "link"@, "is_deleted"@, "is_read"@, "fetch_date"@, "entry_src_date"@, "content_text"@, "enclosure_url"@, "author"@, "categories"@, "markers"@],
    {
        let r = vec!["feed_src_id".to_string(), "title".to_string(), "post_id".to_string(), "link".to_string(), "is_deleted".to_string(), "is_read".to_string(), "fetch_date".to_string(), "entry_src_date".to_string(), "content_text".to_string(), "enclosure_url".to_string(), "author".to_string(), "categories".to_string(), "markers".to_string()];
        proof {
            assert(texts_of(r@) =~= seq!["feed_src_id"@, "title"@, "post_id"@, "link"@, "is_deleted"@, "is_read"@, "fetch_date"@, "entry_src_date"@, "content_text"@, "enclosure_url"@, "author"@, "categories"@, "markers"@]);
        }
        r
    }

    fn get_insert_values(&self) -> (r: Vec<Wrap>)
        ensures
            r@ == seq![Wrap::INT(self.subscription_id), Wrap::STR(self.title), Wrap::STR(self.post_id), Wrap::STR(self.link), Wrap::BOO(self.is_deleted), Wrap::BOO(self.is_read), Wrap::I64(self.fetch_date), Wrap::I64(self.entry_src_date), Wrap::STR(self.content_text), Wrap::STR(self.enclosure_url), Wrap::STR(self.author), Wrap::STR(self.categories), Wrap::U64(self.markers)],
    {
        let r = vec![Wrap::INT(self.subscription_id), Wrap::STR(self.title.clone()), Wrap::STR(self.post_id.clone()), Wrap::STR(self.link.clone()), Wrap::BOO(self.is_deleted), Wrap::BOO(self.is_read), Wrap::I64(self.fetch_date), Wrap::I64(self.entry_src_date), Wrap::STR(self.content_text.clone()), Wrap::STR(self.enclosure_url.clone()), Wrap::STR(self.author.clone()), Wrap::STR(self.categories.clone()), Wrap::U64(self.markers)];
        proof {
            assert(r@ =~= seq![Wrap::INT(self.subscription_id), Wrap::STR(self.title), Wrap::STR(self.post_id), Wrap::STR(self.link), Wrap::BOO(self.is_deleted), Wrap::BOO(self.is_read), Wrap::I64(self.fetch_date), Wrap::I64(self.entry_src_date), Wrap::STR(self.content_text), Wrap::STR(self.enclosure_url), Wrap::STR(self.author), Wrap::STR(self.categories), Wrap::U64(self.markers)]);
        }
        r
    }

    fn get_index_value(&self) -> (r: isize)
        ensures
            r == self.message_id,
    {
        self.message_id
    }
}

} // verus!
