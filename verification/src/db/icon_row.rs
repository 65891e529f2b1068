use vstd::prelude::*;
use crate::db::sqlite_context::{TableInfo, Wrap};
use crate::text::texts_of;

verus! {

/// How a stored icon is encoded.
#[derive(Clone, Copy, Debug, PartialEq, Eq, Structural)]
pub enum CompressionType {
    Raw,
    Web,
    GtkImage,
    ImageRs,
    Png,
}

/// The number under which a compression type is stored.
pub open spec fn compression_code(c: CompressionType) -> isize {
    match c {
        CompressionType::Raw => 0,
        CompressionType::Web => 1,
        CompressionType::GtkImage => 2,
        CompressionType::ImageRs => 3,
        CompressionType::Png => 4,
    }
}

impl CompressionType {
    /// The compression type stored under `i`; `Raw` for unknown numbers.
    pub fn from_isize(i: isize) -> (r: CompressionType)
        ensures
            0 <= i <= 4 ==> compression_code(r) == i,
            !(0 <= i <= 4) ==> r == CompressionType::Raw,
    {
        match i {
            1 => CompressionType::Web,
            2 => CompressionType::GtkImage,
            3 => CompressionType::ImageRs,
            4 => CompressionType::Png,
            _ => CompressionType::Raw,
        }
    }

    /// The number under which this compression type is stored.
    pub fn to_isize(&self) -> (r: isize)
        ensures
            r == compression_code(*self),
    {
        match self {
            CompressionType::Raw => 0,
            CompressionType::Web => 1,
            CompressionType::GtkImage => 2,
            CompressionType::ImageRs => 3,
            CompressionType::Png => 4,
        }
    }
}

/// Storing a compression type and reading it back gives it again.
pub proof fn lemma_compression_code_round_trip(c: CompressionType)
    ensures
        0 <= compression_code(c) <= 4,
        forall|d: CompressionType| compression_code(d) == compression_code(c) ==> d == c,
{
}

impl Default for CompressionType {
    /// Not compressed.
    fn default() -> (r: CompressionType)
        ensures
            r == CompressionType::Raw,
    {
        CompressionType::Raw
    }
}

/// A stored icon.
#[derive(Clone, Debug)]
pub struct IconRow {
    pub web_date: i64,
    pub req_date: i64,
    pub icon_id: isize,
    pub web_size: isize,
    pub compression_type: CompressionType,
    pub web_url: String,
    pub icon: String,
}

impl Default for IconRow {
    /// An empty icon row.
    fn default() -> (r: IconRow)
        ensures
            r.web_date == 0 && r.req_date == 0 && r.icon_id == 0 && r.web_size == 0,
            r.compression_type == CompressionType::Raw,
            r.web_url@ == Seq::<char>::empty(),
            r.icon@ == Seq::<char>::empty(),
    {
        IconRow {
            web_date: 0,
            req_date: 0,
            icon_id: 0,
            web_size: 0,
            compression_type: CompressionType::Raw,
            web_url: String::new(),
            icon: String::new(),
        }
    }
}

impl TableInfo for IconRow {
    fn table_name() -> (r: String)
        ensures
            r@ == "icons"@,
    {
        "icons".to_string()
    }

    fn create_string() -> (r: String)
        ensures
            r@ == "icon_id  INTEGER  PRIMARY KEY, web_url  TEXT, web_size  INTEGER,  web_date INTEGER,  req_date INTEGER, compression_type INTEGER, icon TEXT "@,
    {
        "icon_id  INTEGER  PRIMARY KEY, web_url  TEXT, web_size  INTEGER,  web_date INTEGER,  req_date INTEGER, compression_type INTEGER, icon TEXT ".to_string()
    }

    fn index_column_name() -> (r: String)
        ensures
            r@ == "icon_id"@,
    {
        "icon_id".to_string()
    }

    fn create_indices() -> (r: Vec<String>)
        ensures
            texts_of(r@) == seq!["CREATE INDEX IF NOT EXISTS idx_id ON icons (icon_id) ; "@, "CREATE INDEX IF NOT EXISTS idx_icon ON icons (icon) ; "@],
    {
        let r = vec!["CREATE INDEX IF NOT EXISTS idx_id ON icons (icon_id) ; ".to_string(), "CREATE INDEX IF NOT EXISTS idx_icon ON icons (icon) ; ".to_string()];
        proof {
            assert(texts_of(r@) =~= seq!["CREATE INDEX IF NOT EXISTS idx_id ON icons (icon_id) ; "@, "CREATE INDEX IF NOT EXISTS idx_icon ON icons (icon) ; "@]);
        }
        r
    }

    fn get_insert_columns(&self) -> (r: Vec<String>)
        ensures
            texts_of(r@) == seq!["web_url"@, "web_size"@, "web_date"@, "req_date"@, "compression_type"@, "icon"@],
    {
        let r = vec!["web_url".to_string(), "web_size".to_string(), "web_date".to_string(), "req_date".to_string(), "compression_type".to_string(), "icon".to_string()];
        proof {
            assert(texts_of(r@) =~= seq!["web_url"@, "web_size"@, "web_date"@, "req_date"@, "compression_type"@, "icon"@]);
        }
        r
    }

    fn get_insert_values(&self) -> (r: Vec<Wrap>)
        ensures
            r@ == seq![Wrap::STR(self.web_url), Wrap::INT(self.web_size), Wrap::I64(self.web_date), Wrap::I64(self.req_date), Wrap::INT(compression_code(self.compression_type)), Wrap::STR(self.icon)],
    {
        let r = vec![Wrap::STR(self.web_url.clone()), Wrap::INT(self.web_size), Wrap::I64(self.web_date), Wrap::I64(self.req_date), Wrap::INT(self.compression_type.to_isize()), Wrap::STR(self.icon.clone())];
        proof {
            assert(r@ =~= seq![Wrap::STR(self.web_url), Wrap::INT(self.web_size), Wrap::I64(self.web_date), Wrap::I64(self.req_date), Wrap::INT(compression_code(self.compression_type)), Wrap::STR(self.icon)]);
        }
        r
    }

    fn get_index_value(&self) -> (r: isize)
        ensures
            r == self.icon_id,
    {
        self.icon_id
    }
}

} // verus!
