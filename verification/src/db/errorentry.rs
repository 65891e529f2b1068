use vstd::prelude::*;
use crate::db::sqlite_context::{TableInfo, Wrap};
use crate::text::texts_of;

verus! {

/// Where an error was recorded.
#[derive(Clone, Copy, Debug, PartialEq, Eq, Structural)]
pub enum ESRC {
    NONE,
    GpDlFinished,
    SubsmoveTruncated,
    DragEvalstart,
    IconsFeedtext,
    IconsAHEx,
    IconsAHMain,
    IconsDownload,
    IconsCheckimg,
    IconsDownscale,
    MsgDlStart,
    MsgEvalFltEmpty,
    MsgEvalFltStrange,
}

/// The number under which an error source is stored.
pub open spec fn esrc_code(e: ESRC) -> isize {
    match e {
        ESRC::NONE => 0,
        ESRC::GpDlFinished => 1,
        ESRC::SubsmoveTruncated => 2,
        ESRC::DragEvalstart => 3,
        ESRC::IconsFeedtext => 4,
        ESRC::IconsAHEx => 5,
        ESRC::IconsAHMain => 6,
        ESRC::IconsDownload => 7,
        ESRC::IconsCheckimg => 8,
        ESRC::IconsDownscale => 9,
        ESRC::MsgDlStart => 10,
        ESRC::MsgEvalFltEmpty => 11,
        ESRC::MsgEvalFltStrange => 12,
    }
}

impl ESRC {
    /// The number under which this error source is stored.
    pub fn code(&self) -> (r: isize)
        ensures
            r == esrc_code(*self),
    {
        match self {
            ESRC::NONE => 0,
            ESRC::GpDlFinished => 1,
            ESRC::SubsmoveTruncated => 2,
            ESRC::DragEvalstart => 3,
            ESRC::IconsFeedtext => 4,
            ESRC::IconsAHEx => 5,
            ESRC::IconsAHMain => 6,
            ESRC::IconsDownload => 7,
            ESRC::IconsCheckimg => 8,
            ESRC::IconsDownscale => 9,
            ESRC::MsgDlStart => 10,
            ESRC::MsgEvalFltEmpty => 11,
            ESRC::MsgEvalFltStrange => 12,
        }
    }
}

/// One recorded error.
#[derive(Clone, Debug)]
pub struct ErrorEntry {
    pub err_id: isize,
    pub subs_id: isize,
    pub e_src: isize,
    pub e_val: isize,
    pub date: i64,
    pub remote_address: String,
    pub text: String,
}

impl Default for ErrorEntry {
    /// An entry with all numbers 0 and empty texts.
    fn default() -> (r: ErrorEntry)
        ensures
            r.err_id == 0 && r.subs_id == 0 && r.e_src == 0 && r.e_val == 0 && r.date == 0,
            r.remote_address@ == Seq::<char>::empty(),
            r.text@ == Seq::<char>::empty(),
    {
        ErrorEntry {
            err_id: 0,
            subs_id: 0,
            e_src: 0,
            e_val: 0,
            date: 0,
            remote_address: String::new(),
            text: String::new(),
        }
    }
}

impl TableInfo for ErrorEntry {
    fn table_name() -> (r: String)
        ensures
            r@ == "errors"@,
    {
        "errors".to_string()
    }

    fn create_string() -> (r: String)
        ensures
            r@ == "err_id  INTEGER  PRIMARY KEY, subs_id  INTEGER, e_src  INTEGER,  e_val  INTEGER , \n              date  INTEGER,   remote_address TEXT, err_text TEXT "@,
    {
        "err_id  INTEGER  PRIMARY KEY, subs_id  INTEGER, e_src  INTEGER,  e_val  INTEGER , \n              date  INTEGER,   remote_address TEXT, err_text TEXT ".to_string()
    }

    fn index_column_name() -> (r: String)
        ensures
            r@ == "err_id"@,
    {
        "err_id".to_string()
    }

    fn create_indices() -> (r: Vec<String>)
        ensures
            texts_of(r@) == seq!["CREATE INDEX IF NOT EXISTS idx_err_id  ON errors (err_id) ; "@, "CREATE INDEX IF NOT EXISTS idx_subs_id ON errors (subs_id) ; "@],
    {
        let r = vec!["CREATE INDEX IF NOT EXISTS idx_err_id  ON errors (err_id) ; ".to_string(), "CREATE INDEX IF NOT EXISTS idx_subs_id ON errors (subs_id) ; ".to_string()];
        proof {
            assert(texts_of(r@) =~= seq!["CREATE INDEX IF NOT EXISTS idx_err_id  ON errors (err_id) ; "@, "CREATE INDEX IF NOT EXISTS idx_subs_id ON errors (subs_id) ; "@]);
        }
        r
    }

    fn get_insert_columns(&self) -> (r: Vec<String>)
        ensures
            texts_of(r@) == seq!["subs_id"@, "date"@, "e_src"@, "e_val"@, "remote_address"@, "err_text"@],
    {
        let r = vec!["subs_id".to_string(), "date".to_string(), "e_src".to_string(), "e_val".to_string(), "remote_address".to_string(), "err_text".to_string()];
        proof {
            assert(texts_of(r@) =~= seq!["subs_id"@, "date"@, "e_src"@, "e_val"@, "remote_address"@, "err_text"@]);
        }
        r
    }

    fn get_insert_values(&self) -> (r: Vec<Wrap>)
        ensures
            r@ == seq![Wrap::INT(self.subs_id), Wrap::I64(self.date), Wrap::INT(self.e_src), Wrap::INT(self.e_val), Wrap::STR(self.remote_address), Wrap::STR(self.text)],
    {
        let r = vec![Wrap::INT(self.subs_id), Wrap::I64(self.date), Wrap::INT(self.e_src), Wrap::INT(self.e_val), Wrap::STR(self.remote_address.clone()), Wrap::STR(self.text.clone())];
        proof {
            assert(r@ =~= seq![Wrap::INT(self.subs_id), Wrap::I64(self.date), Wrap::INT(self.e_src), Wrap::INT(self.e_val), Wrap::STR(self.remote_address), Wrap::STR(self.text)]);
        }
        r
    }

    fn get_index_value(&self) -> (r: isize)
        ensures
            r == self.err_id,
    {
        self.err_id
    }
}

} // verus!
