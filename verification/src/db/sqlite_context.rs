use vstd::prelude::*;

verus! {

/// A value handed to a database statement.
#[derive(Debug)]
pub enum Wrap {
    INT(isize),
    I64(i64),
    STR(String),
    BOO(bool),
    BLOB(Vec<u8>),
    U64(u64),
}

/// What the database layer needs to know of a row type: its table, the columns of its
/// table, its indices, and the values of a row (without the index column).
pub trait TableInfo: Sized {
    fn table_name() -> String;
    fn create_string() -> String;
    fn index_column_name() -> String;
    fn create_indices() -> Vec<String>;
    /// without index column
    fn get_insert_columns(&self) -> Vec<String>;
    /// without index column
    fn get_insert_values(&self) -> Vec<Wrap>;
    fn get_index_value(&self) -> isize;
}

} // verus!
