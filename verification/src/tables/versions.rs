use vstd::prelude::*;
use crate::text::string_of;

verus! {

/// The columns of the `versions` table, in the order the queries read them.
pub const FIELDS: &'static str = "table_name,table_version";

/// The column list of the `versions` table.
pub fn _fields() -> (r: String)
    ensures
        r@ == FIELDS@,
{
    string_of(FIELDS)
}

/// The version of one table of the book.
#[derive(Clone, Debug)]
pub struct Version {
    pub table_name: String,
    pub table_version: String,
}

} // verus!
