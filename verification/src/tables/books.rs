use vstd::prelude::*;
use crate::text::string_of;

verus! {

/// The columns of the `books` table, in the order the queries read them.
pub const FIELDS: &'static str = "guid,root_account_guid,root_template_guid";

/// The column list of the `books` table.
pub fn _fields() -> (r: String)
    ensures
        r@ == FIELDS@,
{
    string_of(FIELDS)
}

/// A book: the file's root account and root template.
#[derive(Clone, Copy, Debug)]
pub struct Book {
    pub guid: crate::guid::Guid,
    pub root_account_guid: crate::guid::Guid,
    pub root_template_guid: crate::guid::Guid,
}

} // verus!
