use vstd::prelude::*;
use crate::text::string_of;

verus! {

/// The columns of the `lots` table, in the order the queries read them.
pub const FIELDS: &'static str = "guid, account_guid, is_closed";

/// The column list of the `lots` table.
pub fn _fields() -> (r: String)
    ensures
        r@ == FIELDS@,
{
    string_of(FIELDS)
}

/// A lot of an account.
#[derive(Clone, Copy, Debug)]
pub struct Lot {
    pub guid: crate::guid::Guid,
    pub account_guid: crate::guid::Guid,
    pub is_closed: bool,
}

} // verus!
