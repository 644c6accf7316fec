use vstd::prelude::*;
use crate::text::{push_str, string_of};

verus! {

/// The columns of the `slots` table, in the order the queries read them.
pub const FIELDS: &'static str = "id,obj_guid,name,slot_type,int64_val,string_val,double_val,timespec_val,guid_val,numeric_val_num,numeric_val_denom,gdate_val";

/// The column list of the `slots` table.
pub fn _fields() -> (r: String)
    ensures
        r@ == FIELDS@,
{
    string_of(FIELDS)
}

/// The query that reads the slots whose column `column` equals the value bound to
/// `@column`.
pub open spec fn slots_where_spec(column: Seq<char>) -> Seq<char> {
    "SELECT "@ + FIELDS@ + " FROM slots WHERE "@ + column + "=@"@ + column + " "@
}

/// The query that reads the slots with a given value in one column.
pub fn slots_where_sql(column: &str) -> (r: String)
    ensures
        r@ == slots_where_spec(column@),
{
    let mut r = string_of("SELECT ");
    push_str(&mut r, FIELDS);
    push_str(&mut r, " FROM slots WHERE ");
    push_str(&mut r, column);
    push_str(&mut r, "=@");
    push_str(&mut r, column);
    push_str(&mut r, " ");
    r
}

/// The statement that removes the slots of the object whose GUID is bound to `@obj_guid`.
pub const DELETE_SLOTS_SQL: &'static str = "DELETE FROM slots  WHERE obj_guid=@obj_guid";

/// The statement that removes an object's slots.
pub fn delete_slots_sql() -> (r: String)
    ensures
        r@ == DELETE_SLOTS_SQL@,
{
    string_of(DELETE_SLOTS_SQL)
}

} // verus!
