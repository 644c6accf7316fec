use vstd::prelude::*;
use crate::guid::Guid;
use crate::report::comma_joined;
use crate::text::{decimal, push_str, string_of, u64_to_decimal};

verus! {

/// A commodity (currency or security) of the book.
#[derive(Clone, Debug)]
pub struct Commodity {
    pub guid: Guid,
    pub namespace: String,
    pub mnemonic: String,
    pub fullname: String,
    pub cusip: String,
    pub fraction: i64,
    pub quote_flag: i32,
    pub quote_source: String,
    pub quote_tz: String,
}

/// The columns of the `commodities` table, in the order the queries read them.
pub const FIELDS: &'static str = "guid,namespace,mnemonic,fullname,cusip,fraction,quote_flag,quote_source,quote_tz";

/// The column list of the `commodities` table.
pub fn _fields() -> (r: String)
    ensures
        r@ == FIELDS@,
{
    string_of(FIELDS)
}

/// The query that reads every commodity.
pub open spec fn all_commodities_spec() -> Seq<char> {
    "SELECT "@ + FIELDS@ + " FROM commodities "@
}

/// The query that reads every commodity.
pub fn all_commodities_sql() -> (r: String)
    ensures
        r@ == all_commodities_spec(),
{
    let mut r = string_of("SELECT ");
    push_str(&mut r, FIELDS);
    push_str(&mut r, " FROM commodities ");
    r
}

/// The query that reads the commodity with the GUID bound to `@guid`.
pub open spec fn commodity_by_guid_spec() -> Seq<char> {
    "SELECT "@ + FIELDS@ + " FROM commodities WHERE guid=@guid"@
}

/// The query that reads the commodity with a GUID.
pub fn commodity_by_guid_sql() -> (r: String)
    ensures
        r@ == commodity_by_guid_spec(),
{
    let mut r = string_of("SELECT ");
    push_str(&mut r, FIELDS);
    push_str(&mut r, " FROM commodities WHERE guid=@guid");
    r
}

/// The statement that adds a commodity, its values bound by column name.
pub open spec fn insert_commodity_spec() -> Seq<char> {
    "INSERT INTO commodities ("@ + FIELDS@
        + ") values (@guid,@namespace,@mnemonic,@fullname,@cusip,@fraction,@quote_flag,@quote_source,@quote_tz)"@
}

/// The statement that adds a commodity.
pub fn insert_commodity_sql() -> (r: String)
    ensures
        r@ == insert_commodity_spec(),
{
    let mut r = string_of("INSERT INTO commodities (");
    push_str(&mut r, FIELDS);
    push_str(
        &mut r,
        ") values (@guid,@namespace,@mnemonic,@fullname,@cusip,@fraction,@quote_flag,@quote_source,@quote_tz)",
    );
    r
}

/// The statement that rewrites the commodity with the GUID bound to `@guid`.
pub const UPDATE_COMMODITY_SQL: &'static str = "UPDATE commodities SET namespace=@namespace,mnemonic=@mnemonic,fullname=@fullname,cusip=@cusip,fraction=@fraction,quote_flag=@quote_flag,quote_source=@quote_source,quote_tz=@quote_tz WHERE guid=@guid";

/// The statement that rewrites a commodity.
pub fn update_commodity_sql() -> (r: String)
    ensures
        r@ == UPDATE_COMMODITY_SQL@,
{
    string_of(UPDATE_COMMODITY_SQL)
}

/// The statement that removes the commodity with the GUID bound to `@guid`.
pub const DELETE_COMMODITY_SQL: &'static str = "DELETE FROM commodities  WHERE guid=@guid";

/// The statement that removes a commodity.
pub fn delete_commodity_sql() -> (r: String)
    ensures
        r@ == DELETE_COMMODITY_SQL@,
{
    string_of(DELETE_COMMODITY_SQL)
}

/// The message with which a write that changed other than one record stops.
pub open spec fn record_changes_message(changed: nat) -> Seq<char> {
    "There were "@ + decimal(changed) + " record changes instead of just 1!"@
}

/// A write of one record must change exactly one: nothing to report then, and the
/// message to stop with otherwise.
pub fn record_changes_error(changed: usize) -> (r: Option<String>)
    ensures
        changed == 1 <==> r is None,
        r matches Some(m) ==> m@ == record_changes_message(changed as nat),
{
    if changed == 1 {
        None
    } else {
        let mut m = string_of("There were ");
        let digits = u64_to_decimal(changed as u64);
        push_str(&mut m, digits.as_str());
        push_str(&mut m, " record changes instead of just 1!");
        Some(m)
    }
}

/// The columns of the `commodities` table, one per field of a commodity, in order.
pub open spec fn commodity_columns() -> Seq<Seq<char>> {
    seq![
        "guid"@,
        "namespace"@,
        "mnemonic"@,
        "fullname"@,
        "cusip"@,
        "fraction"@,
        "quote_flag"@,
        "quote_source"@,
        "quote_tz"@,
    ]
}

/// The statement parameter that carries a column's value: `@` and the column's name.
pub open spec fn parameter_of(column: Seq<char>) -> Seq<char> {
    seq!['@'] + column
}

/// The statement that adds a commodity binds every column to the parameter of its own
/// name: its column list is the table's columns joined by commas, and its values list
/// holds, at each place, `@` and the name of the column at that place.
pub proof fn lemma_insert_commodity_binds_by_name()
    ensures
        FIELDS@ == comma_joined(commodity_columns()),
        insert_commodity_spec()
            == "INSERT INTO commodities ("@ + comma_joined(commodity_columns()) + ") values ("@
            + comma_joined(commodity_columns().map_values(|c: Seq<char>| parameter_of(c))) + ")"@,
{
    reveal_with_fuel(comma_joined, 10);
    reveal_strlit("guid,namespace,mnemonic,fullname,cusip,fraction,quote_flag,quote_source,quote_tz");
    reveal_strlit(") values (@guid,@namespace,@mnemonic,@fullname,@cusip,@fraction,@quote_flag,@quote_source,@quote_tz)");
    reveal_strlit(") values (");
    reveal_strlit(")");
    reveal_strlit("guid");
    reveal_strlit("namespace");
    reveal_strlit("mnemonic");
    reveal_strlit("fullname");
    reveal_strlit("cusip");
    reveal_strlit("fraction");
    reveal_strlit("quote_flag");
    reveal_strlit("quote_source");
    reveal_strlit("quote_tz");
    let cols = commodity_columns();
    let params = cols.map_values(|c: Seq<char>| parameter_of(c));
    assert(params.len() == 9);
    assert(params =~= seq![
        seq!['@'] + "guid"@,
        seq!['@'] + "namespace"@,
        seq!['@'] + "mnemonic"@,
        seq!['@'] + "fullname"@,
        seq!['@'] + "cusip"@,
        seq!['@'] + "fraction"@,
        seq!['@'] + "quote_flag"@,
        seq!['@'] + "quote_source"@,
        seq!['@'] + "quote_tz"@,
    ]);
    assert(FIELDS@ =~= comma_joined(cols));
    assert(") values (@guid,@namespace,@mnemonic,@fullname,@cusip,@fraction,@quote_flag,@quote_source,@quote_tz)"@
        =~= ") values ("@ + comma_joined(params) + ")"@);
    assert(insert_commodity_spec()
        =~= "INSERT INTO commodities ("@ + comma_joined(cols) + ") values ("@ + comma_joined(params) + ")"@);
}

/// A column set to, or compared with, the parameter of its own name: `column=@column`.
pub open spec fn bound_by_name(column: Seq<char>) -> Seq<char> {
    column + seq!['='] + parameter_of(column)
}

/// The statement that rewrites a commodity sets every column but the GUID to the
/// parameter of its own name, in the table's order, and picks the commodity by the
/// GUID's parameter.
pub proof fn lemma_update_commodity_binds_by_name()
    ensures
        UPDATE_COMMODITY_SQL@
            == "UPDATE commodities SET "@
            + comma_joined(commodity_columns().drop_first().map_values(|c: Seq<char>| bound_by_name(c)))
            + " WHERE "@ + bound_by_name(commodity_columns()[0]),
{
    reveal_with_fuel(comma_joined, 10);
    reveal_strlit("UPDATE commodities SET namespace=@namespace,mnemonic=@mnemonic,fullname=@fullname,cusip=@cusip,fraction=@fraction,quote_flag=@quote_flag,quote_source=@quote_source,quote_tz=@quote_tz WHERE guid=@guid");
    reveal_strlit("UPDATE commodities SET ");
    reveal_strlit(" WHERE ");
    reveal_strlit("guid");
    reveal_strlit("namespace");
    reveal_strlit("mnemonic");
    reveal_strlit("fullname");
    reveal_strlit("cusip");
    reveal_strlit("fraction");
    reveal_strlit("quote_flag");
    reveal_strlit("quote_source");
    reveal_strlit("quote_tz");
    let cols = commodity_columns();
    let sets = cols.drop_first().map_values(|c: Seq<char>| bound_by_name(c));
    assert(sets.len() == 8);
    assert(sets =~= seq![
        bound_by_name("namespace"@),
        bound_by_name("mnemonic"@),
        bound_by_name("fullname"@),
        bound_by_name("cusip"@),
        bound_by_name("fraction"@),
        bound_by_name("quote_flag"@),
        bound_by_name("quote_source"@),
        bound_by_name("quote_tz"@),
    ]);
    assert(UPDATE_COMMODITY_SQL@
        =~= "UPDATE commodities SET "@ + comma_joined(sets) + " WHERE "@ + bound_by_name(cols[0]));
}

} // verus!
