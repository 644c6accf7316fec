use vstd::prelude::*;
use crate::text::{decimal, push_str, string_of};

verus! {

/// The columns of the `accounts` table, in the order the queries read them.
pub const FIELDS: &'static str = "guid,name,account_type,commodity_guid,commodity_scu,non_std_scu,parent_guid,code,description,hidden,placeholder ";

/// An account of the book, as the `accounts` table holds it.
#[derive(Clone, Debug)]
pub struct Account {
    pub guid: crate::guid::Guid,
    pub name: String,
    pub account_type: crate::account_types::AccountType,
    pub commodity_guid: crate::guid::Guid,
    pub commodity_scu: i64,
    pub non_std_scu: i64,
    pub parent_guid: crate::guid::Guid,
    pub code: String,
    pub description: String,
    pub hidden: bool,
    pub placeholder: bool,
}

/// The column list of the `accounts` table.
pub fn _fields() -> (r: String)
    ensures
        r@ == FIELDS@,
{
    string_of(FIELDS)
}

/// `SELECT`, the column list, then the rest of a query.
pub open spec fn select_accounts(rest: Seq<char>) -> Seq<char> {
    "SELECT "@ + FIELDS@ + rest
}

fn select_accounts_text(rest: &str) -> (r: String)
    ensures
        r@ == select_accounts(rest@),
{
    let mut r = string_of("SELECT ");
    push_str(&mut r, FIELDS);
    push_str(&mut r, rest);
    r
}

/// The conditions that keep the accounts a user works with day to day: visible,
/// no placeholder, and neither root, expense, equity nor income.
pub const ACTIVE_ACCOUNTS_CONDITION: &'static str = " FROM accounts WHERE (hidden=0) AND (placeholder=0) AND (NOT(account_type='ROOT')) AND (NOT(account_type='EXPENSE')) AND (NOT(account_type='EQUITY'))AND (NOT(account_type='INCOME')) AND (NOT(name='Expenses'))";

/// The query that reads the active accounts.
pub fn active_accounts_sql() -> (r: String)
    ensures
        r@ == select_accounts(ACTIVE_ACCOUNTS_CONDITION@),
{
    select_accounts_text(ACTIVE_ACCOUNTS_CONDITION)
}

/// The conditions that keep every visible account but the root and the template root.
pub const NONHIDDEN_ACCOUNTS_CONDITION: &'static str = " FROM accounts WHERE (NOT(name='Root Account'))  AND (NOT(name='Template Root')) AND hidden='0'";

/// The query that reads every visible account but the roots.
pub fn nonhidden_accounts_sql() -> (r: String)
    ensures
        r@ == select_accounts(NONHIDDEN_ACCOUNTS_CONDITION@),
{
    select_accounts_text(NONHIDDEN_ACCOUNTS_CONDITION)
}

/// The conditions that keep every account but the root and the template root.
pub const ALL_ACCOUNTS_CONDITION: &'static str = " FROM accounts WHERE (NOT(name='Root Account')) AND (NOT(name='Template Root'))";

/// The query that reads every account but the roots.
pub fn all_accounts_sql() -> (r: String)
    ensures
        r@ == select_accounts(ALL_ACCOUNTS_CONDITION@),
{
    select_accounts_text(ALL_ACCOUNTS_CONDITION)
}

/// The condition that picks the account with the GUID bound to `@account_guid`.
pub const ACCOUNT_BY_GUID_CONDITION: &'static str = " FROM accounts WHERE guid=@account_guid";

/// The query that reads the account with a GUID, bound as `@account_guid`.
pub fn account_by_guid_sql() -> (r: String)
    ensures
        r@ == select_accounts(ACCOUNT_BY_GUID_CONDITION@),
{
    select_accounts_text(ACCOUNT_BY_GUID_CONDITION)
}

/// The ledger's post date of a transaction `t` as an SQLite date-time.
pub const POST_DATE_AS_DATETIME: &'static str = "datetime(substr(t.post_date,1,4)||'-'||substr(t.post_date,5,2)||'-'||                       substr(t.post_date,7,2)||' '||substr(t.post_date,9,2)||':'||                       substr(t.post_date,11,2)||':'||substr(t.post_date,13,2))";

/// The query that reads the accounts with a transaction posted between two
/// date-times (`YYYY-MM-DD HH:MM:SS`), roots excepted.
pub open spec fn accounts_in_period_spec(start: Seq<char>, end: Seq<char>) -> Seq<char> {
    select_accounts(
        " FROM accounts WHERE accounts.guid IN (    SELECT splits.account_guid FROM splits WHERE splits.tx_guid IN (        SELECT t.guid         FROM transactions as t        WHERE "@
            + POST_DATE_AS_DATETIME@ + " >=               datetime('"@ + start + "')        AND               "@
            + POST_DATE_AS_DATETIME@ + " <=               datetime('"@ + end
            + "')        ) AND (NOT(accounts.name='Root Account')) AND (NOT(accounts.name='Template Root'))"@,
    )
}

/// The query of the accounts with transactions between two date-times.
pub fn accounts_with_transactions_in_last_days_sql(start: &str, end: &str) -> (r: String)
    ensures
        r@ == accounts_in_period_spec(start@, end@),
{
    let mut rest = string_of(
        " FROM accounts WHERE accounts.guid IN (    SELECT splits.account_guid FROM splits WHERE splits.tx_guid IN (        SELECT t.guid         FROM transactions as t        WHERE ",
    );
    push_str(&mut rest, POST_DATE_AS_DATETIME);
    push_str(&mut rest, " >=               datetime('");
    push_str(&mut rest, start);
    push_str(&mut rest, "')        AND               ");
    push_str(&mut rest, POST_DATE_AS_DATETIME);
    push_str(&mut rest, " <=               datetime('");
    push_str(&mut rest, end);
    push_str(
        &mut rest,
        "')        ) AND (NOT(accounts.name='Root Account')) AND (NOT(accounts.name='Template Root'))",
    );
    let r = select_accounts_text(rest.as_str());
    proof {
        assert(r@ =~= accounts_in_period_spec(start@, end@));
    }
    r
}

/// What the period query holds before its lower bound's comparison: the account
/// columns and the nesting that keeps accounts with a split of a transaction in the
/// period.
pub open spec fn period_query_head() -> Seq<char> {
    select_accounts(
        " FROM accounts WHERE accounts.guid IN (    SELECT splits.account_guid FROM splits WHERE splits.tx_guid IN (        SELECT t.guid         FROM transactions as t        WHERE "@,
    )
}

/// What the period query holds after its upper bound: the closing of the nesting and
/// the exclusion of the roots.
pub open spec fn period_query_tail() -> Seq<char> {
    "')        ) AND (NOT(accounts.name='Root Account')) AND (NOT(accounts.name='Template Root'))"@
}

/// The period query keeps a transaction when its post date is at least the start and
/// at most the end: the start is compared with `>=` and the end with `<=`, each against
/// the transaction's post date, joined by `AND`; the rest of the query does not depend
/// on the two bounds.
pub proof fn lemma_period_query_bounds(start: Seq<char>, end: Seq<char>)
    ensures
        accounts_in_period_spec(start, end)
            == period_query_head()
            + (POST_DATE_AS_DATETIME@ + " >=               datetime('"@ + start)
            + "')        AND               "@
            + (POST_DATE_AS_DATETIME@ + " <=               datetime('"@ + end)
            + period_query_tail(),
{
    assert(accounts_in_period_spec(start, end)
        =~= period_query_head()
            + (POST_DATE_AS_DATETIME@ + " >=               datetime('"@ + start)
            + "')        AND               "@
            + (POST_DATE_AS_DATETIME@ + " <=               datetime('"@ + end)
            + period_query_tail());
}

/// SQLite's `substr` of the post date that takes `len` characters from offset `from`
/// of the ledger text (SQLite counts the first character as 1).
pub open spec fn post_date_field(from: nat, len: nat) -> Seq<char> {
    "substr(t.post_date,"@ + decimal(from + 1) + ","@ + decimal(len) + ")"@
}

/// The post date is read as a date-time by cutting the ledger text (`YYYYMMDDhhmmss`)
/// at its fields, the 4 digits of the year from offset 0 and the 2 digits of month,
/// day, hour, minute and second from offsets 4, 6, 8, 10 and 12, and joining them as
/// `YYYY-MM-DD hh:mm:ss`.
pub proof fn lemma_post_date_read_by_ledger_fields()
    ensures
        POST_DATE_AS_DATETIME@
            == "datetime("@ + post_date_field(0, 4) + "||'-'||"@ + post_date_field(4, 2)
            + "||'-'||                       "@ + post_date_field(6, 2) + "||' '||"@ + post_date_field(8, 2)
            + "||':'||                       "@ + post_date_field(10, 2) + "||':'||"@ + post_date_field(12, 2)
            + ")"@,
{
    reveal_with_fuel(decimal, 3);
    reveal_strlit("datetime(substr(t.post_date,1,4)||'-'||substr(t.post_date,5,2)||'-'||                       substr(t.post_date,7,2)||' '||substr(t.post_date,9,2)||':'||                       substr(t.post_date,11,2)||':'||substr(t.post_date,13,2))");
    reveal_strlit("datetime(");
    reveal_strlit("substr(t.post_date,");
    reveal_strlit(",");
    reveal_strlit(")");
    reveal_strlit("||'-'||");
    reveal_strlit("||'-'||                       ");
    reveal_strlit("||' '||");
    reveal_strlit("||':'||                       ");
    reveal_strlit("||':'||");
    assert(decimal(1) =~= seq!['1']);
    assert(decimal(2) =~= seq!['2']);
    assert(decimal(4) =~= seq!['4']);
    assert(decimal(5) =~= seq!['5']);
    assert(decimal(7) =~= seq!['7']);
    assert(decimal(9) =~= seq!['9']);
    assert(decimal(11) =~= seq!['1', '1']);
    assert(decimal(13) =~= seq!['1', '3']);
    assert(POST_DATE_AS_DATETIME@
        =~= "datetime("@ + post_date_field(0, 4) + "||'-'||"@ + post_date_field(4, 2)
            + "||'-'||                       "@ + post_date_field(6, 2) + "||' '||"@ + post_date_field(8, 2)
            + "||':'||                       "@ + post_date_field(10, 2) + "||':'||"@ + post_date_field(12, 2)
            + ")"@);
}

} // verus!
