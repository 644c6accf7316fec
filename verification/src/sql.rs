use vstd::prelude::*;
use crate::text::string_of;

verus! {

/// The splits of one account type posted within a period, with their transaction's description and post date and their account's name, by post date. The three parameters are the start date, the end date and the account type.
pub const LOAD_SPLITS_FOR_LAST_30_DAY_REPORT: &'static str = "SELECT s.guid, s.tx_guid, s.account_guid, s.memo, s.action, s.reconcile_state, s.reconcile_date, s.value_num, s.value_denom, s.quantity_num, s.quantity_denom, s.lot_guid, a.name AS account_name, t.description AS Description, t.post_date AS PostDate FROM splits AS s INNER JOIN transactions AS t ON t.guid = s.tx_guid INNER JOIN accounts AS a ON a.guid = s.account_guid WHERE datetime(substr(t.post_date,1,4)||'-'||substr(t.post_date,5,2)||'-'||substr(t.post_date,7,2)||' '||substr(t.post_date,9,2)||':'||substr(t.post_date,11,2)||':'||substr(t.post_date,13,2)) >= datetime(?) AND datetime(substr(t.post_date,1,4)||'-'||substr(t.post_date,5,2)||'-'||substr(t.post_date,7,2)||' '||substr(t.post_date,9,2)||':'||substr(t.post_date,11,2)||':'||substr(t.post_date,13,2)) <= datetime(?) AND a.account_type = ? ORDER BY t.post_date, t.guid;";

/// All the slots with a given name. The parameter is the name.
pub const LOAD_SLOTS_FOR_NAME: &'static str = "SELECT id, obj_guid, name, slot_type, int64_val, string_val, double_val, timespec_val, guid_val, numeric_val_num, numeric_val_denom, gdate_val FROM slots WHERE name = ? ORDER BY id;";

/// The slots with a given name and string value. The parameters are the name and the string value.
pub const LOAD_SLOTS_FOR_NAME_AND_STRING_VAL: &'static str = "SELECT id, obj_guid, name, slot_type, int64_val, string_val, double_val, timespec_val, guid_val, numeric_val_num, numeric_val_denom, gdate_val FROM slots WHERE name = ? AND string_val = ? ORDER BY id;";

/// Every visible account that is no placeholder, root or template, with its balance and its commodity's mnemonic. It takes no parameter.
pub const LOAD_ACCOUNTS_WITH_BALANCES: &'static str = "SELECT a.guid, a.name, a.account_type, a.commodity_guid, a.commodity_scu, a.non_std_scu, a.parent_guid, a.code, a.description, a.hidden, a.placeholder, IFNULL(SUM(CAST(s.quantity_num AS REAL) / s.quantity_denom), 0) AS balance, c.mnemonic AS mnemonic FROM accounts AS a LEFT JOIN splits AS s ON s.account_guid = a.guid LEFT JOIN commodities AS c ON c.guid = a.commodity_guid WHERE a.hidden = 0 AND a.placeholder = 0 AND a.account_type <> 'ROOT' AND a.name <> 'Template Root' GROUP BY a.guid ORDER BY a.account_type, a.name;";

/// All the transactions of an account, each with the split on its other side. The account's GUID is passed 4 times.
pub const LOAD_TRANSACTIONS_FOR_ACCOUNT: &'static str = "SELECT ? AS excluded_account_guid, (SELECT name FROM accounts WHERE guid = ?) AS excluded_account_name, (SELECT commodities.mnemonic FROM accounts INNER JOIN commodities ON commodities.guid = accounts.commodity_guid WHERE accounts.guid = ?) AS excluded_account_mnemonic, t.guid, t.currency_guid, t.num, t.post_date, t.enter_date, t.description, s.value_num, s.value_denom, a.name AS account_name, a.guid AS account_guid, s.memo FROM transactions AS t INNER JOIN splits AS s ON s.tx_guid = t.guid INNER JOIN accounts AS a ON a.guid = s.account_guid WHERE t.guid IN (SELECT tx_guid FROM splits WHERE account_guid = ?) AND s.account_guid <> excluded_account_guid ORDER BY t.post_date, t.guid;";

/// The commodity with a given GUID. The parameter is the GUID.
pub const LOAD_COMMODITY_FOR_GUID: &'static str = "SELECT guid, namespace, mnemonic, fullname, cusip, fraction, quote_flag, quote_source, quote_tz FROM commodities WHERE guid = ?;";

/// An account with its balance from its opening up to a date. The parameters are the date and the account's GUID.
pub const LOAD_ACCOUNT_WITH_BALANCE_FOR_DATE_AND_GUID: &'static str = "SELECT a.guid, a.name, a.account_type, a.commodity_guid, a.commodity_scu, a.non_std_scu, a.parent_guid, a.code, a.description, a.hidden, a.placeholder, IFNULL(SUM(CASE WHEN datetime(substr(t.post_date,1,4)||'-'||substr(t.post_date,5,2)||'-'||substr(t.post_date,7,2)||' '||substr(t.post_date,9,2)||':'||substr(t.post_date,11,2)||':'||substr(t.post_date,13,2)) <= datetime(?) THEN CAST(s.quantity_num AS REAL) / s.quantity_denom ELSE 0 END), 0) AS balance, c.mnemonic AS mnemonic FROM accounts AS a LEFT JOIN splits AS s ON s.account_guid = a.guid LEFT JOIN transactions AS t ON t.guid = s.tx_guid LEFT JOIN commodities AS c ON c.guid = a.commodity_guid WHERE a.guid = ? GROUP BY a.guid;";

/// An account with its balance. The parameter is the account's GUID.
pub const LOAD_ACCOUNT_WITH_BALANCE_FOR_GUID: &'static str = "SELECT a.guid, a.name, a.account_type, a.commodity_guid, a.commodity_scu, a.non_std_scu, a.parent_guid, a.code, a.description, a.hidden, a.placeholder, IFNULL(SUM(CAST(s.quantity_num AS REAL) / s.quantity_denom), 0) AS balance, c.mnemonic AS mnemonic FROM accounts AS a LEFT JOIN splits AS s ON s.account_guid = a.guid LEFT JOIN commodities AS c ON c.guid = a.commodity_guid WHERE a.guid = ? GROUP BY a.guid;";

/// The transactions of an account posted between two dates. The account's GUID is passed 4 times, then the first date, then the last one.
pub const LOAD_TRANSACTIONS_FOR_ACCOUNT_BETWEEN_DATES: &'static str = "SELECT ? AS excluded_account_guid, (SELECT name FROM accounts WHERE guid = ?) AS excluded_account_name, (SELECT commodities.mnemonic FROM accounts INNER JOIN commodities ON commodities.guid = accounts.commodity_guid WHERE accounts.guid = ?) AS excluded_account_mnemonic, t.guid, t.currency_guid, t.num, t.post_date, t.enter_date, t.description, s.value_num, s.value_denom, a.name AS account_name, a.guid AS account_guid, s.memo FROM transactions AS t INNER JOIN splits AS s ON s.tx_guid = t.guid INNER JOIN accounts AS a ON a.guid = s.account_guid WHERE t.guid IN (SELECT tx_guid FROM splits WHERE account_guid = ?) AND s.account_guid <> excluded_account_guid AND datetime(substr(t.post_date,1,4)||'-'||substr(t.post_date,5,2)||'-'||substr(t.post_date,7,2)||' '||substr(t.post_date,9,2)||':'||substr(t.post_date,11,2)||':'||substr(t.post_date,13,2)) >= datetime(?) AND datetime(substr(t.post_date,1,4)||'-'||substr(t.post_date,5,2)||'-'||substr(t.post_date,7,2)||' '||substr(t.post_date,9,2)||':'||substr(t.post_date,11,2)||':'||substr(t.post_date,13,2)) <= datetime(?) ORDER BY t.post_date, t.guid;";

/// Every account except the root and template ones, by name. It takes no parameter.
pub const LOAD_ALL_ACCOUNTS_EXCEPT_ROOT_AND_TEMPLATE: &'static str = "SELECT a.guid, a.name, a.account_type, a.commodity_guid, a.commodity_scu, a.non_std_scu, a.parent_guid, a.code, a.description, a.hidden, a.placeholder FROM accounts AS a WHERE a.name <> 'Root Account' AND a.name <> 'Template Root' AND a.account_type <> 'ROOT' ORDER BY a.name;";

/// The latest transaction of an account with a given description, with the split on its other side. The parameters are the account's GUID 3 times, the description, then the account's GUID again.
pub const LOAD_TRANSACTION_FOR_ACCOUNT_GUID_AND_DESCRIPTION: &'static str = "SELECT ? AS excluded_account_guid, (SELECT name FROM accounts WHERE guid = ?) AS excluded_account_name, (SELECT commodities.mnemonic FROM accounts INNER JOIN commodities ON commodities.guid = accounts.commodity_guid WHERE accounts.guid = ?) AS excluded_account_mnemonic, t.guid, t.currency_guid, t.num, t.post_date, t.enter_date, t.description, s.value_num, s.value_denom, a.name AS account_name, a.guid AS account_guid, s.memo FROM transactions AS t INNER JOIN splits AS s ON s.tx_guid = t.guid INNER JOIN accounts AS a ON a.guid = s.account_guid WHERE t.description = ? AND t.guid IN (SELECT tx_guid FROM splits WHERE account_guid = ?) AND s.account_guid <> excluded_account_guid ORDER BY t.post_date DESC, t.guid DESC LIMIT 1;";

/// The SQL text of the query `load_splits_for_last_30_day_report`: the splits of one account type posted within a period, with their transaction's description and post date and their account's name, by post date. The three parameters are the start date, the end date and the account type.
pub fn load_splits_for_last_30_day_report() -> (r: String)
    ensures
        r@ == LOAD_SPLITS_FOR_LAST_30_DAY_REPORT@,
{
    string_of(LOAD_SPLITS_FOR_LAST_30_DAY_REPORT)
}

/// The SQL text of the query `load_slots_for_name`: all the slots with a given name. The parameter is the name.
pub fn load_slots_for_name() -> (r: String)
    ensures
        r@ == LOAD_SLOTS_FOR_NAME@,
{
    string_of(LOAD_SLOTS_FOR_NAME)
}

/// The SQL text of the query `load_slots_for_name_and_string_val`: the slots with a given name and string value. The parameters are the name and the string value.
pub fn load_slots_for_name_and_string_val() -> (r: String)
    ensures
        r@ == LOAD_SLOTS_FOR_NAME_AND_STRING_VAL@,
{
    string_of(LOAD_SLOTS_FOR_NAME_AND_STRING_VAL)
}

/// The SQL text of the query `load_accounts_with_balances`: every visible account that is no placeholder, root or template, with its balance and its commodity's mnemonic. It takes no parameter.
pub fn load_accounts_with_balances() -> (r: String)
    ensures
        r@ == LOAD_ACCOUNTS_WITH_BALANCES@,
{
    string_of(LOAD_ACCOUNTS_WITH_BALANCES)
}

/// The SQL text of the query `load_transactions_for_account`: all the transactions of an account, each with the split on its other side. The account's GUID is passed 4 times.
pub fn load_transactions_for_account() -> (r: String)
    ensures
        r@ == LOAD_TRANSACTIONS_FOR_ACCOUNT@,
{
    string_of(LOAD_TRANSACTIONS_FOR_ACCOUNT)
}

/// The SQL text of the query `load_commodity_for_guid`: the commodity with a given GUID. The parameter is the GUID.
pub fn load_commodity_for_guid() -> (r: String)
    ensures
        r@ == LOAD_COMMODITY_FOR_GUID@,
{
    string_of(LOAD_COMMODITY_FOR_GUID)
}

/// The SQL text of the query `load_account_with_balance_for_date_and_guid`: an account with its balance from its opening up to a date. The parameters are the date and the account's GUID.
pub fn load_account_with_balance_for_date_and_guid() -> (r: String)
    ensures
        r@ == LOAD_ACCOUNT_WITH_BALANCE_FOR_DATE_AND_GUID@,
{
    string_of(LOAD_ACCOUNT_WITH_BALANCE_FOR_DATE_AND_GUID)
}

/// The SQL text of the query `load_account_with_balance_for_guid`: an account with its balance. The parameter is the account's GUID.
pub fn load_account_with_balance_for_guid() -> (r: String)
    ensures
        r@ == LOAD_ACCOUNT_WITH_BALANCE_FOR_GUID@,
{
    string_of(LOAD_ACCOUNT_WITH_BALANCE_FOR_GUID)
}

/// The SQL text of the query `load_transactions_for_account_between_dates`: the transactions of an account posted between two dates. The account's GUID is passed 4 times, then the first date, then the last one.
pub fn load_transactions_for_account_between_dates() -> (r: String)
    ensures
        r@ == LOAD_TRANSACTIONS_FOR_ACCOUNT_BETWEEN_DATES@,
{
    string_of(LOAD_TRANSACTIONS_FOR_ACCOUNT_BETWEEN_DATES)
}

/// The SQL text of the query `load_all_accounts_except_root_and_template`: every account except the root and template ones, by name. It takes no parameter.
pub fn load_all_accounts_except_root_and_template() -> (r: String)
    ensures
        r@ == LOAD_ALL_ACCOUNTS_EXCEPT_ROOT_AND_TEMPLATE@,
{
    string_of(LOAD_ALL_ACCOUNTS_EXCEPT_ROOT_AND_TEMPLATE)
}

/// The SQL text of the query `load_transaction_for_account_guid_and_description`: the latest transaction of an account with a given description, with the split on its other side. The parameters are the account's GUID 3 times, the description, then the account's GUID again.
pub fn load_transaction_for_account_guid_and_description() -> (r: String)
    ensures
        r@ == LOAD_TRANSACTION_FOR_ACCOUNT_GUID_AND_DESCRIPTION@,
{
    string_of(LOAD_TRANSACTION_FOR_ACCOUNT_GUID_AND_DESCRIPTION)
}

/// The SQL text with which the desktop page loaded the accounts and their balances.
pub fn sql_load_accounts_with_balances() -> (r: String)
    ensures
        r@ == LOAD_ACCOUNTS_WITH_BALANCES@,
{
    string_of(LOAD_ACCOUNTS_WITH_BALANCES)
}

} // verus!
