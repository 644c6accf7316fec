use money_manager::sql::{
    load_account_with_balance_for_date_and_guid, load_account_with_balance_for_guid, load_accounts_with_balances,
    load_all_accounts_except_root_and_template, load_commodity_for_guid, load_slots_for_name,
    load_slots_for_name_and_string_val, load_splits_for_last_30_day_report, load_transaction_for_account_guid_and_description,
    load_transactions_for_account, load_transactions_for_account_between_dates, sql_load_accounts_with_balances,
};
use money_manager::tables::accounts::{
    accounts_with_transactions_in_last_days_sql, active_accounts_sql, all_accounts_sql, nonhidden_accounts_sql,
};
use money_manager::tables::commodities::{delete_commodity_sql, record_changes_error};
use money_manager::tables::slots::{delete_slots_sql, slots_where_sql};
use money_manager::tables::transactions::{entered_transaction, Bool};
use money_manager::guid::Guid;

fn placeholders(sql: &str) -> usize {
    sql.matches('?').count()
}

#[test]
fn queries_bind_as_many_values_as_they_take() {
    assert_eq!(placeholders(&load_splits_for_last_30_day_report()), 3);
    assert_eq!(placeholders(&load_slots_for_name()), 1);
    assert_eq!(placeholders(&load_slots_for_name_and_string_val()), 2);
    assert_eq!(placeholders(&load_accounts_with_balances()), 0);
    assert_eq!(placeholders(&load_transactions_for_account()), 4);
    assert_eq!(placeholders(&load_commodity_for_guid()), 1);
    assert_eq!(placeholders(&load_account_with_balance_for_date_and_guid()), 2);
    assert_eq!(placeholders(&load_account_with_balance_for_guid()), 1);
    assert_eq!(placeholders(&load_transactions_for_account_between_dates()), 6);
    assert_eq!(placeholders(&load_all_accounts_except_root_and_template()), 0);
    assert_eq!(placeholders(&load_transaction_for_account_guid_and_description()), 5);
}

#[test]
fn desktop_balance_query_is_the_browser_one() {
    assert_eq!(sql_load_accounts_with_balances(), load_accounts_with_balances());
}

#[test]
fn account_queries_read_the_account_columns() {
    let fields = money_manager::tables::accounts::_fields();
    for q in [active_accounts_sql(), nonhidden_accounts_sql(), all_accounts_sql()] {
        assert!(q.starts_with(&format!("SELECT {}", fields)));
        assert!(q.contains(" FROM accounts "));
    }
    assert!(active_accounts_sql().contains("(hidden=0) AND (placeholder=0)"));
}

#[test]
fn period_query_holds_both_bounds() {
    let q = accounts_with_transactions_in_last_days_sql("2020-01-01 00:00:00", "2020-01-31 23:59:59");
    assert!(q.contains(" FROM accounts WHERE accounts.guid IN ("));
    assert!(q.contains("datetime('2020-01-01 00:00:00')"));
    assert!(q.contains("datetime('2020-01-31 23:59:59')"));
    assert!(q.find("2020-01-01").unwrap() < q.find("2020-01-31").unwrap());
}

#[test]
fn slot_queries() {
    let q = slots_where_sql("name");
    assert!(q.ends_with(" FROM slots WHERE name=@name "));
    assert_eq!(delete_slots_sql(), "DELETE FROM slots  WHERE obj_guid=@obj_guid");
    assert!(delete_commodity_sql().contains("commodities"));
}

#[test]
fn a_write_must_change_one_record() {
    assert_eq!(record_changes_error(1), None);
    assert_eq!(record_changes_error(0), Some(String::from("There were 0 record changes instead of just 1!")));
    assert_eq!(record_changes_error(12), Some(String::from("There were 12 record changes instead of just 1!")));
}

#[test]
fn column_lists() {
    assert_eq!(money_manager::tables::lots::_fields(), "guid, account_guid, is_closed");
    assert_eq!(money_manager::tables::transactions::_fields(), money_manager::tables::accounts::_fields());
    assert!(money_manager::tables::books::_fields().starts_with("guid"));
    assert!(money_manager::tables::versions::_fields().len() > 0);
    assert!(money_manager::tables::slots::_fields().contains("obj_guid"));
    assert!(money_manager::tables::commodities::_fields().contains("mnemonic"));
}

#[test]
fn flags_store_as_zero_and_one() {
    assert_eq!(Bool::False.stored_value(), 0);
    assert_eq!(Bool::True.stored_value(), 1);
}

#[test]
fn entered_transaction_fills_the_record() {
    let shown = Guid { bytes: [1; 16] };
    let t = entered_transaction(
        shown,
        String::from("Checking"),
        Guid { bytes: [2; 16] },
        Guid { bytes: [3; 16] },
        String::from("20120801040000"),
        String::from("20120802090000"),
        String::from("Groceries"),
        -1234,
        100,
        String::from("Food"),
        Guid { bytes: [4; 16] },
        String::from("weekly"),
    );
    assert_eq!(t.excluded_account_guid.bytes, [1; 16]);
    assert_eq!(t.excluded_account_name, "Checking");
    assert_eq!(t.excluded_account_mnemonic, "");
    assert_eq!(t.num, "");
    assert_eq!(t.post_date, "20120801040000");
    assert_eq!(t.value_num, -1234);
    assert_eq!(t.value_denom, 100);
    assert_eq!(t.account_name, "Food");
    assert_eq!(t.account_guid.bytes, [4; 16]);
    assert_eq!(t.memo, "weekly");
}
