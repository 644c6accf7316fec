use money_manager::guid::{_null_guid, convert_guid_to_sqlite_string, Guid};
use money_manager::page::{
    get_default_page_css, get_default_page_html, get_default_page_js, ID_BODY, ID_FOOTER, ID_MAIN_MENU_LOAD_FILE,
    ID_MAIN_MENU_REFRESH_ACCOUNTS, ID_MAIN_MENU_REPORTS, ID_MAIN_MENU_SAVE_FILE, ID_MAIN_MENU_SETTINGS,
    ID_MONEY_MANAGER_FILENAME_INPUT, ID_MONEY_MANAGER_FILE_INPUT,
};
use money_manager::settings::{
    display_transactions_older_than_one_year, settings_checkbox_state, Slot,
    SLOT_NAME_DISPLAY_TRANSACTIONS_OLDER_THAN_ONE_YEAR,
};
use money_manager::transactions::{
    category_accounts, cleaned_amount_text, distinct_descriptions, matching_category_index, selected_category_index,
    transaction_amount_is_increase,
};

fn slot(string_val: &str, int64_val: i64) -> Slot {
    Slot {
        id: 1,
        obj_guid: _null_guid(),
        name: String::from("settings"),
        slot_type: 1,
        int64_val,
        string_val: String::from(string_val),
        double_val_bits: 0,
        timespec_val: String::new(),
        guid_val: String::new(),
        numeric_val_num: 0,
        numeric_val_denom: 1,
        gdate_val: String::new(),
    }
}

fn strings(v: &[&str]) -> Vec<String> {
    v.iter().map(|s| String::from(*s)).collect()
}

#[test]
fn page_holds_every_wired_element() {
    let page = get_default_page_html();
    for id in [
        ID_MAIN_MENU_LOAD_FILE,
        ID_MAIN_MENU_REFRESH_ACCOUNTS,
        ID_MAIN_MENU_SAVE_FILE,
        ID_MAIN_MENU_REPORTS,
        ID_MAIN_MENU_SETTINGS,
        ID_MONEY_MANAGER_FILE_INPUT,
        ID_MONEY_MANAGER_FILENAME_INPUT,
        ID_BODY,
        ID_FOOTER,
    ] {
        assert!(page.contains(&format!("id='{}'", id)), "missing {}", id);
    }
    assert!(page.starts_with("<!DOCTYPE html>"));
    assert!(!get_default_page_css().is_empty());
    assert!(!get_default_page_js().is_empty());
}

#[test]
fn older_transactions_shown_only_when_first_slot_holds_one() {
    assert_eq!(display_transactions_older_than_one_year(Ok(vec![slot("x", 1), slot("x", 0)])), (true, None));
    assert_eq!(display_transactions_older_than_one_year(Ok(vec![slot("x", 0), slot("x", 1)])), (false, None));
    assert_eq!(display_transactions_older_than_one_year(Ok(vec![])), (false, None));
    assert_eq!(
        display_transactions_older_than_one_year(Err(String::from("no database"))),
        (false, Some(String::from("no database")))
    );
}

#[test]
fn settings_checkbox_follows_the_last_valid_slot() {
    let name = SLOT_NAME_DISPLAY_TRANSACTIONS_OLDER_THAN_ONE_YEAR;
    assert_eq!(settings_checkbox_state(&vec![slot(name, 1)]), (true, None));
    assert_eq!(settings_checkbox_state(&vec![slot(name, 1), slot(name, 0)]), (false, None));
    assert_eq!(settings_checkbox_state(&vec![slot("other", 1)]), (false, None));
    assert_eq!(
        settings_checkbox_state(&vec![slot(name, 1), slot(name, 7), slot(name, 0)]),
        (
            true,
            Some(String::from(
                "The settings_slot with name of display_transactions_older_than_one_year is invalid! Please fix this!"
            ))
        )
    );
}

#[test]
fn amount_text_loses_spaces_dollars_and_commas() {
    assert_eq!(cleaned_amount_text(" $1, 234.50 "), "1234.50");
    assert_eq!(cleaned_amount_text("\t-12\n"), "-12");
}

#[test]
fn increase_is_a_negated_value_of_zero_or_more() {
    assert!(transaction_amount_is_increase(-500, 100));
    assert!(!transaction_amount_is_increase(500, 100));
    assert!(transaction_amount_is_increase(0, 100));
    assert!(transaction_amount_is_increase(500, -100));
    assert!(transaction_amount_is_increase(-1, 0));
    assert!(!transaction_amount_is_increase(0, 0));
    assert!(!transaction_amount_is_increase(1, 0));
}

#[test]
fn descriptions_are_offered_once_in_first_order() {
    assert_eq!(
        distinct_descriptions(&strings(&["Rent", "Food", "Rent", "Gas", "Food"])),
        strings(&["Rent", "Food", "Gas"])
    );
    assert_eq!(distinct_descriptions(&vec![]), Vec::<String>::new());
}

#[test]
fn selected_category_is_the_option_at_the_selected_index() {
    assert_eq!(selected_category_index(4, 2), Some(2));
    assert_eq!(selected_category_index(4, 3), Some(3));
    assert_eq!(selected_category_index(4, 4), None);
    assert_eq!(selected_category_index(4, -1), None);
    assert_eq!(selected_category_index(1, 0), Some(0));
    assert_eq!(selected_category_index(0, 0), None);
}

#[test]
fn category_option_of_the_account_is_found() {
    let g = Guid { bytes: [7; 16] };
    let h = Guid { bytes: [9; 16] };
    let options = vec![
        convert_guid_to_sqlite_string(&h),
        convert_guid_to_sqlite_string(&g),
        String::from("last"),
    ];
    assert_eq!(matching_category_index(&options, &g), Ok(Some(1)));
    let last = vec![convert_guid_to_sqlite_string(&h), convert_guid_to_sqlite_string(&g)];
    assert_eq!(matching_category_index(&last, &g), Ok(Some(1)));
    let one = vec![convert_guid_to_sqlite_string(&g)];
    assert_eq!(matching_category_index(&one, &g), Ok(Some(0)));
    let none = vec![convert_guid_to_sqlite_string(&h)];
    assert_eq!(matching_category_index(&none, &g), Ok(None));
    assert_eq!(matching_category_index(&vec![], &g), Ok(None));
    let bad = vec![String::from("nope"), convert_guid_to_sqlite_string(&g), String::from("last")];
    assert_eq!(
        matching_category_index(&bad, &g),
        Err(String::from("Failed to convert option value 'nope' to guid."))
    );
}

fn account(byte: u8, name: &str) -> money_manager::tables::accounts::Account {
    money_manager::tables::accounts::Account {
        guid: Guid { bytes: [byte; 16] },
        name: String::from(name),
        account_type: money_manager::account_types::AccountType::EXPENSE,
        commodity_guid: _null_guid(),
        commodity_scu: 100,
        non_std_scu: -1,
        parent_guid: _null_guid(),
        code: String::new(),
        description: String::new(),
        hidden: false,
        placeholder: false,
    }
}

#[test]
fn categories_leave_out_the_shown_account_and_go_by_name() {
    let accounts = vec![account(1, "Rent"), account(2, "Checking"), account(3, "Food"), account(4, "Auto"), account(5, "Food")];
    let categories = category_accounts(&accounts, &Guid { bytes: [2; 16] });
    let order: Vec<(String, u8)> = categories.iter().map(|a| (a.name.clone(), a.guid.bytes[0])).collect();
    assert_eq!(
        order,
        vec![
            (String::from("Auto"), 4),
            (String::from("Food"), 3),
            (String::from("Food"), 5),
            (String::from("Rent"), 1),
        ]
    );
}
