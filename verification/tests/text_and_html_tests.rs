use money_manager::account_types::{
    account_type_from_name, account_type_select_html, convert_to_account_type, editor_account_type, AccountType,
};
use money_manager::database::valid_database;
use money_manager::html::{
    csv_export_link_html, download_link_html, header_css_class, loading_message_html, new_database_download_html,
    save_database_link_html,
};
use money_manager::text::{remove_char, replace_char, to_ascii_lowercase, trim, u64_to_decimal};

#[test]
fn header_class_joins_prefix_and_header() {
    assert_eq!(header_css_class("Account List", "Current Balance"), "account_list_current_balance");
    assert_eq!(header_css_class("", ""), "_");
}

#[test]
fn loading_message_wraps_the_message() {
    let h = loading_message_html("Loading...");
    assert!(h.starts_with("<div style='display:flex;width:100%;height:100%;justify-content:center;align-items: center;'>\n                Loading...<br>"));
    assert!(h.ends_with("</div>\n            </div>"));
}

#[test]
fn download_link_carries_name_id_and_data() {
    assert_eq!(
        download_link_html("book.gnucash", "MoneyManagerFile", "QUJD"),
        "<a download='book.gnucash' id='MoneyManagerFile' \n                        href='data:application/octet-stream;base64,QUJD' target='_self'>Download</a>"
    );
}

#[test]
fn save_link_encodes_the_bytes_in_base64_without_padding() {
    let h = save_database_link_html("a.gnucash", b"hi");
    assert_eq!(
        h,
        "<a download='a.gnucash' id='MoneyManagerFile' \n                        href='data:application/octet-stream;base64,aGk' target='_self'>Download</a>"
    );
    let c = csv_export_link_html("data.csv", b"ABC");
    assert!(c.contains("id='csv_data_export_button'"));
    assert!(c.contains("base64,QUJD'"));
}

#[test]
fn new_book_link_has_fixed_name() {
    assert_eq!(
        new_database_download_html(b"Man"),
        "<a download='MoneyManagerFile.gnucash' id='MoneyManagerFile' \n                                href='data:application/octet-stream;base64,TWFu' target='_self'>Download</a>"
    );
}

#[test]
fn database_must_be_long_enough() {
    assert_eq!(
        valid_database(b"SQLite"),
        Err(String::from("The selected file is not a valid SQLite Database! Its length is 6."))
    );
}

#[test]
fn database_must_start_with_the_sqlite_header() {
    assert_eq!(
        valid_database(b"Not a database at all"),
        Err(String::from("The selected file does not have a valid SQLite Database header."))
    );
    assert_eq!(valid_database(b"SQLite format 3\0rest"), Ok(()));
    assert_eq!(valid_database(b"sqlite FORMAT 3\0rest"), Ok(()));
}

#[test]
fn text_helpers() {
    assert_eq!(to_ascii_lowercase("AbC-Ä"), "abc-Ä");
    assert_eq!(remove_char("1,234,567", ','), "1234567");
    assert_eq!(replace_char("a b c", ' ', '_'), "a_b_c");
    assert_eq!(trim("  \t value \n"), "value");
    assert_eq!(u64_to_decimal(0), "0");
    assert_eq!(u64_to_decimal(18446744073709551615), "18446744073709551615");
}

#[test]
fn account_type_names_read_back() {
    for t in [
        AccountType::ASSET,
        AccountType::BANK,
        AccountType::CASH,
        AccountType::CREDIT,
        AccountType::EQUITY,
        AccountType::EXPENSE,
        AccountType::INCOME,
        AccountType::LIABILITY,
        AccountType::RECEIVABLE,
        AccountType::ROOT,
    ] {
        let name = t.to_string();
        assert_eq!(account_type_from_name(&name), Some(t));
        assert_eq!(convert_to_account_type(&name), t);
    }
    assert_eq!(AccountType::BANK.to_string(), "BANK");
    assert_eq!(account_type_from_name("bank"), None);
}

#[test]
fn account_editor_offers_every_type_but_root() {
    assert_eq!(editor_account_type("CREDIT"), AccountType::CREDIT);
    assert_eq!(editor_account_type("RECEIVABLE"), AccountType::RECEIVABLE);
}

#[test]
fn account_type_list_selects_the_account_type() {
    let h = account_type_select_html(AccountType::CASH);
    assert!(h.contains("<option SELECTED>CASH</option>"));
    assert!(h.contains("<option >BANK</option>"));
    assert!(!h.contains("ROOT"));
    assert_eq!(h.matches("SELECTED").count(), 1);
}
