use money_manager::account_editor::{commodity_select_html, edited_account, new_account_for_editor};
use money_manager::account_types::AccountType;
use money_manager::guid::Guid;
use money_manager::tables::commodities::Commodity;

fn commodity(byte: u8, mnemonic: &str) -> Commodity {
    Commodity {
        guid: Guid { bytes: [byte; 16] },
        namespace: String::from("CURRENCY"),
        mnemonic: String::from(mnemonic),
        fullname: String::new(),
        cusip: String::new(),
        fraction: 100,
        quote_flag: 1,
        quote_source: String::new(),
        quote_tz: String::new(),
    }
}

#[test]
fn new_account_starts_empty() {
    let a = new_account_for_editor(Guid { bytes: [5; 16] });
    assert_eq!(a.guid.bytes, [5; 16]);
    assert_eq!(a.name, "");
    assert_eq!(a.account_type, AccountType::ASSET);
    assert_eq!(a.commodity_guid.bytes, [0; 16]);
    assert_eq!(a.parent_guid.bytes, [0; 16]);
    assert_eq!((a.commodity_scu, a.non_std_scu), (0, 0));
    assert!(!a.hidden && !a.placeholder);
}

#[test]
fn edited_account_uses_a_fraction_of_one_hundred() {
    let a = edited_account(
        Guid { bytes: [1; 16] },
        String::from("Checking"),
        AccountType::BANK,
        Guid { bytes: [2; 16] },
        Guid { bytes: [3; 16] },
        String::from("100"),
        String::from("Main account"),
        false,
        true,
    );
    assert_eq!(a.name, "Checking");
    assert_eq!(a.account_type, AccountType::BANK);
    assert_eq!(a.commodity_guid.bytes, [2; 16]);
    assert_eq!(a.parent_guid.bytes, [3; 16]);
    assert_eq!((a.commodity_scu, a.non_std_scu), (100, -1));
    assert_eq!(a.code, "100");
    assert_eq!(a.description, "Main account");
    assert!(!a.hidden && a.placeholder);
}

#[test]
fn commodity_list_selects_the_account_commodity() {
    let commodities = vec![commodity(0x11, "USD"), commodity(0x22, "EUR")];
    let html = commodity_select_html(&commodities, Some(Guid { bytes: [0x22; 16] }));
    assert_eq!(
        html,
        "\n            <label id='account_editor_account_commodity_label'>Commodity: \n                <select id='account_editor_account_commodity_select'>\n        <option  value='11111111111111111111111111111111'>USD</option><option SELECTED value='22222222222222222222222222222222'>EUR</option></select></label>"
    );
    let none = commodity_select_html(&commodities, None);
    assert!(!none.contains("SELECTED"));
}
