use vstd::prelude::*;
use crate::account_types::AccountType;
use crate::guid::{_null_guid, convert_guid_to_sqlite_string, guid_eq, simple_hex, Guid};
use crate::tables::accounts::Account;
use crate::tables::commodities::Commodity;
use crate::text::{push_str, string_of};

verus! {

/// The account the editor starts from when the book has none with the GUID: no
/// name, code or description, an asset account with the null commodity and parent,
/// both fractions 0, neither hidden nor a placeholder.
pub fn new_account_for_editor(account_guid: Guid) -> (r: Account)
    ensures
        r.guid == account_guid,
        r.name@ == Seq::<char>::empty(),
        r.account_type == AccountType::ASSET,
        r.commodity_guid@ == Seq::new(16, |i: int| 0u8),
        r.commodity_scu == 0,
        r.non_std_scu == 0,
        r.parent_guid@ == Seq::new(16, |i: int| 0u8),
        r.code@ == Seq::<char>::empty(),
        r.description@ == Seq::<char>::empty(),
        !r.hidden,
        !r.placeholder,
{
    Account {
        guid: account_guid,
        name: String::new(),
        account_type: AccountType::ASSET,
        commodity_guid: _null_guid(),
        commodity_scu: 0,
        non_std_scu: 0,
        parent_guid: _null_guid(),
        code: String::new(),
        description: String::new(),
        hidden: false,
        placeholder: false,
    }
}

/// The account the editor saves from its form: a fraction of 100 and no
/// non-standard fraction (-1), under the parent found for its type.
pub fn edited_account(
    account_guid: Guid,
    name: String,
    account_type: AccountType,
    commodity_guid: Guid,
    parent_guid: Guid,
    code: String,
    description: String,
    hidden: bool,
    placeholder: bool,
) -> (r: Account)
    ensures
        r.guid == account_guid,
        r.name@ == name@,
        r.account_type == account_type,
        r.commodity_guid == commodity_guid,
        r.commodity_scu == 100,
        r.non_std_scu == -1,
        r.parent_guid == parent_guid,
        r.code@ == code@,
        r.description@ == description@,
        r.hidden == hidden,
        r.placeholder == placeholder,
{
    Account {
        guid: account_guid,
        name,
        account_type,
        commodity_guid,
        commodity_scu: 100,
        non_std_scu: -1,
        parent_guid,
        code,
        description,
        hidden,
        placeholder,
    }
}

/// One option of the editor's commodity list: the commodity's GUID as its value,
/// its mnemonic as its text, `SELECTED` when it is the account's.
pub open spec fn commodity_option(guid: Seq<u8>, mnemonic: Seq<char>, selected: bool) -> Seq<char> {
    "<option "@ + (if selected { "SELECTED"@ } else { ""@ }) + " value='"@ + simple_hex(guid) + "'>"@
        + mnemonic + "</option>"@
}

/// The options of the commodity list, in the order of the commodities, the
/// account's commodity (if it has one) selected.
pub open spec fn commodity_options(commodities: Seq<Commodity>, selected: Option<Seq<u8>>) -> Seq<char>
    decreases commodities.len(),
{
    if commodities.len() == 0 {
        Seq::empty()
    } else {
        let c = commodities.last();
        commodity_options(commodities.drop_last(), selected) + commodity_option(
            c.guid@,
            c.mnemonic@,
            selected == Some(c.guid@),
        )
    }
}

/// The editor's commodity list.
pub open spec fn commodity_select_spec(commodities: Seq<Commodity>, selected: Option<Seq<u8>>) -> Seq<char> {
    "\n            <label id='account_editor_account_commodity_label'>Commodity: \n                <select id='account_editor_account_commodity_select'>\n        "@
        + commodity_options(commodities, selected) + "</select></label>"@
}

/// The HTML of the editor's commodity list for an account whose commodity is
/// `selected` (see `commodity_select_spec`).
pub fn commodity_select_html(commodities: &Vec<Commodity>, selected: Option<Guid>) -> (r: String)
    ensures
        r@ == commodity_select_spec(
            commodities@,
            match selected {
                Some(g) => Some(g@),
                None => None,
            },
        ),
{
    let ghost sel = match selected {
        Some(g) => Some(g@),
        None => None::<Seq<u8>>,
    };
    let mut html = string_of(
        "\n            <label id='account_editor_account_commodity_label'>Commodity: \n                <select id='account_editor_account_commodity_select'>\n        ",
    );
    let ghost start = html@;
    let mut i: usize = 0;
    while i < commodities.len()
        invariant
            0 <= i <= commodities@.len(),
            sel == (match selected {
                Some(g) => Some(g@),
                None => None::<Seq<u8>>,
            }),
            html@ == start + commodity_options(commodities@.take(i as int), sel),
        decreases commodities@.len() - i,
    {
        let c = &commodities[i];
        let is_selected = match &selected {
            Some(g) => guid_eq(g, &c.guid),
            None => false,
        };
        push_str(&mut html, "<option ");
        if is_selected {
            push_str(&mut html, "SELECTED");
        } else {
            push_str(&mut html, "");
        }
        push_str(&mut html, " value='");
        let hex = convert_guid_to_sqlite_string(&c.guid);
        push_str(&mut html, hex.as_str());
        push_str(&mut html, "'>");
        push_str(&mut html, c.mnemonic.as_str());
        push_str(&mut html, "</option>");
        proof {
            assert(commodities@.take(i as int + 1).drop_last() =~= commodities@.take(i as int));
            assert(commodities@.take(i as int + 1).last() == commodities@[i as int]);
            assert(is_selected == (sel == Some(c.guid@)));
            assert(html@ =~= start + commodity_options(commodities@.take(i as int + 1), sel));
        }
        i = i + 1;
    }
    proof {
        assert(commodities@.take(commodities@.len() as int) =~= commodities@);
    }
    push_str(&mut html, "</select></label>");
    html
}

} // verus!
