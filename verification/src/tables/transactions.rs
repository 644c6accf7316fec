use vstd::prelude::*;
use crate::guid::Guid;
use crate::text::string_of;

verus! {

/// The column list given for the transaction records. It is the same text as the
/// accounts' column list.
pub const FIELDS: &'static str = "guid,name,account_type,commodity_guid,commodity_scu,non_std_scu,parent_guid,code,description,hidden,placeholder ";

/// The column list the transaction records are read with.
pub fn _fields() -> (r: String)
    ensures
        r@ == FIELDS@,
{
    string_of(FIELDS)
}

/// A yes/no flag as the book's tables store it: 0 or 1.
#[derive(Clone, Copy, Debug, PartialEq, Eq, Structural)]
pub enum Bool {
    False,
    True,
}

impl Bool {
    /// The number the tables store for the flag.
    pub fn stored_value(self) -> (r: i64)
        ensures
            r == (if self == Bool::True { 1int } else { 0int }),
    {
        match self {
            Bool::False => 0,
            Bool::True => 1,
        }
    }
}

/// A transaction of the book.
#[derive(Clone, Debug)]
pub struct Transaction {
    pub guid: Guid,
    pub currency_guid: Guid,
    pub num: String,
    pub post_date: String,
    pub enter_date: String,
    pub description: String,
}

/// A transaction seen from one account: the transaction, the account it is seen
/// from (excluded), and the split on the other account.
#[derive(Clone, Debug)]
pub struct TransactionWithSplitInformation {
    pub excluded_account_guid: Guid,
    pub excluded_account_name: String,
    pub excluded_account_mnemonic: String,
    pub guid: Guid,
    pub currency_guid: Guid,
    pub num: String,
    pub post_date: String,
    pub enter_date: String,
    pub description: String,
    pub value_num: i64,
    pub value_denom: i64,
    pub account_name: String,
    pub account_guid: Guid,
    pub memo: String,
}

/// The transaction the transaction editor enters for the account being shown: no
/// number, no mnemonic, the amount in the commodity's fraction, and the chosen
/// category as the other account.
pub fn entered_transaction(
    shown_account_guid: Guid,
    shown_account_name: String,
    guid: Guid,
    currency_guid: Guid,
    post_date: String,
    enter_date: String,
    description: String,
    value_num: i64,
    fraction: i64,
    category_name: String,
    category_guid: Guid,
    memo: String,
) -> (r: TransactionWithSplitInformation)
    ensures
        r.excluded_account_guid == shown_account_guid,
        r.excluded_account_name@ == shown_account_name@,
        r.excluded_account_mnemonic@ == Seq::<char>::empty(),
        r.guid == guid,
        r.currency_guid == currency_guid,
        r.num@ == Seq::<char>::empty(),
        r.post_date@ == post_date@,
        r.enter_date@ == enter_date@,
        r.description@ == description@,
        r.value_num == value_num,
        r.value_denom == fraction,
        r.account_name@ == category_name@,
        r.account_guid == category_guid,
        r.memo@ == memo@,
{
    let empty = String::new();
    TransactionWithSplitInformation {
        excluded_account_guid: shown_account_guid,
        excluded_account_name: shown_account_name,
        excluded_account_mnemonic: empty,
        guid,
        currency_guid,
        num: String::new(),
        post_date,
        enter_date,
        description,
        value_num,
        value_denom: fraction,
        account_name: category_name,
        account_guid: category_guid,
        memo,
    }
}

} // verus!
