use vstd::prelude::*;
use crate::guid::Guid;

verus! {

/// A split with the description and posting date of its transaction and the name
/// of its account, as the reports read them.
#[derive(Clone, Debug)]
pub struct SplitWithTransactionInformation {
    pub guid: Guid,
    pub tx_guid: Guid,
    pub account_guid: Guid,
    pub memo: String,
    pub action: String,
    pub reconcile_state: String,
    pub reconcile_date: Option<String>,
    pub value_num: i64,
    pub value_denom: i64,
    pub quantity_num: i64,
    pub quantity_denom: i64,
    pub lot_guid: Option<String>,
    pub account_name: String,
    pub description: String,
    pub post_date: String,
}

} // verus!
