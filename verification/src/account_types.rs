use vstd::prelude::*;
use crate::text::{push_str, str_eq, string_of};

verus! {

/// The kinds of account in a GnuCash book.
#[derive(Clone, Copy, Debug, PartialEq, Eq, Structural)]
pub enum AccountType {
    ASSET,
    BANK,
    CASH,
    CREDIT,
    EQUITY,
    EXPENSE,
    INCOME,
    LIABILITY,
    RECEIVABLE,
    ROOT,
}

/// The name under which the book stores an account type (also how it is shown).
pub open spec fn account_type_name(t: AccountType) -> Seq<char> {
    match t {
        AccountType::ASSET => "ASSET"@,
        AccountType::BANK => "BANK"@,
        AccountType::CASH => "CASH"@,
        AccountType::CREDIT => "CREDIT"@,
        AccountType::EQUITY => "EQUITY"@,
        AccountType::EXPENSE => "EXPENSE"@,
        AccountType::INCOME => "INCOME"@,
        AccountType::LIABILITY => "LIABILITY"@,
        AccountType::RECEIVABLE => "RECEIVABLE"@,
        AccountType::ROOT => "ROOT"@,
    }
}

/// The account type with a given name, if there is one.
pub open spec fn account_type_named(s: Seq<char>) -> Option<AccountType> {
    if s == "ASSET"@ {
        Some(AccountType::ASSET)
    } else if s == "BANK"@ {
        Some(AccountType::BANK)
    } else if s == "CASH"@ {
        Some(AccountType::CASH)
    } else if s == "CREDIT"@ {
        Some(AccountType::CREDIT)
    } else if s == "EQUITY"@ {
        Some(AccountType::EQUITY)
    } else if s == "EXPENSE"@ {
        Some(AccountType::EXPENSE)
    } else if s == "INCOME"@ {
        Some(AccountType::INCOME)
    } else if s == "LIABILITY"@ {
        Some(AccountType::LIABILITY)
    } else if s == "RECEIVABLE"@ {
        Some(AccountType::RECEIVABLE)
    } else if s == "ROOT"@ {
        Some(AccountType::ROOT)
    } else {
        None
    }
}

impl AccountType {
    /// The name of the account type, as it is shown and stored (for example `BANK`).
    pub fn to_string(&self) -> (r: String)
        ensures
            r@ == account_type_name(*self),
    {
        match self {
            AccountType::ASSET => string_of("ASSET"),
            AccountType::BANK => string_of("BANK"),
            AccountType::CASH => string_of("CASH"),
            AccountType::CREDIT => string_of("CREDIT"),
            AccountType::EQUITY => string_of("EQUITY"),
            AccountType::EXPENSE => string_of("EXPENSE"),
            AccountType::INCOME => string_of("INCOME"),
            AccountType::LIABILITY => string_of("LIABILITY"),
            AccountType::RECEIVABLE => string_of("RECEIVABLE"),
            AccountType::ROOT => string_of("ROOT"),
        }
    }
}

/// The account type with the given name, if there is one.
pub fn account_type_from_name(name: &str) -> (r: Option<AccountType>)
    ensures
        r == account_type_named(name@),
{
    if str_eq(name, "ASSET") {
        Some(AccountType::ASSET)
    } else if str_eq(name, "BANK") {
        Some(AccountType::BANK)
    } else if str_eq(name, "CASH") {
        Some(AccountType::CASH)
    } else if str_eq(name, "CREDIT") {
        Some(AccountType::CREDIT)
    } else if str_eq(name, "EQUITY") {
        Some(AccountType::EQUITY)
    } else if str_eq(name, "EXPENSE") {
        Some(AccountType::EXPENSE)
    } else if str_eq(name, "INCOME") {
        Some(AccountType::INCOME)
    } else if str_eq(name, "LIABILITY") {
        Some(AccountType::LIABILITY)
    } else if str_eq(name, "RECEIVABLE") {
        Some(AccountType::RECEIVABLE)
    } else if str_eq(name, "ROOT") {
        Some(AccountType::ROOT)
    } else {
        None
    }
}

/// The account type that the book stores under a name; the desktop reader stops
/// on a name that is no account type, so the name must be one.
pub fn convert_to_account_type(incoming_account_type: &str) -> (r: AccountType)
    requires
        account_type_named(incoming_account_type@) is Some,
    ensures
        Some(r) == account_type_named(incoming_account_type@),
{
    match account_type_from_name(incoming_account_type) {
        Some(t) => t,
        None => AccountType::ROOT,
    }
}

/// The account type chosen in the account editor, whose list offers every type
/// but `ROOT`; the editor stops on any other name, so the name must be one of those
/// on offer.
pub fn editor_account_type(option_value: &str) -> (r: AccountType)
    requires
        account_type_named(option_value@) is Some,
        account_type_named(option_value@) != Some(AccountType::ROOT),
    ensures
        Some(r) == account_type_named(option_value@),
        r != AccountType::ROOT,
{
    match account_type_from_name(option_value) {
        Some(t) => t,
        None => AccountType::ASSET,
    }
}


/// One option of the account-type list, marked `SELECTED` when it is the current type.
pub open spec fn select_option(name: Seq<char>, selected: bool) -> Seq<char> {
    "\n                <option "@ + (if selected { "SELECTED"@ } else { ""@ }) + ">"@ + name + "</option>"@
}

/// The account editor's account-type list for an account of type `t`: every type
/// but `ROOT`, in declaration order, with the account's own type selected.
pub open spec fn account_type_select_spec(t: AccountType) -> Seq<char> {
    "\n        <label id='account_editor_account_type_label'>Account Type: \n            <select id='account_editor_account_type_select'>"@ + select_option("ASSET"@, t == AccountType::ASSET) + select_option("BANK"@, t == AccountType::BANK) + select_option("CASH"@, t == AccountType::CASH) + select_option("CREDIT"@, t == AccountType::CREDIT) + select_option("EQUITY"@, t == AccountType::EQUITY) + select_option("EXPENSE"@, t == AccountType::EXPENSE) + select_option("INCOME"@, t == AccountType::INCOME) + select_option("LIABILITY"@, t == AccountType::LIABILITY) + select_option("RECEIVABLE"@, t == AccountType::RECEIVABLE) + "\n            </select>\n        </label>"@
}

fn push_select_option(html: &mut String, name: &str, selected: bool)
    ensures
        final(html)@ == old(html)@ + select_option(name@, selected),
{
    push_str(html, "\n                <option ");
    if selected {
        push_str(html, "SELECTED");
    } else {
        push_str(html, "");
    }
    push_str(html, ">");
    push_str(html, name);
    push_str(html, "</option>");
}

/// The HTML of the account editor's account-type list for an account of type `t`.
pub fn account_type_select_html(t: AccountType) -> (r: String)
    ensures
        r@ == account_type_select_spec(t),
{
    let mut html = string_of("\n        <label id='account_editor_account_type_label'>Account Type: \n            <select id='account_editor_account_type_select'>");
    push_select_option(&mut html, "ASSET", t == AccountType::ASSET);
    push_select_option(&mut html, "BANK", t == AccountType::BANK);
    push_select_option(&mut html, "CASH", t == AccountType::CASH);
    push_select_option(&mut html, "CREDIT", t == AccountType::CREDIT);
    push_select_option(&mut html, "EQUITY", t == AccountType::EQUITY);
    push_select_option(&mut html, "EXPENSE", t == AccountType::EXPENSE);
    push_select_option(&mut html, "INCOME", t == AccountType::INCOME);
    push_select_option(&mut html, "LIABILITY", t == AccountType::LIABILITY);
    push_select_option(&mut html, "RECEIVABLE", t == AccountType::RECEIVABLE);
    push_str(&mut html, "\n            </select>\n        </label>");
    html
}

/// A name that reads as an account type is that type's name: reading a type and
/// writing it back gives the same text.
pub proof fn lemma_type_named_writes_back(s: Seq<char>)
    ensures
        account_type_named(s) matches Some(t) ==> account_type_name(t) == s,
{
}

/// Every account type reads back from its name.
pub proof fn lemma_type_name_reads_back(t: AccountType)
    ensures
        account_type_named(account_type_name(t)) == Some(t),
{
    reveal_strlit("ASSET");
    reveal_strlit("BANK");
    reveal_strlit("CASH");
    reveal_strlit("CREDIT");
    reveal_strlit("EQUITY");
    reveal_strlit("EXPENSE");
    reveal_strlit("INCOME");
    reveal_strlit("LIABILITY");
    reveal_strlit("RECEIVABLE");
    reveal_strlit("ROOT");
    let n = account_type_name(t);
    assert(n == "ASSET"@ <==> t == AccountType::ASSET) by {
        if t != AccountType::ASSET {
            assert(n.len() != "ASSET"@.len() || exists|i: int| 0 <= i < n.len() && n[i] != "ASSET"@[i]) by {
            match t {
                AccountType::BANK => { assert(n.len() == 4); }
                AccountType::CASH => { assert(n.len() == 4); }
                AccountType::CREDIT => { assert(n.len() == 6); }
                AccountType::EQUITY => { assert(n.len() == 6); }
                AccountType::EXPENSE => { assert(n.len() == 7); }
                AccountType::INCOME => { assert(n.len() == 6); }
                AccountType::LIABILITY => { assert(n.len() == 9); }
                AccountType::RECEIVABLE => { assert(n.len() == 10); }
                AccountType::ROOT => { assert(n.len() == 4); }
                _ => {}
            }
            }
        }
    }
    assert(n == "BANK"@ <==> t == AccountType::BANK) by {
        if t != AccountType::BANK {
            assert(n.len() != "BANK"@.len() || exists|i: int| 0 <= i < n.len() && n[i] != "BANK"@[i]) by {
            match t {
                AccountType::ASSET => { assert(n.len() == 5); }
                AccountType::CASH => { assert(n[0] != "BANK"@[0]); }
                AccountType::CREDIT => { assert(n.len() == 6); }
                AccountType::EQUITY => { assert(n.len() == 6); }
                AccountType::EXPENSE => { assert(n.len() == 7); }
                AccountType::INCOME => { assert(n.len() == 6); }
                AccountType::LIABILITY => { assert(n.len() == 9); }
                AccountType::RECEIVABLE => { assert(n.len() == 10); }
                AccountType::ROOT => { assert(n[0] != "BANK"@[0]); }
                _ => {}
            }
            }
        }
    }
    assert(n == "CASH"@ <==> t == AccountType::CASH) by {
        if t != AccountType::CASH {
            assert(n.len() != "CASH"@.len() || exists|i: int| 0 <= i < n.len() && n[i] != "CASH"@[i]) by {
            match t {
                AccountType::ASSET => { assert(n.len() == 5); }
                AccountType::BANK => { assert(n[0] != "CASH"@[0]); }
                AccountType::CREDIT => { assert(n.len() == 6); }
                AccountType::EQUITY => { assert(n.len() == 6); }
                AccountType::EXPENSE => { assert(n.len() == 7); }
                AccountType::INCOME => { assert(n.len() == 6); }
                AccountType::LIABILITY => { assert(n.len() == 9); }
                AccountType::RECEIVABLE => { assert(n.len() == 10); }
                AccountType::ROOT => { assert(n[0] != "CASH"@[0]); }
                _ => {}
            }
            }
        }
    }
    assert(n == "CREDIT"@ <==> t == AccountType::CREDIT) by {
        if t != AccountType::CREDIT {
            assert(n.len() != "CREDIT"@.len() || exists|i: int| 0 <= i < n.len() && n[i] != "CREDIT"@[i]) by {
            match t {
                AccountType::ASSET => { assert(n.len() == 5); }
                AccountType::BANK => { assert(n.len() == 4); }
                AccountType::CASH => { assert(n.len() == 4); }
                AccountType::EQUITY => { assert(n[0] != "CREDIT"@[0]); }
                AccountType::EXPENSE => { assert(n.len() == 7); }
                AccountType::INCOME => { assert(n[0] != "CREDIT"@[0]); }
                AccountType::LIABILITY => { assert(n.len() == 9); }
                AccountType::RECEIVABLE => { assert(n.len() == 10); }
                AccountType::ROOT => { assert(n.len() == 4); }
                _ => {}
            }
            }
        }
    }
    assert(n == "EQUITY"@ <==> t == AccountType::EQUITY) by {
        if t != AccountType::EQUITY {
            assert(n.len() != "EQUITY"@.len() || exists|i: int| 0 <= i < n.len() && n[i] != "EQUITY"@[i]) by {
            match t {
                AccountType::ASSET => { assert(n.len() == 5); }
                AccountType::BANK => { assert(n.len() == 4); }
                AccountType::CASH => { assert(n.len() == 4); }
                AccountType::CREDIT => { assert(n[0] != "EQUITY"@[0]); }
                AccountType::EXPENSE => { assert(n.len() == 7); }
                AccountType::INCOME => { assert(n[0] != "EQUITY"@[0]); }
                AccountType::LIABILITY => { assert(n.len() == 9); }
                AccountType::RECEIVABLE => { assert(n.len() == 10); }
                AccountType::ROOT => { assert(n.len() == 4); }
                _ => {}
            }
            }
        }
    }
    assert(n == "EXPENSE"@ <==> t == AccountType::EXPENSE) by {
        if t != AccountType::EXPENSE {
            assert(n.len() != "EXPENSE"@.len() || exists|i: int| 0 <= i < n.len() && n[i] != "EXPENSE"@[i]) by {
            match t {
                AccountType::ASSET => { assert(n.len() == 5); }
                AccountType::BANK => { assert(n.len() == 4); }
                AccountType::CASH => { assert(n.len() == 4); }
                AccountType::CREDIT => { assert(n.len() == 6); }
                AccountType::EQUITY => { assert(n.len() == 6); }
                AccountType::INCOME => { assert(n.len() == 6); }
                AccountType::LIABILITY => { assert(n.len() == 9); }
                AccountType::RECEIVABLE => { assert(n.len() == 10); }
                AccountType::ROOT => { assert(n.len() == 4); }
                _ => {}
            }
            }
        }
    }
    assert(n == "INCOME"@ <==> t == AccountType::INCOME) by {
        if t != AccountType::INCOME {
            assert(n.len() != "INCOME"@.len() || exists|i: int| 0 <= i < n.len() && n[i] != "INCOME"@[i]) by {
            match t {
                AccountType::ASSET => { assert(n.len() == 5); }
                AccountType::BANK => { assert(n.len() == 4); }
                AccountType::CASH => { assert(n.len() == 4); }
                AccountType::CREDIT => { assert(n[0] != "INCOME"@[0]); }
                AccountType::EQUITY => { assert(n[0] != "INCOME"@[0]); }
                AccountType::EXPENSE => { assert(n.len() == 7); }
                AccountType::LIABILITY => { assert(n.len() == 9); }
                AccountType::RECEIVABLE => { assert(n.len() == 10); }
                AccountType::ROOT => { assert(n.len() == 4); }
                _ => {}
            }
            }
        }
    }
    assert(n == "LIABILITY"@ <==> t == AccountType::LIABILITY) by {
        if t != AccountType::LIABILITY {
            assert(n.len() != "LIABILITY"@.len() || exists|i: int| 0 <= i < n.len() && n[i] != "LIABILITY"@[i]) by {
            match t {
                AccountType::ASSET => { assert(n.len() == 5); }
                AccountType::BANK => { assert(n.len() == 4); }
                AccountType::CASH => { assert(n.len() == 4); }
                AccountType::CREDIT => { assert(n.len() == 6); }
                AccountType::EQUITY => { assert(n.len() == 6); }
                AccountType::EXPENSE => { assert(n.len() == 7); }
                AccountType::INCOME => { assert(n.len() == 6); }
                AccountType::RECEIVABLE => { assert(n.len() == 10); }
                AccountType::ROOT => { assert(n.len() == 4); }
                _ => {}
            }
            }
        }
    }
    assert(n == "RECEIVABLE"@ <==> t == AccountType::RECEIVABLE) by {
        if t != AccountType::RECEIVABLE {
            assert(n.len() != "RECEIVABLE"@.len() || exists|i: int| 0 <= i < n.len() && n[i] != "RECEIVABLE"@[i]) by {
            match t {
                AccountType::ASSET => { assert(n.len() == 5); }
                AccountType::BANK => { assert(n.len() == 4); }
                AccountType::CASH => { assert(n.len() == 4); }
                AccountType::CREDIT => { assert(n.len() == 6); }
                AccountType::EQUITY => { assert(n.len() == 6); }
                AccountType::EXPENSE => { assert(n.len() == 7); }
                AccountType::INCOME => { assert(n.len() == 6); }
                AccountType::LIABILITY => { assert(n.len() == 9); }
                AccountType::ROOT => { assert(n.len() == 4); }
                _ => {}
            }
            }
        }
    }
    assert(n == "ROOT"@ <==> t == AccountType::ROOT) by {
        if t != AccountType::ROOT {
            assert(n.len() != "ROOT"@.len() || exists|i: int| 0 <= i < n.len() && n[i] != "ROOT"@[i]) by {
            match t {
                AccountType::ASSET => { assert(n.len() == 5); }
                AccountType::BANK => { assert(n[0] != "ROOT"@[0]); }
                AccountType::CASH => { assert(n[0] != "ROOT"@[0]); }
                AccountType::CREDIT => { assert(n.len() == 6); }
                AccountType::EQUITY => { assert(n.len() == 6); }
                AccountType::EXPENSE => { assert(n.len() == 7); }
                AccountType::INCOME => { assert(n.len() == 6); }
                AccountType::LIABILITY => { assert(n.len() == 9); }
                AccountType::RECEIVABLE => { assert(n.len() == 10); }
                _ => {}
            }
            }
        }
    }
}


/// The account types that the account editor offers, in the order it lists them:
/// every type but `ROOT`.
pub open spec fn offered_types() -> Seq<AccountType> {
    seq![
        AccountType::ASSET,
        AccountType::BANK,
        AccountType::CASH,
        AccountType::CREDIT,
        AccountType::EQUITY,
        AccountType::EXPENSE,
        AccountType::INCOME,
        AccountType::LIABILITY,
        AccountType::RECEIVABLE,
    ]
}

/// One option per type of `types`, in order: the option shows the type's own name,
/// and it is marked `SELECTED` exactly when that type is `t`.
pub open spec fn options_for(t: AccountType, types: Seq<AccountType>) -> Seq<char>
    decreases types.len(),
{
    if types.len() == 0 {
        Seq::empty()
    } else {
        options_for(t, types.drop_last()) + "\n                <option "@
            + (if types.last() == t { "SELECTED"@ } else { ""@ }) + ">"@
            + account_type_name(types.last()) + "</option>"@
    }
}

/// Listing one more type of `types` after a prefix adds that type's option.
proof fn lemma_options_extend(head: Seq<char>, t: AccountType, types: Seq<AccountType>, k: int)
    requires
        0 <= k < types.len(),
    ensures
        head + options_for(t, types.take(k + 1))
            == (head + options_for(t, types.take(k))) + select_option(account_type_name(types[k]), types[k] == t),
{
    let longer = types.take(k + 1);
    assert(longer.drop_last() =~= types.take(k));
    assert(longer.last() == types[k]);
    assert(options_for(t, longer)
        =~= options_for(t, types.take(k)) + select_option(account_type_name(types[k]), types[k] == t));
    vstd::seq_lib::lemma_concat_associative(
        head,
        options_for(t, types.take(k)),
        select_option(account_type_name(types[k]), types[k] == t),
    );
}

/// The account editor offers every type but `ROOT`, each once.
pub proof fn lemma_offered_types_are_all_but_root()
    ensures
        offered_types().no_duplicates(),
        forall|u: AccountType| offered_types().contains(u) <==> u != AccountType::ROOT,
{
    let o = offered_types();
    assert forall|i: int, j: int| 0 <= i < o.len() && 0 <= j < o.len() && i != j implies o[i] != o[j] by {
        assert(0 <= i < 9 && 0 <= j < 9);
    }
    assert forall|u: AccountType| o.contains(u) <==> u != AccountType::ROOT by {
        if u != AccountType::ROOT {
            match u {
                AccountType::ASSET => { assert(o[0] == u); }
                AccountType::BANK => { assert(o[1] == u); }
                AccountType::CASH => { assert(o[2] == u); }
                AccountType::CREDIT => { assert(o[3] == u); }
                AccountType::EQUITY => { assert(o[4] == u); }
                AccountType::EXPENSE => { assert(o[5] == u); }
                AccountType::INCOME => { assert(o[6] == u); }
                AccountType::LIABILITY => { assert(o[7] == u); }
                AccountType::RECEIVABLE => { assert(o[8] == u); }
                AccountType::ROOT => {}
            }
        }
    }
}

/// The account-type list of the editor for an account of type `t` lists, for each
/// offered type in order, one option that shows the type's own name and is marked
/// `SELECTED` exactly when it is `t`: so the option of the account's own type, and
/// no other, is selected.
pub proof fn lemma_type_list_selects_own_type(t: AccountType)
    ensures
        account_type_select_spec(t)
            == "\n        <label id='account_editor_account_type_label'>Account Type: \n            <select id='account_editor_account_type_select'>"@
            + options_for(t, offered_types()) + "\n            </select>\n        </label>"@,
        offered_types().no_duplicates(),
        offered_types().contains(t) <==> t != AccountType::ROOT,
{
    lemma_offered_types_are_all_but_root();
    let h = "\n        <label id='account_editor_account_type_label'>Account Type: \n            <select id='account_editor_account_type_select'>"@;
    let o = offered_types();
    assert(o.take(0) =~= Seq::<AccountType>::empty());
    assert(h + options_for(t, o.take(0)) =~= h);
    lemma_options_extend(h, t, o, 0);
    lemma_options_extend(h, t, o, 1);
    lemma_options_extend(h, t, o, 2);
    lemma_options_extend(h, t, o, 3);
    lemma_options_extend(h, t, o, 4);
    lemma_options_extend(h, t, o, 5);
    lemma_options_extend(h, t, o, 6);
    lemma_options_extend(h, t, o, 7);
    lemma_options_extend(h, t, o, 8);
    assert(o.take(9) =~= o);
}

} // verus!
