use vstd::prelude::*;
use crate::guid::{convert_string_to_guid, guid_eq, guid_from_text, Guid};
use crate::sorting::{keyed, sort_by_key, stable_sort_by_key};
use crate::tables::accounts::Account;
use crate::text::{push_str, remove_char, string_of, trim, trimmed};

verus! {

/// The text of an amount typed into the transaction editor once spaces, dollar
/// signs and thousands commas are dropped and white space is trimmed.
pub open spec fn cleaned_amount_spec(input: Seq<char>) -> Seq<char> {
    trimmed(input.filter(|c: char| c != ' ').filter(|c: char| c != '$').filter(|c: char| c != ','))
}

/// The amount text the transaction editor tries to read as a number.
pub fn cleaned_amount_text(input: &str) -> (r: String)
    ensures
        r@ == cleaned_amount_spec(input@),
{
    let a = remove_char(input, ' ');
    let b = remove_char(a.as_str(), '$');
    let c = remove_char(b.as_str(), ',');
    trim(c.as_str())
}

/// Whether a transaction adds to the account shown: its change, the negated
/// value `-num/denom`, is at least zero. A zero denominator makes the value an
/// infinity of the numerator's sign, or no number at all for `0/0`, which counts
/// as no increase.
pub open spec fn is_increase_spec(value_num: int, value_denom: int) -> bool {
    if value_denom != 0 {
        value_num * value_denom <= 0
    } else {
        value_num < 0
    }
}

/// Whether a transaction's change goes in the "Increase" column (otherwise in
/// "Decrease").
pub fn transaction_amount_is_increase(value_num: i64, value_denom: i64) -> (r: bool)
    ensures
        r == is_increase_spec(value_num as int, value_denom as int),
{
    if value_denom == 0 {
        value_num < 0
    } else if value_num == 0 {
        proof {
            let n = value_num as int;
            let d = value_denom as int;
            assert(n * d == 0) by (nonlinear_arith)
                requires
                    n == 0,
            ;
        }
        true
    } else {
        proof {
            let n = value_num as int;
            let d = value_denom as int;
            assert((n < 0) != (d < 0) <==> n * d <= 0) by (nonlinear_arith)
                requires
                    n != 0,
                    d != 0,
            ;
        }
        (value_num < 0) != (value_denom < 0)
    }
}

/// The distinct entries of a list, each where it first occurs.
pub open spec fn first_occurrences(s: Seq<Seq<char>>) -> Seq<Seq<char>>
    decreases s.len(),
{
    if s.len() == 0 {
        Seq::empty()
    } else {
        let before = first_occurrences(s.drop_last());
        if before.contains(s.last()) {
            before
        } else {
            before.push(s.last())
        }
    }
}

/// The descriptions offered while typing a transaction are each offered once, and
/// they are exactly the descriptions of the shown transactions.
pub proof fn lemma_distinct_descriptions(s: Seq<Seq<char>>)
    ensures
        first_occurrences(s).no_duplicates(),
        forall|x: Seq<char>| first_occurrences(s).contains(x) <==> s.contains(x),
    decreases s.len(),
{
    if s.len() > 0 {
        let t = s.drop_last();
        lemma_distinct_descriptions(t);
        let b = first_occurrences(t);
        let f = first_occurrences(s);
        if !b.contains(s.last()) {
            assert forall|i: int, j: int| 0 <= i < f.len() && 0 <= j < f.len() && i != j implies f[i] != f[j] by {
                if i == b.len() as int {
                    assert(b.contains(b[j]));
                } else if j == b.len() as int {
                    assert(b.contains(b[i]));
                }
            }
        }
        assert forall|x: Seq<char>| f.contains(x) implies s.contains(x) by {
            if x == s.last() {
                assert(s[s.len() - 1] == x);
            } else {
                let i = choose|i: int| 0 <= i < f.len() && f[i] == x;
                assert(b[i] == x);
                assert(b.contains(x));
                assert(t.contains(x));
                let j = choose|j: int| 0 <= j < t.len() && t[j] == x;
                assert(s[j] == x);
            }
        }
        assert forall|x: Seq<char>| s.contains(x) implies f.contains(x) by {
            let i = choose|i: int| 0 <= i < s.len() && s[i] == x;
            if i < s.len() - 1 {
                assert(t[i] == x);
                assert(t.contains(x));
                let j = choose|j: int| 0 <= j < b.len() && b[j] == x;
                assert(f[j] == x);
            } else if b.contains(x) {
                let j = choose|j: int| 0 <= j < b.len() && b[j] == x;
                assert(f[j] == x);
            } else {
                assert(f[b.len() as int] == x);
            }
        }
    }
}

/// The descriptions offered while typing a new transaction: those of the shown
/// transactions, each once, in the order they first occur.
pub fn distinct_descriptions(descriptions: &Vec<String>) -> (r: Vec<String>)
    ensures
        r@.map_values(|s: String| s@) == first_occurrences(descriptions@.map_values(|s: String| s@)),
{
    let ghost all = descriptions@.map_values(|s: String| s@);
    let mut r: Vec<String> = Vec::new();
    let mut i: usize = 0;
    while i < descriptions.len()
        invariant
            0 <= i <= descriptions@.len(),
            all == descriptions@.map_values(|s: String| s@),
            r@.map_values(|s: String| s@) == first_occurrences(all.take(i as int)),
        decreases descriptions@.len() - i,
    {
        let d = &descriptions[i];
        let ghost seen = r@.map_values(|s: String| s@);
        let mut found = false;
        let mut j: usize = 0;
        while j < r.len()
            invariant
                0 <= j <= r@.len(),
                seen == r@.map_values(|s: String| s@),
                found == (exists|k: int| 0 <= k < j && seen[k] == d@),
            decreases r@.len() - j,
        {
            if r[j] == *d {
                found = true;
            }
            proof {
                assert(seen[j as int] == r@[j as int]@);
            }
            j = j + 1;
        }
        proof {
            assert(all.take(i as int + 1).drop_last() =~= all.take(i as int));
            assert(all.take(i as int + 1).last() == d@);
            if found {
                let k = choose|k: int| 0 <= k < r@.len() && seen[k] == d@;
                assert(seen.contains(d@));
            } else {
                assert(!seen.contains(d@));
            }
        }
        if !found {
            r.push(d.clone());
            proof {
                assert(r@.map_values(|s: String| s@) =~= seen.push(d@));
            }
        }
        i = i + 1;
    }
    proof {
        assert(all.take(descriptions@.len() as int) =~= all);
    }
    r
}

/// The category chosen in the transaction editor: the option at the selected
/// index, when that index names one of the options (a select with nothing chosen
/// has index -1).
pub open spec fn selected_category_spec(option_count: int, selected_index: int) -> Option<u32> {
    if 0 <= selected_index < option_count {
        Some(selected_index as u32)
    } else {
        None
    }
}

/// The index of the category option chosen in the transaction editor.
pub fn selected_category_index(option_count: u32, selected_index: i32) -> (r: Option<u32>)
    ensures
        r == selected_category_spec(option_count as int, selected_index as int),
{
    if 0 <= selected_index && (selected_index as u32) < option_count {
        Some(selected_index as u32)
    } else {
        None
    }
}

/// The message when a category option does not hold a GUID.
pub open spec fn bad_option_message(value: Seq<char>) -> Seq<char> {
    "Failed to convert option value '"@ + value + "' to guid."@
}

/// The category option to preselect for a transaction's account: the first option
/// whose value is that account's GUID. Reading stops with an error at the first
/// option before it whose value is no GUID.
pub fn matching_category_index(option_values: &Vec<String>, account_guid: &Guid) -> (r: Result<Option<usize>, String>)
    ensures
        match r {
            Ok(Some(k)) => {
                &&& k < option_values@.len()
                &&& guid_from_text(option_values@[k as int]@) == Ok::<Seq<u8>, Seq<char>>(account_guid@)
                &&& forall|j: int| 0 <= j < k ==> (#[trigger] guid_from_text(option_values@[j]@)) is Ok
                    && guid_from_text(option_values@[j]@) != Ok::<Seq<u8>, Seq<char>>(account_guid@)
            },
            Ok(None) => forall|j: int|
                0 <= j < option_values@.len() ==> (#[trigger] guid_from_text(option_values@[j]@)) is Ok
                    && guid_from_text(option_values@[j]@) != Ok::<Seq<u8>, Seq<char>>(account_guid@),
            Err(m) => exists|k: int|
                0 <= k < option_values@.len() && (#[trigger] guid_from_text(option_values@[k]@)) is Err
                    && m@ == bad_option_message(option_values@[k]@) && forall|j: int|
                    0 <= j < k ==> (#[trigger] guid_from_text(option_values@[j]@)) is Ok,
        },
{
    let n = option_values.len();
    let mut i: usize = 0;
    while i < n
        invariant
            0 <= i <= n,
            n == option_values@.len(),
            forall|j: int| 0 <= j < i ==> (#[trigger] guid_from_text(option_values@[j]@)) is Ok
                && guid_from_text(option_values@[j]@) != Ok::<Seq<u8>, Seq<char>>(account_guid@),
        decreases n - i,
    {
        let value = option_values[i].clone();
        match convert_string_to_guid(value) {
            Ok(g) => {
                if guid_eq(&g, account_guid) {
                    return Ok(Some(i));
                }
            },
            Err(_) => {
                let mut m = string_of("Failed to convert option value '");
                push_str(&mut m, option_values[i].as_str());
                push_str(&mut m, "' to guid.");
                return Err(m);
            },
        }
        i = i + 1;
    }
    Ok(None)
}

/// A copy of an account record.
pub fn copy_account(a: &Account) -> (r: Account)
    ensures
        r == *a,
{
    Account {
        guid: a.guid,
        name: a.name.clone(),
        account_type: a.account_type,
        commodity_guid: a.commodity_guid,
        commodity_scu: a.commodity_scu,
        non_std_scu: a.non_std_scu,
        parent_guid: a.parent_guid,
        code: a.code.clone(),
        description: a.description.clone(),
        hidden: a.hidden,
        placeholder: a.placeholder,
    }
}

/// The accounts the transaction editor offers as categories: every account but the
/// one whose transactions are shown, by name (accounts of the same name in the
/// order given).
pub open spec fn category_accounts_spec(accounts: Seq<Account>, current: Seq<u8>) -> Seq<Account> {
    stable_sort_by_key(
        accounts.filter(|a: Account| a.guid@ != current).map_values(|a: Account| (a.name@, a)),
    ).map_values(|p: (Seq<char>, Account)| p.1)
}

/// The category accounts of the transaction editor (see `category_accounts_spec`).
pub fn category_accounts(accounts: &Vec<Account>, current: &Guid) -> (r: Vec<Account>)
    ensures
        r@ == category_accounts_spec(accounts@, current@),
{
    let ghost pred = |a: Account| a.guid@ != current@;
    let ghost key = |a: Account| (a.name@, a);
    let mut pairs: Vec<(String, Account)> = Vec::new();
    let mut i: usize = 0;
    while i < accounts.len()
        invariant
            0 <= i <= accounts@.len(),
            pred == (|a: Account| a.guid@ != current@),
            key == (|a: Account| (a.name@, a)),
            keyed(pairs@) == accounts@.take(i as int).filter(pred).map_values(key),
        decreases accounts@.len() - i,
    {
        let a = &accounts[i];
        let ghost before = pairs@;
        proof {
            reveal(Seq::filter);
            assert(accounts@.take(i as int + 1).drop_last() =~= accounts@.take(i as int));
            assert(accounts@.take(i as int + 1).last() == accounts@[i as int]);
        }
        if !guid_eq(&a.guid, current) {
            let c = copy_account(a);
            pairs.push((a.name.clone(), c));
            proof {
                assert(accounts@.take(i as int + 1).filter(pred) == accounts@.take(i as int).filter(pred).push(
                    accounts@[i as int],
                ));
                assert(keyed(pairs@) =~= keyed(before).push((a.name@, *a)));
                assert(accounts@.take(i as int + 1).filter(pred).map_values(key) =~= accounts@.take(i as int).filter(
                    pred,
                ).map_values(key).push(key(accounts@[i as int])));
            }
        } else {
            proof {
                assert(accounts@.take(i as int + 1).filter(pred) == accounts@.take(i as int).filter(pred));
            }
        }
        i = i + 1;
    }
    proof {
        assert(accounts@.take(accounts@.len() as int) =~= accounts@);
    }
    let sorted = sort_by_key(pairs);
    let ghost target = stable_sort_by_key(accounts@.filter(pred).map_values(key));
    let mut r: Vec<Account> = Vec::new();
    let mut k: usize = 0;
    while k < sorted.len()
        invariant
            0 <= k <= sorted@.len(),
            keyed(sorted@) == target,
            r@ == target.take(k as int).map_values(|p: (Seq<char>, Account)| p.1),
        decreases sorted@.len() - k,
    {
        let c = copy_account(&sorted[k].1);
        let ghost before = r@;
        r.push(c);
        proof {
            assert(keyed(sorted@)[k as int] == (sorted@[k as int].0@, sorted@[k as int].1));
            assert(r@ =~= target.take(k as int + 1).map_values(|p: (Seq<char>, Account)| p.1));
        }
        k = k + 1;
    }
    proof {
        assert(keyed(sorted@).len() == sorted@.len());
        assert(target.take(sorted@.len() as int) =~= target);
    }
    r
}

} // verus!
