use vstd::prelude::*;
use rand::Rng;
use crate::sorting::{keyed, keys_of, sort_by_key, stable_sort_by_key, texts_sorted, lemma_stable_sort_by_key_sorts};
use crate::text::{decimal, push_str, string_of, u64_to_decimal};
use crate::transactions::{distinct_descriptions, first_occurrences, lemma_distinct_descriptions};

verus! {

/// The categories of a report: the account names of its splits, each once, in order.
pub open spec fn report_categories_spec(names: Seq<Seq<char>>) -> Seq<Seq<char>> {
    keys_of(stable_sort_by_key(first_occurrences(names).map_values(|k: Seq<char>| (k, ()))))
}

/// The categories of a report for the account names of its splits (see
/// `report_categories_spec`).
pub fn report_categories(account_names: &Vec<String>) -> (r: Vec<String>)
    ensures
        r@.map_values(|s: String| s@) == report_categories_spec(account_names@.map_values(|s: String| s@)),
{
    let distinct = distinct_descriptions(account_names);
    let ghost d = distinct@;
    let mut pairs: Vec<(String, ())> = Vec::new();
    let mut i: usize = 0;
    while i < distinct.len()
        invariant
            0 <= i <= distinct@.len(),
            d == distinct@,
            keyed(pairs@) == d.take(i as int).map_values(|s: String| (s@, ())),
        decreases distinct@.len() - i,
    {
        let ghost before = pairs@;
        pairs.push((distinct[i].clone(), ()));
        proof {
            let a = keyed(pairs@);
            let b = d.take(i as int + 1).map_values(|s: String| (s@, ()));
            assert(keyed(before).len() == before.len());
            assert(d.take(i as int).map_values(|s: String| (s@, ())).len() == i);
            assert(before.len() == i);
            assert(a.len() == i + 1);
            assert(b.len() == i + 1);
            assert forall|j: int| 0 <= j < b.len() implies a[j] == b[j] by {
                if j < i {
                    assert(a[j] == keyed(before)[j]);
                    assert(d.take(i as int).map_values(|s: String| (s@, ()))[j] == b[j]);
                }
            }
            assert(a =~= b);
        }
        i = i + 1;
    }
    proof {
        assert(d.take(d.len() as int) =~= d);
        assert(d.map_values(|s: String| (s@, ())) =~= d.map_values(|s: String| s@).map_values(|k: Seq<char>| (k, ())));
    }
    let sorted = sort_by_key(pairs);
    let mut r: Vec<String> = Vec::new();
    let mut k: usize = 0;
    while k < sorted.len()
        invariant
            0 <= k <= sorted@.len(),
            r@.map_values(|s: String| s@) == keys_of(keyed(sorted@)).take(k as int),
        decreases sorted@.len() - k,
    {
        let ghost before = r@;
        r.push(sorted[k].0.clone());
        proof {
            let a = r@.map_values(|s: String| s@);
            let b = keys_of(keyed(sorted@)).take(k as int + 1);
            assert(before.map_values(|s: String| s@).len() == before.len());
            assert(keys_of(keyed(sorted@)).len() == sorted@.len());
            assert(before.len() == k);
            assert(a.len() == k + 1);
            assert(b.len() == k + 1);
            assert forall|j: int| 0 <= j < b.len() implies a[j] == b[j] by {
                if j < k {
                    assert(a[j] == before.map_values(|s: String| s@)[j]);
                    assert(keys_of(keyed(sorted@)).take(k as int)[j] == b[j]);
                }
            }
            assert(a =~= b);
        }
        k = k + 1;
    }
    proof {
        assert(keys_of(keyed(sorted@)).take(sorted@.len() as int) =~= keys_of(keyed(sorted@)));
    }
    r
}

/// The categories of a report are in order, each appears once, and they are
/// exactly the account names of its splits.
pub proof fn lemma_report_categories(names: Seq<Seq<char>>)
    ensures
        texts_sorted(report_categories_spec(names)),
        report_categories_spec(names).no_duplicates(),
        forall|x: Seq<char>| report_categories_spec(names).contains(x) <==> names.contains(x),
{
    let d = first_occurrences(names);
    lemma_distinct_descriptions(names);
    let p = d.map_values(|k: Seq<char>| (k, ()));
    let q = stable_sort_by_key(p);
    lemma_stable_sort_by_key_sorts(p);
    assert(p.no_duplicates()) by {
        assert forall|i: int, j: int| 0 <= i < p.len() && 0 <= j < p.len() && i != j implies p[i] != p[j] by {
            assert(p[i].0 == d[i]);
            assert(p[j].0 == d[j]);
        }
    }
    p.lemma_multiset_has_no_duplicates();
    q.to_multiset_ensures();
    p.to_multiset_ensures();
    q.lemma_multiset_has_no_duplicates_conv();
    let r = report_categories_spec(names);
    assert(r == keys_of(q));
    assert(r.no_duplicates()) by {
        assert forall|i: int, j: int| 0 <= i < r.len() && 0 <= j < r.len() && i != j implies r[i] != r[j] by {
            assert(q[i] != q[j]);
            assert(q[i].1 == q[j].1);
        }
    }
    assert forall|x: Seq<char>| r.contains(x) <==> names.contains(x) by {
        if r.contains(x) {
            let i = choose|i: int| 0 <= i < r.len() && r[i] == x;
            assert(q.contains(q[i]));
            assert(q.to_multiset().count(q[i]) > 0);
            assert(p.contains(q[i]));
            let j = choose|j: int| 0 <= j < p.len() && p[j] == q[i];
            assert(d[j] == x);
            assert(d.contains(x));
        }
        if names.contains(x) {
            assert(d.contains(x));
            let j = choose|j: int| 0 <= j < d.len() && d[j] == x;
            assert(p[j] == (x, ()));
            assert(p.contains((x, ())));
            assert(p.to_multiset().count((x, ())) > 0);
            assert(q.contains((x, ())));
            let i = choose|i: int| 0 <= i < q.len() && q[i] == (x, ());
            assert(r[i] == x);
        }
    }
}

/// The positions, in order, of the splits that belong to a category.
pub open spec fn category_positions(names: Seq<Seq<char>>, category: Seq<char>) -> Seq<int>
    decreases names.len(),
{
    if names.len() == 0 {
        Seq::empty()
    } else if names.last() == category {
        category_positions(names.drop_last(), category).push(names.len() - 1)
    } else {
        category_positions(names.drop_last(), category)
    }
}

/// The splits whose balance adds up to a category's, in the order they are added.
pub fn category_split_indices(account_names: &Vec<String>, category: &str) -> (r: Vec<usize>)
    ensures
        r@.map_values(|i: usize| i as int) == category_positions(account_names@.map_values(|s: String| s@), category@),
{
    let ghost all = account_names@.map_values(|s: String| s@);
    let cat = string_of(category);
    let mut r: Vec<usize> = Vec::new();
    let mut i: usize = 0;
    while i < account_names.len()
        invariant
            0 <= i <= account_names@.len(),
            all == account_names@.map_values(|s: String| s@),
            cat@ == category@,
            r@.map_values(|i: usize| i as int) == category_positions(all.take(i as int), category@),
        decreases account_names@.len() - i,
    {
        proof {
            assert(all.take(i as int + 1).drop_last() =~= all.take(i as int));
            assert(all.take(i as int + 1).last() == account_names@[i as int]@);
        }
        if account_names[i] == cat {
            r.push(i);
            proof {
                assert(r@.map_values(|i: usize| i as int) =~= category_positions(all.take(i as int), category@).push(i as int));
            }
        }
        i = i + 1;
    }
    proof {
        assert(all.take(account_names@.len() as int) =~= all);
    }
    r
}

/// The splits added into a category's balance are exactly those whose account is the
/// category, each once and in the order of the splits: a position is among them if and
/// only if it is a position of the list whose name equals the category, and the
/// positions come in increasing order.
pub proof fn lemma_category_positions_are_its_splits(names: Seq<Seq<char>>, category: Seq<char>)
    ensures
        forall|k: int|
            #[trigger] category_positions(names, category).contains(k)
                <==> (0 <= k < names.len() && names[k] == category),
        forall|i: int, j: int|
            0 <= i < j < category_positions(names, category).len()
                ==> #[trigger] category_positions(names, category)[i] < #[trigger] category_positions(names, category)[j],
    decreases names.len(),
{
    if names.len() > 0 {
        let rest = names.drop_last();
        lemma_category_positions_are_its_splits(rest, category);
        let p = category_positions(rest, category);
        if names.last() == category {
            let q = p.push(names.len() - 1);
            assert(category_positions(names, category) == q);
            assert forall|k: int| q.contains(k) <==> (0 <= k < names.len() && names[k] == category) by {
                if q.contains(k) {
                    let i = choose|i: int| 0 <= i < q.len() && q[i] == k;
                    if i < p.len() {
                        assert(q[i] == p[i]);
                        assert(p.contains(k));
                        assert(0 <= k < rest.len() && rest[k] == category);
                        assert(rest[k] == names[k]);
                    }
                }
                if 0 <= k < names.len() && names[k] == category {
                    if k < names.len() - 1 {
                        assert(rest[k] == names[k]);
                        assert(p.contains(k));
                        let i = choose|i: int| 0 <= i < p.len() && p[i] == k;
                        assert(q[i] == k);
                    } else {
                        assert(q[q.len() - 1] == k);
                    }
                }
            }
            assert forall|i: int, j: int| 0 <= i < j < q.len() implies q[i] < q[j] by {
                assert(q[i] == p[i]);
                if j == q.len() - 1 {
                    assert(p.contains(p[i]));
                } else {
                    assert(q[j] == p[j]);
                }
            }
        } else {
            assert(category_positions(names, category) == p);
            assert forall|k: int| p.contains(k) <==> (0 <= k < names.len() && names[k] == category) by {
                if 0 <= k < names.len() && names[k] == category {
                    assert(k != names.len() - 1);
                    assert(rest[k] == names[k]);
                }
                if p.contains(k) {
                    assert(0 <= k < rest.len() && rest[k] == category);
                    assert(rest[k] == names[k]);
                }
            }
        }
    }
}

/// Texts joined by commas.
pub open spec fn comma_joined(items: Seq<Seq<char>>) -> Seq<char>
    decreases items.len(),
{
    if items.len() == 0 {
        Seq::empty()
    } else if items.len() == 1 {
        items[0]
    } else {
        comma_joined(items.drop_last()) + seq![','] + items.last()
    }
}

/// Joins texts with commas.
pub fn join_with_commas(items: &Vec<String>) -> (r: String)
    ensures
        r@ == comma_joined(items@.map_values(|s: String| s@)),
{
    let ghost all = items@.map_values(|s: String| s@);
    let mut r = String::new();
    let mut i: usize = 0;
    while i < items.len()
        invariant
            0 <= i <= items@.len(),
            all == items@.map_values(|s: String| s@),
            r@ == comma_joined(all.take(i as int)),
        decreases items@.len() - i,
    {
        proof {
            reveal_strlit(",");
            assert(all.take(i as int + 1).drop_last() =~= all.take(i as int));
        }
        if i > 0 {
            push_str(&mut r, ",");
        }
        push_str(&mut r, items[i].as_str());
        proof {
            if i == 0 {
                assert(r@ =~= all.take(1)[0]);
            }
        }
        i = i + 1;
    }
    proof {
        assert(all.take(items@.len() as int) =~= all);
    }
    r
}

/// A category quoted for the chart's label list: `'name'`.
pub open spec fn quoted_label(name: Seq<char>) -> Seq<char> {
    seq!['\''] + name + seq!['\'']
}

/// The chart's labels: the categories, each quoted, joined by commas.
pub fn chart_labels(categories: &Vec<String>) -> (r: String)
    ensures
        r@ == comma_joined(categories@.map_values(|s: String| quoted_label(s@))),
{
    let mut quoted: Vec<String> = Vec::new();
    let mut i: usize = 0;
    while i < categories.len()
        invariant
            0 <= i <= categories@.len(),
            quoted@.map_values(|s: String| s@) == categories@.take(i as int).map_values(|s: String| quoted_label(s@)),
        decreases categories@.len() - i,
    {
        let mut q = string_of("'");
        push_str(&mut q, categories[i].as_str());
        push_str(&mut q, "'");
        proof {
            reveal_strlit("'");
            assert(q@ =~= quoted_label(categories@[i as int]@));
        }
        let ghost before = quoted@;
        quoted.push(q);
        proof {
            let a = quoted@.map_values(|s: String| s@);
            let b = categories@.take(i as int + 1).map_values(|s: String| quoted_label(s@));
            assert(before.map_values(|s: String| s@).len() == before.len());
            assert(categories@.take(i as int).map_values(|s: String| quoted_label(s@)).len() == i);
            assert(before.len() == i);
            assert(a.len() == i + 1);
            assert(b.len() == i + 1);
            assert forall|j: int| 0 <= j < b.len() implies a[j] == b[j] by {
                if j < i {
                    assert(a[j] == before.map_values(|s: String| s@)[j]);
                    assert(categories@.take(i as int).map_values(|s: String| quoted_label(s@))[j] == b[j]);
                }
            }
            assert(a =~= b);
        }
        i = i + 1;
    }
    proof {
        assert(categories@.take(categories@.len() as int) =~= categories@);
    }
    join_with_commas(&quoted)
}

/// A chart colour `'rgb(r,g,b)'`.
pub open spec fn rgb_text(r: nat, g: nat, b: nat) -> Seq<char> {
    "'rgb("@ + decimal(r) + seq![','] + decimal(g) + seq![','] + decimal(b) + ")'"@
}

/// The text of a chart colour.
pub fn rgb_color_text(red: u8, green: u8, blue: u8) -> (r: String)
    ensures
        r@ == rgb_text(red as nat, green as nat, blue as nat),
{
    let mut t = string_of("'rgb(");
    let d = u64_to_decimal(red as u64);
    push_str(&mut t, d.as_str());
    push_str(&mut t, ",");
    let d = u64_to_decimal(green as u64);
    push_str(&mut t, d.as_str());
    push_str(&mut t, ",");
    let d = u64_to_decimal(blue as u64);
    push_str(&mut t, d.as_str());
    push_str(&mut t, ")'");
    proof {
        reveal_strlit(",");
    }
    t
}

/// A colour component drawn with `rand`'s thread generator, `random_range(0..=255)`.
/// Nothing is promised of the value beyond its type, which holds every outcome.
#[verifier::external_body]
fn random_color_component() -> (c: u8) {
    rand::rng().random_range(0..=255u8)
}

/// Whether a text is a chart colour with some components.
pub open spec fn is_rgb_text(t: Seq<char>) -> bool {
    exists|r: u8, g: u8, b: u8| t == rgb_text(r as nat, g as nat, b as nat)
}

/// One random colour for each slice of the report's chart.
pub fn chart_colors(count: usize) -> (r: Vec<String>)
    ensures
        r@.len() == count,
        forall|i: int| 0 <= i < count ==> is_rgb_text(#[trigger] r@[i]@),
{
    let mut r: Vec<String> = Vec::new();
    let mut i: usize = 0;
    while i < count
        invariant
            0 <= i <= count,
            r@.len() == i,
            forall|k: int| 0 <= k < i ==> is_rgb_text(#[trigger] r@[k]@),
        decreases count - i,
    {
        let red = random_color_component();
        let green = random_color_component();
        let blue = random_color_component();
        let c = rgb_color_text(red, green, blue);
        proof {
            assert(c@ == rgb_text(red as nat, green as nat, blue as nat));
        }
        r.push(c);
        i = i + 1;
    }
    r
}

/// A line of the report's category list: `<li>category:balance</li>`.
pub open spec fn category_item_spec(category: Seq<char>, balance: Seq<char>) -> Seq<char> {
    "<li>"@ + category + ":"@ + balance + "</li>"@
}

/// A line of the report's transaction list: `<li>date: description - category:amount</li>`.
pub open spec fn transaction_item_spec(date: Seq<char>, description: Seq<char>, category: Seq<char>, amount: Seq<char>) -> Seq<char> {
    "<li>"@ + date + ": "@ + description + " - "@ + category + ":"@ + amount + "</li>"@
}

/// The line of the report's transaction list for a split.
pub fn report_transaction_item(date: &str, description: &str, category: &str, amount: &str) -> (r: String)
    ensures
        r@ == transaction_item_spec(date@, description@, category@, amount@),
{
    let mut t = string_of("<li>");
    push_str(&mut t, date);
    push_str(&mut t, ": ");
    push_str(&mut t, description);
    push_str(&mut t, " - ");
    push_str(&mut t, category);
    push_str(&mut t, ":");
    push_str(&mut t, amount);
    push_str(&mut t, "</li>");
    t
}

/// The concatenation of a list of texts.
pub open spec fn concatenated(items: Seq<Seq<char>>) -> Seq<char>
    decreases items.len(),
{
    if items.len() == 0 {
        Seq::empty()
    } else {
        concatenated(items.drop_last()) + items.last()
    }
}

/// The lines of the category list, for categories and their balances' texts.
pub open spec fn category_items(categories: Seq<Seq<char>>, balances: Seq<Seq<char>>) -> Seq<char>
    decreases categories.len(),
{
    if categories.len() == 0 || balances.len() == 0 {
        Seq::empty()
    } else {
        category_items(categories.drop_last(), balances.drop_last()) + category_item_spec(
            categories.last(),
            balances.last(),
        )
    }
}

/// The part of the report for one account type: the list of its categories with
/// their balances and the total, a pie chart of them, then the list of its splits.
/// The numbers come already written (`categories`, `balances`, `total`, `data`,
/// `colors` and `transaction_items`), one balance, datum and colour per category.
pub open spec fn report_spec(
    account_type: Seq<char>,
    categories: Seq<Seq<char>>,
    balances: Seq<Seq<char>>,
    total: Seq<char>,
    data: Seq<Seq<char>>,
    colors: Seq<Seq<char>>,
    transaction_items: Seq<Seq<char>>,
) -> Seq<char> {
    "<div style='display:flex;'><div>"@ + account_type + " Categories<ul>"@ + category_items(categories, balances)
        + "</ul>Total: "@ + total + "</div><div><canvas id='"@ + account_type
        + "_categories_chart' width='400' height='400'></canvas>"@ + "<img style=\"display:none;\" src=\"/\" onerror=\"\n    var ctx = document.querySelector('"@ + "#"@ + account_type
        + "_categories_chart"@ + "'); \n    var chart = new Chart(ctx, {\n    // The type of chart we want to create\n    type: 'pie',\n\n    // The data for our dataset\n    data:{\n        'labels':["@ + comma_joined(categories.map_values(|c: Seq<char>| quoted_label(c)))
        + "],\n        'datasets':[{\n                'label':'My First Dataset',\n                'data':["@ + comma_joined(data) + "],\n                'backgroundColor':["@ + comma_joined(colors) + "]\n        }]\n    },\n\n    // Configuration options go here\n    options: {}\n    });\n    "@ + "\" />"@
        + "</div></div>Transactions List<ul>"@ + concatenated(transaction_items) + "</ul>"@
}

/// The HTML of the report's part for one account type (see `report_spec`).
pub fn report_html(
    account_type: &str,
    categories: &Vec<String>,
    balances: &Vec<String>,
    total: &str,
    data: &Vec<String>,
    colors: &Vec<String>,
    transaction_items: &Vec<String>,
) -> (r: String)
    requires
        balances@.len() == categories@.len(),
    ensures
        r@ == report_spec(
            account_type@,
            categories@.map_values(|s: String| s@),
            balances@.map_values(|s: String| s@),
            total@,
            data@.map_values(|s: String| s@),
            colors@.map_values(|s: String| s@),
            transaction_items@.map_values(|s: String| s@),
        ),
{
    let ghost cats = categories@.map_values(|s: String| s@);
    let ghost bals = balances@.map_values(|s: String| s@);
    let mut h = string_of("<div style='display:flex;'><div>");
    push_str(&mut h, account_type);
    push_str(&mut h, " Categories<ul>");
    let ghost before_items = h@;
    let mut i: usize = 0;
    while i < categories.len()
        invariant
            0 <= i <= categories@.len(),
            balances@.len() == categories@.len(),
            cats == categories@.map_values(|s: String| s@),
            bals == balances@.map_values(|s: String| s@),
            h@ == before_items + category_items(cats.take(i as int), bals.take(i as int)),
        decreases categories@.len() - i,
    {
        push_str(&mut h, "<li>");
        push_str(&mut h, categories[i].as_str());
        push_str(&mut h, ":");
        push_str(&mut h, balances[i].as_str());
        push_str(&mut h, "</li>");
        proof {
            assert(cats.take(i as int + 1).drop_last() =~= cats.take(i as int));
            assert(bals.take(i as int + 1).drop_last() =~= bals.take(i as int));
            assert(h@ =~= before_items + category_items(cats.take(i as int + 1), bals.take(i as int + 1)));
        }
        i = i + 1;
    }
    proof {
        assert(cats.take(categories@.len() as int) =~= cats);
        assert(bals.take(categories@.len() as int) =~= bals);
    }
    push_str(&mut h, "</ul>Total: ");
    push_str(&mut h, total);
    push_str(&mut h, "</div><div><canvas id='");
    push_str(&mut h, account_type);
    push_str(&mut h, "_categories_chart' width='400' height='400'></canvas>");
    push_str(&mut h, "<img style=\"display:none;\" src=\"/\" onerror=\"\n    var ctx = document.querySelector('");
    push_str(&mut h, "#");
    push_str(&mut h, account_type);
    push_str(&mut h, "_categories_chart");
    push_str(&mut h, "'); \n    var chart = new Chart(ctx, {\n    // The type of chart we want to create\n    type: 'pie',\n\n    // The data for our dataset\n    data:{\n        'labels':[");
    let labels = chart_labels(categories);
    push_str(&mut h, labels.as_str());
    push_str(&mut h, "],\n        'datasets':[{\n                'label':'My First Dataset',\n                'data':[");
    let d = join_with_commas(data);
    push_str(&mut h, d.as_str());
    push_str(&mut h, "],\n                'backgroundColor':[");
    let c = join_with_commas(colors);
    push_str(&mut h, c.as_str());
    push_str(&mut h, "]\n        }]\n    },\n\n    // Configuration options go here\n    options: {}\n    });\n    ");
    push_str(&mut h, "\" />");
    push_str(&mut h, "</div></div>Transactions List<ul>");
    let ghost items = transaction_items@.map_values(|s: String| s@);
    let ghost before_txns = h@;
    let mut k: usize = 0;
    while k < transaction_items.len()
        invariant
            0 <= k <= transaction_items@.len(),
            items == transaction_items@.map_values(|s: String| s@),
            h@ == before_txns + concatenated(items.take(k as int)),
        decreases transaction_items@.len() - k,
    {
        push_str(&mut h, transaction_items[k].as_str());
        proof {
            assert(items.take(k as int + 1).drop_last() =~= items.take(k as int));
            assert(h@ =~= before_txns + concatenated(items.take(k as int + 1)));
        }
        k = k + 1;
    }
    proof {
        assert(items.take(transaction_items@.len() as int) =~= items);
        assert(categories@.map_values(|s: String| quoted_label(s@)) =~= cats.map_values(|c: Seq<char>| quoted_label(c)));
    }
    push_str(&mut h, "</ul>");
    h
}

} // verus!
