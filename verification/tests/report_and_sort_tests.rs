use money_manager::report::{
    category_split_indices, chart_colors, chart_labels, join_with_commas, report_categories, report_html,
    report_transaction_item, rgb_color_text,
};
use money_manager::sorting::{chars_le, sort_by_key};

fn strings(v: &[&str]) -> Vec<String> {
    v.iter().map(|s| String::from(*s)).collect()
}

#[test]
fn categories_are_sorted_and_each_named_once() {
    assert_eq!(
        report_categories(&strings(&["Food", "Rent", "Food", "Auto", "Rent"])),
        strings(&["Auto", "Food", "Rent"])
    );
    assert_eq!(report_categories(&strings(&["b", "B", "a"])), strings(&["B", "a", "b"]));
}

#[test]
fn category_splits_are_found_in_order() {
    assert_eq!(category_split_indices(&strings(&["Food", "Rent", "Food"]), "Food"), vec![0, 2]);
    assert_eq!(category_split_indices(&strings(&["Food"]), "Gas"), Vec::<usize>::new());
}

#[test]
fn chart_texts() {
    assert_eq!(join_with_commas(&strings(&["1", "2", "3"])), "1,2,3");
    assert_eq!(join_with_commas(&vec![]), "");
    assert_eq!(chart_labels(&strings(&["Auto", "Food"])), "'Auto','Food'");
    assert_eq!(rgb_color_text(0, 128, 255), "'rgb(0,128,255)'");
}

#[test]
fn chart_colours_are_rgb_texts() {
    let colors = chart_colors(5);
    assert_eq!(colors.len(), 5);
    for c in &colors {
        assert!(c.starts_with("'rgb(") && c.ends_with(")'"));
        let inner = &c[5..c.len() - 2];
        let parts: Vec<&str> = inner.split(',').collect();
        assert_eq!(parts.len(), 3);
        for p in parts {
            let v: u32 = p.parse().unwrap();
            assert!(v <= 255);
        }
    }
}

#[test]
fn transaction_line_of_the_report() {
    assert_eq!(
        report_transaction_item("2012-08-01", "Groceries", "Food", "12.50"),
        "<li>2012-08-01: Groceries - Food:12.50</li>"
    );
}

#[test]
fn report_part_lists_categories_chart_and_splits() {
    let h = report_html(
        "EXPENSE",
        &strings(&["Food", "Rent"]),
        &strings(&["10.00", "500.00"]),
        "510.00",
        &strings(&["10", "500"]),
        &strings(&["'rgb(1,2,3)'", "'rgb(4,5,6)'"]),
        &strings(&["<li>a</li>", "<li>b</li>"]),
    );
    assert!(h.starts_with("<div style='display:flex;'><div>EXPENSE Categories<ul><li>Food:10.00</li><li>Rent:500.00</li></ul>Total: 510.00</div>"));
    assert!(h.contains("<canvas id='EXPENSE_categories_chart'"));
    assert!(h.contains("'labels':['Food','Rent']"));
    assert!(h.contains("'data':[10,500]"));
    assert!(h.contains("'backgroundColor':['rgb(1,2,3)','rgb(4,5,6)']"));
    assert!(h.ends_with("Transactions List<ul><li>a</li><li>b</li></ul>"));
}

#[test]
fn sort_by_key_is_stable() {
    let items = vec![
        (String::from("b"), 1),
        (String::from("a"), 2),
        (String::from("b"), 3),
        (String::from("ab"), 4),
        (String::from("a"), 5),
    ];
    let sorted = sort_by_key(items);
    let order: Vec<i32> = sorted.iter().map(|p| p.1).collect();
    assert_eq!(order, vec![2, 5, 4, 1, 3]);
}

#[test]
fn text_order_is_by_code_point_prefix_first() {
    let v = |s: &str| s.chars().collect::<Vec<char>>();
    assert!(chars_le(&v("ab"), &v("abc")));
    assert!(!chars_le(&v("abc"), &v("ab")));
    assert!(chars_le(&v("B"), &v("a")));
    assert!(chars_le(&v("same"), &v("same")));
}
