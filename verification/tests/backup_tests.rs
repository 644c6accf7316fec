use money_manager::backup::{
    backup_renames, backup_start, find_backup_files, parse_u8, sort_by_number_desc_exec, BackupStart,
};

fn strings(v: &[&str]) -> Vec<String> {
    v.iter().map(|s| String::from(*s)).collect()
}

fn pairs(v: &[(&str, &str)]) -> Vec<(String, String)> {
    v.iter().map(|(a, b)| (String::from(*a), String::from(*b))).collect()
}

#[test]
fn backup_copies_are_the_numbered_bak_files() {
    let listing = strings(&["book.gnucash", "book.gnucash(0).bak", "book.gnucash(12).BaK", "notes(3).bak", "x(a).bak", "y(4).bak.old"]);
    assert_eq!(
        find_backup_files("book.gnucash", &listing),
        pairs(&[("book.gnucash(0).bak", "0"), ("book.gnucash(12).BaK", "12")])
    );
}

#[test]
fn numbers_read_like_std_parse() {
    assert_eq!(parse_u8("0"), Some(0));
    assert_eq!(parse_u8("007"), Some(7));
    assert_eq!(parse_u8("+42"), Some(42));
    assert_eq!(parse_u8("255"), Some(255));
    assert_eq!(parse_u8("256"), None);
    assert_eq!(parse_u8(""), None);
    assert_eq!(parse_u8("+"), None);
    assert_eq!(parse_u8("-1"), None);
    assert_eq!(parse_u8("1a"), None);
    for s in ["0", "9", "10", "99", "100", "254", "255", "256", "999", "+7", "", "+", "x"] {
        assert_eq!(parse_u8(s), s.parse::<u8>().ok(), "{}", s);
    }
}

#[test]
fn first_backup_is_created_when_there_is_no_zero_copy() {
    let listing = strings(&["book.gnucash", "book.gnucash(1).bak"]);
    assert!(matches!(backup_start("book.gnucash", &listing, 3), BackupStart::CreateFirstBackup));
}

#[test]
fn few_copies_are_rotated() {
    let listing = strings(&["book.gnucash", "book.gnucash(0).bak", "book.gnucash(1).bak"]);
    assert!(matches!(backup_start("book.gnucash", &listing, 3), BackupStart::Rotate));
    assert_eq!(
        backup_renames("book.gnucash", &listing),
        Some(pairs(&[
            ("book.gnucash(1).bak", "book.gnucash(2).bak"),
            ("book.gnucash(0).bak", "book.gnucash(1).bak"),
        ]))
    );
}

#[test]
fn many_copies_are_pruned_from_the_requested_number_up() {
    let listing = strings(&["b(0).bak", "b(3).bak", "b(1).bak", "b(2).bak", "b"]);
    match backup_start("b", &listing, 2) {
        BackupStart::Prune { deletions, complete } => {
            assert_eq!(deletions, strings(&["b(3).bak", "b(1).bak", "b(2).bak"]));
            assert!(complete);
        }
        _ => panic!("expected pruning"),
    }
}

#[test]
fn pruning_stops_at_an_unreadable_number() {
    let listing = strings(&["b(0).bak", "b(5).bak", "b(300).bak", "b(7).bak"]);
    match backup_start("b", &listing, 1) {
        BackupStart::Prune { deletions, complete } => {
            assert_eq!(deletions, strings(&["b(0).bak", "b(5).bak"]));
            assert!(!complete);
        }
        _ => panic!("expected pruning"),
    }
}

#[test]
fn renames_go_oldest_first_and_keep_ties_in_order() {
    let listing = strings(&["b(1).bak", "b(0).bak", "b(01).bak", "b(2).bak"]);
    assert_eq!(
        backup_renames("b", &listing),
        Some(pairs(&[
            ("b(2).bak", "b(3).bak"),
            ("b(1).bak", "b(2).bak"),
            ("b(01).bak", "b(2).bak"),
            ("b(0).bak", "b(1).bak"),
        ]))
    );
}

#[test]
fn renaming_refuses_unreadable_or_last_numbers() {
    assert_eq!(backup_renames("b", &strings(&["b(999).bak"])), None);
    assert_eq!(backup_renames("b", &strings(&["b(255).bak", "b(0).bak"])), None);
    assert_eq!(backup_renames("b", &strings(&["b(254).bak"])), Some(pairs(&[("b(254).bak", "b(255).bak")])));
    assert_eq!(backup_renames("b", &strings(&["other.txt"])), Some(vec![]));
}

#[test]
fn sort_by_number_is_descending_and_stable() {
    let items = vec![(String::from("a"), 1u8), (String::from("b"), 3), (String::from("c"), 1), (String::from("d"), 2)];
    let sorted = sort_by_number_desc_exec(&items);
    let names: Vec<&str> = sorted.iter().map(|p| p.0.as_str()).collect();
    assert_eq!(names, vec!["b", "d", "a", "c"]);
}

#[test]
fn renames_never_target_the_newest_copy() {
    let listing = strings(&["b(0).bak", "b(9).bak", "b(99).bak", "b(00).bak"]);
    let renames = backup_renames("b", &listing).unwrap();
    assert_eq!(renames.len(), 4);
    for (_, target) in &renames {
        assert_ne!(target, "b(0).bak");
    }
    assert_eq!(renames[0], (String::from("b(99).bak"), String::from("b(100).bak")));
}

#[test]
fn copies_of_other_files_are_left_alone() {
    let listing = strings(&["a.db", "a.db(0).bak", "b.txt(0).bak", "a.db.x(1).bak", "xa.db(2).bak"]);
    assert_eq!(find_backup_files("a.db", &listing), pairs(&[("a.db(0).bak", "0")]));
    assert_eq!(
        backup_renames("a.db", &listing),
        Some(pairs(&[("a.db(0).bak", "a.db(1).bak")]))
    );
}

#[test]
fn pruning_leaves_room_for_the_new_copy() {
    let listing = strings(&["f(0).bak", "f(1).bak", "f(2).bak"]);
    match backup_start("f", &listing, 3) {
        BackupStart::Prune { deletions, complete } => {
            assert_eq!(deletions, strings(&["f(2).bak"]));
            assert!(complete);
        }
        _ => panic!("expected pruning"),
    }
    match backup_start("f", &strings(&["f(0).bak"]), 1) {
        BackupStart::Prune { deletions, .. } => assert_eq!(deletions, strings(&["f(0).bak"])),
        _ => panic!("expected pruning"),
    }
}

#[test]
fn names_with_a_line_feed_are_no_copies() {
    let listing = strings(&["a\nb(0).bak", "x\ny(1).bak"]);
    assert_eq!(find_backup_files("a\nb", &listing), vec![]);
}
