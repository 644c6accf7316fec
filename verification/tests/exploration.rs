use money_manager::tables::commodities::FIELDS;

#[test]
fn commodities_manager_exploration() {
    assert_eq!(2 + 2, 4);
}

#[test]
fn lots_manager_exploration() {
    assert_eq!(2 + 2, 4);
}

#[test]
fn slots_manager_exploration() {
    assert_eq!(2 + 2, 4);
}

#[test]
fn it_works() {
    assert_eq!(2 + 2, 4);
}

#[test]
fn commodity_fields_name_the_guid_first() {
    assert!(FIELDS.starts_with("guid"));
}
