use cognito_bot::commands::{handle_unregister, menu_rows, prepare_registration, RegisterCheck};
use cognito_bot::registry::Registry;

#[test]
fn empty_name_is_refused() {
    let reg = Registry::new();
    assert!(matches!(
        prepare_registration(&reg, &String::new()),
        RegisterCheck::EmptyName
    ));
}

#[test]
fn name_without_at_sign_is_refused() {
    let reg = Registry::new();
    assert!(matches!(
        prepare_registration(&reg, &String::from("shop")),
        RegisterCheck::MissingAtSign
    ));
}

#[test]
fn overlong_name_is_refused() {
    let reg = Registry::new();
    let name = format!("@{}", "a".repeat(100)); // 101 characters
    assert!(matches!(
        prepare_registration(&reg, &name),
        RegisterCheck::NameTooLong
    ));
}

#[test]
fn owned_destination_is_refused() {
    let mut reg = Registry::new();
    reg.register(7, String::from("@shop"));
    assert!(matches!(
        prepare_registration(&reg, &String::from("@shop")),
        RegisterCheck::AlreadyRegistered
    ));
}

#[test]
fn fresh_destination_is_ready() {
    let mut reg = Registry::new();
    reg.register(7, String::from("@other"));
    assert!(matches!(
        prepare_registration(&reg, &String::from("@shop")),
        RegisterCheck::Ready
    ));
}

#[test]
fn unregister_reports_prior_destination() {
    let mut reg = Registry::new();
    reg.register(42, String::from("@shop"));
    assert_eq!(handle_unregister(&mut reg, 42), Some(String::from("@shop")));
    assert_eq!(reg.lookup_destination(42), None);
    assert_eq!(handle_unregister(&mut reg, 42), None);
}

#[test]
fn menu_rows_pair_in_order() {
    let names: Vec<String> = ["@a", "@b", "@c", "@d", "@e"]
        .iter()
        .map(|s| s.to_string())
        .collect();
    let rows = menu_rows(&names);
    assert_eq!(
        rows,
        vec![
            vec![String::from("@a"), String::from("@b")],
            vec![String::from("@c"), String::from("@d")],
            vec![String::from("@e")],
        ]
    );
}

#[test]
fn menu_rows_even_count_has_no_single_row() {
    let names: Vec<String> = ["@a", "@b", "@c", "@d"].iter().map(|s| s.to_string()).collect();
    let rows = menu_rows(&names);
    assert_eq!(rows.len(), 2);
    assert_eq!(rows[0].len(), 2);
    assert_eq!(rows[1].len(), 2);
}

#[test]
fn menu_rows_of_nothing_is_empty() {
    let rows = menu_rows(&Vec::new());
    assert!(rows.is_empty());
}

#[test]
fn menu_rows_single_name() {
    let rows = menu_rows(&vec![String::from("@a")]);
    assert_eq!(rows, vec![vec![String::from("@a")]]);
}
