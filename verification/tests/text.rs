use equipment_registry::text::{
    delete_missing_message, greet, missing_message, push_decimal, update_missing_message,
};

fn decimal_of(n: u64) -> String {
    let mut out = String::new();
    push_decimal(&mut out, n);
    out
}

#[test]
fn decimal_of_single_digits() {
    assert_eq!(decimal_of(0), "0");
    assert_eq!(decimal_of(7), "7");
    assert_eq!(decimal_of(9), "9");
}

#[test]
fn decimal_of_powers_of_ten() {
    assert_eq!(decimal_of(10), "10");
    assert_eq!(decimal_of(100), "100");
    assert_eq!(decimal_of(1_000_000), "1000000");
}

#[test]
fn decimal_of_every_digit() {
    assert_eq!(decimal_of(1234567890), "1234567890");
}

#[test]
fn decimal_of_largest_number() {
    assert_eq!(decimal_of(u64::MAX), "18446744073709551615");
}

#[test]
fn decimal_agrees_with_std() {
    for n in [0u64, 1, 9, 10, 11, 99, 101, 999, 1000, 65535, 4294967296, u64::MAX - 1] {
        assert_eq!(decimal_of(n), format!("{}", n));
    }
}

#[test]
fn push_decimal_appends() {
    let mut out = String::from("id=");
    push_decimal(&mut out, 42);
    assert_eq!(out, "id=42");
}

#[test]
fn missing_message_names_the_id() {
    assert_eq!(missing_message(999), "an equipment with id=999 not found");
    assert_eq!(missing_message(0), "an equipment with id=0 not found");
}

#[test]
fn update_missing_message_names_the_id() {
    assert_eq!(
        update_missing_message(999),
        "couldn't update an equipment with id=999. equipment not found"
    );
}

#[test]
fn delete_missing_message_names_the_id() {
    assert_eq!(
        delete_missing_message(999),
        "couldn't delete an equipment with id=999. equipment not found."
    );
}

#[test]
fn greet_says_hello() {
    assert_eq!(greet(String::from("World")), "Hello, World!");
    assert_eq!(greet(String::new()), "Hello, !");
}
